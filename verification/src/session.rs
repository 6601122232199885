//! Which session belongs to which local sender.
use std::collections::HashMap;
use vstd::prelude::*;
#[allow(unused_imports)]
use vstd::wrapping::u32_specs;

verus! {

/// The address of a UDP sender.
#[allow(inconsistent_fields)]
#[derive(Debug, Clone, Copy, PartialEq, Eq, Structural)]
pub enum SocketAddr {
    V4 { ip: u32, port: u16 },
    V6 { ip: u128, port: u16, flowinfo: u32, scope_id: u32 },
}

impl SocketAddr {
    /// The bucket of the session table that an address falls into.
    pub open spec fn spec_bucket(self) -> u128 {
        match self {
            SocketAddr::V4 { ip, port } => (ip * 65536 + port) as u128,
            SocketAddr::V6 { ip, .. } => ip,
        }
    }

    fn bucket(&self) -> (key: u128)
        ensures
            key == self.spec_bucket(),
    {
        match self {
            SocketAddr::V4 { ip, port } => *ip as u128 * 65536 + *port as u128,
            SocketAddr::V6 { ip, .. } => *ip,
        }
    }
}

/// The sessions of a client: which id each sender has, where each id leads,
/// and the id that the next new sender gets.
pub struct SessionTable {
    pub addr_by_id: Map<u32, SocketAddr>,
    pub id_by_addr: Map<SocketAddr, u32>,
    pub next_id: u32,
}

impl SessionTable {
    /// The table before any sender was seen.
    pub open spec fn empty() -> SessionTable {
        SessionTable { addr_by_id: Map::empty(), id_by_addr: Map::empty(), next_id: 1 }
    }

    /// The id that a sender has, or would get.
    pub open spec fn id_for(self, addr: SocketAddr) -> u32 {
        if self.id_by_addr.contains_key(addr) {
            self.id_by_addr[addr]
        } else {
            self.next_id
        }
    }

    /// The table once the sender has an id.
    pub open spec fn with(self, addr: SocketAddr) -> SessionTable {
        if self.id_by_addr.contains_key(addr) {
            self
        } else {
            SessionTable {
                addr_by_id: self.addr_by_id.insert(self.next_id, addr),
                id_by_addr: self.id_by_addr.insert(addr, self.next_id),
                next_id: u32_specs::wrapping_add(self.next_id, 1),
            }
        }
    }

    /// The sender that an id leads to.
    pub open spec fn addr_of(self, session_id: u32) -> Option<SocketAddr> {
        if self.addr_by_id.contains_key(session_id) {
            Some(self.addr_by_id[session_id])
        } else {
            None
        }
    }

    /// The id that the sender number `n` gets, counted from zero.
    pub open spec fn nth_id(n: nat) -> u32 {
        ((n + 1) % 0x1_0000_0000) as u32
    }

    /// Whether the table is what `count` different senders leave, each with an
    /// id of its own that leads back to it.
    pub open spec fn numbered(self, count: nat) -> bool {
        &&& self.next_id == Self::nth_id(count)
        &&& forall|id: u32| #[trigger]
            self.addr_by_id.contains_key(id) ==> {
                &&& self.id_by_addr.contains_key(self.addr_by_id[id])
                &&& self.id_by_addr[self.addr_by_id[id]] == id
                &&& exists|n: nat| n < count && #[trigger] Self::nth_id(n) == id
            }
        &&& forall|addr: SocketAddr| #[trigger]
            self.id_by_addr.contains_key(addr) ==> {
                &&& self.addr_by_id.contains_key(self.id_by_addr[addr])
                &&& self.addr_by_id[self.id_by_addr[addr]] == addr
            }
    }
}

/// The id that the first entry of the address has in a bucket.
pub open spec fn found(bucket: Seq<(SocketAddr, u32)>, addr: SocketAddr) -> Option<u32>
    decreases bucket.len(),
{
    if bucket.len() == 0 {
        None
    } else {
        match found(bucket.drop_last(), addr) {
            Some(id) => Some(id),
            None => if bucket.last().0 == addr {
                Some(bucket.last().1)
            } else {
                None
            },
        }
    }
}

/// The session table of a client.
pub struct ClientSessions {
    addr_by_id: HashMap<u32, SocketAddr>,
    buckets: HashMap<u128, Vec<(SocketAddr, u32)>>,
    next_id: u32,
}

impl View for ClientSessions {
    type V = SessionTable;

    closed spec fn view(&self) -> SessionTable {
        SessionTable {
            addr_by_id: self.addr_by_id@,
            id_by_addr: Map::new(
                |addr: SocketAddr| self.lookup(addr) is Some,
                |addr: SocketAddr| self.lookup(addr)->Some_0,
            ),
            next_id: self.next_id,
        }
    }
}

impl ClientSessions {
    closed spec fn lookup(self, addr: SocketAddr) -> Option<u32> {
        if self.buckets@.contains_key(addr.spec_bucket()) {
            found(self.buckets@[addr.spec_bucket()]@, addr)
        } else {
            None
        }
    }

    /// A table without sessions; the first one will get id 1.
    pub fn new() -> (sessions: Self)
        ensures
            sessions@ == SessionTable::empty(),
    {
        let sessions = ClientSessions {
            addr_by_id: HashMap::new(),
            buckets: HashMap::new(),
            next_id: 1,
        };
        assert(sessions@.id_by_addr =~= Map::<SocketAddr, u32>::empty());
        sessions
    }

    /// The session of the sender: the one it has, or a new one.
    pub fn get_or_create(&mut self, addr: SocketAddr) -> (session_id: u32)
        ensures
            session_id == old(self)@.id_for(addr),
            final(self)@ == old(self)@.with(addr),
    {
        broadcast use vstd::std_specs::hash::group_hash_axioms;

        let key: u128 = addr.bucket();
        if let Some(bucket) = self.buckets.get(&key) {
            if let Some(id) = find_in(bucket, addr) {
                return id;
            }
        }
        let mut bucket: Vec<(SocketAddr, u32)> = match self.buckets.remove(&key) {
            Some(bucket) => bucket,
            None => Vec::new(),
        };
        let ghost before = bucket@;
        let id: u32 = self.next_id;
        bucket.push((addr, id));
        let ghost after = bucket@;
        self.next_id = self.next_id.wrapping_add(1);
        self.buckets.insert(key, bucket);
        self.addr_by_id.insert(id, addr);
        assert forall|other: SocketAddr| #[trigger] self.lookup(other) == (if other == addr {
            Some(id)
        } else {
            old(self).lookup(other)
        }) by {
            assert(after.drop_last() =~= before);
            if !old(self).buckets@.contains_key(key) {
                assert(found(before, other) is None);
            }
            assert(found(after, other) == match found(before, other) {
                Some(seen) => Some(seen),
                None => if addr == other {
                    Some(id)
                } else {
                    None
                },
            });
        }
        assert(self@.id_by_addr =~= old(self)@.with(addr).id_by_addr);
        id
    }

    /// The sender that the session belongs to.
    pub fn get_addr(&self, session_id: u32) -> (addr: Option<SocketAddr>)
        ensures
            addr == self@.addr_of(session_id),
    {
        broadcast use vstd::std_specs::hash::group_hash_axioms;

        match self.addr_by_id.get(&session_id) {
            Some(addr) => Some(*addr),
            None => None,
        }
    }
}

fn find_in(bucket: &Vec<(SocketAddr, u32)>, addr: SocketAddr) -> (id: Option<u32>)
    ensures
        id == found(bucket@, addr),
{
    let mut i: usize = 0;
    assert(bucket@.take(0) =~= seq![]);
    while i < bucket.len()
        invariant
            i <= bucket@.len(),
            found(bucket@.take(i as int), addr) is None,
        decreases bucket@.len() - i,
    {
        assert(bucket@.take(i + 1).drop_last() =~= bucket@.take(i as int));
        if bucket[i].0 == addr {
            proof {
                lemma_found_prefix(bucket@, i + 1, addr);
            }
            return Some(bucket[i].1);
        }
        i = i + 1;
    }
    assert(bucket@.take(i as int) =~= bucket@);
    None
}

proof fn lemma_found_prefix(bucket: Seq<(SocketAddr, u32)>, n: int, addr: SocketAddr)
    requires
        0 <= n <= bucket.len(),
        found(bucket.take(n), addr) is Some,
    ensures
        found(bucket, addr) == found(bucket.take(n), addr),
    decreases bucket.len(),
{
    if n == bucket.len() {
        assert(bucket.take(n) =~= bucket);
    } else {
        assert(bucket.drop_last().take(n) =~= bucket.take(n));
        lemma_found_prefix(bucket.drop_last(), n, addr);
    }
}

/// An empty table is numbered from zero.
pub proof fn law_empty_table_is_numbered()
    ensures
        SessionTable::empty().numbered(0),
{
}

/// The session of a sender leads back to it, and every sender has one of its
/// own for as long as there are ids left: `count` senders were seen before, and
/// the table is full once there were 2^32 of them.
pub proof fn law_sessions_lead_back(table: SessionTable, count: nat, addr: SocketAddr)
    requires
        table.numbered(count),
    ensures
        table.with(addr).addr_of(table.id_for(addr)) == Some(addr),
        table.id_by_addr.contains_key(addr) ==> table.with(addr).numbered(count),
        !table.id_by_addr.contains_key(addr) && count < 0x1_0000_0000 ==> table.with(
            addr,
        ).numbered(count + 1),
{
    let after = table.with(addr);
    if !table.id_by_addr.contains_key(addr) && count < 0x1_0000_0000 {
        let id = table.next_id;
        assert(!table.addr_by_id.contains_key(id)) by {
            if table.addr_by_id.contains_key(id) {
                let n = choose|n: nat| n < count && #[trigger] SessionTable::nth_id(n) == id;
                assert(n == count);
            }
        }
        assert(SessionTable::nth_id(count) == id);
        assert forall|other: u32| #[trigger] after.addr_by_id.contains_key(other) implies {
            &&& after.id_by_addr.contains_key(after.addr_by_id[other])
            &&& after.id_by_addr[after.addr_by_id[other]] == other
            &&& exists|n: nat| n < count + 1 && #[trigger] SessionTable::nth_id(n) == other
        } by {
            if other != id {
                let n = choose|n: nat| n < count && #[trigger] SessionTable::nth_id(n) == other;
                assert(n < count + 1 && SessionTable::nth_id(n) == other);
            } else {
                assert(count < count + 1 && SessionTable::nth_id(count) == other);
            }
        }
    }
}

/// Two senders never share a session.
pub proof fn law_sessions_unique(table: SessionTable, count: nat, a: SocketAddr, b: SocketAddr)
    requires
        table.numbered(count),
        table.id_by_addr.contains_key(a),
        table.id_by_addr.contains_key(b),
        a != b,
    ensures
        table.id_by_addr[a] != table.id_by_addr[b],
{
}

/// A sender keeps its session, whoever comes after it.
pub proof fn law_sessions_stable(table: SessionTable, addr: SocketAddr, other: SocketAddr)
    requires
        table.id_by_addr.contains_key(addr),
    ensures
        table.with(other).id_by_addr.contains_key(addr),
        table.with(other).id_for(addr) == table.id_for(addr),
{
}

/// The first sender gets session 1, and every new one the number after that of
/// the last new one, beginning with 0 again after the largest. One that is known
/// keeps its session, and nothing changes for it.
pub proof fn law_ids_count_up(table: SessionTable, addr: SocketAddr)
    ensures
        SessionTable::empty().next_id == 1,
        forall|a: SocketAddr| !SessionTable::empty().id_by_addr.contains_key(a),
        forall|id: u32| SessionTable::empty().addr_of(id) is None,
        !table.id_by_addr.contains_key(addr) ==> {
            &&& table.id_for(addr) == table.next_id
            &&& table.with(addr).next_id == (table.next_id + 1) % 0x1_0000_0000
        },
        table.id_by_addr.contains_key(addr) ==> {
            &&& table.id_for(addr) == table.id_by_addr[addr]
            &&& table.with(addr) == table
        },
{
}

/// A new sender changes nothing but what leads from it to its session and back:
/// every other sender has the session it had, every other session leads where it
/// led.
pub proof fn law_new_sender_changes_only_its_own(
    table: SessionTable,
    addr: SocketAddr,
    other: SocketAddr,
    id: u32,
)
    requires
        !table.id_by_addr.contains_key(addr),
    ensures
        table.with(addr).id_by_addr.contains_key(addr),
        table.with(addr).id_for(addr) == table.next_id,
        table.with(addr).addr_of(table.next_id) == Some(addr),
        other != addr ==> {
            &&& table.with(addr).id_by_addr.contains_key(other)
                == table.id_by_addr.contains_key(other)
            &&& table.id_by_addr.contains_key(other) ==> table.with(addr).id_for(other)
                == table.id_for(other)
        },
        id != table.next_id ==> table.with(addr).addr_of(id) == table.addr_of(id),
        table.addr_of(id) is Some <==> table.addr_by_id.contains_key(id),
        table.addr_of(id) matches Some(a) ==> a == table.addr_by_id[id],
{
}

} // verus!
