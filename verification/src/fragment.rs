//! The datagram format of the UDP tunnel.
//!
//! Every datagram starts with a five-byte prefix: the session id as a
//! big-endian 32-bit number and one byte that tells the kind of fragment.
//!
//! | kind     | after the prefix                         | header |
//! |----------|------------------------------------------|--------|
//! | `SINGLE` | payload length (16 bits), the payload    | 7      |
//! | `FIRST`  | total length (16 bits), the first part   | 7      |
//! | `MIDDLE` | the next part                            | 5      |
//! | `LAST`   | the last part                            | 5      |
use std::collections::HashMap;
use vstd::prelude::*;
use vstd::slice::slice_subrange;
use crate::endian::{get_be16, put_be16, put_be32, put_bytes};
#[allow(unused_imports)]
use crate::endian::{be16, be16_value, be32, be32_value};

verus! {

/// A message that fits one datagram.
pub const SINGLE: u8 = 0x00;

/// The first fragment of a longer message.
pub const FIRST: u8 = 0x01;

/// A fragment that is neither the first nor the last one.
pub const MIDDLE: u8 = 0x02;

/// The fragment that ends a message.
pub const LAST: u8 = 0x03;

/// Bytes in front of the payload of a `SINGLE` or `FIRST` datagram.
pub const LONG_HEADER: usize = 7;

/// Bytes in front of the payload of a `MIDDLE` or `LAST` datagram.
pub const SHORT_HEADER: usize = 5;

/// The views of a sequence of byte vectors.
pub open spec fn contents(frames: Seq<Vec<u8>>) -> Seq<Seq<u8>> {
    frames.map_values(|frame: Vec<u8>| frame@)
}

/// The common prefix of every datagram.
pub open spec fn prefix(session_id: u32, kind: u8) -> Seq<u8> {
    be32(session_id) + seq![kind]
}

/// A datagram of kind `SINGLE` or `FIRST`: it announces `len` modulo 65536.
pub open spec fn long_frame(session_id: u32, kind: u8, len: nat, chunk: Seq<u8>) -> Seq<u8> {
    prefix(session_id, kind) + be16(len) + chunk
}

/// A datagram of kind `MIDDLE` or `LAST`.
pub open spec fn short_frame(session_id: u32, kind: u8, chunk: Seq<u8>) -> Seq<u8> {
    prefix(session_id, kind) + chunk
}

/// How much of a payload goes into a `FIRST` datagram of at most `max_dgram` bytes.
pub open spec fn first_room(max_dgram: nat) -> nat {
    if max_dgram >= 7 {
        (max_dgram - 7) as nat
    } else {
        0
    }
}

/// The datagrams that carry `rest` after a `FIRST` one, with `room` bytes in each:
/// full `MIDDLE` ones while more than `room` bytes are left, then one `LAST`.
pub open spec fn continuation(session_id: u32, rest: Seq<u8>, room: nat) -> Seq<Seq<u8>>
    decreases rest.len(),
{
    if rest.len() == 0 {
        seq![]
    } else if rest.len() <= room || room == 0 {
        seq![short_frame(session_id, LAST, rest)]
    } else {
        seq![short_frame(session_id, MIDDLE, rest.take(room as int))] + continuation(
            session_id,
            rest.skip(room as int),
            room,
        )
    }
}

/// Whether a payload travels in one datagram: it fits, or there is nothing in
/// it to split.
pub open spec fn is_single(payload: Seq<u8>, max_dgram: nat) -> bool {
    payload.len() == 0 || payload.len() + 7 <= max_dgram
}

/// The datagrams of at most `max_dgram` bytes that carry `payload`: always one
/// at least.
pub open spec fn datagrams(session_id: u32, payload: Seq<u8>, max_dgram: nat) -> Seq<Seq<u8>> {
    if is_single(payload, max_dgram) {
        seq![long_frame(session_id, SINGLE, payload.len(), payload)]
    } else {
        let cut = first_room(max_dgram) as int;
        seq![long_frame(session_id, FIRST, payload.len(), payload.take(cut))] + continuation(
            session_id,
            payload.skip(cut),
            (max_dgram - 5) as nat,
        )
    }
}

/// Splits `payload` into one or more datagrams of at most `max_dgram` bytes,
/// keyed by `session_id`: one `SINGLE` datagram where it fits, otherwise a
/// `FIRST`, as many `MIDDLE` ones as it takes, and a `LAST`.
///
/// An empty payload is one `SINGLE` datagram, of seven bytes, whatever the
/// limit. With five bytes or fewer per datagram there is no room for any other
/// payload, so only an empty one is accepted then.
pub fn build_datagrams(session_id: u32, payload: &[u8], max_dgram: usize) -> (frames: Vec<Vec<u8>>)
    requires
        payload@.len() == 0 || max_dgram >= 6,
    ensures
        contents(frames@) == datagrams(session_id, payload@, max_dgram as nat),
        frames@.len() >= 1,
{
    let total: usize = payload.len();
    if total == 0 || (max_dgram >= LONG_HEADER && total <= max_dgram - LONG_HEADER) {
        let mut frame: Vec<u8> = Vec::with_capacity(LONG_HEADER + total);
        put_prefix(&mut frame, session_id, SINGLE);
        put_be16(&mut frame, total);
        put_bytes(&mut frame, payload);
        let mut frames: Vec<Vec<u8>> = Vec::new();
        frames.push(frame);
        assert(contents(frames@) =~= datagrams(session_id, payload@, max_dgram as nat));
        return frames;
    }
    let mut frames: Vec<Vec<u8>> = Vec::new();
    let cut: usize = max_dgram.saturating_sub(LONG_HEADER);
    let mut frame: Vec<u8> = Vec::with_capacity(LONG_HEADER + cut);
    put_prefix(&mut frame, session_id, FIRST);
    put_be16(&mut frame, total);
    put_bytes(&mut frame, slice_subrange(payload, 0, cut));
    assert(payload@.subrange(0, cut as int) == payload@.take(cut as int));
    frames.push(frame);

    let room: usize = max_dgram - SHORT_HEADER;
    let mut offset: usize = cut;
    assert(contents(frames@) + continuation(session_id, payload@.skip(cut as int), room as nat)
        =~= datagrams(session_id, payload@, max_dgram as nat));
    while offset < total
        invariant
            offset <= total,
            total == payload@.len(),
            room >= 1,
            frames@.len() >= 1,
            contents(frames@) + continuation(session_id, payload@.skip(offset as int), room as nat)
                == datagrams(session_id, payload@, max_dgram as nat),
        decreases total - offset,
    {
        let remaining: usize = total - offset;
        let kind: u8 = if remaining <= room {
            LAST
        } else {
            MIDDLE
        };
        let chunk: usize = if remaining <= room {
            remaining
        } else {
            room
        };
        let mut frame: Vec<u8> = Vec::with_capacity(SHORT_HEADER);
        put_prefix(&mut frame, session_id, kind);
        put_bytes(&mut frame, slice_subrange(payload, offset, offset + chunk));
        let ghost before = frames@;
        let ghost rest = payload@.skip(offset as int);
        frames.push(frame);
        proof {
            let part = payload@.subrange(offset as int, offset + chunk);
            assert(part =~= rest.take(chunk as int));
            assert(rest.skip(chunk as int) =~= payload@.skip(offset + chunk));
            assert(contents(frames@) =~= contents(before) + seq![
                short_frame(session_id, kind, part),
            ]);
            if remaining <= room {
                assert(part =~= rest);
            }
            assert(contents(frames@) + continuation(
                session_id,
                payload@.skip(offset + chunk),
                room as nat,
            ) =~= contents(before) + continuation(session_id, rest, room as nat));
        }
        offset = offset + chunk;
    }
    assert(contents(frames@) =~= contents(frames@) + continuation(
        session_id,
        payload@.skip(offset as int),
        room as nat,
    ));
    frames
}

/// Appends the common prefix.
fn put_prefix(out: &mut Vec<u8>, session_id: u32, kind: u8)
    ensures
        final(out)@ == old(out)@ + prefix(session_id, kind),
{
    put_be32(out, session_id);
    out.push(kind);
    assert(out@ =~= old(out)@ + prefix(session_id, kind));
}

/// Buffer for putting a fragmented message together.
#[derive(Debug)]
pub struct ReassemblyBuf {
    /// The length that the `FIRST` fragment announced.
    pub total_len: usize,
    /// The parts received so far.
    pub data: Vec<u8>,
}

/// What a `ReassemblyBuf` holds.
pub struct Partial {
    pub total_len: nat,
    pub data: Seq<u8>,
}

impl View for ReassemblyBuf {
    type V = Partial;

    open spec fn view(&self) -> Partial {
        Partial { total_len: self.total_len as nat, data: self.data@ }
    }
}

/// What the buffers of all sessions hold.
pub open spec fn pending(bufs: Map<u32, ReassemblyBuf>) -> Map<u32, Partial> {
    bufs.map_values(|buf: ReassemblyBuf| buf@)
}

/// The buffers after a datagram, and the message that it completed, if any.
pub struct Fed {
    pub pending: Map<u32, Partial>,
    pub message: Option<Seq<u8>>,
}

/// What the first two bytes of `data` announce.
pub open spec fn announced(data: Seq<u8>) -> nat {
    be16_value(data[0], data[1])
}

/// The part of a message that a session has after another fragment.
pub open spec fn extended(partial: Partial, data: Seq<u8>) -> Partial {
    Partial { total_len: partial.total_len, data: partial.data + data }
}

/// The message that a `Partial` stands for once its last fragment is in: as many
/// bytes as were announced, or none if that many did not come.
pub open spec fn finished(partial: Partial) -> Option<Seq<u8>> {
    if partial.data.len() >= partial.total_len {
        Some(partial.data.take(partial.total_len as int))
    } else {
        None
    }
}

/// What the body of a datagram does to the buffers.
pub open spec fn feed(
    pending: Map<u32, Partial>,
    session_id: u32,
    kind: u8,
    data: Seq<u8>,
) -> Fed {
    if kind == SINGLE && data.len() >= 2 && 2 + announced(data) <= data.len() {
        Fed { pending, message: Some(data.subrange(2, 2 + announced(data) as int)) }
    } else if kind == FIRST && data.len() >= 2 {
        let begun = Partial { total_len: announced(data), data: data.skip(2) };
        Fed { pending: pending.insert(session_id, begun), message: None }
    } else if kind == MIDDLE && pending.contains_key(session_id) {
        let more = extended(pending[session_id], data);
        Fed { pending: pending.insert(session_id, more), message: None }
    } else if kind == LAST && pending.contains_key(session_id) {
        let all = extended(pending[session_id], data);
        Fed { pending: pending.remove(session_id), message: finished(all) }
    } else {
        Fed { pending, message: None }
    }
}

/// Feeds the body of a received datagram (everything after the five-byte
/// prefix) into the buffers. Returns the message once it is complete: its last
/// fragment is in, and all the bytes that its first one announced.
///
/// A `LAST` fragment that leaves bytes missing ends its message without one. A
/// `SINGLE` body shorter than it announces, a body without room for the
/// length it has to announce, a fragment of a message that never began, and an
/// unknown kind are discarded and leave the buffers alone. A `FIRST` fragment
/// replaces an incomplete message of the same session.
pub fn feed_fragment(
    bufs: &mut HashMap<u32, ReassemblyBuf>,
    session_id: u32,
    frag_type: u8,
    data: &[u8],
) -> (message: Option<Vec<u8>>)
    ensures
        ({
            let fed = feed(pending(old(bufs)@), session_id, frag_type, data@);
            &&& pending(final(bufs)@) == fed.pending
            &&& message is Some == fed.message is Some
            &&& message matches Some(m) ==> m@ == fed.message->Some_0
        }),
{
    broadcast use vstd::std_specs::hash::group_hash_axioms;

    if frag_type == SINGLE {
        if data.len() < 2 {
            return None;
        }
        let end: usize = 2 + get_be16(data[0], data[1]) as usize;
        if end > data.len() {
            return None;
        }
        let mut message: Vec<u8> = Vec::with_capacity(end - 2);
        put_bytes(&mut message, slice_subrange(data, 2, end));
        return Some(message);
    }
    if frag_type == FIRST {
        if data.len() < 2 {
            return None;
        }
        let total_len: usize = get_be16(data[0], data[1]) as usize;
        let mut begun: Vec<u8> = Vec::with_capacity(total_len);
        put_bytes(&mut begun, slice_subrange(data, 2, data.len()));
        let buf = ReassemblyBuf { total_len, data: begun };
        assert(buf.data@ =~= data@.skip(2));
        bufs.insert(session_id, buf);
        assert(pending(bufs@) =~= feed(pending(old(bufs)@), session_id, frag_type, data@).pending);
        return None;
    }
    if frag_type == MIDDLE || frag_type == LAST {
        if let Some(mut buf) = bufs.remove(&session_id) {
            put_bytes(&mut buf.data, data);
            if frag_type == LAST {
                assert(pending(bufs@) =~= feed(
                    pending(old(bufs)@),
                    session_id,
                    frag_type,
                    data@,
                ).pending);
                let mut message = buf.data;
                if message.len() < buf.total_len {
                    return None;
                }
                message.truncate(buf.total_len);
                return Some(message);
            }
            bufs.insert(session_id, buf);
            assert(pending(bufs@) =~= feed(pending(old(bufs)@), session_id, frag_type, data@).pending);
        } else {
            assert(pending(bufs@) =~= pending(old(bufs)@));
        }
    }
    None
}

/// A message that a `LAST` fragment completes has exactly the length that was
/// announced for it, and is what its fragments carried; if they carried less,
/// there is no message. Either way the buffer of the session is gone.
pub proof fn law_completed_message_is_whole(
    pending: Map<u32, Partial>,
    session_id: u32,
    data: Seq<u8>,
)
    requires
        pending.contains_key(session_id),
    ensures
        ({
            let fed = feed(pending, session_id, LAST, data);
            let carried = pending[session_id].data + data;
            let announced = pending[session_id].total_len;
            &&& fed.message is Some <==> carried.len() >= announced
            &&& fed.message matches Some(message) ==> {
                &&& message.len() == announced
                &&& message == carried.take(announced as int)
            }
            &&& fed.pending == pending.remove(session_id)
        }),
{
}

/// What is said of byte vectors is said of all their bytes, one for one.
pub proof fn law_contents_are_the_bytes(frames: Seq<Vec<u8>>)
    ensures
        contents(frames).len() == frames.len(),
        forall|i: int| 0 <= i < frames.len() ==> #[trigger] contents(frames)[i] == frames[i]@,
{
}

/// What is said of the buffers is said of every buffer, and of all it holds.
pub proof fn law_pending_is_every_buffer(bufs: Map<u32, ReassemblyBuf>, session_id: u32)
    ensures
        pending(bufs).contains_key(session_id) == bufs.contains_key(session_id),
        bufs.contains_key(session_id) ==> {
            &&& pending(bufs)[session_id].total_len == bufs[session_id].total_len
            &&& pending(bufs)[session_id].data == bufs[session_id].data@
        },
{
}

/// A whole message in one datagram is handed out as it is: the bytes behind the
/// length, as many as the length says. The buffers have no part in it. One that
/// has fewer bytes than it says is no message.
pub proof fn law_single_is_handed_out(
    pending: Map<u32, Partial>,
    session_id: u32,
    data: Seq<u8>,
)
    ensures
        feed(pending, session_id, 0x00, data).pending == pending,
        data.len() < 2 ==> feed(pending, session_id, 0x00, data).message is None,
        data.len() >= 2 ==> {
            let said = 256 * data[0] + data[1];
            let message = feed(pending, session_id, 0x00, data).message;
            &&& message is Some <==> said <= data.len() - 2
            &&& message is Some ==> message->Some_0 == data.skip(2).take(said)
        },
{
    if data.len() >= 2 {
        let said = 256 * data[0] + data[1];
        if said <= data.len() - 2 {
            assert(data.subrange(2, 2 + said) =~= data.skip(2).take(said));
        }
    }
}

/// What the fragments of a session gather: a `FIRST` one begins anew with the
/// length it announces and its part, a `MIDDLE` one adds its part to what was
/// begun. Neither hands anything out, and neither touches another session.
pub proof fn law_fragments_are_gathered(
    pending: Map<u32, Partial>,
    session_id: u32,
    data: Seq<u8>,
)
    ensures
        ({
            let fed = feed(pending, session_id, 0x01, data);
            &&& fed.message is None
            &&& data.len() < 2 ==> fed.pending == pending
            &&& data.len() >= 2 ==> {
                &&& fed.pending.remove(session_id) == pending.remove(session_id)
                &&& fed.pending.contains_key(session_id)
                &&& fed.pending[session_id].total_len == 256 * data[0] + data[1]
                &&& fed.pending[session_id].data == data.skip(2)
            }
        }),
        ({
            let fed = feed(pending, session_id, 0x02, data);
            &&& fed.message is None
            &&& !pending.contains_key(session_id) ==> fed.pending == pending
            &&& pending.contains_key(session_id) ==> {
                &&& fed.pending.remove(session_id) == pending.remove(session_id)
                &&& fed.pending.contains_key(session_id)
                &&& fed.pending[session_id].total_len == pending[session_id].total_len
                &&& fed.pending[session_id].data == pending[session_id].data + data
            }
        }),
{
    let begun = feed(pending, session_id, 0x01, data);
    assert(begun.pending.remove(session_id) =~= pending.remove(session_id));
    let more = feed(pending, session_id, 0x02, data);
    assert(more.pending.remove(session_id) =~= pending.remove(session_id));
}

/// A `LAST` fragment ends what was begun: the parts and its own make the
/// message, cut to the announced length, if they are that many bytes. The
/// session has nothing begun after it, other sessions keep what they have. A
/// `LAST` fragment of nothing, and a kind that does not exist, do nothing.
pub proof fn law_last_fragment_ends_message(
    pending: Map<u32, Partial>,
    session_id: u32,
    kind: u8,
    data: Seq<u8>,
)
    ensures
        ({
            let fed = feed(pending, session_id, 0x03, data);
            if pending.contains_key(session_id) {
                let parts = pending[session_id].data + data;
                let said = pending[session_id].total_len as int;
                &&& fed.pending == pending.remove(session_id)
                &&& fed.message is Some <==> parts.len() >= said
                &&& fed.message is Some ==> fed.message->Some_0 == parts.take(said)
            } else {
                fed.pending == pending && fed.message is None
            }
        }),
        kind > 0x03 ==> {
            &&& feed(pending, session_id, kind, data).pending == pending
            &&& feed(pending, session_id, kind, data).message is None
        },
{
}

} // verus!
