//! Receiving whole datagrams, and what sending and receiving promise together.
use std::collections::HashMap;
use vstd::prelude::*;
use vstd::slice::slice_subrange;
use crate::endian::{get_be16, get_be32};
use crate::fragment::{feed_fragment, ReassemblyBuf, FIRST, LAST, MIDDLE, SHORT_HEADER, SINGLE};
#[allow(unused_imports)]
use crate::endian::{
    be16, be16_value, be32, be32_value, law_be16_is_big_endian, law_be16_round_trip,
    law_be32_is_big_endian, law_be32_round_trip,
};
#[allow(unused_imports)]
use crate::fragment::{
    announced, continuation, datagrams, extended, feed, finished, first_room, is_single,
    long_frame, pending, prefix, short_frame, Partial,
};

verus! {

/// The session that a datagram names in its first four bytes.
pub open spec fn session_of(dgram: Seq<u8>) -> u32 {
    be32_value(dgram[0], dgram[1], dgram[2], dgram[3])
}

/// The buffers after datagrams were received, and the messages that were
/// completed, each with its session, in the order of their completion.
pub struct Reception {
    pub pending: Map<u32, Partial>,
    pub messages: Seq<(u32, Seq<u8>)>,
}

/// What one datagram brings about. One that is shorter than the prefix is dropped.
pub open spec fn receive(pending: Map<u32, Partial>, dgram: Seq<u8>) -> Reception {
    if dgram.len() < 5 {
        Reception { pending, messages: seq![] }
    } else {
        let fed = feed(pending, session_of(dgram), dgram[4], dgram.skip(5));
        Reception {
            pending: fed.pending,
            messages: match fed.message {
                Some(message) => seq![(session_of(dgram), message)],
                None => seq![],
            },
        }
    }
}

/// What a sequence of datagrams brings about.
pub open spec fn receive_all(pending: Map<u32, Partial>, dgrams: Seq<Seq<u8>>) -> Reception
    decreases dgrams.len(),
{
    if dgrams.len() == 0 {
        Reception { pending, messages: seq![] }
    } else {
        let before = receive_all(pending, dgrams.drop_last());
        let last = receive(before.pending, dgrams.last());
        Reception { pending: last.pending, messages: before.messages + last.messages }
    }
}

/// The datagrams among `dgrams` that name the session.
pub open spec fn addressed(dgrams: Seq<Seq<u8>>, session_id: u32) -> Seq<Seq<u8>> {
    dgrams.filter(|dgram: Seq<u8>| dgram.len() >= 5 && session_of(dgram) == session_id)
}

/// The messages of one session.
pub open spec fn messages_of(messages: Seq<(u32, Seq<u8>)>, session_id: u32) -> Seq<Seq<u8>> {
    messages.filter_map(
        |message: (u32, Seq<u8>)|
            if message.0 == session_id {
                Some(message.1)
            } else {
                None
            },
    )
}

/// Whether two states of the buffers hold the same for the session.
pub open spec fn agree(a: Map<u32, Partial>, b: Map<u32, Partial>, session_id: u32) -> bool {
    &&& a.contains_key(session_id) == b.contains_key(session_id)
    &&& a.contains_key(session_id) ==> a[session_id] == b[session_id]
}

/// What a received datagram amounts to.
#[derive(Debug)]
pub enum Incoming {
    /// It has no room for the prefix.
    TooShort,
    /// It was kept for later, or discarded as malformed.
    Incomplete,
    /// It completed a message of the session.
    Message { session_id: u32, payload: Vec<u8> },
}

impl Incoming {
    /// The message that was completed, with its session.
    pub open spec fn messages(self) -> Seq<(u32, Seq<u8>)> {
        match self {
            Incoming::Message { session_id, payload } => seq![(session_id, payload@)],
            _ => seq![],
        }
    }
}

/// Takes the prefix off a datagram and feeds its body into the buffers.
pub fn receive_datagram(bufs: &mut HashMap<u32, ReassemblyBuf>, dgram: &[u8]) -> (incoming: Incoming)
    ensures
        pending(final(bufs)@) == receive(pending(old(bufs)@), dgram@).pending,
        incoming.messages() == receive(pending(old(bufs)@), dgram@).messages,
        incoming is TooShort <==> dgram@.len() < 5,
{
    if dgram.len() < SHORT_HEADER {
        return Incoming::TooShort;
    }
    let session_id: u32 = get_be32(dgram[0], dgram[1], dgram[2], dgram[3]);
    let body = slice_subrange(dgram, SHORT_HEADER, dgram.len());
    assert(body@ =~= dgram@.skip(5));
    match feed_fragment(bufs, session_id, dgram[4], body) {
        Some(payload) => Incoming::Message { session_id, payload },
        None => Incoming::Incomplete,
    }
}

/// Receiving datagrams in two batches is receiving them in one.
pub proof fn law_receive_in_batches(
    pending: Map<u32, Partial>,
    first: Seq<Seq<u8>>,
    second: Seq<Seq<u8>>,
)
    ensures
        ({
            let whole = receive_all(pending, first + second);
            let begun = receive_all(pending, first);
            let ended = receive_all(begun.pending, second);
            &&& whole.pending == ended.pending
            &&& whole.messages == begun.messages + ended.messages
        }),
    decreases second.len(),
{
    if second.len() == 0 {
        assert(first + second =~= first);
    } else {
        assert((first + second).drop_last() =~= first + second.drop_last());
        law_receive_in_batches(pending, first, second.drop_last());
    }
}

proof fn lemma_receive_one(pending: Map<u32, Partial>, dgram: Seq<u8>)
    ensures
        receive_all(pending, seq![dgram]).pending == receive(pending, dgram).pending,
        receive_all(pending, seq![dgram]).messages == receive(pending, dgram).messages,
{
    assert(seq![dgram].drop_last() =~= Seq::<Seq<u8>>::empty());
    let before = receive_all(pending, seq![dgram].drop_last());
    assert(before.messages + receive(pending, dgram).messages =~= receive(pending, dgram).messages);
}

proof fn lemma_short_frame(session_id: u32, kind: u8, chunk: Seq<u8>)
    ensures
        short_frame(session_id, kind, chunk).len() == 5 + chunk.len(),
        session_of(short_frame(session_id, kind, chunk)) == session_id,
        short_frame(session_id, kind, chunk)[4] == kind,
        short_frame(session_id, kind, chunk).skip(5) == chunk,
{
    law_be32_round_trip(session_id);
    let frame = short_frame(session_id, kind, chunk);
    assert(frame.take(4) =~= be32(session_id));
    assert(frame[0] == be32(session_id)[0] && frame[1] == be32(session_id)[1]);
    assert(frame[2] == be32(session_id)[2] && frame[3] == be32(session_id)[3]);
    assert(frame.skip(5) =~= chunk);
}

proof fn lemma_long_frame(session_id: u32, kind: u8, len: nat, chunk: Seq<u8>)
    ensures
        long_frame(session_id, kind, len, chunk).len() == 7 + chunk.len(),
        session_of(long_frame(session_id, kind, len, chunk)) == session_id,
        long_frame(session_id, kind, len, chunk)[4] == kind,
        long_frame(session_id, kind, len, chunk).skip(5) == be16(len) + chunk,
{
    lemma_short_frame(session_id, kind, be16(len) + chunk);
    assert(long_frame(session_id, kind, len, chunk) =~= short_frame(
        session_id,
        kind,
        be16(len) + chunk,
    ));
}

/// A `MIDDLE` or `LAST` datagram does what its body does.
proof fn lemma_receive_short(pending: Map<u32, Partial>, session_id: u32, kind: u8, chunk: Seq<u8>)
    ensures
        ({
            let fed = feed(pending, session_id, kind, chunk);
            let got = receive_all(pending, seq![short_frame(session_id, kind, chunk)]);
            &&& got.pending == fed.pending
            &&& got.messages == match fed.message {
                Some(message) => seq![(session_id, message)],
                None => seq![],
            }
        }),
{
    lemma_short_frame(session_id, kind, chunk);
    lemma_receive_one(pending, short_frame(session_id, kind, chunk));
}

/// The datagrams after a `FIRST` one complete exactly the message that it began.
proof fn lemma_continuation(pending: Map<u32, Partial>, session_id: u32, rest: Seq<u8>, room: nat)
    requires
        pending.contains_key(session_id),
        rest.len() > 0,
        room > 0,
    ensures
        ({
            let got = receive_all(pending, continuation(session_id, rest, room));
            &&& got.pending == pending.remove(session_id)
            &&& got.messages == match finished(extended(pending[session_id], rest)) {
                Some(message) => seq![(session_id, message)],
                None => seq![],
            }
        }),
    decreases rest.len(),
{
    if rest.len() <= room {
        lemma_receive_short(pending, session_id, LAST, rest);
    } else {
        let chunk = rest.take(room as int);
        let tail = rest.skip(room as int);
        let frame = short_frame(session_id, MIDDLE, chunk);
        let more = continuation(session_id, tail, room);
        let next = pending.insert(session_id, extended(pending[session_id], chunk));
        lemma_receive_short(pending, session_id, MIDDLE, chunk);
        lemma_continuation(next, session_id, tail, room);
        law_receive_in_batches(pending, seq![frame], more);
        assert(continuation(session_id, rest, room) == seq![frame] + more);
        assert(next.remove(session_id) =~= pending.remove(session_id));
        assert(pending[session_id].data + chunk + tail =~= pending[session_id].data + rest);
        assert(extended(next[session_id], tail) == extended(pending[session_id], rest));
        let got = receive_all(next, more).messages;
        assert(Seq::<(u32, Seq<u8>)>::empty() + got =~= got);
    }
}

/// Receiving what was sent gives it back: the datagrams of a payload, received
/// in order, complete exactly one message, which is the payload, for its
/// session. The buffers end as they were, but for an older incomplete message
/// of the session, which a fragmented payload replaces.
///
/// A payload longer than 65535 bytes does not fit the length field.
pub proof fn law_round_trip(
    pending: Map<u32, Partial>,
    session_id: u32,
    payload: Seq<u8>,
    max_dgram: nat,
)
    requires
        payload.len() <= 65535,
        max_dgram >= 6 || payload.len() == 0,
    ensures
        ({
            let got = receive_all(pending, datagrams(session_id, payload, max_dgram));
            &&& got.messages == seq![(session_id, payload)]
            &&& got.pending == if is_single(payload, max_dgram) {
                pending
            } else {
                pending.remove(session_id)
            }
        }),
{
    law_be16_round_trip(payload.len());
    if is_single(payload, max_dgram) {
        let frame = long_frame(session_id, SINGLE, payload.len(), payload);
        lemma_long_frame(session_id, SINGLE, payload.len(), payload);
        lemma_receive_one(pending, frame);
        let body = be16(payload.len()) + payload;
        assert(body.subrange(2, 2 + payload.len() as int) =~= payload);
    } else {
        let cut = first_room(max_dgram) as int;
        let chunk = payload.take(cut);
        let tail = payload.skip(cut);
        let frame = long_frame(session_id, FIRST, payload.len(), chunk);
        lemma_long_frame(session_id, FIRST, payload.len(), chunk);
        lemma_receive_one(pending, frame);
        assert((be16(payload.len()) + chunk).skip(2) =~= chunk);
        let begun = receive(pending, frame).pending;
        let room = (max_dgram - 5) as nat;
        lemma_continuation(begun, session_id, tail, room);
        law_receive_in_batches(pending, seq![frame], continuation(session_id, tail, room));
        assert(begun.remove(session_id) =~= pending.remove(session_id));
        assert(chunk + tail =~= payload);
        assert(payload.take(payload.len() as int) =~= payload);
    }
}

/// A datagram of one session neither reads nor changes what is kept for another.
pub proof fn law_sessions_apart(
    a: Map<u32, Partial>,
    b: Map<u32, Partial>,
    dgram: Seq<u8>,
    session_id: u32,
)
    requires
        agree(a, b, session_id),
    ensures
        dgram.len() < 5 || session_of(dgram) != session_id ==> {
            &&& agree(receive(a, dgram).pending, b, session_id)
            &&& messages_of(receive(a, dgram).messages, session_id) == Seq::<Seq<u8>>::empty()
        },
        dgram.len() >= 5 && session_of(dgram) == session_id ==> {
            &&& agree(receive(a, dgram).pending, receive(b, dgram).pending, session_id)
            &&& receive(a, dgram).messages == receive(b, dgram).messages
        },
{
    let got = receive(a, dgram).messages;
    if got.len() == 1 {
        reveal_with_fuel(Seq::filter_map, 2);
        assert(got.drop_last() =~= seq![]);
    }
}

proof fn lemma_messages_of_append(
    first: Seq<(u32, Seq<u8>)>,
    second: Seq<(u32, Seq<u8>)>,
    session_id: u32,
)
    ensures
        messages_of(first + second, session_id) == messages_of(first, session_id) + messages_of(
            second,
            session_id,
        ),
    decreases second.len(),
{
    if second.len() == 0 {
        assert(first + second =~= first);
    } else {
        assert((first + second).drop_last() =~= first + second.drop_last());
        lemma_messages_of_append(first, second.drop_last(), session_id);
        assert(messages_of(first + second, session_id) =~= messages_of(first, session_id)
            + messages_of(second, session_id));
    }
}

/// However the datagrams of several sessions are interleaved, a session gets
/// the messages that its own datagrams would give it alone.
pub proof fn law_interleaving(
    a: Map<u32, Partial>,
    b: Map<u32, Partial>,
    dgrams: Seq<Seq<u8>>,
    session_id: u32,
)
    requires
        agree(a, b, session_id),
    ensures
        ({
            let mixed = receive_all(a, dgrams);
            let alone = receive_all(b, addressed(dgrams, session_id));
            &&& agree(mixed.pending, alone.pending, session_id)
            &&& messages_of(mixed.messages, session_id) == messages_of(alone.messages, session_id)
        }),
    decreases dgrams.len(),
{
    reveal(Seq::filter);
    if dgrams.len() > 0 {
        let init = dgrams.drop_last();
        let last = dgrams.last();
        law_interleaving(a, b, init, session_id);
        let mixed = receive_all(a, init);
        let alone = receive_all(b, addressed(init, session_id));
        law_sessions_apart(mixed.pending, alone.pending, last, session_id);
        lemma_messages_of_append(
            mixed.messages,
            receive(mixed.pending, last).messages,
            session_id,
        );
        if last.len() >= 5 && session_of(last) == session_id {
            assert(addressed(dgrams, session_id).drop_last() =~= addressed(init, session_id));
            lemma_messages_of_append(
                alone.messages,
                receive(alone.pending, last).messages,
                session_id,
            );
        } else {
            assert(messages_of(mixed.messages, session_id) + Seq::<Seq<u8>>::empty()
                =~= messages_of(mixed.messages, session_id));
        }
    }
}

/// A payload arrives whole among the traffic of other sessions: where the
/// datagrams of its session are those of the payload, in order, the session
/// gets the payload and nothing else.
pub proof fn law_delivery_among_others(
    pending: Map<u32, Partial>,
    dgrams: Seq<Seq<u8>>,
    session_id: u32,
    payload: Seq<u8>,
    max_dgram: nat,
)
    requires
        payload.len() <= 65535,
        max_dgram >= 6 || payload.len() == 0,
        addressed(dgrams, session_id) == datagrams(session_id, payload, max_dgram),
    ensures
        messages_of(receive_all(pending, dgrams).messages, session_id) == seq![payload],
{
    law_interleaving(pending, pending, dgrams, session_id);
    law_round_trip(pending, session_id, payload, max_dgram);
    let got = seq![(session_id, payload)];
    reveal_with_fuel(Seq::filter_map, 2);
    assert(got.drop_last() =~= seq![]);
    assert(messages_of(got, session_id) =~= seq![payload]);
}

/// Whether `frames` are datagrams of the session: `MIDDLE` ones of at most
/// `limit` bytes, and then a `LAST` one.
pub open spec fn is_tail(frames: Seq<Seq<u8>>, session_id: u32, limit: nat) -> bool {
    &&& frames.len() >= 1
    &&& frames.last()[4] == LAST
    &&& forall|i: int| 0 <= i < frames.len() - 1 ==> (#[trigger] frames[i])[4] == MIDDLE
    &&& forall|i: int|
        0 <= i < frames.len() ==> 5 <= (#[trigger] frames[i]).len() <= limit && session_of(
            frames[i],
        ) == session_id
}

proof fn lemma_tail(session_id: u32, rest: Seq<u8>, room: nat)
    requires
        rest.len() > 0,
        room > 0,
    ensures
        is_tail(continuation(session_id, rest, room), session_id, room + 5),
    decreases rest.len(),
{
    let frames = continuation(session_id, rest, room);
    if rest.len() <= room {
        lemma_short_frame(session_id, LAST, rest);
    } else {
        lemma_short_frame(session_id, MIDDLE, rest.take(room as int));
        lemma_tail(session_id, rest.skip(room as int), room);
        let tail = continuation(session_id, rest.skip(room as int), room);
        assert(frames =~= seq![short_frame(session_id, MIDDLE, rest.take(room as int))] + tail);
        assert(frames.last() == tail.last());
        assert forall|i: int| 1 <= i < frames.len() implies #[trigger] frames[i] == tail[i - 1] by {}
    }
}

/// Every datagram of a payload fits the limit and names the session.
///
/// With a limit below seven bytes a `SINGLE` or `FIRST` datagram, whose header
/// takes seven, does not fit.
pub proof fn law_datagrams_fit(session_id: u32, payload: Seq<u8>, max_dgram: nat)
    requires
        max_dgram >= 7,
    ensures
        forall|i: int|
            0 <= i < datagrams(session_id, payload, max_dgram).len() ==> {
                let frame = #[trigger] datagrams(session_id, payload, max_dgram)[i];
                5 <= frame.len() <= max_dgram && session_of(frame) == session_id
            },
{
    if is_single(payload, max_dgram) {
        lemma_long_frame(session_id, SINGLE, payload.len(), payload);
    } else {
        let cut = first_room(max_dgram) as int;
        lemma_long_frame(session_id, FIRST, payload.len(), payload.take(cut));
        lemma_tail(session_id, payload.skip(cut), (max_dgram - 5) as nat);
    }
}

/// A payload that does not fit one datagram travels as a `FIRST` datagram,
/// `MIDDLE` ones, and one `LAST`.
pub proof fn law_fragment_order(session_id: u32, payload: Seq<u8>, max_dgram: nat)
    requires
        max_dgram >= 6,
        !is_single(payload, max_dgram),
    ensures
        ({
            let frames = datagrams(session_id, payload, max_dgram);
            &&& frames.len() >= 2
            &&& frames[0][4] == FIRST
            &&& frames.last()[4] == LAST
            &&& forall|i: int| 0 < i < frames.len() - 1 ==> (#[trigger] frames[i])[4] == MIDDLE
        }),
{
    let cut = first_room(max_dgram) as int;
    lemma_long_frame(session_id, FIRST, payload.len(), payload.take(cut));
    lemma_tail(session_id, payload.skip(cut), (max_dgram - 5) as nat);
    let frames = datagrams(session_id, payload, max_dgram);
    let tail = continuation(session_id, payload.skip(cut), (max_dgram - 5) as nat);
    assert(frames.last() == tail.last());
    assert forall|i: int| 1 <= i < frames.len() implies #[trigger] frames[i] == tail[i - 1] by {}
}

/// Whether no buffer announces more than the length field can hold.
pub open spec fn bounded(pending: Map<u32, Partial>) -> bool {
    forall|id: u32| #[trigger] pending.contains_key(id) ==> pending[id].total_len <= 65535
}

/// No message is longer than 65535 bytes, whatever is received: the buffers
/// start empty, and every datagram keeps what they announce within that bound.
pub proof fn law_messages_bounded(pending: Map<u32, Partial>, dgrams: Seq<Seq<u8>>)
    requires
        bounded(pending),
    ensures
        bounded(receive_all(pending, dgrams).pending),
        forall|i: int|
            0 <= i < receive_all(pending, dgrams).messages.len() ==> (
            #[trigger] receive_all(pending, dgrams).messages[i]).1.len() <= 65535,
    decreases dgrams.len(),
{
    if dgrams.len() > 0 {
        law_messages_bounded(pending, dgrams.drop_last());
    }
}

/// Datagrams that neither stand alone nor end a message complete nothing.
proof fn lemma_nothing_completed(pending: Map<u32, Partial>, frames: Seq<Seq<u8>>)
    requires
        forall|i: int|
            0 <= i < frames.len() ==> (#[trigger] frames[i])[4] == FIRST || frames[i][4] == MIDDLE,
    ensures
        receive_all(pending, frames).messages == Seq::<(u32, Seq<u8>)>::empty(),
    decreases frames.len(),
{
    if frames.len() > 0 {
        assert(frames.last() == frames[frames.len() - 1]);
        assert forall|i: int| 0 <= i < frames.len() - 1 implies (#[trigger] frames.drop_last()[i])[4]
            == FIRST || frames.drop_last()[i][4] == MIDDLE by {
            assert(frames.drop_last()[i] == frames[i]);
        }
        lemma_nothing_completed(pending, frames.drop_last());
    }
}

/// It is the last datagram of a payload that completes it: none before it
/// completes anything.
pub proof fn law_last_datagram_completes(
    pending: Map<u32, Partial>,
    session_id: u32,
    payload: Seq<u8>,
    max_dgram: nat,
    n: int,
)
    requires
        payload.len() <= 65535,
        max_dgram >= 6 || payload.len() == 0,
        0 <= n < datagrams(session_id, payload, max_dgram).len(),
    ensures
        ({
            let frames = datagrams(session_id, payload, max_dgram);
            let before = receive_all(pending, frames.take(n));
            &&& before.messages == Seq::<(u32, Seq<u8>)>::empty()
            &&& receive(before.pending, frames[n]).messages == if n == frames.len() - 1 {
                seq![(session_id, payload)]
            } else {
                seq![]
            }
        }),
{
    let frames = datagrams(session_id, payload, max_dgram);
    if !is_single(payload, max_dgram) {
        law_fragment_order(session_id, payload, max_dgram);
    }
    assert forall|i: int| 0 <= i < n implies (#[trigger] frames.take(n)[i])[4] == FIRST
        || frames.take(n)[i][4] == MIDDLE by {
        assert(frames.take(n)[i] == frames[i]);
    }
    lemma_nothing_completed(pending, frames.take(n));
    if n == frames.len() - 1 {
        law_round_trip(pending, session_id, payload, max_dgram);
        let before = receive_all(pending, frames.take(n));
        assert(frames.drop_last() =~= frames.take(n));
        assert(before.messages + receive(before.pending, frames[n]).messages =~= receive(
            before.pending,
            frames[n],
        ).messages);
    }
}

/// How many bytes of payload the fragments after a `FIRST` one carry.
spec fn load(frames: Seq<Seq<u8>>) -> int
    decreases frames.len(),
{
    if frames.len() == 0 {
        0
    } else {
        load(frames.drop_last()) + frames.last().len() - 5
    }
}

proof fn lemma_load_append(first: Seq<Seq<u8>>, second: Seq<Seq<u8>>)
    ensures
        load(first + second) == load(first) + load(second),
    decreases second.len(),
{
    if second.len() == 0 {
        assert(first + second =~= first);
    } else {
        assert((first + second).drop_last() =~= first + second.drop_last());
        lemma_load_append(first, second.drop_last());
    }
}

proof fn lemma_load_one(frame: Seq<u8>)
    ensures
        load(seq![frame]) == frame.len() - 5,
{
    reveal_with_fuel(load, 2);
    assert(seq![frame].drop_last() =~= Seq::<Seq<u8>>::empty());
}

proof fn lemma_load_of_continuation(session_id: u32, rest: Seq<u8>, room: nat)
    requires
        room > 0,
    ensures
        load(continuation(session_id, rest, room)) == rest.len(),
    decreases rest.len(),
{
    if rest.len() > room {
        let frame = short_frame(session_id, MIDDLE, rest.take(room as int));
        lemma_short_frame(session_id, MIDDLE, rest.take(room as int));
        lemma_load_one(frame);
        lemma_load_append(seq![frame], continuation(session_id, rest.skip(room as int), room));
        lemma_load_of_continuation(session_id, rest.skip(room as int), room);
    } else if rest.len() > 0 {
        lemma_short_frame(session_id, LAST, rest);
        lemma_load_one(short_frame(session_id, LAST, rest));
    }
}

/// Whether `frames` are `MIDDLE` or `LAST` datagrams of the session.
spec fn are_rest(frames: Seq<Seq<u8>>, session_id: u32) -> bool {
    forall|i: int|
        0 <= i < frames.len() ==> {
            &&& 5 <= (#[trigger] frames[i]).len()
            &&& session_of(frames[i]) == session_id
            &&& frames[i][4] == MIDDLE || frames[i][4] == LAST
        }
}

/// Fragments that carry less than is missing complete nothing.
proof fn lemma_too_little_completes_nothing(
    pending: Map<u32, Partial>,
    session_id: u32,
    frames: Seq<Seq<u8>>,
)
    requires
        are_rest(frames, session_id),
        pending.contains_key(session_id) ==> pending[session_id].data.len() + load(frames)
            < pending[session_id].total_len,
    ensures
        receive_all(pending, frames).messages == Seq::<(u32, Seq<u8>)>::empty(),
        receive_all(pending, frames).pending.contains_key(session_id) ==> {
            let left = receive_all(pending, frames).pending[session_id];
            &&& pending.contains_key(session_id)
            &&& left.total_len == pending[session_id].total_len
            &&& left.data.len() == pending[session_id].data.len() + load(frames)
        },
    decreases frames.len(),
{
    if frames.len() > 0 {
        let so_far = frames.drop_last();
        assert(frames.last() == frames[frames.len() - 1]);
        assert forall|i: int| 0 <= i < so_far.len() implies {
            &&& 5 <= (#[trigger] so_far[i]).len()
            &&& session_of(so_far[i]) == session_id
            &&& so_far[i][4] == MIDDLE || so_far[i][4] == LAST
        } by {
            assert(so_far[i] == frames[i]);
        }
        lemma_too_little_completes_nothing(pending, session_id, so_far);
    }
}

/// A payload that lost one of its fragments on the way is not received: no
/// message comes of the others. Where it is the `FIRST` one that was lost, there
/// has to be no older incomplete message of the session, which the others would
/// be taken to continue.
pub proof fn law_lost_fragment_loses_message(
    pending: Map<u32, Partial>,
    session_id: u32,
    payload: Seq<u8>,
    max_dgram: nat,
    lost: int,
)
    requires
        payload.len() <= 65535,
        max_dgram >= 6,
        !is_single(payload, max_dgram),
        0 <= lost < datagrams(session_id, payload, max_dgram).len(),
        lost == 0 ==> !pending.contains_key(session_id),
    ensures
        receive_all(
            pending,
            datagrams(session_id, payload, max_dgram).remove(lost),
        ).messages == Seq::<(u32, Seq<u8>)>::empty(),
{
    let frames = datagrams(session_id, payload, max_dgram);
    let cut = first_room(max_dgram) as int;
    let room = (max_dgram - 5) as nat;
    let first = long_frame(session_id, FIRST, payload.len(), payload.take(cut));
    let tail = continuation(session_id, payload.skip(cut), room);
    lemma_long_frame(session_id, FIRST, payload.len(), payload.take(cut));
    lemma_tail(session_id, payload.skip(cut), room);
    lemma_load_of_continuation(session_id, payload.skip(cut), room);
    if lost == 0 {
        assert(frames.remove(0) =~= tail);
        lemma_too_little_completes_nothing(pending, session_id, tail);
    } else {
        let left = tail.remove(lost - 1);
        assert(frames.remove(lost) =~= seq![first] + left);
        assert forall|i: int| 0 <= i < left.len() implies {
            &&& 5 <= (#[trigger] left[i]).len()
            &&& session_of(left[i]) == session_id
            &&& left[i][4] == MIDDLE || left[i][4] == LAST
        } by {
            assert(left[i] == tail[if i < lost - 1 {
                i
            } else {
                i + 1
            }]);
        }
        let gone = tail[lost - 1];
        assert(tail =~= tail.take(lost - 1) + seq![gone] + tail.skip(lost));
        assert(left =~= tail.take(lost - 1) + tail.skip(lost));
        lemma_load_append(tail.take(lost - 1), seq![gone]);
        lemma_load_append(tail.take(lost - 1) + seq![gone], tail.skip(lost));
        lemma_load_append(tail.take(lost - 1), tail.skip(lost));
        lemma_load_one(gone);
        lemma_no_empty_fragment(session_id, payload.skip(cut), room, lost - 1);
        lemma_receive_one(pending, first);
        law_be16_round_trip(payload.len());
        assert((be16(payload.len()) + payload.take(cut)).skip(2) =~= payload.take(cut));
        let begun = receive(pending, first).pending;
        lemma_too_little_completes_nothing(begun, session_id, left);
        law_receive_in_batches(pending, seq![first], left);
    }
}

proof fn lemma_no_empty_fragment(session_id: u32, rest: Seq<u8>, room: nat, at: int)
    requires
        room > 0,
        0 <= at < continuation(session_id, rest, room).len(),
    ensures
        continuation(session_id, rest, room)[at].len() > 5,
    decreases rest.len(),
{
    if rest.len() <= room {
        lemma_short_frame(session_id, LAST, rest);
    } else {
        lemma_short_frame(session_id, MIDDLE, rest.take(room as int));
        if at > 0 {
            lemma_no_empty_fragment(session_id, rest.skip(room as int), room, at - 1);
        }
    }
}

/// Why a received datagram is discarded.
#[derive(Debug, Clone, Copy, PartialEq, Eq, Structural)]
pub enum Discard {
    /// It has no room for the prefix.
    TooShort,
    /// A `SINGLE` datagram without room for its length.
    SingleTooShort,
    /// A `SINGLE` datagram that is shorter than it says.
    SingleOverflow,
    /// A `FIRST` datagram without room for its length.
    FirstTooShort,
    /// A fragment of a message that never began.
    Orphan(u8),
    /// A kind that does not exist.
    UnknownKind(u8),
}

/// Why a datagram is discarded, if it is.
pub open spec fn discarded(pending: Map<u32, Partial>, dgram: Seq<u8>) -> Option<Discard> {
    if dgram.len() < 5 {
        Some(Discard::TooShort)
    } else {
        let kind = dgram[4];
        let data = dgram.skip(5);
        if kind == SINGLE {
            if data.len() < 2 {
                Some(Discard::SingleTooShort)
            } else if 2 + announced(data) > data.len() {
                Some(Discard::SingleOverflow)
            } else {
                None
            }
        } else if kind == FIRST {
            if data.len() < 2 {
                Some(Discard::FirstTooShort)
            } else {
                None
            }
        } else if kind == MIDDLE || kind == LAST {
            if pending.contains_key(session_of(dgram)) {
                None
            } else {
                Some(Discard::Orphan(kind))
            }
        } else {
            Some(Discard::UnknownKind(kind))
        }
    }
}

/// Says why the datagram would be discarded, if it would.
pub fn discard_reason(bufs: &HashMap<u32, ReassemblyBuf>, dgram: &[u8]) -> (reason: Option<Discard>)
    ensures
        reason == discarded(pending(bufs@), dgram@),
{
    broadcast use vstd::std_specs::hash::group_hash_axioms;

    if dgram.len() < SHORT_HEADER {
        return Some(Discard::TooShort);
    }
    let kind: u8 = dgram[4];
    let len: usize = dgram.len() - SHORT_HEADER;
    if kind == SINGLE {
        if len < 2 {
            Some(Discard::SingleTooShort)
        } else if 2 + get_be16(dgram[5], dgram[6]) as usize > len {
            Some(Discard::SingleOverflow)
        } else {
            None
        }
    } else if kind == FIRST {
        if len < 2 {
            Some(Discard::FirstTooShort)
        } else {
            None
        }
    } else if kind == MIDDLE || kind == LAST {
        let session_id: u32 = get_be32(dgram[0], dgram[1], dgram[2], dgram[3]);
        if bufs.contains_key(&session_id) {
            None
        } else {
            Some(Discard::Orphan(kind))
        }
    } else {
        Some(Discard::UnknownKind(kind))
    }
}

/// A datagram that is discarded changes nothing and completes nothing.
pub proof fn law_discarded_changes_nothing(pending: Map<u32, Partial>, dgram: Seq<u8>)
    requires
        discarded(pending, dgram) is Some,
    ensures
        receive(pending, dgram).pending == pending,
        receive(pending, dgram).messages == Seq::<(u32, Seq<u8>)>::empty(),
{
}

/// A datagram is its session in four bytes, most significant first, its kind in
/// one, and its body: it does to the buffers what the body does, for that
/// session and kind, and completes what the body completes. One of fewer than
/// five bytes does nothing.
pub proof fn law_datagram_is_prefix_and_body(pending: Map<u32, Partial>, dgram: Seq<u8>, id: u32)
    ensures
        dgram.len() < 5 ==> {
            &&& receive(pending, dgram).pending == pending
            &&& receive(pending, dgram).messages.len() == 0
        },
        dgram.len() >= 5 && 16777216 * dgram[0] + 65536 * dgram[1] + 256 * dgram[2] + dgram[3] == id
            ==> {
            let fed = feed(pending, id, dgram[4], dgram.skip(5));
            &&& session_of(dgram) == id
            &&& receive(pending, dgram).pending == fed.pending
            &&& receive(pending, dgram).messages.len() == if fed.message is Some {
                1int
            } else {
                0
            }
            &&& fed.message is Some ==> receive(pending, dgram).messages[0] == (
                id,
                fed.message->Some_0,
            )
        },
{
    law_be32_is_big_endian(id, dgram[0], dgram[1], dgram[2], dgram[3]);
}

/// What is said of a datagram that came in is said of the session and the
/// payload that are handed out, and nothing is handed out otherwise.
pub proof fn law_incoming_is_its_message(session_id: u32, payload: Vec<u8>)
    ensures
        (Incoming::Message { session_id, payload }).messages() == seq![(session_id, payload@)],
        Incoming::TooShort.messages().len() == 0,
        Incoming::Incomplete.messages().len() == 0,
{
}

/// What the bodies of fragments after a `FIRST` one hold, put together.
pub open spec fn bodies(frames: Seq<Seq<u8>>) -> Seq<u8>
    decreases frames.len(),
{
    if frames.len() == 0 {
        seq![]
    } else {
        bodies(frames.drop_last()) + frames.last().skip(5)
    }
}

proof fn lemma_bodies_append(first: Seq<Seq<u8>>, second: Seq<Seq<u8>>)
    ensures
        bodies(first + second) == bodies(first) + bodies(second),
    decreases second.len(),
{
    if second.len() == 0 {
        assert(first + second =~= first);
        assert(bodies(first) + bodies(second) =~= bodies(first));
    } else {
        assert((first + second).drop_last() =~= first + second.drop_last());
        lemma_bodies_append(first, second.drop_last());
        assert(bodies(first + second) =~= bodies(first) + bodies(second));
    }
}

proof fn lemma_bodies_one(frame: Seq<u8>)
    ensures
        bodies(seq![frame]) == frame.skip(5),
{
    reveal_with_fuel(bodies, 2);
    assert(seq![frame].drop_last() =~= Seq::<Seq<u8>>::empty());
    assert(bodies(seq![frame]) =~= frame.skip(5));
}

/// The datagrams after a `FIRST` one carry all of the rest, every one full but
/// for the last.
proof fn lemma_continuation_carries(session_id: u32, rest: Seq<u8>, room: nat)
    requires
        rest.len() > 0,
        room > 0,
    ensures
        ({
            let frames = continuation(session_id, rest, room);
            &&& bodies(frames) == rest
            &&& forall|i: int| 0 <= i < frames.len() - 1 ==> (#[trigger] frames[i]).len() == room + 5
            &&& 5 < frames.last().len() <= room + 5
        }),
    decreases rest.len(),
{
    let frames = continuation(session_id, rest, room);
    if rest.len() <= room {
        lemma_short_frame(session_id, LAST, rest);
        lemma_bodies_one(short_frame(session_id, LAST, rest));
    } else {
        let chunk = rest.take(room as int);
        let tail = rest.skip(room as int);
        let frame = short_frame(session_id, MIDDLE, chunk);
        lemma_short_frame(session_id, MIDDLE, chunk);
        lemma_tail(session_id, tail, room);
        lemma_continuation_carries(session_id, tail, room);
        lemma_bodies_one(frame);
        let more = continuation(session_id, tail, room);
        lemma_bodies_append(seq![frame], more);
        assert(chunk + tail =~= rest);
        assert(frames.last() == more.last());
        assert forall|i: int| 0 <= i < frames.len() - 1 implies (#[trigger] frames[i]).len() == room
            + 5 by {
            if i > 0 {
                assert(frames[i] == more[i - 1]);
            }
        }
    }
}

proof fn lemma_session_bytes(frame: Seq<u8>, session_id: u32)
    requires
        session_of(frame) == session_id,
    ensures
        16777216 * frame[0] + 65536 * frame[1] + 256 * frame[2] + frame[3] == session_id,
{
    law_be32_is_big_endian(session_id, frame[0], frame[1], frame[2], frame[3]);
}

/// On the wire, a payload that fits one datagram, or is empty, is the session in
/// four bytes, a zero byte, the length in two bytes, and the payload as it is.
pub proof fn law_single_on_the_wire(session_id: u32, payload: Seq<u8>, max_dgram: nat)
    requires
        payload.len() == 0 || payload.len() + 7 <= max_dgram,
    ensures
        datagrams(session_id, payload, max_dgram).len() == 1,
        ({
            let frame = datagrams(session_id, payload, max_dgram)[0];
            &&& frame.len() == 7 + payload.len()
            &&& 16777216 * frame[0] + 65536 * frame[1] + 256 * frame[2] + frame[3] == session_id
            &&& frame[4] == 0x00
            &&& 256 * frame[5] + frame[6] == payload.len() % 65536
            &&& frame.skip(7) == payload
        }),
{
    let frame = datagrams(session_id, payload, max_dgram)[0];
    lemma_long_frame(session_id, SINGLE, payload.len(), payload);
    lemma_session_bytes(frame, session_id);
    law_be16_is_big_endian(payload.len(), 0, 0);
    assert(frame[5] == frame.skip(5)[0] && frame[6] == frame.skip(5)[1]);
    assert(frame.skip(7) =~= payload);
}

/// On the wire, a longer payload is cut into as few datagrams as there can be,
/// and nothing of it is lost: every datagram names the session and, but for the
/// last, is as long as the limit; the first says how long the payload is; and
/// what they hold behind their headers makes the payload. Their kinds are one,
/// then twos, then three.
///
/// With a limit of six bytes the first one holds its header alone, which is one
/// byte over it.
pub proof fn law_fragments_on_the_wire(session_id: u32, payload: Seq<u8>, max_dgram: nat)
    requires
        payload.len() > 0,
        payload.len() + 7 > max_dgram,
        max_dgram >= 6,
    ensures
        ({
            let frames = datagrams(session_id, payload, max_dgram);
            &&& frames.len() >= 2
            &&& frames[0].len() == if max_dgram >= 7 {
                max_dgram
            } else {
                7
            }
            &&& frames[0][4] == 0x01
            &&& 256 * frames[0][5] + frames[0][6] == payload.len() % 65536
            &&& forall|i: int|
                0 < i < frames.len() - 1 ==> (#[trigger] frames[i]).len() == max_dgram
                    && frames[i][4] == 0x02
            &&& 5 < frames.last().len() <= max_dgram
            &&& frames.last()[4] == 0x03
            &&& forall|i: int|
                0 <= i < frames.len() ==> 16777216 * (#[trigger] frames[i])[0] + 65536
                    * frames[i][1] + 256 * frames[i][2] + frames[i][3] == session_id
            &&& frames[0].skip(7) + bodies(frames.skip(1)) == payload
        }),
{
    let frames = datagrams(session_id, payload, max_dgram);
    let cut = first_room(max_dgram) as int;
    let room = (max_dgram - 5) as nat;
    let first = long_frame(session_id, FIRST, payload.len(), payload.take(cut));
    let tail = continuation(session_id, payload.skip(cut), room);
    law_fragment_order(session_id, payload, max_dgram);
    lemma_long_frame(session_id, FIRST, payload.len(), payload.take(cut));
    lemma_tail(session_id, payload.skip(cut), room);
    lemma_continuation_carries(session_id, payload.skip(cut), room);
    law_be16_is_big_endian(payload.len(), 0, 0);
    assert(frames =~= seq![first] + tail);
    assert(frames.last() == tail.last());
    assert forall|i: int| 1 <= i < frames.len() implies #[trigger] frames[i] == tail[i - 1] by {}
    assert forall|i: int| 0 <= i < frames.len() implies 16777216 * (#[trigger] frames[i])[0] + 65536
        * frames[i][1] + 256 * frames[i][2] + frames[i][3] == session_id by {
        lemma_session_bytes(frames[i], session_id);
    }
    assert(first[5] == first.skip(5)[0] && first[6] == first.skip(5)[1]);
    assert(first.skip(7) =~= payload.take(cut));
    assert(frames.skip(1) =~= tail);
    assert(payload.take(cut) + payload.skip(cut) =~= payload);
}

/// A datagram is discarded for one of six reasons and no other: it is too short
/// for its prefix; it is a whole message without its length, or with less than
/// its length; it begins a message without its length; it goes on with or ends
/// a message that its session did not begin; its kind does not exist.
pub proof fn law_reasons_to_discard(pending: Map<u32, Partial>, dgram: Seq<u8>, id: u32)
    requires
        dgram.len() >= 4 ==> 16777216 * dgram[0] + 65536 * dgram[1] + 256 * dgram[2] + dgram[3]
            == id,
    ensures
        discarded(pending, dgram) == Some(Discard::TooShort) <==> dgram.len() < 5,
        discarded(pending, dgram) == Some(Discard::SingleTooShort) <==> 5 <= dgram.len() < 7
            && dgram[4] == 0x00,
        discarded(pending, dgram) == Some(Discard::SingleOverflow) <==> dgram.len() >= 7
            && dgram[4] == 0x00 && 256 * dgram[5] + dgram[6] > dgram.len() - 7,
        discarded(pending, dgram) == Some(Discard::FirstTooShort) <==> 5 <= dgram.len() < 7
            && dgram[4] == 0x01,
        discarded(pending, dgram) matches Some(Discard::Orphan(kind)) ==> kind == dgram[4],
        (discarded(pending, dgram) matches Some(Discard::Orphan(_))) <==> dgram.len() >= 5 && (
        dgram[4] == 0x02 || dgram[4] == 0x03) && !pending.contains_key(id),
        discarded(pending, dgram) matches Some(Discard::UnknownKind(kind)) ==> kind == dgram[4],
        (discarded(pending, dgram) matches Some(Discard::UnknownKind(_))) <==> dgram.len() >= 5
            && dgram[4] > 0x03,
{
    if dgram.len() >= 5 {
        law_be32_is_big_endian(id, dgram[0], dgram[1], dgram[2], dgram[3]);
        if dgram.len() >= 7 {
            law_be16_is_big_endian(0, dgram[5], dgram[6]);
            assert(dgram.skip(5)[0] == dgram[5] && dgram.skip(5)[1] == dgram[6]);
        }
    }
}

} // verus!
