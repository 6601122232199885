//! The UDP tunnel, on both ends, once its connection is up.
//!
//! Each loop of the tunnel is a function from the step it is at and what came
//! of it to the next step. A step says what to do with a socket or with the
//! connection; nothing here does it.
use std::collections::HashMap;
use vstd::prelude::*;
use crate::fragment::{build_datagrams, ReassemblyBuf};
use crate::reassembly::{discard_reason, receive_datagram, Discard, Incoming};
use crate::session::{ClientSessions, SocketAddr};
#[allow(unused_imports)]
use crate::endian::law_be32_is_big_endian;
#[allow(unused_imports)]
use crate::fragment::{contents, datagrams, pending, Partial};
#[allow(unused_imports)]
use crate::reassembly::{
    discarded, law_fragments_on_the_wire, law_last_datagram_completes, law_round_trip,
    law_single_on_the_wire, receive, receive_all, session_of, Reception,
};
#[allow(unused_imports)]
use crate::session::{law_sessions_lead_back, SessionTable};

verus! {

/// The longest payload of a UDP packet: 65535 bytes less the headers of UDP
/// and IP.
pub const MAX_UDP_PAYLOAD: usize = 65507;

/// The datagram limit of a connection that does not report one.
pub const DEFAULT_MAX_DGRAM: usize = 1200;

/// The limit for datagrams, given the one that the connection reports.
pub fn datagram_limit(reported: Option<usize>) -> (limit: usize)
    ensures
        limit == (match reported {
            Some(limit) => limit,
            None => 1200,
        }),
{
    match reported {
        Some(limit) => limit,
        None => DEFAULT_MAX_DGRAM,
    }
}

/// What a server knows of its sessions.
pub struct ServerState<S> {
    /// Messages that were begun.
    pub pending: Map<u32, Partial>,
    /// The socket of each session.
    pub sockets: Map<u32, S>,
}

/// The sessions of one connection, on the server: a socket of its own for each,
/// and the messages that were begun.
pub struct ServerTunnel<S> {
    bufs: HashMap<u32, ReassemblyBuf>,
    sockets: HashMap<u32, S>,
}

impl<S> View for ServerTunnel<S> {
    type V = ServerState<S>;

    closed spec fn view(&self) -> ServerState<S> {
        ServerState { pending: pending(self.bufs@), sockets: self.sockets@ }
    }
}

impl<S> ServerState<S> {
    /// The state before any datagram.
    pub open spec fn empty() -> ServerState<S> {
        ServerState { pending: Map::empty(), sockets: Map::empty() }
    }
}

impl<S> ServerTunnel<S> {
    /// A tunnel without sessions.
    pub fn new() -> (tunnel: Self)
        ensures
            tunnel@ == ServerState::<S>::empty(),
    {
        let tunnel = ServerTunnel { bufs: HashMap::new(), sockets: HashMap::new() };
        assert(tunnel@.pending =~= Map::<u32, Partial>::empty());
        assert(tunnel@.sockets =~= Map::<u32, S>::empty());
        tunnel
    }

    /// The socket of the session.
    pub fn socket(&self, session_id: u32) -> (socket: Option<&S>)
        ensures
            match socket {
                Some(socket) => self@.sockets.contains_key(session_id) && *socket
                    == self@.sockets[session_id],
                None => !self@.sockets.contains_key(session_id),
            },
    {
        broadcast use vstd::std_specs::hash::group_hash_axioms;

        self.sockets.get(&session_id)
    }

    /// How many sessions have a socket.
    pub fn session_count(&self) -> (count: usize)
        ensures
            count == self@.sockets.len(),
    {
        broadcast use vstd::std_specs::hash::group_hash_axioms;

        self.sockets.len()
    }

    /// Why the server would discard the datagram, if it would.
    pub fn discards(&self, dgram: &[u8]) -> (reason: Option<Discard>)
        ensures
            reason == discarded(self@.pending, dgram@),
    {
        discard_reason(&self.bufs, dgram)
    }

    /// Forgets the socket of the session.
    pub fn close(&mut self, session_id: u32)
        ensures
            final(self)@ == (ServerState {
                sockets: old(self)@.sockets.remove(session_id),
                ..old(self)@
            }),
    {
        broadcast use vstd::std_specs::hash::group_hash_axioms;

        self.sockets.remove(&session_id);
        assert(self@.sockets =~= old(self)@.sockets.remove(session_id));
    }
}

/// What the server loop does next.
#[derive(Debug)]
pub enum ServerStep {
    /// Read a datagram from the connection.
    Read,
    /// Open a socket to the remote for the session.
    Open { session_id: u32, payload: Vec<u8> },
    /// Send the payload on the socket of the session. The socket of a `fresh`
    /// session gets a reader first.
    Send { session_id: u32, payload: Vec<u8>, fresh: bool },
    /// End the loop.
    Stop,
}

/// What a `ServerStep` says.
pub enum ServerDemand {
    Read,
    Open { session_id: u32, payload: Seq<u8> },
    Send { session_id: u32, payload: Seq<u8>, fresh: bool },
    Stop,
}

impl View for ServerStep {
    type V = ServerDemand;

    open spec fn view(&self) -> ServerDemand {
        match *self {
            ServerStep::Read => ServerDemand::Read,
            ServerStep::Open { session_id, payload } => ServerDemand::Open {
                session_id,
                payload: payload@,
            },
            ServerStep::Send { session_id, payload, fresh } => ServerDemand::Send {
                session_id,
                payload: payload@,
                fresh,
            },
            ServerStep::Stop => ServerDemand::Stop,
        }
    }
}

/// What came of a step of the server loop.
#[derive(Debug)]
pub enum ServerEvent<S> {
    /// A datagram was read.
    Datagram(Vec<u8>),
    /// The connection is gone.
    ConnectionLost,
    /// The socket was opened.
    Opened(S),
    /// The socket could not be opened.
    OpenFailed,
    /// The payload was sent.
    Sent,
    /// The payload could not be sent.
    SendFailed,
}

/// What a message leads to: it is sent on the socket of its session, which is
/// opened if there is none.
pub open spec fn dispatch<S>(state: ServerState<S>, messages: Seq<(u32, Seq<u8>)>) -> ServerDemand {
    if messages.len() == 0 {
        ServerDemand::Read
    } else if state.sockets.contains_key(messages[0].0) {
        ServerDemand::Send { session_id: messages[0].0, payload: messages[0].1, fresh: false }
    } else {
        ServerDemand::Open { session_id: messages[0].0, payload: messages[0].1 }
    }
}

/// What a datagram leads to.
pub open spec fn server_receives<S>(state: ServerState<S>, dgram: Seq<u8>) -> (
    ServerState<S>,
    ServerDemand,
) {
    let got = receive(state.pending, dgram);
    (ServerState { pending: got.pending, ..state }, dispatch(state, got.messages))
}

/// The state and the step after `event`. What does not answer the step changes
/// nothing.
pub open spec fn server_loop<S>(
    state: ServerState<S>,
    step: ServerDemand,
    event: ServerEvent<S>,
) -> (ServerState<S>, ServerDemand) {
    match (step, event) {
        (ServerDemand::Read, ServerEvent::Datagram(dgram)) => server_receives(state, dgram@),
        (ServerDemand::Read, ServerEvent::ConnectionLost) => (state, ServerDemand::Stop),
        (ServerDemand::Open { session_id, payload }, ServerEvent::Opened(socket)) => (
            ServerState { sockets: state.sockets.insert(session_id, socket), ..state },
            ServerDemand::Send { session_id, payload, fresh: true },
        ),
        (ServerDemand::Open { .. }, ServerEvent::OpenFailed) => (state, ServerDemand::Read),
        (ServerDemand::Send { .. }, ServerEvent::Sent) => (state, ServerDemand::Read),
        (ServerDemand::Send { session_id, .. }, ServerEvent::SendFailed) => (
            ServerState { sockets: state.sockets.remove(session_id), ..state },
            ServerDemand::Read,
        ),
        _ => (state, step),
    }
}

/// Moves the server loop on: datagrams are put together to messages, and each
/// message goes out on the socket of its session. A socket that cannot be
/// opened loses the message, one that cannot send loses the session too.
pub fn server_loop_next<S>(
    tunnel: &mut ServerTunnel<S>,
    step: ServerStep,
    event: ServerEvent<S>,
) -> (next: ServerStep)
    ensures
        (final(tunnel)@, next@) == server_loop(old(tunnel)@, step@, event),
{
    broadcast use vstd::std_specs::hash::group_hash_axioms;

    match (step, event) {
        (ServerStep::Read, ServerEvent::Datagram(dgram)) => {
            let incoming = receive_datagram(&mut tunnel.bufs, dgram.as_slice());
            let ghost messages = incoming.messages();
            match incoming {
                Incoming::Message { session_id, payload } => {
                    assert(messages[0] == (session_id, payload@));
                    if tunnel.sockets.contains_key(&session_id) {
                        ServerStep::Send { session_id, payload, fresh: false }
                    } else {
                        ServerStep::Open { session_id, payload }
                    }
                },
                _ => ServerStep::Read,
            }
        },
        (ServerStep::Read, ServerEvent::ConnectionLost) => ServerStep::Stop,
        (ServerStep::Open { session_id, payload }, ServerEvent::Opened(socket)) => {
            tunnel.sockets.insert(session_id, socket);
            assert(tunnel@.sockets =~= old(tunnel)@.sockets.insert(session_id, socket));
            ServerStep::Send { session_id, payload, fresh: true }
        },
        (ServerStep::Open { .. }, ServerEvent::OpenFailed) => ServerStep::Read,
        (ServerStep::Send { .. }, ServerEvent::Sent) => ServerStep::Read,
        (ServerStep::Send { session_id, .. }, ServerEvent::SendFailed) => {
            tunnel.close(session_id);
            ServerStep::Read
        },
        (step, _) => step,
    }
}

/// What a loop that sends payloads into the connection does next.
#[derive(Debug)]
pub enum OutStep {
    /// Receive a payload from the socket.
    Receive,
    /// Send the frame as a datagram; the rest is to follow.
    Forward { frame: Vec<u8>, rest: Vec<Vec<u8>> },
    /// End the loop.
    Stop,
}

/// What an `OutStep` says.
pub enum OutDemand {
    Receive,
    Forward { frame: Seq<u8>, rest: Seq<Seq<u8>> },
    Stop,
}

impl View for OutStep {
    type V = OutDemand;

    open spec fn view(&self) -> OutDemand {
        match *self {
            OutStep::Receive => OutDemand::Receive,
            OutStep::Forward { frame, rest } => OutDemand::Forward {
                frame: frame@,
                rest: contents(rest@),
            },
            OutStep::Stop => OutDemand::Stop,
        }
    }
}

/// The step at which `frames` are still to be sent: the first of them is, and
/// once there are none, the next payload is received.
pub open spec fn forwarding(frames: Seq<Seq<u8>>) -> OutDemand {
    if frames.len() == 0 {
        OutDemand::Receive
    } else {
        OutDemand::Forward { frame: frames[0], rest: frames.skip(1) }
    }
}

fn forward(frames: Vec<Vec<u8>>) -> (step: OutStep)
    ensures
        step@ == forwarding(contents(frames@)),
{
    if frames.len() == 0 {
        return OutStep::Receive;
    }
    let mut rest = frames;
    let frame = rest.remove(0);
    assert(contents(rest@) =~= contents(frames@).skip(1));
    OutStep::Forward { frame, rest }
}

/// What came of a step of the loop that reads the socket of a session.
#[derive(Debug)]
pub enum ReaderEvent {
    /// A payload was received.
    Received(Vec<u8>),
    /// Nothing can be received any more.
    ReceiveFailed,
    /// The frame was sent.
    FrameSent,
    /// The frame could not be sent.
    FrameFailed,
}

/// The step of a session's reader after `event`. An empty payload ends the
/// loop; a frame that cannot be sent takes the rest of its payload with it.
/// What does not answer the step changes nothing.
pub open spec fn reader_loop(
    session_id: u32,
    max_dgram: nat,
    step: OutDemand,
    event: ReaderEvent,
) -> OutDemand {
    match (step, event) {
        (OutDemand::Receive, ReaderEvent::Received(payload)) => if payload@.len() == 0 {
            OutDemand::Stop
        } else {
            forwarding(datagrams(session_id, payload@, max_dgram))
        },
        (OutDemand::Receive, ReaderEvent::ReceiveFailed) => OutDemand::Stop,
        (OutDemand::Forward { rest, .. }, ReaderEvent::FrameSent) => forwarding(rest),
        (OutDemand::Forward { .. }, ReaderEvent::FrameFailed) => OutDemand::Receive,
        _ => step,
    }
}

/// Moves the reader of a session on: what the remote answers is sent back as
/// datagrams of the session. Once the loop stops, the session is closed.
pub fn reader_next(session_id: u32, max_dgram: usize, step: OutStep, event: ReaderEvent) -> (next:
    OutStep)
    requires
        event matches ReaderEvent::Received(payload) ==> payload@.len() == 0 || max_dgram >= 6,
    ensures
        next@ == reader_loop(session_id, max_dgram as nat, step@, event),
{
    match (step, event) {
        (OutStep::Receive, ReaderEvent::Received(payload)) => {
            if payload.len() == 0 {
                OutStep::Stop
            } else {
                forward(build_datagrams(session_id, payload.as_slice(), max_dgram))
            }
        },
        (OutStep::Receive, ReaderEvent::ReceiveFailed) => OutStep::Stop,
        (OutStep::Forward { rest, .. }, ReaderEvent::FrameSent) => forward(rest),
        (OutStep::Forward { .. }, ReaderEvent::FrameFailed) => OutStep::Receive,
        (step, _) => step,
    }
}

/// What came of a step of the loop that reads the local socket of a client.
#[derive(Debug)]
pub enum UplinkEvent {
    /// A payload was received.
    Received { payload: Vec<u8>, sender: SocketAddr },
    /// Nothing can be received any more.
    ReceiveFailed,
    /// The frame was sent.
    FrameSent,
    /// The frame could not be sent.
    FrameFailed,
}

/// The sessions and the step of the client after `event`. Every payload travels
/// in the session of its sender; a frame that cannot be sent ends the loop.
/// What does not answer the step changes nothing.
pub open spec fn uplink_loop(
    sessions: SessionTable,
    max_dgram: nat,
    step: OutDemand,
    event: UplinkEvent,
) -> (SessionTable, OutDemand) {
    match (step, event) {
        (OutDemand::Receive, UplinkEvent::Received { payload, sender }) => (
            sessions.with(sender),
            forwarding(datagrams(sessions.id_for(sender), payload@, max_dgram)),
        ),
        (OutDemand::Receive, UplinkEvent::ReceiveFailed) => (sessions, OutDemand::Stop),
        (OutDemand::Forward { rest, .. }, UplinkEvent::FrameSent) => (sessions, forwarding(rest)),
        (OutDemand::Forward { .. }, UplinkEvent::FrameFailed) => (sessions, OutDemand::Stop),
        _ => (sessions, step),
    }
}

/// Moves the client's way up on: from the local socket into the connection.
pub fn uplink_next(
    sessions: &mut ClientSessions,
    max_dgram: usize,
    step: OutStep,
    event: UplinkEvent,
) -> (next: OutStep)
    requires
        event matches UplinkEvent::Received { payload, .. } ==> payload@.len() == 0 || max_dgram
            >= 6,
    ensures
        (final(sessions)@, next@) == uplink_loop(old(sessions)@, max_dgram as nat, step@, event),
{
    match (step, event) {
        (OutStep::Receive, UplinkEvent::Received { payload, sender }) => {
            let session_id: u32 = sessions.get_or_create(sender);
            forward(build_datagrams(session_id, payload.as_slice(), max_dgram))
        },
        (OutStep::Receive, UplinkEvent::ReceiveFailed) => OutStep::Stop,
        (OutStep::Forward { rest, .. }, UplinkEvent::FrameSent) => forward(rest),
        (OutStep::Forward { .. }, UplinkEvent::FrameFailed) => OutStep::Stop,
        (step, _) => step,
    }
}

/// What the client's way down does next.
#[derive(Debug)]
pub enum DownStep {
    /// Read a datagram from the connection.
    Read,
    /// Send the payload to the address from the local socket.
    Deliver { addr: SocketAddr, payload: Vec<u8> },
    /// Drop a message: nobody has this session.
    Drop { session_id: u32 },
    /// End the loop.
    Stop,
}

/// What a `DownStep` says.
pub enum DownDemand {
    Read,
    Deliver { addr: SocketAddr, payload: Seq<u8> },
    Drop { session_id: u32 },
    Stop,
}

impl View for DownStep {
    type V = DownDemand;

    open spec fn view(&self) -> DownDemand {
        match *self {
            DownStep::Read => DownDemand::Read,
            DownStep::Deliver { addr, payload } => DownDemand::Deliver { addr, payload: payload@ },
            DownStep::Drop { session_id } => DownDemand::Drop { session_id },
            DownStep::Stop => DownDemand::Stop,
        }
    }
}

/// What came of a step of the client's way down.
#[derive(Debug)]
pub enum DownEvent {
    /// A datagram was read.
    Datagram(Vec<u8>),
    /// The connection is gone.
    ConnectionLost,
    /// The payload was sent.
    Delivered,
    /// The payload could not be sent.
    DeliveryFailed,
    /// The message was dropped.
    Dropped,
}

/// What a message leads to: it goes to the sender of its session, or is dropped
/// if there is none.
pub open spec fn deliver(sessions: SessionTable, messages: Seq<(u32, Seq<u8>)>) -> DownDemand {
    if messages.len() == 0 {
        DownDemand::Read
    } else {
        match sessions.addr_of(messages[0].0) {
            Some(addr) => DownDemand::Deliver { addr, payload: messages[0].1 },
            None => DownDemand::Drop { session_id: messages[0].0 },
        }
    }
}

/// What a datagram leads to.
pub open spec fn client_receives(
    pending: Map<u32, Partial>,
    sessions: SessionTable,
    dgram: Seq<u8>,
) -> (Map<u32, Partial>, DownDemand) {
    let got = receive(pending, dgram);
    (got.pending, deliver(sessions, got.messages))
}

/// The buffers and the step of the client after `event`. A delivery that fails
/// is no reason to stop. What does not answer the step changes nothing.
pub open spec fn downlink_loop(
    pending: Map<u32, Partial>,
    sessions: SessionTable,
    step: DownDemand,
    event: DownEvent,
) -> (Map<u32, Partial>, DownDemand) {
    match (step, event) {
        (DownDemand::Read, DownEvent::Datagram(dgram)) => client_receives(
            pending,
            sessions,
            dgram@,
        ),
        (DownDemand::Read, DownEvent::ConnectionLost) => (pending, DownDemand::Stop),
        (DownDemand::Deliver { .. }, DownEvent::Delivered) => (pending, DownDemand::Read),
        (DownDemand::Deliver { .. }, DownEvent::DeliveryFailed) => (pending, DownDemand::Read),
        (DownDemand::Drop { .. }, DownEvent::Dropped) => (pending, DownDemand::Read),
        _ => (pending, step),
    }
}

/// Moves the client's way down on: from the connection to the local senders.
pub fn downlink_next(
    bufs: &mut HashMap<u32, ReassemblyBuf>,
    sessions: &ClientSessions,
    step: DownStep,
    event: DownEvent,
) -> (next: DownStep)
    ensures
        (pending(final(bufs)@), next@) == downlink_loop(
            pending(old(bufs)@),
            sessions@,
            step@,
            event,
        ),
{
    match (step, event) {
        (DownStep::Read, DownEvent::Datagram(dgram)) => {
            let incoming = receive_datagram(bufs, dgram.as_slice());
            let ghost messages = incoming.messages();
            match incoming {
                Incoming::Message { session_id, payload } => {
                    assert(messages[0] == (session_id, payload@));
                    match sessions.get_addr(session_id) {
                        Some(addr) => DownStep::Deliver { addr, payload },
                        None => DownStep::Drop { session_id },
                    }
                },
                _ => DownStep::Read,
            }
        },
        (DownStep::Read, DownEvent::ConnectionLost) => DownStep::Stop,
        (DownStep::Deliver { .. }, DownEvent::Delivered) => DownStep::Read,
        (DownStep::Deliver { .. }, DownEvent::DeliveryFailed) => DownStep::Read,
        (DownStep::Drop { .. }, DownEvent::Dropped) => DownStep::Read,
        (step, _) => step,
    }
}

/// The frames that are still to be sent at a step.
pub open spec fn outgoing(step: OutDemand) -> Seq<Seq<u8>> {
    match step {
        OutDemand::Forward { frame, rest } => seq![frame] + rest,
        _ => seq![],
    }
}

/// A payload goes out as its datagrams, all of them and in order: they are what
/// is to be sent once it was received, and each that was sent leaves the rest.
/// So it is on both ends, and the client sends them in the session of the
/// sender.
pub proof fn law_every_frame_goes_out(
    session_id: u32,
    sessions: SessionTable,
    max_dgram: nat,
    answered: ReaderEvent,
    received: UplinkEvent,
    step: OutDemand,
)
    ensures
        answered matches ReaderEvent::Received(payload) ==> payload@.len() > 0 ==> outgoing(
            reader_loop(session_id, max_dgram, OutDemand::Receive, answered),
        ) == datagrams(session_id, payload@, max_dgram),
        received matches UplinkEvent::Received { payload, sender } ==> outgoing(
            uplink_loop(sessions, max_dgram, OutDemand::Receive, received).1,
        ) == datagrams(sessions.id_for(sender), payload@, max_dgram),
        step is Forward ==> {
            &&& outgoing(reader_loop(session_id, max_dgram, step, ReaderEvent::FrameSent))
                == outgoing(step).skip(1)
            &&& outgoing(uplink_loop(sessions, max_dgram, step, UplinkEvent::FrameSent).1)
                == outgoing(step).skip(1)
        },
{
    if let ReaderEvent::Received(payload) = answered {
        lemma_outgoing(datagrams(session_id, payload@, max_dgram));
    }
    if let UplinkEvent::Received { payload, sender } = received {
        lemma_outgoing(datagrams(sessions.id_for(sender), payload@, max_dgram));
    }
    if let OutDemand::Forward { frame, rest } = step {
        lemma_outgoing(rest);
        assert((seq![frame] + rest).skip(1) =~= rest);
    }
}

proof fn lemma_outgoing(frames: Seq<Seq<u8>>)
    ensures
        outgoing(forwarding(frames)) == frames,
{
    assert(outgoing(forwarding(frames)) =~= frames);
}

/// What a local sender sends is what the server sends on to the remote, in the
/// session of that sender: of the datagrams of the payload, read in order, the
/// last one makes the server send exactly the payload on the socket of the
/// session, or open that socket first, and none before it does anything.
pub proof fn law_payload_reaches_session<S>(
    state: ServerState<S>,
    sessions: SessionTable,
    sender: SocketAddr,
    payload: Seq<u8>,
    max_dgram: nat,
    n: int,
)
    requires
        payload.len() <= 65535,
        max_dgram >= 6 || payload.len() == 0,
        0 <= n < datagrams(sessions.id_for(sender), payload, max_dgram).len(),
    ensures
        ({
            let session_id = sessions.id_for(sender);
            let frames = datagrams(session_id, payload, max_dgram);
            let before = ServerState {
                pending: receive_all(state.pending, frames.take(n)).pending,
                ..state
            };
            let (after, demand) = server_receives(before, frames[n]);
            &&& after.sockets == state.sockets
            &&& after.pending == receive_all(state.pending, frames.take(n + 1)).pending
            &&& demand == if n < frames.len() - 1 {
                ServerDemand::Read
            } else if state.sockets.contains_key(session_id) {
                ServerDemand::Send { session_id, payload, fresh: false }
            } else {
                ServerDemand::Open { session_id, payload }
            }
        }),
{
    let session_id = sessions.id_for(sender);
    let frames = datagrams(session_id, payload, max_dgram);
    law_last_datagram_completes(state.pending, session_id, payload, max_dgram, n);
    assert(frames.take(n + 1).drop_last() =~= frames.take(n));
}

/// Once the socket of a session is open, the message that it was opened for
/// goes out on it, and it serves the session from then on.
pub proof fn law_opened_socket_serves<S>(
    state: ServerState<S>,
    session_id: u32,
    payload: Seq<u8>,
    later: Seq<u8>,
    socket: S,
)
    ensures
        ({
            let (after, demand) = server_loop(
                state,
                ServerDemand::Open { session_id, payload },
                ServerEvent::Opened(socket),
            );
            &&& demand == (ServerDemand::Send { session_id, payload, fresh: true })
            &&& after.sockets.contains_key(session_id)
            &&& after.sockets[session_id] == socket
            &&& dispatch(after, seq![(session_id, later)]) == (ServerDemand::Send {
                session_id,
                payload: later,
                fresh: false,
            })
        }),
{
}

/// What the remote answers goes back to the sender whose session it is, and to
/// nobody else: of the datagrams of an answer, read in order, the last one
/// makes the client deliver exactly the answer to that sender, and none before
/// it does anything. The client had seen `count` senders before.
pub proof fn law_answer_reaches_sender(
    pending: Map<u32, Partial>,
    sessions: SessionTable,
    count: nat,
    sender: SocketAddr,
    answer: Seq<u8>,
    max_dgram: nat,
    n: int,
)
    requires
        sessions.numbered(count),
        answer.len() <= 65535,
        max_dgram >= 6 || answer.len() == 0,
        0 <= n < datagrams(sessions.id_for(sender), answer, max_dgram).len(),
    ensures
        ({
            let frames = datagrams(sessions.id_for(sender), answer, max_dgram);
            let before = receive_all(pending, frames.take(n)).pending;
            let (after, demand) = client_receives(before, sessions.with(sender), frames[n]);
            &&& after == receive_all(pending, frames.take(n + 1)).pending
            &&& demand == if n < frames.len() - 1 {
                DownDemand::Read
            } else {
                DownDemand::Deliver { addr: sender, payload: answer }
            }
        }),
{
    let session_id = sessions.id_for(sender);
    let frames = datagrams(session_id, answer, max_dgram);
    law_last_datagram_completes(pending, session_id, answer, max_dgram, n);
    law_sessions_lead_back(sessions, count, sender);
    assert(frames.take(n + 1).drop_last() =~= frames.take(n));
}

/// A session that comes later does not take over the answers of a sender, for
/// as long as there are ids left.
pub proof fn law_answers_stay_with_sender(
    sessions: SessionTable,
    count: nat,
    sender: SocketAddr,
    other: SocketAddr,
)
    requires
        sessions.numbered(count),
        sessions.id_by_addr.contains_key(sender),
        sessions.id_by_addr.contains_key(other) || count < 0x1_0000_0000,
    ensures
        sessions.with(other).addr_of(sessions.id_for(sender)) == Some(sender),
{
    law_sessions_lead_back(sessions, count, other);
}

/// The session that a step of the server is about.
pub open spec fn concerns(step: ServerDemand, session_id: u32) -> bool {
    match step {
        ServerDemand::Open { session_id: id, .. } => id == session_id,
        ServerDemand::Send { session_id: id, .. } => id == session_id,
        _ => false,
    }
}

/// A session keeps its socket through every step that is not its own, and
/// through its own unless the sending failed or the socket is replaced by the
/// one that was opened.
pub proof fn law_sockets_are_kept<S>(
    state: ServerState<S>,
    step: ServerDemand,
    event: ServerEvent<S>,
    session_id: u32,
)
    requires
        !(concerns(step, session_id) && step is Send && event is SendFailed),
        !(concerns(step, session_id) && step is Open && event is Opened),
    ensures
        ({
            let after = server_loop(state, step, event).0;
            &&& after.sockets.contains_key(session_id) == state.sockets.contains_key(session_id)
            &&& state.sockets.contains_key(session_id) ==> after.sockets[session_id]
                == state.sockets[session_id]
        }),
{
}

/// Whether no two sessions share a socket.
pub open spec fn sockets_apart<S>(sockets: Map<u32, S>) -> bool {
    forall|a: u32, b: u32| #[trigger]
        sockets.contains_key(a) && #[trigger] sockets.contains_key(b) && a != b ==> sockets[a]
            != sockets[b]
}

/// Whether some session has the socket.
pub open spec fn in_use<S>(sockets: Map<u32, S>, socket: S) -> bool {
    exists|id: u32| #[trigger] sockets.contains_key(id) && sockets[id] == socket
}

/// No step makes two sessions share a socket, if the socket that is opened for a
/// session is not one that is in use; neither does closing a session.
pub proof fn law_sockets_stay_apart<S>(
    state: ServerState<S>,
    step: ServerDemand,
    event: ServerEvent<S>,
    closed: u32,
)
    requires
        sockets_apart(state.sockets),
        event matches ServerEvent::Opened(socket) ==> step is Open ==> !in_use(
            state.sockets,
            socket,
        ),
    ensures
        sockets_apart(server_loop(state, step, event).0.sockets),
        sockets_apart(state.sockets.remove(closed)),
{
}

/// What happens to the sessions of a server.
pub enum Happening<S> {
    /// Something came of a step of its loop.
    Event(ServerEvent<S>),
    /// The reader of a session ended, and closed it.
    Closed(u32),
}

/// The state and the step of a server after all that happened to it.
pub open spec fn server_after<S>(happened: Seq<Happening<S>>) -> (ServerState<S>, ServerDemand)
    decreases happened.len(),
{
    if happened.len() == 0 {
        (ServerState::<S>::empty(), ServerDemand::Read)
    } else {
        let (state, step) = server_after(happened.drop_last());
        match happened.last() {
            Happening::Event(event) => server_loop(state, step, event),
            Happening::Closed(session_id) => (
                ServerState { sockets: state.sockets.remove(session_id), ..state },
                step,
            ),
        }
    }
}

/// Whether every socket that was opened for a session is another one than those
/// in use.
pub open spec fn opens_anew<S>(happened: Seq<Happening<S>>) -> bool {
    forall|i: int|
        0 <= i < happened.len() ==> match #[trigger] happened[i] {
            Happening::Event(ServerEvent::Opened(socket)) => {
                let (state, step) = server_after(happened.take(i));
                step is Open ==> !in_use(state.sockets, socket)
            },
            _ => true,
        }
}

/// Every session has a socket of its own, whatever happened to the server since
/// it began.
pub proof fn law_one_socket_per_session<S>(happened: Seq<Happening<S>>)
    requires
        opens_anew(happened),
    ensures
        sockets_apart(server_after(happened).0.sockets),
    decreases happened.len(),
{
    if happened.len() > 0 {
        let before = happened.drop_last();
        let last = happened.len() - 1;
        assert forall|i: int| 0 <= i < before.len() implies match #[trigger] before[i] {
            Happening::Event(ServerEvent::Opened(socket)) => {
                let (state, step) = server_after(before.take(i));
                step is Open ==> !in_use(state.sockets, socket)
            },
            _ => true,
        } by {
            assert(before[i] == happened[i]);
            assert(before.take(i) =~= happened.take(i));
        }
        law_one_socket_per_session(before);
        assert(happened.take(last) =~= before);
        assert(happened[last] == happened.last());
    }
}

/// A socket gets a reader when it is opened, and at no other time: the server
/// comes to a `fresh` sending from the opening of that session's socket alone,
/// and the next step is none.
pub proof fn law_one_reader_per_socket<S>(
    state: ServerState<S>,
    step: ServerDemand,
    event: ServerEvent<S>,
)
    ensures
        ({
            let (after, next) = server_loop(state, step, event);
            &&& next matches ServerDemand::Send { session_id, fresh: true, .. } ==> next == step
                || (concerns(step, session_id) && step is Open && event is Opened
                && after.sockets[session_id] == event->Opened_0)
            &&& step is Send ==> next == step || next is Read
            &&& step is Open && event is Opened ==> next is Send && next->fresh
        }),
{
}

/// A loop that stopped does nothing more.
pub proof fn law_stopped_is_stopped<S>(
    state: ServerState<S>,
    server_event: ServerEvent<S>,
    session_id: u32,
    max_dgram: nat,
    reader_event: ReaderEvent,
    sessions: SessionTable,
    uplink_event: UplinkEvent,
    pending: Map<u32, Partial>,
    down_event: DownEvent,
)
    ensures
        server_loop(state, ServerDemand::Stop, server_event) == (state, ServerDemand::Stop),
        reader_loop(session_id, max_dgram, OutDemand::Stop, reader_event) == OutDemand::Stop,
        uplink_loop(sessions, max_dgram, OutDemand::Stop, uplink_event) == (
            sessions,
            OutDemand::Stop,
        ),
        downlink_loop(pending, sessions, DownDemand::Stop, down_event) == (
            pending,
            DownDemand::Stop,
        ),
{
}

/// Whatever datagram the server reads, its loop takes it in as it is: the
/// buffers become what the datagram makes of them, and the message that it
/// completes, if any, is the next thing to be sent, on the socket of its own
/// session, or to open that socket for. Sockets are not touched.
pub proof fn law_server_sends_what_it_receives<S>(state: ServerState<S>, dgram: Vec<u8>)
    ensures
        ({
            let got = receive(state.pending, dgram@);
            let (after, next) = server_loop(
                state,
                ServerDemand::Read,
                ServerEvent::Datagram(dgram),
            );
            &&& after.pending == got.pending
            &&& after.sockets == state.sockets
            &&& got.messages.len() == 0 ==> next is Read
            &&& got.messages.len() > 0 ==> {
                let (session_id, payload) = got.messages[0];
                &&& state.sockets.contains_key(session_id) ==> next == (ServerDemand::Send {
                    session_id,
                    payload,
                    fresh: false,
                })
                &&& !state.sockets.contains_key(session_id) ==> next == (ServerDemand::Open {
                    session_id,
                    payload,
                })
            }
        }),
{
}

/// Where the server loop stands after it read datagrams one after the other.
pub open spec fn server_reads<S>(state: ServerState<S>, dgrams: Seq<Vec<u8>>) -> (
    ServerState<S>,
    ServerDemand,
)
    decreases dgrams.len(),
{
    if dgrams.len() == 0 {
        (state, ServerDemand::Read)
    } else {
        let (before, step) = server_reads(state, dgrams.drop_last());
        server_loop(before, step, ServerEvent::Datagram(dgrams.last()))
    }
}

proof fn lemma_server_reads_on<S>(
    state: ServerState<S>,
    session_id: u32,
    payload: Seq<u8>,
    max_dgram: nat,
    dgrams: Seq<Vec<u8>>,
    n: int,
)
    requires
        payload.len() <= 65535,
        max_dgram >= 6 || payload.len() == 0,
        contents(dgrams) == datagrams(session_id, payload, max_dgram),
        0 <= n < dgrams.len(),
    ensures
        server_reads(state, dgrams.take(n)).0.sockets == state.sockets,
        server_reads(state, dgrams.take(n)).0.pending == receive_all(
            state.pending,
            contents(dgrams).take(n),
        ).pending,
        server_reads(state, dgrams.take(n)).1 is Read,
    decreases n,
{
    let frames = contents(dgrams);
    if n == 0 {
        assert(frames.take(0) =~= Seq::<Seq<u8>>::empty());
    } else {
        lemma_server_reads_on(state, session_id, payload, max_dgram, dgrams, n - 1);
        law_last_datagram_completes(state.pending, session_id, payload, max_dgram, n - 1);
        assert(dgrams.take(n).drop_last() =~= dgrams.take(n - 1));
        assert(frames.take(n).drop_last() =~= frames.take(n - 1));
        assert(frames[n - 1] == dgrams[n - 1]@);
    }
}

/// A payload of up to 65535 bytes, sent as its datagrams, comes out of the server
/// loop as it went in: the loop reads on until the last of them, and then sends
/// exactly the payload on the socket of its session, or opens that socket for it.
pub proof fn law_server_loop_sends_payload<S>(
    state: ServerState<S>,
    session_id: u32,
    payload: Seq<u8>,
    max_dgram: nat,
    dgrams: Seq<Vec<u8>>,
)
    requires
        payload.len() <= 65535,
        max_dgram >= 6 || payload.len() == 0,
        contents(dgrams) == datagrams(session_id, payload, max_dgram),
    ensures
        server_reads(state, dgrams).0.sockets == state.sockets,
        server_reads(state, dgrams).1 == if state.sockets.contains_key(session_id) {
            ServerDemand::Send { session_id, payload, fresh: false }
        } else {
            ServerDemand::Open { session_id, payload }
        },
        forall|n: int|
            0 <= n < dgrams.len() ==> (#[trigger] server_reads(state, dgrams.take(n))).1 is Read,
{
    let frames = contents(dgrams);
    let last = frames.len() - 1;
    assert forall|n: int| 0 <= n < dgrams.len() implies (#[trigger] server_reads(
        state,
        dgrams.take(n),
    )).1 is Read by {
        lemma_server_reads_on(state, session_id, payload, max_dgram, dgrams, n);
    }
    lemma_server_reads_on(state, session_id, payload, max_dgram, dgrams, last);
    law_last_datagram_completes(state.pending, session_id, payload, max_dgram, last);
    assert(dgrams.drop_last() =~= dgrams.take(last));
    assert(frames[last] == dgrams.last()@);
}

/// The rest of the server loop: a lost connection ends it while it reads; a
/// socket that is opened is kept for its session, and the message that waited for
/// it goes out on it; one that cannot be opened costs the message alone; what was
/// sent leaves everything as it is, what could not be sent costs the session its
/// socket; and after each of these, but the first two, the loop reads on. The
/// buffers are not touched by any, and nothing happens on what is not an answer.
pub proof fn law_server_loop_goes_on<S>(
    state: ServerState<S>,
    session_id: u32,
    payload: Seq<u8>,
    fresh: bool,
    socket: S,
    step: ServerDemand,
    event: ServerEvent<S>,
)
    ensures
        server_loop(state, ServerDemand::Read, ServerEvent::ConnectionLost) == (
            state,
            ServerDemand::Stop,
        ),
        ({
            let open = ServerDemand::Open { session_id, payload };
            let (after, next) = server_loop(state, open, ServerEvent::Opened(socket));
            &&& after.pending == state.pending
            &&& after.sockets == state.sockets.insert(session_id, socket)
            &&& next == (ServerDemand::Send { session_id, payload, fresh: true })
            &&& server_loop(state, open, ServerEvent::OpenFailed) == (state, ServerDemand::Read)
        }),
        ({
            let send = ServerDemand::Send { session_id, payload, fresh };
            let (after, next) = server_loop(state, send, ServerEvent::SendFailed);
            &&& after.pending == state.pending
            &&& after.sockets == state.sockets.remove(session_id)
            &&& next is Read
            &&& server_loop(state, send, ServerEvent::Sent) == (state, ServerDemand::Read)
        }),
        ({
            let answers = match step {
                ServerDemand::Read => event is Datagram || event is ConnectionLost,
                ServerDemand::Open { .. } => event is Opened || event is OpenFailed,
                ServerDemand::Send { .. } => event is Sent || event is SendFailed,
                ServerDemand::Stop => false,
            };
            !answers ==> server_loop(state, step, event) == (state, step)
        }),
{
}

/// A payload that was received goes out as its datagrams, the first of them at
/// once; after each that was sent, the next of them goes out, and after the last
/// the loop waits for the next payload. So it is on both ends; only an empty
/// payload, on the server, is the end of the loop and not sent.
pub proof fn law_payloads_go_out_one_after_another(
    session_id: u32,
    sessions: SessionTable,
    max_dgram: nat,
    answered: Vec<u8>,
    received: Vec<u8>,
    sender: SocketAddr,
    frame: Seq<u8>,
    rest: Seq<Seq<u8>>,
)
    requires
        max_dgram >= 6 || (answered@.len() == 0 && received@.len() == 0),
    ensures
        ({
            let frames = datagrams(session_id, answered@, max_dgram);
            let next = reader_loop(
                session_id,
                max_dgram,
                OutDemand::Receive,
                ReaderEvent::Received(answered),
            );
            &&& answered@.len() == 0 ==> next is Stop
            &&& answered@.len() > 0 ==> next == (OutDemand::Forward {
                frame: frames[0],
                rest: frames.skip(1),
            })
        }),
        ({
            let frames = datagrams(sessions.id_for(sender), received@, max_dgram);
            let (after, next) = uplink_loop(
                sessions,
                max_dgram,
                OutDemand::Receive,
                UplinkEvent::Received { payload: received, sender },
            );
            &&& after == sessions.with(sender)
            &&& next == (OutDemand::Forward { frame: frames[0], rest: frames.skip(1) })
        }),
        ({
            let sending = OutDemand::Forward { frame, rest };
            let next = reader_loop(session_id, max_dgram, sending, ReaderEvent::FrameSent);
            &&& uplink_loop(sessions, max_dgram, sending, UplinkEvent::FrameSent) == (
                sessions,
                next,
            )
            &&& rest.len() == 0 ==> next is Receive
            &&& rest.len() > 0 ==> next == (OutDemand::Forward {
                frame: rest[0],
                rest: rest.skip(1),
            })
        }),
{
    if answered@.len() > 0 {
        if answered@.len() + 7 <= max_dgram {
            law_single_on_the_wire(session_id, answered@, max_dgram);
        } else {
            law_fragments_on_the_wire(session_id, answered@, max_dgram);
        }
    }
    let id = sessions.id_for(sender);
    if received@.len() == 0 || received@.len() + 7 <= max_dgram {
        law_single_on_the_wire(id, received@, max_dgram);
    } else {
        law_fragments_on_the_wire(id, received@, max_dgram);
    }
}

/// A loop that sends into the connection stops for three reasons only: nothing
/// more can be received, the server's reader received an empty payload, or the
/// client could not send a frame. A frame that the reader could not send costs
/// the rest of its payload, and the next one is received. Sessions come of
/// payloads alone, and nothing happens on what is not an answer.
pub proof fn law_why_sending_stops(
    session_id: u32,
    sessions: SessionTable,
    max_dgram: nat,
    step: OutDemand,
    answer: ReaderEvent,
    local: UplinkEvent,
)
    ensures
        ({
            let next = reader_loop(session_id, max_dgram, step, answer);
            let answers = match step {
                OutDemand::Receive => answer is Received || answer is ReceiveFailed,
                OutDemand::Forward { .. } => answer is FrameSent || answer is FrameFailed,
                OutDemand::Stop => false,
            };
            &&& !answers ==> next == step
            &&& step is Receive && answer is ReceiveFailed ==> next is Stop
            &&& step is Forward && answer is FrameFailed ==> next is Receive
            &&& next is Stop && !(step is Stop) ==> step is Receive && (answer is ReceiveFailed || (
            answer is Received && answer->Received_0@.len() == 0))
        }),
        ({
            let (after, next) = uplink_loop(sessions, max_dgram, step, local);
            let answers = match step {
                OutDemand::Receive => local is Received || local is ReceiveFailed,
                OutDemand::Forward { .. } => local is FrameSent || local is FrameFailed,
                OutDemand::Stop => false,
            };
            &&& !answers ==> next == step
            &&& !(step is Receive && local is Received) ==> after == sessions
            &&& step is Receive && local is ReceiveFailed ==> next is Stop
            &&& step is Forward && local is FrameFailed ==> next is Stop
            &&& next is Stop && !(step is Stop) ==> (step is Receive && local is ReceiveFailed) || (
            step is Forward && local is FrameFailed)
        }),
{
}

/// Whatever datagram the client reads, its loop takes it in as it is: the
/// buffers become what the datagram makes of them, and the message that it
/// completes, if any, is delivered to the sender that its own session leads to,
/// or dropped if it leads to none.
pub proof fn law_client_delivers_what_it_receives(
    pending: Map<u32, Partial>,
    sessions: SessionTable,
    dgram: Vec<u8>,
)
    ensures
        ({
            let got = receive(pending, dgram@);
            let (after, next) = downlink_loop(
                pending,
                sessions,
                DownDemand::Read,
                DownEvent::Datagram(dgram),
            );
            &&& after == got.pending
            &&& got.messages.len() == 0 ==> next is Read
            &&& got.messages.len() > 0 ==> {
                let (session_id, payload) = got.messages[0];
                &&& sessions.addr_by_id.contains_key(session_id) ==> next == (
                DownDemand::Deliver { addr: sessions.addr_by_id[session_id], payload })
                &&& !sessions.addr_by_id.contains_key(session_id) ==> next == (DownDemand::Drop {
                    session_id,
                })
            }
        }),
{
}

/// Where the client's way down stands after it read datagrams one after the
/// other.
pub open spec fn client_reads(
    pending: Map<u32, Partial>,
    sessions: SessionTable,
    dgrams: Seq<Vec<u8>>,
) -> (Map<u32, Partial>, DownDemand)
    decreases dgrams.len(),
{
    if dgrams.len() == 0 {
        (pending, DownDemand::Read)
    } else {
        let (before, step) = client_reads(pending, sessions, dgrams.drop_last());
        downlink_loop(before, sessions, step, DownEvent::Datagram(dgrams.last()))
    }
}

proof fn lemma_client_reads_on(
    pending: Map<u32, Partial>,
    sessions: SessionTable,
    session_id: u32,
    answer: Seq<u8>,
    max_dgram: nat,
    dgrams: Seq<Vec<u8>>,
    n: int,
)
    requires
        answer.len() <= 65535,
        max_dgram >= 6 || answer.len() == 0,
        contents(dgrams) == datagrams(session_id, answer, max_dgram),
        0 <= n < dgrams.len(),
    ensures
        client_reads(pending, sessions, dgrams.take(n)).0 == receive_all(
            pending,
            contents(dgrams).take(n),
        ).pending,
        client_reads(pending, sessions, dgrams.take(n)).1 is Read,
    decreases n,
{
    let frames = contents(dgrams);
    if n == 0 {
        assert(frames.take(0) =~= Seq::<Seq<u8>>::empty());
    } else {
        lemma_client_reads_on(pending, sessions, session_id, answer, max_dgram, dgrams, n - 1);
        law_last_datagram_completes(pending, session_id, answer, max_dgram, n - 1);
        assert(dgrams.take(n).drop_last() =~= dgrams.take(n - 1));
        assert(frames.take(n).drop_last() =~= frames.take(n - 1));
        assert(frames[n - 1] == dgrams[n - 1]@);
    }
}

/// An answer of up to 65535 bytes, sent as the datagrams of a session, comes out
/// of the client's loop as it went in, and goes to the sender of that session:
/// the loop reads on until the last of them, and then delivers exactly the
/// answer to exactly that sender. An answer in a session that nobody has is
/// dropped.
pub proof fn law_client_loop_delivers_answer(
    pending: Map<u32, Partial>,
    sessions: SessionTable,
    session_id: u32,
    answer: Seq<u8>,
    max_dgram: nat,
    dgrams: Seq<Vec<u8>>,
)
    requires
        answer.len() <= 65535,
        max_dgram >= 6 || answer.len() == 0,
        contents(dgrams) == datagrams(session_id, answer, max_dgram),
    ensures
        client_reads(pending, sessions, dgrams).1 == if sessions.addr_by_id.contains_key(
            session_id,
        ) {
            DownDemand::Deliver { addr: sessions.addr_by_id[session_id], payload: answer }
        } else {
            DownDemand::Drop { session_id }
        },
        forall|n: int|
            0 <= n < dgrams.len() ==> (#[trigger] client_reads(
                pending,
                sessions,
                dgrams.take(n),
            )).1 is Read,
{
    let frames = contents(dgrams);
    let last = frames.len() - 1;
    assert forall|n: int| 0 <= n < dgrams.len() implies (#[trigger] client_reads(
        pending,
        sessions,
        dgrams.take(n),
    )).1 is Read by {
        lemma_client_reads_on(pending, sessions, session_id, answer, max_dgram, dgrams, n);
    }
    lemma_client_reads_on(pending, sessions, session_id, answer, max_dgram, dgrams, last);
    law_last_datagram_completes(pending, session_id, answer, max_dgram, last);
    assert(dgrams.drop_last() =~= dgrams.take(last));
    assert(frames[last] == dgrams.last()@);
}

/// An answer reaches the sender that asked, through both loops: whatever a
/// client's loop received from a sender, the answers in the session that its
/// datagrams name are delivered to that sender.
pub proof fn law_answers_reach_who_asked(
    pending: Map<u32, Partial>,
    sessions: SessionTable,
    count: nat,
    request: Vec<u8>,
    sender: SocketAddr,
    answer: Seq<u8>,
    max_dgram: nat,
    dgrams: Seq<Vec<u8>>,
)
    requires
        sessions.numbered(count),
        answer.len() <= 65535,
        max_dgram >= 6,
        contents(dgrams) == datagrams(sessions.id_for(sender), answer, max_dgram),
    ensures
        ({
            let received = UplinkEvent::Received { payload: request, sender };
            let (after, next) = uplink_loop(sessions, max_dgram, OutDemand::Receive, received);
            &&& next is Forward
            &&& session_of(next->frame) == sessions.id_for(sender)
            &&& client_reads(pending, after, dgrams).1 == (DownDemand::Deliver {
                addr: sender,
                payload: answer,
            })
        }),
{
    let id = sessions.id_for(sender);
    law_sessions_lead_back(sessions, count, sender);
    law_payloads_go_out_one_after_another(
        id,
        sessions,
        max_dgram,
        request,
        request,
        sender,
        seq![],
        seq![],
    );
    law_client_loop_delivers_answer(pending, sessions.with(sender), id, answer, max_dgram, dgrams);
    let frame = datagrams(id, request@, max_dgram)[0];
    if request@.len() == 0 || request@.len() + 7 <= max_dgram {
        law_single_on_the_wire(id, request@, max_dgram);
    } else {
        law_fragments_on_the_wire(id, request@, max_dgram);
    }
    law_be32_is_big_endian(id, frame[0], frame[1], frame[2], frame[3]);
}

/// The rest of the client's way down: a lost connection ends it while it reads,
/// and nothing else does; after a delivery, one that failed, or a message that
/// was dropped, it reads on. The buffers are not touched by any of these, and
/// nothing happens on what is not an answer.
pub proof fn law_client_loop_goes_on(
    pending: Map<u32, Partial>,
    sessions: SessionTable,
    step: DownDemand,
    event: DownEvent,
)
    ensures
        ({
            let (after, next) = downlink_loop(pending, sessions, step, event);
            let answers = match step {
                DownDemand::Read => event is Datagram || event is ConnectionLost,
                DownDemand::Deliver { .. } => event is Delivered || event is DeliveryFailed,
                DownDemand::Drop { .. } => event is Dropped,
                DownDemand::Stop => false,
            };
            &&& !answers ==> next == step
            &&& !(step is Read && event is Datagram) ==> after == pending
            &&& answers && (step is Deliver || step is Drop) ==> next is Read
            &&& next is Stop && !(step is Stop) <==> step is Read && event is ConnectionLost
        }),
{
}

/// What a step says of itself is what it holds, on both ends.
pub proof fn law_steps_say_what_they_hold(
    session_id: u32,
    payload: Vec<u8>,
    fresh: bool,
    addr: SocketAddr,
    out: OutStep,
)
    ensures
        ServerStep::Read@ is Read,
        ServerStep::Stop@ is Stop,
        (ServerStep::Open { session_id, payload })@ == (ServerDemand::Open {
            session_id,
            payload: payload@,
        }),
        (ServerStep::Send { session_id, payload, fresh })@ == (ServerDemand::Send {
            session_id,
            payload: payload@,
            fresh,
        }),
        OutStep::Receive@ is Receive,
        OutStep::Stop@ is Stop,
        out is Forward ==> out@ == (OutDemand::Forward {
            frame: out->frame@,
            rest: contents(out->rest@),
        }),
        DownStep::Read@ is Read,
        DownStep::Stop@ is Stop,
        (DownStep::Deliver { addr, payload })@ == (DownDemand::Deliver { addr, payload: payload@ }),
        (DownStep::Drop { session_id })@ == (DownDemand::Drop { session_id }),
{
}

/// A server begins without sockets and without messages begun.
pub proof fn law_server_begins_empty<S>(session_id: u32)
    ensures
        !ServerState::<S>::empty().sockets.contains_key(session_id),
        !ServerState::<S>::empty().pending.contains_key(session_id),
{
}

} // verus!
