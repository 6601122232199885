//! The password handshake that opens every tunnel connection.
//!
//! The client sends a version byte, the length of its password as a 16-bit
//! big-endian number, and the password; the server answers with one status
//! byte. Each side is a function from its stage and what happened to its next
//! stage; the stage says what to do next.
use vstd::prelude::*;
use vstd::utf8::*;
use crate::endian::{put_be16, put_bytes};
use crate::text::{decimal_text, join2, join3, join4};
#[allow(unused_imports)]
use crate::endian::{be16, be16_value, law_be16_is_big_endian, law_be16_round_trip};
#[allow(unused_imports)]
use crate::text::decimal;

verus! {

/// The version byte that opens the handshake.
pub const PROTO_VERSION: u8 = 0x01;

/// The status byte of a server that lets the client in.
pub const AUTH_OK: u8 = 0x00;

/// The status byte of a server that does not.
pub const AUTH_FAIL: u8 = 0x01;

/// The longest password that a client can present over QUIC.
pub const MAX_QUIC_PASSWORD: u16 = 256;

/// What the handshake runs over.
#[derive(Debug, Clone, Copy, PartialEq, Eq, Structural)]
pub enum Transport {
    /// A TLS stream.
    Tls,
    /// The first bidirectional stream of a QUIC connection.
    Quic,
}

impl Transport {
    /// The longest password that a server reads.
    pub open spec fn max_password(self) -> nat {
        match self {
            Transport::Tls => 65535,
            Transport::Quic => 256,
        }
    }
}

/// Why a server turned a client away.
#[derive(Debug, Clone, Copy, PartialEq, Eq, Structural)]
pub enum Refusal {
    /// The client speaks another version.
    Version(u8),
    /// The password would be longer than the transport allows.
    PasswordTooLong,
    /// The password is not the one of the tunnel.
    WrongPassword,
}

/// Where the server stands.
#[derive(Debug, Clone, Copy, PartialEq, Eq, Structural)]
pub enum ServerStage {
    /// Read one byte, the version.
    ReadVersion,
    /// Read two bytes, the length of the password.
    ReadLength,
    /// Read that many bytes, the password.
    ReadPassword { len: u16 },
    /// Send the status byte.
    SendStatus { status: u8, refusal: Option<Refusal> },
    /// The client is in.
    Accepted,
    /// The client was turned away, and knows.
    Refused(Refusal),
    /// The stream failed before the handshake was over.
    Broken,
}

/// What happened to the server.
#[derive(Debug)]
pub enum ServerInput {
    /// The version was read.
    Version(u8),
    /// The length was read.
    Length(u16),
    /// The password was read.
    Password(Vec<u8>),
    /// The status byte was sent.
    StatusSent,
    /// The stream failed.
    Failed,
}

impl ServerStage {
    /// Whether the handshake is over.
    pub open spec fn is_over(self) -> bool {
        self is Accepted || self is Refused || self is Broken
    }
}

/// The stage in which a server tells a client that it is turned away.
pub open spec fn turn_away(refusal: Refusal) -> ServerStage {
    ServerStage::SendStatus { status: AUTH_FAIL, refusal: Some(refusal) }
}

/// What a version byte leads to.
pub open spec fn judge_version(version: u8) -> ServerStage {
    if version == PROTO_VERSION {
        ServerStage::ReadLength
    } else {
        turn_away(Refusal::Version(version))
    }
}

/// What an announced password length leads to.
pub open spec fn judge_length(transport: Transport, len: u16) -> ServerStage {
    if len <= transport.max_password() {
        ServerStage::ReadPassword { len }
    } else {
        turn_away(Refusal::PasswordTooLong)
    }
}

/// What a presented password leads to.
pub open spec fn judge_password(password: Seq<u8>, presented: Seq<u8>) -> ServerStage {
    if presented == password {
        ServerStage::SendStatus { status: AUTH_OK, refusal: None }
    } else {
        turn_away(Refusal::WrongPassword)
    }
}

/// The stage after `input`. What does not answer the stage changes nothing, a
/// failed stream ends the handshake.
pub open spec fn server_transition(
    transport: Transport,
    password: Seq<u8>,
    stage: ServerStage,
    input: ServerInput,
) -> ServerStage {
    match (stage, input) {
        (ServerStage::ReadVersion, ServerInput::Version(version)) => judge_version(version),
        (ServerStage::ReadLength, ServerInput::Length(len)) => judge_length(transport, len),
        (ServerStage::ReadPassword { len }, ServerInput::Password(presented)) => if presented@.len()
            == len {
            judge_password(password, presented@)
        } else {
            stage
        },
        (ServerStage::SendStatus { refusal, .. }, ServerInput::StatusSent) => match refusal {
            Some(refusal) => ServerStage::Refused(refusal),
            None => ServerStage::Accepted,
        },
        (_, ServerInput::Failed) => if stage.is_over() {
            stage
        } else {
            ServerStage::Broken
        },
        _ => stage,
    }
}

/// Moves the server on. `password` is the one of the tunnel.
pub fn server_next(
    transport: Transport,
    password: &str,
    stage: ServerStage,
    input: ServerInput,
) -> (next: ServerStage)
    ensures
        next == server_transition(transport, encode_utf8(password@), stage, input),
{
    match (stage, input) {
        (ServerStage::ReadVersion, ServerInput::Version(version)) => {
            if version == PROTO_VERSION {
                ServerStage::ReadLength
            } else {
                ServerStage::SendStatus {
                    status: AUTH_FAIL,
                    refusal: Some(Refusal::Version(version)),
                }
            }
        },
        (ServerStage::ReadLength, ServerInput::Length(len)) => {
            let too_long = match transport {
                Transport::Tls => false,
                Transport::Quic => len > MAX_QUIC_PASSWORD,
            };
            if too_long {
                ServerStage::SendStatus {
                    status: AUTH_FAIL,
                    refusal: Some(Refusal::PasswordTooLong),
                }
            } else {
                ServerStage::ReadPassword { len }
            }
        },
        (ServerStage::ReadPassword { len }, ServerInput::Password(presented)) => {
            if presented.len() != len as usize {
                stage
            } else if same_bytes(presented.as_slice(), password.as_bytes()) {
                ServerStage::SendStatus { status: AUTH_OK, refusal: None }
            } else {
                ServerStage::SendStatus {
                    status: AUTH_FAIL,
                    refusal: Some(Refusal::WrongPassword),
                }
            }
        },
        (ServerStage::SendStatus { refusal, .. }, ServerInput::StatusSent) => match refusal {
            Some(refusal) => ServerStage::Refused(refusal),
            None => ServerStage::Accepted,
        },
        (_, ServerInput::Failed) => match stage {
            ServerStage::Accepted | ServerStage::Refused(_) | ServerStage::Broken => stage,
            _ => ServerStage::Broken,
        },
        _ => stage,
    }
}

/// Whether two byte strings are the same.
fn same_bytes(a: &[u8], b: &[u8]) -> (same: bool)
    ensures
        same == (a@ == b@),
{
    if a.len() != b.len() {
        return false;
    }
    let mut i: usize = 0;
    while i < a.len()
        invariant
            i <= a@.len(),
            a@.len() == b@.len(),
            forall|j: int| 0 <= j < i ==> a@[j] == b@[j],
        decreases a@.len() - i,
    {
        if a[i] != b[i] {
            return false;
        }
        i = i + 1;
    }
    assert(a@ =~= b@);
    true
}

/// Where the client stands.
#[derive(Debug, Clone, Copy, PartialEq, Eq, Structural)]
pub enum ClientStage {
    /// Send the handshake.
    SendAuth,
    /// Read one byte, the status.
    ReadStatus,
    /// The server let the client in.
    Accepted,
    /// The server answered with another status.
    Rejected(u8),
    /// The stream failed before the handshake was over.
    Broken,
}

/// What happened to the client.
#[derive(Debug, Clone, Copy, PartialEq, Eq, Structural)]
pub enum ClientInput {
    /// The handshake was sent.
    AuthSent,
    /// The status was read.
    Status(u8),
    /// The stream failed.
    Failed,
}

/// The stage after `input`. What does not answer the stage changes nothing.
pub open spec fn client_transition(stage: ClientStage, input: ClientInput) -> ClientStage {
    match (stage, input) {
        (ClientStage::SendAuth, ClientInput::AuthSent) => ClientStage::ReadStatus,
        (ClientStage::ReadStatus, ClientInput::Status(status)) => if status == AUTH_OK {
            ClientStage::Accepted
        } else {
            ClientStage::Rejected(status)
        },
        (ClientStage::SendAuth, ClientInput::Failed) => ClientStage::Broken,
        (ClientStage::ReadStatus, ClientInput::Failed) => ClientStage::Broken,
        _ => stage,
    }
}

/// Moves the client on.
pub fn client_next(stage: ClientStage, input: ClientInput) -> (next: ClientStage)
    ensures
        next == client_transition(stage, input),
{
    match (stage, input) {
        (ClientStage::SendAuth, ClientInput::AuthSent) => ClientStage::ReadStatus,
        (ClientStage::ReadStatus, ClientInput::Status(status)) => {
            if status == AUTH_OK {
                ClientStage::Accepted
            } else {
                ClientStage::Rejected(status)
            }
        },
        (ClientStage::SendAuth, ClientInput::Failed) => ClientStage::Broken,
        (ClientStage::ReadStatus, ClientInput::Failed) => ClientStage::Broken,
        _ => stage,
    }
}

/// What a client with the password sends. The length field holds the length
/// modulo 65536.
pub open spec fn auth_request(password: Seq<u8>) -> Seq<u8> {
    seq![PROTO_VERSION] + be16(password.len()) + password
}

/// Encodes the handshake of a client.
pub fn auth_frame(password: &str) -> (frame: Vec<u8>)
    ensures
        frame@ == auth_request(encode_utf8(password@)),
{
    let bytes = password.as_bytes();
    let mut frame: Vec<u8> = Vec::new();
    frame.push(PROTO_VERSION);
    put_be16(&mut frame, bytes.len());
    put_bytes(&mut frame, bytes);
    assert(frame@ =~= auth_request(encode_utf8(password@)));
    frame
}

/// The words for a refusal of the client at `peer`.
pub open spec fn refusal_words(transport: Transport, refusal: Refusal, peer: Seq<char>) -> Seq<
    char,
> {
    match refusal {
        Refusal::Version(version) => match transport {
            Transport::Tls => "unsupported protocol version "@ + decimal(version as nat) + " from "@
                + peer,
            Transport::Quic => "unsupported version "@ + decimal(version as nat) + " from "@ + peer,
        },
        Refusal::PasswordTooLong => "excessive password length from "@ + peer,
        Refusal::WrongPassword => "auth failed from "@ + peer,
    }
}

/// Says why the client at `peer` was turned away.
pub fn refusal_message(transport: Transport, refusal: Refusal, peer: &str) -> (message: String)
    ensures
        message@ == refusal_words(transport, refusal, peer@),
{
    match refusal {
        Refusal::Version(version) => {
            let number = decimal_text(version as u64);
            match transport {
                Transport::Tls => join4(
                    "unsupported protocol version ",
                    number.as_str(),
                    " from ",
                    peer,
                ),
                Transport::Quic => join4("unsupported version ", number.as_str(), " from ", peer),
            }
        },
        Refusal::PasswordTooLong => join2("excessive password length from ", peer),
        Refusal::WrongPassword => join2("auth failed from ", peer),
    }
}

/// The words for a status other than `AUTH_OK`.
pub open spec fn rejection_words(transport: Transport, status: u8) -> Seq<char> {
    match transport {
        Transport::Tls => "TCP client: auth rejected by server (status="@ + decimal(status as nat)
            + ")"@,
        Transport::Quic => "UDP client: auth rejected (status="@ + decimal(status as nat) + ")"@,
    }
}

/// Says what the server answered in place of `AUTH_OK`.
pub fn rejection_message(transport: Transport, status: u8) -> (message: String)
    ensures
        message@ == rejection_words(transport, status),
{
    let number = decimal_text(status as u64);
    match transport {
        Transport::Tls => join3(
            "TCP client: auth rejected by server (status=",
            number.as_str(),
            ")",
        ),
        Transport::Quic => join3("UDP client: auth rejected (status=", number.as_str(), ")"),
    }
}

/// How a server fares on the bytes of a stream: the stage in which it stops,
/// what it sent, and the bytes that it left unread.
pub struct Served {
    pub stage: ServerStage,
    pub sent: Seq<u8>,
    pub unread: Seq<u8>,
}

/// Steps that a server has left to take in a stage.
pub open spec fn steps_left(stage: ServerStage) -> nat {
    match stage {
        ServerStage::ReadVersion => 4,
        ServerStage::ReadLength => 3,
        ServerStage::ReadPassword { .. } => 2,
        ServerStage::SendStatus { .. } => 1,
        _ => 0,
    }
}

/// Runs the server on `stream` for as long as there are bytes to read.
pub open spec fn serve(
    transport: Transport,
    password: Seq<u8>,
    stage: ServerStage,
    sent: Seq<u8>,
    stream: Seq<u8>,
) -> Served
    decreases steps_left(stage),
{
    match stage {
        ServerStage::ReadVersion if stream.len() >= 1 => serve(
            transport,
            password,
            judge_version(stream[0]),
            sent,
            stream.skip(1),
        ),
        ServerStage::ReadLength if stream.len() >= 2 => serve(
            transport,
            password,
            judge_length(transport, be16_value(stream[0], stream[1]) as u16),
            sent,
            stream.skip(2),
        ),
        ServerStage::ReadPassword { len } if stream.len() >= len => serve(
            transport,
            password,
            judge_password(password, stream.take(len as int)),
            sent,
            stream.skip(len as int),
        ),
        ServerStage::SendStatus { status, refusal } => serve(
            transport,
            password,
            match refusal {
                Some(refusal) => ServerStage::Refused(refusal),
                None => ServerStage::Accepted,
            },
            sent.push(status),
            stream,
        ),
        _ => Served { stage, sent, unread: stream },
    }
}

/// How a server fares on a whole stream.
pub open spec fn serve_stream(transport: Transport, password: Seq<u8>, stream: Seq<u8>) -> Served {
    serve(transport, password, ServerStage::ReadVersion, seq![], stream)
}

/// A client with the password of the tunnel gets in, is told so, and what it
/// sends after the handshake is left for the tunnel, if the password is no
/// longer than the transport allows.
pub proof fn law_right_password_gets_in(transport: Transport, password: Seq<u8>, after: Seq<u8>)
    requires
        password.len() <= transport.max_password(),
    ensures
        ({
            let served = serve_stream(transport, password, auth_request(password) + after);
            &&& served.stage == ServerStage::Accepted
            &&& served.sent == seq![AUTH_OK]
            &&& served.unread == after
        }),
{
    lemma_request_read(transport, password, password, after);
    assert(read_of(password) =~= password);
    assert(password.skip(password.len() as int) + after =~= after);
    lemma_told(transport, password, AUTH_OK, None, after);
}

/// The part of a presented password that a server reads: the length field holds
/// the length modulo 65536.
pub open spec fn read_of(presented: Seq<u8>) -> Seq<u8> {
    presented.take((presented.len() % 65536) as int)
}

/// A client with another password is turned away and told so, whatever it
/// sends next.
///
/// One password is left out: one of more than 65535 bytes that begins with the
/// right one, where the length field says to read just that.
pub proof fn law_other_password_is_refused(
    transport: Transport,
    password: Seq<u8>,
    presented: Seq<u8>,
    after: Seq<u8>,
)
    requires
        presented != password,
        presented.len() <= 65535 || read_of(presented) != password || password.len()
            > transport.max_password(),
    ensures
        ({
            let served = serve_stream(transport, password, auth_request(presented) + after);
            &&& served.stage is Refused
            &&& served.sent == seq![AUTH_FAIL]
        }),
{
    lemma_request_read(transport, password, presented, after);
    if presented.len() <= 65535 {
        assert(read_of(presented) =~= presented);
    }
    lemma_told(
        transport,
        password,
        AUTH_FAIL,
        Some(Refusal::WrongPassword),
        presented.skip(read_of(presented).len() as int) + after,
    );
    lemma_told(
        transport,
        password,
        AUTH_FAIL,
        Some(Refusal::PasswordTooLong),
        presented + after,
    );
}

/// The server on the request of a client.
proof fn lemma_request_read(
    transport: Transport,
    password: Seq<u8>,
    presented: Seq<u8>,
    after: Seq<u8>,
)
    ensures
        serve_stream(transport, password, auth_request(presented) + after) == (if read_of(
            presented,
        ).len() <= transport.max_password() {
            serve(
                transport,
                password,
                judge_password(password, read_of(presented)),
                seq![],
                presented.skip(read_of(presented).len() as int) + after,
            )
        } else {
            serve(
                transport,
                password,
                turn_away(Refusal::PasswordTooLong),
                seq![],
                presented + after,
            )
        }),
{
    let stream = auth_request(presented) + after;
    let len = (presented.len() % 65536) as u16;
    law_be16_round_trip(presented.len());
    let one = stream.skip(1);
    let two = one.skip(2);
    assert(one[0] == be16(presented.len())[0]);
    assert(one[1] == be16(presented.len())[1]);
    assert(two =~= presented + after);
    assert(two.take(len as int) =~= read_of(presented));
    assert(two.skip(len as int) =~= presented.skip(len as int) + after);
    assert(stream[0] == PROTO_VERSION);
    let none = Seq::<u8>::empty();
    assert(serve(transport, password, ServerStage::ReadVersion, none, stream) == serve(
        transport,
        password,
        ServerStage::ReadLength,
        none,
        one,
    ));
    assert(serve(transport, password, ServerStage::ReadLength, none, one) == serve(
        transport,
        password,
        judge_length(transport, len),
        none,
        two,
    ));
}

/// A server that sends its status is done.
proof fn lemma_told(
    transport: Transport,
    password: Seq<u8>,
    status: u8,
    refusal: Option<Refusal>,
    stream: Seq<u8>,
)
    ensures
        ({
            let stage = ServerStage::SendStatus { status, refusal };
            let served = serve(transport, password, stage, seq![], stream);
            &&& served.stage == match refusal {
                Some(refusal) => ServerStage::Refused(refusal),
                None => ServerStage::Accepted,
            }
            &&& served.sent == seq![status]
            &&& served.unread == stream
        }),
{
    reveal_with_fuel(serve, 2);
    assert(Seq::<u8>::empty().push(status) =~= seq![status]);
}

/// Every client that is turned away is told so with `AUTH_FAIL`, every client
/// that gets in is told so with `AUTH_OK`, and a stream that ends early gets
/// no answer.
pub proof fn law_every_verdict_is_told(transport: Transport, password: Seq<u8>, stream: Seq<u8>)
    ensures
        ({
            let served = serve_stream(transport, password, stream);
            match served.stage {
                ServerStage::Accepted => served.sent == seq![AUTH_OK],
                ServerStage::Refused(_) => served.sent == seq![AUTH_FAIL],
                _ => served.sent == Seq::<u8>::empty(),
            }
        }),
{
    reveal_with_fuel(serve, 5);
    assert(Seq::<u8>::empty().push(AUTH_OK) =~= seq![AUTH_OK]);
    assert(Seq::<u8>::empty().push(AUTH_FAIL) =~= seq![AUTH_FAIL]);
}

/// Nobody gets in without the password: a stream that is let in is the request
/// of a client with the password, which the transport allows, and whatever
/// follows it.
pub proof fn law_no_way_in_without_password(
    transport: Transport,
    password: Seq<u8>,
    stream: Seq<u8>,
)
    requires
        serve_stream(transport, password, stream).stage is Accepted,
    ensures
        password.len() <= transport.max_password(),
        stream == auth_request(password) + serve_stream(transport, password, stream).unread,
{
    let none = Seq::<u8>::empty();
    let one = stream.skip(1);
    let len = be16_value(one[0], one[1]) as u16;
    let two = one.skip(2);
    let rest = two.skip(len as int);
    let served = serve_stream(transport, password, stream);
    assert(stream.len() >= 1);
    if stream[0] != PROTO_VERSION {
        lemma_told(transport, password, AUTH_FAIL, Some(Refusal::Version(stream[0])), one);
    }
    assert(served == serve(transport, password, ServerStage::ReadLength, none, one));
    assert(one.len() >= 2);
    if len > transport.max_password() {
        lemma_told(transport, password, AUTH_FAIL, Some(Refusal::PasswordTooLong), two);
    }
    assert(served == serve(transport, password, ServerStage::ReadPassword { len }, none, two));
    assert(two.len() >= len);
    if two.take(len as int) != password {
        lemma_told(transport, password, AUTH_FAIL, Some(Refusal::WrongPassword), rest);
    }
    lemma_told(transport, password, AUTH_OK, None, rest);
    assert(two.take(len as int) == password);
    assert(be16(len as nat) =~= seq![one[0], one[1]]);
    assert(stream =~= seq![stream[0]] + seq![one[0], one[1]] + two.take(len as int) + rest);
}

/// The client takes itself to be let in exactly when the server let it in:
/// after the answer of a served stream, a waiting client is `Accepted` if and
/// only if the server is.
pub proof fn law_both_sides_agree(transport: Transport, password: Seq<u8>, stream: Seq<u8>)
    requires
        serve_stream(transport, password, stream).stage.is_over(),
    ensures
        ({
            let served = serve_stream(transport, password, stream);
            let told = client_transition(
                ClientStage::ReadStatus,
                ClientInput::Status(served.sent[0]),
            );
            &&& served.sent.len() == 1
            &&& told is Accepted <==> served.stage is Accepted
            &&& told == ClientStage::Rejected(AUTH_FAIL) <==> served.stage is Refused
        }),
{
    law_every_verdict_is_told(transport, password, stream);
    lemma_served_stream_is_not_broken(transport, password, stream);
}

proof fn lemma_served_stream_is_not_broken(
    transport: Transport,
    password: Seq<u8>,
    stream: Seq<u8>,
)
    ensures
        !(serve_stream(transport, password, stream).stage is Broken),
{
    reveal_with_fuel(serve, 5);
}

/// A handshake that is over stays as it ended.
pub proof fn law_verdicts_are_final(
    transport: Transport,
    password: Seq<u8>,
    stage: ServerStage,
    input: ServerInput,
)
    requires
        stage.is_over(),
    ensures
        server_transition(transport, password, stage, input) == stage,
{
}

/// A client that says its version, the length of its password and its password,
/// is let in if and only if the version is 1, the password is that of the
/// tunnel, and it is no longer than 65535 bytes over TLS and 256 over QUIC. It is
/// told so with a zero byte, and is told of any refusal with a one. A refusal
/// names what is wrong first: the version, then the length, then the password.
pub proof fn law_password_decides(
    transport: Transport,
    password: Seq<u8>,
    version: u8,
    presented: Vec<u8>,
)
    requires
        presented@.len() <= 65535,
    ensures
        ({
            let step = |stage: ServerStage, input: ServerInput| server_transition(
                transport,
                password,
                stage,
                input,
            );
            let versioned = step(ServerStage::ReadVersion, ServerInput::Version(version));
            let measured = step(versioned, ServerInput::Length(presented@.len() as u16));
            let judged = step(measured, ServerInput::Password(presented));
            let told = step(judged, ServerInput::StatusSent);
            let allowed = match transport {
                Transport::Tls => 65535nat,
                Transport::Quic => 256,
            };
            &&& told is Accepted <==> version == 1 && presented@ == password && password.len()
                <= allowed
            &&& told is Accepted ==> judged == (ServerStage::SendStatus {
                status: 0,
                refusal: None,
            })
            &&& !(told is Accepted) ==> {
                let refusal = if version != 1 {
                    Refusal::Version(version)
                } else if presented@.len() > allowed {
                    Refusal::PasswordTooLong
                } else {
                    Refusal::WrongPassword
                };
                &&& told == ServerStage::Refused(refusal)
                &&& judged == (ServerStage::SendStatus { status: 1, refusal: Some(refusal) })
            }
            &&& version == 1 ==> versioned is ReadLength
            &&& version == 1 && presented@.len() <= allowed ==> measured
                == (ServerStage::ReadPassword { len: presented@.len() as u16 })
        }),
{
}

/// The server reads on only where it asks to: what it did not ask for changes
/// nothing. A stream that fails ends a handshake that was not over, without a
/// verdict, and changes nothing of one that was.
pub proof fn law_only_answers_count(
    transport: Transport,
    password: Seq<u8>,
    stage: ServerStage,
    input: ServerInput,
)
    ensures
        ({
            let next = server_transition(transport, password, stage, input);
            let over = stage is Accepted || stage is Refused || stage is Broken;
            let answers = match stage {
                ServerStage::ReadVersion => input is Version,
                ServerStage::ReadLength => input is Length,
                ServerStage::ReadPassword { len } => input is Password
                    && input->Password_0@.len() == len,
                ServerStage::SendStatus { .. } => input is StatusSent,
                _ => false,
            };
            &&& !answers && !(input is Failed) ==> next == stage
            &&& input is Failed ==> next == if over {
                stage
            } else {
                ServerStage::Broken
            }
            &&& over ==> next == stage
            &&& stage is SendStatus && input is StatusSent ==> next
                == match stage->SendStatus_refusal {
                Some(refusal) => ServerStage::Refused(refusal),
                None => ServerStage::Accepted,
            }
        }),
{
}

/// Moving the server on with what it reads from a stream is serving the stream:
/// whatever `serve` comes to from a stage, it comes to from the stage that the
/// next read, or the sending of the status, leads to.
pub proof fn law_server_serves_its_stream(
    transport: Transport,
    password: Seq<u8>,
    stage: ServerStage,
    input: ServerInput,
    sent: Seq<u8>,
    stream: Seq<u8>,
)
    ensures
        ({
            let next = server_transition(transport, password, stage, input);
            let served = serve(transport, password, stage, sent, stream);
            match stage {
                ServerStage::ReadVersion => stream.len() >= 1 && input == ServerInput::Version(
                    stream[0],
                ) ==> served == serve(transport, password, next, sent, stream.skip(1)),
                ServerStage::ReadLength => stream.len() >= 2 && input is Length
                    && input->Length_0 == 256 * stream[0] + stream[1] ==> served == serve(
                    transport,
                    password,
                    next,
                    sent,
                    stream.skip(2),
                ),
                ServerStage::ReadPassword { len } => stream.len() >= len && input is Password
                    && input->Password_0@ == stream.take(len as int) ==> served == serve(
                    transport,
                    password,
                    next,
                    sent,
                    stream.skip(len as int),
                ),
                ServerStage::SendStatus { status, .. } => input is StatusSent ==> served == serve(
                    transport,
                    password,
                    next,
                    sent.push(status),
                    stream,
                ),
                _ => served.stage == stage && served.sent == sent && served.unread == stream,
            }
        }),
{
    law_be16_is_big_endian(0, stream[0], stream[1]);
}

/// A client that sent its password is let in by a zero byte and by no other; it
/// keeps the byte that turned it away. A stream that fails before the answer
/// breaks the handshake, and nothing changes it once it is over.
pub proof fn law_status_decides(stage: ClientStage, input: ClientInput, status: u8)
    ensures
        client_transition(ClientStage::SendAuth, ClientInput::AuthSent) is ReadStatus,
        client_transition(ClientStage::ReadStatus, ClientInput::Status(0)) is Accepted,
        status != 0 ==> client_transition(ClientStage::ReadStatus, ClientInput::Status(status))
            == ClientStage::Rejected(status),
        stage is SendAuth || stage is ReadStatus ==> client_transition(stage, ClientInput::Failed)
            is Broken,
        stage is Accepted || stage is Rejected || stage is Broken ==> client_transition(
            stage,
            input,
        ) == stage,
        stage is SendAuth && input is Status ==> client_transition(stage, input) == stage,
        stage is ReadStatus && input is AuthSent ==> client_transition(stage, input) == stage,
{
}

/// The request is a version byte, the length of the password in two bytes, most
/// significant first, and the password as it is.
pub proof fn law_request_on_the_wire(password: Seq<u8>)
    ensures
        auth_request(password).len() == 3 + password.len(),
        auth_request(password)[0] == 1,
        256 * auth_request(password)[1] + auth_request(password)[2] == password.len() % 65536,
        auth_request(password).skip(3) == password,
{
    law_be16_is_big_endian(password.len(), 0, 0);
    assert(auth_request(password)[1] == be16(password.len())[0]);
    assert(auth_request(password)[2] == be16(password.len())[1]);
    assert(auth_request(password).skip(3) =~= password);
}

/// What is said of a refusal is the fault, the version where it is the fault,
/// and the peer, whole and last; what a client says of another status holds the
/// status.
pub proof fn law_verdicts_in_words(transport: Transport, version: u8, peer: Seq<char>, status: u8)
    ensures
        refusal_words(Transport::Tls, Refusal::Version(version), peer)
            == "unsupported protocol version "@ + decimal(version as nat) + " from "@ + peer,
        refusal_words(Transport::Quic, Refusal::Version(version), peer) == "unsupported version "@
            + decimal(version as nat) + " from "@ + peer,
        refusal_words(transport, Refusal::PasswordTooLong, peer)
            == "excessive password length from "@ + peer,
        refusal_words(transport, Refusal::WrongPassword, peer) == "auth failed from "@ + peer,
        rejection_words(Transport::Tls, status)
            == "TCP client: auth rejected by server (status="@ + decimal(status as nat) + ")"@,
        rejection_words(Transport::Quic, status) == "UDP client: auth rejected (status="@
            + decimal(status as nat) + ")"@,
{
}

/// A password that was read is compared byte for byte with that of the tunnel,
/// whatever its length.
pub proof fn law_password_is_compared(
    transport: Transport,
    password: Seq<u8>,
    len: u16,
    presented: Vec<u8>,
)
    requires
        presented@.len() == len,
    ensures
        ({
            let next = server_transition(
                transport,
                password,
                ServerStage::ReadPassword { len },
                ServerInput::Password(presented),
            );
            let same = presented@.len() == password.len() && forall|i: int|
                0 <= i < len ==> presented@[i] == password[i];
            next == if same {
                ServerStage::SendStatus { status: 0, refusal: None }
            } else {
                ServerStage::SendStatus { status: 1, refusal: Some(Refusal::WrongPassword) }
            }
        }),
{
    if presented@.len() == password.len() && forall|i: int|
        0 <= i < len ==> presented@[i] == password[i] {
        assert(presented@ =~= password);
    }
}

} // verus!
