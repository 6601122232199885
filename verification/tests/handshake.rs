//! The password handshake.
use anyst::auth::{
    auth_frame, client_next, refusal_message, rejection_message, server_next, ClientInput,
    ClientStage, Refusal, ServerInput, ServerStage, Transport, AUTH_FAIL, AUTH_OK,
};

/// Runs a server on a stream: the stage it stops in, the answer, the bytes left.
fn serve(transport: Transport, password: &str, stream: &[u8]) -> (ServerStage, Vec<u8>, Vec<u8>) {
    let mut stage = ServerStage::ReadVersion;
    let mut rest = stream;
    let mut sent = Vec::new();
    loop {
        let want = match stage {
            ServerStage::ReadVersion => 1,
            ServerStage::ReadLength => 2,
            ServerStage::ReadPassword { len } => len as usize,
            ServerStage::SendStatus { status, .. } => {
                sent.push(status);
                stage = server_next(transport, password, stage, ServerInput::StatusSent);
                continue;
            }
            _ => return (stage, sent, rest.to_vec()),
        };
        let input = if rest.len() < want {
            ServerInput::Failed
        } else {
            let (read, left) = rest.split_at(want);
            rest = left;
            match stage {
                ServerStage::ReadVersion => ServerInput::Version(read[0]),
                ServerStage::ReadLength => {
                    ServerInput::Length(u16::from_be_bytes([read[0], read[1]]))
                }
                _ => ServerInput::Password(read.to_vec()),
            }
        };
        stage = server_next(transport, password, stage, input);
    }
}

#[test]
fn auth_frame_layout() {
    assert_eq!(auth_frame("key"), vec![1, 0, 3, b'k', b'e', b'y']);
    assert_eq!(auth_frame(""), vec![1, 0, 0]);
    assert_eq!(auth_frame("\u{e9}"), vec![1, 0, 2, 0xc3, 0xa9]);
}

#[test]
fn auth_frame_length_wraps() {
    let frame = auth_frame(&"x".repeat(65536 + 2));
    assert_eq!(frame[..3], [1, 0, 2]);
    assert_eq!(frame.len(), 3 + 65538);
}

#[test]
fn right_password_gets_in() {
    for transport in [Transport::Tls, Transport::Quic] {
        let mut stream = auth_frame("open sesame");
        stream.extend_from_slice(b"data");
        assert_eq!(
            serve(transport, "open sesame", &stream),
            (ServerStage::Accepted, vec![AUTH_OK], b"data".to_vec())
        );
    }
}

#[test]
fn wrong_password_is_refused() {
    for presented in ["", "open", "open sesamf", "open sesame "] {
        assert_eq!(
            serve(Transport::Tls, "open sesame", &auth_frame(presented)),
            (ServerStage::Refused(Refusal::WrongPassword), vec![AUTH_FAIL], vec![])
        );
    }
}

#[test]
fn other_version_is_refused() {
    assert_eq!(
        serve(Transport::Quic, "pw", &[2, 0, 2, b'p', b'w']),
        (ServerStage::Refused(Refusal::Version(2)), vec![AUTH_FAIL], vec![0, 2, b'p', b'w'])
    );
}

#[test]
fn long_password_only_over_tls() {
    let password = "p".repeat(257);
    let frame = auth_frame(&password);
    assert_eq!(serve(Transport::Tls, &password, &frame).0, ServerStage::Accepted);
    assert_eq!(
        serve(Transport::Quic, &password, &frame).0,
        ServerStage::Refused(Refusal::PasswordTooLong)
    );
    let shorter = "p".repeat(256);
    assert_eq!(
        serve(Transport::Quic, &shorter, &auth_frame(&shorter)).0,
        ServerStage::Accepted
    );
}

#[test]
fn overlong_password_is_cut_by_its_length_field() {
    let frame = auth_frame(&"x".repeat(65536 + 2));
    assert_eq!(serve(Transport::Tls, "xx", &frame).0, ServerStage::Accepted);
    assert_eq!(
        serve(Transport::Tls, "xxx", &frame).0,
        ServerStage::Refused(Refusal::WrongPassword)
    );
}

#[test]
fn broken_stream_gets_no_answer() {
    let frame = auth_frame("pw");
    for cut in 0..frame.len() {
        let (stage, sent, _) = serve(Transport::Tls, "pw", &frame[..cut]);
        assert_eq!((stage, sent), (ServerStage::Broken, vec![]));
    }
}

#[test]
fn verdicts_are_final() {
    for stage in [
        ServerStage::Accepted,
        ServerStage::Refused(Refusal::WrongPassword),
        ServerStage::Broken,
    ] {
        for input in [ServerInput::Failed, ServerInput::Version(1), ServerInput::StatusSent] {
            assert_eq!(server_next(Transport::Tls, "pw", stage, input), stage);
        }
    }
}

#[test]
fn failed_status_breaks_the_handshake() {
    let stage = ServerStage::SendStatus { status: AUTH_OK, refusal: None };
    assert_eq!(
        server_next(Transport::Tls, "pw", stage, ServerInput::Failed),
        ServerStage::Broken
    );
}

#[test]
fn password_of_another_length_is_no_answer() {
    let stage = ServerStage::ReadPassword { len: 3 };
    assert_eq!(
        server_next(Transport::Tls, "pw", stage, ServerInput::Password(b"pw".to_vec())),
        stage
    );
}

#[test]
fn client_stages() {
    let sent = client_next(ClientStage::SendAuth, ClientInput::AuthSent);
    assert_eq!(sent, ClientStage::ReadStatus);
    assert_eq!(client_next(sent, ClientInput::Status(AUTH_OK)), ClientStage::Accepted);
    assert_eq!(client_next(sent, ClientInput::Status(AUTH_FAIL)), ClientStage::Rejected(1));
    assert_eq!(client_next(sent, ClientInput::Status(9)), ClientStage::Rejected(9));
    assert_eq!(client_next(sent, ClientInput::Failed), ClientStage::Broken);
    assert_eq!(client_next(ClientStage::SendAuth, ClientInput::Failed), ClientStage::Broken);
    assert_eq!(
        client_next(ClientStage::Accepted, ClientInput::Failed),
        ClientStage::Accepted
    );
    assert_eq!(client_next(ClientStage::SendAuth, ClientInput::Status(0)), ClientStage::SendAuth);
}

#[test]
fn both_sides_agree() {
    for presented in ["pw", "no"] {
        let (stage, sent, _) = serve(Transport::Quic, "pw", &auth_frame(presented));
        let told = client_next(ClientStage::ReadStatus, ClientInput::Status(sent[0]));
        assert_eq!(told == ClientStage::Accepted, stage == ServerStage::Accepted);
    }
}

#[test]
fn refusals_in_words() {
    let peer = "192.0.2.1:4000";
    assert_eq!(
        refusal_message(Transport::Tls, Refusal::Version(250), peer),
        "unsupported protocol version 250 from 192.0.2.1:4000"
    );
    assert_eq!(
        refusal_message(Transport::Quic, Refusal::Version(0), peer),
        "unsupported version 0 from 192.0.2.1:4000"
    );
    assert_eq!(
        refusal_message(Transport::Quic, Refusal::PasswordTooLong, peer),
        "excessive password length from 192.0.2.1:4000"
    );
    assert_eq!(
        refusal_message(Transport::Tls, Refusal::WrongPassword, peer),
        "auth failed from 192.0.2.1:4000"
    );
    assert_eq!(
        rejection_message(Transport::Tls, 1),
        "TCP client: auth rejected by server (status=1)"
    );
    assert_eq!(
        rejection_message(Transport::Quic, 17),
        "UDP client: auth rejected (status=17)"
    );
}
