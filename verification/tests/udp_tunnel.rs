//! Sessions, and the loops of the UDP tunnel on both ends.
use anyst::fragment::build_datagrams;
use anyst::session::{ClientSessions, SocketAddr};
use anyst::udp::{
    datagram_limit, downlink_next, reader_next, server_loop_next, uplink_next, DownEvent, DownStep,
    OutStep, ReaderEvent, ServerEvent, ServerStep, ServerTunnel, UplinkEvent, DEFAULT_MAX_DGRAM,
    MAX_UDP_PAYLOAD,
};
use std::collections::HashMap;

fn v4(port: u16) -> SocketAddr {
    SocketAddr::V4 { ip: 0x7f000001, port }
}

fn payload(len: usize) -> Vec<u8> {
    (0..len).map(|i| (i * 7 % 256) as u8).collect()
}

/// Sends every frame of a reader, and collects them.
fn drain_reader(session_id: u32, max: usize, mut step: OutStep) -> Vec<Vec<u8>> {
    let mut sent = Vec::new();
    loop {
        match step {
            OutStep::Forward { ref frame, .. } => sent.push(frame.clone()),
            _ => return sent,
        }
        step = reader_next(session_id, max, step, ReaderEvent::FrameSent);
    }
}

/// Sends every frame of a client, and collects them.
fn drain_uplink(sessions: &mut ClientSessions, max: usize, mut step: OutStep) -> Vec<Vec<u8>> {
    let mut sent = Vec::new();
    loop {
        match step {
            OutStep::Forward { ref frame, .. } => sent.push(frame.clone()),
            _ => return sent,
        }
        step = uplink_next(sessions, max, step, UplinkEvent::FrameSent);
    }
}

#[test]
fn limits() {
    assert_eq!(MAX_UDP_PAYLOAD, 65507);
    assert_eq!(DEFAULT_MAX_DGRAM, 1200);
    assert_eq!(datagram_limit(None), 1200);
    assert_eq!(datagram_limit(Some(1400)), 1400);
}

#[test]
fn sessions_are_numbered_from_one() {
    let mut sessions = ClientSessions::new();
    assert_eq!(sessions.get_or_create(v4(1)), 1);
    assert_eq!(sessions.get_or_create(v4(2)), 2);
    assert_eq!(sessions.get_or_create(v4(1)), 1);
    assert_eq!(sessions.get_or_create(v4(3)), 3);
}

#[test]
fn sessions_lead_back() {
    let mut sessions = ClientSessions::new();
    assert_eq!(sessions.get_addr(1), None);
    for port in 0..500 {
        let id = sessions.get_or_create(v4(port));
        assert_eq!(sessions.get_addr(id), Some(v4(port)));
    }
    for port in 0..500u16 {
        assert_eq!(sessions.get_addr(port as u32 + 1), Some(v4(port)));
    }
    assert_eq!(sessions.get_addr(0), None);
    assert_eq!(sessions.get_addr(501), None);
}

#[test]
fn addresses_that_share_a_bucket_are_told_apart() {
    let mut sessions = ClientSessions::new();
    let ip: u128 = 0x7f0000010001;
    let addrs = [
        v4(1),
        SocketAddr::V6 { ip, port: 1, flowinfo: 0, scope_id: 0 },
        SocketAddr::V6 { ip, port: 2, flowinfo: 0, scope_id: 0 },
        SocketAddr::V6 { ip, port: 2, flowinfo: 1, scope_id: 0 },
        SocketAddr::V6 { ip, port: 2, flowinfo: 1, scope_id: 1 },
    ];
    for (i, addr) in addrs.iter().enumerate() {
        assert_eq!(sessions.get_or_create(*addr), i as u32 + 1);
    }
    for (i, addr) in addrs.iter().enumerate() {
        assert_eq!(sessions.get_or_create(*addr), i as u32 + 1);
        assert_eq!(sessions.get_addr(i as u32 + 1), Some(*addr));
    }
}

#[test]
fn server_opens_a_socket_once() {
    let mut tunnel: ServerTunnel<&'static str> = ServerTunnel::new();
    let dgram = build_datagrams(5, b"one", 1200).remove(0);
    let step = server_loop_next(&mut tunnel, ServerStep::Read, ServerEvent::Datagram(dgram));
    assert!(matches!(&step, ServerStep::Open { session_id: 5, payload } if payload == b"one"));
    assert_eq!(tunnel.socket(5), None);
    let step = server_loop_next(&mut tunnel, step, ServerEvent::Opened("socket"));
    assert!(matches!(
        &step,
        ServerStep::Send { session_id: 5, payload, fresh: true } if payload == b"one"
    ));
    assert_eq!(tunnel.socket(5), Some(&"socket"));
    assert_eq!(tunnel.session_count(), 1);
    let step = server_loop_next(&mut tunnel, step, ServerEvent::Sent);
    assert!(matches!(step, ServerStep::Read));
    let dgram = build_datagrams(5, b"two", 1200).remove(0);
    let step = server_loop_next(&mut tunnel, step, ServerEvent::Datagram(dgram));
    assert!(matches!(
        &step,
        ServerStep::Send { session_id: 5, payload, fresh: false } if payload == b"two"
    ));
}

#[test]
fn failed_open_loses_the_message() {
    let mut tunnel: ServerTunnel<u8> = ServerTunnel::new();
    let open = ServerStep::Open { session_id: 1, payload: vec![1] };
    let step = server_loop_next(&mut tunnel, open, ServerEvent::OpenFailed);
    assert!(matches!(step, ServerStep::Read));
    assert_eq!(tunnel.session_count(), 0);
}

#[test]
fn failed_send_closes_its_session_only() {
    let mut tunnel: ServerTunnel<u8> = ServerTunnel::new();
    for id in [1, 2] {
        let open = ServerStep::Open { session_id: id, payload: vec![] };
        server_loop_next(&mut tunnel, open, ServerEvent::Opened(id as u8 + 10));
    }
    let send = ServerStep::Send { session_id: 1, payload: vec![9], fresh: false };
    let step = server_loop_next(&mut tunnel, send, ServerEvent::SendFailed);
    assert!(matches!(step, ServerStep::Read));
    assert_eq!(tunnel.socket(1), None);
    assert_eq!(tunnel.socket(2), Some(&12));
    tunnel.close(2);
    assert_eq!(tunnel.session_count(), 0);
}

#[test]
fn mutilated_payload_is_not_sent_on() {
    let mut tunnel: ServerTunnel<u8> = ServerTunnel::new();
    let mut frames = build_datagrams(5, &payload(60), 20);
    frames.remove(1);
    for frame in frames {
        let step = server_loop_next(&mut tunnel, ServerStep::Read, ServerEvent::Datagram(frame));
        assert!(matches!(step, ServerStep::Read));
    }
}

#[test]
fn sessions_have_sockets_of_their_own() {
    let mut tunnel: ServerTunnel<u8> = ServerTunnel::new();
    for id in 1..20u32 {
        let dgram = build_datagrams(id, b"x", 1200).remove(0);
        let step = server_loop_next(&mut tunnel, ServerStep::Read, ServerEvent::Datagram(dgram));
        server_loop_next(&mut tunnel, step, ServerEvent::Opened(id as u8));
    }
    for id in 1..20u32 {
        assert_eq!(tunnel.socket(id), Some(&(id as u8)));
    }
}

#[test]
fn server_stops_with_its_connection() {
    let mut tunnel: ServerTunnel<u8> = ServerTunnel::new();
    let step = server_loop_next(&mut tunnel, ServerStep::Read, ServerEvent::ConnectionLost);
    assert!(matches!(step, ServerStep::Stop));
    let step = server_loop_next(&mut tunnel, step, ServerEvent::Datagram(vec![0; 9]));
    assert!(matches!(step, ServerStep::Stop));
}

#[test]
fn server_reads_on_after_bad_datagrams() {
    let mut tunnel: ServerTunnel<u8> = ServerTunnel::new();
    for dgram in [vec![], vec![0; 4], vec![0, 0, 0, 1, 3, 1], vec![0, 0, 0, 1, 9]] {
        assert!(tunnel.discards(&dgram).is_some());
        let step = server_loop_next(&mut tunnel, ServerStep::Read, ServerEvent::Datagram(dgram));
        assert!(matches!(step, ServerStep::Read));
    }
}

#[test]
fn reader_forwards_and_goes_on() {
    let answer = payload(40);
    let step = reader_next(3, 12, OutStep::Receive, ReaderEvent::Received(answer.clone()));
    assert_eq!(drain_reader(3, 12, step), build_datagrams(3, &answer, 12));
}

#[test]
fn reader_drops_the_rest_of_a_payload() {
    let step = reader_next(3, 12, OutStep::Receive, ReaderEvent::Received(payload(40)));
    let step = reader_next(3, 12, step, ReaderEvent::FrameSent);
    assert!(matches!(step, OutStep::Forward { .. }));
    let step = reader_next(3, 12, step, ReaderEvent::FrameFailed);
    assert!(matches!(step, OutStep::Receive));
}

#[test]
fn reader_stops_on_an_empty_payload_or_a_failure() {
    let empty = reader_next(3, 0, OutStep::Receive, ReaderEvent::Received(vec![]));
    assert!(matches!(empty, OutStep::Stop));
    let failed = reader_next(3, 12, OutStep::Receive, ReaderEvent::ReceiveFailed);
    assert!(matches!(failed, OutStep::Stop));
    let still = reader_next(3, 12, failed, ReaderEvent::Received(vec![1]));
    assert!(matches!(still, OutStep::Stop));
}

#[test]
fn uplink_stops_on_failures() {
    let mut sessions = ClientSessions::new();
    let failed = uplink_next(&mut sessions, 12, OutStep::Receive, UplinkEvent::ReceiveFailed);
    assert!(matches!(failed, OutStep::Stop));
    let received = UplinkEvent::Received { payload: payload(40), sender: v4(1) };
    let step = uplink_next(&mut sessions, 12, OutStep::Receive, received);
    let step = uplink_next(&mut sessions, 12, step, UplinkEvent::FrameFailed);
    assert!(matches!(step, OutStep::Stop));
}

#[test]
fn uplink_forwards_an_empty_payload() {
    let mut sessions = ClientSessions::new();
    let received = UplinkEvent::Received { payload: vec![], sender: v4(1) };
    let step = uplink_next(&mut sessions, 1200, OutStep::Receive, received);
    assert_eq!(
        drain_uplink(&mut sessions, 1200, step),
        vec![vec![0, 0, 0, 1, 0, 0, 0]]
    );
    let received = UplinkEvent::Received { payload: vec![], sender: v4(1) };
    let step = uplink_next(&mut sessions, 5, OutStep::Receive, received);
    assert_eq!(
        drain_uplink(&mut sessions, 5, step),
        vec![vec![0, 0, 0, 1, 0, 0, 0]]
    );
}

#[test]
fn downlink_drops_unknown_sessions() {
    let mut bufs = HashMap::new();
    let sessions = ClientSessions::new();
    let dgram = build_datagrams(5, b"lost", 1200).remove(0);
    let step = downlink_next(&mut bufs, &sessions, DownStep::Read, DownEvent::Datagram(dgram));
    assert!(matches!(step, DownStep::Drop { session_id: 5 }));
    let step = downlink_next(&mut bufs, &sessions, step, DownEvent::Dropped);
    assert!(matches!(step, DownStep::Read));
}

#[test]
fn downlink_goes_on_after_failed_deliveries() {
    let mut bufs = HashMap::new();
    let mut sessions = ClientSessions::new();
    let id = sessions.get_or_create(v4(1));
    for event in [DownEvent::Delivered, DownEvent::DeliveryFailed] {
        let dgram = build_datagrams(id, b"back", 1200).remove(0);
        let step = downlink_next(&mut bufs, &sessions, DownStep::Read, DownEvent::Datagram(dgram));
        assert!(matches!(
            &step,
            DownStep::Deliver { addr, payload } if *addr == v4(1) && payload == b"back"
        ));
        let step = downlink_next(&mut bufs, &sessions, step, event);
        assert!(matches!(step, DownStep::Read));
    }
    let step = downlink_next(&mut bufs, &sessions, DownStep::Read, DownEvent::ConnectionLost);
    assert!(matches!(step, DownStep::Stop));
}

#[test]
fn payload_there_and_answer_back() {
    let max = 100;
    let mut sessions = ClientSessions::new();
    let mut bufs = HashMap::new();
    let mut tunnel: ServerTunnel<u32> = ServerTunnel::new();
    for port in [4000u16, 4001, 4000] {
        let request = payload(port as usize % 1000 + 350);
        let answer = payload(900);
        // There.
        let received = UplinkEvent::Received { payload: request.clone(), sender: v4(port) };
        let step = uplink_next(&mut sessions, max, OutStep::Receive, received);
        let frames = drain_uplink(&mut sessions, max, step);
        assert!(frames.len() > 1);
        let mut step = ServerStep::Read;
        for frame in frames {
            assert!(matches!(step, ServerStep::Read));
            step = server_loop_next(&mut tunnel, step, ServerEvent::Datagram(frame));
        }
        if let ServerStep::Open { session_id, .. } = step {
            step = server_loop_next(&mut tunnel, step, ServerEvent::Opened(session_id));
        }
        let session_id = match step {
            ServerStep::Send { session_id, payload, .. } => {
                assert_eq!(payload, request);
                session_id
            }
            _ => panic!("the request is complete"),
        };
        assert_eq!(tunnel.socket(session_id), Some(&session_id));
        // And back.
        let received = ReaderEvent::Received(answer.clone());
        let step = reader_next(session_id, max, OutStep::Receive, received);
        let mut delivered = Vec::new();
        for frame in drain_reader(session_id, max, step) {
            let event = DownEvent::Datagram(frame);
            if let DownStep::Deliver { addr, payload } =
                downlink_next(&mut bufs, &sessions, DownStep::Read, event)
            {
                delivered.push((addr, payload));
            }
        }
        assert_eq!(delivered, vec![(v4(port), answer)]);
    }
    assert_eq!(tunnel.session_count(), 2);
}
