//! The course of the tasks.
use anyst::course::{
    first_step, next_step, Next, Outcome, Step, Task, CONNECT_TIMEOUT_SECS,
};

/// The steps that a task takes when every one is done, up to its last.
fn course(task: Task) -> Vec<Step> {
    let mut steps = vec![first_step(task)];
    loop {
        let step = steps[steps.len() - 1];
        if step == Step::Accept || step == Step::Relay {
            return steps;
        }
        match next_step(task, step, Outcome::Done, "") {
            Next::Do(next) => steps.push(next),
            _ => panic!("a step that is done leads on"),
        }
    }
}

fn complaint(task: Task, step: Step, outcome: Outcome, subject: &str) -> Option<String> {
    match next_step(task, step, outcome, subject) {
        Next::Fail(text) => text,
        _ => panic!("the task goes on"),
    }
}

#[test]
fn courses() {
    assert_eq!(
        course(Task::TcpServer),
        vec![Step::ParseListen, Step::ServerTls, Step::BindTcp, Step::Accept]
    );
    assert_eq!(course(Task::TcpClient), vec![Step::ParseListen, Step::BindTcp, Step::Accept]);
    assert_eq!(
        course(Task::UdpServer),
        vec![Step::ParseListen, Step::ServerTls, Step::ServerQuic, Step::BindQuic, Step::Accept]
    );
    assert_eq!(
        course(Task::UdpClient),
        vec![
            Step::ParseListen,
            Step::BindUdp,
            Step::ClientQuic,
            Step::OpenEndpoint,
            Step::LookUp,
            Step::PickAddress,
            Step::BeginConnect,
            Step::AwaitConnect,
            Step::OpenStream,
            Step::Authenticate,
            Step::Relay,
        ]
    );
    assert_eq!(
        course(Task::TlsInbound),
        vec![Step::AcceptTls, Step::Authenticate, Step::ConnectRemote, Step::Relay]
    );
    assert_eq!(
        course(Task::TlsOutbound),
        vec![
            Step::ParseServerName,
            Step::ConnectRemote,
            Step::ConnectTls,
            Step::Authenticate,
            Step::Relay,
        ]
    );
    assert_eq!(
        course(Task::QuicInbound),
        vec![Step::AwaitStream, Step::Authenticate, Step::Relay]
    );
}

#[test]
fn relay_comes_after_the_password() {
    for task in [Task::UdpClient, Task::TlsInbound, Task::TlsOutbound, Task::QuicInbound] {
        let steps = course(task);
        let password = steps.iter().position(|step| *step == Step::Authenticate).unwrap();
        let relay = steps.iter().position(|step| *step == Step::Relay).unwrap();
        assert!(password < relay);
        assert_eq!(complaint(task, Step::Authenticate, Outcome::Failed, ""), None);
    }
}

#[test]
fn listeners_go_on() {
    for task in [Task::TcpServer, Task::TcpClient, Task::UdpServer] {
        for outcome in [Outcome::Done, Outcome::Failed] {
            assert!(matches!(
                next_step(task, Step::Accept, outcome, ""),
                Next::Do(Step::Accept)
            ));
        }
    }
    assert!(matches!(
        next_step(Task::UdpServer, Step::Accept, Outcome::Closed, ""),
        Next::End
    ));
    for task in [Task::TcpServer, Task::TcpClient] {
        assert!(matches!(
            next_step(task, Step::Accept, Outcome::Closed, ""),
            Next::Do(Step::Accept)
        ));
    }
}

#[test]
fn relay_ends_the_task() {
    for outcome in [Outcome::Done, Outcome::Failed] {
        assert!(matches!(next_step(Task::TlsInbound, Step::Relay, outcome, ""), Next::End));
    }
}

#[test]
fn connecting_is_limited_to_ten_seconds() {
    assert_eq!(CONNECT_TIMEOUT_SECS, 10);
    assert_eq!(
        complaint(Task::UdpClient, Step::AwaitConnect, Outcome::TimedOut, "192.0.2.1:443"),
        Some("QUIC connect to 192.0.2.1:443 timed out after 10 s".to_string())
    );
    assert_eq!(
        complaint(Task::UdpClient, Step::AwaitConnect, Outcome::Failed, "192.0.2.1:443"),
        Some("QUIC connect to 192.0.2.1:443 failed".to_string())
    );
    assert_eq!(complaint(Task::UdpClient, Step::BeginConnect, Outcome::Failed, "x"), None);
}

#[test]
fn complaints() {
    let failed = |task, step, subject| complaint(task, step, Outcome::Failed, subject);
    let text = |text: &str| Some(text.to_string());
    assert_eq!(failed(Task::TcpServer, Step::ParseListen, "x"), None);
    assert_eq!(failed(Task::TcpServer, Step::ServerTls, "x"), None);
    assert_eq!(failed(Task::UdpServer, Step::ServerQuic, "x"), None);
    assert_eq!(failed(Task::UdpClient, Step::ClientQuic, "x"), None);
    assert_eq!(failed(Task::TlsOutbound, Step::ParseServerName, "x"), None);
    assert_eq!(
        failed(Task::TcpServer, Step::BindTcp, "0.0.0.0:1"),
        text("TCP server: failed to bind to 0.0.0.0:1")
    );
    assert_eq!(
        failed(Task::TcpClient, Step::BindTcp, "0.0.0.0:1"),
        text("TCP client: failed to bind to 0.0.0.0:1")
    );
    assert_eq!(
        failed(Task::UdpServer, Step::BindQuic, "0.0.0.0:1"),
        text("UDP server: failed to bind QUIC on 0.0.0.0:1")
    );
    assert_eq!(
        failed(Task::UdpClient, Step::BindUdp, "0.0.0.0:1"),
        text("UDP client: failed to bind local UDP on 0.0.0.0:1")
    );
    assert_eq!(
        failed(Task::UdpClient, Step::OpenEndpoint, ""),
        text("UDP client: failed to create QUIC endpoint")
    );
    assert_eq!(
        failed(Task::UdpClient, Step::LookUp, "h:1"),
        text("UDP client: failed to resolve h:1")
    );
    assert_eq!(
        failed(Task::UdpClient, Step::PickAddress, "h:1"),
        text("UDP client: no addresses found for remote")
    );
    assert_eq!(
        failed(Task::UdpClient, Step::OpenStream, ""),
        text("UDP client: open_bi for auth failed")
    );
    assert_eq!(failed(Task::QuicInbound, Step::AwaitStream, ""), text("waiting for auth stream"));
    assert_eq!(
        failed(Task::TlsInbound, Step::AcceptTls, "p"),
        text("TCP server: TLS accept failed from p")
    );
    assert_eq!(
        failed(Task::TlsInbound, Step::ConnectRemote, "h:1"),
        text("TCP server: failed to connect to remote h:1")
    );
    assert_eq!(
        failed(Task::TlsOutbound, Step::ConnectRemote, "h:1"),
        text("TCP client: failed to connect to h:1")
    );
    assert_eq!(
        failed(Task::TlsOutbound, Step::ConnectTls, "h:1"),
        text("TCP client: TLS handshake with h:1 failed")
    );
}
