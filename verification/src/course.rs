//! The course of every task of a tunnel: which steps it takes, in which order,
//! and what it says when one fails.
//!
//! A task is a listener, or one connection. Carrying a step out is not done
//! here; the outcome of each step decides on the next one.
use vstd::prelude::*;
use crate::text::{join2, join3};

verus! {

/// A task of a tunnel.
#[derive(Debug, Clone, Copy, PartialEq, Eq, Structural)]
pub enum Task {
    /// Listen for TLS connections.
    TcpServer,
    /// Listen for plain TCP connections.
    TcpClient,
    /// Listen for QUIC connections.
    UdpServer,
    /// Carry local UDP over one QUIC connection.
    UdpClient,
    /// Serve one TLS connection.
    TlsInbound,
    /// Carry one plain TCP connection over TLS.
    TlsOutbound,
    /// Serve one QUIC connection.
    QuicInbound,
}

/// A step of a task.
#[derive(Debug, Clone, Copy, PartialEq, Eq, Structural)]
pub enum Step {
    /// Parse the listen address.
    ParseListen,
    /// Make the TLS configuration of a server out of its files.
    ServerTls,
    /// Make the QUIC configuration of a server.
    ServerQuic,
    /// Bind the TCP listener.
    BindTcp,
    /// Bind the QUIC listener.
    BindQuic,
    /// Bind the local UDP socket.
    BindUdp,
    /// Make the QUIC configuration of a client.
    ClientQuic,
    /// Open the QUIC endpoint of a client.
    OpenEndpoint,
    /// Look the remote up.
    LookUp,
    /// Take the first address that was found.
    PickAddress,
    /// Begin to connect, with the address and the server name.
    BeginConnect,
    /// Wait for the connection, for `CONNECT_TIMEOUT_SECS` at most.
    AwaitConnect,
    /// Open the stream for the password.
    OpenStream,
    /// Wait for the stream with the password.
    AwaitStream,
    /// Do the TLS handshake of a server.
    AcceptTls,
    /// Parse the server name.
    ParseServerName,
    /// Connect to the remote over TCP.
    ConnectRemote,
    /// Do the TLS handshake of a client.
    ConnectTls,
    /// Do the password handshake.
    Authenticate,
    /// Wait for a connection, and have it served.
    Accept,
    /// Relay until one side ends.
    Relay,
}

/// How long a client waits for its QUIC connection, in seconds.
pub const CONNECT_TIMEOUT_SECS: u64 = 10;

/// How a step went.
#[derive(Debug, Clone, Copy, PartialEq, Eq, Structural)]
pub enum Outcome {
    Done,
    Failed,
    /// The time for the step ran out.
    TimedOut,
    /// There is nothing more to wait for.
    Closed,
}

/// The steps of a task, in order.
pub open spec fn course(task: Task) -> Seq<Step> {
    match task {
        Task::TcpServer => seq![Step::ParseListen, Step::ServerTls, Step::BindTcp, Step::Accept],
        Task::TcpClient => seq![Step::ParseListen, Step::BindTcp, Step::Accept],
        Task::UdpServer => seq![
            Step::ParseListen,
            Step::ServerTls,
            Step::ServerQuic,
            Step::BindQuic,
            Step::Accept,
        ],
        Task::UdpClient => seq![
            Step::ParseListen,
            Step::BindUdp,
            Step::ClientQuic,
            Step::OpenEndpoint,
            Step::LookUp,
            Step::PickAddress,
            Step::BeginConnect,
            Step::AwaitConnect,
            Step::OpenStream,
            Step::Authenticate,
            Step::Relay,
        ],
        Task::TlsInbound => seq![
            Step::AcceptTls,
            Step::Authenticate,
            Step::ConnectRemote,
            Step::Relay,
        ],
        Task::TlsOutbound => seq![
            Step::ParseServerName,
            Step::ConnectRemote,
            Step::ConnectTls,
            Step::Authenticate,
            Step::Relay,
        ],
        Task::QuicInbound => seq![Step::AwaitStream, Step::Authenticate, Step::Relay],
    }
}

/// What comes after a step.
#[derive(Debug)]
pub enum Next {
    /// Take this step.
    Do(Step),
    /// The task failed. The text, if any, goes in front of the cause.
    Fail(Option<String>),
    /// The task is over.
    End,
}

/// What a `Next` says.
pub enum NextDemand {
    Do(Step),
    Fail(Option<Seq<char>>),
    End,
}

impl View for Next {
    type V = NextDemand;

    open spec fn view(&self) -> NextDemand {
        match *self {
            Next::Do(step) => NextDemand::Do(step),
            Next::Fail(Some(text)) => NextDemand::Fail(Some(text@)),
            Next::Fail(None) => NextDemand::Fail(None),
            Next::End => NextDemand::End,
        }
    }
}

/// What goes in front of the cause when a step fails that is about `subject`:
/// an address, or the remote. `None` where the cause speaks for itself.
pub open spec fn complaint(task: Task, step: Step, outcome: Outcome, subject: Seq<char>) -> Option<
    Seq<char>,
> {
    match step {
        Step::BindTcp => Some(
            if task == Task::TcpServer {
                "TCP server: failed to bind to "@ + subject
            } else {
                "TCP client: failed to bind to "@ + subject
            },
        ),
        Step::BindQuic => Some("UDP server: failed to bind QUIC on "@ + subject),
        Step::BindUdp => Some("UDP client: failed to bind local UDP on "@ + subject),
        Step::OpenEndpoint => Some("UDP client: failed to create QUIC endpoint"@),
        Step::LookUp => Some("UDP client: failed to resolve "@ + subject),
        Step::PickAddress => Some("UDP client: no addresses found for remote"@),
        Step::AwaitConnect => Some(
            if outcome is TimedOut {
                "QUIC connect to "@ + subject + " timed out after 10 s"@
            } else {
                "QUIC connect to "@ + subject + " failed"@
            },
        ),
        Step::OpenStream => Some("UDP client: open_bi for auth failed"@),
        Step::AwaitStream => Some("waiting for auth stream"@),
        Step::AcceptTls => Some("TCP server: TLS accept failed from "@ + subject),
        Step::ConnectRemote => Some(
            if task == Task::TlsInbound {
                "TCP server: failed to connect to remote "@ + subject
            } else {
                "TCP client: failed to connect to "@ + subject
            },
        ),
        Step::ConnectTls => Some("TCP client: TLS handshake with "@ + subject + " failed"@),
        _ => None,
    }
}

/// What follows a step. A step that is done leads to the next one of the
/// course, one that is not ends the task with its complaint. A listener goes on
/// listening, however a connection fares; only that of QUIC ends, once there is
/// nothing more to wait for. A relay ends its task, however it ends.
pub open spec fn following(task: Task, step: Step, outcome: Outcome, subject: Seq<char>) -> NextDemand {
    if step == Step::Relay {
        NextDemand::End
    } else if step == Step::Accept {
        if outcome is Closed && task == Task::UdpServer {
            NextDemand::End
        } else {
            NextDemand::Do(Step::Accept)
        }
    } else if outcome is Done {
        NextDemand::Do(course(task)[course(task).index_of(step) + 1])
    } else {
        NextDemand::Fail(complaint(task, step, outcome, subject))
    }
}

/// The step that a task begins with.
pub fn first_step(task: Task) -> (step: Step)
    ensures
        step == course(task)[0],
{
    match task {
        Task::TcpServer | Task::TcpClient | Task::UdpServer | Task::UdpClient => Step::ParseListen,
        Task::TlsInbound => Step::AcceptTls,
        Task::TlsOutbound => Step::ParseServerName,
        Task::QuicInbound => Step::AwaitStream,
    }
}

/// Decides what follows a step of a task.
pub fn next_step(task: Task, step: Step, outcome: Outcome, subject: &str) -> (next: Next)
    requires
        course(task).contains(step),
    ensures
        next@ == following(task, step, outcome, subject@),
{
    match step {
        Step::Relay => Next::End,
        Step::Accept => match (task, outcome) {
            (Task::UdpServer, Outcome::Closed) => Next::End,
            _ => Next::Do(Step::Accept),
        },
        _ => match outcome {
            Outcome::Done => Next::Do(successor(task, step)),
            _ => Next::Fail(complain(task, step, outcome, subject)),
        },
    }
}

/// The step after a step that is not the last one.
fn successor(task: Task, step: Step) -> (next: Step)
    requires
        course(task).contains(step),
        step != Step::Relay,
        step != Step::Accept,
    ensures
        next == course(task)[course(task).index_of(step) + 1],
{
    proof {
        let at = course(task).index_of(step);
        assert(course(task)[at] == step);
    }
    match step {
        Step::ParseListen => match task {
            Task::TcpClient => Step::BindTcp,
            Task::UdpClient => Step::BindUdp,
            _ => Step::ServerTls,
        },
        Step::ServerTls => match task {
            Task::TcpServer => Step::BindTcp,
            _ => Step::ServerQuic,
        },
        Step::ServerQuic => Step::BindQuic,
        Step::BindTcp => Step::Accept,
        Step::BindQuic => Step::Accept,
        Step::BindUdp => Step::ClientQuic,
        Step::ClientQuic => Step::OpenEndpoint,
        Step::OpenEndpoint => Step::LookUp,
        Step::LookUp => Step::PickAddress,
        Step::PickAddress => Step::BeginConnect,
        Step::BeginConnect => Step::AwaitConnect,
        Step::AwaitConnect => Step::OpenStream,
        Step::OpenStream => Step::Authenticate,
        Step::AwaitStream => Step::Authenticate,
        Step::AcceptTls => Step::Authenticate,
        Step::ParseServerName => Step::ConnectRemote,
        Step::ConnectRemote => match task {
            Task::TlsOutbound => Step::ConnectTls,
            _ => Step::Relay,
        },
        Step::ConnectTls => Step::Authenticate,
        Step::Authenticate => match task {
            Task::TlsInbound => Step::ConnectRemote,
            _ => Step::Relay,
        },
        Step::Accept | Step::Relay => step,
    }
}

/// What goes in front of the cause when a step fails.
fn complain(task: Task, step: Step, outcome: Outcome, subject: &str) -> (text: Option<String>)
    ensures
        match complaint(task, step, outcome, subject@) {
            Some(words) => text is Some && text->Some_0@ == words,
            None => text is None,
        },
{
    match step {
        Step::BindTcp => match task {
            Task::TcpServer => Some(join2("TCP server: failed to bind to ", subject)),
            _ => Some(join2("TCP client: failed to bind to ", subject)),
        },
        Step::BindQuic => Some(join2("UDP server: failed to bind QUIC on ", subject)),
        Step::BindUdp => Some(join2("UDP client: failed to bind local UDP on ", subject)),
        Step::OpenEndpoint => Some("UDP client: failed to create QUIC endpoint".to_owned()),
        Step::LookUp => Some(join2("UDP client: failed to resolve ", subject)),
        Step::PickAddress => Some("UDP client: no addresses found for remote".to_owned()),
        Step::AwaitConnect => match outcome {
            Outcome::TimedOut => Some(
                join3("QUIC connect to ", subject, " timed out after 10 s"),
            ),
            _ => Some(join3("QUIC connect to ", subject, " failed")),
        },
        Step::OpenStream => Some("UDP client: open_bi for auth failed".to_owned()),
        Step::AwaitStream => Some("waiting for auth stream".to_owned()),
        Step::AcceptTls => Some(join2("TCP server: TLS accept failed from ", subject)),
        Step::ConnectRemote => match task {
            Task::TlsInbound => Some(join2("TCP server: failed to connect to remote ", subject)),
            _ => Some(join2("TCP client: failed to connect to ", subject)),
        },
        Step::ConnectTls => Some(join3("TCP client: TLS handshake with ", subject, " failed")),
        _ => None,
    }
}

/// Where a task stands after its steps so far went like `outcomes`. What comes
/// after the end of a task changes nothing.
pub open spec fn standing(task: Task, outcomes: Seq<Outcome>, subject: Seq<char>) -> NextDemand
    decreases outcomes.len(),
{
    if outcomes.len() == 0 {
        NextDemand::Do(course(task)[0])
    } else {
        match standing(task, outcomes.drop_last(), subject) {
            NextDemand::Do(step) => following(task, step, outcomes.last(), subject),
            over => over,
        }
    }
}

proof fn lemma_position(task: Task, at: int)
    requires
        0 <= at < course(task).len(),
    ensures
        course(task).index_of(course(task)[at]) == at,
        at < course(task).len() - 1 <==> course(task)[at] != Step::Relay && course(task)[at]
            != Step::Accept,
{
    let steps = course(task);
    let found = steps.index_of(steps[at]);
    assert(steps.contains(steps[at]));
    assert(steps[found] == steps[at]);
}

/// Every step that a task is told to take is one of its course, and so can be
/// followed in turn.
pub proof fn law_steps_belong(task: Task, step: Step, outcome: Outcome, subject: Seq<char>)
    requires
        course(task).contains(step),
    ensures
        following(task, step, outcome, subject) matches NextDemand::Do(next) ==> course(
            task,
        ).contains(next),
{
    let at = course(task).index_of(step);
    assert(course(task)[at] == step);
    lemma_position(task, at);
    if at < course(task).len() - 1 {
        assert(course(task)[at + 1] == course(task)[at + 1]);
    }
}

/// No step is skipped: a task that is to take a step, other than to go on
/// listening, has done every step in front of it, and nothing else.
pub proof fn law_no_step_is_skipped(task: Task, outcomes: Seq<Outcome>, subject: Seq<char>)
    ensures
        standing(task, outcomes, subject) matches NextDemand::Do(step) ==> {
            &&& course(task).contains(step)
            &&& step != Step::Accept ==> {
                &&& outcomes.len() < course(task).len()
                &&& step == course(task)[outcomes.len() as int]
                &&& forall|i: int| 0 <= i < outcomes.len() ==> outcomes[i] is Done
            }
            &&& step == Step::Accept ==> {
                &&& outcomes.len() >= course(task).len() - 1
                &&& forall|i: int| 0 <= i < course(task).len() - 1 ==> outcomes[i] is Done
            }
        },
    decreases outcomes.len(),
{
    if outcomes.len() == 0 {
        assert(course(task)[0] == course(task)[0]);
        lemma_position(task, 0);
    } else {
        let so_far = outcomes.drop_last();
        law_no_step_is_skipped(task, so_far, subject);
        assert forall|i: int| 0 <= i < so_far.len() implies so_far[i] == #[trigger] outcomes[i] by {}
        if let NextDemand::Do(step) = standing(task, so_far, subject) {
            law_steps_belong(task, step, outcomes.last(), subject);
            if step != Step::Accept {
                let at = so_far.len() as int;
                lemma_position(task, at);
                if at < course(task).len() - 1 {
                    lemma_position(task, at + 1);
                }
            }
        }
    }
}

/// No traffic is relayed before the password handshake is done.
pub proof fn law_no_relay_without_password(task: Task, outcomes: Seq<Outcome>, subject: Seq<char>)
    requires
        standing(task, outcomes, subject) == NextDemand::Do(Step::Relay),
    ensures
        exists|i: int|
            0 <= i < outcomes.len() && #[trigger] course(task)[i] == Step::Authenticate
                && outcomes[i] is Done,
{
    law_no_step_is_skipped(task, outcomes, subject);
    lemma_position(task, outcomes.len() as int);
    let at = match task {
        Task::UdpClient => 9int,
        Task::TlsInbound => 1,
        Task::TlsOutbound => 3,
        _ => 1,
    };
    assert(course(task)[at] == Step::Authenticate);
    assert(outcomes[at] is Done);
}

/// The first step that is not done ends its task, with the complaint of that
/// step.
pub proof fn law_first_failure_is_reported(
    task: Task,
    outcomes: Seq<Outcome>,
    failure: Outcome,
    subject: Seq<char>,
)
    requires
        outcomes.len() < course(task).len() - 1,
        forall|i: int| 0 <= i < outcomes.len() ==> outcomes[i] is Done,
        !(failure is Done),
    ensures
        standing(task, outcomes.push(failure), subject) == NextDemand::Fail(
            complaint(task, course(task)[outcomes.len() as int], failure, subject),
        ),
{
    lemma_all_done(task, outcomes, subject);
    assert(outcomes.push(failure).drop_last() =~= outcomes);
    lemma_position(task, outcomes.len() as int);
}

/// A task whose steps so far are done is at the next one.
proof fn lemma_all_done(task: Task, outcomes: Seq<Outcome>, subject: Seq<char>)
    requires
        outcomes.len() < course(task).len(),
        forall|i: int| 0 <= i < outcomes.len() ==> outcomes[i] is Done,
    ensures
        standing(task, outcomes, subject) == NextDemand::Do(course(task)[outcomes.len() as int]),
    decreases outcomes.len(),
{
    if outcomes.len() > 0 {
        let so_far = outcomes.drop_last();
        assert forall|i: int| 0 <= i < so_far.len() implies so_far[i] is Done by {
            assert(so_far[i] == outcomes[i]);
        }
        lemma_all_done(task, so_far, subject);
        lemma_position(task, so_far.len() as int);
        assert(outcomes.last() == outcomes[outcomes.len() - 1]);
    }
}

/// A task whose steps are all done gets to the end of its course: a listener
/// listens, every other task relays.
pub proof fn law_course_is_completed(task: Task, outcomes: Seq<Outcome>, subject: Seq<char>)
    requires
        outcomes.len() == course(task).len() - 1,
        forall|i: int| 0 <= i < outcomes.len() ==> outcomes[i] is Done,
    ensures
        standing(task, outcomes, subject) == NextDemand::Do(
            match task {
                Task::TcpServer | Task::TcpClient | Task::UdpServer => Step::Accept,
                _ => Step::Relay,
            },
        ),
{
    lemma_all_done(task, outcomes, subject);
}

/// A connection that fails does not end the listener, and nothing ends one of
/// TCP.
pub proof fn law_listeners_go_on(task: Task, outcome: Outcome, subject: Seq<char>)
    requires
        !(task == Task::UdpServer && outcome is Closed),
    ensures
        following(task, Step::Accept, outcome, subject) == NextDemand::Do(Step::Accept),
{
}

/// A TCP listener that is bound listens from then on, whatever happens.
pub proof fn law_tcp_listener_never_ends(task: Task, outcomes: Seq<Outcome>, subject: Seq<char>)
    requires
        task == Task::TcpServer || task == Task::TcpClient,
        outcomes.len() >= course(task).len() - 1,
        forall|i: int| 0 <= i < course(task).len() - 1 ==> outcomes[i] is Done,
    ensures
        standing(task, outcomes, subject) == NextDemand::Do(Step::Accept),
    decreases outcomes.len(),
{
    if outcomes.len() == course(task).len() - 1 {
        law_course_is_completed(task, outcomes, subject);
    } else {
        let so_far = outcomes.drop_last();
        assert forall|i: int| 0 <= i < course(task).len() - 1 implies so_far[i] is Done by {
            assert(so_far[i] == outcomes[i]);
        }
        law_tcp_listener_never_ends(task, so_far, subject);
    }
}

/// What follows a step, wherever it stands on its course: after one that is
/// done, the step behind it; after one that is not, the end of the task with its
/// complaint. What it was about has no say in it. The two steps at the end of a
/// course are others: a relay is the end, however it went, and so is the closing
/// of the QUIC listener, while every other outcome of listening is to listen.
pub proof fn law_what_follows(task: Task, at: int, outcome: Outcome, subject: Seq<char>)
    requires
        0 <= at < course(task).len(),
    ensures
        ({
            let step = course(task)[at];
            let next = following(task, step, outcome, subject);
            &&& at < course(task).len() - 1 && outcome is Done ==> next == NextDemand::Do(
                course(task)[at + 1],
            )
            &&& at < course(task).len() - 1 && !(outcome is Done) ==> next == NextDemand::Fail(
                complaint(task, step, outcome, subject),
            )
            &&& step == Step::Relay ==> next is End
            &&& step == Step::Accept && task == Task::UdpServer && outcome is Closed ==> next is End
            &&& step == Step::Accept && !(task == Task::UdpServer && outcome is Closed) ==> next
                == NextDemand::Do(Step::Accept)
            &&& at == course(task).len() - 1 ==> step == Step::Relay || step == Step::Accept
        }),
{
    lemma_position(task, at);
}

/// A complaint says which side failed at what, and names what the step was
/// about, whole. The steps whose causes speak for themselves have none.
pub proof fn law_complaints_name_their_subject(
    task: Task,
    step: Step,
    outcome: Outcome,
    subject: Seq<char>,
)
    ensures
        complaint(Task::TcpServer, Step::BindTcp, outcome, subject) == Some(
            "TCP server: failed to bind to "@ + subject,
        ),
        complaint(Task::TcpClient, Step::BindTcp, outcome, subject) == Some(
            "TCP client: failed to bind to "@ + subject,
        ),
        complaint(task, Step::BindQuic, outcome, subject) == Some(
            "UDP server: failed to bind QUIC on "@ + subject,
        ),
        complaint(task, Step::BindUdp, outcome, subject) == Some(
            "UDP client: failed to bind local UDP on "@ + subject,
        ),
        complaint(task, Step::OpenEndpoint, outcome, subject) == Some(
            "UDP client: failed to create QUIC endpoint"@,
        ),
        complaint(task, Step::LookUp, outcome, subject) == Some(
            "UDP client: failed to resolve "@ + subject,
        ),
        complaint(task, Step::PickAddress, outcome, subject) == Some(
            "UDP client: no addresses found for remote"@,
        ),
        complaint(task, Step::AwaitConnect, Outcome::TimedOut, subject) == Some(
            "QUIC connect to "@ + subject + " timed out after 10 s"@,
        ),
        !(outcome is TimedOut) ==> complaint(task, Step::AwaitConnect, outcome, subject) == Some(
            "QUIC connect to "@ + subject + " failed"@,
        ),
        complaint(task, Step::OpenStream, outcome, subject) == Some(
            "UDP client: open_bi for auth failed"@,
        ),
        complaint(task, Step::AwaitStream, outcome, subject) == Some("waiting for auth stream"@),
        complaint(task, Step::AcceptTls, outcome, subject) == Some(
            "TCP server: TLS accept failed from "@ + subject,
        ),
        complaint(Task::TlsInbound, Step::ConnectRemote, outcome, subject) == Some(
            "TCP server: failed to connect to remote "@ + subject,
        ),
        complaint(Task::TlsOutbound, Step::ConnectRemote, outcome, subject) == Some(
            "TCP client: failed to connect to "@ + subject,
        ),
        complaint(task, Step::ConnectTls, outcome, subject) == Some(
            "TCP client: TLS handshake with "@ + subject + " failed"@,
        ),
        step == Step::ParseListen || step == Step::ServerTls || step == Step::ServerQuic || step
            == Step::ClientQuic || step == Step::BeginConnect || step == Step::ParseServerName
            || step == Step::Authenticate ==> complaint(task, step, outcome, subject) is None,
{
}

/// What comes after a step says of itself what it holds.
pub proof fn law_next_says_what_it_holds(step: Step, text: String)
    ensures
        Next::Do(step)@ == NextDemand::Do(step),
        Next::Fail(Some(text))@ == NextDemand::Fail(Some(text@)),
        Next::Fail(None)@ == NextDemand::Fail(None),
        Next::End@ == NextDemand::End,
{
}

} // verus!
