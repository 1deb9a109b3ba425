use vstd::prelude::*;

verus! {

/// How a platform terminates a process.
#[derive(Clone, Copy, Debug, PartialEq, Eq, Structural)]
pub enum Strategy {
    /// One forceful request that takes the process's whole tree down.
    ForcefulOnly,
    /// A graceful request first, and a forceful one only if that fails.
    GracefulThenForceful,
}

/// A termination request that the caller sends to the operating system.
#[derive(Clone, Copy, Debug, PartialEq, Eq, Structural)]
pub enum Signal {
    /// Ask the process to shut down cleanly.
    Graceful,
    /// Tear the process down.
    Forceful,
    /// Tear the process and all its children down.
    ForcefulTree,
}

/// Where a termination stands.
#[derive(Clone, Copy, Debug, PartialEq, Eq, Structural)]
pub enum KillPhase {
    /// Nothing has been sent yet.
    Idle,
    /// The graceful request was sent; its outcome is awaited.
    GracefulSent,
    /// The forceful request was sent; its outcome is awaited.
    ForcefulSent,
    /// The termination has ended, one way or the other.
    Done,
}

/// What the caller reports to the state machine.
#[derive(Clone, Debug, PartialEq, Eq)]
pub enum KillEvent {
    /// The caller asks for the termination.
    Start,
    /// The last request ran to its end with this status.
    Exited { success: bool, code: Option<i32> },
    /// The last request could not be run at all; the text says why.
    LaunchFailed(String),
}

/// Why a termination failed.
#[derive(Clone, Debug, PartialEq, Eq)]
pub enum KillError {
    /// Process id 0 names no process that may be terminated.
    InvalidArgument,
    /// The last request ran and reported failure, with its exit code if any.
    PlatformCommand { code: Option<i32> },
    /// A request could not be run at all.
    Launch(String),
    /// An event came that does not fit the phase.
    OutOfSequence,
}

/// What the caller is to do next.
#[derive(Debug, PartialEq, Eq)]
pub enum KillAction {
    /// Send this request to process `pid` and report its outcome.
    Send { signal: Signal, pid: u32 },
    /// The termination is over, with this result.
    Finish(Result<(), KillError>),
}

/// The escalation rules: the next phase and action, from the platform's
/// strategy, the process id, the current phase and the event.
pub open spec fn kill_next(strategy: Strategy, pid: u32, phase: KillPhase, event: KillEvent) -> (
    KillPhase,
    KillAction,
) {
    match (phase, event) {
        (KillPhase::Idle, KillEvent::Start) => if pid == 0 {
            (KillPhase::Done, KillAction::Finish(Err(KillError::InvalidArgument)))
        } else {
            match strategy {
                Strategy::ForcefulOnly => (
                    KillPhase::ForcefulSent,
                    KillAction::Send { signal: Signal::ForcefulTree, pid },
                ),
                Strategy::GracefulThenForceful => (
                    KillPhase::GracefulSent,
                    KillAction::Send { signal: Signal::Graceful, pid },
                ),
            }
        },
        (KillPhase::GracefulSent, KillEvent::Exited { success, .. }) => if success {
            (KillPhase::Done, KillAction::Finish(Ok(())))
        } else {
            (KillPhase::ForcefulSent, KillAction::Send { signal: Signal::Forceful, pid })
        },
        (KillPhase::ForcefulSent, KillEvent::Exited { success, code }) => if success {
            (KillPhase::Done, KillAction::Finish(Ok(())))
        } else {
            (KillPhase::Done, KillAction::Finish(Err(KillError::PlatformCommand { code })))
        },
        (KillPhase::GracefulSent, KillEvent::LaunchFailed(m)) => (
            KillPhase::Done,
            KillAction::Finish(Err(KillError::Launch(m))),
        ),
        (KillPhase::ForcefulSent, KillEvent::LaunchFailed(m)) => (
            KillPhase::Done,
            KillAction::Finish(Err(KillError::Launch(m))),
        ),
        _ => (KillPhase::Done, KillAction::Finish(Err(KillError::OutOfSequence))),
    }
}

/// Takes one step of terminating process `pid`.
///
/// Process id 0 is refused before any request. Under `ForcefulOnly` one
/// tree-wide forceful request decides. Under `GracefulThenForceful` a graceful
/// request that succeeds ends it; one that fails is followed by a forceful
/// request, whose outcome decides. A failing last request gives its exit code.
pub fn kill_step(strategy: Strategy, pid: u32, phase: KillPhase, event: KillEvent) -> (r: (
    KillPhase,
    KillAction,
))
    ensures
        r == kill_next(strategy, pid, phase, event),
{
    match (phase, event) {
        (KillPhase::Idle, KillEvent::Start) => {
            if pid == 0 {
                (KillPhase::Done, KillAction::Finish(Err(KillError::InvalidArgument)))
            } else {
                match strategy {
                    Strategy::ForcefulOnly => (
                        KillPhase::ForcefulSent,
                        KillAction::Send { signal: Signal::ForcefulTree, pid },
                    ),
                    Strategy::GracefulThenForceful => (
                        KillPhase::GracefulSent,
                        KillAction::Send { signal: Signal::Graceful, pid },
                    ),
                }
            }
        },
        (KillPhase::GracefulSent, KillEvent::Exited { success, .. }) => {
            if success {
                (KillPhase::Done, KillAction::Finish(Ok(())))
            } else {
                (KillPhase::ForcefulSent, KillAction::Send { signal: Signal::Forceful, pid })
            }
        },
        (KillPhase::ForcefulSent, KillEvent::Exited { success, code }) => {
            if success {
                (KillPhase::Done, KillAction::Finish(Ok(())))
            } else {
                (KillPhase::Done, KillAction::Finish(Err(KillError::PlatformCommand { code })))
            }
        },
        (KillPhase::GracefulSent, KillEvent::LaunchFailed(m)) => {
            (KillPhase::Done, KillAction::Finish(Err(KillError::Launch(m))))
        },
        (KillPhase::ForcefulSent, KillEvent::LaunchFailed(m)) => {
            (KillPhase::Done, KillAction::Finish(Err(KillError::Launch(m))))
        },
        _ => (KillPhase::Done, KillAction::Finish(Err(KillError::OutOfSequence))),
    }
}

/// Process id 0 is refused with `InvalidArgument`, whatever the strategy, and
/// no request is sent.
pub proof fn lemma_zero_pid_refused(strategy: Strategy)
    ensures
        kill_next(strategy, 0, KillPhase::Idle, KillEvent::Start) == (
            KillPhase::Done,
            KillAction::Finish(Err(KillError::InvalidArgument)),
        ),
{
}

/// Under the graceful-then-forceful strategy, a failed graceful request is
/// followed by a forceful one, and when that succeeds the termination succeeds.
pub proof fn lemma_forceful_after_failed_graceful(
    pid: u32,
    graceful_code: Option<i32>,
    forceful_code: Option<i32>,
)
    requires
        pid != 0,
    ensures
        kill_next(Strategy::GracefulThenForceful, pid, KillPhase::Idle, KillEvent::Start) == (
            KillPhase::GracefulSent,
            KillAction::Send { signal: Signal::Graceful, pid },
        ),
        kill_next(
            Strategy::GracefulThenForceful,
            pid,
            KillPhase::GracefulSent,
            KillEvent::Exited { success: false, code: graceful_code },
        ) == (KillPhase::ForcefulSent, KillAction::Send { signal: Signal::Forceful, pid }),
        kill_next(
            Strategy::GracefulThenForceful,
            pid,
            KillPhase::ForcefulSent,
            KillEvent::Exited { success: true, code: forceful_code },
        ) == (KillPhase::Done, KillAction::Finish(Ok(()))),
{
}

/// Every termination ends after at most two requests: from any phase but
/// `Idle`, an outcome either ends it or leads to the forceful phase, from which
/// every outcome ends it.
pub proof fn lemma_at_most_two_requests(
    strategy: Strategy,
    pid: u32,
    phase: KillPhase,
    event: KillEvent,
)
    requires
        phase != KillPhase::Idle,
    ensures
        kill_next(strategy, pid, phase, event).0 == KillPhase::Done || (phase
            == KillPhase::GracefulSent && kill_next(strategy, pid, phase, event).0
            == KillPhase::ForcefulSent),
        phase == KillPhase::ForcefulSent ==> kill_next(strategy, pid, phase, event).1 is Finish,
{
}

} // verus!
