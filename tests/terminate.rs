use portwatch::{kill_step, KillAction, KillError, KillEvent, KillPhase, Signal, Strategy};

/// Drives a termination against a fake command runner that answers with
/// `outcomes` in turn, and records the requests it was given.
fn run_kill(
    strategy: Strategy,
    pid: u32,
    outcomes: Vec<KillEvent>,
    sent: &mut Vec<(Signal, u32)>,
) -> Result<(), KillError> {
    let mut answers = outcomes.into_iter();
    let (mut phase, mut action) = kill_step(strategy, pid, KillPhase::Idle, KillEvent::Start);
    loop {
        match action {
            KillAction::Finish(r) => return r,
            KillAction::Send { signal, pid } => {
                sent.push((signal, pid));
                let event = answers.next().expect("runner asked more often than expected");
                let next = kill_step(strategy, pid, phase, event);
                phase = next.0;
                action = next.1;
            }
        }
    }
}

fn exited(success: bool, code: i32) -> KillEvent {
    KillEvent::Exited { success, code: Some(code) }
}

#[test]
fn zero_pid_invalid_without_command() {
    for strategy in [Strategy::ForcefulOnly, Strategy::GracefulThenForceful] {
        let mut sent = Vec::new();
        let r = run_kill(strategy, 0, vec![], &mut sent);
        assert_eq!(r, Err(KillError::InvalidArgument));
        assert!(sent.is_empty());
    }
}

#[test]
fn graceful_success_stops_there() {
    let mut sent = Vec::new();
    let r = run_kill(Strategy::GracefulThenForceful, 77, vec![exited(true, 0)], &mut sent);
    assert_eq!(r, Ok(()));
    assert_eq!(sent, vec![(Signal::Graceful, 77)]);
}

#[test]
fn forceful_rescues_failed_graceful() {
    let mut sent = Vec::new();
    let r = run_kill(
        Strategy::GracefulThenForceful,
        77,
        vec![exited(false, 1), exited(true, 0)],
        &mut sent,
    );
    assert_eq!(r, Ok(()));
    assert_eq!(sent, vec![(Signal::Graceful, 77), (Signal::Forceful, 77)]);
}

#[test]
fn both_fail_reports_second_code() {
    let mut sent = Vec::new();
    let r = run_kill(
        Strategy::GracefulThenForceful,
        9,
        vec![exited(false, 1), exited(false, 2)],
        &mut sent,
    );
    assert_eq!(r, Err(KillError::PlatformCommand { code: Some(2) }));
    assert_eq!(sent.len(), 2);
}

#[test]
fn forceful_only_single_tree_request() {
    let mut sent = Vec::new();
    let r = run_kill(Strategy::ForcefulOnly, 1234, vec![exited(true, 0)], &mut sent);
    assert_eq!(r, Ok(()));
    assert_eq!(sent, vec![(Signal::ForcefulTree, 1234)]);
}

#[test]
fn forceful_only_failure_carries_code() {
    let mut sent = Vec::new();
    let r = run_kill(Strategy::ForcefulOnly, 1234, vec![exited(false, 128)], &mut sent);
    assert_eq!(r, Err(KillError::PlatformCommand { code: Some(128) }));
    assert_eq!(sent.len(), 1);
}

#[test]
fn unknown_exit_code_kept_unknown() {
    let mut sent = Vec::new();
    let r = run_kill(
        Strategy::ForcefulOnly,
        5,
        vec![KillEvent::Exited { success: false, code: None }],
        &mut sent,
    );
    assert_eq!(r, Err(KillError::PlatformCommand { code: None }));
}

#[test]
fn launch_failure_ends_without_escalation() {
    let mut sent = Vec::new();
    let r = run_kill(
        Strategy::GracefulThenForceful,
        5,
        vec![KillEvent::LaunchFailed("no such program".to_string())],
        &mut sent,
    );
    assert_eq!(r, Err(KillError::Launch("no such program".to_string())));
    assert_eq!(sent, vec![(Signal::Graceful, 5)]);
}

#[test]
fn event_out_of_sequence_refused() {
    let (phase, action) = kill_step(Strategy::ForcefulOnly, 5, KillPhase::Idle, exited(true, 0));
    assert_eq!(phase, KillPhase::Done);
    assert_eq!(action, KillAction::Finish(Err(KillError::OutOfSequence)));
    let (_, action) = kill_step(Strategy::ForcefulOnly, 5, KillPhase::Done, KillEvent::Start);
    assert_eq!(action, KillAction::Finish(Err(KillError::OutOfSequence)));
}
