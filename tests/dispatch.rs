use spotikill::dispatcher::{Action, Command, Dispatcher, Phase};
use spotikill::notice::Notice;
use spotikill::pattern::NamePattern;
use spotikill::process::{ProcessRecord, ProcessSnapshot};
use spotikill::termination::TerminationOutcome;

fn rec(pid: u32, name: &str, memory: u64, parent: Option<u32>) -> ProcessRecord {
    ProcessRecord::new(pid, name.to_string(), memory, parent)
}

fn snapshot(records: Vec<ProcessRecord>) -> ProcessSnapshot {
    ProcessSnapshot::from_records(records).expect("distinct identifiers")
}

/// Runs one kill request to its end. `refuse` lists processes whose signal
/// fails; `exit_fails` makes the root's exit unobserved. Returns every
/// command issued, in order.
fn run_kill(d: &mut Dispatcher, snap: &ProcessSnapshot, refuse: &[u32], exit_fails: bool) -> Vec<Command> {
    let mut log = Vec::new();
    let first = d.handle_action(Action::KillTarget);
    assert_eq!(first, Command::CaptureSnapshot);
    log.push(first);
    let mut cmd = d.snapshot_taken(snap);
    loop {
        log.push(cmd.clone());
        cmd = match cmd {
            Command::Kill(pid) => d.step_done(!refuse.contains(&pid)),
            Command::AwaitExit(_) => d.step_done(!exit_fails),
            _ => break,
        };
    }
    log
}

fn target_dispatcher() -> Dispatcher {
    Dispatcher::new(NamePattern::exact("Target"), "Target")
}

fn family_snapshot() -> ProcessSnapshot {
    snapshot(vec![
        rec(1, "init", 100, None),
        rec(10, "Target", 5000, Some(1)),
        rec(11, "Target Helper", 300, Some(10)),
        rec(12, "Target Helper", 200, Some(10)),
    ])
}

#[test]
fn kill_request_no_match_reports_not_found() {
    let mut d = target_dispatcher();
    let snap = snapshot(vec![rec(1, "init", 100, None), rec(2, "shell", 50, Some(1))]);
    let log = run_kill(&mut d, &snap, &[], false);
    assert_eq!(log.len(), 2);
    assert!(!log.iter().any(|c| matches!(c, Command::Kill(_) | Command::AwaitExit(_))));
    let outcome = d.last_outcome().unwrap();
    assert!(matches!(outcome, TerminationOutcome::NotFound));
    assert_eq!(outcome.killed_count(), 0);
    assert_eq!(
        log[1],
        Command::Notify(Notice {
            title: "Target Not Found".to_string(),
            body: "No Target processes found".to_string()
        })
    );
    assert_eq!(d.current_phase(), Phase::Idle);
}

#[test]
fn kill_request_single_process_killed() {
    let mut d = target_dispatcher();
    let snap = snapshot(vec![rec(1, "init", 100, None), rec(10, "Target", 5000, Some(1))]);
    let log = run_kill(&mut d, &snap, &[], false);
    assert_eq!(log[1], Command::Kill(10));
    assert_eq!(log[2], Command::AwaitExit(10));
    let outcome = d.last_outcome().unwrap();
    assert!(matches!(outcome, TerminationOutcome::Terminated { killed_count: 1 }));
    assert_eq!(outcome.killed_count(), 1);
    assert_eq!(
        log[3],
        Command::Notify(Notice {
            title: "Target Killed".to_string(),
            body: "1 total processes".to_string()
        })
    );
}

#[test]
fn kill_request_root_then_children() {
    let mut d = target_dispatcher();
    let snap = snapshot(vec![
        rec(1, "init", 100, None),
        rec(10, "Target", 5000, Some(1)),
        rec(11, "helper", 300, Some(10)),
        rec(12, "helper", 200, Some(10)),
    ]);
    let log = run_kill(&mut d, &snap, &[], false);
    assert_eq!(
        &log[1..5],
        &[Command::Kill(10), Command::AwaitExit(10), Command::Kill(11), Command::Kill(12)]
    );
    let outcome = d.last_outcome().unwrap();
    assert!(matches!(outcome, TerminationOutcome::Terminated { killed_count: 3 }));
    assert_eq!(outcome.killed_count(), 3);
}

#[test]
fn kill_request_child_failure_is_partial() {
    let mut d = target_dispatcher();
    let snap = snapshot(vec![
        rec(1, "init", 100, None),
        rec(10, "Target", 5000, Some(1)),
        rec(11, "helper", 300, Some(10)),
        rec(12, "helper", 200, Some(10)),
    ]);
    let log = run_kill(&mut d, &snap, &[11], false);
    assert!(log.contains(&Command::Kill(12)));
    let outcome = d.last_outcome().unwrap();
    match outcome {
        TerminationOutcome::PartialChildFailure { killed_count, failed } => {
            assert_eq!(*killed_count, 2);
            assert_eq!(failed, &vec![11]);
        }
        _ => panic!("expected a partial child failure"),
    }
    assert_eq!(
        log.last().unwrap(),
        &Command::Notify(Notice {
            title: "Target Killed".to_string(),
            body: "2 total processes; could not terminate 11".to_string()
        })
    );
}

#[test]
fn kill_request_root_failure_spares_children() {
    let mut d = target_dispatcher();
    let snap = snapshot(vec![
        rec(1, "init", 100, None),
        rec(10, "Target", 5000, Some(1)),
        rec(11, "helper", 300, Some(10)),
        rec(12, "helper", 200, Some(10)),
    ]);
    let log = run_kill(&mut d, &snap, &[10], false);
    assert!(!log.contains(&Command::Kill(11)));
    assert!(!log.contains(&Command::Kill(12)));
    let outcome = d.last_outcome().unwrap();
    assert!(matches!(outcome, TerminationOutcome::RootTerminationFailed { pid: 10 }));
    assert_eq!(outcome.killed_count(), 0);
    assert_eq!(
        log.last().unwrap(),
        &Command::Notify(Notice {
            title: "spotikill Error".to_string(),
            body: "An error occurred: could not terminate Target process 10".to_string()
        })
    );
}

#[test]
fn unobserved_root_exit_spares_children() {
    let mut d = target_dispatcher();
    let log = run_kill(&mut d, &family_snapshot(), &[], true);
    assert_eq!(log[1..3], [Command::Kill(10), Command::AwaitExit(10)]);
    assert!(!log.contains(&Command::Kill(11)));
    assert!(matches!(
        d.last_outcome().unwrap(),
        TerminationOutcome::RootTerminationFailed { pid: 10 }
    ));
}

#[test]
fn busy_dispatcher_refuses_second_kill() {
    let mut d = target_dispatcher();
    assert_eq!(d.handle_action(Action::KillTarget), Command::CaptureSnapshot);
    assert_eq!(d.current_phase(), Phase::Capturing);
    assert_eq!(d.handle_action(Action::KillTarget), Command::Busy);
    assert_eq!(d.handle_action(Action::Quit), Command::Busy);
    assert_eq!(d.snapshot_taken(&family_snapshot()), Command::Kill(10));
    assert_eq!(d.current_phase(), Phase::Processing);
    assert_eq!(d.handle_action(Action::KillTarget), Command::Busy);
    assert_eq!(d.step_done(true), Command::AwaitExit(10));
    assert_eq!(d.handle_action(Action::KillTarget), Command::Busy);
    assert_eq!(d.step_done(true), Command::Kill(11));
    assert_eq!(d.step_done(true), Command::Kill(12));
    assert!(matches!(d.step_done(true), Command::Notify(_)));
    assert_eq!(d.current_phase(), Phase::Idle);
    assert_eq!(d.handle_action(Action::KillTarget), Command::CaptureSnapshot);
}

#[test]
fn quit_is_final() {
    let mut d = target_dispatcher();
    assert_eq!(d.handle_action(Action::Quit), Command::Shutdown);
    assert_eq!(d.current_phase(), Phase::Terminated);
    assert_eq!(d.handle_action(Action::KillTarget), Command::Shutdown);
    assert_eq!(d.current_phase(), Phase::Terminated);
}

#[test]
fn noop_reports_malformed_action() {
    let mut d = target_dispatcher();
    assert_eq!(
        d.handle_action(Action::Noop),
        Command::Notify(Notice {
            title: "spotikill Error".to_string(),
            body: "An error occurred: unrecognized tray action".to_string()
        })
    );
    assert_eq!(d.current_phase(), Phase::Idle);
}

#[test]
fn failed_capture_returns_to_idle() {
    let mut d = target_dispatcher();
    d.handle_action(Action::KillTarget);
    assert_eq!(
        d.snapshot_failed("process list unavailable"),
        Command::Notify(Notice {
            title: "spotikill Error".to_string(),
            body: "An error occurred: process list unavailable".to_string()
        })
    );
    assert_eq!(d.current_phase(), Phase::Idle);
    assert!(d.last_outcome().is_none());
}

#[test]
fn repeated_request_after_failure_runs_again() {
    let mut d = target_dispatcher();
    run_kill(&mut d, &family_snapshot(), &[10], false);
    let log = run_kill(&mut d, &family_snapshot(), &[], false);
    assert_eq!(log.last().unwrap(), &Command::Notify(Notice {
        title: "Target Killed".to_string(),
        body: "3 total processes".to_string()
    }));
}

#[test]
fn action_labels_round_trip() {
    for a in [Action::KillTarget, Action::Quit, Action::Noop] {
        assert_eq!(Action::from_menu_id(a.label()), a);
    }
    assert_eq!(Action::KillTarget.label(), "KillTarget");
    assert_eq!(Action::Noop.label(), "No-op");
    assert_eq!(Action::from_menu_id("Quit"), Action::Quit);
    assert_eq!(Action::from_menu_id("quit"), Action::Noop);
    assert_eq!(Action::from_menu_id(""), Action::Noop);
}
