use spotikill::process::{ProcessRecord, ProcessSnapshot};
use spotikill::termination::{TermAction, Termination, TerminationOutcome};
use spotikill::tree::{descendants, select_root};

fn rec(pid: u32, name: &str, memory: u64, parent: Option<u32>) -> ProcessRecord {
    ProcessRecord::new(pid, name.to_string(), memory, parent)
}

fn tree_snapshot() -> ProcessSnapshot {
    ProcessSnapshot::from_records(vec![
        rec(1, "init", 100, None),
        rec(30, "grandchild", 10, Some(11)),
        rec(10, "Target", 5000, Some(1)),
        rec(11, "Target Helper", 300, Some(10)),
        rec(12, "Target Helper", 200, Some(10)),
        rec(40, "unrelated", 70, Some(1)),
        rec(31, "great-grandchild", 5, Some(30)),
    ])
    .unwrap()
}

#[test]
fn root_is_the_match_without_a_matched_parent() {
    let ms = vec![
        rec(11, "Target Helper", 9000, Some(10)),
        rec(10, "Target", 10, Some(1)),
    ];
    assert_eq!(select_root(&ms), 1);
}

#[test]
fn root_falls_back_to_largest_memory() {
    let ms = vec![
        rec(20, "Target", 100, Some(1)),
        rec(21, "Target", 800, None),
        rec(22, "Target", 800, Some(2)),
    ];
    assert_eq!(select_root(&ms), 1);
    let cycle = vec![rec(5, "Target", 10, Some(6)), rec(6, "Target", 30, Some(5))];
    assert_eq!(select_root(&cycle), 1);
}

#[test]
fn descendants_follow_parent_links_transitively() {
    let snap = tree_snapshot();
    assert_eq!(descendants(&snap, 10), vec![30, 11, 12, 31]);
    assert_eq!(descendants(&snap, 11), vec![30, 31]);
    assert_eq!(descendants(&snap, 12), Vec::<u32>::new());
    assert_eq!(descendants(&snap, 99), Vec::<u32>::new());
}

#[test]
fn descendants_ignore_cycles_through_root() {
    let snap = ProcessSnapshot::from_records(vec![
        rec(5, "a", 1, Some(6)),
        rec(6, "b", 1, Some(5)),
    ])
    .unwrap();
    assert_eq!(descendants(&snap, 5), vec![6]);
}

fn drive(t: &mut Termination, refuse: &[u32]) -> Vec<TermAction> {
    let mut log = Vec::new();
    loop {
        let a = t.next_action();
        log.push(a);
        match a {
            TermAction::Kill(pid) => t.report(!refuse.contains(&pid)),
            TermAction::AwaitExit(_) => t.report(true),
            TermAction::Finished => break,
        }
    }
    log
}

#[test]
fn all_descendants_are_attempted_after_root() {
    let snap = tree_snapshot();
    let ms = vec![rec(10, "Target", 5000, Some(1)), rec(11, "Target Helper", 300, Some(10))];
    let mut t = Termination::start(&snap, &ms);
    let log = drive(&mut t, &[30, 12]);
    assert_eq!(
        log,
        vec![
            TermAction::Kill(10),
            TermAction::AwaitExit(10),
            TermAction::Kill(30),
            TermAction::Kill(11),
            TermAction::Kill(12),
            TermAction::Kill(31),
            TermAction::Finished,
        ]
    );
    assert!(t.is_finished());
    match t.outcome() {
        TerminationOutcome::PartialChildFailure { killed_count, failed } => {
            assert_eq!(killed_count, 3);
            assert_eq!(failed, vec![30, 12]);
        }
        _ => panic!("expected a partial child failure"),
    }
}

#[test]
fn root_without_descendants_finishes_after_exit() {
    let snap = tree_snapshot();
    let ms = vec![rec(40, "unrelated", 70, Some(1))];
    let mut t = Termination::start(&snap, &ms);
    let log = drive(&mut t, &[]);
    assert_eq!(log, vec![TermAction::Kill(40), TermAction::AwaitExit(40), TermAction::Finished]);
    assert!(matches!(t.outcome(), TerminationOutcome::Terminated { killed_count: 1 }));
}

#[test]
fn root_signal_failure_ends_request() {
    let snap = tree_snapshot();
    let ms = vec![rec(10, "Target", 5000, Some(1))];
    let mut t = Termination::start(&snap, &ms);
    let log = drive(&mut t, &[10]);
    assert_eq!(log, vec![TermAction::Kill(10), TermAction::Finished]);
    let o = t.outcome();
    assert!(matches!(o, TerminationOutcome::RootTerminationFailed { pid: 10 }));
    assert_eq!(o.killed_count(), 0);
}

#[test]
fn not_found_counts_nothing() {
    assert_eq!(TerminationOutcome::NotFound.killed_count(), 0);
}
