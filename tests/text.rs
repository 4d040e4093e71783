use spotikill::aumid::get_aumid;
use spotikill::dispatcher::notice_for;
use spotikill::notice::{show_error_notification, show_simple_notification};
use spotikill::termination::TerminationOutcome;
use spotikill::text::{push_decimal, push_pid_list, same_ignoring_case_at, same_text};

#[test]
fn decimal_rendering() {
    for (n, want) in [(0u64, "0"), (7, "7"), (10, "10"), (305, "305"), (u64::MAX, "18446744073709551615")] {
        let mut s = String::from("n=");
        push_decimal(&mut s, n);
        assert_eq!(s, format!("n={want}"));
    }
}

#[test]
fn pid_list_rendering() {
    let mut s = String::new();
    push_pid_list(&mut s, &vec![]);
    assert_eq!(s, "");
    push_pid_list(&mut s, &vec![11]);
    assert_eq!(s, "11");
    let mut t = String::from("[");
    push_pid_list(&mut t, &vec![11, 4294967295, 0]);
    assert_eq!(t, "[11, 4294967295, 0");
}

#[test]
fn case_blind_comparison() {
    assert!(same_ignoring_case_at("xxSpotIFY", 2, 7, "spotify"));
    assert!(!same_ignoring_case_at("xxSpotIFZ", 2, 7, "spotify"));
    assert!(!same_ignoring_case_at("Spotify", 0, 7, "spot"));
    assert!(same_text("héllo", "héllo"));
    assert!(!same_text("héllo", "hello"));
}

#[test]
fn notifications_text() {
    let n = show_simple_notification("Title", "Body");
    assert_eq!((n.title.as_str(), n.body.as_str()), ("Title", "Body"));
    let e = show_error_notification("boom");
    assert_eq!(e.title, "spotikill Error");
    assert_eq!(e.body, "An error occurred: boom");
    let p = notice_for(
        "Spotify",
        &TerminationOutcome::PartialChildFailure { killed_count: 4, failed: vec![7, 9] },
    );
    assert_eq!(p.title, "Spotify Killed");
    assert_eq!(p.body, "4 total processes; could not terminate 7, 9");
}

#[test]
fn aumid_braces_uuid() {
    assert_eq!(get_aumid(), "{5e7a90e6-2218-4d6d-b319-86f46c300bcb}.spotikill");
}
