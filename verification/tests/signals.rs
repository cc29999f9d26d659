use sandbox::process::{ProcessInfo, ProcessState};
use sandbox::signal::{
    count_refused, group_target, signal_process_group, signal_process_groups, SignalAttempt,
    SignalKind,
};
use sandbox::timestamp::Timestamp;

fn process(pid: i32) -> ProcessInfo {
    ProcessInfo {
        pid,
        name: "p".to_string(),
        cmd: "c".to_string(),
        start_time: Timestamp::new(0, 0),
        state: ProcessState::Running,
    }
}

#[test]
fn group_target_is_the_negated_identifier() {
    assert_eq!(group_target(55), Some(-55));
    assert_eq!(group_target(1), Some(-1));
    assert_eq!(group_target(-7), Some(7));
    assert_eq!(group_target(i32::MAX), Some(-i32::MAX));
    assert_eq!(group_target(i32::MIN + 1), Some(i32::MAX));
}

#[test]
fn two_identifiers_have_no_group_target() {
    assert_eq!(group_target(0), None);
    assert_eq!(group_target(i32::MIN), None);
}

#[test]
fn a_process_without_target_is_not_signalled() {
    for pid in [0, i32::MIN] {
        for kind in [SignalKind::Terminate, SignalKind::Kill] {
            let attempt = signal_process_group(pid, kind);
            assert_eq!(attempt, SignalAttempt { pid, target: None, kind, delivered: false });
        }
    }
}

#[test]
fn every_group_is_tried_in_order() {
    let processes = vec![process(2_000_001), process(0), process(2_000_003)];
    let attempts = signal_process_groups(&processes, SignalKind::Terminate);
    assert_eq!(attempts.len(), 3);
    assert_eq!(attempts[0].pid, 2_000_001);
    assert_eq!(attempts[0].target, Some(-2_000_001));
    assert_eq!(attempts[1].pid, 0);
    assert_eq!(attempts[1].target, None);
    assert!(!attempts[1].delivered);
    assert_eq!(attempts[2].pid, 2_000_003);
    assert_eq!(attempts[2].target, Some(-2_000_003));
    assert!(attempts.iter().all(|a| a.kind == SignalKind::Terminate));
}

#[test]
fn no_process_no_attempt() {
    assert!(signal_process_groups(&Vec::new(), SignalKind::Kill).is_empty());
}

#[test]
fn refused_attempts_are_counted() {
    let attempt = |delivered: bool| SignalAttempt {
        pid: 5,
        target: Some(-5),
        kind: SignalKind::Kill,
        delivered,
    };
    assert_eq!(count_refused(&Vec::new()), 0);
    assert_eq!(count_refused(&vec![attempt(true), attempt(true)]), 0);
    assert_eq!(count_refused(&vec![attempt(false), attempt(true), attempt(false)]), 2);
}
