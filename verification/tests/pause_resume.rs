use sandbox::auto_pause::{
    poll_budget, AutoPauseConfig, AutoPauseManager, PauseStep, ResumeOutcome, WaitStep,
    POLL_INTERVAL_MILLIS,
};
use sandbox::persistence::{Loaded, PersistenceManager, StoreError, StoredSnapshot};
use sandbox::process::{ProcessInfo, ProcessState};
use sandbox::signal::SignalKind;
use sandbox::state_snapshot::{PersistedProcess, StateSnapshot};
use sandbox::timestamp::Timestamp;

fn process(pid: i32, state: ProcessState) -> ProcessInfo {
    ProcessInfo {
        pid,
        name: format!("proc-{}", pid),
        cmd: format!("/bin/proc-{} --serve", pid),
        start_time: Timestamp::new(1_700_000_000 + pid as i64, 7),
        state,
    }
}

fn keeping() -> AutoPauseManager {
    AutoPauseManager::new(AutoPauseConfig { kill_on_pause: false, graceful_timeout_secs: 30 })
}

fn killing(graceful_timeout_secs: u64) -> AutoPauseManager {
    AutoPauseManager::new(AutoPauseConfig { kill_on_pause: true, graceful_timeout_secs })
}

#[test]
fn default_config_kills_after_thirty_seconds() {
    let config = AutoPauseConfig::default();
    assert!(config.kill_on_pause);
    assert_eq!(config.graceful_timeout_secs, 30);
}

#[test]
fn new_manager_is_empty_and_uses_the_default_directory() {
    let manager = AutoPauseManager::new(AutoPauseConfig::default());
    assert_eq!(manager.config, AutoPauseConfig::default());
    assert!(manager.process_manager.list_processes("sb1").is_empty());
    assert_eq!(manager.persistence_manager.get_base_dir(), "/var/lib/e2b/snapshots");
}

#[test]
fn poll_budget_is_two_looks_a_second() {
    assert_eq!(POLL_INTERVAL_MILLIS, 500);
    assert_eq!(poll_budget(30), 60);
    assert_eq!(poll_budget(0), 0);
    assert_eq!(poll_budget(1), 2);
    assert_eq!(poll_budget(u64::MAX / 2), u64::MAX - 1);
    assert_eq!(poll_budget(u64::MAX / 2 + 1), u64::MAX);
    assert_eq!(poll_budget(u64::MAX), u64::MAX);
}

#[test]
fn scenario_keep_processes_on_pause() {
    let mut manager = keeping();
    manager.process_manager.add_process("sb1", process(101, ProcessState::Running));
    manager.process_manager.add_process("sb1", process(102, ProcessState::Running));

    match manager.prepare_pause("sb1") {
        PauseStep::Persist { snapshot, plan } => {
            assert_eq!(snapshot.sandbox_id, "sb1");
            assert_eq!(snapshot.processes.len(), 2);
            assert_eq!(snapshot.processes[0].pid, 101);
            assert_eq!(snapshot.processes[0].state, "running");
            assert_eq!(snapshot.processes[0].name, "proc-101");
            assert_eq!(snapshot.processes[0].cmd, "/bin/proc-101 --serve");
            assert_eq!(snapshot.processes[0].start_time, Timestamp::new(1_700_000_101, 7));
            assert_eq!(snapshot.processes[1].pid, 102);
            assert_eq!(snapshot.processes[1].state, "running");
            assert!(!snapshot.is_stale());
            assert_eq!(plan.directory, "/var/lib/e2b/snapshots");
            assert_eq!(plan.temp_path, "/var/lib/e2b/snapshots/sb1.snapshot.tmp");
            assert_eq!(plan.final_path, "/var/lib/e2b/snapshots/sb1.snapshot.json");
        }
        other => panic!("processes are kept, yet the step is {:?}", other),
    }

    let live = manager.process_manager.list_processes("sb1");
    assert_eq!(live, vec![process(101, ProcessState::Running), process(102, ProcessState::Running)]);
}

#[test]
fn scenario_resume_restores_the_registry() {
    let mut manager = keeping();
    manager.process_manager.add_process("sb1", process(101, ProcessState::Running));
    manager.process_manager.add_process("sb1", process(102, ProcessState::Running));
    let snapshot = match manager.prepare_pause("sb1") {
        PauseStep::Persist { snapshot, .. } => snapshot,
        other => panic!("processes are kept, yet the step is {:?}", other),
    };

    manager.process_manager.clear_sandbox("sb1");
    assert!(manager.process_manager.list_processes("sb1").is_empty());

    let outcome = manager.after_resume("sb1", StoredSnapshot::Found(snapshot));
    assert_eq!(outcome, Ok(ResumeOutcome::Restored { stored: 2 }));
    let live = manager.process_manager.list_processes("sb1");
    assert_eq!(live.len(), 2);
    assert_eq!(live[0].pid, 101);
    assert_eq!(live[0].state, ProcessState::Running);
    assert_eq!(live[1].pid, 102);
    assert_eq!(live[1].state, ProcessState::Running);
    assert_eq!(live, vec![process(101, ProcessState::Running), process(102, ProcessState::Running)]);
}

#[test]
fn scenario_kill_processes_on_pause() {
    let mut manager = killing(30);
    manager.process_manager.add_process("sb1", process(55, ProcessState::Running));

    let polls = match manager.prepare_pause("sb1") {
        PauseStep::AwaitExit { attempts, polls_left } => {
            assert_eq!(attempts.len(), 1);
            assert_eq!(attempts[0].pid, 55);
            assert_eq!(attempts[0].target, Some(-55));
            assert_eq!(attempts[0].kind, SignalKind::Terminate);
            assert_eq!(polls_left, 60);
            polls_left
        }
        other => panic!("processes are ended, yet the step is {:?}", other),
    };

    let mut left = polls;
    let mut sleeps = 0;
    let last = loop {
        match manager.wait_for_processes_to_exit("sb1", left) {
            WaitStep::Sleep { millis, polls_left } => {
                assert_eq!(millis, 500);
                assert_eq!(polls_left, left - 1);
                left = polls_left;
                sleeps += 1;
            }
            step => break step,
        }
    };
    assert_eq!(sleeps, 60);
    match last {
        WaitStep::Escalated { attempts } => {
            assert_eq!(attempts.len(), 1);
            assert_eq!(attempts[0].pid, 55);
            assert_eq!(attempts[0].target, Some(-55));
            assert_eq!(attempts[0].kind, SignalKind::Kill);
        }
        other => panic!("the process never left, yet the step is {:?}", other),
    }
    assert_eq!(manager.process_manager.list_processes("sb1").len(), 1);
}

#[test]
fn wait_ends_as_soon_as_the_processes_are_gone() {
    let mut manager = killing(30);
    manager.process_manager.add_process("sb1", process(55, ProcessState::Running));
    assert_eq!(
        manager.wait_for_processes_to_exit("sb1", 60),
        WaitStep::Sleep { millis: 500, polls_left: 59 }
    );
    manager.process_manager.remove_process("sb1", 55);
    assert_eq!(manager.wait_for_processes_to_exit("sb1", 59), WaitStep::Exited);
    assert_eq!(manager.wait_for_processes_to_exit("sb1", 0), WaitStep::Exited);
    assert_eq!(manager.wait_for_processes_to_exit("unknown", 0), WaitStep::Exited);
}

#[test]
fn pause_with_kill_makes_no_snapshot() {
    let mut manager = killing(5);
    manager.process_manager.add_process("sb1", process(61, ProcessState::Running));
    manager.process_manager.add_process("sb1", process(62, ProcessState::Suspended));
    match manager.prepare_pause("sb1") {
        PauseStep::AwaitExit { attempts, polls_left } => {
            let targets: Vec<Option<i32>> = attempts.iter().map(|a| a.target).collect();
            assert_eq!(targets, vec![Some(-61), Some(-62)]);
            assert_eq!(polls_left, 10);
        }
        other => panic!("processes are ended, yet the step is {:?}", other),
    }
}

#[test]
fn pause_of_a_sandbox_without_processes() {
    let manager = killing(30);
    match manager.prepare_pause("empty") {
        PauseStep::AwaitExit { attempts, polls_left } => {
            assert!(attempts.is_empty());
            assert_eq!(polls_left, 60);
        }
        other => panic!("processes are ended, yet the step is {:?}", other),
    }
    let manager = keeping();
    match manager.prepare_pause("empty") {
        PauseStep::Persist { snapshot, .. } => {
            assert_eq!(snapshot.sandbox_id, "empty");
            assert!(snapshot.processes.is_empty());
        }
        other => panic!("processes are kept, yet the step is {:?}", other),
    }
}

#[test]
fn force_kill_tries_every_group_that_is_left() {
    let mut manager = killing(30);
    manager.process_manager.add_process("sb1", process(71, ProcessState::Running));
    manager.process_manager.add_process("sb1", process(72, ProcessState::Running));
    manager.process_manager.remove_process("sb1", 71);
    let attempts = manager.force_kill_remaining("sb1");
    assert_eq!(attempts.len(), 1);
    assert_eq!(attempts[0].target, Some(-72));
    assert_eq!(attempts[0].kind, SignalKind::Kill);
    let attempts = manager.kill_all_processes("sb1");
    assert_eq!(attempts.len(), 1);
    assert_eq!(attempts[0].target, Some(-72));
    assert_eq!(attempts[0].kind, SignalKind::Terminate);
}

fn stored_form(pid: i32, state: &str) -> PersistedProcess {
    PersistedProcess {
        pid,
        name: format!("proc-{}", pid),
        cmd: format!("/bin/proc-{} --serve", pid),
        start_time: Timestamp::new(1_700_000_000 + pid as i64, 7),
        state: state.to_string(),
    }
}

#[test]
fn capture_writes_down_the_state_of_every_process() {
    let mut manager = keeping();
    manager.process_manager.add_process("sb1", process(1, ProcessState::Suspended));
    manager.process_manager.add_process("sb1", process(2, ProcessState::Terminated));
    manager.process_manager.add_process("sb1", process(3, ProcessState::Running));
    let snapshot = manager.capture_snapshot("sb1", Timestamp::new(123, 456));
    assert_eq!(snapshot.timestamp, Timestamp::new(123, 456));
    assert_eq!(snapshot.sandbox_id, "sb1");
    let expected = vec![
        stored_form(1, "suspended"),
        stored_form(2, "terminated"),
        stored_form(3, "running"),
    ];
    assert_eq!(snapshot.processes, expected);
    let taken_now = manager.persist_process_state("sb1");
    assert_eq!(taken_now.processes, expected);
    assert!(!taken_now.is_stale());
    match manager.prepare_pause("sb1") {
        PauseStep::Persist { snapshot, .. } => assert_eq!(snapshot.processes, expected),
        other => panic!("processes are kept, yet the step is {:?}", other),
    }
}

#[test]
fn pause_and_resume_keep_every_state() {
    let mut manager = keeping();
    let before = vec![
        process(7, ProcessState::Suspended),
        process(8, ProcessState::Running),
        process(9, ProcessState::Terminated),
    ];
    for entry in &before {
        manager.process_manager.add_process("sb1", entry.clone());
    }
    let snapshot = manager.persist_process_state("sb1");
    manager.process_manager.clear_sandbox("sb1");
    manager.process_manager.add_process("sb1", process(1000, ProcessState::Running));
    assert_eq!(
        manager.after_resume("sb1", StoredSnapshot::Found(snapshot)),
        Ok(ResumeOutcome::Restored { stored: 3 })
    );
    assert_eq!(manager.process_manager.list_processes("sb1"), before);
}

#[test]
fn resume_reads_only_where_processes_are_kept() {
    let manager = keeping();
    assert_eq!(
        manager.snapshot_to_read("sb1"),
        Some("/var/lib/e2b/snapshots/sb1.snapshot.json".to_string())
    );
    let manager = killing(30);
    assert_eq!(manager.snapshot_to_read("sb1"), None);
}

#[test]
fn resume_after_kill_is_a_no_op() {
    let mut manager = killing(30);
    manager.process_manager.add_process("sb1", process(1, ProcessState::Running));
    let mut snapshot = StateSnapshot::new("sb1".to_string());
    snapshot.add_process(PersistedProcess {
        pid: 9,
        name: "n".to_string(),
        cmd: "c".to_string(),
        start_time: Timestamp::new(0, 0),
        state: "running".to_string(),
    });
    assert_eq!(manager.after_resume("sb1", StoredSnapshot::Found(snapshot)), Ok(ResumeOutcome::NothingKept));
    assert_eq!(manager.after_resume("sb1", StoredSnapshot::Unreadable), Ok(ResumeOutcome::NothingKept));
    assert_eq!(manager.process_manager.list_processes("sb1"), vec![process(1, ProcessState::Running)]);
}

#[test]
fn resume_without_snapshot_leaves_the_registry() {
    let mut manager = keeping();
    manager.process_manager.add_process("sb1", process(1, ProcessState::Running));
    assert_eq!(manager.after_resume("sb1", StoredSnapshot::Missing), Ok(ResumeOutcome::NoSnapshot));
    assert_eq!(manager.process_manager.list_processes("sb1").len(), 1);
}

#[test]
fn resume_from_a_corrupt_file_fails() {
    let mut manager = keeping();
    manager.process_manager.add_process("sb1", process(1, ProcessState::Running));
    assert_eq!(manager.after_resume("sb1", StoredSnapshot::Unreadable), Err(StoreError::CorruptSnapshot));
    assert_eq!(manager.process_manager.list_processes("sb1").len(), 1);
}

#[test]
fn resume_from_a_stale_snapshot_restores_nothing() {
    let mut manager = keeping();
    manager.process_manager.add_process("sb1", process(1, ProcessState::Running));
    let mut snapshot = StateSnapshot::new_at("sb1".to_string(), Timestamp::new(1_000, 0));
    snapshot.add_process(PersistedProcess {
        pid: 9,
        name: "n".to_string(),
        cmd: "c".to_string(),
        start_time: Timestamp::new(0, 0),
        state: "running".to_string(),
    });
    let now = Timestamp::new(1_000 + 90_000, 0);
    assert_eq!(
        manager.after_resume_at("sb1", StoredSnapshot::Found(snapshot), &now),
        Ok(ResumeOutcome::Expired)
    );
    assert_eq!(manager.process_manager.list_processes("sb1"), vec![process(1, ProcessState::Running)]);
}

#[test]
fn resume_reads_tags_and_drops_repeats() {
    let mut manager = keeping();
    manager.persistence_manager = PersistenceManager::with_base_dir("/elsewhere".to_string());
    let mut snapshot = StateSnapshot::new_at("sb1".to_string(), Timestamp::new(1_000, 0));
    for (pid, state) in [(1, "suspended"), (2, "???"), (1, "running")] {
        snapshot.add_process(PersistedProcess {
            pid,
            name: format!("proc-{}", pid),
            cmd: format!("/bin/proc-{} --serve", pid),
            start_time: Timestamp::new(1_700_000_000 + pid as i64, 7),
            state: state.to_string(),
        });
    }
    let now = Timestamp::new(2_000, 0);
    assert_eq!(
        manager.after_resume_at("sb1", StoredSnapshot::Found(snapshot), &now),
        Ok(ResumeOutcome::Restored { stored: 3 })
    );
    assert_eq!(
        manager.process_manager.list_processes("sb1"),
        vec![process(1, ProcessState::Suspended), process(2, ProcessState::Terminated)]
    );
    assert_eq!(manager.persistence_manager.get_base_dir(), "/elsewhere");
}

#[test]
fn restore_process_state_follows_what_was_loaded() {
    let mut manager = keeping();
    assert_eq!(
        manager.restore_process_state("sb1", Loaded { snapshot: None, expired: false }),
        ResumeOutcome::NoSnapshot
    );
    assert_eq!(
        manager.restore_process_state("sb1", Loaded { snapshot: None, expired: true }),
        ResumeOutcome::Expired
    );
    let snapshot = StateSnapshot::new_at("sb1".to_string(), Timestamp::new(1_000, 0));
    assert_eq!(
        manager.restore_process_state("sb1", Loaded { snapshot: Some(snapshot), expired: false }),
        ResumeOutcome::Restored { stored: 0 }
    );
}
