use chrono::{TimeZone, Utc};
use sandbox::persistence::{Loaded, PersistenceManager, ScannedFile, StoreError, StoredSnapshot};
use sandbox::state_snapshot::{PersistedProcess, StateSnapshot};
use sandbox::timestamp::Timestamp;

fn instant(moment: chrono::DateTime<Utc>) -> Timestamp {
    Timestamp::new(moment.timestamp(), moment.timestamp_subsec_nanos())
}

fn snapshot_taken_at(sandbox_id: &str, secs: i64) -> StateSnapshot {
    StateSnapshot::new_at(sandbox_id.to_string(), Timestamp::new(secs, 0))
}

#[test]
fn test_snapshot_persistence() {
    let manager = PersistenceManager::with_base_dir("/tmp/snapshots-under-test".to_string());

    let mut snapshot = StateSnapshot::new("test-sandbox".to_string());
    let process = PersistedProcess {
        pid: 1234,
        name: "test-process".to_string(),
        cmd: "test-command".to_string(),
        start_time: instant(Utc.with_ymd_and_hms(2023, 1, 1, 12, 0, 0).unwrap()),
        state: "running".to_string(),
    };
    snapshot.add_process(process);

    // Save snapshot
    let plan = manager.save_snapshot(&snapshot);
    assert_eq!(plan.directory, "/tmp/snapshots-under-test");
    assert_eq!(plan.temp_path, "/tmp/snapshots-under-test/test-sandbox.snapshot.tmp");
    assert_eq!(plan.final_path, "/tmp/snapshots-under-test/test-sandbox.snapshot.json");

    // Load snapshot
    let loaded = manager.load_snapshot(StoredSnapshot::Found(snapshot)).unwrap();
    assert!(!loaded.expired);
    let loaded = loaded.snapshot.unwrap();
    assert_eq!(loaded.sandbox_id, "test-sandbox");
    assert_eq!(loaded.processes.len(), 1);

    // Remove snapshot
    assert_eq!(manager.remove_snapshot("test-sandbox"), plan.final_path);
    assert!(manager.load_snapshot(StoredSnapshot::Missing).unwrap().snapshot.is_none());
}

#[test]
fn default_base_dir() {
    let manager = PersistenceManager::new();
    assert_eq!(manager.get_base_dir(), "/var/lib/e2b/snapshots");
    assert_eq!(manager.snapshot_path("sb1"), "/var/lib/e2b/snapshots/sb1.snapshot.json");
}

#[test]
fn given_base_dir() {
    let manager = PersistenceManager::with_base_dir("/data/snaps/".to_string());
    assert_eq!(manager.get_base_dir(), "/data/snaps/");
    assert_eq!(manager.snapshot_path("sb1"), "/data/snaps/sb1.snapshot.json");
    assert_eq!(manager.remove_snapshot("sb1"), "/data/snaps/sb1.snapshot.json");
}

#[test]
fn load_of_a_fresh_snapshot_hands_it_out() {
    let manager = PersistenceManager::new();
    let mut snapshot = snapshot_taken_at("sb", 1_000_000);
    snapshot.add_process(PersistedProcess {
        pid: 9,
        name: "n".to_string(),
        cmd: "c".to_string(),
        start_time: Timestamp::new(1, 1),
        state: "suspended".to_string(),
    });
    let copy = StateSnapshot {
        sandbox_id: snapshot.sandbox_id.clone(),
        timestamp: snapshot.timestamp,
        processes: snapshot.processes.clone(),
    };
    let now = Timestamp::new(1_000_000 + 86_400, 0);
    let loaded = manager.load_snapshot_at(StoredSnapshot::Found(snapshot), &now);
    assert_eq!(loaded, Ok(Loaded { snapshot: Some(copy), expired: false }));
}

#[test]
fn load_of_a_stale_snapshot_hands_out_nothing_and_asks_for_removal() {
    let manager = PersistenceManager::new();
    let now = Timestamp::new(1_000_000 + 86_400, 1);
    let loaded = manager.load_snapshot_at(StoredSnapshot::Found(snapshot_taken_at("sb", 1_000_000)), &now);
    assert_eq!(loaded, Ok(Loaded { snapshot: None, expired: true }));
}

#[test]
fn load_of_a_missing_file_hands_out_nothing() {
    let manager = PersistenceManager::new();
    let loaded = manager.load_snapshot_at(StoredSnapshot::Missing, &Timestamp::new(0, 0));
    assert_eq!(loaded, Ok(Loaded { snapshot: None, expired: false }));
}

#[test]
fn load_of_a_corrupt_file_is_an_error() {
    let manager = PersistenceManager::new();
    let loaded = manager.load_snapshot_at(StoredSnapshot::Unreadable, &Timestamp::new(0, 0));
    assert_eq!(loaded, Err(StoreError::CorruptSnapshot));
    assert_eq!(manager.load_snapshot(StoredSnapshot::Unreadable), Err(StoreError::CorruptSnapshot));
}

#[test]
fn load_by_the_clock_tells_stale_from_fresh() {
    let manager = PersistenceManager::new();
    let now = Utc::now().timestamp();
    let stale = manager.load_snapshot(StoredSnapshot::Found(snapshot_taken_at("sb", now - 25 * 3_600)));
    assert_eq!(stale, Ok(Loaded { snapshot: None, expired: true }));
    let fresh = manager.load_snapshot(StoredSnapshot::Found(snapshot_taken_at("sb", now - 3_600))).unwrap();
    assert!(!fresh.expired);
    assert_eq!(fresh.snapshot.unwrap().timestamp, Timestamp::new(now - 3_600, 0));
}

fn scanned(file_name: &str, taken: Option<i64>) -> ScannedFile {
    ScannedFile {
        file_name: file_name.to_string(),
        snapshot: taken.map(|secs| snapshot_taken_at("sb", secs)),
    }
}

#[test]
fn cleanup_picks_stale_snapshots_only() {
    let manager = PersistenceManager::with_base_dir("/snaps".to_string());
    let now = Timestamp::new(10_000_000, 0);
    let old = 10_000_000 - 86_401;
    let young = 10_000_000 - 86_400;
    let files = vec![
        scanned("a.snapshot.json", Some(old)),
        scanned("b.snapshot.json", Some(young)),
        scanned("c.snapshot.json", None),
        scanned("d.snapshot.tmp", Some(old)),
        scanned("e.json", Some(old)),
        scanned(".json", Some(old)),
    ];
    let doomed = manager.cleanup_old_snapshots_at(&files, &now);
    assert_eq!(doomed, vec!["/snaps/a.snapshot.json".to_string(), "/snaps/e.json".to_string()]);
}

#[test]
fn cleanup_of_an_empty_directory_removes_nothing() {
    let manager = PersistenceManager::new();
    assert!(manager.cleanup_old_snapshots_at(&Vec::new(), &Timestamp::new(0, 0)).is_empty());
    assert!(manager.cleanup_old_snapshots(&Vec::new()).is_empty());
}

#[test]
fn cleanup_by_the_clock() {
    let manager = PersistenceManager::with_base_dir("/snaps".to_string());
    let now = Utc::now().timestamp();
    let files = vec![
        scanned("fresh.snapshot.json", Some(now - 3_600)),
        scanned("corrupt.snapshot.json", None),
        scanned("stale.snapshot.json", Some(now - 25 * 3_600)),
    ];
    assert_eq!(manager.cleanup_old_snapshots(&files), vec!["/snaps/stale.snapshot.json".to_string()]);
}
