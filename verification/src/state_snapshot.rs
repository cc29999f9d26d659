//! What is written down about a sandbox's processes when it is paused.

use vstd::prelude::*;
use vstd::string::*;
use crate::paths;
use crate::timestamp::{current_time, Timestamp};

verus! {

/// The age, in seconds, past which a snapshot is no longer trusted: 24 hours.
pub const MAX_SNAPSHOT_AGE_SECS: i64 = 86_400;

/// A process as it is stored. The state is an open text tag rather than one
/// of a fixed set, so that a stored record stays readable when the set grows.
#[derive(Debug, PartialEq, Eq)]
pub struct PersistedProcess {
    pub pid: i32,
    pub name: String,
    pub cmd: String,
    pub start_time: Timestamp,
    pub state: String,
}

/// The mathematical content of a [`PersistedProcess`].
pub struct PersistedRecord {
    pub pid: i32,
    pub name: Seq<char>,
    pub cmd: Seq<char>,
    pub start_time: Timestamp,
    pub state: Seq<char>,
}

impl View for PersistedProcess {
    type V = PersistedRecord;

    open spec fn view(&self) -> PersistedRecord {
        PersistedRecord {
            pid: self.pid,
            name: self.name@,
            cmd: self.cmd@,
            start_time: self.start_time,
            state: self.state@,
        }
    }
}

impl Clone for PersistedProcess {
    fn clone(&self) -> (copy: Self)
        ensures
            copy@ == self@,
    {
        PersistedProcess {
            pid: self.pid,
            name: self.name.clone(),
            cmd: self.cmd.clone(),
            start_time: self.start_time,
            state: self.state.clone(),
        }
    }
}

/// The contents of a list of stored processes, in order.
pub open spec fn persisted_records(list: Seq<PersistedProcess>) -> Seq<PersistedRecord> {
    list.map_values(|p: PersistedProcess| p@)
}

/// The processes of one sandbox at one instant.
#[derive(Debug, PartialEq, Eq)]
pub struct StateSnapshot {
    pub sandbox_id: String,
    pub timestamp: Timestamp,
    pub processes: Vec<PersistedProcess>,
}

/// The mathematical content of a [`StateSnapshot`].
pub struct SnapshotView {
    pub sandbox_id: Seq<char>,
    pub timestamp: Timestamp,
    pub processes: Seq<PersistedRecord>,
}

impl SnapshotView {
    /// Whether the snapshot was taken more than 24 hours before `now`.
    pub open spec fn is_stale_at(self, now: Timestamp) -> bool {
        now.is_more_than_secs_after(self.timestamp, MAX_SNAPSHOT_AGE_SECS as int)
    }
}

impl View for StateSnapshot {
    type V = SnapshotView;

    open spec fn view(&self) -> SnapshotView {
        SnapshotView {
            sandbox_id: self.sandbox_id@,
            timestamp: self.timestamp,
            processes: persisted_records(self.processes@),
        }
    }
}

/// Staleness goes by age alone: a snapshot is stale exactly when more than
/// 24 hours lie between the instant it was taken and now. One taken 25 hours
/// ago is stale, one taken an hour ago is not, and one taken 24 hours ago
/// to the nanosecond is not yet.
pub proof fn lemma_stale_by_age(snapshot: SnapshotView, now: Timestamp, age_nanos: int)
    requires
        now.nanos_since(snapshot.timestamp) == age_nanos,
    ensures
        snapshot.is_stale_at(now) == (age_nanos > 24 * 3600 * 1_000_000_000),
{
}

/// Time alone makes a snapshot stale, and never fresh again: one that is
/// stale at some instant is stale at every instant that is not earlier.
pub proof fn lemma_stale_stays_stale(snapshot: SnapshotView, now: Timestamp, later: Timestamp)
    requires
        snapshot.is_stale_at(now),
        later.nanos_since(now) >= 0,
    ensures
        snapshot.is_stale_at(later),
{
}

impl StateSnapshot {
    /// An empty snapshot of `sandbox_id`, taken now.
    pub fn new(sandbox_id: String) -> (snapshot: Self)
        ensures
            snapshot@.sandbox_id == sandbox_id@,
            snapshot@.timestamp.is_clock_reading(),
            snapshot@.processes == Seq::<PersistedRecord>::empty(),
    {
        let now = current_time();
        Self::new_at(sandbox_id, now)
    }

    /// An empty snapshot of `sandbox_id`, taken at `timestamp`.
    pub fn new_at(sandbox_id: String, timestamp: Timestamp) -> (snapshot: Self)
        ensures
            snapshot@ == (SnapshotView {
                sandbox_id: sandbox_id@,
                timestamp,
                processes: Seq::empty(),
            }),
    {
        let snapshot = StateSnapshot { sandbox_id, timestamp, processes: Vec::new() };
        assert(snapshot@.processes =~= Seq::empty());
        snapshot
    }

    /// Appends `process` to the snapshot. Nothing is checked: a snapshot may
    /// hold the same process identifier more than once.
    pub fn add_process(&mut self, process: PersistedProcess)
        ensures
            final(self)@ == (SnapshotView {
                processes: old(self)@.processes.push(process@),
                ..old(self)@
            }),
    {
        self.processes.push(process);
        assert(persisted_records(self.processes@) =~= persisted_records(
            old(self).processes@,
        ).push(process@));
    }

    /// The path of this snapshot's file under `base_dir`.
    pub fn get_snapshot_path(&self, base_dir: &str) -> (path: String)
        ensures
            path@ == paths::joined(base_dir@, paths::snapshot_file_name_of(self@.sandbox_id)),
    {
        let name = paths::snapshot_file_name(self.sandbox_id.as_str());
        paths::join(base_dir, name.as_str())
    }

    /// Whether the snapshot is more than 24 hours old by the system clock:
    /// the answer of [`StateSnapshot::is_stale_at`] for the instant the clock
    /// gave.
    pub fn is_stale(&self) -> (stale: bool)
        ensures
            exists|now: Timestamp|
                now.is_clock_reading() && stale == #[trigger] self@.is_stale_at(now),
    {
        let now = current_time();
        self.is_stale_at(&now)
    }

    /// Whether the snapshot was taken more than 24 hours before `now`.
    pub fn is_stale_at(&self, now: &Timestamp) -> (stale: bool)
        ensures
            stale == self@.is_stale_at(*now),
    {
        now.more_than_secs_after(&self.timestamp, MAX_SNAPSHOT_AGE_SECS)
    }
}

} // verus!
