//! What happens to a sandbox's processes when it is paused, and how that is
//! undone when it resumes.
//!
//! A sandbox is paused in one of two ways. Either its processes are ended
//! before the pause: their groups are asked to terminate, the registry is
//! polled until it holds none of them or the time allowed has passed, and
//! what is left is killed. Or they are kept: a snapshot of the registry's
//! list is handed out to be stored, and on resume the list is restored from
//! what was stored.
//!
//! Nothing here sleeps or touches a file. Each function does one step and
//! says what comes next; the caller waits, reads and writes, and returns
//! with what it found.

use vstd::prelude::*;
use vstd::string::*;
use crate::persistence::{
    default_base_dir,
    Loaded,
    PersistenceManager,
    SavePlan,
    StoreError,
    StoredSnapshot,
};
use crate::paths;
use crate::process::{
    distinct_pids,
    has_pid,
    lemma_tag_round_trip,
    listed,
    records,
    restored,
    revived,
    state_tag,
    tag_of,
    ProcessManager,
    ProcessRecord,
    RegistryView,
};
use crate::signal::{are_attempts_on, signal_process_groups, SignalAttempt, SignalKind};
use crate::state_snapshot::{
    persisted_records,
    PersistedProcess,
    PersistedRecord,
    SnapshotView,
    StateSnapshot,
};
use crate::timestamp::{current_time, Timestamp};

verus! {

/// Milliseconds between two looks at the registry while processes are
/// given time to end.
pub const POLL_INTERVAL_MILLIS: u64 = 500;

/// How a sandbox is paused.
#[derive(Clone, Copy, Debug, PartialEq, Eq, Structural)]
pub struct AutoPauseConfig {
    /// Whether the processes are ended before the pause rather than kept.
    pub kill_on_pause: bool,
    /// Seconds that processes are given to end by themselves.
    pub graceful_timeout_secs: u64,
}

impl Default for AutoPauseConfig {
    fn default() -> (config: Self)
        ensures
            config.kill_on_pause,
            config.graceful_timeout_secs == 30,
    {
        AutoPauseConfig { kill_on_pause: true, graceful_timeout_secs: 30 }
    }
}

/// How often the registry is looked at, at most, while processes are given
/// `graceful_timeout_secs` seconds to end: twice a second, and never more
/// often than a `u64` counts.
pub open spec fn poll_budget_of(graceful_timeout_secs: u64) -> u64 {
    if graceful_timeout_secs * 2 <= u64::MAX {
        (graceful_timeout_secs * 2) as u64
    } else {
        u64::MAX
    }
}

/// Counts the looks at the registry that `graceful_timeout_secs` seconds
/// allow.
pub fn poll_budget(graceful_timeout_secs: u64) -> (polls: u64)
    ensures
        polls == poll_budget_of(graceful_timeout_secs),
{
    if graceful_timeout_secs <= u64::MAX / 2 {
        graceful_timeout_secs * 2
    } else {
        u64::MAX
    }
}

/// The looks that are allowed, one every [`POLL_INTERVAL_MILLIS`], span the
/// time that processes are given to end, to the millisecond.
pub proof fn lemma_poll_budget_spans_timeout(graceful_timeout_secs: u64)
    requires
        graceful_timeout_secs * 2 <= u64::MAX,
    ensures
        poll_budget_of(graceful_timeout_secs) * POLL_INTERVAL_MILLIS == graceful_timeout_secs
            * 1000,
{
}

/// The stored form of a live record: the same process, with its state
/// written down as a tag.
pub open spec fn captured_record(record: ProcessRecord) -> PersistedRecord {
    PersistedRecord {
        pid: record.pid,
        name: record.name,
        cmd: record.cmd,
        start_time: record.start_time,
        state: tag_of(record.state),
    }
}

/// The stored form of a process list.
pub open spec fn captured(list: Seq<ProcessRecord>) -> Seq<PersistedRecord> {
    list.map_values(|r: ProcessRecord| captured_record(r))
}

/// A pause that keeps the processes is undone by the resume: restoring
/// what was captured of a list gives the list itself, every process in its
/// place and in the state it was in.
pub proof fn lemma_restore_of_capture(list: Seq<ProcessRecord>)
    requires
        distinct_pids(list),
    ensures
        restored(captured(list)) == list,
    decreases list.len(),
{
    if list.len() == 0 {
        assert(captured(list) =~= Seq::empty());
        assert(list =~= Seq::empty());
    } else {
        let front = list.drop_last();
        let last = list.last();
        assert forall|i: int, j: int| 0 <= i < j < front.len() implies (#[trigger] front[i]).pid
            != (#[trigger] front[j]).pid by {
            assert(front[i] == list[i] && front[j] == list[j]);
        }
        lemma_restore_of_capture(front);
        lemma_tag_round_trip(last.state);
        assert(captured(list).drop_last() =~= captured(front));
        assert(captured(list).last() == captured_record(last));
        let revival = revived(captured_record(last));
        assert(revival == last);
        assert(!has_pid(front, last.pid)) by {
            if has_pid(front, last.pid) {
                let k = choose|k: int| 0 <= k < front.len() && (#[trigger] front[k]).pid == last.pid;
                assert(list[k].pid == front[k].pid);
                assert(list[list.len() - 1].pid == last.pid);
            }
        }
        assert(front.push(last) =~= list);
    }
}

/// What is to be done after the first step of a pause.
#[derive(Debug, PartialEq, Eq)]
pub enum PauseStep {
    /// The processes are being ended. Every group was asked to terminate;
    /// `attempts` tells how that went. The registry is now to be polled by
    /// [`AutoPauseManager::wait_for_processes_to_exit`], at most
    /// `polls_left` times with a sleep after each.
    AwaitExit { attempts: Vec<SignalAttempt>, polls_left: u64 },
    /// The processes are kept. `snapshot` is to be stored as `plan` says.
    Persist { snapshot: StateSnapshot, plan: SavePlan },
}

/// What is to be done after a look at the registry.
#[derive(Debug, PartialEq, Eq)]
pub enum WaitStep {
    /// No process is left: the pause may go on.
    Exited,
    /// Processes are left and there is time: sleep for `millis`
    /// milliseconds and look again, with `polls_left` looks to go.
    Sleep { millis: u64, polls_left: u64 },
    /// Processes are left and the time is up: every group that was left was
    /// killed, and `attempts` tells how that went. The pause may go on.
    Escalated { attempts: Vec<SignalAttempt> },
}

/// What a resume did.
#[derive(Clone, Copy, Debug, PartialEq, Eq, Structural)]
pub enum ResumeOutcome {
    /// Processes are ended on pause, so there was nothing to bring back.
    NothingKept,
    /// No snapshot was stored: the sandbox starts without known processes.
    NoSnapshot,
    /// The stored snapshot was stale: its file is to be removed, and the
    /// sandbox starts without known processes.
    Expired,
    /// The registry's list was replaced by what the snapshot gave, which
    /// held `stored` records.
    Restored { stored: usize },
}

/// Whether `result` and `after` are what a resume of `sandbox_id` at `now`
/// gives and leaves, for the registry `before` and the file contents
/// `stored`.
pub open spec fn is_resume_result(
    config: AutoPauseConfig,
    before: RegistryView,
    sandbox_id: Seq<char>,
    stored: StoredSnapshot,
    now: Timestamp,
    result: Result<ResumeOutcome, StoreError>,
    after: RegistryView,
) -> bool {
    if config.kill_on_pause {
        result == Ok::<ResumeOutcome, StoreError>(ResumeOutcome::NothingKept) && after == before
    } else {
        match stored {
            StoredSnapshot::Missing => result == Ok::<ResumeOutcome, StoreError>(
                ResumeOutcome::NoSnapshot,
            ) && after == before,
            StoredSnapshot::Unreadable => result == Err::<ResumeOutcome, StoreError>(
                StoreError::CorruptSnapshot,
            ) && after == before,
            StoredSnapshot::Found(snapshot) => if snapshot@.is_stale_at(now) {
                result == Ok::<ResumeOutcome, StoreError>(ResumeOutcome::Expired) && after
                    == before
            } else {
                result == Ok::<ResumeOutcome, StoreError>(
                    ResumeOutcome::Restored { stored: snapshot.processes.len() },
                ) && after == before.insert(sandbox_id, restored(snapshot@.processes))
            },
        }
    }
}

/// A pause that keeps the processes is undone by the resume. Where the
/// snapshot made at the pause is found again before it is stale, the
/// resume succeeds and leaves the sandbox with the processes it had at the
/// pause, in their order and in the states they were in, whatever became of
/// its list in between; every other sandbox keeps the list it has.
pub proof fn lemma_resume_undoes_pause(
    config: AutoPauseConfig,
    at_pause: RegistryView,
    at_resume: RegistryView,
    sandbox_id: Seq<char>,
    snapshot: StateSnapshot,
    now: Timestamp,
    result: Result<ResumeOutcome, StoreError>,
    after: RegistryView,
)
    requires
        !config.kill_on_pause,
        distinct_pids(listed(at_pause, sandbox_id)),
        snapshot@.processes == captured(listed(at_pause, sandbox_id)),
        !snapshot@.is_stale_at(now),
        is_resume_result(
            config,
            at_resume,
            sandbox_id,
            StoredSnapshot::Found(snapshot),
            now,
            result,
            after,
        ),
    ensures
        result == Ok::<ResumeOutcome, StoreError>(
            ResumeOutcome::Restored { stored: snapshot.processes.len() },
        ),
        listed(after, sandbox_id) == listed(at_pause, sandbox_id),
        forall|other: Seq<char>|
            other != sandbox_id ==> listed(after, other) == listed(at_resume, other),
{
    lemma_restore_of_capture(listed(at_pause, sandbox_id));
}

/// Prepares sandboxes for a pause and brings them back after it.
pub struct AutoPauseManager {
    pub config: AutoPauseConfig,
    pub process_manager: ProcessManager,
    pub persistence_manager: PersistenceManager,
}

impl AutoPauseManager {
    /// A manager with an empty registry that keeps snapshots in the default
    /// directory.
    pub fn new(config: AutoPauseConfig) -> (manager: Self)
        ensures
            manager.config == config,
            manager.process_manager@ == Map::<Seq<char>, Seq<ProcessRecord>>::empty(),
            manager.persistence_manager@ == default_base_dir(),
    {
        AutoPauseManager {
            config,
            process_manager: ProcessManager::new(),
            persistence_manager: PersistenceManager::new(),
        }
    }

    /// Takes the first step of pausing `sandbox_id`. Where processes are
    /// ended on pause, every tracked process has its group asked to
    /// terminate, and no snapshot is made. Where they are kept, no process
    /// is touched and the registry's list is captured in a snapshot.
    pub fn prepare_pause(&self, sandbox_id: &str) -> (step: PauseStep)
        ensures
            match step {
                PauseStep::AwaitExit { attempts, polls_left } => {
                    &&& self.config.kill_on_pause
                    &&& are_attempts_on(
                        attempts@,
                        listed(self.process_manager@, sandbox_id@),
                        SignalKind::Terminate,
                    )
                    &&& polls_left == poll_budget_of(self.config.graceful_timeout_secs)
                },
                PauseStep::Persist { snapshot, plan } => {
                    &&& !self.config.kill_on_pause
                    &&& snapshot@.sandbox_id == sandbox_id@
                    &&& snapshot@.timestamp.is_clock_reading()
                    &&& snapshot@.processes == captured(
                        listed(self.process_manager@, sandbox_id@),
                    )
                    &&& plan.directory@ == self.persistence_manager@
                    &&& plan.temp_path@ == paths::joined(
                        self.persistence_manager@,
                        paths::temp_file_name_of(sandbox_id@),
                    )
                    &&& plan.final_path@ == paths::joined(
                        self.persistence_manager@,
                        paths::snapshot_file_name_of(sandbox_id@),
                    )
                },
            },
    {
        if self.config.kill_on_pause {
            let attempts = self.kill_all_processes(sandbox_id);
            PauseStep::AwaitExit {
                attempts,
                polls_left: poll_budget(self.config.graceful_timeout_secs),
            }
        } else {
            let snapshot = self.persist_process_state(sandbox_id);
            let plan = self.persistence_manager.save_snapshot(&snapshot);
            PauseStep::Persist { snapshot, plan }
        }
    }

    /// Asks the group of every process of `sandbox_id` to terminate.
    pub fn kill_all_processes(&self, sandbox_id: &str) -> (attempts: Vec<SignalAttempt>)
        ensures
            are_attempts_on(
                attempts@,
                listed(self.process_manager@, sandbox_id@),
                SignalKind::Terminate,
            ),
    {
        let processes = self.process_manager.list_processes(sandbox_id);
        signal_process_groups(&processes, SignalKind::Terminate)
    }

    /// Kills the group of every process of `sandbox_id`.
    pub fn force_kill_remaining(&self, sandbox_id: &str) -> (attempts: Vec<SignalAttempt>)
        ensures
            are_attempts_on(
                attempts@,
                listed(self.process_manager@, sandbox_id@),
                SignalKind::Kill,
            ),
    {
        let processes = self.process_manager.list_processes(sandbox_id);
        signal_process_groups(&processes, SignalKind::Kill)
    }

    /// Looks at the registry once while the processes of `sandbox_id` are
    /// given time to end, with `polls_left` further looks allowed. An empty
    /// list ends the wait. Otherwise the caller sleeps and looks again, or,
    /// when no look is left, what remains is killed. Running out of time is
    /// no failure: the pause goes on either way.
    pub fn wait_for_processes_to_exit(&self, sandbox_id: &str, polls_left: u64) -> (step: WaitStep)
        ensures
            match step {
                WaitStep::Exited => listed(self.process_manager@, sandbox_id@).len() == 0,
                WaitStep::Sleep { millis, polls_left: left } => {
                    &&& listed(self.process_manager@, sandbox_id@).len() > 0
                    &&& polls_left > 0
                    &&& millis == POLL_INTERVAL_MILLIS
                    &&& left == polls_left - 1
                },
                WaitStep::Escalated { attempts } => {
                    &&& listed(self.process_manager@, sandbox_id@).len() > 0
                    &&& polls_left == 0
                    &&& are_attempts_on(
                        attempts@,
                        listed(self.process_manager@, sandbox_id@),
                        SignalKind::Kill,
                    )
                },
            },
    {
        let processes = self.process_manager.list_processes(sandbox_id);
        if processes.len() == 0 {
            WaitStep::Exited
        } else if polls_left > 0 {
            WaitStep::Sleep { millis: POLL_INTERVAL_MILLIS, polls_left: polls_left - 1 }
        } else {
            WaitStep::Escalated { attempts: signal_process_groups(&processes, SignalKind::Kill) }
        }
    }

    /// Tells which file a resume of `sandbox_id` is to read: that of its
    /// snapshot where processes are kept on pause, and none where they are
    /// ended, since nothing was stored then.
    pub fn snapshot_to_read(&self, sandbox_id: &str) -> (path: Option<String>)
        ensures
            match path {
                Some(path) => {
                    &&& !self.config.kill_on_pause
                    &&& path@ == paths::joined(
                        self.persistence_manager@,
                        paths::snapshot_file_name_of(sandbox_id@),
                    )
                },
                None => self.config.kill_on_pause,
            },
    {
        if self.config.kill_on_pause {
            None
        } else {
            Some(self.persistence_manager.snapshot_path(sandbox_id))
        }
    }

    /// Captures the processes of `sandbox_id` in a snapshot taken now.
    pub fn persist_process_state(&self, sandbox_id: &str) -> (snapshot: StateSnapshot)
        ensures
            snapshot@.sandbox_id == sandbox_id@,
            snapshot@.timestamp.is_clock_reading(),
            snapshot@.processes == captured(listed(self.process_manager@, sandbox_id@)),
    {
        let now = current_time();
        self.capture_snapshot(sandbox_id, now)
    }

    /// Captures the processes of `sandbox_id` in a snapshot taken at `now`.
    /// The registry is left as it is.
    pub fn capture_snapshot(&self, sandbox_id: &str, now: Timestamp) -> (snapshot: StateSnapshot)
        ensures
            snapshot@ == (SnapshotView {
                sandbox_id: sandbox_id@,
                timestamp: now,
                processes: captured(listed(self.process_manager@, sandbox_id@)),
            }),
    {
        let live = self.process_manager.list_processes(sandbox_id);
        let mut processes: Vec<PersistedProcess> = Vec::new();
        let mut i: usize = 0;
        while i < live.len()
            invariant
                i <= live.len(),
                processes.len() == i,
                forall|k: int|
                    0 <= k < i ==> (#[trigger] processes[k])@ == captured_record(live[k]@),
            decreases live.len() - i,
        {
            let process = &live[i];
            processes.push(
                PersistedProcess {
                    pid: process.pid,
                    name: process.name.clone(),
                    cmd: process.cmd.clone(),
                    start_time: process.start_time,
                    state: state_tag(process.state),
                },
            );
            i = i + 1;
        }
        assert(persisted_records(processes@) =~= captured(records(live@)));
        StateSnapshot { sandbox_id: sandbox_id.to_owned(), timestamp: now, processes }
    }

    /// Brings `sandbox_id` back after a pause, by the system clock: the
    /// result of [`AutoPauseManager::after_resume_at`] for the instant the
    /// clock gave.
    pub fn after_resume(&mut self, sandbox_id: &str, stored: StoredSnapshot) -> (result: Result<
        ResumeOutcome,
        StoreError,
    >)
        ensures
            final(self).config == old(self).config,
            final(self).persistence_manager == old(self).persistence_manager,
            exists|now: Timestamp|
                now.is_clock_reading() && #[trigger] is_resume_result(
                    old(self).config,
                    old(self).process_manager@,
                    sandbox_id@,
                    stored,
                    now,
                    result,
                    final(self).process_manager@,
                ),
    {
        let now = current_time();
        self.after_resume_at(sandbox_id, stored, &now)
    }

    /// Brings `sandbox_id` back after a pause, given what was found in its
    /// file. Where processes are ended on pause, nothing is done. Where
    /// they are kept and the file holds a snapshot that is not stale at
    /// `now`, the registry's list is replaced by what the snapshot gives. A
    /// missing or stale snapshot leaves the registry as it is; a file that
    /// holds no snapshot is an error.
    pub fn after_resume_at(&mut self, sandbox_id: &str, stored: StoredSnapshot, now: &Timestamp)
        -> (result: Result<ResumeOutcome, StoreError>)
        ensures
            final(self).config == old(self).config,
            final(self).persistence_manager == old(self).persistence_manager,
            is_resume_result(
                old(self).config,
                old(self).process_manager@,
                sandbox_id@,
                stored,
                *now,
                result,
                final(self).process_manager@,
            ),
    {
        if self.config.kill_on_pause {
            return Ok(ResumeOutcome::NothingKept);
        }
        match self.persistence_manager.load_snapshot_at(stored, now) {
            Err(error) => Err(error),
            Ok(loaded) => Ok(self.restore_process_state(sandbox_id, loaded)),
        }
    }

    /// Puts what was loaded into the registry: a snapshot replaces the list
    /// of `sandbox_id`, and without one the registry stays as it is.
    pub fn restore_process_state(&mut self, sandbox_id: &str, loaded: Loaded) -> (outcome:
        ResumeOutcome)
        ensures
            final(self).config == old(self).config,
            final(self).persistence_manager == old(self).persistence_manager,
            match loaded.snapshot {
                Some(snapshot) => {
                    &&& outcome == (ResumeOutcome::Restored { stored: snapshot.processes.len() })
                    &&& final(self).process_manager@ == old(self).process_manager@.insert(
                        sandbox_id@,
                        restored(snapshot@.processes),
                    )
                },
                None => {
                    &&& outcome == if loaded.expired {
                        ResumeOutcome::Expired
                    } else {
                        ResumeOutcome::NoSnapshot
                    }
                    &&& final(self).process_manager@ == old(self).process_manager@
                },
            },
    {
        match loaded.snapshot {
            Some(snapshot) => {
                let stored: usize = snapshot.processes.len();
                self.process_manager.restore_processes(sandbox_id, snapshot.processes);
                ResumeOutcome::Restored { stored }
            },
            None => {
                if loaded.expired {
                    ResumeOutcome::Expired
                } else {
                    ResumeOutcome::NoSnapshot
                }
            },
        }
    }
}

} // verus!
