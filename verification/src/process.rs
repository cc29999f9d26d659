//! The registry of the processes each sandbox runs.
//!
//! The registry is a map from sandbox identifiers to process lists. Within
//! one list no process identifier occurs twice. A sandbox that was never
//! registered, or was cleared, has no entry; asking for its processes gives
//! the empty list.

use vstd::prelude::*;
use vstd::string::*;
use crate::state_snapshot::{persisted_records, PersistedProcess, PersistedRecord};
use crate::text::str_eq;
use crate::timestamp::Timestamp;

verus! {

/// Where a process stands in its life.
#[derive(Clone, Copy, Debug, PartialEq, Eq, Structural)]
pub enum ProcessState {
    Running,
    Suspended,
    Terminated,
}

impl ProcessState {
    /// The state a stored tag stands for. Any tag that is not known reads as
    /// `Terminated`: a process of which nothing certain is known is not
    /// taken to be alive.
    pub open spec fn of_tag(tag: Seq<char>) -> ProcessState {
        if tag == "running"@ {
            ProcessState::Running
        } else if tag == "suspended"@ {
            ProcessState::Suspended
        } else {
            ProcessState::Terminated
        }
    }

    /// Reads a stored tag: `running` and `suspended` stand for themselves,
    /// and everything else for `Terminated`.
    pub fn from_tag(tag: &str) -> (state: ProcessState)
        ensures
            state == Self::of_tag(tag@),
    {
        if str_eq(tag, "running") {
            ProcessState::Running
        } else if str_eq(tag, "suspended") {
            ProcessState::Suspended
        } else {
            ProcessState::Terminated
        }
    }
}

/// The tag under which a state is stored.
pub open spec fn tag_of(state: ProcessState) -> Seq<char> {
    match state {
        ProcessState::Running => "running"@,
        ProcessState::Suspended => "suspended"@,
        ProcessState::Terminated => "terminated"@,
    }
}

/// Makes the tag under which `state` is stored.
pub fn state_tag(state: ProcessState) -> (tag: String)
    ensures
        tag@ == tag_of(state),
{
    match state {
        ProcessState::Running => "running".to_owned(),
        ProcessState::Suspended => "suspended".to_owned(),
        ProcessState::Terminated => "terminated".to_owned(),
    }
}

/// A state that is stored and read again is the state it was.
pub proof fn lemma_tag_round_trip(state: ProcessState)
    ensures
        ProcessState::of_tag(tag_of(state)) == state,
{
    reveal_strlit("running");
    reveal_strlit("suspended");
    reveal_strlit("terminated");
    assert("running"@.len() == 7);
    assert("suspended"@.len() == 9);
    assert("terminated"@.len() == 10);
}

/// A process that a sandbox runs.
#[derive(Debug, PartialEq, Eq)]
pub struct ProcessInfo {
    pub pid: i32,
    pub name: String,
    pub cmd: String,
    pub start_time: Timestamp,
    pub state: ProcessState,
}

/// The mathematical content of a [`ProcessInfo`].
pub struct ProcessRecord {
    pub pid: i32,
    pub name: Seq<char>,
    pub cmd: Seq<char>,
    pub start_time: Timestamp,
    pub state: ProcessState,
}

impl View for ProcessInfo {
    type V = ProcessRecord;

    open spec fn view(&self) -> ProcessRecord {
        ProcessRecord {
            pid: self.pid,
            name: self.name@,
            cmd: self.cmd@,
            start_time: self.start_time,
            state: self.state,
        }
    }
}

impl Clone for ProcessInfo {
    fn clone(&self) -> (copy: Self)
        ensures
            copy@ == self@,
    {
        ProcessInfo {
            pid: self.pid,
            name: self.name.clone(),
            cmd: self.cmd.clone(),
            start_time: self.start_time,
            state: self.state,
        }
    }
}

/// What the registry holds: for each registered sandbox, its processes.
pub type RegistryView = Map<Seq<char>, Seq<ProcessRecord>>;

/// The contents of a process list, in order.
pub open spec fn records(list: Seq<ProcessInfo>) -> Seq<ProcessRecord> {
    list.map_values(|p: ProcessInfo| p@)
}

/// Whether some record of `list` has the identifier `pid`.
pub open spec fn has_pid(list: Seq<ProcessRecord>, pid: i32) -> bool {
    exists|i: int| 0 <= i < list.len() && (#[trigger] list[i]).pid == pid
}

/// Whether no identifier occurs twice in `list`.
pub open spec fn distinct_pids(list: Seq<ProcessRecord>) -> bool {
    forall|i: int, j: int|
        0 <= i < j < list.len() ==> (#[trigger] list[i]).pid != (#[trigger] list[j]).pid
}

/// Whether every list of the registry is free of repeated identifiers.
pub open spec fn all_distinct(registry: RegistryView) -> bool {
    forall|id: Seq<char>| registry.dom().contains(id) ==> distinct_pids(#[trigger] registry[id])
}

/// The processes of `sandbox_id`: the empty list where it has no entry.
pub open spec fn listed(registry: RegistryView, sandbox_id: Seq<char>) -> Seq<ProcessRecord> {
    if registry.dom().contains(sandbox_id) {
        registry[sandbox_id]
    } else {
        Seq::empty()
    }
}

/// `list` after `record` was offered to it: appended, unless its identifier
/// is taken.
pub open spec fn with_added(list: Seq<ProcessRecord>, record: ProcessRecord) -> Seq<
    ProcessRecord,
> {
    if has_pid(list, record.pid) {
        list
    } else {
        list.push(record)
    }
}

/// The test "has another identifier than `pid`".
pub open spec fn pid_differs(pid: i32) -> spec_fn(ProcessRecord) -> bool {
    |r: ProcessRecord| r.pid != pid
}

/// `list` without the records whose identifier is `pid`.
pub open spec fn without_pid(list: Seq<ProcessRecord>, pid: i32) -> Seq<ProcessRecord> {
    list.filter(pid_differs(pid))
}

/// `list` with the state of the records whose identifier is `pid` set to `state`.
pub open spec fn with_state(list: Seq<ProcessRecord>, pid: i32, state: ProcessState) -> Seq<
    ProcessRecord,
> {
    list.map_values(
        |r: ProcessRecord|
            if r.pid == pid {
                ProcessRecord { state, ..r }
            } else {
                r
            },
    )
}

/// The live record a stored one stands for.
pub open spec fn revived(stored: PersistedRecord) -> ProcessRecord {
    ProcessRecord {
        pid: stored.pid,
        name: stored.name,
        cmd: stored.cmd,
        start_time: stored.start_time,
        state: ProcessState::of_tag(stored.state),
    }
}

/// The process list that stored records give rise to: each is revived and
/// offered in order, so of several records with one identifier the first
/// stays.
pub open spec fn restored(stored: Seq<PersistedRecord>) -> Seq<ProcessRecord>
    decreases stored.len(),
{
    if stored.len() == 0 {
        Seq::empty()
    } else {
        with_added(restored(stored.drop_last()), revived(stored.last()))
    }
}

/// The registry after `record` was offered to `sandbox_id`.
pub open spec fn after_add(
    registry: RegistryView,
    sandbox_id: Seq<char>,
    record: ProcessRecord,
) -> RegistryView {
    registry.insert(sandbox_id, with_added(listed(registry, sandbox_id), record))
}

/// The registry after `pid` was removed from `sandbox_id`.
pub open spec fn after_remove(registry: RegistryView, sandbox_id: Seq<char>, pid: i32)
    -> RegistryView {
    if registry.dom().contains(sandbox_id) {
        registry.insert(sandbox_id, without_pid(registry[sandbox_id], pid))
    } else {
        registry
    }
}

/// The registry after the state of `pid` in `sandbox_id` was set to `state`.
pub open spec fn after_update(
    registry: RegistryView,
    sandbox_id: Seq<char>,
    pid: i32,
    state: ProcessState,
) -> RegistryView {
    if registry.dom().contains(sandbox_id) {
        registry.insert(sandbox_id, with_state(registry[sandbox_id], pid, state))
    } else {
        registry
    }
}

/// Offering a record to a list without repeated identifiers leaves it so.
pub proof fn lemma_with_added_distinct(list: Seq<ProcessRecord>, record: ProcessRecord)
    requires
        distinct_pids(list),
    ensures
        distinct_pids(with_added(list, record)),
        has_pid(with_added(list, record), record.pid),
{
    let after = with_added(list, record);
    if has_pid(list, record.pid) {
    } else {
        assert(after[list.len() as int].pid == record.pid);
        assert forall|i: int, j: int| 0 <= i < j < after.len() implies (#[trigger] after[i]).pid
            != (#[trigger] after[j]).pid by {
            if j < list.len() {
                assert(after[i] == list[i] && after[j] == list[j]);
            } else {
                assert(after[i] == list[i]);
            }
        }
    }
}

/// What removing `pid` does to a list that ends in `last`.
pub proof fn lemma_without_pid_push(list: Seq<ProcessRecord>, last: ProcessRecord, pid: i32)
    ensures
        without_pid(list.push(last), pid) == if last.pid != pid {
            without_pid(list, pid).push(last)
        } else {
            without_pid(list, pid)
        },
{
    list.lemma_filter_push(last, pid_differs(pid));
}

/// Removing an identifier leaves a part of the list, in which that
/// identifier no longer occurs and nothing occurs twice that did not before.
pub proof fn lemma_without_pid_distinct(list: Seq<ProcessRecord>, pid: i32)
    requires
        distinct_pids(list),
    ensures
        distinct_pids(without_pid(list, pid)),
        !has_pid(without_pid(list, pid), pid),
        forall|i: int|
            0 <= i < without_pid(list, pid).len() ==> list.contains(
                #[trigger] without_pid(list, pid)[i],
            ),
    decreases list.len(),
{
    let kept = without_pid(list, pid);
    if list.len() == 0 {
        reveal(Seq::filter);
    } else {
        let front = list.drop_last();
        let last = list.last();
        assert(list =~= front.push(last));
        assert forall|i: int, j: int| 0 <= i < j < front.len() implies (#[trigger] front[i]).pid
            != (#[trigger] front[j]).pid by {
            assert(front[i] == list[i] && front[j] == list[j]);
        }
        lemma_without_pid_distinct(front, pid);
        lemma_without_pid_push(front, last, pid);
        let kept_front = without_pid(front, pid);
        assert(kept == if last.pid != pid {
            kept_front.push(last)
        } else {
            kept_front
        });
        assert forall|i: int| 0 <= i < kept.len() implies list.contains(#[trigger] kept[i]) by {
            if i < kept_front.len() {
                assert(kept[i] == kept_front[i]);
                assert(front.contains(kept_front[i]));
                let k = choose|k: int| 0 <= k < front.len() && front[k] == kept_front[i];
                assert(list[k] == kept[i]);
            } else {
                assert(list[list.len() - 1] == kept[i]);
            }
        }
        assert forall|i: int, j: int| 0 <= i < j < kept.len() implies (#[trigger] kept[i]).pid != (
        #[trigger] kept[j]).pid by {
            assert(kept[i] == kept_front[i]);
            if j < kept_front.len() {
                assert(kept[j] == kept_front[j]);
            } else {
                assert(front.contains(kept_front[i]));
                let k = choose|k: int| 0 <= k < front.len() && front[k] == kept_front[i];
                assert(list[k] == kept[i] && list[list.len() - 1] == kept[j]);
            }
        }
        assert forall|i: int| 0 <= i < kept.len() implies (#[trigger] kept[i]).pid != pid by {
            if i < kept_front.len() {
                assert(kept[i] == kept_front[i]);
            }
        }
    }
}

/// Setting a state neither adds nor removes an identifier.
pub proof fn lemma_with_state_distinct(list: Seq<ProcessRecord>, pid: i32, state: ProcessState)
    requires
        distinct_pids(list),
    ensures
        distinct_pids(with_state(list, pid, state)),
{
    let after = with_state(list, pid, state);
    assert forall|i: int, j: int| 0 <= i < j < after.len() implies (#[trigger] after[i]).pid != (
    #[trigger] after[j]).pid by {
        assert(after[i].pid == list[i].pid && after[j].pid == list[j].pid);
    }
}

/// A restored list holds no identifier twice, and each of its records is the
/// revival of one of the stored records.
pub proof fn lemma_restored_distinct(stored: Seq<PersistedRecord>)
    ensures
        distinct_pids(restored(stored)),
        forall|i: int|
            0 <= i < restored(stored).len() ==> exists|j: int|
                0 <= j < stored.len() && #[trigger] restored(stored)[i] == revived(
                    #[trigger] stored[j],
                ),
    decreases stored.len(),
{
    if stored.len() > 0 {
        let front = stored.drop_last();
        lemma_restored_distinct(front);
        lemma_with_added_distinct(restored(front), revived(stored.last()));
        let list = restored(stored);
        assert forall|i: int| 0 <= i < list.len() implies exists|j: int|
            0 <= j < stored.len() && #[trigger] list[i] == revived(#[trigger] stored[j]) by {
            if i < restored(front).len() {
                assert(list[i] == restored(front)[i]);
                let j = choose|j: int|
                    0 <= j < front.len() && restored(front)[i] == revived(#[trigger] front[j]);
                assert(stored[j] == front[j]);
            } else {
                assert(list[i] == revived(stored[stored.len() - 1]));
            }
        }
    }
}

/// Adding is idempotent: once a record was offered to a sandbox, offering
/// any record with the same identifier again changes nothing, and the
/// sandbox's list holds that identifier exactly once.
pub proof fn lemma_add_is_idempotent(
    registry: RegistryView,
    sandbox_id: Seq<char>,
    first: ProcessRecord,
    second: ProcessRecord,
)
    requires
        all_distinct(registry),
        first.pid == second.pid,
    ensures
        after_add(after_add(registry, sandbox_id, first), sandbox_id, second) == after_add(
            registry,
            sandbox_id,
            first,
        ),
        all_distinct(after_add(registry, sandbox_id, first)),
        listed(after_add(registry, sandbox_id, first), sandbox_id).filter(
            |r: ProcessRecord| r.pid == first.pid,
        ).len() == 1,
{
    let before = listed(registry, sandbox_id);
    let once = after_add(registry, sandbox_id, first);
    let list = listed(once, sandbox_id);
    assert(distinct_pids(before));
    lemma_with_added_distinct(before, first);
    assert(list == with_added(before, first));
    assert(once.insert(sandbox_id, list) =~= once);
    assert forall|id: Seq<char>| once.dom().contains(id) implies distinct_pids(
        #[trigger] once[id],
    ) by {
        if id != sandbox_id {
            assert(once[id] == registry[id]);
        }
    }
    lemma_one_match(list, first.pid);
}

/// Sandboxes do not see each other: whatever is done to one sandbox, the
/// processes of every other stay as they were. A sandbox that was
/// never registered therefore keeps the empty list.
pub proof fn lemma_other_sandboxes_untouched(
    registry: RegistryView,
    changed: Seq<char>,
    other: Seq<char>,
    record: ProcessRecord,
    pid: i32,
    state: ProcessState,
    stored: Seq<PersistedRecord>,
)
    requires
        changed != other,
    ensures
        listed(after_add(registry, changed, record), other) == listed(registry, other),
        listed(after_remove(registry, changed, pid), other) == listed(registry, other),
        listed(after_update(registry, changed, pid, state), other) == listed(registry, other),
        listed(registry.insert(changed, restored(stored)), other) == listed(registry, other),
        listed(registry.remove(changed), other) == listed(registry, other),
        listed(Map::<Seq<char>, Seq<ProcessRecord>>::empty(), other) == Seq::<
            ProcessRecord,
        >::empty(),
{
}

/// In a list without repeated identifiers, an identifier that occurs is
/// carried by exactly one record.
pub proof fn lemma_one_match(list: Seq<ProcessRecord>, pid: i32)
    requires
        distinct_pids(list),
    ensures
        list.filter(|r: ProcessRecord| r.pid == pid).len() == if has_pid(list, pid) {
            1nat
        } else {
            0nat
        },
    decreases list.len(),
{
    let same = |r: ProcessRecord| r.pid == pid;
    if list.len() == 0 {
        reveal(Seq::filter);
    } else {
        let front = list.drop_last();
        let last = list.last();
        assert(list =~= front.push(last));
        assert forall|i: int, j: int| 0 <= i < j < front.len() implies (#[trigger] front[i]).pid
            != (#[trigger] front[j]).pid by {
            assert(front[i] == list[i] && front[j] == list[j]);
        }
        lemma_one_match(front, pid);
        front.lemma_filter_push(last, same);
        if has_pid(front, pid) {
            let k = choose|k: int| 0 <= k < front.len() && (#[trigger] front[k]).pid == pid;
            assert(list[k].pid == pid);
            assert(list[list.len() - 1] == last);
        } else if last.pid == pid {
            assert(list[list.len() - 1].pid == pid);
        } else {
            if has_pid(list, pid) {
                let k = choose|k: int| 0 <= k < list.len() && (#[trigger] list[k]).pid == pid;
                assert(front[k] == list[k]);
            }
        }
    }
}

/// The place of the first process with identifier `pid`, if there is one.
fn find_pid(list: &Vec<ProcessInfo>, pid: i32) -> (found: Option<usize>)
    ensures
        match found {
            Some(i) => i < list.len() && list[i as int].pid == pid,
            None => !has_pid(records(list@), pid),
        },
{
    let mut i: usize = 0;
    while i < list.len()
        invariant
            i <= list.len(),
            forall|k: int| 0 <= k < i ==> (#[trigger] records(list@)[k]).pid != pid,
        decreases list.len() - i,
    {
        if list[i].pid == pid {
            return Some(i);
        }
        i = i + 1;
    }
    None
}

/// A copy of a process list.
fn clone_list(list: &Vec<ProcessInfo>) -> (copy: Vec<ProcessInfo>)
    ensures
        records(copy@) == records(list@),
{
    let mut copy: Vec<ProcessInfo> = Vec::new();
    let mut i: usize = 0;
    while i < list.len()
        invariant
            i <= list.len(),
            copy.len() == i,
            forall|k: int| 0 <= k < i ==> (#[trigger] copy[k])@ == list[k]@,
        decreases list.len() - i,
    {
        copy.push(list[i].clone());
        i = i + 1;
    }
    assert(records(copy@) =~= records(list@));
    copy
}

/// Appends `process` unless its identifier is taken.
fn add_to_list(list: &mut Vec<ProcessInfo>, process: ProcessInfo)
    ensures
        records(final(list)@) == with_added(records(old(list)@), process@),
{
    match find_pid(list, process.pid) {
        None => {
            list.push(process);
            assert(records(list@) =~= records(old(list)@).push(process@));
        },
        Some(i) => {
            assert(records(list@)[i as int].pid == process.pid);
        },
    }
}

/// Removes every process with identifier `pid`.
fn remove_from_list(list: &mut Vec<ProcessInfo>, pid: i32)
    ensures
        records(final(list)@) == without_pid(records(old(list)@), pid),
{
    let ghost orig = records(list@);
    let ghost mut seen: int = 0;
    let mut i: usize = 0;
    proof {
        reveal(Seq::filter);
        assert(orig.take(0) =~= Seq::empty());
        assert(records(list@).take(0) =~= without_pid(orig.take(0), pid));
        assert(records(list@).skip(0) =~= orig.skip(0));
    }
    while i < list.len()
        invariant
            0 <= seen <= orig.len(),
            i <= list.len(),
            list.len() - i == orig.len() - seen,
            records(list@).take(i as int) == without_pid(orig.take(seen), pid),
            records(list@).skip(i as int) == orig.skip(seen),
        decreases list.len() - i,
    {
        let ghost before = records(list@);
        proof {
            assert(before[i as int] == before.skip(i as int)[0]);
            assert(orig[seen] == orig.skip(seen)[0]);
            assert(orig.take(seen + 1) =~= orig.take(seen).push(orig[seen]));
            lemma_without_pid_push(orig.take(seen), orig[seen], pid);
        }
        if list[i].pid == pid {
            list.remove(i);
            proof {
                let after = records(list@);
                assert(after =~= before.remove(i as int));
                assert(after.take(i as int) =~= before.take(i as int));
                assert(after.skip(i as int) =~= before.skip(i as int).skip(1));
                assert(orig.skip(seen + 1) =~= orig.skip(seen).skip(1));
            }
        } else {
            i = i + 1;
            proof {
                assert(before.take(i as int) =~= before.take(i - 1).push(before[i - 1]));
                assert(before.skip(i as int) =~= before.skip(i - 1).skip(1));
                assert(orig.skip(seen + 1) =~= orig.skip(seen).skip(1));
            }
        }
        proof {
            seen = seen + 1;
        }
    }
    proof {
        assert(records(list@).take(i as int) =~= records(list@));
        assert(orig.take(seen) =~= orig);
    }
}

/// Sets the state of every process with identifier `pid`.
fn set_state_in_list(list: &mut Vec<ProcessInfo>, pid: i32, state: ProcessState)
    ensures
        records(final(list)@) == with_state(records(old(list)@), pid, state),
{
    let ghost orig = records(list@);
    let mut i: usize = 0;
    while i < list.len()
        invariant
            i <= list.len(),
            list.len() == orig.len(),
            forall|k: int| 0 <= k < i ==> (#[trigger] list[k])@ == with_state(orig, pid, state)[k],
            forall|k: int| i <= k < list.len() ==> (#[trigger] list[k])@ == orig[k],
        decreases list.len() - i,
    {
        if list[i].pid == pid {
            list[i].state = state;
        }
        i = i + 1;
    }
    assert(records(list@) =~= with_state(orig, pid, state));
}

/// The live process a stored one stands for.
fn revive(stored: &PersistedProcess) -> (process: ProcessInfo)
    ensures
        process@ == revived(stored@),
{
    ProcessInfo {
        pid: stored.pid,
        name: stored.name.clone(),
        cmd: stored.cmd.clone(),
        start_time: stored.start_time,
        state: ProcessState::from_tag(stored.state.as_str()),
    }
}

/// The process list that `stored` gives rise to.
fn revive_list(stored: &Vec<PersistedProcess>) -> (list: Vec<ProcessInfo>)
    ensures
        records(list@) == restored(persisted_records(stored@)),
{
    let ghost all = persisted_records(stored@);
    let mut list: Vec<ProcessInfo> = Vec::new();
    let mut i: usize = 0;
    proof {
        assert(all.take(0) =~= Seq::empty());
        assert(records(list@) =~= restored(all.take(0)));
    }
    while i < stored.len()
        invariant
            i <= stored.len(),
            all == persisted_records(stored@),
            records(list@) == restored(all.take(i as int)),
        decreases stored.len() - i,
    {
        let process = revive(&stored[i]);
        add_to_list(&mut list, process);
        proof {
            assert(all.take(i + 1).drop_last() =~= all.take(i as int));
            assert(all.take(i + 1).last() == stored[i as int]@);
        }
        i = i + 1;
    }
    proof {
        assert(all.take(i as int) =~= all);
    }
    list
}

/// One sandbox and its processes.
struct SandboxEntry {
    sandbox_id: String,
    processes: Vec<ProcessInfo>,
}

/// Whether the entry at place `i` is that of `sandbox_id`.
spec fn entry_at(entries: Seq<SandboxEntry>, i: int, sandbox_id: Seq<char>) -> bool {
    0 <= i < entries.len() && entries[i].sandbox_id@ == sandbox_id
}

/// No sandbox has two entries, and no entry holds an identifier twice.
spec fn entries_wf(entries: Seq<SandboxEntry>) -> bool {
    &&& forall|i: int, j: int|
        0 <= i < j < entries.len() ==> (#[trigger] entries[i]).sandbox_id@ != (
        #[trigger] entries[j]).sandbox_id@
    &&& forall|i: int|
        0 <= i < entries.len() ==> distinct_pids(records((#[trigger] entries[i]).processes@))
}

/// The map that a list of entries stands for.
spec fn entries_map(entries: Seq<SandboxEntry>) -> RegistryView {
    Map::new(
        |id: Seq<char>| exists|i: int| entry_at(entries, i, id),
        |id: Seq<char>| records(entries[choose|i: int| entry_at(entries, i, id)].processes@),
    )
}

/// The entry at place `i` is what the map holds for its sandbox.
proof fn lemma_entry_lookup(entries: Seq<SandboxEntry>, i: int)
    requires
        entries_wf(entries),
        0 <= i < entries.len(),
    ensures
        entries_map(entries).dom().contains(entries[i].sandbox_id@),
        entries_map(entries)[entries[i].sandbox_id@] == records(entries[i].processes@),
{
    let id = entries[i].sandbox_id@;
    assert(entry_at(entries, i, id));
    let j = choose|j: int| entry_at(entries, j, id);
    if j < i {
        assert(entries[j].sandbox_id@ != entries[i].sandbox_id@);
    } else if i < j {
        assert(entries[i].sandbox_id@ != entries[j].sandbox_id@);
    }
}

/// A well-formed list of entries stands for a map without repeated identifiers.
proof fn lemma_entries_all_distinct(entries: Seq<SandboxEntry>)
    requires
        entries_wf(entries),
    ensures
        all_distinct(entries_map(entries)),
{
    let map = entries_map(entries);
    assert forall|id: Seq<char>| map.dom().contains(id) implies distinct_pids(
        #[trigger] map[id],
    ) by {
        let i = choose|i: int| entry_at(entries, i, id);
        lemma_entry_lookup(entries, i);
    }
}

/// Replacing the processes of the entry at place `i` replaces what the map
/// holds for its sandbox.
proof fn lemma_entry_replaced(before: Seq<SandboxEntry>, after: Seq<SandboxEntry>, i: int)
    requires
        entries_wf(before),
        0 <= i < before.len(),
        after.len() == before.len(),
        forall|k: int|
            0 <= k < before.len() ==> (#[trigger] after[k]).sandbox_id@ == before[k].sandbox_id@,
        forall|k: int|
            0 <= k < before.len() && k != i ==> records((#[trigger] after[k]).processes@)
                == records(before[k].processes@),
        distinct_pids(records(after[i].processes@)),
    ensures
        entries_wf(after),
        entries_map(after) == entries_map(before).insert(
            before[i].sandbox_id@,
            records(after[i].processes@),
        ),
{
    assert forall|a: int, b: int| 0 <= a < b < after.len() implies (#[trigger] after[a]).sandbox_id@
        != (#[trigger] after[b]).sandbox_id@ by {
        assert(before[a].sandbox_id@ != before[b].sandbox_id@);
    }
    assert forall|k: int| 0 <= k < after.len() implies distinct_pids(
        records((#[trigger] after[k]).processes@),
    ) by {
        if k != i {
            assert(distinct_pids(records(before[k].processes@)));
        }
    }
    let old_map = entries_map(before);
    let new_map = entries_map(after);
    let target = old_map.insert(before[i].sandbox_id@, records(after[i].processes@));
    assert forall|id: Seq<char>| new_map.dom().contains(id) <==> target.dom().contains(id) by {
        if new_map.dom().contains(id) {
            let k = choose|k: int| entry_at(after, k, id);
            assert(entry_at(before, k, id));
        }
        if target.dom().contains(id) {
            if id == before[i].sandbox_id@ {
                assert(entry_at(after, i, id));
            } else {
                let k = choose|k: int| entry_at(before, k, id);
                assert(entry_at(after, k, id));
            }
        }
    }
    assert forall|id: Seq<char>| new_map.dom().contains(id) implies new_map[id] == target[id] by {
        let k = choose|k: int| entry_at(after, k, id);
        lemma_entry_lookup(after, k);
        lemma_entry_lookup(before, k);
        if k != i {
            assert(before[k].sandbox_id@ != before[i].sandbox_id@);
        }
    }
    assert(new_map =~= target);
}

/// Appending an entry for a sandbox that has none adds it to the map.
proof fn lemma_entry_pushed(before: Seq<SandboxEntry>, entry: SandboxEntry)
    requires
        entries_wf(before),
        forall|k: int| !entry_at(before, k, entry.sandbox_id@),
        distinct_pids(records(entry.processes@)),
    ensures
        entries_wf(before.push(entry)),
        !entries_map(before).dom().contains(entry.sandbox_id@),
        entries_map(before.push(entry)) == entries_map(before).insert(
            entry.sandbox_id@,
            records(entry.processes@),
        ),
{
    let after = before.push(entry);
    assert forall|a: int, b: int| 0 <= a < b < after.len() implies (#[trigger] after[a]).sandbox_id@
        != (#[trigger] after[b]).sandbox_id@ by {
        assert(after[a] == before[a]);
        if b < before.len() {
            assert(after[b] == before[b]);
        } else {
            assert(!entry_at(before, a, entry.sandbox_id@));
        }
    }
    assert forall|k: int| 0 <= k < after.len() implies distinct_pids(
        records((#[trigger] after[k]).processes@),
    ) by {
        if k < before.len() {
            assert(after[k] == before[k]);
        }
    }
    let old_map = entries_map(before);
    let new_map = entries_map(after);
    let target = old_map.insert(entry.sandbox_id@, records(entry.processes@));
    assert forall|id: Seq<char>| new_map.dom().contains(id) <==> target.dom().contains(id) by {
        if new_map.dom().contains(id) {
            let k = choose|k: int| entry_at(after, k, id);
            if k < before.len() {
                assert(entry_at(before, k, id));
            }
        }
        if target.dom().contains(id) {
            if id == entry.sandbox_id@ {
                assert(entry_at(after, before.len() as int, id));
            } else {
                let k = choose|k: int| entry_at(before, k, id);
                assert(entry_at(after, k, id));
            }
        }
    }
    assert forall|id: Seq<char>| new_map.dom().contains(id) implies new_map[id] == target[id] by {
        let k = choose|k: int| entry_at(after, k, id);
        lemma_entry_lookup(after, k);
        if k < before.len() {
            assert(after[k] == before[k]);
            lemma_entry_lookup(before, k);
            assert(!entry_at(before, k, entry.sandbox_id@));
        }
    }
    assert(new_map =~= target);
}

/// Taking the entry at place `i` away takes its sandbox out of the map.
proof fn lemma_entry_removed(before: Seq<SandboxEntry>, i: int)
    requires
        entries_wf(before),
        0 <= i < before.len(),
    ensures
        entries_wf(before.remove(i)),
        entries_map(before.remove(i)) == entries_map(before).remove(before[i].sandbox_id@),
{
    let after = before.remove(i);
    let place = |k: int| if k < i { k } else { k + 1 };
    assert forall|k: int| 0 <= k < after.len() implies #[trigger] after[k] == before[place(k)] by {}
    assert forall|a: int, b: int| 0 <= a < b < after.len() implies (#[trigger] after[a]).sandbox_id@
        != (#[trigger] after[b]).sandbox_id@ by {
        assert(after[a] == before[place(a)] && after[b] == before[place(b)]);
        assert(before[place(a)].sandbox_id@ != before[place(b)].sandbox_id@);
    }
    assert forall|k: int| 0 <= k < after.len() implies distinct_pids(
        records((#[trigger] after[k]).processes@),
    ) by {
        assert(after[k] == before[place(k)]);
    }
    let old_map = entries_map(before);
    let new_map = entries_map(after);
    let gone = before[i].sandbox_id@;
    let target = old_map.remove(gone);
    assert forall|id: Seq<char>| new_map.dom().contains(id) <==> target.dom().contains(id) by {
        if new_map.dom().contains(id) {
            let k = choose|k: int| entry_at(after, k, id);
            assert(after[k] == before[place(k)]);
            assert(entry_at(before, place(k), id));
            if place(k) < i {
                assert(before[place(k)].sandbox_id@ != before[i].sandbox_id@);
            } else {
                assert(before[i].sandbox_id@ != before[place(k)].sandbox_id@);
            }
        }
        if target.dom().contains(id) {
            let k = choose|k: int| entry_at(before, k, id);
            if k < i {
                assert(after[k] == before[place(k)]);
                assert(entry_at(after, k, id));
            } else {
                assert(after[k - 1] == before[place(k - 1)]);
                assert(entry_at(after, k - 1, id));
            }
        }
    }
    assert forall|id: Seq<char>| new_map.dom().contains(id) implies new_map[id] == target[id] by {
        let k = choose|k: int| entry_at(after, k, id);
        lemma_entry_lookup(after, k);
        assert(after[k] == before[place(k)]);
        lemma_entry_lookup(before, place(k));
    }
    assert(new_map =~= target);
}

/// The registry: which processes each sandbox runs.
pub struct ProcessManager {
    entries: Vec<SandboxEntry>,
}

impl View for ProcessManager {
    type V = RegistryView;

    closed spec fn view(&self) -> RegistryView {
        entries_map(self.entries@)
    }
}

impl ProcessManager {
    #[verifier::type_invariant]
    spec fn well_formed(self) -> bool {
        entries_wf(self.entries@)
    }

    /// A registry without any sandbox.
    pub fn new() -> (manager: Self)
        ensures
            manager@ == Map::<Seq<char>, Seq<ProcessRecord>>::empty(),
    {
        let manager = ProcessManager { entries: Vec::new() };
        assert(manager@ =~= Map::empty());
        manager
    }

    /// The place of the entry of `sandbox_id`, if it has one.
    fn find_entry(&self, sandbox_id: &str) -> (found: Option<usize>)
        ensures
            match found {
                Some(i) => entry_at(self.entries@, i as int, sandbox_id@),
                None => forall|k: int| !entry_at(self.entries@, k, sandbox_id@),
            },
    {
        let mut i: usize = 0;
        while i < self.entries.len()
            invariant
                i <= self.entries.len(),
                forall|k: int| 0 <= k < i ==> !entry_at(self.entries@, k, sandbox_id@),
            decreases self.entries.len() - i,
        {
            if str_eq(self.entries[i].sandbox_id.as_str(), sandbox_id) {
                return Some(i);
            }
            i = i + 1;
        }
        None
    }

    /// A copy of the processes of `sandbox_id`, in the order in which they
    /// were added; empty for a sandbox that is not registered.
    pub fn list_processes(&self, sandbox_id: &str) -> (list: Vec<ProcessInfo>)
        ensures
            records(list@) == listed(self@, sandbox_id@),
            distinct_pids(records(list@)),
            all_distinct(self@),
    {
        proof {
            use_type_invariant(self);
            lemma_entries_all_distinct(self.entries@);
        }
        match self.find_entry(sandbox_id) {
            Some(i) => {
                proof {
                    lemma_entry_lookup(self.entries@, i as int);
                }
                clone_list(&self.entries[i].processes)
            },
            None => {
                let list: Vec<ProcessInfo> = Vec::new();
                assert(records(list@) =~= Seq::empty());
                list
            },
        }
    }

    /// Adds `process` to `sandbox_id`, registering the sandbox if need be.
    /// Where the sandbox already has a process with that identifier, nothing
    /// changes.
    pub fn add_process(&mut self, sandbox_id: &str, process: ProcessInfo)
        ensures
            final(self)@ == after_add(old(self)@, sandbox_id@, process@),
            all_distinct(final(self)@),
    {
        proof {
            use_type_invariant(&*self);
        }
        let ghost before = self.entries@;
        match self.find_entry(sandbox_id) {
            Some(i) => {
                proof {
                    lemma_entry_lookup(before, i as int);
                    lemma_with_added_distinct(records(before[i as int].processes@), process@);
                }
                let mut entries: Vec<SandboxEntry> = Vec::new();
                core::mem::swap(&mut self.entries, &mut entries);
                add_to_list(&mut entries[i].processes, process);
                proof {
                    lemma_entry_replaced(before, entries@, i as int);
                    lemma_entries_all_distinct(entries@);
                }
                self.entries = entries;
            },
            None => {
                let mut processes: Vec<ProcessInfo> = Vec::new();
                let ghost record = process@;
                processes.push(process);
                let entry = SandboxEntry { sandbox_id: sandbox_id.to_owned(), processes };
                proof {
                    assert(records(entry.processes@) =~= Seq::empty().push(record));
                    assert(!has_pid(Seq::<ProcessRecord>::empty(), record.pid));
                    lemma_entry_pushed(before, entry);
                    lemma_entries_all_distinct(before.push(entry));
                }
                let mut entries: Vec<SandboxEntry> = Vec::new();
                core::mem::swap(&mut self.entries, &mut entries);
                entries.push(entry);
                self.entries = entries;
            },
        }
    }

    /// Removes the process `pid` from `sandbox_id`. Nothing changes where
    /// the sandbox is not registered or has no such process.
    pub fn remove_process(&mut self, sandbox_id: &str, pid: i32)
        ensures
            final(self)@ == after_remove(old(self)@, sandbox_id@, pid),
            all_distinct(final(self)@),
    {
        proof {
            use_type_invariant(&*self);
            lemma_entries_all_distinct(self.entries@);
        }
        let ghost before = self.entries@;
        match self.find_entry(sandbox_id) {
            Some(i) => {
                proof {
                    lemma_entry_lookup(before, i as int);
                    lemma_without_pid_distinct(records(before[i as int].processes@), pid);
                }
                let mut entries: Vec<SandboxEntry> = Vec::new();
                core::mem::swap(&mut self.entries, &mut entries);
                remove_from_list(&mut entries[i].processes, pid);
                proof {
                    lemma_entry_replaced(before, entries@, i as int);
                    lemma_entries_all_distinct(entries@);
                }
                self.entries = entries;
            },
            None => {},
        }
    }

    /// Sets the state of the process `pid` of `sandbox_id`. Nothing changes
    /// where the sandbox is not registered or has no such process.
    pub fn update_process_state(&mut self, sandbox_id: &str, pid: i32, state: ProcessState)
        ensures
            final(self)@ == after_update(old(self)@, sandbox_id@, pid, state),
            all_distinct(final(self)@),
    {
        proof {
            use_type_invariant(&*self);
            lemma_entries_all_distinct(self.entries@);
        }
        let ghost before = self.entries@;
        match self.find_entry(sandbox_id) {
            Some(i) => {
                proof {
                    lemma_entry_lookup(before, i as int);
                    lemma_with_state_distinct(records(before[i as int].processes@), pid, state);
                }
                let mut entries: Vec<SandboxEntry> = Vec::new();
                core::mem::swap(&mut self.entries, &mut entries);
                set_state_in_list(&mut entries[i].processes, pid, state);
                proof {
                    lemma_entry_replaced(before, entries@, i as int);
                    lemma_entries_all_distinct(entries@);
                }
                self.entries = entries;
            },
            None => {},
        }
    }

    /// Replaces the processes of `sandbox_id` by those that `persisted`
    /// gives rise to, registering the sandbox if need be. Each stored state
    /// tag is read by [`ProcessState::of_tag`]; of several stored records
    /// with one identifier the first stays.
    pub fn restore_processes(&mut self, sandbox_id: &str, persisted: Vec<PersistedProcess>)
        ensures
            final(self)@ == old(self)@.insert(
                sandbox_id@,
                restored(persisted_records(persisted@)),
            ),
            all_distinct(final(self)@),
    {
        proof {
            use_type_invariant(&*self);
            lemma_restored_distinct(persisted_records(persisted@));
        }
        let ghost before = self.entries@;
        let processes = revive_list(&persisted);
        match self.find_entry(sandbox_id) {
            Some(i) => {
                let mut entries: Vec<SandboxEntry> = Vec::new();
                core::mem::swap(&mut self.entries, &mut entries);
                entries[i].processes = processes;
                proof {
                    lemma_entry_replaced(before, entries@, i as int);
                    lemma_entries_all_distinct(entries@);
                }
                self.entries = entries;
            },
            None => {
                let entry = SandboxEntry { sandbox_id: sandbox_id.to_owned(), processes };
                proof {
                    lemma_entry_pushed(before, entry);
                    lemma_entries_all_distinct(before.push(entry));
                }
                let mut entries: Vec<SandboxEntry> = Vec::new();
                core::mem::swap(&mut self.entries, &mut entries);
                entries.push(entry);
                self.entries = entries;
            },
        }
    }

    /// Forgets `sandbox_id` and its processes.
    pub fn clear_sandbox(&mut self, sandbox_id: &str)
        ensures
            final(self)@ == old(self)@.remove(sandbox_id@),
            all_distinct(final(self)@),
    {
        proof {
            use_type_invariant(&*self);
            lemma_entries_all_distinct(self.entries@);
        }
        let ghost before = self.entries@;
        match self.find_entry(sandbox_id) {
            Some(i) => {
                proof {
                    lemma_entry_removed(before, i as int);
                    lemma_entries_all_distinct(before.remove(i as int));
                }
                let mut entries: Vec<SandboxEntry> = Vec::new();
                core::mem::swap(&mut self.entries, &mut entries);
                entries.remove(i);
                self.entries = entries;
            },
            None => {
                assert(self@.remove(sandbox_id@) =~= self@);
            },
        }
    }
}

} // verus!
