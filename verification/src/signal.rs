//! Signals to the process groups of tracked processes.

use vstd::prelude::*;
use crate::process::{records, ProcessInfo, ProcessRecord};

verus! {

/// The two signals that stop a process group.
#[derive(Clone, Copy, Debug, PartialEq, Eq, Structural)]
pub enum SignalKind {
    /// Asks the group to end; it may finish its work first.
    Terminate,
    /// Ends the group at once.
    Kill,
}

/// One signal that was handed to the system, or could not be.
#[derive(Clone, Copy, Debug, PartialEq, Eq, Structural)]
pub struct SignalAttempt {
    /// The process the signal was meant for.
    pub pid: i32,
    /// The group that was signalled; `None` where the process has none that
    /// can be named.
    pub target: Option<i32>,
    pub kind: SignalKind,
    /// Whether the system took the signal.
    pub delivered: bool,
}

/// The group to signal for the process `pid`: its identifier negated. Two
/// identifiers give no target: the least `i32`, which has no negative, and
/// 0, whose negative names the group of the caller itself.
pub open spec fn group_target_of(pid: i32) -> Option<i32> {
    if pid == 0 || pid == i32::MIN {
        None
    } else {
        Some((-pid) as i32)
    }
}

/// Whether `attempt` is the attempt to send `kind` to the group of `process`.
pub open spec fn is_attempt_on(attempt: SignalAttempt, process: ProcessRecord, kind: SignalKind)
    -> bool {
    &&& attempt.pid == process.pid
    &&& attempt.target == group_target_of(process.pid)
    &&& attempt.kind == kind
    &&& attempt.target is None ==> !attempt.delivered
}

/// Whether `attempts` holds, in order, one attempt to send `kind` to the
/// group of each of `processes`.
pub open spec fn are_attempts_on(
    attempts: Seq<SignalAttempt>,
    processes: Seq<ProcessRecord>,
    kind: SignalKind,
) -> bool {
    &&& attempts.len() == processes.len()
    &&& forall|i: int|
        0 <= i < attempts.len() ==> is_attempt_on(#[trigger] attempts[i], processes[i], kind)
}

/// Names the group to signal for the process `pid`, if there is one.
pub fn group_target(pid: i32) -> (target: Option<i32>)
    ensures
        target == group_target_of(pid),
{
    if pid == 0 || pid == i32::MIN {
        None
    } else {
        Some(-pid)
    }
}

/// Sends a signal to a process group with `nix::sys::signal::killpg`:
/// `SIGTERM` for `Terminate`, `SIGKILL` for `Kill`. The result tells whether
/// the system took the signal; which of the two it does depends on the
/// system and on the processes that run, so nothing is claimed of it: nix
/// leaves what happens for a group number of 1 or less to the platform.
/// Group 0 is left out: it is the caller's own group, and the caller would
/// not outlive the call.
#[verifier::external_body]
fn send_group_signal(target: i32, kind: SignalKind) -> (delivered: bool)
    requires
        target != 0,
{
    let signal = match kind {
        SignalKind::Terminate => nix::sys::signal::Signal::SIGTERM,
        SignalKind::Kill => nix::sys::signal::Signal::SIGKILL,
    };
    nix::sys::signal::killpg(nix::unistd::Pid::from_raw(target), signal).is_ok()
}

/// Sends `kind` to the group of the process `pid`, if it has one that can
/// be named.
pub fn signal_process_group(pid: i32, kind: SignalKind) -> (attempt: SignalAttempt)
    ensures
        attempt.pid == pid,
        attempt.target == group_target_of(pid),
        attempt.kind == kind,
        attempt.target is None ==> !attempt.delivered,
{
    match group_target(pid) {
        Some(target) => {
            let delivered = send_group_signal(target, kind);
            SignalAttempt { pid, target: Some(target), kind, delivered }
        },
        None => SignalAttempt { pid, target: None, kind, delivered: false },
    }
}

/// Sends `kind` to the group of every process of `processes`, in order. A
/// signal that the system refuses does not stop the round: every group is
/// tried, and the attempts tell which signals were taken.
pub fn signal_process_groups(processes: &Vec<ProcessInfo>, kind: SignalKind) -> (attempts: Vec<
    SignalAttempt,
>)
    ensures
        are_attempts_on(attempts@, records(processes@), kind),
{
    let mut attempts: Vec<SignalAttempt> = Vec::new();
    let mut i: usize = 0;
    while i < processes.len()
        invariant
            i <= processes.len(),
            are_attempts_on(attempts@, records(processes@).take(i as int), kind),
        decreases processes.len() - i,
    {
        let attempt = signal_process_group(processes[i].pid, kind);
        attempts.push(attempt);
        i = i + 1;
    }
    assert(records(processes@).take(i as int) =~= records(processes@));
    attempts
}

/// How many of `attempts` the system did not take.
pub open spec fn refused_count(attempts: Seq<SignalAttempt>) -> nat {
    attempts.filter(|a: SignalAttempt| !a.delivered).len()
}

/// Counts the attempts that the system did not take.
pub fn count_refused(attempts: &Vec<SignalAttempt>) -> (refused: usize)
    ensures
        refused == refused_count(attempts@),
{
    let mut refused: usize = 0;
    let mut i: usize = 0;
    proof {
        reveal(Seq::filter);
        assert(attempts@.take(0) =~= Seq::empty());
    }
    while i < attempts.len()
        invariant
            i <= attempts.len(),
            refused == refused_count(attempts@.take(i as int)),
            refused <= i,
        decreases attempts.len() - i,
    {
        proof {
            assert(attempts@.take(i + 1) =~= attempts@.take(i as int).push(attempts@[i as int]));
            attempts@.take(i as int).lemma_filter_push(
                attempts@[i as int],
                |a: SignalAttempt| !a.delivered,
            );
        }
        if !attempts[i].delivered {
            refused = refused + 1;
        }
        i = i + 1;
    }
    assert(attempts@.take(i as int) =~= attempts@);
    refused
}

} // verus!
