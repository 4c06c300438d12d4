//! Stop and continue signals, and the record of each attempt to send one.

use vstd::prelude::*;

verus! {

#[verifier::external_type_specification]
#[verifier::external_body]
pub struct ExErrno(nix::errno::Errno);

/// The two signals the controller sends: stop (SIGSTOP) and continue (SIGCONT).
#[derive(Clone, Copy, Debug, PartialEq, Eq, Structural)]
pub enum SignalKind {
    Stop,
    Resume,
}

/// What became of one attempt to signal a process.
#[derive(Clone, Copy, Debug, PartialEq, Eq)]
pub enum Delivery {
    /// The signal was delivered.
    Sent,
    /// The OS refused it (no such process, permission denied, ...).
    Failed(nix::errno::Errno),
    /// The id is not positive, so it names no single process; nothing was sent.
    Skipped,
}

/// The attempt to send one signal to one process. Only this module makes
/// reports, so a report that is not `Skipped` stands for a call to `kill`.
#[derive(Clone, Copy, Debug, PartialEq, Eq)]
pub struct SignalReport {
    pid: i32,
    kind: SignalKind,
    outcome: Delivery,
}

impl SignalReport {
    pub closed spec fn spec_pid(&self) -> i32 {
        self.pid
    }

    pub closed spec fn spec_kind(&self) -> SignalKind {
        self.kind
    }

    pub closed spec fn spec_outcome(&self) -> Delivery {
        self.outcome
    }

    /// The process signalled.
    #[verifier::when_used_as_spec(spec_pid)]
    pub fn pid(&self) -> (r: i32)
        ensures
            r == self.spec_pid(),
    {
        self.pid
    }

    /// The signal sent.
    #[verifier::when_used_as_spec(spec_kind)]
    pub fn kind(&self) -> (r: SignalKind)
        ensures
            r == self.spec_kind(),
    {
        self.kind
    }

    /// What became of it.
    #[verifier::when_used_as_spec(spec_outcome)]
    pub fn outcome(&self) -> (r: Delivery)
        ensures
            r == self.spec_outcome(),
    {
        self.outcome
    }
}

/// Relies on nix::sys::signal::kill: sends SIGSTOP or SIGCONT to the single
/// process `pid` (a positive id names exactly one process) and reports `Sent`
/// when kill returns `Ok`, `Failed` with its errno otherwise. Whether it
/// arrives depends on the OS.
#[verifier::external_body]
fn send_signal(pid: i32, kind: SignalKind) -> (r: SignalReport)
    requires
        pid > 0,
    ensures
        r.pid() == pid,
        r.kind() == kind,
        !(r.outcome() is Skipped),
{
    let signal = match kind {
        SignalKind::Stop => nix::sys::signal::Signal::SIGSTOP,
        SignalKind::Resume => nix::sys::signal::Signal::SIGCONT,
    };
    let outcome = match nix::sys::signal::kill(nix::unistd::Pid::from_raw(pid), signal) {
        Ok(()) => Delivery::Sent,
        Err(e) => Delivery::Failed(e),
    };
    SignalReport { pid, kind, outcome }
}

/// Sends `kind` to `pid` once, if `pid` names a single process.
pub fn deliver(pid: i32, kind: SignalKind) -> (r: SignalReport)
    ensures
        r.pid() == pid,
        r.kind() == kind,
        (r.outcome() is Skipped) <==> pid <= 0,
{
    if pid <= 0 {
        SignalReport { pid, kind, outcome: Delivery::Skipped }
    } else {
        send_signal(pid, kind)
    }
}

/// Sends `kind` to each of `pids` in turn, once each. A failure on one does not
/// stop the others.
pub fn signal_each(pids: &Vec<i32>, kind: SignalKind) -> (r: Vec<SignalReport>)
    ensures
        r@.len() == pids@.len(),
        forall|i: int| 0 <= i < pids@.len() ==> #[trigger] r@[i].pid() == pids@[i],
        forall|i: int| 0 <= i < pids@.len() ==> #[trigger] r@[i].kind() == kind,
        forall|i: int| 0 <= i < pids@.len() ==> ((#[trigger] r@[i].outcome() is Skipped) <==> pids@[i] <= 0),
{
    let mut r: Vec<SignalReport> = Vec::new();
    for i in 0..pids.len()
        invariant
            r@.len() == i,
            forall|j: int| 0 <= j < i ==> #[trigger] r@[j].pid() == pids@[j],
            forall|j: int| 0 <= j < i ==> #[trigger] r@[j].kind() == kind,
            forall|j: int| 0 <= j < i ==> ((#[trigger] r@[j].outcome() is Skipped) <==> pids@[j] <= 0),
    {
        r.push(deliver(pids[i], kind));
    }
    r
}

} // verus!
