//! Suspending and resuming a process together with its direct children.

use vstd::prelude::*;
use crate::children::{get_child_pids, is_child_in, process_map, refresh_table};
use crate::signals::{signal_each, Delivery, SignalKind, SignalReport};

verus! {

/// A signal could not be delivered to the target process itself: the run
/// cannot go on.
#[derive(Clone, Copy, Debug, PartialEq, Eq)]
pub struct SignalError {
    pub pid: i32,
    pub kind: SignalKind,
    pub errno: nix::errno::Errno,
}

/// The order in which a session's processes are signalled, to stop them and
/// to resume them: the target, then each captured child in discovery order.
pub open spec fn tree_order(target: i32, children: Seq<i32>) -> Seq<i32> {
    seq![target] + children
}

/// One pause: the target has been stopped, and `children` are the processes
/// found as its children just after, each sent a stop signal.
pub struct PauseSession {
    target: i32,
    children: Vec<i32>,
    stops: Vec<SignalReport>,
}

/// `reports` are one `kind` signal to each process of the tree of `target`
/// over `children`, in tree order; a child's report is `Skipped` exactly when
/// its id is not positive.
pub open spec fn tree_reports(reports: Seq<SignalReport>, target: i32, children: Seq<i32>, kind: SignalKind) -> bool {
    &&& reports.len() == children.len() + 1
    &&& forall|i: int| 0 <= i < reports.len() ==> #[trigger] reports[i].pid() == tree_order(target, children)[i]
    &&& forall|i: int| 0 <= i < reports.len() ==> #[trigger] reports[i].kind() == kind
    &&& forall|i: int| 1 <= i < reports.len() ==> ((#[trigger] reports[i].outcome() is Skipped) <==> children[i - 1] <= 0)
}

impl PauseSession {
    pub closed spec fn target_id(&self) -> i32 {
        self.target
    }

    pub closed spec fn captured(&self) -> Seq<i32> {
        self.children@
    }

    /// One report per stop signal, in the order sent: the target's, then each
    /// captured child's.
    pub closed spec fn stop_reports(&self) -> Seq<SignalReport> {
        self.stops@
    }

    /// The target is a single process, and the stop reports follow the tree
    /// order, one stop signal per process.
    pub open spec fn wf(&self) -> bool {
        &&& self.target_id() > 0
        &&& tree_reports(self.stop_reports(), self.target_id(), self.captured(), SignalKind::Stop)
    }

    /// The stopped target process.
    pub fn target(&self) -> (r: i32)
        ensures
            r == self.target_id(),
    {
        self.target
    }

    /// The children captured when the session began, in discovery order.
    pub fn children(&self) -> (r: &Vec<i32>)
        ensures
            r@ == self.captured(),
    {
        &self.children
    }

    /// What became of each stop signal: the target's first, then each child's.
    pub fn stop_outcomes(&self) -> (r: &Vec<SignalReport>)
        ensures
            r@ == self.stop_reports(),
    {
        &self.stops
    }

    /// The processes to resume, in order: the target, then the captured children.
    pub fn resume_order(&self) -> (r: Vec<i32>)
        ensures
            r@ == tree_order(self.target_id(), self.captured()),
    {
        let mut r: Vec<i32> = Vec::new();
        r.push(self.target);
        for i in 0..self.children.len()
            invariant
                r@ == tree_order(self.target, self.children@.take(i as int)),
        {
            r.push(self.children[i]);
            assert(tree_order(self.target, self.children@.take(i + 1))
                =~= tree_order(self.target, self.children@.take(i as int)).push(self.children@[i as int]));
        }
        assert(self.children@.take(self.children@.len() as int) =~= self.children@);
        r
    }
}

/// Stops each of `children` of a target whose own stop is `target_stop`, once
/// each and in order, a failure on one not keeping the others from being
/// stopped; opens the session that will resume them.
pub fn suspend_children(target_stop: SignalReport, children: Vec<i32>) -> (r: PauseSession)
    requires
        target_stop.pid() > 0,
        target_stop.kind() == SignalKind::Stop,
    ensures
        r.wf(),
        r.target_id() == target_stop.pid(),
        r.captured() == children@,
        r.stop_reports()[0] == target_stop,
        tree_reports(r.stop_reports(), target_stop.pid(), children@, SignalKind::Stop),
{
    let child_stops = signal_each(&children, SignalKind::Stop);
    let mut stops: Vec<SignalReport> = Vec::new();
    stops.push(target_stop);
    for i in 0..child_stops.len()
        invariant
            stops@.len() == i + 1,
            stops@[0] == target_stop,
            child_stops@.len() == children@.len(),
            forall|j: int| 1 <= j < stops@.len() ==> #[trigger] stops@[j] == child_stops@[j - 1],
    {
        stops.push(child_stops[i]);
    }
    let r = PauseSession { target: target_stop.pid(), children, stops };
    assert forall|i: int| 0 <= i < r.stops@.len() implies
        #[trigger] r.stops@[i].pid() == tree_order(r.target, r.children@)[i] && r.stops@[i].kind() == SignalKind::Stop by {
        if i > 0 {
            assert(r.stops@[i] == child_stops@[i - 1]);
        }
    }
    r
}

/// What a pause leads to once the target's stop has been attempted: if it was
/// delivered, the process table is read again and every process recorded
/// there with the target as its parent is stopped, once each; otherwise the
/// pause fails, with nothing read and no child signalled.
pub fn after_target_stop(system: &mut sysinfo::System, target_stop: SignalReport) -> (r: Result<PauseSession, SignalError>)
    requires
        target_stop.pid() > 0,
        target_stop.kind() == SignalKind::Stop,
        !(target_stop.outcome() is Skipped),
    ensures
        (r is Ok) <==> target_stop.outcome() == Delivery::Sent,
        match r {
            Ok(s) => {
                &&& s.wf()
                &&& s.target_id() == target_stop.pid()
                &&& s.stop_reports()[0] == target_stop
                &&& tree_reports(s.stop_reports(), target_stop.pid(), s.captured(), SignalKind::Stop)
                &&& s.captured().no_duplicates()
                &&& !s.captured().contains(target_stop.pid())
                &&& tree_order(target_stop.pid(), s.captured()).no_duplicates()
                &&& forall|p: i32| #[trigger] s.captured().contains(p)
                    <==> is_child_in(process_map(*final(system)), p, target_stop.pid())
            },
            Err(e) => {
                &&& e.pid == target_stop.pid()
                &&& e.kind == SignalKind::Stop
                &&& target_stop.outcome() == Delivery::Failed(e.errno)
                &&& *final(system) == *old(system)
            },
        },
{
    let pid = target_stop.pid();
    match target_stop.outcome() {
        Delivery::Failed(errno) => Err(SignalError { pid, kind: SignalKind::Stop, errno }),
        _ => {
            refresh_table(system);
            let children = get_child_pids(system, pid);
            proof {
                lemma_signalled_once(process_map(*system), pid, children@);
            }
            Ok(suspend_children(target_stop, children))
        },
    }
}

/// Freezes `pid` and its direct children: sends `pid` a stop signal first,
/// then, if it was delivered, reads the process table again and stops every
/// process recorded there with `pid` as its parent, once each. Failing to stop
/// `pid` itself is fatal; a child that cannot be stopped is reported in the
/// session and the others are still stopped.
pub fn pause_process(system: &mut sysinfo::System, pid: i32) -> (r: Result<PauseSession, SignalError>)
    requires
        pid > 0,
    ensures
        match r {
            Ok(s) => {
                &&& s.wf()
                &&& s.target_id() == pid
                &&& s.stop_reports()[0].outcome() == Delivery::Sent
                &&& tree_reports(s.stop_reports(), pid, s.captured(), SignalKind::Stop)
                &&& s.captured().no_duplicates()
                &&& !s.captured().contains(pid)
                &&& tree_order(pid, s.captured()).no_duplicates()
                &&& forall|p: i32| #[trigger] s.captured().contains(p) <==> is_child_in(process_map(*final(system)), p, pid)
            },
            Err(e) => {
                &&& e.pid == pid
                &&& e.kind == SignalKind::Stop
                &&& *final(system) == *old(system)
            },
        },
{
    let target_stop = crate::signals::deliver(pid, SignalKind::Stop);
    after_target_stop(system, target_stop)
}

/// The outcome of resuming a session.
pub struct Resumed {
    /// Whether the target itself was resumed; failing that is fatal.
    pub target: Result<(), SignalError>,
    /// One report per process, in the order signalled: the target, then each
    /// captured child.
    pub reports: Vec<SignalReport>,
}

/// Ends a session: sends a continue signal to the target, then to every
/// captured child in discovery order, once each. A failure on one process does
/// not stop the attempts on the rest; only a failure on the target is an error.
pub fn resume_process(session: PauseSession) -> (r: Resumed)
    requires
        session.wf(),
    ensures
        tree_reports(r.reports@, session.target_id(), session.captured(), SignalKind::Resume),
        (r.target is Ok) <==> r.reports@[0].outcome() == Delivery::Sent,
        match r.target {
            Ok(()) => true,
            Err(e) => {
                &&& e.pid == session.target_id()
                &&& e.kind == SignalKind::Resume
                &&& r.reports@[0].outcome() == Delivery::Failed(e.errno)
            },
        },
{
    let order = session.resume_order();
    let reports = signal_each(&order, SignalKind::Resume);
    let first = reports[0];
    let target = match first.outcome() {
        Delivery::Failed(errno) => Err(SignalError { pid: session.target, kind: SignalKind::Resume, errno }),
        _ => Ok(()),
    };
    assert forall|i: int| 1 <= i < reports@.len() implies
        ((#[trigger] reports@[i].outcome() is Skipped) <==> session.captured()[i - 1] <= 0) by {
        assert(order@[i] == session.captured()[i - 1]);
    }
    Resumed { target, reports }
}

/// Each process is signalled exactly once per pause, to stop and to resume:
/// when the captured children are, each once, exactly the children of `target`
/// in the snapshot, the tree order holds no id twice, and holds exactly the
/// target and its children.
pub proof fn lemma_signalled_once(snapshot: Map<i32, Option<i32>>, target: i32, children: Seq<i32>)
    requires
        children.no_duplicates(),
        forall|p: i32| #[trigger] children.contains(p) <==> is_child_in(snapshot, p, target),
    ensures
        tree_order(target, children).no_duplicates(),
        forall|p: i32| #[trigger] tree_order(target, children).contains(p) <==> (p == target || is_child_in(snapshot, p, target)),
{
    let order = tree_order(target, children);
    assert forall|p: i32| #[trigger] order.contains(p) <==> (p == target || children.contains(p)) by {
        if order.contains(p) {
            let k = choose|k: int| 0 <= k < order.len() && order[k] == p;
            if k > 0 {
                assert(children[k - 1] == p);
            }
        }
        if children.contains(p) {
            let k = choose|k: int| 0 <= k < children.len() && children[k] == p;
            assert(order[k + 1] == p);
        }
        if p == target {
            assert(order[0] == p);
        }
    }
    assert forall|i: int, j: int| 0 <= i < order.len() && 0 <= j < order.len() && i != j implies order[i] != order[j] by {
        if i > 0 && j > 0 {
            assert(children[i - 1] != children[j - 1]);
        } else if i == 0 {
            assert(children.contains(order[j]));
        } else {
            assert(children.contains(order[i]));
        }
    }
}

} // verus!
