use delog::children::{children_of, ProcessEntry};
use delog::controller::{pause_process, resume_process, suspend_children};
use delog::signals::{signal_each, Delivery, SignalKind, SignalReport};
use nix::errno::Errno;

// Ids above the kernel's largest pid limit (2^22): no such process exists, so
// every signal here is refused with ESRCH and nothing real is touched.
const GONE: i32 = 2_000_000_000;

// The report of a stop sent to a process that does not exist.
fn stopped(pid: i32) -> SignalReport {
    signal_each(&vec![pid], SignalKind::Stop)[0]
}

#[test]
fn non_positive_ids_are_skipped() {
    let r = signal_each(&vec![0, -1, -5], SignalKind::Stop);
    assert_eq!(r.len(), 3);
    for (i, pid) in [0, -1, -5].iter().enumerate() {
        assert_eq!(r[i].pid(), *pid);
        assert_eq!(r[i].kind(), SignalKind::Stop);
        assert_eq!(r[i].outcome(), Delivery::Skipped);
    }
}

#[test]
fn missing_process_is_reported_failed() {
    let r = signal_each(&vec![GONE, GONE + 1], SignalKind::Resume);
    assert_eq!(r.len(), 2);
    assert_eq!(r[0].pid(), GONE);
    assert_eq!(r[0].outcome(), Delivery::Failed(Errno::ESRCH));
    assert_eq!(r[1].pid(), GONE + 1);
    assert_eq!(r[1].outcome(), Delivery::Failed(Errno::ESRCH));
}

#[test]
fn signalling_nothing_reports_nothing() {
    assert!(signal_each(&Vec::new(), SignalKind::Stop).is_empty());
}

#[test]
fn stopping_a_missing_target_is_fatal() {
    let mut system = sysinfo::System::new();
    match pause_process(&mut system, GONE) {
        Ok(_) => panic!("a missing process cannot be stopped"),
        Err(e) => {
            assert_eq!(e.pid, GONE);
            assert_eq!(e.kind, SignalKind::Stop);
            assert_eq!(e.errno, Errno::ESRCH);
        }
    }
}

#[test]
fn child_failures_do_not_stop_the_others() {
    let session = suspend_children(stopped(GONE), vec![0, GONE + 1, GONE + 2]);
    let stops = session.stop_outcomes();
    assert_eq!(stops.len(), 4);
    assert_eq!(stops[0], stopped(GONE));
    assert_eq!(stops[1].outcome(), Delivery::Skipped);
    assert_eq!(stops[2].outcome(), Delivery::Failed(Errno::ESRCH));
    assert_eq!(stops[3].pid(), GONE + 2);
    assert_eq!(stops[3].outcome(), Delivery::Failed(Errno::ESRCH));
}

#[test]
fn two_children_are_stopped_and_resumed_in_discovery_order() {
    let target = GONE;
    let table = vec![
        ProcessEntry { pid: GONE + 7, parent: Some(1) },
        ProcessEntry { pid: GONE + 2, parent: Some(target) },
        ProcessEntry { pid: GONE + 1, parent: Some(target) },
    ];
    let kids = children_of(&table, target);
    assert_eq!(kids, vec![GONE + 2, GONE + 1]);

    let session = suspend_children(stopped(target), kids);
    assert_eq!(session.target(), target);
    assert_eq!(session.children(), &vec![GONE + 2, GONE + 1]);
    let stop_order: Vec<i32> = session.stop_outcomes().iter().map(|r| r.pid()).collect();
    assert_eq!(stop_order, vec![target, GONE + 2, GONE + 1]);
    assert_eq!(session.resume_order(), vec![target, GONE + 2, GONE + 1]);

    let resumed = resume_process(session);
    let order: Vec<i32> = resumed.reports.iter().map(|r| r.pid()).collect();
    assert_eq!(order, vec![target, GONE + 2, GONE + 1]);
    assert_eq!(resumed.reports[0].outcome(), Delivery::Failed(Errno::ESRCH));
}

#[test]
fn failing_to_resume_the_target_is_fatal_but_children_are_tried() {
    let session = suspend_children(stopped(GONE), vec![GONE + 3]);
    let resumed = resume_process(session);
    let e = resumed.target.unwrap_err();
    assert_eq!(e.pid, GONE);
    assert_eq!(e.kind, SignalKind::Resume);
    assert_eq!(e.errno, Errno::ESRCH);
    assert_eq!(resumed.reports.len(), 2);
    assert_eq!(resumed.reports[1].pid(), GONE + 3);
    assert_eq!(resumed.reports[1].outcome(), Delivery::Failed(Errno::ESRCH));
}

#[test]
fn each_process_is_resumed_once() {
    let session = suspend_children(stopped(GONE), vec![GONE + 1, GONE + 2]);
    let order = session.resume_order();
    for pid in [GONE, GONE + 1, GONE + 2] {
        assert_eq!(order.iter().filter(|p| **p == pid).count(), 1);
    }
}

#[test]
fn reports_record_the_signal_sent() {
    let session = suspend_children(stopped(GONE), vec![GONE + 1, -3]);
    for r in session.stop_outcomes() {
        assert_eq!(r.kind(), SignalKind::Stop);
    }
    assert_eq!(session.stop_outcomes()[2].outcome(), Delivery::Skipped);
    let resumed = resume_process(session);
    assert_eq!(resumed.reports.len(), 3);
    for r in &resumed.reports {
        assert_eq!(r.kind(), SignalKind::Resume);
    }
    assert_eq!(resumed.reports[2].pid(), -3);
    assert_eq!(resumed.reports[2].outcome(), Delivery::Skipped);
}
