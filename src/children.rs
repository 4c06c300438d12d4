//! Discovery of a process's direct children in a snapshot of the process table.

use vstd::prelude::*;

verus! {

#[verifier::external_type_specification]
#[verifier::external_body]
pub struct ExSystem(sysinfo::System);

/// One row of a process-table snapshot: a process and its recorded parent.
#[derive(Clone, Copy, Debug, PartialEq, Eq)]
pub struct ProcessEntry {
    pub pid: i32,
    pub parent: Option<i32>,
}

/// Row `e` records `parent` as its parent. A row that records its own id as
/// its parent names no child: a process is never its own child.
pub open spec fn is_child_of(e: ProcessEntry, parent: i32) -> bool {
    e.parent == Some(parent) && e.pid != parent
}

/// The ids of the rows of `table` whose recorded parent is `parent`, in table order.
pub open spec fn children_in(table: Seq<ProcessEntry>, parent: i32) -> Seq<i32>
    decreases table.len(),
{
    if table.len() == 0 {
        Seq::empty()
    } else {
        let rest = children_in(table.drop_last(), parent);
        if is_child_of(table.last(), parent) {
            rest.push(table.last().pid)
        } else {
            rest
        }
    }
}

/// No two rows of `table` name the same process, as in any process table.
pub open spec fn distinct_pids(table: Seq<ProcessEntry>) -> bool {
    forall|i: int, j: int|
        0 <= i < j < table.len() ==> #[trigger] table[i].pid != #[trigger] table[j].pid
}

/// A process id is among the children of `parent` exactly when some row of the
/// table records that id with `parent` as its parent.
pub proof fn lemma_children_membership(table: Seq<ProcessEntry>, parent: i32, p: i32)
    ensures
        children_in(table, parent).contains(p) <==> exists|i: int|
            0 <= i < table.len() && #[trigger] table[i].pid == p && is_child_of(table[i], parent),
    decreases table.len(),
{
    if table.len() > 0 {
        let init = table.drop_last();
        lemma_children_membership(init, parent, p);
        let rest = children_in(init, parent);
        if is_child_of(table.last(), parent) {
            assert(rest.push(table.last().pid).contains(p) <==> (rest.contains(p) || table.last().pid == p)) by {
                if rest.push(table.last().pid).contains(p) {
                    let k = choose|k: int| 0 <= k < rest.len() + 1 && rest.push(table.last().pid)[k] == p;
                    if k < rest.len() {
                        assert(rest[k] == p);
                    }
                }
                if rest.contains(p) {
                    let k = choose|k: int| 0 <= k < rest.len() && rest[k] == p;
                    assert(rest.push(table.last().pid)[k] == p);
                }
                if table.last().pid == p {
                    assert(rest.push(table.last().pid)[rest.len() as int] == p);
                }
            }
        }
        if exists|i: int| 0 <= i < table.len() && #[trigger] table[i].pid == p && is_child_of(table[i], parent) {
            let i = choose|i: int| 0 <= i < table.len() && #[trigger] table[i].pid == p && is_child_of(table[i], parent);
            if i < table.len() - 1 {
                assert(init[i].pid == p);
            }
        }
        if exists|i: int| 0 <= i < init.len() && #[trigger] init[i].pid == p && is_child_of(init[i], parent) {
            let i = choose|i: int| 0 <= i < init.len() && #[trigger] init[i].pid == p && is_child_of(init[i], parent);
            assert(table[i].pid == p);
        }
    }
}

/// In a table that names each process once, every child is found once.
pub proof fn lemma_children_distinct(table: Seq<ProcessEntry>, parent: i32)
    requires
        distinct_pids(table),
    ensures
        children_in(table, parent).no_duplicates(),
    decreases table.len(),
{
    if table.len() > 0 {
        let init = table.drop_last();
        assert(distinct_pids(init)) by {
            assert forall|i: int, j: int| 0 <= i < j < init.len() implies
                #[trigger] init[i].pid != #[trigger] init[j].pid by {
                assert(table[i].pid != table[j].pid);
            }
        }
        lemma_children_distinct(init, parent);
        let last = table.last();
        if is_child_of(last, parent) {
            lemma_children_membership(init, parent, last.pid);
            if children_in(init, parent).contains(last.pid) {
                let i = choose|i: int| 0 <= i < init.len() && #[trigger] init[i].pid == last.pid && is_child_of(init[i], parent);
                assert(table[i].pid != table[table.len() - 1].pid);
            }
        }
    }
}

/// Child discovery: in a table that names each process once, the process of
/// row `i` is discovered as a child of `target` exactly when its recorded parent
/// is `target` (and it is not `target` itself); a process whose recorded parent
/// differs is left out.
pub proof fn lemma_child_discovery(table: Seq<ProcessEntry>, target: i32, i: int)
    requires
        distinct_pids(table),
        0 <= i < table.len(),
    ensures
        children_in(table, target).contains(table[i].pid) <==> is_child_of(table[i], target),
{
    lemma_children_membership(table, target, table[i].pid);
    if children_in(table, target).contains(table[i].pid) {
        let j = choose|j: int|
            0 <= j < table.len() && #[trigger] table[j].pid == table[i].pid && is_child_of(table[j], target);
        if j != i {
            if i < j {
                assert(table[i].pid != table[j].pid);
            } else {
                assert(table[j].pid != table[i].pid);
            }
        }
    }
}

/// The processes of the snapshot held by `system`: each process id, mapped to
/// the id of its recorded parent, if any.
pub uninterp spec fn process_map(s: sysinfo::System) -> Map<i32, Option<i32>>;

/// Relies on sysinfo::System::processes, Process::parent and Pid::as_u32: one
/// row per process of the snapshot held by `system`, with its recorded parent.
/// The map is keyed by process id, so no id appears twice; the rows come in
/// the map's iteration order, which is unspecified.
#[verifier::external_body]
fn process_table(system: &sysinfo::System) -> (r: Vec<ProcessEntry>)
    ensures
        distinct_pids(r@),
        forall|i: int| 0 <= i < r@.len() ==>
            process_map(*system).contains_key(#[trigger] r@[i].pid) && process_map(*system)[r@[i].pid] == r@[i].parent,
        forall|p: i32| #[trigger] process_map(*system).contains_key(p) ==>
            exists|i: int| 0 <= i < r@.len() && #[trigger] r@[i].pid == p,
{
    system
        .processes()
        .iter()
        .map(|(pid, p)| ProcessEntry {
            pid: pid.as_u32() as i32,
            parent: p.parent().map(|q| q.as_u32() as i32),
        })
        .collect()
}

/// Relies on sysinfo::System::refresh_processes: reads the OS process table
/// again, dropping processes that have exited.
#[verifier::external_body]
pub(crate) fn refresh_table(system: &mut sysinfo::System) {
    system.refresh_processes(sysinfo::ProcessesToUpdate::All, true);
}

/// The direct children of `parent_pid` in `table`, in table order. A parent
/// that has no children, or does not exist, gives an empty result.
pub fn children_of(table: &Vec<ProcessEntry>, parent_pid: i32) -> (r: Vec<i32>)
    ensures
        r@ == children_in(table@, parent_pid),
{
    let mut r: Vec<i32> = Vec::new();
    for i in 0..table.len()
        invariant
            r@ == children_in(table@.take(i as int), parent_pid),
    {
        assert(table@.take(i + 1).drop_last() =~= table@.take(i as int));
        let e = table[i];
        if e.parent == Some(parent_pid) && e.pid != parent_pid {
            r.push(e.pid);
        }
    }
    assert(table@.take(table@.len() as int) =~= table@);
    r
}

/// `p` is a process of the snapshot, other than `parent`, whose recorded parent
/// is `parent`.
pub open spec fn is_child_in(snapshot: Map<i32, Option<i32>>, p: i32, parent: i32) -> bool {
    snapshot.contains_key(p) && snapshot[p] == Some(parent) && p != parent
}

/// The direct children of `parent_pid` in the snapshot held by `system`, each
/// once, in the snapshot's order. A parent that has no children, or does not
/// exist, gives an empty result.
pub fn get_child_pids(system: &sysinfo::System, parent_pid: i32) -> (r: Vec<i32>)
    ensures
        r@.no_duplicates(),
        forall|p: i32| #[trigger] r@.contains(p) <==> is_child_in(process_map(*system), p, parent_pid),
{
    let table = process_table(system);
    let r = children_of(&table, parent_pid);
    proof {
        lemma_children_distinct(table@, parent_pid);
        assert forall|p: i32| #[trigger] r@.contains(p) <==> is_child_in(process_map(*system), p, parent_pid) by {
            lemma_children_membership(table@, parent_pid, p);
            if process_map(*system).contains_key(p) {
                let i = choose|i: int| 0 <= i < table@.len() && #[trigger] table@[i].pid == p;
                assert(table@[i].pid == p);
            }
        }
    }
    r
}

} // verus!
