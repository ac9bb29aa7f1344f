//! CPU aggregation over one reading of the system process table.
use vstd::prelude::*;

verus! {

/// One row of the process table.
#[derive(Clone, Copy, Debug, PartialEq, Eq, Structural)]
pub struct ProcessSample {
    pub pid: u32,
    pub parent: Option<u32>,
    /// CPU usage in hundredths of a percent.
    pub cpu: u32,
}

/// The index of the first row of process `pid`.
pub open spec fn find_row(t: Seq<ProcessSample>, pid: u32) -> Option<int>
    decreases t.len(),
{
    if t.len() == 0 {
        None
    } else {
        match find_row(t.drop_last(), pid) {
            Some(i) => Some(i),
            None => if t.last().pid == pid {
                Some(t.len() - 1)
            } else {
                None
            },
        }
    }
}

/// The summed CPU of the rows whose immediate parent is `root`.
pub open spec fn children_cpu(t: Seq<ProcessSample>, root: u32) -> int
    decreases t.len(),
{
    if t.len() == 0 {
        0
    } else {
        children_cpu(t.drop_last(), root) + if t.last().parent == Some(root) {
            t.last().cpu as int
        } else {
            0
        }
    }
}

pub open spec fn saturate(v: int) -> u64 {
    if v > u64::MAX {
        u64::MAX
    } else {
        v as u64
    }
}

/// The aggregate CPU of `root`: its own usage plus that of its direct
/// children (not grandchildren), saturating at `u64::MAX`; `None` when `root`
/// is not in the table.
pub open spec fn aggregate_spec(t: Seq<ProcessSample>, root: u32) -> Option<u64> {
    match find_row(t, root) {
        Some(i) => Some(saturate(t[i].cpu + children_cpu(t, root))),
        None => None,
    }
}

proof fn lemma_find_row_bounds(t: Seq<ProcessSample>, pid: u32)
    ensures
        match find_row(t, pid) {
            Some(i) => 0 <= i < t.len() && t[i].pid == pid,
            None => forall|k: int| 0 <= k < t.len() ==> t[k].pid != pid,
        },
    decreases t.len(),
{
    if t.len() > 0 {
        lemma_find_row_bounds(t.drop_last(), pid);
        assert forall|k: int| 0 <= k < t.len() - 1 implies t[k] == t.drop_last()[k] by {}
    }
}

proof fn lemma_children_nonneg(t: Seq<ProcessSample>, root: u32)
    ensures
        children_cpu(t, root) >= 0,
    decreases t.len(),
{
    if t.len() > 0 {
        lemma_children_nonneg(t.drop_last(), root);
    }
}

/// Sums the CPU of `root` and of every process whose immediate parent is
/// `root`. `None` tells the caller that the worker was not in the table, which
/// is a liveness signal and not a reading of zero.
pub fn aggregate_cpu(table: &Vec<ProcessSample>, root: u32) -> (r: Option<u64>)
    ensures
        r == aggregate_spec(table@, root),
        r is None <==> forall|k: int| 0 <= k < table@.len() ==> table@[k].pid != root,
{
    let mut root_row: Option<usize> = None;
    let mut children: u64 = 0;
    let mut i: usize = 0;
    while i < table.len()
        invariant
            i <= table@.len(),
            match root_row {
                Some(k) => find_row(table@.subrange(0, i as int), root) == Some(k as int) && k
                    < i,
                None => find_row(table@.subrange(0, i as int), root) is None,
            },
            children == saturate(children_cpu(table@.subrange(0, i as int), root)),
        decreases table@.len() - i,
    {
        let row = table[i];
        proof {
            let pre = table@.subrange(0, i as int);
            let next = table@.subrange(0, i + 1);
            assert(next.drop_last() =~= pre);
            assert(next.last() == row);
            lemma_children_nonneg(pre, root);
        }
        if root_row.is_none() && row.pid == root {
            root_row = Some(i);
        }
        if row.parent == Some(root) {
            children = children.saturating_add(row.cpu as u64);
        }
        i = i + 1;
    }
    assert(table@.subrange(0, table@.len() as int) =~= table@);
    proof {
        lemma_find_row_bounds(table@, root);
        lemma_children_nonneg(table@, root);
    }
    match root_row {
        Some(k) => Some(children.saturating_add(table[k].cpu as u64)),
        None => None,
    }
}

} // verus!
