//! Turning a longest-common-subsequence table into an edit script.
//!
//! The walk starts at the table's far corner and works towards the origin,
//! so the operations come out last line first; a printer shows them in
//! reverse.  Every line of both inputs is accounted for exactly once, in
//! order, and a kept line is one that is equal in both inputs.

use crate::grid::Grid;
use crate::lcs::lcs_cell_ok;
use vstd::prelude::*;

verus! {

/// One step of an edit script turning the first line sequence into the
/// second.
#[derive(Clone, Copy, PartialEq, Eq, Structural, Debug)]
pub enum DiffOp {
    /// Line `i` of the first sequence equals line `j` of the second and is
    /// kept.
    Keep(usize, usize),
    /// Line `j` of the second sequence is added.
    Add(usize),
    /// Line `i` of the first sequence is removed.
    Remove(usize),
}

/// The first-sequence line indices the script touches, in script order.
pub open spec fn left_indices(s: Seq<DiffOp>) -> Seq<usize>
    decreases s.len(),
{
    if s.len() == 0 {
        Seq::empty()
    } else {
        let rest = left_indices(s.drop_last());
        match s.last() {
            DiffOp::Keep(i, _) => rest.push(i),
            DiffOp::Remove(i) => rest.push(i),
            DiffOp::Add(_) => rest,
        }
    }
}

/// The second-sequence line indices the script touches, in script order.
pub open spec fn right_indices(s: Seq<DiffOp>) -> Seq<usize>
    decreases s.len(),
{
    if s.len() == 0 {
        Seq::empty()
    } else {
        let rest = right_indices(s.drop_last());
        match s.last() {
            DiffOp::Keep(_, j) => rest.push(j),
            DiffOp::Add(j) => rest.push(j),
            DiffOp::Remove(_) => rest,
        }
    }
}

/// How many lines the script keeps.
pub open spec fn keep_count(s: Seq<DiffOp>) -> nat
    decreases s.len(),
{
    if s.len() == 0 {
        0
    } else {
        keep_count(s.drop_last()) + (if s.last() is Keep {
            1nat
        } else {
            0nat
        })
    }
}

/// Whether `op` speaks only of lines that exist, and keeps only equal ones.
pub open spec fn op_valid(op: DiffOp, a: Seq<String>, b: Seq<String>) -> bool {
    match op {
        DiffOp::Keep(i, j) => i < a.len() && j < b.len() && a[i as int]@ == b[j as int]@,
        DiffOp::Add(j) => j < b.len(),
        DiffOp::Remove(i) => i < a.len(),
    }
}

/// Walks the table `g` of `lines1` against `lines2` from its far corner to
/// the origin and reports the edit script it traces, last line first.  The
/// script covers every line of `lines1` and of `lines2` exactly once, in
/// descending order, and keeps only lines equal in both; ties in the table
/// break towards an addition.  `g` must satisfy the length table's
/// defining recurrence — it comes from [`crate::lcs::lcs`] — and then the
/// script keeps exactly as many lines as the table's far corner counts:
/// the kept lines form a longest common subsequence.
pub fn diff_ops(g: &Grid, lines1: &Vec<String>, lines2: &Vec<String>) -> (r: Vec<DiffOp>)
    requires
        g.wf(),
        g.spec_rows() == lines1@.len() + 1,
        g.spec_cols() == lines2@.len() + 1,
        forall|i: int, j: int|
            0 <= i <= lines1@.len() && 0 <= j <= lines2@.len() ==> lcs_cell_ok(
                *g,
                lines1@,
                lines2@,
                i,
                j,
            ),
        forall|i: int, j: int|
            0 <= i <= lines1@.len() && 0 <= j <= lines2@.len() ==> #[trigger] g.spec_at(i, j)
                <= i && g.spec_at(i, j) <= j,
    ensures
        keep_count(r@) == g.spec_at(lines1@.len() as int, lines2@.len() as int),
        left_indices(r@).len() == lines1@.len(),
        forall|k: int|
            0 <= k < lines1@.len() ==> left_indices(r@)[k] == lines1@.len() - 1 - k,
        right_indices(r@).len() == lines2@.len(),
        forall|k: int|
            0 <= k < lines2@.len() ==> right_indices(r@)[k] == lines2@.len() - 1 - k,
        forall|k: int| 0 <= k < r@.len() ==> op_valid(#[trigger] r@[k], lines1@, lines2@),
{
    let n1 = lines1.len();
    let n2 = lines2.len();
    let mut ops: Vec<DiffOp> = Vec::new();
    let mut i: usize = n1;
    let mut j: usize = n2;
    while i > 0 || j > 0
        invariant
            i <= n1,
            j <= n2,
            n1 == lines1@.len(),
            n2 == lines2@.len(),
            g.wf(),
            g.spec_rows() == n1 + 1,
            g.spec_cols() == n2 + 1,
            forall|i2: int, j2: int|
                0 <= i2 <= n1 && 0 <= j2 <= n2 ==> lcs_cell_ok(*g, lines1@, lines2@, i2, j2),
            forall|i2: int, j2: int|
                0 <= i2 <= n1 && 0 <= j2 <= n2 ==> #[trigger] g.spec_at(i2, j2) <= i2
                    && g.spec_at(i2, j2) <= j2,
            keep_count(ops@) + g.spec_at(i as int, j as int) == g.spec_at(n1 as int, n2 as int),
            left_indices(ops@).len() == n1 - i,
            forall|k: int| 0 <= k < n1 - i ==> left_indices(ops@)[k] == n1 - 1 - k,
            right_indices(ops@).len() == n2 - j,
            forall|k: int| 0 <= k < n2 - j ==> right_indices(ops@)[k] == n2 - 1 - k,
            forall|k: int| 0 <= k < ops@.len() ==> op_valid(#[trigger] ops@[k], lines1@, lines2@),
        decreases i + j,
    {
        let ghost i0 = i as int;
        let ghost j0 = j as int;
        let op: DiffOp;
        if i > 0 && j > 0 && lines1[i - 1] == lines2[j - 1] {
            op = DiffOp::Keep(i - 1, j - 1);
            i -= 1;
            j -= 1;
        } else if j > 0 && (i == 0 || {
            let left = match g.get(i, j - 1) {
                Some(v) => v,
                None => 0,
            };
            let up = match g.get(i - 1, j) {
                Some(v) => v,
                None => 0,
            };
            left > up
        }) {
            op = DiffOp::Add(j - 1);
            j -= 1;
        } else {
            op = DiffOp::Remove(i - 1);
            i -= 1;
        }
        proof {
            assert(ops@.push(op).drop_last() =~= ops@);
            assert(lcs_cell_ok(*g, lines1@, lines2@, i0, j0));
            if i0 >= 1 {
                assert(lcs_cell_ok(*g, lines1@, lines2@, i0 - 1, j0));
            }
            if j0 >= 1 {
                assert(lcs_cell_ok(*g, lines1@, lines2@, i0, j0 - 1));
            }
            match op {
                DiffOp::Keep(_, _) => {
                    assert(g.spec_at(i0 - 1, j0 - 1) + 1 <= usize::MAX);
                    assert(g.spec_at(i0, j0) == g.spec_at(i0 - 1, j0 - 1) + 1);
                },
                DiffOp::Add(_) => {
                    assert(g.spec_at(i0, j0) == g.spec_at(i0, j0 - 1));
                },
                DiffOp::Remove(_) => {
                    assert(g.spec_at(i0, j0) == g.spec_at(i0 - 1, j0));
                },
            }
        }
        ops.push(op);
    }
    ops
}

} // verus!
