//! The longest-common-subsequence length table of two line sequences,
//! computed by the classic dynamic program.  The contract states the
//! table's defining recurrence, which determines every cell.

use crate::grid::Grid;
use vstd::prelude::*;

verus! {

/// Length of the longest common subsequence of the line sequences `a`
/// and `b`, by the classic recurrence on their last elements.
pub open spec fn lcs_len(a: Seq<String>, b: Seq<String>) -> nat
    decreases a.len() + b.len(),
{
    if a.len() == 0 || b.len() == 0 {
        0
    } else if a.last()@ == b.last()@ {
        lcs_len(a.drop_last(), b.drop_last()) + 1
    } else {
        let keep_a = lcs_len(a, b.drop_last());
        let keep_b = lcs_len(a.drop_last(), b);
        if keep_a >= keep_b {
            keep_a
        } else {
            keep_b
        }
    }
}

/// The recurrence that defines cell `(i, j)` of the table for `a` against
/// `b`: row zero and column zero are zero; a cell whose two lines match
/// extends the diagonal by one; any other cell takes the larger of its
/// left and upper neighbours.
pub open spec fn lcs_cell_ok(g: Grid, a: Seq<String>, b: Seq<String>, i: int, j: int) -> bool {
    g.spec_at(i, j) == if i == 0 || j == 0 {
        0usize
    } else if a[i - 1]@ == b[j - 1]@ {
        (g.spec_at(i - 1, j - 1) + 1) as usize
    } else if g.spec_at(i, j - 1) >= g.spec_at(i - 1, j) {
        g.spec_at(i, j - 1)
    } else {
        g.spec_at(i - 1, j)
    }
}

/// Builds the `(len1 + 1)` by `(len2 + 1)` table whose cell `(i, j)` is
/// the length of the longest common subsequence of the first `i` lines of
/// `seq1` and the first `j` lines of `seq2`: every cell satisfies the
/// defining recurrence, and no cell exceeds its row or column index.
pub fn lcs(seq1: &Vec<String>, seq2: &Vec<String>) -> (g: Grid)
    requires
        (seq1@.len() + 1) * (seq2@.len() + 1) <= usize::MAX,
    ensures
        g.wf(),
        g.spec_rows() == seq1@.len() + 1,
        g.spec_cols() == seq2@.len() + 1,
        forall|i: int, j: int|
            0 <= i <= seq1@.len() && 0 <= j <= seq2@.len() ==> lcs_cell_ok(g, seq1@, seq2@, i, j),
        forall|i: int, j: int|
            0 <= i <= seq1@.len() && 0 <= j <= seq2@.len() ==> #[trigger] g.spec_at(i, j) <= i
                && g.spec_at(i, j) <= j,
        forall|i: int, j: int|
            0 <= i <= seq1@.len() && 0 <= j <= seq2@.len() ==> #[trigger] g.spec_at(i, j)
                == lcs_len(seq1@.take(i), seq2@.take(j)),
{
    let n1 = seq1.len();
    let n2 = seq2.len();
    proof {
        assert((n1 + 1) * 1 <= (n1 + 1) * (n2 + 1) && (n2 + 1) * 1 <= (n1 + 1) * (n2 + 1))
            by (nonlinear_arith)
            requires
                n1 >= 0,
                n2 >= 0,
        ;
    }
    let mut g = Grid::new(n1 + 1, n2 + 1);
    let mut i: usize = 0;
    while i < n1
        invariant
            i <= n1,
            n1 == seq1@.len(),
            n2 == seq2@.len(),
            g.wf(),
            g.spec_rows() == n1 + 1,
            g.spec_cols() == n2 + 1,
            forall|i2: int, j2: int|
                0 <= i2 <= n1 && 0 <= j2 <= n2 && (i2 == 0 || j2 == 0)
                    ==> #[trigger] g.spec_at(i2, j2) == 0,
            forall|i2: int, j2: int|
                1 <= i2 <= i && 1 <= j2 <= n2 ==> lcs_cell_ok(g, seq1@, seq2@, i2, j2),
            forall|i2: int, j2: int|
                0 <= i2 <= n1 && 0 <= j2 <= n2 ==> #[trigger] g.spec_at(i2, j2) <= i2
                    && g.spec_at(i2, j2) <= j2,
        decreases n1 - i,
    {
        let mut j: usize = 0;
        while j < n2
            invariant
                i < n1,
                j <= n2,
                n1 == seq1@.len(),
                n2 == seq2@.len(),
                g.wf(),
                g.spec_rows() == n1 + 1,
                g.spec_cols() == n2 + 1,
                forall|i2: int, j2: int|
                    0 <= i2 <= n1 && 0 <= j2 <= n2 && (i2 == 0 || j2 == 0)
                        ==> #[trigger] g.spec_at(i2, j2) == 0,
                forall|i2: int, j2: int|
                    1 <= i2 <= i && 1 <= j2 <= n2 ==> lcs_cell_ok(g, seq1@, seq2@, i2, j2),
                forall|i2: int, j2: int|
                    i2 == i + 1 && 1 <= j2 <= j ==> lcs_cell_ok(g, seq1@, seq2@, i2, j2),
                forall|i2: int, j2: int|
                    0 <= i2 <= n1 && 0 <= j2 <= n2 ==> #[trigger] g.spec_at(i2, j2) <= i2
                        && g.spec_at(i2, j2) <= j2,
            decreases n2 - j,
        {
            let ghost pre = g;
            if seq1[i] == seq2[j] {
                let d = match g.get(i, j) {
                    Some(v) => v,
                    None => 0,
                };
                let _ = g.set(i + 1, j + 1, d + 1);
            } else {
                let l = match g.get(i + 1, j) {
                    Some(v) => v,
                    None => 0,
                };
                let u = match g.get(i, j + 1) {
                    Some(v) => v,
                    None => 0,
                };
                let m = if l >= u {
                    l
                } else {
                    u
                };
                let _ = g.set(i + 1, j + 1, m);
            }
            proof {
                assert forall|i2: int, j2: int|
                    1 <= i2 <= i && 1 <= j2 <= n2 implies lcs_cell_ok(g, seq1@, seq2@, i2, j2) by {
                    assert(lcs_cell_ok(pre, seq1@, seq2@, i2, j2));
                    assert(g.spec_at(i2, j2) == pre.spec_at(i2, j2));
                    assert(g.spec_at(i2 - 1, j2) == pre.spec_at(i2 - 1, j2));
                    assert(g.spec_at(i2, j2 - 1) == pre.spec_at(i2, j2 - 1));
                    assert(g.spec_at(i2 - 1, j2 - 1) == pre.spec_at(i2 - 1, j2 - 1));
                }
                assert forall|i2: int, j2: int|
                    i2 == i + 1 && 1 <= j2 <= j + 1 implies lcs_cell_ok(
                    g,
                    seq1@,
                    seq2@,
                    i2,
                    j2,
                ) by {
                    if j2 <= j {
                        assert(lcs_cell_ok(pre, seq1@, seq2@, i + 1, j2));
                        assert(g.spec_at(i + 1, j2) == pre.spec_at(i + 1, j2));
                        assert(g.spec_at(i as int, j2) == pre.spec_at(i as int, j2));
                        assert(g.spec_at(i + 1, j2 - 1) == pre.spec_at(i + 1, j2 - 1));
                        assert(g.spec_at(i as int, j2 - 1) == pre.spec_at(i as int, j2 - 1));
                    } else {
                        assert(g.spec_at(i as int, j as int) == pre.spec_at(i as int, j as int));
                        assert(g.spec_at(i as int, j + 1) == pre.spec_at(i as int, j + 1));
                        assert(g.spec_at(i + 1, j as int) == pre.spec_at(i + 1, j as int));
                    }
                }
            }
            j += 1;
        }
        i += 1;
    }
    proof {
        assert forall|i2: int, j2: int|
            0 <= i2 <= seq1@.len() && 0 <= j2 <= seq2@.len() implies #[trigger] g.spec_at(i2, j2)
            == lcs_len(seq1@.take(i2), seq2@.take(j2)) by {
            lemma_lcs_cell_value(g, seq1@, seq2@, i2, j2);
        }
    }
    g
}

/// Every cell of a table that satisfies the recurrence holds the length
/// of the longest common subsequence of the corresponding prefixes: the
/// table is the function [`lcs_len`], cell by cell.
pub proof fn lemma_lcs_cell_value(g: Grid, a: Seq<String>, b: Seq<String>, i: int, j: int)
    requires
        forall|i2: int, j2: int|
            0 <= i2 <= a.len() && 0 <= j2 <= b.len() ==> lcs_cell_ok(g, a, b, i2, j2),
        forall|i2: int, j2: int|
            0 <= i2 <= a.len() && 0 <= j2 <= b.len() ==> #[trigger] g.spec_at(i2, j2) <= i2
                && g.spec_at(i2, j2) <= j2,
        a.len() <= usize::MAX,
        b.len() <= usize::MAX,
        0 <= i <= a.len(),
        0 <= j <= b.len(),
    ensures
        g.spec_at(i, j) == lcs_len(a.take(i), b.take(j)),
    decreases i + j,
{
    let ta = a.take(i);
    let tb = b.take(j);
    if i == 0 || j == 0 {
        assert(lcs_cell_ok(g, a, b, i, j));
        assert(ta.len() == 0 || tb.len() == 0);
    } else {
        assert(lcs_cell_ok(g, a, b, i, j));
        assert(ta.last() == a[i - 1]);
        assert(tb.last() == b[j - 1]);
        assert(ta.drop_last() =~= a.take(i - 1));
        assert(tb.drop_last() =~= b.take(j - 1));
        lemma_lcs_cell_value(g, a, b, i - 1, j - 1);
        lemma_lcs_cell_value(g, a, b, i, j - 1);
        lemma_lcs_cell_value(g, a, b, i - 1, j);
        if ta.last()@ == tb.last()@ {
            assert(g.spec_at(i - 1, j - 1) + 1 <= usize::MAX);
            assert(lcs_len(ta, tb) == lcs_len(ta.drop_last(), tb.drop_last()) + 1);
        } else {
            assert(lcs_len(ta, tb) == if lcs_len(ta, tb.drop_last()) >= lcs_len(
                ta.drop_last(),
                tb,
            ) {
                lcs_len(ta, tb.drop_last())
            } else {
                lcs_len(ta.drop_last(), tb)
            });
        }
    }
}

} // verus!
