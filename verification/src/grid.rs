//! A rectangular grid of counters, stored row-major, with checked access.

use vstd::prelude::*;

verus! {

/// A `rows` by `cols` grid of `usize` values.
pub struct Grid {
    rows: usize,
    cols: usize,
    cells: Vec<usize>,
}

impl Grid {
    /// Number of rows.
    pub closed spec fn spec_rows(&self) -> usize {
        self.rows
    }

    /// Number of columns.
    pub closed spec fn spec_cols(&self) -> usize {
        self.cols
    }

    /// The value stored at row `r`, column `c`.
    pub closed spec fn spec_at(&self, r: int, c: int) -> usize {
        self.cells@[r * self.cols + c]
    }

    /// Storage holds exactly one cell per position, and every position has
    /// an index that fits a machine word.
    pub closed spec fn wf(&self) -> bool {
        self.cells@.len() == self.rows * self.cols && self.rows * self.cols <= usize::MAX
    }

    proof fn lemma_cell_index(&self, r: int, c: int)
        requires
            self.wf(),
            0 <= r < self.rows,
            0 <= c < self.cols,
        ensures
            0 <= r * self.cols + c < self.cells@.len(),
            r * self.cols + c <= usize::MAX,
    {
        assert(r * self.cols + c < self.rows * self.cols) by (nonlinear_arith)
            requires
                0 <= r < self.rows as int,
                0 <= c < self.cols as int,
        ;
    }

    /// A `rows` by `cols` grid with every cell zero.
    pub fn new(rows: usize, cols: usize) -> (r: Grid)
        requires
            rows * cols <= usize::MAX,
        ensures
            r.wf(),
            r.spec_rows() == rows,
            r.spec_cols() == cols,
            forall|i: int, j: int|
                0 <= i < rows && 0 <= j < cols ==> r.spec_at(i, j) == 0,
    {
        let total = rows * cols;
        let mut cells: Vec<usize> = Vec::new();
        let mut k: usize = 0;
        while k < total
            invariant
                k <= total,
                cells@.len() == k,
                forall|t: int| 0 <= t < k ==> cells@[t] == 0,
            decreases total - k,
        {
            cells.push(0);
            k += 1;
        }
        let g = Grid { rows, cols, cells };
        proof {
            assert forall|i: int, j: int|
                0 <= i < rows && 0 <= j < cols implies g.spec_at(i, j) == 0 by {
                g.lemma_cell_index(i, j);
            }
        }
        g
    }

    /// The grid's dimensions, rows then columns.
    pub fn size(&self) -> (r: (usize, usize))
        ensures
            r.0 == self.spec_rows(),
            r.1 == self.spec_cols(),
    {
        (self.rows, self.cols)
    }

    /// The value at row `r`, column `c`, or nothing outside the grid.
    pub fn get(&self, r: usize, c: usize) -> (res: Option<usize>)
        requires
            self.wf(),
        ensures
            res == if r < self.spec_rows() && c < self.spec_cols() {
                Some(self.spec_at(r as int, c as int))
            } else {
                None::<usize>
            },
    {
        if r < self.rows && c < self.cols {
            proof {
                self.lemma_cell_index(r as int, c as int);
            }
            Some(self.cells[r * self.cols + c])
        } else {
            None
        }
    }

    /// Stores `val` at row `r`, column `c`; fails outside the grid, leaving
    /// every cell as it was.
    pub fn set(&mut self, r: usize, c: usize, val: usize) -> (res: Result<(), ()>)
        requires
            old(self).wf(),
        ensures
            final(self).wf(),
            final(self).spec_rows() == old(self).spec_rows(),
            final(self).spec_cols() == old(self).spec_cols(),
            res is Ok <==> r < old(self).spec_rows() && c < old(self).spec_cols(),
            res is Ok ==> final(self).spec_at(r as int, c as int) == val && forall|i: int, j: int|
                0 <= i < old(self).spec_rows() && 0 <= j < old(self).spec_cols() && !(i == r && j
                    == c) ==> final(self).spec_at(i, j) == old(self).spec_at(i, j),
            res is Err ==> *final(self) == *old(self),
    {
        if r < self.rows && c < self.cols {
            proof {
                self.lemma_cell_index(r as int, c as int);
            }
            self.cells.set(r * self.cols + c, val);
            proof {
                assert forall|i: int, j: int|
                    0 <= i < old(self).spec_rows() && 0 <= j < old(self).spec_cols() && !(i == r
                        && j == c) implies final(self).spec_at(i, j) == old(self).spec_at(
                    i,
                    j,
                ) by {
                    old(self).lemma_cell_index(i, j);
                    let ghost nr = old(self).spec_rows() as int;
                    let ghost nc = old(self).spec_cols() as int;
                    assert(i * nc + j != r * nc + c) by (nonlinear_arith)
                        requires
                            0 <= i < nr,
                            0 <= j < nc,
                            0 <= (r as int) < nr,
                            0 <= (c as int) < nc,
                            !(i == r as int && j == c as int),
                    ;
                }
            }
            Ok(())
        } else {
            Err(())
        }
    }
}

} // verus!
