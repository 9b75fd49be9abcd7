use crate::layout::NetError;
use vstd::prelude::*;

verus! {

/// Position of `weight[row][col]` in a matrix of `ncols` columns stored row by row.
pub open spec fn flat_index(row: int, col: int, ncols: int) -> int {
    row * ncols + col
}

/// Each in-range cell of a `rows x ncols` matrix stored row by row lands
/// inside the buffer of `rows * ncols` entries.
pub proof fn lemma_flat_index_in_range(row: int, col: int, rows: int, ncols: int)
    requires
        0 <= row < rows,
        0 <= col < ncols,
    ensures
        0 <= flat_index(row, col, ncols) < rows * ncols,
{
    assert(0 <= row * ncols) by (nonlinear_arith)
        requires 0 <= row, 0 <= col, col < ncols;
    assert(row * ncols + col < rows * ncols) by (nonlinear_arith)
        requires 0 <= row < rows, 0 <= col < ncols;
}

/// Two cells of a matrix stored row by row never share a buffer position.
pub proof fn lemma_flat_index_injective(r1: int, c1: int, r2: int, c2: int, ncols: int)
    requires
        0 <= r1,
        0 <= r2,
        0 <= c1 < ncols,
        0 <= c2 < ncols,
        flat_index(r1, c1, ncols) == flat_index(r2, c2, ncols),
    ensures
        r1 == r2,
        c1 == c2,
{
    if r1 < r2 {
        assert(r1 * ncols + c1 < r2 * ncols + c2) by (nonlinear_arith)
            requires r1 < r2, 0 <= c1 < ncols, 0 <= c2;
    } else if r2 < r1 {
        assert(r2 * ncols + c2 < r1 * ncols + c1) by (nonlinear_arith)
            requires r2 < r1, 0 <= c2 < ncols, 0 <= c1;
    }
}

/// Every position of the buffer of a `rows x ncols` matrix is the position
/// of exactly the cell `(k / ncols, k % ncols)`.
pub proof fn lemma_flat_index_onto(k: int, rows: int, ncols: int)
    requires
        0 < ncols,
        0 <= k < rows * ncols,
    ensures
        0 <= k / ncols < rows,
        0 <= k % ncols < ncols,
        flat_index(k / ncols, k % ncols, ncols) == k,
{
    vstd::arithmetic::div_mod::lemma_fundamental_div_mod(k, ncols);
    vstd::arithmetic::div_mod::lemma_div_pos_is_pos(k, ncols);
    vstd::arithmetic::div_mod::lemma_mod_bound(k, ncols);
    vstd::arithmetic::div_mod::lemma_div_by_multiple_is_strongly_ordered(k, rows * ncols, rows, ncols);
    assert(ncols * (k / ncols) == (k / ncols) * ncols) by (nonlinear_arith);
    assert((rows * ncols) / ncols == rows) by {
        vstd::arithmetic::div_mod::lemma_div_multiples_vanish(rows, ncols);
        assert(ncols * rows == rows * ncols) by (nonlinear_arith);
    }
}

/// A `rows x cols` matrix stored row by row in one buffer of exactly
/// `rows * cols` entries.
#[derive(Debug, Clone)]
pub struct Matrix<T> {
    rows: usize,
    cols: usize,
    data: Vec<T>,
}

impl<T> View for Matrix<T> {
    type V = Seq<Seq<T>>;

    /// The matrix as its sequence of rows.
    closed spec fn view(&self) -> Seq<Seq<T>> {
        Seq::new(
            self.rows as nat,
            |r: int| Seq::new(self.cols as nat, |c: int| self.data@[flat_index(r, c, self.cols as int)]),
        )
    }
}

impl<T: Copy> Matrix<T> {
    pub closed spec fn nrows(self) -> int {
        self.rows as int
    }

    pub closed spec fn ncols(self) -> int {
        self.cols as int
    }

    /// The buffer holds one entry per cell, no more.
    pub closed spec fn wf(self) -> bool {
        self.data.len() == self.rows * self.cols
    }

    /// Every row of the view has `ncols` entries.
    pub proof fn lemma_shape(self)
        ensures
            self@.len() == self.nrows(),
            forall|r: int| 0 <= r < self.nrows() ==> (#[trigger] self@[r]).len() == self.ncols(),
    {
    }

    /// A `rows x cols` matrix with `value` in every cell.
    pub fn filled(rows: usize, cols: usize, value: T) -> (m: Matrix<T>)
        requires
            rows * cols <= usize::MAX,
        ensures
            m.wf(),
            m.nrows() == rows,
            m.ncols() == cols,
            forall|r: int, c: int| 0 <= r < rows && 0 <= c < cols ==> #[trigger] m@[r][c] == value,
    {
        let len = rows * cols;
        let mut data: Vec<T> = Vec::new();
        while data.len() < len
            invariant
                data.len() <= len,
                forall|k: int| 0 <= k < data.len() ==> #[trigger] data@[k] == value,
            decreases len - data.len(),
        {
            data.push(value);
        }
        let m = Matrix { rows, cols, data };
        assert forall|r: int, c: int| 0 <= r < rows && 0 <= c < cols implies #[trigger] m@[r][c] == value by {
            lemma_flat_index_in_range(r, c, rows as int, cols as int);
        }
        m
    }

    /// The `rows x cols` matrix whose rows lie one after another in `data`;
    /// refused unless `data` has exactly `rows * cols` entries.
    pub fn from_flat(rows: usize, cols: usize, data: Vec<T>) -> (r: Result<Matrix<T>, NetError>)
        ensures
            r is Ok <==> data.len() == rows * cols,
            r is Err ==> r == Err::<Matrix<T>, NetError>(NetError::DimensionMismatch),
            r matches Ok(m) ==> m.wf() && m.nrows() == rows && m.ncols() == cols
                && forall|i: int, j: int| 0 <= i < rows && 0 <= j < cols
                    ==> #[trigger] m@[i][j] == data@[flat_index(i, j, cols as int)],
    {
        match rows.checked_mul(cols) {
            Some(len) => {
                if data.len() == len {
                    Ok(Matrix { rows, cols, data })
                } else {
                    Err(NetError::DimensionMismatch)
                }
            },
            None => Err(NetError::DimensionMismatch),
        }
    }

    /// Number of rows.
    pub fn rows(&self) -> (r: usize)
        ensures
            r == self.nrows(),
    {
        self.rows
    }

    /// Number of columns.
    pub fn cols(&self) -> (r: usize)
        ensures
            r == self.ncols(),
    {
        self.cols
    }

    /// The entry in row `r`, column `c`.
    pub fn get(&self, r: usize, c: usize) -> (v: T)
        requires
            self.wf(),
            r < self.nrows(),
            c < self.ncols(),
        ensures
            v == self@[r as int][c as int],
    {
        proof {
            lemma_flat_index_in_range(r as int, c as int, self.nrows(), self.ncols());
        }
        self.data[r * self.cols + c]
    }

    /// Writes `v` into row `r`, column `c`, and leaves every other cell as it was.
    pub fn set(&mut self, r: usize, c: usize, v: T)
        requires
            old(self).wf(),
            r < old(self).nrows(),
            c < old(self).ncols(),
        ensures
            final(self).wf(),
            final(self).nrows() == old(self).nrows(),
            final(self).ncols() == old(self).ncols(),
            final(self)@ == old(self)@.update(r as int, old(self)@[r as int].update(c as int, v)),
    {
        proof {
            lemma_flat_index_in_range(r as int, c as int, self.nrows(), self.ncols());
        }
        let ghost before = self@;
        let k = r * self.cols + c;
        self.data.set(k, v);
        let ghost after = self@;
        let ghost expected = before.update(r as int, before[r as int].update(c as int, v));
        assert forall|i: int| 0 <= i < after.len() implies #[trigger] after[i] =~= expected[i] by {
            assert forall|j: int| 0 <= j < after[i].len() implies #[trigger] after[i][j] == expected[i][j] by {
                lemma_flat_index_in_range(i, j, self.nrows(), self.ncols());
                if flat_index(i, j, self.ncols()) == k as int {
                    lemma_flat_index_injective(i, j, r as int, c as int, self.ncols());
                }
            }
        }
        assert(after =~= expected);
    }
}

} // verus!
