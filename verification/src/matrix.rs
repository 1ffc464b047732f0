//! The two-dimensional container: a row count, a column count, and a
//! `Vector` of length `rows * cols` holding the elements in row-major order
//! (element `(r, c)` at flat index `r * cols + c`).  Element-wise operators
//! check both dimensions and fail with `DimensionMismatch`; the matrix
//! product checks the standard precondition `lhs.cols == rhs.rows`;
//! `reshape` keeps the buffer and fails with `ShapeMismatch` when the
//! element count would change; `trace` fails with `NotSquare` off square
//! shapes.  Every operator allocates a new container; only `set`,
//! `transpose` and `reshape` mutate in place.

use crate::common::{tdiv, MathError, Number, SignedNumber};
use crate::vector::Vector;
use vstd::prelude::*;

verus! {

/// The entry of the identity matrix at row `i`, column `j`.
pub open spec fn ident_val(i: int, j: int) -> int {
    if i == j {
        1
    } else {
        0
    }
}

/// The sum of the first `k` terms of the dot product of row `n` of a
/// row-major matrix `a` (with `acols` columns) and column `m` of a
/// row-major matrix `b` (with `bcols` columns), accumulated left to right.
pub open spec fn prod_sum(
    a: Seq<int>,
    acols: int,
    b: Seq<int>,
    bcols: int,
    n: int,
    m: int,
    k: int,
) -> int
    decreases k,
{
    if k <= 0 {
        0
    } else {
        prod_sum(a, acols, b, bcols, n, m, k - 1) + a[n * acols + (k - 1)] * b[(k - 1) * bcols + m]
    }
}

/// As `prod_sum`, but each term is the truncating quotient
/// `a[n, k] / b[k, m]` instead of the product.
pub open spec fn quot_sum(
    a: Seq<int>,
    acols: int,
    b: Seq<int>,
    bcols: int,
    n: int,
    m: int,
    k: int,
) -> int
    decreases k,
{
    if k <= 0 {
        0
    } else {
        quot_sum(a, acols, b, bcols, n, m, k - 1) + tdiv(
            a[n * acols + (k - 1)],
            b[(k - 1) * bcols + m],
        )
    }
}

/// The sum of the first `k` diagonal entries of a row-major matrix.
pub open spec fn diag_sum(a: Seq<int>, cols: int, k: int) -> int
    decreases k,
{
    if k <= 0 {
        0
    } else {
        diag_sum(a, cols, k - 1) + a[(k - 1) * cols + (k - 1)]
    }
}

/// Row `i` of a row-major matrix folded against a vector with `*`:
/// the sum of the first `k` products `a[i, n] * v[n]`.
pub open spec fn row_mul_sum(a: Seq<int>, cols: int, v: Seq<int>, i: int, k: int) -> int
    decreases k,
{
    if k <= 0 {
        0
    } else {
        row_mul_sum(a, cols, v, i, k - 1) + a[i * cols + (k - 1)] * v[k - 1]
    }
}

/// Row `i` of a row-major matrix folded against a vector with `+`:
/// the sum of the first `k` terms `a[i, n] + v[n]`.
pub open spec fn row_add_sum(a: Seq<int>, cols: int, v: Seq<int>, i: int, k: int) -> int
    decreases k,
{
    if k <= 0 {
        0
    } else {
        row_add_sum(a, cols, v, i, k - 1) + a[i * cols + (k - 1)] + v[k - 1]
    }
}

/// Row `i` of a row-major matrix folded against a vector with `-`:
/// the sum of the first `k` terms `a[i, n] - v[n]`.
pub open spec fn row_sub_sum(a: Seq<int>, cols: int, v: Seq<int>, i: int, k: int) -> int
    decreases k,
{
    if k <= 0 {
        0
    } else {
        row_sub_sum(a, cols, v, i, k - 1) + a[i * cols + (k - 1)] - v[k - 1]
    }
}

/// Row `i` of a row-major matrix folded against a vector with `/`:
/// the sum of the first `k` truncating quotients `a[i, n] / v[n]`.
pub open spec fn row_div_sum(a: Seq<int>, cols: int, v: Seq<int>, i: int, k: int) -> int
    decreases k,
{
    if k <= 0 {
        0
    } else {
        row_div_sum(a, cols, v, i, k - 1) + tdiv(a[i * cols + (k - 1)], v[k - 1])
    }
}

/// A row-major flat index lies inside the buffer.
pub proof fn lemma_flat_index_bound(r: int, c: int, rows: int, cols: int)
    by (nonlinear_arith)
    requires
        0 <= r < rows,
        0 <= c < cols,
    ensures
        0 <= r * cols + c < rows * cols,
{
}

/// Row-major order: a pair strictly before `(n, m)` has a strictly
/// smaller flat index.
pub proof fn lemma_row_major_order(i: int, j: int, n: int, m: int, cols: int)
    by (nonlinear_arith)
    requires
        0 <= i,
        0 <= j < cols,
        0 <= m,
        i < n || (i == n && j < m),
    ensures
        i * cols + j < n * cols + m,
{
}

pub struct Matrix<T: Number> {
    pub rows: usize,
    pub cols: usize,
    pub content: Vector<T>,
}

impl<T: Number> Matrix<T> {
    /// Well-formedness: the backing vector holds exactly `rows * cols`
    /// elements.  Constructors establish it and every operation keeps it.
    pub open spec fn wf(self) -> bool {
        self.content@.len() == self.rows * self.cols
    }

    /// The mathematical value of the entry at row `r`, column `c`.
    pub open spec fn at(self, r: int, c: int) -> int {
        self.content@[r * self.cols + c]
    }

    /// Structural equality: equal row count, equal column count, and equal
    /// backing content.
    pub open spec fn eq_spec(self, rhs: Matrix<T>) -> bool {
        self.rows == rhs.rows && self.cols == rhs.cols && self.content@ == rhs.content@
    }

    /// A matrix of shape `rows` by `cols` filled with `default`.
    pub fn new(rows: usize, cols: usize, default: T) -> (m: Matrix<T>)
        requires
            rows * cols <= usize::MAX,
        ensures
            m.wf(),
            m.rows == rows,
            m.cols == cols,
            forall|i: int| 0 <= i < rows * cols ==> m.content@[i] == default.v(),
            forall|i: int, j: int| 0 <= i < rows && 0 <= j < cols ==> m.at(i, j) == default.v(),
    {
        let m = Matrix { rows, cols, content: Vector::new(rows * cols, default) };
        proof {
            assert forall|i: int, j: int| 0 <= i < rows && 0 <= j < cols implies m.at(i, j)
                == default.v() by {
                lemma_flat_index_bound(i, j, rows as int, cols as int);
            }
        }
        m
    }

    /// The entry at row `r`, column `c`, or `IndexOutOfRange` when either
    /// index is past its dimension.
    pub fn get(&self, r: usize, c: usize) -> (res: Result<T, MathError>)
        requires
            self.wf(),
        ensures
            match res {
                Ok(x) => r < self.rows && c < self.cols && x.v() == self.at(r as int, c as int),
                Err(e) => (r >= self.rows || c >= self.cols) && e == MathError::IndexOutOfRange,
            },
    {
        if r < self.rows && c < self.cols {
            // the call's length bound shows the flat index fits in usize
            let _len = self.content.len();
            proof {
                lemma_flat_index_bound(r as int, c as int, self.rows as int, self.cols as int);
            }
            match self.content.get(r * self.cols + c) {
                Ok(x) => Ok(x),
                Err(_) => {
                    assert(false);
                    Err(MathError::IndexOutOfRange)
                },
            }
        } else {
            Err(MathError::IndexOutOfRange)
        }
    }

    /// Replaces the entry at row `r`, column `c`, or fails with
    /// `IndexOutOfRange` when either index is past its dimension, leaving
    /// the matrix unchanged.
    pub fn set(&mut self, r: usize, c: usize, a: T) -> (res: Result<(), MathError>)
        requires
            old(self).wf(),
        ensures
            final(self).rows == old(self).rows,
            final(self).cols == old(self).cols,
            final(self).wf(),
            match res {
                Ok(()) => r < old(self).rows && c < old(self).cols
                    && final(self).content@ == old(self).content@.update(
                    r * old(self).cols + c,
                    a.v(),
                ),
                Err(e) => (r >= old(self).rows || c >= old(self).cols) && e
                    == MathError::IndexOutOfRange && final(self).content@ == old(self).content@,
            },
    {
        if r < self.rows && c < self.cols {
            // the call's length bound shows the flat index fits in usize
            let _len = self.content.len();
            proof {
                lemma_flat_index_bound(r as int, c as int, self.rows as int, self.cols as int);
            }
            match self.content.set(r * self.cols + c, a) {
                Ok(()) => Ok(()),
                Err(_) => {
                    assert(false);
                    Err(MathError::IndexOutOfRange)
                },
            }
        } else {
            Err(MathError::IndexOutOfRange)
        }
    }

    /// The column count.
    pub fn get_cols(&self) -> (c: usize)
        ensures
            c == self.cols,
    {
        self.cols
    }

    /// The row count.
    pub fn get_rows(&self) -> (r: usize)
        ensures
            r == self.rows,
    {
        self.rows
    }

    /// A copy of the backing storage, in row-major order.
    pub fn get_vector(&self) -> (v: Vec<T>)
        ensures
            v@.len() == self.content@.len(),
            forall|i: int| 0 <= i < v@.len() ==> v@[i].v() == self.content@[i],
    {
        let mut out: Vec<T> = Vec::new();
        let mut n: usize = 0;
        while n < self.content.content.len()
            invariant
                n <= self.content@.len(),
                out@.len() == n,
                forall|i: int| 0 <= i < n ==> out@[i].v() == self.content@[i],
            decreases self.content@.len() - n,
        {
            assert(self.content@[n as int] == self.content.content@[n as int].v());
            out.push(self.content.content[n]);
            n += 1;
        }
        out
    }

    /// A copy of this matrix.
    pub fn clone(&self) -> (m: Matrix<T>)
        ensures
            m.eq_spec(*self),
    {
        Matrix { rows: self.rows, cols: self.cols, content: self.content.clone() }
    }

    /// Structural equality: equal shape and equal content.
    pub fn equals(&self, rhs: &Matrix<T>) -> (r: bool)
        ensures
            r <==> self.eq_spec(*rhs),
    {
        self.rows == rhs.rows && self.cols == rhs.cols && self.content.equals(&rhs.content)
    }

    /// Changes the shape in place without touching the storage: the
    /// row-major buffer is reinterpreted under the new shape.  Fails with
    /// `ShapeMismatch` when `rows * cols` differs from the current element
    /// count, leaving the matrix unchanged.
    pub fn reshape(&mut self, rows: usize, cols: usize) -> (res: Result<(), MathError>)
        requires
            old(self).wf(),
        ensures
            final(self).content@ == old(self).content@,
            final(self).wf(),
            match res {
                Ok(()) => rows * cols == old(self).rows * old(self).cols && final(self).rows == rows
                    && final(self).cols == cols,
                Err(e) => rows * cols != old(self).rows * old(self).cols && e
                    == MathError::ShapeMismatch && final(self).rows == old(self).rows
                    && final(self).cols == old(self).cols,
            },
    {
        let n = self.content.len();
        match rows.checked_mul(cols) {
            Some(p) => {
                if p == n {
                    self.rows = rows;
                    self.cols = cols;
                    Ok(())
                } else {
                    Err(MathError::ShapeMismatch)
                }
            },
            None => {
                assert(rows * cols > usize::MAX >= old(self).rows * old(self).cols);
                Err(MathError::ShapeMismatch)
            },
        }
    }

    /// Element-wise sum: requires equal shapes (row count and column
    /// count), else `DimensionMismatch`; entry `(i, j)` of the result is
    /// `self[i, j] + rhs[i, j]`.
    pub fn add(&self, rhs: &Matrix<T>) -> (r: Result<Matrix<T>, MathError>)
        requires
            self.wf(),
            rhs.wf(),
            (self.rows == rhs.rows && self.cols == rhs.cols) ==> forall|i: int|
                0 <= i < self.content@.len() ==> T::in_range(self.content@[i] + rhs.content@[i]),
        ensures
            match r {
                Ok(s) => self.rows == rhs.rows && self.cols == rhs.cols && s.wf() && s.rows
                    == self.rows && s.cols == self.cols && (forall|i: int|
                    0 <= i < s.content@.len() ==> s.content@[i] == self.content@[i]
                        + rhs.content@[i]) && (forall|i: int, j: int|
                    0 <= i < s.rows && 0 <= j < s.cols ==> #[trigger] s.at(i, j) == self.at(i, j)
                        + rhs.at(i, j)),
                Err(e) => !(self.rows == rhs.rows && self.cols == rhs.cols) && e
                    == MathError::DimensionMismatch,
            },
    {
        if self.rows == rhs.rows && self.cols == rhs.cols {
            match self.content.add(&rhs.content) {
                Ok(v) => {
                    let s = Matrix { rows: self.rows, cols: self.cols, content: v };
                    proof {
                        assert forall|i: int, j: int|
                            0 <= i < s.rows && 0 <= j < s.cols implies #[trigger] s.at(i, j)
                            == self.at(i, j) + rhs.at(i, j) by {
                            lemma_flat_index_bound(i, j, s.rows as int, s.cols as int);
                        }
                    }
                    Ok(s)
                },
                Err(_) => {
                    assert(false);
                    Err(MathError::DimensionMismatch)
                },
            }
        } else {
            Err(MathError::DimensionMismatch)
        }
    }

    /// Element-wise difference: requires equal shapes, else
    /// `DimensionMismatch`; entry `(i, j)` of the result is
    /// `self[i, j] - rhs[i, j]`.
    pub fn sub(&self, rhs: &Matrix<T>) -> (r: Result<Matrix<T>, MathError>)
        requires
            self.wf(),
            rhs.wf(),
            (self.rows == rhs.rows && self.cols == rhs.cols) ==> forall|i: int|
                0 <= i < self.content@.len() ==> T::in_range(self.content@[i] - rhs.content@[i]),
        ensures
            match r {
                Ok(s) => self.rows == rhs.rows && self.cols == rhs.cols && s.wf() && s.rows
                    == self.rows && s.cols == self.cols && (forall|i: int|
                    0 <= i < s.content@.len() ==> s.content@[i] == self.content@[i]
                        - rhs.content@[i]) && (forall|i: int, j: int|
                    0 <= i < s.rows && 0 <= j < s.cols ==> #[trigger] s.at(i, j) == self.at(i, j)
                        - rhs.at(i, j)),
                Err(e) => !(self.rows == rhs.rows && self.cols == rhs.cols) && e
                    == MathError::DimensionMismatch,
            },
    {
        if self.rows == rhs.rows && self.cols == rhs.cols {
            match self.content.sub(&rhs.content) {
                Ok(v) => {
                    let s = Matrix { rows: self.rows, cols: self.cols, content: v };
                    proof {
                        assert forall|i: int, j: int|
                            0 <= i < s.rows && 0 <= j < s.cols implies #[trigger] s.at(i, j)
                            == self.at(i, j) - rhs.at(i, j) by {
                            lemma_flat_index_bound(i, j, s.rows as int, s.cols as int);
                        }
                    }
                    Ok(s)
                },
                Err(_) => {
                    assert(false);
                    Err(MathError::DimensionMismatch)
                },
            }
        } else {
            Err(MathError::DimensionMismatch)
        }
    }

    /// Broadcast sum: adds one scalar to every entry.
    pub fn add_scalar(&self, rhs: T) -> (m: Matrix<T>)
        requires
            self.wf(),
            forall|i: int| 0 <= i < self.content@.len() ==> T::in_range(self.content@[i] + rhs.v()),
        ensures
            m.wf(),
            m.rows == self.rows,
            m.cols == self.cols,
            forall|i: int|
                0 <= i < m.content@.len() ==> m.content@[i] == self.content@[i] + rhs.v(),
    {
        Matrix { rows: self.rows, cols: self.cols, content: self.content.add_scalar(rhs) }
    }

    /// Broadcast difference: subtracts one scalar from every entry.
    pub fn sub_scalar(&self, rhs: T) -> (m: Matrix<T>)
        requires
            self.wf(),
            forall|i: int| 0 <= i < self.content@.len() ==> T::in_range(self.content@[i] - rhs.v()),
        ensures
            m.wf(),
            m.rows == self.rows,
            m.cols == self.cols,
            forall|i: int|
                0 <= i < m.content@.len() ==> m.content@[i] == self.content@[i] - rhs.v(),
    {
        Matrix { rows: self.rows, cols: self.cols, content: self.content.sub_scalar(rhs) }
    }

    /// Broadcast product: multiplies every entry by one scalar.
    pub fn mul_scalar(&self, rhs: T) -> (m: Matrix<T>)
        requires
            self.wf(),
            forall|i: int| 0 <= i < self.content@.len() ==> T::in_range(self.content@[i] * rhs.v()),
        ensures
            m.wf(),
            m.rows == self.rows,
            m.cols == self.cols,
            forall|i: int|
                0 <= i < m.content@.len() ==> m.content@[i] == self.content@[i] * rhs.v(),
    {
        Matrix { rows: self.rows, cols: self.cols, content: self.content.mul_scalar(rhs) }
    }

    /// Broadcast quotient: divides every entry by one scalar, entry over
    /// scalar, as `Vector::div_scalar` fixes the order.
    pub fn div_scalar(&self, rhs: T) -> (m: Matrix<T>)
        requires
            self.wf(),
            rhs.v() != 0,
            forall|i: int|
                0 <= i < self.content@.len() ==> T::in_range(tdiv(self.content@[i], rhs.v())),
        ensures
            m.wf(),
            m.rows == self.rows,
            m.cols == self.cols,
            forall|i: int|
                0 <= i < m.content@.len() ==> m.content@[i] == tdiv(self.content@[i], rhs.v()),
    {
        Matrix { rows: self.rows, cols: self.cols, content: self.content.div_scalar(rhs) }
    }

    /// A new matrix with the rows and columns exchanged: entry `(i, j)` of
    /// the result is entry `(j, i)` of this matrix.  Correct for any shape:
    /// the result is allocated as `cols` by `rows` and written with the new
    /// stride.
    pub fn transposed(&self) -> (t: Matrix<T>)
        requires
            self.wf(),
        ensures
            t.wf(),
            t.rows == self.cols,
            t.cols == self.rows,
            forall|i: int, j: int|
                0 <= i < t.rows && 0 <= j < t.cols ==> #[trigger] t.at(i, j) == self.at(j, i),
    {
        // the call's length bound shows every flat index fits in usize
        let _len = self.content.len();
        let mut data: Vec<T> = Vec::new();
        let mut i: usize = 0;
        while i < self.cols
            invariant
                i <= self.cols,
                data@.len() == i * self.rows,
                forall|r: int, c: int|
                    0 <= r < i && 0 <= c < self.rows ==> data@[r * self.rows + c].v()
                        == #[trigger] self.at(c, r),
            decreases self.cols - i,
        {
            let mut j: usize = 0;
            while j < self.rows
                invariant
                    i < self.cols,
                    j <= self.rows,
                    data@.len() == i * self.rows + j,
                    forall|r: int, c: int|
                        0 <= r < self.cols && 0 <= c < self.rows && (r < i || (r == i && c < j))
                            ==> data@[r * self.rows + c].v() == #[trigger] self.at(c, r),
                decreases self.rows - j,
            {
                proof {
                    lemma_flat_index_bound(j as int, i as int, self.rows as int, self.cols as int);
                }
                let x = self.content.content[j * self.cols + i];
                assert(x.v() == self.at(j as int, i as int));
                data.push(x);
                proof {
                    assert forall|r: int, c: int|
                        0 <= r < self.cols && 0 <= c < self.rows && (r < i || (r == i && c < j
                            + 1)) implies data@[r * self.rows + c].v() == #[trigger] self.at(
                        c,
                        r,
                    ) by {
                        if r < i || (r == i && c < j) {
                            lemma_row_major_order(r, c, i as int, j as int, self.rows as int);
                        }
                    }
                }
                j += 1;
            }
            assert((i + 1) * self.rows == i * self.rows + self.rows) by (nonlinear_arith);
            i += 1;
        }
        let t = Matrix { rows: self.cols, cols: self.rows, content: Vector { content: data } };
        proof {
            assert forall|i_: int, j_: int|
                0 <= i_ < t.rows && 0 <= j_ < t.cols implies #[trigger] t.at(i_, j_) == self.at(
                j_,
                i_,
            ) by {
                lemma_flat_index_bound(i_, j_, t.rows as int, t.cols as int);
            }
        }
        t
    }

    /// Exchanges rows and columns in place: afterwards entry `(i, j)` is
    /// what entry `(j, i)` was.
    pub fn transpose(&mut self)
        requires
            old(self).wf(),
        ensures
            final(self).wf(),
            final(self).rows == old(self).cols,
            final(self).cols == old(self).rows,
            forall|i: int, j: int|
                0 <= i < final(self).rows && 0 <= j < final(self).cols
                    ==> #[trigger] final(self).at(i, j) == old(self).at(j, i),
    {
        let t = self.transposed();
        *self = t;
    }

    /// The sum of the main diagonal, accumulated top left to bottom right;
    /// fails with `NotSquare` unless the matrix is square.
    pub fn trace(&self) -> (res: Result<T, MathError>)
        requires
            self.wf(),
            self.rows == self.cols ==> forall|n: int|
                #![trigger diag_sum(self.content@, self.cols as int, n)]
                0 <= n < self.rows ==> T::in_range(
                    diag_sum(self.content@, self.cols as int, n) + self.at(n, n),
                ),
        ensures
            match res {
                Ok(t) => self.rows == self.cols && t.v() == diag_sum(
                    self.content@,
                    self.cols as int,
                    self.rows as int,
                ),
                Err(e) => self.rows != self.cols && e == MathError::NotSquare,
            },
    {
        if self.rows != self.cols {
            return Err(MathError::NotSquare);
        }
        // the call's length bound shows every flat index fits in usize
        let _len = self.content.len();
        let mut sum = T::zero();
        let mut n: usize = 0;
        while n < self.rows
            invariant
                n <= self.rows,
                sum.v() == diag_sum(self.content@, self.cols as int, n as int),
            decreases self.rows - n,
        {
            proof {
                lemma_flat_index_bound(n as int, n as int, self.rows as int, self.cols as int);
            }
            let x = self.content.content[n * self.cols + n];
            assert(x.v() == self.at(n as int, n as int));
            assert(T::in_range(diag_sum(self.content@, self.cols as int, n as int) + self.at(n as int, n as int)));
            sum = sum.add(x);
            n += 1;
        }
        Ok(sum)
    }

    /// The first `k` terms of the product cell `(n, m)`: the running
    /// left-to-right accumulation of row `n` of this matrix against column
    /// `m` of `rhs`.
    pub open spec fn mul_cell(self, rhs: Matrix<T>, n: int, m: int, k: int) -> int {
        prod_sum(self.content@, self.cols as int, rhs.content@, rhs.cols as int, n, m, k)
    }

    /// As `mul_cell`, with each term the truncating quotient
    /// `self[n, k] / rhs[k, m]`.
    pub open spec fn div_cell(self, rhs: Matrix<T>, n: int, m: int, k: int) -> int {
        quot_sum(self.content@, self.cols as int, rhs.content@, rhs.cols as int, n, m, k)
    }

    /// The standard matrix product: requires `self.cols == rhs.rows`, else
    /// `DimensionMismatch`; the result has shape `self.rows` by `rhs.cols`
    /// and entry `(n, m)` is the sum over `k` of `self[n, k] * rhs[k, m]`,
    /// accumulated left to right from a fresh zero per cell.
    pub fn mul(&self, rhs: &Matrix<T>) -> (r: Result<Matrix<T>, MathError>)
        requires
            self.wf(),
            rhs.wf(),
            self.cols == rhs.rows ==> forall|n: int, m: int, k: int|
                #![trigger self.at(n, k), rhs.at(k, m)]
                0 <= n < self.rows && 0 <= m < rhs.cols && 0 <= k < self.cols ==> T::in_range(
                    self.at(n, k) * rhs.at(k, m),
                ) && T::in_range(self.mul_cell(*rhs, n, m, k) + self.at(n, k) * rhs.at(k, m)),
        ensures
            match r {
                Ok(p) => self.cols == rhs.rows && p.wf() && p.rows == self.rows && p.cols
                    == rhs.cols && forall|n: int, m: int|
                    0 <= n < p.rows && 0 <= m < p.cols ==> #[trigger] p.at(n, m) == self.mul_cell(
                        *rhs,
                        n,
                        m,
                        self.cols as int,
                    ),
                Err(e) => self.cols != rhs.rows && e == MathError::DimensionMismatch,
            },
    {
        if self.cols != rhs.rows {
            return Err(MathError::DimensionMismatch);
        }
        // the calls' length bounds show every flat index fits in usize
        let _self_len = self.content.len();
        let _rhs_len = rhs.content.len();
        let mut data: Vec<T> = Vec::new();
        let mut n: usize = 0;
        while n < self.rows
            invariant
                n <= self.rows,
                data@.len() == n * rhs.cols,
                forall|i: int, j: int|
                    0 <= i < n && 0 <= j < rhs.cols ==> data@[i * rhs.cols + j].v()
                        == #[trigger] self.mul_cell(*rhs, i, j, self.cols as int),
            decreases self.rows - n,
        {
            let mut m: usize = 0;
            while m < rhs.cols
                invariant
                    n < self.rows,
                    m <= rhs.cols,
                    data@.len() == n * rhs.cols + m,
                    forall|i: int, j: int|
                        0 <= i < self.rows && 0 <= j < rhs.cols && (i < n || (i == n && j < m))
                            ==> data@[i * rhs.cols + j].v() == #[trigger] self.mul_cell(
                            *rhs,
                            i,
                            j,
                            self.cols as int,
                        ),
                decreases rhs.cols - m,
            {
                let mut acc = T::zero();
                let mut k: usize = 0;
                while k < self.cols
                    invariant
                        n < self.rows,
                        m < rhs.cols,
                        k <= self.cols,
                        acc.v() == self.mul_cell(*rhs, n as int, m as int, k as int),
                    decreases self.cols - k,
                {
                    proof {
                        lemma_flat_index_bound(
                            n as int,
                            k as int,
                            self.rows as int,
                            self.cols as int,
                        );
                        lemma_flat_index_bound(k as int, m as int, rhs.rows as int, rhs.cols as int);
                    }
                    let x = self.content.content[n * self.cols + k];
                    let y = rhs.content.content[k * rhs.cols + m];
                    assert(x.v() == self.at(n as int, k as int));
                    assert(y.v() == rhs.at(k as int, m as int));
                    let p = x.mul(y);
                    acc = acc.add(p);
                    k += 1;
                }
                data.push(acc);
                proof {
                    assert forall|i: int, j: int|
                        0 <= i < self.rows && 0 <= j < rhs.cols && (i < n || (i == n && j < m
                            + 1)) implies data@[i * rhs.cols + j].v() == #[trigger] self.mul_cell(
                        *rhs,
                        i,
                        j,
                        self.cols as int,
                    ) by {
                        if i < n || (i == n && j < m) {
                            lemma_row_major_order(i, j, n as int, m as int, rhs.cols as int);
                        }
                    }
                }
                m += 1;
            }
            assert((n + 1) * rhs.cols == n * rhs.cols + rhs.cols) by (nonlinear_arith);
            n += 1;
        }
        let p = Matrix { rows: self.rows, cols: rhs.cols, content: Vector { content: data } };
        proof {
            assert forall|n_: int, m_: int|
                0 <= n_ < p.rows && 0 <= m_ < p.cols implies #[trigger] p.at(n_, m_)
                == self.mul_cell(*rhs, n_, m_, self.cols as int) by {
                lemma_flat_index_bound(n_, m_, p.rows as int, p.cols as int);
            }
        }
        Ok(p)
    }

    /// The quotient analogue of the matrix product: requires
    /// `self.cols == rhs.rows`, else `DimensionMismatch`; entry `(n, m)` is
    /// the sum over `k` of the truncating quotient `self[n, k] / rhs[k, m]`
    /// (not a matrix inverse-multiply: this accumulated element-wise
    /// definition is the library's contract).
    pub fn div(&self, rhs: &Matrix<T>) -> (r: Result<Matrix<T>, MathError>)
        requires
            self.wf(),
            rhs.wf(),
            self.cols == rhs.rows ==> forall|n: int, m: int, k: int|
                #![trigger self.at(n, k), rhs.at(k, m)]
                0 <= n < self.rows && 0 <= m < rhs.cols && 0 <= k < self.cols ==> rhs.at(k, m) != 0
                    && T::in_range(tdiv(self.at(n, k), rhs.at(k, m))) && T::in_range(
                    self.div_cell(*rhs, n, m, k) + tdiv(self.at(n, k), rhs.at(k, m)),
                ),
        ensures
            match r {
                Ok(p) => self.cols == rhs.rows && p.wf() && p.rows == self.rows && p.cols
                    == rhs.cols && forall|n: int, m: int|
                    0 <= n < p.rows && 0 <= m < p.cols ==> #[trigger] p.at(n, m) == self.div_cell(
                        *rhs,
                        n,
                        m,
                        self.cols as int,
                    ),
                Err(e) => self.cols != rhs.rows && e == MathError::DimensionMismatch,
            },
    {
        if self.cols != rhs.rows {
            return Err(MathError::DimensionMismatch);
        }
        // the calls' length bounds show every flat index fits in usize
        let _self_len = self.content.len();
        let _rhs_len = rhs.content.len();
        let mut data: Vec<T> = Vec::new();
        let mut n: usize = 0;
        while n < self.rows
            invariant
                n <= self.rows,
                data@.len() == n * rhs.cols,
                forall|i: int, j: int|
                    0 <= i < n && 0 <= j < rhs.cols ==> data@[i * rhs.cols + j].v()
                        == #[trigger] self.div_cell(*rhs, i, j, self.cols as int),
            decreases self.rows - n,
        {
            let mut m: usize = 0;
            while m < rhs.cols
                invariant
                    n < self.rows,
                    m <= rhs.cols,
                    data@.len() == n * rhs.cols + m,
                    forall|i: int, j: int|
                        0 <= i < self.rows && 0 <= j < rhs.cols && (i < n || (i == n && j < m))
                            ==> data@[i * rhs.cols + j].v() == #[trigger] self.div_cell(
                            *rhs,
                            i,
                            j,
                            self.cols as int,
                        ),
                decreases rhs.cols - m,
            {
                let mut acc = T::zero();
                let mut k: usize = 0;
                while k < self.cols
                    invariant
                        n < self.rows,
                        m < rhs.cols,
                        k <= self.cols,
                        acc.v() == self.div_cell(*rhs, n as int, m as int, k as int),
                    decreases self.cols - k,
                {
                    proof {
                        lemma_flat_index_bound(
                            n as int,
                            k as int,
                            self.rows as int,
                            self.cols as int,
                        );
                        lemma_flat_index_bound(k as int, m as int, rhs.rows as int, rhs.cols as int);
                    }
                    let x = self.content.content[n * self.cols + k];
                    let y = rhs.content.content[k * rhs.cols + m];
                    assert(x.v() == self.at(n as int, k as int));
                    assert(y.v() == rhs.at(k as int, m as int));
                    let p = x.div(y);
                    acc = acc.add(p);
                    k += 1;
                }
                data.push(acc);
                proof {
                    assert forall|i: int, j: int|
                        0 <= i < self.rows && 0 <= j < rhs.cols && (i < n || (i == n && j < m
                            + 1)) implies data@[i * rhs.cols + j].v() == #[trigger] self.div_cell(
                        *rhs,
                        i,
                        j,
                        self.cols as int,
                    ) by {
                        if i < n || (i == n && j < m) {
                            lemma_row_major_order(i, j, n as int, m as int, rhs.cols as int);
                        }
                    }
                }
                m += 1;
            }
            assert((n + 1) * rhs.cols == n * rhs.cols + rhs.cols) by (nonlinear_arith);
            n += 1;
        }
        let p = Matrix { rows: self.rows, cols: rhs.cols, content: Vector { content: data } };
        proof {
            assert forall|n_: int, m_: int|
                0 <= n_ < p.rows && 0 <= m_ < p.cols implies #[trigger] p.at(n_, m_)
                == self.div_cell(*rhs, n_, m_, self.cols as int) by {
                lemma_flat_index_bound(n_, m_, p.rows as int, p.cols as int);
            }
        }
        Ok(p)
    }

    /// Matrix times vector: requires `self.cols == rhs.len()`, else
    /// `DimensionMismatch`; the result has one element per row, the
    /// conventional dot product of that row with the vector, accumulated
    /// left to right from a fresh zero.
    pub fn mul_vector(&self, rhs: &Vector<T>) -> (r: Result<Vector<T>, MathError>)
        requires
            self.wf(),
            self.cols == rhs@.len() ==> forall|i: int, n: int|
                #![trigger self.at(i, n)]
                0 <= i < self.rows && 0 <= n < self.cols ==> T::in_range(self.at(i, n) * rhs@[n]),
            self.cols == rhs@.len() ==> forall|i: int, n: int|
                #![trigger row_mul_sum(self.content@, self.cols as int, rhs@, i, n)]
                0 <= i < self.rows && 0 <= n < self.cols ==> T::in_range(
                    row_mul_sum(self.content@, self.cols as int, rhs@, i, n) + self.at(i, n)
                        * rhs@[n],
                ),
        ensures
            match r {
                Ok(v) => self.cols == rhs@.len() && v@.len() == self.rows && forall|i: int|
                    0 <= i < v@.len() ==> v@[i] == row_mul_sum(
                        self.content@,
                        self.cols as int,
                        rhs@,
                        i,
                        self.cols as int,
                    ),
                Err(e) => self.cols != rhs@.len() && e == MathError::DimensionMismatch,
            },
    {
        if self.cols != rhs.len() {
            return Err(MathError::DimensionMismatch);
        }
        // the call's length bound shows every flat index fits in usize
        let _len = self.content.len();
        let mut out: Vec<T> = Vec::new();
        let mut i: usize = 0;
        while i < self.rows
            invariant
                i <= self.rows,
                out@.len() == i,
                forall|q: int|
                    0 <= q < i ==> out@[q].v() == row_mul_sum(
                        self.content@,
                        self.cols as int,
                        rhs@,
                        q,
                        self.cols as int,
                    ),
            decreases self.rows - i,
        {
            let mut p = T::zero();
            let mut n: usize = 0;
            while n < self.cols
                invariant
                    i < self.rows,
                    n <= self.cols,
                    p.v() == row_mul_sum(self.content@, self.cols as int, rhs@, i as int, n as int),
                decreases self.cols - n,
            {
                proof {
                    lemma_flat_index_bound(i as int, n as int, self.rows as int, self.cols as int);
                }
                let x = self.content.content[i * self.cols + n];
                let y = rhs.content[n];
                assert(x.v() == self.at(i as int, n as int));
                assert(y.v() == rhs@[n as int]);
                let t = x.mul(y);
                p = p.add(t);
                n += 1;
            }
            out.push(p);
            i += 1;
        }
        Ok(Vector { content: out })
    }

    /// Matrix plus vector, folded per row: requires
    /// `self.cols == rhs.len()`, else `DimensionMismatch`; the result's
    /// i-th element is the sum over the row's columns of
    /// `self[i, n] + rhs[n]` (a fold, not a dot product).
    pub fn add_vector(&self, rhs: &Vector<T>) -> (r: Result<Vector<T>, MathError>)
        requires
            self.wf(),
            self.cols == rhs@.len() ==> forall|i: int, n: int|
                #![trigger self.at(i, n)]
                0 <= i < self.rows && 0 <= n < self.cols ==> T::in_range(
                    row_add_sum(self.content@, self.cols as int, rhs@, i, n) + self.at(i, n),
                ),
            self.cols == rhs@.len() ==> forall|i: int, n: int|
                #![trigger row_add_sum(self.content@, self.cols as int, rhs@, i, n)]
                0 <= i < self.rows && 0 <= n < self.cols ==> T::in_range(
                    row_add_sum(self.content@, self.cols as int, rhs@, i, n) + self.at(i, n)
                        + rhs@[n],
                ),
        ensures
            match r {
                Ok(v) => self.cols == rhs@.len() && v@.len() == self.rows && forall|i: int|
                    0 <= i < v@.len() ==> v@[i] == row_add_sum(
                        self.content@,
                        self.cols as int,
                        rhs@,
                        i,
                        self.cols as int,
                    ),
                Err(e) => self.cols != rhs@.len() && e == MathError::DimensionMismatch,
            },
    {
        if self.cols != rhs.len() {
            return Err(MathError::DimensionMismatch);
        }
        // the call's length bound shows every flat index fits in usize
        let _len = self.content.len();
        let mut out: Vec<T> = Vec::new();
        let mut i: usize = 0;
        while i < self.rows
            invariant
                i <= self.rows,
                out@.len() == i,
                forall|q: int|
                    0 <= q < i ==> out@[q].v() == row_add_sum(
                        self.content@,
                        self.cols as int,
                        rhs@,
                        q,
                        self.cols as int,
                    ),
            decreases self.rows - i,
        {
            let mut p = T::zero();
            let mut n: usize = 0;
            while n < self.cols
                invariant
                    i < self.rows,
                    n <= self.cols,
                    p.v() == row_add_sum(self.content@, self.cols as int, rhs@, i as int, n as int),
                decreases self.cols - n,
            {
                proof {
                    lemma_flat_index_bound(i as int, n as int, self.rows as int, self.cols as int);
                }
                let x = self.content.content[i * self.cols + n];
                let y = rhs.content[n];
                assert(x.v() == self.at(i as int, n as int));
                assert(y.v() == rhs@[n as int]);
                p = p.add(x).add(y);
                n += 1;
            }
            out.push(p);
            i += 1;
        }
        Ok(Vector { content: out })
    }

    /// Matrix minus vector, folded per row: requires
    /// `self.cols == rhs.len()`, else `DimensionMismatch`; the result's
    /// i-th element is the sum over the row's columns of
    /// `self[i, n] - rhs[n]` (a fold, not a dot product).
    pub fn sub_vector(&self, rhs: &Vector<T>) -> (r: Result<Vector<T>, MathError>)
        requires
            self.wf(),
            self.cols == rhs@.len() ==> forall|i: int, n: int|
                #![trigger self.at(i, n)]
                0 <= i < self.rows && 0 <= n < self.cols ==> T::in_range(
                    row_sub_sum(self.content@, self.cols as int, rhs@, i, n) + self.at(i, n),
                ),
            self.cols == rhs@.len() ==> forall|i: int, n: int|
                #![trigger row_sub_sum(self.content@, self.cols as int, rhs@, i, n)]
                0 <= i < self.rows && 0 <= n < self.cols ==> T::in_range(
                    row_sub_sum(self.content@, self.cols as int, rhs@, i, n) + self.at(i, n)
                        - rhs@[n],
                ),
        ensures
            match r {
                Ok(v) => self.cols == rhs@.len() && v@.len() == self.rows && forall|i: int|
                    0 <= i < v@.len() ==> v@[i] == row_sub_sum(
                        self.content@,
                        self.cols as int,
                        rhs@,
                        i,
                        self.cols as int,
                    ),
                Err(e) => self.cols != rhs@.len() && e == MathError::DimensionMismatch,
            },
    {
        if self.cols != rhs.len() {
            return Err(MathError::DimensionMismatch);
        }
        // the call's length bound shows every flat index fits in usize
        let _len = self.content.len();
        let mut out: Vec<T> = Vec::new();
        let mut i: usize = 0;
        while i < self.rows
            invariant
                i <= self.rows,
                out@.len() == i,
                forall|q: int|
                    0 <= q < i ==> out@[q].v() == row_sub_sum(
                        self.content@,
                        self.cols as int,
                        rhs@,
                        q,
                        self.cols as int,
                    ),
            decreases self.rows - i,
        {
            let mut p = T::zero();
            let mut n: usize = 0;
            while n < self.cols
                invariant
                    i < self.rows,
                    n <= self.cols,
                    p.v() == row_sub_sum(self.content@, self.cols as int, rhs@, i as int, n as int),
                decreases self.cols - n,
            {
                proof {
                    lemma_flat_index_bound(i as int, n as int, self.rows as int, self.cols as int);
                }
                let x = self.content.content[i * self.cols + n];
                let y = rhs.content[n];
                assert(x.v() == self.at(i as int, n as int));
                assert(y.v() == rhs@[n as int]);
                p = p.add(x).sub(y);
                n += 1;
            }
            out.push(p);
            i += 1;
        }
        Ok(Vector { content: out })
    }

    /// Matrix divided by vector, folded per row: requires
    /// `self.cols == rhs.len()`, else `DimensionMismatch`; the result's
    /// i-th element is the sum over the row's columns of the truncating
    /// quotient `self[i, n] / rhs[n]`.
    pub fn div_vector(&self, rhs: &Vector<T>) -> (r: Result<Vector<T>, MathError>)
        requires
            self.wf(),
            (self.cols == rhs@.len() && self.rows > 0) ==> forall|n: int|
                0 <= n < self.cols ==> rhs@[n] != 0,
            self.cols == rhs@.len() ==> forall|i: int, n: int|
                #![trigger self.at(i, n)]
                0 <= i < self.rows && 0 <= n < self.cols ==> T::in_range(
                    tdiv(self.at(i, n), rhs@[n]),
                ),
            self.cols == rhs@.len() ==> forall|i: int, n: int|
                #![trigger row_div_sum(self.content@, self.cols as int, rhs@, i, n)]
                0 <= i < self.rows && 0 <= n < self.cols ==> T::in_range(
                    row_div_sum(self.content@, self.cols as int, rhs@, i, n) + tdiv(
                        self.at(i, n),
                        rhs@[n],
                    ),
                ),
        ensures
            match r {
                Ok(v) => self.cols == rhs@.len() && v@.len() == self.rows && forall|i: int|
                    0 <= i < v@.len() ==> v@[i] == row_div_sum(
                        self.content@,
                        self.cols as int,
                        rhs@,
                        i,
                        self.cols as int,
                    ),
                Err(e) => self.cols != rhs@.len() && e == MathError::DimensionMismatch,
            },
    {
        if self.cols != rhs.len() {
            return Err(MathError::DimensionMismatch);
        }
        // the call's length bound shows every flat index fits in usize
        let _len = self.content.len();
        let mut out: Vec<T> = Vec::new();
        let mut i: usize = 0;
        while i < self.rows
            invariant
                i <= self.rows,
                out@.len() == i,
                forall|q: int|
                    0 <= q < i ==> out@[q].v() == row_div_sum(
                        self.content@,
                        self.cols as int,
                        rhs@,
                        q,
                        self.cols as int,
                    ),
            decreases self.rows - i,
        {
            let mut p = T::zero();
            let mut n: usize = 0;
            while n < self.cols
                invariant
                    i < self.rows,
                    n <= self.cols,
                    p.v() == row_div_sum(self.content@, self.cols as int, rhs@, i as int, n as int),
                decreases self.cols - n,
            {
                proof {
                    lemma_flat_index_bound(i as int, n as int, self.rows as int, self.cols as int);
                }
                let x = self.content.content[i * self.cols + n];
                let y = rhs.content[n];
                assert(x.v() == self.at(i as int, n as int));
                assert(y.v() == rhs@[n as int]);
                let t = x.div(y);
                p = p.add(t);
                n += 1;
            }
            out.push(p);
            i += 1;
        }
        Ok(Vector { content: out })
    }
}

impl<T: SignedNumber> Matrix<T> {
    /// Negation: a new matrix with every entry negated.
    pub fn neg(&self) -> (m: Matrix<T>)
        requires
            self.wf(),
            forall|i: int| 0 <= i < self.content@.len() ==> T::in_range(-self.content@[i]),
        ensures
            m.wf(),
            m.rows == self.rows,
            m.cols == self.cols,
            forall|i: int| 0 <= i < m.content@.len() ==> m.content@[i] == -self.content@[i],
    {
        Matrix { rows: self.rows, cols: self.cols, content: self.content.neg() }
    }
}

/// A matrix of shape `rows` by `cols` wrapping a copy of the given
/// elements, of which there must be exactly `rows * cols`, in row-major
/// order.
pub fn from<T: Number>(rows: usize, cols: usize, elements: &[T]) -> (m: Matrix<T>)
    requires
        elements@.len() == rows * cols,
    ensures
        m.wf(),
        m.rows == rows,
        m.cols == cols,
        forall|i: int| 0 <= i < m.content@.len() ==> m.content@[i] == elements@[i].v(),
        forall|i: int, j: int|
            0 <= i < rows && 0 <= j < cols ==> m.at(i, j) == elements@[i * cols + j].v(),
{
    let m = Matrix { rows, cols, content: crate::vector::from(elements) };
    proof {
        assert forall|i: int, j: int| 0 <= i < rows && 0 <= j < cols implies m.at(i, j)
            == elements@[i * cols + j].v() by {
            lemma_flat_index_bound(i, j, rows as int, cols as int);
        }
    }
    m
}

/// The identity matrix of the given size: zeros with ones on the main
/// diagonal.
pub fn identity<T: Number>(size: usize) -> (m: Matrix<T>)
    requires
        size * size <= usize::MAX,
    ensures
        m.wf(),
        m.rows == size,
        m.cols == size,
        forall|i: int, j: int|
            0 <= i < size && 0 <= j < size ==> #[trigger] m.at(i, j) == ident_val(i, j),
{
    let mut data: Vec<T> = Vec::new();
    let mut i: usize = 0;
    while i < size
        invariant
            i <= size,
            data@.len() == i * size,
            forall|r: int, c: int|
                0 <= r < i && 0 <= c < size ==> data@[r * size + c].v() == #[trigger] ident_val(
                    r,
                    c,
                ),
        decreases size - i,
    {
        let mut j: usize = 0;
        while j < size
            invariant
                i < size,
                j <= size,
                data@.len() == i * size + j,
                forall|r: int, c: int|
                    0 <= r < size && 0 <= c < size && (r < i || (r == i && c < j)) ==> data@[r * size
                        + c].v() == #[trigger] ident_val(r, c),
            decreases size - j,
        {
            proof {
                lemma_flat_index_bound(i as int, j as int, size as int, size as int);
            }
            if i == j {
                data.push(T::one());
            } else {
                data.push(T::zero());
            }
            proof {
                assert forall|r: int, c: int|
                    0 <= r < size && 0 <= c < size && (r < i || (r == i && c < j + 1)) implies
                    data@[r * size + c].v() == #[trigger] ident_val(r, c) by {
                    if r < i || (r == i && c < j) {
                        lemma_row_major_order(r, c, i as int, j as int, size as int);
                    }
                }
            }
            j += 1;
        }
        assert((i + 1) * size == i * size + size) by (nonlinear_arith);
        i += 1;
    }
    let m = Matrix { rows: size, cols: size, content: Vector { content: data } };
    proof {
        assert forall|i_: int, j_: int| 0 <= i_ < size && 0 <= j_ < size implies m.at(i_, j_)
            == ident_val(i_, j_) by {
            lemma_flat_index_bound(i_, j_, size as int, size as int);
        }
    }
    m
}

/// An all-zero matrix of the given shape.
pub fn zeros<T: Number>(rows: usize, cols: usize) -> (m: Matrix<T>)
    requires
        rows * cols <= usize::MAX,
    ensures
        m.wf(),
        m.rows == rows,
        m.cols == cols,
        forall|i: int| 0 <= i < rows * cols ==> m.content@[i] == 0,
        forall|i: int, j: int| 0 <= i < rows && 0 <= j < cols ==> m.at(i, j) == 0,
{
    Matrix::new(rows, cols, T::zero())
}

/// An all-zero matrix with the shape of the given matrix.
pub fn zeros_like<T: Number>(other: Matrix<T>) -> (m: Matrix<T>)
    requires
        other.wf(),
    ensures
        m.wf(),
        m.rows == other.rows,
        m.cols == other.cols,
        forall|i: int| 0 <= i < m.content@.len() ==> m.content@[i] == 0,
        forall|i: int, j: int| 0 <= i < m.rows && 0 <= j < m.cols ==> m.at(i, j) == 0,
{
    // the call's length bound shows the shape's product fits in usize
    let _len = other.content.len();
    assert(other.rows * other.cols <= usize::MAX);
    Matrix::new(other.rows, other.cols, T::zero())
}

/// A matrix of the given shape filled with uniformly random scalars.
/// Only the shape is promised: the elements come from the random
/// generator.
pub fn random<T: Number>(rows: usize, cols: usize) -> (m: Matrix<T>)
    requires
        rows * cols <= usize::MAX,
    ensures
        m.wf(),
        m.rows == rows,
        m.cols == cols,
{
    Matrix { rows, cols, content: crate::vector::random(rows * cols) }
}


/// A flat row-major index decomposes into the row/column pair it encodes.
proof fn lemma_flat_index_decompose(k: int, rows: int, cols: int) -> (rc: (int, int))
    requires
        0 <= rows,
        0 <= cols,
        0 <= k < rows * cols,
    ensures
        0 <= rc.0 < rows,
        0 <= rc.1 < cols,
        k == rc.0 * cols + rc.1,
{
    assert(cols > 0 && rows > 0) by (nonlinear_arith)
        requires 0 <= rows, 0 <= cols, 0 <= k < rows * cols;
    let r = k / cols;
    let c = k % cols;
    vstd::arithmetic::div_mod::lemma_fundamental_div_mod(k, cols);
    vstd::arithmetic::div_mod::lemma_mod_division_less_than_divisor(k, cols);
    vstd::arithmetic::div_mod::lemma_div_pos_is_pos(k, cols);
    assert(r < rows) by (nonlinear_arith)
        requires k == cols * r + c, 0 <= c < cols, k < rows * cols, cols > 0, r >= 0;
    assert(k == r * cols + c) by (nonlinear_arith)
        requires k == cols * r + c;
    (r, c)
}

/// The running product of a row of the identity pattern against any
/// column: zero until the diagonal term has been passed, the column's
/// entry afterwards.
proof fn lemma_identity_prod_prefix<T: Number>(
    ident: Matrix<T>,
    a: Matrix<T>,
    n: int,
    m: int,
    k: int,
)
    requires
        ident.wf(),
        a.wf(),
        a.rows == a.cols,
        ident.rows == a.rows,
        ident.cols == a.rows,
        forall|i: int, j: int|
            0 <= i < ident.rows && 0 <= j < ident.cols ==> #[trigger] ident.at(i, j) == ident_val(
                i,
                j,
            ),
        0 <= n < a.rows,
        0 <= m < a.cols,
        0 <= k <= a.rows,
    ensures
        ident.mul_cell(a, n, m, k) == if k > n {
            a.at(n, m)
        } else {
            0
        },
    decreases k,
{
    if k > 0 {
        lemma_identity_prod_prefix(ident, a, n, m, k - 1);
        assert(ident.at(n, k - 1) == ident_val(n, k - 1));
    }
}

/// Law: multiplying the identity matrix into a square matrix of matching
/// size returns a matrix equal to it.  `ident` holds the identity pattern
/// of size `a.rows` (what `identity` ensures), and `product` relates to
/// `ident` and `a` as `Matrix::mul` ensures of `ident.mul(&a)`; the
/// product then equals `a`, entry by entry and as `equals` compares
/// matrices.
pub proof fn lemma_identity_mul<T: Number>(ident: Matrix<T>, a: Matrix<T>, product: Matrix<T>)
    requires
        ident.wf(),
        a.wf(),
        product.wf(),
        a.rows == a.cols,
        ident.rows == a.rows,
        ident.cols == a.rows,
        forall|i: int, j: int|
            0 <= i < ident.rows && 0 <= j < ident.cols ==> #[trigger] ident.at(i, j) == ident_val(
                i,
                j,
            ),
        product.rows == a.rows,
        product.cols == a.cols,
        forall|n: int, m: int|
            0 <= n < product.rows && 0 <= m < product.cols ==> #[trigger] product.at(n, m)
                == ident.mul_cell(a, n, m, ident.cols as int),
    ensures
        product.eq_spec(a),
        forall|n: int, m: int|
            0 <= n < a.rows && 0 <= m < a.cols ==> #[trigger] product.at(n, m) == a.at(n, m),
{
    assert forall|n: int, m: int|
        0 <= n < a.rows && 0 <= m < a.cols implies #[trigger] product.at(n, m) == a.at(n, m) by {
        lemma_identity_prod_prefix(ident, a, n, m, a.rows as int);
    }
    assert forall|kk: int|
        0 <= kk < a.content@.len() implies product.content@[kk] == a.content@[kk] by {
        let rc = lemma_flat_index_decompose(kk, a.rows as int, a.cols as int);
        assert(product.at(rc.0, rc.1) == a.at(rc.0, rc.1));
    }
    assert(product.content@ =~= a.content@);
}

/// The diagonal of the identity pattern sums, entry by entry, to the
/// number of entries taken.
proof fn lemma_diag_identity_prefix<T: Number>(ident: Matrix<T>, k: int)
    requires
        ident.wf(),
        ident.rows == ident.cols,
        forall|i: int, j: int|
            0 <= i < ident.rows && 0 <= j < ident.cols ==> #[trigger] ident.at(i, j) == ident_val(
                i,
                j,
            ),
        0 <= k <= ident.rows,
    ensures
        diag_sum(ident.content@, ident.cols as int, k) == k,
    decreases k,
{
    if k > 0 {
        lemma_diag_identity_prefix(ident, k - 1);
        assert(ident.at(k - 1, k - 1) == ident_val(k - 1, k - 1));
    }
}

/// Law: the trace of the identity matrix of any size equals that size,
/// the multiplicative identity summed once per row (what `Matrix::trace`
/// returns on a matrix holding the identity pattern).
pub proof fn lemma_trace_identity<T: Number>(ident: Matrix<T>)
    requires
        ident.wf(),
        ident.rows == ident.cols,
        forall|i: int, j: int|
            0 <= i < ident.rows && 0 <= j < ident.cols ==> #[trigger] ident.at(i, j) == ident_val(
                i,
                j,
            ),
    ensures
        diag_sum(ident.content@, ident.cols as int, ident.rows as int) == ident.rows,
        forall|k: int|
            0 <= k <= ident.rows ==> #[trigger] diag_sum(ident.content@, ident.cols as int, k)
                == k,
{
    assert forall|k: int|
        0 <= k <= ident.rows implies #[trigger] diag_sum(ident.content@, ident.cols as int, k)
        == k by {
        lemma_diag_identity_prefix(ident, k);
    }
}

/// Law: `reshape` round-trips.  Reshaping never touches the buffer, so a
/// matrix reshaped from `m` by `n` to `n` by `m` (the middle value here)
/// and back to `m` by `n` equals the original exactly, flattened content
/// included.
pub proof fn lemma_reshape_round_trip<T: Number>(a: Matrix<T>, b: Matrix<T>, c: Matrix<T>)
    requires
        b.rows == a.cols,
        b.cols == a.rows,
        b.content@ == a.content@,
        c.rows == a.rows,
        c.cols == a.cols,
        c.content@ == b.content@,
    ensures
        c.eq_spec(a),
{
}

/// Law: matrix equality is reflexive.
pub proof fn lemma_equals_reflexive<T: Number>(a: Matrix<T>)
    ensures
        a.eq_spec(a),
{
}

/// Law: matrix equality is symmetric.
pub proof fn lemma_equals_symmetric<T: Number>(a: Matrix<T>, b: Matrix<T>)
    requires
        a.eq_spec(b),
    ensures
        b.eq_spec(a),
{
}

/// Law: matrix equality is shape-sensitive: two matrices of different
/// shapes are never equal, whatever their flattened contents hold.
pub proof fn lemma_equals_shape_sensitive<T: Number>(a: Matrix<T>, b: Matrix<T>)
    requires
        a.rows != b.rows || a.cols != b.cols,
    ensures
        !a.eq_spec(b),
        !b.eq_spec(a),
{
}

} // verus!
