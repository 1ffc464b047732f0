//! The one-dimensional container: an ordered sequence of scalars with a
//! fixed length.  Element-wise binary operators require equal lengths and
//! fail with `DimensionMismatch` otherwise; scalar broadcast operators apply
//! one scalar to every element; indexed access fails with `IndexOutOfRange`
//! past the end.  Every operator allocates and returns a new vector; only
//! `set` mutates in place.
//!
//! A vector is viewed in contracts as the sequence of the mathematical
//! values of its elements (`Seq<int>`).

use crate::common::{tdiv, MathError, Number, SignedNumber};
use crate::matrix::{row_add_sum, row_div_sum, row_mul_sum, row_sub_sum, Matrix};
use vstd::prelude::*;
use vstd::slice::slice_index_get;

verus! {

pub struct Vector<T: Number> {
    pub content: Vec<T>,
}

impl<T: Number> View for Vector<T> {
    type V = Seq<int>;

    open spec fn view(&self) -> Seq<int> {
        self.content@.map_values(|t: T| t.v())
    }
}

impl<T: Number> Vector<T> {
    /// The number of elements.
    pub fn len(&self) -> (n: usize)
        ensures
            n == self@.len(),
    {
        self.content.len()
    }

    /// A vector of `length` copies of `default`.
    pub fn new(length: usize, default: T) -> (v: Vector<T>)
        ensures
            v@.len() == length,
            forall|i: int| 0 <= i < length ==> v@[i] == default.v(),
    {
        let mut content: Vec<T> = Vec::new();
        let mut n: usize = 0;
        while n < length
            invariant
                n <= length,
                content@.len() == n,
                forall|i: int| 0 <= i < n ==> content@[i].v() == default.v(),
            decreases length - n,
        {
            content.push(default);
            n += 1;
        }
        Vector { content }
    }

    /// The element at a 0-based position, or `IndexOutOfRange` past the end.
    pub fn get(&self, index: usize) -> (r: Result<T, MathError>)
        ensures
            match r {
                Ok(x) => index < self@.len() && x.v() == self@[index as int],
                Err(e) => index >= self@.len() && e == MathError::IndexOutOfRange,
            },
    {
        if index < self.content.len() {
            Ok(self.content[index])
        } else {
            Err(MathError::IndexOutOfRange)
        }
    }

    /// Replaces the element at a 0-based position, or fails with
    /// `IndexOutOfRange` past the end, leaving the vector unchanged.
    pub fn set(&mut self, index: usize, value: T) -> (r: Result<(), MathError>)
        ensures
            match r {
                Ok(()) => index < old(self)@.len() && final(self)@ == old(self)@.update(
                    index as int,
                    value.v(),
                ),
                Err(e) => index >= old(self)@.len() && e == MathError::IndexOutOfRange
                    && final(self)@ == old(self)@,
            },
    {
        if index < self.content.len() {
            self.content.set(index, value);
            proof {
                assert(self@ =~= old(self)@.update(index as int, value.v()));
            }
            Ok(())
        } else {
            Err(MathError::IndexOutOfRange)
        }
    }

    /// A copy of this vector.
    pub fn clone(&self) -> (v: Vector<T>)
        ensures
            v@ == self@,
    {
        let mut content: Vec<T> = Vec::new();
        let mut n: usize = 0;
        while n < self.content.len()
            invariant
                n <= self.content@.len(),
                content@.len() == n,
                forall|i: int| 0 <= i < n ==> content@[i].v() == self.content@[i].v(),
            decreases self.content@.len() - n,
        {
            content.push(self.content[n]);
            n += 1;
        }
        let v = Vector { content };
        proof {
            assert(v@ =~= self@);
        }
        v
    }

    /// Structural equality: equal lengths and equal elements at every
    /// position.
    pub fn equals(&self, rhs: &Vector<T>) -> (r: bool)
        ensures
            r <==> self@ == rhs@,
    {
        if self.content.len() != rhs.content.len() {
            return false;
        }
        let mut n: usize = 0;
        while n < self.content.len()
            invariant
                self@.len() == rhs@.len(),
                n <= self@.len(),
                forall|i: int| 0 <= i < n ==> self@[i] == rhs@[i],
            decreases self@.len() - n,
        {
            if !self.content[n].eq_val(rhs.content[n]) {
                assert(self@[n as int] != rhs@[n as int]);
                return false;
            }
            assert(self@[n as int] == rhs@[n as int]);
            n += 1;
        }
        proof {
            assert(self@ =~= rhs@);
        }
        true
    }

    /// Element-wise sum: requires equal lengths, else `DimensionMismatch`;
    /// the result's i-th element is `self[i] + rhs[i]`.
    pub fn add(&self, rhs: &Vector<T>) -> (r: Result<Vector<T>, MathError>)
        requires
            self@.len() == rhs@.len() ==> forall|i: int|
                0 <= i < self@.len() ==> T::in_range(self@[i] + rhs@[i]),
        ensures
            match r {
                Ok(v) => self@.len() == rhs@.len() && v@.len() == self@.len() && forall|i: int|
                    0 <= i < v@.len() ==> v@[i] == self@[i] + rhs@[i],
                Err(e) => self@.len() != rhs@.len() && e == MathError::DimensionMismatch,
            },
    {
        if self.content.len() != rhs.content.len() {
            return Err(MathError::DimensionMismatch);
        }
        let mut content: Vec<T> = Vec::new();
        let mut n: usize = 0;
        while n < self.content.len()
            invariant
                self@.len() == rhs@.len(),
                n <= self@.len(),
                content@.len() == n,
                forall|i: int| 0 <= i < n ==> content@[i].v() == self@[i] + rhs@[i],
            decreases self@.len() - n,
        {
            assert(self@[n as int] == self.content@[n as int].v());
            assert(rhs@[n as int] == rhs.content@[n as int].v());
            content.push(self.content[n].add(rhs.content[n]));
            n += 1;
        }
        Ok(Vector { content })
    }

    /// Element-wise difference: requires equal lengths, else
    /// `DimensionMismatch`; the result's i-th element is `self[i] - rhs[i]`.
    pub fn sub(&self, rhs: &Vector<T>) -> (r: Result<Vector<T>, MathError>)
        requires
            self@.len() == rhs@.len() ==> forall|i: int|
                0 <= i < self@.len() ==> T::in_range(self@[i] - rhs@[i]),
        ensures
            match r {
                Ok(v) => self@.len() == rhs@.len() && v@.len() == self@.len() && forall|i: int|
                    0 <= i < v@.len() ==> v@[i] == self@[i] - rhs@[i],
                Err(e) => self@.len() != rhs@.len() && e == MathError::DimensionMismatch,
            },
    {
        if self.content.len() != rhs.content.len() {
            return Err(MathError::DimensionMismatch);
        }
        let mut content: Vec<T> = Vec::new();
        let mut n: usize = 0;
        while n < self.content.len()
            invariant
                self@.len() == rhs@.len(),
                n <= self@.len(),
                content@.len() == n,
                forall|i: int| 0 <= i < n ==> content@[i].v() == self@[i] - rhs@[i],
            decreases self@.len() - n,
        {
            assert(self@[n as int] == self.content@[n as int].v());
            assert(rhs@[n as int] == rhs.content@[n as int].v());
            content.push(self.content[n].sub(rhs.content[n]));
            n += 1;
        }
        Ok(Vector { content })
    }

    /// Element-wise product: requires equal lengths, else
    /// `DimensionMismatch`; the result's i-th element is `self[i] * rhs[i]`.
    pub fn mul(&self, rhs: &Vector<T>) -> (r: Result<Vector<T>, MathError>)
        requires
            self@.len() == rhs@.len() ==> forall|i: int|
                0 <= i < self@.len() ==> T::in_range(self@[i] * rhs@[i]),
        ensures
            match r {
                Ok(v) => self@.len() == rhs@.len() && v@.len() == self@.len() && forall|i: int|
                    0 <= i < v@.len() ==> v@[i] == self@[i] * rhs@[i],
                Err(e) => self@.len() != rhs@.len() && e == MathError::DimensionMismatch,
            },
    {
        if self.content.len() != rhs.content.len() {
            return Err(MathError::DimensionMismatch);
        }
        let mut content: Vec<T> = Vec::new();
        let mut n: usize = 0;
        while n < self.content.len()
            invariant
                self@.len() == rhs@.len(),
                n <= self@.len(),
                content@.len() == n,
                forall|i: int| 0 <= i < n ==> content@[i].v() == self@[i] * rhs@[i],
            decreases self@.len() - n,
        {
            assert(self@[n as int] == self.content@[n as int].v());
            assert(rhs@[n as int] == rhs.content@[n as int].v());
            content.push(self.content[n].mul(rhs.content[n]));
            n += 1;
        }
        Ok(Vector { content })
    }

    /// Element-wise quotient: requires equal lengths, else
    /// `DimensionMismatch`; the result's i-th element is `self[i] / rhs[i]`,
    /// the native truncating division of the scalar type.
    pub fn div(&self, rhs: &Vector<T>) -> (r: Result<Vector<T>, MathError>)
        requires
            self@.len() == rhs@.len() ==> forall|i: int|
                0 <= i < self@.len() ==> rhs@[i] != 0 && T::in_range(tdiv(self@[i], rhs@[i])),
        ensures
            match r {
                Ok(v) => self@.len() == rhs@.len() && v@.len() == self@.len() && forall|i: int|
                    0 <= i < v@.len() ==> v@[i] == tdiv(self@[i], rhs@[i]),
                Err(e) => self@.len() != rhs@.len() && e == MathError::DimensionMismatch,
            },
    {
        if self.content.len() != rhs.content.len() {
            return Err(MathError::DimensionMismatch);
        }
        let mut content: Vec<T> = Vec::new();
        let mut n: usize = 0;
        while n < self.content.len()
            invariant
                self@.len() == rhs@.len(),
                n <= self@.len(),
                content@.len() == n,
                forall|i: int| 0 <= i < n ==> content@[i].v() == tdiv(self@[i], rhs@[i]),
            decreases self@.len() - n,
        {
            assert(self@[n as int] == self.content@[n as int].v());
            assert(rhs@[n as int] == rhs.content@[n as int].v());
            content.push(self.content[n].div(rhs.content[n]));
            n += 1;
        }
        Ok(Vector { content })
    }

    /// Broadcast sum: adds one scalar to every element.
    pub fn add_scalar(&self, rhs: T) -> (v: Vector<T>)
        requires
            forall|i: int| 0 <= i < self@.len() ==> T::in_range(self@[i] + rhs.v()),
        ensures
            v@.len() == self@.len(),
            forall|i: int| 0 <= i < v@.len() ==> v@[i] == self@[i] + rhs.v(),
    {
        let mut content: Vec<T> = Vec::new();
        let mut n: usize = 0;
        while n < self.content.len()
            invariant
                n <= self@.len(),
                content@.len() == n,
                forall|i: int| 0 <= i < n ==> content@[i].v() == self@[i] + rhs.v(),
            decreases self@.len() - n,
        {
            assert(self@[n as int] == self.content@[n as int].v());
            content.push(self.content[n].add(rhs));
            n += 1;
        }
        Vector { content }
    }

    /// Broadcast difference: subtracts one scalar from every element.
    pub fn sub_scalar(&self, rhs: T) -> (v: Vector<T>)
        requires
            forall|i: int| 0 <= i < self@.len() ==> T::in_range(self@[i] - rhs.v()),
        ensures
            v@.len() == self@.len(),
            forall|i: int| 0 <= i < v@.len() ==> v@[i] == self@[i] - rhs.v(),
    {
        let mut content: Vec<T> = Vec::new();
        let mut n: usize = 0;
        while n < self.content.len()
            invariant
                n <= self@.len(),
                content@.len() == n,
                forall|i: int| 0 <= i < n ==> content@[i].v() == self@[i] - rhs.v(),
            decreases self@.len() - n,
        {
            assert(self@[n as int] == self.content@[n as int].v());
            content.push(self.content[n].sub(rhs));
            n += 1;
        }
        Vector { content }
    }

    /// Broadcast product: multiplies every element by one scalar.
    pub fn mul_scalar(&self, rhs: T) -> (v: Vector<T>)
        requires
            forall|i: int| 0 <= i < self@.len() ==> T::in_range(self@[i] * rhs.v()),
        ensures
            v@.len() == self@.len(),
            forall|i: int| 0 <= i < v@.len() ==> v@[i] == self@[i] * rhs.v(),
    {
        let mut content: Vec<T> = Vec::new();
        let mut n: usize = 0;
        while n < self.content.len()
            invariant
                n <= self@.len(),
                content@.len() == n,
                forall|i: int| 0 <= i < n ==> content@[i].v() == self@[i] * rhs.v(),
            decreases self@.len() - n,
        {
            assert(self@[n as int] == self.content@[n as int].v());
            content.push(self.content[n].mul(rhs));
            n += 1;
        }
        Vector { content }
    }

    /// Broadcast quotient: divides every element by one scalar.  The order
    /// is fixed as element over scalar (`self[i] / rhs`), and the library
    /// holds that order as its contract, since division does not commute.
    pub fn div_scalar(&self, rhs: T) -> (v: Vector<T>)
        requires
            rhs.v() != 0,
            forall|i: int| 0 <= i < self@.len() ==> T::in_range(tdiv(self@[i], rhs.v())),
        ensures
            v@.len() == self@.len(),
            forall|i: int| 0 <= i < v@.len() ==> v@[i] == tdiv(self@[i], rhs.v()),
    {
        let mut content: Vec<T> = Vec::new();
        let mut n: usize = 0;
        while n < self.content.len()
            invariant
                n <= self@.len(),
                content@.len() == n,
                forall|i: int| 0 <= i < n ==> content@[i].v() == tdiv(self@[i], rhs.v()),
            decreases self@.len() - n,
        {
            assert(self@[n as int] == self.content@[n as int].v());
            content.push(self.content[n].div(rhs));
            n += 1;
        }
        Vector { content }
    }
}

impl<T: SignedNumber> Vector<T> {
    /// Negation: a new vector with every element negated.
    pub fn neg(&self) -> (v: Vector<T>)
        requires
            forall|i: int| 0 <= i < self@.len() ==> T::in_range(-self@[i]),
        ensures
            v@.len() == self@.len(),
            forall|i: int| 0 <= i < v@.len() ==> v@[i] == -self@[i],
    {
        let mut content: Vec<T> = Vec::new();
        let mut n: usize = 0;
        while n < self.content.len()
            invariant
                n <= self@.len(),
                content@.len() == n,
                forall|i: int| 0 <= i < n ==> content@[i].v() == -self@[i],
            decreases self@.len() - n,
        {
            assert(self@[n as int] == self.content@[n as int].v());
            content.push(self.content[n].neg());
            n += 1;
        }
        Vector { content }
    }
}


impl<T: Number> Vector<T> {
    /// Vector times matrix: the same computation as
    /// `Matrix::mul_vector`: the conventional product of each matrix row
    /// with this vector.  Requires `rhs.cols == self.len()`, else
    /// `DimensionMismatch`.
    pub fn mul_matrix(&self, rhs: &Matrix<T>) -> (r: Result<Vector<T>, MathError>)
        requires
            rhs.wf(),
            rhs.cols == self@.len() ==> forall|i: int, n: int|
                #![trigger rhs.at(i, n)]
                0 <= i < rhs.rows && 0 <= n < rhs.cols ==> T::in_range(rhs.at(i, n) * self@[n]),
            rhs.cols == self@.len() ==> forall|i: int, n: int|
                #![trigger row_mul_sum(rhs.content@, rhs.cols as int, self@, i, n)]
                0 <= i < rhs.rows && 0 <= n < rhs.cols ==> T::in_range(
                    row_mul_sum(rhs.content@, rhs.cols as int, self@, i, n) + rhs.at(i, n)
                        * self@[n],
                ),
        ensures
            match r {
                Ok(v) => rhs.cols == self@.len() && v@.len() == rhs.rows && forall|i: int|
                    0 <= i < v@.len() ==> v@[i] == row_mul_sum(
                        rhs.content@,
                        rhs.cols as int,
                        self@,
                        i,
                        rhs.cols as int,
                    ),
                Err(e) => rhs.cols != self@.len() && e == MathError::DimensionMismatch,
            },
    {
        rhs.mul_vector(self)
    }

    /// Vector plus matrix, folded per matrix row: the same computation as
    /// `Matrix::add_vector`.  Requires `rhs.cols == self.len()`, else
    /// `DimensionMismatch`.
    pub fn add_matrix(&self, rhs: &Matrix<T>) -> (r: Result<Vector<T>, MathError>)
        requires
            rhs.wf(),
            rhs.cols == self@.len() ==> forall|i: int, n: int|
                #![trigger rhs.at(i, n)]
                0 <= i < rhs.rows && 0 <= n < rhs.cols ==> T::in_range(
                    row_add_sum(rhs.content@, rhs.cols as int, self@, i, n) + rhs.at(i, n),
                ),
            rhs.cols == self@.len() ==> forall|i: int, n: int|
                #![trigger row_add_sum(rhs.content@, rhs.cols as int, self@, i, n)]
                0 <= i < rhs.rows && 0 <= n < rhs.cols ==> T::in_range(
                    row_add_sum(rhs.content@, rhs.cols as int, self@, i, n) + rhs.at(i, n)
                        + self@[n],
                ),
        ensures
            match r {
                Ok(v) => rhs.cols == self@.len() && v@.len() == rhs.rows && forall|i: int|
                    0 <= i < v@.len() ==> v@[i] == row_add_sum(
                        rhs.content@,
                        rhs.cols as int,
                        self@,
                        i,
                        rhs.cols as int,
                    ),
                Err(e) => rhs.cols != self@.len() && e == MathError::DimensionMismatch,
            },
    {
        rhs.add_vector(self)
    }

    /// Matrix entries minus this vector, folded per matrix row: the same
    /// computation as `Matrix::sub_vector`.  Requires
    /// `rhs.cols == self.len()`, else `DimensionMismatch`.
    pub fn sub_matrix(&self, rhs: &Matrix<T>) -> (r: Result<Vector<T>, MathError>)
        requires
            rhs.wf(),
            rhs.cols == self@.len() ==> forall|i: int, n: int|
                #![trigger rhs.at(i, n)]
                0 <= i < rhs.rows && 0 <= n < rhs.cols ==> T::in_range(
                    row_sub_sum(rhs.content@, rhs.cols as int, self@, i, n) + rhs.at(i, n),
                ),
            rhs.cols == self@.len() ==> forall|i: int, n: int|
                #![trigger row_sub_sum(rhs.content@, rhs.cols as int, self@, i, n)]
                0 <= i < rhs.rows && 0 <= n < rhs.cols ==> T::in_range(
                    row_sub_sum(rhs.content@, rhs.cols as int, self@, i, n) + rhs.at(i, n)
                        - self@[n],
                ),
        ensures
            match r {
                Ok(v) => rhs.cols == self@.len() && v@.len() == rhs.rows && forall|i: int|
                    0 <= i < v@.len() ==> v@[i] == row_sub_sum(
                        rhs.content@,
                        rhs.cols as int,
                        self@,
                        i,
                        rhs.cols as int,
                    ),
                Err(e) => rhs.cols != self@.len() && e == MathError::DimensionMismatch,
            },
    {
        rhs.sub_vector(self)
    }

    /// Matrix entries divided by this vector, folded per matrix row: the
    /// same computation as `Matrix::div_vector`.  Requires
    /// `rhs.cols == self.len()`, else `DimensionMismatch`.
    pub fn div_matrix(&self, rhs: &Matrix<T>) -> (r: Result<Vector<T>, MathError>)
        requires
            rhs.wf(),
            (rhs.cols == self@.len() && rhs.rows > 0) ==> forall|n: int|
                0 <= n < rhs.cols ==> self@[n] != 0,
            rhs.cols == self@.len() ==> forall|i: int, n: int|
                #![trigger rhs.at(i, n)]
                0 <= i < rhs.rows && 0 <= n < rhs.cols ==> T::in_range(
                    tdiv(rhs.at(i, n), self@[n]),
                ),
            rhs.cols == self@.len() ==> forall|i: int, n: int|
                #![trigger row_div_sum(rhs.content@, rhs.cols as int, self@, i, n)]
                0 <= i < rhs.rows && 0 <= n < rhs.cols ==> T::in_range(
                    row_div_sum(rhs.content@, rhs.cols as int, self@, i, n) + tdiv(
                        rhs.at(i, n),
                        self@[n],
                    ),
                ),
        ensures
            match r {
                Ok(v) => rhs.cols == self@.len() && v@.len() == rhs.rows && forall|i: int|
                    0 <= i < v@.len() ==> v@[i] == row_div_sum(
                        rhs.content@,
                        rhs.cols as int,
                        self@,
                        i,
                        rhs.cols as int,
                    ),
                Err(e) => rhs.cols != self@.len() && e == MathError::DimensionMismatch,
            },
    {
        rhs.div_vector(self)
    }
}

/// A vector holding a copy of the given elements, in order.
pub fn from<T: Number>(elements: &[T]) -> (v: Vector<T>)
    ensures
        v@.len() == elements@.len(),
        forall|i: int| 0 <= i < v@.len() ==> v@[i] == elements@[i].v(),
{
    let mut content: Vec<T> = Vec::new();
    let mut n: usize = 0;
    while n < elements.len()
        invariant
            n <= elements@.len(),
            content@.len() == n,
            forall|i: int| 0 <= i < n ==> content@[i].v() == elements@[i].v(),
        decreases elements@.len() - n,
    {
        content.push(*slice_index_get(elements, n));
        n += 1;
    }
    Vector { content }
}

/// A vector of `length` uniformly random scalars.  Only the length is
/// promised: the elements come from the random generator.
pub fn random<T: Number>(length: usize) -> (v: Vector<T>)
    ensures
        v@.len() == length,
{
    let mut content: Vec<T> = Vec::new();
    let mut n: usize = 0;
    while n < length
        invariant
            n <= length,
            content@.len() == n,
        decreases length - n,
    {
        content.push(T::random_value());
        n += 1;
    }
    Vector { content }
}

} // verus!
