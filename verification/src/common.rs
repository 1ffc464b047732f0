//! The scalar capability shared by both containers: a `Number` is a copyable
//! value with ring arithmetic, additive and multiplicative identities, and a
//! uniform random generator.  Every contract in the library speaks of a
//! scalar through its mathematical value `v()` (an `int`) and the set of
//! representable values `in_range`.

use vstd::prelude::*;

verus! {

/// The errors of the library.  Every fallible operation names, if and only
/// if its input is rejected, exactly one of these.
#[derive(Clone, Copy, Debug, PartialEq, Eq, Structural)]
pub enum MathError {
    /// A read or write with an out-of-bounds row, column or position.
    IndexOutOfRange,
    /// A binary operator between two containers of incompatible shape.
    DimensionMismatch,
    /// A reshape whose element count changes.
    ShapeMismatch,
    /// A trace of a non-square matrix.
    NotSquare,
}

/// Division truncated toward zero, as the scalar types compute it.
/// (Spec-level `/` on `int` is Euclidean; executable integer division
/// truncates, so the contracts use this function instead.)
pub open spec fn tdiv(a: int, b: int) -> int {
    let q = (if a < 0 {
        -a
    } else {
        a
    }) / (if b < 0 {
        -b
    } else {
        b
    });
    if (a < 0) == (b < 0) {
        q
    } else {
        -q
    }
}

/// Truncated division agrees with the sign-by-sign case analysis that the
/// standard library's `checked_div` is specified with.
pub proof fn lemma_tdiv_truncation(x: int, d: int)
    requires
        d != 0,
    ensures
        tdiv(x, d) == (if x == 0 {
            0int
        } else if x > 0 && d > 0 {
            x / d
        } else if x < 0 && d < 0 {
            (x * -1) / (d * -1)
        } else if x < 0 {
            ((x * -1) / d) * -1
        } else {
            (x / (d * -1)) * -1
        }),
{
    if x == 0 {
        let dd: int = if d < 0 {
            -d
        } else {
            d
        };
        assert(dd > 0);
        assert(0int / dd == 0) by (nonlinear_arith)
            requires dd > 0;
    }
}

/// A scalar type usable in a `Vector` or `Matrix`: value semantics, ring
/// arithmetic with the native overflow and truncation behaviour of the
/// type, the identities of addition and multiplication, equality, and a
/// uniform random generator.
///
/// `v()` maps a scalar to the mathematical integer it represents, and
/// `in_range` says which mathematical integers the type can hold; each
/// arithmetic method requires its exact result to be representable and
/// then returns it exactly.
pub trait Number: Copy + Sized {
    /// The mathematical value of this scalar.
    spec fn v(self) -> int;

    /// Whether the type can represent the mathematical integer `x`.
    spec fn in_range(x: int) -> bool;

    /// The additive identity.
    fn zero() -> (r: Self)
        ensures
            r.v() == 0,
    ;

    /// The multiplicative identity.
    fn one() -> (r: Self)
        ensures
            r.v() == 1,
    ;

    fn add(self, rhs: Self) -> (r: Self)
        requires
            Self::in_range(self.v() + rhs.v()),
        ensures
            r.v() == self.v() + rhs.v(),
    ;

    fn sub(self, rhs: Self) -> (r: Self)
        requires
            Self::in_range(self.v() - rhs.v()),
        ensures
            r.v() == self.v() - rhs.v(),
    ;

    fn mul(self, rhs: Self) -> (r: Self)
        requires
            Self::in_range(self.v() * rhs.v()),
        ensures
            r.v() == self.v() * rhs.v(),
    ;

    fn div(self, rhs: Self) -> (r: Self)
        requires
            rhs.v() != 0,
            Self::in_range(tdiv(self.v(), rhs.v())),
        ensures
            r.v() == tdiv(self.v(), rhs.v()),
    ;

    fn eq_val(self, rhs: Self) -> (r: bool)
        ensures
            r <==> self.v() == rhs.v(),
    ;

    /// A uniformly random scalar.  Nothing can be promised of the value.
    fn random_value() -> Self;
}

/// A scalar type that also supports negation.
pub trait SignedNumber: Number {
    fn neg(self) -> (r: Self)
        requires
            Self::in_range(-self.v()),
        ensures
            r.v() == -self.v(),
    ;
}

/// Relies on rand::random: a uniformly random value of the type, from the
/// thread-local generator.  Nothing is promised of the value.
#[verifier::external_body]
fn random_u8() -> u8 {
    rand::random::<u8>()
}

/// Relies on rand::random: a uniformly random value of the type, from the
/// thread-local generator.  Nothing is promised of the value.
#[verifier::external_body]
fn random_i8() -> i8 {
    rand::random::<i8>()
}

impl Number for u8 {
    open spec fn v(self) -> int {
        self as int
    }

    open spec fn in_range(x: int) -> bool {
        0 <= x <= u8::MAX
    }

    fn zero() -> u8 {
        0
    }

    fn one() -> u8 {
        1
    }

    fn add(self, rhs: u8) -> u8 {
        self + rhs
    }

    fn sub(self, rhs: u8) -> u8 {
        self - rhs
    }

    fn mul(self, rhs: u8) -> u8 {
        self * rhs
    }

    fn div(self, rhs: u8) -> u8 {
        self / rhs
    }

    fn eq_val(self, rhs: u8) -> bool {
        self == rhs
    }

    fn random_value() -> u8 {
        random_u8()
    }
}

impl Number for i8 {
    open spec fn v(self) -> int {
        self as int
    }

    open spec fn in_range(x: int) -> bool {
        i8::MIN <= x <= i8::MAX
    }

    fn zero() -> i8 {
        0
    }

    fn one() -> i8 {
        1
    }

    fn add(self, rhs: i8) -> i8 {
        self + rhs
    }

    fn sub(self, rhs: i8) -> i8 {
        self - rhs
    }

    fn mul(self, rhs: i8) -> i8 {
        self * rhs
    }

    fn div(self, rhs: i8) -> (r: i8) {
        proof {
            lemma_tdiv_truncation(self as int, rhs as int);
        }
        match self.checked_div(rhs) {
            Some(q) => q,
            None => {
                assert(false);
                0
            },
        }
    }

    fn eq_val(self, rhs: i8) -> bool {
        self == rhs
    }

    fn random_value() -> i8 {
        random_i8()
    }
}

impl SignedNumber for i8 {
    fn neg(self) -> i8 {
        -self
    }
}

/// Relies on rand::random: a uniformly random value of the type, from the
/// thread-local generator.  Nothing is promised of the value.
#[verifier::external_body]
fn random_u16() -> u16 {
    rand::random::<u16>()
}

impl Number for u16 {
    open spec fn v(self) -> int {
        self as int
    }

    open spec fn in_range(x: int) -> bool {
        0 <= x <= u16::MAX
    }

    fn zero() -> u16 {
        0
    }

    fn one() -> u16 {
        1
    }

    fn add(self, rhs: u16) -> u16 {
        self + rhs
    }

    fn sub(self, rhs: u16) -> u16 {
        self - rhs
    }

    fn mul(self, rhs: u16) -> u16 {
        self * rhs
    }

    fn div(self, rhs: u16) -> u16 {
        self / rhs
    }

    fn eq_val(self, rhs: u16) -> bool {
        self == rhs
    }

    fn random_value() -> u16 {
        random_u16()
    }
}

/// Relies on rand::random: a uniformly random value of the type, from the
/// thread-local generator.  Nothing is promised of the value.
#[verifier::external_body]
fn random_u32() -> u32 {
    rand::random::<u32>()
}

impl Number for u32 {
    open spec fn v(self) -> int {
        self as int
    }

    open spec fn in_range(x: int) -> bool {
        0 <= x <= u32::MAX
    }

    fn zero() -> u32 {
        0
    }

    fn one() -> u32 {
        1
    }

    fn add(self, rhs: u32) -> u32 {
        self + rhs
    }

    fn sub(self, rhs: u32) -> u32 {
        self - rhs
    }

    fn mul(self, rhs: u32) -> u32 {
        self * rhs
    }

    fn div(self, rhs: u32) -> u32 {
        self / rhs
    }

    fn eq_val(self, rhs: u32) -> bool {
        self == rhs
    }

    fn random_value() -> u32 {
        random_u32()
    }
}

/// Relies on rand::random: a uniformly random value of the type, from the
/// thread-local generator.  Nothing is promised of the value.
#[verifier::external_body]
fn random_u64() -> u64 {
    rand::random::<u64>()
}

impl Number for u64 {
    open spec fn v(self) -> int {
        self as int
    }

    open spec fn in_range(x: int) -> bool {
        0 <= x <= u64::MAX
    }

    fn zero() -> u64 {
        0
    }

    fn one() -> u64 {
        1
    }

    fn add(self, rhs: u64) -> u64 {
        self + rhs
    }

    fn sub(self, rhs: u64) -> u64 {
        self - rhs
    }

    fn mul(self, rhs: u64) -> u64 {
        self * rhs
    }

    fn div(self, rhs: u64) -> u64 {
        self / rhs
    }

    fn eq_val(self, rhs: u64) -> bool {
        self == rhs
    }

    fn random_value() -> u64 {
        random_u64()
    }
}

/// Relies on rand::random: a uniformly random value of the type, from the
/// thread-local generator.  Nothing is promised of the value.
#[verifier::external_body]
fn random_usize() -> usize {
    rand::random::<usize>()
}

impl Number for usize {
    open spec fn v(self) -> int {
        self as int
    }

    open spec fn in_range(x: int) -> bool {
        0 <= x <= usize::MAX
    }

    fn zero() -> usize {
        0
    }

    fn one() -> usize {
        1
    }

    fn add(self, rhs: usize) -> usize {
        self + rhs
    }

    fn sub(self, rhs: usize) -> usize {
        self - rhs
    }

    fn mul(self, rhs: usize) -> usize {
        self * rhs
    }

    fn div(self, rhs: usize) -> usize {
        self / rhs
    }

    fn eq_val(self, rhs: usize) -> bool {
        self == rhs
    }

    fn random_value() -> usize {
        random_usize()
    }
}

/// Relies on rand::random: a uniformly random value of the type, from the
/// thread-local generator.  Nothing is promised of the value.
#[verifier::external_body]
fn random_i16() -> i16 {
    rand::random::<i16>()
}

impl Number for i16 {
    open spec fn v(self) -> int {
        self as int
    }

    open spec fn in_range(x: int) -> bool {
        i16::MIN <= x <= i16::MAX
    }

    fn zero() -> i16 {
        0
    }

    fn one() -> i16 {
        1
    }

    fn add(self, rhs: i16) -> i16 {
        self + rhs
    }

    fn sub(self, rhs: i16) -> i16 {
        self - rhs
    }

    fn mul(self, rhs: i16) -> i16 {
        self * rhs
    }

    fn div(self, rhs: i16) -> (r: i16) {
        proof {
            lemma_tdiv_truncation(self as int, rhs as int);
        }
        match self.checked_div(rhs) {
            Some(q) => q,
            None => {
                assert(false);
                0
            },
        }
    }

    fn eq_val(self, rhs: i16) -> bool {
        self == rhs
    }

    fn random_value() -> i16 {
        random_i16()
    }
}

impl SignedNumber for i16 {
    fn neg(self) -> i16 {
        -self
    }
}

/// Relies on rand::random: a uniformly random value of the type, from the
/// thread-local generator.  Nothing is promised of the value.
#[verifier::external_body]
fn random_i32() -> i32 {
    rand::random::<i32>()
}

impl Number for i32 {
    open spec fn v(self) -> int {
        self as int
    }

    open spec fn in_range(x: int) -> bool {
        i32::MIN <= x <= i32::MAX
    }

    fn zero() -> i32 {
        0
    }

    fn one() -> i32 {
        1
    }

    fn add(self, rhs: i32) -> i32 {
        self + rhs
    }

    fn sub(self, rhs: i32) -> i32 {
        self - rhs
    }

    fn mul(self, rhs: i32) -> i32 {
        self * rhs
    }

    fn div(self, rhs: i32) -> (r: i32) {
        proof {
            lemma_tdiv_truncation(self as int, rhs as int);
        }
        match self.checked_div(rhs) {
            Some(q) => q,
            None => {
                assert(false);
                0
            },
        }
    }

    fn eq_val(self, rhs: i32) -> bool {
        self == rhs
    }

    fn random_value() -> i32 {
        random_i32()
    }
}

impl SignedNumber for i32 {
    fn neg(self) -> i32 {
        -self
    }
}

/// Relies on rand::random: a uniformly random value of the type, from the
/// thread-local generator.  Nothing is promised of the value.
#[verifier::external_body]
fn random_i64() -> i64 {
    rand::random::<i64>()
}

impl Number for i64 {
    open spec fn v(self) -> int {
        self as int
    }

    open spec fn in_range(x: int) -> bool {
        i64::MIN <= x <= i64::MAX
    }

    fn zero() -> i64 {
        0
    }

    fn one() -> i64 {
        1
    }

    fn add(self, rhs: i64) -> i64 {
        self + rhs
    }

    fn sub(self, rhs: i64) -> i64 {
        self - rhs
    }

    fn mul(self, rhs: i64) -> i64 {
        self * rhs
    }

    fn div(self, rhs: i64) -> (r: i64) {
        proof {
            lemma_tdiv_truncation(self as int, rhs as int);
        }
        match self.checked_div(rhs) {
            Some(q) => q,
            None => {
                assert(false);
                0
            },
        }
    }

    fn eq_val(self, rhs: i64) -> bool {
        self == rhs
    }

    fn random_value() -> i64 {
        random_i64()
    }
}

impl SignedNumber for i64 {
    fn neg(self) -> i64 {
        -self
    }
}

} // verus!
