//! Exact rational numbers.
//!
//! The viewport transform is a composition of additions, multiplications and
//! divisions on coordinates; over rationals it is computed exactly, so the
//! geometric laws of the transform (round-trip, anchor invariance) hold
//! exactly rather than up to a floating-point tolerance.

use vstd::prelude::*;

verus! {

/// An exact rational number `num / den`; well formed when `den > 0`.
#[derive(Clone, Copy, Debug)]
pub struct Rat {
    pub num: i128,
    pub den: i128,
}

impl Rat {
    /// A rational is well formed when its denominator is positive.
    pub open spec fn wf(self) -> bool {
        self.den > 0
    }

    /// Both components are at most `b` in magnitude.
    pub open spec fn bounded(self, b: int) -> bool {
        -b <= self.num <= b && self.den <= b
    }

    pub fn new(num: i128, den: i128) -> (r: Rat)
        requires
            den > 0,
        ensures
            r == (Rat { num, den }),
    {
        Rat { num, den }
    }
}

/// The value of a `Rat` as a pair (numerator, denominator) of unbounded integers.
pub open spec fn q_of(r: Rat) -> (int, int) {
    (r.num as int, r.den as int)
}

/// Sum of two rationals given as (numerator, denominator) pairs.
pub open spec fn q_add(a: (int, int), b: (int, int)) -> (int, int) {
    (a.0 * b.1 + b.0 * a.1, a.1 * b.1)
}

/// Difference of two rationals given as (numerator, denominator) pairs.
pub open spec fn q_sub(a: (int, int), b: (int, int)) -> (int, int) {
    (a.0 * b.1 - b.0 * a.1, a.1 * b.1)
}

/// Product of two rationals given as (numerator, denominator) pairs.
pub open spec fn q_mul(a: (int, int), b: (int, int)) -> (int, int) {
    (a.0 * b.0, a.1 * b.1)
}

/// Quotient of two rationals given as (numerator, denominator) pairs.
pub open spec fn q_div(a: (int, int), b: (int, int)) -> (int, int) {
    (a.0 * b.1, a.1 * b.0)
}

/// Two (numerator, denominator) pairs denote the same rational value.
pub open spec fn q_eq(a: (int, int), b: (int, int)) -> bool {
    a.0 * b.1 == b.0 * a.1
}

/// `q_eq` is transitive across a pair whose denominator is nonzero.
pub proof fn lemma_q_eq_trans(a: (int, int), b: (int, int), c: (int, int))
    by (nonlinear_arith)
    requires
        q_eq(a, b),
        q_eq(b, c),
        b.1 != 0,
    ensures
        q_eq(a, c),
{
}

/// Truncation toward zero of `num / den` (for `den > 0`): the sampling policy
/// that maps a world coordinate to a source-pixel index.
pub open spec fn rat_trunc(num: int, den: int) -> int {
    if num >= 0 {
        num / den
    } else {
        -((-num) / den)
    }
}

/// Truncation toward zero, executable. Rust's `/` on signed integers already
/// truncates toward zero, which is exactly `rat_trunc`.
pub fn rat_trunc_exec(num: i128, den: i128) -> (r: i128)
    requires
        den > 0,
    ensures
        r == rat_trunc(num as int, den as int),
{
    num / den
}

/// `|x * y| <= xb * yb` whenever `|x| <= xb` and `|y| <= yb`.
pub proof fn lemma_mul_bound(x: int, y: int, xb: int, yb: int)
    by (nonlinear_arith)
    requires
        -xb <= x <= xb,
        -yb <= y <= yb,
        0 <= xb,
        0 <= yb,
    ensures
        -(xb * yb) <= x * y <= xb * yb,
{
}

/// A product of two positive integers is positive.
pub proof fn lemma_mul_pos(x: int, y: int)
    by (nonlinear_arith)
    requires
        x > 0,
        y > 0,
    ensures
        x * y > 0,
{
}

} // verus!
