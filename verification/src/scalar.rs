//! Exact scalar arithmetic for the traversal.
//!
//! Ray coordinates are exact rationals (`Frac`), and the per-axis
//! parametric distances of the traversal are exact rationals with an
//! explicit positive infinity (`Par`).  A `Ratio` is the mathematical
//! value of either: a pair of integers with a positive denominator, or
//! the infinity `den == 0`, which compares greater than every finite
//! value and never compares less than anything.

use vstd::prelude::*;

verus! {

/// Numerator magnitude limit for ray coordinates; keeps every product
/// that the traversal forms within machine integers.
pub const FRAC_NUM_MAX: i64 = 0x4000_0000;

/// Denominator limit for ray coordinates.
pub const FRAC_DEN_MAX: i64 = 0x10_0000;

/// Numerator magnitude limit for parametric distances.
pub const PAR_NUM_MAX: i128 = 0x8000_0000_0000_0000_000;

/// Denominator limit for parametric distances.
pub const PAR_DEN_MAX: i128 = 0x8_0000_0000_0000;

/// Mathematical value of a scalar: `num / den` when `den >= 1`, and
/// positive infinity when `den == 0`.
pub ghost struct Ratio {
    pub num: int,
    pub den: int,
}

/// A finite value: the denominator is positive.
pub open spec fn is_fin(r: Ratio) -> bool {
    r.den >= 1
}

/// Strict order on scalar values by cross-multiplication; infinity is
/// never less than anything, and every finite value is less than
/// infinity.
pub open spec fn ratio_lt(a: Ratio, b: Ratio) -> bool {
    if a.den == 0 {
        false
    } else if b.den == 0 {
        true
    } else {
        a.num * b.den < b.num * a.den
    }
}

/// Equality of two finite scalar values by cross-multiplication.
pub open spec fn ratio_eq(a: Ratio, b: Ratio) -> bool {
    &&& is_fin(a)
    &&& is_fin(b)
    &&& a.num * b.den == b.num * a.den
}

/// An exact rational ray coordinate, `num / den` with `den >= 1`.
#[derive(Clone, Copy, PartialEq, Eq, Structural, Debug)]
pub struct Frac {
    pub num: i64,
    pub den: i64,
}

impl View for Frac {
    type V = Ratio;

    open spec fn view(&self) -> Ratio {
        Ratio { num: self.num as int, den: self.den as int }
    }
}

/// A coordinate the traversal accepts: positive denominator, and both
/// parts small enough that all derived products fit machine integers.
pub open spec fn frac_bounded(r: Ratio) -> bool {
    &&& 1 <= r.den <= FRAC_DEN_MAX
    &&& -FRAC_NUM_MAX <= r.num <= FRAC_NUM_MAX
}

/// A per-axis parametric distance: `num / den` with `den >= 1`, or the
/// "never crosses" infinity `den == 0, num == 1` of a zero direction
/// component.
#[derive(Clone, Copy, PartialEq, Eq, Structural, Debug)]
pub struct Par {
    pub num: i128,
    pub den: i128,
}

impl View for Par {
    type V = Ratio;

    open spec fn view(&self) -> Ratio {
        Ratio { num: self.num as int, den: self.den as int }
    }
}

/// Bounds under which cross-multiplication of two `Par` values stays
/// within `i128`.
pub open spec fn par_bounded(r: Ratio) -> bool {
    &&& -PAR_NUM_MAX <= r.num <= PAR_NUM_MAX
    &&& 0 <= r.den <= PAR_DEN_MAX
}

/// Interval bound on a product: a factor of magnitude at most `xb`
/// times a factor in `[0, yb]` lies within `[-(xb * yb), xb * yb]`.
pub proof fn lemma_mul_abs_bound(x: int, y: int, xb: int, yb: int)
    requires
        -xb <= x <= xb,
        0 <= y <= yb,
    ensures
        -(xb * yb) <= x * y <= xb * yb,
{
    vstd::arithmetic::mul::lemma_mul_nonnegative(xb, yb);
    if x >= 0 {
        vstd::arithmetic::mul::lemma_mul_upper_bound(x, xb, y, yb);
        vstd::arithmetic::mul::lemma_mul_nonnegative(x, y);
    } else {
        vstd::arithmetic::mul::lemma_mul_upper_bound(-x, xb, y, yb);
        vstd::arithmetic::mul::lemma_mul_nonnegative(-x, y);
        vstd::arithmetic::mul::lemma_mul_unary_negation(x, y);
    }
}

/// Exact comparison of two parametric distances.
pub fn par_lt(a: &Par, b: &Par) -> (r: bool)
    requires
        par_bounded(a@),
        par_bounded(b@),
    ensures
        r == ratio_lt(a@, b@),
{
    if a.den == 0 {
        false
    } else if b.den == 0 {
        true
    } else {
        proof {
            assert(a.num * b.den <= PAR_NUM_MAX * PAR_DEN_MAX && a.num * b.den
                >= -PAR_NUM_MAX * PAR_DEN_MAX) by (nonlinear_arith)
                requires
                    -PAR_NUM_MAX <= a.num <= PAR_NUM_MAX,
                    0 <= b.den <= PAR_DEN_MAX,
            ;
            assert(b.num * a.den <= PAR_NUM_MAX * PAR_DEN_MAX && b.num * a.den
                >= -PAR_NUM_MAX * PAR_DEN_MAX) by (nonlinear_arith)
                requires
                    -PAR_NUM_MAX <= b.num <= PAR_NUM_MAX,
                    0 <= a.den <= PAR_DEN_MAX,
            ;
        }
        a.num * b.den < b.num * a.den
    }
}

} // verus!
