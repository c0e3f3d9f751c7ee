//! Exact monetary values.
//!
//! Every amount of money in the ledger is a signed multiple of the minor
//! unit, one ten-thousandth of the currency unit, held in an `i128`.  No
//! floating point is involved anywhere.  Division is the only operation
//! that can lose precision; it rounds to the nearest minor unit, halves
//! away from zero (`rounded_div`), and that single rule is used for all
//! loan arithmetic.
use vstd::prelude::*;

verus! {

/// Number of minor units in one currency unit: amounts carry four
/// fractional digits.
pub const UNITS_PER_WHOLE: i128 = 10_000;

/// Largest magnitude, in minor units, that the ledger stores or accepts.
/// It leaves enough headroom in `i128` for every product formed here:
/// a stored amount times an interest rate in basis points stays well
/// below `i128::MAX`.
pub const AMOUNT_LIMIT: i128 = 1_000_000_000_000_000_000_000_000_000_000_000;

/// Quotient of `n / d` rounded to the nearest integer, halves away from
/// zero, for `n >= 0`, `d > 0`.
pub open spec fn rounded_div_nonneg(n: int, d: int) -> int {
    (n + d / 2) / d
}

/// Quotient of `n / d` rounded to the nearest integer, halves away from
/// zero, for `d > 0`.
pub open spec fn rounded_div(n: int, d: int) -> int {
    if n >= 0 {
        rounded_div_nonneg(n, d)
    } else {
        -rounded_div_nonneg(-n, d)
    }
}

/// A monetary value: `units` minor units, i.e. `units / 10_000` currency
/// units.
#[derive(Clone, Copy, PartialEq, Eq, Structural, Debug, Hash)]
pub struct Amount {
    units: i128,
}

impl View for Amount {
    type V = int;

    closed spec fn view(&self) -> int {
        self.units as int
    }
}

impl Amount {
    /// An amount is well formed when its magnitude is at most
    /// `AMOUNT_LIMIT` minor units.
    pub open spec fn wf(self) -> bool {
        -(AMOUNT_LIMIT as int) <= self@ <= AMOUNT_LIMIT as int
    }


    /// The zero amount.
    pub fn zero() -> (r: Amount)
        ensures
            r@ == 0,
            r.wf(),
    {
        Amount { units: 0 }
    }

    /// The amount of `whole` currency units.
    pub fn from_whole(whole: i64) -> (r: Amount)
        ensures
            r@ == whole * UNITS_PER_WHOLE,
            r.wf(),
    {
        proof {
            assert((whole as int) * (UNITS_PER_WHOLE as int) <= AMOUNT_LIMIT as int
                && -(AMOUNT_LIMIT as int) <= (whole as int) * (UNITS_PER_WHOLE as int))
                by (nonlinear_arith)
                requires
                    -0x8000_0000_0000_0000 <= whole <= 0x7fff_ffff_ffff_ffff,
            ;
        }
        Amount { units: (whole as i128) * UNITS_PER_WHOLE }
    }

    /// The amount of `units` minor units.
    pub fn from_units(units: i128) -> (r: Amount)
        ensures
            r@ == units,
    {
        Amount { units }
    }

    /// The value in minor units.
    pub fn units(&self) -> (r: i128)
        ensures
            r == self@,
    {
        self.units
    }

    /// Sum of two amounts.
    pub fn add(&self, other: &Amount) -> (r: Amount)
        requires
            self.wf(),
            other.wf(),
        ensures
            r@ == self@ + other@,
    {
        Amount { units: self.units + other.units }
    }

    /// Difference of two amounts.
    pub fn sub(&self, other: &Amount) -> (r: Amount)
        requires
            self.wf(),
            other.wf(),
        ensures
            r@ == self@ - other@,
    {
        Amount { units: self.units - other.units }
    }

    /// The negated amount.
    pub fn neg(&self) -> (r: Amount)
        requires
            self.wf(),
        ensures
            r@ == -self@,
            r.wf(),
    {
        Amount { units: -self.units }
    }

    /// Whether the amount is exactly zero.
    pub fn is_zero(&self) -> (r: bool)
        ensures
            r == (self@ == 0),
    {
        self.units == 0
    }

    /// Whether the amount is strictly negative.
    pub fn is_negative(&self) -> (r: bool)
        ensures
            r == (self@ < 0),
    {
        self.units < 0
    }

    /// Whether the amount is strictly positive.
    pub fn is_positive(&self) -> (r: bool)
        ensures
            r == (self@ > 0),
    {
        self.units > 0
    }

    /// Strict comparison, `self < other`.
    pub fn lt(&self, other: &Amount) -> (r: bool)
        ensures
            r == (self@ < other@),
    {
        self.units < other.units
    }

    /// The amount scaled by a small integer factor; exact.
    pub fn times_int(&self, factor: i16) -> (r: Amount)
        requires
            self.wf(),
        ensures
            r@ == self@ * factor,
    {
        proof {
            lemma_scaled_in_range(self@, factor as int, 0x8000);
        }
        Amount { units: self.units * (factor as i128) }
    }

    /// The amount scaled by a rate given in basis points (hundredths of a
    /// percent), rounded to the nearest minor unit, halves away from zero.
    pub fn times_bps(&self, bps: i16) -> (r: Amount)
        requires
            self.wf(),
        ensures
            r@ == rounded_div(self@ * bps, 10_000),
    {
        proof {
            lemma_scaled_in_range(self@, bps as int, 0x8000);
        }
        let scaled: i128 = self.units * (bps as i128);
        Amount { units: div_units(scaled, 10_000) }
    }

    /// The amount divided by a positive integer, rounded to the nearest
    /// minor unit, halves away from zero.
    pub fn div_int(&self, divisor: u16) -> (r: Amount)
        requires
            self.wf(),
            divisor >= 1,
        ensures
            r@ == rounded_div(self@, divisor as int),
    {
        Amount { units: div_units(self.units, divisor as i128) }
    }
}

/// Rounded division never grows the magnitude of the dividend: a value
/// within a bound stays within that bound.
pub proof fn lemma_rounded_div_in_range(n: int, d: int, bound: int)
    requires
        1 <= d,
        0 <= bound,
        -bound <= n <= bound,
    ensures
        -bound <= rounded_div(n, d) <= bound,
{
    if n >= 0 {
        lemma_rounded_div_bounds(n, d);
    } else {
        lemma_rounded_div_bounds(-n, d);
    }
}

/// Rounded division of a non-negative value by a positive divisor never
/// exceeds the dividend and never goes negative.
pub proof fn lemma_rounded_div_bounds(n: int, d: int)
    requires
        0 <= n,
        1 <= d,
    ensures
        0 <= rounded_div(n, d) <= n,
{
    let h = d / 2;
    vstd::arithmetic::div_mod::lemma_fundamental_div_mod(d, 2);
    assert(2 * h <= d);
    assert(h <= d - 1);
    assert(n + h <= n * d + (d - 1)) by (nonlinear_arith)
        requires
            0 <= n,
            1 <= d,
            h <= d - 1,
    ;
    vstd::arithmetic::div_mod::lemma_div_is_ordered(n + h, n * d + (d - 1), d);
    vstd::arithmetic::div_mod::lemma_div_multiples_vanish_fancy(n, d - 1, d);
    assert(d * n == n * d) by (nonlinear_arith);
    vstd::arithmetic::div_mod::lemma_div_pos_is_pos(n + h, d);
}

/// Bound on a product of an amount in range and a small factor, used to
/// discharge the overflow checks above.
proof fn lemma_scaled_in_range(n: int, k: int, kbound: int)
    requires
        -(AMOUNT_LIMIT as int) <= n <= AMOUNT_LIMIT as int,
        -kbound <= k <= kbound,
        0 < kbound <= 0x10000,
    ensures
        -(AMOUNT_LIMIT as int) * kbound <= n * k <= (AMOUNT_LIMIT as int) * kbound,
{
    assert(-(AMOUNT_LIMIT as int) * kbound <= n * k <= (AMOUNT_LIMIT as int) * kbound)
        by (nonlinear_arith)
        requires
            -(AMOUNT_LIMIT as int) <= n <= AMOUNT_LIMIT as int,
            -kbound <= k <= kbound,
            0 < kbound,
    ;
}

/// Rounded division on raw minor units: nearest integer, halves away from
/// zero.
fn div_units(n: i128, d: i128) -> (r: i128)
    requires
        1 <= d <= 1_000_000,
        -0x2000_0000_0000_0000_0000_0000_0000_0000 <= n
            <= 0x2000_0000_0000_0000_0000_0000_0000_0000,
    ensures
        r == rounded_div(n as int, d as int),
{
    if n >= 0 {
        (n + d / 2) / d
    } else {
        -((-n + d / 2) / d)
    }
}

} // verus!
