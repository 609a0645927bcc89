//! Exact fixed-point decimal amounts.
//!
//! An amount is held as a signed mantissa and a scale (the number of decimal
//! places), with the same range as `rust_decimal::Decimal`; the arithmetic
//! itself is carried out by `rust_decimal`.

use rust_decimal::Decimal;
use vstd::arithmetic::power::pow;
use vstd::prelude::*;

verus! {

/// The largest mantissa magnitude: 2^96 - 1.
pub const MAX_MANTISSA: i128 = 79228162514264337593543950335;

/// The largest number of decimal places.
pub const MAX_SCALE: u32 = 28;

/// A decimal amount `mantissa / 10^scale`.
#[derive(Clone, Copy, Debug, PartialEq, Eq, Structural)]
pub struct Dec {
    pub mantissa: i128,
    pub scale: u32,
}

/// What `Decimal::checked_add` returns on two amounts.
pub uninterp spec fn add_result(a: Dec, b: Dec) -> Option<Dec>;

/// What `Decimal::checked_sub` returns on two amounts.
pub uninterp spec fn sub_result(a: Dec, b: Dec) -> Option<Dec>;

/// What `Decimal::checked_mul` returns on two amounts.
pub uninterp spec fn mul_result(a: Dec, b: Dec) -> Option<Dec>;

/// What `Decimal::checked_div` returns on two amounts.
pub uninterp spec fn div_result(a: Dec, b: Dec) -> Option<Dec>;

/// What `Decimal::round_dp` returns on an amount and a number of places.
pub uninterp spec fn round_result(a: Dec, dp: u32) -> Dec;

impl Dec {
    pub open spec fn mantissa_spec(self) -> int {
        self.mantissa as int
    }

    pub open spec fn scale_spec(self) -> nat {
        self.scale as nat
    }

    /// A mantissa and a scale that `Decimal` can hold.
    pub open spec fn wf(self) -> bool {
        -MAX_MANTISSA <= self.mantissa <= MAX_MANTISSA && self.scale <= MAX_SCALE
    }

    /// The value in units of 10^-28: every well-formed amount is a whole number of them.
    pub open spec fn units(self) -> int {
        self.mantissa * pow(10, (MAX_SCALE - self.scale) as nat)
    }

    pub open spec fn from_parts(mantissa: int, scale: nat) -> Dec {
        Dec { mantissa: mantissa as i128, scale: scale as u32 }
    }

    /// The amount `mantissa / 10^scale`.
    pub fn new(mantissa: i128, scale: u32) -> (r: Dec)
        requires
            -MAX_MANTISSA <= mantissa <= MAX_MANTISSA,
            scale <= MAX_SCALE,
        ensures
            r.mantissa_spec() == mantissa,
            r.scale_spec() == scale,
            r.wf(),
    {
        Dec { mantissa, scale }
    }

    /// Zero with no decimal places.
    pub fn zero() -> (r: Dec)
        ensures
            r == Dec::from_parts(0, 0),
            r.wf(),
    {
        Dec { mantissa: 0, scale: 0 }
    }

    pub fn mantissa(&self) -> (r: i128)
        ensures
            r == self.mantissa_spec(),
    {
        self.mantissa
    }

    pub fn scale(&self) -> (r: u32)
        ensures
            r == self.scale_spec(),
    {
        self.scale
    }

    pub fn is_zero(&self) -> (r: bool)
        ensures
            r == (self.mantissa_spec() == 0),
    {
        self.mantissa == 0
    }

    pub fn is_negative(&self) -> (r: bool)
        ensures
            r == (self.mantissa_spec() < 0),
    {
        self.mantissa < 0
    }

    pub fn is_positive(&self) -> (r: bool)
        ensures
            r == (self.mantissa_spec() > 0),
    {
        self.mantissa > 0
    }
}

/// The scale at which `Decimal` adds two amounts.
pub open spec fn common_scale(a: Dec, b: Dec) -> nat {
    if a.scale_spec() >= b.scale_spec() {
        a.scale_spec()
    } else {
        b.scale_spec()
    }
}

/// The mantissa of `a` brought to scale `s`.
pub open spec fn aligned(a: Dec, s: nat) -> int {
    a.mantissa_spec() * pow(10, (s - a.scale_spec()) as nat)
}

pub open spec fn fits(m: int) -> bool {
    -MAX_MANTISSA <= m <= MAX_MANTISSA
}

/// Both operands, and their sum, fit at the common scale without rounding.
pub open spec fn add_fits(a: Dec, b: Dec) -> bool {
    let s = common_scale(a, b);
    fits(aligned(a, s)) && fits(aligned(b, s)) && fits(aligned(a, s) + aligned(b, s))
}

/// Both operands, and their difference, fit at the common scale without rounding.
pub open spec fn sub_fits(a: Dec, b: Dec) -> bool {
    let s = common_scale(a, b);
    fits(aligned(a, s)) && fits(aligned(b, s)) && fits(aligned(a, s) - aligned(b, s))
}

/// The sum of two amounts as `Decimal::checked_add` gives it: adding zero
/// hands the other operand back; when both operands and the sum fit in 96 bits
/// at the larger of the two scales, the sum is exact at that scale; otherwise
/// the result is rounded, or `None` on overflow.
pub open spec fn sum_of(a: Dec, b: Dec) -> Option<Dec> {
    let s = common_scale(a, b);
    if a.mantissa == 0 {
        Some(b)
    } else if b.mantissa == 0 {
        Some(a)
    } else if add_fits(a, b) {
        Some(Dec::from_parts(aligned(a, s) + aligned(b, s), s))
    } else {
        add_result(a, b)
    }
}

/// The difference of two amounts as `Decimal::checked_sub` gives it:
/// subtracting zero hands the first operand back, subtracting from zero negates
/// the second; when both operands and the difference fit in 96 bits at the
/// larger of the two scales, the difference is exact at that scale; otherwise
/// the result is rounded, or `None` on overflow.
pub open spec fn difference_of(a: Dec, b: Dec) -> Option<Dec> {
    let s = common_scale(a, b);
    if a.mantissa == 0 {
        Some(Dec::from_parts(-b.mantissa, b.scale as nat))
    } else if b.mantissa == 0 {
        Some(a)
    } else if sub_fits(a, b) {
        Some(Dec::from_parts(aligned(a, s) - aligned(b, s), s))
    } else {
        sub_result(a, b)
    }
}

/// The product of two amounts as `Decimal::checked_mul` gives it: a zero
/// operand gives zero with no places; when the product of the mantissas fits
/// in 96 bits and the places add up to at most 28, the product is exact at
/// that scale; otherwise the result is rounded, or `None` on overflow.
pub open spec fn product_of(a: Dec, b: Dec) -> Option<Dec> {
    if a.mantissa == 0 || b.mantissa == 0 {
        Some(Dec::from_parts(0, 0))
    } else if a.scale + b.scale <= MAX_SCALE && fits(a.mantissa * b.mantissa) {
        Some(Dec::from_parts(a.mantissa * b.mantissa, (a.scale + b.scale) as nat))
    } else {
        mul_result(a, b)
    }
}

/// An amount rounded as `Decimal::round_dp` rounds it: unchanged when it has
/// at most `dp` places; otherwise rounded half to even to `dp` places.
pub open spec fn rounded_of(a: Dec, dp: u32) -> Dec {
    if a.scale <= dp {
        a
    } else {
        round_result(a, dp)
    }
}

/// Relies on `Decimal::checked_add` (see `sum_of`), whose results are
/// well-formed decimals.
#[verifier::external_body]
fn checked_add(a: Dec, b: Dec) -> (r: Option<Dec>)
    requires
        a.wf(),
        b.wf(),
    ensures
        r == sum_of(a, b),
        !(a.mantissa == 0 || b.mantissa == 0 || add_fits(a, b)) ==> r == add_result(a, b),
        r matches Some(c) ==> c.wf(),
{
    let x = Decimal::from_i128_with_scale(a.mantissa, a.scale);
    let y = Decimal::from_i128_with_scale(b.mantissa, b.scale);
    match x.checked_add(y) {
        Some(d) => Some(Dec { mantissa: d.mantissa(), scale: d.scale() }),
        None => None,
    }
}

/// Relies on `Decimal::checked_sub` (see `difference_of`), whose results are
/// well-formed decimals.
#[verifier::external_body]
fn checked_sub(a: Dec, b: Dec) -> (r: Option<Dec>)
    requires
        a.wf(),
        b.wf(),
    ensures
        r == difference_of(a, b),
        !(a.mantissa == 0 || b.mantissa == 0 || sub_fits(a, b)) ==> r == sub_result(a, b),
        r matches Some(c) ==> c.wf(),
{
    let x = Decimal::from_i128_with_scale(a.mantissa, a.scale);
    let y = Decimal::from_i128_with_scale(b.mantissa, b.scale);
    match x.checked_sub(y) {
        Some(d) => Some(Dec { mantissa: d.mantissa(), scale: d.scale() }),
        None => None,
    }
}

/// Relies on `Decimal::checked_mul` (see `product_of`), whose results are
/// well-formed decimals.
#[verifier::external_body]
fn checked_mul(a: Dec, b: Dec) -> (r: Option<Dec>)
    requires
        a.wf(),
        b.wf(),
    ensures
        r == product_of(a, b),
        !(a.mantissa == 0 || b.mantissa == 0 || (a.scale + b.scale <= MAX_SCALE && fits(a.mantissa * b.mantissa)))
            ==> r == mul_result(a, b),
        r matches Some(c) ==> c.wf(),
{
    let x = Decimal::from_i128_with_scale(a.mantissa, a.scale);
    let y = Decimal::from_i128_with_scale(b.mantissa, b.scale);
    match x.checked_mul(y) {
        Some(d) => Some(Dec { mantissa: d.mantissa(), scale: d.scale() }),
        None => None,
    }
}

/// Relies on `Decimal::checked_div`: `None` on a zero divisor or on overflow,
/// the quotient rounded to at most 28 places.
#[verifier::external_body]
fn checked_div(a: Dec, b: Dec) -> (r: Option<Dec>)
    requires
        a.wf(),
        b.wf(),
    ensures
        r == div_result(a, b),
        r matches Some(c) ==> c.wf(),
        b.mantissa_spec() == 0 ==> r is None,
{
    let x = Decimal::from_i128_with_scale(a.mantissa, a.scale);
    let y = Decimal::from_i128_with_scale(b.mantissa, b.scale);
    match x.checked_div(y) {
        Some(d) => Some(Dec { mantissa: d.mantissa(), scale: d.scale() }),
        None => None,
    }
}

/// Relies on `Decimal::round_dp` (see `rounded_of`), whose results are
/// well-formed decimals.
#[verifier::external_body]
fn round_dp(a: Dec, dp: u32) -> (r: Dec)
    requires
        a.wf(),
    ensures
        r == rounded_of(a, dp),
        a.scale > dp ==> r == round_result(a, dp),
        r.wf(),
{
    let d = Decimal::from_i128_with_scale(a.mantissa, a.scale).round_dp(dp);
    Dec { mantissa: d.mantissa(), scale: d.scale() }
}

/// Relies on `Decimal`'s `PartialOrd`, which orders by value whatever the scales.
#[verifier::external_body]
fn decimal_le(a: Dec, b: Dec) -> (r: bool)
    requires
        a.wf(),
        b.wf(),
    ensures
        r == (a.units() <= b.units()),
{
    Decimal::from_i128_with_scale(a.mantissa, a.scale) <= Decimal::from_i128_with_scale(b.mantissa, b.scale)
}

impl Dec {
    /// `self + other`, `None` on overflow.
    pub fn checked_add(&self, other: &Dec) -> (r: Option<Dec>)
        requires
            self.wf(),
            other.wf(),
        ensures
            r == sum_of(*self, *other),
            r matches Some(c) ==> c.wf(),
    {
        checked_add(*self, *other)
    }

    /// `self - other`, `None` on overflow.
    pub fn checked_sub(&self, other: &Dec) -> (r: Option<Dec>)
        requires
            self.wf(),
            other.wf(),
        ensures
            r == difference_of(*self, *other),
            r matches Some(c) ==> c.wf(),
    {
        checked_sub(*self, *other)
    }

    /// `self * other`, `None` on overflow.
    pub fn checked_mul(&self, other: &Dec) -> (r: Option<Dec>)
        requires
            self.wf(),
            other.wf(),
        ensures
            r == product_of(*self, *other),
            r matches Some(c) ==> c.wf(),
    {
        checked_mul(*self, *other)
    }

    /// `self / other`, `None` on a zero divisor or on overflow.
    pub fn checked_div(&self, other: &Dec) -> (r: Option<Dec>)
        requires
            self.wf(),
            other.wf(),
        ensures
            r == div_result(*self, *other),
            r matches Some(c) ==> c.wf(),
            other.mantissa_spec() == 0 ==> r is None,
    {
        checked_div(*self, *other)
    }

    /// Rounded half to even to `dp` places.
    pub fn round_dp(&self, dp: u32) -> (r: Dec)
        requires
            self.wf(),
        ensures
            r == rounded_of(*self, dp),
            r.wf(),
    {
        round_dp(*self, dp)
    }

    /// Whether `self <= other` in value.
    pub fn le(&self, other: &Dec) -> (r: bool)
        requires
            self.wf(),
            other.wf(),
        ensures
            r == (self.units() <= other.units()),
    {
        decimal_le(*self, *other)
    }

    /// Whether `self < other` in value.
    pub fn lt(&self, other: &Dec) -> (r: bool)
        requires
            self.wf(),
            other.wf(),
        ensures
            r == (self.units() < other.units()),
    {
        !decimal_le(*other, *self)
    }

    /// Whether the two amounts are equal in value (`2.0` and `2.00` are).
    pub fn same_value(&self, other: &Dec) -> (r: bool)
        requires
            self.wf(),
            other.wf(),
        ensures
            r == (self.units() == other.units()),
    {
        decimal_le(*self, *other) && decimal_le(*other, *self)
    }
}

proof fn lemma_aligned_units(a: Dec, s: nat)
    requires
        a.wf(),
        a.scale <= s <= 28,
    ensures
        aligned(a, s) * pow(10, (28 - s) as nat) == a.units(),
{
    vstd::arithmetic::power::lemma_pow_adds(10, (s - a.scale) as nat, (28 - s) as nat);
    assert((s - a.scale) as nat + (28 - s) as nat == (28 - a.scale) as nat);
    let x = pow(10, (s - a.scale) as nat);
    let y = pow(10, (28 - s) as nat);
    assert((a.mantissa * x) * y == a.mantissa * (x * y)) by (nonlinear_arith);
}

/// A difference that `sub_fits` is exact in value.
pub proof fn lemma_exact_difference(a: Dec, b: Dec)
    requires
        a.wf(),
        b.wf(),
        sub_fits(a, b),
    ensures
        difference_of(a, b) matches Some(d) && d.units() == a.units() - b.units(),
{
    let s = common_scale(a, b);
    if a.mantissa == 0 {
        assert(a.units() == 0) by (nonlinear_arith)
            requires
                a.mantissa == 0,
                a.units() == a.mantissa * pow(10, (28 - a.scale) as nat),
        ;
        let d = Dec::from_parts(-b.mantissa, b.scale as nat);
        assert(d.units() == -b.units()) by (nonlinear_arith)
            requires
                d.mantissa == -b.mantissa,
                d.scale == b.scale,
                d.units() == d.mantissa * pow(10, (28 - d.scale) as nat),
                b.units() == b.mantissa * pow(10, (28 - b.scale) as nat),
        ;
    } else if b.mantissa == 0 {
        assert(b.units() == 0) by (nonlinear_arith)
            requires
                b.mantissa == 0,
                b.units() == b.mantissa * pow(10, (28 - b.scale) as nat),
        ;
    } else {
        lemma_aligned_units(a, s);
        lemma_aligned_units(b, s);
        let d = Dec::from_parts(aligned(a, s) - aligned(b, s), s);
        assert(d.mantissa == aligned(a, s) - aligned(b, s));
        assert(d.units() == (aligned(a, s) - aligned(b, s)) * pow(10, (28 - s) as nat));
        assert((aligned(a, s) - aligned(b, s)) * pow(10, (28 - s) as nat) == aligned(a, s) * pow(
            10,
            (28 - s) as nat,
        ) - aligned(b, s) * pow(10, (28 - s) as nat)) by (nonlinear_arith);
    }
}

/// A sum that `add_fits` is exact in value; adding zero is too.
pub proof fn lemma_exact_sum(a: Dec, b: Dec)
    requires
        a.wf(),
        b.wf(),
        a.mantissa == 0 || b.mantissa == 0 || add_fits(a, b),
    ensures
        sum_of(a, b) matches Some(d) && d.units() == a.units() + b.units(),
{
    let s = common_scale(a, b);
    if a.mantissa == 0 {
        assert(a.units() == 0) by (nonlinear_arith)
            requires
                a.mantissa == 0,
                a.units() == a.mantissa * pow(10, (28 - a.scale) as nat),
        ;
    } else if b.mantissa == 0 {
        assert(b.units() == 0) by (nonlinear_arith)
            requires
                b.mantissa == 0,
                b.units() == b.mantissa * pow(10, (28 - b.scale) as nat),
        ;
    } else {
        lemma_aligned_units(a, s);
        lemma_aligned_units(b, s);
        let d = Dec::from_parts(aligned(a, s) + aligned(b, s), s);
        assert(d.mantissa == aligned(a, s) + aligned(b, s));
        assert(d.units() == (aligned(a, s) + aligned(b, s)) * pow(10, (28 - s) as nat));
        assert((aligned(a, s) + aligned(b, s)) * pow(10, (28 - s) as nat) == aligned(a, s) * pow(
            10,
            (28 - s) as nat,
        ) + aligned(b, s) * pow(10, (28 - s) as nat)) by (nonlinear_arith);
    }
}

/// A non-zero units value has a non-zero mantissa, of the same sign.
pub proof fn lemma_units_sign(d: Dec)
    ensures
        d.units() > 0 ==> d.mantissa > 0,
        d.units() < 0 ==> d.mantissa < 0,
        d.units() == 0 <==> d.mantissa == 0,
{
    let p = pow(10, (28 - d.scale) as nat);
    vstd::arithmetic::power::lemma_pow_positive(10, (28 - d.scale) as nat);
    assert(d.units() == d.mantissa * p);
    assert(d.mantissa * p > 0 ==> d.mantissa > 0) by (nonlinear_arith)
        requires
            p > 0,
    ;
    assert(d.mantissa * p < 0 ==> d.mantissa < 0) by (nonlinear_arith)
        requires
            p > 0,
    ;
    assert(d.mantissa * p == 0 <==> d.mantissa == 0) by (nonlinear_arith)
        requires
            p > 0,
    ;
}

} // verus!
