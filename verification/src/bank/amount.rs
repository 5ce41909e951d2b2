//! Decimal amounts of money.
//!
//! An [`Amount`] is a signed mantissa of at most 96 bits together with a
//! scale: the number of decimal digits of the mantissa that stand behind the
//! decimal point. Its view is the number it denotes, counted in units of
//! 10^-28, the finest step a scale can express, so that every amount is an
//! integer in the model.
//!
//! The arithmetic is that of `rust_decimal`. It is exact as long as the
//! result, written at the larger of the two scales, has a mantissa of at
//! most 96 bits; beyond that it rounds or overflows. The ledger keeps four
//! fractional digits, so it stays where an amount written with four digits
//! has such a mantissa: within that range, which `in_range` describes, every
//! sum and difference is the exact one.

use rust_decimal::Decimal;
use vstd::prelude::*;

verus! {

/// The largest scale an amount can have.
pub const MAX_SCALE: u32 = 28;

/// The number of fractional digits the ledger keeps.
pub const PRECISION: u32 = 4;

/// Ten to the power `n`.
pub open spec fn pow10(n: nat) -> int
    decreases n,
{
    if n == 0 {
        1
    } else {
        10 * pow10((n - 1) as nat)
    }
}

/// The bound on the magnitude of a mantissa: two to the power 96.
pub const MANTISSA_BOUND: i128 = 0x1_0000_0000_0000_0000_0000_0000;

/// The bound on the magnitude of a mantissa, as a number of the model.
pub open spec fn mantissa_bound() -> int {
    0x1_0000_0000_0000_0000_0000_0000
}

/// The number that `mantissa` denotes at `scale`, in units of 10^-28.
pub open spec fn units(mantissa: int, scale: nat) -> int {
    mantissa * pow10((28 - scale) as nat)
}

/// The distance between neighbouring amounts of `PRECISION` digits: 10^24
/// units.
pub open spec fn step() -> int {
    1_000_000_000_000_000_000_000_000
}

/// Whether the ledger can hold `u` units: written with `PRECISION` fractional
/// digits, its mantissa stays within the mantissa bound.
pub open spec fn in_range(u: int) -> bool {
    -mantissa_bound() * step() < u < mantissa_bound() * step()
}

/// Whether `u` units, written with `scale` fractional digits, have a mantissa
/// within the mantissa bound.
pub open spec fn fits(u: int, scale: nat) -> bool {
    -mantissa_bound() * pow10((28 - scale) as nat) < u < mantissa_bound() * pow10(
        (28 - scale) as nat,
    )
}

/// `u` units cut down to `scale` fractional digits: the nearest multiple of
/// 10^(28 - scale) in the direction of zero.
pub open spec fn truncate(u: int, scale: nat) -> int {
    let grain = pow10((28 - scale) as nat);
    if u >= 0 {
        u - u % grain
    } else {
        -((-u) - (-u) % grain)
    }
}

/// The larger of two scales.
pub open spec fn larger(a: nat, b: nat) -> nat {
    if a >= b {
        a
    } else {
        b
    }
}

/// The powers of ten that the ledger's arithmetic meets.
pub proof fn lemma_pow10()
    ensures
        pow10(0) == 1,
        pow10(1) == 10,
        pow10(2) == 100,
        pow10(3) == 1000,
        pow10(4) == 10000,
        pow10(24) == step(),
        pow10(25) == 10 * step(),
        pow10(26) == 100 * step(),
        pow10(27) == 1000 * step(),
        pow10(28) == 10000 * step(),
{
    reveal_with_fuel(pow10, 29);
}

/// Whether `mantissa` and `scale` make a decimal amount.
pub open spec fn is_decimal(mantissa: int, scale: nat) -> bool {
    scale <= 28 && -mantissa_bound() < mantissa < mantissa_bound()
}

/// A decimal amount: `mantissa / 10^scale`.
#[derive(Clone, Copy, Debug)]
pub struct Amount {
    mantissa: i128,
    scale: u32,
}

impl View for Amount {
    type V = int;

    /// The amount in units of 10^-28.
    open spec fn view(&self) -> int {
        units(self.spec_mantissa(), self.spec_scale())
    }
}

impl Amount {
    /// Every amount is a decimal: its scale is at most `MAX_SCALE`, and its
    /// mantissa within the mantissa bound.
    #[verifier::type_invariant]
    pub closed spec fn inv(self) -> bool {
        is_decimal(self.mantissa as int, self.scale as nat)
    }

    /// The mantissa of the amount.
    pub closed spec fn spec_mantissa(self) -> int {
        self.mantissa as int
    }

    /// The number of fractional digits of the amount.
    pub closed spec fn spec_scale(self) -> nat {
        self.scale as nat
    }

    /// The amount `mantissa / 10^scale`, if the two make a decimal amount.
    pub fn new(mantissa: i128, scale: u32) -> (r: Option<Amount>)
        ensures
            r is Some <==> is_decimal(mantissa as int, scale as nat),
            r matches Some(a) ==> a.spec_mantissa() == mantissa && a.spec_scale() == scale,
    {
        if scale <= MAX_SCALE && -MANTISSA_BOUND < mantissa && mantissa < MANTISSA_BOUND {
            Some(Amount { mantissa, scale })
        } else {
            None
        }
    }

    /// The mantissa of the amount.
    pub fn mantissa(&self) -> (r: i128)
        ensures
            r == self.spec_mantissa(),
    {
        self.mantissa
    }

    /// The number of fractional digits of the amount.
    pub fn scale(&self) -> (r: u32)
        ensures
            r == self.spec_scale(),
    {
        self.scale
    }

    /// The amount nought.
    pub fn zero() -> (r: Amount)
        ensures
            r@ == 0,
            r.spec_scale() == 0,
    {
        Amount { mantissa: 0, scale: 0 }
    }

    /// Whether the amount has no more fractional digits than the ledger keeps.
    pub open spec fn is_fixed(self) -> bool {
        self.spec_scale() <= PRECISION
    }

    /// Whether the amount is written without trailing fractional zeros.
    pub open spec fn is_normalized(self) -> bool {
        self.spec_scale() == 0 || self.spec_mantissa() % 10 != 0
    }

    /// The amount counted in steps of 10^-4.
    fn steps(&self) -> (r: i128)
        requires
            self.is_fixed(),
        ensures
            r * step() == self@,
            -10000 * mantissa_bound() < r < 10000 * mantissa_bound(),
    {
        proof {
            use_type_invariant(self);
            lemma_pow10();
            let m = self.mantissa as int;
            let k = pow10((4 - self.scale) as nat);
            assert(pow10((28 - self.scale) as nat) == k * step());
            assert(m * (k * step()) == (m * k) * step()) by (nonlinear_arith);
        }
        if self.scale == 0 {
            self.mantissa * 10000
        } else if self.scale == 1 {
            self.mantissa * 1000
        } else if self.scale == 2 {
            self.mantissa * 100
        } else if self.scale == 3 {
            self.mantissa * 10
        } else {
            self.mantissa
        }
    }

    /// Whether the ledger can hold the amount.
    pub fn is_in_range(&self) -> (r: bool)
        requires
            self.is_fixed(),
        ensures
            r == in_range(self@),
    {
        let n: i128 = self.steps();
        -MANTISSA_BOUND < n && n < MANTISSA_BOUND
    }

    /// The sum of two amounts of the ledger's precision, where the ledger can
    /// hold it.
    pub fn checked_add(self, other: Amount) -> (r: Option<Amount>)
        requires
            self.is_fixed(),
            other.is_fixed(),
        ensures
            r is Some <==> in_range(self@ + other@),
            r matches Some(v) ==> v@ == self@ + other@ && v.is_fixed(),
    {
        let n: i128 = self.steps() + other.steps();
        if -MANTISSA_BOUND < n && n < MANTISSA_BOUND {
            proof {
                lemma_in_range_fits(self@ + other@, larger(self.spec_scale(), other.spec_scale()));
            }
            decimal_add(self, other)
        } else {
            None
        }
    }

    /// The difference of two amounts of the ledger's precision, where the
    /// ledger can hold it.
    pub fn checked_sub(self, other: Amount) -> (r: Option<Amount>)
        requires
            self.is_fixed(),
            other.is_fixed(),
        ensures
            r is Some <==> in_range(self@ - other@),
            r matches Some(v) ==> v@ == self@ - other@ && v.is_fixed(),
    {
        let n: i128 = self.steps() - other.steps();
        if -MANTISSA_BOUND < n && n < MANTISSA_BOUND {
            proof {
                lemma_in_range_fits(self@ - other@, larger(self.spec_scale(), other.spec_scale()));
            }
            decimal_sub(self, other)
        } else {
            None
        }
    }
}

/// What the ledger can hold fits a decimal of any scale up to the ledger's
/// precision.
pub proof fn lemma_in_range_fits(u: int, scale: nat)
    requires
        in_range(u),
        scale <= PRECISION,
    ensures
        fits(u, scale),
{
    lemma_pow10();
    let grain = pow10((28 - scale) as nat);
    assert(grain >= step());
    assert(mantissa_bound() * grain >= mantissa_bound() * step()) by (nonlinear_arith)
        requires
            grain >= step(),
            mantissa_bound() > 0,
    ;
    assert(-mantissa_bound() * grain <= -mantissa_bound() * step()) by (nonlinear_arith)
        requires
            grain >= step(),
            mantissa_bound() > 0,
    ;
}

impl PartialEq for Amount {
    /// Two amounts are equal when they denote the same number, whatever
    /// their scales.
    fn eq(&self, other: &Amount) -> (r: bool) {
        decimal_eq(*self, *other)
    }
}

impl Eq for Amount {

}

impl vstd::std_specs::cmp::PartialEqSpecImpl for Amount {
    open spec fn obeys_eq_spec() -> bool {
        true
    }

    open spec fn eq_spec(&self, other: &Amount) -> bool {
        self@ == other@
    }
}

// The calls into `rust_decimal`. Their contracts are stated, not proved: each
// says of one call what the source of `rust_decimal` shows of it. An amount
// is a decimal by its type invariant, so `Decimal::from_i128_with_scale`,
// through which every call goes, has nothing to refuse.

/// Whether `r` is an amount of `u` units with at most `scale` fractional
/// digits.
pub open spec fn holds(r: Option<Amount>, u: int, scale: nat) -> bool {
    r matches Some(v) && v@ == u && v.spec_scale() <= scale
}

/// `Decimal`'s `==`: whether the two amounts denote the same number.
#[verifier::external_body]
pub(crate) fn decimal_eq(a: Amount, b: Amount) -> (r: bool)
    ensures
        r == (a@ == b@),
{
    let x = Decimal::from_i128_with_scale(a.mantissa, a.scale);
    let y = Decimal::from_i128_with_scale(b.mantissa, b.scale);
    x == y
}

/// `Decimal`'s `<`: whether `a` denotes a smaller number than `b`.
#[verifier::external_body]
pub(crate) fn decimal_lt(a: Amount, b: Amount) -> (r: bool)
    ensures
        r == (a@ < b@),
{
    let x = Decimal::from_i128_with_scale(a.mantissa, a.scale);
    let y = Decimal::from_i128_with_scale(b.mantissa, b.scale);
    x < y
}

/// `Decimal`'s `<=`: whether `a` denotes a number no larger than `b`.
#[verifier::external_body]
pub(crate) fn decimal_le(a: Amount, b: Amount) -> (r: bool)
    ensures
        r == (a@ <= b@),
{
    let x = Decimal::from_i128_with_scale(a.mantissa, a.scale);
    let y = Decimal::from_i128_with_scale(b.mantissa, b.scale);
    x <= y
}

/// `Decimal::checked_add`. Where the exact sum, written at the larger of the
/// two scales, has a mantissa within the mantissa bound, the call returns
/// that sum, at a scale no larger. Of other sums the contract says nothing:
/// the call may round them or return `None`.
#[verifier::external_body]
pub(crate) fn decimal_add(a: Amount, b: Amount) -> (r: Option<Amount>)
    ensures
        fits(a@ + b@, larger(a.spec_scale(), b.spec_scale())) ==> holds(
            r,
            a@ + b@,
            larger(a.spec_scale(), b.spec_scale()),
        ),
{
    let x = Decimal::from_i128_with_scale(a.mantissa, a.scale);
    let y = Decimal::from_i128_with_scale(b.mantissa, b.scale);
    match x.checked_add(y) {
        Some(d) => Some(Amount { mantissa: d.mantissa(), scale: d.scale() }),
        None => None,
    }
}

/// `Decimal::checked_sub`. Where the exact difference, written at the larger
/// of the two scales, has a mantissa within the mantissa bound, the call
/// returns that difference, at a scale no larger. Of other differences the
/// contract says nothing: the call may round them or return `None`.
#[verifier::external_body]
pub(crate) fn decimal_sub(a: Amount, b: Amount) -> (r: Option<Amount>)
    ensures
        fits(a@ - b@, larger(a.spec_scale(), b.spec_scale())) ==> holds(
            r,
            a@ - b@,
            larger(a.spec_scale(), b.spec_scale()),
        ),
{
    let x = Decimal::from_i128_with_scale(a.mantissa, a.scale);
    let y = Decimal::from_i128_with_scale(b.mantissa, b.scale);
    match x.checked_sub(y) {
        Some(d) => Some(Amount { mantissa: d.mantissa(), scale: d.scale() }),
        None => None,
    }
}

/// `Decimal::trunc_with_scale`: the amount cut down to `scale` fractional
/// digits without rounding. An amount of fewer digits keeps its value and
/// comes back with at most `scale` digits.
#[verifier::external_body]
pub(crate) fn decimal_trunc(a: Amount, scale: u32) -> (r: Amount)
    requires
        scale <= MAX_SCALE,
    ensures
        r@ == truncate(a@, scale as nat),
        r.spec_scale() <= scale,
{
    let d = Decimal::from_i128_with_scale(a.mantissa, a.scale).trunc_with_scale(scale);
    Amount { mantissa: d.mantissa(), scale: d.scale() }
}

/// `Decimal::normalize`: the same number with its trailing fractional zeros
/// removed, and nought at scale nought.
#[verifier::external_body]
pub(crate) fn decimal_normalize(a: Amount) -> (r: Amount)
    ensures
        r@ == a@,
        r.spec_scale() <= a.spec_scale(),
        r.is_normalized(),
{
    let d = Decimal::from_i128_with_scale(a.mantissa, a.scale).normalize();
    Amount { mantissa: d.mantissa(), scale: d.scale() }
}

} // verus!
