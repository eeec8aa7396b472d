//! Fixed-precision decimal numbers for money, prices and ratios.
//!
//! A [`Decimal`] holds the same two plain values that `rust_decimal::Decimal`
//! is made of: a signed 96-bit mantissa and a scale of at most 28 fractional
//! digits. Arithmetic is carried out by `rust_decimal`; its rounding rules are
//! not restated here, so each operation's result is named by an uninterpreted
//! function of the operands, together with the few facts that its source
//! plainly shows.
use vstd::prelude::*;

verus! {

/// `10` raised to `n`.
pub open spec fn pow10(n: nat) -> int
    decreases n,
{
    if n == 0 {
        1
    } else {
        10 * pow10((n - 1) as nat)
    }
}

/// Largest mantissa magnitude: `2^96 - 1`.
pub const MAX_MANTISSA: i128 = 79228162514264337593543950335;

/// Largest number of fractional digits.
pub const MAX_SCALE: u32 = 28;

/// The number `mantissa / 10^scale`.
#[derive(Clone, Copy, Debug, PartialEq, Eq, Structural)]
pub struct Decimal {
    pub mantissa: i128,
    pub scale: u32,
}

impl View for Decimal {
    type V = (int, int);

    open spec fn view(&self) -> (int, int) {
        (self.mantissa as int, self.scale as int)
    }
}

/// What `rust_decimal`'s `saturating_add` returns, as (mantissa, scale).
pub uninterp spec fn decimal_saturating_add(a: (int, int), b: (int, int)) -> (int, int);

/// What `rust_decimal`'s `saturating_sub` returns, as (mantissa, scale).
pub uninterp spec fn decimal_saturating_sub(a: (int, int), b: (int, int)) -> (int, int);

/// What `rust_decimal`'s `saturating_mul` returns, as (mantissa, scale).
pub uninterp spec fn decimal_saturating_mul(a: (int, int), b: (int, int)) -> (int, int);

/// What `rust_decimal`'s `checked_div` returns, as (mantissa, scale).
pub uninterp spec fn decimal_checked_div(a: (int, int), b: (int, int)) -> Option<(int, int)>;

pub proof fn lemma_pow10_positive(n: nat)
    ensures
        pow10(n) > 0,
    decreases n,
{
    if n > 0 {
        lemma_pow10_positive((n - 1) as nat);
    }
}

/// The sign of a decimal's value is the sign of its mantissa.
pub proof fn lemma_units_sign(d: Decimal)
    ensures
        (d.units() == 0) == (d.mantissa == 0),
        (d.units() < 0) == (d.mantissa < 0),
        (d.units() > 0) == (d.mantissa > 0),
{
    let p = pow10((MAX_SCALE - d.scale) as nat);
    lemma_pow10_positive((MAX_SCALE - d.scale) as nat);
    let m = d.mantissa as int;
    assert(m < 0 ==> m * p < 0) by (nonlinear_arith)
        requires
            p > 0,
    ;
    assert(m > 0 ==> m * p > 0) by (nonlinear_arith)
        requires
            p > 0,
    ;
}

impl Decimal {
    /// Mantissa within 96 bits and scale within 28 digits.
    pub open spec fn wf(self) -> bool {
        -MAX_MANTISSA <= self.mantissa <= MAX_MANTISSA && self.scale <= MAX_SCALE
    }

    /// The value counted in units of `10^-28`; every decimal is a whole number of them.
    pub open spec fn units(self) -> int {
        if self.scale <= MAX_SCALE {
            self.mantissa * pow10((MAX_SCALE - self.scale) as nat)
        } else {
            self.mantissa as int
        }
    }

    pub open spec fn from_view(p: (int, int)) -> Decimal {
        Decimal { mantissa: p.0 as i128, scale: p.1 as u32 }
    }

    pub open spec fn spec_zero() -> Decimal {
        Decimal { mantissa: 0, scale: 0 }
    }

    pub open spec fn spec_lit(mantissa: int, scale: int) -> Decimal {
        Decimal { mantissa: mantissa as i128, scale: scale as u32 }
    }

    pub open spec fn spec_sum(self, o: Decimal) -> Decimal {
        Decimal::from_view(decimal_saturating_add(self@, o@))
    }

    pub open spec fn spec_difference(self, o: Decimal) -> Decimal {
        Decimal::from_view(decimal_saturating_sub(self@, o@))
    }

    pub open spec fn spec_product(self, o: Decimal) -> Decimal {
        Decimal::from_view(decimal_saturating_mul(self@, o@))
    }

    pub open spec fn spec_quotient(self, o: Decimal) -> Option<Decimal> {
        match decimal_checked_div(self@, o@) {
            Some(p) => Some(Decimal::from_view(p)),
            None => None,
        }
    }

    /// The quotient, or zero where it cannot be represented.
    pub open spec fn spec_quotient_or_zero(self, o: Decimal) -> Decimal {
        match self.spec_quotient(o) {
            Some(q) => q,
            None => Decimal::spec_zero(),
        }
    }

    pub open spec fn spec_abs(self) -> Decimal {
        if self.mantissa < 0 {
            Decimal { mantissa: (-self.mantissa) as i128, scale: self.scale }
        } else {
            self
        }
    }

    /// The decimal `mantissa / 10^scale`.
    pub fn new(mantissa: i128, scale: u32) -> (r: Decimal)
        requires
            -MAX_MANTISSA <= mantissa <= MAX_MANTISSA,
            scale <= MAX_SCALE,
        ensures
            r.mantissa == mantissa,
            r.scale == scale,
            r.wf(),
    {
        Decimal { mantissa, scale }
    }

    pub fn zero() -> (r: Decimal)
        ensures
            r == Decimal::spec_zero(),
            r.wf(),
    {
        Decimal { mantissa: 0, scale: 0 }
    }

    /// The whole number `n`.
    pub fn from_usize(n: usize) -> (r: Decimal)
        ensures
            r == Decimal::spec_lit(n as int, 0),
            r.wf(),
            r.units() == n * pow10(28),
    {
        Decimal { mantissa: n as i128, scale: 0 }
    }

    pub fn mantissa(&self) -> (r: i128)
        ensures
            r == self.mantissa,
    {
        self.mantissa
    }

    pub fn scale(&self) -> (r: u32)
        ensures
            r == self.scale,
    {
        self.scale
    }

    pub fn is_zero(&self) -> (r: bool)
        requires
            self.wf(),
        ensures
            r == (self.units() == 0),
    {
        proof {
            lemma_units_sign(*self);
        }
        self.mantissa == 0
    }

    pub fn abs(&self) -> (r: Decimal)
        requires
            self.wf(),
        ensures
            r == self.spec_abs(),
            r.wf(),
            r.units() >= 0,
            r.units() == if self.units() < 0 { -self.units() } else { self.units() },
    {
        proof {
            let p = pow10((MAX_SCALE - self.scale) as nat);
            let m = self.mantissa as int;
            lemma_units_sign(*self);
            assert((-m) * p == -(m * p)) by (nonlinear_arith);
        }
        if self.mantissa < 0 {
            Decimal { mantissa: -self.mantissa, scale: self.scale }
        } else {
            *self
        }
    }

    /// Equal in value, whatever the scales.
    pub fn eq_value(&self, o: &Decimal) -> (r: bool)
        requires
            self.wf(),
            o.wf(),
        ensures
            r == (self.units() == o.units()),
    {
        compare(*self, *o) == 0
    }

    pub fn lt(&self, o: &Decimal) -> (r: bool)
        requires
            self.wf(),
            o.wf(),
        ensures
            r == (self.units() < o.units()),
    {
        compare(*self, *o) < 0
    }

    pub fn le(&self, o: &Decimal) -> (r: bool)
        requires
            self.wf(),
            o.wf(),
        ensures
            r == (self.units() <= o.units()),
    {
        compare(*self, *o) <= 0
    }

    pub fn gt(&self, o: &Decimal) -> (r: bool)
        requires
            self.wf(),
            o.wf(),
        ensures
            r == (self.units() > o.units()),
    {
        compare(*self, *o) > 0
    }

    pub fn ge(&self, o: &Decimal) -> (r: bool)
        requires
            self.wf(),
            o.wf(),
        ensures
            r == (self.units() >= o.units()),
    {
        compare(*self, *o) >= 0
    }

    /// The quotient, or zero where rust_decimal cannot represent it (a zero
    /// divisor or an overflow).
    pub fn quotient_or_zero(&self, o: &Decimal) -> (r: Decimal)
        requires
            self.wf(),
            o.wf(),
        ensures
            r == self.spec_quotient_or_zero(*o),
            r.wf(),
    {
        match quotient(*self, *o) {
            Some(q) => q,
            None => Decimal::zero(),
        }
    }
}

/// Relies on rust_decimal's `Decimal::from_i128_with_scale` (exact for a
/// mantissa within 96 bits and a scale within 28) and `saturating_add`, which
/// never panics, returns its right operand unchanged when the left one is
/// zero, and its left operand unchanged when only the right one is zero.
#[verifier::external_body]
pub(crate) fn sum(a: Decimal, b: Decimal) -> (r: Decimal)
    requires
        a.wf(),
        b.wf(),
    ensures
        r.wf(),
        r@ == decimal_saturating_add(a@, b@),
        a.mantissa == 0 ==> r == b,
        a.mantissa != 0 && b.mantissa == 0 ==> r == a,
{
    let x = rust_decimal::Decimal::from_i128_with_scale(a.mantissa, a.scale);
    let y = rust_decimal::Decimal::from_i128_with_scale(b.mantissa, b.scale);
    let d = x.saturating_add(y);
    Decimal { mantissa: d.mantissa(), scale: d.scale() }
}

/// Relies on rust_decimal's `saturating_sub`, which never panics and returns
/// its left operand unchanged when only the right one is zero.
#[verifier::external_body]
pub(crate) fn difference(a: Decimal, b: Decimal) -> (r: Decimal)
    requires
        a.wf(),
        b.wf(),
    ensures
        r.wf(),
        r@ == decimal_saturating_sub(a@, b@),
        a.mantissa != 0 && b.mantissa == 0 ==> r == a,
{
    let x = rust_decimal::Decimal::from_i128_with_scale(a.mantissa, a.scale);
    let y = rust_decimal::Decimal::from_i128_with_scale(b.mantissa, b.scale);
    let d = x.saturating_sub(y);
    Decimal { mantissa: d.mantissa(), scale: d.scale() }
}

/// Relies on rust_decimal's `saturating_mul`, which never panics.
#[verifier::external_body]
pub(crate) fn product(a: Decimal, b: Decimal) -> (r: Decimal)
    requires
        a.wf(),
        b.wf(),
    ensures
        r.wf(),
        r@ == decimal_saturating_mul(a@, b@),
{
    let x = rust_decimal::Decimal::from_i128_with_scale(a.mantissa, a.scale);
    let y = rust_decimal::Decimal::from_i128_with_scale(b.mantissa, b.scale);
    let d = x.saturating_mul(y);
    Decimal { mantissa: d.mantissa(), scale: d.scale() }
}

/// Relies on rust_decimal's `checked_div`: `None` for a zero divisor or an
/// overflow, and exactly zero (scale 0) for a zero dividend over a non-zero
/// divisor.
#[verifier::external_body]
pub(crate) fn quotient(a: Decimal, b: Decimal) -> (r: Option<Decimal>)
    requires
        a.wf(),
        b.wf(),
    ensures
        r matches Some(q) ==> q.wf(),
        r is None <==> decimal_checked_div(a@, b@) is None,
        r matches Some(q) ==> decimal_checked_div(a@, b@) == Some(q@),
        b.mantissa == 0 ==> r is None,
        a.mantissa == 0 && b.mantissa != 0 ==> r == Some(Decimal::spec_zero()),
{
    let x = rust_decimal::Decimal::from_i128_with_scale(a.mantissa, a.scale);
    let y = rust_decimal::Decimal::from_i128_with_scale(b.mantissa, b.scale);
    match x.checked_div(y) {
        Some(d) => Some(Decimal { mantissa: d.mantissa(), scale: d.scale() }),
        None => None,
    }
}

/// Relies on rust_decimal's `Ord::cmp`, which orders decimals by numeric
/// value whatever their scales.
#[verifier::external_body]
pub(crate) fn compare(a: Decimal, b: Decimal) -> (r: i8)
    requires
        a.wf(),
        b.wf(),
    ensures
        r == (if a.units() < b.units() {
            -1i8
        } else if a.units() == b.units() {
            0i8
        } else {
            1i8
        }),
{
    let x = rust_decimal::Decimal::from_i128_with_scale(a.mantissa, a.scale);
    let y = rust_decimal::Decimal::from_i128_with_scale(b.mantissa, b.scale);
    match x.cmp(&y) {
        core::cmp::Ordering::Less => -1,
        core::cmp::Ordering::Equal => 0,
        core::cmp::Ordering::Greater => 1,
    }
}

} // verus!
