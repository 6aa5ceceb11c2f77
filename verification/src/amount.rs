//! Decimal amounts: a signed 96-bit mantissa with a power-of-ten scale, and the
//! arithmetic on them that the ledger needs. The numbers are computed by
//! `rust_decimal`; this module states what those computations return.

use rust_decimal::Decimal;
use vstd::arithmetic::power::{lemma_pow_positive, pow};
use vstd::prelude::*;

verus! {

/// Largest magnitude of a mantissa: `2^96 - 1`.
pub const MAX_MANTISSA: i128 = 79_228_162_514_264_337_593_543_950_335i128;

/// Largest scale: a value has at most this many fractional digits.
pub const MAX_SCALE: u32 = 28u32;

/// Number of fractional digits that event amounts are brought to.
pub const LEDGER_SCALE: u32 = 4u32;

/// The decimal number `mantissa / 10^scale`.
///
/// Two amounts are equal when mantissa and scale are equal, so `1.5` and
/// `1.5000` are different amounts of the same value; `units` gives the value.
#[derive(Clone, Copy, Debug, PartialEq, Eq, Structural)]
pub struct Amount {
    pub mantissa: i128,
    pub scale: u32,
}

/// `10^e`.
pub open spec fn pow10(e: nat) -> int {
    pow(10, e)
}

/// The magnitude of `m`.
pub open spec fn magnitude(m: int) -> int {
    if m < 0 {
        -m
    } else {
        m
    }
}

/// `m / p` rounded to the nearest integer, a midpoint going away from zero.
pub open spec fn round_half_away(m: int, p: int) -> int
    recommends
        p > 0,
{
    let q = magnitude(m) / p;
    let r = magnitude(m) % p;
    let up = if 2 * r >= p {
        q + 1
    } else {
        q
    };
    if m < 0 {
        -up
    } else {
        up
    }
}

/// How many times, up to `limit`, the magnitude `m` can be multiplied by ten
/// and still fit a mantissa.
pub open spec fn raise_steps(m: int, limit: nat) -> nat
    decreases limit,
{
    if limit == 0 || m * 10 > MAX_MANTISSA {
        0
    } else {
        1 + raise_steps(m * 10, (limit - 1) as nat)
    }
}

impl Amount {
    /// The amount is one that a `Decimal` can hold.
    pub open spec fn wf(self) -> bool {
        &&& -MAX_MANTISSA <= self.mantissa <= MAX_MANTISSA
        &&& self.scale <= MAX_SCALE
    }

    /// The value of the amount, counted in units of `10^-28`.
    pub open spec fn units(self) -> int {
        self.mantissa * pow10((MAX_SCALE - self.scale) as nat)
    }

    /// The sum `self + other` is formed without rescaling or rounding: one
    /// operand is zero, or both have the same scale and the mantissas' sum fits.
    pub open spec fn addable(self, other: Amount) -> bool {
        ||| self.mantissa == 0
        ||| other.mantissa == 0
        ||| (self.scale == other.scale && -MAX_MANTISSA <= self.mantissa + other.mantissa
            <= MAX_MANTISSA)
    }

    /// `self + other` where `addable` holds. Adding to zero keeps the other
    /// operand as it is, its scale included.
    pub open spec fn sum(self, other: Amount) -> Amount {
        if self.mantissa == 0 {
            other
        } else if other.mantissa == 0 {
            self
        } else {
            Amount { mantissa: (self.mantissa + other.mantissa) as i128, scale: self.scale }
        }
    }

    /// The difference `self - other` is formed without rescaling or rounding.
    pub open spec fn subtractable(self, other: Amount) -> bool {
        ||| self.mantissa == 0
        ||| other.mantissa == 0
        ||| (self.scale == other.scale && -MAX_MANTISSA <= self.mantissa - other.mantissa
            <= MAX_MANTISSA)
    }

    /// `self - other` where `subtractable` holds. Subtracting from zero gives
    /// the negated operand at its own scale.
    pub open spec fn difference(self, other: Amount) -> Amount {
        if self.mantissa == 0 {
            Amount { mantissa: (-other.mantissa) as i128, scale: other.scale }
        } else if other.mantissa == 0 {
            self
        } else {
            Amount { mantissa: (self.mantissa - other.mantissa) as i128, scale: self.scale }
        }
    }

    /// The amount brought towards `target` fractional digits. Dropping digits
    /// rounds a midpoint away from zero; adding digits stops where the
    /// mantissa would no longer fit, so the result may have fewer than
    /// `target` digits.
    pub open spec fn rescaled(self, target: u32) -> Amount {
        if self.scale == target {
            self
        } else if self.mantissa == 0 {
            Amount { mantissa: 0, scale: target }
        } else if self.scale > target {
            Amount {
                mantissa: round_half_away(
                    self.mantissa as int,
                    pow10((self.scale - target) as nat),
                ) as i128,
                scale: target,
            }
        } else {
            let k = raise_steps(magnitude(self.mantissa as int), (target - self.scale) as nat);
            Amount {
                mantissa: (self.mantissa * pow10(k)) as i128,
                scale: (self.scale + k) as u32,
            }
        }
    }

    /// The amount `num / 10^scale`.
    pub fn new(num: i64, scale: u32) -> (r: Amount)
        requires
            scale <= MAX_SCALE,
        ensures
            r.mantissa == num,
            r.scale == scale,
            r.wf(),
    {
        Amount { mantissa: num as i128, scale }
    }

    /// The amount `mantissa / 10^scale`, if a mantissa of that size and that
    /// scale can be held.
    pub fn from_parts(mantissa: i128, scale: u32) -> (r: Option<Amount>)
        ensures
            r == if (Amount { mantissa, scale }).wf() {
                Some(Amount { mantissa, scale })
            } else {
                None
            },
    {
        let a = Amount { mantissa, scale };
        if a.is_valid() {
            Some(a)
        } else {
            None
        }
    }

    /// Zero with no fractional digits, the balance of a new account.
    pub fn zero() -> (r: Amount)
        ensures
            r == (Amount { mantissa: 0, scale: 0 }),
            r.wf(),
    {
        Amount { mantissa: 0, scale: 0 }
    }

    /// The mantissa: the value times `10^scale`.
    pub fn mantissa(&self) -> (r: i128)
        ensures
            r == self.mantissa,
    {
        self.mantissa
    }

    /// The number of fractional digits.
    pub fn scale(&self) -> (r: u32)
        ensures
            r == self.scale,
    {
        self.scale
    }

    /// Whether mantissa and scale are in the range of a `Decimal`.
    pub fn is_valid(&self) -> (r: bool)
        ensures
            r == self.wf(),
    {
        -MAX_MANTISSA <= self.mantissa && self.mantissa <= MAX_MANTISSA && self.scale <= MAX_SCALE
    }

    /// Whether the value is below zero.
    pub fn is_negative(&self) -> (r: bool)
        ensures
            r == (self.mantissa < 0),
            self.scale <= MAX_SCALE ==> r == (self.units() < 0),
    {
        proof {
            if self.scale <= MAX_SCALE {
                lemma_units_sign(*self);
            }
        }
        self.mantissa < 0
    }

    /// Whether `self + other` is exact, so that `exact_add` may be called.
    pub fn adds_exactly(&self, other: &Amount) -> (r: bool)
        requires
            self.wf(),
            other.wf(),
        ensures
            r == self.addable(*other),
    {
        if self.mantissa == 0 || other.mantissa == 0 {
            true
        } else if self.scale != other.scale {
            false
        } else {
            let s: i128 = self.mantissa + other.mantissa;
            -MAX_MANTISSA <= s && s <= MAX_MANTISSA
        }
    }

    /// Whether `self - other` is exact, so that `exact_sub` may be called.
    pub fn subtracts_exactly(&self, other: &Amount) -> (r: bool)
        requires
            self.wf(),
            other.wf(),
        ensures
            r == self.subtractable(*other),
    {
        if self.mantissa == 0 || other.mantissa == 0 {
            true
        } else if self.scale != other.scale {
            false
        } else {
            let d: i128 = self.mantissa - other.mantissa;
            -MAX_MANTISSA <= d && d <= MAX_MANTISSA
        }
    }

    /// The exact sum: its value is the sum of the two values.
    pub fn exact_add(self, other: Amount) -> (r: Amount)
        requires
            self.wf(),
            other.wf(),
            self.addable(other),
        ensures
            r == self.sum(other),
            r.wf(),
            r.units() == self.units() + other.units(),
    {
        proof {
            lemma_sum_units(self, other);
        }
        decimal_add(self, other)
    }

    /// The exact difference: its value is the difference of the two values.
    pub fn exact_sub(self, other: Amount) -> (r: Amount)
        requires
            self.wf(),
            other.wf(),
            self.subtractable(other),
        ensures
            r == self.difference(other),
            r.wf(),
            r.units() == self.units() - other.units(),
    {
        proof {
            lemma_difference_units(self, other);
        }
        decimal_sub(self, other)
    }

    /// The amount brought towards `LEDGER_SCALE` fractional digits.
    pub fn normalized(self) -> (r: Amount)
        requires
            self.wf(),
        ensures
            r == self.rescaled(LEDGER_SCALE),
            r.wf(),
            self.mantissa >= 0 ==> r.mantissa >= 0,
    {
        proof {
            lemma_rescaled_wf(self, LEDGER_SCALE);
        }
        decimal_rescale(self, LEDGER_SCALE)
    }
}

/// The sign of an amount is the sign of its value.
pub proof fn lemma_units_sign(a: Amount)
    requires
        a.scale <= MAX_SCALE,
    ensures
        a.units() < 0 <==> a.mantissa < 0,
        a.units() == 0 <==> a.mantissa == 0,
        a.units() > 0 <==> a.mantissa > 0,
{
    let p = pow10((MAX_SCALE - a.scale) as nat);
    lemma_pow_positive(10, (MAX_SCALE - a.scale) as nat);
    let m = a.mantissa as int;
    assert(p > 0 ==> ((m * p < 0 <==> m < 0) && (m * p == 0 <==> m == 0) && (m * p > 0 <==> m > 0)))
        by (nonlinear_arith);
}

/// Where two amounts are addable, `sum` is a valid amount whose value is the
/// sum of their values.
pub proof fn lemma_sum_units(a: Amount, b: Amount)
    requires
        a.wf(),
        b.wf(),
        a.addable(b),
    ensures
        a.sum(b).wf(),
        a.sum(b).units() == a.units() + b.units(),
{
    lemma_units_sign(a);
    lemma_units_sign(b);
    if a.mantissa != 0 && b.mantissa != 0 {
        let p = pow10((MAX_SCALE - a.scale) as nat);
        let x = a.mantissa as int;
        let y = b.mantissa as int;
        assert((x + y) * p == x * p + y * p) by (nonlinear_arith);
    }
}

/// Where `b` can be subtracted from `a`, `difference` is a valid amount whose
/// value is the difference of their values.
pub proof fn lemma_difference_units(a: Amount, b: Amount)
    requires
        a.wf(),
        b.wf(),
        a.subtractable(b),
    ensures
        a.difference(b).wf(),
        a.difference(b).units() == a.units() - b.units(),
{
    let x = a.mantissa as int;
    let y = b.mantissa as int;
    lemma_units_sign(a);
    lemma_units_sign(b);
    if a.mantissa == 0 {
        let p = pow10((MAX_SCALE - b.scale) as nat);
        assert((-y) * p == 0 - y * p) by (nonlinear_arith);
    } else if b.mantissa != 0 {
        let p = pow10((MAX_SCALE - a.scale) as nat);
        assert((x - y) * p == x * p - y * p) by (nonlinear_arith);
    }
}

/// Multiplying by ten as often as `raise_steps` says keeps the magnitude
/// within a mantissa.
proof fn lemma_raise_steps_fit(m: int, limit: nat)
    requires
        0 <= m <= MAX_MANTISSA,
    ensures
        raise_steps(m, limit) <= limit,
        0 <= m * pow10(raise_steps(m, limit)) <= MAX_MANTISSA,
    decreases limit,
{
    reveal(pow);
    if limit == 0 || m * 10 > MAX_MANTISSA {
        assert(pow10(0) == 1);
    } else {
        let k = raise_steps(m * 10, (limit - 1) as nat);
        lemma_raise_steps_fit(m * 10, (limit - 1) as nat);
        assert(pow10(1 + k) == 10 * pow10(k));
        assert(m * (10 * pow10(k)) == (m * 10) * pow10(k)) by (nonlinear_arith);
    }
}

/// A rescaled amount is a valid amount of the same sign.
pub proof fn lemma_rescaled_wf(a: Amount, target: u32)
    requires
        a.wf(),
        target <= MAX_SCALE,
    ensures
        a.rescaled(target).wf(),
        a.mantissa >= 0 ==> a.rescaled(target).mantissa >= 0,
        a.mantissa <= 0 ==> a.rescaled(target).mantissa <= 0,
{
    let m = a.mantissa as int;
    let mag = magnitude(m);
    if a.scale == target || m == 0 {
    } else if a.scale > target {
        let d = (a.scale - target) as nat;
        let p = pow10(d);
        reveal(pow);
        lemma_pow_positive(10, (d - 1) as nat);
        assert(p == 10 * pow10((d - 1) as nat));
        assert(p >= 10);
        assert(0 <= mag / p <= mag / 10) by (nonlinear_arith)
            requires
                mag >= 0,
                p >= 10,
        ;
    } else {
        let limit = (target - a.scale) as nat;
        let k = raise_steps(mag, limit);
        lemma_raise_steps_fit(mag, limit);
        assert(m * pow10(k) == if m < 0 {
            -(mag * pow10(k))
        } else {
            mag * pow10(k)
        }) by (nonlinear_arith)
            requires
                mag == if m < 0 {
                    -m
                } else {
                    m
                },
        ;
    }
}

/// `rust_decimal::Decimal`'s `+`, for operands whose sum it forms exactly.
/// With a zero operand it hands back the other operand unchanged; with equal
/// scales it adds the mantissas and keeps the scale. Operands of different
/// scales, and sums that leave 96 bits, are left out: there it rescales,
/// rounds or panics.
#[verifier::external_body]
fn decimal_add(a: Amount, b: Amount) -> (r: Amount)
    requires
        a.wf(),
        b.wf(),
        a.addable(b),
    ensures
        r == a.sum(b),
{
    let d = Decimal::from_i128_with_scale(a.mantissa, a.scale)
        + Decimal::from_i128_with_scale(b.mantissa, b.scale);
    Amount { mantissa: d.mantissa(), scale: d.scale() }
}

/// `rust_decimal::Decimal`'s `-`, for operands whose difference it forms
/// exactly. Zero minus `b` is `b` negated at `b`'s scale, `a` minus zero is
/// `a` unchanged, and with equal scales it subtracts the mantissas and keeps
/// the scale. The other operands are left out, as for `decimal_add`.
#[verifier::external_body]
fn decimal_sub(a: Amount, b: Amount) -> (r: Amount)
    requires
        a.wf(),
        b.wf(),
        a.subtractable(b),
    ensures
        r == a.difference(b),
{
    let d = Decimal::from_i128_with_scale(a.mantissa, a.scale)
        - Decimal::from_i128_with_scale(b.mantissa, b.scale);
    Amount { mantissa: d.mantissa(), scale: d.scale() }
}

/// `rust_decimal::Decimal::rescale`. An amount already at the target scale
/// stays as it is, and zero takes the target scale. Lowering the scale
/// divides the magnitude by the power of ten and rounds a midpoint away from
/// zero. Raising it multiplies by ten as often as the 96 bits allow, at most
/// up to the target.
#[verifier::external_body]
fn decimal_rescale(a: Amount, target: u32) -> (r: Amount)
    requires
        a.wf(),
        target <= MAX_SCALE,
    ensures
        r == a.rescaled(target),
{
    let mut d = Decimal::from_i128_with_scale(a.mantissa, a.scale);
    d.rescale(target);
    Amount { mantissa: d.mantissa(), scale: d.scale() }
}

} // verus!
