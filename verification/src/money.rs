//! Decimal amounts of money.
//!
//! An [`Amount`] is the pair `(mantissa, scale)` that stands for
//! `mantissa / 10^scale`, within the limits of `rust_decimal::Decimal`: a
//! scale of at most 28 and a mantissa of at most 96 bits. Arithmetic is done
//! by `rust_decimal`; this module states what it returns.
//!
//! Values are compared and added up in *ticks* of `10^-28`: every amount is a
//! whole number of ticks, so sums and orderings are statements about integers.

use rust_decimal::Decimal;
use vstd::arithmetic::power::{lemma_pow_adds, lemma_pow_positive, pow};
use vstd::prelude::*;

verus! {

/// Largest scale of an amount.
pub const MAX_SCALE: u32 = 28;

/// Largest magnitude of a mantissa: `2^96 - 1`.
pub const MAX_MANTISSA: i128 = 79_228_162_514_264_337_593_543_950_335;

/// A decimal number `mantissa / 10^scale`.
#[derive(Clone, Copy, Debug, PartialEq, Eq)]
pub struct Amount {
    mantissa: i128,
    scale: u32,
}

/// `10^e`.
pub open spec fn pow10(e: nat) -> int {
    pow(10, e)
}

/// Whether `m` is a mantissa that an amount can hold.
pub open spec fn fits_mantissa(m: int) -> bool {
    -MAX_MANTISSA <= m <= MAX_MANTISSA
}

/// The larger of two scales.
pub open spec fn common_scale(a: Amount, b: Amount) -> nat {
    if a.spec_scale() >= b.spec_scale() {
        a.spec_scale()
    } else {
        b.spec_scale()
    }
}

/// Both amounts and their sum can be written with the larger of the two
/// scales, or one of the two is zero: the addition then loses no digit.
pub open spec fn sum_is_exact(a: Amount, b: Amount) -> bool {
    let s = common_scale(a, b);
    ||| a.spec_mantissa() == 0
    ||| b.spec_mantissa() == 0
    ||| {
        &&& fits_mantissa(a.at_scale(s))
        &&& fits_mantissa(b.at_scale(s))
        &&& fits_mantissa(a.at_scale(s) + b.at_scale(s))
    }
}

/// Both amounts and their difference can be written with the larger of the
/// two scales, or one of the two is zero: the subtraction then loses no
/// digit.
pub open spec fn difference_is_exact(a: Amount, b: Amount) -> bool {
    let s = common_scale(a, b);
    ||| a.spec_mantissa() == 0
    ||| b.spec_mantissa() == 0
    ||| {
        &&& fits_mantissa(a.at_scale(s))
        &&& fits_mantissa(b.at_scale(s))
        &&& fits_mantissa(a.at_scale(s) - b.at_scale(s))
    }
}

/// The product of the mantissas and the sum of the scales are within the
/// limits, or one of the two is zero: the multiplication then loses no
/// digit.
pub open spec fn product_is_exact(a: Amount, b: Amount) -> bool {
    ||| a.spec_mantissa() == 0
    ||| b.spec_mantissa() == 0
    ||| {
        &&& a.spec_scale() + b.spec_scale() <= MAX_SCALE
        &&& fits_mantissa(a.spec_mantissa() * b.spec_mantissa())
    }
}

/// The sum where the addition loses no digit: the other amount where one is
/// zero, and else the sum of the mantissas at the larger of the two scales.
pub open spec fn exact_sum(a: Amount, b: Amount) -> Amount {
    let s = common_scale(a, b);
    if a.spec_mantissa() == 0 {
        b
    } else if b.spec_mantissa() == 0 {
        a
    } else {
        Amount::spec_new(a.at_scale(s) + b.at_scale(s), s)
    }
}

/// The difference where the subtraction loses no digit: `b` with the sign
/// turned where `a` is zero, `a` where `b` is zero, and else the difference
/// of the mantissas at the larger of the two scales.
pub open spec fn exact_difference(a: Amount, b: Amount) -> Amount {
    let s = common_scale(a, b);
    if a.spec_mantissa() == 0 {
        Amount::spec_new(-b.spec_mantissa(), b.spec_scale())
    } else if b.spec_mantissa() == 0 {
        a
    } else {
        Amount::spec_new(a.at_scale(s) - b.at_scale(s), s)
    }
}

/// The product where the multiplication loses no digit: zero where one of
/// the two is zero, and else the product of the mantissas at the sum of the
/// scales.
pub open spec fn exact_product(a: Amount, b: Amount) -> Amount {
    if a.spec_mantissa() == 0 || b.spec_mantissa() == 0 {
        Amount::spec_zero()
    } else {
        Amount::spec_new(a.spec_mantissa() * b.spec_mantissa(), a.spec_scale() + b.spec_scale())
    }
}

/// What `Decimal::checked_add` returns for these two decimals.
pub uninterp spec fn decimal_sum(a: Amount, b: Amount) -> Option<Amount>;

/// What `Decimal::checked_sub` returns for these two decimals.
pub uninterp spec fn decimal_difference(a: Amount, b: Amount) -> Option<Amount>;

/// What `Decimal::checked_mul` returns for these two decimals.
pub uninterp spec fn decimal_product(a: Amount, b: Amount) -> Option<Amount>;

/// The sum of two amounts as the decimal arithmetic gives it: the exact sum
/// where the addition loses no digit, and else what `Decimal::checked_add`
/// makes of it by rounding, or `None` where it overflows.
pub open spec fn sum_of(a: Amount, b: Amount) -> Option<Amount> {
    if sum_is_exact(a, b) {
        Some(exact_sum(a, b))
    } else {
        decimal_sum(a, b)
    }
}

/// The difference of two amounts as the decimal arithmetic gives it.
pub open spec fn difference_of(a: Amount, b: Amount) -> Option<Amount> {
    if difference_is_exact(a, b) {
        Some(exact_difference(a, b))
    } else {
        decimal_difference(a, b)
    }
}

/// The product of two amounts as the decimal arithmetic gives it.
pub open spec fn product_of(a: Amount, b: Amount) -> Option<Amount> {
    if product_is_exact(a, b) {
        Some(exact_product(a, b))
    } else {
        decimal_product(a, b)
    }
}

impl Amount {
    /// The mantissa, as a mathematical integer.
    pub closed spec fn spec_mantissa(self) -> int {
        self.mantissa as int
    }

    /// The scale: the number of decimal places.
    pub closed spec fn spec_scale(self) -> nat {
        self.scale as nat
    }

    /// Whether the pair is within the limits of a decimal. Every amount that
    /// a program holds is.
    #[verifier::type_invariant]
    pub open spec fn wf(self) -> bool {
        self.spec_scale() <= MAX_SCALE && fits_mantissa(self.spec_mantissa())
    }

    /// The value in ticks of `10^-28`.
    pub open spec fn ticks(self) -> int
        recommends
            self.wf(),
    {
        self.spec_mantissa() * pow10((MAX_SCALE - self.spec_scale()) as nat)
    }

    /// The mantissa this amount has when written with `scale` decimal places.
    pub open spec fn at_scale(self, scale: nat) -> int
        recommends
            self.spec_scale() <= scale,
    {
        self.spec_mantissa() * pow10((scale - self.spec_scale()) as nat)
    }

    /// The amount with the given mantissa and scale.
    pub closed spec fn spec_new(mantissa: int, scale: nat) -> Amount
        recommends
            scale <= MAX_SCALE,
            fits_mantissa(mantissa),
    {
        Amount { mantissa: mantissa as i128, scale: scale as u32 }
    }

    /// Zero, with no decimal places.
    pub open spec fn spec_zero() -> Amount {
        Amount::spec_new(0, 0)
    }

    /// The whole number `n`.
    pub open spec fn spec_whole(n: int) -> Amount {
        Amount::spec_new(n, 0)
    }

    /// `n` hundredths: `n / 100`.
    pub open spec fn spec_hundredths(n: int) -> Amount {
        Amount::spec_new(n, 2)
    }

    /// This amount, or zero where it is negative.
    pub open spec fn spec_floor_zero(self) -> Amount {
        if self.ticks() < 0 {
            Amount::spec_zero()
        } else {
            self
        }
    }

    /// An amount is the pair of its mantissa and its scale, and nothing else.
    pub broadcast proof fn lemma_new_fields(mantissa: int, scale: nat)
        requires
            scale <= MAX_SCALE,
            fits_mantissa(mantissa),
        ensures
            (#[trigger] Amount::spec_new(mantissa, scale)).spec_mantissa() == mantissa,
            Amount::spec_new(mantissa, scale).spec_scale() == scale,
            Amount::spec_new(mantissa, scale).wf(),
    {
    }

    /// Two amounts with the same mantissa and scale are the same amount.
    pub proof fn lemma_same_fields(self, other: Amount)
        requires
            self.wf(),
            other.wf(),
            self.spec_mantissa() == other.spec_mantissa(),
            self.spec_scale() == other.spec_scale(),
        ensures
            self == other,
    {
    }

    /// Zero is worth no tick, a whole number `n` is worth `n * 10^28` ticks
    /// and `n` hundredths are worth `n * 10^26`.
    pub proof fn lemma_simple_ticks(n: int)
        requires
            fits_mantissa(n),
        ensures
            Amount::spec_zero().wf(),
            Amount::spec_zero().ticks() == 0,
            Amount::spec_whole(n).wf(),
            Amount::spec_whole(n).ticks() == n * pow10(28),
            Amount::spec_hundredths(n).wf(),
            Amount::spec_hundredths(n).ticks() == n * pow10(26),
            pow10(28) == 100 * pow10(26),
            pow10(26) > 0,
    {
        lemma_pow_adds(10, 2, 26);
        lemma_pow_positive(10, 26);
        assert(pow(10, 2) == 100) by {
            reveal_with_fuel(pow, 3);
        }
    }

    /// The amount `mantissa / 10^scale`, where a decimal can hold it.
    pub fn new(mantissa: i128, scale: u32) -> (r: Option<Amount>)
        ensures
            r == (if scale <= MAX_SCALE && fits_mantissa(mantissa as int) {
                Some(Amount::spec_new(mantissa as int, scale as nat))
            } else {
                None
            }),
            r matches Some(a) ==> a.wf() && a.spec_mantissa() == mantissa && a.spec_scale()
                == scale,
    {
        if scale <= MAX_SCALE && -MAX_MANTISSA <= mantissa && mantissa <= MAX_MANTISSA {
            Some(Amount { mantissa, scale })
        } else {
            None
        }
    }

    /// Zero.
    pub fn zero() -> (r: Amount)
        ensures
            r == Amount::spec_zero(),
            r.wf(),
            r.ticks() == 0,
    {
        proof {
            Amount::lemma_simple_ticks(0);
        }
        Amount { mantissa: 0, scale: 0 }
    }

    /// The whole number `n`.
    pub fn whole(n: i64) -> (r: Amount)
        ensures
            r == Amount::spec_whole(n as int),
            r.wf(),
            r.ticks() == n * pow10(28),
    {
        proof {
            Amount::lemma_simple_ticks(n as int);
        }
        Amount { mantissa: n as i128, scale: 0 }
    }

    /// `n` hundredths.
    pub fn hundredths(n: i64) -> (r: Amount)
        ensures
            r == Amount::spec_hundredths(n as int),
            r.wf(),
            r.ticks() == n * pow10(26),
    {
        proof {
            Amount::lemma_simple_ticks(n as int);
        }
        Amount { mantissa: n as i128, scale: 2 }
    }

    /// The mantissa.
    pub fn mantissa(&self) -> (m: i128)
        ensures
            m == self.spec_mantissa(),
            fits_mantissa(m as int),
    {
        proof {
            use_type_invariant(self);
        }
        self.mantissa
    }

    /// The number of decimal places.
    pub fn scale(&self) -> (s: u32)
        ensures
            s == self.spec_scale(),
            s <= MAX_SCALE,
    {
        proof {
            use_type_invariant(self);
        }
        self.scale
    }

    /// An amount with the mantissa 0 is worth nothing.
    pub proof fn lemma_zero_ticks(self)
        ensures
            self.spec_mantissa() == 0 ==> self.ticks() == 0,
    {
        let p = pow10((MAX_SCALE - self.spec_scale()) as nat);
        assert(0 * p == 0) by (nonlinear_arith);
    }

    /// An amount written with more decimal places is worth the same.
    pub proof fn lemma_at_scale(self, scale: nat)
        requires
            self.spec_scale() <= scale <= MAX_SCALE,
        ensures
            self.at_scale(scale) * pow10((MAX_SCALE - scale) as nat) == self.ticks(),
            pow10((MAX_SCALE - scale) as nat) > 0,
    {
        let up = (scale - self.spec_scale()) as nat;
        let rest = (MAX_SCALE - scale) as nat;
        lemma_pow_adds(10, up, rest);
        lemma_pow_positive(10, rest);
        let m = self.spec_mantissa();
        assert((m * pow(10, up)) * pow(10, rest) == m * (pow(10, up) * pow(10, rest)))
            by (nonlinear_arith);
    }

    /// An exact sum is an amount, worth what the two are worth together.
    pub proof fn lemma_exact_sum(a: Amount, b: Amount)
        requires
            a.wf(),
            b.wf(),
            sum_is_exact(a, b),
        ensures
            exact_sum(a, b).wf(),
            exact_sum(a, b).ticks() == a.ticks() + b.ticks(),
    {
        let s = common_scale(a, b);
        a.lemma_zero_ticks();
        b.lemma_zero_ticks();
        if a.spec_mantissa() != 0 && b.spec_mantissa() != 0 {
            a.lemma_at_scale(s);
            b.lemma_at_scale(s);
            let p = pow10((MAX_SCALE - s) as nat);
            let x = a.at_scale(s);
            let y = b.at_scale(s);
            let r = exact_sum(a, b);
            assert(r.spec_mantissa() == x + y && r.spec_scale() == s);
            assert((x + y) * p == x * p + y * p) by (nonlinear_arith);
        }
    }

    /// An exact difference is an amount, worth what `a` is worth more than
    /// `b`.
    pub proof fn lemma_exact_difference(a: Amount, b: Amount)
        requires
            a.wf(),
            b.wf(),
            difference_is_exact(a, b),
        ensures
            exact_difference(a, b).wf(),
            exact_difference(a, b).ticks() == a.ticks() - b.ticks(),
    {
        let s = common_scale(a, b);
        a.lemma_zero_ticks();
        b.lemma_zero_ticks();
        let r = exact_difference(a, b);
        if a.spec_mantissa() == 0 {
            let p = pow10((MAX_SCALE - b.spec_scale()) as nat);
            let m = b.spec_mantissa();
            assert(r.spec_mantissa() == -m && r.spec_scale() == b.spec_scale());
            assert((-m) * p == -(m * p)) by (nonlinear_arith);
        } else if b.spec_mantissa() != 0 {
            a.lemma_at_scale(s);
            b.lemma_at_scale(s);
            let p = pow10((MAX_SCALE - s) as nat);
            let x = a.at_scale(s);
            let y = b.at_scale(s);
            assert(r.spec_mantissa() == x - y && r.spec_scale() == s);
            assert((x - y) * p == x * p - y * p) by (nonlinear_arith);
        }
    }

    /// An exact product is an amount, worth as many ticks as the product of
    /// the ticks of the two, divided by the `10^28` ticks of one unit.
    pub proof fn lemma_exact_product(a: Amount, b: Amount)
        requires
            a.wf(),
            b.wf(),
            product_is_exact(a, b),
        ensures
            exact_product(a, b).wf(),
            exact_product(a, b).ticks() * pow10(28) == a.ticks() * b.ticks(),
    {
        let x = a.spec_mantissa();
        let y = b.spec_mantissa();
        let pa = pow10((MAX_SCALE - a.spec_scale()) as nat);
        let pb = pow10((MAX_SCALE - b.spec_scale()) as nat);
        let r = exact_product(a, b);
        if x == 0 || y == 0 {
            Amount::lemma_simple_ticks(0);
            assert((x * pa) * (y * pb) == 0) by (nonlinear_arith)
                requires
                    x == 0 || y == 0,
            ;
            assert(r.ticks() * pow10(28) == 0) by (nonlinear_arith)
                requires
                    r.ticks() == 0,
            ;
        } else {
            let rest = (MAX_SCALE - a.spec_scale() - b.spec_scale()) as nat;
            assert(r.spec_mantissa() == x * y && r.spec_scale() == a.spec_scale() + b.spec_scale());
            lemma_pow_adds(10, rest, 28);
            lemma_pow_adds(
                10,
                (MAX_SCALE - a.spec_scale()) as nat,
                (MAX_SCALE - b.spec_scale()) as nat,
            );
            let pr = pow10(rest);
            let p28 = pow10(28);
            assert(rest + 28 == (MAX_SCALE - a.spec_scale()) + (MAX_SCALE - b.spec_scale()));
            assert(pr * p28 == pa * pb);
            assert(((x * y) * pr) * p28 == (x * y) * (pr * p28)) by (nonlinear_arith);
            assert((x * pa) * (y * pb) == (x * y) * (pa * pb)) by (nonlinear_arith);
        }
    }

    /// Whether this amount is worth less than `other`.
    pub fn less_than(&self, other: &Amount) -> (r: bool)
        ensures
            r == (self.ticks() < other.ticks()),
    {
        proof {
            use_type_invariant(self);
            use_type_invariant(other);
        }
        decimal_less(*self, *other)
    }

    /// Whether the two amounts are worth the same, whatever their scales.
    pub fn same_value(&self, other: &Amount) -> (r: bool)
        ensures
            r == (self.ticks() == other.ticks()),
    {
        !self.less_than(other) && !other.less_than(self)
    }

    /// Whether this amount is below zero.
    pub fn is_negative(&self) -> (r: bool)
        ensures
            r == (self.ticks() < 0),
    {
        proof {
            let p = pow10((MAX_SCALE - self.spec_scale()) as nat);
            let m = self.spec_mantissa();
            lemma_pow_positive(10, (MAX_SCALE - self.spec_scale()) as nat);
            assert((m < 0) == (m * p < 0)) by (nonlinear_arith)
                requires
                    p > 0,
            ;
        }
        self.mantissa < 0
    }

    /// This amount, or zero where it is negative.
    pub fn floor_zero(self) -> (r: Amount)
        ensures
            r == self.spec_floor_zero(),
            r.wf(),
            r.ticks() >= 0,
            r.ticks() == (if self.ticks() < 0 {
                0
            } else {
                self.ticks()
            }),
    {
        proof {
            use_type_invariant(self);
        }
        if self.is_negative() {
            Amount::zero()
        } else {
            self
        }
    }

    /// The sum of this amount and `other`, or `None` where it overflows.
    ///
    /// Where the addition loses no digit, the sum is worth what the two are
    /// worth together.
    pub fn checked_add(self, other: Amount) -> (r: Option<Amount>)
        ensures
            r == sum_of(self, other),
            r matches Some(x) ==> x.wf(),
            sum_is_exact(self, other) ==> r is Some && r->0.ticks() == self.ticks()
                + other.ticks(),
    {
        proof {
            use_type_invariant(self);
            use_type_invariant(other);
            if sum_is_exact(self, other) {
                Amount::lemma_exact_sum(self, other);
            }
        }
        decimal_add(self, other)
    }

    /// The difference of this amount and `other`, or `None` where it
    /// overflows.
    ///
    /// Where the subtraction loses no digit, the difference is worth what
    /// this amount is worth more than `other`.
    pub fn checked_sub(self, other: Amount) -> (r: Option<Amount>)
        ensures
            r == difference_of(self, other),
            r matches Some(x) ==> x.wf(),
            difference_is_exact(self, other) ==> r is Some && r->0.ticks() == self.ticks()
                - other.ticks(),
    {
        proof {
            use_type_invariant(self);
            use_type_invariant(other);
            if difference_is_exact(self, other) {
                Amount::lemma_exact_difference(self, other);
            }
        }
        decimal_sub(self, other)
    }

    /// The product of this amount and `other`, or `None` where it
    /// overflows.
    ///
    /// Where the multiplication loses no digit, the product is worth as many
    /// ticks as the product of the ticks of the two, divided by the `10^28`
    /// ticks of one unit.
    pub fn checked_mul(self, other: Amount) -> (r: Option<Amount>)
        ensures
            r == product_of(self, other),
            r matches Some(x) ==> x.wf(),
            product_is_exact(self, other) ==> r is Some && r->0.ticks() * pow10(28)
                == self.ticks() * other.ticks(),
    {
        proof {
            use_type_invariant(self);
            use_type_invariant(other);
            if product_is_exact(self, other) {
                Amount::lemma_exact_product(self, other);
            }
        }
        decimal_mul(self, other)
    }
}

/// Calls `Decimal::checked_add` on the two decimals. The result is named
/// [`decimal_sum`]; it is again within the limits of a decimal. Where one of
/// the two is zero it is the other; and where both, brought to the larger of
/// the two scales, and their sum are within the limits, it is that sum at
/// that scale.
#[verifier::external_body]
fn decimal_add(a: Amount, b: Amount) -> (r: Option<Amount>)
    requires
        a.wf(),
        b.wf(),
    ensures
        r == decimal_sum(a, b),
        r matches Some(x) ==> x.wf(),
        sum_is_exact(a, b) ==> r == Some(exact_sum(a, b)),
{
    let x = Decimal::from_i128_with_scale(a.mantissa, a.scale);
    let y = Decimal::from_i128_with_scale(b.mantissa, b.scale);
    match x.checked_add(y) {
        Some(d) => Some(Amount { mantissa: d.mantissa(), scale: d.scale() }),
        None => None,
    }
}

/// Calls `Decimal::checked_sub` on the two decimals. The result is named
/// [`decimal_difference`]; it is again within the limits of a decimal. Where
/// the first is zero it is the second with its sign turned, and where the
/// second is zero it is the first; and where both, brought to the larger of
/// the two scales, and their difference are within the limits, it is that
/// difference at that scale.
#[verifier::external_body]
fn decimal_sub(a: Amount, b: Amount) -> (r: Option<Amount>)
    requires
        a.wf(),
        b.wf(),
    ensures
        r == decimal_difference(a, b),
        r matches Some(x) ==> x.wf(),
        difference_is_exact(a, b) ==> r == Some(exact_difference(a, b)),
{
    let x = Decimal::from_i128_with_scale(a.mantissa, a.scale);
    let y = Decimal::from_i128_with_scale(b.mantissa, b.scale);
    match x.checked_sub(y) {
        Some(d) => Some(Amount { mantissa: d.mantissa(), scale: d.scale() }),
        None => None,
    }
}

/// Calls `Decimal::checked_mul` on the two decimals. The result is named
/// [`decimal_product`]; it is again within the limits of a decimal. Where one
/// of the two is zero it is zero with no decimal places; and where the
/// product of the mantissas and the sum of the scales are within the limits,
/// it is that product at that scale.
#[verifier::external_body]
fn decimal_mul(a: Amount, b: Amount) -> (r: Option<Amount>)
    requires
        a.wf(),
        b.wf(),
    ensures
        r == decimal_product(a, b),
        r matches Some(x) ==> x.wf(),
        product_is_exact(a, b) ==> r == Some(exact_product(a, b)),
{
    let x = Decimal::from_i128_with_scale(a.mantissa, a.scale);
    let y = Decimal::from_i128_with_scale(b.mantissa, b.scale);
    match x.checked_mul(y) {
        Some(d) => Some(Amount { mantissa: d.mantissa(), scale: d.scale() }),
        None => None,
    }
}

/// Compares two decimals with `<` of `Decimal`, which orders them by value,
/// whatever their scales.
#[verifier::external_body]
fn decimal_less(a: Amount, b: Amount) -> (r: bool)
    requires
        a.wf(),
        b.wf(),
    ensures
        r == (a.ticks() < b.ticks()),
{
    let x = Decimal::from_i128_with_scale(a.mantissa, a.scale);
    let y = Decimal::from_i128_with_scale(b.mantissa, b.scale);
    x < y
}

} // verus!
