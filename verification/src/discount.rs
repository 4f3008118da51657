//! The discount rule of a cart line.
//!
//! A fixed discount takes `discount_value` whole currency units off the base
//! price; a percentage discount takes `discount_value` hundredths of it. The
//! sale price is what is left, and never less than zero.

use crate::money::{difference_is_exact, difference_of, pow10, product_is_exact, product_of, Amount};
use vstd::prelude::*;

verus! {

/// How `discount_value` is to be read.
#[derive(Clone, Copy, Debug, PartialEq, Eq, Structural)]
pub enum DiscountType {
    /// So many whole currency units.
    Fixed,
    /// So many hundredths of the base price.
    Percentage,
}

/// A discount and the price that it leaves.
#[derive(Clone, Copy, Debug)]
pub struct Pricing {
    pub discount_amount: Amount,
    pub sale_price: Amount,
}

/// The discount on `base_price`, or `None` where the decimal arithmetic
/// overflows.
pub open spec fn spec_discount_amount(
    base_price: Amount,
    discount_type: DiscountType,
    discount_value: int,
) -> Option<Amount> {
    match discount_type {
        DiscountType::Fixed => Some(Amount::spec_whole(discount_value)),
        DiscountType::Percentage => product_of(
            base_price,
            Amount::spec_hundredths(discount_value),
        ),
    }
}

/// The price that is left of `base_price` after `discount_amount`: their
/// difference, or zero where the discount is the larger one. `None` where the
/// decimal arithmetic overflows.
pub open spec fn spec_sale_price(base_price: Amount, discount_amount: Amount) -> Option<Amount> {
    match difference_of(base_price, discount_amount) {
        Some(rest) => Some(rest.spec_floor_zero()),
        None => None,
    }
}

/// The discount and the sale price of a line.
pub open spec fn spec_compute(
    base_price: Amount,
    discount_type: DiscountType,
    discount_value: int,
) -> Option<Pricing> {
    match spec_discount_amount(base_price, discount_type, discount_value) {
        Some(discount_amount) => match spec_sale_price(base_price, discount_amount) {
            Some(sale_price) => Some(Pricing { discount_amount, sale_price }),
            None => None,
        },
        None => None,
    }
}

/// The percentage can be taken without losing a digit.
pub open spec fn percentage_is_exact(base_price: Amount, discount_value: int) -> bool {
    product_is_exact(base_price, Amount::spec_hundredths(discount_value))
}

/// Neither the discount nor the sale price loses a digit.
pub open spec fn rule_is_exact(
    base_price: Amount,
    discount_type: DiscountType,
    discount_value: int,
) -> bool {
    &&& discount_type is Percentage ==> percentage_is_exact(base_price, discount_value)
    &&& spec_discount_amount(base_price, discount_type, discount_value) matches Some(d)
        && difference_is_exact(base_price, d)
}

impl DiscountType {
    /// The name of the kind in requests and in stored rows.
    pub open spec fn spec_name(self) -> Seq<char> {
        match self {
            DiscountType::Fixed => "fixed"@,
            DiscountType::Percentage => "percentage"@,
        }
    }

    /// The kind that a name stands for: `percentage` is the percentage, and
    /// every other name is read as a fixed discount.
    pub open spec fn spec_from_name(name: Seq<char>) -> DiscountType {
        if name == "percentage"@ {
            DiscountType::Percentage
        } else {
            DiscountType::Fixed
        }
    }

    /// The name of the kind in requests and in stored rows.
    pub fn name(&self) -> (r: String)
        ensures
            r@ == self.spec_name(),
    {
        match self {
            DiscountType::Fixed => "fixed".to_owned(),
            DiscountType::Percentage => "percentage".to_owned(),
        }
    }

    /// The kind that a name stands for.
    pub fn from_name(name: &String) -> (r: DiscountType)
        ensures
            r == DiscountType::spec_from_name(name@),
    {
        let percentage = "percentage".to_owned();
        if *name == percentage {
            DiscountType::Percentage
        } else {
            DiscountType::Fixed
        }
    }
}

/// `t * 10^28 == b * (v * 10^26)` leaves `t * 100 == b * v`.
proof fn lemma_percentage_ticks(t: int, b: int, v: int)
    requires
        t * pow10(28) == b * (v * pow10(26)),
        pow10(28) == 100 * pow10(26),
        pow10(26) > 0,
    ensures
        t * 100 == b * v,
{
    let p = pow10(26);
    assert(t * (100 * p) == (t * 100) * p) by (nonlinear_arith);
    assert(b * (v * p) == (b * v) * p) by (nonlinear_arith);
    assert((t * 100) * p == (b * v) * p);
    assert(t * 100 == b * v) by (nonlinear_arith)
        requires
            (t * 100) * p == (b * v) * p,
            p > 0,
    ;
}

/// Whether discount and sale price are what the rule says, to the last
/// digit: a fixed discount of `discount_value` units or a percentage of
/// `base_price * discount_value / 100`, and a sale price of the base price
/// less the discount, or of zero where the discount is the larger. Then, for
/// a discount that is neither negative nor larger than the base price, sale
/// price and discount add up to the base price.
pub open spec fn follows_rule(
    base_price: Amount,
    discount_type: DiscountType,
    discount_value: int,
    p: Pricing,
) -> bool {
    &&& discount_type is Fixed ==> p.discount_amount.ticks() == discount_value * pow10(28)
    &&& discount_type is Percentage ==> p.discount_amount.ticks() * 100 == base_price.ticks()
        * discount_value
    &&& base_price.ticks() >= 0 && discount_value >= 0 ==> p.discount_amount.ticks() >= 0
    &&& p.sale_price.ticks() >= 0
    &&& p.sale_price.ticks() == (if base_price.ticks() >= p.discount_amount.ticks() {
        base_price.ticks() - p.discount_amount.ticks()
    } else {
        0
    })
    &&& 0 <= p.discount_amount.ticks() <= base_price.ticks() ==> p.sale_price.ticks()
        + p.discount_amount.ticks() == base_price.ticks()
}

/// The discount rule, in amounts: a fixed discount is worth
/// `discount_value` units, and a percentage that loses no digit is worth
/// exactly `base_price * discount_value / 100`. Where base price and
/// discount value are not negative, neither is the discount.
pub proof fn lemma_discount_amount(
    base_price: Amount,
    discount_type: DiscountType,
    discount_value: int,
)
    requires
        base_price.wf(),
        i32::MIN <= discount_value <= i32::MAX,
        discount_type is Percentage ==> percentage_is_exact(base_price, discount_value),
    ensures
        spec_discount_amount(base_price, discount_type, discount_value) matches Some(d) && {
            &&& d.wf()
            &&& discount_type is Fixed ==> d.ticks() == discount_value * pow10(28)
            &&& discount_type is Percentage ==> d.ticks() * 100 == base_price.ticks()
                * discount_value
            &&& base_price.ticks() >= 0 && discount_value >= 0 ==> d.ticks() >= 0
        },
{
    Amount::lemma_simple_ticks(discount_value);
    let d = spec_discount_amount(base_price, discount_type, discount_value)->0;
    if discount_type is Percentage {
        let factor = Amount::spec_hundredths(discount_value);
        Amount::lemma_exact_product(base_price, factor);
        lemma_percentage_ticks(d.ticks(), base_price.ticks(), discount_value);
    }
    if base_price.ticks() >= 0 && discount_value >= 0 {
        assert(discount_value * pow10(28) >= 0) by (nonlinear_arith)
            requires
                discount_value >= 0,
                pow10(28) == 100 * pow10(26),
                pow10(26) > 0,
        ;
        assert(base_price.ticks() * discount_value >= 0) by (nonlinear_arith)
            requires
                base_price.ticks() >= 0,
                discount_value >= 0,
        ;
    }
}

/// The sale price, in amounts: where the subtraction loses no digit, it is
/// the base price less the discount, or zero where the discount is the
/// larger; so for a discount that is neither negative nor larger than the
/// base price, sale price and discount add up to the base price, and
/// neither is negative.
pub proof fn lemma_sale_price(base_price: Amount, discount_amount: Amount)
    requires
        base_price.wf(),
        discount_amount.wf(),
        difference_is_exact(base_price, discount_amount),
    ensures
        spec_sale_price(base_price, discount_amount) matches Some(s) && {
            &&& s.wf()
            &&& s.ticks() >= 0
            &&& s.ticks() == (if base_price.ticks() >= discount_amount.ticks() {
                base_price.ticks() - discount_amount.ticks()
            } else {
                0
            })
            &&& 0 <= discount_amount.ticks() <= base_price.ticks() ==> s.ticks()
                + discount_amount.ticks() == base_price.ticks()
        },
{
    Amount::lemma_exact_difference(base_price, discount_amount);
    Amount::lemma_simple_ticks(0);
}

/// For every base price, kind and value of discount whose arithmetic loses
/// no digit, discount and sale price can be computed and are what the rule
/// says.
pub proof fn lemma_compute(base_price: Amount, discount_type: DiscountType, discount_value: int)
    requires
        base_price.wf(),
        i32::MIN <= discount_value <= i32::MAX,
        rule_is_exact(base_price, discount_type, discount_value),
    ensures
        spec_compute(base_price, discount_type, discount_value) is Some,
        follows_rule(
            base_price,
            discount_type,
            discount_value,
            spec_compute(base_price, discount_type, discount_value)->0,
        ),
{
    lemma_discount_amount(base_price, discount_type, discount_value);
    lemma_sale_price(
        base_price,
        spec_discount_amount(base_price, discount_type, discount_value)->0,
    );
}

/// The discount on `base_price`.
///
/// A fixed discount is `discount_value` whole units. A percentage is
/// `base_price * discount_value / 100`, exactly so where the product loses no
/// digit.
pub fn discount_amount(base_price: Amount, discount_type: DiscountType, discount_value: i32) -> (r:
    Option<Amount>)
    ensures
        r == spec_discount_amount(base_price, discount_type, discount_value as int),
        r matches Some(d) ==> d.wf(),
        discount_type is Fixed ==> r is Some && r->0.ticks() == discount_value * pow10(28),
        discount_type is Percentage && percentage_is_exact(base_price, discount_value as int)
            ==> r is Some && r->0.ticks() * 100 == base_price.ticks() * discount_value,
{
    proof {
        use_type_invariant(base_price);
        if discount_type is Fixed || percentage_is_exact(base_price, discount_value as int) {
            lemma_discount_amount(base_price, discount_type, discount_value as int);
        }
    }
    match discount_type {
        DiscountType::Fixed => Some(Amount::whole(discount_value as i64)),
        DiscountType::Percentage => base_price.checked_mul(
            Amount::hundredths(discount_value as i64),
        ),
    }
}

/// The price that is left of `base_price` after `discount_amount`, never
/// below zero.
pub fn sale_price(base_price: Amount, discount_amount: Amount) -> (r: Option<Amount>)
    ensures
        r == spec_sale_price(base_price, discount_amount),
        r matches Some(s) ==> s.wf() && s.ticks() >= 0,
        difference_is_exact(base_price, discount_amount) ==> r is Some && r->0.ticks() == (if
            base_price.ticks() >= discount_amount.ticks() {
            base_price.ticks() - discount_amount.ticks()
        } else {
            0
        }),
{
    proof {
        use_type_invariant(base_price);
        use_type_invariant(discount_amount);
    }
    match base_price.checked_sub(discount_amount) {
        Some(rest) => Some(rest.floor_zero()),
        None => None,
    }
}

/// The discount and the sale price of a line with the given base price and
/// discount rule.
///
/// Fails only where the decimal arithmetic overflows, and never where it
/// loses no digit. The sale price is never negative. Where the arithmetic
/// loses no digit, the discount is what the rule says, and the sale price is
/// the base price less the discount, or zero where the discount is the
/// larger.
pub fn compute(base_price: Amount, discount_type: DiscountType, discount_value: i32) -> (r: Option<
    Pricing,
>)
    ensures
        r == spec_compute(base_price, discount_type, discount_value as int),
        r matches Some(p) ==> p.discount_amount.wf() && p.sale_price.wf() && p.sale_price.ticks()
            >= 0,
        rule_is_exact(base_price, discount_type, discount_value as int) ==> r is Some
            && follows_rule(base_price, discount_type, discount_value as int, r->0),
{
    proof {
        use_type_invariant(base_price);
        if rule_is_exact(base_price, discount_type, discount_value as int) {
            lemma_compute(base_price, discount_type, discount_value as int);
        }
    }
    match discount_amount(base_price, discount_type, discount_value) {
        Some(discount_amount) => match sale_price(base_price, discount_amount) {
            Some(sale_price) => Some(Pricing { discount_amount, sale_price }),
            None => None,
        },
        None => None,
    }
}

} // verus!
