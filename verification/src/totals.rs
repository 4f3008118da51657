//! The sums of an order: the total of a line, the grand total of the lines
//! and what is left to pay.

use crate::money::{
    difference_is_exact, difference_of, pow10, product_is_exact, product_of, sum_is_exact, sum_of,
    Amount,
};
use vstd::prelude::*;

verus! {

/// The total of a line: its sale price times its quantity. `None` where the
/// decimal arithmetic overflows.
pub open spec fn spec_line_total(sale_price: Amount, qty: int) -> Option<Amount> {
    product_of(sale_price, Amount::spec_whole(qty))
}

/// The amounts added up from the first to the last, starting from zero.
/// `None` where an addition overflows.
pub open spec fn spec_sum(amounts: Seq<Amount>) -> Option<Amount>
    decreases amounts.len(),
{
    if amounts.len() == 0 {
        Some(Amount::spec_zero())
    } else {
        match spec_sum(amounts.drop_last()) {
            Some(acc) => sum_of(acc, amounts.last()),
            None => None,
        }
    }
}

/// The ticks of the amounts, added up.
pub open spec fn ticks_sum(amounts: Seq<Amount>) -> int
    decreases amounts.len(),
{
    if amounts.len() == 0 {
        0
    } else {
        ticks_sum(amounts.drop_last()) + amounts.last().ticks()
    }
}

/// No addition of [`spec_sum`] loses a digit.
pub open spec fn sum_loses_nothing(amounts: Seq<Amount>) -> bool
    decreases amounts.len(),
{
    if amounts.len() == 0 {
        true
    } else {
        &&& sum_loses_nothing(amounts.drop_last())
        &&& spec_sum(amounts.drop_last()) matches Some(acc) && sum_is_exact(acc, amounts.last())
    }
}

/// What is left to pay of `grand_total` after the two payments: the
/// difference, or zero where more was paid. `None` where the decimal
/// arithmetic overflows.
pub open spec fn spec_receivable(
    grand_total: Amount,
    payment_cash: Amount,
    payment_non_cash: Amount,
) -> Option<Amount> {
    match sum_of(payment_cash, payment_non_cash) {
        Some(paid) => match difference_of(grand_total, paid) {
            Some(rest) => Some(rest.spec_floor_zero()),
            None => None,
        },
        None => None,
    }
}

/// Neither the sum of the payments nor its difference to the grand total
/// loses a digit.
pub open spec fn receivable_loses_nothing(
    grand_total: Amount,
    payment_cash: Amount,
    payment_non_cash: Amount,
) -> bool {
    &&& sum_is_exact(payment_cash, payment_non_cash)
    &&& sum_of(payment_cash, payment_non_cash) matches Some(paid) && difference_is_exact(
        grand_total,
        paid,
    )
}

/// The total of a line, in amounts: where the product loses no digit, it is
/// worth the sale price times the quantity.
pub proof fn lemma_line_total(sale_price: Amount, qty: int)
    requires
        sale_price.wf(),
        i32::MIN <= qty <= i32::MAX,
        product_is_exact(sale_price, Amount::spec_whole(qty)),
    ensures
        spec_line_total(sale_price, qty) matches Some(t) && t.wf() && t.ticks()
            == sale_price.ticks() * qty,
{
    Amount::lemma_simple_ticks(qty);
    let factor = Amount::spec_whole(qty);
    Amount::lemma_exact_product(sale_price, factor);
    let t = spec_line_total(sale_price, qty)->0.ticks();
    let p = pow10(28);
    let s = sale_price.ticks();
    assert(s * (qty * p) == (s * qty) * p) by (nonlinear_arith);
    assert(t == s * qty) by (nonlinear_arith)
        requires
            t * p == (s * qty) * p,
            p > 0,
            p == 100 * pow10(26),
    ;
}

/// The sum, in amounts: where no addition loses a digit, the sum is worth
/// what all the amounts are worth together.
pub proof fn lemma_sum(amounts: Seq<Amount>)
    requires
        forall|i: int| 0 <= i < amounts.len() ==> (#[trigger] amounts[i]).wf(),
        sum_loses_nothing(amounts),
    ensures
        spec_sum(amounts) matches Some(t) && t.wf() && t.ticks() == ticks_sum(amounts),
    decreases amounts.len(),
{
    Amount::lemma_simple_ticks(0);
    if amounts.len() > 0 {
        let front = amounts.drop_last();
        assert forall|i: int| 0 <= i < front.len() implies (#[trigger] front[i]).wf() by {
            assert(front[i] == amounts[i]);
        }
        lemma_sum(front);
        let acc = spec_sum(front)->0;
        assert(amounts.last() == amounts[amounts.len() - 1]);
        Amount::lemma_exact_sum(acc, amounts.last());
    }
}

/// The receivable, in amounts: where the arithmetic loses no digit, it is
/// `max(0, grand_total - payment_cash - payment_non_cash)`.
pub proof fn lemma_receivable(grand_total: Amount, payment_cash: Amount, payment_non_cash: Amount)
    requires
        grand_total.wf(),
        payment_cash.wf(),
        payment_non_cash.wf(),
        receivable_loses_nothing(grand_total, payment_cash, payment_non_cash),
    ensures
        spec_receivable(grand_total, payment_cash, payment_non_cash) matches Some(r) && {
            &&& r.wf()
            &&& r.ticks() >= 0
            &&& r.ticks() == (if grand_total.ticks() - payment_cash.ticks()
                - payment_non_cash.ticks() > 0 {
                grand_total.ticks() - payment_cash.ticks() - payment_non_cash.ticks()
            } else {
                0
            })
        },
{
    Amount::lemma_exact_sum(payment_cash, payment_non_cash);
    let paid = sum_of(payment_cash, payment_non_cash)->0;
    Amount::lemma_exact_difference(grand_total, paid);
    Amount::lemma_simple_ticks(0);
}

/// The total of a line: `sale_price * qty`, exactly so where the product
/// loses no digit.
pub fn line_total(sale_price: Amount, qty: i32) -> (r: Option<Amount>)
    ensures
        r == spec_line_total(sale_price, qty as int),
        r matches Some(t) ==> t.wf(),
        product_is_exact(sale_price, Amount::spec_whole(qty as int)) ==> r is Some && r->0.ticks()
            == sale_price.ticks() * qty,
{
    proof {
        use_type_invariant(sale_price);
        if product_is_exact(sale_price, Amount::spec_whole(qty as int)) {
            lemma_line_total(sale_price, qty as int);
        }
    }
    sale_price.checked_mul(Amount::whole(qty as i64))
}

/// The amounts added up from the first to the last. Where no addition loses
/// a digit, the sum is worth the ticks of all of them together.
pub fn sum(amounts: &Vec<Amount>) -> (r: Option<Amount>)
    ensures
        r == spec_sum(amounts@),
        r matches Some(t) ==> t.wf(),
        sum_loses_nothing(amounts@) ==> r is Some && r->0.ticks() == ticks_sum(amounts@),
{
    let mut acc = Amount::zero();
    let mut i: usize = 0;
    while i < amounts.len()
        invariant
            i <= amounts.len(),
            acc.wf(),
            spec_sum(amounts@.take(i as int)) == Some(acc),
            sum_loses_nothing(amounts@.take(i as int)) ==> acc.ticks() == ticks_sum(
                amounts@.take(i as int),
            ),
            sum_loses_nothing(amounts@) ==> sum_loses_nothing(amounts@.take(i as int)),
        decreases amounts.len() - i,
    {
        let next = amounts[i];
        proof {
            use_type_invariant(next);
            let longer = amounts@.take(i + 1);
            assert(longer.drop_last() == amounts@.take(i as int));
            assert(longer.last() == next);
            if sum_loses_nothing(amounts@) {
                lemma_prefix_loses_nothing(amounts@, i + 1);
            }
        }
        match acc.checked_add(next) {
            Some(more) => {
                acc = more;
            },
            None => {
                proof {
                    lemma_sum_fails_on(amounts@, i + 1);
                }
                return None;
            },
        }
        i += 1;
    }
    proof {
        assert(amounts@.take(i as int) == amounts@);
    }
    Some(acc)
}

/// Where the additions of a sequence lose nothing, those of each of its
/// beginnings lose nothing.
pub proof fn lemma_prefix_loses_nothing(amounts: Seq<Amount>, n: int)
    requires
        0 <= n <= amounts.len(),
        sum_loses_nothing(amounts),
    ensures
        sum_loses_nothing(amounts.take(n)),
    decreases amounts.len(),
{
    if n == amounts.len() {
        assert(amounts.take(n) == amounts);
    } else {
        assert(amounts.drop_last().take(n) == amounts.take(n));
        lemma_prefix_loses_nothing(amounts.drop_last(), n);
    }
}

/// Where the sum of a beginning overflows, the sum of the whole does.
pub proof fn lemma_sum_fails_on(amounts: Seq<Amount>, n: int)
    requires
        0 <= n <= amounts.len(),
        spec_sum(amounts.take(n)) is None,
    ensures
        spec_sum(amounts) is None,
    decreases amounts.len(),
{
    if n == amounts.len() {
        assert(amounts.take(n) == amounts);
    } else {
        assert(amounts.drop_last().take(n) == amounts.take(n));
        lemma_sum_fails_on(amounts.drop_last(), n);
    }
}

/// What is left to pay of `grand_total` after the two payments, never below
/// zero. Where the arithmetic loses no digit it is
/// `max(0, grand_total - payment_cash - payment_non_cash)`.
pub fn receivable(grand_total: Amount, payment_cash: Amount, payment_non_cash: Amount) -> (r:
    Option<Amount>)
    ensures
        r == spec_receivable(grand_total, payment_cash, payment_non_cash),
        r matches Some(x) ==> x.wf() && x.ticks() >= 0,
        receivable_loses_nothing(grand_total, payment_cash, payment_non_cash) ==> r is Some
            && r->0.ticks() == (if grand_total.ticks() - payment_cash.ticks()
            - payment_non_cash.ticks() > 0 {
            grand_total.ticks() - payment_cash.ticks() - payment_non_cash.ticks()
        } else {
            0
        }),
{
    proof {
        use_type_invariant(grand_total);
        use_type_invariant(payment_cash);
        use_type_invariant(payment_non_cash);
    }
    match payment_cash.checked_add(payment_non_cash) {
        Some(paid) => match grand_total.checked_sub(paid) {
            Some(rest) => Some(rest.floor_zero()),
            None => None,
        },
        None => None,
    }
}

} // verus!
