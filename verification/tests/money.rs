use pos_backend::money::Amount;
use pos_backend::totals::{line_total, receivable, sum};

fn amount(mantissa: i128, scale: u32) -> Amount {
    Amount::new(mantissa, scale).unwrap()
}

const MAX: i128 = 79_228_162_514_264_337_593_543_950_335;

#[test]
fn amount_new_keeps_mantissa_and_scale() {
    let a = amount(1599, 2);
    assert_eq!(a.mantissa(), 1599);
    assert_eq!(a.scale(), 2);
}

#[test]
fn amount_new_refuses_what_a_decimal_cannot_hold() {
    assert!(Amount::new(1, 29).is_none());
    assert!(Amount::new(MAX + 1, 0).is_none());
    assert!(Amount::new(-MAX - 1, 0).is_none());
    assert!(Amount::new(MAX, 28).is_some());
    assert!(Amount::new(-MAX, 0).is_some());
}

#[test]
fn amounts_compare_by_value() {
    let a = amount(10, 1);
    let b = amount(100, 2);
    let c = amount(101, 2);
    assert!(a.same_value(&b));
    assert!(a.less_than(&c));
    assert!(!c.less_than(&b));
    assert!(!a.less_than(&b));
    assert!(amount(-1, 0).is_negative());
    assert!(!Amount::zero().is_negative());
    assert!(amount(-5, 1).less_than(&amount(-4, 1)));
}

#[test]
fn whole_and_hundredths_are_what_they_say() {
    assert_eq!(Amount::whole(7), amount(7, 0));
    assert_eq!(Amount::hundredths(725), amount(725, 2));
    assert_eq!(Amount::zero(), amount(0, 0));
}

#[test]
fn floor_zero_lifts_negative_amounts_only() {
    assert_eq!(amount(-15, 0).floor_zero(), Amount::zero());
    assert_eq!(amount(15, 1).floor_zero(), amount(15, 1));
    assert_eq!(amount(0, 3).floor_zero(), amount(0, 3));
}

#[test]
fn line_total_is_price_times_quantity() {
    assert_eq!(line_total(amount(1599, 2), 3), Some(amount(4797, 2)));
    assert_eq!(line_total(amount(90, 0), 2), Some(amount(180, 0)));
    assert_eq!(line_total(amount(90, 0), -2), Some(amount(-180, 0)));
}

#[test]
fn line_total_of_nothing_is_zero() {
    let total = line_total(amount(1599, 2), 0).unwrap();
    assert!(total.same_value(&Amount::zero()));
}

#[test]
fn line_total_overflows_to_none() {
    assert_eq!(line_total(amount(MAX, 0), 2), None);
}

#[test]
fn sum_adds_from_first_to_last() {
    let amounts = vec![amount(180, 0), amount(4000, 2), amount(5, 1)];
    assert_eq!(sum(&amounts), Some(amount(22050, 2)));
}

#[test]
fn sum_of_nothing_is_zero() {
    assert_eq!(sum(&Vec::new()), Some(Amount::zero()));
}

#[test]
fn sum_overflows_to_none() {
    assert_eq!(sum(&vec![amount(MAX, 0), amount(1, 0)]), None);
}

#[test]
fn receivable_is_what_payments_leave() {
    assert_eq!(receivable(amount(220, 0), amount(100, 0), amount(0, 0)), Some(amount(120, 0)));
    assert_eq!(receivable(amount(22000, 2), amount(100, 0), amount(2050, 2)), Some(amount(9950, 2)));
}

#[test]
fn receivable_is_zero_when_paid_in_full_or_more() {
    let exact = receivable(amount(220, 0), amount(200, 0), amount(20, 0)).unwrap();
    assert!(exact.same_value(&Amount::zero()));
    assert_eq!(receivable(amount(220, 0), amount(300, 0), amount(0, 0)), Some(Amount::zero()));
}

#[test]
fn receivable_overflows_to_none() {
    assert_eq!(receivable(amount(1, 0), amount(MAX, 0), amount(MAX, 0)), None);
    assert_eq!(receivable(amount(-MAX, 0), amount(MAX, 0), amount(0, 0)), None);
}

fn at_scale(mantissa: i128, from: u32, to: u32) -> Option<i128> {
    let mut m = mantissa;
    for _ in from..to {
        m = m.checked_mul(10)?;
    }
    if m.abs() <= MAX {
        Some(m)
    } else {
        None
    }
}

fn within(m: i128) -> Option<i128> {
    if m.abs() <= MAX {
        Some(m)
    } else {
        None
    }
}

fn exact_sum(a: (i128, u32), b: (i128, u32), sign: i128) -> Option<(i128, u32)> {
    if a.0 == 0 {
        return Some((sign * b.0, b.1));
    }
    if b.0 == 0 {
        return Some(a);
    }
    let s = a.1.max(b.1);
    let x = at_scale(a.0, a.1, s)?;
    let y = at_scale(b.0, b.1, s)?;
    Some((within(x + sign * y)?, s))
}

fn exact_product(a: (i128, u32), b: (i128, u32)) -> Option<(i128, u32)> {
    if a.0 == 0 || b.0 == 0 {
        return Some((0, 0));
    }
    if a.1 + b.1 > 28 {
        return None;
    }
    Some((within(a.0.checked_mul(b.0)?)?, a.1 + b.1))
}

fn samples() -> Vec<(i128, u32)> {
    let mantissas: Vec<i128> = vec![
        0,
        1,
        5,
        10,
        99,
        1599,
        4_294_967_295,
        4_294_967_296,
        18_446_744_073_709_551_615,
        18_446_744_073_709_551_616,
        10_000_000_000_000_000_000_000_000_000,
        MAX / 10,
        MAX - 1,
        MAX,
    ];
    let scales: Vec<u32> = vec![0, 1, 2, 9, 10, 19, 20, 27, 28];
    let mut out = Vec::new();
    for m in &mantissas {
        for s in &scales {
            out.push((*m, *s));
            if *m != 0 {
                out.push((-*m, *s));
            }
        }
    }
    out
}

fn pair(a: Amount) -> (i128, u32) {
    (a.mantissa(), a.scale())
}

#[test]
fn addition_that_loses_no_digit_is_the_sum_at_the_larger_scale() {
    let all = samples();
    let mut exact = 0;
    for a in &all {
        for b in &all {
            let got = amount(a.0, a.1).checked_add(amount(b.0, b.1));
            if let Some(want) = exact_sum(*a, *b, 1) {
                assert_eq!(got.map(pair), Some(want), "{:?} + {:?}", a, b);
                exact += 1;
            }
        }
    }
    assert!(exact > 10_000);
}

#[test]
fn subtraction_that_loses_no_digit_is_the_difference_at_the_larger_scale() {
    let all = samples();
    let mut exact = 0;
    for a in &all {
        for b in &all {
            let got = amount(a.0, a.1).checked_sub(amount(b.0, b.1));
            if let Some(want) = exact_sum(*a, *b, -1) {
                assert_eq!(got.map(pair), Some(want), "{:?} - {:?}", a, b);
                exact += 1;
            }
        }
    }
    assert!(exact > 10_000);
}

#[test]
fn multiplication_that_loses_no_digit_is_the_product_at_the_sum_of_the_scales() {
    let all = samples();
    let mut exact = 0;
    for a in &all {
        for b in &all {
            let got = amount(a.0, a.1).checked_mul(amount(b.0, b.1));
            if let Some(want) = exact_product(*a, *b) {
                assert_eq!(got.map(pair), Some(want), "{:?} * {:?}", a, b);
                exact += 1;
            }
        }
    }
    assert!(exact > 5_000);
}

#[test]
fn results_of_arithmetic_stay_within_the_limits() {
    let all = samples();
    for a in &all {
        for b in &all {
            let x = amount(a.0, a.1);
            let y = amount(b.0, b.1);
            for r in [x.checked_add(y), x.checked_sub(y), x.checked_mul(y)] {
                if let Some(r) = r {
                    assert!(r.scale() <= 28);
                    assert!(r.mantissa().abs() <= MAX);
                }
            }
        }
    }
}

#[test]
fn order_by_value_agrees_with_the_mantissas_at_one_scale() {
    let all = samples();
    for a in &all {
        for b in &all {
            let s = a.1.max(b.1);
            if let (Some(x), Some(y)) = (at_scale(a.0, a.1, s), at_scale(b.0, b.1, s)) {
                assert_eq!(amount(a.0, a.1).less_than(&amount(b.0, b.1)), x < y, "{:?} < {:?}", a, b);
                assert_eq!(amount(a.0, a.1).same_value(&amount(b.0, b.1)), x == y);
            }
        }
    }
}

#[test]
fn arithmetic_rounds_where_it_must_and_overflows_where_it_cannot() {
    let tick = amount(1, 28);
    let half = amount(5, 1);
    assert_eq!(amount(MAX, 0).checked_add(amount(1, 0)), None);
    assert_eq!(amount(-MAX, 0).checked_sub(amount(1, 0)), None);
    assert_eq!(amount(MAX, 0).checked_mul(amount(11, 1)), None);
    let rounded = amount(MAX - 1, 0).checked_add(tick).unwrap();
    assert_eq!(pair(rounded), (MAX - 1, 0));
    let tiny = tick.checked_mul(half).unwrap();
    assert_eq!(tiny.scale(), 28);
    assert!(tiny.mantissa() == 0 || tiny.mantissa() == 1);
}
