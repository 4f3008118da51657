use pos_backend::discount::{compute, discount_amount, sale_price, DiscountType};
use pos_backend::money::Amount;

fn amount(mantissa: i128, scale: u32) -> Amount {
    Amount::new(mantissa, scale).unwrap()
}

#[test]
fn fixed_discount_is_whole_units() {
    let p = compute(amount(100, 0), DiscountType::Fixed, 10).unwrap();
    assert_eq!(p.discount_amount, amount(10, 0));
    assert_eq!(p.sale_price, amount(90, 0));
}

#[test]
fn percentage_discount_is_hundredths_of_the_base_price() {
    let p = compute(amount(50, 0), DiscountType::Percentage, 20).unwrap();
    assert_eq!(p.discount_amount, amount(1000, 2));
    assert_eq!(p.sale_price, amount(4000, 2));
    assert!(p.discount_amount.same_value(&amount(10, 0)));
    assert!(p.sale_price.same_value(&amount(40, 0)));
}

#[test]
fn percentage_of_a_price_with_cents_is_exact() {
    let p = compute(amount(1599, 2), DiscountType::Percentage, 10).unwrap();
    assert_eq!(p.discount_amount, amount(15990, 4));
    assert_eq!(p.sale_price, amount(143910, 4));
}

#[test]
fn sale_price_plus_discount_is_the_base_price() {
    let base = amount(1599, 2);
    let p = compute(base, DiscountType::Percentage, 33).unwrap();
    let back = pos_backend::totals::sum(&vec![p.sale_price, p.discount_amount]).unwrap();
    assert!(back.same_value(&base));
    assert!(!p.sale_price.is_negative());
    assert!(!p.discount_amount.is_negative());
}

#[test]
fn no_discount_leaves_the_base_price() {
    let fixed = compute(amount(1599, 2), DiscountType::Fixed, 0).unwrap();
    assert!(fixed.discount_amount.same_value(&Amount::zero()));
    assert_eq!(fixed.sale_price, amount(1599, 2));
    let percent = compute(amount(1599, 2), DiscountType::Percentage, 0).unwrap();
    assert!(percent.discount_amount.same_value(&Amount::zero()));
    assert!(percent.sale_price.same_value(&amount(1599, 2)));
}

#[test]
fn full_discount_leaves_nothing() {
    let p = compute(amount(80, 0), DiscountType::Percentage, 100).unwrap();
    assert!(p.discount_amount.same_value(&amount(80, 0)));
    assert!(p.sale_price.same_value(&Amount::zero()));
}

#[test]
fn sale_price_is_never_negative() {
    let p = compute(amount(10, 0), DiscountType::Fixed, 25).unwrap();
    assert_eq!(p.discount_amount, amount(25, 0));
    assert_eq!(p.sale_price, Amount::zero());
    let q = compute(amount(10, 0), DiscountType::Percentage, 150).unwrap();
    assert!(q.discount_amount.same_value(&amount(15, 0)));
    assert_eq!(q.sale_price, Amount::zero());
}

#[test]
fn discount_amount_and_sale_price_agree_with_compute() {
    let base = amount(2500, 2);
    let d = discount_amount(base, DiscountType::Percentage, 12).unwrap();
    let s = sale_price(base, d).unwrap();
    let p = compute(base, DiscountType::Percentage, 12).unwrap();
    assert_eq!(d, p.discount_amount);
    assert_eq!(s, p.sale_price);
    assert_eq!(d, amount(30000, 4));
    assert_eq!(s, amount(220000, 4));
}

#[test]
fn compute_overflows_to_none() {
    let max = amount(79_228_162_514_264_337_593_543_950_335, 0);
    assert!(compute(max, DiscountType::Percentage, 20_000).is_none());
    assert!(compute(max, DiscountType::Fixed, -1).is_none());
}

#[test]
fn discount_type_names() {
    assert_eq!(DiscountType::Fixed.name(), "fixed");
    assert_eq!(DiscountType::Percentage.name(), "percentage");
    assert_eq!(DiscountType::from_name(&"percentage".to_string()), DiscountType::Percentage);
    assert_eq!(DiscountType::from_name(&"fixed".to_string()), DiscountType::Fixed);
    assert_eq!(DiscountType::from_name(&"Percentage".to_string()), DiscountType::Fixed);
    assert_eq!(DiscountType::from_name(&"".to_string()), DiscountType::Fixed);
}
