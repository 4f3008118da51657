use pos_backend::calendar::Timestamp;
use pos_backend::database::Database;
use pos_backend::discount::DiscountType;
use pos_backend::errors::ServiceError;
use pos_backend::models::product::Product;
use pos_backend::models::sales::{NewSalesCart, UpdateSalesCart};
use pos_backend::money::Amount;
use pos_backend::services::cart::{
    add_to_cart, add_to_cart_at, clear_cart, delete_from_cart, find_line, get_cart_items,
    newest_first, price_new_line, select_cart, update_cart_item, update_cart_item_at,
    updated_line, without_cart, without_line,
};

fn amount(mantissa: i128, scale: u32) -> Amount {
    Amount::new(mantissa, scale).unwrap()
}

fn at(micros: i64) -> Timestamp {
    Timestamp { micros }
}

fn plain(store_id: i32, product_id: i32, base: i128, qty: i32) -> NewSalesCart {
    NewSalesCart {
        store_id,
        product_id,
        base_price: amount(base, 2),
        qty,
        discount_type: None,
        discount_value: None,
        discount_amount: None,
        sale_price: None,
    }
}

fn product(id: i32, name: &str, unit: Option<&str>) -> Product {
    Product {
        id,
        sku: format!("SKU{:03}", id),
        name: name.to_string(),
        purchase_price: amount(100, 2),
        sale_price: amount(150, 2),
        company_id: 1,
        unit_name: unit.map(|u| u.to_string()),
        deleted_at: None,
        created_at: at(0),
        updated_at: at(0),
        category_id: None,
    }
}

fn no_change() -> UpdateSalesCart {
    UpdateSalesCart { base_price: None, qty: None, discount_type: None, discount_value: None }
}

#[test]
fn add_stores_the_line_under_the_next_id() {
    let mut db = Database::new();
    let first = add_to_cart_at(&mut db, plain(1, 5, 1599, 2), 7, at(10)).unwrap();
    let second = add_to_cart_at(&mut db, plain(1, 6, 250, 1), 7, at(11)).unwrap();
    assert_eq!(first.id, 1);
    assert_eq!(second.id, 2);
    assert_eq!(db.next_cart_id, 3);
    assert_eq!(db.sales_cart.len(), 2);
    assert_eq!(first.user_id, 7);
    assert_eq!(first.store_id, 1);
    assert_eq!(first.product_id, 5);
    assert_eq!(first.qty, 2);
    assert_eq!(first.created_at, at(10));
    assert_eq!(first.updated_at, at(10));
    assert_eq!(db.sales_cart[1].product_id, 6);
}

#[test]
fn add_fills_in_a_fixed_discount_of_nothing() {
    let mut db = Database::new();
    let line = add_to_cart_at(&mut db, plain(1, 5, 1599, 2), 7, at(10)).unwrap();
    assert_eq!(line.discount_type, DiscountType::Fixed);
    assert_eq!(line.discount_value, 0);
    assert!(line.discount_amount.same_value(&Amount::zero()));
    assert_eq!(line.sale_price, amount(1599, 2));
}

#[test]
fn add_computes_discount_and_sale_price() {
    let mut db = Database::new();
    let mut item = plain(1, 5, 1599, 2);
    item.discount_type = Some(DiscountType::Percentage);
    item.discount_value = Some(10);
    let line = add_to_cart_at(&mut db, item, 7, at(10)).unwrap();
    assert_eq!(line.discount_amount, amount(15990, 4));
    assert_eq!(line.sale_price, amount(143910, 4));
}

#[test]
fn add_keeps_the_amounts_that_the_line_brings() {
    let mut db = Database::new();
    let mut item = plain(1, 5, 1599, 2);
    item.discount_type = Some(DiscountType::Percentage);
    item.discount_value = Some(10);
    item.discount_amount = Some(amount(160, 2));
    item.sale_price = Some(amount(3038, 2));
    let line = add_to_cart_at(&mut db, item, 7, at(10)).unwrap();
    assert_eq!(line.discount_amount, amount(160, 2));
    assert_eq!(line.sale_price, amount(3038, 2));
    let mut only_discount = plain(1, 5, 1599, 2);
    only_discount.discount_amount = Some(amount(99, 2));
    let line = add_to_cart_at(&mut db, only_discount, 7, at(11)).unwrap();
    assert_eq!(line.discount_amount, amount(99, 2));
    assert_eq!(line.sale_price, amount(1500, 2));
}

#[test]
fn add_refuses_ids_that_are_not_positive() {
    let mut db = Database::new();
    let r = add_to_cart_at(&mut db, plain(0, 5, 1599, 2), 7, at(10));
    assert!(matches!(r, Err(ServiceError::ValidationError(_))));
    let r = add_to_cart_at(&mut db, plain(1, -5, 1599, 2), 7, at(10));
    assert!(matches!(r, Err(ServiceError::ValidationError(_))));
    assert!(db.sales_cart.is_empty());
    assert_eq!(db.next_cart_id, 1);
}

#[test]
fn add_refuses_a_negative_sale_price() {
    let mut db = Database::new();
    let mut item = plain(1, 5, 1599, 2);
    item.sale_price = Some(amount(-1, 2));
    let r = add_to_cart_at(&mut db, item, 7, at(10));
    assert!(matches!(r, Err(ServiceError::ValidationError(_))));
    assert!(db.sales_cart.is_empty());
}

#[test]
fn add_reports_overflow_as_a_database_error() {
    let mut db = Database::new();
    let mut item = plain(1, 5, 1599, 2);
    item.base_price = amount(79_228_162_514_264_337_593_543_950_335, 0);
    item.discount_type = Some(DiscountType::Percentage);
    item.discount_value = Some(20_000);
    let r = add_to_cart_at(&mut db, item, 7, at(10));
    assert!(matches!(r, Err(ServiceError::DatabaseError(_))));
    assert!(db.sales_cart.is_empty());
}

#[test]
fn add_reports_exhausted_ids_as_a_database_error() {
    let mut db = Database::new();
    db.next_cart_id = i32::MAX;
    let r = add_to_cart_at(&mut db, plain(1, 5, 1599, 2), 7, at(10));
    assert!(matches!(r, Err(ServiceError::DatabaseError(_))));
    assert!(db.sales_cart.is_empty());
    assert_eq!(db.next_cart_id, i32::MAX);
}

#[test]
fn add_at_the_present_instant_stamps_the_line_once() {
    let mut db = Database::new();
    let line = add_to_cart(&mut db, plain(1, 5, 1599, 2), 7).unwrap();
    assert_eq!(line.created_at, line.updated_at);
    assert!(line.created_at.micros > 1_600_000_000_000_000);
    assert_eq!(db.sales_cart.len(), 1);
}

#[test]
fn price_new_line_checks_and_prices() {
    let mut item = plain(1, 5, 10000, 1);
    item.discount_type = Some(DiscountType::Fixed);
    item.discount_value = Some(10);
    let p = price_new_line(&item).unwrap();
    assert_eq!(p.discount_amount, amount(10, 0));
    assert_eq!(p.sale_price, amount(9000, 2));
    assert!(matches!(price_new_line(&plain(0, 5, 1, 1)), Err(ServiceError::ValidationError(_))));
}

#[test]
fn list_shows_the_newest_line_first_with_its_product() {
    let mut db = Database::new();
    db.products.push(product(5, "Coffee", Some("cup")));
    db.products.push(product(6, "Tea", None));
    add_to_cart_at(&mut db, plain(1, 5, 1599, 2), 7, at(10)).unwrap();
    add_to_cart_at(&mut db, plain(1, 6, 250, 1), 7, at(30)).unwrap();
    add_to_cart_at(&mut db, plain(1, 5, 100, 4), 7, at(20)).unwrap();
    add_to_cart_at(&mut db, plain(2, 5, 100, 4), 7, at(40)).unwrap();
    add_to_cart_at(&mut db, plain(1, 5, 100, 4), 8, at(50)).unwrap();
    let items = get_cart_items(&db, 7, 1).unwrap();
    assert_eq!(items.len(), 3);
    assert_eq!(items[0].id, 2);
    assert_eq!(items[0].product_name, "Tea");
    assert_eq!(items[0].unit_name, None);
    assert_eq!(items[1].id, 3);
    assert_eq!(items[2].id, 1);
    assert_eq!(items[2].product_name, "Coffee");
    assert_eq!(items[2].unit_name, Some("cup".to_string()));
    assert_eq!(items[2].base_price, amount(1599, 2));
    assert_eq!(items[2].qty, 2);
}

#[test]
fn list_orders_lines_of_one_instant_by_id() {
    let mut db = Database::new();
    db.products.push(product(5, "Coffee", None));
    add_to_cart_at(&mut db, plain(1, 5, 100, 1), 7, at(10)).unwrap();
    add_to_cart_at(&mut db, plain(1, 5, 200, 1), 7, at(10)).unwrap();
    add_to_cart_at(&mut db, plain(1, 5, 300, 1), 7, at(10)).unwrap();
    let items = get_cart_items(&db, 7, 1).unwrap();
    assert_eq!(items.iter().map(|i| i.id).collect::<Vec<i32>>(), vec![3, 2, 1]);
}

#[test]
fn list_leaves_out_lines_whose_product_is_unknown() {
    let mut db = Database::new();
    db.products.push(product(5, "Coffee", None));
    add_to_cart_at(&mut db, plain(1, 5, 100, 1), 7, at(10)).unwrap();
    add_to_cart_at(&mut db, plain(1, 9, 200, 1), 7, at(20)).unwrap();
    let items = get_cart_items(&db, 7, 1).unwrap();
    assert_eq!(items.len(), 1);
    assert_eq!(items[0].product_id, 5);
}

#[test]
fn list_of_an_empty_cart_is_empty() {
    let db = Database::new();
    assert!(get_cart_items(&db, 7, 1).unwrap().is_empty());
}

#[test]
fn update_lays_fields_over_and_prices_again() {
    let mut db = Database::new();
    let mut item = plain(1, 5, 10000, 2);
    item.discount_type = Some(DiscountType::Fixed);
    item.discount_value = Some(10);
    let line = add_to_cart_at(&mut db, item, 7, at(10)).unwrap();
    let update = UpdateSalesCart {
        base_price: Some(amount(50, 0)),
        qty: None,
        discount_type: Some(DiscountType::Percentage),
        discount_value: Some(20),
    };
    let updated = update_cart_item_at(&mut db, line.id, 7, update, at(99)).unwrap();
    assert_eq!(updated.id, line.id);
    assert_eq!(updated.qty, 2);
    assert_eq!(updated.base_price, amount(50, 0));
    assert_eq!(updated.discount_type, DiscountType::Percentage);
    assert_eq!(updated.discount_value, 20);
    assert_eq!(updated.discount_amount, amount(1000, 2));
    assert_eq!(updated.sale_price, amount(4000, 2));
    assert_eq!(updated.created_at, at(10));
    assert_eq!(updated.updated_at, at(99));
    assert_eq!(db.sales_cart.len(), 1);
    assert_eq!(db.sales_cart[0].sale_price, amount(4000, 2));
}

#[test]
fn update_without_fields_prices_the_line_again() {
    let mut db = Database::new();
    let mut item = plain(1, 5, 10000, 2);
    item.discount_value = Some(10);
    item.sale_price = Some(amount(1, 0));
    let line = add_to_cart_at(&mut db, item, 7, at(10)).unwrap();
    assert_eq!(line.sale_price, amount(1, 0));
    let updated = update_cart_item_at(&mut db, line.id, 7, no_change(), at(20)).unwrap();
    assert_eq!(updated.discount_amount, amount(10, 0));
    assert_eq!(updated.sale_price, amount(9000, 2));
}

#[test]
fn update_of_a_missing_or_foreign_line_finds_nothing() {
    let mut db = Database::new();
    let line = add_to_cart_at(&mut db, plain(1, 5, 1599, 2), 7, at(10)).unwrap();
    let r = update_cart_item_at(&mut db, line.id, 8, no_change(), at(20));
    assert!(matches!(r, Err(ServiceError::NotFound)));
    let r = update_cart_item(&mut db, 42, 7, no_change());
    assert!(matches!(r, Err(ServiceError::NotFound)));
    assert_eq!(db.sales_cart[0].updated_at, at(10));
}

#[test]
fn update_reports_overflow_and_changes_nothing() {
    let mut db = Database::new();
    let line = add_to_cart_at(&mut db, plain(1, 5, 1599, 2), 7, at(10)).unwrap();
    let update = UpdateSalesCart {
        base_price: Some(amount(79_228_162_514_264_337_593_543_950_335, 0)),
        qty: None,
        discount_type: Some(DiscountType::Percentage),
        discount_value: Some(20_000),
    };
    let r = update_cart_item_at(&mut db, line.id, 7, update, at(20));
    assert!(matches!(r, Err(ServiceError::DatabaseError(_))));
    assert_eq!(db.sales_cart[0].base_price, amount(1599, 2));
    assert_eq!(db.sales_cart[0].updated_at, at(10));
}

#[test]
fn updated_line_keeps_owner_and_creation() {
    let mut db = Database::new();
    let line = add_to_cart_at(&mut db, plain(3, 5, 1599, 2), 7, at(10)).unwrap();
    let update = UpdateSalesCart { base_price: None, qty: Some(9), discount_type: None, discount_value: None };
    let next = updated_line(&line, &update, at(11)).unwrap();
    assert_eq!(next.qty, 9);
    assert_eq!(next.user_id, 7);
    assert_eq!(next.store_id, 3);
    assert_eq!(next.product_id, 5);
    assert_eq!(next.created_at, at(10));
    assert_eq!(next.updated_at, at(11));
}

#[test]
fn delete_removes_the_line_of_its_owner() {
    let mut db = Database::new();
    let a = add_to_cart_at(&mut db, plain(1, 5, 1599, 2), 7, at(10)).unwrap();
    let b = add_to_cart_at(&mut db, plain(1, 6, 250, 1), 7, at(11)).unwrap();
    assert_eq!(delete_from_cart(&mut db, a.id, 7).unwrap(), true);
    assert_eq!(db.sales_cart.len(), 1);
    assert_eq!(db.sales_cart[0].id, b.id);
    assert_eq!(delete_from_cart(&mut db, a.id, 7).unwrap(), false);
    assert_eq!(db.sales_cart.len(), 1);
}

#[test]
fn deleted_ids_are_not_given_out_again() {
    let mut db = Database::new();
    let a = add_to_cart_at(&mut db, plain(1, 5, 1599, 2), 7, at(10)).unwrap();
    delete_from_cart(&mut db, a.id, 7).unwrap();
    let b = add_to_cart_at(&mut db, plain(1, 5, 1599, 2), 7, at(11)).unwrap();
    assert_eq!(b.id, a.id + 1);
}

#[test]
fn clear_removes_one_cart_and_no_other() {
    let mut db = Database::new();
    add_to_cart_at(&mut db, plain(1, 5, 1599, 2), 7, at(10)).unwrap();
    add_to_cart_at(&mut db, plain(2, 5, 1599, 2), 7, at(11)).unwrap();
    add_to_cart_at(&mut db, plain(1, 5, 1599, 2), 8, at(12)).unwrap();
    add_to_cart_at(&mut db, plain(1, 6, 1599, 2), 7, at(13)).unwrap();
    assert_eq!(clear_cart(&mut db, 7, 1).unwrap(), true);
    assert_eq!(db.sales_cart.iter().map(|l| l.id).collect::<Vec<i32>>(), vec![2, 3]);
    assert_eq!(clear_cart(&mut db, 7, 1).unwrap(), false);
    assert_eq!(db.sales_cart.len(), 2);
}

#[test]
fn selections_keep_table_order() {
    let mut db = Database::new();
    add_to_cart_at(&mut db, plain(1, 5, 1, 1), 7, at(30)).unwrap();
    add_to_cart_at(&mut db, plain(2, 5, 1, 1), 7, at(20)).unwrap();
    add_to_cart_at(&mut db, plain(1, 5, 1, 1), 7, at(10)).unwrap();
    let ids = |v: Vec<pos_backend::models::sales::SalesCart>| v.iter().map(|l| l.id).collect::<Vec<i32>>();
    assert_eq!(ids(select_cart(&db.sales_cart, 7, 1)), vec![1, 3]);
    assert_eq!(ids(without_cart(&db.sales_cart, 7, 1)), vec![2]);
    assert_eq!(ids(without_line(&db.sales_cart, 2, 7)), vec![1, 3]);
    assert_eq!(ids(without_line(&db.sales_cart, 2, 8)), vec![1, 2, 3]);
    assert_eq!(ids(newest_first(&db.sales_cart)), vec![1, 2, 3]);
    assert_eq!(find_line(&db.sales_cart, 3, 7), Some(2));
    assert_eq!(find_line(&db.sales_cart, 3, 8), None);
}
