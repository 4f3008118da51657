use pos_backend::calendar::{Date, Timestamp};
use pos_backend::database::Database;
use pos_backend::discount::DiscountType;
use pos_backend::errors::ServiceError;
use pos_backend::models::product::Product;
use pos_backend::models::sales::{CreateOrderRequest, NewSalesCart, SalesReportQuery};
use pos_backend::models::user::{Store, User};
use pos_backend::money::Amount;
use pos_backend::services::cart::add_to_cart_at;
use pos_backend::services::orders::create_sales_order_at;
use pos_backend::services::report::{
    first_lines, generate_sales_report, product_totals, sku_summary, SkuLine,
};

fn amount(mantissa: i128, scale: u32) -> Amount {
    Amount::new(mantissa, scale).unwrap()
}

fn day(d: u32) -> Date {
    Date { year: 2025, month: 7, day: d }
}

fn query(from: u32, to: u32, store_id: i32) -> SalesReportQuery {
    SalesReportQuery { start_date: day(from), end_date: day(to), store_id }
}

fn sell(db: &mut Database, user_id: i32, store_id: i32, number: &str, date: Date, cash: i128, items: &[(i32, i128, i32)]) -> i32 {
    let mut t = 0;
    for (product_id, price, qty) in items {
        t += 1;
        let item = NewSalesCart {
            store_id,
            product_id: *product_id,
            base_price: amount(*price, 0),
            qty: *qty,
            discount_type: Some(DiscountType::Fixed),
            discount_value: Some(0),
            discount_amount: None,
            sale_price: None,
        };
        add_to_cart_at(db, item, user_id, Timestamp { micros: -t }).unwrap();
    }
    let request = CreateOrderRequest {
        order_number: number.to_string(),
        store_id,
        date: Some(date),
        payment_cash: amount(cash, 0),
        payment_non_cash: amount(1, 0),
        customer_id: None,
    };
    create_sales_order_at(db, user_id, request, day(1), Timestamp { micros: 0 }).unwrap().order.id
}

fn world() -> Database {
    let mut db = Database::new();
    for (id, company_id) in [(7, 1), (8, 1), (9, 2)] {
        db.users.push(User {
            id,
            email: format!("u{}@example.com", id),
            company_id,
            full_name: format!("User {}", id),
            initial: format!("U{}", id),
            company_name: None,
        });
    }
    for (id, company_id) in [(1, 1), (2, 1), (3, 2)] {
        db.stores.push(Store { id, name: format!("Store {}", id), company_id, initial: format!("S{}", id) });
    }
    for (id, name) in [(11, "Coffee"), (12, "Tea"), (13, "Milk")] {
        db.products.push(Product {
            id,
            sku: format!("SKU{}", id),
            name: name.to_string(),
            purchase_price: amount(1, 0),
            sale_price: amount(2, 0),
            company_id: 1,
            unit_name: None,
            deleted_at: None,
            created_at: Timestamp { micros: 0 },
            updated_at: Timestamp { micros: 0 },
            category_id: None,
        });
    }
    sell(&mut db, 7, 1, "A", day(10), 10, &[(11, 10, 2), (12, 5, 1)]);
    sell(&mut db, 8, 2, "B", day(12), 0, &[(12, 5, 4)]);
    sell(&mut db, 7, 1, "C", day(12), 20, &[(11, 10, 1), (13, 3, 3)]);
    sell(&mut db, 9, 3, "D", day(11), 0, &[(11, 10, 50)]);
    sell(&mut db, 7, 1, "E", day(20), 0, &[(13, 3, 100)]);
    db
}

#[test]
fn report_lists_orders_latest_first_with_their_lines() {
    let db = world();
    let report = generate_sales_report(&db, 7, 1, query(10, 12, 0)).unwrap();
    assert_eq!(report.orders.iter().map(|o| o.order_number.clone()).collect::<Vec<String>>(), vec!["C", "B", "A"]);
    assert_eq!(report.orders[0].id, 3);
    assert_eq!(report.orders[0].user_initial, "U7");
    assert_eq!(report.orders[0].store_initial, "S1");
    assert_eq!(report.orders[1].user_initial, "U8");
    assert_eq!(report.orders[1].store_initial, "S2");
    assert_eq!(report.orders[0].date, day(12));
    assert!(report.orders[0].grand_total.same_value(&amount(19, 0)));
    let items = &report.orders[2].items;
    assert_eq!(items.len(), 2);
    assert_eq!(items[0].product_name, "Coffee");
    assert_eq!(items[0].sku, "SKU11");
    assert_eq!(items[0].qty, 2);
    assert!(items[0].total_price.same_value(&amount(20, 0)));
    assert_eq!(items[1].product_name, "Tea");
}

#[test]
fn report_sums_each_product_and_puts_the_best_seller_first() {
    let db = world();
    let report = generate_sales_report(&db, 7, 1, query(10, 12, 0)).unwrap();
    let sku = &report.sku_summary;
    assert_eq!(sku.len(), 3);
    assert_eq!(sku[0].product_id, 12);
    assert_eq!(sku[0].product_name, "Tea");
    assert_eq!(sku[0].sku, "SKU12");
    assert_eq!(sku[0].total_qty, 5);
    assert!(sku[0].total_price.same_value(&amount(25, 0)));
    assert_eq!(sku[1].product_id, 13);
    assert_eq!(sku[1].total_qty, 3);
    assert!(sku[1].total_price.same_value(&amount(9, 0)));
    assert_eq!(sku[2].product_id, 11);
    assert_eq!(sku[2].total_qty, 3);
    assert!(sku[2].total_price.same_value(&amount(30, 0)));
}

#[test]
fn report_totals_payments_and_receivables() {
    let db = world();
    let report = generate_sales_report(&db, 7, 1, query(10, 12, 0)).unwrap();
    let s = &report.summary;
    assert_eq!(s.total_orders, 3);
    assert!(s.total_payment_cash.same_value(&amount(30, 0)));
    assert!(s.total_payment_non_cash.same_value(&amount(3, 0)));
    assert!(s.total_receivable.same_value(&amount(14 + 19, 0)));
}

#[test]
fn report_keeps_to_one_store_when_asked() {
    let db = world();
    let report = generate_sales_report(&db, 7, 1, query(1, 31, 2)).unwrap();
    assert_eq!(report.orders.len(), 1);
    assert_eq!(report.orders[0].order_number, "B");
    assert_eq!(report.sku_summary.len(), 1);
    assert_eq!(report.sku_summary[0].total_qty, 4);
    assert_eq!(report.summary.total_orders, 1);
}

#[test]
fn report_includes_both_ends_of_the_range() {
    let db = world();
    let report = generate_sales_report(&db, 7, 1, query(12, 20, 0)).unwrap();
    assert_eq!(report.orders.iter().map(|o| o.order_number.clone()).collect::<Vec<String>>(), vec!["E", "C", "B"]);
    let single = generate_sales_report(&db, 7, 1, query(20, 20, 0)).unwrap();
    assert_eq!(single.orders.len(), 1);
}

#[test]
fn report_keeps_to_the_organization() {
    let db = world();
    let other = generate_sales_report(&db, 9, 2, query(1, 31, 0)).unwrap();
    assert_eq!(other.orders.len(), 1);
    assert_eq!(other.orders[0].order_number, "D");
    assert_eq!(other.sku_summary[0].total_qty, 50);
    let none = generate_sales_report(&db, 7, 1, query(1, 31, 3)).unwrap();
    assert!(none.orders.is_empty());
}

#[test]
fn report_without_orders_is_empty_and_no_error() {
    let db = world();
    let report = generate_sales_report(&db, 7, 1, query(1, 9, 0)).unwrap();
    assert!(report.orders.is_empty());
    assert!(report.sku_summary.is_empty());
    assert_eq!(report.summary.total_orders, 0);
    assert_eq!(report.summary.total_payment_cash, Amount::zero());
    assert_eq!(report.summary.total_payment_non_cash, Amount::zero());
    assert_eq!(report.summary.total_receivable, Amount::zero());
    let empty = generate_sales_report(&Database::new(), 7, 1, query(1, 31, 0)).unwrap();
    assert!(empty.orders.is_empty());
    assert_eq!(empty.summary.total_orders, 0);
}

#[test]
fn report_whose_sums_overflow_is_a_database_error() {
    let mut db = world();
    let max = amount(79_228_162_514_264_337_593_543_950_335, 0);
    db.sales_orders[0].payment_cash = max;
    let r = generate_sales_report(&db, 7, 1, query(10, 12, 0));
    assert!(matches!(r, Err(ServiceError::DatabaseError(_))));
}

fn sku_line(product_id: i32, qty: i32, price: i128) -> SkuLine {
    SkuLine {
        product_id,
        product_name: format!("P{}", product_id),
        sku: format!("S{}", product_id),
        qty,
        total_price: amount(price, 0),
    }
}

#[test]
fn summary_by_product_orders_equal_quantities_by_product_id() {
    let lines = vec![sku_line(1, 2, 10), sku_line(3, 2, 30), sku_line(2, 2, 20), sku_line(3, 1, 5), sku_line(1, 1, 5)];
    assert_eq!(first_lines(&lines), vec![0, 1, 2]);
    let sku = sku_summary(&lines).unwrap();
    assert_eq!(sku.iter().map(|s| (s.product_id, s.total_qty)).collect::<Vec<(i32, i64)>>(), vec![(3, 3), (1, 3), (2, 2)]);
    assert!(sku[0].total_price.same_value(&amount(35, 0)));
    assert_eq!(product_totals(&lines, 1), Some((3, amount(15, 0))));
    assert_eq!(product_totals(&lines, 9), Some((0, Amount::zero())));
}

#[test]
fn summary_by_product_overflows_to_none() {
    let max = 79_228_162_514_264_337_593_543_950_335;
    let lines = vec![sku_line(1, 1, max), sku_line(1, 1, 1)];
    assert!(sku_summary(&lines).is_none());
    assert!(product_totals(&lines, 1).is_none());
}
