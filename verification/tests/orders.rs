use pos_backend::calendar::{Date, Timestamp};
use pos_backend::database::Database;
use pos_backend::discount::DiscountType;
use pos_backend::errors::ServiceError;
use pos_backend::models::sales::{CreateOrderRequest, NewSalesCart};
use pos_backend::money::Amount;
use pos_backend::services::cart::{add_to_cart_at, delete_from_cart, get_cart_items};
use pos_backend::services::orders::{
    create_sales_order, create_sales_order_at, get_sales_order_by_id, line_totals, order_details,
    order_totals,
};

fn amount(mantissa: i128, scale: u32) -> Amount {
    Amount::new(mantissa, scale).unwrap()
}

fn line(store_id: i32, product_id: i32, base: i128, kind: DiscountType, value: i32, qty: i32) -> NewSalesCart {
    NewSalesCart {
        store_id,
        product_id,
        base_price: amount(base, 0),
        qty,
        discount_type: Some(kind),
        discount_value: Some(value),
        discount_amount: None,
        sale_price: None,
    }
}

fn request(number: &str, store_id: i32, cash: i128) -> CreateOrderRequest {
    CreateOrderRequest {
        order_number: number.to_string(),
        store_id,
        date: Some(Date { year: 2025, month: 7, day: 9 }),
        payment_cash: amount(cash, 0),
        payment_non_cash: amount(0, 0),
        customer_id: None,
    }
}

#[test]
fn order_of_two_lines_totals_220_and_leaves_120() {
    let mut db = Database::new();
    add_to_cart_at(&mut db, line(1, 1, 100, DiscountType::Fixed, 10, 2), 7, Timestamp { micros: 1 }).unwrap();
    add_to_cart_at(&mut db, line(1, 2, 50, DiscountType::Percentage, 20, 1), 7, Timestamp { micros: 2 }).unwrap();
    let today = Date { year: 2025, month: 1, day: 1 };
    let response = create_sales_order_at(&mut db, 7, request("ORD001", 1, 100), today, Timestamp { micros: 3 }).unwrap();
    assert!(response.order.grand_total.same_value(&amount(220, 0)));
    assert!(response.order.receivable.same_value(&amount(120, 0)));
    assert_eq!(response.details.len(), 2);
    assert!(response.details[0].total_price.same_value(&amount(40, 0)));
    assert!(response.details[1].total_price.same_value(&amount(180, 0)));
    assert_eq!(response.order.date, Date { year: 2025, month: 7, day: 9 });
    assert!(db.sales_cart.is_empty());
    assert_eq!(db.sales_orders.len(), 1);
    assert_eq!(db.sales_order_details.len(), 2);
}

#[test]
fn order_of_an_empty_cart_is_refused_and_writes_nothing() {
    let mut db = Database::new();
    add_to_cart_at(&mut db, line(2, 1, 100, DiscountType::Fixed, 0, 1), 7, Timestamp { micros: 1 }).unwrap();
    let r = create_sales_order(&mut db, 7, request("ORD001", 1, 0));
    assert!(matches!(r, Err(ServiceError::ValidationError(_))));
    assert_eq!(db.sales_cart.len(), 1);
    assert!(db.sales_orders.is_empty());
    assert!(db.sales_order_details.is_empty());
    assert_eq!(db.next_order_id, 1);
}

#[test]
fn delete_of_a_line_of_another_user_removes_nothing() {
    let mut db = Database::new();
    let owned = add_to_cart_at(&mut db, line(1, 1, 100, DiscountType::Fixed, 10, 2), 7, Timestamp { micros: 1 }).unwrap();
    assert_eq!(delete_from_cart(&mut db, owned.id, 8).unwrap(), false);
    assert_eq!(db.sales_cart.len(), 1);
    assert_eq!(db.sales_cart[0].id, owned.id);
    assert!(get_cart_items(&db, 8, 1).unwrap().is_empty());
    assert_eq!(delete_from_cart(&mut db, owned.id, 7).unwrap(), true);
    assert!(db.sales_cart.is_empty());
}

fn user(id: i32, company_id: i32, initial: &str) -> pos_backend::models::user::User {
    pos_backend::models::user::User {
        id,
        email: format!("user{}@example.com", id),
        company_id,
        full_name: format!("User {}", id),
        initial: initial.to_string(),
        company_name: None,
    }
}

fn store(id: i32, company_id: i32, initial: &str) -> pos_backend::models::user::Store {
    pos_backend::models::user::Store {
        id,
        name: format!("Store {}", id),
        company_id,
        initial: initial.to_string(),
    }
}

fn product(id: i32, name: &str) -> pos_backend::models::product::Product {
    pos_backend::models::product::Product {
        id,
        sku: format!("SKU{:03}", id),
        name: name.to_string(),
        purchase_price: amount(1, 0),
        sale_price: amount(2, 0),
        company_id: 1,
        unit_name: None,
        deleted_at: None,
        created_at: Timestamp { micros: 0 },
        updated_at: Timestamp { micros: 0 },
        category_id: None,
    }
}

#[test]
fn order_snapshots_each_line_newest_first() {
    let mut db = Database::new();
    db.next_detail_id = 40;
    db.next_order_id = 9;
    add_to_cart_at(&mut db, line(1, 11, 100, DiscountType::Fixed, 10, 2), 7, Timestamp { micros: 1 }).unwrap();
    add_to_cart_at(&mut db, line(1, 12, 50, DiscountType::Percentage, 20, 1), 7, Timestamp { micros: 2 }).unwrap();
    let mut req = request("ORD009", 1, 100);
    req.customer_id = Some(77);
    req.payment_non_cash = amount(50, 1);
    let today = Date { year: 2025, month: 1, day: 1 };
    let response = create_sales_order_at(&mut db, 7, req, today, Timestamp { micros: 3 }).unwrap();
    let order = &response.order;
    assert_eq!(order.id, 9);
    assert_eq!(order.order_number, "ORD009");
    assert_eq!(order.user_id, 7);
    assert_eq!(order.store_id, 1);
    assert_eq!(order.created_at, Timestamp { micros: 3 });
    assert_eq!(order.customer_id, Some(77));
    assert_eq!(order.payment_cash, amount(100, 0));
    assert_eq!(order.payment_non_cash, amount(50, 1));
    assert_eq!(order.grand_total, amount(22000, 2));
    assert_eq!(order.receivable, amount(11500, 2));
    let d = &response.details;
    assert_eq!(d[0].id, 40);
    assert_eq!(d[1].id, 41);
    assert_eq!(d[0].order_id, 9);
    assert_eq!(d[1].order_id, 9);
    assert_eq!(d[0].product_id, 12);
    assert_eq!(d[0].qty, 1);
    assert_eq!(d[0].base_price, amount(50, 0));
    assert_eq!(d[0].discount_type, DiscountType::Percentage);
    assert_eq!(d[0].discount_value, amount(20, 0));
    assert_eq!(d[0].discount_amount, amount(1000, 2));
    assert_eq!(d[0].sale_price, amount(4000, 2));
    assert_eq!(d[0].total_price, amount(4000, 2));
    assert_eq!(d[1].product_id, 11);
    assert_eq!(d[1].discount_value, amount(10, 0));
    assert_eq!(d[1].total_price, amount(180, 0));
    assert_eq!(db.next_order_id, 10);
    assert_eq!(db.next_detail_id, 42);
    assert_eq!(db.sales_orders[0].id, 9);
    assert_eq!(db.sales_order_details[1].id, 41);
}

#[test]
fn order_without_a_date_is_dated_today() {
    let mut db = Database::new();
    add_to_cart_at(&mut db, line(1, 1, 100, DiscountType::Fixed, 0, 1), 7, Timestamp { micros: 1 }).unwrap();
    let mut req = request("ORD001", 1, 0);
    req.date = None;
    let today = Date { year: 2031, month: 12, day: 24 };
    let response = create_sales_order_at(&mut db, 7, req, today, Timestamp { micros: 3 }).unwrap();
    assert_eq!(response.order.date, today);
}

#[test]
fn order_at_the_present_instant_reads_the_clock() {
    let mut db = Database::new();
    add_to_cart_at(&mut db, line(1, 1, 100, DiscountType::Fixed, 0, 1), 7, Timestamp { micros: 1 }).unwrap();
    let mut req = request("ORD001", 1, 0);
    req.date = None;
    let response = create_sales_order(&mut db, 7, req).unwrap();
    assert!(response.order.date.year >= 2024);
    assert!((1..=12).contains(&response.order.date.month));
    assert!((1..=31).contains(&response.order.date.day));
    assert!(response.order.created_at.micros > 1_600_000_000_000_000);
    assert!(response.order.grand_total.same_value(&amount(100, 0)));
}

#[test]
fn order_leaves_other_carts_alone() {
    let mut db = Database::new();
    add_to_cart_at(&mut db, line(1, 1, 100, DiscountType::Fixed, 0, 1), 7, Timestamp { micros: 1 }).unwrap();
    add_to_cart_at(&mut db, line(2, 1, 100, DiscountType::Fixed, 0, 1), 7, Timestamp { micros: 2 }).unwrap();
    add_to_cart_at(&mut db, line(1, 1, 100, DiscountType::Fixed, 0, 1), 8, Timestamp { micros: 3 }).unwrap();
    let today = Date { year: 2025, month: 1, day: 1 };
    create_sales_order_at(&mut db, 7, request("A", 1, 0), today, Timestamp { micros: 4 }).unwrap();
    assert_eq!(db.sales_cart.iter().map(|l| l.id).collect::<Vec<i32>>(), vec![2, 3]);
}

#[test]
fn order_number_that_is_taken_is_refused_and_nothing_changes() {
    let mut db = Database::new();
    let today = Date { year: 2025, month: 1, day: 1 };
    add_to_cart_at(&mut db, line(1, 1, 100, DiscountType::Fixed, 0, 1), 7, Timestamp { micros: 1 }).unwrap();
    create_sales_order_at(&mut db, 7, request("ORD001", 1, 0), today, Timestamp { micros: 2 }).unwrap();
    add_to_cart_at(&mut db, line(1, 1, 100, DiscountType::Fixed, 0, 1), 7, Timestamp { micros: 3 }).unwrap();
    let r = create_sales_order_at(&mut db, 7, request("ORD001", 1, 0), today, Timestamp { micros: 4 });
    assert!(matches!(r, Err(ServiceError::DatabaseError(_))));
    assert_eq!(db.sales_cart.len(), 1);
    assert_eq!(db.sales_orders.len(), 1);
    assert_eq!(db.sales_order_details.len(), 1);
    assert_eq!(db.next_order_id, 2);
    assert_eq!(db.next_detail_id, 2);
    let ok = create_sales_order_at(&mut db, 7, request("ORD002", 1, 0), today, Timestamp { micros: 5 });
    assert_eq!(ok.unwrap().order.id, 2);
}

#[test]
fn order_that_overflows_is_refused_and_nothing_changes() {
    let mut db = Database::new();
    let today = Date { year: 2025, month: 1, day: 1 };
    let mut big = line(1, 1, 1, DiscountType::Fixed, 0, 2);
    big.base_price = amount(79_228_162_514_264_337_593_543_950_335, 0);
    add_to_cart_at(&mut db, big, 7, Timestamp { micros: 1 }).unwrap();
    let r = create_sales_order_at(&mut db, 7, request("ORD001", 1, 0), today, Timestamp { micros: 2 });
    assert!(matches!(r, Err(ServiceError::DatabaseError(_))));
    assert_eq!(db.sales_cart.len(), 1);
    assert!(db.sales_orders.is_empty());
    assert!(db.sales_order_details.is_empty());
}

#[test]
fn order_without_ids_left_is_refused_and_nothing_changes() {
    let mut db = Database::new();
    let today = Date { year: 2025, month: 1, day: 1 };
    add_to_cart_at(&mut db, line(1, 1, 100, DiscountType::Fixed, 0, 1), 7, Timestamp { micros: 1 }).unwrap();
    add_to_cart_at(&mut db, line(1, 2, 100, DiscountType::Fixed, 0, 1), 7, Timestamp { micros: 2 }).unwrap();
    db.next_detail_id = i32::MAX - 1;
    let r = create_sales_order_at(&mut db, 7, request("ORD001", 1, 0), today, Timestamp { micros: 3 });
    assert!(matches!(r, Err(ServiceError::DatabaseError(_))));
    assert_eq!(db.sales_cart.len(), 2);
    assert!(db.sales_orders.is_empty());
    db.next_detail_id = i32::MAX - 2;
    let ok = create_sales_order_at(&mut db, 7, request("ORD001", 1, 0), today, Timestamp { micros: 3 }).unwrap();
    assert_eq!(ok.details[1].id, i32::MAX - 1);
    assert_eq!(db.next_detail_id, i32::MAX);
}

#[test]
fn empty_cart_message_names_the_cart() {
    let mut db = Database::new();
    let r = create_sales_order(&mut db, 7, request("ORD001", 1, 0));
    match r {
        Err(ServiceError::ValidationError(msg)) => assert_eq!(msg, "No items in cart"),
        _ => panic!("an empty cart must be a validation error"),
    }
}

#[test]
fn order_is_read_back_within_its_organization() {
    let mut db = Database::new();
    db.users.push(user(7, 1, "AB"));
    db.stores.push(store(1, 1, "ST"));
    db.products.push(product(11, "Coffee"));
    db.products.push(product(12, "Tea"));
    add_to_cart_at(&mut db, line(1, 11, 100, DiscountType::Fixed, 10, 2), 7, Timestamp { micros: 1 }).unwrap();
    add_to_cart_at(&mut db, line(1, 12, 50, DiscountType::Percentage, 20, 1), 7, Timestamp { micros: 2 }).unwrap();
    add_to_cart_at(&mut db, line(1, 13, 5, DiscountType::Fixed, 0, 1), 7, Timestamp { micros: 0 }).unwrap();
    let today = Date { year: 2025, month: 1, day: 1 };
    let made = create_sales_order_at(&mut db, 7, request("ORD001", 1, 100), today, Timestamp { micros: 3 }).unwrap();
    let read = get_sales_order_by_id(&db, made.order.id, 1).unwrap();
    assert_eq!(read.order.id, made.order.id);
    assert_eq!(read.order.order_number, "ORD001");
    assert_eq!(read.order.user_initial, "AB");
    assert_eq!(read.order.store_initial, "ST");
    assert_eq!(read.order.grand_total, made.order.grand_total);
    assert_eq!(read.order.receivable, made.order.receivable);
    assert_eq!(read.order.date, made.order.date);
    assert_eq!(read.details.len(), 2);
    assert_eq!(read.details[0].id, 1);
    assert_eq!(read.details[0].product_name, "Tea");
    assert_eq!(read.details[0].sku, "SKU012");
    assert_eq!(read.details[0].total_price, amount(4000, 2));
    assert_eq!(read.details[1].product_name, "Coffee");
    assert_eq!(read.details[1].qty, 2);
}

#[test]
fn order_of_another_organization_looks_missing() {
    let mut db = Database::new();
    db.users.push(user(7, 1, "AB"));
    db.stores.push(store(1, 1, "ST"));
    add_to_cart_at(&mut db, line(1, 11, 100, DiscountType::Fixed, 10, 2), 7, Timestamp { micros: 1 }).unwrap();
    let today = Date { year: 2025, month: 1, day: 1 };
    let made = create_sales_order_at(&mut db, 7, request("ORD001", 1, 100), today, Timestamp { micros: 3 }).unwrap();
    let foreign = get_sales_order_by_id(&db, made.order.id, 2);
    let missing = get_sales_order_by_id(&db, 999, 2);
    assert!(matches!(foreign, Err(ServiceError::NotFound)));
    assert!(matches!(missing, Err(ServiceError::NotFound)));
    assert_eq!(foreign.unwrap_err().message(), missing.unwrap_err().message());
    assert!(get_sales_order_by_id(&db, made.order.id, 1).is_ok());
}

#[test]
fn order_whose_user_or_store_is_unknown_is_not_found() {
    let mut db = Database::new();
    add_to_cart_at(&mut db, line(1, 11, 100, DiscountType::Fixed, 10, 2), 7, Timestamp { micros: 1 }).unwrap();
    let today = Date { year: 2025, month: 1, day: 1 };
    let made = create_sales_order_at(&mut db, 7, request("ORD001", 1, 100), today, Timestamp { micros: 3 }).unwrap();
    assert!(matches!(get_sales_order_by_id(&db, made.order.id, 1), Err(ServiceError::NotFound)));
    db.users.push(user(7, 1, "AB"));
    assert!(matches!(get_sales_order_by_id(&db, made.order.id, 1), Err(ServiceError::NotFound)));
    db.stores.push(store(1, 1, "ST"));
    assert!(get_sales_order_by_id(&db, made.order.id, 1).is_ok());
}

#[test]
fn order_totals_follow_the_lines() {
    let mut db = Database::new();
    add_to_cart_at(&mut db, line(1, 11, 100, DiscountType::Fixed, 10, 2), 7, Timestamp { micros: 1 }).unwrap();
    add_to_cart_at(&mut db, line(1, 12, 50, DiscountType::Percentage, 20, 3), 7, Timestamp { micros: 2 }).unwrap();
    let lines = db.sales_cart.clone();
    assert_eq!(line_totals(&lines), Some(vec![amount(180, 0), amount(12000, 2)]));
    let totals = order_totals(&lines, amount(250, 0), amount(60, 0)).unwrap();
    assert_eq!(totals.grand_total, amount(30000, 2));
    assert!(totals.receivable.same_value(&Amount::zero()));
    let details = order_details(&lines, &totals.line_totals, 5, 3);
    assert_eq!(details.len(), 2);
    assert_eq!(details[0].id, 5);
    assert_eq!(details[1].id, 6);
    assert_eq!(details[1].order_id, 3);
    assert_eq!(details[1].total_price, amount(12000, 2));
}
