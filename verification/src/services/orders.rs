//! Orders: turning the cart of a store into an order, all of it or nothing,
//! and reading an order back within the organization that owns it.

use crate::calendar::{local_today, utc_now, Date, Timestamp};
use crate::database::{
    balanced, detail_ids, detail_totals, lemma_books_after_order, lemma_filter_next, of_order,
    order_ids, order_number_taken, serial_ids, spec_find_order, spec_find_product,
    spec_find_store, spec_find_user, Database,
};
use crate::errors::ServiceError;
use crate::models::sales::{
    CreateOrderRequest, DetailedOrderResponse, DetailedSalesOrder, DetailedSalesOrderDetail,
    OrderResponse, SalesCart, SalesOrder, SalesOrderDetail,
};
use crate::money::Amount;
use crate::services::cart::{
    newest_first, not_of_cart, select_cart, spec_cart_lines, without_cart,
};
use crate::totals::{
    line_total, receivable, spec_line_total, spec_receivable, spec_sum, sum, sum_loses_nothing,
    receivable_loses_nothing, ticks_sum,
};
use vstd::prelude::*;

verus! {

/// The sums of an order.
#[derive(Debug)]
pub struct OrderTotals {
    /// The total of each line, in the order of the lines.
    pub line_totals: Vec<Amount>,
    /// The sum of the totals of the lines.
    pub grand_total: Amount,
    /// What is left to pay.
    pub receivable: Amount,
}

/// Whether the total of every line can be computed.
pub open spec fn all_priced(lines: Seq<SalesCart>) -> bool {
    forall|i: int|
        0 <= i < lines.len() ==> spec_line_total(
            (#[trigger] lines[i]).sale_price,
            lines[i].qty as int,
        ) is Some
}

/// The total of each line.
pub open spec fn spec_line_totals(lines: Seq<SalesCart>) -> Seq<Amount>
    recommends
        all_priced(lines),
{
    Seq::new(lines.len(), |i: int| spec_line_total(lines[i].sale_price, lines[i].qty as int)->0)
}

/// The sum of the totals of the lines, added up in the order of the lines.
/// `None` where the decimal arithmetic overflows.
pub open spec fn spec_grand_total(lines: Seq<SalesCart>) -> Option<Amount> {
    if all_priced(lines) {
        spec_sum(spec_line_totals(lines))
    } else {
        None
    }
}

/// Whether the sums of an order over these lines and payments can be
/// computed.
pub open spec fn totals_computable(
    lines: Seq<SalesCart>,
    payment_cash: Amount,
    payment_non_cash: Amount,
) -> bool {
    spec_grand_total(lines) matches Some(grand_total) && spec_receivable(
        grand_total,
        payment_cash,
        payment_non_cash,
    ) is Some
}

/// The total of each line, or `None` where one of them overflows.
pub fn line_totals(lines: &Vec<SalesCart>) -> (r: Option<Vec<Amount>>)
    ensures
        r is Some <==> all_priced(lines@),
        r matches Some(totals) ==> totals@ == spec_line_totals(lines@),
{
    let mut out: Vec<Amount> = Vec::new();
    let mut i: usize = 0;
    while i < lines.len()
        invariant
            i <= lines.len(),
            all_priced(lines@.take(i as int)),
            out@ == spec_line_totals(lines@.take(i as int)),
        decreases lines.len() - i,
    {
        match line_total(lines[i].sale_price, lines[i].qty) {
            Some(total) => {
                out.push(total);
                proof {
                    let longer = lines@.take(i + 1);
                    assert forall|k: int| 0 <= k < longer.len() implies spec_line_total(
                        (#[trigger] longer[k]).sale_price,
                        longer[k].qty as int,
                    ) is Some by {
                        if k < i {
                            assert(lines@.take(i as int)[k] == longer[k]);
                        }
                    }
                    assert(out@ =~= spec_line_totals(longer)) by {
                        assert forall|k: int| 0 <= k < out.len() implies out[k] == spec_line_totals(
                            longer,
                        )[k] by {
                            if k < i {
                                assert(lines@.take(i as int)[k] == longer[k]);
                            }
                        }
                    }
                }
            },
            None => {
                proof {
                    assert(lines@[i as int] == lines[i as int]);
                }
                return None;
            },
        }
        i += 1;
    }
    proof {
        assert(lines@.take(i as int) == lines@);
    }
    Some(out)
}

/// The sums of an order over these lines and payments.
///
/// The grand total is the sum of the totals of the lines, and the receivable
/// is what is left of it after the payments, never below zero. Where the
/// arithmetic loses no digit, these are the sums of the values themselves.
pub fn order_totals(lines: &Vec<SalesCart>, payment_cash: Amount, payment_non_cash: Amount) -> (r:
    Option<OrderTotals>)
    ensures
        r is Some <==> totals_computable(lines@, payment_cash, payment_non_cash),
        r matches Some(t) ==> {
            &&& t.line_totals@ == spec_line_totals(lines@)
            &&& Some(t.grand_total) == spec_sum(t.line_totals@)
            &&& Some(t.grand_total) == spec_grand_total(lines@)
            &&& Some(t.receivable) == spec_receivable(
                t.grand_total,
                payment_cash,
                payment_non_cash,
            )
            &&& t.receivable.ticks() >= 0
            &&& sum_loses_nothing(t.line_totals@) ==> t.grand_total.ticks() == ticks_sum(
                t.line_totals@,
            )
            &&& receivable_loses_nothing(t.grand_total, payment_cash, payment_non_cash)
                ==> t.receivable.ticks() == (if t.grand_total.ticks() - payment_cash.ticks()
                - payment_non_cash.ticks() > 0 {
                t.grand_total.ticks() - payment_cash.ticks() - payment_non_cash.ticks()
            } else {
                0
            })
        },
{
    let line_totals = match line_totals(lines) {
        Some(totals) => totals,
        None => {
            return None;
        },
    };
    let grand_total = match sum(&line_totals) {
        Some(total) => total,
        None => {
            return None;
        },
    };
    let receivable = match receivable(grand_total, payment_cash, payment_non_cash) {
        Some(rest) => rest,
        None => {
            return None;
        },
    };
    Some(OrderTotals { line_totals, grand_total, receivable })
}

/// What stands in the way of an order.
#[derive(Clone, Copy, Debug, PartialEq, Eq, Structural)]
pub enum OrderObstacle {
    /// The cart holds no line.
    EmptyCart,
    /// A sum of the order cannot be computed.
    NumericOverflow,
    /// Another order has the order number.
    OrderNumberTaken,
    /// No id is left for the order or for one of its lines.
    OutOfIds,
}

/// Whether the error is the one that reports the obstacle: an empty cart is
/// a validation error, and the others are database errors.
pub open spec fn reports(e: ServiceError, obstacle: OrderObstacle) -> bool {
    match obstacle {
        OrderObstacle::EmptyCart => e matches ServiceError::ValidationError(msg) && msg@
            == "No items in cart"@,
        _ => e is DatabaseError,
    }
}

/// What stands in the way of turning the cart of `user_id` in the store of
/// the request into an order, if anything does.
pub open spec fn order_obstacle(
    db: Database,
    user_id: i32,
    request: CreateOrderRequest,
) -> Option<OrderObstacle> {
    let lines = spec_cart_lines(db.sales_cart@, user_id, request.store_id);
    if lines.len() == 0 {
        Some(OrderObstacle::EmptyCart)
    } else if !totals_computable(lines, request.payment_cash, request.payment_non_cash) {
        Some(OrderObstacle::NumericOverflow)
    } else if order_number_taken(db.sales_orders@, request.order_number@) {
        Some(OrderObstacle::OrderNumberTaken)
    } else if db.next_order_id == i32::MAX || db.next_detail_id + lines.len() > i32::MAX {
        Some(OrderObstacle::OutOfIds)
    } else {
        None
    }
}

/// The date of an order: that of the request, or today where the request
/// names none.
pub open spec fn spec_order_date(request_date: Option<Date>, today: Date) -> Date {
    match request_date {
        Some(date) => date,
        None => today,
    }
}

/// The line of an order that a cart line becomes.
pub open spec fn spec_order_detail(
    line: SalesCart,
    id: i32,
    order_id: i32,
    total_price: Amount,
) -> SalesOrderDetail {
    SalesOrderDetail {
        id,
        order_id,
        product_id: line.product_id,
        qty: line.qty,
        base_price: line.base_price,
        discount_type: line.discount_type,
        discount_value: Amount::spec_whole(line.discount_value as int),
        discount_amount: line.discount_amount,
        sale_price: line.sale_price,
        total_price,
    }
}

/// The lines of an order: one for each cart line, in their order, with ids
/// that count up from `first_id`.
pub open spec fn spec_order_details(
    lines: Seq<SalesCart>,
    totals: Seq<Amount>,
    first_id: i32,
    order_id: i32,
) -> Seq<SalesOrderDetail>
    recommends
        totals.len() == lines.len(),
{
    Seq::new(
        lines.len(),
        |i: int| spec_order_detail(lines[i], (first_id + i) as i32, order_id, totals[i]),
    )
}

/// What making an order does to the tables, and what it returns, where the
/// clock shows the date `today` and the instant `now`.
///
/// Where something stands in the way, the error reports it and the tables
/// are as they were: no order, no line of an order, and the cart untouched.
/// Otherwise the order takes the next id, its lines the ids after the last
/// line stored, one for each line of the cart with the newest first; order
/// and lines are stored behind the others, and the cart is emptied. Other
/// carts stay as they were.
pub open spec fn order_outcome(
    before: Database,
    after: Database,
    user_id: i32,
    request: CreateOrderRequest,
    today: Date,
    now: Timestamp,
    r: Result<OrderResponse, ServiceError>,
) -> bool {
    match order_obstacle(before, user_id, request) {
        Some(obstacle) => r matches Err(e) && reports(e, obstacle) && after == before,
        None => {
            let lines = spec_cart_lines(before.sales_cart@, user_id, request.store_id);
            &&& r matches Ok(response)
            &&& response.order.id == before.next_order_id
            &&& response.order.order_number == request.order_number
            &&& response.order.user_id == user_id
            &&& response.order.store_id == request.store_id
            &&& response.order.date == spec_order_date(request.date, today)
            &&& Some(response.order.grand_total) == spec_grand_total(lines)
            &&& response.order.payment_cash == request.payment_cash
            &&& response.order.payment_non_cash == request.payment_non_cash
            &&& Some(response.order.receivable) == spec_receivable(
                response.order.grand_total,
                request.payment_cash,
                request.payment_non_cash,
            )
            &&& response.order.created_at == now
            &&& response.order.customer_id == request.customer_id
            &&& response.details@ == spec_order_details(
                lines,
                spec_line_totals(lines),
                before.next_detail_id,
                before.next_order_id,
            )
            &&& balanced(response.order, response.details@)
            &&& after.sales_orders@ == before.sales_orders@.push(response.order)
            &&& after.sales_order_details@ == before.sales_order_details@ + response.details@
            &&& after.sales_cart@ == before.sales_cart@.filter(
                not_of_cart(user_id, request.store_id),
            )
            &&& after.next_order_id == before.next_order_id + 1
            &&& after.next_detail_id == before.next_detail_id + lines.len()
            &&& after.next_cart_id == before.next_cart_id
            &&& after.same_catalog(&before)
        },
    }
}

/// The lines of an order for these cart lines and totals.
pub fn order_details(
    lines: &Vec<SalesCart>,
    totals: &Vec<Amount>,
    first_id: i32,
    order_id: i32,
) -> (r: Vec<SalesOrderDetail>)
    requires
        totals.len() == lines.len(),
        1 <= first_id,
        first_id + lines.len() <= i32::MAX,
    ensures
        r@ == spec_order_details(lines@, totals@, first_id, order_id),
{
    let mut out: Vec<SalesOrderDetail> = Vec::new();
    let mut i: usize = 0;
    while i < lines.len()
        invariant
            i <= lines.len(),
            totals.len() == lines.len(),
            1 <= first_id,
            first_id + lines.len() <= i32::MAX,
            out@ == spec_order_details(lines@, totals@, first_id, order_id).take(i as int),
        decreases lines.len() - i,
    {
        let line = lines[i];
        let id: i32 = first_id + i as i32;
        out.push(
            SalesOrderDetail {
                id,
                order_id,
                product_id: line.product_id,
                qty: line.qty,
                base_price: line.base_price,
                discount_type: line.discount_type,
                discount_value: Amount::whole(line.discount_value as i64),
                discount_amount: line.discount_amount,
                sale_price: line.sale_price,
                total_price: totals[i],
            },
        );
        proof {
            assert(out@ == spec_order_details(lines@, totals@, first_id, order_id).take(i + 1));
        }
        i += 1;
    }
    proof {
        assert(out@ == spec_order_details(lines@, totals@, first_id, order_id));
    }
    out
}

/// Turns the cart of `user_id` in the store of the request into an order,
/// where the clock shows the date `today` and the instant `now`.
///
/// Everything that can fail is settled before the first row is written, so
/// an order is stored with all its lines and the cart emptied, or nothing
/// changes at all.
pub fn create_sales_order_at(
    db: &mut Database,
    user_id: i32,
    order_request: CreateOrderRequest,
    today: Date,
    now: Timestamp,
) -> (r: Result<OrderResponse, ServiceError>)
    requires
        old(db).wf(),
    ensures
        final(db).wf(),
        order_outcome(*old(db), *final(db), user_id, order_request, today, now, r),
{
    let store_id = order_request.store_id;
    let mine = select_cart(&db.sales_cart, user_id, store_id);
    let lines = newest_first(&mine);
    if lines.len() == 0 {
        return Err(ServiceError::ValidationError("No items in cart".to_owned()));
    }
    let totals = match order_totals(
        &lines,
        order_request.payment_cash,
        order_request.payment_non_cash,
    ) {
        Some(totals) => totals,
        None => {
            return Err(ServiceError::DatabaseError("numeric field overflow".to_owned()));
        },
    };
    if db.has_order_number(&order_request.order_number) {
        return Err(
            ServiceError::DatabaseError(
                "duplicate key value violates unique constraint".to_owned(),
            ),
        );
    }
    if db.next_order_id == i32::MAX || lines.len() > (i32::MAX - db.next_detail_id) as usize {
        return Err(ServiceError::DatabaseError("integer out of range".to_owned()));
    }
    let order_id = db.next_order_id;
    let first_detail_id = db.next_detail_id;
    let date = match order_request.date {
        Some(date) => date,
        None => today,
    };
    let order = SalesOrder {
        id: order_id,
        order_number: order_request.order_number,
        user_id,
        store_id,
        date,
        grand_total: totals.grand_total,
        payment_cash: order_request.payment_cash,
        payment_non_cash: order_request.payment_non_cash,
        receivable: totals.receivable,
        created_at: now,
        customer_id: order_request.customer_id,
    };
    let details = order_details(&lines, &totals.line_totals, first_detail_id, order_id);
    proof {
        assert(detail_totals(details@) =~= totals.line_totals@);
        assert forall|i: int| 0 <= i < details@.len() implies Some(
            (#[trigger] details@[i]).total_price,
        ) == spec_line_total(details@[i].sale_price, details@[i].qty as int) by {
            assert(spec_line_total(lines@[i].sale_price, lines@[i].qty as int) is Some);
        }
    }
    db.next_order_id = order_id + 1;
    db.sales_orders.push(order.clone());
    proof {
        let ids = order_ids(db.sales_orders@);
        let before = order_ids(old(db).sales_orders@);
        assert forall|i: int| 0 <= i < ids.len() implies 1 <= #[trigger] ids[i]
            < db.next_order_id by {
            if i < before.len() {
                assert(ids[i] == before[i]);
            }
        }
        assert forall|i: int, j: int| 0 <= i < j < ids.len() implies #[trigger] ids[i]
            < #[trigger] ids[j] by {
            assert(ids[i] == before[i]);
            if j < before.len() {
                assert(ids[j] == before[j]);
            }
        }
        assert forall|i: int, j: int| 0 <= i < j < db.sales_orders@.len() implies (
        #[trigger] db.sales_orders@[i]).order_number@ != (
        #[trigger] db.sales_orders@[j]).order_number@ by {
            assert(db.sales_orders@[i] == old(db).sales_orders@[i]);
            if j < before.len() {
                assert(db.sales_orders@[j] == old(db).sales_orders@[j]);
            }
        }
    }
    db.next_detail_id = first_detail_id + lines.len() as i32;
    let mut k: usize = 0;
    while k < details.len()
        invariant
            k <= details.len(),
            details.len() == lines.len(),
            totals.line_totals.len() == lines.len(),
            1 <= first_detail_id,
            first_detail_id + lines.len() == db.next_detail_id,
            details@ == spec_order_details(
                lines@,
                totals.line_totals@,
                first_detail_id,
                order_id,
            ),
            db.sales_order_details@ == old(db).sales_order_details@ + details@.take(k as int),
            serial_ids(detail_ids(old(db).sales_order_details@), first_detail_id as int),
            db.sales_cart == old(db).sales_cart,
            db.next_cart_id == old(db).next_cart_id,
            db.sales_orders@ == old(db).sales_orders@.push(order),
            db.next_order_id == old(db).next_order_id + 1,
            db.same_catalog(old(db)),
        decreases details.len() - k,
    {
        db.sales_order_details.push(details[k]);
        proof {
            assert(details@.take(k + 1) == details@.take(k as int).push(details@[k as int]));
        }
        k += 1;
    }
    proof {
        assert(details@.take(k as int) == details@);
        let ids = detail_ids(db.sales_order_details@);
        let before = detail_ids(old(db).sales_order_details@);
        let n = before.len();
        assert forall|i: int| 0 <= i < ids.len() implies 1 <= #[trigger] ids[i]
            < db.next_detail_id by {
            if i < n {
                assert(ids[i] == before[i]);
            } else {
                assert(db.sales_order_details@[i] == details@[i - n]);
            }
        }
        assert forall|i: int, j: int| 0 <= i < j < ids.len() implies #[trigger] ids[i]
            < #[trigger] ids[j] by {
            if i < n {
                assert(ids[i] == before[i]);
            } else {
                assert(db.sales_order_details@[i] == details@[i - n]);
            }
            if j < n {
                assert(ids[j] == before[j]);
            } else {
                assert(db.sales_order_details@[j] == details@[j - n]);
            }
        }
    }
    proof {
        assert forall|k: int| 0 <= k < details@.len() implies (#[trigger] details@[k]).order_id
            == order.id by {}
        lemma_books_after_order(
            old(db).sales_orders@,
            old(db).sales_order_details@,
            old(db).next_order_id as int,
            order,
            details@,
        );
    }
    let kept = without_cart(&db.sales_cart, user_id, store_id);
    db.sales_cart = kept;
    Ok(OrderResponse { order, details })
}

/// Turns the cart of `user_id` in the store of the request into an order, at
/// the present instant. An order without a date is dated today.
pub fn create_sales_order(db: &mut Database, user_id: i32, order_request: CreateOrderRequest) -> (r:
    Result<OrderResponse, ServiceError>)
    requires
        old(db).wf(),
    ensures
        final(db).wf(),
        exists|today: Date, now: Timestamp|
            order_outcome(*old(db), *final(db), user_id, order_request, today, now, r),
        r is Err <==> order_obstacle(*old(db), user_id, order_request) is Some,
        r is Err ==> *final(db) == *old(db),
{
    let today = local_today();
    let now = utc_now();
    create_sales_order_at(db, user_id, order_request, today, now)
}

/// A line of an order with the name and the SKU that its product has now.
pub open spec fn spec_detailed_line(
    line: SalesOrderDetail,
    product_name: String,
    sku: String,
) -> DetailedSalesOrderDetail {
    DetailedSalesOrderDetail {
        id: line.id,
        order_id: line.order_id,
        product_id: line.product_id,
        product_name,
        sku,
        qty: line.qty,
        base_price: line.base_price,
        discount_type: line.discount_type,
        discount_value: line.discount_value,
        discount_amount: line.discount_amount,
        sale_price: line.sale_price,
        total_price: line.total_price,
    }
}

/// A line of an order with its product, where the catalog holds it.
pub open spec fn with_catalog(db: Database) -> spec_fn(SalesOrderDetail) -> Option<
    DetailedSalesOrderDetail,
> {
    |line: SalesOrderDetail|
        match spec_find_product(db.products@, line.product_id) {
            Some(product) => Some(spec_detailed_line(line, product.name, product.sku)),
            None => None,
        }
}

/// The lines of the order `order_id` as they are shown: in the order of
/// their ids, each with the name and the SKU that its product has now. A
/// line whose product the catalog does not hold is left out.
pub open spec fn spec_order_items(db: Database, order_id: i32) -> Seq<DetailedSalesOrderDetail> {
    db.sales_order_details@.filter(of_order(order_id)).filter_map(with_catalog(db))
}

/// The header of an order with the initials of its user and store.
pub open spec fn spec_detailed_order(
    order: SalesOrder,
    user_initial: String,
    store_initial: String,
) -> DetailedSalesOrder {
    DetailedSalesOrder {
        id: order.id,
        order_number: order.order_number,
        user_id: order.user_id,
        user_initial,
        store_id: order.store_id,
        store_initial,
        date: order.date,
        grand_total: order.grand_total,
        payment_cash: order.payment_cash,
        payment_non_cash: order.payment_non_cash,
        receivable: order.receivable,
        created_at: order.created_at,
        customer_id: order.customer_id,
    }
}

/// The order `order_id` as an organization sees it: the order with the
/// initials of its user and store, where it exists and the user who made it
/// belongs to the organization, and nothing otherwise.
pub open spec fn spec_visible_order(db: Database, order_id: i32, company_id: i32) -> Option<
    DetailedSalesOrder,
> {
    match spec_find_order(db.sales_orders@, order_id) {
        Some(order) => match spec_find_user(db.users@, order.user_id) {
            Some(user) => match spec_find_store(db.stores@, order.store_id) {
                Some(store) => if user.company_id == company_id {
                    Some(spec_detailed_order(order, user.initial, store.initial))
                } else {
                    None
                },
                None => None,
            },
            None => None,
        },
        None => None,
    }
}

/// An order of another organization is seen exactly as an order that does
/// not exist is seen: not at all.
pub proof fn lemma_foreign_order_looks_missing(
    db: Database,
    foreign_id: i32,
    missing_id: i32,
    company_id: i32,
)
    requires
        spec_find_order(db.sales_orders@, foreign_id) matches Some(order) && (spec_find_user(
            db.users@,
            order.user_id,
        ) matches Some(user) ==> user.company_id != company_id),
        spec_find_order(db.sales_orders@, missing_id) is None,
    ensures
        spec_visible_order(db, foreign_id, company_id) is None,
        spec_visible_order(db, foreign_id, company_id) == spec_visible_order(
            db,
            missing_id,
            company_id,
        ),
{
}

/// Decides whether a caller of the organization `requester_company_id` may
/// see an order, given the organization of the user who made it, or nothing
/// where no such order was found.
///
/// An order that was not found and an order of another organization get the
/// same answer.
pub fn check_order_access(creator_company_id: Option<i32>, requester_company_id: i32) -> (r: Result<
    (),
    ServiceError,
>)
    ensures
        r is Ok <==> creator_company_id == Some(requester_company_id),
        r matches Err(e) ==> e is NotFound,
{
    match creator_company_id {
        Some(company_id) => if company_id == requester_company_id {
            Ok(())
        } else {
            Err(ServiceError::NotFound)
        },
        None => Err(ServiceError::NotFound),
    }
}

/// The lines of the order `order_id` as they are shown.
pub fn order_items(db: &Database, order_id: i32) -> (r: Vec<DetailedSalesOrderDetail>)
    ensures
        r@ == spec_order_items(*db, order_id),
{
    let rows = &db.sales_order_details;
    let mut out: Vec<DetailedSalesOrderDetail> = Vec::new();
    let ghost mut picked: Seq<SalesOrderDetail> = Seq::empty();
    let mut i: usize = 0;
    proof {
        reveal(Seq::filter);
        assert(rows@.take(0).filter(of_order(order_id)) == Seq::<SalesOrderDetail>::empty());
    }
    while i < rows.len()
        invariant
            i <= rows.len(),
            rows == &db.sales_order_details,
            picked == rows@.take(i as int).filter(of_order(order_id)),
            out@ == picked.filter_map(with_catalog(*db)),
        decreases rows.len() - i,
    {
        let line = rows[i];
        proof {
            lemma_filter_next(rows@, of_order(order_id), i as int);
        }
        if line.order_id == order_id {
            proof {
                let longer = picked.push(line);
                assert(longer.drop_last() == picked);
                assert(longer.last() == line);
                assert(picked.filter_map(with_catalog(*db)) + Seq::<
                    DetailedSalesOrderDetail,
                >::empty() == picked.filter_map(with_catalog(*db)));
                picked = longer;
            }
            match db.find_product(line.product_id) {
                Some(product) => {
                    out.push(
                        DetailedSalesOrderDetail {
                            id: line.id,
                            order_id: line.order_id,
                            product_id: line.product_id,
                            product_name: product.name.clone(),
                            sku: product.sku.clone(),
                            qty: line.qty,
                            base_price: line.base_price,
                            discount_type: line.discount_type,
                            discount_value: line.discount_value,
                            discount_amount: line.discount_amount,
                            sale_price: line.sale_price,
                            total_price: line.total_price,
                        },
                    );
                    proof {
                        let item = spec_detailed_line(line, product.name, product.sku);
                        assert(out@ == picked.drop_last().filter_map(with_catalog(*db)) + seq![
                            item,
                        ]);
                    }
                },
                None => {},
            }
        }
        i += 1;
    }
    proof {
        assert(rows@.take(i as int) == rows@);
    }
    out
}

/// Reads the order `order_id` for a caller of the organization
/// `requester_company_id`.
///
/// An order that does not exist and an order of another organization get the
/// same answer: that nothing was found.
pub fn get_sales_order_by_id(db: &Database, order_id: i32, requester_company_id: i32) -> (r: Result<
    DetailedOrderResponse,
    ServiceError,
>)
    ensures
        match spec_visible_order(*db, order_id, requester_company_id) {
            Some(order) => r matches Ok(response) && response.order == order && response.details@
                == spec_order_items(*db, order_id),
            None => r matches Err(ServiceError::NotFound),
        },
{
    let order = match db.find_order(order_id) {
        Some(order) => order,
        None => {
            return Err(ServiceError::NotFound);
        },
    };
    let user = match db.find_user(order.user_id) {
        Some(user) => user,
        None => {
            return Err(ServiceError::NotFound);
        },
    };
    let store = match db.find_store(order.store_id) {
        Some(store) => store,
        None => {
            return Err(ServiceError::NotFound);
        },
    };
    match check_order_access(Some(user.company_id), requester_company_id) {
        Ok(()) => {},
        Err(e) => {
            return Err(e);
        },
    }
    let detailed = DetailedSalesOrder {
        id: order.id,
        order_number: order.order_number.clone(),
        user_id: order.user_id,
        user_initial: user.initial.clone(),
        store_id: order.store_id,
        store_initial: store.initial.clone(),
        date: order.date,
        grand_total: order.grand_total,
        payment_cash: order.payment_cash,
        payment_non_cash: order.payment_non_cash,
        receivable: order.receivable,
        created_at: order.created_at,
        customer_id: order.customer_id,
    };
    let details = order_items(db, order_id);
    Ok(DetailedOrderResponse { order: detailed, details })
}

} // verus!
