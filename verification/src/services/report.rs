//! Sales reports: the orders of an organization in a range of dates, what
//! was sold of each product over these orders, and the totals of payments.

use crate::arrange::{arranged, lemma_order, order_of, spec_order, SortKey};
use crate::database::{lemma_filter_next, spec_find_store, spec_find_user, Database};
use crate::errors::ServiceError;
use crate::models::sales::{
    DetailedSalesOrderDetail, SalesOrder, SalesReport, SalesReportOrder, SalesReportQuery,
    SalesSummary, SkuSummaryItem,
};
use crate::money::Amount;
use crate::services::orders::{order_items, spec_order_items};
use crate::totals::{spec_sum, sum, sum_loses_nothing, ticks_sum};
use vstd::prelude::*;

verus! {

/// What a line of an order adds to the summary of its product.
#[derive(Debug)]
pub struct SkuLine {
    pub product_id: i32,
    pub product_name: String,
    pub sku: String,
    pub qty: i32,
    pub total_price: Amount,
}

/// Whether an order belongs in the report: it is dated within the range of
/// the query, the user who made it belongs to the organization, its store
/// exists, and it is an order of the store of the query where the query
/// names one.
pub open spec fn in_report(db: Database, company_id: i32, query: SalesReportQuery) -> spec_fn(
    SalesOrder,
) -> bool {
    |order: SalesOrder|
        {
            &&& query.start_date.key() <= order.date.key() <= query.end_date.key()
            &&& spec_find_user(db.users@, order.user_id) matches Some(user) && user.company_id
                == company_id
            &&& spec_find_store(db.stores@, order.store_id) is Some
            &&& query.store_id != 0 ==> order.store_id == query.store_id
        }
}

/// The pairs by which the orders of a report are ordered: the later date
/// first, and among orders of one date the larger id first.
pub open spec fn report_keys(orders: Seq<SalesOrder>) -> Seq<SortKey> {
    Seq::new(orders.len(), |i: int| (orders[i].date.key() as i64, orders[i].id as i64))
}

/// The orders of a report, in the order of the report.
pub open spec fn spec_report_orders(db: Database, company_id: i32, query: SalesReportQuery) -> Seq<
    SalesOrder,
> {
    let selected = db.sales_orders@.filter(in_report(db, company_id, query));
    arranged(selected, report_keys(selected))
}

/// The orders of a report are the orders that belong in it, and no order
/// stands before an order of a later date, nor before an order of the same
/// date with a larger id.
pub proof fn lemma_report_orders(db: Database, company_id: i32, query: SalesReportQuery)
    ensures
        ({
            let selected = db.sales_orders@.filter(in_report(db, company_id, query));
            let orders = spec_report_orders(db, company_id, query);
            &&& orders.len() == selected.len()
            &&& forall|x: int|
                0 <= x < selected.len() ==> orders.contains(#[trigger] selected[x])
            &&& forall|i: int|
                0 <= i < orders.len() ==> in_report(db, company_id, query)(#[trigger] orders[i])
            &&& forall|i: int, j: int|
                0 <= i < j < orders.len() ==> {
                    let a = #[trigger] orders[i];
                    let b = #[trigger] orders[j];
                    a.date.key() > b.date.key() || (a.date.key() == b.date.key() && a.id >= b.id)
                }
        }),
{
    let selected = db.sales_orders@.filter(in_report(db, company_id, query));
    let orders = spec_report_orders(db, company_id, query);
    let keys = report_keys(selected);
    lemma_order(keys);
    let order = spec_order(keys);
    assert forall|x: int| 0 <= x < selected.len() implies orders.contains(
        #[trigger] selected[x],
    ) by {
        assert(order.contains(x));
        let i = choose|i: int| 0 <= i < order.len() && order[i] == x;
        assert(orders[i] == selected[x]);
    }
    assert forall|i: int| 0 <= i < orders.len() implies in_report(db, company_id, query)(
        #[trigger] orders[i],
    ) by {
        assert(0 <= order[i] < selected.len());
        db.sales_orders@.lemma_filter_pred(in_report(db, company_id, query), order[i]);
    }
    assert forall|i: int, j: int| 0 <= i < j < orders.len() implies {
        let a = #[trigger] orders[i];
        let b = #[trigger] orders[j];
        a.date.key() > b.date.key() || (a.date.key() == b.date.key() && a.id >= b.id)
    } by {
        assert(0 <= order[i] < selected.len());
        assert(0 <= order[j] < selected.len());
        assert(keys[order[i]] == (
            selected[order[i]].date.key() as i64,
            selected[order[i]].id as i64,
        ));
        assert(keys[order[j]] == (
            selected[order[j]].date.key() as i64,
            selected[order[j]].id as i64,
        ));
    }
}

/// Whether an order of a report shows this order: its header, the initials
/// of its user and store, and its lines as they are shown.
pub open spec fn shows(shown: SalesReportOrder, order: SalesOrder, db: Database) -> bool {
    &&& shown.id == order.id
    &&& shown.order_number == order.order_number
    &&& shown.user_id == order.user_id
    &&& spec_find_user(db.users@, order.user_id) matches Some(user) && shown.user_initial
        == user.initial
    &&& shown.store_id == order.store_id
    &&& spec_find_store(db.stores@, order.store_id) matches Some(store) && shown.store_initial
        == store.initial
    &&& shown.date == order.date
    &&& shown.grand_total == order.grand_total
    &&& shown.payment_cash == order.payment_cash
    &&& shown.payment_non_cash == order.payment_non_cash
    &&& shown.receivable == order.receivable
    &&& shown.created_at == order.created_at
    &&& shown.customer_id == order.customer_id
    &&& shown.items@ == spec_order_items(db, order.id)
}

/// Whether the query keeps the report to one store: it does unless its
/// store is 0.
pub fn names_a_store(query: &SalesReportQuery) -> (r: bool)
    ensures
        r == (query.store_id != 0),
{
    query.store_id != 0
}

/// Whether an order belongs in the report.
pub fn belongs_in_report(
    db: &Database,
    order: &SalesOrder,
    company_id: i32,
    query: &SalesReportQuery,
) -> (r: bool)
    ensures
        r == in_report(*db, company_id, *query)(*order),
{
    if !order.date.within(&query.start_date, &query.end_date) {
        return false;
    }
    let user_fits = match db.find_user(order.user_id) {
        Some(user) => user.company_id == company_id,
        None => false,
    };
    if !user_fits {
        return false;
    }
    if db.find_store(order.store_id).is_none() {
        return false;
    }
    !names_a_store(query) || order.store_id == query.store_id
}

/// The orders that belong in the report, in table order.
pub fn select_orders(db: &Database, company_id: i32, query: &SalesReportQuery) -> (r: Vec<
    SalesOrder,
>)
    ensures
        r@ == db.sales_orders@.filter(in_report(*db, company_id, *query)),
{
    let rows = &db.sales_orders;
    let mut out: Vec<SalesOrder> = Vec::new();
    let mut i: usize = 0;
    proof {
        reveal(Seq::filter);
        assert(rows@.take(0).filter(in_report(*db, company_id, *query)) == Seq::<
            SalesOrder,
        >::empty());
    }
    while i < rows.len()
        invariant
            i <= rows.len(),
            rows == &db.sales_orders,
            out@ == rows@.take(i as int).filter(in_report(*db, company_id, *query)),
        decreases rows.len() - i,
    {
        proof {
            lemma_filter_next(rows@, in_report(*db, company_id, *query), i as int);
        }
        if belongs_in_report(db, &rows[i], company_id, query) {
            out.push(rows[i].clone());
        }
        i += 1;
    }
    proof {
        assert(rows@.take(i as int) == rows@);
    }
    out
}

/// The orders of a report with their lines, in the order of the report.
pub fn report_orders(db: &Database, company_id: i32, query: &SalesReportQuery) -> (r: Vec<
    SalesReportOrder,
>)
    ensures
        r@.len() == spec_report_orders(*db, company_id, *query).len(),
        forall|i: int|
            0 <= i < r@.len() ==> shows(
                #[trigger] r@[i],
                spec_report_orders(*db, company_id, *query)[i],
                *db,
            ),
{
    let selected = select_orders(db, company_id, query);
    let mut keys: Vec<SortKey> = Vec::new();
    let mut i: usize = 0;
    while i < selected.len()
        invariant
            i <= selected.len(),
            keys@ == report_keys(selected@).take(i as int),
        decreases selected.len() - i,
    {
        keys.push((selected[i].date.ordinal(), selected[i].id as i64));
        proof {
            assert(keys@ == report_keys(selected@).take(i + 1));
        }
        i += 1;
    }
    proof {
        assert(keys@ == report_keys(selected@));
    }
    let order = order_of(&keys);
    let ghost wanted = spec_report_orders(*db, company_id, *query);
    let mut out: Vec<SalesReportOrder> = Vec::new();
    let mut k: usize = 0;
    while k < order.len()
        invariant
            k <= order.len(),
            order.len() == selected.len(),
            forall|j: int| 0 <= j < order.len() ==> #[trigger] order[j] < selected.len(),
            order@.map_values(|i: usize| i as int) == spec_order(report_keys(selected@)),
            selected@ == db.sales_orders@.filter(in_report(*db, company_id, *query)),
            wanted == spec_report_orders(*db, company_id, *query),
            out.len() == k,
            forall|j: int| 0 <= j < k ==> shows(#[trigger] out@[j], wanted[j], *db),
        decreases order.len() - k,
    {
        let row = &selected[order[k]];
        proof {
            assert(order@.map_values(|i: usize| i as int)[k as int] == order[k as int]);
            assert(wanted[k as int] == *row);
            db.sales_orders@.lemma_filter_pred(
                in_report(*db, company_id, *query),
                order[k as int] as int,
            );
        }
        let user_initial = match db.find_user(row.user_id) {
            Some(user) => user.initial.clone(),
            None => String::new(),
        };
        let store_initial = match db.find_store(row.store_id) {
            Some(store) => store.initial.clone(),
            None => String::new(),
        };
        let items = order_items(db, row.id);
        out.push(
            SalesReportOrder {
                id: row.id,
                order_number: row.order_number.clone(),
                user_id: row.user_id,
                user_initial,
                store_id: row.store_id,
                store_initial,
                date: row.date,
                grand_total: row.grand_total,
                payment_cash: row.payment_cash,
                payment_non_cash: row.payment_non_cash,
                receivable: row.receivable,
                created_at: row.created_at,
                customer_id: row.customer_id,
                items,
            },
        );
        k += 1;
    }
    out
}

/// What a line as it is shown adds to the summary of its product.
pub open spec fn spec_sku_line(item: DetailedSalesOrderDetail) -> SkuLine {
    SkuLine {
        product_id: item.product_id,
        product_name: item.product_name,
        sku: item.sku,
        qty: item.qty,
        total_price: item.total_price,
    }
}

/// What the lines of one order add to the summaries.
pub open spec fn spec_sku_lines(items: Seq<DetailedSalesOrderDetail>) -> Seq<SkuLine> {
    Seq::new(items.len(), |i: int| spec_sku_line(items[i]))
}

/// What the lines of these orders add to the summaries: order by order, and
/// within an order in the order of its lines.
pub open spec fn spec_report_lines(db: Database, orders: Seq<SalesOrder>) -> Seq<SkuLine>
    decreases orders.len(),
{
    if orders.len() == 0 {
        Seq::<SkuLine>::empty()
    } else {
        spec_report_lines(db, orders.drop_last()) + spec_sku_lines(
            spec_order_items(db, orders.last().id),
        )
    }
}

/// Whether a line is a line of this product.
pub open spec fn of_product(product_id: i32) -> spec_fn(SkuLine) -> bool {
    |line: SkuLine| line.product_id == product_id
}

/// Whether the product of the line at `i` has a line before it.
pub open spec fn seen_before(lines: Seq<SkuLine>, i: int) -> bool {
    exists|j: int| 0 <= j < i && (#[trigger] lines[j]).product_id == lines[i].product_id
}

/// The places of the lines with which a product comes up for the first time.
pub open spec fn first_positions(lines: Seq<SkuLine>) -> Seq<int>
    decreases lines.len(),
{
    if lines.len() == 0 {
        Seq::<int>::empty()
    } else {
        let front = first_positions(lines.drop_last());
        if seen_before(lines, lines.len() - 1) {
            front
        } else {
            front.push(lines.len() - 1)
        }
    }
}

/// The quantities of the lines, added up.
pub open spec fn qty_total(lines: Seq<SkuLine>) -> int
    decreases lines.len(),
{
    if lines.len() == 0 {
        0
    } else {
        qty_total(lines.drop_last()) + lines.last().qty
    }
}

/// The total prices of the lines.
pub open spec fn prices_of(lines: Seq<SkuLine>) -> Seq<Amount> {
    Seq::new(lines.len(), |i: int| lines[i].total_price)
}

/// The summary of the product of the line at `at`: the quantities and the
/// total prices of all lines of this product, added up in the order of the
/// lines, under the name and the SKU of that line. `None` where a sum
/// overflows.
pub open spec fn spec_group(lines: Seq<SkuLine>, at: int) -> Option<SkuSummaryItem> {
    let first = lines[at];
    let mine = lines.filter(of_product(first.product_id));
    match spec_sum(prices_of(mine)) {
        Some(total_price) => if i64::MIN <= qty_total(mine) <= i64::MAX {
            Some(
                SkuSummaryItem {
                    product_id: first.product_id,
                    product_name: first.product_name,
                    sku: first.sku,
                    total_qty: qty_total(mine) as i64,
                    total_price,
                },
            )
        } else {
            None
        },
        None => None,
    }
}

/// Whether the summary of every product can be computed.
pub open spec fn groups_computable(lines: Seq<SkuLine>) -> bool {
    forall|k: int|
        0 <= k < first_positions(lines).len() ==> spec_group(
            lines,
            #[trigger] first_positions(lines)[k],
        ) is Some
}

/// The summaries of the products, in the order in which the products come
/// up.
pub open spec fn spec_groups(lines: Seq<SkuLine>) -> Seq<SkuSummaryItem>
    recommends
        groups_computable(lines),
{
    Seq::new(
        first_positions(lines).len(),
        |k: int| spec_group(lines, first_positions(lines)[k])->0,
    )
}

/// The pairs by which summaries are ordered: the larger quantity first, and
/// among products of one quantity the larger product id first.
pub open spec fn sku_keys(groups: Seq<SkuSummaryItem>) -> Seq<SortKey> {
    Seq::new(groups.len(), |k: int| (groups[k].total_qty, groups[k].product_id as i64))
}

/// The summary by product: one entry for each product that has a line, the
/// product of which the most was sold first.
pub open spec fn spec_sku_summary(lines: Seq<SkuLine>) -> Seq<SkuSummaryItem>
    recommends
        groups_computable(lines),
{
    arranged(spec_groups(lines), sku_keys(spec_groups(lines)))
}

/// Whether one of the lines at `places` is a line of this product.
pub open spec fn comes_up(lines: Seq<SkuLine>, places: Seq<int>, product_id: i32) -> bool {
    exists|k: int|
        0 <= k < places.len() && 0 <= (#[trigger] places[k]) < lines.len()
            && lines[places[k]].product_id == product_id
}

/// Whether the summary has an entry for this product.
pub open spec fn has_entry(summary: Seq<SkuSummaryItem>, product_id: i32) -> bool {
    exists|i: int| 0 <= i < summary.len() && (#[trigger] summary[i]).product_id == product_id
}

/// The places at which products come up for the first time are places of
/// lines, in rising order, and no line before such a place is a line of the
/// same product.
pub proof fn lemma_first_positions_rise(lines: Seq<SkuLine>)
    ensures
        forall|k: int|
            0 <= k < first_positions(lines).len() ==> 0 <= #[trigger] first_positions(lines)[k]
                < lines.len() && !seen_before(lines, first_positions(lines)[k]),
        forall|k: int, m: int|
            0 <= k < m < first_positions(lines).len() ==> #[trigger] first_positions(lines)[k]
                < #[trigger] first_positions(lines)[m],
    decreases lines.len(),
{
    if lines.len() > 0 {
        let n = lines.len() - 1;
        let front_lines = lines.drop_last();
        lemma_first_positions_rise(front_lines);
        let front = first_positions(front_lines);
        let all = first_positions(lines);
        assert forall|k: int| 0 <= k < all.len() implies 0 <= #[trigger] all[k] < lines.len()
            && !seen_before(lines, all[k]) by {
            if k < front.len() {
                assert(all[k] == front[k]);
                let at = front[k];
                assert(!seen_before(front_lines, at));
                if seen_before(lines, at) {
                    let j = choose|j: int|
                        0 <= j < at && (#[trigger] lines[j]).product_id == lines[at].product_id;
                    assert(front_lines[j].product_id == front_lines[at].product_id);
                    assert(false);
                }
            }
        }
        assert forall|k: int, m: int| 0 <= k < m < all.len() implies #[trigger] all[k]
            < #[trigger] all[m] by {
            assert(all[k] == front[k]);
            if m < front.len() {
                assert(all[m] == front[m]);
            }
        }
    }
}

/// The product of every line comes up at one of the places at which
/// products come up for the first time.
pub proof fn lemma_every_product_comes_up(lines: Seq<SkuLine>, j: int)
    requires
        0 <= j < lines.len(),
    ensures
        comes_up(lines, first_positions(lines), lines[j].product_id),
    decreases lines.len(),
{
    let n = lines.len() - 1;
    let front_lines = lines.drop_last();
    let front = first_positions(front_lines);
    let all = first_positions(lines);
    lemma_first_positions_rise(front_lines);
    if j < n {
        lemma_every_product_comes_up(front_lines, j);
        let k = choose|k: int|
            0 <= k < front.len() && 0 <= (#[trigger] front[k]) < front_lines.len()
                && front_lines[front[k]].product_id == front_lines[j].product_id;
        assert(all[k] == front[k]);
        assert(lines[all[k]].product_id == lines[j].product_id);
    } else if seen_before(lines, n) {
        let i = choose|i: int|
            0 <= i < n && (#[trigger] lines[i]).product_id == lines[n].product_id;
        lemma_every_product_comes_up(front_lines, i);
        let k = choose|k: int|
            0 <= k < front.len() && 0 <= (#[trigger] front[k]) < front_lines.len()
                && front_lines[front[k]].product_id == front_lines[i].product_id;
        assert(all[k] == front[k]);
        assert(lines[all[k]].product_id == lines[j].product_id);
    } else {
        let k = all.len() - 1;
        assert(all[k] == n);
    }
}

/// No product comes up for the first time at two places.
pub proof fn lemma_products_come_up_once(lines: Seq<SkuLine>, k: int, m: int)
    requires
        0 <= k < m < first_positions(lines).len(),
    ensures
        lines[first_positions(lines)[k]].product_id != lines[first_positions(
            lines,
        )[m]].product_id,
{
    lemma_first_positions_rise(lines);
    let all = first_positions(lines);
    assert(all[k] < all[m]);
    assert(!seen_before(lines, all[m]));
    if lines[all[k]].product_id == lines[all[m]].product_id {
        assert(seen_before(lines, all[m]));
    }
}

/// The summary by product has an entry for the product of every line.
pub proof fn lemma_sku_summary_is_complete(lines: Seq<SkuLine>, j: int)
    requires
        groups_computable(lines),
        0 <= j < lines.len(),
    ensures
        has_entry(spec_sku_summary(lines), lines[j].product_id),
{
    let places = first_positions(lines);
    let groups = spec_groups(lines);
    let keys = sku_keys(groups);
    lemma_order(keys);
    let order = spec_order(keys);
    let summary = spec_sku_summary(lines);
    lemma_every_product_comes_up(lines, j);
    let k = choose|k: int|
        0 <= k < places.len() && 0 <= (#[trigger] places[k]) < lines.len()
            && lines[places[k]].product_id == lines[j].product_id;
    assert(spec_group(lines, places[k]) is Some);
    assert(groups[k].product_id == lines[j].product_id);
    assert(order.contains(k));
    let i = choose|i: int| 0 <= i < order.len() && order[i] == k;
    assert(summary[i] == groups[k]);
}

/// In the summary by product no product has two entries, and no entry
/// stands before an entry of a larger quantity, nor before an entry of the
/// same quantity with a larger product id.
pub proof fn lemma_sku_summary_is_ordered(lines: Seq<SkuLine>, i: int, j: int)
    requires
        groups_computable(lines),
        0 <= i < j < spec_sku_summary(lines).len(),
    ensures
        spec_sku_summary(lines).len() == first_positions(lines).len(),
        spec_sku_summary(lines)[i].product_id != spec_sku_summary(lines)[j].product_id,
        spec_sku_summary(lines)[i].total_qty > spec_sku_summary(lines)[j].total_qty || (
        spec_sku_summary(lines)[i].total_qty == spec_sku_summary(lines)[j].total_qty
            && spec_sku_summary(lines)[i].product_id > spec_sku_summary(lines)[j].product_id),
{
    let places = first_positions(lines);
    let groups = spec_groups(lines);
    let keys = sku_keys(groups);
    lemma_order(keys);
    let order = spec_order(keys);
    let ki = order[i];
    let kj = order[j];
    assert(0 <= ki < groups.len() && 0 <= kj < groups.len());
    assert(ki != kj);
    assert(spec_group(lines, places[ki]) is Some);
    assert(spec_group(lines, places[kj]) is Some);
    assert(keys[ki] == (groups[ki].total_qty, groups[ki].product_id as i64));
    assert(keys[kj] == (groups[kj].total_qty, groups[kj].product_id as i64));
    if ki < kj {
        lemma_products_come_up_once(lines, ki, kj);
    } else {
        lemma_products_come_up_once(lines, kj, ki);
    }
}

/// Whether one of the lines at the places `firsts` is a line of this
/// product.
pub open spec fn listed(lines: Seq<SkuLine>, firsts: Seq<usize>, product_id: i32) -> bool {
    exists|k: int|
        0 <= k < firsts.len() && 0 <= (#[trigger] firsts[k]) < lines.len()
            && lines[firsts[k] as int].product_id == product_id
}

/// Whether one of the lines at the places `firsts` is a line of this
/// product.
pub fn is_listed(lines: &Vec<SkuLine>, firsts: &Vec<usize>, product_id: i32) -> (r: bool)
    requires
        forall|k: int| 0 <= k < firsts.len() ==> #[trigger] firsts[k] < lines.len(),
    ensures
        r == listed(lines@, firsts@, product_id),
{
    let mut k: usize = 0;
    while k < firsts.len()
        invariant
            k <= firsts.len(),
            forall|m: int| 0 <= m < firsts.len() ==> #[trigger] firsts[m] < lines.len(),
            forall|m: int|
                0 <= m < k ==> lines[#[trigger] firsts[m] as int].product_id != product_id,
        decreases firsts.len() - k,
    {
        if lines[firsts[k]].product_id == product_id {
            return true;
        }
        k += 1;
    }
    false
}

/// The places of the lines with which a product comes up for the first time.
pub fn first_lines(lines: &Vec<SkuLine>) -> (r: Vec<usize>)
    ensures
        r@.map_values(|i: usize| i as int) == first_positions(lines@),
        forall|k: int| 0 <= k < r.len() ==> #[trigger] r[k] < lines.len(),
{
    let mut firsts: Vec<usize> = Vec::new();
    let mut i: usize = 0;
    proof {
        assert(firsts@.map_values(|i: usize| i as int) == first_positions(lines@.take(0)));
    }
    while i < lines.len()
        invariant
            i <= lines.len(),
            firsts@.map_values(|i: usize| i as int) == first_positions(lines@.take(i as int)),
            forall|k: int| 0 <= k < firsts.len() ==> #[trigger] firsts[k] < i,
            forall|j: int|
                0 <= j < i ==> listed(lines@, firsts@, (#[trigger] lines@[j]).product_id),
        decreases lines.len() - i,
    {
        let ghost before = firsts@;
        let product_id = lines[i].product_id;
        let found = is_listed(lines, &firsts, product_id);
        proof {
            let longer = lines@.take(i + 1);
            assert(longer.drop_last() == lines@.take(i as int));
            if found {
                let m = choose|m: int|
                    0 <= m < before.len() && 0 <= (#[trigger] before[m]) < lines@.len()
                        && lines@[before[m] as int].product_id == product_id;
                let j = before[m] as int;
                assert(longer[j].product_id == longer[i as int].product_id);
                assert(seen_before(longer, i as int));
            } else {
                if seen_before(longer, i as int) {
                    let j = choose|j: int|
                        0 <= j < i && (#[trigger] longer[j]).product_id
                            == longer[i as int].product_id;
                    assert(lines@[j].product_id == product_id);
                    assert(listed(lines@, before, lines@[j].product_id));
                    assert(false);
                }
            }
        }
        if !found {
            firsts.push(i);
            proof {
                assert(firsts@.map_values(|i: usize| i as int) == before.map_values(
                    |i: usize| i as int,
                ).push(i as int));
                assert(firsts@[before.len() as int] == i);
                assert(listed(lines@, firsts@, product_id));
            }
        }
        proof {
            assert forall|j: int| 0 <= j < i + 1 implies listed(
                lines@,
                firsts@,
                (#[trigger] lines@[j]).product_id,
            ) by {
                if j < i {
                    let pid = lines@[j].product_id;
                    assert(listed(lines@, before, pid));
                    let m = choose|m: int|
                        0 <= m < before.len() && 0 <= (#[trigger] before[m]) < lines@.len()
                            && lines@[before[m] as int].product_id == pid;
                    assert(firsts@[m] == before[m]);
                }
            }
        }
        i += 1;
    }
    proof {
        assert(lines@.take(i as int) == lines@);
    }
    firsts
}

/// The quantities and the total prices of the lines of one product, added
/// up. `None` where a sum overflows.
pub fn product_totals(lines: &Vec<SkuLine>, product_id: i32) -> (r: Option<(i64, Amount)>)
    ensures
        ({
            let mine = lines@.filter(of_product(product_id));
            match r {
                Some((qty, price)) => {
                    &&& qty == qty_total(mine)
                    &&& spec_sum(prices_of(mine)) == Some(price)
                    &&& sum_loses_nothing(prices_of(mine)) ==> price.ticks() == ticks_sum(
                        prices_of(mine),
                    )
                },
                None => spec_sum(prices_of(mine)) is None || !(i64::MIN <= qty_total(mine)
                    <= i64::MAX),
            }
        }),
{
    let mut prices: Vec<Amount> = Vec::new();
    let mut qty: i128 = 0;
    let mut i: usize = 0;
    let ghost mut mine: Seq<SkuLine> = Seq::empty();
    proof {
        reveal(Seq::filter);
        assert(lines@.take(0).filter(of_product(product_id)) == Seq::<SkuLine>::empty());
        assert(prices@ == prices_of(mine));
    }
    while i < lines.len()
        invariant
            i <= lines.len(),
            mine == lines@.take(i as int).filter(of_product(product_id)),
            prices@ == prices_of(mine),
            qty == qty_total(mine),
            -(i as int) * 0x8000_0000 <= qty <= (i as int) * 0x8000_0000,
        decreases lines.len() - i,
    {
        proof {
            lemma_filter_next(lines@, of_product(product_id), i as int);
            assert((i as int + 1) * 0x8000_0000 == (i as int) * 0x8000_0000 + 0x8000_0000)
                by (nonlinear_arith);
            assert((i as int) * 0x8000_0000 <= 0x1_0000_0000_0000_0000 * 0x8000_0000)
                by (nonlinear_arith)
                requires
                    i <= 0x1_0000_0000_0000_0000,
            ;
        }
        if lines[i].product_id == product_id {
            prices.push(lines[i].total_price);
            qty = qty + lines[i].qty as i128;
            proof {
                let longer = mine.push(lines@[i as int]);
                assert(longer.drop_last() == mine);
                assert(prices@ == prices_of(longer));
                mine = longer;
            }
        }
        i += 1;
    }
    proof {
        assert(lines@.take(i as int) == lines@);
    }
    if qty < i64::MIN as i128 || qty > i64::MAX as i128 {
        return None;
    }
    match sum(&prices) {
        Some(price) => Some((qty as i64, price)),
        None => None,
    }
}

/// The summary by product of these lines, or `None` where a sum overflows.
///
/// Every product that has a line has one entry, with the quantities and the
/// total prices of its lines added up; the product of which the most was
/// sold comes first.
pub fn sku_summary(lines: &Vec<SkuLine>) -> (r: Option<Vec<SkuSummaryItem>>)
    ensures
        r is Some <==> groups_computable(lines@),
        r matches Some(summary) ==> summary@ == spec_sku_summary(lines@),
{
    let firsts = first_lines(lines);
    let ghost places = first_positions(lines@);
    let mut qtys: Vec<i64> = Vec::new();
    let mut totals: Vec<Amount> = Vec::new();
    let mut keys: Vec<SortKey> = Vec::new();
    let mut k: usize = 0;
    while k < firsts.len()
        invariant
            k <= firsts.len(),
            places == first_positions(lines@),
            firsts@.map_values(|i: usize| i as int) == places,
            forall|m: int| 0 <= m < firsts.len() ==> #[trigger] firsts[m] < lines.len(),
            qtys.len() == k,
            totals.len() == k,
            keys.len() == k,
            forall|m: int|
                0 <= m < k ==> {
                    &&& (#[trigger] spec_group(lines@, places[m])) matches Some(group)
                    &&& group.total_qty == qtys[m]
                    &&& group.total_price == totals[m]
                    &&& keys[m] == (group.total_qty, group.product_id as i64)
                },
        decreases firsts.len() - k,
    {
        let at = firsts[k];
        proof {
            assert(firsts@.map_values(|i: usize| i as int)[k as int] == at);
        }
        let product_id = lines[at].product_id;
        match product_totals(lines, product_id) {
            Some((qty, price)) => {
                qtys.push(qty);
                totals.push(price);
                keys.push((qty, product_id as i64));
            },
            None => {
                proof {
                    assert(spec_group(lines@, places[k as int]) is None);
                }
                return None;
            },
        }
        k += 1;
    }
    proof {
        assert(groups_computable(lines@));
        assert(keys@ =~= sku_keys(spec_groups(lines@)));
    }
    let order = order_of(&keys);
    let ghost wanted = spec_sku_summary(lines@);
    let mut out: Vec<SkuSummaryItem> = Vec::new();
    let mut i: usize = 0;
    while i < order.len()
        invariant
            i <= order.len(),
            order.len() == firsts.len(),
            qtys.len() == firsts.len(),
            totals.len() == firsts.len(),
            places == first_positions(lines@),
            firsts@.map_values(|i: usize| i as int) == places,
            forall|m: int| 0 <= m < firsts.len() ==> #[trigger] firsts[m] < lines.len(),
            forall|m: int| 0 <= m < order.len() ==> #[trigger] order[m] < firsts.len(),
            order@.map_values(|i: usize| i as int) == spec_order(sku_keys(spec_groups(lines@))),
            wanted == spec_sku_summary(lines@),
            forall|m: int|
                0 <= m < firsts.len() ==> {
                    &&& (#[trigger] spec_group(lines@, places[m])) matches Some(group)
                    &&& group.total_qty == qtys[m]
                    &&& group.total_price == totals[m]
                },
            out@ == wanted.take(i as int),
        decreases order.len() - i,
    {
        let g = order[i];
        let at = firsts[g];
        proof {
            assert(order@.map_values(|i: usize| i as int)[i as int] == g);
            assert(firsts@.map_values(|i: usize| i as int)[g as int] == at);
            assert(spec_group(lines@, places[g as int]) is Some);
            assert(wanted[i as int] == spec_groups(lines@)[g as int]);
        }
        let line = &lines[at];
        out.push(
            SkuSummaryItem {
                product_id: line.product_id,
                product_name: line.product_name.clone(),
                sku: line.sku.clone(),
                total_qty: qtys[g],
                total_price: totals[g],
            },
        );
        proof {
            assert(out@ == wanted.take(i + 1));
        }
        i += 1;
    }
    proof {
        assert(out@ == wanted);
    }
    Some(out)
}

/// What the lines of the orders of a report add to the summaries.
pub open spec fn spec_lines_shown(shown: Seq<SalesReportOrder>) -> Seq<SkuLine>
    decreases shown.len(),
{
    if shown.len() == 0 {
        Seq::<SkuLine>::empty()
    } else {
        spec_lines_shown(shown.drop_last()) + spec_sku_lines(shown.last().items@)
    }
}

/// Orders of a report that show the orders of the tables add to the
/// summaries what those orders add.
pub proof fn lemma_lines_shown(db: Database, shown: Seq<SalesReportOrder>, orders: Seq<SalesOrder>)
    requires
        shown.len() == orders.len(),
        forall|i: int| 0 <= i < shown.len() ==> shows(#[trigger] shown[i], orders[i], db),
    ensures
        spec_lines_shown(shown) == spec_report_lines(db, orders),
    decreases shown.len(),
{
    if shown.len() > 0 {
        let n = shown.len() - 1;
        assert(shows(shown[n], orders[n], db));
        assert forall|i: int| 0 <= i < n implies shows(
            #[trigger] shown.drop_last()[i],
            orders.drop_last()[i],
            db,
        ) by {
            assert(shows(shown[i], orders[i], db));
        }
        lemma_lines_shown(db, shown.drop_last(), orders.drop_last());
    }
}

/// What the lines of the orders of a report add to the summaries.
pub fn sku_lines(shown: &Vec<SalesReportOrder>) -> (r: Vec<SkuLine>)
    ensures
        r@ == spec_lines_shown(shown@),
{
    let mut out: Vec<SkuLine> = Vec::new();
    let mut i: usize = 0;
    proof {
        assert(out@ == spec_lines_shown(shown@.take(0)));
    }
    while i < shown.len()
        invariant
            i <= shown.len(),
            out@ == spec_lines_shown(shown@.take(i as int)),
        decreases shown.len() - i,
    {
        let items = &shown[i].items;
        let ghost done = out@;
        let mut j: usize = 0;
        proof {
            assert(out@ == done + spec_sku_lines(items@).take(0));
        }
        while j < items.len()
            invariant
                j <= items.len(),
                out@ == done + spec_sku_lines(items@).take(j as int),
            decreases items.len() - j,
        {
            let item = &items[j];
            out.push(
                SkuLine {
                    product_id: item.product_id,
                    product_name: item.product_name.clone(),
                    sku: item.sku.clone(),
                    qty: item.qty,
                    total_price: item.total_price,
                },
            );
            proof {
                assert(spec_sku_lines(items@).take(j + 1) == spec_sku_lines(items@).take(
                    j as int,
                ).push(spec_sku_line(items@[j as int])));
                assert(out@ == done + spec_sku_lines(items@).take(j + 1));
            }
            j += 1;
        }
        proof {
            assert(spec_sku_lines(items@).take(j as int) == spec_sku_lines(items@));
            let longer = shown@.take(i + 1);
            assert(longer.drop_last() == shown@.take(i as int));
            assert(longer.last().items == shown@[i as int].items);
        }
        i += 1;
    }
    proof {
        assert(shown@.take(i as int) == shown@);
    }
    out
}

/// The cash payments of the orders.
pub open spec fn cash_paid(orders: Seq<SalesOrder>) -> Seq<Amount> {
    Seq::new(orders.len(), |i: int| orders[i].payment_cash)
}

/// The payments of the orders that were not made in cash.
pub open spec fn non_cash_paid(orders: Seq<SalesOrder>) -> Seq<Amount> {
    Seq::new(orders.len(), |i: int| orders[i].payment_non_cash)
}

/// What is left to pay of each of the orders.
pub open spec fn receivables(orders: Seq<SalesOrder>) -> Seq<Amount> {
    Seq::new(orders.len(), |i: int| orders[i].receivable)
}

/// The totals over three columns of amounts, one row for each order: the sum
/// of each column, and the number of the rows. `None` where a sum overflows.
pub open spec fn spec_totals(cash: Seq<Amount>, non_cash: Seq<Amount>, rest: Seq<Amount>) -> Option<
    SalesSummary,
> {
    match spec_sum(cash) {
        Some(total_payment_cash) => match spec_sum(non_cash) {
            Some(total_payment_non_cash) => match spec_sum(rest) {
                Some(total_receivable) => if cash.len() <= i32::MAX {
                    Some(
                        SalesSummary {
                            total_payment_cash,
                            total_payment_non_cash,
                            total_receivable,
                            total_orders: cash.len() as i32,
                        },
                    )
                } else {
                    None
                },
                None => None,
            },
            None => None,
        },
        None => None,
    }
}

/// The totals of a report over these orders: the sums of the payments in
/// cash, of the other payments and of the receivables, and the number of the
/// orders. `None` where a sum overflows.
pub open spec fn spec_summary(orders: Seq<SalesOrder>) -> Option<SalesSummary> {
    spec_totals(cash_paid(orders), non_cash_paid(orders), receivables(orders))
}

/// Whether the totals are worth what the rows of the columns are worth
/// together, as far as the sums lose no digit.
pub open spec fn totals_add_up(
    summary: SalesSummary,
    cash: Seq<Amount>,
    non_cash: Seq<Amount>,
    rest: Seq<Amount>,
) -> bool {
    &&& sum_loses_nothing(cash) ==> summary.total_payment_cash.ticks() == ticks_sum(cash)
    &&& sum_loses_nothing(non_cash) ==> summary.total_payment_non_cash.ticks() == ticks_sum(
        non_cash,
    )
    &&& sum_loses_nothing(rest) ==> summary.total_receivable.ticks() == ticks_sum(rest)
}

/// Whether the totals are worth what the orders are worth together, as far
/// as the sums lose no digit.
pub open spec fn adds_up(summary: SalesSummary, orders: Seq<SalesOrder>) -> bool {
    totals_add_up(summary, cash_paid(orders), non_cash_paid(orders), receivables(orders))
}

/// The cash payments of the orders of a report.
pub open spec fn shown_cash(shown: Seq<SalesReportOrder>) -> Seq<Amount> {
    Seq::new(shown.len(), |i: int| shown[i].payment_cash)
}

/// The other payments of the orders of a report.
pub open spec fn shown_non_cash(shown: Seq<SalesReportOrder>) -> Seq<Amount> {
    Seq::new(shown.len(), |i: int| shown[i].payment_non_cash)
}

/// What is left to pay of each of the orders of a report.
pub open spec fn shown_receivables(shown: Seq<SalesReportOrder>) -> Seq<Amount> {
    Seq::new(shown.len(), |i: int| shown[i].receivable)
}

/// The totals of a report over the orders that it shows.
pub fn summarize(shown: &Vec<SalesReportOrder>) -> (r: Option<SalesSummary>)
    ensures
        r == spec_totals(shown_cash(shown@), shown_non_cash(shown@), shown_receivables(shown@)),
        r matches Some(summary) ==> totals_add_up(
            summary,
            shown_cash(shown@),
            shown_non_cash(shown@),
            shown_receivables(shown@),
        ),
{
    let mut cash: Vec<Amount> = Vec::new();
    let mut non_cash: Vec<Amount> = Vec::new();
    let mut rest: Vec<Amount> = Vec::new();
    let mut i: usize = 0;
    while i < shown.len()
        invariant
            i <= shown.len(),
            cash@ == shown_cash(shown@).take(i as int),
            non_cash@ == shown_non_cash(shown@).take(i as int),
            rest@ == shown_receivables(shown@).take(i as int),
        decreases shown.len() - i,
    {
        cash.push(shown[i].payment_cash);
        non_cash.push(shown[i].payment_non_cash);
        rest.push(shown[i].receivable);
        proof {
            assert(cash@ == shown_cash(shown@).take(i + 1));
            assert(non_cash@ == shown_non_cash(shown@).take(i + 1));
            assert(rest@ == shown_receivables(shown@).take(i + 1));
        }
        i += 1;
    }
    proof {
        assert(cash@ == shown_cash(shown@));
        assert(non_cash@ == shown_non_cash(shown@));
        assert(rest@ == shown_receivables(shown@));
    }
    let total_payment_cash = match sum(&cash) {
        Some(total) => total,
        None => {
            return None;
        },
    };
    let total_payment_non_cash = match sum(&non_cash) {
        Some(total) => total,
        None => {
            return None;
        },
    };
    let total_receivable = match sum(&rest) {
        Some(total) => total,
        None => {
            return None;
        },
    };
    if shown.len() > i32::MAX as usize {
        return None;
    }
    Some(
        SalesSummary {
            total_payment_cash,
            total_payment_non_cash,
            total_receivable,
            total_orders: shown.len() as i32,
        },
    )
}

/// What a report on the orders of the organization `company_id` holds.
///
/// The orders that belong in the report are shown with the later date first,
/// each with its lines. The summary by product and the totals are taken over
/// exactly these orders. Where one of their sums overflows, the report fails
/// as a database error. The tables are only read.
pub open spec fn report_outcome(
    db: Database,
    company_id: i32,
    query: SalesReportQuery,
    r: Result<SalesReport, ServiceError>,
) -> bool {
    let orders = spec_report_orders(db, company_id, query);
    let lines = spec_report_lines(db, orders);
    if !groups_computable(lines) || spec_summary(orders) is None {
        r matches Err(ServiceError::DatabaseError(_))
    } else {
        &&& r matches Ok(report)
        &&& report.orders@.len() == orders.len()
        &&& forall|i: int|
            0 <= i < orders.len() ==> shows(#[trigger] report.orders@[i], orders[i], db)
        &&& report.sku_summary@ == spec_sku_summary(lines)
        &&& report.summary == spec_summary(orders)->0
        &&& adds_up(report.summary, orders)
    }
}

/// Where no order belongs in the report, the report can be made and is
/// empty: no order, no product, and totals of nothing.
pub proof fn lemma_empty_report(db: Database, company_id: i32, query: SalesReportQuery)
    requires
        db.sales_orders@.filter(in_report(db, company_id, query)).len() == 0,
    ensures
        spec_report_orders(db, company_id, query).len() == 0,
        groups_computable(spec_report_lines(db, spec_report_orders(db, company_id, query))),
        spec_sku_summary(
            spec_report_lines(db, spec_report_orders(db, company_id, query)),
        ).len() == 0,
        spec_summary(spec_report_orders(db, company_id, query)) == Some(
            SalesSummary {
                total_payment_cash: Amount::spec_zero(),
                total_payment_non_cash: Amount::spec_zero(),
                total_receivable: Amount::spec_zero(),
                total_orders: 0,
            },
        ),
{
    let orders = spec_report_orders(db, company_id, query);
    assert(cash_paid(orders) =~= Seq::<Amount>::empty());
    assert(non_cash_paid(orders) =~= Seq::<Amount>::empty());
    assert(receivables(orders) =~= Seq::<Amount>::empty());
}

/// Makes the sales report of the organization `company_id` for the query.
///
/// Where no order belongs in the report it is empty, which is no error.
pub fn generate_sales_report(
    db: &Database,
    _user_id: i32,
    company_id: i32,
    query: SalesReportQuery,
) -> (r: Result<SalesReport, ServiceError>)
    ensures
        report_outcome(*db, company_id, query, r),
        db.sales_orders@.filter(in_report(*db, company_id, query)).len() == 0 ==> {
            &&& r matches Ok(report)
            &&& report.orders@.len() == 0
            &&& report.sku_summary@.len() == 0
            &&& report.summary.total_orders == 0
            &&& report.summary.total_payment_cash == Amount::spec_zero()
            &&& report.summary.total_payment_non_cash == Amount::spec_zero()
            &&& report.summary.total_receivable == Amount::spec_zero()
        },
{
    let ghost wanted = spec_report_orders(*db, company_id, query);
    let orders = report_orders(db, company_id, &query);
    let lines = sku_lines(&orders);
    proof {
        lemma_lines_shown(*db, orders@, wanted);
        assert(shown_cash(orders@) =~= cash_paid(wanted));
        assert(shown_non_cash(orders@) =~= non_cash_paid(wanted));
        assert(shown_receivables(orders@) =~= receivables(wanted));
        if db.sales_orders@.filter(in_report(*db, company_id, query)).len() == 0 {
            lemma_empty_report(*db, company_id, query);
        }
    }
    let sku_summary = match sku_summary(&lines) {
        Some(summary) => summary,
        None => {
            return Err(ServiceError::DatabaseError("numeric field overflow".to_owned()));
        },
    };
    let summary = match summarize(&orders) {
        Some(summary) => summary,
        None => {
            return Err(ServiceError::DatabaseError("numeric field overflow".to_owned()));
        },
    };
    Ok(SalesReport { orders, sku_summary, summary })
}

} // verus!
