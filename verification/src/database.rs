//! The tables that the services read and write.
//!
//! Cart lines, orders and order lines are owned by the services and carry
//! serial ids: a new row takes the next number of its table, so ids rise
//! along a table and none is used twice. Products, users and stores are
//! looked up by id.

use crate::models::product::Product;
use crate::models::sales::{SalesCart, SalesOrder, SalesOrderDetail};
use crate::models::user::{Store, User};
use crate::money::Amount;
use crate::totals::{
    lemma_receivable, lemma_sum, receivable_loses_nothing, spec_line_total, spec_receivable,
    spec_sum, sum_loses_nothing, ticks_sum,
};
use vstd::prelude::*;

verus! {

/// The tables.
#[derive(Debug)]
pub struct Database {
    /// The lines of all carts, in the order in which they were added.
    pub sales_cart: Vec<SalesCart>,
    /// The orders, in the order in which they were made.
    pub sales_orders: Vec<SalesOrder>,
    /// The lines of all orders, in the order in which they were stored.
    pub sales_order_details: Vec<SalesOrderDetail>,
    /// The product catalog.
    pub products: Vec<Product>,
    /// The users.
    pub users: Vec<User>,
    /// The stores.
    pub stores: Vec<Store>,
    /// The id that the next cart line takes.
    pub next_cart_id: i32,
    /// The id that the next order takes.
    pub next_order_id: i32,
    /// The id that the next order line takes.
    pub next_detail_id: i32,
}

/// Whether the ids are those of a table with serial ids: at least 1, below
/// `next`, and rising along the table.
pub open spec fn serial_ids(ids: Seq<int>, next: int) -> bool {
    &&& 1 <= next
    &&& forall|i: int| 0 <= i < ids.len() ==> 1 <= #[trigger] ids[i] < next
    &&& forall|i: int, j: int| 0 <= i < j < ids.len() ==> #[trigger] ids[i] < #[trigger] ids[j]
}

/// The ids of the cart lines, in table order.
pub open spec fn cart_ids(rows: Seq<SalesCart>) -> Seq<int> {
    Seq::new(rows.len(), |i: int| rows[i].id as int)
}

/// The ids of the orders, in table order.
pub open spec fn order_ids(rows: Seq<SalesOrder>) -> Seq<int> {
    Seq::new(rows.len(), |i: int| rows[i].id as int)
}

/// The ids of the order lines, in table order.
pub open spec fn detail_ids(rows: Seq<SalesOrderDetail>) -> Seq<int> {
    Seq::new(rows.len(), |i: int| rows[i].id as int)
}

/// Whether an order of the table has this order number.
pub open spec fn order_number_taken(rows: Seq<SalesOrder>, order_number: Seq<char>) -> bool {
    exists|i: int| 0 <= i < rows.len() && (#[trigger] rows[i]).order_number@ == order_number
}

/// The first product with this id.
pub open spec fn spec_find_product(rows: Seq<Product>, id: i32) -> Option<Product>
    decreases rows.len(),
{
    if rows.len() == 0 {
        None
    } else if rows[0].id == id {
        Some(rows[0])
    } else {
        spec_find_product(rows.drop_first(), id)
    }
}

/// The first user with this id.
pub open spec fn spec_find_user(rows: Seq<User>, id: i32) -> Option<User>
    decreases rows.len(),
{
    if rows.len() == 0 {
        None
    } else if rows[0].id == id {
        Some(rows[0])
    } else {
        spec_find_user(rows.drop_first(), id)
    }
}

/// The first store with this id.
pub open spec fn spec_find_store(rows: Seq<Store>, id: i32) -> Option<Store>
    decreases rows.len(),
{
    if rows.len() == 0 {
        None
    } else if rows[0].id == id {
        Some(rows[0])
    } else {
        spec_find_store(rows.drop_first(), id)
    }
}

/// The first order with this id.
pub open spec fn spec_find_order(rows: Seq<SalesOrder>, id: i32) -> Option<SalesOrder>
    decreases rows.len(),
{
    if rows.len() == 0 {
        None
    } else if rows[0].id == id {
        Some(rows[0])
    } else {
        spec_find_order(rows.drop_first(), id)
    }
}

/// Whether a line belongs to the order `order_id`.
pub open spec fn of_order(order_id: i32) -> spec_fn(SalesOrderDetail) -> bool {
    |line: SalesOrderDetail| line.order_id == order_id
}

/// The total prices of the lines of an order.
pub open spec fn detail_totals(details: Seq<SalesOrderDetail>) -> Seq<Amount> {
    Seq::new(details.len(), |i: int| details[i].total_price)
}

/// Whether the sums of an order agree with its lines: the total of each line
/// is its sale price times its quantity, the grand total is the sum of these
/// totals, and the receivable is what the payments leave of the grand total,
/// never below zero. Each as the decimal arithmetic gives it.
pub open spec fn balanced(order: SalesOrder, details: Seq<SalesOrderDetail>) -> bool {
    &&& forall|i: int|
        0 <= i < details.len() ==> Some((#[trigger] details[i]).total_price) == spec_line_total(
            details[i].sale_price,
            details[i].qty as int,
        )
    &&& Some(order.grand_total) == spec_sum(detail_totals(details))
    &&& Some(order.receivable) == spec_receivable(
        order.grand_total,
        order.payment_cash,
        order.payment_non_cash,
    )
    &&& order.receivable.ticks() >= 0
}

/// In a balanced order whose sums lose no digit, the grand total is worth
/// what the totals of the lines are worth together, and the receivable is
/// `max(0, grand_total - payment_cash - payment_non_cash)`.
pub proof fn lemma_balanced_order_adds_up(order: SalesOrder, details: Seq<SalesOrderDetail>)
    requires
        balanced(order, details),
        forall|i: int| 0 <= i < details.len() ==> (#[trigger] details[i]).total_price.wf(),
        order.grand_total.wf(),
        order.payment_cash.wf(),
        order.payment_non_cash.wf(),
    ensures
        sum_loses_nothing(detail_totals(details)) ==> order.grand_total.ticks() == ticks_sum(
            detail_totals(details),
        ),
        receivable_loses_nothing(order.grand_total, order.payment_cash, order.payment_non_cash)
            ==> order.receivable.ticks() == (if order.grand_total.ticks()
            - order.payment_cash.ticks() - order.payment_non_cash.ticks() > 0 {
            order.grand_total.ticks() - order.payment_cash.ticks()
                - order.payment_non_cash.ticks()
        } else {
            0
        }),
{
    if sum_loses_nothing(detail_totals(details)) {
        assert forall|i: int| 0 <= i < detail_totals(details).len() implies (
        #[trigger] detail_totals(details)[i]).wf() by {
            assert(details[i].total_price.wf());
        }
        lemma_sum(detail_totals(details));
    }
    if receivable_loses_nothing(order.grand_total, order.payment_cash, order.payment_non_cash) {
        lemma_receivable(order.grand_total, order.payment_cash, order.payment_non_cash);
    }
}

/// Whether no line of a cart has a sale price below zero.
pub open spec fn prices_not_negative(rows: Seq<SalesCart>) -> bool {
    forall|i: int| 0 <= i < rows.len() ==> (#[trigger] rows[i]).sale_price.ticks() >= 0
}

/// Whether every order agrees with its lines: each stored order is balanced
/// over the stored lines that belong to it, and every stored line belongs to
/// an order with an id that was given out.
pub open spec fn books_balance(
    orders: Seq<SalesOrder>,
    details: Seq<SalesOrderDetail>,
    next_order_id: int,
) -> bool {
    &&& forall|k: int| 0 <= k < details.len() ==> (#[trigger] details[k]).order_id < next_order_id
    &&& forall|i: int|
        0 <= i < orders.len() ==> balanced(
            #[trigger] orders[i],
            details.filter(of_order(orders[i].id)),
        )
}

impl Database {
    /// Whether the tables are consistent: the ids of each table of the
    /// services are serial, no sale price of a cart is negative, no order
    /// number is used twice, and every order agrees with its lines.
    pub open spec fn wf(&self) -> bool {
        &&& serial_ids(cart_ids(self.sales_cart@), self.next_cart_id as int)
        &&& prices_not_negative(self.sales_cart@)
        &&& serial_ids(order_ids(self.sales_orders@), self.next_order_id as int)
        &&& serial_ids(detail_ids(self.sales_order_details@), self.next_detail_id as int)
        &&& forall|i: int, j: int|
            0 <= i < j < self.sales_orders@.len() ==> (
            #[trigger] self.sales_orders@[i]).order_number@ != (
            #[trigger] self.sales_orders@[j]).order_number@
        &&& books_balance(
            self.sales_orders@,
            self.sales_order_details@,
            self.next_order_id as int,
        )
    }

    /// Whether products, users and stores are the same in both.
    pub open spec fn same_catalog(&self, other: &Database) -> bool {
        &&& self.products == other.products
        &&& self.users == other.users
        &&& self.stores == other.stores
    }

    /// Whether orders and order lines are the same in both.
    pub open spec fn same_orders(&self, other: &Database) -> bool {
        &&& self.sales_orders == other.sales_orders
        &&& self.sales_order_details == other.sales_order_details
        &&& self.next_order_id == other.next_order_id
        &&& self.next_detail_id == other.next_detail_id
    }

    /// Every stored order agrees with its stored lines: its grand total is
    /// the sum of the totals of its lines, each of which is the sale price
    /// times the quantity, and its receivable is what its payments leave of
    /// the grand total, never below zero.
    pub proof fn lemma_stored_order_is_balanced(&self, i: int)
        requires
            self.wf(),
            0 <= i < self.sales_orders@.len(),
        ensures
            balanced(
                self.sales_orders@[i],
                self.sales_order_details@.filter(of_order(self.sales_orders@[i].id)),
            ),
            Some(self.sales_orders@[i].receivable) == spec_receivable(
                self.sales_orders@[i].grand_total,
                self.sales_orders@[i].payment_cash,
                self.sales_orders@[i].payment_non_cash,
            ),
            Some(self.sales_orders@[i].grand_total) == spec_sum(
                detail_totals(
                    self.sales_order_details@.filter(of_order(self.sales_orders@[i].id)),
                ),
            ),
            self.sales_orders@[i].receivable.ticks() >= 0,
    {
    }

    /// No id is used twice in a table of the services.
    pub proof fn lemma_ids_are_unique(&self)
        requires
            self.wf(),
        ensures
            forall|i: int, j: int|
                0 <= i < j < self.sales_cart@.len() ==> (#[trigger] self.sales_cart@[i]).id != (
                #[trigger] self.sales_cart@[j]).id,
            forall|i: int, j: int|
                0 <= i < j < self.sales_orders@.len() ==> (#[trigger] self.sales_orders@[i]).id
                    != (#[trigger] self.sales_orders@[j]).id,
            forall|i: int, j: int|
                0 <= i < j < self.sales_order_details@.len() ==> (
                #[trigger] self.sales_order_details@[i]).id != (
                #[trigger] self.sales_order_details@[j]).id,
    {
        assert forall|i: int, j: int| 0 <= i < j < self.sales_cart@.len() implies (
        #[trigger] self.sales_cart@[i]).id != (#[trigger] self.sales_cart@[j]).id by {
            assert(cart_ids(self.sales_cart@)[i] < cart_ids(self.sales_cart@)[j]);
        }
        assert forall|i: int, j: int| 0 <= i < j < self.sales_orders@.len() implies (
        #[trigger] self.sales_orders@[i]).id != (#[trigger] self.sales_orders@[j]).id by {
            assert(order_ids(self.sales_orders@)[i] < order_ids(self.sales_orders@)[j]);
        }
        assert forall|i: int, j: int| 0 <= i < j < self.sales_order_details@.len() implies (
        #[trigger] self.sales_order_details@[i]).id != (
        #[trigger] self.sales_order_details@[j]).id by {
            assert(detail_ids(self.sales_order_details@)[i] < detail_ids(
                self.sales_order_details@,
            )[j]);
        }
    }

    /// Tables without rows. The first row of each takes the id 1.
    pub fn new() -> (db: Database)
        ensures
            db.wf(),
            db.sales_cart@.len() == 0,
            db.sales_orders@.len() == 0,
            db.sales_order_details@.len() == 0,
            db.products@.len() == 0,
            db.users@.len() == 0,
            db.stores@.len() == 0,
            db.next_cart_id == 1,
            db.next_order_id == 1,
            db.next_detail_id == 1,
    {
        Database {
            sales_cart: Vec::new(),
            sales_orders: Vec::new(),
            sales_order_details: Vec::new(),
            products: Vec::new(),
            users: Vec::new(),
            stores: Vec::new(),
            next_cart_id: 1,
            next_order_id: 1,
            next_detail_id: 1,
        }
    }

    /// The first product with this id.
    pub fn find_product(&self, id: i32) -> (r: Option<&Product>)
        ensures
            r matches Some(p) ==> spec_find_product(self.products@, id) == Some(*p),
            r is None ==> spec_find_product(self.products@, id) is None,
    {
        let mut i: usize = 0;
        proof {
            assert(self.products@.skip(0) == self.products@);
        }
        while i < self.products.len()
            invariant
                i <= self.products.len(),
                spec_find_product(self.products@, id) == spec_find_product(
                    self.products@.skip(i as int),
                    id,
                ),
            decreases self.products.len() - i,
        {
            proof {
                assert(self.products@.skip(i as int).drop_first() == self.products@.skip(i + 1));
            }
            if self.products[i].id == id {
                return Some(&self.products[i]);
            }
            i += 1;
        }
        None
    }

    /// The first user with this id.
    pub fn find_user(&self, id: i32) -> (r: Option<&User>)
        ensures
            r matches Some(u) ==> spec_find_user(self.users@, id) == Some(*u),
            r is None ==> spec_find_user(self.users@, id) is None,
    {
        let mut i: usize = 0;
        proof {
            assert(self.users@.skip(0) == self.users@);
        }
        while i < self.users.len()
            invariant
                i <= self.users.len(),
                spec_find_user(self.users@, id) == spec_find_user(self.users@.skip(i as int), id),
            decreases self.users.len() - i,
        {
            proof {
                assert(self.users@.skip(i as int).drop_first() == self.users@.skip(i + 1));
            }
            if self.users[i].id == id {
                return Some(&self.users[i]);
            }
            i += 1;
        }
        None
    }

    /// The first store with this id.
    pub fn find_store(&self, id: i32) -> (r: Option<&Store>)
        ensures
            r matches Some(s) ==> spec_find_store(self.stores@, id) == Some(*s),
            r is None ==> spec_find_store(self.stores@, id) is None,
    {
        let mut i: usize = 0;
        proof {
            assert(self.stores@.skip(0) == self.stores@);
        }
        while i < self.stores.len()
            invariant
                i <= self.stores.len(),
                spec_find_store(self.stores@, id) == spec_find_store(
                    self.stores@.skip(i as int),
                    id,
                ),
            decreases self.stores.len() - i,
        {
            proof {
                assert(self.stores@.skip(i as int).drop_first() == self.stores@.skip(i + 1));
            }
            if self.stores[i].id == id {
                return Some(&self.stores[i]);
            }
            i += 1;
        }
        None
    }

    /// The first order with this id.
    pub fn find_order(&self, id: i32) -> (r: Option<&SalesOrder>)
        ensures
            r matches Some(o) ==> spec_find_order(self.sales_orders@, id) == Some(*o),
            r is None ==> spec_find_order(self.sales_orders@, id) is None,
    {
        let mut i: usize = 0;
        proof {
            assert(self.sales_orders@.skip(0) == self.sales_orders@);
        }
        while i < self.sales_orders.len()
            invariant
                i <= self.sales_orders.len(),
                spec_find_order(self.sales_orders@, id) == spec_find_order(
                    self.sales_orders@.skip(i as int),
                    id,
                ),
            decreases self.sales_orders.len() - i,
        {
            proof {
                assert(self.sales_orders@.skip(i as int).drop_first() == self.sales_orders@.skip(
                    i + 1,
                ));
            }
            if self.sales_orders[i].id == id {
                return Some(&self.sales_orders[i]);
            }
            i += 1;
        }
        None
    }

    /// Whether an order has this order number.
    pub fn has_order_number(&self, order_number: &String) -> (r: bool)
        ensures
            r == order_number_taken(self.sales_orders@, order_number@),
    {
        let mut i: usize = 0;
        while i < self.sales_orders.len()
            invariant
                i <= self.sales_orders.len(),
                forall|j: int|
                    0 <= j < i ==> (#[trigger] self.sales_orders@[j]).order_number@
                        != order_number@,
            decreases self.sales_orders.len() - i,
        {
            if self.sales_orders[i].order_number == *order_number {
                return true;
            }
            i += 1;
        }
        false
    }
}

/// Rows taken out of a table leave ids that are still serial: what `keep`
/// holds are rows of `rows`, in their order.
pub proof fn lemma_kept_ids_serial(ids: Seq<int>, kept: Seq<int>, from: Seq<int>, next: int)
    requires
        serial_ids(ids, next),
        kept.len() == from.len(),
        forall|k: int| 0 <= k < from.len() ==> 0 <= #[trigger] from[k] < ids.len(),
        forall|k: int, m: int| 0 <= k < m < from.len() ==> #[trigger] from[k] < #[trigger] from[m],
        forall|k: int| 0 <= k < kept.len() ==> #[trigger] kept[k] == ids[from[k]],
    ensures
        serial_ids(kept, next),
{
    assert forall|i: int, j: int| 0 <= i < j < kept.len() implies #[trigger] kept[i]
        < #[trigger] kept[j] by {
        assert(from[i] < from[j]);
        assert(ids[from[i]] < ids[from[j]]);
    }
    assert forall|i: int| 0 <= i < kept.len() implies 1 <= #[trigger] kept[i] < next by {
        assert(kept[i] == ids[from[i]]);
    }
}

/// One more row either joins what was kept of the rows before it or does
/// not.
pub proof fn lemma_filter_next<T>(rows: Seq<T>, keep: spec_fn(T) -> bool, i: int)
    requires
        0 <= i < rows.len(),
    ensures
        rows.take(i + 1).filter(keep) == (if keep(rows[i]) {
            rows.take(i).filter(keep).push(rows[i])
        } else {
            rows.take(i).filter(keep)
        }),
{
    reveal(Seq::filter);
    assert(rows.take(i + 1).drop_last() == rows.take(i));
}

/// Where no row meets the condition, nothing is kept.
pub proof fn lemma_filter_none<T>(rows: Seq<T>, keep: spec_fn(T) -> bool)
    requires
        forall|i: int| 0 <= i < rows.len() ==> !keep(#[trigger] rows[i]),
    ensures
        rows.filter(keep) == Seq::<T>::empty(),
    decreases rows.len(),
{
    reveal(Seq::filter);
    if rows.len() > 0 {
        assert forall|i: int| 0 <= i < rows.drop_last().len() implies !keep(
            #[trigger] rows.drop_last()[i],
        ) by {
            assert(rows.drop_last()[i] == rows[i]);
        }
        lemma_filter_none(rows.drop_last(), keep);
    }
}

/// Where every row meets the condition, every row is kept.
pub proof fn lemma_filter_all<T>(rows: Seq<T>, keep: spec_fn(T) -> bool)
    requires
        forall|i: int| 0 <= i < rows.len() ==> keep(#[trigger] rows[i]),
    ensures
        rows.filter(keep) == rows,
    decreases rows.len(),
{
    reveal(Seq::filter);
    if rows.len() > 0 {
        assert forall|i: int| 0 <= i < rows.drop_last().len() implies keep(
            #[trigger] rows.drop_last()[i],
        ) by {
            assert(rows.drop_last()[i] == rows[i]);
        }
        lemma_filter_all(rows.drop_last(), keep);
        assert(rows.drop_last().push(rows.last()) == rows);
    }
}

/// A balanced order that is stored with its lines, under the next id, leaves
/// the books balanced: the lines of the orders before it are the same, and
/// its own lines are the ones stored with it.
pub proof fn lemma_books_after_order(
    orders: Seq<SalesOrder>,
    details: Seq<SalesOrderDetail>,
    next_order_id: int,
    order: SalesOrder,
    lines: Seq<SalesOrderDetail>,
)
    requires
        books_balance(orders, details, next_order_id),
        serial_ids(order_ids(orders), next_order_id),
        order.id == next_order_id,
        forall|k: int| 0 <= k < lines.len() ==> (#[trigger] lines[k]).order_id == order.id,
        balanced(order, lines),
    ensures
        books_balance(orders.push(order), details + lines, next_order_id + 1),
{
    let orders2 = orders.push(order);
    let details2 = details + lines;
    assert forall|i: int| 0 <= i < orders2.len() implies balanced(
        #[trigger] orders2[i],
        details2.filter(of_order(orders2[i].id)),
    ) by {
        let keep = of_order(orders2[i].id);
        Seq::filter_distributes_over_add(details, lines, keep);
        if i < orders.len() {
            assert(orders2[i] == orders[i]);
            assert(order_ids(orders)[i] == orders[i].id);
            assert forall|k: int| 0 <= k < lines.len() implies !keep(#[trigger] lines[k]) by {}
            lemma_filter_none(lines, keep);
            assert(details.filter(keep) + Seq::<SalesOrderDetail>::empty() == details.filter(
                keep,
            ));
        } else {
            assert(orders2[i] == order);
            assert forall|k: int| 0 <= k < details.len() implies !keep(#[trigger] details[k]) by {}
            lemma_filter_none(details, keep);
            lemma_filter_all(lines, keep);
            assert(Seq::<SalesOrderDetail>::empty() + lines == lines);
        }
    }
    assert forall|k: int| 0 <= k < details2.len() implies (#[trigger] details2[k]).order_id
        < next_order_id + 1 by {
        if k < details.len() {
            assert(details2[k] == details[k]);
        } else {
            assert(details2[k] == lines[k - details.len()]);
        }
    }
}

} // verus!
