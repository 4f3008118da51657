//! The cart of a user in a store: adding, listing, changing and removing
//! lines. A user sees and changes none but the user's own lines.

use crate::arrange::{arranged, lemma_order, order_of, spec_order, SortKey};
use crate::calendar::{utc_now, Timestamp};
use crate::database::{
    cart_ids, lemma_filter_all, lemma_filter_next, lemma_kept_ids_serial, prices_not_negative,
    serial_ids, spec_find_product, Database,
};
use crate::discount::{
    compute, discount_amount, sale_price, spec_compute, spec_discount_amount, spec_sale_price,
    DiscountType, Pricing,
};
use crate::errors::ServiceError;
use crate::models::product::Product;
use crate::models::sales::{NewSalesCart, SalesCart, SalesCartResponse, UpdateSalesCart};
use vstd::prelude::*;

verus! {

/// Whether a line is in the cart of this user in this store.
pub open spec fn of_cart(user_id: i32, store_id: i32) -> spec_fn(SalesCart) -> bool {
    |line: SalesCart| line.user_id == user_id && line.store_id == store_id
}

/// Whether a line is in another cart than that of this user in this store.
pub open spec fn not_of_cart(user_id: i32, store_id: i32) -> spec_fn(SalesCart) -> bool {
    |line: SalesCart| !(line.user_id == user_id && line.store_id == store_id)
}

/// Whether a line is another than the line `id` of this user.
pub open spec fn not_line(id: i32, user_id: i32) -> spec_fn(SalesCart) -> bool {
    |line: SalesCart| !(line.id == id && line.user_id == user_id)
}

/// Whether the table holds the line `id` as a line of this user.
pub open spec fn has_line(rows: Seq<SalesCart>, id: i32, user_id: i32) -> bool {
    exists|i: int|
        0 <= i < rows.len() && (#[trigger] rows[i]).id == id && rows[i].user_id == user_id
}

/// Whether the table holds a line of the cart of this user in this store.
pub open spec fn has_cart(rows: Seq<SalesCart>, user_id: i32, store_id: i32) -> bool {
    exists|i: int|
        0 <= i < rows.len() && (#[trigger] rows[i]).user_id == user_id && rows[i].store_id
            == store_id
}

/// The pairs by which lines are ordered, the newest first: the time at which
/// a line was added, then its id.
pub open spec fn recency_keys(lines: Seq<SalesCart>) -> Seq<SortKey> {
    Seq::new(lines.len(), |i: int| (lines[i].created_at.micros, lines[i].id as i64))
}

/// The lines with the newest first.
pub open spec fn spec_newest_first(lines: Seq<SalesCart>) -> Seq<SalesCart> {
    arranged(lines, recency_keys(lines))
}

/// The lines of the cart of this user in this store, the newest first.
pub open spec fn spec_cart_lines(rows: Seq<SalesCart>, user_id: i32, store_id: i32) -> Seq<
    SalesCart,
> {
    spec_newest_first(rows.filter(of_cart(user_id, store_id)))
}

/// The lines with the newest first are as many as the lines and hold each
/// of them, and no line stands before a line that was added later, nor
/// before a line of the same instant with a larger id.
pub proof fn lemma_newest_first(lines: Seq<SalesCart>)
    ensures
        spec_newest_first(lines).len() == lines.len(),
        forall|i: int, j: int|
            0 <= i < j < lines.len() ==> {
                let a = #[trigger] spec_newest_first(lines)[i];
                let b = #[trigger] spec_newest_first(lines)[j];
                a.created_at.micros > b.created_at.micros || (a.created_at.micros
                    == b.created_at.micros && a.id >= b.id)
            },
        forall|x: int|
            0 <= x < lines.len() ==> spec_newest_first(lines).contains(#[trigger] lines[x]),
{
    let keys = recency_keys(lines);
    lemma_order(keys);
    let order = spec_order(keys);
    assert forall|i: int, j: int| 0 <= i < j < lines.len() implies {
        let a = #[trigger] spec_newest_first(lines)[i];
        let b = #[trigger] spec_newest_first(lines)[j];
        a.created_at.micros > b.created_at.micros || (a.created_at.micros == b.created_at.micros
            && a.id >= b.id)
    } by {
        assert(0 <= order[i] < lines.len());
        assert(0 <= order[j] < lines.len());
        assert(keys[order[i]] == (lines[order[i]].created_at.micros, lines[order[i]].id as i64));
        assert(keys[order[j]] == (lines[order[j]].created_at.micros, lines[order[j]].id as i64));
    }
    assert forall|x: int| 0 <= x < lines.len() implies spec_newest_first(lines).contains(
        #[trigger] lines[x],
    ) by {
        assert(order.contains(x));
        let i = choose|i: int| 0 <= i < order.len() && order[i] == x;
        assert(spec_newest_first(lines)[i] == lines[x]);
    }
}

/// Taking out a line that the table does not hold as a line of this user
/// leaves every line where it is: the carts of others are not touched.
pub proof fn lemma_foreign_delete_changes_nothing(rows: Seq<SalesCart>, id: i32, user_id: i32)
    requires
        !has_line(rows, id, user_id),
    ensures
        rows.filter(not_line(id, user_id)) == rows,
{
    assert forall|i: int| 0 <= i < rows.len() implies not_line(id, user_id)(#[trigger] rows[i]) by {
        if rows[i].id == id && rows[i].user_id == user_id {
            assert(has_line(rows, id, user_id));
        }
    }
    lemma_filter_all(rows, not_line(id, user_id));
}

/// Clearing a cart that holds no line leaves every line where it is.
pub proof fn lemma_clear_of_empty_cart_changes_nothing(
    rows: Seq<SalesCart>,
    user_id: i32,
    store_id: i32,
)
    requires
        !has_cart(rows, user_id, store_id),
    ensures
        rows.filter(not_of_cart(user_id, store_id)) == rows,
{
    assert forall|i: int| 0 <= i < rows.len() implies not_of_cart(user_id, store_id)(
        #[trigger] rows[i],
    ) by {
        if rows[i].user_id == user_id && rows[i].store_id == store_id {
            assert(has_cart(rows, user_id, store_id));
        }
    }
    lemma_filter_all(rows, not_of_cart(user_id, store_id));
}

/// The lines with the newest first.
pub fn newest_first(lines: &Vec<SalesCart>) -> (r: Vec<SalesCart>)
    ensures
        r@ == spec_newest_first(lines@),
        r.len() == lines.len(),
{
    let mut keys: Vec<SortKey> = Vec::new();
    let mut i: usize = 0;
    while i < lines.len()
        invariant
            i <= lines.len(),
            keys@ == recency_keys(lines@).take(i as int),
        decreases lines.len() - i,
    {
        keys.push((lines[i].created_at.micros, lines[i].id as i64));
        proof {
            assert(keys@ == recency_keys(lines@).take(i + 1));
        }
        i += 1;
    }
    proof {
        assert(keys@ == recency_keys(lines@));
    }
    let order = order_of(&keys);
    let mut out: Vec<SalesCart> = Vec::new();
    let mut k: usize = 0;
    while k < order.len()
        invariant
            k <= order.len(),
            order.len() == lines.len(),
            forall|j: int| 0 <= j < order.len() ==> #[trigger] order[j] < lines.len(),
            order@.map_values(|i: usize| i as int) == spec_order(recency_keys(lines@)),
            out@ == spec_newest_first(lines@).take(k as int),
        decreases order.len() - k,
    {
        out.push(lines[order[k]]);
        proof {
            assert(order@.map_values(|i: usize| i as int)[k as int] == order[k as int]);
            assert(out@ == spec_newest_first(lines@).take(k + 1));
        }
        k += 1;
    }
    proof {
        assert(out@ == spec_newest_first(lines@));
    }
    out
}

/// The lines of the cart of this user in this store, in table order.
pub fn select_cart(rows: &Vec<SalesCart>, user_id: i32, store_id: i32) -> (r: Vec<SalesCart>)
    ensures
        r@ == rows@.filter(of_cart(user_id, store_id)),
        r.len() > 0 <==> has_cart(rows@, user_id, store_id),
{
    let mut out: Vec<SalesCart> = Vec::new();
    let mut i: usize = 0;
    proof {
        reveal(Seq::filter);
        assert(rows@.take(0).filter(of_cart(user_id, store_id)) == Seq::<SalesCart>::empty());
    }
    while i < rows.len()
        invariant
            i <= rows.len(),
            out@ == rows@.take(i as int).filter(of_cart(user_id, store_id)),
            out.len() > 0 <==> has_cart(rows@.take(i as int), user_id, store_id),
        decreases rows.len() - i,
    {
        proof {
            lemma_filter_next(rows@, of_cart(user_id, store_id), i as int);
            let before = rows@.take(i as int);
            let after = rows@.take(i + 1);
            if has_cart(after, user_id, store_id) && !has_cart(before, user_id, store_id) {
                let j = choose|j: int|
                    0 <= j < after.len() && (#[trigger] after[j]).user_id == user_id
                        && after[j].store_id == store_id;
                if j < i {
                    assert(before[j].user_id == user_id);
                }
            }
            if has_cart(before, user_id, store_id) {
                let j = choose|j: int|
                    0 <= j < before.len() && (#[trigger] before[j]).user_id == user_id
                        && before[j].store_id == store_id;
                assert(after[j].user_id == user_id);
            }
            if rows[i as int].user_id == user_id && rows[i as int].store_id == store_id {
                assert(after[i as int].user_id == user_id);
            }
        }
        if rows[i].user_id == user_id && rows[i].store_id == store_id {
            out.push(rows[i]);
        }
        i += 1;
    }
    proof {
        assert(rows@.take(i as int) == rows@);
    }
    out
}

/// The rows that are left when the cart of this user in this store is taken
/// out.
pub fn without_cart(rows: &Vec<SalesCart>, user_id: i32, store_id: i32) -> (r: Vec<SalesCart>)
    ensures
        r@ == rows@.filter(not_of_cart(user_id, store_id)),
        r.len() <= rows.len(),
        r.len() < rows.len() <==> has_cart(rows@, user_id, store_id),
        forall|next: int| serial_ids(cart_ids(rows@), next) ==> serial_ids(cart_ids(r@), next),
        prices_not_negative(rows@) ==> prices_not_negative(r@),
{
    let mut out: Vec<SalesCart> = Vec::new();
    let ghost mut from: Seq<int> = Seq::empty();
    let mut i: usize = 0;
    proof {
        reveal(Seq::filter);
        assert(rows@.take(0).filter(not_of_cart(user_id, store_id)) == Seq::<SalesCart>::empty());
    }
    while i < rows.len()
        invariant
            i <= rows.len(),
            out@ == rows@.take(i as int).filter(not_of_cart(user_id, store_id)),
            out.len() <= i,
            out.len() < i <==> has_cart(rows@.take(i as int), user_id, store_id),
            from.len() == out.len(),
            forall|k: int| 0 <= k < from.len() ==> 0 <= #[trigger] from[k] < i,
            forall|k: int, m: int|
                0 <= k < m < from.len() ==> #[trigger] from[k] < #[trigger] from[m],
            forall|k: int| 0 <= k < out.len() ==> #[trigger] out[k] == rows[from[k]],
        decreases rows.len() - i,
    {
        proof {
            lemma_filter_next(rows@, not_of_cart(user_id, store_id), i as int);
            let before = rows@.take(i as int);
            let after = rows@.take(i + 1);
            if has_cart(after, user_id, store_id) && !has_cart(before, user_id, store_id) {
                let j = choose|j: int|
                    0 <= j < after.len() && (#[trigger] after[j]).user_id == user_id
                        && after[j].store_id == store_id;
                if j < i {
                    assert(before[j].user_id == user_id);
                }
            }
            if has_cart(before, user_id, store_id) {
                let j = choose|j: int|
                    0 <= j < before.len() && (#[trigger] before[j]).user_id == user_id
                        && before[j].store_id == store_id;
                assert(after[j].user_id == user_id);
            }
            if rows[i as int].user_id == user_id && rows[i as int].store_id == store_id {
                assert(after[i as int].user_id == user_id);
            }
        }
        if !(rows[i].user_id == user_id && rows[i].store_id == store_id) {
            out.push(rows[i]);
            proof {
                from = from.push(i as int);
            }
        }
        i += 1;
    }
    proof {
        assert(rows@.take(i as int) == rows@);
        assert forall|next: int| serial_ids(cart_ids(rows@), next) implies serial_ids(
            cart_ids(out@),
            next,
        ) by {
            lemma_kept_ids_serial(cart_ids(rows@), cart_ids(out@), from, next);
        }
        if prices_not_negative(rows@) {
            assert forall|k: int| 0 <= k < out@.len() implies (
            #[trigger] out@[k]).sale_price.ticks() >= 0 by {
                assert(out@[k] == rows@[from[k]]);
            }
        }
    }
    out
}

/// The rows that are left when the line `id` of this user is taken out.
pub fn without_line(rows: &Vec<SalesCart>, id: i32, user_id: i32) -> (r: Vec<SalesCart>)
    ensures
        r@ == rows@.filter(not_line(id, user_id)),
        r.len() <= rows.len(),
        r.len() < rows.len() <==> has_line(rows@, id, user_id),
        forall|next: int| serial_ids(cart_ids(rows@), next) ==> serial_ids(cart_ids(r@), next),
        prices_not_negative(rows@) ==> prices_not_negative(r@),
{
    let mut out: Vec<SalesCart> = Vec::new();
    let ghost mut from: Seq<int> = Seq::empty();
    let mut i: usize = 0;
    proof {
        reveal(Seq::filter);
        assert(rows@.take(0).filter(not_line(id, user_id)) == Seq::<SalesCart>::empty());
    }
    while i < rows.len()
        invariant
            i <= rows.len(),
            out@ == rows@.take(i as int).filter(not_line(id, user_id)),
            out.len() <= i,
            out.len() < i <==> has_line(rows@.take(i as int), id, user_id),
            from.len() == out.len(),
            forall|k: int| 0 <= k < from.len() ==> 0 <= #[trigger] from[k] < i,
            forall|k: int, m: int|
                0 <= k < m < from.len() ==> #[trigger] from[k] < #[trigger] from[m],
            forall|k: int| 0 <= k < out.len() ==> #[trigger] out[k] == rows[from[k]],
        decreases rows.len() - i,
    {
        proof {
            lemma_filter_next(rows@, not_line(id, user_id), i as int);
            let before = rows@.take(i as int);
            let after = rows@.take(i + 1);
            if has_line(after, id, user_id) && !has_line(before, id, user_id) {
                let j = choose|j: int|
                    0 <= j < after.len() && (#[trigger] after[j]).id == id && after[j].user_id
                        == user_id;
                if j < i {
                    assert(before[j].id == id);
                }
            }
            if has_line(before, id, user_id) {
                let j = choose|j: int|
                    0 <= j < before.len() && (#[trigger] before[j]).id == id && before[j].user_id
                        == user_id;
                assert(after[j].id == id);
            }
            if rows[i as int].id == id && rows[i as int].user_id == user_id {
                assert(after[i as int].id == id);
            }
        }
        if !(rows[i].id == id && rows[i].user_id == user_id) {
            out.push(rows[i]);
            proof {
                from = from.push(i as int);
            }
        }
        i += 1;
    }
    proof {
        assert(rows@.take(i as int) == rows@);
        assert forall|next: int| serial_ids(cart_ids(rows@), next) implies serial_ids(
            cart_ids(out@),
            next,
        ) by {
            lemma_kept_ids_serial(cart_ids(rows@), cart_ids(out@), from, next);
        }
        if prices_not_negative(rows@) {
            assert forall|k: int| 0 <= k < out@.len() implies (
            #[trigger] out@[k]).sale_price.ticks() >= 0 by {
                assert(out@[k] == rows@[from[k]]);
            }
        }
    }
    out
}

/// Whether a statement that deleted `rows_affected` rows removed anything.
pub fn removed_any(rows_affected: u64) -> (r: bool)
    ensures
        r == (rows_affected > 0),
{
    rows_affected > 0
}

/// Removes the line `cart_item_id` where it is a line of this user, and tells
/// whether a line was removed. A line of another user stays, and so does
/// every other line.
pub fn delete_from_cart(db: &mut Database, cart_item_id: i32, user_id: i32) -> (r: Result<
    bool,
    ServiceError,
>)
    requires
        old(db).wf(),
    ensures
        final(db).wf(),
        r matches Ok(removed) && removed == has_line(old(db).sales_cart@, cart_item_id, user_id),
        final(db).sales_cart@ == old(db).sales_cart@.filter(not_line(cart_item_id, user_id)),
        final(db).next_cart_id == old(db).next_cart_id,
        final(db).same_orders(old(db)),
        final(db).same_catalog(old(db)),
{
    let kept = without_line(&db.sales_cart, cart_item_id, user_id);
    let removed = kept.len() < db.sales_cart.len();
    db.sales_cart = kept;
    Ok(removed)
}

/// Removes every line of the cart of this user in this store, and tells
/// whether a line was removed. The lines of other carts stay.
pub fn clear_cart(db: &mut Database, user_id: i32, store_id: i32) -> (r: Result<
    bool,
    ServiceError,
>)
    requires
        old(db).wf(),
    ensures
        final(db).wf(),
        r matches Ok(removed) && removed == has_cart(old(db).sales_cart@, user_id, store_id),
        final(db).sales_cart@ == old(db).sales_cart@.filter(not_of_cart(user_id, store_id)),
        final(db).next_cart_id == old(db).next_cart_id,
        final(db).same_orders(old(db)),
        final(db).same_catalog(old(db)),
{
    let kept = without_cart(&db.sales_cart, user_id, store_id);
    let removed = kept.len() < db.sales_cart.len();
    db.sales_cart = kept;
    Ok(removed)
}

/// Whether a new line can be taken: the ids of its store and product are
/// positive, and a sale price that it brings along is not negative.
pub open spec fn valid_new_line(item: NewSalesCart) -> bool {
    &&& item.store_id > 0
    &&& item.product_id > 0
    &&& item.sale_price matches Some(price) ==> price.ticks() >= 0
}

/// The kind of discount of a new line: a fixed one where none is given.
pub open spec fn new_line_discount_type(item: NewSalesCart) -> DiscountType {
    match item.discount_type {
        Some(kind) => kind,
        None => DiscountType::Fixed,
    }
}

/// The discount value of a new line: nothing where none is given.
pub open spec fn new_line_discount_value(item: NewSalesCart) -> i32 {
    match item.discount_value {
        Some(value) => value,
        None => 0,
    }
}

/// The discount and the sale price that a new line is stored with. An amount
/// that the line brings along is kept as it is; one that it leaves out
/// follows from the discount rule. `None` where the decimal arithmetic
/// overflows.
pub open spec fn spec_new_line_pricing(item: NewSalesCart) -> Option<Pricing> {
    let discount = match item.discount_amount {
        Some(amount) => Some(amount),
        None => spec_discount_amount(
            item.base_price,
            new_line_discount_type(item),
            new_line_discount_value(item) as int,
        ),
    };
    match discount {
        Some(discount_amount) => {
            let price = match item.sale_price {
                Some(price) => Some(price),
                None => spec_sale_price(item.base_price, discount_amount),
            };
            match price {
                Some(sale_price) => Some(Pricing { discount_amount, sale_price }),
                None => None,
            }
        },
        None => None,
    }
}

/// The row that a new line becomes.
pub open spec fn spec_new_line(
    item: NewSalesCart,
    user_id: i32,
    id: i32,
    now: Timestamp,
    pricing: Pricing,
) -> SalesCart {
    SalesCart {
        id,
        user_id,
        store_id: item.store_id,
        product_id: item.product_id,
        base_price: item.base_price,
        qty: item.qty,
        discount_type: new_line_discount_type(item),
        discount_value: new_line_discount_value(item),
        discount_amount: pricing.discount_amount,
        sale_price: pricing.sale_price,
        created_at: now,
        updated_at: now,
    }
}

/// What adding a line at the instant `now` does to the tables, and what it
/// returns.
///
/// A line that is not valid is refused as a validation error; one whose
/// amounts cannot be computed, or for which no id is left, as a database
/// error. A refusal leaves the tables as they were. Otherwise the line is
/// stored behind the others, under the next id of the table, and returned as
/// it was stored.
pub open spec fn add_outcome(
    before: Database,
    after: Database,
    item: NewSalesCart,
    user_id: i32,
    now: Timestamp,
    r: Result<SalesCart, ServiceError>,
) -> bool {
    if !valid_new_line(item) {
        r matches Err(ServiceError::ValidationError(_)) && after == before
    } else if spec_new_line_pricing(item) is None || before.next_cart_id == i32::MAX {
        r matches Err(ServiceError::DatabaseError(_)) && after == before
    } else {
        &&& r matches Ok(line)
        &&& line == spec_new_line(
            item,
            user_id,
            before.next_cart_id,
            now,
            spec_new_line_pricing(item)->0,
        )
        &&& after.sales_cart@ == before.sales_cart@.push(line)
        &&& after.next_cart_id == before.next_cart_id + 1
        &&& after.same_orders(&before)
        &&& after.same_catalog(&before)
    }
}

/// Checks a new line and works out the discount and the sale price that it
/// is stored with.
///
/// The sale price that comes out is never negative.
pub fn price_new_line(item: &NewSalesCart) -> (r: Result<Pricing, ServiceError>)
    ensures
        !valid_new_line(*item) ==> r matches Err(ServiceError::ValidationError(_)),
        valid_new_line(*item) && spec_new_line_pricing(*item) is None ==> r matches Err(
            ServiceError::DatabaseError(_),
        ),
        valid_new_line(*item) && spec_new_line_pricing(*item) is Some ==> r is Ok && Some(r->Ok_0)
            == spec_new_line_pricing(*item),
        r matches Ok(p) ==> p.sale_price.ticks() >= 0,
{
    if item.store_id <= 0 || item.product_id <= 0 {
        return Err(
            ServiceError::ValidationError("store_id and product_id must be positive".to_owned()),
        );
    }
    if let Some(price) = item.sale_price {
        if price.is_negative() {
            return Err(ServiceError::ValidationError("sale_price must not be negative".to_owned()));
        }
    }
    let kind = match item.discount_type {
        Some(kind) => kind,
        None => DiscountType::Fixed,
    };
    let value = match item.discount_value {
        Some(value) => value,
        None => 0,
    };
    let discount = match item.discount_amount {
        Some(amount) => Some(amount),
        None => discount_amount(item.base_price, kind, value),
    };
    match discount {
        Some(discount_amount) => {
            let price = match item.sale_price {
                Some(price) => Some(price),
                None => sale_price(item.base_price, discount_amount),
            };
            match price {
                Some(sale_price) => Ok(Pricing { discount_amount, sale_price }),
                None => Err(ServiceError::DatabaseError("numeric field overflow".to_owned())),
            }
        },
        None => Err(ServiceError::DatabaseError("numeric field overflow".to_owned())),
    }
}

/// Adds a line to the cart of `user_id` at the instant `now`.
pub fn add_to_cart_at(
    db: &mut Database,
    new_cart_item: NewSalesCart,
    user_id: i32,
    now: Timestamp,
) -> (r: Result<SalesCart, ServiceError>)
    requires
        old(db).wf(),
    ensures
        final(db).wf(),
        add_outcome(*old(db), *final(db), new_cart_item, user_id, now, r),
{
    let pricing = match price_new_line(&new_cart_item) {
        Ok(pricing) => pricing,
        Err(e) => {
            return Err(e);
        },
    };
    if db.next_cart_id == i32::MAX {
        return Err(ServiceError::DatabaseError("integer out of range".to_owned()));
    }
    let kind = match new_cart_item.discount_type {
        Some(kind) => kind,
        None => DiscountType::Fixed,
    };
    let value = match new_cart_item.discount_value {
        Some(value) => value,
        None => 0,
    };
    let line = SalesCart {
        id: db.next_cart_id,
        user_id,
        store_id: new_cart_item.store_id,
        product_id: new_cart_item.product_id,
        base_price: new_cart_item.base_price,
        qty: new_cart_item.qty,
        discount_type: kind,
        discount_value: value,
        discount_amount: pricing.discount_amount,
        sale_price: pricing.sale_price,
        created_at: now,
        updated_at: now,
    };
    db.next_cart_id = db.next_cart_id + 1;
    db.sales_cart.push(line);
    proof {
        let ids = cart_ids(db.sales_cart@);
        let before = cart_ids(old(db).sales_cart@);
        assert forall|i: int| 0 <= i < ids.len() implies 1 <= #[trigger] ids[i]
            < db.next_cart_id by {
            if i < before.len() {
                assert(ids[i] == before[i]);
            }
        }
        assert forall|i: int, j: int| 0 <= i < j < ids.len() implies #[trigger] ids[i]
            < #[trigger] ids[j] by {
            assert(ids[i] == before[i]);
            if j < before.len() {
                assert(ids[j] == before[j]);
            }
        }
    }
    Ok(line)
}

/// Adds a line to the cart of `user_id`, at the present instant.
pub fn add_to_cart(db: &mut Database, new_cart_item: NewSalesCart, user_id: i32) -> (r: Result<
    SalesCart,
    ServiceError,
>)
    requires
        old(db).wf(),
    ensures
        final(db).wf(),
        exists|now: Timestamp| add_outcome(*old(db), *final(db), new_cart_item, user_id, now, r),
{
    let now = utc_now();
    add_to_cart_at(db, new_cart_item, user_id, now)
}

/// The line with the fields of `update` laid over it, before its amounts are
/// worked out again.
pub open spec fn spec_overlaid(current: SalesCart, update: UpdateSalesCart) -> SalesCart {
    SalesCart {
        base_price: match update.base_price {
            Some(price) => price,
            None => current.base_price,
        },
        qty: match update.qty {
            Some(qty) => qty,
            None => current.qty,
        },
        discount_type: match update.discount_type {
            Some(kind) => kind,
            None => current.discount_type,
        },
        discount_value: match update.discount_value {
            Some(value) => value,
            None => current.discount_value,
        },
        ..current
    }
}

/// The line after an update at the instant `now`: the fields of `update`
/// laid over it, and the discount and the sale price that follow from the
/// discount rule. `None` where the decimal arithmetic overflows.
pub open spec fn spec_updated_line(
    current: SalesCart,
    update: UpdateSalesCart,
    now: Timestamp,
) -> Option<SalesCart> {
    let merged = spec_overlaid(current, update);
    match spec_compute(merged.base_price, merged.discount_type, merged.discount_value as int) {
        Some(pricing) => Some(
            SalesCart {
                discount_amount: pricing.discount_amount,
                sale_price: pricing.sale_price,
                updated_at: now,
                ..merged
            },
        ),
        None => None,
    }
}

/// What updating the line `id` of `user_id` at the instant `now` does to the
/// tables, and what it returns.
///
/// Where the table holds no such line of this user, the answer is that
/// nothing was found. Where the amounts cannot be computed, it is a database
/// error. Both leave the tables as they were. Otherwise the line is replaced
/// where it stands by the updated line, which is returned.
pub open spec fn update_outcome(
    before: Database,
    after: Database,
    id: i32,
    user_id: i32,
    update: UpdateSalesCart,
    now: Timestamp,
    r: Result<SalesCart, ServiceError>,
) -> bool {
    if !has_line(before.sales_cart@, id, user_id) {
        r matches Err(ServiceError::NotFound) && after == before
    } else {
        exists|i: int|
            {
                &&& 0 <= i < before.sales_cart@.len()
                &&& (#[trigger] before.sales_cart@[i]).id == id
                &&& before.sales_cart@[i].user_id == user_id
                &&& match spec_updated_line(before.sales_cart@[i], update, now) {
                    None => r matches Err(ServiceError::DatabaseError(_)) && after == before,
                    Some(line) => {
                        &&& r == Ok::<SalesCart, ServiceError>(line)
                        &&& after.sales_cart@ == before.sales_cart@.update(i, line)
                        &&& after.next_cart_id == before.next_cart_id
                        &&& after.same_orders(&before)
                        &&& after.same_catalog(&before)
                    },
                }
            }
    }
}

/// The line after an update at the instant `now`.
///
/// The sale price that comes out is never negative.
pub fn updated_line(current: &SalesCart, update: &UpdateSalesCart, now: Timestamp) -> (r: Option<
    SalesCart,
>)
    ensures
        r == spec_updated_line(*current, *update, now),
        r matches Some(line) ==> line.id == current.id && line.user_id == current.user_id
            && line.sale_price.ticks() >= 0,
{
    let base_price = match update.base_price {
        Some(price) => price,
        None => current.base_price,
    };
    let qty = match update.qty {
        Some(qty) => qty,
        None => current.qty,
    };
    let discount_type = match update.discount_type {
        Some(kind) => kind,
        None => current.discount_type,
    };
    let discount_value = match update.discount_value {
        Some(value) => value,
        None => current.discount_value,
    };
    match compute(base_price, discount_type, discount_value) {
        Some(pricing) => Some(
            SalesCart {
                id: current.id,
                user_id: current.user_id,
                store_id: current.store_id,
                product_id: current.product_id,
                base_price,
                qty,
                discount_type,
                discount_value,
                discount_amount: pricing.discount_amount,
                sale_price: pricing.sale_price,
                created_at: current.created_at,
                updated_at: now,
            },
        ),
        None => None,
    }
}

/// The place of the line `id` of this user in the table.
pub fn find_line(rows: &Vec<SalesCart>, id: i32, user_id: i32) -> (r: Option<usize>)
    ensures
        r is Some <==> has_line(rows@, id, user_id),
        r matches Some(i) ==> i < rows.len() && rows[i as int].id == id && rows[i as int].user_id
            == user_id,
{
    let mut i: usize = 0;
    while i < rows.len()
        invariant
            i <= rows.len(),
            forall|j: int|
                0 <= j < i ==> !((#[trigger] rows[j]).id == id && rows[j].user_id == user_id),
        decreases rows.len() - i,
    {
        if rows[i].id == id && rows[i].user_id == user_id {
            return Some(i);
        }
        i += 1;
    }
    None
}

/// Updates the line `cart_item_id` of `user_id` at the instant `now`.
pub fn update_cart_item_at(
    db: &mut Database,
    cart_item_id: i32,
    user_id: i32,
    update_data: UpdateSalesCart,
    now: Timestamp,
) -> (r: Result<SalesCart, ServiceError>)
    requires
        old(db).wf(),
    ensures
        final(db).wf(),
        update_outcome(*old(db), *final(db), cart_item_id, user_id, update_data, now, r),
{
    let i = match find_line(&db.sales_cart, cart_item_id, user_id) {
        Some(i) => i,
        None => {
            return Err(ServiceError::NotFound);
        },
    };
    let line = match updated_line(&db.sales_cart[i], &update_data, now) {
        Some(line) => line,
        None => {
            return Err(ServiceError::DatabaseError("numeric field overflow".to_owned()));
        },
    };
    db.sales_cart.set(i, line);
    proof {
        let ids = cart_ids(db.sales_cart@);
        let before = cart_ids(old(db).sales_cart@);
        assert(ids =~= before);
        assert(old(db).sales_cart@[i as int].id == cart_item_id);
    }
    Ok(line)
}

/// Updates the line `cart_item_id` of `user_id`, at the present instant.
pub fn update_cart_item(
    db: &mut Database,
    cart_item_id: i32,
    user_id: i32,
    update_data: UpdateSalesCart,
) -> (r: Result<SalesCart, ServiceError>)
    requires
        old(db).wf(),
    ensures
        final(db).wf(),
        exists|now: Timestamp|
            update_outcome(*old(db), *final(db), cart_item_id, user_id, update_data, now, r),
{
    let now = utc_now();
    update_cart_item_at(db, cart_item_id, user_id, update_data, now)
}

/// A line with the name and the unit of its product.
pub open spec fn spec_cart_response(line: SalesCart, product: Product) -> SalesCartResponse {
    SalesCartResponse {
        id: line.id,
        user_id: line.user_id,
        store_id: line.store_id,
        product_id: line.product_id,
        product_name: product.name,
        unit_name: product.unit_name,
        base_price: line.base_price,
        qty: line.qty,
        discount_type: line.discount_type,
        discount_value: line.discount_value,
        discount_amount: line.discount_amount,
        sale_price: line.sale_price,
        created_at: line.created_at,
        updated_at: line.updated_at,
    }
}

/// A line with its product, where the catalog holds it.
pub open spec fn with_product(products: Seq<Product>) -> spec_fn(SalesCart) -> Option<
    SalesCartResponse,
> {
    |line: SalesCart|
        match spec_find_product(products, line.product_id) {
            Some(product) => Some(spec_cart_response(line, product)),
            None => None,
        }
}

/// What is listed of the cart of this user in this store: its lines, the
/// newest first, each with the name and the unit of its product. A line
/// whose product the catalog does not hold is left out.
pub open spec fn spec_cart_items(db: Database, user_id: i32, store_id: i32) -> Seq<
    SalesCartResponse,
> {
    spec_cart_lines(db.sales_cart@, user_id, store_id).filter_map(with_product(db.products@))
}

/// Lists the cart of this user in this store.
pub fn get_cart_items(db: &Database, user_id: i32, store_id: i32) -> (r: Result<
    Vec<SalesCartResponse>,
    ServiceError,
>)
    ensures
        r matches Ok(items) && items@ == spec_cart_items(*db, user_id, store_id),
{
    let mine = select_cart(&db.sales_cart, user_id, store_id);
    let lines = newest_first(&mine);
    let mut out: Vec<SalesCartResponse> = Vec::new();
    let mut i: usize = 0;
    proof {
        assert(lines@.take(0).filter_map(with_product(db.products@)) == Seq::<
            SalesCartResponse,
        >::empty());
    }
    while i < lines.len()
        invariant
            i <= lines.len(),
            out@ == lines@.take(i as int).filter_map(with_product(db.products@)),
        decreases lines.len() - i,
    {
        let line = lines[i];
        proof {
            lines@.lemma_filter_map_take_succ(with_product(db.products@), i as int);
        }
        match db.find_product(line.product_id) {
            Some(product) => {
                let unit_name = match &product.unit_name {
                    Some(unit) => Some(unit.clone()),
                    None => None,
                };
                out.push(
                    SalesCartResponse {
                        id: line.id,
                        user_id: line.user_id,
                        store_id: line.store_id,
                        product_id: line.product_id,
                        product_name: product.name.clone(),
                        unit_name,
                        base_price: line.base_price,
                        qty: line.qty,
                        discount_type: line.discount_type,
                        discount_value: line.discount_value,
                        discount_amount: line.discount_amount,
                        sale_price: line.sale_price,
                        created_at: line.created_at,
                        updated_at: line.updated_at,
                    },
                );
            },
            None => {},
        }
        i += 1;
    }
    proof {
        assert(lines@.take(i as int) == lines@);
    }
    Ok(out)
}

} // verus!
