//! Putting rows in order.
//!
//! Rows are ordered by a pair of numbers, the larger pair first: first by the
//! first number, then by the second. Rows with the same pair keep the order
//! in which they stand in their table.

use vstd::prelude::*;

verus! {

/// The pair of numbers by which a row is ordered.
pub type SortKey = (i64, i64);

/// Whether a row with key `a` may stand before one with key `b`: `a` is the
/// larger pair, or the two are the same.
pub open spec fn stands_before(a: SortKey, b: SortKey) -> bool {
    a.0 > b.0 || (a.0 == b.0 && a.1 >= b.1)
}

/// `order` with the index `k` put in: behind every index whose key may stand
/// before that of `k`, and before the others.
pub open spec fn spec_put_in(keys: Seq<SortKey>, order: Seq<int>, k: int) -> Seq<int>
    decreases order.len(),
{
    if order.len() == 0 {
        seq![k]
    } else if stands_before(keys[order.last()], keys[k]) {
        order.push(k)
    } else {
        spec_put_in(keys, order.drop_last(), k).push(order.last())
    }
}

/// The indices of `keys` in the order of their keys, the larger key first;
/// indices with the same key in rising order.
pub open spec fn spec_order(keys: Seq<SortKey>) -> Seq<int>
    decreases keys.len(),
{
    if keys.len() == 0 {
        Seq::<int>::empty()
    } else {
        spec_put_in(keys, spec_order(keys.drop_last()), keys.len() - 1)
    }
}

/// The rows in the order of their keys.
pub open spec fn arranged<T>(rows: Seq<T>, keys: Seq<SortKey>) -> Seq<T>
    recommends
        rows.len() == keys.len(),
{
    Seq::new(rows.len(), |i: int| rows[spec_order(keys)[i]])
}

/// Whether `order` lists indices below `n`, none of them twice.
pub open spec fn distinct_indices(order: Seq<int>, n: int) -> bool {
    &&& forall|i: int| 0 <= i < order.len() ==> 0 <= #[trigger] order[i] < n
    &&& forall|i: int, j: int|
        0 <= i < j < order.len() ==> #[trigger] order[i] != #[trigger] order[j]
}

/// Whether `order` lists its indices by their keys, the larger key first,
/// and indices with the same key in rising order.
pub open spec fn in_order(keys: Seq<SortKey>, order: Seq<int>) -> bool {
    forall|i: int, j: int|
        0 <= i < j < order.len() ==> {
            &&& stands_before(keys[#[trigger] order[i]], keys[#[trigger] order[j]])
            &&& keys[order[i]] == keys[order[j]] ==> order[i] < order[j]
        }
}

/// Putting `k` in keeps what was listed, adds `k`, and keeps the order by
/// keys, given that `k` is larger than every index listed.
pub proof fn lemma_put_in(keys: Seq<SortKey>, order: Seq<int>, k: int)
    requires
        0 <= k < keys.len(),
        distinct_indices(order, k),
        in_order(keys, order),
    ensures
        spec_put_in(keys, order, k).len() == order.len() + 1,
        distinct_indices(spec_put_in(keys, order, k), k + 1),
        in_order(keys, spec_put_in(keys, order, k)),
        forall|x: int| #[trigger]
            spec_put_in(keys, order, k).contains(x) <==> (x == k || order.contains(x)),
    decreases order.len(),
{
    let out = spec_put_in(keys, order, k);
    if order.len() == 0 {
        assert forall|x: int| #[trigger] out.contains(x) <==> (x == k || order.contains(x)) by {
            if x == k {
                assert(out[0] == k);
            }
        }
    } else if stands_before(keys[order.last()], keys[k]) {
        assert forall|x: int| #[trigger] out.contains(x) <==> (x == k || order.contains(x)) by {
            if x == k {
                assert(out[order.len() as int] == k);
            }
            if order.contains(x) {
                let i = choose|i: int| 0 <= i < order.len() && order[i] == x;
                assert(out[i] == x);
            }
        }
        assert forall|i: int, j: int| 0 <= i < j < out.len() implies {
            &&& stands_before(keys[#[trigger] out[i]], keys[#[trigger] out[j]])
            &&& keys[out[i]] == keys[out[j]] ==> out[i] < out[j]
        } by {
            if j == order.len() {
                if i < order.len() - 1 {
                    assert(stands_before(keys[order[i]], keys[order[order.len() - 1]]));
                }
            }
        }
    } else {
        let rest = order.drop_last();
        let last = order.last();
        lemma_put_in(keys, rest, k);
        let inner = spec_put_in(keys, rest, k);
        assert(out == inner.push(last));
        assert forall|x: int| #[trigger] out.contains(x) <==> (x == k || order.contains(x)) by {
            if out.contains(x) {
                let i = choose|i: int| 0 <= i < out.len() && out[i] == x;
                if i < inner.len() {
                    assert(inner.contains(x));
                    if x != k {
                        let j = choose|j: int| 0 <= j < rest.len() && rest[j] == x;
                        assert(order[j] == x);
                    }
                } else {
                    assert(order[order.len() - 1] == x);
                }
            }
            if x == k {
                assert(inner.contains(k));
                let i = choose|i: int| 0 <= i < inner.len() && inner[i] == k;
                assert(out[i] == k);
            }
            if order.contains(x) {
                let j = choose|j: int| 0 <= j < order.len() && order[j] == x;
                if j < rest.len() {
                    assert(rest[j] == x);
                    assert(rest.contains(x));
                    assert(inner.contains(x));
                    let i = choose|i: int| 0 <= i < inner.len() && inner[i] == x;
                    assert(out[i] == x);
                } else {
                    assert(out[inner.len() as int] == x);
                }
            }
        }
        assert forall|i: int| 0 <= i < out.len() implies 0 <= #[trigger] out[i] < k + 1 by {
            if i < inner.len() {
                assert(out[i] == inner[i]);
            }
        }
        assert forall|i: int, j: int| 0 <= i < j < out.len() implies #[trigger] out[i]
            != #[trigger] out[j] by {
            if j == inner.len() {
                assert(out[i] == inner[i]);
                assert(inner.contains(out[i]));
                if out[i] != k {
                    let m = choose|m: int| 0 <= m < rest.len() && rest[m] == out[i];
                    assert(order[m] != order[order.len() - 1]);
                }
            } else {
                assert(out[i] == inner[i] && out[j] == inner[j]);
            }
        }
        assert forall|i: int, j: int| 0 <= i < j < out.len() implies {
            &&& stands_before(keys[#[trigger] out[i]], keys[#[trigger] out[j]])
            &&& keys[out[i]] == keys[out[j]] ==> out[i] < out[j]
        } by {
            if j == inner.len() {
                assert(out[i] == inner[i]);
                assert(inner.contains(out[i]));
                if out[i] != k {
                    let m = choose|m: int| 0 <= m < rest.len() && rest[m] == out[i];
                    assert(order[m] == out[i]);
                    assert(stands_before(keys[order[m]], keys[order[order.len() - 1]]));
                }
            } else {
                assert(out[i] == inner[i] && out[j] == inner[j]);
            }
        }
    }
}

/// Indices below `n` have the same key in `keys.take(n)` as in `keys`, so
/// putting one in gives the same over both.
pub proof fn lemma_put_in_prefix(keys: Seq<SortKey>, n: int, order: Seq<int>, k: int)
    requires
        0 <= k < n <= keys.len(),
        forall|i: int| 0 <= i < order.len() ==> 0 <= #[trigger] order[i] < n,
    ensures
        spec_put_in(keys.take(n), order, k) == spec_put_in(keys, order, k),
    decreases order.len(),
{
    if order.len() > 0 {
        assert(keys.take(n)[order.last()] == keys[order.last()]);
        assert(keys.take(n)[k] == keys[k]);
        lemma_put_in_prefix(keys, n, order.drop_last(), k);
    }
}

/// The order lists every index once, by keys.
pub proof fn lemma_order(keys: Seq<SortKey>)
    ensures
        spec_order(keys).len() == keys.len(),
        distinct_indices(spec_order(keys), keys.len() as int),
        in_order(keys, spec_order(keys)),
        forall|x: int| 0 <= x < keys.len() ==> #[trigger] spec_order(keys).contains(x),
    decreases keys.len(),
{
    if keys.len() > 0 {
        let n = keys.len() - 1;
        let front = keys.drop_last();
        lemma_order(front);
        let order = spec_order(front);
        assert(front == keys.take(n));
        assert(in_order(keys, order)) by {
            assert forall|i: int, j: int| 0 <= i < j < order.len() implies {
                &&& stands_before(keys[#[trigger] order[i]], keys[#[trigger] order[j]])
                &&& keys[order[i]] == keys[order[j]] ==> order[i] < order[j]
            } by {
                assert(front[order[i]] == keys[order[i]]);
                assert(front[order[j]] == keys[order[j]]);
            }
        }
        lemma_put_in(keys, order, n);
        assert forall|x: int| 0 <= x < keys.len() implies #[trigger] spec_order(keys).contains(
            x,
        ) by {
            if x < n {
                assert(order.contains(x));
            }
        }
    }
}

/// The order of the first `n + 1` keys is that of the first `n` with the
/// index `n` put in.
pub proof fn lemma_order_step(keys: Seq<SortKey>, n: int)
    requires
        0 <= n < keys.len(),
    ensures
        spec_order(keys.take(n + 1)) == spec_put_in(keys, spec_order(keys.take(n)), n),
{
    let longer = keys.take(n + 1);
    assert(longer.drop_last() == keys.take(n));
    lemma_order(keys.take(n));
    lemma_put_in_prefix(keys, n + 1, spec_order(keys.take(n)), n);
}

/// Whether a row with key `a` may stand before one with key `b`.
pub fn may_stand_before(a: SortKey, b: SortKey) -> (r: bool)
    ensures
        r == stands_before(a, b),
{
    a.0 > b.0 || (a.0 == b.0 && a.1 >= b.1)
}

/// The indices of `keys` in the order of their keys: the larger key first,
/// and indices with the same key in rising order.
pub fn order_of(keys: &Vec<SortKey>) -> (order: Vec<usize>)
    ensures
        order@.map_values(|i: usize| i as int) == spec_order(keys@),
        order.len() == keys.len(),
        forall|i: int| 0 <= i < order.len() ==> #[trigger] order[i] < keys.len(),
{
    let mut order: Vec<usize> = Vec::new();
    let mut k: usize = 0;
    proof {
        assert(order@.map_values(|i: usize| i as int) == spec_order(keys@.take(0)));
    }
    while k < keys.len()
        invariant
            k <= keys.len(),
            order.len() == k,
            order@.map_values(|i: usize| i as int) == spec_order(keys@.take(k as int)),
            forall|i: int| 0 <= i < order.len() ==> #[trigger] order[i] < k,
        decreases keys.len() - k,
    {
        let ghost before = order@.map_values(|i: usize| i as int);
        let mut pos: usize = order.len();
        proof {
            assert(before.take(pos as int) == before);
            assert(before.skip(pos as int) == Seq::<int>::empty());
            assert(spec_put_in(keys@, before, k as int) + Seq::<int>::empty() == spec_put_in(
                keys@,
                before,
                k as int,
            ));
        }
        while pos > 0 && !may_stand_before(keys[order[pos - 1]], keys[k])
            invariant
                pos <= order.len(),
                order.len() == k,
                k < keys.len(),
                before == order@.map_values(|i: usize| i as int),
                forall|i: int| 0 <= i < order.len() ==> #[trigger] order[i] < k,
                spec_put_in(keys@, before, k as int) == spec_put_in(
                    keys@,
                    before.take(pos as int),
                    k as int,
                ) + before.skip(pos as int),
            decreases pos,
        {
            proof {
                let head = before.take(pos as int);
                assert(head.last() == before[pos - 1]);
                assert(head.drop_last() == before.take(pos - 1));
                assert(before.skip(pos - 1) == seq![before[pos - 1]] + before.skip(pos as int));
                assert(spec_put_in(keys@, head, k as int) == spec_put_in(
                    keys@,
                    before.take(pos - 1),
                    k as int,
                ).push(before[pos - 1]));
            }
            pos -= 1;
        }
        proof {
            let head = before.take(pos as int);
            if pos > 0 {
                assert(head.last() == before[pos - 1]);
            }
            assert(spec_put_in(keys@, head, k as int) == head.push(k as int));
            lemma_order_step(keys@, k as int);
        }
        order.insert(pos, k);
        proof {
            let after = order@.map_values(|i: usize| i as int);
            assert(after == before.take(pos as int).push(k as int) + before.skip(pos as int));
        }
        k += 1;
    }
    proof {
        assert(keys@.take(k as int) == keys@);
    }
    order
}

} // verus!
