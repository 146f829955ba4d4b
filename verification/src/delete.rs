//! Cancelling a resting order.
use vstd::prelude::*;
use crate::amount::{
    Dec, dec_mul, eadd, esub, lemma_eadd, lemma_esub, lemma_representable, lemma_val_sign, representable, rmul,
    sub_exactly, val, valid,
};
use crate::book::{
    BookView, Orderbook, book_wf, depth_rows, get_depth, rows_view, LevelView, OrderView, Orders, RestingOrder,
    level_wf, lemma_sum_qty_ge, lemma_sum_qty_remove, order_wf, side_holds, side_view, side_wf, sum_qty,
};
use crate::book::{has_level, insert_ok, insert_resting, lower_bound};
use crate::matching::{EngineFault, BalanceOps, OpView, UpdateBalance, UpdateView, upd};
use crate::messages::DeleteOrder;
use crate::text::text;
use crate::types::{CancelOrderResponseData, EngineResponse, OrderStatus, Side};

verus! {

/// The level holds an order with this id in this market.
pub open spec fn level_has(l: LevelView, id: Seq<char>, market: Seq<char>) -> bool {
    exists|j: int| 0 <= j < l.orders.len() && (#[trigger] l.orders[j]).order_id == id && l.orders[j].market == market
}

/// The first level at or after `i` that holds the order (the side's length
/// where none does).
pub open spec fn find_level_from(s: Seq<LevelView>, id: Seq<char>, market: Seq<char>, i: int) -> int
    decreases s.len() - i,
{
    if i < 0 || i >= s.len() {
        s.len() as int
    } else if level_has(s[i], id, market) {
        i
    } else {
        find_level_from(s, id, market, i + 1)
    }
}

/// The first position at or after `j` of an order with this id (the queue's
/// length where none hit it).
pub open spec fn find_pos_from(q: Seq<OrderView>, id: Seq<char>, j: int) -> int
    decreases q.len() - j,
{
    if j < 0 || j >= q.len() {
        q.len() as int
    } else if q[j].order_id == id {
        j
    } else {
        find_pos_from(q, id, j + 1)
    }
}

/// Where an order is on a side: the first level (in ascending price) that
/// holds an order with the id in the market, and the first position in its
/// queue of an order with that id. `None` where no level holds the order.
pub open spec fn spec_find(s: Seq<LevelView>, id: Seq<char>, market: Seq<char>) -> Option<(int, int)> {
    let i = find_level_from(s, id, market, 0);
    if i >= s.len() {
        None
    } else {
        Some((i, find_pos_from(s[i].orders, id, 0)))
    }
}

/// Removing an order from a side: the order found (see `spec_find`) leaves
/// its queue and its quantity its level's; a level left with no quantity
/// leaves the side. `None` where no level holds the order. Otherwise the new
/// side, the removed order and its level's price.
pub open spec fn spec_remove(s: Seq<LevelView>, id: Seq<char>, market: Seq<char>) -> Option<
    (Seq<LevelView>, OrderView, Dec),
> {
    match spec_find(s, id, market) {
        None => None,
        Some((i, j)) => {
            let l = s[i];
            let removed = l.orders[j];
            let l2 = LevelView { price: l.price, available: esub(l.available, removed.qty), orders: l.orders.remove(j) };
            let s2 = if l2.available.m == 0 {
                s.remove(i)
            } else {
                s.update(i, l2)
            };
            Some((s2, removed, l.price))
        },
    }
}

/// Some `Decimal` has the exact value of the removed order's level's
/// quantity less its own (so `rust_decimal` takes it off without rounding).
pub open spec fn remove_ok(s: Seq<LevelView>, id: Seq<char>, market: Seq<char>) -> bool {
    match spec_find(s, id, market) {
        None => true,
        Some((i, j)) => representable(val(s[i].available) - val(s[i].orders[j].qty)),
    }
}

proof fn lemma_find_level_from(s: Seq<LevelView>, id: Seq<char>, market: Seq<char>, i: int)
    requires
        0 <= i <= s.len(),
    ensures
        i <= find_level_from(s, id, market, i) <= s.len(),
        forall|k: int| i <= k < find_level_from(s, id, market, i) ==> !level_has(#[trigger] s[k], id, market),
        find_level_from(s, id, market, i) < s.len() ==> level_has(s[find_level_from(s, id, market, i)], id, market),
    decreases s.len() - i,
{
    if i < s.len() && !level_has(s[i], id, market) {
        lemma_find_level_from(s, id, market, i + 1);
    }
}

proof fn lemma_find_pos_from(q: Seq<OrderView>, id: Seq<char>, j: int)
    requires
        0 <= j <= q.len(),
    ensures
        j <= find_pos_from(q, id, j) <= q.len(),
        forall|k: int| j <= k < find_pos_from(q, id, j) ==> (#[trigger] q[k]).order_id != id,
        find_pos_from(q, id, j) < q.len() ==> q[find_pos_from(q, id, j)].order_id == id,
    decreases q.len() - j,
{
    if j < q.len() && q[j].order_id != id {
        lemma_find_pos_from(q, id, j + 1);
    }
}

/// On a sound side, the order found is there and sound, and removing it
/// (where its level's new quantity is a `Decimal`) keeps the side sound.
pub proof fn lemma_remove_wf(s: Seq<LevelView>, id: Seq<char>, market: Seq<char>)
    requires
        side_wf(s),
    ensures
        spec_find(s, id, market) matches Some((i, j)) ==> 0 <= i < s.len() && 0 <= j < s[i].orders.len(),
        spec_remove(s, id, market) matches Some((s2, removed, price)) ==> {
            &&& removed.order_id == id
            &&& order_wf(removed)
            &&& valid(price)
            &&& val(price) == val(removed.price)
            &&& (remove_ok(s, id, market) ==> side_wf(s2))
        },
{
    lemma_find_level_from(s, id, market, 0);
    let i = find_level_from(s, id, market, 0);
    if i < s.len() {
        let l = s[i];
        assert(level_wf(l));
        let jw = choose|jw: int| 0 <= jw < l.orders.len() && (#[trigger] l.orders[jw]).order_id == id && l.orders[jw].market == market;
        lemma_find_pos_from(l.orders, id, 0);
        let j = find_pos_from(l.orders, id, 0);
        assert(j <= jw);
        let removed = l.orders[j];
        assert(order_wf(removed));
        if remove_ok(s, id, market) {
            lemma_remove_sound(s, i, j);
        }
    }
}

/// Removing an order from a side that holds only one side's orders leaves
/// it so; the removed order is of that side.
pub proof fn lemma_remove_holds(s: Seq<LevelView>, id: Seq<char>, market: Seq<char>, side: Side)
    requires
        side_wf(s),
        side_holds(s, side),
    ensures
        spec_remove(s, id, market) matches Some((s2, removed, _)) ==> side_holds(s2, side) && removed.side == side,
{
    lemma_remove_wf(s, id, market);
    if let Some((i, j)) = spec_find(s, id, market) {
        let (s2, removed, p) = spec_remove(s, id, market).unwrap();
        let l = s[i];
        assert(removed == l.orders[j]);
        assert forall|a: int, b: int| 0 <= a < s2.len() && 0 <= b < s2[a].orders.len() implies (
        #[trigger] s2[a].orders[b]).side == side by {
            let l2 = LevelView { price: l.price, available: esub(l.available, removed.qty), orders: l.orders.remove(j) };
            if l2.available.m == 0 {
                if a < i {
                    assert(s2[a] == s[a]);
                } else {
                    assert(s2[a] == s[a + 1]);
                }
            } else if a == i {
                assert(s2[a] == l2);
                if b < j {
                    assert(s2[a].orders[b] == l.orders[b]);
                } else {
                    assert(s2[a].orders[b] == l.orders[b + 1]);
                }
            } else {
                assert(s2[a] == s[a]);
            }
        }
    }
}

/// Removing the order at position `j` of level `i`, where its level's new
/// quantity is a `Decimal`, keeps a sound side sound.
proof fn lemma_remove_sound(s: Seq<LevelView>, i: int, j: int)
    requires
        side_wf(s),
        0 <= i < s.len(),
        0 <= j < s[i].orders.len(),
        representable(val(s[i].available) - val(s[i].orders[j].qty)),
    ensures
        side_wf({
            let l = s[i];
            let l2 = LevelView {
                price: l.price,
                available: esub(l.available, l.orders[j].qty),
                orders: l.orders.remove(j),
            };
            if l2.available.m == 0 {
                s.remove(i)
            } else {
                s.update(i, l2)
            }
        }),
{
    let l = s[i];
    assert(level_wf(l));
    let removed = l.orders[j];
    assert(order_wf(removed));
    lemma_esub(l.available, removed.qty);
    lemma_sum_qty_remove(l.orders, j);
    assert forall|k: int| 0 <= k < l.orders.len() implies val((#[trigger] l.orders[k]).qty) > 0 by {
        assert(order_wf(l.orders[k]));
    }
    lemma_sum_qty_ge(l.orders, j);
    let orders2 = l.orders.remove(j);
    let l2 = LevelView { price: l.price, available: esub(l.available, removed.qty), orders: orders2 };
    lemma_val_sign(l2.available);
    if l2.available.m == 0 {
        let s2 = s.remove(i);
        assert forall|k: int| 0 <= k < s2.len() implies level_wf(#[trigger] s2[k]) by {
            if k < i {
                assert(s2[k] == s[k]);
            } else {
                assert(s2[k] == s[k + 1]);
            }
        }
        assert forall|a: int, b: int| 0 <= a < b < s2.len() implies val(s2[a].price) < val(s2[b].price) by {
            let a0 = if a < i { a } else { a + 1 };
            let b0 = if b < i { b } else { b + 1 };
            assert(s2[a] == s[a0] && s2[b] == s[b0]);
        }
    } else {
        let s2 = s.update(i, l2);
        assert(orders2.len() > 0) by {
            if orders2.len() == 0 {
                assert(sum_qty(orders2) == 0);
            }
        }
        assert forall|k: int| 0 <= k < orders2.len() implies order_wf(#[trigger] orders2[k]) && val(
            orders2[k].price,
        ) == val(l2.price) by {
            if k < j {
                assert(orders2[k] == l.orders[k]);
            } else {
                assert(orders2[k] == l.orders[k + 1]);
            }
        }
        assert(level_wf(l2));
        assert forall|k: int| 0 <= k < s2.len() implies level_wf(#[trigger] s2[k]) by {
            if k != i {
                assert(s2[k] == s[k]);
            }
        }
        assert forall|a: int, b: int| 0 <= a < b < s2.len() implies val(s2[a].price) < val(s2[b].price) by {
            assert(s2[a].price == s[a].price && s2[b].price == s[b].price);
        }
    }
}

/// Where the order with this id (in this market) is on a side: see
/// `spec_find`.
fn locate(side_map: &Vec<RestingOrder>, order_id: &String, market: &String) -> (r: Option<(usize, usize)>)
    ensures
        match spec_find(side_view(side_map@), order_id@, market@) {
            None => r is None,
            Some((i, j)) => r matches Some((a, b)) && a as int == i && b as int == j,
        },
{
    let ghost s = side_view(side_map@);
    proof {
        lemma_find_level_from(s, order_id@, market@, 0);
    }
    let mut i: usize = 0;
    let mut found = false;
    while i < side_map.len() && !found
        invariant
            0 <= i <= side_map@.len(),
            s == side_view(side_map@),
            found ==> i < side_map@.len() && level_has(s[i as int], order_id@, market@) && i as int
                == find_level_from(s, order_id@, market@, 0),
            !found ==> find_level_from(s, order_id@, market@, i as int) == find_level_from(s, order_id@, market@, 0),
        decreases side_map@.len() - i + (if found { 0int } else { 1int }),
    {
        let q = &side_map[i].orders;
        let mut j: usize = 0;
        let mut hit = false;
        while j < q.len() && !hit
            invariant
                0 <= j <= q@.len(),
                q@ == side_map@[i as int].orders@,
                hit ==> j < q@.len() && q@[j as int].order_id@ == order_id@ && q@[j as int].market@ == market@,
                !hit ==> forall|k: int| 0 <= k < j ==> !((#[trigger] q@[k]).order_id@ == order_id@ && q@[k].market@ == market@),
            decreases q@.len() - j + (if hit { 0int } else { 1int }),
        {
            if q[j].order_id == *order_id && q[j].market == *market {
                hit = true;
            } else {
                j = j + 1;
            }
        }
        proof {
            let l = s[i as int];
            assert(l == side_map@[i as int]@);
            if hit {
                assert(l.orders[j as int] == q@[j as int]@);
                assert(level_has(l, order_id@, market@));
            } else {
                assert(!level_has(l, order_id@, market@)) by {
                    if level_has(l, order_id@, market@) {
                        let k = choose|k: int| 0 <= k < l.orders.len() && (#[trigger] l.orders[k]).order_id == order_id@ && l.orders[k].market == market@;
                        assert(l.orders[k] == q@[k]@);
                    }
                }
            }
        }
        if hit {
            found = true;
        } else {
            i = i + 1;
        }
    }
    if !found {
        return None;
    }
    let ghost l = s[i as int];
    assert(l == side_map@[i as int]@);
    proof {
        lemma_find_pos_from(l.orders, order_id@, 0);
    }
    let q = &side_map[i].orders;
    let mut j: usize = 0;
    while j < q.len() && q[j].order_id != *order_id
        invariant
            0 <= j <= q@.len(),
            q@ == side_map@[i as int].orders@,
            l == side_map@[i as int]@,
            find_pos_from(l.orders, order_id@, j as int) == find_pos_from(l.orders, order_id@, 0),
        decreases q@.len() - j,
    {
        assert(l.orders[j as int] == q@[j as int]@);
        j = j + 1;
    }
    proof {
        if j < q@.len() {
            assert(l.orders[j as int] == q@[j as int]@);
        }
    }
    assert(find_pos_from(l.orders, order_id@, j as int) == j);
    Some((i, j))
}

/// Takes the order at position `j` of level `i` off a side, where that is
/// where the order with this id (in this market) is: see `spec_remove`.
/// Returns the removed order and its level's price.
fn remove_at(side_map: &mut Vec<RestingOrder>, i: usize, j: usize, order_id: &String, market: &String) -> (res: (
    Orders,
    Dec,
))
    requires
        side_wf(side_view(old(side_map)@)),
        spec_find(side_view(old(side_map)@), order_id@, market@) == Some((i as int, j as int)),
        remove_ok(side_view(old(side_map)@), order_id@, market@),
    ensures
        side_wf(side_view(final(side_map)@)),
        spec_remove(side_view(old(side_map)@), order_id@, market@) == Some(
            (side_view(final(side_map)@), res.0@, res.1),
        ),
{
    let ghost s = side_view(side_map@);
    proof {
        lemma_remove_wf(s, order_id@, market@);
    }
    let mut lvl = side_map.remove(i);
    let ghost l = lvl@;
    assert(l == s[i as int]);
    assert(level_wf(l));
    let removed = lvl.orders.remove(j).unwrap();
    assert(removed@ == l.orders[j as int]);
    assert(order_wf(removed@));
    match sub_exactly(lvl.available_qty, removed.qty) {
        Some(v) => {
            lvl.available_qty = v;
        },
        None => {},
    }
    assert(lvl.orders@.map_values(|o: Orders| o@) =~= l.orders.remove(j as int));
    let price = lvl.price;
    if lvl.available_qty.m != 0 {
        let ghost l2 = lvl@;
        side_map.insert(i, lvl);
        assert(side_view(side_map@) =~= s.update(i as int, l2));
    } else {
        assert(side_view(side_map@) =~= s.remove(i as int));
    }
    (removed, price)
}

/// Takes the order with this id (in this market) off a side: see
/// `spec_remove`. Returns the removed order and its level's price; `None`,
/// the side unchanged, where no level holds the order. Fails, changing
/// nothing, where no `Decimal` has the exact value of its level's quantity
/// less its own (the only case where `rust_decimal` would round it).
pub fn remove_from_side(side_map: &mut Vec<RestingOrder>, order_id: &String, market: &String) -> (r: Result<
    Option<(Orders, Dec)>,
    EngineFault,
>)
    requires
        side_wf(side_view(old(side_map)@)),
    ensures
        side_wf(side_view(final(side_map)@)),
        r is Err <==> !remove_ok(side_view(old(side_map)@), order_id@, market@),
        r is Err ==> final(side_map)@ == old(side_map)@ && r == Err::<Option<(Orders, Dec)>, EngineFault>(
            EngineFault::Unprocessable,
        ),
        r matches Ok(None) ==> final(side_map)@ == old(side_map)@,
        r matches Ok(None) ==> spec_remove(side_view(old(side_map)@), order_id@, market@) is None,
        r matches Ok(Some((o, p))) ==> spec_remove(side_view(old(side_map)@), order_id@, market@) == Some(
            (side_view(final(side_map)@), o@, p),
        ),
{
    let ghost s = side_view(side_map@);
    proof {
        lemma_remove_wf(s, order_id@, market@);
    }
    match locate(side_map, order_id, market) {
        None => Ok(None),
        Some((i, j)) => {
            assert(s[i as int] == side_map@[i as int]@);
            assert(level_wf(s[i as int]));
            assert(s[i as int].orders[j as int] == side_map@[i as int].orders@[j as int]@);
            assert(order_wf(s[i as int].orders[j as int]));
            if sub_exactly(side_map[i].available_qty, side_map[i].orders[j].qty).is_none() {
                return Err(EngineFault::Unprocessable);
            }
            Ok(Some(remove_at(side_map, i, j, order_id, market)))
        },
    }
}

} // verus!

verus! {

/// What cancelling does to a book: the bids are searched first, then the
/// asks. The removed order comes with the side it rested on and its level's
/// price.
pub open spec fn spec_delete(b: BookView, id: Seq<char>, market: Seq<char>) -> (BookView, Option<(Side, OrderView, Dec)>) {
    match spec_remove(b.bids, id, market) {
        Some((s2, o, p)) => (BookView { bids: s2, ..b }, Some((Side::BUY, o, p))),
        None => match spec_remove(b.asks, id, market) {
            Some((s2, o, p)) => (BookView { asks: s2, ..b }, Some((Side::SELL, o, p))),
            None => (b, None),
        },
    }
}

/// The balance change that releases what a cancelled order had locked:
/// USDT at its level's price for a bid, the market's asset for an ask.
pub open spec fn unlock_update(side: Side, o: OrderView, price: Dec, market: Seq<char>) -> UpdateView {
    match side {
        Side::BUY => upd(
            o.user_id,
            "USDT"@,
            Some(OpView::Increase(rmul(o.qty, price).unwrap())),
            Some(OpView::Decrease(rmul(o.qty, price).unwrap())),
            None,
        ),
        Side::SELL => upd(o.user_id, market, Some(OpView::Increase(o.qty)), Some(OpView::Decrease(o.qty)), None),
    }
}

/// `rust_decimal` computes cancelling: the level's new quantity without
/// rounding it (some `Decimal` has its exact value), and for a bid the
/// amount released without overflow.
pub open spec fn delete_ok(b: BookView, id: Seq<char>, market: Seq<char>) -> bool {
    match spec_remove(b.bids, id, market) {
        Some((_, o, p)) => remove_ok(b.bids, id, market) && rmul(o.qty, p) is Some,
        None => remove_ok(b.asks, id, market),
    }
}

/// Releases what a cancelled order locked.
pub fn unlock_balance(side: Side, removed: &Orders, price: Dec, market: &String) -> (u: UpdateBalance)
    requires
        valid(removed.qty),
        valid(price),
        side == Side::BUY ==> rmul(removed.qty, price) is Some,
    ensures
        u@ == unlock_update(side, removed@, price, market@),
{
    match side {
        Side::BUY => {
            let amount = dec_mul(removed.qty, price).unwrap();
            UpdateBalance {
                user_id: removed.user_id.clone(),
                asset: text("USDT"),
                available_balance: Some(BalanceOps::Increase(amount)),
                locked_balance: Some(BalanceOps::Decrease(amount)),
                reserved_balance: None,
            }
        },
        Side::SELL => UpdateBalance {
            user_id: removed.user_id.clone(),
            asset: market.clone(),
            available_balance: Some(BalanceOps::Increase(removed.qty)),
            locked_balance: Some(BalanceOps::Decrease(removed.qty)),
            reserved_balance: None,
        },
    }
}

/// Cancels the order with the given id in the given market: it leaves the
/// book (bids searched first), what it locked is released, and the answer
/// carries the new depth. Where no resting order matches, the book is
/// unchanged and the answer says the order was not found. Fails, changing
/// nothing, where no `Decimal` has the exact value of the level's new
/// quantity or the amount released overflows `Decimal`.
pub fn delete_order(orderbook: &mut Orderbook, order: DeleteOrder) -> (r: Result<
    (Option<UpdateBalance>, EngineResponse),
    EngineFault,
>)
    requires
        book_wf(old(orderbook)@),
    ensures
        book_wf(final(orderbook)@),
        r is Ok <==> delete_ok(old(orderbook)@, order.order_id@, order.market@),
        r is Ok ==> final(orderbook)@ == spec_delete(old(orderbook)@, order.order_id@, order.market@).0,
        r is Err ==> final(orderbook)@ == old(orderbook)@ && r == Err::<
            (Option<UpdateBalance>, EngineResponse),
            EngineFault,
        >(EngineFault::Unprocessable),
        r matches Ok(res) ==> ({
            let removed = spec_delete(old(orderbook)@, order.order_id@, order.market@).1;
            &&& res.1 matches EngineResponse::CancelOrder { correlation_id, data }
            &&& correlation_id@ == order.correlation_id@
            &&& data.status == OrderStatus::CANCEL
            &&& data.market@ == order.market@
            &&& match removed {
                Some((side, o, p)) => {
                    &&& o.side == side
                    &&& res.0 matches Some(u) && u@ == unlock_update(side, o, p, order.market@)
                    &&& data.user_id@ == o.user_id
                    &&& data.order_id@ == o.order_id
                    &&& data.msg@ == "order cancelled"@
                    &&& data.depth matches Some(d) && rows_view(d.bids@) == depth_rows(final(orderbook)@.bids)
                        && rows_view(d.asks@) == depth_rows(final(orderbook)@.asks)
                },
                None => {
                    &&& res.0 is None
                    &&& data.user_id@ == Seq::<char>::empty()
                    &&& data.order_id@ == order.order_id@
                    &&& data.msg@ == "order not found"@
                    &&& data.depth is None
                },
            }
        }),
{
    let ghost b0 = orderbook@;
    proof {
        lemma_remove_wf(b0.bids, order.order_id@, order.market@);
        lemma_remove_wf(b0.asks, order.order_id@, order.market@);
        lemma_remove_holds(b0.bids, order.order_id@, order.market@, Side::BUY);
        lemma_remove_holds(b0.asks, order.order_id@, order.market@, Side::SELL);
    }
    if let Some((i, j)) = locate(&orderbook.bids, &order.order_id, &order.market) {
        assert(b0.bids[i as int] == orderbook.bids@[i as int]@);
        assert(level_wf(b0.bids[i as int]));
        assert(b0.bids[i as int].orders[j as int] == orderbook.bids@[i as int].orders@[j as int]@);
        assert(order_wf(b0.bids[i as int].orders[j as int]));
        let q = orderbook.bids[i].orders[j].qty;
        let key = orderbook.bids[i].price;
        if dec_mul(q, key).is_none() {
            return Err(EngineFault::Unprocessable);
        }
        let (removed, price) = match remove_from_side(&mut orderbook.bids, &order.order_id, &order.market) {
            Ok(Some(x)) => x,
            Ok(None) => {
                assert(false);
                return Err(EngineFault::Unprocessable);
            },
            Err(e) => {
                return Err(e);
            },
        };
        assert(orderbook@ =~= spec_delete(b0, order.order_id@, order.market@).0);
        let u = unlock_balance(Side::BUY, &removed, price, &order.market);
        let depth = get_depth(orderbook);
        return Ok((
            Some(u),
            EngineResponse::CancelOrder {
                correlation_id: order.correlation_id,
                data: CancelOrderResponseData {
                    user_id: removed.user_id,
                    order_id: removed.order_id,
                    msg: text("order cancelled"),
                    status: OrderStatus::CANCEL,
                    depth: Some(depth),
                    market: order.market,
                },
            },
        ));
    }
    if let Some((i, j)) = locate(&orderbook.asks, &order.order_id, &order.market) {
        assert(b0.asks[i as int] == orderbook.asks@[i as int]@);
        assert(level_wf(b0.asks[i as int]));
        assert(b0.asks[i as int].orders[j as int] == orderbook.asks@[i as int].orders@[j as int]@);
        assert(order_wf(b0.asks[i as int].orders[j as int]));
        let (removed, price) = match remove_from_side(&mut orderbook.asks, &order.order_id, &order.market) {
            Ok(Some(x)) => x,
            Ok(None) => {
                assert(false);
                return Err(EngineFault::Unprocessable);
            },
            Err(e) => {
                return Err(e);
            },
        };
        assert(orderbook@ =~= spec_delete(b0, order.order_id@, order.market@).0);
        let u = unlock_balance(Side::SELL, &removed, price, &order.market);
        let depth = get_depth(orderbook);
        return Ok((
            Some(u),
            EngineResponse::CancelOrder {
                correlation_id: order.correlation_id,
                data: CancelOrderResponseData {
                    user_id: removed.user_id,
                    order_id: removed.order_id,
                    msg: text("order cancelled"),
                    status: OrderStatus::CANCEL,
                    depth: Some(depth),
                    market: order.market,
                },
            },
        ));
    }
    assert(orderbook@ =~= b0);
    Ok((
        None,
        EngineResponse::CancelOrder {
            correlation_id: order.correlation_id,
            data: CancelOrderResponseData {
                user_id: String::new(),
                order_id: order.order_id,
                msg: text("order not found"),
                status: OrderStatus::CANCEL,
                depth: None,
                market: order.market,
            },
        },
    ))
}

} // verus!

verus! {

/// No order on the side has this id.
pub open spec fn id_fresh(s: Seq<LevelView>, id: Seq<char>) -> bool {
    forall|i: int, j: int| 0 <= i < s.len() && 0 <= j < s[i].orders.len() ==> (#[trigger] s[i].orders[j]).order_id != id
}

proof fn lemma_find_level_is(s: Seq<LevelView>, id: Seq<char>, market: Seq<char>, i: int, k: int)
    requires
        0 <= i <= k < s.len(),
        forall|x: int| i <= x < k ==> !level_has(#[trigger] s[x], id, market),
        level_has(s[k], id, market),
    ensures
        find_level_from(s, id, market, i) == k,
    decreases k - i,
{
    if i < k {
        lemma_find_level_is(s, id, market, i + 1, k);
    }
}

proof fn lemma_find_pos_is(q: Seq<OrderView>, id: Seq<char>, j: int, k: int)
    requires
        0 <= j <= k < q.len(),
        forall|x: int| j <= x < k ==> (#[trigger] q[x]).order_id != id,
        q[k].order_id == id,
    ensures
        find_pos_from(q, id, j) == k,
    decreases k - j,
{
    if j < k {
        lemma_find_pos_is(q, id, j + 1, k);
    }
}

proof fn lemma_find_level_none(s: Seq<LevelView>, id: Seq<char>, market: Seq<char>, i: int)
    requires
        0 <= i <= s.len(),
        id_fresh(s, id),
    ensures
        find_level_from(s, id, market, i) == s.len(),
    decreases s.len() - i,
{
    if i < s.len() {
        assert(!level_has(s[i], id, market)) by {
            if level_has(s[i], id, market) {
                let j = choose|j: int| 0 <= j < s[i].orders.len() && (#[trigger] s[i].orders[j]).order_id == id && s[i].orders[j].market == market;
                assert(s[i].orders[j].order_id != id);
            }
        }
        lemma_find_level_none(s, id, market, i + 1);
    }
}

/// An order with an id that a side does not hold is not found there.
pub proof fn lemma_remove_fresh(s: Seq<LevelView>, id: Seq<char>, market: Seq<char>)
    requires
        id_fresh(s, id),
    ensures
        spec_remove(s, id, market) is None,
{
    lemma_find_level_none(s, id, market, 0);
}

/// Two sides hold the same levels at the same prices with the same queues,
/// and level quantities of the same value (a `Decimal` sum and difference
/// may leave a quantity at a larger scale).
pub open spec fn same_values(a: Seq<LevelView>, b: Seq<LevelView>) -> bool {
    &&& a.len() == b.len()
    &&& forall|i: int|
        0 <= i < a.len() ==> (#[trigger] a[i]).price == b[i].price && a[i].orders == b[i].orders && val(
            a[i].available,
        ) == val(b[i].available)
}

/// Cancel undoes rest: resting a sound order whose id the side does not
/// hold, then removing it by its id and market, gives back the order as it
/// rested, from a level of its price, and the side as it was: exactly where
/// the order opened its own level, or its quantity's scale is no larger than
/// its level's and their sum keeps the level's scale; otherwise with the
/// level's quantity of the same value.
pub proof fn law_cancel_undoes_rest(s: Seq<LevelView>, o: OrderView)
    requires
        side_wf(s),
        order_wf(o),
        insert_ok(s, o),
        id_fresh(s, o.order_id),
    ensures
        remove_ok(insert_resting(s, o), o.order_id, o.market),
        spec_remove(insert_resting(s, o), o.order_id, o.market) matches Some((s2, removed, p)) && removed == o
            && val(p) == val(o.price) && same_values(s2, s) && (!has_level(s, o) ==> s2 == s && p == o.price) && (
        has_level(s, o) && crate::amount::dadd_ok(s[lower_bound(s, o.price)].available, o.qty) && o.qty.s
            <= s[lower_bound(s, o.price)].available.s ==> s2 == s),
{
    crate::book::lemma_lb_from(s, o.price, 0);
    let k = lower_bound(s, o.price);
    let r = insert_resting(s, o);
    assert forall|x: int| 0 <= x < k implies !level_has(#[trigger] r[x], o.order_id, o.market) by {
        assert(r[x] == s[x]);
        if level_has(r[x], o.order_id, o.market) {
            let j = choose|j: int| 0 <= j < r[x].orders.len() && (#[trigger] r[x].orders[j]).order_id == o.order_id && r[x].orders[j].market == o.market;
            assert(s[x].orders[j].order_id != o.order_id);
        }
    }
    lemma_val_sign(o.qty);
    if has_level(s, o) {
        let l = s[k];
        assert(level_wf(l));
        let n = l.orders.len() as int;
        assert(r[k].orders[n] == o);
        assert(level_has(r[k], o.order_id, o.market));
        lemma_find_level_is(r, o.order_id, o.market, 0, k);
        assert forall|x: int| 0 <= x < n implies (#[trigger] r[k].orders[x]).order_id != o.order_id by {
            assert(r[k].orders[x] == s[k].orders[x]);
        }
        lemma_find_pos_is(r[k].orders, o.order_id, 0, n);
        assert(r[k].orders.remove(n) =~= l.orders);
        assert forall|x: int| 0 <= x < l.orders.len() implies val((#[trigger] l.orders[x]).qty) > 0 by {
            assert(crate::book::order_wf(l.orders[x]));
        }
        lemma_sum_qty_ge(l.orders, 0);
        lemma_val_sign(l.available);
        lemma_eadd(l.available, o.qty);
        let x = eadd(l.available, o.qty);
        lemma_representable(l.available);
        assert(val(x) - val(o.qty) == val(l.available));
        lemma_esub(x, o.qty);
        let back = esub(x, o.qty);
        lemma_val_sign(back);
        assert(back.m > 0);
        let l2 = LevelView { price: l.price, available: back, orders: l.orders };
        let s2 = spec_remove(r, o.order_id, o.market).unwrap().0;
        assert(s2 == r.update(k, l2));
        assert(same_values(s2, s)) by {
            assert forall|i: int| 0 <= i < s2.len() implies (#[trigger] s2[i]).price == s[i].price && s2[i].orders
                == s[i].orders && val(s2[i].available) == val(s[i].available) by {
                if i != k {
                    assert(s2[i] == s[i]);
                }
            }
        }
        if crate::amount::dadd_ok(l.available, o.qty) && o.qty.s <= l.available.s {
            crate::amount::lemma_add_sub_back(l.available, o.qty);
            crate::amount::lemma_exact_at_scale(l.available, o.qty);
            assert(x == crate::amount::dadd(l.available, o.qty));
            assert(crate::amount::dsub_ok(x, o.qty));
            crate::amount::lemma_exact_at_scale(x, o.qty);
            assert(back == crate::amount::dsub(x, o.qty));
            assert(back == l.available);
            assert(s2 =~= s);
        }
    } else {
        assert(r == s.insert(k, LevelView { price: o.price, available: o.qty, orders: seq![o] }));
        assert(r[k].orders[0] == o);
        assert(level_has(r[k], o.order_id, o.market));
        lemma_find_level_is(r, o.order_id, o.market, 0, k);
        lemma_find_pos_is(r[k].orders, o.order_id, 0, 0);
        crate::amount::lemma_esub_self(o.qty);
        crate::amount::lemma_exact_at_scale(o.qty, o.qty);
        assert(r.remove(k) =~= s);
        assert(spec_remove(r, o.order_id, o.market).unwrap().0 == s);
    }
}

} // verus!

verus! {

/// At most one order on the side has this id.
pub open spec fn id_once(s: Seq<LevelView>, id: Seq<char>) -> bool {
    forall|a: int, b: int, c: int, d: int|
        0 <= a < s.len() && 0 <= b < s[a].orders.len() && 0 <= c < s.len() && 0 <= d < s[c].orders.len() && (
        #[trigger] s[a].orders[b]).order_id == id && (#[trigger] s[c].orders[d]).order_id == id ==> a == c && b == d
}

/// Removing the one order with an id leaves no order with it.
proof fn lemma_remove_once(s: Seq<LevelView>, id: Seq<char>, market: Seq<char>)
    requires
        side_wf(s),
        id_once(s, id),
        spec_remove(s, id, market) is Some,
    ensures
        id_fresh(spec_remove(s, id, market).unwrap().0, id),
        !id_fresh(s, id),
{
    lemma_remove_wf(s, id, market);
    let (i, j) = spec_find(s, id, market).unwrap();
    let (s2, removed, p) = spec_remove(s, id, market).unwrap();
    let l = s[i];
    assert(removed == l.orders[j] && removed.order_id == id);
    let l2 = LevelView { price: l.price, available: esub(l.available, removed.qty), orders: l.orders.remove(j) };
    assert forall|a: int, b: int| 0 <= a < s2.len() && 0 <= b < s2[a].orders.len() implies (
    #[trigger] s2[a].orders[b]).order_id != id by {
        let a2 = if l2.available.m == 0 {
            if a < i {
                a
            } else {
                a + 1
            }
        } else {
            a
        };
        let b2 = if l2.available.m != 0 && a == i && b >= j {
            b + 1
        } else {
            b
        };
        if l2.available.m == 0 {
            assert(s2[a] == s[a2]);
        } else if a == i {
            assert(s2[a] == l2);
        } else {
            assert(s2[a] == s[a]);
        }
        assert(s2[a].orders[b] == s[a2].orders[b2]);
        assert(a2 != i || b2 != j);
        assert(s[i].orders[j].order_id == id);
    }
}

/// Cancelling twice: where the book holds at most one order with the id, a
/// second cancellation by that id finds nothing and leaves the book as the
/// first left it.
pub proof fn law_cancel_twice(b: BookView, id: Seq<char>, market: Seq<char>)
    requires
        book_wf(b),
        id_once(b.bids, id),
        id_once(b.asks, id),
        id_fresh(b.bids, id) || id_fresh(b.asks, id),
    ensures
        spec_delete(spec_delete(b, id, market).0, id, market) == (spec_delete(b, id, market).0, None::<
            (Side, OrderView, Dec),
        >),
{
    if spec_remove(b.bids, id, market) is Some {
        lemma_remove_once(b.bids, id, market);
        lemma_remove_fresh(spec_remove(b.bids, id, market).unwrap().0, id, market);
        lemma_remove_fresh(b.asks, id, market);
    } else if spec_remove(b.asks, id, market) is Some {
        lemma_remove_once(b.asks, id, market);
        lemma_remove_fresh(spec_remove(b.asks, id, market).unwrap().0, id, market);
    }
}

} // verus!
