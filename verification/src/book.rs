//! The order book: per side, price levels in ascending price, each a FIFO
//! queue of resting orders.
use vstd::prelude::*;
use std::collections::VecDeque;
use crate::amount::{Dec, add_exactly, eadd, lemma_eadd, representable, dec_lt, decimal_to_string, display, val, valid, zero};
use crate::types::{Depth, OrderStatus, Side, TypeOfOrder};

verus! {

/// A resting order.
#[derive(Debug, Clone)]
pub struct Orders {
    pub order_id: String,
    pub user_id: String,
    pub market: String,
    pub side: Side,
    pub qty: Dec,
    pub order_type: TypeOfOrder,
    pub price: Dec,
    pub status: OrderStatus,
}

/// A price level: its price, the quantity resting there, and its queue.
#[derive(Debug)]
pub struct RestingOrder {
    pub price: Dec,
    pub available_qty: Dec,
    pub orders: VecDeque<Orders>,
}

/// The two sides of a market, each in ascending price.
#[derive(Debug)]
pub struct Orderbook {
    pub bids: Vec<RestingOrder>,
    pub asks: Vec<RestingOrder>,
    pub last_traded_price: Dec,
}

impl Orderbook {
    /// An empty book.
    pub fn new() -> (b: Orderbook)
        ensures
            book_wf(b@),
            b@.bids.len() == 0,
            b@.asks.len() == 0,
            b@.last_traded_price == zero(),
    {
        Orderbook { bids: Vec::new(), asks: Vec::new(), last_traded_price: Dec { m: 0, s: 0 } }
    }
}

/// A resting order as the contracts see it.
pub struct OrderView {
    pub order_id: Seq<char>,
    pub user_id: Seq<char>,
    pub market: Seq<char>,
    pub side: Side,
    pub qty: Dec,
    pub order_type: TypeOfOrder,
    pub price: Dec,
    pub status: OrderStatus,
}

/// A price level as the contracts see it.
pub struct LevelView {
    pub price: Dec,
    pub available: Dec,
    pub orders: Seq<OrderView>,
}

/// The book as the contracts see it.
pub struct BookView {
    pub bids: Seq<LevelView>,
    pub asks: Seq<LevelView>,
    pub last_traded_price: Dec,
}

impl View for Orders {
    type V = OrderView;

    open spec fn view(&self) -> OrderView {
        OrderView {
            order_id: self.order_id@,
            user_id: self.user_id@,
            market: self.market@,
            side: self.side,
            qty: self.qty,
            order_type: self.order_type,
            price: self.price,
            status: self.status,
        }
    }
}

impl View for RestingOrder {
    type V = LevelView;

    open spec fn view(&self) -> LevelView {
        LevelView {
            price: self.price,
            available: self.available_qty,
            orders: self.orders@.map_values(|o: Orders| o@),
        }
    }
}

/// The views of a side's levels.
pub open spec fn side_view(v: Seq<RestingOrder>) -> Seq<LevelView> {
    v.map_values(|l: RestingOrder| l@)
}

impl View for Orderbook {
    type V = BookView;

    open spec fn view(&self) -> BookView {
        BookView {
            bids: side_view(self.bids@),
            asks: side_view(self.asks@),
            last_traded_price: self.last_traded_price,
        }
    }
}

/// The total quantity of a queue (in units of 10^-28).
pub open spec fn sum_qty(s: Seq<OrderView>) -> int
    decreases s.len(),
{
    if s.len() == 0 {
        0
    } else {
        val(s[0].qty) + sum_qty(s.drop_first())
    }
}

/// The amounts of a resting order are `Decimal`s, its quantity positive.
pub open spec fn order_wf(o: OrderView) -> bool {
    valid(o.qty) && valid(o.price) && val(o.qty) > 0
}

/// A level is sound: non-empty, every order sound and priced at the level's
/// price, and the level's quantity the sum of its queue.
pub open spec fn level_wf(l: LevelView) -> bool {
    &&& l.orders.len() > 0
    &&& valid(l.price)
    &&& valid(l.available)
    &&& val(l.available) == sum_qty(l.orders)
    &&& forall|j: int|
        0 <= j < l.orders.len() ==> order_wf(#[trigger] l.orders[j]) && val(l.orders[j].price) == val(l.price)
}

/// A side is sound: sound levels in strictly ascending price.
pub open spec fn side_wf(s: Seq<LevelView>) -> bool {
    &&& forall|i: int| 0 <= i < s.len() ==> level_wf(#[trigger] s[i])
    &&& forall|i: int, j: int| 0 <= i < j < s.len() ==> val(s[i].price) < val(s[j].price)
}

/// Every order resting on a side is an order of that side.
pub open spec fn side_holds(s: Seq<LevelView>, side: Side) -> bool {
    forall|i: int, j: int| 0 <= i < s.len() && 0 <= j < s[i].orders.len() ==> (#[trigger] s[i].orders[j]).side == side
}

/// Both sides of the book are sound, the bids hold only buys and the asks
/// only sells.
pub open spec fn book_wf(b: BookView) -> bool {
    &&& side_wf(b.bids)
    &&& side_wf(b.asks)
    &&& side_holds(b.bids, Side::BUY)
    &&& side_holds(b.asks, Side::SELL)
}

/// Summing a queue splits at any point.
pub proof fn lemma_sum_qty_push(s: Seq<OrderView>, o: OrderView)
    ensures
        sum_qty(s.push(o)) == sum_qty(s) + val(o.qty),
    decreases s.len(),
{
    if s.len() == 0 {
        assert(s.push(o).drop_first() =~= Seq::<OrderView>::empty());
        assert(sum_qty(s.push(o).drop_first()) == 0);
        assert(s.push(o)[0] == o);
    } else {
        lemma_sum_qty_push(s.drop_first(), o);
        assert(s.push(o).drop_first() =~= s.drop_first().push(o));
        assert(s.push(o)[0] == s[0]);
    }
}

/// Removing the order at `j` takes its quantity out of the sum.
pub proof fn lemma_sum_qty_remove(s: Seq<OrderView>, j: int)
    requires
        0 <= j < s.len(),
    ensures
        sum_qty(s.remove(j)) == sum_qty(s) - val(s[j].qty),
    decreases s.len(),
{
    if j == 0 {
        assert(s.remove(0) =~= s.drop_first());
    } else {
        lemma_sum_qty_remove(s.drop_first(), j - 1);
        assert(s.remove(j).drop_first() =~= s.drop_first().remove(j - 1));
    }
}

/// Changing the quantity of the order at `j` changes the sum by as much.
pub proof fn lemma_sum_qty_update(s: Seq<OrderView>, j: int, o: OrderView)
    requires
        0 <= j < s.len(),
    ensures
        sum_qty(s.update(j, o)) == sum_qty(s) - val(s[j].qty) + val(o.qty),
    decreases s.len(),
{
    if j == 0 {
        assert(s.update(0, o).drop_first() =~= s.drop_first());
    } else {
        lemma_sum_qty_update(s.drop_first(), j - 1, o);
        assert(s.update(j, o).drop_first() =~= s.drop_first().update(j - 1, o));
    }
}

/// A queue of positive quantities sums to at least each of them.
pub proof fn lemma_sum_qty_ge(s: Seq<OrderView>, j: int)
    requires
        0 <= j < s.len(),
        forall|k: int| 0 <= k < s.len() ==> val((#[trigger] s[k]).qty) > 0,
    ensures
        sum_qty(s) >= val(s[j].qty),
        sum_qty(s) > 0,
    decreases s.len(),
{
    let t = s.drop_first();
    assert forall|k: int| 0 <= k < t.len() implies val((#[trigger] t[k]).qty) > 0 by {
        assert(t[k] == s[k + 1]);
    }
    assert(val(s[0].qty) > 0);
    if s.len() > 1 {
        if j == 0 {
            lemma_sum_qty_ge(t, 0);
        } else {
            lemma_sum_qty_ge(t, j - 1);
            assert(t[j - 1] == s[j]);
        }
    } else {
        assert(t.len() == 0);
        assert(sum_qty(t) == 0);
    }
}

/// The depth rows of a side: `[price, quantity]` per level, as text.
pub open spec fn depth_rows(s: Seq<LevelView>) -> Seq<Seq<Seq<char>>> {
    s.map_values(|l: LevelView| seq![display(l.price), display(l.available)])
}

/// The view of depth rows.
pub open spec fn rows_view(v: Seq<(String, String)>) -> Seq<Seq<Seq<char>>> {
    v.map_values(|r: (String, String)| seq![r.0@, r.1@])
}

/// Every price and quantity of a sound side is a `Decimal`.
pub proof fn lemma_side_values_ok(levels: Seq<RestingOrder>)
    requires
        side_wf(side_view(levels)),
    ensures
        forall|i: int| 0 <= i < levels.len() ==> valid((#[trigger] levels[i]).price) && valid(levels[i].available_qty),
{
    assert forall|i: int| 0 <= i < levels.len() implies valid((#[trigger] levels[i]).price) && valid(
        levels[i].available_qty,
    ) by {
        assert(side_view(levels)[i] == levels[i]@);
        assert(level_wf(side_view(levels)[i]));
    }
}

fn side_depth(levels: &Vec<RestingOrder>) -> (rows: Vec<(String, String)>)
    requires
        forall|i: int| 0 <= i < levels@.len() ==> valid((#[trigger] levels@[i]).price) && valid(
            levels@[i].available_qty,
        ),
    ensures
        rows_view(rows@) =~= depth_rows(side_view(levels@)),
{
    let mut rows: Vec<(String, String)> = Vec::new();
    let mut i: usize = 0;
    while i < levels.len()
        invariant
            i <= levels@.len(),
            rows@.len() == i,
            forall|k: int| 0 <= k < levels@.len() ==> valid((#[trigger] levels@[k]).price) && valid(
                levels@[k].available_qty,
            ),
            forall|k: int|
                0 <= k < i ==> (#[trigger] rows@[k]).0@ == display(levels@[k].price) && rows@[k].1@ == display(
                    levels@[k].available_qty,
                ),
        decreases levels@.len() - i,
    {
        let p = decimal_to_string(levels[i].price);
        let q = decimal_to_string(levels[i].available_qty);
        let ghost old_rows = rows@;
        rows.push((p, q));
        assert forall|k: int| 0 <= k < i + 1 implies (#[trigger] rows@[k]).0@ == display(levels@[k].price)
            && rows@[k].1@ == display(levels@[k].available_qty) by {
            if k < i {
                assert(rows@[k] == old_rows[k]);
            }
        }
        i = i + 1;
    }
    rows
}

/// The depth of the book: every level of each side, in ascending price.
pub fn get_depth(orderbook: &Orderbook) -> (depth: Depth)
    requires
        book_wf(orderbook@),
    ensures
        rows_view(depth.bids@) == depth_rows(orderbook@.bids),
        rows_view(depth.asks@) == depth_rows(orderbook@.asks),
{
    proof {
        lemma_side_values_ok(orderbook.bids@);
        lemma_side_values_ok(orderbook.asks@);
    }
    let bids = side_depth(&orderbook.bids);
    let asks = side_depth(&orderbook.asks);
    Depth { bids, asks }
}

/// The first index at or after `i` whose level is priced at `p` or above.
pub open spec fn lb_from(s: Seq<LevelView>, p: Dec, i: int) -> int
    decreases s.len() - i,
{
    if i >= s.len() || i < 0 || val(s[i].price) >= val(p) {
        i
    } else {
        lb_from(s, p, i + 1)
    }
}

/// Where a level priced `p` belongs on a side: after every cheaper level.
pub open spec fn lower_bound(s: Seq<LevelView>, p: Dec) -> int {
    lb_from(s, p, 0)
}

/// Whether the side has a level at the price of `o`, at `lower_bound`.
pub open spec fn has_level(s: Seq<LevelView>, o: OrderView) -> bool {
    let k = lower_bound(s, o.price);
    k < s.len() && val(s[k].price) == val(o.price)
}

/// A side with the order `o` added at its price: at the back of the queue of
/// the level of equal price (whose price stays as it was), or as a new level
/// in price order.
pub open spec fn insert_resting(s: Seq<LevelView>, o: OrderView) -> Seq<LevelView> {
    let k = lower_bound(s, o.price);
    if has_level(s, o) {
        s.update(
            k,
            LevelView { price: s[k].price, available: eadd(s[k].available, o.qty), orders: s[k].orders.push(o) },
        )
    } else {
        s.insert(k, LevelView { price: o.price, available: o.qty, orders: seq![o] })
    }
}

/// Resting an order of a side on that side keeps it holding only that side's
/// orders.
pub proof fn lemma_insert_holds(s: Seq<LevelView>, o: OrderView, side: Side)
    requires
        side_holds(s, side),
        o.side == side,
    ensures
        side_holds(insert_resting(s, o), side),
{
    let k = lower_bound(s, o.price);
    lemma_lb_from(s, o.price, 0);
    let r = insert_resting(s, o);
    assert forall|i: int, j: int| 0 <= i < r.len() && 0 <= j < r[i].orders.len() implies (
    #[trigger] r[i].orders[j]).side == side by {
        if has_level(s, o) {
            if i == k {
                if j < s[k].orders.len() {
                    assert(r[i].orders[j] == s[k].orders[j]);
                }
            } else {
                assert(r[i] == s[i]);
            }
        } else {
            if i < k {
                assert(r[i] == s[i]);
            } else if i > k {
                assert(r[i] == s[i - 1]);
            }
        }
    }
}

/// Where `o` joins a level, some `Decimal` has the exact sum of the level's
/// quantity and `o`'s (so `rust_decimal` adds them without rounding).
pub open spec fn insert_ok(s: Seq<LevelView>, o: OrderView) -> bool {
    has_level(s, o) ==> representable(val(s[lower_bound(s, o.price)].available) + val(o.qty))
}

/// On a sound side, `lb_from` stops at the first level priced `p` or above.
pub proof fn lemma_lb_from(s: Seq<LevelView>, p: Dec, i: int)
    requires
        0 <= i <= s.len(),
    ensures
        i <= lb_from(s, p, i) <= s.len(),
        forall|j: int| i <= j < lb_from(s, p, i) ==> val(s[j].price) < val(p),
        lb_from(s, p, i) < s.len() ==> val(s[lb_from(s, p, i)].price) >= val(p),
    decreases s.len() - i,
{
    if i < s.len() && val(s[i].price) < val(p) {
        lemma_lb_from(s, p, i + 1);
    }
}

/// Adding an order to the level of its price keeps a side sound.
proof fn lemma_join_wf(s: Seq<LevelView>, o: OrderView)
    requires
        side_wf(s),
        order_wf(o),
        has_level(s, o),
        insert_ok(s, o),
    ensures
        side_wf(insert_resting(s, o)),
{
    lemma_lb_from(s, o.price, 0);
    let k = lower_bound(s, o.price);
    let r = insert_resting(s, o);
    let l = s[k];
    assert(level_wf(l));
    lemma_eadd(l.available, o.qty);
    lemma_sum_qty_push(l.orders, o);
    let l2 = r[k];
    assert(l2.orders == l.orders.push(o));
    assert forall|j: int| 0 <= j < l2.orders.len() implies order_wf(#[trigger] l2.orders[j]) && val(
        l2.orders[j].price,
    ) == val(l2.price) by {
        if j < l.orders.len() {
            assert(l2.orders[j] == l.orders[j]);
        }
    }
    assert(level_wf(l2));
    assert forall|i: int| 0 <= i < r.len() implies level_wf(#[trigger] r[i]) by {
        if i != k {
            assert(r[i] == s[i]);
        }
    }
    assert forall|i: int, j: int| 0 <= i < j < r.len() implies val(r[i].price) < val(r[j].price) by {
        assert(r[i].price == s[i].price);
        assert(r[j].price == s[j].price);
    }
}

/// Opening a level for an order keeps a side sound.
proof fn lemma_open_level_wf(s: Seq<LevelView>, o: OrderView)
    requires
        side_wf(s),
        order_wf(o),
        !has_level(s, o),
    ensures
        side_wf(insert_resting(s, o)),
{
    lemma_lb_from(s, o.price, 0);
    let k = lower_bound(s, o.price);
    let r = insert_resting(s, o);
    let nl = LevelView { price: o.price, available: o.qty, orders: seq![o] };
    assert(r == s.insert(k, nl));
    assert(nl.orders.drop_first() =~= Seq::<OrderView>::empty());
    assert(sum_qty(nl.orders.drop_first()) == 0);
    assert(level_wf(nl));
    assert forall|i: int| 0 <= i < r.len() implies level_wf(#[trigger] r[i]) by {
        if i < k {
            assert(r[i] == s[i]);
        } else if i > k {
            assert(r[i] == s[i - 1]);
        }
    }
    assert forall|i: int, j: int| 0 <= i < j < r.len() implies val(r[i].price) < val(r[j].price) by {
        if j < k {
            assert(r[i] == s[i] && r[j] == s[j]);
        } else if j == k {
            assert(r[i] == s[i]);
        } else if i < k {
            assert(r[i] == s[i] && r[j] == s[j - 1]);
            assert(val(s[k].price) > val(o.price));
        } else if i == k {
            assert(r[j] == s[j - 1]);
            assert(val(s[k].price) > val(o.price));
        } else {
            assert(r[i] == s[i - 1] && r[j] == s[j - 1]);
        }
    }
}

/// Inserting a sound order keeps a side sound.
pub proof fn lemma_insert_wf(s: Seq<LevelView>, o: OrderView)
    requires
        side_wf(s),
        order_wf(o),
        insert_ok(s, o),
    ensures
        side_wf(insert_resting(s, o)),
{
    if has_level(s, o) {
        lemma_join_wf(s, o);
    } else {
        lemma_open_level_wf(s, o);
    }
}

/// The index `lower_bound` gives for the price of `o`.
fn find_level(levels: &Vec<RestingOrder>, o: &Orders) -> (i: usize)
    requires
        side_wf(side_view(levels@)),
        valid(o.price),
    ensures
        i as int == lower_bound(side_view(levels@), o.price),
        i <= levels@.len(),
{
    let ghost s = side_view(levels@);
    proof {
        lemma_lb_from(s, o.price, 0);
        lemma_side_values_ok(levels@);
    }
    let mut i: usize = 0;
    while i < levels.len() && dec_lt(levels[i].price, o.price)
        invariant
            0 <= i <= levels@.len(),
            s == side_view(levels@),
            valid(o.price),
            forall|k: int| 0 <= k < levels@.len() ==> valid((#[trigger] levels@[k]).price),
            lb_from(s, o.price, i as int) == lower_bound(s, o.price),
        decreases levels@.len() - i,
    {
        assert(s[i as int] == levels@[i as int]@);
        i = i + 1;
    }
    proof {
        if i < levels.len() {
            assert(s[i as int] == levels@[i as int]@);
        }
    }
    assert(lb_from(s, o.price, i as int) == i);
    i
}

/// Whether `Decimal` adds `o` to its level's quantity exactly (see
/// `insert_ok`).
pub fn insert_fits(levels: &Vec<RestingOrder>, o: &Orders) -> (b: bool)
    requires
        side_wf(side_view(levels@)),
        valid(o.qty),
        valid(o.price),
    ensures
        b == insert_ok(side_view(levels@), o@),
{
    let ghost s = side_view(levels@);
    proof {
        lemma_side_values_ok(levels@);
        lemma_lb_from(s, o.price, 0);
    }
    let i = find_level(levels, o);
    if i < levels.len() && !dec_lt(o.price, levels[i].price) {
        assert(s[i as int] == levels@[i as int]@);
        assert(level_wf(s[i as int]));
        add_exactly(levels[i].available_qty, o.qty).is_some()
    } else {
        proof {
            if i < levels.len() {
                assert(s[i as int] == levels@[i as int]@);
            }
        }
        true
    }
}

/// Adds a resting order to a side at its price.
pub fn insert_order(levels: &mut Vec<RestingOrder>, o: Orders)
    requires
        side_wf(side_view(old(levels)@)),
        order_wf(o@),
        insert_ok(side_view(old(levels)@), o@),
    ensures
        side_view(final(levels)@) == insert_resting(side_view(old(levels)@), o@),
        side_wf(side_view(final(levels)@)),
{
    let ghost s = side_view(levels@);
    proof {
        lemma_insert_wf(s, o@);
        lemma_side_values_ok(levels@);
        lemma_lb_from(s, o.price, 0);
    }
    let i = find_level(levels, &o);
    let joins = i < levels.len() && !dec_lt(o.price, levels[i].price);
    proof {
        if i < levels.len() {
            assert(s[i as int] == levels@[i as int]@);
        }
        assert(joins == has_level(s, o@));
    }
    if joins {
        let mut lvl = levels.remove(i);
        let ghost old_lvl = lvl@;
        assert(old_lvl == s[i as int]);
        assert(level_wf(old_lvl));
        match add_exactly(lvl.available_qty, o.qty) {
            Some(v) => {
                lvl.available_qty = v;
            },
            None => {},
        }
        lvl.orders.push_back(o);
        assert(lvl.orders@.map_values(|x: Orders| x@) =~= old_lvl.orders.push(o@));
        let ghost new_lvl = lvl@;
        levels.insert(i, lvl);
        assert(side_view(levels@) =~= s.update(i as int, new_lvl));
    } else {
        let price = o.price;
        let qty = o.qty;
        let mut orders: VecDeque<Orders> = VecDeque::new();
        orders.push_back(o);
        assert(orders@.map_values(|x: Orders| x@) =~= seq![o@]);
        let nl = RestingOrder { price, available_qty: qty, orders };
        let ghost nlv = nl@;
        levels.insert(i, nl);
        assert(side_view(levels@) =~= s.insert(i as int, nlv));
    }
    assert(side_view(levels@) =~= insert_resting(s, o@));
}

} // verus!
