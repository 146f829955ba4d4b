//! Matching an incoming order against the opposite side of the book.
use vstd::prelude::*;
use crate::amount::{
    Dec, dec_lt, dec_mul, dec_sub, esub, lemma_esub, lemma_esub_self, lemma_rounded_valid, lemma_val_sign, representable,
    rmul, rsub, sub_exactly, val, valid,
};
use crate::book::{
    BookView, LevelView, OrderView, Orderbook, Orders, RestingOrder, book_wf, insert_fits, insert_ok, insert_order,
    insert_resting, lemma_insert_holds, lemma_sum_qty_remove, lemma_sum_qty_update, level_wf, order_wf, side_holds,
    side_view, side_wf,
};
use crate::text::text;
use crate::types::{OrderStatus, Side, Trade, TradeView, TypeOfOrder, trades_view};

verus! {

/// An incoming order, its amounts read and its id assigned.
#[derive(Debug, Clone)]
pub struct OrderData {
    pub market: String,
    pub qty: Dec,
    pub price: Option<Dec>,
    pub order_type: TypeOfOrder,
    pub user_id: String,
    pub side: Side,
    pub order_id: String,
    pub status: OrderStatus,
}

/// An incoming order as the contracts see it.
pub struct OrderDataView {
    pub market: Seq<char>,
    pub qty: Dec,
    pub price: Option<Dec>,
    pub order_type: TypeOfOrder,
    pub user_id: Seq<char>,
    pub side: Side,
    pub order_id: Seq<char>,
    pub status: OrderStatus,
}

impl View for OrderData {
    type V = OrderDataView;

    open spec fn view(&self) -> OrderDataView {
        OrderDataView {
            market: self.market@,
            qty: self.qty,
            price: self.price,
            order_type: self.order_type,
            user_id: self.user_id@,
            side: self.side,
            order_id: self.order_id@,
            status: self.status,
        }
    }
}

/// A change to one balance field.
#[derive(Debug, Clone, Copy, PartialEq, Eq, Structural)]
pub enum BalanceOps {
    Increase(Dec),
    Decrease(Dec),
}

/// A change to one balance field as the contracts see it.
pub enum OpView {
    Increase(Dec),
    Decrease(Dec),
}

/// The view of an optional change.
pub open spec fn op_view(o: Option<BalanceOps>) -> Option<OpView> {
    match o {
        Some(BalanceOps::Increase(v)) => Some(OpView::Increase(v)),
        Some(BalanceOps::Decrease(v)) => Some(OpView::Decrease(v)),
        None => None,
    }
}

/// A request to change one user's balance of one asset.
#[derive(Debug)]
pub struct UpdateBalance {
    pub user_id: String,
    pub asset: String,
    pub available_balance: Option<BalanceOps>,
    pub locked_balance: Option<BalanceOps>,
    pub reserved_balance: Option<BalanceOps>,
}

/// A balance change as the contracts see it.
pub struct UpdateView {
    pub user_id: Seq<char>,
    pub asset: Seq<char>,
    pub available: Option<OpView>,
    pub locked: Option<OpView>,
    pub reserved: Option<OpView>,
}

impl View for UpdateBalance {
    type V = UpdateView;

    open spec fn view(&self) -> UpdateView {
        UpdateView {
            user_id: self.user_id@,
            asset: self.asset@,
            available: op_view(self.available_balance),
            locked: op_view(self.locked_balance),
            reserved: op_view(self.reserved_balance),
        }
    }
}

/// The views of a sequence of balance changes.
pub open spec fn updates_view(v: Seq<UpdateBalance>) -> Seq<UpdateView> {
    v.map_values(|u: UpdateBalance| u@)
}

/// The state of a matching run: the opposite side, the incoming order with
/// what is left of it, and the trades and balance changes so far.
pub struct MatchState {
    pub levels: Seq<LevelView>,
    pub taker: OrderDataView,
    pub trades: Seq<TradeView>,
    pub updates: Seq<UpdateView>,
}

/// Orders and levels left on a side: a bound on the steps of a run.
pub open spec fn side_measure(s: Seq<LevelView>) -> nat
    decreases s.len(),
{
    if s.len() == 0 {
        0
    } else {
        s[0].orders.len() + 1 + side_measure(s.drop_first())
    }
}

/// The incoming order trades with the level priced `best` (the opposite
/// side's first, lowest-priced level): a market order always, a limit buy at
/// or above it, a limit sell at or below it.
pub open spec fn crosses(t: OrderDataView, best: Dec) -> bool {
    t.order_type == TypeOfOrder::MARKET || match t.side {
        Side::BUY => val(t.price.unwrap()) >= val(best),
        Side::SELL => val(t.price.unwrap()) <= val(best),
    }
}

/// The quantity of a fill: the smaller of the two quantities (the incoming
/// order's where they are equal).
pub open spec fn fill_of(t: OrderDataView, front: OrderView) -> Dec {
    if val(t.qty) <= val(front.qty) {
        t.qty
    } else {
        front.qty
    }
}

/// What a buyer gets back of a fill `f` settled at `best` below its limit
/// `lim`: the fill at the limit less the fill at `best`, as `Decimal`
/// computes them.
pub open spec fn refund(f: Dec, lim: Dec, best: Dec) -> Option<Dec> {
    match (rmul(f, lim), rmul(f, best)) {
        (Some(a), Some(b)) => rsub(a, b),
        _ => None,
    }
}

/// Some `Decimal` has the exact value of each quantity less the fill (so
/// `rust_decimal` takes the fill off without rounding), the fill's values do
/// not overflow, and a buy has a price to settle at.
pub open spec fn fill_ok(t: OrderDataView, lvl: LevelView, front: OrderView, f: Dec) -> bool {
    &&& representable(val(t.qty) - val(f))
    &&& representable(val(front.qty) - val(f))
    &&& representable(val(lvl.available) - val(f))
    &&& match t.side {
        Side::BUY => t.price is Some && refund(f, t.price.unwrap(), lvl.price) is Some,
        Side::SELL => rmul(f, front.price) is Some,
    }
}

/// The trade of a fill, at the resting order's price.
pub open spec fn fill_trade(t: OrderDataView, front: OrderView, f: Dec) -> TradeView {
    TradeView {
        maker_order_id: front.order_id,
        taker_order_id: t.order_id,
        maker_user_id: front.user_id,
        taker_user_id: t.user_id,
        fill_qty: f,
        price: front.price,
    }
}

/// A balance change.
pub open spec fn upd(
    user: Seq<char>,
    asset: Seq<char>,
    available: Option<OpView>,
    locked: Option<OpView>,
    reserved: Option<OpView>,
) -> UpdateView {
    UpdateView { user_id: user, asset, available, locked, reserved }
}

/// The four balance changes of a fill, in the order they are issued.
/// A buy (settled at the level's price `best`): the taker gets back the
/// difference between the fill at its price and at `best` and gives up the
/// latter from its reserve, and takes the asset; the maker is paid and its
/// locked asset released. A sell (settled at the resting order's price): the
/// taker's reserved asset goes, it is paid; the maker takes the asset and
/// its locked USDT is released.
pub open spec fn fill_updates(t: OrderDataView, front: OrderView, best: Dec, f: Dec) -> Seq<UpdateView> {
    match t.side {
        Side::BUY => seq![
            upd(
                t.user_id,
                "USDT"@,
                Some(OpView::Increase(refund(f, t.price.unwrap(), best).unwrap())),
                None,
                Some(OpView::Decrease(rmul(f, best).unwrap())),
            ),
            upd(t.user_id, t.market, Some(OpView::Increase(f)), None, None),
            upd(front.user_id, "USDT"@, Some(OpView::Increase(rmul(f, best).unwrap())), None, None),
            upd(front.user_id, t.market, None, Some(OpView::Decrease(f)), None),
        ],
        Side::SELL => seq![
            upd(t.user_id, t.market, None, None, Some(OpView::Decrease(f))),
            upd(t.user_id, "USDT"@, Some(OpView::Increase(rmul(f, front.price).unwrap())), None, None),
            upd(front.user_id, t.market, Some(OpView::Increase(f)), None, None),
            upd(front.user_id, "USDT"@, None, Some(OpView::Decrease(rmul(f, front.price).unwrap())), None),
        ],
    }
}

/// One fill against the first order of the side's first (lowest-priced)
/// level, for asks and bids alike: both orders and the level lose the fill, a
/// consumed order leaves the queue, an emptied level leaves the side.
pub open spec fn after_fill(st: MatchState) -> MatchState {
    let lvl = st.levels[0];
    let front = lvl.orders[0];
    let f = fill_of(st.taker, front);
    let front2 = OrderView { qty: esub(front.qty, f), ..front };
    let orders2 = if front2.qty.m == 0 {
        lvl.orders.drop_first()
    } else {
        lvl.orders.update(0, front2)
    };
    let lvl2 = LevelView { price: lvl.price, available: esub(lvl.available, f), orders: orders2 };
    let levels2 = if orders2.len() == 0 {
        st.levels.drop_first()
    } else {
        st.levels.update(0, lvl2)
    };
    MatchState {
        levels: levels2,
        taker: OrderDataView { qty: esub(st.taker.qty, f), ..st.taker },
        trades: st.trades.push(fill_trade(st.taker, front, f)),
        updates: st.updates + fill_updates(st.taker, front, lvl.price, f),
    }
}

/// The measure of a side with its first level replaced.
pub proof fn lemma_measure_update_first(s: Seq<LevelView>, l: LevelView)
    requires
        s.len() > 0,
    ensures
        side_measure(s.update(0, l)) == l.orders.len() + 1 + side_measure(s.drop_first()),
        side_measure(s) == s[0].orders.len() + 1 + side_measure(s.drop_first()),
{
    assert(s.update(0, l).drop_first() =~= s.drop_first());
}

/// A fill takes the run closer to its end.
pub proof fn lemma_after_fill_measure(st: MatchState)
    requires
        st.levels.len() > 0,
        st.levels[0].orders.len() > 0,
        st.taker.qty.m != 0,
    ensures
        side_measure(after_fill(st).levels) + (if after_fill(st).taker.qty.m != 0 { 1nat } else { 0nat })
            < side_measure(st.levels) + 1,
{
    let lvl = st.levels[0];
    let front = lvl.orders[0];
    let f = fill_of(st.taker, front);
    let front2 = OrderView { qty: esub(front.qty, f), ..front };
    let orders2 = if front2.qty.m == 0 {
        lvl.orders.drop_first()
    } else {
        lvl.orders.update(0, front2)
    };
    let lvl2 = LevelView { price: lvl.price, available: esub(lvl.available, f), orders: orders2 };
    lemma_esub_self(front.qty);
    lemma_esub_self(st.taker.qty);
    lemma_measure_update_first(st.levels, lvl2);
}

/// A matching run: fill against the first (lowest-priced) level while the
/// incoming order has quantity left and crosses it. The flag is false where
/// no `Decimal` has the exact value of a quantity less a fill, one of the
/// fill's values overflows `Decimal`, or a limit order has no price.
pub open spec fn run_match(st: MatchState) -> (MatchState, bool)
    decreases side_measure(st.levels) + (if st.taker.qty.m != 0 { 1nat } else { 0nat }),
{
    if st.taker.qty.m == 0 || st.levels.len() == 0 {
        (st, true)
    } else if st.taker.order_type == TypeOfOrder::LIMIT && st.taker.price is None {
        (st, false)
    } else if !crosses(st.taker, st.levels[0].price) {
        (st, true)
    } else if st.levels[0].orders.len() == 0 {
        (st, false)
    } else if !fill_ok(
        st.taker,
        st.levels[0],
        st.levels[0].orders[0],
        fill_of(st.taker, st.levels[0].orders[0]),
    ) {
        (st, false)
    } else {
        proof {
            lemma_after_fill_measure(st);
        }
        run_match(after_fill(st))
    }
}

/// The matching state that the executable values stand for.
pub open spec fn state_of(
    levels: Seq<RestingOrder>,
    order: OrderData,
    trades: Seq<Trade>,
    updates: Seq<UpdateBalance>,
) -> MatchState {
    MatchState {
        levels: side_view(levels),
        taker: order@,
        trades: trades_view(trades),
        updates: updates_view(updates),
    }
}

/// The amounts of an incoming order are `Decimal`s.
pub open spec fn order_amounts_ok(o: OrderDataView) -> bool {
    valid(o.qty) && (o.price matches Some(p) ==> valid(p))
}

/// A fill keeps the side sound.
pub proof fn lemma_after_fill_wf(st: MatchState)
    requires
        side_wf(st.levels),
        st.levels.len() > 0,
        order_amounts_ok(st.taker),
        fill_ok(st.taker, st.levels[0], st.levels[0].orders[0], fill_of(st.taker, st.levels[0].orders[0])),
    ensures
        side_wf(after_fill(st).levels),
        order_amounts_ok(after_fill(st).taker),
{
    let lvl = st.levels[0];
    assert(level_wf(lvl));
    let front = lvl.orders[0];
    assert(order_wf(front));
    let f = fill_of(st.taker, front);
    assert(valid(f));
    lemma_esub(front.qty, f);
    lemma_esub(lvl.available, f);
    lemma_esub(st.taker.qty, f);
    let front2 = OrderView { qty: esub(front.qty, f), ..front };
    lemma_val_sign(front2.qty);
    let orders2 = if front2.qty.m == 0 {
        lvl.orders.drop_first()
    } else {
        lvl.orders.update(0, front2)
    };
    let lvl2 = LevelView { price: lvl.price, available: esub(lvl.available, f), orders: orders2 };
    assert(val(f) <= val(front.qty));
    if front2.qty.m == 0 {
        lemma_sum_qty_remove(lvl.orders, 0);
        assert(lvl.orders.remove(0) =~= lvl.orders.drop_first());
        assert forall|j: int| 0 <= j < orders2.len() implies order_wf(#[trigger] orders2[j]) && val(
            orders2[j].price,
        ) == val(lvl2.price) by {
            assert(orders2[j] == lvl.orders[j + 1]);
        }
    } else {
        lemma_sum_qty_update(lvl.orders, 0, front2);
        assert(order_wf(front2));
        assert forall|j: int| 0 <= j < orders2.len() implies order_wf(#[trigger] orders2[j]) && val(
            orders2[j].price,
        ) == val(lvl2.price) by {
            if j > 0 {
                assert(orders2[j] == lvl.orders[j]);
            }
        }
    }
    let levels2 = after_fill(st).levels;
    if orders2.len() == 0 {
        assert forall|i: int| 0 <= i < levels2.len() implies level_wf(#[trigger] levels2[i]) by {
            assert(levels2[i] == st.levels[i + 1]);
        }
        assert forall|i: int, j: int| 0 <= i < j < levels2.len() implies val(levels2[i].price) < val(
            levels2[j].price,
        ) by {
            assert(levels2[i] == st.levels[i + 1]);
            assert(levels2[j] == st.levels[j + 1]);
        }
    } else {
        assert(level_wf(lvl2));
        assert forall|i: int| 0 <= i < levels2.len() implies level_wf(#[trigger] levels2[i]) by {
            if i > 0 {
                assert(levels2[i] == st.levels[i]);
            }
        }
        assert forall|i: int, j: int| 0 <= i < j < levels2.len() implies val(levels2[i].price) < val(
            levels2[j].price,
        ) by {
            assert(levels2[i].price == st.levels[i].price);
            assert(levels2[j].price == st.levels[j].price);
        }
    }
}

/// Whether `Decimal` computes the amounts of a fill (see `fill_ok`).
fn fill_checks(order: &OrderData, lvl: &RestingOrder, front: &Orders, f: Dec) -> (b: bool)
    requires
        order_amounts_ok(order@),
        level_wf(lvl@),
        front@ == lvl@.orders[0],
        f == fill_of(order@, front@),
    ensures
        b == fill_ok(order@, lvl@, front@, f),
{
    assert(order_wf(front@));
    if sub_exactly(order.qty, f).is_none() || sub_exactly(front.qty, f).is_none() || sub_exactly(
        lvl.available_qty,
        f,
    ).is_none() {
        return false;
    }
    match order.side {
        Side::BUY => match order.price {
            None => false,
            Some(lim) => {
                proof {
                    lemma_rounded_valid(f, lim);
                    lemma_rounded_valid(f, lvl.price);
                }
                match (dec_mul(f, lim), dec_mul(f, lvl.price)) {
                    (Some(a), Some(b)) => dec_sub(a, b).is_some(),
                    _ => false,
                }
            },
        },
        Side::SELL => dec_mul(f, front.price).is_some(),
    }
}

/// Issues the balance changes of one fill.
fn push_fill_updates(order: &OrderData, front: &Orders, best: Dec, f: Dec, updates: &mut Vec<UpdateBalance>)
    requires
        valid(f),
        valid(best),
        valid(front.price),
        order_amounts_ok(order@),
        match order.side {
            Side::BUY => order.price is Some && refund(f, order.price.unwrap(), best) is Some,
            Side::SELL => rmul(f, front.price) is Some,
        },
    ensures
        updates_view(final(updates)@) == updates_view(old(updates)@) + fill_updates(order@, front@, best, f),
{
    let ghost before = updates@;
    match order.side {
        Side::BUY => {
            let lim = order.price.unwrap();
            proof {
                lemma_rounded_valid(f, lim);
                lemma_rounded_valid(f, best);
            }
            let paid_at_limit = dec_mul(f, lim).unwrap();
            let paid_at_best = dec_mul(f, best).unwrap();
            let back = dec_sub(paid_at_limit, paid_at_best).unwrap();
            updates.push(UpdateBalance {
                user_id: order.user_id.clone(),
                asset: text("USDT"),
                available_balance: Some(BalanceOps::Increase(back)),
                locked_balance: None,
                reserved_balance: Some(BalanceOps::Decrease(paid_at_best)),
            });
            updates.push(UpdateBalance {
                user_id: order.user_id.clone(),
                asset: order.market.clone(),
                available_balance: Some(BalanceOps::Increase(f)),
                locked_balance: None,
                reserved_balance: None,
            });
            updates.push(UpdateBalance {
                user_id: front.user_id.clone(),
                asset: text("USDT"),
                available_balance: Some(BalanceOps::Increase(paid_at_best)),
                locked_balance: None,
                reserved_balance: None,
            });
            updates.push(UpdateBalance {
                user_id: front.user_id.clone(),
                asset: order.market.clone(),
                available_balance: None,
                locked_balance: Some(BalanceOps::Decrease(f)),
                reserved_balance: None,
            });
        },
        Side::SELL => {
            let value = dec_mul(f, front.price).unwrap();
            updates.push(UpdateBalance {
                user_id: order.user_id.clone(),
                asset: order.market.clone(),
                available_balance: None,
                locked_balance: None,
                reserved_balance: Some(BalanceOps::Decrease(f)),
            });
            updates.push(UpdateBalance {
                user_id: order.user_id.clone(),
                asset: text("USDT"),
                available_balance: Some(BalanceOps::Increase(value)),
                locked_balance: None,
                reserved_balance: None,
            });
            updates.push(UpdateBalance {
                user_id: front.user_id.clone(),
                asset: order.market.clone(),
                available_balance: Some(BalanceOps::Increase(f)),
                locked_balance: None,
                reserved_balance: None,
            });
            updates.push(UpdateBalance {
                user_id: front.user_id.clone(),
                asset: text("USDT"),
                available_balance: None,
                locked_balance: Some(BalanceOps::Decrease(value)),
                reserved_balance: None,
            });
        },
    }
    assert(updates_view(updates@) =~= updates_view(before) + fill_updates(order@, front@, best, f));
}

/// Matches `order` against one side of the book (the asks for a buy, the
/// bids for a sell), lowest-priced level first, oldest order first within a
/// level. Returns false, with the run cut short, exactly where `run_match`
/// does: no `Decimal` has the exact value of a quantity less a fill, one of
/// the fill's values overflows `Decimal`, or a limit order has no price.
pub fn match_against(
    levels: &mut Vec<RestingOrder>,
    order: &mut OrderData,
    trades: &mut Vec<Trade>,
    updates: &mut Vec<UpdateBalance>,
) -> (ok: bool)
    requires
        side_wf(side_view(old(levels)@)),
        order_amounts_ok(old(order)@),
    ensures
        ok == run_match(state_of(old(levels)@, *old(order), old(trades)@, old(updates)@)).1,
        ok ==> state_of(final(levels)@, *final(order), final(trades)@, final(updates)@) == run_match(
            state_of(old(levels)@, *old(order), old(trades)@, old(updates)@),
        ).0,
        side_wf(side_view(final(levels)@)),
        order_amounts_ok(final(order)@),
        forall|side: Side| side_holds(side_view(old(levels)@), side) ==> #[trigger] side_holds(side_view(final(levels)@), side),
{
    let ghost init = state_of(levels@, *order, trades@, updates@);
    loop
        invariant
            side_wf(side_view(levels@)),
            order_amounts_ok(order@),
            run_match(state_of(levels@, *order, trades@, updates@)) == run_match(init),
            init == state_of(old(levels)@, *old(order), old(trades)@, old(updates)@),
            forall|side: Side| side_holds(side_view(old(levels)@), side) ==> #[trigger] side_holds(side_view(levels@), side),
        ensures
            run_match(init) == (state_of(levels@, *order, trades@, updates@), true),
            side_wf(side_view(levels@)),
            order_amounts_ok(order@),
            forall|side: Side| side_holds(side_view(old(levels)@), side) ==> #[trigger] side_holds(side_view(levels@), side),
        decreases side_measure(side_view(levels@)) + (if order.qty.m != 0 { 1nat } else { 0nat }),
    {
        let ghost cur = state_of(levels@, *order, trades@, updates@);
        if order.qty.m == 0 {
            break;
        }
        if levels.len() == 0 {
            break;
        }
        assert(levels@[0]@ == cur.levels[0]);
        assert(level_wf(cur.levels[0]));
        let best = levels[0].price;
        assert(cur.levels[0].price == best);
        let crosses_now = match order.order_type {
            TypeOfOrder::MARKET => true,
            TypeOfOrder::LIMIT => match order.price {
                None => {
                    assert(run_match(cur).1 == false);
                    return false;
                },
                Some(p) => match order.side {
                    Side::BUY => !dec_lt(p, best),
                    Side::SELL => !dec_lt(best, p),
                },
            },
        };
        if !crosses_now {
            break;
        }
        assert(levels@[0].orders@[0]@ == cur.levels[0].orders[0]);
        assert(order_wf(cur.levels[0].orders[0]));
        let f: Dec = if !dec_lt(levels[0].orders[0].qty, order.qty) {
            order.qty
        } else {
            levels[0].orders[0].qty
        };
        if !fill_checks(order, &levels[0], &levels[0].orders[0], f) {
            assert(run_match(cur).1 == false);
            return false;
        }
        let mut lvl = levels.remove(0);
        assert(lvl@ == cur.levels[0]);
        let mut front = lvl.orders.pop_front().unwrap();
        assert(front@ == cur.levels[0].orders[0]);
        proof {
            lemma_after_fill_measure(cur);
            lemma_after_fill_wf(cur);
            assert forall|side: Side| side_holds(side_view(old(levels)@), side) implies #[trigger] side_holds(
                after_fill(cur).levels,
                side,
            ) by {
                lemma_after_fill_holds(cur, side);
            }
        }
        let ghost next = after_fill(cur);
        trades.push(
            Trade {
                maker_order_id: front.order_id.clone(),
                taker_order_id: order.order_id.clone(),
                maker_user_id: front.user_id.clone(),
                taker_user_id: order.user_id.clone(),
                fill_qty: f,
                price: front.price,
            },
        );
        push_fill_updates(order, &front, best, f, updates);
        order.qty = sub_exactly(order.qty, f).unwrap();
        front.qty = sub_exactly(front.qty, f).unwrap();
        lvl.available_qty = sub_exactly(lvl.available_qty, f).unwrap();
        if front.qty.m != 0 {
            lvl.orders.push_front(front);
        }
        proof {
            assert(lvl.orders@.map_values(|o: Orders| o@) =~= (if front.qty.m == 0 {
                cur.levels[0].orders.drop_first()
            } else {
                cur.levels[0].orders.update(0, front@)
            }));
        }
        if lvl.orders.len() > 0 {
            levels.insert(0, lvl);
        }
        assert(side_view(levels@) =~= next.levels);
        assert(trades_view(trades@) =~= next.trades);
        assert(order@ == next.taker);
    }
    true
}

/// A fill keeps a side holding only one side's orders.
proof fn lemma_after_fill_holds(st: MatchState, side: Side)
    requires
        st.levels.len() > 0,
        st.levels[0].orders.len() > 0,
        side_holds(st.levels, side),
    ensures
        side_holds(after_fill(st).levels, side),
{
    let s = st.levels;
    let s2 = after_fill(st).levels;
    let lvl = s[0];
    assert forall|a: int, b: int| 0 <= a < s2.len() && 0 <= b < s2[a].orders.len() implies (
    #[trigger] s2[a].orders[b]).side == side by {
        if s2.len() < s.len() {
            assert(s2[a] == s[a + 1]);
        } else if a > 0 {
            assert(s2[a] == s[a]);
        } else if s2[0].orders.len() < lvl.orders.len() {
            assert(s2[0].orders[b] == lvl.orders[b + 1]);
        } else {
            assert(lvl.orders[b].side == side);
        }
    }
}

/// A run keeps the side it runs against holding only one side's orders.
pub proof fn lemma_run_holds(st: MatchState, side: Side)
    requires
        side_holds(st.levels, side),
    ensures
        side_holds(run_match(st).0.levels, side),
    decreases side_measure(st.levels) + (if st.taker.qty.m != 0 { 1nat } else { 0nat }),
{
    if st.taker.qty.m == 0 || st.levels.len() == 0 {
    } else if st.taker.order_type == TypeOfOrder::LIMIT && st.taker.price is None {
    } else if !crosses(st.taker, st.levels[0].price) {
    } else if st.levels[0].orders.len() == 0 {
    } else if !fill_ok(
        st.taker,
        st.levels[0],
        st.levels[0].orders[0],
        fill_of(st.taker, st.levels[0].orders[0]),
    ) {
    } else {
        lemma_after_fill_measure(st);
        lemma_after_fill_holds(st, side);
        lemma_run_holds(after_fill(st), side);
    }
}

/// A run changes nothing of the incoming order but its quantity.
pub proof fn lemma_run_keeps_taker(st: MatchState)
    ensures
        run_match(st).0.taker == (OrderDataView { qty: run_match(st).0.taker.qty, ..st.taker }),
    decreases side_measure(st.levels) + (if st.taker.qty.m != 0 { 1nat } else { 0nat }),
{
    if st.taker.qty.m == 0 || st.levels.len() == 0 {
    } else if st.taker.order_type == TypeOfOrder::LIMIT && st.taker.price is None {
    } else if !crosses(st.taker, st.levels[0].price) {
    } else if st.levels[0].orders.len() == 0 {
    } else if !fill_ok(
        st.taker,
        st.levels[0],
        st.levels[0].orders[0],
        fill_of(st.taker, st.levels[0].orders[0]),
    ) {
    } else {
        lemma_after_fill_measure(st);
        lemma_run_keeps_taker(after_fill(st));
    }
}

/// What matching an order does to a book.
pub struct MatchOutcome {
    pub book: BookView,
    pub trades: Seq<TradeView>,
    pub updates: Seq<UpdateView>,
    pub ok: bool,
}

/// The side an order matches against: the asks for a buy, the bids for a sell.
pub open spec fn opposite_side(b: BookView, side: Side) -> Seq<LevelView> {
    match side {
        Side::BUY => b.asks,
        Side::SELL => b.bids,
    }
}

/// The side an order rests on: the bids for a buy, the asks for a sell.
pub open spec fn own_side(b: BookView, side: Side) -> Seq<LevelView> {
    match side {
        Side::BUY => b.bids,
        Side::SELL => b.asks,
    }
}

/// The book with the opposite side of `side` replaced.
pub open spec fn with_opposite(b: BookView, side: Side, s: Seq<LevelView>) -> BookView {
    match side {
        Side::BUY => BookView { asks: s, ..b },
        Side::SELL => BookView { bids: s, ..b },
    }
}

/// The book with the own side of `side` replaced.
pub open spec fn with_own(b: BookView, side: Side, s: Seq<LevelView>) -> BookView {
    match side {
        Side::BUY => BookView { bids: s, ..b },
        Side::SELL => BookView { asks: s, ..b },
    }
}

/// The order that rests after matching, with what is left of it.
pub open spec fn resting_of(t: OrderDataView, traded: bool) -> OrderView {
    OrderView {
        order_id: t.order_id,
        user_id: t.user_id,
        market: t.market,
        side: t.side,
        qty: t.qty,
        order_type: t.order_type,
        price: t.price.unwrap(),
        status: if traded {
            OrderStatus::PartialyFilled
        } else {
            OrderStatus::OPEN
        },
    }
}

/// The balance change that locks what a resting order commits: USDT at its
/// price for a buy, the asset for a sell.
pub open spec fn lock_update(t: OrderDataView) -> UpdateView {
    match t.side {
        Side::BUY => upd(t.user_id, "USDT"@, None, Some(OpView::Increase(rmul(t.qty, t.price.unwrap()).unwrap())), None),
        Side::SELL => upd(t.user_id, t.market, None, Some(OpView::Increase(t.qty)), None),
    }
}

/// Matching an order: a run against the opposite side; then what is left of
/// a limit order rests on its own side at its price, and its commitment is
/// locked. A market order never rests.
pub open spec fn spec_match_order(book: BookView, order: OrderDataView) -> MatchOutcome {
    let (st, ok) = run_match(
        MatchState { levels: opposite_side(book, order.side), taker: order, trades: seq![], updates: seq![] },
    );
    let book1 = with_opposite(book, order.side, st.levels);
    let t = st.taker;
    if !ok {
        MatchOutcome { book: book1, trades: st.trades, updates: st.updates, ok: false }
    } else if t.qty.m > 0 && t.order_type != TypeOfOrder::MARKET {
        let o = resting_of(t, st.trades.len() > 0);
        let own = own_side(book1, order.side);
        MatchOutcome {
            book: with_own(book1, order.side, insert_resting(own, o)),
            trades: st.trades,
            updates: st.updates.push(lock_update(t)),
            ok: t.price is Some && (t.side == Side::BUY ==> rmul(t.qty, t.price.unwrap()) is Some) && insert_ok(
                own,
                o,
            ),
        }
    } else {
        MatchOutcome { book: book1, trades: st.trades, updates: st.updates, ok: true }
    }
}

/// Why the engine cannot process a message (where the original task stops).
#[derive(Debug, Clone, Copy, PartialEq, Eq, Structural)]
pub enum EngineFault {
    /// An amount is not text that `rust_decimal` reads.
    InvalidAmount,
    /// An amount overflows `Decimal`, no `Decimal` has a book quantity's
    /// exact value, or a limit order has no price.
    Unprocessable,
    /// A balance change names a user or an asset without a balance.
    UnknownAccount,
}

/// Matches `order` against the book: it trades with the opposite side,
/// lowest-priced level first (the best ask; for a sell, the lowest bid) and
/// oldest order first, at the resting orders' prices; what is
/// left of a limit order rests and its commitment is locked. Returns the
/// trades and the balance changes they call for, in order; fails exactly
/// where `spec_match_order` is not `ok`: an amount overflows `Decimal`, a
/// book quantity's exact value is no `Decimal`'s, or a limit order has no price.
pub fn match_order(orderbook: &mut Orderbook, order: OrderData) -> (res: Result<
    (Vec<Trade>, Vec<UpdateBalance>),
    EngineFault,
>)
    requires
        book_wf(old(orderbook)@),
        order_amounts_ok(order@),
    ensures
        book_wf(final(orderbook)@),
        res is Ok <==> spec_match_order(old(orderbook)@, order@).ok,
        res matches Ok((trades, updates)) ==> {
            &&& final(orderbook)@ == spec_match_order(old(orderbook)@, order@).book
            &&& trades_view(trades@) == spec_match_order(old(orderbook)@, order@).trades
            &&& updates_view(updates@) == spec_match_order(old(orderbook)@, order@).updates
        },
        res matches Err(e) ==> e == EngineFault::Unprocessable,
{
    let ghost b0 = orderbook@;
    let ghost out = spec_match_order(b0, order@);
    let mut order = order;
    let mut trades: Vec<Trade> = Vec::new();
    let mut updates: Vec<UpdateBalance> = Vec::new();
    proof {
        assert(trades_view(trades@) =~= Seq::<TradeView>::empty());
        assert(updates_view(updates@) =~= Seq::<UpdateView>::empty());
        assert(state_of(opposite_side_exec(orderbook, order.side), order, trades@, updates@) == MatchState {
            levels: opposite_side(b0, order.side),
            taker: order@,
            trades: seq![],
            updates: seq![],
        });
    }
    let ghost (st, _ok) = run_match(
        MatchState { levels: opposite_side(b0, order.side), taker: order@, trades: seq![], updates: seq![] },
    );
    proof {
        lemma_run_keeps_taker(
            MatchState { levels: opposite_side(b0, order.side), taker: order@, trades: seq![], updates: seq![] },
        );
    }
    let ghost side0 = order.side;
    let ran = match order.side {
        Side::BUY => {
            let r = match_against(&mut orderbook.asks, &mut order, &mut trades, &mut updates);
            assert(r ==> orderbook@ =~= with_opposite(b0, Side::BUY, st.levels));
            r
        },
        Side::SELL => {
            let r = match_against(&mut orderbook.bids, &mut order, &mut trades, &mut updates);
            assert(r ==> orderbook@ =~= with_opposite(b0, Side::SELL, st.levels));
            r
        },
    };
    if !ran {
        return Err(EngineFault::Unprocessable);
    }
    let ghost b1 = orderbook@;
    assert(order@ == st.taker);
    assert(trades_view(trades@) == st.trades);
    let rests = order.qty.m > 0 && match order.order_type {
        TypeOfOrder::MARKET => false,
        TypeOfOrder::LIMIT => true,
    };
    if rests {
        let price = match order.price {
            Some(p) => p,
            None => {
                return Err(EngineFault::Unprocessable);
            },
        };
        let locked = match order.side {
            Side::BUY => match dec_mul(order.qty, price) {
                Some(v) => v,
                None => {
                    return Err(EngineFault::Unprocessable);
                },
            },
            Side::SELL => order.qty,
        };
        let status = if trades.len() == 0 {
            OrderStatus::OPEN
        } else {
            OrderStatus::PartialyFilled
        };
        let side = order.side;
        let resting = Orders {
            order_id: order.order_id.clone(),
            user_id: order.user_id.clone(),
            market: order.market.clone(),
            side: order.side,
            qty: order.qty,
            order_type: order.order_type,
            price,
            status,
        };
        assert(resting@ == resting_of(st.taker, st.trades.len() > 0));
        assert(side == side0);
        proof {
            lemma_val_sign(resting.qty);
        }
        assert(order_wf(resting@));
        let fits = match side {
            Side::BUY => insert_fits(&orderbook.bids, &resting),
            Side::SELL => insert_fits(&orderbook.asks, &resting),
        };
        if !fits {
            return Err(EngineFault::Unprocessable);
        }
        match side {
            Side::BUY => {
                updates.push(
                    UpdateBalance {
                        user_id: order.user_id,
                        asset: text("USDT"),
                        available_balance: None,
                        locked_balance: Some(BalanceOps::Increase(locked)),
                        reserved_balance: None,
                    },
                );
            },
            Side::SELL => {
                updates.push(
                    UpdateBalance {
                        user_id: order.user_id,
                        asset: order.market,
                        available_balance: None,
                        locked_balance: Some(BalanceOps::Increase(locked)),
                        reserved_balance: None,
                    },
                );
            },
        }
        match side {
            Side::BUY => {
                assert(side_view(orderbook.bids@) == own_side(b1, Side::BUY));
                proof {
                    lemma_insert_holds(side_view(orderbook.bids@), resting@, Side::BUY);
                }
                insert_order(&mut orderbook.bids, resting);
                assert(orderbook@ =~= out.book);
            },
            Side::SELL => {
                assert(side_view(orderbook.asks@) == own_side(b1, Side::SELL));
                proof {
                    lemma_insert_holds(side_view(orderbook.asks@), resting@, Side::SELL);
                }
                insert_order(&mut orderbook.asks, resting);
                assert(orderbook@ =~= out.book);
            },
        }
    }
    proof {
        assert(updates_view(updates@) =~= out.updates);
    }
    Ok((trades, updates))
}

/// The opposite side of the executable book.
pub open spec fn opposite_side_exec(b: &Orderbook, side: Side) -> Seq<RestingOrder> {
    match side {
        Side::BUY => b.asks@,
        Side::SELL => b.bids@,
    }
}

} // verus!
