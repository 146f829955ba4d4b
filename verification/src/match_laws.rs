//! What matching keeps: quantities, prices and the traded asset.
use vstd::prelude::*;
use crate::amount::{
    Dec, dmul, esub, lemma_dmul, lemma_dsub, lemma_eadd, lemma_esub, lemma_val_sign, pow10, val, valid, MAX_SCALE,
};
use crate::book::{
    BookView, LevelView, book_wf, has_level, insert_resting, lemma_sum_qty_remove, level_wf, lower_bound, order_wf,
    side_wf, sum_qty,
};
use crate::matching::{
    MatchState, OpView, OrderDataView, UpdateView, after_fill, crosses, fill_of, fill_ok, fill_updates,
    lemma_after_fill_measure, lemma_after_fill_wf, lemma_run_keeps_taker, opposite_side, order_amounts_ok,
    run_match, side_measure, spec_match_order, with_opposite, own_side, resting_of, lock_update,
};
use crate::delete::{
    delete_ok, id_fresh, law_cancel_undoes_rest, lemma_remove_fresh, same_values, spec_delete, unlock_update,
};
use crate::types::{Side, TradeView, TypeOfOrder};

verus! {

/// The total quantity filled by a sequence of trades (in units of 10^-28).
pub open spec fn sum_fills(t: Seq<TradeView>) -> int
    decreases t.len(),
{
    if t.len() == 0 {
        0
    } else {
        sum_fills(t.drop_last()) + val(t.last().fill_qty)
    }
}

/// The total quantity resting on a side (in units of 10^-28).
pub open spec fn side_total(s: Seq<LevelView>) -> int
    decreases s.len(),
{
    if s.len() == 0 {
        0
    } else {
        val(s[0].available) + side_total(s.drop_first())
    }
}

/// A fill takes its quantity off the side's total.
proof fn lemma_after_fill_total(st: MatchState)
    requires
        side_wf(st.levels),
        st.levels.len() > 0,
        order_amounts_ok(st.taker),
        fill_ok(st.taker, st.levels[0], st.levels[0].orders[0], fill_of(st.taker, st.levels[0].orders[0])),
    ensures
        side_total(after_fill(st).levels) == side_total(st.levels) - val(
            fill_of(st.taker, st.levels[0].orders[0]),
        ),
{
    let lvl = st.levels[0];
    assert(level_wf(lvl));
    let front = lvl.orders[0];
    assert(order_wf(front));
    let f = fill_of(st.taker, front);
    lemma_esub(front.qty, f);
    lemma_esub(lvl.available, f);
    lemma_val_sign(esub(front.qty, f));
    let levels2 = after_fill(st).levels;
    if esub(front.qty, f).m == 0 {
        lemma_sum_qty_remove(lvl.orders, 0);
        assert(lvl.orders.remove(0) =~= lvl.orders.drop_first());
        if lvl.orders.drop_first().len() == 0 {
            assert(sum_qty(lvl.orders.drop_first()) == 0);
            assert(levels2 == st.levels.drop_first());
        } else {
            assert(levels2.drop_first() =~= st.levels.drop_first());
        }
    } else {
        assert(levels2.drop_first() =~= st.levels.drop_first());
    }
}

/// What a run keeps: every unit filled comes off both the incoming order and
/// the side; trade prices never fall, start at or above the side's first
/// level, and respect a limit order's price.
pub proof fn lemma_run_laws(st: MatchState)
    requires
        side_wf(st.levels),
        order_amounts_ok(st.taker),
        run_match(st).1,
    ensures
        ({
            let r = run_match(st).0;
            &&& side_wf(r.levels)
            &&& order_amounts_ok(r.taker)
            &&& (r.trades.len() == st.trades.len() ==> r == st)
            &&& (val(st.taker.qty) >= 0 ==> val(r.taker.qty) >= 0 && forall|i: int|
                st.trades.len() <= i < r.trades.len() ==> val((#[trigger] r.trades[i]).fill_qty) > 0)
            &&& (val(st.taker.qty) < 0 ==> r.trades.len() <= st.trades.len() + 1 && (r.taker.qty.m == 0 || r == st))
            &&& sum_fills(r.trades) - sum_fills(st.trades) == val(st.taker.qty) - val(r.taker.qty)
            &&& side_total(st.levels) - side_total(r.levels) == val(st.taker.qty) - val(r.taker.qty)
            &&& r.trades.len() >= st.trades.len()
            &&& r.trades.subrange(0, st.trades.len() as int) == st.trades
            &&& forall|i: int, j: int|
                st.trades.len() <= i < j < r.trades.len() ==> val(r.trades[i].price) <= val(r.trades[j].price)
            &&& forall|i: int|
                st.trades.len() <= i < r.trades.len() ==> st.levels.len() > 0 && val(st.levels[0].price) <= val(
                    #[trigger] r.trades[i].price,
                )
            &&& forall|i: int|
                st.trades.len() <= i < r.trades.len() ==> (st.taker.order_type == TypeOfOrder::LIMIT ==> match st.taker.side {
                    Side::BUY => val((#[trigger] r.trades[i]).price) <= val(st.taker.price.unwrap()),
                    Side::SELL => val(r.trades[i].price) >= val(st.taker.price.unwrap()),
                })
        }),
    decreases side_measure(st.levels) + (if st.taker.qty.m != 0 { 1nat } else { 0nat }),
{
    let r = run_match(st).0;
    lemma_val_sign(st.taker.qty);
    if st.taker.qty.m == 0 || st.levels.len() == 0 {
        assert(r == st);
        assert(r.trades.subrange(0, st.trades.len() as int) =~= st.trades);
    } else if st.taker.order_type == TypeOfOrder::LIMIT && st.taker.price is None {
    } else if !crosses(st.taker, st.levels[0].price) {
        assert(r.trades.subrange(0, st.trades.len() as int) =~= st.trades);
    } else if st.levels[0].orders.len() == 0 {
    } else if !fill_ok(
        st.taker,
        st.levels[0],
        st.levels[0].orders[0],
        fill_of(st.taker, st.levels[0].orders[0]),
    ) {
    } else {
        let n = after_fill(st);
        lemma_after_fill_measure(st);
        lemma_after_fill_wf(st);
        lemma_after_fill_total(st);
        lemma_run_laws(n);
        lemma_run_keeps_taker(n);
        let lvl = st.levels[0];
        assert(level_wf(lvl));
        let front = lvl.orders[0];
        assert(order_wf(front));
        let f = fill_of(st.taker, front);
        lemma_esub(st.taker.qty, f);
        lemma_val_sign(n.taker.qty);
        lemma_val_sign(f);
        let k = st.trades.len() as int;
        assert(n.trades.drop_last() =~= st.trades);
        assert(sum_fills(n.trades) == sum_fills(st.trades) + val(f));
        assert(r.trades.subrange(0, k + 1) == n.trades);
        assert(r.trades.subrange(0, k) =~= n.trades.subrange(0, k));
        assert(r.trades[k] == n.trades[k]);
        assert(val(r.trades[k].price) == val(lvl.price));
        // every later trade is at a level no cheaper than this one
        if n.levels.len() > 0 {
            if n.levels.len() == st.levels.len() {
                assert(n.levels[0].price == lvl.price);
            } else {
                assert(n.levels[0] == st.levels[1]);
            }
        }
        assert forall|i: int, j: int| k <= i < j < r.trades.len() implies val(r.trades[i].price) <= val(
            r.trades[j].price,
        ) by {
            if i == k {
                assert(n.levels.len() > 0 && val(n.levels[0].price) <= val(r.trades[j].price));
            }
        }
        assert forall|i: int| k <= i < r.trades.len() implies st.levels.len() > 0 && val(st.levels[0].price) <= val(
            #[trigger] r.trades[i].price,
        ) by {
            if i > k {
                assert(n.levels.len() > 0 && val(n.levels[0].price) <= val(r.trades[i].price));
            }
        }
        assert forall|i: int| k <= i < r.trades.len() implies (st.taker.order_type == TypeOfOrder::LIMIT ==> match st.taker.side {
            Side::BUY => val((#[trigger] r.trades[i]).price) <= val(st.taker.price.unwrap()),
            Side::SELL => val(r.trades[i].price) >= val(st.taker.price.unwrap()),
        }) by {
            assert(n.taker.price == st.taker.price && n.taker.side == st.taker.side && n.taker.order_type
                == st.taker.order_type);
        }
        if val(st.taker.qty) < 0 {
            assert(f == st.taker.qty);
            assert(n.taker.qty.m == 0);
            assert(r == n);
        }
    }
}

/// The net change that an optional balance change makes (in units of
/// 10^-28).
pub open spec fn op_delta(o: Option<OpView>) -> int {
    match o {
        Some(OpView::Increase(v)) => val(v),
        Some(OpView::Decrease(v)) => -val(v),
        None => 0,
    }
}

/// The net change that a sequence of balance changes makes to the holdings
/// of `asset`, summed over all users and over the three balance fields.
pub open spec fn asset_delta(us: Seq<UpdateView>, asset: Seq<char>) -> int
    decreases us.len(),
{
    if us.len() == 0 {
        0
    } else {
        asset_delta(us.drop_last(), asset) + if us.last().asset == asset {
            op_delta(us.last().available) + op_delta(us.last().locked) + op_delta(us.last().reserved)
        } else {
            0
        }
    }
}

/// What buy fills hand back to the taker: per trade, the fill at the taker's
/// price less the fill at the trade's price (in units of 10^-56).
pub open spec fn price_improvement(t: Seq<TradeView>, limit: Dec) -> int
    decreases t.len(),
{
    if t.len() == 0 {
        0
    } else {
        price_improvement(t.drop_last(), limit) + (val(t.last().fill_qty) * val(limit) - val(t.last().fill_qty) * val(
            t.last().price,
        ))
    }
}

/// The net change of a concatenation is the sum of the two.
pub proof fn lemma_asset_delta_append(a: Seq<UpdateView>, b: Seq<UpdateView>, asset: Seq<char>)
    ensures
        asset_delta(a + b, asset) == asset_delta(a, asset) + asset_delta(b, asset),
    decreases b.len(),
{
    if b.len() == 0 {
        assert(a + b =~= a);
    } else {
        lemma_asset_delta_append(a, b.drop_last(), asset);
        assert((a + b).drop_last() =~= a + b.drop_last());
    }
}

/// The net changes of one fill: the traded asset does not change hands in
/// total; USDT does not either for a sell, and for a buy that `Decimal` does
/// not round it changes by the price improvement.
proof fn lemma_fill_deltas(t: OrderDataView, front: crate::book::OrderView, best: Dec, f: Dec)
    requires
        t.market != "USDT"@,
        valid(f),
        valid(best),
        t.side == Side::BUY ==> valid(t.price.unwrap()),
    ensures
        asset_delta(fill_updates(t, front, best, f), t.market) == 0,
        t.side == Side::SELL ==> asset_delta(fill_updates(t, front, best, f), "USDT"@) == 0,
        t.side == Side::BUY && fill_ok_buy(t, best, f) ==> asset_delta(fill_updates(t, front, best, f), "USDT"@)
            * pow10(MAX_SCALE as nat) == val(f) * val(t.price.unwrap()) - val(f) * val(best),
{
    let us = fill_updates(t, front, best, f);
    reveal_with_fuel(asset_delta, 5);
    assert(us.drop_last().drop_last().drop_last().drop_last() =~= Seq::<UpdateView>::empty());
    if t.side == Side::BUY && fill_ok_buy(t, best, f) {
        let lim = t.price.unwrap();
        lemma_dmul(f, lim);
        lemma_dmul(f, best);
        lemma_dsub(dmul(f, lim), dmul(f, best));
        let x = val(dmul(f, lim));
        let y = val(dmul(f, best));
        let p = pow10(MAX_SCALE as nat);
        assert(asset_delta(us, "USDT"@) == x - y);
        assert((x - y) * p == x * p - y * p) by (nonlinear_arith);
    }
}

/// The products of a buy fill settled at `best` that `Decimal` computes
/// without rounding.
pub open spec fn fill_ok_buy(t: OrderDataView, best: Dec, f: Dec) -> bool {
    crate::amount::dmul_ok(f, t.price.unwrap()) && crate::amount::dmul_ok(f, best) && crate::amount::dsub_ok(
        dmul(f, t.price.unwrap()),
        dmul(f, best),
    )
}

/// `Decimal` computes every buy fill of a run without rounding.
pub open spec fn run_exact(st: MatchState) -> bool
    decreases side_measure(st.levels) + (if st.taker.qty.m != 0 { 1nat } else { 0nat }),
{
    if st.taker.qty.m == 0 || st.levels.len() == 0 {
        true
    } else if st.taker.order_type == TypeOfOrder::LIMIT && st.taker.price is None {
        true
    } else if !crosses(st.taker, st.levels[0].price) {
        true
    } else if st.levels[0].orders.len() == 0 {
        true
    } else if !fill_ok(
        st.taker,
        st.levels[0],
        st.levels[0].orders[0],
        fill_of(st.taker, st.levels[0].orders[0]),
    ) {
        true
    } else {
        proof {
            lemma_after_fill_measure(st);
        }
        (st.taker.side == Side::BUY ==> fill_ok_buy(
            st.taker,
            st.levels[0].price,
            fill_of(st.taker, st.levels[0].orders[0]),
        )) && run_exact(after_fill(st))
    }
}

/// What a run moves: the traded asset is conserved across users; so is USDT
/// for a sell, and for a buy that `Decimal` does not round USDT changes by
/// what its fills hand back to the taker.
pub proof fn lemma_run_assets(st: MatchState)
    requires
        side_wf(st.levels),
        order_amounts_ok(st.taker),
        run_match(st).1,
        st.taker.market != "USDT"@,
    ensures
        ({
            let r = run_match(st).0;
            let new_trades = r.trades.subrange(st.trades.len() as int, r.trades.len() as int);
            &&& asset_delta(r.updates, st.taker.market) == asset_delta(st.updates, st.taker.market)
            &&& st.taker.side == Side::SELL ==> asset_delta(r.updates, "USDT"@) == asset_delta(st.updates, "USDT"@)
            &&& st.taker.side == Side::BUY && run_exact(st) ==> asset_delta(r.updates, "USDT"@) * pow10(
                MAX_SCALE as nat,
            ) == asset_delta(st.updates, "USDT"@) * pow10(MAX_SCALE as nat) + price_improvement(
                new_trades,
                st.taker.price.unwrap(),
            )
        }),
    decreases side_measure(st.levels) + (if st.taker.qty.m != 0 { 1nat } else { 0nat }),
{
    let r = run_match(st).0;
    lemma_run_laws(st);
    if st.taker.qty.m == 0 || st.levels.len() == 0 || !crosses(st.taker, st.levels[0].price) {
        assert(r.trades.subrange(st.trades.len() as int, r.trades.len() as int) =~= Seq::<TradeView>::empty());
    } else if st.taker.order_type == TypeOfOrder::LIMIT && st.taker.price is None {
    } else if st.levels[0].orders.len() == 0 {
    } else if !fill_ok(
        st.taker,
        st.levels[0],
        st.levels[0].orders[0],
        fill_of(st.taker, st.levels[0].orders[0]),
    ) {
    } else {
        let n = after_fill(st);
        lemma_after_fill_measure(st);
        lemma_after_fill_wf(st);
        lemma_run_assets(n);
        lemma_run_laws(n);
        let lvl = st.levels[0];
        assert(level_wf(lvl));
        let front = lvl.orders[0];
        assert(crate::book::order_wf(front));
        let f = fill_of(st.taker, front);
        lemma_fill_deltas(st.taker, front, lvl.price, f);
        lemma_asset_delta_append(st.updates, fill_updates(st.taker, front, lvl.price, f), st.taker.market);
        lemma_asset_delta_append(st.updates, fill_updates(st.taker, front, lvl.price, f), "USDT"@);
        if st.taker.side == Side::BUY && run_exact(st) {
            let p = pow10(MAX_SCALE as nat);
            let d0 = asset_delta(st.updates, "USDT"@);
            let d1 = asset_delta(fill_updates(st.taker, front, lvl.price, f), "USDT"@);
            assert((d0 + d1) * p == d0 * p + d1 * p) by (nonlinear_arith);
            let k = st.trades.len() as int;
            let nt_r = r.trades.subrange(k, r.trades.len() as int);
            let nt_n = r.trades.subrange(k + 1, r.trades.len() as int);
            assert(r.trades[k] == n.trades[k]);
            assert(val(r.trades[k].price) == val(lvl.price) && r.trades[k].fill_qty == f);
            lemma_price_improvement_front(nt_r, st.taker.price.unwrap());
            assert(nt_r.drop_first() =~= nt_n);
        }
    }
}

/// Price improvement splits off its first trade.
proof fn lemma_price_improvement_front(t: Seq<TradeView>, limit: Dec)
    requires
        t.len() > 0,
    ensures
        price_improvement(t, limit) == (val(t[0].fill_qty) * val(limit) - val(t[0].fill_qty) * val(t[0].price))
            + price_improvement(t.drop_first(), limit),
    decreases t.len(),
{
    if t.len() == 1 {
        assert(t.drop_last() =~= Seq::<TradeView>::empty());
        assert(t.drop_first() =~= Seq::<TradeView>::empty());
    } else {
        lemma_price_improvement_front(t.drop_last(), limit);
        assert(t.drop_last().drop_first() =~= t.drop_first().drop_last());
    }
}

/// Replacing a level changes the side's total by the change of that level.
proof fn lemma_side_total_update(s: Seq<LevelView>, k: int, x: LevelView)
    requires
        0 <= k < s.len(),
    ensures
        side_total(s.update(k, x)) == side_total(s) - val(s[k].available) + val(x.available),
    decreases s.len(),
{
    if k == 0 {
        assert(s.update(0, x).drop_first() =~= s.drop_first());
    } else {
        lemma_side_total_update(s.drop_first(), k - 1, x);
        assert(s.update(k, x).drop_first() =~= s.drop_first().update(k - 1, x));
    }
}

/// Inserting a level adds its quantity to the side's total.
proof fn lemma_side_total_insert(s: Seq<LevelView>, k: int, x: LevelView)
    requires
        0 <= k <= s.len(),
    ensures
        side_total(s.insert(k, x)) == side_total(s) + val(x.available),
    decreases s.len(),
{
    if k == 0 {
        assert(s.insert(0, x).drop_first() =~= s);
    } else {
        lemma_side_total_insert(s.drop_first(), k - 1, x);
        assert(s.insert(k, x).drop_first() =~= s.drop_first().insert(k - 1, x));
    }
}

/// Resting an order adds its quantity to its side.
pub proof fn lemma_insert_total(s: Seq<LevelView>, o: crate::book::OrderView)
    requires
        side_wf(s),
        crate::book::order_wf(o),
        crate::book::insert_ok(s, o),
    ensures
        side_total(insert_resting(s, o)) == side_total(s) + val(o.qty),
{
    let k = lower_bound(s, o.price);
    crate::book::lemma_lb_from(s, o.price, 0);
    if crate::book::has_level(s, o) {
        assert(level_wf(s[k]));
        lemma_eadd(s[k].available, o.qty);
        lemma_side_total_update(
            s,
            k,
            LevelView {
                price: s[k].price,
                available: crate::amount::eadd(s[k].available, o.qty),
                orders: s[k].orders.push(o),
            },
        );
    } else {
        lemma_side_total_insert(s, k, LevelView { price: o.price, available: o.qty, orders: seq![o] });
    }
}

/// The matching run that an order starts against a book.
pub open spec fn initial_run(book: BookView, order: OrderDataView) -> MatchState {
    MatchState { levels: opposite_side(book, order.side), taker: order, trades: seq![], updates: seq![] }
}

/// What is left of an order after it has matched.
pub open spec fn spec_unfilled(book: BookView, order: OrderDataView) -> Dec {
    run_match(initial_run(book, order)).0.taker.qty
}

/// Whether what is left of an order rests on the book.
pub open spec fn spec_rests(book: BookView, order: OrderDataView) -> bool {
    spec_unfilled(book, order).m > 0 && order.order_type != TypeOfOrder::MARKET
}

/// The order that rests is sound.
proof fn lemma_rest_sound(book: BookView, order: OrderDataView)
    requires
        book_wf(book),
        order_amounts_ok(order),
        spec_match_order(book, order).ok,
        spec_rests(book, order),
    ensures
        crate::book::order_wf(resting_of(run_match(initial_run(book, order)).0.taker, run_match(
            initial_run(book, order),
        ).0.trades.len() > 0)),
{
    let st0 = initial_run(book, order);
    lemma_run_laws(st0);
    lemma_run_keeps_taker(st0);
    let r = run_match(st0).0;
    lemma_val_sign(r.taker.qty);
}

/// Matching keeps a sound book sound.
pub proof fn law_match_keeps_book_sound(book: BookView, order: OrderDataView)
    requires
        book_wf(book),
        order_amounts_ok(order),
        spec_match_order(book, order).ok,
    ensures
        book_wf(spec_match_order(book, order).book),
{
    let st0 = initial_run(book, order);
    lemma_run_laws(st0);
    lemma_run_keeps_taker(st0);
    let r = run_match(st0).0;
    let b1 = with_opposite(book, order.side, r.levels);
    match order.side {
        Side::BUY => crate::matching::lemma_run_holds(st0, Side::SELL),
        Side::SELL => crate::matching::lemma_run_holds(st0, Side::BUY),
    }
    if spec_rests(book, order) {
        lemma_rest_sound(book, order);
        let o = resting_of(r.taker, r.trades.len() > 0);
        crate::book::lemma_insert_wf(own_side(b1, order.side), o);
        crate::book::lemma_insert_holds(own_side(b1, order.side), o, order.side);
    }
}

/// Quantity is conserved: what an order fills plus what is left of it is its
/// quantity; the opposite side loses exactly what was filled; its own side
/// gains exactly what rests (all in units of 10^-28).
pub proof fn law_match_conserves_quantity(book: BookView, order: OrderDataView)
    requires
        book_wf(book),
        order_amounts_ok(order),
        spec_match_order(book, order).ok,
    ensures
        ({
            let out = spec_match_order(book, order);
            let left = spec_unfilled(book, order);
            &&& sum_fills(out.trades) + val(left) == val(order.qty)
            &&& side_total(opposite_side(out.book, order.side)) == side_total(opposite_side(book, order.side))
                - sum_fills(out.trades)
            &&& side_total(own_side(out.book, order.side)) == side_total(own_side(book, order.side)) + if spec_rests(
                book,
                order,
            ) {
                val(left)
            } else {
                0
            }
        }),
{
    let st0 = initial_run(book, order);
    lemma_run_laws(st0);
    lemma_run_keeps_taker(st0);
    assert(sum_fills(st0.trades) == 0);
    let r = run_match(st0).0;
    if spec_rests(book, order) {
        lemma_rest_sound(book, order);
        let b1 = with_opposite(book, order.side, r.levels);
        lemma_insert_total(own_side(b1, order.side), resting_of(r.taker, r.trades.len() > 0));
    }
}

/// Price priority: an order trades at the resting orders' prices, starting at
/// the opposite side's first level and never at a lower price later; a limit
/// buy never pays above its price, a limit sell never sells below it.
pub proof fn law_match_price_priority(book: BookView, order: OrderDataView)
    requires
        book_wf(book),
        order_amounts_ok(order),
        spec_match_order(book, order).ok,
    ensures
        ({
            let t = spec_match_order(book, order).trades;
            let opp = opposite_side(book, order.side);
            &&& forall|i: int, j: int| 0 <= i < j < t.len() ==> val(t[i].price) <= val(t[j].price)
            &&& forall|i: int| 0 <= i < t.len() ==> opp.len() > 0 && val(opp[0].price) <= val(#[trigger] t[i].price)
            &&& forall|i: int|
                0 <= i < t.len() ==> (order.order_type == TypeOfOrder::LIMIT ==> match order.side {
                    Side::BUY => val((#[trigger] t[i]).price) <= val(order.price.unwrap()),
                    Side::SELL => val(t[i].price) >= val(order.price.unwrap()),
                })
        }),
{
    lemma_run_laws(initial_run(book, order));
}

/// Matching moves the traded asset between users without creating or
/// destroying any: its net change is what a resting sell locks. A sell moves
/// no USDT in total. Where `Decimal` rounds none of a buy's products, USDT
/// changes by what its fills hand back to the taker and what a resting buy
/// locks (the USDT change here in units of 10^-56, as the products of two
/// values).
pub proof fn law_match_moves_assets(book: BookView, order: OrderDataView)
    requires
        book_wf(book),
        order_amounts_ok(order),
        spec_match_order(book, order).ok,
        order.market != "USDT"@,
    ensures
        ({
            let out = spec_match_order(book, order);
            let left = spec_unfilled(book, order);
            let rests = spec_rests(book, order);
            &&& asset_delta(out.updates, order.market) == if rests && order.side == Side::SELL {
                val(left)
            } else {
                0
            }
            &&& order.side == Side::SELL ==> asset_delta(out.updates, "USDT"@) == 0
            &&& order.side == Side::BUY && run_exact(initial_run(book, order)) && (rests
                ==> crate::amount::dmul_ok(left, order.price.unwrap())) ==> asset_delta(out.updates, "USDT"@) * pow10(
                MAX_SCALE as nat,
            ) == price_improvement(out.trades, order.price.unwrap()) + if rests {
                val(left) * val(order.price.unwrap())
            } else {
                0
            }
        }),
{
    let st0 = initial_run(book, order);
    lemma_run_laws(st0);
    lemma_run_assets(st0);
    lemma_run_keeps_taker(st0);
    let r = run_match(st0).0;
    assert(asset_delta(st0.updates, order.market) == 0);
    assert(asset_delta(st0.updates, "USDT"@) == 0);
    assert(0 * pow10(MAX_SCALE as nat) == 0) by (nonlinear_arith);
    assert(r.trades.subrange(0, r.trades.len() as int) =~= r.trades);
    if spec_rests(book, order) {
        let lock = lock_update(r.taker);
        assert(r.updates.push(lock) =~= r.updates + seq![lock]);
        lemma_asset_delta_append(r.updates, seq![lock], order.market);
        lemma_asset_delta_append(r.updates, seq![lock], "USDT"@);
        reveal_with_fuel(asset_delta, 2);
        assert(seq![lock].drop_last() =~= Seq::<UpdateView>::empty());
        if order.side == Side::BUY && crate::amount::dmul_ok(r.taker.qty, order.price.unwrap()) {
            lemma_dmul(r.taker.qty, order.price.unwrap());
            let p = pow10(MAX_SCALE as nat);
            let d0 = asset_delta(r.updates, "USDT"@);
            let d1 = asset_delta(seq![lock], "USDT"@);
            assert((d0 + d1) * p == d0 * p + d1 * p) by (nonlinear_arith);
        }
    }
}

/// Cancel undoes an unmatched rest: a limit order that trades nothing and
/// rests, cancelled by its id, comes off the book with the book as it was
/// before the order came (exactly where it opened its own level; otherwise
/// with its level's quantity of the same value, and exactly where that
/// quantity's scale was no smaller than the order's), and the cancellation
/// releases what resting locked, for the same user and asset: the same
/// amount where the order opened its own level (or is a sell), and an amount
/// of the same value where `Decimal` rounds neither product.
pub proof fn law_cancel_after_rest(book: BookView, order: OrderDataView)
    requires
        book_wf(book),
        order_amounts_ok(order),
        spec_match_order(book, order).ok,
        spec_match_order(book, order).trades.len() == 0,
        order.order_type == TypeOfOrder::LIMIT,
        order.qty.m > 0,
        id_fresh(book.bids, order.order_id),
        id_fresh(book.asks, order.order_id),
        delete_ok(spec_match_order(book, order).book, order.order_id, order.market),
    ensures
        ({
            let out = spec_match_order(book, order);
            let o = resting_of(order, false);
            let own = own_side(book, order.side);
            let (b2, removed) = spec_delete(out.book, order.order_id, order.market);
            let lock = lock_update(order);
            &&& removed matches Some((side, ro, p)) && side == order.side && ro == o && val(p) == val(
                order.price.unwrap(),
            )
            &&& same_values(own_side(b2, order.side), own)
            &&& opposite_side(b2, order.side) == opposite_side(book, order.side)
            &&& b2.last_traded_price == book.last_traded_price
            &&& (!has_level(own, o) ==> b2 == book && removed == Some((order.side, o, order.price.unwrap())))
            &&& (removed matches Some((side, ro, p)) ==> {
                let unlock = unlock_update(side, ro, p, order.market);
                &&& unlock.user_id == lock.user_id
                &&& unlock.asset == lock.asset
                &&& lock.locked matches Some(OpView::Increase(x)) && unlock.locked matches Some(OpView::Decrease(y))
                    && unlock.available == Some(OpView::Increase(y)) && (p == order.price.unwrap() ==> x == y) && (
                    side == Side::SELL ==> x == y) && (crate::amount::dmul_ok(order.qty, order.price.unwrap())
                    && crate::amount::dmul_ok(order.qty, p) ==> val(x) == val(y))
            })
        }),
{
    let st0 = initial_run(book, order);
    lemma_run_laws(st0);
    let r = run_match(st0).0;
    assert(r == st0);
    let o = resting_of(order, false);
    let out = spec_match_order(book, order);
    lemma_val_sign(order.qty);
    assert(crate::book::order_wf(o));
    let price = order.price.unwrap();
    match order.side {
        Side::BUY => {
            assert(with_opposite(book, Side::BUY, r.levels) == book);
            law_cancel_undoes_rest(book.bids, o);
        },
        Side::SELL => {
            assert(with_opposite(book, Side::SELL, r.levels) == book);
            lemma_remove_fresh(book.bids, order.order_id, order.market);
            law_cancel_undoes_rest(book.asks, o);
        },
    }
    let (b2, removed) = spec_delete(out.book, order.order_id, order.market);
    let p = removed.unwrap().2;
    law_match_keeps_book_sound(book, order);
    crate::delete::lemma_remove_wf(out.book.bids, order.order_id, order.market);
    crate::delete::lemma_remove_wf(out.book.asks, order.order_id, order.market);
    if !has_level(own_side(book, order.side), o) {
        assert(b2 =~= book);
    }
    if order.side == Side::BUY && crate::amount::dmul_ok(order.qty, price) && crate::amount::dmul_ok(order.qty, p) {
        lemma_dmul(order.qty, price);
        lemma_dmul(order.qty, p);
        crate::amount::lemma_pow10_bounds(MAX_SCALE as nat);
        let big = pow10(MAX_SCALE as nat);
        let x = dmul(order.qty, price);
        let y = dmul(order.qty, p);
        assert(val(x) * big == val(y) * big);
        assert(val(x) == val(y)) by (nonlinear_arith)
            requires
                val(x) * big == val(y) * big,
                big >= 1,
        ;
    }
}

} // verus!

verus! {

/// What a sequence of balance changes adds to one user's available balance
/// of one asset (in units of 10^-28).
pub open spec fn available_delta(us: Seq<UpdateView>, user: Seq<char>, asset: Seq<char>) -> int
    decreases us.len(),
{
    if us.len() == 0 {
        0
    } else {
        available_delta(us.drop_last(), user, asset) + if us.last().user_id == user && us.last().asset == asset {
            op_delta(us.last().available)
        } else {
            0
        }
    }
}

/// What a sequence of balance changes adds to one user's locked balance of
/// one asset.
pub open spec fn locked_delta(us: Seq<UpdateView>, user: Seq<char>, asset: Seq<char>) -> int
    decreases us.len(),
{
    if us.len() == 0 {
        0
    } else {
        locked_delta(us.drop_last(), user, asset) + if us.last().user_id == user && us.last().asset == asset {
            op_delta(us.last().locked)
        } else {
            0
        }
    }
}

/// What a sequence of balance changes adds to one user's reserved balance of
/// one asset.
pub open spec fn reserved_delta(us: Seq<UpdateView>, user: Seq<char>, asset: Seq<char>) -> int
    decreases us.len(),
{
    if us.len() == 0 {
        0
    } else {
        reserved_delta(us.drop_last(), user, asset) + if us.last().user_id == user && us.last().asset == asset {
            op_delta(us.last().reserved)
        } else {
            0
        }
    }
}

/// Who gets what in one fill of quantity `f` (in a market other than USDT).
/// The traded asset: a buyer taker's available balance gains `f` and the
/// maker's locked balance loses it; a seller taker's reserved balance loses
/// `f` and the maker's available balance gains it. USDT, between two
/// different users: a buyer taker's reserve loses the fill at `best`, which
/// the maker gains as available, and the taker gets back the difference to
/// its limit; a seller taker gains the fill at the resting price as
/// available, which the maker's locked balance loses.
pub proof fn law_fill_moves_per_user(t: OrderDataView, front: crate::book::OrderView, best: Dec, f: Dec)
    requires
        t.market != "USDT"@,
    ensures
        ({
            let us = fill_updates(t, front, best, f);
            &&& t.side == Side::BUY ==> available_delta(us, t.user_id, t.market) == val(f) && locked_delta(
                us,
                front.user_id,
                t.market,
            ) == -val(f) && reserved_delta(us, t.user_id, t.market) == 0
            &&& t.side == Side::SELL ==> reserved_delta(us, t.user_id, t.market) == -val(f) && available_delta(
                us,
                front.user_id,
                t.market,
            ) == val(f) && locked_delta(us, t.user_id, t.market) == 0
            &&& t.side == Side::BUY && t.user_id != front.user_id ==> {
                &&& reserved_delta(us, t.user_id, "USDT"@) == -val(crate::amount::rmul(f, best).unwrap())
                &&& available_delta(us, front.user_id, "USDT"@) == val(crate::amount::rmul(f, best).unwrap())
                &&& available_delta(us, t.user_id, "USDT"@) == val(
                    crate::matching::refund(f, t.price.unwrap(), best).unwrap(),
                )
                &&& available_delta(us, front.user_id, t.market) == 0
            }
            &&& t.side == Side::SELL && t.user_id != front.user_id ==> {
                &&& available_delta(us, t.user_id, "USDT"@) == val(crate::amount::rmul(f, front.price).unwrap())
                &&& locked_delta(us, front.user_id, "USDT"@) == -val(crate::amount::rmul(f, front.price).unwrap())
                &&& available_delta(us, t.user_id, t.market) == 0
            }
        }),
{
    let us = fill_updates(t, front, best, f);
    reveal_with_fuel(available_delta, 5);
    reveal_with_fuel(locked_delta, 5);
    reveal_with_fuel(reserved_delta, 5);
    assert(us.drop_last().drop_last().drop_last().drop_last() =~= Seq::<UpdateView>::empty());
}

} // verus!
