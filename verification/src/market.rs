//! A market task's work: orders in, trades and answers out.
use vstd::prelude::*;
use crate::amount::{
    Dec, convert_to_decimal, dadd_ok, dec_add, radd, dec_lt, dec_valid, decimal_to_string, display, lemma_dadd,
    spec_amount, val, valid, zero,
};
use crate::book::{Orderbook, book_wf, depth_rows, get_depth, rows_view};
use crate::delete::{delete_order, delete_ok, spec_delete, unlock_update};
use crate::match_laws::sum_fills;
use crate::matching::{
    EngineFault, OrderData, OrderDataView, UpdateBalance, match_order, order_amounts_ok, spec_match_order,
    updates_view,
};
use crate::messages::{Depth as DepthRequest, Order, Request};
use crate::ids::new_uuid;
use crate::text::text;
use crate::types::{
    CreateOrderData, CreateOrderResponseData, EngineResponse, GetDepthResponseData, OrderStatus, Trade, TradeView,
    trades_view,
};

verus! {

/// The quantity filled by a sequence of trades, as `Decimal` adds it up
/// from zero (rounding where it rounds).
pub open spec fn fill_total(t: Seq<TradeView>) -> Dec
    decreases t.len(),
{
    if t.len() == 0 {
        zero()
    } else {
        radd(fill_total(t.drop_last()), t.last().fill_qty).unwrap()
    }
}

/// Every fill is a `Decimal` and `Decimal` adds them up without overflow.
pub open spec fn fill_total_ok(t: Seq<TradeView>) -> bool
    decreases t.len(),
{
    t.len() == 0 || (fill_total_ok(t.drop_last()) && valid(t.last().fill_qty) && radd(
        fill_total(t.drop_last()),
        t.last().fill_qty,
    ) is Some)
}

/// `Decimal` adds the fills up without rounding.
pub open spec fn fill_total_exact(t: Seq<TradeView>) -> bool
    decreases t.len(),
{
    t.len() == 0 || (fill_total_exact(t.drop_last()) && dadd_ok(fill_total(t.drop_last()), t.last().fill_qty))
}

/// A total added up without rounding is a `Decimal` whose value is the sum
/// of the fills.
pub proof fn lemma_fill_total(t: Seq<TradeView>)
    requires
        fill_total_ok(t),
        fill_total_exact(t),
    ensures
        valid(fill_total(t)),
        val(fill_total(t)) == sum_fills(t),
    decreases t.len(),
{
    if t.len() == 0 {
        crate::amount::lemma_val_sign(zero());
    } else {
        lemma_fill_total(t.drop_last());
        lemma_dadd(fill_total(t.drop_last()), t.last().fill_qty);
    }
}

/// A prefix of a sequence added up without overflow is added up without
/// overflow.
proof fn lemma_fill_total_prefix(t: Seq<TradeView>, k: int)
    requires
        0 <= k <= t.len(),
        fill_total_ok(t),
    ensures
        fill_total_ok(t.take(k)),
    decreases t.len(),
{
    if k == t.len() {
        assert(t.take(k) =~= t);
    } else {
        lemma_fill_total_prefix(t.drop_last(), k);
        assert(t.drop_last().take(k) =~= t.take(k));
    }
}

/// The quantity filled by a sequence of trades, added up from zero as
/// `Decimal` adds; `None` where a fill is not a `Decimal` or the sum
/// overflows.
pub fn calculate_filled_qty(trades: &Vec<Trade>) -> (fill_qty: Option<Dec>)
    ensures
        fill_qty is Some <==> fill_total_ok(trades_view(trades@)),
        fill_qty matches Some(d) ==> d == fill_total(trades_view(trades@)) && valid(d),
{
    let ghost t = trades_view(trades@);
    let mut fill_qty = Dec { m: 0, s: 0 };
    let mut i: usize = 0;
    assert(t.take(0) =~= Seq::<TradeView>::empty());
    while i < trades.len()
        invariant
            i <= trades@.len(),
            t == trades_view(trades@),
            fill_total_ok(t.take(i as int)),
            fill_qty == fill_total(t.take(i as int)),
            valid(fill_qty),
        decreases trades@.len() - i,
    {
        assert(t.take(i + 1).drop_last() =~= t.take(i as int));
        assert(t.take(i + 1).last() == t[i as int]);
        let f = trades[i].fill_qty;
        if !dec_valid(f) {
            proof {
                if fill_total_ok(t) {
                    lemma_fill_total_prefix(t, i + 1);
                }
            }
            return None;
        }
        proof {
            crate::amount::lemma_rounded_valid(fill_qty, f);
        }
        match dec_add(fill_qty, f) {
            Some(v) => {
                fill_qty = v;
            },
            None => {
                proof {
                    if fill_total_ok(t) {
                        lemma_fill_total_prefix(t, i + 1);
                    }
                }
                return None;
            },
        }
        i = i + 1;
    }
    assert(t.take(i as int) =~= t);
    Some(fill_qty)
}

/// The status of an order from what it filled: all of it (in value), none
/// of it, or part of it.
pub open spec fn spec_status(fill_qty: Dec, qty: Dec) -> OrderStatus {
    if val(fill_qty) == val(qty) {
        OrderStatus::FILLED
    } else if fill_qty.m == 0 {
        OrderStatus::OPEN
    } else {
        OrderStatus::PartialyFilled
    }
}

/// The status of an order from what it filled.
pub fn calculate_status(fill_qty: Dec, qty: Dec) -> (s: OrderStatus)
    requires
        valid(fill_qty),
        valid(qty),
    ensures
        s == spec_status(fill_qty, qty),
{
    if !dec_lt(fill_qty, qty) && !dec_lt(qty, fill_qty) {
        OrderStatus::FILLED
    } else if fill_qty.m == 0 {
        OrderStatus::OPEN
    } else {
        OrderStatus::PartialyFilled
    }
}

/// The incoming order that a request becomes under the given id: its
/// quantity and price read as amounts, its status open. `None` where an
/// amount does not read.
pub open spec fn spec_order_of(data: CreateOrderData, order_id: Seq<char>) -> Option<OrderDataView> {
    let qty = spec_amount(data.qty@);
    let price: Option<Option<Dec>> = match data.price {
        Some(p) => match spec_amount(p@) {
            Some(v) => Some(Some(v)),
            None => None,
        },
        None => Some(None),
    };
    if qty is Some && price is Some {
        Some(
            OrderDataView {
                market: data.market@,
                qty: qty.unwrap(),
                price: price.unwrap(),
                order_type: data.order_type,
                user_id: data.user_id@,
                side: data.side,
                order_id: order_id,
                status: OrderStatus::OPEN,
            },
        )
    } else {
        None
    }
}

impl OrderData {
    /// Reads a request into an incoming order with the given id.
    pub fn from_request(value: CreateOrderData, order_id: String) -> (r: Result<OrderData, EngineFault>)
        ensures
            r is Ok <==> spec_order_of(value, order_id@) is Some,
            r matches Ok(o) ==> o@ == spec_order_of(value, order_id@).unwrap() && order_amounts_ok(o@),
            r matches Err(e) ==> e == EngineFault::InvalidAmount,
    {
        let qty = match convert_to_decimal(value.qty.as_str()) {
            Some(q) => q,
            None => {
                return Err(EngineFault::InvalidAmount);
            },
        };
        let price = match &value.price {
            Some(p) => match convert_to_decimal(p.as_str()) {
                Some(v) => Some(v),
                None => {
                    return Err(EngineFault::InvalidAmount);
                },
            },
            None => None,
        };
        Ok(
            OrderData {
                market: value.market,
                qty,
                price,
                order_type: value.order_type,
                user_id: value.user_id,
                side: value.side,
                order_id,
                status: OrderStatus::OPEN,
            },
        )
    }

    /// Reads a request into an incoming order under a fresh id.
    pub fn try_from(value: CreateOrderData) -> (r: Result<OrderData, EngineFault>)
        ensures
            r is Ok <==> spec_order_of(value, Seq::<char>::empty()) is Some,
            r matches Ok(o) ==> o@.order_id.len() == 36 && o@ == (OrderDataView {
                order_id: o@.order_id,
                ..spec_order_of(value, Seq::<char>::empty()).unwrap()
            }),
            r matches Err(e) ==> e == EngineFault::InvalidAmount,
    {
        let id = new_uuid();
        OrderData::from_request(value, id)
    }
}

/// What processing an order leaves behind: the book after matching, the
/// balance changes, and the answer.
pub open spec fn order_processed(
    b0: crate::book::BookView,
    b1: crate::book::BookView,
    order: Order,
    order_id: Seq<char>,
    updates: Seq<UpdateBalance>,
    resp: EngineResponse,
) -> bool {
    let incoming = spec_order_of(order.data, order_id).unwrap();
    let out = spec_match_order(b0, incoming);
    let filled = fill_total(out.trades);
    &&& b1 == out.book
    &&& updates_view(updates) == out.updates
    &&& resp matches EngineResponse::CreateOrder { correlation_id, data }
    &&& correlation_id@ == order.correlation_id@
    &&& data.user_id@ == order.data.user_id@
    &&& data.order_id matches Some(id) && id@ == order_id
    &&& data.filled@ == display(filled)
    &&& data.status == spec_status(filled, incoming.qty)
    &&& data.msg@ == "order Placed successfully"@
    &&& data.order.market@ == order.data.market@ && data.order.qty@ == order.data.qty@ && data.order.price
        == order.data.price && data.order.order_type == order.data.order_type && data.order.user_id@
        == order.data.user_id@ && data.order.side == order.data.side
    &&& trades_view(data.trades@) == out.trades
    &&& data.depth matches Some(d) && rows_view(d.bids@) == depth_rows(b1.bids) && rows_view(d.asks@)
        == depth_rows(b1.asks)
}

/// What processing an order under the id `order_id` does (see
/// `process_order`).
pub open spec fn process_outcome(
    b0: crate::book::BookView,
    b1: crate::book::BookView,
    order: Order,
    order_id: Seq<char>,
    r: Result<(Vec<UpdateBalance>, EngineResponse), EngineFault>,
) -> bool {
    &&& book_wf(b1)
    &&& (r matches Err(EngineFault::InvalidAmount)) <==> spec_order_of(order.data, order_id) is None
    &&& r matches Err(EngineFault::InvalidAmount) ==> b1 == b0
    &&& r is Ok <==> (spec_order_of(order.data, order_id) matches Some(o) && spec_match_order(b0, o).ok
        && fill_total_ok(spec_match_order(b0, o).trades))
    &&& r matches Ok((updates, resp)) ==> order_processed(b0, b1, order, order_id, updates@, resp)
}

/// Processes one order for a market under the given id: reads it, matches
/// it, and answers with what it filled, its status, its trades and the new
/// depth. Fails with `InvalidAmount` where an amount does not read (the book
/// unchanged), with `Unprocessable` where no `Decimal` has the exact value
/// of a book quantity the match needs or an amount overflows `Decimal`.
pub fn process_order(orderbook: &mut Orderbook, order: Order, order_id: String) -> (r: Result<
    (Vec<UpdateBalance>, EngineResponse),
    EngineFault,
>)
    requires
        book_wf(old(orderbook)@),
    ensures
        book_wf(final(orderbook)@),
        (r matches Err(EngineFault::InvalidAmount)) <==> spec_order_of(order.data, order_id@) is None,
        r matches Err(EngineFault::InvalidAmount) ==> final(orderbook)@ == old(orderbook)@,
        r is Ok <==> (spec_order_of(order.data, order_id@) matches Some(o) && spec_match_order(
            old(orderbook)@,
            o,
        ).ok && fill_total_ok(spec_match_order(old(orderbook)@, o).trades)),
        process_outcome(old(orderbook)@, final(orderbook)@, order, order_id@, r),
{
    let ghost b0 = orderbook@;
    let user_id = order.data.user_id.clone();
    let order_data = order.data.duplicate();
    let incoming = OrderData::from_request(order.data, order_id)?;
    let ghost iv = incoming@;
    let oid = incoming.order_id.clone();
    let qty = incoming.qty;
    let (trades, updates) = match_order(orderbook, incoming)?;
    let fill_qty = match calculate_filled_qty(&trades) {
        Some(f) => f,
        None => {
            return Err(EngineFault::Unprocessable);
        },
    };
    let status = calculate_status(fill_qty, qty);
    let depth = get_depth(orderbook);
    let filled = decimal_to_string(fill_qty);
    Ok(
        (
            updates,
            EngineResponse::CreateOrder {
                correlation_id: order.correlation_id,
                data: CreateOrderResponseData {
                    user_id,
                    order_id: Some(oid),
                    filled,
                    status,
                    msg: text("order Placed successfully"),
                    order: order_data,
                    trades,
                    depth: Some(depth),
                },
            },
        ),
    )
}

/// Processes one order under a fresh order id: as `process_order`, for some
/// id of 36 characters.
pub fn run_order(orderbook: &mut Orderbook, order: Order) -> (r: Result<
    (Vec<UpdateBalance>, EngineResponse),
    EngineFault,
>)
    requires
        book_wf(old(orderbook)@),
    ensures
        exists|id: Seq<char>| id.len() == 36 && #[trigger] process_outcome(old(orderbook)@, final(orderbook)@, order, id, r),
{
    let id = new_uuid();
    let ghost idv = id@;
    let r = process_order(orderbook, order, id);
    assert(process_outcome(old(orderbook)@, orderbook@, order, idv, r));
    r
}

/// Answers a depth request with the book's depth.
pub fn depth_response(orderbook: &Orderbook, req: DepthRequest) -> (resp: EngineResponse)
    requires
        book_wf(orderbook@),
    ensures
        resp matches EngineResponse::GetDepth { correlation_id, data } && correlation_id@ == req.correlation_id@
            && rows_view(data.depth.bids@) == depth_rows(orderbook@.bids) && rows_view(data.depth.asks@)
            == depth_rows(orderbook@.asks),
{
    EngineResponse::GetDepth { correlation_id: req.correlation_id, data: GetDepthResponseData { depth: get_depth(orderbook) } }
}

/// One request to a market task: an order is processed under a fresh id, a
/// depth request answered, a cancellation carried out. Returns the balance
/// changes for the balance task and the answer for the front end.
pub fn market_step(orderbook: &mut Orderbook, req: Request) -> (r: Result<
    (Vec<UpdateBalance>, EngineResponse),
    EngineFault,
>)
    requires
        book_wf(old(orderbook)@),
    ensures
        book_wf(final(orderbook)@),
        match req {
            Request::OrderData(o) => exists|id: Seq<char>| id.len() == 36 && #[trigger] process_outcome(
                old(orderbook)@,
                final(orderbook)@,
                o,
                id,
                r,
            ),
            Request::DepthData(d) => {
                &&& final(orderbook)@ == old(orderbook)@
                &&& r matches Ok((updates, resp))
                &&& updates@.len() == 0
                &&& resp matches EngineResponse::GetDepth { correlation_id, data }
                &&& correlation_id@ == d.correlation_id@
                &&& rows_view(data.depth.bids@) == depth_rows(old(orderbook)@.bids)
                &&& rows_view(data.depth.asks@) == depth_rows(old(orderbook)@.asks)
            },
            Request::DeleteOrderData(d) => {
                let (b2, removed) = spec_delete(old(orderbook)@, d.order_id@, d.market@);
                &&& r is Ok <==> delete_ok(old(orderbook)@, d.order_id@, d.market@)
                &&& r is Ok ==> final(orderbook)@ == b2
                &&& r is Err ==> final(orderbook)@ == old(orderbook)@
                &&& r matches Ok((updates, resp)) ==> {
                    &&& resp matches EngineResponse::CancelOrder { correlation_id, data }
                    &&& correlation_id@ == d.correlation_id@
                    &&& match removed {
                        Some((side, o, p)) => updates_view(updates@) == seq![unlock_update(side, o, p, d.market@)]
                            && data.msg@ == "order cancelled"@,
                        None => updates@.len() == 0 && data.msg@ == "order not found"@,
                    }
                }
            },
        },
{
    match req {
        Request::OrderData(o) => run_order(orderbook, o),
        Request::DepthData(d) => {
            let resp = depth_response(orderbook, d);
            Ok((Vec::new(), resp))
        },
        Request::DeleteOrderData(d) => {
            let (u, resp) = delete_order(orderbook, d)?;
            let mut updates: Vec<UpdateBalance> = Vec::new();
            match u {
                Some(u) => {
                    updates.push(u);
                },
                None => {},
            }
            proof {
                assert(updates_view(updates@) =~= match u {
                    Some(x) => seq![x@],
                    None => Seq::<crate::matching::UpdateView>::empty(),
                });
            }
            Ok((updates, resp))
        },
    }
}

} // verus!

verus! {

/// What an order reports as filled is what it matched: where `Decimal` adds
/// the fills up without rounding, the reported total and what is left of
/// the order make up its quantity (in units of 10^-28).
pub proof fn law_filled_is_matched(book: crate::book::BookView, order: OrderDataView)
    requires
        book_wf(book),
        crate::matching::order_amounts_ok(order),
        spec_match_order(book, order).ok,
        fill_total_ok(spec_match_order(book, order).trades),
        fill_total_exact(spec_match_order(book, order).trades),
    ensures
        val(fill_total(spec_match_order(book, order).trades)) + val(crate::match_laws::spec_unfilled(book, order))
            == val(order.qty),
{
    lemma_fill_total(spec_match_order(book, order).trades);
    crate::match_laws::law_match_conserves_quantity(book, order);
}

} // verus!

verus! {

/// An order's status goes by value: FILLED exactly where what it filled is
/// worth its quantity, OPEN exactly where it filled nothing (and is not
/// empty), PartialyFilled exactly where it filled something but not all.
pub proof fn law_status_by_value(fill_qty: Dec, qty: Dec)
    requires
        valid(fill_qty),
        valid(qty),
    ensures
        spec_status(fill_qty, qty) == OrderStatus::FILLED <==> val(fill_qty) == val(qty),
        spec_status(fill_qty, qty) == OrderStatus::OPEN <==> val(fill_qty) == 0 && val(qty) != 0,
        spec_status(fill_qty, qty) == OrderStatus::PartialyFilled <==> val(fill_qty) != 0 && val(fill_qty) != val(
            qty,
        ),
        0 < val(fill_qty) < val(qty) ==> spec_status(fill_qty, qty) == OrderStatus::PartialyFilled,
{
    crate::amount::lemma_val_sign(fill_qty);
    crate::amount::lemma_val_sign(qty);
}

} // verus!
