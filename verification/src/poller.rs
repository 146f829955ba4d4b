//! The database writer: what each engine answer writes.
use vstd::prelude::*;
use crate::amount::{dec_valid, decimal_to_string, display, valid};
use crate::ids::{parse_uuid, uuid_parse};
use crate::text::text;
use crate::types::{
    CancelOrderResponseData, CreateOrderResponseData, EngineResponse, OrderStatus, Side, Trade, TypeOfOrder,
};

verus! {

/// The database spelling of a side.
pub fn side_to_str(side: &Side) -> (s: &'static str)
    ensures
        s@ == (match side {
            Side::BUY => "buy"@,
            Side::SELL => "sell"@,
        }),
{
    match side {
        Side::BUY => "buy",
        Side::SELL => "sell",
    }
}

/// The database spelling of an order type.
pub fn type_to_str(t: &TypeOfOrder) -> (s: &'static str)
    ensures
        s@ == (match t {
            TypeOfOrder::LIMIT => "limit"@,
            TypeOfOrder::MARKET => "market"@,
        }),
{
    match t {
        TypeOfOrder::LIMIT => "limit",
        TypeOfOrder::MARKET => "market",
    }
}

/// The database spelling of a status.
pub open spec fn spec_status_str(status: OrderStatus) -> Seq<char> {
    match status {
        OrderStatus::OPEN => "open"@,
        OrderStatus::PartialyFilled => "partially_filled"@,
        OrderStatus::FILLED => "filled"@,
        OrderStatus::CANCEL => "cancelled"@,
    }
}

/// The database spelling of a status.
pub fn status_to_str(status: &OrderStatus) -> (s: &'static str)
    ensures
        s@ == spec_status_str(*status),
{
    match status {
        OrderStatus::OPEN => "open",
        OrderStatus::PartialyFilled => "partially_filled",
        OrderStatus::FILLED => "filled",
        OrderStatus::CANCEL => "cancelled",
    }
}

/// Why an answer cannot be written.
#[derive(Debug, Clone, Copy, PartialEq, Eq, Structural)]
pub enum PollerError {
    /// An id is not a UUID.
    BadUuid,
    /// An amount is not a `Decimal`.
    BadAmount,
}

/// The row of a new order.
#[derive(Debug)]
pub struct OrderRow {
    pub id: u128,
    pub quantity: String,
    pub price: String,
    pub side: String,
    pub order_type: String,
    pub status: String,
    pub user_id: u128,
    pub market: String,
}

/// The row of a fill; its maker order's status is then brought up to date.
#[derive(Debug)]
pub struct FillRow {
    pub maker_user_id: u128,
    pub taker_user_id: u128,
    pub maker_order_id: u128,
    pub taker_order_id: u128,
    pub price: String,
    pub quantity: String,
    pub market: String,
}

/// What an accepted order writes: its row, then its fills in order.
#[derive(Debug)]
pub struct OrderWrites {
    pub order: OrderRow,
    pub fills: Vec<FillRow>,
}

/// The fill row of a trade, where its ids read and its amounts are
/// `Decimal`s.
pub open spec fn fill_row_ok(t: Trade, market: Seq<char>, row: FillRow) -> bool {
    &&& uuid_parse(t.maker_user_id@) == Some(row.maker_user_id)
    &&& uuid_parse(t.taker_user_id@) == Some(row.taker_user_id)
    &&& uuid_parse(t.maker_order_id@) == Some(row.maker_order_id)
    &&& uuid_parse(t.taker_order_id@) == Some(row.taker_order_id)
    &&& row.price@ == display(t.price)
    &&& row.quantity@ == display(t.fill_qty)
    &&& row.market@ == market
}

/// A trade can be written: its ids read and its amounts are `Decimal`s.
pub open spec fn trade_writable(t: Trade) -> bool {
    &&& uuid_parse(t.maker_user_id@) is Some
    &&& uuid_parse(t.taker_user_id@) is Some
    &&& uuid_parse(t.maker_order_id@) is Some
    &&& uuid_parse(t.taker_order_id@) is Some
    &&& valid(t.price)
    &&& valid(t.fill_qty)
}

/// Why a trade cannot be written: an id that is not a UUID comes first.
pub open spec fn trade_error(t: Trade) -> PollerError {
    if uuid_parse(t.maker_user_id@) is Some && uuid_parse(t.taker_user_id@) is Some && uuid_parse(
        t.maker_order_id@,
    ) is Some && uuid_parse(t.taker_order_id@) is Some {
        PollerError::BadAmount
    } else {
        PollerError::BadUuid
    }
}

/// The first trade at or after `i` that cannot be written (the length where
/// every one can).
pub open spec fn first_unwritable(ts: Seq<Trade>, i: int) -> int
    decreases ts.len() - i,
{
    if i < 0 || i >= ts.len() {
        ts.len() as int
    } else if !trade_writable(ts[i]) {
        i
    } else {
        first_unwritable(ts, i + 1)
    }
}

proof fn lemma_first_unwritable(ts: Seq<Trade>, i: int)
    requires
        0 <= i <= ts.len(),
    ensures
        i <= first_unwritable(ts, i) <= ts.len(),
        forall|k: int| i <= k < first_unwritable(ts, i) ==> trade_writable(#[trigger] ts[k]),
        first_unwritable(ts, i) < ts.len() ==> !trade_writable(ts[first_unwritable(ts, i)]),
    decreases ts.len() - i,
{
    if i < ts.len() && trade_writable(ts[i]) {
        lemma_first_unwritable(ts, i + 1);
    }
}

fn fill_row(t: &Trade, market: &String) -> (r: Result<FillRow, PollerError>)
    ensures
        r is Ok <==> trade_writable(*t),
        r matches Ok(row) ==> fill_row_ok(*t, market@, row),
        r matches Err(e) ==> e == trade_error(*t),
{
    let maker_user_id = match parse_uuid(t.maker_user_id.as_str()) {
        Some(v) => v,
        None => {
            return Err(PollerError::BadUuid);
        },
    };
    let taker_user_id = match parse_uuid(t.taker_user_id.as_str()) {
        Some(v) => v,
        None => {
            return Err(PollerError::BadUuid);
        },
    };
    let maker_order_id = match parse_uuid(t.maker_order_id.as_str()) {
        Some(v) => v,
        None => {
            return Err(PollerError::BadUuid);
        },
    };
    let taker_order_id = match parse_uuid(t.taker_order_id.as_str()) {
        Some(v) => v,
        None => {
            return Err(PollerError::BadUuid);
        },
    };
    if !dec_valid(t.price) || !dec_valid(t.fill_qty) {
        return Err(PollerError::BadAmount);
    }
    Ok(
        FillRow {
            maker_user_id,
            taker_user_id,
            maker_order_id,
            taker_order_id,
            price: decimal_to_string(t.price),
            quantity: decimal_to_string(t.fill_qty),
            market: market.clone(),
        },
    )
}

/// The rows an order answer writes: the order's row (its price "0" where
/// it has none, its enums spelt as the database spells them) and a fill row
/// per trade, in order.
pub open spec fn order_writes_ok(data: CreateOrderResponseData, w: OrderWrites) -> bool {
    let oid = data.order_id.unwrap();
    &&& Some(w.order.id) == uuid_parse(oid@)
    &&& Some(w.order.user_id) == uuid_parse(data.user_id@)
    &&& w.order.quantity@ == data.order.qty@
    &&& w.order.price@ == (match data.order.price {
        Some(p) => p@,
        None => "0"@,
    })
    &&& w.order.side@ == (match data.order.side {
        Side::BUY => "buy"@,
        Side::SELL => "sell"@,
    })
    &&& w.order.order_type@ == (match data.order.order_type {
        TypeOfOrder::LIMIT => "limit"@,
        TypeOfOrder::MARKET => "market"@,
    })
    &&& w.order.status@ == spec_status_str(data.status)
    &&& w.order.market@ == data.order.market@
    &&& w.fills@.len() == data.trades@.len()
    &&& forall|i: int|
        0 <= i < data.trades@.len() ==> fill_row_ok(data.trades@[i], data.order.market@, #[trigger] w.fills@[i])
}

/// Why an order answer cannot be written: `BadUuid` for the order's ids,
/// else the error of the first trade that cannot be written.
pub open spec fn create_order_error(d: CreateOrderResponseData) -> PollerError {
    if uuid_parse(d.order_id.unwrap()@) is None || uuid_parse(d.user_id@) is None {
        PollerError::BadUuid
    } else {
        trade_error(d.trades@[first_unwritable(d.trades@, 0)])
    }
}

/// What an order answer writes. An answer without an order id (a turned-down
/// order) writes nothing. Otherwise the order's row (its price "0" where it
/// has none) and a fill row per trade; an id that is not a UUID, or an
/// amount that is not a `Decimal`, writes nothing and fails: with `BadUuid`
/// for the order's ids, else with the error of the first trade that cannot
/// be written.
pub fn handle_create_order(data: &CreateOrderResponseData) -> (r: Result<Option<OrderWrites>, PollerError>)
    ensures
        data.order_id is None ==> r == Ok::<Option<OrderWrites>, PollerError>(None),
        data.order_id matches Some(oid) ==> {
            let writable = uuid_parse(oid@) is Some && uuid_parse(data.user_id@) is Some && forall|i: int|
                0 <= i < data.trades@.len() ==> trade_writable(#[trigger] data.trades@[i]);
            &&& (r is Ok <==> writable)
            &&& r matches Ok(w) ==> w matches Some(w) && order_writes_ok(*data, w)
            &&& r matches Err(e) ==> e == create_order_error(*data)
        },
{
    let oid = match &data.order_id {
        Some(id) => id,
        None => {
            return Ok(None);
        },
    };
    let id = match parse_uuid(oid.as_str()) {
        Some(v) => v,
        None => {
            return Err(PollerError::BadUuid);
        },
    };
    let user_id = match parse_uuid(data.user_id.as_str()) {
        Some(v) => v,
        None => {
            return Err(PollerError::BadUuid);
        },
    };
    let price = match &data.order.price {
        Some(p) => p.clone(),
        None => text("0"),
    };
    let order = OrderRow {
        id,
        quantity: data.order.qty.clone(),
        price,
        side: text(side_to_str(&data.order.side)),
        order_type: text(type_to_str(&data.order.order_type)),
        status: text(status_to_str(&data.status)),
        user_id,
        market: data.order.market.clone(),
    };
    let mut fills: Vec<FillRow> = Vec::new();
    let mut i: usize = 0;
    proof {
        lemma_first_unwritable(data.trades@, 0);
    }
    while i < data.trades.len()
        invariant
            i <= data.trades@.len(),
            data.order_id matches Some(o) && uuid_parse(o@) is Some,
            uuid_parse(data.user_id@) is Some,
            fills@.len() == i,
            forall|k: int| 0 <= k < i ==> trade_writable(#[trigger] data.trades@[k]),
            forall|k: int| 0 <= k < i ==> fill_row_ok(data.trades@[k], data.order.market@, #[trigger] fills@[k]),
            i <= first_unwritable(data.trades@, 0) <= data.trades@.len(),
            forall|k: int| 0 <= k < first_unwritable(data.trades@, 0) ==> trade_writable(#[trigger] data.trades@[k]),
            first_unwritable(data.trades@, 0) < data.trades@.len() ==> !trade_writable(
                data.trades@[first_unwritable(data.trades@, 0)],
            ),
        decreases data.trades@.len() - i,
    {
        let row = match fill_row(&data.trades[i], &data.order.market) {
            Ok(row) => row,
            Err(e) => {
                assert(first_unwritable(data.trades@, 0) == i);
                assert(e == trade_error(data.trades@[i as int]));
                return Err(e);
            },
        };
        fills.push(row);
        i = i + 1;
    }
    Ok(Some(OrderWrites { order, fills }))
}

/// What a cancellation answer writes: the order's new status. An answer
/// without an order id writes nothing; an id that is not a UUID fails.
pub fn handle_delete_order(data: &CancelOrderResponseData) -> (r: Result<Option<(u128, String)>, PollerError>)
    ensures
        data.order_id@.len() == 0 ==> r == Ok::<Option<(u128, String)>, PollerError>(None),
        data.order_id@.len() != 0 ==> match uuid_parse(data.order_id@) {
            Some(id) => r matches Ok(Some((i, s))) && i == id && s@ == spec_status_str(data.status),
            None => r == Err::<Option<(u128, String)>, PollerError>(PollerError::BadUuid),
        },
{
    if data.order_id.as_str().is_empty() {
        return Ok(None);
    }
    let id = match parse_uuid(data.order_id.as_str()) {
        Some(v) => v,
        None => {
            return Err(PollerError::BadUuid);
        },
    };
    Ok(Some((id, text(status_to_str(&data.status)))))
}

/// What the database writer does with an engine answer.
#[derive(Debug)]
pub enum PollerAction {
    WriteOrder(OrderWrites),
    UpdateStatus(u128, String),
    Nothing,
}

/// Dispatches an engine answer: orders and cancellations are written, other
/// answers are not.
pub fn handle_response(data: &EngineResponse) -> (r: Result<PollerAction, PollerError>)
    ensures
        match data {
            EngineResponse::CreateOrder { data: d, .. } => {
                &&& (r is Ok <==> handle_create_order_ok(*d))
                &&& (r matches Err(e) ==> e == create_order_error(*d))
                &&& (r matches Ok(a) ==> match d.order_id {
                    None => a is Nothing,
                    Some(_) => a matches PollerAction::WriteOrder(w) && order_writes_ok(*d, w),
                })
            },
            EngineResponse::CancelOrder { data: d, .. } => if d.order_id@.len() == 0 {
                r matches Ok(PollerAction::Nothing)
            } else {
                match uuid_parse(d.order_id@) {
                    Some(id) => r matches Ok(PollerAction::UpdateStatus(i, s)) && i == id && s@ == spec_status_str(
                        d.status,
                    ),
                    None => r == Err::<PollerAction, PollerError>(PollerError::BadUuid),
                }
            },
            _ => r matches Ok(PollerAction::Nothing),
        },
{
    match data {
        EngineResponse::CreateOrder { data: d, .. } => match handle_create_order(d)? {
            Some(w) => Ok(PollerAction::WriteOrder(w)),
            None => Ok(PollerAction::Nothing),
        },
        EngineResponse::CancelOrder { data: d, .. } => match handle_delete_order(d)? {
            Some((id, s)) => Ok(PollerAction::UpdateStatus(id, s)),
            None => Ok(PollerAction::Nothing),
        },
        _ => Ok(PollerAction::Nothing),
    }
}

/// An order answer can be written.
pub open spec fn handle_create_order_ok(d: CreateOrderResponseData) -> bool {
    d.order_id matches Some(oid) ==> uuid_parse(oid@) is Some && uuid_parse(d.user_id@) is Some && forall|i: int|
        0 <= i < d.trades@.len() ==> trade_writable(#[trigger] d.trades@[i])
}

} // verus!

verus! {

/// Every fill row an order answer writes names the trade's parties the way
/// round the trade does: the maker's user and order as the maker's, the
/// taker's as the taker's (each the UUID its text reads as), at the trade's
/// price and quantity, in the order's market, one row per trade in order.
pub proof fn law_fill_rows_keep_parties(data: CreateOrderResponseData, w: OrderWrites)
    requires
        order_writes_ok(data, w),
    ensures
        w.fills@.len() == data.trades@.len(),
        forall|i: int|
            0 <= i < w.fills@.len() ==> {
                let t = #[trigger] data.trades@[i];
                let row = w.fills@[i];
                &&& uuid_parse(t.maker_user_id@) is Some && row.maker_user_id == uuid_parse(t.maker_user_id@).unwrap()
                &&& uuid_parse(t.taker_user_id@) is Some && row.taker_user_id == uuid_parse(t.taker_user_id@).unwrap()
                &&& uuid_parse(t.maker_order_id@) is Some && row.maker_order_id == uuid_parse(
                    t.maker_order_id@,
                ).unwrap()
                &&& uuid_parse(t.taker_order_id@) is Some && row.taker_order_id == uuid_parse(
                    t.taker_order_id@,
                ).unwrap()
                &&& row.price@ == display(t.price)
                &&& row.quantity@ == display(t.fill_qty)
                &&& row.market@ == data.order.market@
            },
{
    assert forall|i: int| 0 <= i < w.fills@.len() implies {
        let t = #[trigger] data.trades@[i];
        let row = w.fills@[i];
        &&& uuid_parse(t.maker_user_id@) is Some && row.maker_user_id == uuid_parse(t.maker_user_id@).unwrap()
        &&& uuid_parse(t.taker_user_id@) is Some && row.taker_user_id == uuid_parse(t.taker_user_id@).unwrap()
        &&& uuid_parse(t.maker_order_id@) is Some && row.maker_order_id == uuid_parse(t.maker_order_id@).unwrap()
        &&& uuid_parse(t.taker_order_id@) is Some && row.taker_order_id == uuid_parse(t.taker_order_id@).unwrap()
        &&& row.price@ == display(t.price)
        &&& row.quantity@ == display(t.fill_qty)
        &&& row.market@ == data.order.market@
    } by {
        assert(fill_row_ok(data.trades@[i], data.order.market@, w.fills@[i]));
    }
}

} // verus!

verus! {

/// The fill row of a trade names its parties the way round the trade does:
/// the maker's user and order as the maker's, the taker's as the taker's.
pub proof fn law_fill_row_parties(t: Trade, market: Seq<char>, row: FillRow)
    requires
        fill_row_ok(t, market, row),
    ensures
        uuid_parse(t.maker_user_id@) is Some && row.maker_user_id == uuid_parse(t.maker_user_id@).unwrap(),
        uuid_parse(t.taker_user_id@) is Some && row.taker_user_id == uuid_parse(t.taker_user_id@).unwrap(),
        uuid_parse(t.maker_order_id@) is Some && row.maker_order_id == uuid_parse(t.maker_order_id@).unwrap(),
        uuid_parse(t.taker_order_id@) is Some && row.taker_order_id == uuid_parse(t.taker_order_id@).unwrap(),
{
}

} // verus!
