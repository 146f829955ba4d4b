use vstd::prelude::*;
use crate::amount::Dec;

verus! {

/// Whether an order buys or sells the market's asset against USDT.
#[derive(Debug, Clone, Copy, PartialEq, Eq, Structural)]
pub enum Side {
    BUY,
    SELL,
}

/// A limit order rests at its price; a market order takes what crosses and never rests.
#[derive(Debug, Clone, Copy, PartialEq, Eq, Structural)]
pub enum TypeOfOrder {
    LIMIT,
    MARKET,
}

/// The lifecycle state of an order.
#[derive(Debug, Clone, Copy, PartialEq, Eq, Structural)]
pub enum OrderStatus {
    OPEN,
    PartialyFilled,
    FILLED,
    CANCEL,
}

/// The markets the engine runs, one order book each.
#[derive(Debug, Clone, Copy, PartialEq, Eq, Structural)]
pub enum Market {
    BTC,
    ETH,
    SOL,
}

} // verus!

verus! {

/// The visible book: `[price, quantity]` per level, as text.
#[derive(Debug, Clone)]
pub struct Depth {
    pub bids: Vec<(String, String)>,
    pub asks: Vec<(String, String)>,
}

/// One user's holding of one asset.
#[derive(Debug, Clone, Copy, PartialEq, Eq, Structural)]
pub struct UserBalance {
    pub available_balance: Dec,
    pub locked_balance: Dec,
    pub reserve_balance: Dec,
}

/// One fill between a resting (maker) order and an incoming (taker) order.
#[derive(Debug, Clone)]
pub struct Trade {
    pub maker_order_id: String,
    pub taker_order_id: String,
    pub maker_user_id: String,
    pub taker_user_id: String,
    pub fill_qty: Dec,
    pub price: Dec,
}

/// A fill as the contracts see it.
pub struct TradeView {
    pub maker_order_id: Seq<char>,
    pub taker_order_id: Seq<char>,
    pub maker_user_id: Seq<char>,
    pub taker_user_id: Seq<char>,
    pub fill_qty: Dec,
    pub price: Dec,
}

impl View for Trade {
    type V = TradeView;

    open spec fn view(&self) -> TradeView {
        TradeView {
            maker_order_id: self.maker_order_id@,
            taker_order_id: self.taker_order_id@,
            maker_user_id: self.maker_user_id@,
            taker_user_id: self.taker_user_id@,
            fill_qty: self.fill_qty,
            price: self.price,
        }
    }
}

/// The views of a sequence of trades.
pub open spec fn trades_view(v: Seq<Trade>) -> Seq<TradeView> {
    v.map_values(|t: Trade| t@)
}

} // verus!

verus! {

/// An order as the front end sends it: amounts still as text.
#[derive(Debug)]
pub struct CreateOrderData {
    pub market: String,
    pub qty: String,
    pub price: Option<String>,
    pub order_type: TypeOfOrder,
    pub user_id: String,
    pub side: Side,
}

impl CreateOrderData {
    /// A field-by-field copy.
    pub fn duplicate(&self) -> (r: CreateOrderData)
        ensures
            r.market@ == self.market@,
            r.qty@ == self.qty@,
            r.price == self.price,
            r.order_type == self.order_type,
            r.user_id@ == self.user_id@,
            r.side == self.side,
    {
        CreateOrderData {
            market: self.market.clone(),
            qty: self.qty.clone(),
            price: match &self.price {
                Some(p) => Some(p.clone()),
                None => None,
            },
            order_type: self.order_type,
            user_id: self.user_id.clone(),
            side: self.side,
        }
    }
}

/// A user asks for its starting balances.
#[derive(Debug)]
pub struct OnRampData {
    pub user_id: String,
}

/// Someone asks for a market's depth.
#[derive(Debug)]
pub struct GetDepthData {
    pub market: String,
}

/// A user asks for its balances.
#[derive(Debug)]
pub struct GetBalanceData {
    pub user_id: String,
}

/// A user asks to cancel one of its orders.
#[derive(Debug)]
pub struct DeleteOrderData {
    pub user_id: String,
    pub order_id: String,
    pub market: String,
}

/// A request from the front end to the engine.
#[derive(Debug)]
pub enum EngineRequest {
    CreateOrder { correlation_id: String, data: CreateOrderData },
    OnRamp { correlation_id: String, data: OnRampData },
    GetDepth { correlation_id: String, data: GetDepthData },
    GetBalance { correlation_id: String, data: GetBalanceData },
    DeleteOrder { correlation_id: String, data: DeleteOrderData },
}

/// The answer to an order.
#[derive(Debug)]
pub struct CreateOrderResponseData {
    pub user_id: String,
    pub order_id: Option<String>,
    pub filled: String,
    pub status: OrderStatus,
    pub msg: String,
    pub order: CreateOrderData,
    pub trades: Vec<Trade>,
    pub depth: Option<Depth>,
}

/// The answer to an on-ramp: the user's balances per asset.
#[derive(Debug)]
pub struct OnRampResponseData {
    pub user_id: String,
    pub balance: crate::strmap::StrMap<UserBalance>,
}

/// The answer to a depth request.
#[derive(Debug)]
pub struct GetDepthResponseData {
    pub depth: Depth,
}

/// The answer to a balance request: the user's balances, if it has any.
#[derive(Debug)]
pub struct GetBalanceResponseData {
    pub balance: Option<crate::strmap::StrMap<UserBalance>>,
}

/// The answer to a cancellation.
#[derive(Debug)]
pub struct CancelOrderResponseData {
    pub user_id: String,
    pub order_id: String,
    pub msg: String,
    pub status: OrderStatus,
    pub depth: Option<Depth>,
    pub market: String,
}

/// An answer from the engine to the front end.
#[derive(Debug)]
pub enum EngineResponse {
    CreateOrder { correlation_id: String, data: CreateOrderResponseData },
    OnRamp { correlation_id: String, data: OnRampResponseData },
    GetDepth { correlation_id: String, data: GetDepthResponseData },
    GetBalance { correlation_id: String, data: GetBalanceResponseData },
    CancelOrder { correlation_id: String, data: CancelOrderResponseData },
}

impl EngineResponse {
    /// The correlation id that ties the answer to its request.
    pub fn correlation_id(&self) -> (r: &String)
        ensures
            r@ == spec_correlation_id(*self),
    {
        match self {
            EngineResponse::CreateOrder { correlation_id, .. } => correlation_id,
            EngineResponse::OnRamp { correlation_id, .. } => correlation_id,
            EngineResponse::GetDepth { correlation_id, .. } => correlation_id,
            EngineResponse::GetBalance { correlation_id, .. } => correlation_id,
            EngineResponse::CancelOrder { correlation_id, .. } => correlation_id,
        }
    }
}

/// The correlation id of an answer.
pub open spec fn spec_correlation_id(r: EngineResponse) -> Seq<char> {
    match r {
        EngineResponse::CreateOrder { correlation_id, .. } => correlation_id@,
        EngineResponse::OnRamp { correlation_id, .. } => correlation_id@,
        EngineResponse::GetDepth { correlation_id, .. } => correlation_id@,
        EngineResponse::GetBalance { correlation_id, .. } => correlation_id@,
        EngineResponse::CancelOrder { correlation_id, .. } => correlation_id@,
    }
}

} // verus!
