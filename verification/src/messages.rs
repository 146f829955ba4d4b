//! Messages between the engine's tasks.
use vstd::prelude::*;
use crate::types::{CreateOrderData, Market};
use crate::text::text;

verus! {

/// An order on its way from the balance task to a market.
#[derive(Debug)]
pub struct Order {
    pub correlation_id: String,
    pub data: CreateOrderData,
}

/// A depth request on its way to a market.
#[derive(Debug)]
pub struct Depth {
    pub correlation_id: String,
}

/// A cancellation on its way to a market.
#[derive(Debug)]
pub struct DeleteOrder {
    pub correlation_id: String,
    pub order_id: String,
    pub market: String,
}

/// What a market task is asked to do.
#[derive(Debug)]
pub enum Request {
    OrderData(Order),
    DepthData(Depth),
    DeleteOrderData(DeleteOrder),
}

/// The market a name stands for: "BTC", "SOL" and "ETH" have one.
pub open spec fn spec_market_of(name: Seq<char>) -> Option<Market> {
    if name == "BTC"@ {
        Some(Market::BTC)
    } else if name == "SOL"@ {
        Some(Market::SOL)
    } else if name == "ETH"@ {
        Some(Market::ETH)
    } else {
        None
    }
}

/// The market task that a market name is routed to, if any.
pub fn market_of(name: &String) -> (r: Option<Market>)
    ensures
        r == spec_market_of(name@),
{
    if *name == text("BTC") {
        Some(Market::BTC)
    } else if *name == text("SOL") {
        Some(Market::SOL)
    } else if *name == text("ETH") {
        Some(Market::ETH)
    } else {
        None
    }
}

} // verus!
