use exchange::amount::{convert_to_decimal, Dec};
use exchange::book::{get_depth, Orderbook, Orders, RestingOrder};
use exchange::delete::{delete_order, remove_from_side};
use exchange::market::{calculate_filled_qty, calculate_status, market_step, process_order};
use exchange::matching::{match_order, BalanceOps, EngineFault, OrderData};
use exchange::messages::{DeleteOrder, Depth as DepthRequest, Order, Request};
use exchange::types::{CreateOrderData, EngineResponse, OrderStatus, Side, Trade, TypeOfOrder};

/// The decimal with mantissa `m` and scale `s`.
fn d(m: i128, s: u32) -> Dec {
    Dec { m, s }
}

/// The whole number `v`.
fn w(v: i128) -> Dec {
    Dec { m: v, s: 0 }
}

fn resting(id: &str, user: &str, side: Side, qty: Dec, price: Dec) -> Orders {
    Orders {
        order_id: id.to_string(),
        user_id: user.to_string(),
        market: "BTC".to_string(),
        side,
        qty,
        order_type: TypeOfOrder::LIMIT,
        price,
        status: OrderStatus::OPEN,
    }
}

/// A level holding `orders`, its quantity their sum at the largest scale.
fn level(price: Dec, orders: Vec<Orders>) -> RestingOrder {
    let s = orders.iter().map(|o| o.qty.s).max().unwrap_or(0);
    let m: i128 = orders.iter().map(|o| o.qty.m * 10i128.pow(s - o.qty.s)).sum();
    RestingOrder { price, available_qty: d(m, s), orders: orders.into() }
}

fn empty_book() -> Orderbook {
    Orderbook::new()
}

fn incoming(id: &str, user: &str, side: Side, order_type: TypeOfOrder, qty: Dec, price: Option<Dec>) -> OrderData {
    OrderData {
        market: "BTC".to_string(),
        qty,
        price,
        order_type,
        user_id: user.to_string(),
        side,
        order_id: id.to_string(),
        status: OrderStatus::OPEN,
    }
}

#[test]
fn convert_to_decimal_reads_decimals() {
    assert_eq!(convert_to_decimal("10"), Some(w(10)));
    assert_eq!(convert_to_decimal("10.0"), Some(d(100, 1)));
    assert_eq!(convert_to_decimal("-5"), Some(w(-5)));
    assert_eq!(convert_to_decimal("250.000"), Some(d(250000, 3)));
    assert_eq!(convert_to_decimal("10.5"), Some(d(105, 1)));
    assert_eq!(convert_to_decimal("0.001"), Some(d(1, 3)));
    assert_eq!(convert_to_decimal("abc"), None);
    assert_eq!(convert_to_decimal(""), None);
}

#[test]
fn depth_writes_amounts_as_rust_decimal_does() {
    let mut book = empty_book();
    book.bids.push(level(d(5, 3), vec![resting("b1", "u", Side::BUY, w(15), d(5, 3))]));
    book.bids.push(level(d(105, 1), vec![resting("b2", "u", Side::BUY, d(100, 1), d(105, 1))]));
    book.asks.push(level(w(20), vec![resting("a1", "u", Side::SELL, d(125, 2), w(20))]));
    let depth = get_depth(&book);
    assert_eq!(depth.bids, vec![("0.005".to_string(), "15".to_string()), ("10.5".to_string(), "10.0".to_string())]);
    assert_eq!(depth.asks, vec![("20".to_string(), "1.25".to_string())]);
}

#[test]
fn buy_walks_the_asks_best_first() {
    let mut book = empty_book();
    book.asks.push(level(w(100), vec![resting("a1", "maker1", Side::SELL, w(5), w(100))]));
    book.asks.push(level(w(101), vec![resting("a2", "maker2", Side::SELL, w(5), w(101))]));
    let (trades, updates) =
        match_order(&mut book, incoming("t1", "taker", Side::BUY, TypeOfOrder::LIMIT, w(7), Some(w(101)))).unwrap();
    assert_eq!(trades.len(), 2);
    assert_eq!(trades[0].maker_order_id, "a1");
    assert_eq!(trades[0].fill_qty, w(5));
    assert_eq!(trades[0].price, w(100));
    assert_eq!(trades[1].maker_order_id, "a2");
    assert_eq!(trades[1].fill_qty, w(2));
    assert_eq!(trades[1].price, w(101));
    assert_eq!(book.asks.len(), 1);
    assert_eq!(book.asks[0].price, w(101));
    assert_eq!(book.asks[0].available_qty, w(3));
    assert_eq!(book.asks[0].orders[0].qty, w(3));
    assert!(book.bids.is_empty());
    assert_eq!(updates.len(), 8);
    // the taker gets back what it reserved above the level's price
    assert_eq!(updates[0].user_id, "taker");
    assert_eq!(updates[0].asset, "USDT");
    assert_eq!(updates[0].available_balance, Some(BalanceOps::Increase(w(5 * 101 - 5 * 100))));
    assert_eq!(updates[0].reserved_balance, Some(BalanceOps::Decrease(w(500))));
    assert_eq!(updates[1].asset, "BTC");
    assert_eq!(updates[1].available_balance, Some(BalanceOps::Increase(w(5))));
    assert_eq!(updates[2].user_id, "maker1");
    assert_eq!(updates[2].available_balance, Some(BalanceOps::Increase(w(500))));
    assert_eq!(updates[3].locked_balance, Some(BalanceOps::Decrease(w(5))));
}

#[test]
fn unmatched_limit_buy_rests_and_locks() {
    let mut book = empty_book();
    book.asks.push(level(w(105), vec![resting("a1", "maker1", Side::SELL, w(5), w(105))]));
    let (trades, updates) =
        match_order(&mut book, incoming("b1", "buyer", Side::BUY, TypeOfOrder::LIMIT, w(4), Some(w(100)))).unwrap();
    assert!(trades.is_empty());
    assert_eq!(book.bids.len(), 1);
    assert_eq!(book.bids[0].price, w(100));
    assert_eq!(book.bids[0].available_qty, w(4));
    assert_eq!(book.bids[0].orders[0].order_id, "b1");
    assert_eq!(book.bids[0].orders[0].status, OrderStatus::OPEN);
    assert_eq!(updates.len(), 1);
    assert_eq!(updates[0].asset, "USDT");
    assert_eq!(updates[0].locked_balance, Some(BalanceOps::Increase(w(400))));
    assert_eq!(book.asks[0].available_qty, w(5));
}

#[test]
fn partly_filled_sell_rests_the_rest() {
    let mut book = empty_book();
    book.bids.push(level(w(100), vec![resting("b1", "buyer", Side::BUY, w(2), w(100))]));
    let (trades, updates) =
        match_order(&mut book, incoming("s1", "seller", Side::SELL, TypeOfOrder::LIMIT, w(5), Some(w(100)))).unwrap();
    assert_eq!(trades.len(), 1);
    assert_eq!(trades[0].fill_qty, w(2));
    assert!(book.bids.is_empty());
    assert_eq!(book.asks.len(), 1);
    assert_eq!(book.asks[0].available_qty, w(3));
    assert_eq!(book.asks[0].orders[0].status, OrderStatus::PartialyFilled);
    assert_eq!(updates.len(), 5);
    assert_eq!(updates[4].asset, "BTC");
    assert_eq!(updates[4].locked_balance, Some(BalanceOps::Increase(w(3))));
}

#[test]
fn fractional_buy_settles_at_the_level_price() {
    let mut book = empty_book();
    book.asks.push(level(d(1005, 1), vec![resting("a1", "maker", Side::SELL, d(5, 1), d(1005, 1))]));
    let (trades, updates) =
        match_order(&mut book, incoming("t", "taker", Side::BUY, TypeOfOrder::LIMIT, d(25, 2), Some(w(101)))).unwrap();
    assert_eq!(trades.len(), 1);
    assert_eq!(trades[0].fill_qty, d(25, 2));
    assert_eq!(trades[0].price, d(1005, 1));
    // 0.25 * 101 - 0.25 * 100.5 = 25.25 - 25.125 = 0.125
    assert_eq!(updates[0].available_balance, Some(BalanceOps::Increase(d(125, 3))));
    assert_eq!(updates[0].reserved_balance, Some(BalanceOps::Decrease(d(25125, 3))));
    assert_eq!(updates[2].available_balance, Some(BalanceOps::Increase(d(25125, 3))));
    // 0.5 - 0.25 at the larger scale
    assert_eq!(book.asks[0].available_qty, d(25, 2));
    assert_eq!(book.asks[0].orders[0].qty, d(25, 2));
    let depth = get_depth(&book);
    assert_eq!(depth.asks[0], ("100.5".to_string(), "0.25".to_string()));
}

#[test]
fn an_order_joins_the_level_of_equal_price_value() {
    let mut book = empty_book();
    match_order(&mut book, incoming("x", "u", Side::SELL, TypeOfOrder::LIMIT, d(10, 1), Some(d(1000, 1)))).unwrap();
    match_order(&mut book, incoming("y", "v", Side::SELL, TypeOfOrder::LIMIT, d(100, 2), Some(d(10000, 2)))).unwrap();
    assert_eq!(book.asks.len(), 1);
    // the level keeps its first price; its quantity is 1.0 + 1.00 = 2.00
    assert_eq!(book.asks[0].price, d(1000, 1));
    assert_eq!(book.asks[0].available_qty, d(200, 2));
    assert_eq!(book.asks[0].orders[1].price, d(10000, 2));
    let depth = get_depth(&book);
    assert_eq!(depth.asks, vec![("100.0".to_string(), "2.00".to_string())]);
}

#[test]
fn sell_takes_the_lowest_bid_first() {
    let mut book = empty_book();
    book.bids.push(level(w(90), vec![resting("b1", "u1", Side::BUY, w(1), w(90))]));
    book.bids.push(level(w(95), vec![resting("b2", "u2", Side::BUY, w(1), w(95))]));
    let (trades, _) =
        match_order(&mut book, incoming("s1", "u3", Side::SELL, TypeOfOrder::MARKET, w(1), None)).unwrap();
    assert_eq!(trades.len(), 1);
    assert_eq!(trades[0].price, w(90));
    assert_eq!(book.bids.len(), 1);
    assert_eq!(book.bids[0].price, w(95));
}

#[test]
fn market_order_never_rests() {
    let mut book = empty_book();
    book.asks.push(level(w(100), vec![resting("a1", "m", Side::SELL, w(2), w(100))]));
    let (trades, _) =
        match_order(&mut book, incoming("t", "u", Side::BUY, TypeOfOrder::MARKET, w(5), Some(w(100)))).unwrap();
    assert_eq!(trades.len(), 1);
    assert!(book.asks.is_empty());
    assert!(book.bids.is_empty());
}

#[test]
fn fifo_within_a_level() {
    let mut book = empty_book();
    book.asks.push(level(
        w(100),
        vec![resting("first", "m1", Side::SELL, w(2), w(100)), resting("second", "m2", Side::SELL, w(2), w(100))],
    ));
    let (trades, _) =
        match_order(&mut book, incoming("t", "u", Side::BUY, TypeOfOrder::LIMIT, w(3), Some(w(100)))).unwrap();
    assert_eq!(trades[0].maker_order_id, "first");
    assert_eq!(trades[0].fill_qty, w(2));
    assert_eq!(trades[1].maker_order_id, "second");
    assert_eq!(trades[1].fill_qty, w(1));
    assert_eq!(book.asks[0].orders.len(), 1);
    assert_eq!(book.asks[0].available_qty, w(1));
}

#[test]
fn limit_order_without_price_is_unprocessable() {
    let mut book = empty_book();
    book.asks.push(level(w(100), vec![resting("a1", "m", Side::SELL, w(2), w(100))]));
    let r = match_order(&mut book, incoming("t", "u", Side::BUY, TypeOfOrder::LIMIT, w(1), None));
    assert_eq!(r.err(), Some(EngineFault::Unprocessable));
}

#[test]
fn a_fill_whose_value_rounds_settles_at_the_rounded_value() {
    let mut book = empty_book();
    book.asks.push(level(d(1, 20), vec![resting("a1", "m", Side::SELL, w(1), d(1, 20))]));
    let (trades, updates) =
        match_order(&mut book, incoming("t", "u", Side::BUY, TypeOfOrder::LIMIT, d(1, 10), Some(w(1)))).unwrap();
    assert_eq!(trades.len(), 1);
    assert_eq!(trades[0].fill_qty, d(1, 10));
    // 1e-10 * 1e-20 has 30 decimals: rust_decimal rounds it to zero at scale 28
    assert_eq!(updates[0].available_balance, Some(BalanceOps::Increase(d(1, 10))));
    assert_eq!(updates[0].reserved_balance, Some(BalanceOps::Decrease(d(0, 28))));
    assert_eq!(updates[2].available_balance, Some(BalanceOps::Increase(d(0, 28))));
    assert_eq!(updates[3].locked_balance, Some(BalanceOps::Decrease(d(1, 10))));
    assert_eq!(updates.len(), 4);
    assert_eq!(book.asks[0].available_qty, d(9999999999, 10));
    assert_eq!(book.asks[0].orders[0].qty, d(9999999999, 10));
}

#[test]
fn a_sell_fill_pays_the_rounded_value() {
    let mut book = empty_book();
    book.bids.push(level(d(15, 28), vec![resting("b1", "m", Side::BUY, w(5), d(15, 28))]));
    let (trades, updates) =
        match_order(&mut book, incoming("t", "u", Side::SELL, TypeOfOrder::MARKET, d(1, 1), None)).unwrap();
    assert_eq!(trades.len(), 1);
    // 0.1 * 1.5e-27 = 1.5e-28: rounded half to even at scale 28
    assert_eq!(updates[1].available_balance, Some(BalanceOps::Increase(d(2, 28))));
    assert_eq!(updates[3].locked_balance, Some(BalanceOps::Decrease(d(2, 28))));
    assert_eq!(book.bids[0].available_qty, d(49, 1));
}

#[test]
fn new_levels_keep_price_order() {
    let mut book = empty_book();
    for (id, p) in [("x", 103), ("y", 101), ("z", 102)] {
        match_order(&mut book, incoming(id, "u", Side::SELL, TypeOfOrder::LIMIT, w(1), Some(w(p)))).unwrap();
    }
    let prices: Vec<Dec> = book.asks.iter().map(|l| l.price).collect();
    assert_eq!(prices, vec![w(101), w(102), w(103)]);
    let depth = get_depth(&book);
    assert_eq!(depth.asks[0], ("101".to_string(), "1".to_string()));
    assert!(depth.bids.is_empty());
}

#[test]
fn cancel_releases_and_reports() {
    let mut book = empty_book();
    book.bids.push(level(w(100), vec![resting("b1", "buyer", Side::BUY, w(4), w(100))]));
    let (update, resp) = delete_order(
        &mut book,
        DeleteOrder { correlation_id: "c1".to_string(), order_id: "b1".to_string(), market: "BTC".to_string() },
    )
    .unwrap();
    let update = update.unwrap();
    assert_eq!(update.asset, "USDT");
    assert_eq!(update.available_balance, Some(BalanceOps::Increase(w(400))));
    assert_eq!(update.locked_balance, Some(BalanceOps::Decrease(w(400))));
    assert!(book.bids.is_empty());
    match resp {
        EngineResponse::CancelOrder { correlation_id, data } => {
            assert_eq!(correlation_id, "c1");
            assert_eq!(data.msg, "order cancelled");
            assert_eq!(data.user_id, "buyer");
            assert_eq!(data.status, OrderStatus::CANCEL);
            assert!(data.depth.is_some());
        }
        _ => panic!("wrong answer"),
    }
}

#[test]
fn cancel_of_unknown_order() {
    let mut book = empty_book();
    let (update, resp) = delete_order(
        &mut book,
        DeleteOrder { correlation_id: "c2".to_string(), order_id: "nope".to_string(), market: "BTC".to_string() },
    )
    .unwrap();
    assert!(update.is_none());
    match resp {
        EngineResponse::CancelOrder { data, .. } => {
            assert_eq!(data.msg, "order not found");
            assert_eq!(data.user_id, "");
            assert_eq!(data.order_id, "nope");
            assert!(data.depth.is_none());
        }
        _ => panic!("wrong answer"),
    }
}

#[test]
fn cancel_releases_the_rounded_value() {
    let mut book = empty_book();
    book.bids.push(level(d(1, 20), vec![resting("b1", "buyer", Side::BUY, d(1, 10), d(1, 20))]));
    let (update, _) = delete_order(
        &mut book,
        DeleteOrder { correlation_id: "c".to_string(), order_id: "b1".to_string(), market: "BTC".to_string() },
    )
    .unwrap();
    let update = update.unwrap();
    assert_eq!(update.available_balance, Some(BalanceOps::Increase(d(0, 28))));
    assert_eq!(update.locked_balance, Some(BalanceOps::Decrease(d(0, 28))));
    assert!(book.bids.is_empty());
}

#[test]
fn cancel_undoes_an_unmatched_rest() {
    let mut book = empty_book();
    book.bids.push(level(w(99), vec![resting("b0", "u0", Side::BUY, w(3), w(99))]));
    book.asks.push(level(w(110), vec![resting("a0", "u1", Side::SELL, w(3), w(110))]));
    let (_, updates) =
        match_order(&mut book, incoming("new", "u2", Side::BUY, TypeOfOrder::LIMIT, w(2), Some(w(99)))).unwrap();
    assert_eq!(book.bids[0].available_qty, w(5));
    let (unlock, _) = delete_order(
        &mut book,
        DeleteOrder { correlation_id: "c".to_string(), order_id: "new".to_string(), market: "BTC".to_string() },
    )
    .unwrap();
    assert_eq!(book.bids.len(), 1);
    assert_eq!(book.bids[0].available_qty, w(3));
    assert_eq!(book.bids[0].orders.len(), 1);
    assert_eq!(book.asks[0].available_qty, w(3));
    assert_eq!(updates[0].locked_balance, Some(BalanceOps::Increase(w(198))));
    assert_eq!(unlock.unwrap().locked_balance, Some(BalanceOps::Decrease(w(198))));
}

#[test]
fn cancel_after_joining_keeps_the_value_at_the_larger_scale() {
    let mut book = empty_book();
    book.asks.push(level(w(50), vec![resting("a0", "u0", Side::SELL, w(1), w(50))]));
    match_order(&mut book, incoming("new", "u1", Side::SELL, TypeOfOrder::LIMIT, d(5, 1), Some(w(50)))).unwrap();
    assert_eq!(book.asks[0].available_qty, d(15, 1));
    delete_order(
        &mut book,
        DeleteOrder { correlation_id: "c".to_string(), order_id: "new".to_string(), market: "BTC".to_string() },
    )
    .unwrap();
    // 1.5 - 0.5 = 1.0: the value of the level's quantity is back, at scale 1
    assert_eq!(book.asks[0].available_qty, d(10, 1));
    assert_eq!(get_depth(&book).asks, vec![("50".to_string(), "1.0".to_string())]);
}

#[test]
fn filled_quantity_and_status() {
    let t = |q: Dec| Trade {
        maker_order_id: String::new(),
        taker_order_id: String::new(),
        maker_user_id: String::new(),
        taker_user_id: String::new(),
        fill_qty: q,
        price: w(1),
    };
    assert_eq!(calculate_filled_qty(&vec![]), Some(w(0)));
    assert_eq!(calculate_filled_qty(&vec![t(w(2)), t(w(3))]), Some(w(5)));
    assert_eq!(calculate_filled_qty(&vec![t(d(5, 1)), t(d(25, 2))]), Some(d(75, 2)));
    assert_eq!(calculate_filled_qty(&vec![t(d(15, 1)), t(d(225, 2))]), Some(d(375, 2)));
    // a zero operand gives the other back, at its own scale
    assert_eq!(calculate_filled_qty(&vec![t(d(0, 3)), t(d(5, 1))]), Some(d(5, 1)));
    // past 96 bits the sum is rounded to a smaller scale
    assert_eq!(
        calculate_filled_qty(&vec![t(d(79228162514264337593543950335, 28)), t(d(1, 28))]),
        Some(d(7922816251426433759354395034, 27))
    );
    // past 96 bits at scale 0 the sum overflows
    assert_eq!(calculate_filled_qty(&vec![t(w(79228162514264337593543950335)), t(w(1))]), None);
    assert_eq!(calculate_status(w(5), w(5)), OrderStatus::FILLED);
    assert_eq!(calculate_status(d(50, 1), w(5)), OrderStatus::FILLED);
    assert_eq!(calculate_status(w(0), w(5)), OrderStatus::OPEN);
    assert_eq!(calculate_status(w(2), w(5)), OrderStatus::PartialyFilled);
}

fn order_request(qty: &str, price: Option<&str>, side: Side) -> Order {
    Order {
        correlation_id: "corr".to_string(),
        data: CreateOrderData {
            market: "BTC".to_string(),
            qty: qty.to_string(),
            price: price.map(|p| p.to_string()),
            order_type: TypeOfOrder::LIMIT,
            user_id: "taker".to_string(),
            side,
        },
    }
}

#[test]
fn processing_an_order_answers_with_fills_and_depth() {
    let mut book = empty_book();
    book.asks.push(level(w(100), vec![resting("a1", "m", Side::SELL, w(3), w(100))]));
    let (updates, resp) =
        process_order(&mut book, order_request("3", Some("100"), Side::BUY), "oid".to_string()).unwrap();
    assert_eq!(updates.len(), 4);
    match resp {
        EngineResponse::CreateOrder { correlation_id, data } => {
            assert_eq!(correlation_id, "corr");
            assert_eq!(data.order_id, Some("oid".to_string()));
            assert_eq!(data.filled, "3");
            assert_eq!(data.status, OrderStatus::FILLED);
            assert_eq!(data.msg, "order Placed successfully");
            assert_eq!(data.trades.len(), 1);
            assert_eq!(data.trades[0].taker_order_id, "oid");
            assert_eq!(data.order.qty, "3");
            let depth = data.depth.unwrap();
            assert!(depth.asks.is_empty());
            assert!(depth.bids.is_empty());
        }
        _ => panic!("wrong answer"),
    }
}

#[test]
fn processing_a_fractional_order() {
    let mut book = empty_book();
    book.asks.push(level(w(100), vec![resting("a1", "m", Side::SELL, w(3), w(100))]));
    let (_, resp) =
        process_order(&mut book, order_request("1.5", Some("100"), Side::BUY), "oid".to_string()).unwrap();
    match resp {
        EngineResponse::CreateOrder { data, .. } => {
            assert_eq!(data.filled, "1.5");
            assert_eq!(data.status, OrderStatus::FILLED);
            assert_eq!(data.depth.unwrap().asks, vec![("100".to_string(), "1.5".to_string())]);
        }
        _ => panic!("wrong answer"),
    }
}

#[test]
fn processing_an_unreadable_amount_fails() {
    let mut book = empty_book();
    let r = process_order(&mut book, order_request("one", Some("100"), Side::BUY), "oid".to_string());
    assert_eq!(r.err(), Some(EngineFault::InvalidAmount));
    assert!(book.bids.is_empty());
}

#[test]
fn market_step_dispatches() {
    let mut book = empty_book();
    let (updates, resp) = market_step(&mut book, Request::OrderData(order_request("2", Some("50"), Side::SELL))).unwrap();
    assert_eq!(updates.len(), 1);
    let id = match resp {
        EngineResponse::CreateOrder { data, .. } => data.order_id.unwrap(),
        _ => panic!("wrong answer"),
    };
    assert_eq!(id.len(), 36);
    let (_, resp) =
        market_step(&mut book, Request::DepthData(DepthRequest { correlation_id: "d".to_string() })).unwrap();
    match resp {
        EngineResponse::GetDepth { data, .. } => assert_eq!(data.depth.asks, vec![("50".to_string(), "2".to_string())]),
        _ => panic!("wrong answer"),
    }
    let (updates, _) = market_step(
        &mut book,
        Request::DeleteOrderData(DeleteOrder { correlation_id: "x".to_string(), order_id: id, market: "BTC".to_string() }),
    )
    .unwrap();
    assert_eq!(updates.len(), 1);
    assert!(book.asks.is_empty());
}

#[test]
fn remove_from_side_finds_or_reports_none() {
    let mut side = vec![
        level(w(10), vec![resting("o1", "u", Side::SELL, w(2), w(10)), resting("o2", "v", Side::SELL, w(3), w(10))]),
        level(w(11), vec![resting("o3", "u", Side::SELL, w(1), w(11))]),
    ];
    assert!(matches!(remove_from_side(&mut side, &"nope".to_string(), &"BTC".to_string()), Ok(None)));
    assert_eq!(side.len(), 2);
    assert!(matches!(remove_from_side(&mut side, &"o1".to_string(), &"ETH".to_string()), Ok(None)));
    let (o, p) = remove_from_side(&mut side, &"o1".to_string(), &"BTC".to_string()).unwrap().unwrap();
    assert_eq!(o.order_id, "o1");
    assert_eq!(p, w(10));
    assert_eq!(side[0].available_qty, w(3));
    assert_eq!(side[0].orders.len(), 1);
    let (o, p) = remove_from_side(&mut side, &"o3".to_string(), &"BTC".to_string()).unwrap().unwrap();
    assert_eq!(o.order_id, "o3");
    assert_eq!(p, w(11));
    assert_eq!(side.len(), 1);
}

#[test]
fn a_second_cancel_finds_nothing() {
    let mut book = empty_book();
    book.bids.push(level(w(99), vec![resting("b1", "u", Side::BUY, w(2), w(99)), resting("b2", "v", Side::BUY, w(1), w(99))]));
    let cancel = || DeleteOrder { correlation_id: "c".to_string(), order_id: "b1".to_string(), market: "BTC".to_string() };
    let (first, _) = delete_order(&mut book, cancel()).unwrap();
    assert!(first.is_some());
    assert_eq!(book.bids[0].available_qty, w(1));
    let (second, resp) = delete_order(&mut book, cancel()).unwrap();
    assert!(second.is_none());
    match resp {
        EngineResponse::CancelOrder { data, .. } => assert_eq!(data.msg, "order not found"),
        _ => panic!("wrong answer"),
    }
    assert_eq!(book.bids.len(), 1);
    assert_eq!(book.bids[0].orders.len(), 1);
    assert_eq!(book.bids[0].available_qty, w(1));
}

/// A level of 10^28 at scale 0 holding 10^28 - 1 and 1.0 (scale 1).
fn wide_level(price: Dec, side: Side, first_small: bool) -> RestingOrder {
    let big = resting("big", "m1", side, w(9999999999999999999999999999), price);
    let small = resting("small", "m2", side, d(10, 1), price);
    let orders = if first_small { vec![small, big] } else { vec![big, small] };
    RestingOrder { price, available_qty: w(10000000000000000000000000000), orders: orders.into() }
}

#[test]
fn removal_rescaled_by_rust_decimal_is_exact() {
    let mut side = vec![wide_level(w(10), Side::SELL, false)];
    let (o, p) = remove_from_side(&mut side, &"small".to_string(), &"BTC".to_string()).unwrap().unwrap();
    assert_eq!(o.qty, d(10, 1));
    assert_eq!(p, w(10));
    // 10^28 - 1.0 needs 29 digits at scale 1; rust_decimal gives it exactly at scale 0
    assert_eq!(side[0].available_qty, w(9999999999999999999999999999));
    assert_eq!(side[0].orders.len(), 1);
}

#[test]
fn a_fill_rescaled_by_rust_decimal_is_made() {
    let mut book = empty_book();
    book.asks.push(wide_level(w(1), Side::SELL, true));
    let (trades, _) =
        match_order(&mut book, incoming("t", "u", Side::BUY, TypeOfOrder::LIMIT, d(10, 1), Some(w(1)))).unwrap();
    assert_eq!(trades.len(), 1);
    assert_eq!(trades[0].maker_order_id, "small");
    assert_eq!(book.asks[0].available_qty, w(9999999999999999999999999999));
    assert_eq!(book.asks[0].orders.len(), 1);
}

#[test]
fn a_rest_rescaled_by_rust_decimal_joins_its_level() {
    let mut book = empty_book();
    book.asks.push(level(w(5), vec![resting("a1", "m", Side::SELL, w(9999999999999999999999999999), w(5))]));
    let (trades, _) =
        match_order(&mut book, incoming("s", "u", Side::SELL, TypeOfOrder::LIMIT, d(10, 1), Some(w(5)))).unwrap();
    assert!(trades.is_empty());
    assert_eq!(book.asks[0].available_qty, w(10000000000000000000000000000));
    assert_eq!(book.asks[0].orders.len(), 2);
}

#[test]
fn a_rest_whose_level_total_is_no_decimal_is_unprocessable() {
    let mut book = empty_book();
    book.asks.push(level(w(5), vec![resting("a1", "m", Side::SELL, w(10000000000000000000000000000), w(5))]));
    // 10^28 + 1e-28 has no 96-bit mantissa at any scale up to 28
    let r = match_order(&mut book, incoming("s", "u", Side::SELL, TypeOfOrder::LIMIT, d(1, 28), Some(w(5))));
    assert_eq!(r.err(), Some(EngineFault::Unprocessable));
}
