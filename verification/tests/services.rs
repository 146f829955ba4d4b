use exchange::amount::Dec;
use exchange::balance::{update_user_balance, Balances};
use exchange::matching::{BalanceOps, EngineFault, UpdateBalance};
use exchange::messages::{market_of, Request};
use exchange::services::{
    balance_step, handle_create_order, handle_get_balance, handle_onramp, BalanceAction, HARD_CODED_USER_1,
};
use exchange::types::{
    CreateOrderData, EngineRequest, EngineResponse, GetBalanceData, GetDepthData, Market, OnRampData, OrderStatus,
    Side, TypeOfOrder, UserBalance,
};

/// The decimal with mantissa `m` and scale `s`.
fn d(m: i128, s: u32) -> Dec {
    Dec { m, s }
}

/// The whole number `v`.
fn w(v: i128) -> Dec {
    Dec { m: v, s: 0 }
}

fn bal(available: Dec, locked: Dec, reserve: Dec) -> UserBalance {
    UserBalance { available_balance: available, locked_balance: locked, reserve_balance: reserve }
}

fn onramp(b: &mut Balances, user: &str) -> EngineResponse {
    handle_onramp("c".to_string(), OnRampData { user_id: user.to_string() }, b)
}

fn order(user: &str, side: Side, qty: &str, price: Option<&str>, market: &str) -> CreateOrderData {
    CreateOrderData {
        market: market.to_string(),
        qty: qty.to_string(),
        price: price.map(|p| p.to_string()),
        order_type: TypeOfOrder::LIMIT,
        user_id: user.to_string(),
        side,
    }
}

fn balance_of(b: &Balances, user: &str, asset: &str) -> UserBalance {
    b.account(&user.to_string(), &asset.to_string()).unwrap()
}

#[test]
fn onramp_gives_every_asset() {
    let mut b = Balances::new();
    let resp = onramp(&mut b, "plain-user");
    for a in ["BTC", "SOL", "ETH", "USDT"] {
        assert_eq!(balance_of(&b, "plain-user", a), bal(w(0), w(0), w(0)));
    }
    match resp {
        EngineResponse::OnRamp { data, .. } => {
            assert_eq!(data.user_id, "plain-user");
            assert_eq!(data.balance.keys.len(), 4);
        }
        _ => panic!("wrong answer"),
    }
}

#[test]
fn onramp_funds_a_favoured_user() {
    let mut b = Balances::new();
    onramp(&mut b, HARD_CODED_USER_1);
    for a in ["BTC", "SOL", "ETH", "USDT"] {
        assert_eq!(balance_of(&b, HARD_CODED_USER_1, a).available_balance, w(10000));
    }
}

#[test]
fn onramp_twice_changes_nothing() {
    let mut b = Balances::new();
    onramp(&mut b, "u");
    update_user_balance(
        &mut b,
        &UpdateBalance {
            user_id: "u".to_string(),
            asset: "SOL".to_string(),
            available_balance: Some(BalanceOps::Increase(w(7))),
            locked_balance: None,
            reserved_balance: None,
        },
    )
    .unwrap();
    onramp(&mut b, "u");
    assert_eq!(balance_of(&b, "u", "SOL").available_balance, w(7));
}

#[test]
fn buy_reserves_usdt_and_goes_to_its_market() {
    let mut b = Balances::new();
    onramp(&mut b, HARD_CODED_USER_1);
    let action = handle_create_order("c1".to_string(), order(HARD_CODED_USER_1, Side::BUY, "2", Some("300"), "BTC"), &mut b).unwrap();
    let usdt = balance_of(&b, HARD_CODED_USER_1, "USDT");
    assert_eq!(usdt.available_balance, w(9400));
    assert_eq!(usdt.reserve_balance, w(600));
    match action {
        BalanceAction::Forward(Market::BTC, Request::OrderData(o)) => {
            assert_eq!(o.correlation_id, "c1");
            assert_eq!(o.data.qty, "2");
        }
        _ => panic!("wrong action"),
    }
}

#[test]
fn sell_without_enough_asset_is_turned_down() {
    let mut b = Balances::new();
    onramp(&mut b, "poor");
    let action = handle_create_order("c2".to_string(), order("poor", Side::SELL, "1", Some("10"), "ETH"), &mut b).unwrap();
    match action {
        BalanceAction::Respond(EngineResponse::CreateOrder { correlation_id, data }) => {
            assert_eq!(correlation_id, "c2");
            assert_eq!(data.msg, "User Does not have enough Asset");
            assert_eq!(data.status, OrderStatus::CANCEL);
            assert_eq!(data.filled, "0");
            assert!(data.order_id.is_none());
        }
        _ => panic!("wrong action"),
    }
    assert_eq!(balance_of(&b, "poor", "ETH").reserve_balance, w(0));
}

#[test]
fn unknown_user_is_told_to_buy_first() {
    let mut b = Balances::new();
    let action = handle_create_order("c3".to_string(), order("nobody", Side::BUY, "1", Some("1"), "BTC"), &mut b).unwrap();
    match action {
        BalanceAction::Respond(EngineResponse::CreateOrder { data, .. }) => {
            assert_eq!(data.msg, "Please Buy Asset First")
        }
        _ => panic!("wrong action"),
    }
}

#[test]
fn buy_without_price_or_with_bad_amount_fails() {
    let mut b = Balances::new();
    onramp(&mut b, "u");
    let r = handle_create_order("c".to_string(), order("u", Side::BUY, "1", None, "BTC"), &mut b);
    assert_eq!(r.err(), Some(EngineFault::InvalidAmount));
    let r = handle_create_order("c".to_string(), order("u", Side::SELL, "x", None, "BTC"), &mut b);
    assert_eq!(r.err(), Some(EngineFault::InvalidAmount));
    let r = handle_create_order("c".to_string(), order("u", Side::SELL, "1", None, "DOGE"), &mut b);
    assert_eq!(r.err(), Some(EngineFault::UnknownAccount));
}

#[test]
fn accepted_order_for_a_market_that_does_not_run_is_dropped() {
    let mut b = Balances::new();
    onramp(&mut b, HARD_CODED_USER_1);
    let action = handle_create_order("c".to_string(), order(HARD_CODED_USER_1, Side::SELL, "1", None, "USDT"), &mut b).unwrap();
    assert!(matches!(action, BalanceAction::Discard));
    assert_eq!(balance_of(&b, HARD_CODED_USER_1, "USDT").reserve_balance, w(1));
}

#[test]
fn updates_apply_and_undo() {
    let mut b = Balances::new();
    onramp(&mut b, "u");
    let inc = UpdateBalance {
        user_id: "u".to_string(),
        asset: "BTC".to_string(),
        available_balance: Some(BalanceOps::Increase(w(5))),
        locked_balance: Some(BalanceOps::Decrease(w(2))),
        reserved_balance: None,
    };
    update_user_balance(&mut b, &inc).unwrap();
    assert_eq!(
        balance_of(&b, "u", "BTC"),
        bal(w(5), w(-2), w(0))
    );
    let dec = UpdateBalance {
        user_id: "u".to_string(),
        asset: "BTC".to_string(),
        available_balance: Some(BalanceOps::Decrease(w(5))),
        locked_balance: Some(BalanceOps::Increase(w(2))),
        reserved_balance: None,
    };
    update_user_balance(&mut b, &dec).unwrap();
    assert_eq!(balance_of(&b, "u", "BTC"), bal(w(0), w(0), w(0)));
    let missing = UpdateBalance {
        user_id: "ghost".to_string(),
        asset: "BTC".to_string(),
        available_balance: None,
        locked_balance: None,
        reserved_balance: None,
    };
    assert_eq!(update_user_balance(&mut b, &missing), Err(EngineFault::UnknownAccount));
}

#[test]
fn balance_requests() {
    let mut b = Balances::new();
    match handle_get_balance("g".to_string(), GetBalanceData { user_id: "u".to_string() }, &b) {
        EngineResponse::GetBalance { data, .. } => assert!(data.balance.is_none()),
        _ => panic!("wrong answer"),
    }
    onramp(&mut b, "u");
    match balance_step(&mut b, EngineRequest::GetBalance { correlation_id: "g".to_string(), data: GetBalanceData { user_id: "u".to_string() } }).unwrap() {
        BalanceAction::Respond(EngineResponse::GetBalance { correlation_id, data }) => {
            assert_eq!(correlation_id, "g");
            assert_eq!(data.balance.unwrap().keys.len(), 4);
        }
        _ => panic!("wrong action"),
    }
    match balance_step(&mut b, EngineRequest::GetDepth { correlation_id: "d".to_string(), data: GetDepthData { market: "SOL".to_string() } }).unwrap() {
        BalanceAction::Forward(Market::SOL, Request::DepthData(d)) => assert_eq!(d.correlation_id, "d"),
        _ => panic!("wrong action"),
    }
}

#[test]
fn fractional_buy_reserves_the_exact_product() {
    let mut b = Balances::new();
    onramp(&mut b, HARD_CODED_USER_1);
    handle_create_order("c".to_string(), order(HARD_CODED_USER_1, Side::BUY, "0.5", Some("100.25"), "BTC"), &mut b).unwrap();
    let usdt = balance_of(&b, HARD_CODED_USER_1, "USDT");
    // 0.5 * 100.25 = 50.125; 10000 - 50.125 = 9949.875
    assert_eq!(usdt.available_balance, d(9949875, 3));
    assert_eq!(usdt.reserve_balance, d(50125, 3));
}

#[test]
fn a_reservation_is_the_rounded_product() {
    let mut b = Balances::new();
    onramp(&mut b, "u");
    let fund = UpdateBalance {
        user_id: "u".to_string(),
        asset: "USDT".to_string(),
        available_balance: Some(BalanceOps::Increase(d(5, 28))),
        locked_balance: None,
        reserved_balance: None,
    };
    update_user_balance(&mut b, &fund).unwrap();
    assert_eq!(balance_of(&b, "u", "USDT").available_balance, d(5, 28));
    // 1.5 * 1e-28 has 29 decimals: rust_decimal rounds it half to even, to 2e-28
    let r = handle_create_order(
        "c".to_string(),
        order("u", Side::BUY, "1.5", Some("0.0000000000000000000000000001"), "BTC"),
        &mut b,
    );
    assert!(matches!(r, Ok(BalanceAction::Forward(Market::BTC, _))));
    assert_eq!(balance_of(&b, "u", "USDT"), bal(d(3, 28), w(0), d(2, 28)));
}

#[test]
fn a_reservation_short_by_the_rounded_product_is_turned_down() {
    let mut b = Balances::new();
    onramp(&mut b, "u");
    let fund = UpdateBalance {
        user_id: "u".to_string(),
        asset: "USDT".to_string(),
        available_balance: Some(BalanceOps::Increase(d(1, 28))),
        locked_balance: None,
        reserved_balance: None,
    };
    update_user_balance(&mut b, &fund).unwrap();
    let r = handle_create_order(
        "c".to_string(),
        order("u", Side::BUY, "1.5", Some("0.0000000000000000000000000001"), "BTC"),
        &mut b,
    );
    match r {
        Ok(BalanceAction::Respond(EngineResponse::CreateOrder { data, .. })) => {
            assert_eq!(data.msg, "User Does not have enough USDT");
            assert_eq!(data.status, OrderStatus::CANCEL);
        }
        _ => panic!("wrong answer"),
    }
    assert_eq!(balance_of(&b, "u", "USDT"), bal(d(1, 28), w(0), w(0)));
}

#[test]
fn an_update_is_applied_rounded() {
    let mut b = Balances::new();
    onramp(&mut b, "u");
    let up = UpdateBalance {
        user_id: "u".to_string(),
        asset: "BTC".to_string(),
        available_balance: Some(BalanceOps::Increase(w(79228162514264337593543950335))),
        locked_balance: Some(BalanceOps::Increase(d(1, 1))),
        reserved_balance: None,
    };
    update_user_balance(&mut b, &up).unwrap();
    // the exact sum needs 97 bits at scale 1: rust_decimal rounds it back to scale 0
    let again = UpdateBalance {
        user_id: "u".to_string(),
        asset: "BTC".to_string(),
        available_balance: Some(BalanceOps::Increase(d(1, 1))),
        locked_balance: None,
        reserved_balance: None,
    };
    assert_eq!(update_user_balance(&mut b, &again), Ok(()));
    assert_eq!(balance_of(&b, "u", "BTC").available_balance, w(79228162514264337593543950335));
    assert_eq!(balance_of(&b, "u", "BTC").locked_balance, d(1, 1));
}

#[test]
fn an_update_that_overflows_is_unprocessable() {
    let mut b = Balances::new();
    onramp(&mut b, "u");
    let up = UpdateBalance {
        user_id: "u".to_string(),
        asset: "BTC".to_string(),
        available_balance: Some(BalanceOps::Increase(w(79228162514264337593543950335))),
        locked_balance: None,
        reserved_balance: None,
    };
    update_user_balance(&mut b, &up).unwrap();
    let again = UpdateBalance {
        user_id: "u".to_string(),
        asset: "BTC".to_string(),
        available_balance: Some(BalanceOps::Increase(w(1))),
        locked_balance: None,
        reserved_balance: None,
    };
    assert_eq!(update_user_balance(&mut b, &again), Err(EngineFault::Unprocessable));
    assert_eq!(balance_of(&b, "u", "BTC").available_balance, w(79228162514264337593543950335));
}

#[test]
fn markets_by_name() {
    assert_eq!(market_of(&"BTC".to_string()), Some(Market::BTC));
    assert_eq!(market_of(&"ETH".to_string()), Some(Market::ETH));
    assert_eq!(market_of(&"SOL".to_string()), Some(Market::SOL));
    assert_eq!(market_of(&"USDT".to_string()), None);
}

#[test]
fn updates_to_different_accounts_commute() {
    let up = |user: &str, asset: &str, x: Dec| UpdateBalance {
        user_id: user.to_string(),
        asset: asset.to_string(),
        available_balance: Some(BalanceOps::Increase(x)),
        locked_balance: Some(BalanceOps::Decrease(d(5, 1))),
        reserved_balance: None,
    };
    let mut one = Balances::new();
    onramp(&mut one, HARD_CODED_USER_1);
    let mut two = Balances::new();
    onramp(&mut two, HARD_CODED_USER_1);
    let a = up(HARD_CODED_USER_1, "BTC", d(125, 2));
    let b = up(HARD_CODED_USER_1, "USDT", w(7));
    update_user_balance(&mut one, &a).unwrap();
    update_user_balance(&mut one, &b).unwrap();
    update_user_balance(&mut two, &b).unwrap();
    update_user_balance(&mut two, &a).unwrap();
    for asset in ["BTC", "SOL", "ETH", "USDT"] {
        assert_eq!(balance_of(&one, HARD_CODED_USER_1, asset), balance_of(&two, HARD_CODED_USER_1, asset));
    }
    assert_eq!(balance_of(&one, HARD_CODED_USER_1, "BTC"), bal(d(1000125, 2), d(-5, 1), w(0)));
}

#[test]
fn updates_to_the_same_account_commute_in_value() {
    let up = |x: Dec, y: Dec| UpdateBalance {
        user_id: HARD_CODED_USER_1.to_string(),
        asset: "ETH".to_string(),
        available_balance: Some(BalanceOps::Increase(x)),
        locked_balance: Some(BalanceOps::Decrease(y)),
        reserved_balance: None,
    };
    let mut one = Balances::new();
    onramp(&mut one, HARD_CODED_USER_1);
    let mut two = Balances::new();
    onramp(&mut two, HARD_CODED_USER_1);
    let a = up(d(125, 2), d(5, 1));
    let b = up(d(3, 3), w(2));
    update_user_balance(&mut one, &a).unwrap();
    update_user_balance(&mut one, &b).unwrap();
    update_user_balance(&mut two, &b).unwrap();
    update_user_balance(&mut two, &a).unwrap();
    let x = balance_of(&one, HARD_CODED_USER_1, "ETH");
    let y = balance_of(&two, HARD_CODED_USER_1, "ETH");
    // 10000 + 1.25 + 0.003 = 10001.253 either way; -0.5 - 2 = -2.5 either way
    assert_eq!(x.available_balance, d(10001253, 3));
    assert_eq!(y.available_balance, d(10001253, 3));
    assert_eq!(x.locked_balance, d(-25, 1));
    assert_eq!(y.locked_balance, d(-25, 1));
}
