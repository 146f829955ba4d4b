//! The balance task's handling of requests from the front end.
use vstd::prelude::*;
use crate::amount::{
    Dec, convert_to_decimal, dadd_ok, dec_add, dec_lt, dec_mul, dec_sub, dsub_ok, lemma_dadd, lemma_dsub,
    lemma_rounded_valid, radd, rmul, rsub, spec_amount, val, valid, whole, zero,
};
use crate::balance::{Balances, balance_ok};
use crate::matching::EngineFault;
use crate::messages::{DeleteOrder, Depth as DepthRequest, Order, Request, market_of, spec_market_of};
use crate::strmap::StrMap;
use crate::text::text;
use crate::types::{
    CreateOrderData, CreateOrderResponseData, DeleteOrderData, EngineRequest, EngineResponse, GetBalanceData,
    GetBalanceResponseData, GetDepthData, Market, OnRampData, OnRampResponseData, OrderStatus, Side, UserBalance,
};

verus! {

/// What the balance task does with a request.
#[derive(Debug)]
pub enum BalanceAction {
    /// Answer the front end.
    Respond(EngineResponse),
    /// Hand the request to a market task.
    Forward(Market, Request),
    /// Nothing more (the request names no market that runs).
    Discard,
}

/// The amount an order must reserve: its quantity times its price in USDT
/// (as `Decimal` multiplies) for a buy, its quantity of the market's asset
/// for a sell. `None` where an amount does not read or a buy has no price.
pub open spec fn required_amount(data: CreateOrderData) -> Option<Dec> {
    match data.side {
        Side::BUY => match (spec_amount(data.qty@), data.price) {
            (Some(q), Some(p)) => match spec_amount(p@) {
                Some(pv) => Some(rmul(q, pv).unwrap()),
                None => None,
            },
            _ => None,
        },
        Side::SELL => spec_amount(data.qty@),
    }
}

/// `Decimal` computes a buy's required amount without overflow.
pub open spec fn required_ok(data: CreateOrderData) -> bool {
    match data.side {
        Side::BUY => match (spec_amount(data.qty@), data.price) {
            (Some(q), Some(p)) => match spec_amount(p@) {
                Some(pv) => rmul(q, pv) is Some,
                None => true,
            },
            _ => true,
        },
        Side::SELL => true,
    }
}

/// The asset an order reserves: USDT for a buy, the market's asset for a sell.
pub open spec fn reserved_asset(data: CreateOrderData) -> Seq<char> {
    match data.side {
        Side::BUY => "USDT"@,
        Side::SELL => data.market@,
    }
}

/// A balance with `amt` moved from available to reserved, as `Decimal`
/// subtracts and adds.
pub open spec fn reserved(b: UserBalance, amt: Dec) -> UserBalance {
    UserBalance {
        available_balance: rsub(b.available_balance, amt).unwrap(),
        locked_balance: b.locked_balance,
        reserve_balance: radd(b.reserve_balance, amt).unwrap(),
    }
}

/// `Decimal` moves `amt` from available to reserved without overflow.
pub open spec fn reserve_ok(b: UserBalance, amt: Dec) -> bool {
    rsub(b.available_balance, amt) is Some && radd(b.reserve_balance, amt) is Some
}

/// The answer that turns an order down.
pub open spec fn is_rejection(
    resp: EngineResponse,
    correlation_id: Seq<char>,
    data: CreateOrderData,
    msg: Seq<char>,
) -> bool {
    &&& resp matches EngineResponse::CreateOrder { correlation_id: c, data: d }
    &&& c@ == correlation_id
    &&& d.user_id@ == data.user_id@
    &&& d.order_id is None
    &&& d.filled@ == "0"@
    &&& d.status == OrderStatus::CANCEL
    &&& d.msg@ == msg
    &&& d.trades@.len() == 0
    &&& d.depth is None
    &&& d.order.market@ == data.market@ && d.order.qty@ == data.qty@ && d.order.price == data.price
        && d.order.order_type == data.order_type && d.order.user_id@ == data.user_id@ && d.order.side == data.side
}

/// An answer that turns an order down.
fn rejection(correlation_id: String, data: CreateOrderData, msg: &str) -> (resp: EngineResponse)
    ensures
        is_rejection(resp, correlation_id@, data, msg@),
{
    EngineResponse::CreateOrder {
        correlation_id,
        data: CreateOrderResponseData {
            user_id: data.user_id.clone(),
            order_id: None,
            filled: text("0"),
            status: OrderStatus::CANCEL,
            msg: text(msg),
            order: data.duplicate(),
            trades: Vec::new(),
            depth: None,
        },
    }
}

/// Where an accepted order goes: to its market's task, or nowhere.
pub open spec fn is_routed(action: BalanceAction, correlation_id: Seq<char>, data: CreateOrderData) -> bool {
    match spec_market_of(data.market@) {
        Some(m) => action matches BalanceAction::Forward(mm, Request::OrderData(o)) && mm == m
            && o.correlation_id@ == correlation_id && o.data == data,
        None => action is Discard,
    }
}

/// Sends an accepted order to its market's task.
pub fn send_to_orderbook(order: Order) -> (action: BalanceAction)
    ensures
        is_routed(action, order.correlation_id@, order.data),
{
    match market_of(&order.data.market) {
        Some(m) => BalanceAction::Forward(m, Request::OrderData(order)),
        None => BalanceAction::Discard,
    }
}

/// What handling an order request does to the balances `bal` (leaving
/// `bal1`) and answers (see `handle_create_order`).
pub open spec fn create_order_done(
    bal: Map<Seq<char>, Map<Seq<char>, UserBalance>>,
    bal1: Map<Seq<char>, Map<Seq<char>, UserBalance>>,
    correlation_id: Seq<char>,
    data: CreateOrderData,
    r: Result<BalanceAction, EngineFault>,
) -> bool {
    let u = data.user_id@;
    if !bal.contains_key(u) {
        r matches Ok(BalanceAction::Respond(resp)) && is_rejection(
            resp,
            correlation_id,
            data,
            "Please Buy Asset First"@,
        ) && bal1 == bal
    } else if !bal[u].contains_key("USDT"@) || !bal[u].contains_key(data.market@) {
        r == Err::<BalanceAction, EngineFault>(EngineFault::UnknownAccount) && bal1 == bal
    } else {
        match required_amount(data) {
            None => r == Err::<BalanceAction, EngineFault>(EngineFault::InvalidAmount) && bal1 == bal,
            Some(amt) => {
                let acct = bal[u][reserved_asset(data)];
                if !required_ok(data) {
                    r == Err::<BalanceAction, EngineFault>(EngineFault::Unprocessable) && bal1 == bal
                } else if val(acct.available_balance) < val(amt) {
                    r matches Ok(BalanceAction::Respond(resp)) && is_rejection(
                        resp,
                        correlation_id,
                        data,
                        match data.side {
                            Side::BUY => "User Does not have enough USDT"@,
                            Side::SELL => "User Does not have enough Asset"@,
                        },
                    ) && bal1 == bal
                } else if !reserve_ok(acct, amt) {
                    r == Err::<BalanceAction, EngineFault>(EngineFault::Unprocessable) && bal1 == bal
                } else {
                    &&& bal1 == bal.insert(u, bal[u].insert(reserved_asset(data), reserved(acct, amt)))
                    &&& r matches Ok(action) && is_routed(action, correlation_id, data)
                }
            },
        }
    }
}

/// Checks and reserves an order's funds. A user without balances is told to
/// buy assets first; a user without a USDT balance or a balance of the
/// market's asset fails with `UnknownAccount`; amounts that do not read (or a
/// buy without a price) fail with `InvalidAmount`. Where the available
/// balance of the reserved asset is below the required amount the order is
/// turned down; otherwise that amount moves from available to reserved and
/// the order goes to its market. Where an amount overflows `Decimal`, it
/// fails with `Unprocessable`.
pub fn handle_create_order(correlation_id: String, data: CreateOrderData, balances: &mut Balances) -> (r: Result<
    BalanceAction,
    EngineFault,
>)
    ensures
        create_order_done(old(balances)@, final(balances)@, correlation_id@, data, r),
{
    let usdt = text("USDT");
    let user_usdt = match balances.user(&data.user_id) {
        None => {
            let resp = rejection(correlation_id, data, "Please Buy Asset First");
            return Ok(BalanceAction::Respond(resp));
        },
        Some(m) => match (m.get(&usdt), m.get(&data.market)) {
            (Some(a), Some(_)) => *a,
            _ => {
                return Err(EngineFault::UnknownAccount);
            },
        },
    };
    let user_asset = balances.account(&data.user_id, &data.market).unwrap();
    let (asset, required, held, short_msg) = match data.side {
        Side::BUY => {
            let q = match convert_to_decimal(data.qty.as_str()) {
                Some(q) => q,
                None => {
                    return Err(EngineFault::InvalidAmount);
                },
            };
            let p = match &data.price {
                Some(p) => match convert_to_decimal(p.as_str()) {
                    Some(p) => p,
                    None => {
                        return Err(EngineFault::InvalidAmount);
                    },
                },
                None => {
                    return Err(EngineFault::InvalidAmount);
                },
            };
            proof {
                lemma_rounded_valid(q, p);
            }
            let amt = match dec_mul(q, p) {
                Some(a) => a,
                None => {
                    return Err(EngineFault::Unprocessable);
                },
            };
            (usdt, amt, user_usdt, "User Does not have enough USDT")
        },
        Side::SELL => {
            let q = match convert_to_decimal(data.qty.as_str()) {
                Some(q) => q,
                None => {
                    return Err(EngineFault::InvalidAmount);
                },
            };
            (data.market.clone(), q, user_asset, "User Does not have enough Asset")
        },
    };
    assert(asset@ == reserved_asset(data));
    assert(balance_ok(held));
    if dec_lt(held.available_balance, required) {
        let resp = rejection(correlation_id, data, short_msg);
        return Ok(BalanceAction::Respond(resp));
    }
    proof {
        lemma_rounded_valid(held.available_balance, required);
        lemma_rounded_valid(held.reserve_balance, required);
    }
    let available_balance = match dec_sub(held.available_balance, required) {
        Some(v) => v,
        None => {
            return Err(EngineFault::Unprocessable);
        },
    };
    let reserve_balance = match dec_add(held.reserve_balance, required) {
        Some(v) => v,
        None => {
            return Err(EngineFault::Unprocessable);
        },
    };
    let nb = UserBalance { available_balance, locked_balance: held.locked_balance, reserve_balance };
    balances.set_account(&data.user_id, &asset, nb);
    Ok(send_to_orderbook(Order { correlation_id, data }))
}

/// A user id whose on-ramp funds every asset.
pub const HARD_CODED_USER_1: &'static str = "7c33c301-ddb1-4239-8ffe-79a707110b77";

/// A second user id whose on-ramp funds every asset.
pub const HARD_CODED_USER_2: &'static str = "df79bdf8-bbec-4800-9e85-c7202c0016f0";

/// A balance with nothing in it.
pub open spec fn zero_balance() -> UserBalance {
    UserBalance { available_balance: zero(), locked_balance: zero(), reserve_balance: zero() }
}

/// The balance an on-ramp funds a favoured user with.
pub open spec fn funded_balance() -> UserBalance {
    UserBalance { available_balance: whole(10000), locked_balance: zero(), reserve_balance: zero() }
}

/// `m` with an empty balance of `a` where it had none.
pub open spec fn or_zero(m: Map<Seq<char>, UserBalance>, a: Seq<char>) -> Map<Seq<char>, UserBalance> {
    if m.contains_key(a) {
        m
    } else {
        m.insert(a, zero_balance())
    }
}

/// The user ids whose on-ramp funds every asset.
pub open spec fn is_favoured(user: Seq<char>) -> bool {
    user == HARD_CODED_USER_1@ || user == HARD_CODED_USER_2@
}

/// A user's balances after an on-ramp: every one of BTC, SOL, ETH and USDT
/// present (empty where it was missing), and, for a favoured user, every one
/// of them set to 10000 available.
pub open spec fn onramped(m: Map<Seq<char>, UserBalance>, user: Seq<char>) -> Map<Seq<char>, UserBalance> {
    let m1 = or_zero(or_zero(or_zero(or_zero(m, "BTC"@), "SOL"@), "ETH"@), "USDT"@);
    if is_favoured(user) {
        m1.insert("BTC"@, funded_balance()).insert("SOL"@, funded_balance()).insert("ETH"@, funded_balance()).insert(
            "USDT"@,
            funded_balance(),
        )
    } else {
        m1
    }
}

/// Adds an empty balance of `asset` where the map has none.
fn insert_if_absent(m: &mut StrMap<UserBalance>, asset: &str)
    requires
        old(m).wf(),
    ensures
        final(m).wf(),
        final(m).map() == or_zero(old(m).map(), asset@),
{
    let a = text(asset);
    if m.get(&a).is_none() {
        m.insert(
            a,
            UserBalance {
                available_balance: Dec { m: 0, s: 0 },
                locked_balance: Dec { m: 0, s: 0 },
                reserve_balance: Dec { m: 0, s: 0 },
            },
        );
    }
}

/// What an on-ramp does to the balances `bal` (leaving `bal1`) and answers:
/// the user's balances become `onramped` of what it had, and the answer
/// carries them.
pub open spec fn onramp_done(
    bal: Map<Seq<char>, Map<Seq<char>, UserBalance>>,
    bal1: Map<Seq<char>, Map<Seq<char>, UserBalance>>,
    correlation_id: Seq<char>,
    data: OnRampData,
    resp: EngineResponse,
) -> bool {
    let had = if bal.contains_key(data.user_id@) {
        bal[data.user_id@]
    } else {
        Map::empty()
    };
    &&& bal1 == bal.insert(data.user_id@, onramped(had, data.user_id@))
    &&& resp matches EngineResponse::OnRamp { correlation_id: c, data: d }
    &&& c@ == correlation_id
    &&& d.user_id@ == data.user_id@
    &&& d.balance.wf()
    &&& d.balance.map() == bal1[data.user_id@]
}

/// Gives a user its starting balances (see `onramped`) and answers with them.
pub fn handle_onramp(correlation_id: String, data: OnRampData, balances: &mut Balances) -> (resp: EngineResponse)
    ensures
        onramp_done(old(balances)@, final(balances)@, correlation_id@, data, resp),
{
    let ghost b0 = balances@;
    let mut assets: StrMap<UserBalance> = match balances.user(&data.user_id) {
        Some(m) => m.duplicate(),
        None => StrMap::new(),
    };
    insert_if_absent(&mut assets, "BTC");
    insert_if_absent(&mut assets, "SOL");
    insert_if_absent(&mut assets, "ETH");
    insert_if_absent(&mut assets, "USDT");
    if data.user_id == text(HARD_CODED_USER_1) || data.user_id == text(HARD_CODED_USER_2) {
        let funded = UserBalance {
            available_balance: Dec { m: 10000, s: 0 },
            locked_balance: Dec { m: 0, s: 0 },
            reserve_balance: Dec { m: 0, s: 0 },
        };
        assets.insert(text("BTC"), funded);
        assets.insert(text("SOL"), funded);
        assets.insert(text("ETH"), funded);
        assets.insert(text("USDT"), funded);
    }
    proof {
        let mm = assets.map();
        assert forall|a: Seq<char>| #[trigger] mm.contains_key(a) implies balance_ok(mm[a]) by {
            if b0.contains_key(data.user_id@) && b0[data.user_id@].contains_key(a) && mm[a] == b0[data.user_id@][a] {
            }
        }
    }
    let reply = assets.duplicate();
    balances.set_user(data.user_id.clone(), assets);
    EngineResponse::OnRamp { correlation_id, data: OnRampResponseData { user_id: data.user_id, balance: reply } }
}

/// Answers a balance request with the user's balances, if it has any.
pub fn handle_get_balance(correlation_id: String, data: GetBalanceData, balances: &Balances) -> (resp: EngineResponse)
    ensures
        resp matches EngineResponse::GetBalance { correlation_id: c, data: d } && c@ == correlation_id@ && match d.balance {
            Some(m) => balances@.contains_key(data.user_id@) && m.wf() && m.map() == balances@[data.user_id@],
            None => !balances@.contains_key(data.user_id@),
        },
{
    let balance = match balances.user(&data.user_id) {
        Some(m) => Some(m.duplicate()),
        None => None,
    };
    EngineResponse::GetBalance { correlation_id, data: GetBalanceResponseData { balance } }
}

/// Sends a depth request to its market's task (or nowhere).
pub fn handle_get_depth(correlation_id: String, data: GetDepthData) -> (action: BalanceAction)
    ensures
        match spec_market_of(data.market@) {
            Some(m) => action matches BalanceAction::Forward(mm, Request::DepthData(d)) && mm == m && d.correlation_id@
                == correlation_id@,
            None => action is Discard,
        },
{
    match market_of(&data.market) {
        Some(m) => BalanceAction::Forward(m, Request::DepthData(DepthRequest { correlation_id })),
        None => BalanceAction::Discard,
    }
}

/// Sends a cancellation to its market's task (or nowhere).
pub fn handle_delete_order(correlation_id: String, data: DeleteOrderData) -> (action: BalanceAction)
    ensures
        match spec_market_of(data.market@) {
            Some(m) => action matches BalanceAction::Forward(mm, Request::DeleteOrderData(d)) && mm == m
                && d.correlation_id@ == correlation_id@ && d.order_id@ == data.order_id@ && d.market@ == data.market@,
            None => action is Discard,
        },
{
    match market_of(&data.market) {
        Some(m) => BalanceAction::Forward(
            m,
            Request::DeleteOrderData(DeleteOrder { correlation_id, market: data.market, order_id: data.order_id }),
        ),
        None => BalanceAction::Discard,
    }
}

/// One request to the balance task, handled by its kind.
pub fn balance_step(balances: &mut Balances, req: EngineRequest) -> (r: Result<BalanceAction, EngineFault>)
    ensures
        match req {
            EngineRequest::CreateOrder { correlation_id, data } => create_order_done(
                old(balances)@,
                final(balances)@,
                correlation_id@,
                data,
                r,
            ),
            EngineRequest::OnRamp { correlation_id, data } => r matches Ok(BalanceAction::Respond(resp))
                && onramp_done(old(balances)@, final(balances)@, correlation_id@, data, resp),
            _ => final(balances)@ == old(balances)@ && r is Ok,
        },
        req is GetBalance ==> r matches Ok(BalanceAction::Respond(EngineResponse::GetBalance { .. })),
{
    match req {
        EngineRequest::CreateOrder { correlation_id, data } => handle_create_order(correlation_id, data, balances),
        EngineRequest::OnRamp { correlation_id, data } => Ok(
            BalanceAction::Respond(handle_onramp(correlation_id, data, balances)),
        ),
        EngineRequest::GetDepth { correlation_id, data } => Ok(handle_get_depth(correlation_id, data)),
        EngineRequest::GetBalance { correlation_id, data } => Ok(
            BalanceAction::Respond(handle_get_balance(correlation_id, data, balances)),
        ),
        EngineRequest::DeleteOrder { correlation_id, data } => Ok(handle_delete_order(correlation_id, data)),
    }
}

} // verus!

verus! {

/// A reservation that `Decimal` does not round moves funds from available to
/// reserved: the holding and the locked part stay as they were, the
/// available part loses the amount.
pub proof fn law_reservation_keeps_holding(b: UserBalance, amt: Dec)
    requires
        balance_ok(b),
        valid(amt),
        reserve_ok(b, amt),
        dsub_ok(b.available_balance, amt),
        dadd_ok(b.reserve_balance, amt),
    ensures
        crate::balance::holding(reserved(b, amt)) == crate::balance::holding(b),
        reserved(b, amt).locked_balance == b.locked_balance,
        val(reserved(b, amt).available_balance) == val(b.available_balance) - val(amt),
        balance_ok(reserved(b, amt)),
{
    lemma_dsub(b.available_balance, amt);
    lemma_dadd(b.reserve_balance, amt);
}

/// The four asset names differ.
pub proof fn lemma_asset_names_distinct()
    ensures
        "BTC"@ != "SOL"@,
        "BTC"@ != "ETH"@,
        "BTC"@ != "USDT"@,
        "SOL"@ != "ETH"@,
        "SOL"@ != "USDT"@,
        "ETH"@ != "USDT"@,
{
    reveal_strlit("BTC");
    reveal_strlit("SOL");
    reveal_strlit("ETH");
    reveal_strlit("USDT");
    assert("BTC"@[0] != "SOL"@[0]);
    assert("BTC"@[0] != "ETH"@[0]);
    assert("BTC"@.len() != "USDT"@.len());
    assert("SOL"@[0] != "ETH"@[0]);
    assert("SOL"@.len() != "USDT"@.len());
    assert("ETH"@.len() != "USDT"@.len());
}

/// An on-ramp gives every user all four assets; a favoured user gets 10000
/// of each available; any other user keeps every balance it had.
pub proof fn law_onramp_balances(m: Map<Seq<char>, UserBalance>, user: Seq<char>)
    ensures
        onramped(m, user).contains_key("BTC"@),
        onramped(m, user).contains_key("SOL"@),
        onramped(m, user).contains_key("ETH"@),
        onramped(m, user).contains_key("USDT"@),
        is_favoured(user) ==> onramped(m, user)["BTC"@] == funded_balance() && onramped(m, user)["SOL"@]
            == funded_balance() && onramped(m, user)["ETH"@] == funded_balance() && onramped(m, user)["USDT"@]
            == funded_balance(),
        !is_favoured(user) ==> forall|a: Seq<char>| #[trigger] m.contains_key(a) ==> onramped(m, user)[a] == m[a],
{
    lemma_asset_names_distinct();
}

/// An on-ramp is idempotent: a second one for the same user changes nothing.
pub proof fn law_onramp_idempotent(m: Map<Seq<char>, UserBalance>, user: Seq<char>)
    ensures
        onramped(onramped(m, user), user) == onramped(m, user),
{
    law_onramp_balances(m, user);
    let once = onramped(m, user);
    assert(onramped(once, user) =~= once);
}

} // verus!

verus! {

/// A sell reserves its quantity of the market's asset, whatever its price:
/// where the user holds that asset and USDT, the order is turned down
/// exactly where the asset's available balance is worth less than the
/// quantity; otherwise the quantity moves from available to reserved (as
/// `Decimal` subtracts and adds), nothing else changes, and the order goes
/// to its market.
pub proof fn law_sell_reserves_its_quantity(
    bal: Map<Seq<char>, Map<Seq<char>, UserBalance>>,
    bal1: Map<Seq<char>, Map<Seq<char>, UserBalance>>,
    correlation_id: Seq<char>,
    data: CreateOrderData,
    r: Result<BalanceAction, EngineFault>,
    q: Dec,
)
    requires
        data.side == Side::SELL,
        create_order_done(bal, bal1, correlation_id, data, r),
        bal.contains_key(data.user_id@),
        bal[data.user_id@].contains_key("USDT"@),
        bal[data.user_id@].contains_key(data.market@),
        spec_amount(data.qty@) == Some(q),
    ensures
        ({
            let u = data.user_id@;
            let acct = bal[u][data.market@];
            &&& val(acct.available_balance) < val(q) ==> bal1 == bal && (r matches Ok(BalanceAction::Respond(_)))
            &&& val(acct.available_balance) >= val(q) && rsub(acct.available_balance, q) is Some && radd(
                acct.reserve_balance,
                q,
            ) is Some ==> r is Ok && bal1 == bal.insert(
                u,
                bal[u].insert(
                    data.market@,
                    UserBalance {
                        available_balance: rsub(acct.available_balance, q).unwrap(),
                        locked_balance: acct.locked_balance,
                        reserve_balance: radd(acct.reserve_balance, q).unwrap(),
                    },
                ),
            )
            &&& val(acct.available_balance) >= val(q) && dsub_ok(acct.available_balance, q) && dadd_ok(
                acct.reserve_balance,
                q,
            ) && valid(q) && balance_ok(acct) ==> val(bal1[u][data.market@].available_balance) == val(
                acct.available_balance,
            ) - val(q) && val(bal1[u][data.market@].reserve_balance) == val(acct.reserve_balance) + val(q)
        }),
{
    let acct = bal[data.user_id@][data.market@];
    if val(acct.available_balance) >= val(q) && dsub_ok(acct.available_balance, q) && dadd_ok(
        acct.reserve_balance,
        q,
    ) && valid(q) && balance_ok(acct) {
        lemma_dsub(acct.available_balance, q);
        lemma_dadd(acct.reserve_balance, q);
    }
}

/// The price of a sell does not matter to the balance task: two sell
/// requests that differ only in their price leave the balances alike.
pub proof fn law_sell_price_irrelevant(
    bal: Map<Seq<char>, Map<Seq<char>, UserBalance>>,
    bal1: Map<Seq<char>, Map<Seq<char>, UserBalance>>,
    bal2: Map<Seq<char>, Map<Seq<char>, UserBalance>>,
    correlation_id: Seq<char>,
    d1: CreateOrderData,
    d2: CreateOrderData,
    r1: Result<BalanceAction, EngineFault>,
    r2: Result<BalanceAction, EngineFault>,
)
    requires
        d1.side == Side::SELL,
        d2.side == Side::SELL,
        d1.qty@ == d2.qty@,
        d1.market@ == d2.market@,
        d1.user_id@ == d2.user_id@,
        create_order_done(bal, bal1, correlation_id, d1, r1),
        create_order_done(bal, bal2, correlation_id, d2, r2),
    ensures
        bal1 == bal2,
        r1 is Ok <==> r2 is Ok,
{
}

} // verus!
