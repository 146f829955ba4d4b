use exchange::api::{
    delete_order, get_order, get_order_response, my_custom_middleware, sign_in, sign_up, verify_jwt, AuthHeader,
    CustomError, OrderRecord, Payload, SignUpRequest, StoredUser,
};
use exchange::amount::Dec;
use exchange::poller::{handle_create_order, handle_delete_order, side_to_str, status_to_str, type_to_str, PollerError};
use exchange::types::{
    CancelOrderResponseData, CreateOrderData, CreateOrderResponseData, EngineRequest, OrderStatus, Side, Trade,
    TypeOfOrder,
};
use exchange::ws::{
    depth_push, market_of_topic, on_client_event, process_engine_response, remove_client, ClientEvent, ClientMessage,
    ClientSub, WsAction,
};
use exchange::strmap::StrMap;
use exchange::types::{Depth, EngineResponse};

const ID1: &str = "7c33c301-ddb1-4239-8ffe-79a707110b77";
const ID2: &str = "df79bdf8-bbec-4800-9e85-c7202c0016f0";

/// The 128-bit value of a UUID, as the `uuid` crate reads it.
fn uuid_value(s: &str) -> u128 {
    uuid::Uuid::parse_str(s).unwrap().as_u128()
}

#[test]
fn database_spellings() {
    assert_eq!(side_to_str(&Side::BUY), "buy");
    assert_eq!(side_to_str(&Side::SELL), "sell");
    assert_eq!(type_to_str(&TypeOfOrder::LIMIT), "limit");
    assert_eq!(type_to_str(&TypeOfOrder::MARKET), "market");
    assert_eq!(status_to_str(&OrderStatus::OPEN), "open");
    assert_eq!(status_to_str(&OrderStatus::PartialyFilled), "partially_filled");
    assert_eq!(status_to_str(&OrderStatus::FILLED), "filled");
    assert_eq!(status_to_str(&OrderStatus::CANCEL), "cancelled");
}

#[test]
fn uuids_read() {
    assert_eq!(get_order("00000000-0000-0000-0000-000000000001"), Ok(1));
    assert_eq!(get_order("not-a-uuid"), Err(CustomError::TypeConversionError));
}

fn response(order_id: Option<&str>, trades: Vec<Trade>) -> CreateOrderResponseData {
    CreateOrderResponseData {
        user_id: ID1.to_string(),
        order_id: order_id.map(|s| s.to_string()),
        filled: "1".to_string(),
        status: OrderStatus::FILLED,
        msg: "order Placed successfully".to_string(),
        order: CreateOrderData {
            market: "BTC".to_string(),
            qty: "1".to_string(),
            price: None,
            order_type: TypeOfOrder::MARKET,
            user_id: ID1.to_string(),
            side: Side::BUY,
        },
        trades,
        depth: None,
    }
}

#[test]
fn order_answer_writes_rows() {
    let trade = Trade {
        maker_order_id: ID2.to_string(),
        taker_order_id: ID1.to_string(),
        maker_user_id: ID2.to_string(),
        taker_user_id: ID1.to_string(),
        fill_qty: Dec { m: 15, s: 1 },
        price: Dec { m: 25050, s: 2 },
    };
    let w = handle_create_order(&response(Some(ID2), vec![trade])).unwrap().unwrap();
    assert_eq!(w.order.price, "0");
    assert_eq!(w.order.side, "buy");
    assert_eq!(w.order.order_type, "market");
    assert_eq!(w.order.status, "filled");
    assert_eq!(w.order.id, uuid_value(ID2));
    assert_eq!(w.fills.len(), 1);
    assert_eq!(w.fills[0].price, "250.50");
    assert_eq!(w.fills[0].quantity, "1.5");
    assert!(handle_create_order(&response(None, vec![])).unwrap().is_none());
    assert_eq!(handle_create_order(&response(Some("bad"), vec![])).err(), Some(PollerError::BadUuid));
}

#[test]
fn order_answer_errors_name_the_first_bad_trade() {
    let good = Trade {
        maker_order_id: ID2.to_string(),
        taker_order_id: ID1.to_string(),
        maker_user_id: ID2.to_string(),
        taker_user_id: ID1.to_string(),
        fill_qty: Dec { m: 1, s: 0 },
        price: Dec { m: 1, s: 0 },
    };
    let bad_amount = Trade { fill_qty: Dec { m: 79228162514264337593543950336, s: 0 }, ..good.clone() };
    let bad_id = Trade { maker_user_id: "nope".to_string(), ..good.clone() };
    assert_eq!(
        handle_create_order(&response(Some(ID2), vec![good.clone(), bad_amount.clone(), bad_id.clone()])).err(),
        Some(PollerError::BadAmount)
    );
    assert_eq!(
        handle_create_order(&response(Some(ID2), vec![good.clone(), bad_id, bad_amount])).err(),
        Some(PollerError::BadUuid)
    );
    assert_eq!(handle_create_order(&response(Some(ID2), vec![good])).map(|w| w.is_some()), Ok(true));
}

#[test]
fn cancel_answer_writes_status() {
    let d = CancelOrderResponseData {
        user_id: String::new(),
        order_id: ID1.to_string(),
        msg: "order cancelled".to_string(),
        status: OrderStatus::CANCEL,
        depth: None,
        market: "BTC".to_string(),
    };
    let (id, s) = handle_delete_order(&d).unwrap().unwrap();
    assert_eq!(id, uuid_value(ID1));
    assert_eq!(s, "cancelled");
    let empty = CancelOrderResponseData { order_id: String::new(), ..d };
    assert!(handle_delete_order(&empty).unwrap().is_none());
}

#[test]
fn errors_answer_with_status_and_message() {
    assert_eq!(CustomError::InternalError.status_code(), 500);
    assert_eq!(CustomError::WrongPassword.status_code(), 400);
    assert_eq!(CustomError::JwtMissing.status_code(), 401);
    let r = CustomError::UserNotFound.error_response();
    assert_eq!(r.status_code, 401);
    assert_eq!(r.error, "Unauthorized");
    assert_eq!(r.message, "User not found");
    assert_eq!(CustomError::InternalError.error_response().error, "Internal Server Error");
}

#[test]
fn sign_up_then_sign_in_then_authenticate() {
    assert_eq!(
        sign_up(true, SignUpRequest { username: "a".to_string(), password: "pw".to_string() }).err(),
        Some(CustomError::UserExists)
    );
    let plan = sign_up(false, SignUpRequest { username: "a".to_string(), password: "pw".to_string() }).unwrap();
    assert_eq!(plan.response.msg, "user created succefully");
    assert_ne!(plan.hashed_password, "pw");
    assert_eq!(plan.hashed_password.len(), 60);
    assert!(plan.hashed_password.starts_with("$2b$12$"));
    let stored = || StoredUser { id: ID1.to_string(), password: plan.hashed_password.clone() };
    assert_eq!(sign_in(None, "pw", "secret").err(), Some(CustomError::UserNotFound));
    assert_eq!(sign_in(Some(stored()), "wrong", "secret").err(), Some(CustomError::WrongPassword));
    let resp = sign_in(Some(stored()), "pw", "secret").unwrap();
    assert_eq!(resp.user_id, ID1);
    assert_eq!(verify_jwt(&resp.jwt_token, "secret").unwrap().user_id, ID1);
    assert!(verify_jwt(&resp.jwt_token, "other").is_none());
    let header = AuthHeader::Text(format!("Bearer {}", resp.jwt_token));
    assert_eq!(my_custom_middleware(&header, "secret").unwrap().user_id, ID1);
    assert_eq!(my_custom_middleware(&header, "other").err(), Some(CustomError::WrongJwtToken));
    assert_eq!(my_custom_middleware(&AuthHeader::Missing, "secret").err(), Some(CustomError::JwtMissing));
    assert_eq!(my_custom_middleware(&AuthHeader::Unreadable, "secret").err(), Some(CustomError::InternalError));
    assert_eq!(my_custom_middleware(&AuthHeader::Text("Bearer".to_string()), "secret").err(), Some(CustomError::JwtMissing));
}

#[test]
fn order_lookups() {
    assert_eq!(get_order("bad").err(), Some(CustomError::TypeConversionError));
    assert_eq!(get_order(ID1), Ok(uuid_value(ID1)));
    assert_eq!(get_order_response(None).err(), Some(CustomError::OrderNotFound));
    let rec = |status: &str| OrderRecord {
        id: ID2.to_string(),
        price: "10".to_string(),
        quantity: "2".to_string(),
        side: Some("buy".to_string()),
        order_type: Some("limit".to_string()),
        user_id: ID1.to_string(),
        market: "SOL".to_string(),
        status: Some(status.to_string()),
    };
    let g = get_order_response(Some(rec("open"))).unwrap();
    assert_eq!(g.market, "SOL");
    assert_eq!(g.status, "open");
    let payload = || Payload { user_id: ID1.to_string() };
    assert_eq!(delete_order(ID2.to_string(), payload(), Some(rec("filled"))).err(), Some(CustomError::OrderAlreadyCancelledOrFilled));
    assert_eq!(delete_order(ID2.to_string(), payload(), Some(rec("cancelled"))).err(), Some(CustomError::OrderAlreadyCancelledOrFilled));
    assert_eq!(delete_order(ID2.to_string(), payload(), None).err(), Some(CustomError::OrderNotFound));
    let (corr, req) = delete_order(ID2.to_string(), payload(), Some(rec("open"))).unwrap();
    match req {
        EngineRequest::DeleteOrder { correlation_id, data } => {
            assert_eq!(correlation_id, corr);
            assert_eq!(data.market, "SOL");
            assert_eq!(data.order_id, ID2);
        }
        _ => panic!("wrong request"),
    }
}

#[test]
fn topics_name_markets() {
    assert_eq!(market_of_topic(&"depth.SOL".to_string()), Some("SOL".to_string()));
    assert_eq!(market_of_topic(&"trade.SOL_USDC.x".to_string()), Some("SOL_USDC".to_string()));
    assert_eq!(market_of_topic(&"nodot".to_string()), None);
}

#[test]
fn connection_events() {
    let sub = |t: &str| ClientEvent::Message(ClientMessage::SUBSCRIBE { params: [t.to_string()] });
    let (p, a) = on_client_event(false, sub("depth.BTC"));
    assert!(p);
    assert_eq!(a, vec![WsAction::Register("BTC".to_string()), WsAction::StartPush]);
    let (p, a) = on_client_event(true, sub("depth.ETH"));
    assert!(p);
    assert_eq!(a, vec![WsAction::AbortPush, WsAction::Register("ETH".to_string()), WsAction::StartPush]);
    let (p, a) = on_client_event(true, ClientEvent::Message(ClientMessage::UNSUBSCRIBE));
    assert!(!p);
    assert_eq!(a, vec![WsAction::Unregister, WsAction::AbortPush]);
    let (p, a) = on_client_event(false, ClientEvent::Close);
    assert!(!p);
    assert!(a.is_empty());
    let (p, a) = on_client_event(true, ClientEvent::Other);
    assert!(p);
    assert!(a.is_empty());
}

#[test]
fn registry_and_depth_push() {
    let mut reg = vec![
        ClientSub { id: "a".to_string(), market: "BTC".to_string() },
        ClientSub { id: "b".to_string(), market: "SOL".to_string() },
        ClientSub { id: "a".to_string(), market: "ETH".to_string() },
    ];
    let mut store: StrMap<Depth> = StrMap::new();
    let cancel = EngineResponse::CancelOrder {
        correlation_id: "c".to_string(),
        data: CancelOrderResponseData {
            user_id: String::new(),
            order_id: String::new(),
            msg: String::new(),
            status: OrderStatus::CANCEL,
            depth: Some(Depth { bids: vec![("1".to_string(), "2".to_string())], asks: vec![] }),
            market: "SOL".to_string(),
        },
    };
    process_engine_response(cancel, &mut store);
    let sent = depth_push(&store, &reg);
    assert_eq!(sent.len(), 1);
    assert_eq!(sent[0].0, "b");
    assert_eq!(sent[0].1.bids, vec![("1".to_string(), "2".to_string())]);
    remove_client(&mut reg, &"a".to_string());
    assert_eq!(reg.len(), 1);
    assert_eq!(reg[0].id, "b");
}
