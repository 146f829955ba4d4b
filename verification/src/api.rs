//! The HTTP front end's decisions: errors and their answers, sign-up and
//! sign-in, the check of a bearer token, and the requests built for the engine.
use vstd::prelude::*;
use crate::ids::{new_uuid, parse_uuid, uuid_parse};
use crate::text::text;
use crate::types::{
    CreateOrderData, DeleteOrderData, EngineRequest, GetBalanceData, GetDepthData, OnRampData, Side, TypeOfOrder,
};

verus! {

/// What can go wrong in the front end.
#[derive(Debug, Clone, Copy, PartialEq, Eq, Structural)]
pub enum CustomError {
    InternalError,
    UserNotFound,
    LoginFirst,
    JwtMissing,
    UserExists,
    WrongPassword,
    WrongJwtToken,
    TypeConversionError,
    DBError,
    OrderNotFound,
    OrderAlreadyCancelledOrFilled,
}

/// The HTTP status of an error.
pub open spec fn spec_status_code(e: CustomError) -> u16 {
    match e {
        CustomError::InternalError => 500,
        CustomError::UserNotFound => 401,
        CustomError::JwtMissing => 401,
        CustomError::LoginFirst => 401,
        CustomError::UserExists => 401,
        CustomError::WrongPassword => 400,
        CustomError::WrongJwtToken => 401,
        CustomError::TypeConversionError => 400,
        CustomError::DBError => 500,
        CustomError::OrderNotFound => 404,
        CustomError::OrderAlreadyCancelledOrFilled => 400,
    }
}

/// The message of an error.
pub open spec fn spec_message(e: CustomError) -> Seq<char> {
    match e {
        CustomError::InternalError => "There is some internal server error"@,
        CustomError::UserNotFound => "User not found"@,
        CustomError::LoginFirst => "Please Login First"@,
        CustomError::JwtMissing => "Please Provide jwt token"@,
        CustomError::UserExists => "User already Exist"@,
        CustomError::WrongPassword => "Wrong password"@,
        CustomError::WrongJwtToken => "wrong jwt token"@,
        CustomError::TypeConversionError => "Invalid id"@,
        CustomError::DBError => "There is some database error"@,
        CustomError::OrderNotFound => "Order not found"@,
        CustomError::OrderAlreadyCancelledOrFilled => "Order is already cancelled or filled"@,
    }
}

impl CustomError {
    /// The HTTP status of the error.
    pub fn status_code(&self) -> (c: u16)
        ensures
            c == spec_status_code(*self),
    {
        match self {
            CustomError::InternalError => 500,
            CustomError::UserNotFound => 401,
            CustomError::JwtMissing => 401,
            CustomError::LoginFirst => 401,
            CustomError::UserExists => 401,
            CustomError::WrongPassword => 400,
            CustomError::WrongJwtToken => 401,
            CustomError::TypeConversionError => 400,
            CustomError::DBError => 500,
            CustomError::OrderNotFound => 404,
            CustomError::OrderAlreadyCancelledOrFilled => 400,
        }
    }

    /// The message of the error.
    pub fn message(&self) -> (m: String)
        ensures
            m@ == spec_message(*self),
    {
        match self {
            CustomError::InternalError => text("There is some internal server error"),
            CustomError::UserNotFound => text("User not found"),
            CustomError::LoginFirst => text("Please Login First"),
            CustomError::JwtMissing => text("Please Provide jwt token"),
            CustomError::UserExists => text("User already Exist"),
            CustomError::WrongPassword => text("Wrong password"),
            CustomError::WrongJwtToken => text("wrong jwt token"),
            CustomError::TypeConversionError => text("Invalid id"),
            CustomError::DBError => text("There is some database error"),
            CustomError::OrderNotFound => text("Order not found"),
            CustomError::OrderAlreadyCancelledOrFilled => text("Order is already cancelled or filled"),
        }
    }

    /// The body of the error's answer.
    pub fn error_response(&self) -> (r: ErrorResponse)
        ensures
            r.status_code == spec_status_code(*self),
            r.error@ == (match status_reason(spec_status_code(*self)) {
                Some(s) => s,
                None => "unknown"@,
            }),
            r.message@ == spec_message(*self),
    {
        let code = self.status_code();
        let error = match canonical_reason(code) {
            Some(s) => s,
            None => text("unknown"),
        };
        ErrorResponse { status_code: code, error, message: self.message() }
    }
}

/// The body of an error answer.
#[derive(Debug)]
pub struct ErrorResponse {
    pub status_code: u16,
    pub error: String,
    pub message: String,
}

/// The reason phrase that `http` gives a status code, if any.
pub uninterp spec fn status_reason(code: u16) -> Option<Seq<char>>;

/// Calls `StatusCode::from_u16` and `canonical_reason` (the `http` crate
/// through `actix_web`). Claimed: the phrase is a function of the code alone.
#[verifier::external_body]
fn canonical_reason(code: u16) -> (r: Option<String>)
    ensures
        r is Some <==> status_reason(code) is Some,
        r matches Some(s) ==> s@ == status_reason(code).unwrap(),
{
    match actix_web::http::StatusCode::from_u16(code) {
        Ok(s) => s.canonical_reason().map(|p| p.to_string()),
        Err(_) => None,
    }
}

/// Who a bearer token speaks for.
#[derive(Debug, Clone)]
pub struct Payload {
    pub user_id: String,
}

/// A sign-up request.
#[derive(Debug)]
pub struct SignUpRequest {
    pub username: String,
    pub password: String,
}

/// The answer to a sign-up.
#[derive(Debug)]
pub struct SignUpResponse {
    pub msg: String,
}

/// A sign-in request.
#[derive(Debug)]
pub struct SignInRequest {
    pub username: String,
    pub password: String,
}

/// The answer to a sign-in.
#[derive(Debug)]
pub struct SignInResponse {
    pub user_id: String,
    pub jwt_token: String,
}

/// An order as a user sends it.
#[derive(Debug)]
pub struct CreateOrderSchema {
    pub market: String,
    pub qty: String,
    pub price: Option<String>,
    pub order_type: TypeOfOrder,
    pub side: Side,
}

/// An order as the database holds it, for its owner.
#[derive(Debug)]
pub struct GetOrderResponse {
    pub id: String,
    pub quantity: String,
    pub price: String,
    pub side: String,
    pub order_type: String,
    pub status: String,
    pub user_id: String,
    pub market: String,
}

/// A user as the database holds it: its id and its password hash.
#[derive(Debug)]
pub struct StoredUser {
    pub id: String,
    pub password: String,
}

/// Whether `bcrypt` accepts the password against the hash; `None` where the
/// hash does not read.
pub uninterp spec fn bcrypt_check(password: Seq<char>, hash: Seq<char>) -> Option<bool>;

/// The token that `jsonwebtoken` signs (HS256, default header) for claims
/// `{"user_id": user_id}` with the secret; `None` where signing fails.
pub uninterp spec fn jwt_token_for(user_id: Seq<char>, secret: Seq<char>) -> Option<Seq<char>>;

/// The `user_id` claim of a token that `jsonwebtoken` accepts as HS256 with
/// the secret, no expiry required; `None` where it does not, or where the
/// claim is missing or not text.
pub uninterp spec fn jwt_user_id(token: Seq<char>, secret: Seq<char>) -> Option<Seq<char>>;

/// Calls `bcrypt::verify`. Claimed: the result is a function of the password
/// and the hash alone.
#[verifier::external_body]
fn bcrypt_verify(password: &str, hash: &str) -> (r: Option<bool>)
    ensures
        r == bcrypt_check(password@, hash@),
{
    bcrypt::verify(password, hash).ok()
}

/// The form of a hash that `bcrypt::hash` writes at its default cost: 60
/// characters beginning `$2b$12$`.
pub open spec fn bcrypt_form(h: Seq<char>) -> bool {
    h.len() == 60 && h.subrange(0, 7) == "$2b$12$"@
}

/// Calls `bcrypt::hash` at `bcrypt::DEFAULT_COST` (12). The salt is random,
/// so which hash comes back is not claimed; claimed: any hash that comes back
/// has the `$2b$12$` form of 60 characters, and `bcrypt::verify` accepts the
/// password against it (it re-hashes with the cost and salt the hash
/// carries). Hashing fails only where the OS gives no random salt.
#[verifier::external_body]
fn bcrypt_hash(password: &str) -> (r: Option<String>)
    ensures
        r matches Some(h) ==> bcrypt_check(password@, h@) == Some(true),
        r matches Some(h) ==> bcrypt_form(h@),
{
    bcrypt::hash(password, bcrypt::DEFAULT_COST).ok()
}

/// Calls `jsonwebtoken::encode` with the default header and the claims
/// `{"user_id": user_id}`. Claimed: the token is a function of the user id
/// and the secret alone, and `jwt_decode` with the same secret reads the user
/// id back from it (HS256 signature, no time claim to check); signing never
/// fails (an HMAC key and a header of its family, claims of text).
#[verifier::external_body]
fn jwt_encode(user_id: &str, secret: &str) -> (r: Option<String>)
    ensures
        r is Some <==> jwt_token_for(user_id@, secret@) is Some,
        r matches Some(t) ==> t@ == jwt_token_for(user_id@, secret@).unwrap(),
        r matches Some(t) ==> jwt_user_id(t@, secret@) == Some(user_id@),
        r is Some,
{
    let claims = std::collections::HashMap::from([("user_id", user_id)]);
    let key = jsonwebtoken::EncodingKey::from_secret(secret.as_bytes());
    jsonwebtoken::encode(&jsonwebtoken::Header::default(), &claims, &key).ok()
}

/// Calls `jsonwebtoken::decode` (HS256, expiry neither checked nor required)
/// and picks the `user_id` claim as text. Claimed: the result is a function
/// of the token and the secret alone.
#[verifier::external_body]
fn jwt_decode(token: &str, secret: &str) -> (r: Option<String>)
    ensures
        r is Some <==> jwt_user_id(token@, secret@) is Some,
        r matches Some(u) ==> u@ == jwt_user_id(token@, secret@).unwrap(),
{
    let mut validation = jsonwebtoken::Validation::new(jsonwebtoken::Algorithm::HS256);
    validation.validate_exp = false;
    validation.required_spec_claims.remove("exp");
    let key = jsonwebtoken::DecodingKey::from_secret(secret.as_bytes());
    match jsonwebtoken::decode::<serde_json::Map<String, serde_json::Value>>(token, &key, &validation) {
        Ok(data) => data.claims.get("user_id").and_then(|v| v.as_str()).map(|s| s.to_string()),
        Err(_) => None,
    }
}

/// Who a bearer token speaks for, if the secret signed it.
pub fn verify_jwt(jwt_token: &str, jwt_secret: &str) -> (r: Option<Payload>)
    ensures
        r is Some <==> jwt_user_id(jwt_token@, jwt_secret@) is Some,
        r matches Some(p) ==> p.user_id@ == jwt_user_id(jwt_token@, jwt_secret@).unwrap(),
{
    match jwt_decode(jwt_token, jwt_secret) {
        Some(user_id) => Some(Payload { user_id }),
        None => None,
    }
}

/// What signing in answers (see `sign_in`): for a known user whose hash
/// accepts the password, the user's id and the token signed for it, which
/// verifies back to that id.
pub open spec fn sign_in_outcome(
    user: Option<StoredUser>,
    password: Seq<char>,
    jwt_secret: Seq<char>,
    r: Result<SignInResponse, CustomError>,
) -> bool {
    &&& match user {
        None => r == Err::<SignInResponse, CustomError>(CustomError::UserNotFound),
        Some(u) => match bcrypt_check(password, u.password@) {
            None => r == Err::<SignInResponse, CustomError>(CustomError::InternalError),
            Some(false) => r == Err::<SignInResponse, CustomError>(CustomError::WrongPassword),
            Some(true) => match jwt_token_for(u.id@, jwt_secret) {
                None => r == Err::<SignInResponse, CustomError>(CustomError::InternalError),
                Some(t) => r matches Ok(resp) && resp.user_id@ == u.id@ && resp.jwt_token@ == t,
            },
        },
    }
    &&& r matches Ok(resp) ==> jwt_user_id(resp.jwt_token@, jwt_secret) == Some(resp.user_id@)
    &&& (user is Some && bcrypt_check(password, user.unwrap().password@) == Some(true) ==> jwt_token_for(
        user.unwrap().id@,
        jwt_secret,
    ) is Some)
}

/// Signs a user in: an unknown user is `UserNotFound`, a wrong password
/// `WrongPassword`; a hash that does not read, or a token that cannot be
/// signed, is `InternalError`. Otherwise the answer carries the user's id
/// and a token signed for it.
pub fn sign_in(user: Option<StoredUser>, password: &str, jwt_secret: &str) -> (r: Result<SignInResponse, CustomError>)
    ensures
        sign_in_outcome(user, password@, jwt_secret@, r),
{
    let user = match user {
        Some(u) => u,
        None => {
            return Err(CustomError::UserNotFound);
        },
    };
    let is_correct = match bcrypt_verify(password, user.password.as_str()) {
        Some(b) => b,
        None => {
            return Err(CustomError::InternalError);
        },
    };
    if !is_correct {
        return Err(CustomError::WrongPassword);
    }
    let jwt_token = match jwt_encode(user.id.as_str(), jwt_secret) {
        Some(t) => t,
        None => {
            return Err(CustomError::InternalError);
        },
    };
    Ok(SignInResponse { user_id: user.id, jwt_token })
}

/// What a sign-up stores and answers.
#[derive(Debug)]
pub struct SignUpPlan {
    pub username: String,
    pub hashed_password: String,
    pub response: SignUpResponse,
}

/// Signs a user up: a taken username is `UserExists`; a password that cannot
/// be hashed is `InternalError`. Otherwise the username is stored with a
/// `bcrypt` hash of the `$2b$12$` form that `bcrypt` accepts the password
/// against (so never the password itself, unless the password has that
/// form), and the answer says the user was created.
pub fn sign_up(user_exists: bool, data: SignUpRequest) -> (r: Result<SignUpPlan, CustomError>)
    ensures
        user_exists ==> r == Err::<SignUpPlan, CustomError>(CustomError::UserExists),
        !user_exists ==> (r is Ok || r == Err::<SignUpPlan, CustomError>(CustomError::InternalError)),
        r matches Ok(p) ==> p.username@ == data.username@ && p.response.msg@ == "user created succefully"@,
        r matches Ok(p) ==> bcrypt_check(data.password@, p.hashed_password@) == Some(true),
        r matches Ok(p) ==> bcrypt_form(p.hashed_password@),
        r matches Ok(p) ==> (!bcrypt_form(data.password@) ==> p.hashed_password@ != data.password@),
{
    if user_exists {
        return Err(CustomError::UserExists);
    }
    let hashed_password = match bcrypt_hash(data.password.as_str()) {
        Some(h) => h,
        None => {
            return Err(CustomError::InternalError);
        },
    };
    Ok(
        SignUpPlan {
            username: data.username,
            hashed_password,
            response: SignUpResponse { msg: text("user created succefully") },
        },
    )
}

/// A user signs in with the password it signed up with: against a hash that
/// sign-up stores for the password, signing in succeeds and answers with the
/// user's id and a token that verifies back to it.
pub proof fn law_sign_in_after_sign_up(
    user: StoredUser,
    password: Seq<char>,
    jwt_secret: Seq<char>,
    r: Result<SignInResponse, CustomError>,
)
    requires
        bcrypt_check(password, user.password@) == Some(true),
        sign_in_outcome(Some(user), password, jwt_secret, r),
    ensures
        r matches Ok(resp) && resp.user_id@ == user.id@ && jwt_user_id(resp.jwt_token@, jwt_secret) == Some(user.id@),
{
}

/// The first space at or after `i` (the length where there is none).
pub open spec fn first_space_from(s: Seq<char>, i: int) -> int
    decreases s.len() - i,
{
    if i < 0 || i >= s.len() {
        s.len() as int
    } else if s[i] == ' ' {
        i
    } else {
        first_space_from(s, i + 1)
    }
}

/// The second space-separated field of `s`: what lies between its first
/// space and the next one (or the end). `None` where `s` has no space.
pub open spec fn second_field(s: Seq<char>) -> Option<Seq<char>> {
    let i = first_space_from(s, 0);
    if i >= s.len() {
        None
    } else {
        Some(s.subrange(i + 1, first_space_from(s, i + 1)))
    }
}

proof fn lemma_first_space_from(s: Seq<char>, i: int)
    requires
        0 <= i <= s.len(),
    ensures
        i <= first_space_from(s, i) <= s.len(),
    decreases s.len() - i,
{
    if i < s.len() && s[i] != ' ' {
        lemma_first_space_from(s, i + 1);
    }
}

fn find_space(s: &str, from: usize) -> (r: usize)
    requires
        from <= s@.len(),
    ensures
        r == first_space_from(s@, from as int),
{
    let n = s.unicode_len();
    let mut i = from;
    while i < n && s.get_char(i) != ' '
        invariant
            from <= i <= n,
            n == s@.len(),
            first_space_from(s@, i as int) == first_space_from(s@, from as int),
        decreases n - i,
    {
        i = i + 1;
    }
    i
}

/// The `Authorization` header of a request, as the server hands it over.
#[derive(Debug)]
pub enum AuthHeader {
    /// No such header.
    Missing,
    /// The header is not visible ASCII text.
    Unreadable,
    /// The header's text.
    Text(String),
}

/// Checks a request's bearer token: no header is `JwtMissing`, an unreadable
/// one `InternalError`; the token is the header's second space-separated
/// field (none is `JwtMissing`); a token that the secret did not sign is
/// `WrongJwtToken`. Otherwise: who the token speaks for.
pub fn my_custom_middleware(header: &AuthHeader, jwt_secret: &str) -> (r: Result<Payload, CustomError>)
    ensures
        match header {
            AuthHeader::Missing => r == Err::<Payload, CustomError>(CustomError::JwtMissing),
            AuthHeader::Unreadable => r == Err::<Payload, CustomError>(CustomError::InternalError),
            AuthHeader::Text(h) => match second_field(h@) {
                None => r == Err::<Payload, CustomError>(CustomError::JwtMissing),
                Some(t) => match jwt_user_id(t, jwt_secret@) {
                    None => r == Err::<Payload, CustomError>(CustomError::WrongJwtToken),
                    Some(u) => r matches Ok(p) && p.user_id@ == u,
                },
            },
        },
{
    let h = match header {
        AuthHeader::Missing => {
            return Err(CustomError::JwtMissing);
        },
        AuthHeader::Unreadable => {
            return Err(CustomError::InternalError);
        },
        AuthHeader::Text(h) => h.as_str(),
    };
    let n = h.unicode_len();
    let i = find_space(h, 0);
    if i >= n {
        return Err(CustomError::JwtMissing);
    }
    let j = find_space(h, i + 1);
    proof {
        lemma_first_space_from(h@, i + 1);
    }
    let token = h.substring_char(i + 1, j);
    match verify_jwt(token, jwt_secret) {
        Some(p) => Ok(p),
        None => Err(CustomError::WrongJwtToken),
    }
}

/// The engine request for a user's order, under a fresh correlation id.
pub fn create_order(payload: Payload, body: CreateOrderSchema) -> (r: (String, EngineRequest))
    ensures
        r.0@.len() == 36,
        r.1 matches EngineRequest::CreateOrder { correlation_id, data } && correlation_id@ == r.0@ && data.market@
            == body.market@ && data.qty@ == body.qty@ && data.price == body.price && data.order_type
            == body.order_type && data.user_id@ == payload.user_id@ && data.side == body.side,
{
    let correlation_id = new_uuid();
    let data = CreateOrderData {
        market: body.market,
        qty: body.qty,
        price: body.price,
        order_type: body.order_type,
        user_id: payload.user_id,
        side: body.side,
    };
    (correlation_id.clone(), EngineRequest::CreateOrder { correlation_id, data })
}

/// The engine request for a user's on-ramp, under a fresh correlation id.
pub fn onramp(payload: Payload) -> (r: (String, EngineRequest))
    ensures
        r.0@.len() == 36,
        r.1 matches EngineRequest::OnRamp { correlation_id, data } && correlation_id@ == r.0@ && data.user_id@
            == payload.user_id@,
{
    let correlation_id = new_uuid();
    (correlation_id.clone(), EngineRequest::OnRamp { correlation_id, data: OnRampData { user_id: payload.user_id } })
}

/// The engine request for a market's depth, under a fresh correlation id.
pub fn depth(market: String) -> (r: (String, EngineRequest))
    ensures
        r.0@.len() == 36,
        r.1 matches EngineRequest::GetDepth { correlation_id, data } && correlation_id@ == r.0@ && data.market@
            == market@,
{
    let correlation_id = new_uuid();
    (correlation_id.clone(), EngineRequest::GetDepth { correlation_id, data: GetDepthData { market } })
}

/// The engine request for a user's balances, under a fresh correlation id.
pub fn get_user_balance(payload: Payload) -> (r: (String, EngineRequest))
    ensures
        r.0@.len() == 36,
        r.1 matches EngineRequest::GetBalance { correlation_id, data } && correlation_id@ == r.0@ && data.user_id@
            == payload.user_id@,
{
    let correlation_id = new_uuid();
    (
        correlation_id.clone(),
        EngineRequest::GetBalance { correlation_id, data: GetBalanceData { user_id: payload.user_id } },
    )
}

/// An order row as the database query hands it over (its enum columns as
/// optional text).
#[derive(Debug)]
pub struct OrderRecord {
    pub id: String,
    pub price: String,
    pub quantity: String,
    pub side: Option<String>,
    pub order_type: Option<String>,
    pub user_id: String,
    pub market: String,
    pub status: Option<String>,
}

/// The id of an order to look up: `TypeConversionError` where it is not a UUID.
pub fn get_order(order_id: &str) -> (r: Result<u128, CustomError>)
    ensures
        match uuid_parse(order_id@) {
            Some(v) => r == Ok::<u128, CustomError>(v),
            None => r == Err::<u128, CustomError>(CustomError::TypeConversionError),
        },
{
    match parse_uuid(order_id) {
        Some(v) => Ok(v),
        None => Err(CustomError::TypeConversionError),
    }
}

/// The answer to an order lookup: `OrderNotFound` where there is no row.
pub fn get_order_response(found: Option<OrderRecord>) -> (r: Result<GetOrderResponse, CustomError>)
    requires
        found matches Some(o) ==> o.side is Some && o.order_type is Some && o.status is Some,
    ensures
        match found {
            None => r == Err::<GetOrderResponse, CustomError>(CustomError::OrderNotFound),
            Some(o) => r matches Ok(g) && g.id@ == o.id@ && g.quantity@ == o.quantity@ && g.price@ == o.price@
                && g.side@ == o.side.unwrap()@ && g.order_type@ == o.order_type.unwrap()@ && g.status@
                == o.status.unwrap()@ && g.user_id@ == o.user_id@ && g.market@ == o.market@,
        },
{
    match found {
        None => Err(CustomError::OrderNotFound),
        Some(o) => Ok(
            GetOrderResponse {
                id: o.id,
                quantity: o.quantity,
                price: o.price,
                side: o.side.unwrap(),
                order_type: o.order_type.unwrap(),
                status: o.status.unwrap(),
                user_id: o.user_id,
                market: o.market,
            },
        ),
    }
}

/// The status texts of an order that can no longer be cancelled.
pub open spec fn is_final_status(status: Option<String>) -> bool {
    status matches Some(s) && (s@ == "filled"@ || s@ == "cancelled"@)
}

/// What the router answers to a cancellation of the order `order_id` by the
/// user of `payload`, given the stored row `found` (see `delete_order`).
pub open spec fn cancel_request_done(
    order_id: Seq<char>,
    payload: Payload,
    found: Option<OrderRecord>,
    r: Result<(String, EngineRequest), CustomError>,
) -> bool {
    match found {
        None => r == Err::<(String, EngineRequest), CustomError>(CustomError::OrderNotFound),
        Some(o) => if is_final_status(o.status) {
            r == Err::<(String, EngineRequest), CustomError>(CustomError::OrderAlreadyCancelledOrFilled)
        } else {
            r matches Ok((c, EngineRequest::DeleteOrder { correlation_id, data })) && c@.len() == 36
                && correlation_id@ == c@ && data.user_id@ == payload.user_id@ && data.order_id@ == order_id
                && data.market@ == o.market@
        },
    }
}

/// The engine request to cancel an order, under a fresh correlation id:
/// `OrderNotFound` where there is no row, `OrderAlreadyCancelledOrFilled`
/// where its status is "filled" or "cancelled".
pub fn delete_order(order_id: String, payload: Payload, found: Option<OrderRecord>) -> (r: Result<
    (String, EngineRequest),
    CustomError,
>)
    ensures
        cancel_request_done(order_id@, payload, found, r),
{
    let order = match found {
        Some(o) => o,
        None => {
            return Err(CustomError::OrderNotFound);
        },
    };
    let done = match &order.status {
        Some(s) => *s == text("filled") || *s == text("cancelled"),
        None => false,
    };
    if done {
        return Err(CustomError::OrderAlreadyCancelledOrFilled);
    }
    let correlation_id = new_uuid();
    Ok(
        (
            correlation_id.clone(),
            EngineRequest::DeleteOrder {
                correlation_id,
                data: DeleteOrderData { user_id: payload.user_id, order_id, market: order.market },
            },
        ),
    )
}

} // verus!

verus! {

/// Which stored orders can be cancelled: an order that is open or partially
/// filled, or has no status, still rests, and the router asks the engine to
/// take it off the book of its market for the requesting user; only a filled
/// or cancelled order is refused.
pub proof fn law_cancellable_orders(
    order_id: Seq<char>,
    payload: Payload,
    o: OrderRecord,
    r: Result<(String, EngineRequest), CustomError>,
)
    requires
        cancel_request_done(order_id, payload, Some(o), r),
    ensures
        (o.status is None || o.status.unwrap()@ == "open"@ || o.status.unwrap()@ == "partially_filled"@) ==> (
        r matches Ok((c, EngineRequest::DeleteOrder { correlation_id, data })) && data.order_id@ == order_id
            && data.market@ == o.market@ && data.user_id@ == payload.user_id@),
        (o.status is Some && (o.status.unwrap()@ == "filled"@ || o.status.unwrap()@ == "cancelled"@)) ==> r
            == Err::<(String, EngineRequest), CustomError>(CustomError::OrderAlreadyCancelledOrFilled),
{
    reveal_strlit("open");
    reveal_strlit("partially_filled");
    reveal_strlit("filled");
    reveal_strlit("cancelled");
    if o.status is Some {
        let s = o.status.unwrap()@;
        if s == "open"@ {
            assert(s.len() != "filled"@.len() || s[0] != "filled"@[0]);
            assert(s.len() != "cancelled"@.len());
        }
        if s == "partially_filled"@ {
            assert(s.len() != "filled"@.len());
            assert(s.len() != "cancelled"@.len());
        }
    }
}

} // verus!
