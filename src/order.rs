use vstd::prelude::*;
use vstd::string::{StringExecFns, StrSliceExecFns, StringSliceAdditionalSpecFns};
use vstd::utf8::encode_utf8;
use crate::decimal::Decimal;
use crate::pricing::{target_limit, stop_loss, target_limit_price, stop_loss_price};
use crate::signing::{signature_of, sign_private_request_params};
use crate::text::{json_quoted, decimal_text, nat_digits, append_decimal, append_digits, parsed_decimal, parse_decimal};
use crate::text::{lemma_decimal_text_len, lemma_u64_digits_len};
use crate::signing::MAX_SIGNED_TEXT;
use crate::types::{
    StatusCode, TradingContext, HttpReply, BybitGenericNoResultResponse,
    BybitLatestInformationSymbolResponse, get_api_key, get_api_secret, MAX_FIELD_LEN,
};

verus! {

/// Base address of the live exchange.
pub const URI_PREFIX: &'static str = "https://api.bybit.com";

/// Base address of the test exchange.
pub const TESTNET_URI_PREFIX: &'static str = "https://api-testnet.bybit.com";

/// Path of the ticker endpoint, up to the symbol.
pub const TICKERS_PATH: &'static str = "/v2/public/tickers?symbol=";

/// Path of the order-creation endpoint.
pub const ORDER_CREATE_PATH: &'static str = "/v2/private/order/create";

/// The absolute URL that `text` parses to, if it is one.
pub uninterp spec fn parsed_url(text: Seq<char>) -> Option<Seq<char>>;

/// Relies on url::Url::parse: whether a text is an absolute URL, and the
/// serialization of the parsed URL, depend on the text alone.
#[verifier::external_body]
fn parse_url(text: &str) -> (r: Option<String>)
    ensures
        match r {
            Some(u) => parsed_url(text@) == Some(u@),
            None => parsed_url(text@) is None,
        },
{
    match url::Url::parse(text) {
        Ok(u) => Some(String::from(u)),
        Err(_) => None,
    }
}

/// Relies on serde_json::to_string on a `str`: it writes the text as a
/// JSON string (quote, each character escaped by its escape table, quote)
/// into a `Vec`, which cannot fail.
#[verifier::external_body]
fn to_json_string(text: &str) -> (r: String)
    ensures
        r@ == json_quoted(text@),
{
    match serde_json::to_string(text) {
        Ok(s) => s,
        Err(_) => String::new(),
    }
}

pub open spec fn base_uri(use_testnet: bool) -> Seq<char> {
    if use_testnet {
        TESTNET_URI_PREFIX@
    } else {
        URI_PREFIX@
    }
}

/// The full URI of an endpoint on the live or the test exchange.
pub fn get_full_uri(use_testnet: bool, end_point: &str) -> (r: String)
    ensures
        r@ == base_uri(use_testnet) + end_point@,
{
    let mut out = String::from_str(if use_testnet {
        TESTNET_URI_PREFIX
    } else {
        URI_PREFIX
    });
    out.append(end_point);
    out
}

pub open spec fn side_text(is_buy: bool) -> Seq<char> {
    if is_buy {
        "Buy"@
    } else {
        "Sell"@
    }
}

/// The magnitude of a signed quantity.
pub open spec fn abs_qty(qty: i64) -> nat {
    if qty < 0 {
        (-qty) as nat
    } else {
        qty as nat
    }
}

/// The canonical text that is signed: the fields in the exchange's fixed
/// order, each `key=value`, joined by `&`.
pub open spec fn order_params_text(
    api_key: Seq<char>,
    price: Decimal,
    qty: nat,
    is_buy: bool,
    stop: Decimal,
    symbol: Seq<char>,
    timestamp: nat,
) -> Seq<char> {
    "api_key="@ + api_key + "&order_type=Limit&price="@ + decimal_text(price) + "&qty="@
        + nat_digits(qty) + "&side="@ + side_text(is_buy) + "&stop_loss="@ + decimal_text(stop)
        + "&symbol="@ + symbol + "&time_in_force=PostOnly&timestamp="@ + nat_digits(timestamp)
}

/// The JSON body of the order request, signature included.
pub open spec fn order_body_text(
    api_key: Seq<char>,
    price: Decimal,
    qty: nat,
    is_buy: bool,
    stop: Decimal,
    symbol: Seq<char>,
    timestamp: nat,
    sign: Seq<char>,
) -> Seq<char> {
    "{\"api_key\":"@ + json_quoted(api_key) + ",\"order_type\":\"Limit\",\"price\":"@
        + decimal_text(price) + ",\"qty\":"@ + nat_digits(qty) + ",\"side\":\""@ + side_text(is_buy)
        + "\",\"stop_loss\":"@ + decimal_text(stop) + ",\"symbol\":"@ + json_quoted(symbol)
        + ",\"timestamp\":\""@ + nat_digits(timestamp) + "\",\"time_in_force\":\"PostOnly\",\"sign\":\""@
        + sign + "\"}"@
}

/// A signed order, ready to be posted.
#[derive(Debug, Clone)]
pub struct SignedOrderRequest {
    /// Where to post it.
    pub url: String,
    /// The canonical text that was signed.
    pub params: String,
    /// Hex HMAC-SHA256 of `params` under the active secret.
    pub sign: String,
    /// The JSON body to post.
    pub body: String,
    pub price: Decimal,
    pub stop_loss: Decimal,
    pub qty: u64,
    pub is_buy: bool,
}

/// The local checks that come before any network call: the symbol has a
/// known tick size and the quantity is not zero. On success, the ticker
/// URL to fetch the quote from.
pub fn begin_quick_limit_order(context: &TradingContext, symbol: &str, qty: i64) -> (r: Result<
    String,
    StatusCode,
>)
    ensures
        context.tick_of(symbol@) is None ==> r == Err::<String, StatusCode>(
            StatusCode::InternalErrorNoTickStepAvailable,
        ),
        context.tick_of(symbol@) is Some && qty == 0 ==> r == Err::<String, StatusCode>(
            StatusCode::ErrorIncorrectParameterValue,
        ),
        context.tick_of(symbol@) is Some && qty != 0 ==> match parsed_url(
            base_uri(context.use_testnet) + TICKERS_PATH@ + symbol@,
        ) {
            Some(u) => r matches Ok(s) && s@ == u,
            None => r == Err::<String, StatusCode>(StatusCode::InternalErrorParsingRawUrl),
        },
{
    if context.tick_step_for(symbol).is_none() {
        return Err(StatusCode::InternalErrorNoTickStepAvailable);
    }
    if qty == 0 {
        return Err(StatusCode::ErrorIncorrectParameterValue);
    }
    ticker_url(context.use_testnet, symbol)
}

/// The ticker URL for `symbol`, or `InternalErrorParsingRawUrl` when the
/// text does not parse as a URL.
pub fn ticker_url(use_testnet: bool, symbol: &str) -> (r: Result<String, StatusCode>)
    ensures
        match parsed_url(base_uri(use_testnet) + TICKERS_PATH@ + symbol@) {
            Some(u) => r matches Ok(s) && s@ == u,
            None => r == Err::<String, StatusCode>(StatusCode::InternalErrorParsingRawUrl),
        },
{
    let mut path = String::from_str(TICKERS_PATH);
    path.append(symbol);
    let raw = get_full_uri(use_testnet, path.as_str());
    assert(raw@ =~= base_uri(use_testnet) + TICKERS_PATH@ + symbol@);
    match parse_url(raw.as_str()) {
        Some(u) => Ok(u),
        None => Err(StatusCode::InternalErrorParsingRawUrl),
    }
}

/// The quote a ticker reply gives, or why there is none. A quote is a
/// positive decimal: a last price that does not parse, or is zero, is
/// refused as non-numeric.
pub open spec fn quote_outcome(reply: HttpReply<BybitLatestInformationSymbolResponse>) -> Result<
    Decimal,
    StatusCode,
> {
    match reply {
        HttpReply::TransportFailed(m) => Err(StatusCode::ErrorApiResponse(m)),
        HttpReply::Undecodable => Err(StatusCode::ErrorJsonParsing),
        HttpReply::Decoded(resp) => {
            if resp.ret_code != 0 {
                Err(StatusCode::ErrorApiResponse(resp.ret_msg))
            } else {
                match resp.result {
                    None => Err(StatusCode::ApiEmptyResult),
                    Some(rows) => {
                        if rows@.len() == 0 {
                            Err(StatusCode::ApiEmptyResult)
                        } else {
                            match parsed_decimal(rows@[0].last_price@) {
                                Some(d) => if d.units > 0 {
                                    Ok(d)
                                } else {
                                    Err(StatusCode::ErrorNumericJsonParsing)
                                },
                                None => Err(StatusCode::ErrorNumericJsonParsing),
                            }
                        }
                    },
                }
            }
        },
    }
}

/// Reads the last traded price out of a ticker reply.
pub fn price_from_quote_reply(reply: HttpReply<BybitLatestInformationSymbolResponse>) -> (r: Result<
    Decimal,
    StatusCode,
>)
    ensures
        r == quote_outcome(reply),
        r matches Ok(d) ==> d.wf() && d.units > 0,
{
    match reply {
        HttpReply::TransportFailed(m) => Err(StatusCode::ErrorApiResponse(m)),
        HttpReply::Undecodable => Err(StatusCode::ErrorJsonParsing),
        HttpReply::Decoded(resp) => {
            if resp.ret_code != 0 {
                return Err(StatusCode::ErrorApiResponse(resp.ret_msg));
            }
            match resp.result {
                None => Err(StatusCode::ApiEmptyResult),
                Some(rows) => {
                    if rows.len() == 0 {
                        Err(StatusCode::ApiEmptyResult)
                    } else {
                        match parse_decimal(rows[0].last_price.as_str()) {
                            Some(d) => if d.units > 0 {
                                Ok(d)
                            } else {
                                Err(StatusCode::ErrorNumericJsonParsing)
                            },
                            None => Err(StatusCode::ErrorNumericJsonParsing),
                        }
                    }
                },
            }
        },
    }
}

/// What an order-creation reply means: success only for return code zero.
pub open spec fn order_outcome(reply: HttpReply<BybitGenericNoResultResponse>) -> Result<
    (),
    StatusCode,
> {
    match reply {
        HttpReply::TransportFailed(m) => Err(StatusCode::ErrorApiResponse(m)),
        HttpReply::Undecodable => Err(StatusCode::ErrorJsonParsing),
        HttpReply::Decoded(resp) => {
            if resp.ret_code == 0 {
                Ok(())
            } else {
                Err(StatusCode::ErrorApiResponse(resp.ret_msg))
            }
        },
    }
}

/// Classifies the reply to an order submission.
pub fn order_result_from_reply(reply: HttpReply<BybitGenericNoResultResponse>) -> (r: Result<
    (),
    StatusCode,
>)
    ensures
        r == order_outcome(reply),
{
    match reply {
        HttpReply::TransportFailed(m) => Err(StatusCode::ErrorApiResponse(m)),
        HttpReply::Undecodable => Err(StatusCode::ErrorJsonParsing),
        HttpReply::Decoded(resp) => {
            if resp.ret_code == 0 {
                Ok(())
            } else {
                Err(StatusCode::ErrorApiResponse(resp.ret_msg))
            }
        },
    }
}

/// What placing the order at quote `price` and time `timestamp` yields,
/// given the signature the signing step produced for the parameter text.
pub open spec fn order_request_ok(
    req: SignedOrderRequest,
    context: TradingContext,
    symbol: Seq<char>,
    qty: i64,
    lp: Decimal,
    sl: Decimal,
    url: Seq<char>,
    timestamp: u64,
) -> bool {
    let is_buy = qty > 0;
    let params = order_params_text(
        context.active_key(),
        lp,
        abs_qty(qty),
        is_buy,
        sl,
        symbol,
        timestamp as nat,
    );
    &&& req.url@ == url
    &&& req.price == lp
    &&& req.stop_loss == sl
    &&& req.qty == abs_qty(qty)
    &&& req.is_buy == is_buy
    &&& req.params@ == params
    &&& req.sign@ == signature_of(encode_utf8(params), encode_utf8(context.active_secret()@))
    &&& req.body@ == order_body_text(
        context.active_key(),
        lp,
        abs_qty(qty),
        is_buy,
        sl,
        symbol,
        timestamp as nat,
        req.sign@,
    )
}

/// What building the order yields: the local checks in order (known
/// symbol, non-zero quantity), then price derivation and the order URL,
/// each failing with its own kind; otherwise the signed
/// request described by `order_request_ok`.
pub open spec fn order_request_outcome(
    context: TradingContext,
    symbol: Seq<char>,
    qty: i64,
    price: Decimal,
    timestamp: u64,
    r: Result<SignedOrderRequest, StatusCode>,
) -> bool {
    match context.tick_of(symbol) {
        None => r == Err::<SignedOrderRequest, StatusCode>(
            StatusCode::InternalErrorNoTickStepAvailable,
        ),
        Some(tick) => if qty == 0 {
            r == Err::<SignedOrderRequest, StatusCode>(StatusCode::ErrorIncorrectParameterValue)
        } else {
            match (
                target_limit(price, tick, qty > 0),
                stop_loss(price, context.stop_loss_pcnt, tick, qty > 0),
            ) {
                (Some(lp), Some(sl)) => match parsed_url(
                    base_uri(context.use_testnet) + ORDER_CREATE_PATH@,
                ) {
                    Some(u) => r matches Ok(req) && order_request_ok(
                        req,
                        context,
                        symbol,
                        qty,
                        lp,
                        sl,
                        u,
                        timestamp,
                    ),
                    None => r == Err::<SignedOrderRequest, StatusCode>(
                        StatusCode::InternalErrorCreatingHttpRequest,
                    ),
                },
                _ => r == Err::<SignedOrderRequest, StatusCode>(
                    StatusCode::InternalErrorGeneric,
                ),
            }
        },
    }
}

/// Builds and signs the order for a quote: checks the symbol and the
/// quantity, derives the limit price one tick inside the quote and the
/// stop-loss price, writes the canonical parameter text, signs it with the
/// active secret, and writes the JSON body.
pub fn build_order_request(
    context: &TradingContext,
    symbol: &str,
    qty: i64,
    price: Decimal,
    timestamp: u64,
) -> (r: Result<SignedOrderRequest, StatusCode>)
    requires
        context.wf(),
        price.wf(),
        symbol@.len() < MAX_FIELD_LEN,
    ensures
        order_request_outcome(*context, symbol@, qty, price, timestamp, r),
{
    let tick = match context.tick_step_for(symbol) {
        Some(t) => t,
        None => return Err(StatusCode::InternalErrorNoTickStepAvailable),
    };
    if qty == 0 {
        return Err(StatusCode::ErrorIncorrectParameterValue);
    }
    let is_buy = qty > 0;
    let lp = match target_limit_price(price, tick, is_buy) {
        Some(p) => p,
        None => return Err(StatusCode::InternalErrorGeneric),
    };
    let sl = match stop_loss_price(price, context.stop_loss_pcnt, tick, is_buy) {
        Some(p) => p,
        None => return Err(StatusCode::InternalErrorGeneric),
    };
    let qty_abs: u64 = if qty < 0 {
        (-(qty as i128)) as u64
    } else {
        qty as u64
    };
    let side = if is_buy {
        "Buy"
    } else {
        "Sell"
    };
    let api_key = get_api_key(context);
    let ts = crate::text::u64_to_string(timestamp);

    let mut params = String::from_str("api_key=");
    params.append(api_key);
    params.append("&order_type=Limit&price=");
    append_decimal(&mut params, lp);
    params.append("&qty=");
    append_digits(&mut params, qty_abs);
    params.append("&side=");
    params.append(side);
    params.append("&stop_loss=");
    append_decimal(&mut params, sl);
    params.append("&symbol=");
    params.append(symbol);
    params.append("&time_in_force=PostOnly&timestamp=");
    params.append(ts.as_str());
    let ghost params_text = order_params_text(
        context.active_key(),
        lp,
        abs_qty(qty),
        is_buy,
        sl,
        symbol@,
        timestamp as nat,
    );
    proof {
        assert(params@ =~= params_text);
        lemma_decimal_text_len(lp);
        lemma_decimal_text_len(sl);
        lemma_u64_digits_len(qty_abs);
        lemma_u64_digits_len(timestamp);
        reveal_strlit("api_key=");
        reveal_strlit("&order_type=Limit&price=");
        reveal_strlit("&qty=");
        reveal_strlit("&side=");
        reveal_strlit("Buy");
        reveal_strlit("Sell");
        reveal_strlit("&stop_loss=");
        reveal_strlit("&symbol=");
        reveal_strlit("&time_in_force=PostOnly&timestamp=");
    }
    let secret = get_api_secret(context);
    let sign = sign_private_request_params(params.as_str(), secret);

    let raw_url = get_full_uri(context.use_testnet, ORDER_CREATE_PATH);
    let url = match parse_url(raw_url.as_str()) {
        Some(u) => u,
        None => return Err(StatusCode::InternalErrorCreatingHttpRequest),
    };

    let key_json = to_json_string(api_key);
    let symbol_json = to_json_string(symbol);
    let mut body = String::from_str("{\"api_key\":");
    body.append(key_json.as_str());
    body.append(",\"order_type\":\"Limit\",\"price\":");
    append_decimal(&mut body, lp);
    body.append(",\"qty\":");
    append_digits(&mut body, qty_abs);
    body.append(",\"side\":\"");
    body.append(side);
    body.append("\",\"stop_loss\":");
    append_decimal(&mut body, sl);
    body.append(",\"symbol\":");
    body.append(symbol_json.as_str());
    body.append(",\"timestamp\":\"");
    body.append(ts.as_str());
    body.append("\",\"time_in_force\":\"PostOnly\",\"sign\":\"");
    body.append(sign.as_str());
    body.append("\"}");
    assert(body@ =~= order_body_text(
        context.active_key(),
        lp,
        abs_qty(qty),
        is_buy,
        sl,
        symbol@,
        timestamp as nat,
        sign@,
    ));
    Ok(SignedOrderRequest { url, params, sign, body, price: lp, stop_loss: sl, qty: qty_abs, is_buy })
}

/// What the caller of `quick_limit_order_step` observed since the last step.
#[derive(Debug)]
pub enum OrderEvent {
    /// Nothing yet: the order is being placed.
    Start,
    /// The ticker reply, and the wall-clock time in milliseconds since the
    /// Unix epoch at which it came back.
    QuoteReply(HttpReply<BybitLatestInformationSymbolResponse>, u64),
    /// The reply to the order submission.
    OrderReply(HttpReply<BybitGenericNoResultResponse>),
}

/// What the caller of `quick_limit_order_step` must do next.
#[derive(Debug)]
pub enum OrderAction {
    /// GET this URL and report the reply as `OrderEvent::QuoteReply`.
    FetchQuote(String),
    /// POST this request's body to its URL and report the reply as
    /// `OrderEvent::OrderReply`.
    Submit(SignedOrderRequest),
    /// Placement is over, with this result.
    Done(Result<(), StatusCode>),
}

/// The request or the error that a step after the quote stands for.
pub open spec fn submission_of(a: OrderAction) -> Result<SignedOrderRequest, StatusCode> {
    match a {
        OrderAction::Submit(req) => Ok(req),
        OrderAction::Done(Err(e)) => Err(e),
        _ => Err(StatusCode::InternalErrorGeneric),
    }
}

/// One decision of quick order placement. From `Start`, the local checks
/// run before any network call and the quote is fetched; from the quote,
/// the order is derived, signed and submitted; from the order reply, the
/// outcome is classified. Every failure ends placement; nothing is retried.
pub fn quick_limit_order_step(context: &TradingContext, symbol: &str, qty: i64, event: OrderEvent) -> (a:
    OrderAction)
    requires
        context.wf(),
        symbol@.len() < MAX_FIELD_LEN,
    ensures
        match event {
            OrderEvent::Start => match context.tick_of(symbol@) {
                None => a == OrderAction::Done(
                    Err(StatusCode::InternalErrorNoTickStepAvailable),
                ),
                Some(_) => if qty == 0 {
                    a == OrderAction::Done(Err(StatusCode::ErrorIncorrectParameterValue))
                } else {
                    match parsed_url(base_uri(context.use_testnet) + TICKERS_PATH@ + symbol@) {
                        Some(u) => a matches OrderAction::FetchQuote(url) && url@ == u,
                        None => a == OrderAction::Done(Err(StatusCode::InternalErrorParsingRawUrl)),
                    }
                },
            },
            OrderEvent::QuoteReply(reply, timestamp) => match quote_outcome(reply) {
                Err(e) => a == OrderAction::Done(Err(e)),
                Ok(price) => (a is Submit || a matches OrderAction::Done(Err(_)))
                    && order_request_outcome(*context, symbol@, qty, price, timestamp, submission_of(a)),
            },
            OrderEvent::OrderReply(reply) => a == OrderAction::Done(order_outcome(reply)),
        },
{
    match event {
        OrderEvent::Start => match begin_quick_limit_order(context, symbol, qty) {
            Ok(url) => OrderAction::FetchQuote(url),
            Err(e) => OrderAction::Done(Err(e)),
        },
        OrderEvent::QuoteReply(reply, timestamp) => match price_from_quote_reply(reply) {
            Err(e) => OrderAction::Done(Err(e)),
            Ok(price) => match build_order_request(context, symbol, qty, price, timestamp) {
                Ok(req) => OrderAction::Submit(req),
                Err(e) => OrderAction::Done(Err(e)),
            },
        },
        OrderEvent::OrderReply(reply) => OrderAction::Done(order_result_from_reply(reply)),
    }
}

} // verus!
