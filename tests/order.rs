use quicky::decimal::Decimal;
use quicky::order::{
    begin_quick_limit_order, build_order_request, get_full_uri, order_result_from_reply,
    price_from_quote_reply, quick_limit_order_step, ticker_url, OrderAction, OrderEvent,
};
use quicky::signing::sign_private_request_params;
use quicky::types::{
    get_api_key, get_api_secret, BybitGenericNoResultResponse, BybitLatestInformationSymbolResponse,
    BybitLatestInformationSymbolResult, HttpReply, StatusCode, TickStep, TradingContext,
};

fn dec(units: u64, scale: u32) -> Decimal {
    Decimal { units, scale }
}

fn context(use_testnet: bool) -> TradingContext {
    TradingContext {
        api_key: "LIVEKEY".to_string(),
        api_secret: "livesecret".to_string(),
        testnet_api_key: "KEY".to_string(),
        testnet_api_secret: "secret".to_string(),
        tick_steps: vec![
            TickStep { symbol: "XRPUSD".to_string(), tick: dec(1, 4) },
            TickStep { symbol: "BTCUSD".to_string(), tick: dec(5, 1) },
            TickStep { symbol: "ETHUSD".to_string(), tick: dec(1, 2) },
        ],
        stop_loss_pcnt: dec(2, 1),
        use_testnet,
    }
}

fn row(last_price: &str) -> BybitLatestInformationSymbolResult {
    BybitLatestInformationSymbolResult {
        symbol: "XRPUSD".to_string(),
        bid_price: "0.58".to_string(),
        ask_price: "0.5801".to_string(),
        last_price: last_price.to_string(),
        last_tick_direction: "PlusTick".to_string(),
        prev_price_24h: "0.57".to_string(),
        price_24h_pcnt: "0.01".to_string(),
        high_price_24h: "0.59".to_string(),
        low_price_24h: "0.56".to_string(),
        prev_price_1h: "0.58".to_string(),
        price_1h_pcnt: "0".to_string(),
        mark_price: "0.58".to_string(),
        index_price: "0.58".to_string(),
        open_interest: 1,
        open_value: "1".to_string(),
        total_turnover: "1".to_string(),
        turnover_24h: "1".to_string(),
        total_volume: 1,
        volume_24h: 1,
        funding_rate: "0.0001".to_string(),
        predicted_funding_rate: "0.0001".to_string(),
        next_funding_time: "".to_string(),
        countdown_hour: 0,
        delivery_fee_rate: "0".to_string(),
        predicted_delivery_price: "0".to_string(),
        delivery_time: "".to_string(),
    }
}

fn quote(ret_code: u32, ret_msg: &str, result: Option<Vec<BybitLatestInformationSymbolResult>>) -> BybitLatestInformationSymbolResponse {
    BybitLatestInformationSymbolResponse {
        ret_code,
        ret_msg: ret_msg.to_string(),
        ext_code: "".to_string(),
        ext_info: "".to_string(),
        result,
        time_now: "1650000000.123456".to_string(),
    }
}

fn generic(ret_code: u32, ret_msg: &str) -> BybitGenericNoResultResponse {
    BybitGenericNoResultResponse {
        ret_code,
        ret_msg: ret_msg.to_string(),
        ext_code: "".to_string(),
        ext_info: "".to_string(),
    }
}

#[test]
fn active_credentials_follow_environment() {
    assert_eq!(get_api_key(&context(true)), "KEY");
    assert_eq!(get_api_secret(&context(true)), "secret");
    assert_eq!(get_api_key(&context(false)), "LIVEKEY");
    assert_eq!(get_api_secret(&context(false)), "livesecret");
}

#[test]
fn full_uri_per_environment() {
    assert_eq!(get_full_uri(true, "/v2/public/time"), "https://api-testnet.bybit.com/v2/public/time");
    assert_eq!(get_full_uri(false, "/v2/public/time"), "https://api.bybit.com/v2/public/time");
}

#[test]
fn context_validity() {
    assert!(context(true).is_valid());
    let mut c = context(true);
    c.tick_steps.push(TickStep { symbol: "BAD".to_string(), tick: dec(0, 2) });
    assert!(!c.is_valid());
    let mut c = context(true);
    c.stop_loss_pcnt = dec(1, 19);
    assert!(!c.is_valid());
}

#[test]
fn tick_lookup_is_case_sensitive() {
    let c = context(true);
    assert_eq!(c.tick_step_for("XRPUSD"), Some(dec(1, 4)));
    assert_eq!(c.tick_step_for("xrpusd"), None);
}

#[test]
fn unknown_symbol_fails_before_network() {
    let c = context(true);
    assert!(matches!(
        begin_quick_limit_order(&c, "DOGEUSD", 10),
        Err(StatusCode::InternalErrorNoTickStepAvailable)
    ));
    assert!(matches!(
        begin_quick_limit_order(&c, "DOGEUSD", 0),
        Err(StatusCode::InternalErrorNoTickStepAvailable)
    ));
    assert!(matches!(
        build_order_request(&c, "DOGEUSD", 10, dec(100, 0), 1),
        Err(StatusCode::InternalErrorNoTickStepAvailable)
    ));
}

#[test]
fn zero_quantity_fails_before_network() {
    let c = context(true);
    assert!(matches!(
        begin_quick_limit_order(&c, "XRPUSD", 0),
        Err(StatusCode::ErrorIncorrectParameterValue)
    ));
    assert!(matches!(
        build_order_request(&c, "XRPUSD", 0, dec(5801, 4), 1),
        Err(StatusCode::ErrorIncorrectParameterValue)
    ));
}

#[test]
fn quote_url_for_known_symbol() {
    let c = context(true);
    let url = begin_quick_limit_order(&c, "XRPUSD", -3).unwrap();
    assert_eq!(url, "https://api-testnet.bybit.com/v2/public/tickers?symbol=XRPUSD");
    let live = begin_quick_limit_order(&context(false), "XRPUSD", 3).unwrap();
    assert_eq!(live, "https://api.bybit.com/v2/public/tickers?symbol=XRPUSD");
}

#[test]
fn quote_reply_gives_last_price() {
    let r = price_from_quote_reply(HttpReply::Decoded(quote(0, "OK", Some(vec![row("0.5801")]))));
    assert_eq!(r.unwrap(), dec(5801, 4));
}

#[test]
fn quote_reply_empty_result() {
    let r = price_from_quote_reply(HttpReply::Decoded(quote(0, "OK", Some(vec![]))));
    assert!(matches!(r, Err(StatusCode::ApiEmptyResult)));
    let r = price_from_quote_reply(HttpReply::Decoded(quote(0, "OK", None)));
    assert!(matches!(r, Err(StatusCode::ApiEmptyResult)));
}

#[test]
fn quote_reply_api_error_carries_message() {
    let r = price_from_quote_reply(HttpReply::Decoded(quote(10001, "invalid symbol", None)));
    match r {
        Err(StatusCode::ErrorApiResponse(m)) => assert_eq!(m, "invalid symbol"),
        other => panic!("unexpected {:?}", other),
    }
}

#[test]
fn quote_reply_non_numeric_price() {
    let r = price_from_quote_reply(HttpReply::Decoded(quote(0, "OK", Some(vec![row("n/a")]))));
    assert!(matches!(r, Err(StatusCode::ErrorNumericJsonParsing)));
}

#[test]
fn quote_reply_undecodable_and_transport() {
    assert!(matches!(price_from_quote_reply(HttpReply::Undecodable), Err(StatusCode::ErrorJsonParsing)));
    match price_from_quote_reply(HttpReply::TransportFailed("timed out".to_string())) {
        Err(StatusCode::ErrorApiResponse(m)) => assert_eq!(m, "timed out"),
        other => panic!("unexpected {:?}", other),
    }
}

#[test]
fn order_reply_classification() {
    assert!(order_result_from_reply(HttpReply::Decoded(generic(0, "OK"))).is_ok());
    match order_result_from_reply(HttpReply::Decoded(generic(30001, "order price is out of permissible range"))) {
        Err(StatusCode::ErrorApiResponse(m)) => assert_eq!(m, "order price is out of permissible range"),
        other => panic!("unexpected {:?}", other),
    }
    assert!(matches!(order_result_from_reply(HttpReply::Undecodable), Err(StatusCode::ErrorJsonParsing)));
}

#[test]
fn buy_order_golden_strings() {
    let c = context(true);
    let req = build_order_request(&c, "XRPUSD", 10, dec(5801, 4), 1650000000000).unwrap();
    let params = "api_key=KEY&order_type=Limit&price=0.58&qty=10&side=Buy&stop_loss=0.5789&symbol=XRPUSD&time_in_force=PostOnly&timestamp=1650000000000";
    assert_eq!(req.params, params);
    assert_eq!(req.sign, sign_private_request_params(params, "secret"));
    assert_eq!(req.url, "https://api-testnet.bybit.com/v2/private/order/create");
    let body = format!(
        "{{\"api_key\":\"KEY\",\"order_type\":\"Limit\",\"price\":0.58,\"qty\":10,\"side\":\"Buy\",\"stop_loss\":0.5789,\"symbol\":\"XRPUSD\",\"timestamp\":\"1650000000000\",\"time_in_force\":\"PostOnly\",\"sign\":\"{}\"}}",
        req.sign
    );
    assert_eq!(req.body, body);
    assert_eq!(req.price, dec(5800, 4));
    assert_eq!(req.stop_loss, dec(5789, 4));
    assert_eq!(req.qty, 10);
    assert!(req.is_buy);
}

#[test]
fn sell_order_uses_live_credentials() {
    let c = context(false);
    let req = build_order_request(&c, "ETHUSD", -7, dec(10000, 2), 42).unwrap();
    let params = "api_key=LIVEKEY&order_type=Limit&price=100.01&qty=7&side=Sell&stop_loss=100.2&symbol=ETHUSD&time_in_force=PostOnly&timestamp=42";
    assert_eq!(req.params, params);
    assert_eq!(req.sign, sign_private_request_params(params, "livesecret"));
    assert_eq!(req.url, "https://api.bybit.com/v2/private/order/create");
    assert_eq!(req.price, dec(10001, 2));
    assert_eq!(req.stop_loss, dec(10020, 2));
    assert!(!req.is_buy);
}

#[test]
fn order_quantity_extremes() {
    let c = context(true);
    let req = build_order_request(&c, "BTCUSD", i64::MIN, dec(40000, 0), 1).unwrap();
    assert_eq!(req.qty, 9223372036854775808);
    // a negative quantity sells; tick 0.5 resolves to one place: 40000 + 0.5
    assert!(!req.is_buy);
    assert_eq!(req.price, dec(400005, 1));
    let req = build_order_request(&c, "BTCUSD", i64::MAX, dec(40000, 0), 1).unwrap();
    assert_eq!(req.qty, 9223372036854775807);
    assert_eq!(req.price, dec(399995, 1));
}

#[test]
fn order_price_below_tick_is_refused() {
    let c = context(true);
    assert!(matches!(
        build_order_request(&c, "ETHUSD", 1, dec(0, 0), 1),
        Err(StatusCode::InternalErrorGeneric)
    ));
}

#[test]
fn order_body_escapes_symbol() {
    let mut c = context(true);
    c.tick_steps.push(TickStep { symbol: "A\"B".to_string(), tick: dec(1, 2) });
    let req = build_order_request(&c, "A\"B", 1, dec(100, 0), 1).unwrap();
    assert!(req.body.contains("\"symbol\":\"A\\\"B\""));
    assert!(req.params.contains("&symbol=A\"B&"));
}

#[test]
fn step_start_checks_before_network() {
    let c = context(true);
    assert!(matches!(
        quick_limit_order_step(&c, "DOGEUSD", 5, OrderEvent::Start),
        OrderAction::Done(Err(StatusCode::InternalErrorNoTickStepAvailable))
    ));
    assert!(matches!(
        quick_limit_order_step(&c, "XRPUSD", 0, OrderEvent::Start),
        OrderAction::Done(Err(StatusCode::ErrorIncorrectParameterValue))
    ));
    match quick_limit_order_step(&c, "XRPUSD", 5, OrderEvent::Start) {
        OrderAction::FetchQuote(url) => {
            assert_eq!(url, "https://api-testnet.bybit.com/v2/public/tickers?symbol=XRPUSD")
        }
        other => panic!("unexpected {:?}", other),
    }
}

#[test]
fn step_quote_leads_to_submission() {
    let c = context(true);
    let reply = HttpReply::Decoded(quote(0, "OK", Some(vec![row("0.5801")])));
    match quick_limit_order_step(&c, "XRPUSD", -10, OrderEvent::QuoteReply(reply, 7)) {
        OrderAction::Submit(req) => {
            assert_eq!(
                req.params,
                "api_key=KEY&order_type=Limit&price=0.5802&qty=10&side=Sell&stop_loss=0.5813&symbol=XRPUSD&time_in_force=PostOnly&timestamp=7"
            );
            assert_eq!(req.url, "https://api-testnet.bybit.com/v2/private/order/create");
        }
        other => panic!("unexpected {:?}", other),
    }
}

#[test]
fn step_quote_failures_end_placement() {
    let c = context(true);
    let reply = HttpReply::Decoded(quote(0, "OK", Some(vec![])));
    assert!(matches!(
        quick_limit_order_step(&c, "XRPUSD", 10, OrderEvent::QuoteReply(reply, 7)),
        OrderAction::Done(Err(StatusCode::ApiEmptyResult))
    ));
    let reply = HttpReply::Decoded(quote(10001, "params error", None));
    match quick_limit_order_step(&c, "XRPUSD", 10, OrderEvent::QuoteReply(reply, 7)) {
        OrderAction::Done(Err(StatusCode::ErrorApiResponse(m))) => assert_eq!(m, "params error"),
        other => panic!("unexpected {:?}", other),
    }
}

#[test]
fn step_order_reply_outcome() {
    let c = context(true);
    assert!(matches!(
        quick_limit_order_step(&c, "XRPUSD", 10, OrderEvent::OrderReply(HttpReply::Decoded(generic(0, "OK")))),
        OrderAction::Done(Ok(()))
    ));
    match quick_limit_order_step(&c, "XRPUSD", 10, OrderEvent::OrderReply(HttpReply::Decoded(generic(10004, "error sign")))) {
        OrderAction::Done(Err(StatusCode::ErrorApiResponse(m))) => assert_eq!(m, "error sign"),
        other => panic!("unexpected {:?}", other),
    }
}

#[test]
fn ticker_url_is_normalized() {
    assert_eq!(
        ticker_url(true, "A B").unwrap(),
        "https://api-testnet.bybit.com/v2/public/tickers?symbol=A%20B"
    );
}

#[test]
fn quote_reply_zero_price_is_refused() {
    for text in ["0", "0.000"] {
        let r = price_from_quote_reply(HttpReply::Decoded(quote(0, "OK", Some(vec![row(text)]))));
        assert!(matches!(r, Err(StatusCode::ErrorNumericJsonParsing)));
    }
    let c = context(true);
    let reply = HttpReply::Decoded(quote(0, "OK", Some(vec![row("0")])));
    assert!(matches!(
        quick_limit_order_step(&c, "XRPUSD", -1, OrderEvent::QuoteReply(reply, 7)),
        OrderAction::Done(Err(StatusCode::ErrorNumericJsonParsing))
    ));
}

#[test]
fn order_body_escapes_controls() {
    let mut c = context(true);
    let symbol = "A\\B\nC\u{1}\u{1f}é";
    c.tick_steps.push(TickStep { symbol: symbol.to_string(), tick: dec(1, 2) });
    let req = build_order_request(&c, symbol, 1, dec(100, 0), 1).unwrap();
    assert!(req.body.contains("\"symbol\":\"A\\\\B\\nC\\u0001\\u001fé\","));
}

#[test]
fn duplicate_symbols_are_invalid() {
    let mut c = context(true);
    c.tick_steps.push(TickStep { symbol: "ETHUSD".to_string(), tick: dec(5, 2) });
    assert!(!c.is_valid());
}
