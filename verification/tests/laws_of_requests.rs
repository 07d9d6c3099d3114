use maker_desk::binance::{
    classify_api_error, classify_api_error_with, find_contract, parse_all_contracts,
    parse_contract, reject_reason_from_code, side_tag, sort_answer, AcceptedOrder, BinanceError,
    ExchangeInfoResponse, OrderRequest, OrderResponse, RateLimitHint,
};
use maker_desk::client::{
    balance_of_asset, binance_error_fields, cross_margin_params, noted_error, order_params,
    read_account_fees, read_cancelled, read_contract, read_exchange_info, read_queried,
    read_submitted, transport_failure, BinanceClient, MarketCache, Method, Mode, PublicStep,
    Transport, PRODUCTION_URL, TESTNET_URL,
};
use maker_desk::cooldown::{wait_after_limit, Cooldown, DEFAULT_RETRY_AFTER_MS};
use maker_desk::decimal::Decimal;
use maker_desk::error::{ExchangeError, RejectReason};
use maker_desk::instrument::FeeSource;
use maker_desk::order::Side;
use maker_desk::quotes::{
    best_price, book_from, depth_limit, depth_query, klines_failure, klines_query, read_depth,
    read_klines, read_mark_price, Interval, HISTORY_TTL_MS, KLINES_TTL_MS,
};
use maker_desk::signing::{build_query, sign, signed_query_at, Credentials};

const NOW: i64 = 1_750_000_000_000;

fn dec(text: &str) -> Decimal {
    Decimal::parse(text).unwrap()
}

#[test]
fn a_signature_is_the_known_one() {
    assert_eq!(
        sign("Jefe", "what do ya want for nothing?"),
        "5bdcc146bf60754e6a042426089575c75a003f089d2739839dec58b964ec3843"
    );
}

#[test]
fn a_signed_query_ends_with_the_signature_of_what_stands_before() {
    let q = signed_query_at("s", vec![("symbol", "ETHUSDC".to_string())], 5000, 1_700_000_000_000);
    let head = "symbol=ETHUSDC&timestamp=1700000000000&recvWindow=5000";
    assert_eq!(q, format!("{head}&signature={}", sign("s", head)));
    assert_eq!(build_query(&[]), "");
    let c = Credentials::new("k", "s");
    assert_eq!(
        c.sign_params_at(vec![("symbol", "ETHUSDC".to_string())], 5000, 1_700_000_000_000),
        q
    );
    assert!(c.sign_params(vec![], 5000).unwrap().contains("&signature="));
}

#[test]
fn a_header_comes_before_a_message() {
    let body = format!("IP banned until {}.", NOW + 9_000);
    assert_eq!(wait_after_limit(Some("3"), &body, NOW), 3_000);
    assert_eq!(wait_after_limit(None, &body, NOW), 9_000);
    assert_eq!(wait_after_limit(Some("x"), "", NOW), DEFAULT_RETRY_AFTER_MS);
    match classify_api_error_with(418, RateLimitHint { retry_after: None, body: &body }, NOW) {
        ExchangeError::RateLimited { retry_after_ms } => assert_eq!(retry_after_ms, 9_000),
        other => panic!("{other:?}"),
    }
}

#[test]
fn answers_are_sorted_by_what_they_leave_open() {
    let err = |code: i64| Some(BinanceError { code, msg: "m".to_string() });
    assert_eq!(
        sort_answer(503, "b", err(-5022), 0),
        ExchangeError::Unknown("HTTP 503：b".to_string())
    );
    assert_eq!(
        sort_answer(400, "b", err(-5022), 0),
        ExchangeError::Rejected(RejectReason::PostOnlyWouldCross)
    );
    assert_eq!(
        sort_answer(403, "b", err(-1), 0),
        ExchangeError::Fatal("凭据或权限问题：m".to_string())
    );
    assert_eq!(
        sort_answer(400, "b", err(-1), 0),
        ExchangeError::Definitive("币安拒绝（-1）：m".to_string())
    );
    assert_eq!(
        sort_answer(404, "b", None, 0),
        ExchangeError::Definitive("HTTP 404：b".to_string())
    );
    assert_eq!(
        sort_answer(429, "b", None, 77),
        ExchangeError::RateLimited { retry_after_ms: 77 }
    );
    assert_eq!(
        classify_api_error(400, "not json"),
        ExchangeError::Definitive("HTTP 400：not json".to_string())
    );
    assert_eq!(
        BinanceError::read(r#"{"code":-7,"msg":"x"}"#),
        Some(BinanceError { code: -7, msg: "x".to_string() })
    );
}

#[test]
fn refusal_codes_are_known() {
    assert_eq!(reject_reason_from_code(-4003, "q"), Some(RejectReason::InvalidQuantity));
    assert_eq!(reject_reason_from_code(0, "q"), None);
}

#[test]
fn a_request_of_unsure_outcome_is_never_definitive() {
    for (method, how, definitive) in [
        (Method::Post, Transport::Timeout, false),
        (Method::Post, Transport::Other, false),
        (Method::Post, Transport::Connect, true),
        (Method::Get, Transport::Timeout, false),
        (Method::Get, Transport::Other, false),
        (Method::Get, Transport::Connect, true),
        (Method::Delete, Transport::Timeout, false),
        (Method::Delete, Transport::Other, false),
        (Method::Delete, Transport::Connect, true),
    ] {
        let e = transport_failure(method, how, "x");
        assert_eq!(e.retryable_without_reconcile(), definitive, "{method:?} {how:?}");
    }
    assert_eq!(Transport::Timeout.kind(), "timeout");
}

fn creds() -> Credentials {
    Credentials::new("key", "secret")
}

#[test]
fn nothing_is_sent_while_requests_are_limited() {
    let mut c = BinanceClient::signed(PRODUCTION_URL, creds(), Mode::Live).unwrap();
    assert!(c.begin_signed_at("/fapi/v1/order", vec![], NOW, 1).is_ok());
    let e = c.finish(429, Some("5"), "slow down".to_string(), NOW).unwrap_err();
    assert_eq!(e, ExchangeError::RateLimited { retry_after_ms: 5_000 });
    for later in [NOW, NOW + 4_999] {
        assert!(matches!(
            c.begin_public("/p", "q", 0, later),
            PublicStep::Refused(ExchangeError::RateLimited { .. })
        ));
        assert!(c.begin_signed_at("/fapi/v1/order", vec![], later, 1).is_err());
    }
    assert_eq!(
        c.begin_public("/p", "q", 0, NOW + 5_000),
        PublicStep::Send { url: "https://fapi.binance.com/p?q".to_string() }
    );
    assert_eq!(c.cooldown_remaining_ms(NOW + 1_000), Some(4_000));
    assert_eq!(c.finish(200, None, "ok".to_string(), NOW + 5_000), Ok("ok".to_string()));
    assert_eq!(c.cooldown_remaining_ms(NOW), None);
}

#[test]
fn an_answer_is_kept_until_it_runs_out() {
    let mut c = BinanceClient::public(TESTNET_URL).unwrap();
    c.keep("/p", "q", "body", 1_000, NOW);
    assert_eq!(c.begin_public("/p", "q", 1_000, NOW + 999), PublicStep::Answer("body".to_string()));
    assert!(matches!(c.begin_public("/p", "q", 1_000, NOW + 1_000), PublicStep::Send { .. }));
    assert!(matches!(c.begin_public("/p", "q", 0, NOW), PublicStep::Send { .. }));
    c.keep("/p", "q", "body", 0, NOW);
    assert!(matches!(c.begin_public("/p", "r", 1_000, NOW), PublicStep::Send { .. }));
    c.arm_cooldown(60_000, NOW);
    assert_eq!(c.begin_public("/p", "q", 1_000, NOW), PublicStep::Answer("body".to_string()));
}

#[test]
fn a_cache_drops_what_has_run_out() {
    let mut m = MarketCache::new();
    m.put("a".to_string(), "1".to_string(), 10, NOW);
    m.put("b".to_string(), "2".to_string(), 100, NOW + 50);
    assert_eq!(m.get("a", NOW + 9), None);
    assert_eq!(m.get("b", NOW + 149), Some("2".to_string()));
    assert_eq!(m.get("b", NOW + 150), None);
}

#[test]
fn clients_are_made_for_signing_hosts_only() {
    assert!(BinanceClient::public("http://127.0.0.1:9999").is_err());
    assert!(BinanceClient::signed("https://fstream.binance.com", creds(), Mode::Live).is_err());
    let c = BinanceClient::from_settings(Some(creds()), None).unwrap();
    assert!(c.is_signed() && c.require_creds().is_ok());
    assert_eq!(c.base_url(), TESTNET_URL);
    let c = BinanceClient::from_settings(Some(creds()), Some(PRODUCTION_URL.to_string())).unwrap();
    assert_eq!(c.base_url(), PRODUCTION_URL);
    assert!(BinanceClient::from_settings(None, None).is_err());
    let mut limited = Cooldown::new();
    limited.arm_ms(1_000, NOW);
    let c = BinanceClient::public_with_cooldown(PRODUCTION_URL, limited.clone()).unwrap();
    assert_eq!(c.cooldown_remaining_ms(NOW), Some(1_000));
    assert_eq!(c.cooldown().remaining_ms(NOW), Some(1_000));
    let c =
        BinanceClient::signed_with_cooldown(PRODUCTION_URL, creds(), Mode::Live, limited).unwrap();
    assert!(c.begin_signed("/fapi/v1/order", vec![], NOW).is_err());
    assert!(c.begin_signed("/fapi/v1/order", vec![], NOW + 1_000).is_ok());
}

#[test]
fn clients_with_clones_of_one_wait_stop_together() {
    let wait = Cooldown::new();
    let mut a = BinanceClient::public_with_cooldown(PRODUCTION_URL, wait.clone()).unwrap();
    let b =
        BinanceClient::signed_with_cooldown(PRODUCTION_URL, creds(), Mode::Live, wait).unwrap();
    assert!(a.finish(429, Some("5"), "slow down".to_string(), NOW).is_err());
    assert_eq!(b.cooldown_remaining_ms(NOW), Some(5_000));
    assert!(matches!(b.begin_public("/p", "", 0, NOW), PublicStep::Refused(_)));
    assert!(b.begin_signed_at("/fapi/v1/order", vec![], NOW, 1).is_err());
    assert!(b.begin_signed_at("/fapi/v1/order", vec![], NOW + 5_000, 1).is_ok());
}

#[test]
fn a_client_waits_with_others() {
    let c = BinanceClient::signed(PRODUCTION_URL, creds(), Mode::Live).unwrap();
    let until = NOW as u64 + 10;
    assert_eq!(
        c.begin_public_with("/p", "", 0, NOW, until),
        PublicStep::Refused(ExchangeError::RateLimited { retry_after_ms: 10 })
    );
    assert!(matches!(c.begin_public_with("/p", "", 0, NOW + 10, until), PublicStep::Send { .. }));
    assert_eq!(
        c.begin_signed_with("/fapi/v1/order", vec![], NOW, 1, until),
        Err(ExchangeError::RateLimited { retry_after_ms: 10 })
    );
    assert!(c.begin_signed_with("/fapi/v1/order", vec![], NOW, 1, 0).is_ok());
}

#[test]
fn an_order_is_sent_with_its_fields_in_order() {
    let r = OrderRequest::conditional(
        "ETHUSDC",
        Side::Sell,
        dec("0.1"),
        dec("3000"),
        dec("2999"),
        "mm:1:stop",
        true,
    );
    assert_eq!(
        build_query(&r.params()),
        "symbol=ETHUSDC&side=SELL&type=STOP&quantity=0.1&newClientOrderId=mm:1:stop\
         &newOrderRespType=RESULT&price=2999&timeInForce=GTC&reduceOnly=true&stopPrice=3000\
         &workingType=MARK_PRICE&priceProtect=true"
    );
    assert_eq!(
        build_query(&order_params("ETHUSDC", "mm:1")),
        "symbol=ETHUSDC&origClientOrderId=mm:1"
    );
    assert_eq!(
        build_query(&cross_margin_params("ETHUSDC")),
        "symbol=ETHUSDC&marginType=CROSSED"
    );
    assert_eq!((side_tag(Side::Buy), side_tag(Side::Sell)), ("BUY", "SELL"));
}

const ORDER: &str = r#"{"orderId":7,"clientOrderId":"mm:1","status":"FILLED","avgPrice":"3200.5",
    "executedQty":"0.1","price":"3200"}"#;

#[test]
fn orders_are_read_from_answers() {
    let a = read_submitted(ORDER).unwrap();
    assert_eq!((a.exchange_order_id.as_str(), a.status.as_str()), ("7", "FILLED"));
    assert_eq!((a.avg_price, a.executed_qty), (dec("3200.5"), dec("0.1")));
    assert!(matches!(read_submitted("[1,2,3,4]"), Err(ExchangeError::Unknown(_))));
    assert_eq!(read_queried(Ok(ORDER.to_string())), Ok(Some(a)));
    let missing = ExchangeError::Definitive("币安拒绝（-2013）：no".to_string());
    assert_eq!(read_queried(Err(missing)), Ok(None));
    let other = ExchangeError::Definitive("x".to_string());
    assert_eq!(read_queried(Err(other.clone())), Err(other.clone()));
    assert_eq!(read_cancelled(Ok("{}".to_string())), Ok(()));
    let gone = ExchangeError::Definitive("币安拒绝（-2011）：no".to_string());
    assert_eq!(read_cancelled(Err(gone)), Ok(()));
    assert_eq!(read_cancelled(Err(other.clone())), Err(other));
    let resp = OrderResponse::read(ORDER).unwrap();
    assert_eq!(AcceptedOrder::try_from(resp).unwrap().client_order_id, "mm:1");
}

const INFO: &str = r#"{"symbols":[{"symbol":"ETHUSDC","contractType":"PERPETUAL","status":"TRADING",
    "baseAsset":"ETH","quoteAsset":"USDC","marginAsset":"USDC","maintMarginPercent":"2.5",
    "requiredMarginPercent":"5","liquidationFee":"0.0125","orderTypes":["LIMIT"],
    "filters":[{"filterType":"PRICE_FILTER","tickSize":"0.01"},
    {"filterType":"LOT_SIZE","stepSize":"0.001","minQty":"0.002"},
    {"filterType":"MIN_NOTIONAL","notional":"5"}]},{"symbol":"BAD"}]}"#;

#[test]
fn contracts_are_read_from_answers() {
    let (map, faults) = read_exchange_info(INFO).unwrap();
    assert_eq!((map.len(), faults.len()), (1, 1));
    assert_eq!(map.get("ETHUSDC").unwrap().precision.min_qty, dec("0.002"));
    let c = read_contract(INFO, "ETHUSDC").unwrap();
    assert!(c.is_trading());
    assert!(read_contract(INFO, "BAD").is_err());
    assert!(read_contract("no json", "ETHUSDC").unwrap_err().is_fatal());
    let resp = ExchangeInfoResponse::read(INFO).unwrap();
    assert_eq!(find_contract(&resp, "ETHUSDC").unwrap(), c);
    assert_eq!(parse_contract(&resp.symbols[0]).unwrap(), c);
    assert_eq!(parse_all_contracts(&resp).1.len(), 1);
}

#[test]
fn fees_are_read_from_answers() {
    let f = read_account_fees(
        r#"{"makerCommissionRate":"0.02","takerCommissionRate":"0.05"}"#,
        NOW,
    );
    match f {
        Ok(f) => {
            assert_eq!((f.source, f.observed_at), (FeeSource::ExchangeAccount, NOW));
        }
        Err(e) => assert!(e.is_fatal()),
    }
    assert!(read_account_fees("[", NOW).unwrap_err().is_fatal());
}

#[test]
fn balances_of_other_assets_are_not_added() {
    let all = vec![
        ("USDT".to_string(), "5".to_string()),
        ("USDC".to_string(), "7.5".to_string()),
        ("USDC".to_string(), "9".to_string()),
    ];
    assert_eq!(balance_of_asset(&all, "USDC"), dec("7.5"));
    assert_eq!(balance_of_asset(&all, "BNB"), Decimal::zero());
}

#[test]
fn an_error_is_noted_with_its_code_or_its_beginning() {
    let e = BinanceError { code: -3, msg: "m".to_string() };
    assert_eq!(noted_error(Some(e), "b"), (Some(-3), "m".to_string()));
    assert_eq!(noted_error(None, "短"), (None, "短".to_string()));
    assert_eq!(binance_error_fields("x").0, None);
}

#[test]
fn quotes_are_asked_for_within_limits() {
    assert_eq!(
        klines_query("ETHUSDC", Interval::M15, 0, None),
        ("symbol=ETHUSDC&interval=15m&limit=1".to_string(), KLINES_TTL_MS)
    );
    assert_eq!(
        klines_query("ETHUSDC", Interval::H1, 9_999, Some(5)),
        ("symbol=ETHUSDC&interval=1h&limit=1500&endTime=5".to_string(), HISTORY_TTL_MS)
    );
    for (asked, offered) in [(0, 5), (5, 5), (6, 10), (21, 50), (101, 500), (501, 1000)] {
        assert_eq!(depth_limit(asked), offered);
    }
    assert_eq!(depth_query("ETHUSDC", 7), "symbol=ETHUSDC&limit=10");
    assert!(klines_failure("X", ExchangeError::Definitive("-1121".to_string())).is_fatal());
    let other = ExchangeError::Definitive("y".to_string());
    assert_eq!(klines_failure("X", other.clone()), other);
}

#[test]
fn quotes_are_read_from_answers() {
    let rows = read_klines(
        r#"[[1750000000000,"1","2","0.5","1.5","10",1750000059999,"0",3]]"#,
        1_750_000_060_000,
    )
    .unwrap();
    assert_eq!(rows.len(), 1);
    assert_eq!((rows[0].open_time, rows[0].close), (1_750_000_000_000, dec("1.5")));
    assert!(rows[0].closed);
    assert!(read_klines("{}", NOW).unwrap_err().is_fatal());
    let book = read_depth(r#"{"bids":[["1.5","2"],["x","1"]],"asks":[]}"#, NOW).unwrap();
    assert_eq!((book.bid, book.ask, book.bids.len()), (dec("1.5"), Decimal::zero(), 1));
    assert!(read_depth(r#"{"bids":[]}"#, NOW).is_err());
    assert_eq!(read_mark_price(r#"{"markPrice":"3200.1"}"#).unwrap().get(), dec("3200.1"));
    assert!(read_mark_price("[]x").is_err());
    let level = |p: &str| (p.to_string(), "1".to_string());
    let b = book_from(&vec![level("2"), level("1")], &vec![level("3")], NOW);
    assert_eq!((b.bid, b.ask, b.at), (dec("2"), dec("3"), NOW));
    assert_eq!(best_price(&vec![]), Decimal::zero());
}

#[test]
fn an_interval_is_read_from_its_own_name_only() {
    for i in [Interval::M1, Interval::M5, Interval::M15, Interval::H1, Interval::D1] {
        assert_eq!(Interval::parse(i.as_str()), Some(i));
        assert_eq!(Interval::parse(&format!("{} ", i.as_str())), None);
    }
}

#[test]
fn answers_may_be_lists_of_fields_and_name_no_field_twice() {
    let r = OrderResponse::read(r#"[7,"mm:1","NEW","0","0","0"]"#).unwrap();
    assert_eq!((r.order_id, r.client_order_id.as_str()), (7, "mm:1"));
    assert!(OrderResponse::read(r#"{"orderId":"7"}"#).is_err());
    assert!(OrderResponse::read(r#"{"orderId":1.5}"#).is_err());
    assert!(OrderResponse::read(r#"{"unknown":[1,{"a":null}]}"#).is_ok());
}
