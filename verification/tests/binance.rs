use maker_desk::binance::{
    check_trigger_protect, classify_api_error, fee_schedule_from_account, find_contract,
    parse_all_contracts, parse_contract, reject_reason_from_code, AcceptedOrder,
    AccountFeeResponse, ContractSpec, ExchangeInfoResponse, OrderRequest, OrderResponse, RawSymbol,
    TriggerProtectVerdict,
};
use maker_desk::decimal::Decimal;
use maker_desk::error::{ExchangeError, RejectReason};
use maker_desk::instrument::{ContractKind, FeeSchedule, FeeSource};
use maker_desk::order::Side;
use maker_desk::precision::Precision;

const NOW: i64 = 1_750_000_000_000;

fn dec(text: &str) -> Decimal {
    Decimal::parse(text).unwrap()
}


fn spec() -> ContractSpec {
    ContractSpec {
        symbol: "ETHUSDC".into(),
        contract_type: "PERPETUAL".into(),
        base_asset: "ETH".into(),
        quote_asset: "USDC".into(),
        margin_asset: "USDC".into(),
        status: "TRADING".into(),
        precision: Precision {
            tick_size: dec("0.01"),
            step_size: dec("0.001"),
            min_qty: dec("0.001"),
            min_notional: dec("5"),
        },
        maint_margin_pct: dec("2.5"),
        required_margin_pct: dec("5"),
        liquidation_fee: dec("0.0125"),
        trigger_protect: Some(dec("0.05")),
        order_types: vec!["LIMIT".into(), "MARKET".into(), "STOP".into()],
        onboard_ms: None,
    }
}

fn raw_symbol() -> RawSymbol {
    let value: serde_json::Value = serde_json::from_str(
        r#"{
            "symbol": "ETHUSDC",
            "contractType": "PERPETUAL",
            "status": "TRADING",
            "baseAsset": "ETH",
            "quoteAsset": "USDC",
            "marginAsset": "USDC",
            "maintMarginPercent": "2.5000",
            "requiredMarginPercent": "5.0000",
            "liquidationFee": "0.012500",
            "triggerProtect": "0.0500",
            "orderTypes": ["LIMIT","MARKET","STOP","GTX"],
            "onboardDate": 1775569200000,
            "filters": [
                {"filterType":"PRICE_FILTER","tickSize":"0.01"},
                {"filterType":"LOT_SIZE","stepSize":"0.001","minQty":"0.001"},
                {"filterType":"MIN_NOTIONAL","notional":"5"}
            ]
        }"#,
    )
    .unwrap();
    RawSymbol::read(&value).unwrap()
}

#[test]
fn parses_contract_rules_from_exchange_info() {
    let c = parse_contract(&raw_symbol()).unwrap();
    assert_eq!(c.symbol, "ETHUSDC");
    assert_eq!(c.precision.tick_size, dec("0.01"));
    assert_eq!(c.precision.step_size, dec("0.001"));
    assert_eq!(c.precision.min_notional, dec("5"));
    assert_eq!(c.trigger_protect, Some(dec("0.05")));
    assert_eq!(c.onboard_ms, Some(1775569200000));
}

#[test]
fn maintenance_margin_is_read_from_exchange_not_hardcoded() {
    let c = parse_contract(&raw_symbol()).unwrap();
    assert_eq!(
        c.maint_margin_pct,
        dec("2.5"),
        "必须用交易所返回的 2.5%，不是硬编码的 0.4%"
    );
    assert_eq!(c.required_margin_pct, dec("5"));
    assert_eq!(c.liquidation_fee, dec("0.0125"));
}

#[test]
fn trigger_protect_rejects_close_triggers() {
    let s = spec();
    let v = check_trigger_protect(&s, dec("3199"), dec("3200"));
    assert!(!v.is_ok(), "近价位触发必须被识别");
    match v {
        TriggerProtectVerdict::TooClose { distance, required } => {
            assert_eq!(required, dec("0.05"));
            assert!(distance < required);
        }
        _ => panic!("应为 TooClose"),
    }
}

#[test]
fn trigger_protect_allows_far_triggers() {
    let s = spec();
    assert!(check_trigger_protect(&s, dec("3000"), dec("3200")).is_ok());
    assert!(check_trigger_protect(&s, dec("3400"), dec("3200")).is_ok());
}

#[test]
fn absent_trigger_protect_imposes_no_limit() {
    let mut s = spec();
    s.trigger_protect = None;
    assert!(check_trigger_protect(&s, dec("3199"), dec("3200")).is_ok());
}

#[test]
fn zero_mark_price_does_not_panic() {
    let s = spec();
    assert!(check_trigger_protect(&s, dec("100"), Decimal::zero()).is_ok());
}

#[test]
fn contract_converts_to_instrument() {
    let c = parse_contract(&raw_symbol()).unwrap();
    let fees = FeeSchedule {
        maker_rate: Decimal::zero(),
        taker_rate: dec("0.0005"),
        source: FeeSource::ExchangeAccount,
        observed_at: NOW,
    };
    let i = c.to_instrument(fees);
    assert_eq!(i.symbol, "ETHUSDC");
    assert_eq!(i.kind, ContractKind::CryptoPerp);
    assert_eq!(i.settlement_asset, "USDC");
    assert_eq!(i.maint_margin_pct, dec("2.5"));
}

#[test]
fn tradfi_contract_type_is_recognized() {
    let mut raw = raw_symbol();
    raw.contract_type = "TRADIFI_PERPETUAL".into();
    let c = parse_contract(&raw).unwrap();
    let fees = FeeSchedule {
        maker_rate: Decimal::zero(),
        taker_rate: dec("0.0005"),
        source: FeeSource::PromotionalAssumed,
        observed_at: NOW,
    };
    assert_eq!(c.to_instrument(fees).kind, ContractKind::TradFiPerp);
}

#[test]
fn missing_required_filter_is_an_error() {
    let mut raw = raw_symbol();
    raw.filters.retain(|f| f.filter_type != "PRICE_FILTER");
    let err = parse_contract(&raw).unwrap_err().message();
    assert!(err.contains("tickSize"), "{err}");
}

#[test]
fn fee_schedule_from_account_is_authoritative() {
    let resp = AccountFeeResponse {
        maker_commission: "0".into(),
        taker_commission: "0.05".into(),
    };
    let f = fee_schedule_from_account(&resp, NOW);
    assert_eq!(f.maker_rate, Decimal::zero(), "零费率活动下 maker 应为 0");
    assert_eq!(f.taker_rate, dec("0.0005"), "0.05% 转成比例是 0.0005");
    assert_eq!(f.source, FeeSource::ExchangeAccount);
    assert!(f.source.is_authoritative(), "账户来源是权威费率");
}

#[test]
fn post_only_rejection_is_recognized() {
    let r = reject_reason_from_code(-5022, "Order would immediately match and take.");
    assert_eq!(r, Some(RejectReason::PostOnlyWouldCross));
}

#[test]
fn other_rejection_codes_are_mapped() {
    assert_eq!(
        reject_reason_from_code(-2019, "Margin is insufficient."),
        Some(RejectReason::InsufficientMargin)
    );
    assert_eq!(
        reject_reason_from_code(-4140, "Symbol not trading."),
        Some(RejectReason::InstrumentNotTrading)
    );
    assert_eq!(reject_reason_from_code(-9999, "unknown"), None);
}

#[test]
fn server_errors_are_classified_as_unknown() {
    let e = classify_api_error(500, "internal error");
    assert!(matches!(e, ExchangeError::Unknown(_)));
    assert!(
        !e.retryable_without_reconcile(),
        "状态未知时不能直接重发订单"
    );
}

#[test]
fn rate_limit_is_classified_separately() {
    assert!(matches!(
        classify_api_error(429, "too many requests"),
        ExchangeError::RateLimited { .. }
    ));
    assert!(matches!(
        classify_api_error(418, "banned"),
        ExchangeError::RateLimited { .. }
    ));
}

#[test]
fn post_only_rejection_surfaces_as_rejected() {
    let body = r#"{"code":-5022,"msg":"Order would immediately match and take."}"#;
    let e = classify_api_error(400, body);
    assert!(matches!(
        e,
        ExchangeError::Rejected(RejectReason::PostOnlyWouldCross)
    ));
    assert!(!e.retryable_without_reconcile(), "被拒的单不该重试");
}

#[test]
fn auth_errors_are_fatal() {
    let body = r#"{"code":-2015,"msg":"Invalid API-key, IP, or permissions"}"#;
    let e = classify_api_error(401, body);
    assert!(e.is_fatal(), "凭据问题应停止交易：{e:?}");
}

#[test]
fn post_only_limit_order_uses_gtx() {
    let r = OrderRequest::post_only_limit(
        "ETHUSDC",
        Side::Buy,
        dec("0.1"),
        dec("3200"),
        "mm:1",
    );
    assert_eq!(r.order_type, "LIMIT");
    assert_eq!(r.time_in_force.as_deref(), Some("GTX"));
    assert_eq!(r.reduce_only, None, "开仓单不带 reduceOnly");
    assert_eq!(r.side, "BUY");
}

#[test]
fn exit_orders_are_reduce_only() {
    let r = OrderRequest::reduce_only_limit(
        "ETHUSDC",
        Side::Sell,
        dec("0.1"),
        dec("3210"),
        "mm:1:tp",
    );
    assert_eq!(r.reduce_only, Some(true));
    assert_eq!(r.time_in_force.as_deref(), Some("GTX"), "出场也用 maker");
}

#[test]
fn conditional_orders_use_mark_price_and_protection() {
    let r = OrderRequest::conditional(
        "ETHUSDC",
        Side::Sell,
        dec("0.1"),
        dec("3000"),
        dec("2999"),
        "mm:1:stop",
        true,
    );
    assert_eq!(r.order_type, "STOP");
    assert_eq!(r.working_type.as_deref(), Some("MARK_PRICE"));
    assert_eq!(r.price_protect, Some(true));
    assert_eq!(r.reduce_only, Some(true));
    assert_eq!(r.stop_price.as_deref(), Some("3000"));
}

#[test]
fn take_profit_conditional_uses_correct_type() {
    let r = OrderRequest::conditional(
        "ETHUSDC",
        Side::Sell,
        dec("0.1"),
        dec("3400"),
        dec("3401"),
        "mm:1:tp",
        false,
    );
    assert_eq!(r.order_type, "TAKE_PROFIT");
}

#[test]
fn order_response_is_parsed() {
    let resp = OrderResponse::read(
        r#"{"orderId":123456,"clientOrderId":"mm:1","status":"NEW","avgPrice":"0","executedQty":"0","price":"3200"}"#,
    )
    .unwrap();
    let a = AcceptedOrder::try_from(resp).unwrap();
    assert_eq!(a.exchange_order_id, "123456");
    assert_eq!(a.client_order_id, "mm:1");
    assert_eq!(a.status, "NEW");
}

#[test]
fn find_contract_locates_symbol() {
    let resp = ExchangeInfoResponse::read(r#"{"symbols":[{"symbol":"BTCUSDT"},{"symbol":"ETHUSDC"}]}"#)
            .unwrap();
    assert!(find_contract(&resp, "ETHUSDC").is_err());
    assert!(find_contract(&resp, "NOPE").is_err());
}

#[test]
fn parse_all_reports_individual_failures() {
    let resp = ExchangeInfoResponse::read(r#"{"symbols":[{"symbol":"ETHUSDC"},{"symbol":"BAD"}]}"#).unwrap();
    let (map, errors) = parse_all_contracts(&resp);
    assert!(map.len() == 0, "两条都缺过滤器");
    assert_eq!(errors.len(), 2, "每个失败都要被报告，不能静默跳过");
}
