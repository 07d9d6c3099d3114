use maker_desk::decimal::Decimal;
use maker_desk::error::{DomainError, ExchangeError, RejectReason};
use maker_desk::margin::MarginError;
use maker_desk::mode::ServiceMode;
use maker_desk::money::{Price, Qty};
use maker_desk::order::{OrderState, Side};
use maker_desk::precision::{Precision, PriceRole};
use maker_desk::signing::{endpoint_allowed, stamp_of, SignError};
use maker_desk::strategy::StandDownReason;

fn dec(text: &str) -> Decimal {
    Decimal::parse(text).unwrap()
}

fn rules() -> Precision {
    Precision {
        tick_size: dec("0.01"),
        step_size: dec("0.001"),
        min_qty: dec("0.001"),
        min_notional: dec("5"),
    }
}

#[test]
fn each_rule_on_prices_has_its_error() {
    let p = rules();
    let e = p.price_for(Side::Buy, dec("0"), PriceRole::PassiveEntry).unwrap_err();
    assert_eq!(e, DomainError::NonPositivePrice(dec("0")));
    assert_eq!(e.message(), "价格必须为正数，收到 0");

    let e = p.price_for(Side::Buy, dec("0.004"), PriceRole::PassiveEntry).unwrap_err();
    assert_eq!(e, DomainError::QuantizedToZero { raw: dec("0.004"), tick: dec("0.01") });
    assert_eq!(e.message(), "价格 0.004 按 tick 0.01 取整后为零");

    let broken = Precision { tick_size: dec("0"), ..rules() };
    let e = broken.price_for(Side::Sell, dec("1"), PriceRole::StopLoss).unwrap_err();
    assert_eq!(e, DomainError::InvalidTickSize(dec("0")));
    assert_eq!(e.message(), "tick_size 必须为正数，收到 0");
    assert_eq!(broken.price_or_raw(Side::Sell, dec("1.234"), PriceRole::StopLoss), dec("1.234"));
    assert_eq!(p.price_or_raw(Side::Sell, dec("1.234"), PriceRole::StopLoss), dec("1.23"));
}

#[test]
fn each_rule_on_quantities_has_its_error() {
    let p = rules();
    let e = p.quantity(dec("-1")).unwrap_err();
    assert_eq!(e, DomainError::NonPositiveQuantity(dec("-1")));
    assert_eq!(e.message(), "数量必须为正数，收到 -1");

    let e = p.quantity(dec("0.0009")).unwrap_err();
    assert_eq!(e, DomainError::QuantityBelowStep { raw: dec("0.0009"), step: dec("0.001") });
    assert_eq!(e.message(), "数量 0.0009 按 step 0.001 向下取整后为零");

    let broken = Precision { step_size: dec("-0.1"), ..rules() };
    let e = broken.quantity(dec("1")).unwrap_err();
    assert_eq!(e, DomainError::InvalidStepSize(dec("-0.1")));
    assert_eq!(e.message(), "step_size 必须为正数，收到 -0.1");
    assert_eq!(
        broken.quantity_or_zero(dec("1")).unwrap_err(),
        DomainError::InvalidStepSize(dec("-0.1"))
    );

    let e = p.check_order_size(Qty::new(dec("0.0005")), Price::new(dec("1"))).unwrap_err();
    assert_eq!(e, DomainError::BelowMinQty { qty: dec("0.0005"), min: dec("0.001") });
    assert_eq!(e.message(), "数量 0.0005 低于最小数量 0.001");

    let e = p.check_order_size(Qty::new(dec("0.001")), Price::new(dec("3200"))).unwrap_err();
    assert_eq!(e, DomainError::BelowMinNotional { notional: dec("3.2"), min: dec("5") });
    assert_eq!(e.message(), "名义价值 3.200 低于最小值 5");
}

#[test]
fn the_other_errors_say_what_they_hold() {
    assert_eq!(
        DomainError::StopTooWide("a".to_string()).message(),
        "止损距离超过风控上限：a"
    );
    assert_eq!(
        DomainError::UnknownReference("a".to_string()).message(),
        "订单引用了未知的持仓或保护单：a"
    );
    assert_eq!(DomainError::IllegalTransition("a".to_string()).message(), "非法状态迁移：a");
}

#[test]
fn refusals_have_names_and_messages() {
    let cases = [
        (
            RejectReason::PostOnlyWouldCross,
            "PostOnlyWouldCross",
            "post-only 会立即成交，已被交易所拒绝（5022）",
        ),
        (RejectReason::InsufficientMargin, "InsufficientMargin", "保证金不足"),
        (RejectReason::PriceOutOfRange, "PriceOutOfRange", "价格超出交易所允许区间"),
        (RejectReason::InvalidQuantity, "InvalidQuantity", "数量不满足交易所过滤器"),
        (RejectReason::InstrumentNotTrading, "InstrumentNotTrading", "合约已停止交易"),
        (
            RejectReason::Other("a\"b".to_string()),
            "Other(\"a\\\"b\")",
            "交易所拒单：a\"b",
        ),
    ];
    for (reason, name, message) in cases {
        assert_eq!(reason.name(), name);
        assert_eq!(reason.message(), message);
        assert_eq!(format!("{reason:?}"), name);
        assert_eq!(reason.clone(), reason);
    }
}

#[test]
fn failures_have_messages() {
    assert_eq!(
        ExchangeError::Definitive("x".to_string()).message(),
        "请求未送达，可安全重试：x"
    );
    assert_eq!(
        ExchangeError::Rejected(RejectReason::InsufficientMargin).message(),
        "订单被拒绝：保证金不足"
    );
    assert_eq!(
        ExchangeError::Unknown("x".to_string()).message(),
        "订单状态未知，必须先查询对账：x"
    );
    assert_eq!(
        ExchangeError::RateLimited { retry_after_ms: 1500 }.message(),
        "交易所限流，建议 1500 毫秒后重试"
    );
    assert_eq!(
        ExchangeError::Fatal("x".to_string()).message(),
        "致命错误，应停止交易：x"
    );
}

#[test]
fn signing_errors_have_messages() {
    assert_eq!(
        endpoint_allowed("https://evil.example/x").unwrap_err().message(),
        "endpoint 不在白名单内：evil.example。只允许币安官方的生产与测试网域名。"
    );
    assert_eq!(endpoint_allowed("nowhere").unwrap_err().message(), "URL 无法解析：nowhere");
    assert_eq!(stamp_of(None).unwrap_err(), SignError::ClockBeforeEpoch);
    assert_eq!(SignError::ClockBeforeEpoch.message(), "系统时钟早于 UNIX 纪元");
    assert_eq!(stamp_of(Some(1_750_000_000_000)), Ok(1_750_000_000_000));
    assert!(SignError::ClockBeforeEpoch.into_exchange_error().is_fatal());
}

#[test]
fn modes_and_margins_say_what_is_wrong() {
    assert_eq!(
        ServiceMode::parse("livex").unwrap_err().message(),
        "无法识别的模式「livex」：只接受 PAPER 或 LIVE（大小写不敏感）"
    );
    assert!(!MarginError::NonPositive.message().is_empty());
    assert_ne!(MarginError::NonPositive.message(), MarginError::AssetMismatch.message());
    assert_ne!(StandDownReason::StaleFeed.message(), StandDownReason::FeedDisconnected.message());
}

#[test]
fn final_states_have_the_names_that_a_record_shows() {
    let filled = Qty::new(dec("0.50"));
    let avg = Price::new(dec("3"));
    let cases = [
        (OrderState::PendingSubmit, ""),
        (OrderState::Live, ""),
        (OrderState::PartiallyFilled { filled, avg }, ""),
        (OrderState::Filled { filled, avg }, "Filled { filled: Qty(0.50), avg: Price(3) }"),
        (OrderState::Cancelled { filled }, "Cancelled { filled: Qty(0.50) }"),
        (
            OrderState::Rejected { reason: RejectReason::Other("n\n".to_string()) },
            "Rejected { reason: Other(\"n\\n\") }",
        ),
        (OrderState::Expired, "Expired"),
    ];
    for (state, name) in cases {
        assert_eq!(state.name(), name);
        assert_eq!(state.clone(), state);
    }
}
