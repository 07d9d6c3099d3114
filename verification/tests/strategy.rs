use maker_desk::decimal::Decimal;
use maker_desk::money::Price;
use maker_desk::precision::Precision;
use maker_desk::strategy::{resolve_size, SizeHint, StandDownReason};

fn dec(text: &str) -> Decimal {
    Decimal::parse(text).unwrap()
}


fn prec() -> Precision {
    Precision {
        tick_size: dec("0.01"),
        step_size: dec("0.001"),
        min_qty: dec("0.001"),
        min_notional: dec("5"),
    }
}

#[test]
fn equity_fraction_size_is_quantized_down() {
    let qty = resolve_size(
        SizeHint::EquityFraction {
            pct: dec("0.1"),
            leverage: dec("3"),
        },
        Price::new(dec("3200")),
        dec("10000"),
        &prec(),
    )
    .unwrap();
    assert_eq!(qty.get(), dec("0.937"));
}

#[test]
fn insufficient_equity_yields_none_not_a_zero_order() {
    let got = resolve_size(
        SizeHint::EquityFraction {
            pct: dec("0.0001"),
            leverage: dec("1"),
        },
        Price::new(dec("3200")),
        dec("1"),
        &prec(),
    );
    assert!(got.is_none(), "量化后为零不能下单，应返回 None");
}

#[test]
fn fixed_size_is_respected() {
    let qty = resolve_size(
        SizeHint::Fixed(dec("1.2345")),
        Price::new(dec("100")),
        dec("0"),
        &prec(),
    )
    .unwrap();
    assert_eq!(qty.get(), dec("1.234"));
}

#[test]
fn zero_price_does_not_panic() {
    let got = resolve_size(
        SizeHint::EquityFraction {
            pct: dec("0.1"),
            leverage: dec("1"),
        },
        Price::new(dec("0")),
        dec("10000"),
        &prec(),
    );
    assert!(got.is_none());
}

#[test]
fn every_stand_down_reason_has_a_message() {
    for r in [
        StandDownReason::StaleFeed,
        StandDownReason::FeedDisconnected,
        StandDownReason::InsufficientHistory,
        StandDownReason::CandleNotClosed,
        StandDownReason::AlreadyEngaged,
        StandDownReason::SignalAlreadyUsed,
        StandDownReason::StopTooWide,
        StandDownReason::StopInsideLiquidation,
        StandDownReason::RiskRewardTooLow,
        StandDownReason::InsufficientEquity,
        StandDownReason::InsufficientMargin,
        StandDownReason::MarginAssetMismatch,
        StandDownReason::OutsideTradingHours,
    ] {
        assert!(!r.message().is_empty(), "{r:?} 缺少说明");
    }
}
