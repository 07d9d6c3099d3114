use maker_desk::decimal::Decimal;
use maker_desk::instrument::{ContractKind, FeeSchedule, FeeSource, Instrument};
use maker_desk::market::Candle;
use maker_desk::order::Side;
use maker_desk::precision::Precision;
use maker_desk::risk::{
    check_entry, feed_is_fresh, liquidation_warning, reference_range, resolve_exit_prices,
    RiskLimits, RiskVerdict,
};
use maker_desk::strategy::StandDownReason;

const NOW: i64 = 1_750_000_000_000;

fn dec(text: &str) -> Decimal {
    Decimal::parse(text).unwrap()
}


fn instr() -> Instrument {
    Instrument {
        symbol: "ETHUSDC".into(),
        kind: ContractKind::CryptoPerp,
        base_asset: "ETH".into(),
        quote_asset: "USDC".into(),
        margin_asset: "USDC".into(),
        settlement_asset: "USDC".into(),
        precision: Precision {
            tick_size: dec("0.01"),
            step_size: dec("0.001"),
            min_qty: dec("0.001"),
            min_notional: dec("5"),
        },
        maint_margin_pct: dec("2.5"),
        required_margin_pct: dec("5"),
        liquidation_fee: dec("0.0125"),
        fees: FeeSchedule {
            maker_rate: Decimal::zero(),
            taker_rate: dec("0.0005"),
            source: FeeSource::PromotionalAssumed,
            observed_at: NOW,
        },
    }
}

fn candle(open_time_secs: i64, low: Decimal, high: Decimal) -> Candle {
    Candle {
        open_time: open_time_secs * 1000,
        open: low,
        high,
        low,
        close: high,
        volume: dec("1"),
        closed: true,
    }
}

#[test]
fn default_reward_risk_suits_market_making_not_directional_trading() {
    let l = RiskLimits::default();
    assert_eq!(
        l.min_reward_risk,
        Decimal::one(),
        "做市策略的盈亏比天然接近 1:1，默认要求高于此会让挂单普遍被拒"
    );

    let i = instr();
    let v = check_entry(
        &i,
        Side::Buy,
        dec("3200"),
        dec("3199.36"), // 2bp
        dec("3201.28"), // 4bp
        dec("3"),
        &l,
    );
    assert!(v.is_pass(), "典型做市参数应通过：{v:?}");

    let v2 = check_entry(
        &i,
        Side::Buy,
        dec("3200"),
        dec("3198.72"), // 4bp
        dec("3201.28"), // 4bp
        dec("3"),
        &l,
    );
    assert!(v2.is_pass(), "1:1 的做市参数应通过：{v2:?}");
}

#[test]
fn reasonable_entry_passes_all_checks() {
    let i = instr();
    let v = check_entry(
        &i,
        Side::Buy,
        dec("3200"),
        dec("3190"), // 0.3125% 距离
        dec("3240"), // 盈亏比 (40/10) = 4
        dec("10"),
        &RiskLimits::default(),
    );
    assert!(v.is_pass(), "合理参数应通过：{v:?}");
}

#[test]
fn stop_on_wrong_side_is_rejected() {
    let i = instr();
    let v = check_entry(
        &i,
        Side::Buy,
        dec("3200"),
        dec("3210"),
        dec("3240"),
        dec("10"),
        &RiskLimits::default(),
    );
    assert_eq!(v, RiskVerdict::Reject(StandDownReason::StopTooWide));
}

#[test]
fn too_wide_stop_is_rejected() {
    let i = instr();
    let v = check_entry(
        &i,
        Side::Buy,
        dec("3200"),
        dec("3168"),
        dec("3240"),
        dec("10"),
        &RiskLimits::default(),
    );
    assert_eq!(v, RiskVerdict::Reject(StandDownReason::StopTooWide));
}

#[test]
fn stop_too_close_to_liquidation_is_rejected_with_correct_margin() {
    let i = instr();
    let v = check_entry(
        &i,
        Side::Buy,
        dec("3200"),
        dec("3150"),
        dec("3400"),
        dec("20"),
        &RiskLimits::default(),
    );
    assert!(!v.is_pass());

    let loose = RiskLimits {
        max_stop_pct: dec("5"),
        ..RiskLimits::default()
    };
    let v2 = check_entry(
        &i,
        Side::Buy,
        dec("3200"),
        dec("3150"),
        dec("3400"),
        dec("20"),
        &loose,
    );
    assert!(v2.is_pass(), "止损 3150 在强平 3120 之前，应通过：{v2:?}");

    let v3 = check_entry(
        &i,
        Side::Buy,
        dec("3200"),
        dec("3110"),
        dec("3400"),
        dec("20"),
        &loose,
    );
    assert_eq!(
        v3,
        RiskVerdict::Reject(StandDownReason::StopInsideLiquidation)
    );
}

#[test]
fn poor_reward_risk_is_rejected() {
    let i = instr();
    let v = check_entry(
        &i,
        Side::Buy,
        dec("3200"),
        dec("3190"),
        dec("3205"),
        dec("10"),
        &RiskLimits::default(),
    );
    assert_eq!(v, RiskVerdict::Reject(StandDownReason::RiskRewardTooLow));
}

#[test]
fn short_side_checks_are_mirrored() {
    let i = instr();
    let v = check_entry(
        &i,
        Side::Sell,
        dec("3200"),
        dec("3210"),
        dec("3160"),
        dec("10"),
        &RiskLimits::default(),
    );
    assert!(v.is_pass(), "空头合理参数应通过：{v:?}");
}

#[test]
fn feed_freshness_uses_shared_threshold() {
    let limits = RiskLimits::default();
    let now = NOW;
    assert!(feed_is_fresh(
        Some(now - 5000),
        now,
        &limits
    ));
    assert!(!feed_is_fresh(
        Some(now - 16000),
        now,
        &limits
    ));
    assert!(
        !feed_is_fresh(None, now, &limits),
        "从未收到行情时必须视为不新鲜"
    );
}

#[test]
fn reference_range_uses_high_low_of_window() {
    let candles: Vec<Candle> = (0..10)
        .map(|i| {
            candle(
                60 * i,
                dec("100") + Decimal::from_int(i),
                dec("110") + Decimal::from_int(i),
            )
        })
        .collect();
    let r = reference_range(&candles, 5).unwrap();
    assert_eq!(r.low, dec("105"));
    assert_eq!(r.high, dec("119"));
    assert_eq!(r.width(), dec("14"));
}

#[test]
fn reference_range_ignores_unclosed_candles() {
    let mut candles: Vec<Candle> = (0..5)
        .map(|i| candle(60 * i, dec("100"), dec("110")))
        .collect();
    candles.push(Candle {
        open_time: 600 * 1000,
        open: dec("1"),
        high: dec("9999"),
        low: dec("1"),
        close: dec("1"),
        volume: dec("1"),
        closed: false,
    });
    let r = reference_range(&candles, 5).unwrap();
    assert_eq!(r.high, dec("110"), "未收盘 K 线的极值必须被忽略");
}

#[test]
fn reference_range_needs_enough_candles() {
    let candles: Vec<Candle> = (0..3)
        .map(|i| candle(60 * i, dec("100"), dec("110")))
        .collect();
    assert!(reference_range(&candles, 5).is_none());
}

#[test]
fn degenerate_range_is_rejected() {
    let candles: Vec<Candle> = (0..5)
        .map(|i| candle(60 * i, dec("100"), dec("100")))
        .collect();
    assert!(reference_range(&candles, 5).is_none());
}

#[test]
fn exit_prices_mirror_by_side() {
    let (stop, tp) = resolve_exit_prices(Side::Buy, dec("3200"), dec("0.005"), dec("0.01"));
    assert_eq!(stop, dec("3184"));
    assert_eq!(tp, dec("3232"));

    let (stop, tp) = resolve_exit_prices(Side::Sell, dec("3200"), dec("0.005"), dec("0.01"));
    assert_eq!(stop, dec("3216"));
    assert_eq!(tp, dec("3168"));
}

#[test]
fn liquidation_warning_flags_tight_buffers() {
    let i = instr();
    let w = liquidation_warning(&i, Side::Buy, dec("3200"), dec("3121"), dec("20"));
    assert!(w.liquidation_price.is_some());
    assert!(w.dangerous, "止损距强平 1 点应标为危险：{w:?}");

    let w2 = liquidation_warning(&i, Side::Buy, dec("3200"), dec("3150"), dec("20"));
    assert!(!w2.dangerous);
}
