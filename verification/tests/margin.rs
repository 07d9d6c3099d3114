use maker_desk::decimal::Decimal;
use maker_desk::instrument::{ContractKind, FeeSchedule, FeeSource, Instrument};
use maker_desk::margin::{
    cross_liquidation, initial_margin, CrossLiquidation, MarginAccount, MarginError, MarginMode,
    ObservedMarginMode,
};
use maker_desk::money::Qty;
use maker_desk::order::Side;
use maker_desk::precision::Precision;

const NOW: i64 = 1_750_000_000_000;

fn dec(text: &str) -> Decimal {
    Decimal::parse(text).unwrap()
}

/// To two places, half to even.
fn cents(d: Decimal) -> Decimal {
    let rounded = rust_decimal::Decimal::from_i128_with_scale(d.mantissa(), d.scale()).round_dp(2);
    Decimal::from_parts(rounded.mantissa(), rounded.scale()).unwrap()
}


fn instrument(maint_pct: Decimal) -> Instrument {
    Instrument {
        symbol: "ETHUSDC".into(),
        kind: ContractKind::CryptoPerp,
        base_asset: "ETH".into(),
        quote_asset: "USDC".into(),
        margin_asset: "USDC".into(),
        settlement_asset: "USDC".into(),
        precision: Precision {
            tick_size: dec("0.01"),
            step_size: dec("0.001"),
            min_qty: dec("0.001"),
            min_notional: dec("5"),
        },
        maint_margin_pct: maint_pct,
        required_margin_pct: dec("5"),
        liquidation_fee: dec("0.0125"),
        fees: FeeSchedule {
            maker_rate: Decimal::zero(),
            taker_rate: dec("0.0005"),
            source: FeeSource::PromotionalAssumed,
            observed_at: NOW,
        },
    }
}

#[test]
fn margin_mode_is_cross_only() {
    assert_eq!(MarginMode::default(), MarginMode::Cross);
    assert_eq!(MarginMode::Cross.tag(), "CROSS");
    assert_eq!(MarginMode::Cross.label(), "全仓");
}

#[test]
fn observed_mode_covers_isolated_as_an_anomaly() {
    assert_eq!(ObservedMarginMode::default(), ObservedMarginMode::Unknown);
    assert_eq!(ObservedMarginMode::Isolated.label(), "逐仓");
}

#[test]
fn initial_margin_divides_by_leverage() {
    assert_eq!(
        initial_margin(dec("1000"), dec("3")),
        dec("333.33333333333333333333333333")
    );
    assert_eq!(initial_margin(dec("1000"), dec("1")), dec("1000"));
    assert_eq!(initial_margin(dec("1000"), Decimal::zero()), dec("1000"));
}

struct Row {
    name: &'static str,
    side: Side,
    wb: Decimal,
    qty: Decimal,
    want: CrossLiquidation,
}

#[test]
fn cross_liquidation_table() {
    let inst = instrument(dec("2.5"));
    let acct = |wb: Decimal| MarginAccount::flat("USDC".to_string(), wb);
    let q = |q: Decimal| Qty::new(q);

    let rows = [
        Row {
            name: "多头等效 20 倍",
            side: Side::Buy,
            wb: dec("160"),
            qty: dec("1"),
            want: CrossLiquidation::At(dec("3117.95")),
        },
        Row {
            name: "空头等效 20 倍",
            side: Side::Sell,
            wb: dec("160"),
            qty: dec("1"),
            want: CrossLiquidation::At(dec("3278.05")),
        },
        Row {
            name: "默认做市参数多头不会强平",
            side: Side::Buy,
            wb: dec("10000"),
            qty: dec("0.937"),
            want: CrossLiquidation::Never,
        },
        Row {
            name: "默认做市参数空头",
            side: Side::Sell,
            wb: dec("10000"),
            qty: dec("0.937"),
            want: CrossLiquidation::At(dec("13534.01")),
        },
        Row {
            name: "1 倍杠杆多头边界不会强平",
            side: Side::Buy,
            wb: dec("3200"),
            qty: dec("1"),
            want: CrossLiquidation::Never,
        },
        Row {
            name: "权益很小时强平贴近入场价",
            side: Side::Buy,
            wb: dec("81"),
            qty: dec("1"),
            want: CrossLiquidation::At(dec("3198.97")),
        },
        Row {
            name: "空头同理",
            side: Side::Sell,
            wb: dec("81"),
            qty: dec("1"),
            want: CrossLiquidation::At(dec("3200.98")),
        },
        Row {
            name: "钱包只够维持保证金时开仓即强平",
            side: Side::Buy,
            wb: dec("80"),
            qty: dec("1"),
            want: CrossLiquidation::Immediate,
        },
        Row {
            name: "空头同样",
            side: Side::Sell,
            wb: dec("50"),
            qty: dec("1"),
            want: CrossLiquidation::Immediate,
        },
        Row {
            name: "3 倍满仓多头",
            side: Side::Buy,
            wb: dec("10000"),
            qty: dec("9.375"),
            want: CrossLiquidation::At(dec("2188.03")),
        },
        Row {
            name: "3 倍满仓空头",
            side: Side::Sell,
            wb: dec("10000"),
            qty: dec("9.375"),
            want: CrossLiquidation::At(dec("4162.60")),
        },
        Row {
            name: "零余额立即强平",
            side: Side::Buy,
            wb: Decimal::zero(),
            qty: dec("1"),
            want: CrossLiquidation::Immediate,
        },
    ];

    for r in rows {
        let got = cross_liquidation(&inst, &acct(r.wb), r.side, dec("3200"), q(r.qty)).unwrap();
        match (got, r.want) {
            (CrossLiquidation::At(a), CrossLiquidation::At(b)) => {
                assert_eq!(cents(a), b, "{}：期望强平 {b:?}，实际 {a:?}", r.name)
            }
            _ => assert_eq!(got, r.want, "{}", r.name),
        }
    }
}

#[test]
fn wrong_maintenance_margin_would_move_liquidation_further_away() {
    let real = instrument(dec("2.5"));
    let wrong = instrument(dec("0.4"));
    let acct = MarginAccount::flat("USDC".to_string(), dec("160"));
    let at = |i: &Instrument| match cross_liquidation(
        i,
        &acct,
        Side::Buy,
        dec("3200"),
        Qty::new(dec("1")),
    )
    .unwrap()
    {
        CrossLiquidation::At(p) => cents(p),
        other => panic!("应能估算：{other:?}"),
    };
    let real_p = at(&real);
    let wrong_p = at(&wrong);
    assert_eq!(real_p, dec("3117.95"));
    assert_eq!(wrong_p, dec("3052.21"));
    assert!(wrong_p < real_p, "低估维持保证金会算出更远的强平价");
}

#[test]
fn asset_mismatch_is_an_error_not_a_conversion() {
    let inst = instrument(dec("2.5"));
    let usdt = MarginAccount::flat("USDT".to_string(), dec("10000"));
    assert_eq!(
        cross_liquidation(&inst, &usdt, Side::Buy, dec("3200"), Qty::new(dec("1"))),
        Err(MarginError::AssetMismatch)
    );
    assert!(MarginError::AssetMismatch.message().contains("资产"));
}

#[test]
fn non_positive_inputs_are_rejected() {
    let inst = instrument(dec("2.5"));
    let acct = MarginAccount::flat("USDC".to_string(), dec("10000"));
    assert_eq!(
        cross_liquidation(&inst, &acct, Side::Buy, dec("3200"), Qty::new(Decimal::zero())),
        Err(MarginError::NonPositive)
    );
    assert_eq!(
        cross_liquidation(&inst, &acct, Side::Buy, Decimal::zero(), Qty::new(dec("1"))),
        Err(MarginError::NonPositive)
    );
}

#[test]
fn leverage_cannot_affect_liquidation() {
    let inst = instrument(dec("2.5"));
    let acct = MarginAccount::flat("USDC".to_string(), dec("1000"));
    let lp = cross_liquidation(&inst, &acct, Side::Buy, dec("3200"), Qty::new(dec("1"))).unwrap();
    assert_eq!(
        lp,
        CrossLiquidation::At(dec("2256.4102564102564102564102564"))
    );
}

#[test]
fn available_is_wallet_minus_used() {
    let a = MarginAccount {
        asset: "USDC".into(),
        wallet_balance: dec("1000"),
        used_initial_margin: dec("250"),
    };
    assert_eq!(a.available(), dec("750"));
    assert_eq!(MarginAccount::flat("USDC".to_string(), dec("10")).available(), dec("10"));
}
