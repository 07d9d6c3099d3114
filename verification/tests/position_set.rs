use maker_desk::decimal::Decimal;
use maker_desk::error::DomainError;
use maker_desk::instrument::{ContractKind, FeeSchedule, FeeSource, Instrument};
use maker_desk::money::{Price, Qty};
use maker_desk::order::{ClientOrderId, Order, OrderPurpose, OrderState, Side, TimeInForce};
use maker_desk::position_set::{
    check_consistency, on_stop_filled, on_take_profit_filled, preview_manual, rung_distribution,
    ManualPlan, PositionSet, ProtectionFix, ProtectionRole,
};
use maker_desk::precision::Precision;
use maker_desk::protection::{BreakEvenSpec, ProtectionPlan, StopSpec, TpPlan, TpRung};
use maker_desk::risk::RiskLimits;
use maker_desk::state::{Position, TrackedOrder};

const NOW: i64 = 1_750_000_000_000;

fn dec(text: &str) -> Decimal {
    Decimal::parse(text).unwrap()
}

/// To two places, half to even.
fn cents(d: Decimal) -> Decimal {
    let rounded = rust_decimal::Decimal::from_i128_with_scale(d.mantissa(), d.scale()).round_dp(2);
    Decimal::from_parts(rounded.mantissa(), rounded.scale()).unwrap()
}


fn instrument() -> Instrument {
    Instrument {
        symbol: "ETHUSDC".into(),
        kind: ContractKind::CryptoPerp,
        base_asset: "ETH".into(),
        quote_asset: "USDC".into(),
        margin_asset: "USDC".into(),
        settlement_asset: "USDC".into(),
        precision: Precision {
            tick_size: dec("0.01"),
            step_size: dec("0.001"),
            min_qty: dec("0.001"),
            min_notional: dec("5"),
        },
        maint_margin_pct: dec("2.5"),
        required_margin_pct: dec("5"),
        liquidation_fee: dec("0.0125"),
        fees: FeeSchedule {
            maker_rate: Decimal::zero(),
            taker_rate: dec("0.0005"),
            source: FeeSource::PromotionalAssumed,
            observed_at: NOW,
        },
    }
}

fn ladder() -> TpPlan {
    TpPlan::Ladder {
        rungs: vec![
            TpRung {
                pct: dec("0.0004"),
                fraction: dec("0.4"),
            },
            TpRung {
                pct: dec("0.0008"),
                fraction: dec("0.3"),
            },
            TpRung {
                pct: dec("0.0012"),
                fraction: dec("0.3"),
            },
        ],
    }
}

fn set() -> PositionSet {
    let pos = Position {
        symbol: "ETHUSDC".into(),
        side: Side::Buy,
        quantity: Qty::new(dec("1")),
        entry_price: Price::new(dec("3200")),
        opened_at: NOW,
        stop_price: Some(Price::new(dec("3190"))),
    };
    PositionSet::new(
        &pos,
        ProtectionPlan {
            stop: StopSpec::AtPrice { price: dec("3190") },
            break_even: Some(BreakEvenSpec {
                trigger_r: Decimal::one(),
                offset: Decimal::zero(),
            }),
            trailing: None,
            timed_cancel: None,
        },
        ladder(),
    )
}

fn resting(
    id: &str,
    purpose: OrderPurpose,
    side: Side,
    qty: Decimal,
    filled: Decimal,
) -> TrackedOrder {
    TrackedOrder {
        order: Order {
            client_id: ClientOrderId(id.into()),
            symbol: "ETHUSDC".into(),
            purpose,
            side,
            quantity: Qty::new(qty),
            limit_price: Price::new(dec("3200")),
            tif: TimeInForce::PostOnly,
            parent: None,
        },
        state: OrderState::Live,
        exchange_id: Some("E".into()),
        filled: Qty::new(filled),
        avg_price: None,
        updated_at: NOW,
    }
}

#[test]
fn stop_quantity_is_reduced_after_partial_take_profit() {
    let mut s = set();
    let stop = resting("stop", OrderPurpose::StopLoss, Side::Sell, dec("1"), dec("0"));
    let working = vec![&stop];

    let fixes = on_take_profit_filled(&mut s, 0, Qty::new(dec("0.4")), &working).unwrap();

    assert_eq!(s.quantity.get(), dec("0.6"), "持仓应减少到 60%");
    let replaced = fixes
        .iter()
        .find_map(|f| match f {
            ProtectionFix::Replace(o) if o.purpose == OrderPurpose::StopLoss => {
                Some(o.quantity.get())
            }
            _ => None,
        })
        .expect("止损单数量必须被修正");
    assert_eq!(
        replaced,
        dec("0.6"),
        "止损数量必须同步到剩余持仓，否则触发时会被拒单"
    );
}

#[test]
fn rung_quantities_use_original_quantity_as_base() {
    let s = set();
    assert_eq!(s.original_quantity.get(), dec("1"), "原始持仓量必须被记录");
    assert_eq!(s.rung_quantity(0).get(), dec("0.4"));
    assert_eq!(s.rung_quantity(1).get(), dec("0.3"));
    assert_eq!(s.rung_quantity(2).get(), dec("0.3"));

    let total: Decimal = (0..3).map(|i| s.rung_quantity(i).get()).fold(Decimal::zero(), |a, b| a + b);
    assert_eq!(total, dec("1"), "三档合计必须等于原始持仓，否则平不完");
}

#[test]
fn closing_position_cancels_all_remaining_orders() {
    let mut s = set();
    let stop = resting("stop", OrderPurpose::StopLoss, Side::Sell, dec("1"), dec("0"));
    let tp3 = resting(
        "tp2",
        OrderPurpose::TakeProfit,
        Side::Sell,
        dec("0.3"),
        dec("0"),
    );
    let working = vec![&stop, &tp3];

    on_take_profit_filled(&mut s, 0, Qty::new(dec("0.4")), &working).unwrap();
    on_take_profit_filled(&mut s, 1, Qty::new(dec("0.3")), &working).unwrap();
    let fixes = on_take_profit_filled(&mut s, 2, Qty::new(dec("0.3")), &working).unwrap();

    assert_eq!(s.quantity.get(), Decimal::zero());
    let cancels = fixes
        .iter()
        .filter(|f| matches!(f, ProtectionFix::Cancel(_)))
        .count();
    assert_eq!(cancels, 2, "仓位平完后必须撤销全部残留挂单");
}

#[test]
fn stop_fill_cancels_working_take_profits() {
    let mut s = set();
    let tp1 = resting(
        "tp0",
        OrderPurpose::TakeProfit,
        Side::Sell,
        dec("0.4"),
        dec("0"),
    );
    let tp2 = resting(
        "tp1",
        OrderPurpose::TakeProfit,
        Side::Sell,
        dec("0.3"),
        dec("0"),
    );
    let stop = resting("stop", OrderPurpose::StopLoss, Side::Sell, dec("1"), dec("1"));
    let working = vec![&tp1, &tp2, &stop];

    let fixes = on_stop_filled(&mut s, &working);
    let cancels: Vec<_> = fixes
        .iter()
        .filter_map(|f| match f {
            ProtectionFix::Cancel(id) => Some(id.as_str().to_string()),
            _ => None,
        })
        .collect();

    assert_eq!(cancels.len(), 2, "两张未成交止盈单都要撤");
    assert!(cancels.contains(&"tp0".to_string()));
    assert!(cancels.contains(&"tp1".to_string()));
    assert!(
        !cancels.contains(&"stop".to_string()),
        "已成交的止损不该被撤"
    );
    assert_eq!(s.quantity.get(), Decimal::zero());
}

#[test]
fn duplicate_take_profit_event_is_ignored() {
    let mut s = set();
    let stop = resting("stop", OrderPurpose::StopLoss, Side::Sell, dec("1"), dec("0"));
    let working = vec![&stop];

    on_take_profit_filled(&mut s, 0, Qty::new(dec("0.4")), &working).unwrap();
    let qty_after_first = s.quantity.get();

    let fixes = on_take_profit_filled(&mut s, 0, Qty::new(dec("0.4")), &working).unwrap();
    assert_eq!(s.quantity.get(), qty_after_first, "重复事件不应再次扣减");
    assert_eq!(fixes, vec![ProtectionFix::Nothing]);
}

#[test]
fn take_profit_exceeding_position_is_rejected() {
    let mut s = set();
    let err = on_take_profit_filled(&mut s, 0, Qty::new(dec("5")), &[]).unwrap_err();
    assert!(matches!(err, DomainError::IllegalTransition(_)));
}

#[test]
fn out_of_range_rung_is_rejected() {
    let mut s = set();
    assert!(on_take_profit_filled(&mut s, 9, Qty::new(dec("0.1")), &[]).is_err());
}

#[test]
fn consistency_check_detects_over_committed_orders() {
    let pos = Position {
        symbol: "ETHUSDC".into(),
        side: Side::Buy,
        quantity: Qty::new(dec("0.6")),
        entry_price: Price::new(dec("3200")),
        opened_at: NOW,
        stop_price: None,
    };
    let stop = resting("stop", OrderPurpose::StopLoss, Side::Sell, dec("1"), dec("0"));
    let report = check_consistency(&pos, &[&stop]);
    assert!(!report.ok, "应检出超量挂单");
    assert!(report.problem.is_some());
    assert!(report.problem.unwrap().contains("失效"), "说明必须点出后果");
}

#[test]
fn consistency_check_passes_when_matched() {
    let pos = Position {
        symbol: "ETHUSDC".into(),
        side: Side::Buy,
        quantity: Qty::new(dec("0.6")),
        entry_price: Price::new(dec("3200")),
        opened_at: NOW,
        stop_price: None,
    };
    let stop = resting(
        "stop",
        OrderPurpose::StopLoss,
        Side::Sell,
        dec("0.6"),
        dec("0"),
    );
    let report = check_consistency(&pos, &[&stop]);
    assert!(report.ok);
}

#[test]
fn consistency_accounts_for_partially_filled_orders() {
    let pos = Position {
        symbol: "ETHUSDC".into(),
        side: Side::Buy,
        quantity: Qty::new(dec("0.6")),
        entry_price: Price::new(dec("3200")),
        opened_at: NOW,
        stop_price: None,
    };
    let stop = resting(
        "stop",
        OrderPurpose::StopLoss,
        Side::Sell,
        dec("1"),
        dec("0.4"),
    );
    let report = check_consistency(&pos, &[&stop]);
    assert!(report.ok, "剩余量 0.6 等于持仓，应通过：{report:?}");
    assert_eq!(report.working_reduce_only_qty, dec("0.6"));
}

#[test]
fn break_even_moves_stop_after_first_rung() {
    let mut s = set();
    let stop = resting("stop", OrderPurpose::StopLoss, Side::Sell, dec("1"), dec("0"));
    on_take_profit_filled(&mut s, 0, Qty::new(dec("0.4")), &[&stop]).unwrap();
    assert_eq!(
        s.stop_price.unwrap().get(),
        dec("3190"),
        "浮盈不足 1R 时不应推保本止损"
    );
}


fn manual(side: Side, entry: Decimal, stop: Decimal) -> ManualPlan {
    ManualPlan {
        symbol: "ETHUSDC".into(),
        side,
        entry,
        quantity: Some(Qty::new(dec("0.1"))),
        size_pct: None,
        leverage: Decimal::from_int(3),
        stop,
        take_profit: ladder(),
        break_even: None,
        trailing: None,
        cancel_unfilled_after: None,
        client_ref: "manual".into(),
    }
}

#[test]
fn preview_produces_quantized_prices() {
    let i = instrument();
    let p = manual(Side::Buy, dec("3200"), dec("3190"));
    let pv = preview_manual(
        &i,
        &p,
        dec("10000"),
        dec("3200"),
        &RiskLimits::default(),
    )
    .unwrap();

    assert_eq!(pv.entry.get(), dec("3200"));
    assert_eq!(pv.quantity.get(), dec("0.1"));
    assert_eq!(pv.take_profits.len(), 3);
    assert!(pv.take_profits[0].price.get() < pv.take_profits[1].price.get());
    assert!(pv.take_profits[1].price.get() < pv.take_profits[2].price.get());
    let total: Decimal = pv.take_profits.iter().map(|r| r.quantity.get()).fold(Decimal::zero(), |a, b| a + b);
    assert_eq!(total, dec("0.1"));
}

#[test]
fn preview_rejects_zero_quantity() {
    let i = instrument();
    let mut p = manual(Side::Buy, dec("3200"), dec("3190"));
    p.quantity = Some(Qty::new(dec("0.00001")));
    let pv = preview_manual(
        &i,
        &p,
        dec("10000"),
        dec("3200"),
        &RiskLimits::default(),
    )
    .unwrap();
    assert!(!pv.accepted);
    assert!(pv.reject_reason.is_some());
}

#[test]
fn preview_rejects_stop_on_wrong_side() {
    let i = instrument();
    let p = manual(Side::Buy, dec("3200"), dec("3210"));
    let pv = preview_manual(
        &i,
        &p,
        dec("10000"),
        dec("3200"),
        &RiskLimits::default(),
    )
    .unwrap();
    assert!(!pv.accepted, "止损方向错误应被拒绝");
    assert!(pv.reject_reason.is_some());
}

#[test]
fn preview_warns_about_trigger_protect() {
    let i = instrument();
    let p = manual(Side::Buy, dec("3200"), dec("3190"));
    let pv = preview_manual(
        &i,
        &p,
        dec("10000"),
        dec("3200"),
        &RiskLimits::default(),
    )
    .unwrap();
    assert!(
        pv.warnings.iter().any(|w| w.contains("triggerProtect")),
        "应警告条件单触发保护：{:?}",
        pv.warnings
    );
}

#[test]
fn preview_computes_margin_requirement() {
    let i = instrument();
    let p = manual(Side::Buy, dec("3200"), dec("3190"));
    let pv = preview_manual(
        &i,
        &p,
        dec("10000"),
        dec("3200"),
        &RiskLimits::default(),
    )
    .unwrap();
    assert_eq!(pv.notional, dec("320"), "0.1 * 3200");
    assert_eq!(
        cents(pv.margin_required),
        dec("106.67"),
        "保证金 = 名义价值 / 杠杆"
    );
}

#[test]
fn preview_reports_liquidation_buffer() {
    let i = instrument();
    let p = manual(Side::Buy, dec("3200"), dec("3190"));
    let pv = preview_manual(
        &i,
        &p,
        dec("10000"),
        dec("3200"),
        &RiskLimits::default(),
    )
    .unwrap();
    assert!(pv.liquidation_buffer_pct.is_some());
}

#[test]
fn preview_sizes_by_equity_fraction() {
    let i = instrument();
    let mut p = manual(Side::Buy, dec("3200"), dec("3190"));
    p.quantity = None;
    p.size_pct = Some(dec("0.1"));
    p.leverage = Decimal::from_int(3);
    let pv = preview_manual(
        &i,
        &p,
        dec("10000"),
        dec("3200"),
        &RiskLimits::default(),
    )
    .unwrap();
    assert_eq!(pv.quantity.get(), dec("0.937"));
}

#[test]
fn rung_distribution_groups_by_role() {
    let rows = vec![
        (ClientOrderId::new("a", 1), ProtectionRole::Stop),
        (
            ClientOrderId::new("b", 1),
            ProtectionRole::TakeProfit { rung: 0 },
        ),
        (
            ClientOrderId::new("c", 1),
            ProtectionRole::TakeProfit { rung: 0 },
        ),
        (
            ClientOrderId::new("d", 1),
            ProtectionRole::TakeProfit { rung: 1 },
        ),
    ];
    let m = rung_distribution(&rows);
    assert_eq!(m.get("止损"), Some(&1));
    assert_eq!(m.get("止盈第 1 档"), Some(&2));
    assert_eq!(m.get("止盈第 2 档"), Some(&1));
}
