use maker_desk::decimal::Decimal;
use maker_desk::error::DomainError;
use maker_desk::instrument::{ContractKind, FeeSchedule, FeeSource, Instrument};
use maker_desk::money::{Price, Qty};
use maker_desk::order::{
    Alarm, ClientOrderId, Effect, Order, OrderPurpose, OrderState, Side, TimeInForce,
};
use maker_desk::precision::Precision;
use maker_desk::protection::{
    actions_to_effects, BreakEvenSpec, EntryFill, MarketSlice, ProtectionAction, ProtectionPlan,
    ProtectionPlanner, StopSpec, TpPlan, TpRung, TrailingSpec,
};
use maker_desk::state::{Position, TrackedOrder};

const NOW: i64 = 1_750_000_000_000;

fn dec(text: &str) -> Decimal {
    Decimal::parse(text).unwrap()
}


fn instr() -> Instrument {
    Instrument {
        symbol: "ETHUSDC".into(),
        kind: ContractKind::CryptoPerp,
        base_asset: "ETH".into(),
        quote_asset: "USDC".into(),
        margin_asset: "USDC".into(),
        settlement_asset: "USDC".into(),
        precision: Precision {
            tick_size: dec("0.01"),
            step_size: dec("0.001"),
            min_qty: dec("0.001"),
            min_notional: dec("5"),
        },
        maint_margin_pct: dec("2.5"),
        required_margin_pct: dec("5"),
        liquidation_fee: dec("0.0125"),
        fees: FeeSchedule {
            maker_rate: Decimal::zero(),
            taker_rate: dec("0.0005"),
            source: FeeSource::PromotionalAssumed,
            observed_at: NOW,
        },
    }
}

fn position(side: Side, entry: Decimal, qty: Decimal) -> Position {
    Position {
        symbol: "ETHUSDC".into(),
        side,
        quantity: Qty::new(qty),
        entry_price: Price::new(entry),
        opened_at: NOW,
        stop_price: None,
    }
}

fn plan(stop: StopSpec) -> ProtectionPlan {
    ProtectionPlan {
        stop,
        break_even: None,
        trailing: None,
        timed_cancel: None,
    }
}

fn entry_id() -> ClientOrderId {
    ClientOrderId::new("mm", 1)
}

fn entry(side: Side, price: Decimal, qty: Decimal) -> EntryFill {
    EntryFill {
        symbol: "ETHUSDC".into(),
        entry_order_id: entry_id(),
        side,
        price: Price::new(price),
        quantity: Qty::new(qty),
    }
}


#[test]
fn buy_take_profit_is_quantized_up_matching_live_behavior() {
    let i = instr();
    let actions = ProtectionPlanner::compile(
        &i,
        &entry(Side::Buy, dec("3200"), dec("1")),
        &plan(StopSpec::AtPrice { price: dec("3190") }),
        &TpPlan::Single { pct: dec("0.00004") },
    )
    .unwrap();

    let tp = actions
        .iter()
        .find_map(|a| match a {
            ProtectionAction::Place(o) if o.purpose == OrderPurpose::TakeProfit => Some(o),
            _ => None,
        })
        .expect("必须有止盈单");
    assert_eq!(tp.limit_price.get(), dec("3200.13"));
    assert_eq!(tp.side, Side::Sell, "多头止盈是卖出");
    assert!(tp.reduce_only());
}

#[test]
fn every_generated_order_is_reduce_only() {
    let i = instr();
    let actions = ProtectionPlanner::compile(
        &i,
        &entry(Side::Buy, dec("3200"), dec("1")),
        &plan(StopSpec::FixedPct { pct: dec("0.003") }),
        &TpPlan::Single { pct: dec("0.0004") },
    )
    .unwrap();

    for a in &actions {
        if let ProtectionAction::Place(o) = a {
            assert!(o.reduce_only(), "保护单 {:?} 必须 reduce-only", o.client_id);
            assert_eq!(o.side, Side::Sell, "多头仓位的出场方向应为卖出");
            assert_eq!(o.parent.as_ref(), Some(&entry_id()));
        }
    }
}

#[test]
fn ladder_take_profit_splits_quantity_by_fraction() {
    let i = instr();
    let actions = ProtectionPlanner::compile(
        &i,
        &entry(Side::Buy, dec("3200"), dec("1")),
        &plan(StopSpec::AtPrice { price: dec("3190") }),
        &TpPlan::Ladder {
            rungs: vec![
                TpRung {
                    pct: dec("0.0004"),
                    fraction: dec("0.4"),
                },
                TpRung {
                    pct: dec("0.0008"),
                    fraction: dec("0.3"),
                },
                TpRung {
                    pct: dec("0.0012"),
                    fraction: dec("0.3"),
                },
            ],
        },
    )
    .unwrap();

    let tps: Vec<_> = actions
        .iter()
        .filter_map(|a| match a {
            ProtectionAction::Place(o) if o.purpose == OrderPurpose::TakeProfit => Some(o),
            _ => None,
        })
        .collect();

    assert_eq!(tps.len(), 3, "三档止盈应生成三张单");
    assert_eq!(tps[0].quantity.get(), dec("0.4"));
    assert_eq!(tps[1].quantity.get(), dec("0.3"));
    assert_eq!(tps[2].quantity.get(), dec("0.3"));

    assert!(tps[0].limit_price.get() < tps[1].limit_price.get());
    assert!(tps[1].limit_price.get() < tps[2].limit_price.get());

    let total: Decimal = tps.iter().map(|o| o.quantity.get()).fold(Decimal::zero(), |a, b| a + b);
    assert_eq!(total, dec("1"));

    let ids: std::collections::HashSet<_> = tps.iter().map(|o| o.client_id.clone()).collect();
    assert_eq!(ids.len(), 3);
}

#[test]
fn ladder_fractions_over_one_are_rejected() {
    let tp = TpPlan::Ladder {
        rungs: vec![
            TpRung {
                pct: dec("0.001"),
                fraction: dec("0.7"),
            },
            TpRung {
                pct: dec("0.002"),
                fraction: dec("0.7"),
            },
        ],
    };
    assert!(tp.validate().is_err(), "合计 1.4 必须被拒绝");

    let i = instr();
    let err = ProtectionPlanner::compile(
        &i,
        &entry(Side::Buy, dec("3200"), dec("1")),
        &plan(StopSpec::AtPrice { price: dec("3190") }),
        &tp,
    )
    .unwrap_err();
    assert!(matches!(err, DomainError::IllegalTransition(_)));
}

#[test]
fn rung_below_min_quantity_is_skipped() {
    let i = instr();
    let actions = ProtectionPlanner::compile(
        &i,
        &entry(Side::Buy, dec("3200"), dec("0.002")),
        &plan(StopSpec::AtPrice { price: dec("3190") }),
        &TpPlan::Ladder {
            rungs: vec![
                TpRung {
                    pct: dec("0.0004"),
                    fraction: dec("0.05"),
                }, // 0.0001 < min_qty
                TpRung {
                    pct: dec("0.0008"),
                    fraction: dec("0.95"),
                },
            ],
        },
    )
    .unwrap();

    let tps: Vec<_> = actions
        .iter()
        .filter_map(|a| match a {
            ProtectionAction::Place(o) if o.purpose == OrderPurpose::TakeProfit => Some(o),
            _ => None,
        })
        .collect();
    assert_eq!(tps.len(), 1, "过小档位应被跳过");
}

#[test]
fn short_position_exit_orders_are_buys() {
    let i = instr();
    let actions = ProtectionPlanner::compile(
        &i,
        &entry(Side::Sell, dec("3200"), dec("1")),
        &plan(StopSpec::AtPrice { price: dec("3210") }),
        &TpPlan::Single { pct: dec("0.0004") },
    )
    .unwrap();

    for a in &actions {
        if let ProtectionAction::Place(o) = a {
            assert_eq!(o.side, Side::Buy, "空头仓位的出场方向应为买入");
        }
    }
}


#[test]
fn break_even_stop_engages_after_trigger_r() {
    let i = instr();
    let pos = position(Side::Buy, dec("3200"), dec("1"));
    let mut p = plan(StopSpec::AtPrice { price: dec("3190") });
    p.break_even = Some(BreakEvenSpec {
        trigger_r: Decimal::one(),
        offset: Decimal::zero(),
    });

    let early = MarketSlice {
        bid: Price::new(dec("3204")),
        ask: Price::new(dec("3206")),
        high_since_entry: Price::new(dec("3206")),
        low_since_entry: Price::new(dec("3199")),
    };
    let actions =
        ProtectionPlanner::on_market(&i, "ETHUSDC", &pos, &[], &early, &p, NOW).unwrap();
    assert!(actions.is_empty(), "未达到触发倍数不应调整止损");

    let late = MarketSlice {
        bid: Price::new(dec("3211")),
        ask: Price::new(dec("3213")),
        high_since_entry: Price::new(dec("3213")),
        low_since_entry: Price::new(dec("3199")),
    };
    let actions =
        ProtectionPlanner::on_market(&i, "ETHUSDC", &pos, &[], &late, &p, NOW).unwrap();
    assert!(
        actions.iter().any(
            |a| matches!(a, ProtectionAction::Place(o) if o.purpose == OrderPurpose::StopLoss)
        ),
        "触发保本后应挂出止损单，实际：{actions:?}"
    );
}

#[test]
fn missing_stop_is_placed_not_skipped() {
    let i = instr();
    let pos = position(Side::Buy, dec("3200"), dec("1"));
    assert!(pos.stop_price.is_none());

    let mut p = plan(StopSpec::AtPrice { price: dec("3190") });
    p.break_even = Some(BreakEvenSpec {
        trigger_r: Decimal::one(),
        offset: Decimal::zero(),
    });

    let market = MarketSlice {
        bid: Price::new(dec("3211")),
        ask: Price::new(dec("3213")),
        high_since_entry: Price::new(dec("3213")),
        low_since_entry: Price::new(dec("3199")),
    };
    let actions =
        ProtectionPlanner::on_market(&i, "ETHUSDC", &pos, &[], &market, &p, NOW)
            .unwrap();

    let stop = actions
        .iter()
        .find_map(|a| match a {
            ProtectionAction::Place(o) if o.purpose == OrderPurpose::StopLoss => Some(o),
            _ => None,
        })
        .expect("没有现存止损时必须挂出止损，否则仓位裸露");
    assert_eq!(stop.limit_price.get(), dec("3200"));
    assert!(stop.reduce_only());
    assert_eq!(stop.quantity.get(), dec("1"), "止损应覆盖全部持仓");
}

#[test]
fn replacement_stop_id_is_deterministic_across_evaluations() {
    let i = instr();
    let pos = position(Side::Buy, dec("3200"), dec("1"));
    let mut p = plan(StopSpec::AtPrice { price: dec("3190") });
    p.break_even = Some(BreakEvenSpec {
        trigger_r: Decimal::one(),
        offset: Decimal::zero(),
    });

    let market = MarketSlice {
        bid: Price::new(dec("3211")),
        ask: Price::new(dec("3213")),
        high_since_entry: Price::new(dec("3213")),
        low_since_entry: Price::new(dec("3199")),
    };

    let id_of = |now: i64| {
        ProtectionPlanner::on_market(&i, "ETHUSDC", &pos, &[], &market, &p, now)
            .unwrap()
            .into_iter()
            .find_map(|a| match a {
                ProtectionAction::Place(o) if o.purpose == OrderPurpose::StopLoss => {
                    Some(o.client_id.clone())
                }
                _ => None,
            })
            .expect("应挂出止损")
    };

    let a = id_of(NOW);
    let b = id_of(NOW + 5000);
    assert_eq!(a, b, "重复评估必须产生同一个止损订单 ID");
}

#[test]
fn trailing_stop_only_moves_favorably() {
    let i = instr();
    let mut pos = position(Side::Buy, dec("3200"), dec("1"));
    pos.stop_price = Some(Price::new(dec("3195")));
    let mut p = plan(StopSpec::AtPrice { price: dec("3195") });
    p.trailing = Some(TrailingSpec {
        distance: dec("10"),
        activate_at: None,
    });

    let market = MarketSlice {
        bid: Price::new(dec("3229")),
        ask: Price::new(dec("3231")),
        high_since_entry: Price::new(dec("3230")),
        low_since_entry: Price::new(dec("3199")),
    };
    let actions =
        ProtectionPlanner::on_market(&i, "ETHUSDC", &pos, &[], &market, &p, NOW)
            .unwrap();
    let replaced = actions
        .iter()
        .find_map(|a| match a {
            ProtectionAction::Place(o) if o.purpose == OrderPurpose::StopLoss => {
                Some(o.limit_price.get())
            }
            _ => None,
        })
        .expect("应挂出新的移动止损");
    assert_eq!(replaced, dec("3220"));
}

#[test]
fn trailing_stop_never_loosens() {
    let i = instr();
    let mut pos = position(Side::Buy, dec("3200"), dec("1"));
    pos.stop_price = Some(Price::new(dec("3220"))); // 已被推到 3220
    let mut p = plan(StopSpec::AtPrice { price: dec("3195") });
    p.trailing = Some(TrailingSpec {
        distance: dec("10"),
        activate_at: None,
    });

    let market = MarketSlice {
        bid: Price::new(dec("3205")),
        ask: Price::new(dec("3207")),
        high_since_entry: Price::new(dec("3210")),
        low_since_entry: Price::new(dec("3199")),
    };
    let actions =
        ProtectionPlanner::on_market(&i, "ETHUSDC", &pos, &[], &market, &p, NOW)
            .unwrap();
    assert!(
        !actions
            .iter()
            .any(|a| matches!(a, ProtectionAction::Place(_))),
        "止损不应被放松，实际：{actions:?}"
    );
}

#[test]
fn trailing_stop_respects_activation_level() {
    let i = instr();
    let pos = position(Side::Buy, dec("3200"), dec("1"));
    let mut p = plan(StopSpec::AtPrice { price: dec("3190") });
    p.trailing = Some(TrailingSpec {
        distance: dec("10"),
        activate_at: Some(dec("3250")),
    });

    let market = MarketSlice {
        bid: Price::new(dec("3229")),
        ask: Price::new(dec("3231")),
        high_since_entry: Price::new(dec("3230")),
        low_since_entry: Price::new(dec("3199")),
    };
    let actions =
        ProtectionPlanner::on_market(&i, "ETHUSDC", &pos, &[], &market, &p, NOW)
            .unwrap();
    assert!(actions.is_empty(), "未达激活价不应启用移动止损");
}

#[test]
fn timed_cancel_fires_at_deadline_not_before() {
    let i = instr();
    let pos = position(Side::Buy, dec("3200"), dec("1"));
    let now = NOW;
    let mut p = plan(StopSpec::AtPrice { price: dec("3190") });
    p.timed_cancel = Some(now + 120000);

    let market = MarketSlice {
        bid: Price::new(dec("3201")),
        ask: Price::new(dec("3203")),
        high_since_entry: Price::new(dec("3203")),
        low_since_entry: Price::new(dec("3199")),
    };

    let entry = Order {
        client_id: ClientOrderId::new("mm", 9),
        symbol: "ETHUSDC".into(),
        purpose: OrderPurpose::Entry,
        side: Side::Buy,
        quantity: Qty::new(dec("1")),
        limit_price: Price::new(dec("3200")),
        tif: TimeInForce::PostOnly,
        parent: None,
    };
    let resting = TrackedOrder {
        order: entry,
        state: OrderState::Live,
        exchange_id: Some("E1".into()),
        filled: Qty::zero(),
        avg_price: None,
        updated_at: now,
    };

    let actions =
        ProtectionPlanner::on_market(&i, "ETHUSDC", &pos, &[&resting], &market, &p, now)
            .unwrap();
    assert!(
        !actions
            .iter()
            .any(|a| matches!(a, ProtectionAction::Cancel(_)))
    );

    let later = now + 121000;
    let actions =
        ProtectionPlanner::on_market(&i, "ETHUSDC", &pos, &[&resting], &market, &p, later)
            .unwrap();
    assert!(
        actions
            .iter()
            .any(|a| matches!(a, ProtectionAction::Cancel(_)))
    );
}

#[test]
fn unfilled_stop_raises_exposure_alarm() {
    let i = instr();
    let pos = position(Side::Buy, dec("3200"), dec("1"));
    let p = plan(StopSpec::AtPrice { price: dec("3190") });

    let stop_order = Order {
        client_id: ClientOrderId::new("mm", 1).child("stop"),
        symbol: "ETHUSDC".into(),
        purpose: OrderPurpose::StopLoss,
        side: Side::Sell,
        quantity: Qty::new(dec("1")),
        limit_price: Price::new(dec("3190")),
        tif: TimeInForce::PostOnly,
        parent: Some(ClientOrderId::new("mm", 1)),
    };
    let long_ago = NOW - 60000;
    let resting = TrackedOrder {
        order: stop_order,
        state: OrderState::Live,
        exchange_id: Some("E1".into()),
        filled: Qty::zero(),
        avg_price: None,
        updated_at: long_ago,
    };

    let market = MarketSlice {
        bid: Price::new(dec("3185")),
        ask: Price::new(dec("3187")),
        high_since_entry: Price::new(dec("3210")),
        low_since_entry: Price::new(dec("3185")),
    };
    let actions =
        ProtectionPlanner::on_market(&i, "ETHUSDC", &pos, &[&resting], &market, &p, NOW)
            .unwrap();

    assert!(
        actions.iter().any(|a| matches!(
            a,
            ProtectionAction::Alarm(Alarm::StopUnfilledExposure { .. })
        )),
        "止损触发但未成交必须告警，实际：{actions:?}"
    );
}

#[test]
fn replace_actions_become_cancel_then_place() {
    let effects = actions_to_effects(vec![
        ProtectionAction::Replace {
            id: ClientOrderId::new("mm", 1),
            new_price: Price::new(dec("3220")),
        },
        ProtectionAction::Alarm(Alarm::ReconcileTimeout {
            order: ClientOrderId::new("mm", 2),
            since: NOW,
        }),
    ]);

    assert!(matches!(effects[0], Effect::Cancel(_)), "改价必须先撤旧单");
    assert!(matches!(effects[1], Effect::Alarm(_)));
}

#[test]
fn fixed_pct_stop_resolves_by_side() {
    let spec = StopSpec::FixedPct { pct: dec("0.01") };
    assert_eq!(spec.resolve(dec("3200"), Side::Buy), dec("3168")); // 3200 - 32
    assert_eq!(spec.resolve(dec("3200"), Side::Sell), dec("3232")); // 3200 + 32
}
