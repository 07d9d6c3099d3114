use maker_desk::decimal::Decimal;
use maker_desk::error::{DomainError, RejectReason};
use maker_desk::instrument::{ContractKind, FeeSchedule, FeeSource, Instrument};
use maker_desk::margin::{cross_liquidation, CrossLiquidation, MarginAccount};
use maker_desk::money::{Price, Qty};
use maker_desk::order::{
    ClientOrderId, Effect, Order, OrderPurpose, OrderState, Side, TimeInForce,
};
use maker_desk::position_set::{
    fixes_to_effects, on_position_closed, on_take_profit_filled, preview_manual, ManualPlan,
    PositionSet, ProtectionFix,
};
use maker_desk::precision::{Precision, PriceRole};
use maker_desk::protection::{
    BreakEvenSpec, EntryFill, MarketSlice, ProtectionAction, ProtectionPlan, ProtectionPlanner,
    StopSpec, TpPlan, TpRung, TrailingSpec,
};
use maker_desk::risk::{check_entry, liquidation_warning, RiskLimits, RiskVerdict};
use maker_desk::state::{ExecEvent, Fill, OrderBookState, Position, QueryOutcome, TrackedOrder};
use maker_desk::strategy::StandDownReason;

const NOW: i64 = 1_750_000_000_000;

fn dec(text: &str) -> Decimal {
    Decimal::parse(text).unwrap()
}

fn instrument() -> Instrument {
    Instrument {
        symbol: "ETHUSDC".into(),
        kind: ContractKind::CryptoPerp,
        base_asset: "ETH".into(),
        quote_asset: "USDC".into(),
        margin_asset: "USDC".into(),
        settlement_asset: "USDC".into(),
        precision: Precision {
            tick_size: dec("0.01"),
            step_size: dec("0.001"),
            min_qty: dec("0.001"),
            min_notional: dec("5"),
        },
        maint_margin_pct: dec("2.5"),
        required_margin_pct: dec("5"),
        liquidation_fee: dec("0.0125"),
        fees: FeeSchedule {
            maker_rate: Decimal::zero(),
            taker_rate: dec("0.0005"),
            source: FeeSource::PromotionalAssumed,
            observed_at: NOW,
        },
    }
}

fn order(id: u64, purpose: OrderPurpose, side: Side, symbol: &str) -> Order {
    Order {
        client_id: ClientOrderId::new("mm", id),
        symbol: symbol.into(),
        purpose,
        side,
        quantity: Qty::new(dec("1")),
        limit_price: Price::new(dec("3200")),
        tif: TimeInForce::PostOnly,
        parent: None,
    }
}

fn fill(id: u64, trade: &str, qty: &str, px: &str) -> Fill {
    Fill {
        trade_id: trade.into(),
        client_id: ClientOrderId::new("mm", id),
        quantity: Qty::new(dec(qty)),
        price: Price::new(dec(px)),
        fee: dec("0.5"),
        fee_asset: "USDC".into(),
        at: NOW,
    }
}

fn held() -> OrderBookState {
    let mut s = OrderBookState::new();
    s.register(order(1, OrderPurpose::Entry, Side::Buy, "ETHUSDC"), NOW).unwrap();
    s.apply(ExecEvent::Filled(fill(1, "T1", "1", "3200")), NOW).unwrap();
    s
}

#[test]
fn ids_of_different_numbers_differ() {
    assert_ne!(ClientOrderId::new("mm", 12), ClientOrderId::new("mm:1", 2));
    assert_ne!(ClientOrderId::new("mm", 1), ClientOrderId::new("mn", 1));
    assert_eq!(ClientOrderId::new("mm", 0).as_str(), "mm:0");
    assert_eq!(
        ClientOrderId::new("mm", u64::MAX).as_str(),
        "mm:18446744073709551615"
    );
    assert_ne!(ClientOrderId::new("mm", 1).child("tp0"), ClientOrderId::new("mm", 1).child("tp1"));
    assert!(ClientOrderId::new("a", 1).same(&ClientOrderId::new("a", 1).clone()));
}

#[test]
fn a_finished_order_does_not_rest() {
    let filled = Qty::new(dec("1"));
    let avg = Price::new(dec("3"));
    for (state, open, terminal) in [
        (OrderState::PendingSubmit, false, false),
        (OrderState::Live, true, false),
        (OrderState::PartiallyFilled { filled, avg }, true, false),
        (OrderState::Filled { filled, avg }, false, true),
        (OrderState::Cancelled { filled }, false, true),
        (OrderState::Rejected { reason: RejectReason::InvalidQuantity }, false, true),
        (OrderState::Expired, false, true),
        (OrderState::Unknown { since: NOW, last_probe: None }, true, false),
    ] {
        assert_eq!(state.is_open(), open, "{state:?}");
        assert_eq!(state.is_terminal(), terminal, "{state:?}");
    }
    assert_eq!(OrderState::Cancelled { filled }.filled_quantity(), filled);
    assert_eq!(OrderState::Live.filled_quantity(), Qty::zero());
}

#[test]
fn a_trade_reported_again_changes_nothing_even_with_another_quantity() {
    let mut s = held();
    let effects = s.apply(ExecEvent::Filled(fill(1, "T1", "0.3", "9999")), NOW + 5).unwrap();
    assert!(effects.is_empty());
    assert_eq!(s.position("ETHUSDC").unwrap().quantity, Qty::new(dec("1")));
    assert_eq!(s.realized_pnl("USDC"), dec("0.5"));
}

#[test]
fn a_fill_never_takes_an_order_beyond_its_quantity() {
    let mut s = held();
    assert!(s.apply(ExecEvent::Filled(fill(1, "T2", "0.001", "3200")), NOW).is_err());
    assert_eq!(s.get(&ClientOrderId::new("mm", 1)).unwrap().filled, Qty::new(dec("1")));
}

#[test]
fn no_event_sends_an_order() {
    let mut s = OrderBookState::new();
    s.register(order(1, OrderPurpose::Entry, Side::Buy, "ETHUSDC"), NOW).unwrap();
    let id = ClientOrderId::new("mm", 1);
    let events = [
        ExecEvent::Accepted { client_id: id.clone(), exchange_id: "E".into() },
        ExecEvent::Unknown { client_id: id.clone(), at: NOW },
        ExecEvent::Filled(fill(1, "T1", "0.5", "3200")),
        ExecEvent::Cancelled { client_id: id.clone(), filled: Qty::new(dec("0.5")) },
    ];
    for event in events {
        let effects = s.apply(event, NOW).unwrap();
        assert!(effects.iter().all(|e| !matches!(e, Effect::Submit(_))));
        assert!(s.get(&id).is_some());
        assert_eq!(s.get(&id).unwrap().order, order(1, OrderPurpose::Entry, Side::Buy, "ETHUSDC"));
    }
}

#[test]
fn a_reducing_fill_leaves_other_symbols_alone() {
    let mut s = held();
    s.register(order(2, OrderPurpose::Entry, Side::Sell, "BTCUSDC"), NOW).unwrap();
    s.apply(ExecEvent::Filled(fill(2, "T2", "1", "60000")), NOW).unwrap();
    s.register(order(3, OrderPurpose::StopLoss, Side::Sell, "ETHUSDC"), NOW).unwrap();
    s.apply(ExecEvent::Filled(fill(3, "T3", "0.4", "3190")), NOW).unwrap();
    let eth = s.position("ETHUSDC").unwrap();
    assert_eq!((eth.side, eth.quantity), (Side::Buy, Qty::new(dec("0.6"))));
    assert_eq!(eth.entry_price, Price::new(dec("3200")));
    let btc = s.position("BTCUSDC").unwrap();
    assert_eq!((btc.side, btc.quantity), (Side::Sell, Qty::new(dec("1"))));
    let symbols: Vec<&str> = s.all_positions().iter().map(|p| p.symbol.as_str()).collect();
    assert_eq!(symbols, vec!["BTCUSDC", "ETHUSDC"]);
}

#[test]
fn a_final_order_is_not_accepted_and_stays_as_it_was() {
    let mut s = held();
    let id = ClientOrderId::new("mm", 1);
    let e = s
        .apply(ExecEvent::Accepted { client_id: id.clone(), exchange_id: "E9".into() }, NOW)
        .unwrap_err();
    assert!(matches!(e, DomainError::IllegalTransition(_)));
    assert_eq!(s.get(&id).unwrap().exchange_id, None);
}

#[test]
fn a_final_order_is_moved_by_nothing() {
    let id = ClientOrderId::new("mm", 1);
    let endings = [
        ExecEvent::Filled(fill(1, "T1", "1", "3200")),
        ExecEvent::Rejected { client_id: id.clone(), reason: RejectReason::InsufficientMargin },
        ExecEvent::Cancelled { client_id: id.clone(), filled: Qty::zero() },
        ExecEvent::Expired { client_id: id.clone() },
    ];
    for ending in endings {
        let mut s = OrderBookState::new();
        s.register(order(1, OrderPurpose::Entry, Side::Buy, "ETHUSDC"), NOW).unwrap();
        s.apply(ending, NOW).unwrap();
        let before = s.get(&id).unwrap().clone();
        let later = [
            ExecEvent::Accepted { client_id: id.clone(), exchange_id: "E9".into() },
            ExecEvent::Rejected { client_id: id.clone(), reason: RejectReason::PostOnlyWouldCross },
            ExecEvent::Cancelled { client_id: id.clone(), filled: Qty::new(dec("0.5")) },
            ExecEvent::Expired { client_id: id.clone() },
            ExecEvent::Unknown { client_id: id.clone(), at: NOW },
        ];
        for event in later {
            let e = s.apply(event, NOW + 1).unwrap_err();
            assert!(matches!(e, DomainError::IllegalTransition(_)));
        }
        let e = s.resolve_query(&id, QueryOutcome::NotFound, NOW + 1).unwrap_err();
        assert!(matches!(e, DomainError::IllegalTransition(_)));
        let after = s.get(&id).unwrap();
        assert_eq!((&after.state, after.filled), (&before.state, before.filled));
        assert_eq!((after.updated_at, &after.exchange_id), (NOW, &before.exchange_id));
    }
}

#[test]
fn looking_an_order_up_ends_the_uncertainty() {
    let outcomes = [
        QueryOutcome::StillOpen { exchange_id: "E1".into() },
        QueryOutcome::Filled { filled: Qty::new(dec("1")), avg: Price::new(dec("3200")) },
        QueryOutcome::Cancelled { filled: Qty::zero() },
        QueryOutcome::NotFound,
    ];
    for outcome in outcomes {
        let mut s = OrderBookState::new();
        let id = ClientOrderId::new("mm", 1);
        s.register(order(1, OrderPurpose::Entry, Side::Buy, "ETHUSDC"), NOW).unwrap();
        s.apply(ExecEvent::Unknown { client_id: id.clone(), at: NOW }, NOW).unwrap();
        assert_eq!(s.unresolved(), vec![id.clone()]);
        s.resolve_query(&id, outcome, NOW).unwrap();
        assert!(s.unresolved().is_empty());
    }
    let mut s = OrderBookState::new();
    assert!(s.resolve_query(&ClientOrderId::new("x", 1), QueryOutcome::NotFound, NOW).is_err());
}

#[test]
fn a_stop_is_noted_only_on_a_position() {
    let mut s = held();
    s.set_stop("ETHUSDC", Price::new(dec("3190"))).unwrap();
    assert_eq!(s.position("ETHUSDC").unwrap().stop_price, Some(Price::new(dec("3190"))));
    assert!(s.set_stop("BTCUSDC", Price::new(dec("1"))).is_err());
    assert_eq!(s.position("ETHUSDC").unwrap().side_stable_tag(), "long");
}

fn set() -> PositionSet {
    let position = Position {
        symbol: "ETHUSDC".into(),
        side: Side::Buy,
        quantity: Qty::new(dec("1")),
        entry_price: Price::new(dec("3200")),
        opened_at: NOW,
        stop_price: Some(Price::new(dec("3190"))),
    };
    PositionSet::new(
        &position,
        ProtectionPlan {
            stop: StopSpec::AtPrice { price: dec("3190") },
            break_even: Some(BreakEvenSpec { trigger_r: Decimal::one(), offset: dec("1") }),
            trailing: None,
            timed_cancel: None,
        },
        TpPlan::Ladder {
            rungs: vec![
                TpRung { pct: dec("0.01"), fraction: dec("0.4") },
                TpRung { pct: dec("0.02"), fraction: dec("0.6") },
            ],
        },
    )
}

fn resting(id: &str, purpose: OrderPurpose, qty: &str) -> TrackedOrder {
    TrackedOrder {
        order: Order {
            client_id: ClientOrderId(id.into()),
            quantity: Qty::new(dec(qty)),
            ..order(9, purpose, Side::Sell, "ETHUSDC")
        },
        state: OrderState::Live,
        exchange_id: None,
        filled: Qty::zero(),
        avg_price: None,
        updated_at: NOW,
    }
}

#[test]
fn the_next_target_is_the_first_that_is_open() {
    let mut s = set();
    assert_eq!(s.next_rung(), Some(0));
    assert_eq!(s.total_tp_fraction(), dec("1.0"));
    on_take_profit_filled(&mut s, 1, Qty::new(dec("0.6")), &[]).unwrap();
    assert_eq!(s.next_rung(), Some(0));
    assert_eq!(s.rung_quantity(0), Qty::new(dec("0.4")));
    on_take_profit_filled(&mut s, 0, Qty::new(dec("0.3")), &[]).unwrap();
    assert_eq!(s.next_rung(), None);
    s.set_tp_order_ids(vec![ClientOrderId::new("a", 1)]);
    assert_eq!(s.tp_order_ids.len(), 1);
}

#[test]
fn a_refused_target_changes_nothing() {
    let mut s = set();
    for (rung, qty) in [(0, "1.001"), (7, "0.1")] {
        let e = on_take_profit_filled(&mut s, rung, Qty::new(dec(qty)), &[]).unwrap_err();
        assert!(matches!(e, DomainError::IllegalTransition(_)));
        assert!(s.completed_rungs.is_empty());
        assert_eq!(s.quantity, Qty::new(dec("1")));
        assert_eq!(s.stop_price, Some(Price::new(dec("3190"))));
    }
    on_take_profit_filled(&mut s, 0, Qty::new(dec("0.4")), &[]).unwrap();
    assert_eq!(s.completed_rungs, vec![0]);
}

#[test]
fn a_filled_target_tightens_the_stop_and_never_loosens_it() {
    let mut s = set();
    let stop = resting("stop", OrderPurpose::StopLoss, "1");
    let fixes = on_take_profit_filled(&mut s, 0, Qty::new(dec("0.4")), &[&stop]).unwrap();
    assert_eq!(s.stop_price, Some(Price::new(dec("3201"))));
    match &fixes[..] {
        [ProtectionFix::Replace(o)] => {
            assert_eq!(o.quantity, Qty::new(dec("0.6")));
            assert_eq!(o.purpose, OrderPurpose::StopLoss);
        }
        other => panic!("{other:?}"),
    }
    s.stop_price = Some(Price::new(dec("3250")));
    on_take_profit_filled(&mut s, 1, Qty::new(dec("0.1")), &[]).unwrap();
    assert_eq!(s.stop_price, Some(Price::new(dec("3250"))));
}

#[test]
fn closing_cancels_every_order_that_may_rest() {
    let live = resting("a", OrderPurpose::TakeProfit, "1");
    let mut done = resting("b", OrderPurpose::TakeProfit, "1");
    done.state = OrderState::Expired;
    let mut unsure = resting("c", OrderPurpose::StopLoss, "1");
    unsure.state = OrderState::Unknown { since: NOW, last_probe: None };
    let effects = fixes_to_effects(on_position_closed(&[&live, &done, &unsure]));
    assert_eq!(
        effects,
        vec![
            Effect::Cancel(ClientOrderId("a".into())),
            Effect::Cancel(ClientOrderId("c".into())),
        ]
    );
}

#[test]
fn the_view_of_a_position_shows_its_targets() {
    let mut s = set();
    on_take_profit_filled(&mut s, 0, Qty::new(dec("0.4")), &[]).unwrap();
    let v = s.view(Price::new(dec("3210")), dec("12"));
    assert_eq!(v.unrealized_pnl, dec("6"));
    assert_eq!(v.realized_pnl, dec("12"));
    assert_eq!(v.rungs.len(), 2);
    assert!(v.rungs[0].filled && !v.rungs[1].filled);
    assert_eq!(v.rungs[1].price, dec("3264"));
    assert!(!v.stop_triggered);
}

#[test]
fn protection_only_reduces_and_starts_with_the_stop() {
    for side in [Side::Buy, Side::Sell] {
        let price = if side == Side::Buy { "3190" } else { "3210" };
        let actions = ProtectionPlanner::compile(
            &instrument(),
            &EntryFill {
                symbol: "ETHUSDC".into(),
                entry_order_id: ClientOrderId::new("mm", 7),
                side,
                price: Price::new(dec("3200")),
                quantity: Qty::new(dec("0.5")),
            },
            &ProtectionPlan {
                stop: StopSpec::AtPrice { price: dec(price) },
                break_even: None,
                trailing: None,
                timed_cancel: None,
            },
            &TpPlan::Single { pct: dec("0.01") },
        )
        .unwrap();
        assert_eq!(actions.len(), 2);
        for (i, action) in actions.iter().enumerate() {
            match action {
                ProtectionAction::Place(o) => {
                    assert!(o.reduce_only());
                    assert_eq!(o.side, side.opposite());
                    assert_eq!(o.parent, Some(ClientOrderId::new("mm", 7)));
                    assert_eq!(o.purpose == OrderPurpose::StopLoss, i == 0);
                }
                other => panic!("{other:?}"),
            }
        }
    }
}

#[test]
fn a_short_position_trails_its_stop_down() {
    let position = Position {
        symbol: "ETHUSDC".into(),
        side: Side::Sell,
        quantity: Qty::new(dec("1")),
        entry_price: Price::new(dec("3200")),
        opened_at: NOW,
        stop_price: Some(Price::new(dec("3205"))),
    };
    let plan = ProtectionPlan {
        stop: StopSpec::AtPrice { price: dec("3205") },
        break_even: None,
        trailing: Some(TrailingSpec { distance: dec("10"), activate_at: None }),
        timed_cancel: None,
    };
    let slice = |low: &str| MarketSlice {
        bid: Price::new(dec("3180")),
        ask: Price::new(dec("3182")),
        high_since_entry: Price::new(dec("3201")),
        low_since_entry: Price::new(dec(low)),
    };
    let stops = |low: &str| -> Vec<Decimal> {
        ProtectionPlanner::on_market(
            &instrument(),
            "ETHUSDC",
            &position,
            &[],
            &slice(low),
            &plan,
            NOW,
        )
        .unwrap()
        .iter()
        .filter_map(|a| match a {
            ProtectionAction::Place(o) => Some(o.limit_price.get()),
            _ => None,
        })
        .collect()
    };
    assert_eq!(stops("3180"), vec![dec("3190")]);
    assert_eq!(stops("3199"), Vec::<Decimal>::new());
    assert_eq!(slice("3180").mid(), Price::new(dec("3181")));
}

#[test]
fn the_two_sides_of_a_role_round_apart() {
    let p = instrument().precision;
    for role in [PriceRole::PassiveEntry, PriceRole::TakeProfit, PriceRole::StopLoss] {
        let buy = p.price_for(Side::Buy, dec("3200.005"), role).unwrap().get();
        let sell = p.price_for(Side::Sell, dec("3200.005"), role).unwrap().get();
        assert_eq!((buy - sell).abs(), dec("0.01"), "{role:?}");
    }
}

#[test]
fn a_passed_entry_has_its_stop_before_liquidation() {
    let limits = RiskLimits {
        max_stop_pct: dec("1"),
        min_reward_risk: dec("0"),
        max_feed_staleness_secs: 15,
    };
    let i = instrument();
    let estimate = i.liquidation_price_estimate(dec("3200"), dec("20"), true).unwrap();
    assert_eq!(estimate, dec("3120"));
    let pass = |stop: &str| {
        check_entry(&i, Side::Buy, dec("3200"), dec(stop), dec("3300"), dec("20"), &limits)
    };
    assert_eq!(pass("3120.01"), RiskVerdict::Pass);
    assert_eq!(pass("3120"), RiskVerdict::Reject(StandDownReason::StopInsideLiquidation));
    assert!(i.stop_precedes_liquidation(dec("3200"), dec("3121"), dec("20"), true));
    assert!(!i.stop_precedes_liquidation(dec("3200"), dec("3119"), dec("20"), true));
    assert!(i.stop_precedes_liquidation(dec("3200"), dec("3279"), dec("20"), false));
}

#[test]
fn a_liquidation_price_is_positive() {
    for wallet in ["81", "160", "1000", "3199"] {
        let account = MarginAccount::flat("USDC".to_string(), dec(wallet));
        match cross_liquidation(
            &instrument(),
            &account,
            Side::Buy,
            dec("3200"),
            Qty::new(dec("1")),
        )
        .unwrap()
        {
            CrossLiquidation::At(price) => assert!(price.is_positive(), "{wallet}"),
            other => panic!("{wallet}: {other:?}"),
        }
    }
}

#[test]
fn a_warning_measures_the_way_from_stop_to_liquidation() {
    let w = liquidation_warning(&instrument(), Side::Buy, dec("3200"), dec("3136"), dec("20"));
    assert_eq!(w.liquidation_price, Some(Price::new(dec("3120"))));
    assert_eq!(w.buffer_pct, Some(dec("0.005")));
    assert!(!w.dangerous);
}

fn wish() -> ManualPlan {
    ManualPlan {
        symbol: "ETHUSDC".into(),
        side: Side::Buy,
        entry: dec("3200"),
        quantity: Some(Qty::new(dec("0.1"))),
        size_pct: None,
        leverage: dec("20"),
        stop: dec("3184"),
        take_profit: TpPlan::Ladder {
            rungs: vec![
                TpRung { pct: dec("0.01"), fraction: dec("0.5") },
                TpRung { pct: dec("0.02"), fraction: dec("0.5") },
            ],
        },
        break_even: None,
        trailing: None,
        cancel_unfilled_after: None,
        client_ref: "x".into(),
    }
}

#[test]
fn a_preview_shows_what_each_target_brings() {
    let limits = RiskLimits::default();
    let p = preview_manual(&instrument(), &wish(), dec("10000"), dec("3200"), &limits).unwrap();
    assert!(p.accepted, "{:?}", p.reject_reason);
    assert_eq!((p.notional, p.margin_required), (dec("320"), dec("16")));
    assert_eq!(p.liquidation_buffer_pct, Some(dec("0.02")));
    let closed = p.take_profits[0].quantity.get() + p.take_profits[1].quantity.get();
    assert!(closed <= p.quantity.get());
    let first = p.take_profits[0];
    assert_eq!((first.price.get(), first.quantity.get()), (dec("3232"), dec("0.05")));
    assert_eq!((first.gross_profit, first.distance_bp), (dec("1.6"), dec("100")));
}

#[test]
fn a_refused_plan_says_why() {
    let strict = RiskLimits { max_stop_pct: dec("0.001"), ..RiskLimits::default() };
    let p = preview_manual(&instrument(), &wish(), dec("10000"), dec("3200"), &strict).unwrap();
    assert!(!p.accepted);
    assert_eq!(p.reject_reason.as_deref(), Some(StandDownReason::StopTooWide.message()));
}

#[test]
fn the_sizes_of_targets_stay_parts_of_the_whole_position() {
    let mut s = set();
    on_take_profit_filled(&mut s, 0, Qty::new(dec("0.4")), &[]).unwrap();
    assert_eq!(s.quantity, Qty::new(dec("0.6")));
    assert_eq!(s.rung_quantity(0), Qty::new(dec("0.4")));
    assert_eq!(s.rung_quantity(1), Qty::new(dec("0.6")));
    assert_eq!(s.rung_quantity(2), Qty::zero());
}

#[test]
fn an_aligned_price_is_left_alone() {
    let p = instrument().precision;
    for side in [Side::Buy, Side::Sell] {
        for role in [PriceRole::PassiveEntry, PriceRole::TakeProfit, PriceRole::StopLoss] {
            let once = p.price_for(side, dec("3200.0051"), role).unwrap();
            assert_eq!(once.get().scale(), 2);
            assert_eq!(p.price_for(side, once.get(), role), Ok(once));
        }
    }
    assert!(p.price_for(Side::Buy, dec("0.009"), PriceRole::PassiveEntry).is_err());
    assert_eq!(
        p.price_for(Side::Sell, dec("0.009"), PriceRole::PassiveEntry),
        Ok(Price::new(dec("0.01")))
    );
}

#[test]
fn a_liquidation_price_solves_the_condition() {
    let account = MarginAccount::flat("USDC".into(), dec("100"));
    let (q, entry, mmr) = (dec("1"), dec("3200"), dec("0.025"));
    for (side, sign) in [(Side::Buy, dec("1")), (Side::Sell, dec("-1"))] {
        match cross_liquidation(&instrument(), &account, side, entry, Qty::new(q)) {
            Ok(CrossLiquidation::At(p)) => {
                let have = dec("100") + sign * q * (p - entry);
                assert!((have - q * p * mmr).abs() < dec("0.0000000000000000000001"), "{side:?}");
            }
            other => panic!("{other:?}"),
        }
    }
}
