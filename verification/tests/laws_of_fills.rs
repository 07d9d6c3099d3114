use maker_desk::backtest::{
    compare_models, compile_protection, compute_markout, find_gaps, is_order_open, position_of,
    run, BacktestConfig, EquityPoint, ExitKind,
};
use maker_desk::decimal::Decimal;
use maker_desk::fill::{
    FillContext, FillModel, FillOutcome, M0WickTouchFull, M1TradeThroughQueue, Optimism,
};
use maker_desk::instrument::{ContractKind, FeeSchedule, FeeSource, Instrument};
use maker_desk::liquidity::{Trade, TradeTape};
use maker_desk::market::{AggTrade, Candle, MarketEvent};
use maker_desk::metrics::{summarize_stop_exposures, StopExposure, StopResolution};
use maker_desk::money::{Price, Qty};
use maker_desk::order::{ClientOrderId, Order, OrderPurpose, Side, TimeInForce};
use maker_desk::paper::{EngineConfig, EngineEvent, PaperEngine, SubmitOutcome};
use maker_desk::position_set::ManualPlan;
use maker_desk::precision::Precision;
use maker_desk::protection::{EntryFill, ProtectionPlan, StopSpec, TpPlan};
use maker_desk::risk::RiskLimits;
use maker_desk::state::OrderBookState;
use maker_desk::strategy::{
    EnterRequest, MarketView, ParameterSpec, SizeHint, StandDownReason, Strategy, StrategyIntent,
};

const T0: i64 = 1_785_542_400_000;

fn dec(text: &str) -> Decimal {
    Decimal::parse(text).unwrap()
}

fn instrument() -> Instrument {
    Instrument {
        symbol: "ETHUSDC".into(),
        kind: ContractKind::CryptoPerp,
        base_asset: "ETH".into(),
        quote_asset: "USDC".into(),
        margin_asset: "USDC".into(),
        settlement_asset: "USDC".into(),
        precision: Precision {
            tick_size: dec("0.01"),
            step_size: dec("0.001"),
            min_qty: dec("0.001"),
            min_notional: dec("5"),
        },
        maint_margin_pct: dec("2.5"),
        required_margin_pct: dec("5"),
        liquidation_fee: dec("0.0125"),
        fees: FeeSchedule {
            maker_rate: dec("0.0001"),
            taker_rate: dec("0.0005"),
            source: FeeSource::ExchangeAccount,
            observed_at: T0,
        },
    }
}

fn limits() -> RiskLimits {
    RiskLimits {
        max_stop_pct: dec("0.05"),
        min_reward_risk: dec("0.1"),
        max_feed_staleness_secs: 15,
    }
}

fn trade(id: u64, ms: i64, px: &str, buyer_maker: bool) -> Trade {
    Trade {
        trade_id: id,
        price: Price::new(dec(px)),
        quantity: Qty::new(dec("1")),
        is_buyer_maker: buyer_maker,
        at: T0 + ms,
    }
}

fn order(side: Side, limit: &str) -> Order {
    Order {
        client_id: ClientOrderId::new("t", 1),
        symbol: "ETHUSDC".into(),
        purpose: OrderPurpose::Entry,
        side,
        quantity: Qty::new(dec("2")),
        limit_price: Price::new(dec(limit)),
        tif: TimeInForce::PostOnly,
        parent: None,
    }
}

#[test]
fn what_the_honest_model_fills_the_optimistic_one_fills_too() {
    let tapes = [
        vec![trade(1, 1, "3200", true)],
        vec![trade(1, 1, "3200", false)],
        vec![trade(1, 1, "3201", true)],
        vec![trade(1, 1, "3199", false), trade(2, 2, "3198", true)],
        vec![],
    ];
    for trades in tapes {
        let tape = TradeTape::from_trades(trades);
        let o = order(Side::Buy, "3200");
        let ctx = FillContext {
            order: &o,
            tape: &tape,
            placed_at: T0,
            tick_size: dec("0.01"),
        };
        let m0 = M0WickTouchFull.evaluate(&ctx);
        let m1 = M1TradeThroughQueue::default().evaluate(&ctx);
        if m1.is_filled() {
            assert_eq!(m0, m1);
            assert_eq!(m1.price_or(dec("0")), dec("3200"));
        }
    }
    let none = FillOutcome::Unfilled;
    assert_eq!((none.filled_quantity(), none.price_or(dec("7"))), (dec("0"), dec("7")));
    let part = FillOutcome::Partial { quantity: dec("1"), price: dec("3") };
    assert_eq!(part.quantity_for(&order(Side::Buy, "3")), dec("1"));
    assert!(M0WickTouchFull.data_requirements().contains("OHLCV"));
}

#[test]
fn a_tape_holds_what_was_put_in_in_order() {
    let mut tape = TradeTape::new();
    for t in [trade(3, 30, "3", true), trade(1, 10, "1", true), trade(2, 10, "2", true)] {
        tape.push(t);
    }
    let ids = |v: &[Trade]| v.iter().map(|t| t.trade_id).collect::<Vec<u64>>();
    assert_eq!(ids(tape.trades()), vec![1, 2, 3]);
    assert_eq!(ids(tape.window(T0 + 10, T0 + 30)), vec![1, 2]);
    assert_eq!(ids(tape.window(T0 + 30, T0 + 10)), Vec::<u64>::new());
    assert_eq!(ids(tape.since(T0 + 11).trades()), vec![3]);
    assert_eq!(ids(tape.part(T0, T0 + 30).trades()), vec![1, 2]);
    assert_eq!(ids(tape.part_through(T0, T0 + 30).trades()), vec![1, 2, 3]);
    let copy = tape.clone();
    tape.prune_before(T0 + 30);
    assert_eq!((tape.len(), copy.len()), (1, 3));
    let agg = AggTrade {
        trade_id: 9,
        price: Price::new(dec("1")),
        quantity: Qty::new(dec("1")),
        is_buyer_maker: true,
        at: T0,
    };
    assert_eq!(Trade::from(agg).trade_id, 9);
}

#[test]
fn durations_are_put_in_order() {
    let exposure = |secs: i64| StopExposure {
        triggered_at: T0,
        resolved_at: T0 + secs * 1_000,
        resolution: StopResolution::StillOpenAtEnd,
        resolved_price: dec("1"),
        stop_price: dec("1"),
        slippage: dec("0"),
    };
    let s = summarize_stop_exposures(&[exposure(50), exposure(-9), exposure(20)]);
    assert_eq!((s.median_exposure_secs, s.max_exposure_secs), (20, 50));
}

struct Buyer;

impl Strategy for Buyer {
    fn id(&self) -> &'static str {
        "buyer"
    }
    fn name(&self) -> &'static str {
        "buyer"
    }
    fn parameters(&self) -> Vec<ParameterSpec> {
        vec![]
    }
    fn warmup_candles(&self) -> usize {
        0
    }
    fn evaluate(&self, view: &MarketView<'_>) -> Option<StrategyIntent> {
        Some(StrategyIntent::Enter(Box::new(EnterRequest {
            side: Side::Buy,
            entry: dec("3200"),
            stop: dec("3190"),
            take_profit: TpPlan::Single { pct: dec("0.005") },
            protection: ProtectionPlan {
                stop: StopSpec::AtPrice { price: dec("3190") },
                break_even: None,
                trailing: None,
                timed_cancel: None,
            },
            size: SizeHint::Fixed(dec("0.1")),
            valid_until: view.now + 600_000,
        })))
    }
}

fn candle(minute: i64, low: &str, high: &str) -> MarketEvent {
    MarketEvent::Kline(Candle {
        open_time: T0 + minute * 60_000,
        open: dec("3200"),
        high: dec(high),
        low: dec(low),
        close: dec("3200"),
        volume: dec("1"),
        closed: true,
    })
}

fn config() -> BacktestConfig {
    BacktestConfig {
        instrument: instrument(),
        limits: limits(),
        initial_equity: dec("10000"),
        lookback: 1,
        assumed_latency_ms: 100,
        allow_gaps: false,
        fee_source: FeeSource::ExchangeAccount,
        standard_maker_rate: dec("0.0002"),
    }
}

#[test]
fn a_run_starts_with_its_equity_and_ends_flat() {
    let events: Vec<MarketEvent> = (0..6).map(|i| candle(i, "3195", "3205")).collect();
    let tape = TradeTape::from_trades(vec![trade(1, 130_000, "3200", true)]);
    let r = run(&config(), &events, &tape, &Buyer, &M1TradeThroughQueue::default(), T0);
    assert_eq!(r.equity_curve[0].equity, dec("10000"));
    assert_eq!(r.trades.last().unwrap().exit_reason, ExitKind::ForcedAtEnd);
    assert!(!r.provenance.fees.incomplete);
    assert_eq!(r.metrics.m1_final_equity, r.equity_curve.last().unwrap().equity);
}

#[test]
fn a_run_does_not_look_ahead_to_fill_an_entry() {
    let events: Vec<MarketEvent> = (0..4).map(|i| candle(i, "3195", "3205")).collect();
    let early = TradeTape::from_trades(vec![trade(1, 1, "3200", true)]);
    let late = TradeTape::from_trades(vec![trade(1, 9_000_000, "3200", true)]);
    for tape in [early, late] {
        let r = run(&config(), &events, &tape, &Buyer, &M1TradeThroughQueue::default(), T0);
        assert_eq!(r.trades.len(), 0);
    }
}

#[test]
fn a_stop_comes_before_a_target() {
    let mut events: Vec<MarketEvent> = (0..3).map(|i| candle(i, "3195", "3205")).collect();
    events.push(agg(200_000, "3180", true));
    events.push(agg(210_000, "3300", false));
    let tape = TradeTape::from_trades(vec![
        trade(1, 130_000, "3200", true),
        trade(2, 200_000, "3180", true),
        trade(3, 210_000, "3300", false),
    ]);
    let r = run(&config(), &events, &tape, &Buyer, &M1TradeThroughQueue::default(), T0);
    assert_eq!(r.trades[0].exit_reason, ExitKind::StopLoss);
    assert_eq!(r.trades[0].exit_price, dec("3190"));
}

#[test]
fn a_run_does_not_look_ahead_to_fill_an_exit() {
    let mut events: Vec<MarketEvent> = (0..3).map(|i| candle(i, "3195", "3205")).collect();
    events.push(agg(200_000, "3216", true));
    let tape = TradeTape::from_trades(vec![
        trade(1, 130_000, "3200", true),
        trade(2, 200_000, "3216", true),
        trade(3, 200_500, "3216", false),
    ]);
    let m1 = M1TradeThroughQueue::default();
    let r = run(&config(), &events, &tape, &Buyer, &m1, T0);
    assert_eq!(r.trades[0].exit_reason, ExitKind::ForcedAtEnd);
    events.push(MarketEvent::Clock(T0 + 200_500));
    let r = run(&config(), &events, &tape, &Buyer, &m1, T0);
    assert_eq!(r.trades[0].exit_reason, ExitKind::TakeProfit);
    assert_eq!((r.trades[0].exit_at, r.trades[0].exit_price), (T0 + 200_500, dec("3216")));
}

struct Tuned;

impl Strategy for Tuned {
    fn id(&self) -> &'static str {
        "tuned"
    }
    fn name(&self) -> &'static str {
        "tuned"
    }
    fn parameters(&self) -> Vec<ParameterSpec> {
        let spec = |key: &str, value: &str| ParameterSpec {
            key: key.into(),
            label: "l".into(),
            description: "d".into(),
            unit: None,
            default: dec(value),
            min: dec("0"),
            max: dec("9"),
        };
        vec![spec("b", "0.50"), spec("a", "3"), spec("b", "0.75")]
    }
    fn warmup_candles(&self) -> usize {
        0
    }
    fn evaluate(&self, _view: &MarketView<'_>) -> Option<StrategyIntent> {
        None
    }
}

#[test]
fn a_result_notes_the_parameters_and_the_gaps() {
    let mut events: Vec<MarketEvent> = vec![candle(0, "1", "2"), candle(1, "1", "2")];
    let tape = TradeTape::new();
    let m0 = M0WickTouchFull;
    let r = run(&config(), &events, &tape, &Tuned, &m0, T0);
    let params = &r.provenance.strategy_params;
    assert_eq!(params.len(), 2);
    assert_eq!(params.get("a").map(String::as_str), Some("3"));
    assert_eq!(params.get("b").map(String::as_str), Some("0.75"));
    let gaps = r.provenance.gaps;
    assert_eq!((gaps.gap_count, gaps.total_missing_secs, gaps.allowed_by_flag), (0, 0, false));
    events.push(candle(4, "1", "2"));
    events.push(candle(4, "1", "2"));
    events.push(candle(6, "1", "2"));
    let gaps = find_gaps(&events, true);
    assert_eq!((gaps.gap_count, gaps.total_missing_secs, gaps.allowed_by_flag), (2, 180, true));
    assert_eq!(run(&config(), &events, &tape, &Tuned, &m0, T0).provenance.gaps.gap_count, 2);
    assert_eq!(find_gaps(&[], false).gap_count, 0);
}

#[test]
fn an_order_is_filled_by_more_than_what_queued_ahead() {
    let o = order(Side::Sell, "3200");
    let tape = TradeTape::from_trades(vec![
        trade(1, 1, "3200", false),
        trade(2, 2, "3201", true),
        trade(3, 3, "3199", false),
        trade(4, 4, "3205", false),
    ]);
    let ctx =
        FillContext { order: &o, tape: &tape, placed_at: T0, tick_size: dec("0.01") };
    let full = FillOutcome::Full { price: dec("3200") };
    assert_eq!(M1TradeThroughQueue::new(dec("1.999")).evaluate(&ctx), full);
    assert_eq!(M1TradeThroughQueue::new(dec("2")).evaluate(&ctx), FillOutcome::Unfilled);
    assert_eq!(M0WickTouchFull.evaluate(&ctx), full);
}

fn engine() -> PaperEngine {
    PaperEngine::new(EngineConfig {
        instrument: instrument(),
        limits: limits(),
        initial_equity: dec("10000"),
        assumed_latency_ms: 100,
        max_candles: 120,
        max_staleness_secs: 15,
    })
}

fn plan() -> ManualPlan {
    ManualPlan {
        symbol: "ETHUSDC".into(),
        side: Side::Buy,
        entry: dec("3200.005"),
        quantity: Some(Qty::new(dec("0.1005"))),
        size_pct: None,
        leverage: dec("3"),
        stop: dec("3190"),
        take_profit: TpPlan::Single { pct: dec("0.005") },
        break_even: None,
        trailing: None,
        cancel_unfilled_after: None,
        client_ref: "x".into(),
    }
}

fn agg(ms: i64, px: &str, buyer_maker: bool) -> MarketEvent {
    MarketEvent::AggTrade(AggTrade {
        trade_id: ms as u64,
        price: Price::new(dec(px)),
        quantity: Qty::new(dec("1")),
        is_buyer_maker: buyer_maker,
        at: T0 + ms,
    })
}

#[test]
fn what_is_shown_is_what_is_placed() {
    let mut e = engine();
    e.set_feed_connected(true);
    let shown = e.preview_manual_plan(&plan(), T0).unwrap();
    assert_eq!((shown.entry.get(), shown.quantity.get()), (dec("3200.00"), dec("0.100")));
    match e.submit_manual(&plan(), T0) {
        SubmitOutcome::Accepted(p) => assert_eq!(*p, shown),
        other => panic!("{other:?}"),
    }
    let resting = e.snapshot().open_orders;
    assert_eq!(resting.len(), 1);
    assert_eq!((resting[0].limit_price, resting[0].quantity), (dec("3200"), dec("0.1")));
    assert!(matches!(e.submit_manual(&plan(), T0), SubmitOutcome::Rejected { .. }));
    assert_eq!(e.snapshot().open_orders.len(), 1);
}

#[test]
fn trades_from_before_an_order_do_not_fill_it() {
    let mut e = engine();
    e.set_feed_connected(true);
    e.on_market_event(agg(1, "3190", true), &Buyer);
    let _ = e.submit_manual(&plan(), T0 + 10);
    e.on_market_event(agg(20, "3300", true), &Buyer);
    assert!(e.position_set().is_none());
    e.on_market_event(agg(30, "3200", true), &Buyer);
    assert!(e.position_set().is_some());
    assert!(e.check_consistency().is_none());
    assert_eq!(position_of(e.state(), "ETHUSDC").is_some(), e.position_set().is_some());
    assert_eq!(e.total_fees(), dec("0.032"));
    assert_eq!(e.unrealized_pnl(), dec("0"));
    assert_eq!(e.realized_pnl() + e.config().initial_equity, e.equity());
}

#[test]
fn a_stop_that_is_not_filled_is_reported_and_the_position_stays() {
    let mut e = engine();
    e.set_feed_connected(true);
    let _ = e.submit_manual(&plan(), T0);
    e.on_market_event(agg(10, "3200", true), &Buyer);
    let _ = e.drain_events();
    e.on_market_event(agg(20, "3180", true), &Buyer);
    assert!(e.drain_events().iter().any(|ev| matches!(ev, EngineEvent::Alarm(_))));
    assert_eq!(e.position_set().unwrap().quantity, Qty::new(dec("0.1")));
    let closed = e.close_position_manually(T0 + 30).unwrap();
    assert!(closed.is_negative());
    assert!(e.position_set().is_none());
}

#[test]
fn stale_quotes_open_nothing() {
    let mut e = engine();
    e.on_market_event(candle(0, "3190", "3210"), &Buyer);
    let s = e.snapshot();
    assert!(s.open_orders.is_empty() && s.position.is_none());
    assert_eq!(s.stand_down, Some(StandDownReason::StaleFeed.message()));
    assert!(!e.feed_is_fresh(T0));
    e.set_feed_connected(true);
    e.on_market_event(candle(1, "3190", "3210"), &Buyer);
    assert_eq!(e.snapshot().open_orders.len(), 1);
    assert_eq!(e.latency_stats().0, 1);
    assert!(e.cancel_pending());
    e.take_answer(None, T0);
    assert!(e.snapshot().open_orders.is_empty());
}

#[test]
fn another_model_can_be_put_in() {
    let mut e = PaperEngine::with_fill_model(engine().config().clone(), M0WickTouchFull);
    assert_eq!(e.fill_model_info().1, Optimism::UpperBound);
    e.set_feed_connected(true);
    let _ = e.submit_manual(&plan(), T0);
    e.on_market_event(agg(10, "3200", false), &Buyer);
    assert!(e.position_set().is_some());
    assert_eq!(e.rung_summary().get("止盈第 1 档"), Some(&0));
    e.safety_mut().mark_user_stream_connected(true);
    assert!(e.safety().user_stream_connected());
}

#[test]
fn protection_of_an_entry_is_placed_or_left_out() {
    let fill = EntryFill {
        symbol: "ETHUSDC".into(),
        entry_order_id: ClientOrderId::new("t", 1),
        side: Side::Buy,
        price: Price::new(dec("3200")),
        quantity: Qty::new(dec("1")),
    };
    let plan = ProtectionPlan {
        stop: StopSpec::AtPrice { price: dec("3190") },
        break_even: None,
        trailing: None,
        timed_cancel: None,
    };
    let tp = TpPlan::Single { pct: dec("0.01") };
    assert_eq!(compile_protection(&instrument(), &fill, &plan, &tp).len(), 2);
    let mut broken = instrument();
    broken.precision.tick_size = dec("0");
    assert_eq!(compile_protection(&broken, &fill, &plan, &tp).len(), 0);
    let state = OrderBookState::new();
    assert!(!is_order_open(&state, &ClientOrderId::new("t", 1)));
}

#[test]
fn models_are_compared_by_what_is_left_of_the_profit() {
    let of = |last: &str| {
        let tape = TradeTape::new();
        let mut r = run(&config(), &[], &tape, &Buyer, &M1TradeThroughQueue::default(), T0);
        r.equity_curve.push(EquityPoint { at: T0, equity: dec(last) });
        r
    };
    let m = compare_models(&of("11000"), &of("10700"));
    assert_eq!(m.breakeven_fill_rate, Some(dec("0.3")));
    assert!(!m.sign_flips);
    let m = compare_models(&of("11000"), &of("9500"));
    assert_eq!(m.breakeven_fill_rate, Some(dec("1.5")));
    assert!(m.sign_flips);
    assert_eq!(compare_models(&of("9000"), &of("8000")).breakeven_fill_rate, None);
}

#[test]
fn a_markout_takes_the_first_price_after_each_time() {
    let tape = TradeTape::from_trades(vec![
        trade(1, 500, "3201", true),
        trade(2, 1_500, "3202", true),
        trade(3, 6_000, "3198", true),
        trade(4, 40_000, "3205", true),
    ]);
    let m = compute_markout(&tape, T0, dec("3200"), Side::Buy).unwrap();
    assert_eq!((m.markout_1s, m.markout_5s), (dec("2"), dec("-2")));
    assert_eq!((m.markout_30s, m.markout_5m), (dec("5"), dec("0")));
    let m = compute_markout(&tape, T0, dec("3200"), Side::Sell).unwrap();
    assert_eq!(m.markout_1s, dec("-2"));
}
