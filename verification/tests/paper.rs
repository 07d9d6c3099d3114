use maker_desk::decimal::Decimal;
use maker_desk::fill::Optimism;
use maker_desk::instrument::{ContractKind, FeeSchedule, FeeSource, Instrument};
use maker_desk::market::{AggTrade, Candle, MarketEvent};
use maker_desk::mode::ServiceMode;
use maker_desk::money::{Price, Qty};
use maker_desk::order::{OrderPurpose, Side};
use maker_desk::paper::{EngineConfig, EngineEvent, ExitReason, PaperEngine, SubmitOutcome};
use maker_desk::position_set::ManualPlan;
use maker_desk::precision::Precision;
use maker_desk::protection::{ProtectionPlan, StopSpec, TpPlan, TpRung};
use maker_desk::risk::RiskLimits;
use maker_desk::strategy::{
    EnterRequest, MarketView, ParameterSpec, SizeHint, Strategy, StrategyIntent,
};

const NOW: i64 = 1_750_000_000_000;

fn dec(text: &str) -> Decimal {
    Decimal::parse(text).unwrap()
}

/// A strategy that never wants anything.
struct Idle;

impl Strategy for Idle {
    fn id(&self) -> &'static str {
        "idle"
    }
    fn name(&self) -> &'static str {
        "idle"
    }
    fn parameters(&self) -> Vec<ParameterSpec> {
        vec![]
    }
    fn warmup_candles(&self) -> usize {
        0
    }
    fn evaluate(&self, _view: &MarketView<'_>) -> Option<StrategyIntent> {
        None
    }
}

/// A strategy that wants to buy at 3200 whenever it is asked.
struct Eager;

impl Strategy for Eager {
    fn id(&self) -> &'static str {
        "eager"
    }
    fn name(&self) -> &'static str {
        "eager"
    }
    fn parameters(&self) -> Vec<ParameterSpec> {
        vec![]
    }
    fn warmup_candles(&self) -> usize {
        0
    }
    fn evaluate(&self, view: &MarketView<'_>) -> Option<StrategyIntent> {
        Some(StrategyIntent::Enter(Box::new(EnterRequest {
            side: Side::Buy,
            entry: dec("3200"),
            stop: dec("3192"),
            take_profit: TpPlan::Single { pct: dec("0.005") },
            protection: ProtectionPlan {
                stop: StopSpec::AtPrice { price: dec("3192") },
                break_even: None,
                trailing: None,
                timed_cancel: None,
            },
            size: SizeHint::Fixed(dec("0.1")),
            valid_until: view.now + 120_000,
        })))
    }
}


fn instrument() -> Instrument {
    Instrument {
        symbol: "ETHUSDC".into(),
        kind: ContractKind::CryptoPerp,
        base_asset: "ETH".into(),
        quote_asset: "USDC".into(),
        margin_asset: "USDC".into(),
        settlement_asset: "USDC".into(),
        precision: Precision {
            tick_size: dec("0.01"),
            step_size: dec("0.001"),
            min_qty: dec("0.001"),
            min_notional: dec("5"),
        },
        maint_margin_pct: dec("2.5"),
        required_margin_pct: dec("5"),
        liquidation_fee: dec("0.0125"),
        fees: FeeSchedule {
            maker_rate: Decimal::zero(),
            taker_rate: dec("0.0005"),
            source: FeeSource::PromotionalAssumed,
            observed_at: NOW,
        },
    }
}

fn config() -> EngineConfig {
    EngineConfig {
        instrument: instrument(),
        limits: RiskLimits {
            max_stop_pct: dec("0.05"),
            min_reward_risk: Decimal::one(),
            max_feed_staleness_secs: 15,
        },
        initial_equity: dec("10000"),
        assumed_latency_ms: 100,
        max_candles: 120,
        max_staleness_secs: 15,
    }
}

fn engine() -> PaperEngine {
    PaperEngine::new(config())
}

fn t0() -> i64 {
    1_785_542_400_000
}

fn kline(offset_min: i64, low: Decimal, high: Decimal) -> MarketEvent {
    MarketEvent::Kline(Candle {
        open_time: t0() + (offset_min) * 60_000,
        open: low,
        high,
        low,
        close: high,
        volume: dec("1"),
        closed: true,
    })
}

fn trade(offset_ms: i64, px: Decimal, buyer_maker: bool) -> MarketEvent {
    MarketEvent::AggTrade(AggTrade {
        trade_id: offset_ms.unsigned_abs() + 1,
        price: Price::new(px),
        quantity: Qty::new(dec("1")),
        is_buyer_maker: buyer_maker,
        at: t0() + offset_ms,
    })
}

fn manual_plan(side: Side, entry: Decimal, stop: Decimal, qty: Decimal) -> ManualPlan {
    ManualPlan {
        symbol: "ETHUSDC".into(),
        side,
        entry,
        quantity: Some(Qty::new(qty)),
        size_pct: None,
        leverage: Decimal::from_int(3),
        stop,
        take_profit: TpPlan::Ladder {
            rungs: vec![
                TpRung {
                    pct: dec("0.0025"),
                    fraction: dec("0.5"),
                },
                TpRung {
                    pct: dec("0.005"),
                    fraction: dec("0.5"),
                },
            ],
        },
        break_even: None,
        trailing: None,
        cancel_unfilled_after: Some(t0() + 120000),
        client_ref: "manual".into(),
    }
}

fn ok_plan() -> ManualPlan {
    manual_plan(Side::Buy, dec("3200"), dec("3192"), dec("0.1"))
}

#[test]
fn new_engine_has_no_position_and_full_equity() {
    let e = engine();
    assert_eq!(e.equity(), dec("10000"));
    assert!(e.position_set().is_none());
    assert!(e.snapshot().position.is_none());
}

#[test]
fn engine_stands_down_when_feed_is_stale() {
    let mut e = engine();
    for i in 0..100 {
        e.on_market_event(kline(i, dec("3190"), dec("3210")), &Eager);
    }
    assert!(e.snapshot().position.is_none());
}

#[test]
fn disconnect_clears_pending_entry() {
    let mut e = engine();
    e.set_feed_connected(true);
    let plan = ok_plan();
    assert!(matches!(
        e.submit_manual(&plan, t0()),
        SubmitOutcome::Accepted(_)
    ));

    e.set_feed_connected(false);
    let snap = e.snapshot();
    assert!(
        !snap
            .open_orders
            .iter()
            .any(|o| o.purpose == OrderPurpose::Entry),
        "断线后不应保留开仓单"
    );
}

#[test]
fn trade_at_our_price_opens_position() {
    let mut e = engine();
    e.set_feed_connected(true);
    let plan = manual_plan(Side::Buy, dec("3200"), dec("3192"), dec("0.1"));
    assert!(matches!(
        e.submit_manual(&plan, t0()),
        SubmitOutcome::Accepted(_)
    ));

    e.on_market_event(trade(1000, dec("3200"), true), &Idle);

    let snap = e.snapshot();
    let pos = snap.position.expect("成交后应建立持仓");
    assert_eq!(pos.side, Side::Buy);
    assert_eq!(pos.entry_price, dec("3200"));
    assert_eq!(pos.quantity, dec("0.1"));
    assert!(pos.stop_price.is_some(), "必须同时挂出止损");
    assert_eq!(pos.rungs.len(), 2, "两档止盈都要挂出");
    assert!(pos.rungs.iter().all(|r| !r.filled), "刚开仓时止盈都未成交");
}

#[test]
fn stop_quantity_matches_position_after_entry() {
    let mut e = engine();
    e.set_feed_connected(true);
    let plan = manual_plan(Side::Buy, dec("3200"), dec("3192"), dec("0.1"));
    let _ = e.submit_manual(&plan, t0());
    e.on_market_event(trade(1000, dec("3200"), true), &Idle);

    assert!(
        e.check_consistency().is_none(),
        "开仓后持仓与保护单必须一致：{:?}",
        e.check_consistency()
    );
}

#[test]
fn trade_away_from_our_price_does_not_fill() {
    let mut e = engine();
    e.set_feed_connected(true);
    let plan = manual_plan(Side::Buy, dec("3200"), dec("3192"), dec("0.1"));
    let _ = e.submit_manual(&plan, t0());

    e.on_market_event(trade(1000, dec("3210"), true), &Idle);

    assert!(e.snapshot().position.is_none(), "价格未到买价不应成交");
}

#[test]
fn wrong_aggressor_direction_does_not_fill() {
    let mut e = engine();
    e.set_feed_connected(true);
    let plan = manual_plan(Side::Buy, dec("3200"), dec("3192"), dec("0.1"));
    let _ = e.submit_manual(&plan, t0());

    e.on_market_event(trade(1000, dec("3200"), false), &Idle);

    assert!(
        e.snapshot().position.is_none(),
        "买方主动的成交不消耗买盘队列，不应让我们成交"
    );
}

#[test]
fn take_profit_fill_reduces_position_and_adjusts_stop() {
    let mut e = engine();
    e.set_feed_connected(true);
    let plan = manual_plan(Side::Buy, dec("3200"), dec("3192"), dec("0.1"));
    let _ = e.submit_manual(&plan, t0());
    e.on_market_event(trade(1000, dec("3200"), true), &Idle);

    let pos_before = e.snapshot().position.expect("应有持仓");
    assert_eq!(pos_before.quantity, dec("0.1"));

    e.on_market_event(trade(2000, dec("3208"), false), &Idle);

    let pos_after = e.snapshot().position.expect("第一档成交后仍有剩余持仓");
    assert_eq!(pos_after.quantity, dec("0.05"), "第一档平掉 50%");
    assert!(pos_after.rungs[0].filled, "第一档应标记为已成交");
    assert!(!pos_after.rungs[1].filled, "第二档尚未成交");
    assert!(
        e.check_consistency().is_none(),
        "止盈后止损数量必须同步，否则止损会被拒单：{:?}",
        e.check_consistency()
    );
}

#[test]
fn stop_fill_closes_position_and_records_trade() {
    let mut e = engine();
    e.set_feed_connected(true);
    let plan = manual_plan(Side::Buy, dec("3200"), dec("3192"), dec("0.1"));
    let _ = e.submit_manual(&plan, t0());
    e.on_market_event(trade(1000, dec("3200"), true), &Idle);
    let _ = e.drain_events();

    e.on_market_event(trade(2000, dec("3192"), false), &Idle);

    let events = e.drain_events();
    let closed = events.iter().find_map(|ev| match ev {
        EngineEvent::TradeClosed {
            pnl, exit_reason, ..
        } => Some((*pnl, *exit_reason)),
        _ => None,
    });
    let (pnl, reason) = closed.expect("止损成交应产生一笔完整交易");
    assert_eq!(reason, ExitReason::StopLoss);
    assert!(pnl < Decimal::zero(), "止损必然是亏损：{pnl:?}");
    assert!(e.snapshot().position.is_none(), "止损后应无持仓");
}

#[test]
fn manual_submit_creates_pending_order() {
    let mut e = engine();
    e.set_feed_connected(true);
    let plan = ok_plan();
    let out = e.submit_manual(&plan, t0());
    assert!(
        matches!(out, SubmitOutcome::Accepted(_)),
        "合理参数应被接受：{out:?}"
    );
}

#[test]
fn second_submit_is_rejected_while_pending() {
    let mut e = engine();
    e.set_feed_connected(true);
    let plan = ok_plan();
    let _ = e.submit_manual(&plan, t0());

    let out = e.submit_manual(&plan, t0() + 1000);
    match out {
        SubmitOutcome::Rejected { reason } => {
            assert!(
                reason.contains("在途") || reason.contains("持仓"),
                "{reason}"
            );
        }
        other => panic!("重复提交应被拒绝：{other:?}"),
    }
}

#[test]
fn manual_submit_rejects_wrong_side_stop() {
    let mut e = engine();
    e.set_feed_connected(true);
    let plan = manual_plan(Side::Buy, dec("3200"), dec("3210"), dec("0.1"));
    match e.submit_manual(&plan, t0()) {
        SubmitOutcome::Rejected { reason } => {
            assert!(!reason.is_empty(), "拒绝必须带可读原因");
        }
        other => panic!("方向错误的止损应被拒绝：{other:?}"),
    }
}

#[test]
fn manual_submit_rejects_zero_quantity() {
    let mut e = engine();
    e.set_feed_connected(true);
    let plan = manual_plan(Side::Buy, dec("3200"), dec("3192"), dec("0.00001"));
    match e.submit_manual(&plan, t0()) {
        SubmitOutcome::Rejected { reason } => assert!(!reason.is_empty()),
        other => panic!("零数量应被拒绝：{other:?}"),
    }
}

#[test]
fn preview_does_not_mutate_state() {
    let mut e = engine();
    e.set_feed_connected(true);
    let plan = ok_plan();
    let before = e.equity();
    let pv = e.preview_manual_plan(&plan, t0()).unwrap();
    assert!(pv.accepted);
    assert_eq!(e.equity(), before, "预览不应改变权益");
    assert!(e.position_set().is_none(), "预览不应建立持仓");
}

#[test]
fn cancel_pending_allows_resubmit() {
    let mut e = engine();
    e.set_feed_connected(true);
    let plan = ok_plan();
    let _ = e.submit_manual(&plan, t0());
    assert!(e.cancel_pending(), "应能撤销在途单");
    assert!(!e.cancel_pending(), "无在途单时撤单应返回 false");

    let out = e.submit_manual(&plan, t0() + 1000);
    assert!(matches!(out, SubmitOutcome::Accepted(_)));
}

#[test]
fn pending_order_expires_past_deadline() {
    let mut e = engine();
    e.set_feed_connected(true);
    let plan = ok_plan();
    let _ = e.submit_manual(&plan, t0());

    e.on_market_event(kline(5, dec("3210"), dec("3220")), &Idle);
    let snap = e.snapshot();
    assert!(
        !snap
            .open_orders
            .iter()
            .any(|o| o.purpose == OrderPurpose::Entry),
        "过期后不应还有开仓单"
    );
}

#[test]
fn snapshot_contains_required_fields() {
    let mut e = engine();
    e.set_feed_connected(true);
    let snap = e.snapshot();
    assert_eq!(snap.mode, ServiceMode::Paper, "模拟盘快照必须标为 PAPER");
    assert_eq!(snap.symbol, "ETHUSDC");
    assert!(snap.feed_connected);
    assert_eq!(snap.realized_pnl, Decimal::zero());
}

#[test]
fn fill_model_info_is_exposed() {
    let e = engine();
    let (name, optimism) = e.fill_model_info();
    assert!(name.starts_with("M1"), "模拟盘默认用诚实基线：{name}");
    assert_eq!(optimism, Optimism::ConservativeLower, "默认不能是上界模型");
}

#[test]
fn settlement_asset_is_usdc() {
    let e = engine();
    assert_eq!(e.instrument().settlement_asset, "USDC");
    assert_eq!(e.instrument().margin_asset, "USDC");
}

#[test]
fn risk_limits_come_from_engine_config_not_hardcoded() {
    let plan = manual_plan(Side::Buy, dec("3200"), dec("3192"), dec("0.1"));
    let mut tight = plan.clone();
    tight.take_profit = TpPlan::Single { pct: dec("0.001") };

    let strict = PaperEngine::new(EngineConfig {
        limits: RiskLimits {
            max_stop_pct: dec("0.01"),
            min_reward_risk: dec("2"),
            max_feed_staleness_secs: 15,
        },
        ..config()
    });
    assert!(
        !strict.preview_manual_plan(&tight, t0()).unwrap().accepted,
        "最小盈亏比 2 时该计划应被拒绝"
    );

    let lax = PaperEngine::new(EngineConfig {
        limits: RiskLimits {
            max_stop_pct: dec("0.01"),
            min_reward_risk: dec("0.1"),
            max_feed_staleness_secs: 15,
        },
        ..config()
    });
    assert!(
        lax.preview_manual_plan(&tight, t0()).unwrap().accepted,
        "放宽盈亏比要求后同一计划应被接受——证明参数来自配置"
    );
}

#[test]
fn max_stop_pct_comes_from_config() {
    let plan = manual_plan(Side::Buy, dec("3200"), dec("3184"), dec("0.1"));

    let tight = PaperEngine::new(EngineConfig {
        limits: RiskLimits {
            max_stop_pct: dec("0.002"),
            min_reward_risk: Decimal::one(),
            max_feed_staleness_secs: 15,
        },
        ..config()
    });
    assert!(
        !tight.preview_manual_plan(&plan, t0()).unwrap().accepted,
        "止损距离 0.5% 超过 0.2% 上限应被拒绝"
    );

    let lax = PaperEngine::new(EngineConfig {
        limits: RiskLimits {
            max_stop_pct: dec("0.05"),
            min_reward_risk: dec("0.4"),
            max_feed_staleness_secs: 15,
        },
        ..config()
    });
    assert!(
        lax.preview_manual_plan(&plan, t0()).unwrap().accepted,
        "放宽止损上限与盈亏比要求后应被接受"
    );
}

#[test]
fn manual_close_without_position_returns_none() {
    let mut e = engine();
    assert!(e.close_position_manually(t0()).is_none());
}

#[test]
fn safety_starts_disarmed() {
    let e = engine();
    assert!(!e.safety().is_armed());
    assert!(!e.safety().can_submit());
    assert_eq!(e.safety().blocking_reasons().len(), 3);
}

#[test]
fn consistency_check_is_none_without_position() {
    let e = engine();
    assert!(e.check_consistency().is_none());
}

#[test]
fn rung_summary_is_empty_without_position() {
    let e = engine();
    assert!(e.rung_summary().len() == 0);
}

#[test]
fn drain_events_empties_the_buffer() {
    let mut e = engine();
    e.set_feed_connected(true);
    let first = e.drain_events();
    assert!(!first.is_empty(), "设置连接状态应产生事件");
    let second = e.drain_events();
    assert!(second.is_empty(), "取出后应清空");
}
