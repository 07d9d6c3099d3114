use maker_desk::backtest::{compare_models, compute_markout, run, BacktestConfig, EquityPoint};
use maker_desk::decimal::Decimal;
use maker_desk::fill::{M0WickTouchFull, M1TradeThroughQueue};
use maker_desk::instrument::{ContractKind, FeeSchedule, FeeSource, Instrument};
use maker_desk::liquidity::{Trade, TradeTape};
use maker_desk::market::{Candle, MarketEvent};
use maker_desk::money::{Price, Qty};
use maker_desk::order::Side;
use maker_desk::precision::Precision;
use maker_desk::protection::{ProtectionPlan, StopSpec, TpPlan};
use maker_desk::risk::{check_entry, reference_range, RiskLimits};
use maker_desk::strategy::{
    EnterRequest, MarketView, ParameterSpec, SizeHint, StandDownReason, Strategy, StrategyIntent,
};

const NOW: i64 = 1_750_000_000_000;

fn dec(text: &str) -> Decimal {
    Decimal::parse(text).unwrap()
}


fn instrument() -> Instrument {
    Instrument {
        symbol: "ETHUSDC".into(),
        kind: ContractKind::CryptoPerp,
        base_asset: "ETH".into(),
        quote_asset: "USDC".into(),
        margin_asset: "USDC".into(),
        settlement_asset: "USDC".into(),
        precision: Precision {
            tick_size: dec("0.01"),
            step_size: dec("0.001"),
            min_qty: dec("0.001"),
            min_notional: dec("5"),
        },
        maint_margin_pct: dec("2.5"),
        required_margin_pct: dec("5"),
        liquidation_fee: dec("0.0125"),
        fees: FeeSchedule {
            maker_rate: Decimal::zero(),
            taker_rate: dec("0.0005"),
            source: FeeSource::PromotionalAssumed,
            observed_at: NOW,
        },
    }
}

fn config() -> BacktestConfig {
    BacktestConfig {
        instrument: instrument(),
        limits: RiskLimits {
            max_stop_pct: dec("0.01"),
            min_reward_risk: dec("1"),
            max_feed_staleness_secs: 15,
        },
        initial_equity: dec("10000"),
        lookback: 5,
        assumed_latency_ms: 100,
        allow_gaps: false,
        fee_source: FeeSource::PromotionalAssumed,
        standard_maker_rate: dec("0.0002"),
    }
}

struct RetestLike {
    tp_pct: Decimal,
    stop_pct: Decimal,
}

impl Strategy for RetestLike {
    fn id(&self) -> &'static str {
        "retest_like"
    }
    fn name(&self) -> &'static str {
        "测试用回踩策略"
    }
    fn parameters(&self) -> Vec<ParameterSpec> {
        vec![]
    }
    fn warmup_candles(&self) -> usize {
        5
    }
    fn evaluate(&self, view: &MarketView<'_>) -> Option<StrategyIntent> {
        let range = reference_range(view.candles, view.candles.len().min(5))?;
        let entry = range.low;
        let stop = entry * (Decimal::one() - self.stop_pct);
        if !check_entry(
            view.instrument,
            Side::Buy,
            entry,
            stop,
            entry * (Decimal::one() + self.tp_pct),
            Decimal::one(),
            &RiskLimits {
                max_stop_pct: dec("0.05"),
                min_reward_risk: dec("1"),
                max_feed_staleness_secs: 15,
            },
        )
        .is_pass()
        {
            return Some(StrategyIntent::StandDown {
                reason: StandDownReason::StopTooWide,
            });
        }
        Some(StrategyIntent::Enter(Box::new(EnterRequest {
            side: Side::Buy,
            entry,
            stop,
            take_profit: TpPlan::Single { pct: self.tp_pct },
            protection: ProtectionPlan {
                stop: StopSpec::AtPrice { price: stop },
                break_even: None,
                trailing: None,
                timed_cancel: None,
            },
            size: SizeHint::Fixed(dec("0.1")),
            valid_until: view.now + 120000,
        })))
    }
}

fn t_start() -> i64 {
    1_785_542_400_000
}

fn candle(i: i64, low: Decimal, high: Decimal) -> MarketEvent {
    MarketEvent::Kline(Candle {
        open_time: t_start() + i * 60_000,
        open: low,
        high,
        low,
        close: high,
        volume: dec("1"),
        closed: true,
    })
}

fn trade(id: u64, ms_offset: i64, px: Decimal, buyer_maker: bool) -> Trade {
    Trade {
        trade_id: id,
        price: Price::new(px),
        quantity: Qty::new(dec("1")),
        is_buyer_maker: buyer_maker,
        at: t_start() + ms_offset,
    }
}

fn scenario() -> (Vec<MarketEvent>, TradeTape) {
    let mut events = Vec::new();
    for i in 0..6 {
        events.push(candle(i, dec("3190"), dec("3210")));
    }
    for i in 6..20 {
        events.push(candle(i, dec("3190"), dec("3210")));
    }

    let mut trades = vec![
        trade(1, 6 * 60_000 + 100, dec("3205"), false),
        trade(2, 6 * 60_000 + 200, dec("3190"), true), // 打到我们的价位，卖方主动
        trade(3, 6 * 60_000 + 300, dec("3200"), false),
    ];
    for k in 0..10 {
        trades.push(trade(
            10 + k,
            8 * 60_000 + k as i64 * 1000,
            dec("3210"),
            false, // 买方主动 -> 能吃掉我们的卖单
        ));
    }
    (events, TradeTape::from_trades(trades))
}

#[test]
fn backtest_runs_and_produces_provenance() {
    let (events, tape) = scenario();
    let strat = RetestLike {
        tp_pct: dec("0.003"),
        stop_pct: dec("0.004"),
    };
    let result = run(
        &config(),
        &events,
        &tape,
        &strat,
        &M1TradeThroughQueue::default(),
        NOW,
    );

    assert_eq!(result.provenance.symbol, "ETHUSDC");
    assert_eq!(result.provenance.strategy_id, "retest_like");
    assert_eq!(result.provenance.fill_model, "M1_trade_through_queue");
    assert!(result.provenance.fill_model_optimism.contains("保守"));
    assert!(!result.equity_curve.is_empty(), "必须有权益曲线");
    assert!(result.provenance.candle_count > 0);
}

#[test]
fn provenance_flags_non_authoritative_fee() {
    let (events, tape) = scenario();
    let strat = RetestLike {
        tp_pct: dec("0.003"),
        stop_pct: dec("0.004"),
    };
    let result = run(
        &config(),
        &events,
        &tape,
        &strat,
        &M1TradeThroughQueue::default(),
        NOW,
    );
    assert!(
        result.provenance.fees.incomplete,
        "活动费率未经对账时必须标记结果不完整"
    );
}

#[test]
fn optimistic_model_fills_more_than_conservative() {
    let (events, tape) = scenario();
    let strat = RetestLike {
        tp_pct: dec("0.003"),
        stop_pct: dec("0.004"),
    };

    let m0 = run(&config(), &events, &tape, &strat, &M0WickTouchFull, NOW);
    let m1 = run(
        &config(),
        &events,
        &tape,
        &strat,
        &M1TradeThroughQueue::default(),
        NOW,
    );

    assert!(
        m0.trades.len() >= m1.trades.len(),
        "乐观模型的成交不应少于诚实模型：M0={} M1={}",
        m0.trades.len(),
        m1.trades.len()
    );
}

#[test]
fn compare_models_detects_sign_flip() {
    let (events, tape) = scenario();
    let strat = RetestLike {
        tp_pct: dec("0.003"),
        stop_pct: dec("0.004"),
    };

    let mut m0 = run(&config(), &events, &tape, &strat, &M0WickTouchFull, NOW);
    let mut m1 = run(
        &config(),
        &events,
        &tape,
        &strat,
        &M1TradeThroughQueue::default(),
        NOW,
    );

    m0.equity_curve.push(EquityPoint {
        at: NOW,
        equity: dec("10500"),
    });
    m1.equity_curve.push(EquityPoint {
        at: NOW,
        equity: dec("9800"),
    });

    let cmp = compare_models(&m0, &m1);
    assert!(cmp.sign_flips, "应识别符号翻转：{cmp:?}");
    assert!(!cmp.is_conclusive());
    assert!(cmp.verdict().contains("不可信"));
}

#[test]
fn compare_models_flags_healthy_result_as_conclusive() {
    let (events, tape) = scenario();
    let strat = RetestLike {
        tp_pct: dec("0.003"),
        stop_pct: dec("0.004"),
    };

    let mut m0 = run(&config(), &events, &tape, &strat, &M0WickTouchFull, NOW);
    let mut m1 = run(
        &config(),
        &events,
        &tape,
        &strat,
        &M1TradeThroughQueue::default(),
        NOW,
    );

    m0.equity_curve.push(EquityPoint {
        at: NOW,
        equity: dec("11000"),
    });
    m1.equity_curve.push(EquityPoint {
        at: NOW,
        equity: dec("10700"),
    });

    let cmp = compare_models(&m0, &m1);
    assert!(!cmp.sign_flips);
    assert!(
        cmp.breakeven_fill_rate.is_some_and(|r| r < dec("0.5")),
        "应算出较小的盈亏平衡成交率：{:?}",
        cmp.breakeven_fill_rate
    );
}

#[test]
fn equity_curve_starts_at_initial_equity() {
    let (events, tape) = scenario();
    let strat = RetestLike {
        tp_pct: dec("0.003"),
        stop_pct: dec("0.004"),
    };
    let result = run(
        &config(),
        &events,
        &tape,
        &strat,
        &M1TradeThroughQueue::default(),
        NOW,
    );
    assert_eq!(result.equity_curve[0].equity, dec("10000"));
}

#[test]
fn standard_fee_equity_is_not_better_than_promotional() {
    let (events, tape) = scenario();
    let strat = RetestLike {
        tp_pct: dec("0.003"),
        stop_pct: dec("0.004"),
    };
    let result = run(
        &config(),
        &events,
        &tape,
        &strat,
        &M1TradeThroughQueue::default(),
        NOW,
    );
    let promo = result.equity_curve.last().unwrap().equity;
    assert!(
        result.final_equity_at_standard_fee <= promo,
        "常规费率下权益不应更高：标准={:?} 活动={:?}",
        result.final_equity_at_standard_fee,
        promo
    );
    assert!(
        result.provenance.fees.fee_contribution >= Decimal::zero(),
        "费率贡献应为非负"
    );
}

#[test]
fn empty_tape_does_not_panic() {
    let (events, _) = scenario();
    let tape = TradeTape::default();
    let strat = RetestLike {
        tp_pct: dec("0.003"),
        stop_pct: dec("0.004"),
    };
    let result = run(
        &config(),
        &events,
        &tape,
        &strat,
        &M1TradeThroughQueue::default(),
        NOW,
    );
    assert_eq!(result.trades.len(), 0, "没有成交就没有交易");
    assert!(result.equity_curve.len() >= 2, "曲线仍有起止点");
}

#[test]
fn empty_events_does_not_panic() {
    let tape = TradeTape::default();
    let strat = RetestLike {
        tp_pct: dec("0.003"),
        stop_pct: dec("0.004"),
    };
    let result = run(
        &config(),
        &[],
        &tape,
        &strat,
        &M1TradeThroughQueue::default(),
        NOW,
    );
    assert_eq!(result.trades.len(), 0);
    assert!(result.provenance.candle_count == 0);
}

#[test]
fn rejections_are_counted_by_reason() {
    let strat = RetestLike {
        tp_pct: dec("0.003"),
        stop_pct: dec("0.5"),
    };
    let (events, tape) = scenario();
    let result = run(
        &config(),
        &events,
        &tape,
        &strat,
        &M1TradeThroughQueue::default(),
        NOW,
    );
    assert!(
        result.rejections.len() > 0,
        "止损过宽应产生可见的拒绝记录，实际：{:?}",
        result.rejections
    );
    assert!(
        (0..result.rejections.len()).any(|i| result.rejections.key(i).contains("止损")),
        "拒绝原因应说明是止损问题：{:?}",
        result.rejections
    );
}

#[test]
fn markout_sign_follows_position_direction() {
    let tape = TradeTape::from_trades(vec![
        trade(1, 0, dec("3200"), false),
        trade(2, 10_000, dec("3210"), false), // 10 秒后涨到 3210
    ]);
    let fill_at = t_start();

    let long = compute_markout(&tape, fill_at, dec("3200"), Side::Buy).unwrap();
    assert!(
        long.markout_5s > Decimal::zero(),
        "多头遇涨价应为正：{long:?}"
    );

    let short = compute_markout(&tape, fill_at, dec("3200"), Side::Sell).unwrap();
    assert!(
        short.markout_5s < Decimal::zero(),
        "空头遇涨价应为负：{short:?}"
    );
}

#[test]
fn markout_without_future_trades_is_zero() {
    let tape = TradeTape::from_trades(vec![trade(1, 0, dec("3200"), false)]);
    let fill_at = t_start();
    let m = compute_markout(&tape, fill_at, dec("3200"), Side::Buy).unwrap();
    assert_eq!(m.markout_5s, Decimal::zero());
}
