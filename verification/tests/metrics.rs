use maker_desk::decimal::Decimal;
use maker_desk::instrument::FeeSource;
use maker_desk::metrics::{
    summarize_markouts, summarize_stop_exposures, EdgeMetrics, FeeHonesty, LatencyStats,
    MarkoutObservation, MarkoutSide, StopExposure, StopResolution,
};

const NOW: i64 = 1_750_000_000_000;

fn dec(text: &str) -> Decimal {
    Decimal::parse(text).unwrap()
}


fn obs(m1: Decimal, m5: Decimal) -> MarkoutObservation {
    MarkoutObservation {
        at: NOW,
        price: dec("3200"),
        side: MarkoutSide::Long,
        markout_1s: m1,
        markout_5s: m5,
        markout_30s: m5,
        markout_5m: m5,
    }
}

#[test]
fn empty_markouts_yield_zero_summary() {
    let s = summarize_markouts(&[]);
    assert_eq!(s.samples, 0);
    assert!(!s.has_systematic_adverse_selection());
}

#[test]
fn negative_markouts_indicate_adverse_selection() {
    let obs = vec![obs(dec("-1"), dec("-2")), obs(dec("-1.5"), dec("-3"))];
    let s = summarize_markouts(&obs);
    assert!(s.has_systematic_adverse_selection(), "{s:?}");
    assert_eq!(s.adverse_ratio_5s, dec("1"));
}

#[test]
fn positive_markouts_mean_no_adverse_selection() {
    let obs = vec![obs(dec("1"), dec("2")), obs(dec("0.5"), dec("1"))];
    let s = summarize_markouts(&obs);
    assert!(!s.has_systematic_adverse_selection());
    assert_eq!(s.adverse_ratio_5s, dec("0"));
}

#[test]
fn adverse_ratio_counts_only_negative_5s() {
    let obs = vec![
        obs(dec("1"), dec("-1")),
        obs(dec("1"), dec("1")),
        obs(dec("1"), dec("-0.5")),
        obs(dec("1"), dec("2")),
    ];
    let s = summarize_markouts(&obs);
    assert_eq!(s.adverse_ratio_5s, dec("0.5"), "4 笔中 2 笔为负");
}

fn exposure(res: StopResolution, secs: i64, slip: Decimal) -> StopExposure {
    let t0 = NOW;
    StopExposure {
        triggered_at: t0,
        resolved_at: t0 + (secs) * 1000,
        resolution: res,
        resolved_price: dec("3190"),
        stop_price: dec("3190"),
        slippage: slip,
    }
}

#[test]
fn empty_exposures_yield_zero_summary() {
    let s = summarize_stop_exposures(&[]);
    assert_eq!(s.events, 0);
    assert_eq!(s.median_exposure_secs, 0);
}

#[test]
fn stop_exposure_ratios_are_computed() {
    let events = vec![
        exposure(StopResolution::StopFilled, 1, dec("0")),
        exposure(StopResolution::FilledLater, 30, dec("5")),
        exposure(StopResolution::Liquidated, 120, dec("50")),
        exposure(StopResolution::Liquidated, 60, dec("40")),
    ];
    let s = summarize_stop_exposures(&events);
    assert_eq!(s.events, 4);
    assert_eq!(s.filled_ratio, dec("0.5"), "2/4 成交");
    assert_eq!(s.liquidated_ratio, dec("0.5"), "2/4 强平");
    assert_eq!(s.mean_slippage, dec("23.75"));
}

#[test]
fn exposure_duration_stats_reveal_long_exposures() {
    let events = vec![
        exposure(StopResolution::FilledLater, 1, dec("0")),
        exposure(StopResolution::FilledLater, 2, dec("0")),
        exposure(StopResolution::Liquidated, 3600, dec("100")),
    ];
    let s = summarize_stop_exposures(&events);
    assert_eq!(s.max_exposure_secs, 3600, "暴露了 1 小时");
    assert_eq!(s.median_exposure_secs, 2);
}

#[test]
fn sign_flip_is_flagged_and_blocks_conclusive_verdict() {
    let m = EdgeMetrics {
        m0_final_equity: dec("12000"),
        m1_final_equity: dec("9500"),
        breakeven_fill_rate: Some(dec("1.4")),
        sign_flips: true,
        markout: summarize_markouts(&[]),
        stop_exposure: summarize_stop_exposures(&[]),
        latency: LatencyStats::default(),
    };
    assert!(!m.is_conclusive(), "符号翻转时结论不可信");
    assert!(m.verdict().contains("不可信"));
}

#[test]
fn high_breakeven_fill_rate_indicates_a_fill_rate_bet() {
    let m = EdgeMetrics {
        m0_final_equity: dec("12000"),
        m1_final_equity: dec("10100"),
        breakeven_fill_rate: Some(dec("0.92")),
        sign_flips: false,
        markout: summarize_markouts(&[obs(dec("1"), dec("1"))]),
        stop_exposure: summarize_stop_exposures(&[]),
        latency: LatencyStats::default(),
    };
    assert!(!m.is_conclusive());
    assert!(m.verdict().contains("成交率赌注"), "{}", m.verdict());
}

#[test]
fn no_breakeven_rate_when_upper_bound_is_unprofitable() {
    let m = EdgeMetrics {
        m0_final_equity: dec("9800"),
        m1_final_equity: dec("9500"),
        breakeven_fill_rate: None,
        sign_flips: false,
        markout: summarize_markouts(&[]),
        stop_exposure: summarize_stop_exposures(&[]),
        latency: LatencyStats::default(),
    };
    assert!(!m.is_conclusive());
    assert!(m.verdict().contains("没有 edge"), "{}", m.verdict());
}

#[test]
fn adverse_selection_alone_blocks_conclusive_verdict() {
    let m = EdgeMetrics {
        m0_final_equity: dec("12000"),
        m1_final_equity: dec("11000"),
        breakeven_fill_rate: Some(dec("0.4")),
        sign_flips: false,
        markout: summarize_markouts(&[obs(dec("-1"), dec("-2"))]),
        stop_exposure: summarize_stop_exposures(&[]),
        latency: LatencyStats::default(),
    };
    assert!(!m.is_conclusive());
    assert!(m.verdict().contains("逆向选择"), "{}", m.verdict());
}

#[test]
fn healthy_result_is_conclusive() {
    let m = EdgeMetrics {
        m0_final_equity: dec("12000"),
        m1_final_equity: dec("11200"),
        breakeven_fill_rate: Some(dec("0.45")),
        sign_flips: false,
        markout: summarize_markouts(&[obs(dec("2"), dec("3"))]),
        stop_exposure: summarize_stop_exposures(&[]),
        latency: LatencyStats::default(),
    };
    assert!(m.is_conclusive(), "{}", m.verdict());
    assert!(m.verdict().contains("稳健"), "{}", m.verdict());
}

#[test]
fn latency_rejection_ratio_handles_zero_attempts() {
    let s = LatencyStats::default();
    assert_eq!(s.rejection_ratio(), Decimal::zero(), "不能除零");
}

#[test]
fn latency_rejection_ratio_is_computed() {
    let s = LatencyStats {
        attempts: 200,
        rejected_post_only: 50,
        assumed_latency_ms: 100,
    };
    assert_eq!(s.rejection_ratio(), dec("0.25"));
}

#[test]
fn non_authoritative_fee_marks_result_incomplete() {
    let honest = FeeHonesty {
        source: FeeSource::ExchangeAccount,
        maker_rate_used: Decimal::zero(),
        fee_contribution: dec("0"),
        incomplete: false,
    };
    assert!(!honest.incomplete);

    let assumed = FeeHonesty {
        source: FeeSource::PromotionalAssumed,
        maker_rate_used: Decimal::zero(),
        fee_contribution: dec("120"),
        incomplete: true,
    };
    assert!(assumed.incomplete, "活动费率未经对账时必须标记不完整");
}
