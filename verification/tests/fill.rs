use maker_desk::decimal::Decimal;
use maker_desk::fill::{
    model_by_name, FillContext, FillModel, FillOutcome, M0WickTouchFull, M1TradeThroughQueue,
    Optimism, MODEL_NAMES,
};
use maker_desk::liquidity::{Trade, TradeTape};
use maker_desk::money::{Price, Qty};
use maker_desk::order::{ClientOrderId, Order, OrderPurpose, Side, TimeInForce};

fn dec(text: &str) -> Decimal {
    Decimal::parse(text).unwrap()
}


fn order(purpose: OrderPurpose, side: Side, limit: Decimal, qty: Decimal) -> Order {
    Order {
        client_id: ClientOrderId::new("t", 1),
        symbol: "ETHUSDC".into(),
        purpose,
        side,
        quantity: Qty::new(qty),
        limit_price: Price::new(limit),
        tif: TimeInForce::PostOnly,
        parent: None,
    }
}

fn trade(price: Decimal, qty: Decimal, buyer_maker: bool, ts_ms: i64) -> Trade {
    Trade {
        trade_id: ts_ms as u64,
        price: Price::new(price),
        quantity: Qty::new(qty),
        is_buyer_maker: buyer_maker,
        at: ts_ms,
    }
}

fn tape(trades: Vec<Trade>) -> TradeTape {
    TradeTape::from_trades(trades)
}

const T0: i64 = 1_785_542_400_000;


#[test]
fn m0_fills_on_any_touch() {
    let o = order(OrderPurpose::Entry, Side::Buy, dec("3200"), dec("1"));
    let t = tape(vec![trade(dec("3199.99"), dec("0.01"), true, T0)]);
    let ctx = FillContext {
        order: &o,
        tape: &t,
        placed_at: T0,
        tick_size: dec("0.01"),
    };
    let out = M0WickTouchFull.evaluate(&ctx);
    assert!(out.is_filled(), "M0 触价即成交");
    assert_eq!(out.quantity_for(&o), dec("1"), "M0 给全额");
}

#[test]
fn m1_does_not_fill_without_trade_at_our_price() {
    let o = order(OrderPurpose::Entry, Side::Buy, dec("3199"), dec("1"));
    let t = tape(vec![
        trade(dec("3200.5"), dec("5"), true, T0 + 1),
        trade(dec("3201.0"), dec("5"), true, T0 + 2),
    ]);
    let ctx = FillContext {
        order: &o,
        tape: &t,
        placed_at: T0,
        tick_size: dec("0.01"),
    };
    assert_eq!(
        M1TradeThroughQueue::default().evaluate(&ctx),
        FillOutcome::Unfilled,
        "我们价位上没有成交，不能算成交"
    );
}

#[test]
fn m1_fills_when_trade_prints_at_our_price() {
    let o = order(OrderPurpose::Entry, Side::Buy, dec("3200"), dec("1"));
    let t = tape(vec![trade(dec("3200"), dec("0.5"), true, T0 + 1)]);
    let ctx = FillContext {
        order: &o,
        tape: &t,
        placed_at: T0,
        tick_size: dec("0.01"),
    };
    let out = M1TradeThroughQueue::default().evaluate(&ctx);
    assert!(out.is_filled());
    assert_eq!(out.price_or(dec("0")), dec("3200"), "以我们的限价成交");
}

#[test]
fn m1_requires_the_aggressor_to_hit_our_side() {
    let o = order(OrderPurpose::Entry, Side::Buy, dec("3200"), dec("1"));
    let t = tape(vec![trade(dec("3199"), dec("10"), false, T0 + 1)]);
    let ctx = FillContext {
        order: &o,
        tape: &t,
        placed_at: T0,
        tick_size: dec("0.01"),
    };
    assert_eq!(
        M1TradeThroughQueue::default().evaluate(&ctx),
        FillOutcome::Unfilled,
        "买方主动的单子不会消耗买盘队列"
    );
}

#[test]
fn m1_sell_side_requires_buyer_aggressor() {
    let o = order(OrderPurpose::TakeProfit, Side::Sell, dec("3210"), dec("1"));
    let good = tape(vec![trade(dec("3210"), dec("1"), false, T0 + 1)]);
    let ctx = FillContext {
        order: &o,
        tape: &good,
        placed_at: T0,
        tick_size: dec("0.01"),
    };
    assert!(M1TradeThroughQueue::default().evaluate(&ctx).is_filled());

    let bad = tape(vec![trade(dec("3210"), dec("1"), true, T0 + 1)]);
    let ctx2 = FillContext {
        order: &o,
        tape: &bad,
        placed_at: T0,
        tick_size: dec("0.01"),
    };
    assert_eq!(
        M1TradeThroughQueue::default().evaluate(&ctx2),
        FillOutcome::Unfilled
    );
}

#[test]
fn m1_respects_queue_depth_threshold() {
    let o = order(OrderPurpose::Entry, Side::Buy, dec("3200"), dec("1"));
    let model = M1TradeThroughQueue::new(dec("5"));
    let placed = T0;

    let t1 = tape(vec![trade(dec("3200"), dec("3"), true, T0 + 1)]);
    assert_eq!(
        model.evaluate(&FillContext {
            order: &o,
            tape: &t1,
            placed_at: placed,
            tick_size: dec("0.01")
        }),
        FillOutcome::Unfilled,
        "累计 3 手不足以消化 5 手队列"
    );

    let t2 = tape(vec![
        trade(dec("3200"), dec("3"), true, T0 + 1),
        trade(dec("3200"), dec("2"), true, T0 + 2),
    ]);
    assert_eq!(
        model.evaluate(&FillContext {
            order: &o,
            tape: &t2,
            placed_at: placed,
            tick_size: dec("0.01")
        }),
        FillOutcome::Unfilled,
        "恰好等于队列量时我们仍排在最后，不成交"
    );

    let t3 = tape(vec![
        trade(dec("3200"), dec("3"), true, T0 + 1),
        trade(dec("3200"), dec("3"), true, T0 + 2),
    ]);
    assert!(
        model
            .evaluate(&FillContext {
                order: &o,
                tape: &t3,
                placed_at: placed,
                tick_size: dec("0.01")
            })
            .is_filled(),
        "累计超过队列量后应成交"
    );
}

#[test]
fn m1_stop_loss_can_remain_unfilled_after_gap_through() {
    let o = order(OrderPurpose::StopLoss, Side::Sell, dec("3190"), dec("1"));
    let t = tape(vec![
        trade(dec("3185"), dec("10"), true, T0 + 1), // 卖方主动，不消费我们的卖单
        trade(dec("3180"), dec("10"), true, T0 + 2),
    ]);
    let ctx = FillContext {
        order: &o,
        tape: &t,
        placed_at: T0,
        tick_size: dec("0.01"),
    };
    assert_eq!(
        M1TradeThroughQueue::default().evaluate(&ctx),
        FillOutcome::Unfilled,
        "价格跌穿止损但无买方主动接手，止损挂着不成交——仓位裸露"
    );
}

#[test]
fn model_lookup_by_name_covers_all_declared_models() {
    for name in MODEL_NAMES {
        assert!(model_by_name(name).is_some(), "{name} 应能构造");
    }
    assert!(model_by_name("m9").is_none());
}

#[test]
fn model_metadata_is_honest_about_optimism() {
    assert_eq!(M0WickTouchFull.optimism(), Optimism::UpperBound);
    assert_eq!(
        M1TradeThroughQueue::default().optimism(),
        Optimism::ConservativeLower,
        "M1 必须是悲观下界"
    );
    assert!(M0WickTouchFull.name().starts_with("M0"));
    assert!(M1TradeThroughQueue::default().name().starts_with("M1"));
}
