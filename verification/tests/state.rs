use maker_desk::decimal::Decimal;
use maker_desk::error::{DomainError, RejectReason};
use maker_desk::money::{Price, Qty};
use maker_desk::order::{
    ClientOrderId, Effect, Order, OrderPurpose, OrderState, Side, TimeInForce,
};
use maker_desk::state::{ExecEvent, Fill, OrderBookState, QueryOutcome};

const NOW: i64 = 1_750_000_000_000;

fn dec(text: &str) -> Decimal {
    Decimal::parse(text).unwrap()
}


fn order(id: u64, purpose: OrderPurpose, side: Side) -> Order {
    order_qty(id, purpose, side, dec("1"))
}

fn order_qty(id: u64, purpose: OrderPurpose, side: Side, qty: Decimal) -> Order {
    Order {
        client_id: ClientOrderId::new("mm", id),
        symbol: "ETHUSDC".into(),
        purpose,
        side,
        quantity: Qty::new(qty),
        limit_price: Price::new(dec("3200")),
        tif: TimeInForce::PostOnly,
        parent: None,
    }
}

fn fill(id: u64, trade: &str, qty: Decimal, px: Decimal) -> Fill {
    Fill {
        trade_id: trade.into(),
        client_id: ClientOrderId::new("mm", id),
        quantity: Qty::new(qty),
        price: Price::new(px),
        fee: Decimal::zero(),
        fee_asset: "USDC".into(),
        at: NOW,
    }
}

#[test]
fn entry_fill_opens_position() {
    let mut s = OrderBookState::new();
    let now = NOW;
    s.register(order(1, OrderPurpose::Entry, Side::Buy), now)
        .unwrap();
    s.apply(
        ExecEvent::Accepted {
            client_id: ClientOrderId::new("mm", 1),
            exchange_id: "E1".into(),
        },
        now,
    )
    .unwrap();
    s.apply(ExecEvent::Filled(fill(1, "T1", dec("1"), dec("3200"))), now)
        .unwrap();

    let pos = s.position("ETHUSDC").expect("应建立持仓");
    assert_eq!(pos.side, Side::Buy);
    assert_eq!(pos.quantity.get(), dec("1"));
    assert_eq!(pos.entry_price.get(), dec("3200"));
}

#[test]
fn duplicate_fill_ids_are_ignored() {
    let mut s = OrderBookState::new();
    let now = NOW;
    s.register(order(1, OrderPurpose::Entry, Side::Buy), now)
        .unwrap();
    s.apply(ExecEvent::Filled(fill(1, "T1", dec("1"), dec("3200"))), now)
        .unwrap();
    let effects = s
        .apply(ExecEvent::Filled(fill(1, "T1", dec("1"), dec("3200"))), now)
        .unwrap();

    assert!(effects.is_empty(), "重复成交不应产生副作用");
    assert_eq!(s.position("ETHUSDC").unwrap().quantity.get(), dec("1"));
}

#[test]
fn cumulative_fill_exceeding_order_size_is_rejected() {
    let mut s = OrderBookState::new();
    let now = NOW;
    s.register(order(1, OrderPurpose::Entry, Side::Buy), now)
        .unwrap();
    s.apply(ExecEvent::Filled(fill(1, "T1", dec("0.7"), dec("3200"))), now)
        .unwrap();
    let err = s
        .apply(ExecEvent::Filled(fill(1, "T2", dec("0.7"), dec("3200"))), now)
        .unwrap_err();
    assert!(matches!(err, DomainError::IllegalTransition(_)));
}

#[test]
fn partial_fills_produce_weighted_average_price() {
    let mut s = OrderBookState::new();
    let now = NOW;
    s.register(order(1, OrderPurpose::Entry, Side::Buy), now)
        .unwrap();
    s.apply(ExecEvent::Filled(fill(1, "T1", dec("0.5"), dec("3200"))), now)
        .unwrap();
    s.apply(ExecEvent::Filled(fill(1, "T2", dec("0.5"), dec("3210"))), now)
        .unwrap();

    let t = s.get(&ClientOrderId::new("mm", 1)).unwrap();
    assert_eq!(t.filled.get(), dec("1"));
    assert_eq!(t.avg_price.unwrap().get(), dec("3205"));
    assert!(matches!(t.state, OrderState::Filled { .. }));
}

#[test]
fn unknown_state_emits_query_and_blocks_resubmit() {
    let mut s = OrderBookState::new();
    let now = NOW;
    let id = ClientOrderId::new("mm", 1);
    s.register(order(1, OrderPurpose::Entry, Side::Buy), now)
        .unwrap();

    let effects = s
        .apply(
            ExecEvent::Unknown {
                client_id: id.clone(),
                at: now,
            },
            now,
        )
        .unwrap();
    assert!(effects.contains(&Effect::Query(id.clone())), "必须发出查询");
    assert!(
        !effects.iter().any(|e| matches!(e, Effect::Submit(_))),
        "状态未知时绝不能重发订单"
    );
    assert_eq!(s.unresolved(), vec![id.clone()]);

    s.resolve_query(
        &id,
        QueryOutcome::Filled {
            filled: Qty::new(dec("1")),
            avg: Price::new(dec("3200")),
        },
        now,
    )
    .unwrap();
    assert!(s.unresolved().is_empty());
}

#[test]
fn post_only_rejection_resolves_to_cancelled_when_query_finds_nothing() {
    let mut s = OrderBookState::new();
    let now = NOW;
    let id = ClientOrderId::new("mm", 1);
    s.register(order(1, OrderPurpose::Entry, Side::Buy), now)
        .unwrap();
    s.apply(
        ExecEvent::Unknown {
            client_id: id.clone(),
            at: now,
        },
        now,
    )
    .unwrap();
    s.resolve_query(&id, QueryOutcome::NotFound, now).unwrap();

    let t = s.get(&id).unwrap();
    assert!(matches!(t.state, OrderState::Cancelled { .. }));
    assert!(t.state.is_terminal());
}

#[test]
fn rejection_is_terminal_and_recorded() {
    let mut s = OrderBookState::new();
    let now = NOW;
    let id = ClientOrderId::new("mm", 1);
    s.register(order(1, OrderPurpose::Entry, Side::Buy), now)
        .unwrap();
    s.apply(
        ExecEvent::Rejected {
            client_id: id.clone(),
            reason: RejectReason::PostOnlyWouldCross,
        },
        now,
    )
    .unwrap();
    assert!(matches!(
        s.get(&id).unwrap().state,
        OrderState::Rejected {
            reason: RejectReason::PostOnlyWouldCross
        }
    ));
}

#[test]
fn duplicate_registration_is_rejected() {
    let mut s = OrderBookState::new();
    let now = NOW;
    s.register(order(1, OrderPurpose::Entry, Side::Buy), now)
        .unwrap();
    assert!(
        s.register(order(1, OrderPurpose::Entry, Side::Buy), now)
            .is_err()
    );
}

#[test]
fn reduce_only_wrong_direction_is_rejected() {
    let mut s = OrderBookState::new();
    let now = NOW;
    s.register(order(1, OrderPurpose::Entry, Side::Buy), now)
        .unwrap();
    s.apply(ExecEvent::Filled(fill(1, "T1", dec("1"), dec("3200"))), now)
        .unwrap();

    s.register(order(2, OrderPurpose::TakeProfit, Side::Buy), now)
        .unwrap();
    let err = s
        .apply(ExecEvent::Filled(fill(2, "T2", dec("1"), dec("3210"))), now)
        .unwrap_err();
    assert!(matches!(err, DomainError::IllegalTransition(_)));
    assert_eq!(
        s.position("ETHUSDC").unwrap().quantity.get(),
        dec("1"),
        "持仓不应被改动"
    );
}

#[test]
fn closing_full_position_removes_it() {
    let mut s = OrderBookState::new();
    let now = NOW;
    s.register(order(1, OrderPurpose::Entry, Side::Buy), now)
        .unwrap();
    s.apply(ExecEvent::Filled(fill(1, "T1", dec("1"), dec("3200"))), now)
        .unwrap();
    s.register(order(2, OrderPurpose::TakeProfit, Side::Sell), now)
        .unwrap();
    s.apply(ExecEvent::Filled(fill(2, "T2", dec("1"), dec("3210"))), now)
        .unwrap();

    assert!(s.position("ETHUSDC").is_none());
}

#[test]
fn fill_without_position_is_an_error_not_a_reversal() {
    let mut s = OrderBookState::new();
    let now = NOW;
    s.register(order(2, OrderPurpose::StopLoss, Side::Sell), now)
        .unwrap();
    let err = s
        .apply(ExecEvent::Filled(fill(2, "T1", dec("1"), dec("3190"))), now)
        .unwrap_err();
    assert!(matches!(err, DomainError::UnknownReference(_)));
    assert!(s.all_positions().is_empty(), "绝不能凭空建立持仓");
}

#[test]
fn fees_are_kept_separate_per_settlement_asset() {
    let mut s = OrderBookState::new();
    let now = NOW;
    s.register(order(1, OrderPurpose::Entry, Side::Buy), now)
        .unwrap();

    let mut f = fill(1, "T1", dec("1"), dec("3200"));
    f.fee = dec("-0.64");
    f.fee_asset = "USDC".into();
    s.apply(ExecEvent::Filled(f), now).unwrap();

    assert_eq!(s.realized_pnl("USDC"), dec("-0.64"));
    assert_eq!(
        s.realized_pnl("USDT"),
        Decimal::zero(),
        "USDT 不受 USDC 手续费影响"
    );
}

#[test]
fn terminal_order_cannot_be_accepted() {
    let mut s = OrderBookState::new();
    let now = NOW;
    let id = ClientOrderId::new("mm", 1);
    s.register(order(1, OrderPurpose::Entry, Side::Buy), now)
        .unwrap();
    s.apply(
        ExecEvent::Expired {
            client_id: id.clone(),
        },
        now,
    )
    .unwrap();
    let err = s
        .apply(
            ExecEvent::Accepted {
                client_id: id,
                exchange_id: "E1".into(),
            },
            now,
        )
        .unwrap_err();
    assert!(matches!(err, DomainError::IllegalTransition(_)));
}

#[test]
fn open_orders_excludes_terminal_states() {
    let mut s = OrderBookState::new();
    let now = NOW;
    s.register(order(1, OrderPurpose::Entry, Side::Buy), now)
        .unwrap();
    s.register(order(2, OrderPurpose::Entry, Side::Buy), now)
        .unwrap();
    s.apply(
        ExecEvent::Accepted {
            client_id: ClientOrderId::new("mm", 1),
            exchange_id: "E1".into(),
        },
        now,
    )
    .unwrap();
    s.apply(
        ExecEvent::Rejected {
            client_id: ClientOrderId::new("mm", 2),
            reason: RejectReason::InsufficientMargin,
        },
        now,
    )
    .unwrap();

    let open = s.open_orders();
    assert_eq!(open.len(), 1);
    assert_eq!(open[0].order.client_id.as_str(), "mm:1");
}

#[test]
fn same_direction_entries_weighted_average() {
    let mut s = OrderBookState::new();
    let now = NOW;
    s.register(order(1, OrderPurpose::Entry, Side::Buy), now)
        .unwrap();
    s.apply(ExecEvent::Filled(fill(1, "T1", dec("1"), dec("3200"))), now)
        .unwrap();
    s.register(order_qty(2, OrderPurpose::Entry, Side::Buy, dec("3")), now)
        .unwrap();
    s.apply(ExecEvent::Filled(fill(2, "T2", dec("3"), dec("3240"))), now)
        .unwrap();

    let pos = s.position("ETHUSDC").unwrap();
    assert_eq!(pos.quantity.get(), dec("4"));
    assert_eq!(pos.entry_price.get(), dec("3230")); // (3200 + 3*3240) / 4
}
