use maker_desk::decimal::Decimal;
use maker_desk::money::{Price, Qty};
use maker_desk::order::{ClientOrderId, Order, OrderPurpose, OrderState, Side, TimeInForce};

const NOW: i64 = 1_750_000_000_000;

fn dec(text: &str) -> Decimal {
    Decimal::parse(text).unwrap()
}


#[test]
fn only_take_profit_and_stop_loss_are_reduce_only() {
    assert!(OrderPurpose::TakeProfit.is_reduce_only());
    assert!(OrderPurpose::StopLoss.is_reduce_only());
    assert!(!OrderPurpose::Entry.is_reduce_only());
}

#[test]
fn derived_child_ids_are_unique_per_parent() {
    let a = ClientOrderId::new("mm", 1);
    let b = ClientOrderId::new("mm", 2);
    assert_ne!(a.child("tp"), b.child("tp"));
    assert_eq!(a.child("tp").as_str(), "mm:1:tp");
}

#[test]
fn order_id_does_not_encode_strategy_name() {
    let id = ClientOrderId::new("mm", 42);
    assert!(!id.as_str().contains("retest"));
    assert!(!id.as_str().contains("chan"));
}

#[test]
fn terminal_states_are_recognized() {
    assert!(
        OrderState::Filled {
            filled: Qty::new(dec("1")),
            avg: Price::new(dec("100"))
        }
        .is_terminal()
    );
    assert!(OrderState::Expired.is_terminal());
    assert!(!OrderState::Live.is_terminal());
    assert!(
        !OrderState::Unknown {
            since: NOW,
            last_probe: None
        }
        .is_terminal()
    );
}

#[test]
fn unknown_state_counts_as_open_for_reconciliation() {
    let unknown = OrderState::Unknown {
        since: NOW,
        last_probe: None,
    };
    assert!(unknown.is_open());
}

#[test]
fn gtd_expiry_is_respected() {
    let now = NOW;
    let order = Order {
        client_id: ClientOrderId::new("mm", 1),
        symbol: "ETHUSDC".into(),
        purpose: OrderPurpose::Entry,
        side: Side::Buy,
        quantity: Qty::new(dec("1")),
        limit_price: Price::new(dec("3200")),
        tif: TimeInForce::PostOnlyGtd { deadline: now },
        parent: None,
    };
    assert!(order.expired_at(now));
    assert!(!order.expired_at(now - 1000));
}

#[test]
fn plain_post_only_never_expires() {
    let now = NOW;
    let order = Order {
        client_id: ClientOrderId::new("mm", 1),
        symbol: "ETHUSDC".into(),
        purpose: OrderPurpose::Entry,
        side: Side::Buy,
        quantity: Qty::new(dec("1")),
        limit_price: Price::new(dec("3200")),
        tif: TimeInForce::PostOnly,
        parent: None,
    };
    assert!(!order.expired_at(now + 31536000000));
}
