use maker_desk::decimal::Decimal;
use maker_desk::error::DomainError;
use maker_desk::money::{Price, Qty};
use maker_desk::order::Side;
use maker_desk::precision::{Precision, PriceRole};

fn dec(text: &str) -> Decimal {
    Decimal::parse(text).unwrap()
}


fn prec() -> Precision {
    Precision {
        tick_size: dec("0.01"),
        step_size: dec("0.001"),
        min_qty: dec("0.001"),
        min_notional: dec("5"),
    }
}

#[test]
fn sell_take_profit_rounds_up_never_down() {
    let p = prec();
    let got = p
        .price_for(Side::Sell, dec("3200.005"), PriceRole::TakeProfit)
        .unwrap();
    assert_eq!(got.get(), dec("3200.01"), "平多止盈（卖单）必须向上取整");
}

#[test]
fn buy_take_profit_rounds_down() {
    let p = prec();
    let got = p
        .price_for(Side::Buy, dec("3200.005"), PriceRole::TakeProfit)
        .unwrap();
    assert_eq!(got.get(), dec("3200.00"), "平空止盈（买单）必须向下取整");
}

#[test]
fn passive_entry_rounds_away_from_crossing() {
    let p = prec();
    let buy = p
        .price_for(Side::Buy, dec("3200.005"), PriceRole::PassiveEntry)
        .unwrap();
    assert_eq!(buy.get(), dec("3200.00"), "买价向下取整，避免吃卖单");
    let sell = p
        .price_for(Side::Sell, dec("3200.005"), PriceRole::PassiveEntry)
        .unwrap();
    assert_eq!(sell.get(), dec("3200.01"), "卖价向上取整，避免吃买单");
}

#[test]
fn stop_loss_rounds_toward_triggering() {
    let p = prec();
    let close_long = p
        .price_for(Side::Sell, dec("3190.004"), PriceRole::StopLoss)
        .unwrap();
    assert_eq!(close_long.get(), dec("3190.00"), "平多止损压低价，更早触发");
    let close_short = p
        .price_for(Side::Buy, dec("3210.006"), PriceRole::StopLoss)
        .unwrap();
    assert_eq!(close_short.get(), dec("3210.01"), "平空止损抬高价，更早触发");
}

#[test]
fn take_profit_and_stop_loss_round_opposite_ways() {
    let p = prec();
    let raw = dec("3190.004");
    let tp = p.price_for(Side::Sell, raw, PriceRole::TakeProfit).unwrap();
    let sl = p.price_for(Side::Sell, raw, PriceRole::StopLoss).unwrap();
    assert!(
        tp.get() > sl.get(),
        "卖方止盈价应高于止损价：tp={tp:?} sl={sl:?}"
    );
}

#[test]
fn quantity_always_rounds_down() {
    let p = prec();
    assert_eq!(p.quantity(dec("1.2349")).unwrap().get(), dec("1.234"));
    assert!(matches!(
        p.quantity(dec("0.0009")).unwrap_err(),
        DomainError::QuantityBelowStep { .. }
    ));
}

#[test]
fn quantity_or_zero_degrades_small_amounts_instead_of_failing() {
    let p = prec();
    assert_eq!(p.quantity_or_zero(dec("0.0001")).unwrap(), Qty::zero());
    assert_eq!(p.quantity_or_zero(dec("1.2349")).unwrap().get(), dec("1.234"));
    assert!(p.quantity_or_zero(dec("-1")).is_err());
}

#[test]
fn rejects_non_positive_and_invalid_metadata() {
    let p = prec();
    assert!(
        p.price_for(Side::Buy, dec("0"), PriceRole::PassiveEntry)
            .is_err()
    );
    assert!(
        p.price_for(Side::Buy, dec("-1"), PriceRole::PassiveEntry)
            .is_err()
    );
    assert!(p.quantity(dec("0")).is_err());
}

#[test]
fn notional_and_min_qty_gate() {
    let p = prec();
    let err = p
        .check_order_size(Qty::new(dec("0.001")), Price::new(dec("3200")))
        .unwrap_err();
    assert!(matches!(err, DomainError::BelowMinNotional { .. }));
    assert!(
        p.check_order_size(Qty::new(dec("0.01")), Price::new(dec("3200")))
            .is_ok()
    );
}

#[test]
fn quantization_is_idempotent() {
    let p = prec();
    for side in [Side::Buy, Side::Sell] {
        for role in [
            PriceRole::PassiveEntry,
            PriceRole::TakeProfit,
            PriceRole::StopLoss,
        ] {
            let once = p.price_for(side, dec("3200.123456"), role).unwrap();
            let twice = p.price_for(side, once.get(), role).unwrap();
            assert_eq!(once, twice, "重复量化不应改变价格");
        }
    }
}
