use maker_desk::decimal::Decimal;
use maker_desk::liquidity::{Trade, TradeTape};
use maker_desk::money::{Price, Qty};

fn dec(text: &str) -> Decimal {
    Decimal::parse(text).unwrap()
}


fn t(id: u64, at_ms: i64, px: Decimal) -> Trade {
    Trade {
        trade_id: id,
        price: Price::new(px),
        quantity: Qty::new(dec("1")),
        is_buyer_maker: false,
        at: at_ms,
    }
}

const T0: i64 = 1_785_542_400_000;

#[test]
fn from_trades_sorts_by_time_then_id() {
    let tape = TradeTape::from_trades(vec![
        t(3, T0 + 20, dec("100")),
        t(1, T0 + 10, dec("101")),
        t(2, T0 + 10, dec("102")),
    ]);
    let ids: Vec<u64> = tape.trades().iter().map(|x| x.trade_id).collect();
    assert_eq!(ids, vec![1, 2, 3], "先按时间，同时间按 id");
}

#[test]
fn same_millisecond_order_is_deterministic() {
    let mk = || {
        TradeTape::from_trades(vec![
            t(500, T0 + 1, dec("100")),
            t(498, T0 + 1, dec("101")),
            t(499, T0 + 1, dec("102")),
        ])
    };
    let a: Vec<u64> = mk().trades().iter().map(|x| x.trade_id).collect();
    let b: Vec<u64> = mk().trades().iter().map(|x| x.trade_id).collect();
    assert_eq!(a, b);
    assert_eq!(a, vec![498, 499, 500]);
}

#[test]
fn window_is_half_open() {
    let tape = TradeTape::from_trades(vec![
        t(1, T0, dec("100")),
        t(2, T0 + 10, dec("101")),
        t(3, T0 + 20, dec("102")),
    ]);
    let from = T0 + 10;
    let to = T0 + 20;
    let w = tape.window(from, to);
    assert_eq!(w.len(), 1, "含起点不含终点");
    assert_eq!(w[0].trade_id, 2);
}

#[test]
fn after_excludes_trades_before_placement() {
    let tape = TradeTape::from_trades(vec![
        t(1, T0, dec("100")),
        t(2, T0 + 10, dec("101")),
        t(3, T0 + 20, dec("102")),
    ]);
    let placed = T0 + 10;
    let after = tape.after(placed);
    assert_eq!(after.len(), 2, "挂单当时的成交算在内");
    assert_eq!(after[0].trade_id, 2);
}

#[test]
fn placement_time_boundary_prevents_lookahead() {
    let tape = TradeTape::from_trades(vec![
        t(1, T0, dec("3190")), // 挂单前就跌到过我们的买价
        t(2, T0 + 10, dec("3205")),
    ]);
    let placed = T0 + 5;
    let after = tape.after(placed);
    assert!(after.iter().all(|x| x.price.get() > dec("3195")));
}

#[test]
fn empty_tape_is_handled() {
    let tape = TradeTape::default();
    assert!(tape.is_empty());
    let from = T0;
    assert!(tape.window(from, from).is_empty());
    assert!(tape.first_price_after(from).is_none());
    assert!(tape.approx_bid_ask(from, from).is_none());
}

#[test]
fn first_price_after_finds_next_trade() {
    let tape = TradeTape::from_trades(vec![t(1, T0, dec("100")), t(2, T0 + 10, dec("105"))]);
    let t_after = T0 + 5;
    assert_eq!(tape.first_price_after(t_after).unwrap().get(), dec("105"));
}

#[test]
fn approx_bid_ask_uses_observed_high_low() {
    let tape = TradeTape::from_trades(vec![
        t(1, T0, dec("100")),
        t(2, T0 + 10, dec("102")),
        t(3, T0 + 20, dec("98")),
    ]);
    let from = T0;
    let to = T0 + 30;
    let (lo, hi) = tape.approx_bid_ask(from, to).unwrap();
    assert_eq!(lo.get(), dec("98"));
    assert_eq!(hi.get(), dec("102"));
}

#[test]
fn window_on_large_tape_partitions_correctly() {
    let trades: Vec<Trade> = (0..1000)
        .map(|i| t(i as u64, T0 + i * 10, dec("100")))
        .collect();
    let tape = TradeTape::from_trades(trades);
    let from = T0 + 5000;
    let to = T0 + 5100;
    let w = tape.window(from, to);
    assert_eq!(w.len(), 10, "500..509 共 10 笔");
    assert_eq!(w[0].trade_id, 500);
    assert_eq!(w[9].trade_id, 509);
}
