use maker_desk::decimal::Decimal;
use maker_desk::market::{AggTrade, BookSnapshot, Candle, MarketEvent, ONE_MINUTE};
use maker_desk::money::{Price, Qty};

const NOW: i64 = 1_750_000_000_000;

fn dec(text: &str) -> Decimal {
    Decimal::parse(text).unwrap()
}


fn trade(id: u64, px: Decimal, buyer_maker: bool) -> AggTrade {
    AggTrade {
        trade_id: id,
        price: Price::new(px),
        quantity: Qty::new(dec("1")),
        is_buyer_maker: buyer_maker,
        at: NOW,
    }
}

#[test]
fn aggressor_direction_follows_buyer_maker_flag() {
    assert!(trade(1, dec("100"), true).aggressor_is_sell());
    assert!(!trade(2, dec("100"), false).aggressor_is_sell());
}

#[test]
fn candle_close_time_is_one_minute_after_open() {
    let c = Candle {
        open_time: NOW,
        open: dec("1"),
        high: dec("2"),
        low: dec("1"),
        close: dec("2"),
        volume: dec("1"),
        closed: true,
    };
    assert_eq!(c.close_time() - c.open_time, 60000);
}

#[test]
fn one_day_contains_exactly_1440_minutes() {
    let day = 86_400_000 / ONE_MINUTE;
    assert_eq!(day, 1440);
}

#[test]
fn only_agg_trades_count_as_trade_evidence() {
    let candle = MarketEvent::Kline(Candle {
        open_time: NOW,
        open: dec("100"),
        high: dec("110"),
        low: dec("90"),
        close: dec("105"),
        volume: dec("10"),
        closed: true,
    });
    assert!(!candle.is_trade(), "K 线触价不能作为成交依据");

    assert!(MarketEvent::AggTrade(trade(1, dec("100"), false)).is_trade());
}

#[test]
fn closed_kline_at_is_close_time() {
    let open_time = NOW;
    let candle = MarketEvent::Kline(Candle {
        open_time,
        open: dec("100"),
        high: dec("110"),
        low: dec("90"),
        close: dec("105"),
        volume: dec("10"),
        closed: true,
    });
    assert_eq!(candle.at(), open_time + 60000);
}

#[test]
fn unclosed_kline_at_is_open_time() {
    let open_time = NOW;
    let candle = MarketEvent::Kline(Candle {
        open_time,
        open: dec("100"),
        high: dec("110"),
        low: dec("90"),
        close: dec("105"),
        volume: dec("10"),
        closed: false,
    });
    assert_eq!(candle.at(), open_time);
}

#[test]
fn book_mid_is_average_of_bid_and_ask() {
    let b = BookSnapshot {
        bid: dec("100"),
        ask: dec("101"),
        bids: vec![],
        asks: vec![],
        at: NOW,
    };
    assert_eq!(b.mid(), dec("100.5"));
}
