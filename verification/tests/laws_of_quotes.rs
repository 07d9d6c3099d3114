use maker_desk::cooldown::Cooldown;
use maker_desk::decimal::Decimal;
use maker_desk::hub::MarketStreams;
use maker_desk::market::{AggTrade, Candle};
use maker_desk::money::{Price, Qty};
use maker_desk::quotes::Interval;
use maker_desk::stream::{
    feed_key, handshake_refused, kline_feed_key, parse_agg_trade, parse_depth_event,
    parse_kline_event, stream_endpoint_allowed, BarFrame, Backoff, ConnectError, DepthFrame,
    KlineFrame, Link, LinkAction, LinkEnd, LinkState, MarketView, StreamCandle, StreamConfig,
    StreamKind, TradeFrame, RECENT_CANDLES_CAP, RECENT_TRADES_CAP,
};

const NOW: i64 = 1_750_000_000_000;

fn dec(text: &str) -> Decimal {
    Decimal::parse(text).unwrap()
}

fn trade(id: u64) -> AggTrade {
    AggTrade {
        trade_id: id,
        price: Price::new(dec("1")),
        quantity: Qty::new(dec("1")),
        is_buyer_maker: false,
        at: NOW,
    }
}

fn candle(minute: i64, closed: bool, event_ms: i64) -> StreamCandle {
    StreamCandle {
        event_ms,
        candle: Candle {
            open_time: minute * 60_000,
            open: dec("1"),
            high: dec("2"),
            low: dec("1"),
            close: dec("2"),
            volume: dec("3"),
            closed,
        },
    }
}

fn ids(v: &MarketView) -> Vec<u64> {
    v.trades.iter().map(|t| t.trade_id).collect()
}

#[test]
fn merged_trades_are_the_newest_each_once() {
    let mut v = MarketView::default();
    v.push_trade(trade(50));
    v.merge_trades((0..40).map(|k| trade((k * 7) % 40)).collect());
    let got = ids(&v);
    assert_eq!(got.len(), RECENT_TRADES_CAP);
    assert_eq!(got[0], 50);
    assert_eq!(got[1..], (11..40).rev().collect::<Vec<u64>>()[..]);
}

#[test]
fn of_trades_with_one_number_the_first_stays() {
    let mut v = MarketView::default();
    let mut first = trade(5);
    first.price = Price::new(dec("9"));
    v.push_trade(first);
    v.merge_trades(vec![trade(5), trade(6)]);
    assert_eq!(ids(&v), vec![6, 5]);
    assert_eq!(v.trades[1].price, Price::new(dec("9")));
}

#[test]
fn candles_are_kept_oldest_first_and_closed_ones_stay() {
    let mut v = MarketView::default();
    assert!(v.push_candle(candle(1, true, 10)));
    assert!(!v.push_candle(candle(1, false, 20)));
    assert!(!v.push_candle(candle(0, true, 30)));
    for minute in 2..60 {
        assert!(v.push_candle(candle(minute, false, minute)));
    }
    assert_eq!(v.candles.len(), RECENT_CANDLES_CAP);
    let times: Vec<i64> = v.candles.iter().map(|c| c.candle.open_time / 60_000).collect();
    assert_eq!(times, (28..60).collect::<Vec<i64>>());
}

#[test]
fn a_candle_that_says_the_same_is_no_news() {
    let mut v = MarketView::default();
    assert!(v.push_candle(candle(1, false, 10)));
    let mut same = candle(1, false, 10);
    same.candle.close = dec("2.00");
    assert!(!v.push_candle(same));
    same.candle.close = dec("2.01");
    assert!(v.push_candle(same));
    assert_eq!(v.candles.len(), 1);
}

#[test]
fn waits_double_up_to_the_longest() {
    let mut b = Backoff::new(1_000, 60_000);
    let waits: Vec<u64> = (0..9).map(|_| b.next_delay(0)).collect();
    assert_eq!(
        waits,
        vec![1_000, 2_000, 4_000, 8_000, 16_000, 32_000, 60_000, 60_000, 60_000]
    );
    b.reset();
    assert_eq!(b.next_delay(199), 1_199);
    assert_eq!(b.next_delay(200), 2_000);
    let mut wide = Backoff::new(u64::MAX, u64::MAX);
    assert_eq!(wide.next_delay(7), u64::MAX);
    wide.attempt = u32::MAX;
    wide.next_delay(0);
    assert_eq!(wide.attempt, u32::MAX);
}

#[test]
fn an_address_is_refused_with_its_reason() {
    let reason = |url: &str| stream_endpoint_allowed(url).unwrap_err().message();
    assert!(reason("nowhere").contains("推送地址无法解析：nowhere"));
    assert!(reason("https://fstream.binance.com/x").contains("推送地址必须是 wss://，收到："));
    assert!(reason("wss://evil.example/x").contains("推送主机不在白名单内：evil.example。"));
    assert!(stream_endpoint_allowed("wss://fstream.binance.com/x").is_ok());
}

#[test]
fn frames_say_what_is_wrong_with_them() {
    let bad = |text: &str| parse_depth_event(text, NOW).unwrap_err();
    assert!(bad("{").starts_with("不是合法 JSON："));
    assert_eq!(bad(r#"{"b":[]}"#), "盘口字段不符");
    assert_eq!(bad(r#"{"b":[],"bids":[],"a":[]}"#), "盘口字段不符");
    assert_eq!(bad(r#"{"b":[["1"]],"a":[]}"#), "盘口字段不符");
    assert_eq!(bad(r#"{"b":[["x","1"]],"a":[]}"#), "价格无法解析为数值：x");
    assert_eq!(bad(r#"{"b":[],"a":[["1","y"]]}"#), "数量无法解析为数值：y");

    let bad = |text: &str| parse_agg_trade(text).unwrap_err();
    assert_eq!(bad("{}"), "成交字段不符");
    assert_eq!(
        bad(r#"{"e":"trade","a":1,"p":"1","q":"1","T":1,"m":true}"#),
        "不是聚合成交事件：trade"
    );
    assert_eq!(
        bad(r#"{"a":1,"p":"1","q":"1","T":9000000000000000,"m":true}"#),
        "成交时间无效：9000000000000000"
    );
    assert_eq!(
        bad(r#"{"a":1,"p":"x","q":"1","T":1,"m":true}"#),
        "成交价无法解析为数值：x"
    );
    assert_eq!(
        parse_kline_event("{}", "ETHUSDC", Interval::M1).unwrap_err(),
        "K 线字段不符"
    );
}

#[test]
fn a_book_without_a_time_is_of_now() {
    for (time, at) in [(0, NOW), (-5, NOW), (77, 77), (9_000_000_000_000_000, NOW)] {
        let frame = DepthFrame {
            time,
            bids: vec![("1.5".to_string(), "2".to_string())],
            asks: vec![],
        };
        let book = frame.book(NOW).unwrap();
        assert_eq!((book.at, book.bid, book.ask), (at, dec("1.5"), Decimal::zero()));
    }
}

#[test]
fn a_trade_frame_gives_its_trade() {
    let frame = TradeFrame {
        event: String::new(),
        id: 7,
        price: "1.50".to_string(),
        qty: "2".to_string(),
        time: 5,
        is_buyer_maker: true,
    };
    let t = frame.trade().unwrap();
    assert_eq!((t.trade_id, t.price.get(), t.at), (7, dec("1.5"), 5));
    assert!(t.is_buyer_maker);
}

#[test]
fn a_candle_frame_has_to_be_the_one_asked_for() {
    let frame = |symbol: &str, time: i64, open_time: i64| KlineFrame {
        event: "kline".to_string(),
        time,
        symbol: symbol.to_string(),
        bar: BarFrame {
            open_time,
            symbol: symbol.to_string(),
            interval: "1m".to_string(),
            open: "1".to_string(),
            high: "2".to_string(),
            low: "1".to_string(),
            close: "x".to_string(),
            volume: "3".to_string(),
            closed: true,
        },
    };
    let ask = |f: KlineFrame, i: Interval| f.candle("ETHUSDC", i).unwrap_err();
    assert_eq!(
        ask(frame("BTCUSDC", 9, 5), Interval::M1),
        "K 线事件的交易对或周期与订阅不符"
    );
    assert_eq!(
        ask(frame("ETHUSDC", 9, 5), Interval::M5),
        "K 线事件的交易对或周期与订阅不符"
    );
    assert_eq!(ask(frame("ETHUSDC", 4, 5), Interval::M1), "K 线时间无效");
    assert_eq!(ask(frame("ETHUSDC", 4, 0), Interval::M1), "K 线时间无效");
    assert_eq!(ask(frame("ETHUSDC", 9, 5), Interval::M1), "收盘价无法解析为数值：x");
}

#[test]
fn the_state_of_a_link_is_told_to_users() {
    assert_eq!(LinkState::Live.describe(StreamKind::Depth), None);
    assert_eq!(
        LinkState::Connecting.describe(StreamKind::Trades).unwrap(),
        "成交流推送连接中"
    );
    assert_eq!(
        LinkState::Retrying { attempt: 2, retry_in_ms: 1_001, reason: "x".to_string() }
            .describe(StreamKind::Kline(Interval::M1))
            .unwrap(),
        "K 线推送断开（x），第 2 次重连将在约 2 秒后进行"
    );
    assert_eq!(
        LinkState::CoolingDown { remaining_ms: 1_000 }.describe(StreamKind::Depth).unwrap(),
        "币安接口限流，盘口推送暂停约 1 秒"
    );
}

#[test]
fn the_end_of_a_link_has_a_reason() {
    for (end, said) in [
        (LinkEnd::Idle { after_ms: 30_999 }, "30 秒内没有收到任何数据"),
        (LinkEnd::Gone, "上游关闭了连接"),
        (LinkEnd::ReadFailed("x".to_string()), "读取失败：x"),
        (LinkEnd::Closed(Some((1001, "bye".to_string()))), "上游关闭：1001 bye"),
        (LinkEnd::Closed(None), "上游关闭"),
        (LinkEnd::HandshakeTimeout { after_ms: 10_000 }, "握手超时（10 秒）"),
        (LinkEnd::ConnectFailed("x".to_string()), "连接失败：x"),
    ] {
        assert_eq!(end.reason(), said);
    }
    assert_eq!(
        handshake_refused(503, None, "", NOW),
        ConnectError::Other("握手被拒：HTTP 503".to_string())
    );
    let body = format!("banned until {}.", NOW + 2_000);
    assert_eq!(
        handshake_refused(418, None, &body, NOW),
        ConnectError::RateLimited { retry_after_ms: 2_000, status: 418 }
    );
}

#[test]
fn a_link_that_lasted_starts_its_waits_over() {
    let mut link = Link::new(&StreamConfig::production(), StreamKind::Trades, "ETHUSDC");
    let mut view = MarketView::default();
    for wait in [1_000, 2_000, 4_000] {
        let action = link.ended("x".to_string(), Some(59_999), 0, &mut view);
        assert_eq!(action, LinkAction::Wait { ms: wait });
    }
    assert_eq!(link.connected(&mut view), LinkAction::Read { idle_ms: 240_000 });
    assert_eq!(view.trades_link, LinkState::Live);
    let action = link.ended("x".to_string(), Some(60_000), 0, &mut view);
    assert_eq!(action, LinkAction::Wait { ms: 1_000 });
    assert!(matches!(view.trades_link, LinkState::Retrying { attempt: 1, .. }));
    let action = link.ended("x".to_string(), None, 0, &mut view);
    assert_eq!(action, LinkAction::Wait { ms: 2_000 });
    assert_eq!((link.symbol(), link.kind()), ("ETHUSDC", StreamKind::Trades));
}

#[test]
fn a_view_tells_only_what_is_new() {
    let mut v = MarketView::default();
    let trade = r#"{"a":5,"p":"1","q":"1","T":1,"m":true}"#;
    assert_eq!(v.take_frame(StreamKind::Trades, "ETHUSDC", trade, NOW), Ok(true));
    assert_eq!(v.take_frame(StreamKind::Trades, "ETHUSDC", trade, NOW), Ok(false));
    assert!(!v.is_live());
    let book = r#"{"b":[],"a":[]}"#;
    assert_eq!(v.take_frame(StreamKind::Depth, "ETHUSDC", book, NOW), Ok(true));
    assert_eq!(v.take_frame(StreamKind::Depth, "ETHUSDC", book, NOW), Ok(true));
    assert!(v.is_live());
    assert!(v.take_frame(StreamKind::Depth, "ETHUSDC", "x", NOW).is_err());
    assert!(v.book.is_some());
    assert!(v.set_link(StreamKind::Depth, LinkState::Connecting));
    assert!(!v.set_link(StreamKind::Depth, LinkState::Connecting));
    assert_eq!(*v.link(StreamKind::Depth), LinkState::Connecting);
}

#[test]
fn those_who_look_at_the_same_quotes_share_a_feed() {
    let mut hub = MarketStreams::production(Cooldown::new());
    let a = hub.subscribe("ETHUSDC");
    assert_eq!(a.start, vec![StreamKind::Depth, StreamKind::Trades]);
    let b = hub.subscribe("ethusdc");
    assert_eq!((b.feed, b.start.len()), (a.feed, 0));
    let k = hub.subscribe_klines("ethusdc", Interval::M15);
    assert_eq!(k.start, vec![StreamKind::Kline(Interval::M15)]);
    assert_ne!(k.feed, a.feed);
    let l = hub.subscribe_klines("ETHUSDC", Interval::M1);
    assert_ne!(l.feed, k.feed);
    assert_eq!(hub.active_feeds(), 3);
    assert_eq!(feed_key("ethusdc"), a.key);
    assert_eq!(kline_feed_key("ethusdc", Interval::M15), "ETHUSDC@kline_15m");
}

#[test]
fn a_feed_goes_when_nobody_looks_and_takes_only_itself() {
    let mut hub = MarketStreams::production(Cooldown::new());
    let a = hub.subscribe("ETHUSDC");
    assert!(!hub.retire(&a.key, a.feed, 1));
    assert_eq!(hub.active_feeds(), 1);
    assert!(hub.retire(&a.key, a.feed, 0));
    assert_eq!(hub.active_feeds(), 0);
    let b = hub.subscribe("ETHUSDC");
    assert_ne!(b.feed, a.feed);
    assert_eq!(b.start.len(), 2);
    assert!(hub.retire(&a.key, a.feed, 0));
    assert_eq!(hub.active_feeds(), 1);
}

#[test]
fn trades_that_were_asked_for_go_to_the_feed_of_their_symbol() {
    let mut hub = MarketStreams::production(Cooldown::new());
    let mut view = MarketView::default();
    assert_eq!(hub.seeded_feed("ETHUSDC"), None);
    assert!(!hub.seed_trades("ETHUSDC", vec![trade(1)], 0, &mut view));
    let a = hub.subscribe("ETHUSDC");
    view.push_trade(trade(9));
    assert!(hub.seed_trades("ethusdc", vec![trade(7), trade(8)], a.feed, &mut view));
    assert_eq!(ids(&view), vec![9, 8, 7]);
    assert!(!hub.seed_trades("ethusdc", vec![trade(6)], a.feed + 1, &mut view));
    assert_eq!(view.trades.len(), 3);
}

#[test]
fn no_handshake_is_made_while_requests_are_limited() {
    let mut hub = MarketStreams::production(Cooldown::new());
    let link = hub.link(StreamKind::Depth, "ethusdc");
    assert_eq!(link.symbol(), "ETHUSDC");
    let mut view = MarketView::default();
    assert_eq!(hub.begin(&link, &mut view, NOW).0, LinkAction::Connect);
    assert_eq!(hub.begin_with(&link, &mut view, NOW, NOW as u64 + 3).0, LinkAction::Cool { ms: 3 });
    hub.arm_cooldown(7_000, NOW);
    assert_eq!(hub.begin(&link, &mut view, NOW), (LinkAction::Cool { ms: 7_000 }, true));
    assert_eq!(hub.begin(&link, &mut view, NOW + 7_000).0, LinkAction::Connect);
    let mut other = Cooldown::new();
    other.arm_until(NOW + 9_000);
    hub.adopt_cooldown(&other);
    assert_eq!(hub.cooldown().remaining_ms(NOW), Some(9_000));
    assert_eq!(hub.config().linger_ms, 15_000);
}

#[test]
fn a_refused_handshake_makes_everyone_wait_or_only_the_link() {
    let wait = Cooldown::new();
    let mut hub = MarketStreams::production(wait.clone());
    let mut link = hub.link(StreamKind::Depth, "ETHUSDC");
    let mut view = MarketView::default();
    let limited = ConnectError::RateLimited { retry_after_ms: 4_000, status: 429 };
    assert_eq!(
        hub.refused(&mut link, limited, 0, &mut view, NOW),
        (LinkAction::Cool { ms: 4_000 }, true)
    );
    assert_eq!(*view.link(StreamKind::Depth), LinkState::CoolingDown { remaining_ms: 4_000 });
    assert_eq!(wait.remaining_ms(NOW), Some(4_000));
    let other = ConnectError::Other("gone".to_string());
    assert_eq!(
        hub.refused(&mut link, other, 0, &mut view, NOW),
        (LinkAction::Wait { ms: 1_000 }, true)
    );
    assert_eq!(
        *view.link(StreamKind::Depth),
        LinkState::Retrying { attempt: 1, retry_in_ms: 1_000, reason: "gone".to_string() }
    );
    assert_eq!(wait.remaining_ms(NOW), Some(4_000));
}
