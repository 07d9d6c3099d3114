use maker_desk::cooldown::Cooldown;
use maker_desk::decimal::Decimal;
use maker_desk::hub::MarketStreams;
use maker_desk::market::AggTrade;
use maker_desk::money::{Price, Qty};
use maker_desk::quotes::Interval;
use maker_desk::signing::endpoint_allowed;
use maker_desk::stream::{
    handshake_refused, parse_agg_trade, parse_depth_event, parse_kline_event,
    stream_endpoint_allowed, stream_url, Backoff, ConnectError, Link, LinkAction, LinkEnd,
    LinkState, MarketView, StreamConfig, StreamKind, PRODUCTION_STREAM_URL, RECENT_TRADES_CAP,
};

const NOW: i64 = 1_750_000_000_000;

fn dec(text: &str) -> Decimal {
    Decimal::parse(text).unwrap()
}


const DEPTH_FRAME: &str = r#"{"stream":"ethusdc@depth20","data":{"e":"depthUpdate","E":1790354340123,"T":1790354340120,"s":"ETHUSDC","U":1,"u":2,"pu":0,"b":[["2687.41","3.5"],["2687.40","1.2"]],"a":[["2687.42","0.8"],["2687.45","4.0"]]}}"#;
const TRADE_FRAME: &str = r#"{"stream":"ethusdc@aggTrade","data":{"e":"aggTrade","E":1790354340200,"s":"ETHUSDC","a":42,"p":"2687.42","q":"0.150","nq":"0.150","f":100,"l":101,"T":1790354340199,"m":true}}"#;

const KLINE_FRAME: &str = r#"{"stream":"ethusdc@kline_15m","data":{"e":"kline","E":1790354340200,"s":"ETHUSDC","k":{"t":1790353800000,"s":"ETHUSDC","i":"15m","o":"2680.00","h":"2690.12","l":"2678.01","c":"2687.42","v":"123.150","x":false}}}"#;

#[test]
fn kline_parser_keeps_decimal_precision_and_validates_subscription() {
    let bar = parse_kline_event(KLINE_FRAME, "ETHUSDC", Interval::M15).unwrap();
    assert_eq!(bar.candle.open_time, 1_790_353_800_000);
    assert_eq!(bar.event_ms, 1_790_354_340_200);
    assert_eq!(bar.candle.close, dec("2687.42"));
    assert_eq!(bar.candle.volume, dec("123.150"));
    assert!(!bar.candle.closed);
    assert!(parse_kline_event(KLINE_FRAME, "BTCUSDC", Interval::M15).is_err());
    assert!(parse_kline_event(KLINE_FRAME, "ETHUSDC", Interval::M1).is_err());
    assert!(
        parse_kline_event(
            &KLINE_FRAME.replace("2687.42", "NaN"),
            "ETHUSDC",
            Interval::M15
        )
        .is_err()
    );
    assert!(parse_kline_event(TRADE_FRAME, "ETHUSDC", Interval::M15).is_err());
    assert_eq!(
        stream_url(
            PRODUCTION_STREAM_URL,
            StreamKind::Kline(Interval::M15),
            "ETHUSDC"
        ),
        "wss://fstream.binance.com/market/stream?streams=ethusdc@kline_15m"
    );
}

#[test]
fn kline_rollover_keeps_final_snapshot_and_drops_stale_updates() {
    let mut view = MarketView::default();
    let first = parse_kline_event(KLINE_FRAME, "ETHUSDC", Interval::M15).unwrap();
    assert!(view.push_candle(first));
    assert!(!view.push_candle(first));
    let mut stale = first;
    stale.event_ms -= 1;
    stale.candle.close = dec("1");
    assert!(!view.push_candle(stale));
    let mut closed = first;
    closed.candle.closed = true;
    assert!(view.push_candle(closed));
    let mut next = first;
    next.candle.open_time += 900000;
    next.event_ms += 900_000;
    assert!(view.push_candle(next));
    assert!(!view.push_candle(first));
    assert_eq!(view.candles.len(), 2);
    assert!(view.candles[0].candle.closed, "节流不能吞掉上一根收盘帧");
}

#[test]
fn urls_use_routed_paths_and_lowercase_symbols() {
    assert_eq!(
        stream_url(PRODUCTION_STREAM_URL, StreamKind::Depth, "ETHUSDC"),
        "wss://fstream.binance.com/public/stream?streams=ethusdc@depth20"
    );
    assert_eq!(
        stream_url(PRODUCTION_STREAM_URL, StreamKind::Trades, "ETHUSDC"),
        "wss://fstream.binance.com/market/stream?streams=ethusdc@aggTrade"
    );
}

#[test]
fn production_stream_endpoint_is_allowed() {
    for kind in [StreamKind::Depth, StreamKind::Trades] {
        let url = stream_url(PRODUCTION_STREAM_URL, kind, "ETHUSDC");
        assert!(stream_endpoint_allowed(&url).is_ok(), "{url}");
    }
}

#[test]
fn stream_whitelist_rejects_other_hosts_and_plaintext() {
    for bad in [
        "wss://evil.example/public/stream",
        "wss://fstream.binance.com.evil.example/public/stream",
        "ws://fstream.binance.com/public/stream",
        "https://fstream.binance.com/public/stream",
        "not a url",
    ] {
        assert!(stream_endpoint_allowed(bad).is_err(), "{bad} 不应被放行");
    }
}

#[test]
fn stream_host_is_not_a_signing_endpoint() {
    assert!(
        endpoint_allowed("https://fstream.binance.com/fapi/v1/order").is_err()
    );
}


#[test]
fn depth_frame_parses_from_combined_stream() {
    let book = parse_depth_event(DEPTH_FRAME, NOW).expect("应能解析");
    assert_eq!(book.bid, dec("2687.41"));
    assert_eq!(book.ask, dec("2687.42"));
    assert_eq!(book.bids.len(), 2);
    assert_eq!(book.asks[1], (dec("2687.45"), dec("4.0")));
    assert_eq!(book.at, 1_790_354_340_123);
}

#[test]
fn depth_frame_parses_without_envelope_and_with_long_names() {
    let book =
        parse_depth_event(r#"{"bids":[["1.5","2"]],"asks":[["1.6","3"]]}"#, NOW).expect("应能解析");
    assert_eq!(book.bid, dec("1.5"));
    assert_eq!(book.ask, dec("1.6"));
}

#[test]
fn depth_frame_with_bad_number_is_rejected() {
    let bad = r#"{"b":[["abc","1"]],"a":[]}"#;
    assert!(parse_depth_event(bad, NOW).is_err());
}

#[test]
fn agg_trade_parses_from_combined_stream() {
    let t = parse_agg_trade(TRADE_FRAME).expect("应能解析");
    assert_eq!(t.trade_id, 42);
    assert_eq!(t.price.get(), dec("2687.42"));
    assert_eq!(t.quantity.get(), dec("0.150"));
    assert!(t.is_buyer_maker);
    assert_eq!(t.at, 1_790_354_340_199);
}

#[test]
fn depth_frame_is_not_a_trade() {
    assert!(parse_agg_trade(DEPTH_FRAME).is_err());
}


fn trade(id: u64) -> AggTrade {
    AggTrade {
        trade_id: id,
        price: Price::new(dec("1")),
        quantity: Qty::new(dec("1")),
        is_buyer_maker: false,
        at: NOW,
    }
}

#[test]
fn duplicate_and_older_trades_are_dropped() {
    let mut v = MarketView::default();
    assert!(v.push_trade(trade(10)));
    assert!(v.push_trade(trade(11)));
    assert!(!v.push_trade(trade(11)), "重复成交");
    assert!(!v.push_trade(trade(5)), "更旧的成交");
    let ids: Vec<u64> = v.trades.iter().map(|t| t.trade_id).collect();
    assert_eq!(ids, vec![11, 10], "新的在前");
}

#[test]
fn seeded_trades_merge_behind_live_ones() {
    let mut v = MarketView::default();
    v.push_trade(trade(100));
    v.merge_trades(vec![trade(98), trade(99), trade(100)]);
    let ids: Vec<u64> = v.trades.iter().map(|t| t.trade_id).collect();
    assert_eq!(ids, vec![100, 99, 98]);
    assert!(v.push_trade(trade(101)), "补底之后推送照常追加");
}

#[test]
fn recent_trades_are_capped() {
    let mut v = MarketView::default();
    for id in 0..(RECENT_TRADES_CAP as u64 + 20) {
        v.push_trade(trade(id));
    }
    assert_eq!(v.trades.len(), RECENT_TRADES_CAP);
}


#[test]
fn backoff_grows_to_cap_and_resets() {
    let mut b = Backoff::new(1_000, 8_000);
    let delays: Vec<u64> = (0..6).map(|k| b.next_delay(123_456_789 * k)).collect();
    let within = |d: u64, base: u64| d >= base * 1_000 && d <= base * 1_200;
    assert!(within(delays[0], 1), "{delays:?}");
    assert!(within(delays[1], 2), "{delays:?}");
    assert!(within(delays[2], 4), "{delays:?}");
    for d in &delays[3..] {
        assert!(*d <= 8_000, "不能超过上限：{delays:?}");
    }
    assert_eq!(b.attempt, 6);

    b.reset();
    assert!(within(b.next_delay(199), 1), "复位后从初始值重来");
}




#[test]
fn kline_reconnect_advances_generation_for_history_repair() {
    let kind = StreamKind::Kline(Interval::M15);
    let mut link = Link::new(&StreamConfig::production(), kind, "ETHUSDC");
    let mut view = MarketView::default();
    for index in 0..2 {
        assert_eq!(link.begin(None, &mut view).0, LinkAction::Connect);
        link.connected(&mut view);
        assert_eq!(view.take_frame(kind, "ETHUSDC", KLINE_FRAME, NOW), Ok(true));
        if index == 0 {
            let action = link.ended(LinkEnd::Gone.reason(), Some(10), 0, &mut view);
            assert_eq!(action, LinkAction::Wait { ms: 1_000 });
            assert!(matches!(view.kline_link, LinkState::Retrying { attempt: 1, .. }));
        }
    }
    assert_eq!(view.kline_generation, 2);
    assert_eq!(view.kline_link, LinkState::Live);
    assert_eq!(view.candles.len(), 1, "新会话只保留重新收到的快照");
}

#[test]
fn rate_limited_handshake_arms_shared_cooldown() {
    let cooldown = Cooldown::new();
    let mut streams = MarketStreams::production(cooldown.clone());
    let link = streams.link(StreamKind::Depth, "ETHUSDC");
    let mut view = MarketView::default();
    match handshake_refused(429, Some("7"), "", NOW) {
        ConnectError::RateLimited { retry_after_ms, status } => {
            assert_eq!(status, 429);
            streams.arm_cooldown(retry_after_ms, NOW);
        }
        other => panic!("{other:?}"),
    }
    let (action, told) = streams.begin(&link, &mut view, NOW);
    assert_eq!(action, LinkAction::Cool { ms: 7_000 });
    assert!(told);
    assert!(matches!(view.depth_link, LinkState::CoolingDown { .. }));
    let remaining = cooldown.remaining_ms(NOW).expect("应已进入冷却");
    assert!(
        remaining > 5_000 && remaining <= 7_000,
        "冷却应来自 Retry-After: 7，实际 {remaining}ms"
    );
}

struct FakeServer {
    connections: usize,
}

impl FakeServer {
    fn serve(&mut self, hub: &MarketStreams, kind: StreamKind, view: &mut MarketView) {
        let link = hub.link(kind, "ETHUSDC");
        assert_eq!(hub.begin(&link, view, NOW).0, LinkAction::Connect);
        self.connections += 1;
        link.connected(view);
        for frame in [DEPTH_FRAME, TRADE_FRAME, KLINE_FRAME] {
            let _ = view.take_frame(kind, link.symbol(), frame, NOW);
        }
    }
}

#[test]
fn subscribers_share_one_upstream_and_it_retires_when_unused() {
    let mut server = FakeServer { connections: 0 };
    let mut streams = MarketStreams::production(Cooldown::new());
    let mut view = MarketView::default();

    let a = streams.subscribe("ETHUSDC");
    for kind in a.start {
        server.serve(&streams, kind, &mut view);
    }
    assert!(view.is_live());
    assert_eq!(view.book.as_ref().map(|b| b.bid), Some(dec("2687.41")));
    assert_eq!(view.trades.front().map(|t| t.trade_id), Some(42));

    let b = streams.subscribe("ethusdc");
    assert_eq!(b.feed, a.feed, "新订阅者应立即拿到最新视图");
    for kind in b.start {
        server.serve(&streams, kind, &mut view);
    }
    assert_eq!(server.connections, 2, "盘口 + 成交各一条");
    assert_eq!(streams.active_feeds(), 1);

    assert!(streams.retire(&a.key, a.feed, 0));
    assert_eq!(streams.active_feeds(), 0, "无人订阅后上游应关闭");
}

#[test]
fn kline_subscribers_share_per_interval_upstream_and_retire() {
    let mut server = FakeServer { connections: 0 };
    let mut streams = MarketStreams::production(Cooldown::new());
    let mut view = MarketView::default();

    let a = streams.subscribe_klines("ETHUSDC", Interval::M15);
    for kind in a.start {
        server.serve(&streams, kind, &mut view);
    }
    assert_eq!(view.kline_link, LinkState::Live);
    let b = streams.subscribe_klines("ethusdc", Interval::M15);
    assert_eq!((b.feed, b.start.len()), (a.feed, 0));
    assert_eq!(view.kline_generation, 1);
    assert_eq!(view.candles.len(), 1);
    assert_eq!(server.connections, 1);
    let c = streams.subscribe_klines("ETHUSDC", Interval::M1);
    assert_eq!(streams.active_feeds(), 2, "不同周期独立共享");
    assert!(streams.retire(&a.key, a.feed, 0));
    assert!(streams.retire(&c.key, c.feed, 0));
    assert_eq!(streams.active_feeds(), 0, "无人订阅应关闭 K 线连接");
}
