//! Quotes as the exchange pushes them: books, trades and candles.
//!
//! Frames are read, the latest view of a symbol is kept, and a link to the exchange is taken
//! through connecting, reading, waiting and connecting again. The links themselves are elsewhere.

use std::collections::VecDeque;
use vstd::prelude::*;
use crate::clock::{has_date, Timestamp};
use crate::cooldown::wait_after_limit;
use crate::decimal::Decimal;
use crate::error::{ExchangeError, Failure};
use crate::json::{field, field_or, fits, open_message, unwrapped, JsonModel, Slot};
use crate::market::{AggTrade, BookSnapshot, Candle, DepthModel};
use crate::money::{Price, Qty};
use crate::quotes::{best_price, Interval};
use crate::signing::parse_url;
use crate::text::{
    i64_text, joined, joined3, joined4, joined5, same_text, to_lower, to_upper, trim_slashes,
    u64_text,
};

verus! {

/// The exchange's quotes.
pub const PRODUCTION_STREAM_URL: &'static str = "wss://fstream.binance.com";

/// How many levels of each side a book has.
pub const DEPTH_LEVELS: u32 = 20;

/// How many trades are kept.
pub const RECENT_TRADES_CAP: usize = 30;

/// How many candles are kept.
pub const RECENT_CANDLES_CAP: usize = 32;

/// What is wrong with the address of a stream: it has to be encrypted and the exchange's own.
pub open spec fn stream_fault(url: Seq<char>) -> Option<Seq<char>> {
    match crate::signing::url_parts(url) {
        None => Some("推送地址无法解析："@ + url),
        Some((scheme, host)) => {
            let name = match host {
                Some(h) => h,
                None => Seq::empty(),
            };
            if scheme != "wss"@ {
                Some("推送地址必须是 wss://，收到："@ + url)
            } else if name == "fstream.binance.com"@ {
                None
            } else {
                Some(
                    "推送主机不在白名单内："@ + name + "。只允许币安官方行情推送域名。"@,
                )
            }
        },
    }
}

/// Checks the address of a stream.
pub fn stream_endpoint_allowed(url: &str) -> (r: Result<(), ExchangeError>)
    ensures
        match r {
            Ok(_) => stream_fault(url@) is None,
            Err(e) => e@ matches Failure::Fatal(s) && stream_fault(url@) == Some(s),
        },
{
    match parse_url(url) {
        None => Err(ExchangeError::Fatal(joined("推送地址无法解析：", url))),
        Some((scheme, host)) => {
            if !same_text(scheme.as_str(), "wss") {
                return Err(
                    ExchangeError::Fatal(joined("推送地址必须是 wss://，收到：", url)),
                );
            }
            let name = match host {
                Some(h) => h,
                None => {
                    let none = String::new();
                    assert(none@ =~= Seq::<char>::empty());
                    none
                },
            };
            if same_text(name.as_str(), "fstream.binance.com") {
                Ok(())
            } else {
                Err(
                    ExchangeError::Fatal(
                        joined3(
                            "推送主机不在白名单内：",
                            name.as_str(),
                            "。只允许币安官方行情推送域名。",
                        ),
                    ),
                )
            }
        },
    }
}

/// What a link carries.
#[derive(Clone, Copy, Debug, PartialEq, Eq, Structural)]
pub enum StreamKind {
    Depth,
    Trades,
    Kline(Interval),
}

impl StreamKind {
    /// The exchange's path to a stream.
    pub open spec fn way(self) -> Seq<char> {
        match self {
            StreamKind::Depth => "public"@,
            _ => "market"@,
        }
    }

    /// The exchange's name of a stream. Symbols are in lower case there.
    pub open spec fn named(self, symbol: Seq<char>) -> Seq<char> {
        let s = crate::text::lowercased(symbol);
        match self {
            StreamKind::Depth => s + "@depth20"@,
            StreamKind::Trades => s + "@aggTrade"@,
            StreamKind::Kline(interval) => s + "@kline_"@ + interval.word(),
        }
    }

    /// The name for users.
    pub open spec fn said(self) -> Seq<char> {
        match self {
            StreamKind::Depth => "盘口"@,
            StreamKind::Trades => "成交流"@,
            StreamKind::Kline(_) => "K 线"@,
        }
    }

    /// The exchange's path. On another path a stream can be connected to but stays silent.
    pub fn route(self) -> (r: &'static str)
        ensures
            r@ == self.way(),
    {
        match self {
            StreamKind::Depth => "public",
            StreamKind::Trades | StreamKind::Kline(_) => "market",
        }
    }

    /// The exchange's name of the stream of a symbol.
    pub fn stream_name(self, symbol: &str) -> (r: String)
        ensures
            r@ == self.named(symbol@),
    {
        let s = to_lower(symbol);
        match self {
            StreamKind::Depth => joined(s.as_str(), "@depth20"),
            StreamKind::Trades => joined(s.as_str(), "@aggTrade"),
            StreamKind::Kline(interval) => joined3(s.as_str(), "@kline_", interval.as_str()),
        }
    }

    /// The name for users.
    pub fn label(self) -> (r: &'static str)
        ensures
            r@ == self.said(),
    {
        match self {
            StreamKind::Depth => "盘口",
            StreamKind::Trades => "成交流",
            StreamKind::Kline(_) => "K 线",
        }
    }
}

/// The address of the stream of a symbol.
pub open spec fn address(base: Seq<char>, kind: StreamKind, symbol: Seq<char>) -> Seq<char> {
    crate::text::without_slashes(base) + "/"@ + kind.way() + "/stream?streams="@ + kind.named(
        symbol,
    )
}

/// The address of the stream of a symbol.
pub fn stream_url(base: &str, kind: StreamKind, symbol: &str) -> (r: String)
    ensures
        r@ == address(base@, kind, symbol@),
{
    let b = trim_slashes(base);
    let name = kind.stream_name(symbol);
    joined5(b.as_str(), "/", kind.route(), "/stream?streams=", name.as_str())
}

/// What is said of an amount that cannot be read.
pub open spec fn bad_amount(what: Seq<char>, raw: Seq<char>) -> Seq<char> {
    what + "无法解析为数值："@ + raw
}

/// An amount, or what is wrong with it.
pub open spec fn amount_of(raw: Seq<char>, what: Seq<char>) -> Result<Decimal, Seq<char>> {
    match crate::decimal::decimal_of_text(raw) {
        Some(d) => Ok(d),
        None => Err(bad_amount(what, raw)),
    }
}

fn parse_decimal(raw: &str, what: &str) -> (r: Result<Decimal, String>)
    ensures
        match r {
            Ok(d) => amount_of(raw@, what@) == Ok::<Decimal, Seq<char>>(d),
            Err(e) => amount_of(raw@, what@) == Err::<Decimal, Seq<char>>(e@),
        },
{
    match Decimal::parse(raw) {
        Some(d) => Ok(d),
        None => Err(joined3(what, "无法解析为数值：", raw)),
    }
}

/// The levels of one side, or what is wrong with the first that cannot be read.
pub open spec fn levels_of(s: Seq<(Seq<char>, Seq<char>)>) -> Result<
    Seq<(Decimal, Decimal)>,
    Seq<char>,
>
    decreases s.len(),
{
    if s.len() == 0 {
        Ok(Seq::empty())
    } else {
        match levels_of(s.drop_last()) {
            Err(e) => Err(e),
            Ok(before) => match amount_of(s.last().0, "价格"@) {
                Err(e) => Err(e),
                Ok(p) => match amount_of(s.last().1, "数量"@) {
                    Err(e) => Err(e),
                    Ok(q) => Ok(before.push((p, q))),
                },
            },
        }
    }
}

proof fn lemma_levels_fail(s: Seq<(Seq<char>, Seq<char>)>, n: nat, e: Seq<char>)
    requires
        n <= s.len(),
        levels_of(s.take(n as int)) == Err::<Seq<(Decimal, Decimal)>, Seq<char>>(e),
    ensures
        levels_of(s) == Err::<Seq<(Decimal, Decimal)>, Seq<char>>(e),
    decreases s.len() - n,
{
    if n < s.len() {
        assert(s.take((n + 1) as int).drop_last() =~= s.take(n as int));
        lemma_levels_fail(s, n + 1, e);
    } else {
        assert(s.take(n as int) =~= s);
    }
}

fn parse_levels(raw: &Vec<(String, String)>) -> (r: Result<Vec<(Decimal, Decimal)>, String>)
    ensures
        match r {
            Ok(v) => levels_of(crate::json::pair_texts(raw@)) == Ok::<
                Seq<(Decimal, Decimal)>,
                Seq<char>,
            >(v@),
            Err(e) => levels_of(crate::json::pair_texts(raw@)) == Err::<
                Seq<(Decimal, Decimal)>,
                Seq<char>,
            >(e@),
        },
{
    let ghost s = crate::json::pair_texts(raw@);
    let mut out: Vec<(Decimal, Decimal)> = Vec::new();
    for i in 0..raw.len()
        invariant
            s == crate::json::pair_texts(raw@),
            levels_of(s.take(i as int)) == Ok::<Seq<(Decimal, Decimal)>, Seq<char>>(out@),
    {
        assert(s.take(i + 1).drop_last() =~= s.take(i as int));
        assert(s.take(i + 1).last() == (raw@[i as int].0@, raw@[i as int].1@));
        let p = match parse_decimal(raw[i].0.as_str(), "价格") {
            Ok(d) => d,
            Err(e) => {
                proof {
                    lemma_levels_fail(s, (i + 1) as nat, e@);
                }
                return Err(e);
            },
        };
        let q = match parse_decimal(raw[i].1.as_str(), "数量") {
            Ok(d) => d,
            Err(e) => {
                proof {
                    lemma_levels_fail(s, (i + 1) as nat, e@);
                }
                return Err(e);
            },
        };
        out.push((p, q));
    }
    assert(s.take(s.len() as int) =~= s);
    Ok(out)
}

/// The fields of a book frame.
#[derive(Debug, PartialEq, Eq)]
pub struct DepthFrame {
    /// When the frame was made; zero where it does not say.
    pub time: i64,
    pub bids: Vec<(String, String)>,
    pub asks: Vec<(String, String)>,
}

/// A [`DepthFrame`] with its texts and lists as sequences.
pub struct DepthFields {
    pub time: int,
    pub bids: Seq<(Seq<char>, Seq<char>)>,
    pub asks: Seq<(Seq<char>, Seq<char>)>,
}

impl View for DepthFrame {
    type V = DepthFields;

    open spec fn view(&self) -> DepthFields {
        DepthFields {
            time: self.time as int,
            bids: crate::json::pair_texts(self.bids@),
            asks: crate::json::pair_texts(self.asks@),
        }
    }
}

impl DepthFields {
    /// The book, or what is wrong with it. A frame with an amount that cannot be read is dropped
    /// as a whole. A frame without a time is taken to be of now.
    pub open spec fn book(self, now: Timestamp) -> Result<DepthModel, Seq<char>> {
        match levels_of(self.bids) {
            Err(e) => Err(e),
            Ok(bids) => match levels_of(self.asks) {
                Err(e) => Err(e),
                Ok(asks) => Ok(
                    DepthModel {
                        bid: crate::quotes::best(bids),
                        ask: crate::quotes::best(asks),
                        bids,
                        asks,
                        at: if self.time > 0 && crate::clock::dated(self.time) {
                            self.time as i64
                        } else {
                            now
                        },
                    },
                ),
            },
        }
    }
}

/// The fields of a book frame.
pub open spec fn depth_fields(j: JsonModel) -> Option<DepthFields> {
    match (
        j.field(0, "E"@).integer(false),
        j.field_or(1, "b"@, "bids"@).list(true),
        j.field_or(2, "a"@, "asks"@).list(true),
    ) {
        (Some(time), Some(b), Some(a)) => match (
            crate::json::pairs_of(b),
            crate::json::pairs_of(a),
        ) {
            (Some(bids), Some(asks)) => if j.fits(3) {
                Some(DepthFields { time, bids, asks })
            } else {
                None
            },
            _ => None,
        },
        _ => None,
    }
}

impl DepthFrame {
    fn read(data: &serde_json::Value) -> (r: Option<DepthFrame>)
        ensures
            match r {
                Some(f) => depth_fields(crate::json::json_of(*data)) == Some(f@),
                None => depth_fields(crate::json::json_of(*data)) is None,
            },
    {
        let time = field(data, 0, "E").integer(false);
        let b = field_or(data, 1, "b", "bids").pairs();
        let a = field_or(data, 2, "a", "asks").pairs();
        if !fits(data, 3) {
            return None;
        }
        match (time, b, a) {
            (Some(time), Some(bids), Some(asks)) => Some(DepthFrame { time, bids, asks }),
            _ => None,
        }
    }

    /// The book of the frame, or what is wrong with it.
    pub fn book(&self, now: Timestamp) -> (r: Result<BookSnapshot, String>)
        ensures
            match r {
                Ok(b) => self@.book(now) == Ok::<DepthModel, Seq<char>>(b@),
                Err(e) => self@.book(now) == Err::<DepthModel, Seq<char>>(e@),
            },
    {
        let bids = match parse_levels(&self.bids) {
            Ok(x) => x,
            Err(e) => return Err(e),
        };
        let asks = match parse_levels(&self.asks) {
            Ok(x) => x,
            Err(e) => return Err(e),
        };
        let at = if self.time > 0 && has_date(self.time) {
            self.time
        } else {
            now
        };
        Ok(BookSnapshot { bid: best_price(&bids), ask: best_price(&asks), bids, asks, at })
    }
}

/// The book of a frame, or what is wrong with it.
pub open spec fn depth_event(text: Seq<char>, now: Timestamp) -> Result<DepthModel, Seq<char>> {
    match crate::json::json_text(text) {
        Err(e) => Err(crate::json::not_json(e)),
        Ok(j) => match depth_fields(j.unwrapped()) {
            None => Err("盘口字段不符"@),
            Some(f) => f.book(now),
        },
    }
}

/// Reads a book frame.
pub fn parse_depth_event(text: &str, now: Timestamp) -> (r: Result<BookSnapshot, String>)
    ensures
        match r {
            Ok(b) => depth_event(text@, now) == Ok::<DepthModel, Seq<char>>(b@),
            Err(e) => depth_event(text@, now) == Err::<DepthModel, Seq<char>>(e@),
        },
{
    let v = match open_message(text) {
        Ok(v) => v,
        Err(e) => return Err(e),
    };
    match DepthFrame::read(unwrapped(&v)) {
        Some(f) => f.book(now),
        None => Err("盘口字段不符".to_owned()),
    }
}

/// The fields of a trade frame.
#[derive(Debug, PartialEq, Eq)]
pub struct TradeFrame {
    /// The kind of the event; empty where the frame does not say.
    pub event: String,
    pub id: u64,
    pub price: String,
    pub qty: String,
    pub time: i64,
    pub is_buyer_maker: bool,
}

/// A [`TradeFrame`] with its texts as sequences of characters.
pub struct TradeFields {
    pub event: Seq<char>,
    pub id: int,
    pub price: Seq<char>,
    pub qty: Seq<char>,
    pub time: int,
    pub is_buyer_maker: bool,
}

impl View for TradeFrame {
    type V = TradeFields;

    open spec fn view(&self) -> TradeFields {
        TradeFields {
            event: self.event@,
            id: self.id as int,
            price: self.price@,
            qty: self.qty@,
            time: self.time as int,
            is_buyer_maker: self.is_buyer_maker,
        }
    }
}

impl TradeFields {
    /// The trade, or what is wrong with it.
    pub open spec fn trade(self) -> Result<AggTrade, Seq<char>> {
        if self.event.len() > 0 && self.event != "aggTrade"@ {
            Err("不是聚合成交事件："@ + self.event)
        } else if !crate::clock::dated(self.time) {
            Err("成交时间无效："@ + crate::text::signed_digits(self.time))
        } else {
            match amount_of(self.price, "成交价"@) {
                Err(e) => Err(e),
                Ok(price) => match amount_of(self.qty, "成交量"@) {
                    Err(e) => Err(e),
                    Ok(quantity) => Ok(
                        AggTrade {
                            trade_id: self.id as u64,
                            price: Price(price),
                            quantity: Qty(quantity),
                            is_buyer_maker: self.is_buyer_maker,
                            at: self.time as i64,
                        },
                    ),
                },
            }
        }
    }
}

/// The fields of a trade frame.
pub open spec fn trade_fields(j: JsonModel) -> Option<TradeFields> {
    match (
        j.field(0, "e"@).text(false),
        j.field(1, "a"@).whole(0, u64::MAX as int),
        j.field(2, "p"@).text(true),
        j.field(3, "q"@).text(true),
        j.field(4, "T"@).integer(true),
        j.field(5, "m"@).flag(),
    ) {
        (Some(event), Some(id), Some(price), Some(qty), Some(time), Some(is_buyer_maker)) =>
            if j.fits(6) {
                Some(TradeFields { event, id, price, qty, time, is_buyer_maker })
            } else {
                None
            },
        _ => None,
    }
}

impl TradeFrame {
    fn read(data: &serde_json::Value) -> (r: Option<TradeFrame>)
        ensures
            match r {
                Some(f) => trade_fields(crate::json::json_of(*data)) == Some(f@),
                None => trade_fields(crate::json::json_of(*data)) is None,
            },
    {
        let event = field(data, 0, "e").text(false);
        let id = field(data, 1, "a").natural();
        let price = field(data, 2, "p").text(true);
        let qty = field(data, 3, "q").text(true);
        let time = field(data, 4, "T").integer(true);
        let maker = field(data, 5, "m").flag();
        if !fits(data, 6) {
            return None;
        }
        match (event, id, price, qty, time, maker) {
            (Some(event), Some(id), Some(price), Some(qty), Some(time), Some(is_buyer_maker)) =>
                Some(TradeFrame { event, id, price, qty, time, is_buyer_maker }),
            _ => None,
        }
    }

    /// The trade of the frame, or what is wrong with it.
    pub fn trade(&self) -> (r: Result<AggTrade, String>)
        ensures
            match r {
                Ok(t) => self@.trade() == Ok::<AggTrade, Seq<char>>(t),
                Err(e) => self@.trade() == Err::<AggTrade, Seq<char>>(e@),
            },
    {
        let named = crate::text::chars_of(self.event.as_str());
        if named.len() > 0 && !same_text(self.event.as_str(), "aggTrade") {
            return Err(joined("不是聚合成交事件：", self.event.as_str()));
        }
        if !has_date(self.time) {
            return Err(joined("成交时间无效：", i64_text(self.time).as_str()));
        }
        let price = match parse_decimal(self.price.as_str(), "成交价") {
            Ok(d) => d,
            Err(e) => return Err(e),
        };
        let quantity = match parse_decimal(self.qty.as_str(), "成交量") {
            Ok(d) => d,
            Err(e) => return Err(e),
        };
        Ok(
            AggTrade {
                trade_id: self.id,
                price: Price::new(price),
                quantity: Qty::new(quantity),
                is_buyer_maker: self.is_buyer_maker,
                at: self.time,
            },
        )
    }
}

/// The trade of a frame, or what is wrong with it.
pub open spec fn trade_event(text: Seq<char>) -> Result<AggTrade, Seq<char>> {
    match crate::json::json_text(text) {
        Err(e) => Err(crate::json::not_json(e)),
        Ok(j) => match trade_fields(j.unwrapped()) {
            None => Err("成交字段不符"@),
            Some(f) => f.trade(),
        },
    }
}

/// Reads a trade frame.
pub fn parse_agg_trade(text: &str) -> (r: Result<AggTrade, String>)
    ensures
        match r {
            Ok(t) => trade_event(text@) == Ok::<AggTrade, Seq<char>>(t),
            Err(e) => trade_event(text@) == Err::<AggTrade, Seq<char>>(e@),
        },
{
    let v = match open_message(text) {
        Ok(v) => v,
        Err(e) => return Err(e),
    };
    match TradeFrame::read(unwrapped(&v)) {
        Some(f) => f.trade(),
        None => Err("成交字段不符".to_owned()),
    }
}

/// A candle, and when it was pushed.
#[derive(Clone, Copy, Debug, PartialEq, Eq)]
pub struct StreamCandle {
    pub candle: Candle,
    pub event_ms: i64,
}

/// The fields of the candle in a candle frame.
#[derive(Debug, PartialEq, Eq)]
pub struct BarFrame {
    pub open_time: i64,
    pub symbol: String,
    pub interval: String,
    pub open: String,
    pub high: String,
    pub low: String,
    pub close: String,
    pub volume: String,
    pub closed: bool,
}

/// A [`BarFrame`] with its texts as sequences of characters.
pub struct BarFields {
    pub open_time: int,
    pub symbol: Seq<char>,
    pub interval: Seq<char>,
    pub open: Seq<char>,
    pub high: Seq<char>,
    pub low: Seq<char>,
    pub close: Seq<char>,
    pub volume: Seq<char>,
    pub closed: bool,
}

impl View for BarFrame {
    type V = BarFields;

    open spec fn view(&self) -> BarFields {
        BarFields {
            open_time: self.open_time as int,
            symbol: self.symbol@,
            interval: self.interval@,
            open: self.open@,
            high: self.high@,
            low: self.low@,
            close: self.close@,
            volume: self.volume@,
            closed: self.closed,
        }
    }
}

/// The fields of a candle frame.
#[derive(Debug, PartialEq, Eq)]
pub struct KlineFrame {
    pub event: String,
    pub time: i64,
    pub symbol: String,
    pub bar: BarFrame,
}

/// A [`KlineFrame`] with its texts as sequences of characters.
pub struct KlineFields {
    pub event: Seq<char>,
    pub time: int,
    pub symbol: Seq<char>,
    pub bar: BarFields,
}

impl View for KlineFrame {
    type V = KlineFields;

    open spec fn view(&self) -> KlineFields {
        KlineFields {
            event: self.event@,
            time: self.time as int,
            symbol: self.symbol@,
            bar: self.bar@,
        }
    }
}

/// The fields of the candle in a candle frame.
pub open spec fn bar_fields(j: JsonModel) -> Option<BarFields> {
    match (
        j.field(0, "t"@).integer(true),
        j.field(1, "s"@).text(true),
        j.field(2, "i"@).text(true),
        j.field(3, "o"@).text(true),
        j.field(4, "h"@).text(true),
        j.field(5, "l"@).text(true),
        j.field(6, "c"@).text(true),
        j.field(7, "v"@).text(true),
        j.field(8, "x"@).flag(),
    ) {
        (
            Some(open_time),
            Some(symbol),
            Some(interval),
            Some(open),
            Some(high),
            Some(low),
            Some(close),
            Some(volume),
            Some(closed),
        ) => if j.fits(9) {
            Some(
                BarFields {
                    open_time,
                    symbol,
                    interval,
                    open,
                    high,
                    low,
                    close,
                    volume,
                    closed,
                },
            )
        } else {
            None
        },
        _ => None,
    }
}

/// The fields of a candle frame.
pub open spec fn kline_fields(j: JsonModel) -> Option<KlineFields> {
    match (
        j.field(0, "e"@).text(true),
        j.field(1, "E"@).integer(true),
        j.field(2, "s"@).text(true),
        j.field(3, "k"@),
    ) {
        (Some(event), Some(time), Some(symbol), crate::json::SlotModel::Given(k)) => match bar_fields(
            k,
        ) {
            Some(bar) => if j.fits(4) {
                Some(KlineFields { event, time, symbol, bar })
            } else {
                None
            },
            None => None,
        },
        _ => None,
    }
}

impl BarFields {
    /// The amounts of the candle, in the order in which they are read.
    pub open spec fn amounts(self) -> Result<
        (Decimal, Decimal, Decimal, Decimal, Decimal),
        Seq<char>,
    > {
        match amount_of(self.open, "开盘价"@) {
            Err(e) => Err(e),
            Ok(open) => match amount_of(self.high, "最高价"@) {
                Err(e) => Err(e),
                Ok(high) => match amount_of(self.low, "最低价"@) {
                    Err(e) => Err(e),
                    Ok(low) => match amount_of(self.close, "收盘价"@) {
                        Err(e) => Err(e),
                        Ok(close) => match amount_of(self.volume, "成交量"@) {
                            Err(e) => Err(e),
                            Ok(volume) => Ok((open, high, low, close, volume)),
                        },
                    },
                },
            },
        }
    }
}

impl KlineFields {
    /// The candle, or what is wrong with it. It has to be of the symbol and the interval that
    /// were asked for.
    pub open spec fn candle(self, symbol: Seq<char>, interval: Interval) -> Result<
        StreamCandle,
        Seq<char>,
    > {
        if self.event != "kline"@ || self.symbol != symbol || self.bar.symbol != symbol
            || self.bar.interval != interval.word() {
            Err("K 线事件的交易对或周期与订阅不符"@)
        } else if !(crate::clock::dated(self.bar.open_time) && self.bar.open_time > 0 && self.time
            >= self.bar.open_time) {
            Err("K 线时间无效"@)
        } else {
            match self.bar.amounts() {
                Err(e) => Err(e),
                Ok((open, high, low, close, volume)) => Ok(
                    StreamCandle {
                        event_ms: self.time as i64,
                        candle: Candle {
                            open_time: self.bar.open_time as i64,
                            open,
                            high,
                            low,
                            close,
                            volume,
                            closed: self.bar.closed,
                        },
                    },
                ),
            }
        }
    }
}

impl BarFrame {
    fn read(k: &serde_json::Value) -> (r: Option<BarFrame>)
        ensures
            match r {
                Some(b) => bar_fields(crate::json::json_of(*k)) == Some(b@),
                None => bar_fields(crate::json::json_of(*k)) is None,
            },
    {
        if !fits(k, 9) {
            return None;
        }
        match (
            field(k, 0, "t").integer(true),
            field(k, 1, "s").text(true),
            field(k, 2, "i").text(true),
            field(k, 3, "o").text(true),
            field(k, 4, "h").text(true),
            field(k, 5, "l").text(true),
            field(k, 6, "c").text(true),
            field(k, 7, "v").text(true),
            field(k, 8, "x").flag(),
        ) {
            (
                Some(open_time),
                Some(symbol),
                Some(interval),
                Some(open),
                Some(high),
                Some(low),
                Some(close),
                Some(volume),
                Some(closed),
            ) => Some(
                BarFrame { open_time, symbol, interval, open, high, low, close, volume, closed },
            ),
            _ => None,
        }
    }

    fn amounts(&self) -> (r: Result<(Decimal, Decimal, Decimal, Decimal, Decimal), String>)
        ensures
            match r {
                Ok(x) => self@.amounts() == Ok::<
                    (Decimal, Decimal, Decimal, Decimal, Decimal),
                    Seq<char>,
                >(x),
                Err(e) => self@.amounts() == Err::<
                    (Decimal, Decimal, Decimal, Decimal, Decimal),
                    Seq<char>,
                >(e@),
            },
    {
        let open = match parse_decimal(self.open.as_str(), "开盘价") {
            Ok(d) => d,
            Err(e) => return Err(e),
        };
        let high = match parse_decimal(self.high.as_str(), "最高价") {
            Ok(d) => d,
            Err(e) => return Err(e),
        };
        let low = match parse_decimal(self.low.as_str(), "最低价") {
            Ok(d) => d,
            Err(e) => return Err(e),
        };
        let close = match parse_decimal(self.close.as_str(), "收盘价") {
            Ok(d) => d,
            Err(e) => return Err(e),
        };
        let volume = match parse_decimal(self.volume.as_str(), "成交量") {
            Ok(d) => d,
            Err(e) => return Err(e),
        };
        Ok((open, high, low, close, volume))
    }
}

impl KlineFrame {
    fn read(data: &serde_json::Value) -> (r: Option<KlineFrame>)
        ensures
            match r {
                Some(f) => kline_fields(crate::json::json_of(*data)) == Some(f@),
                None => kline_fields(crate::json::json_of(*data)) is None,
            },
    {
        let event = field(data, 0, "e").text(true);
        let time = field(data, 1, "E").integer(true);
        let symbol = field(data, 2, "s").text(true);
        let bar = match field(data, 3, "k") {
            Slot::Given(k) => BarFrame::read(k),
            _ => None,
        };
        if !fits(data, 4) {
            return None;
        }
        match (event, time, symbol, bar) {
            (Some(event), Some(time), Some(symbol), Some(bar)) => Some(
                KlineFrame { event, time, symbol, bar },
            ),
            _ => None,
        }
    }

    /// The candle of the frame, or what is wrong with it. It has to be of the symbol and the
    /// interval that were asked for.
    pub fn candle(&self, symbol: &str, interval: Interval) -> (r: Result<StreamCandle, String>)
        ensures
            match r {
                Ok(c) => self@.candle(symbol@, interval) == Ok::<StreamCandle, Seq<char>>(c),
                Err(e) => self@.candle(symbol@, interval) == Err::<StreamCandle, Seq<char>>(e@),
            },
    {
        if !same_text(self.event.as_str(), "kline") || !same_text(self.symbol.as_str(), symbol)
            || !same_text(self.bar.symbol.as_str(), symbol) || !same_text(
            self.bar.interval.as_str(),
            interval.as_str(),
        ) {
            return Err("K 线事件的交易对或周期与订阅不符".to_owned());
        }
        if !(has_date(self.bar.open_time) && self.bar.open_time > 0 && self.time
            >= self.bar.open_time) {
            return Err("K 线时间无效".to_owned());
        }
        let (open, high, low, close, volume) = match self.bar.amounts() {
            Ok(x) => x,
            Err(e) => return Err(e),
        };
        Ok(
            StreamCandle {
                event_ms: self.time,
                candle: Candle {
                    open_time: self.bar.open_time,
                    open,
                    high,
                    low,
                    close,
                    volume,
                    closed: self.bar.closed,
                },
            },
        )
    }
}

/// The candle of a frame, or what is wrong with it.
pub open spec fn kline_event(text: Seq<char>, symbol: Seq<char>, interval: Interval) -> Result<
    StreamCandle,
    Seq<char>,
> {
    match crate::json::json_text(text) {
        Err(e) => Err(crate::json::not_json(e)),
        Ok(j) => match kline_fields(j.unwrapped()) {
            None => Err("K 线字段不符"@),
            Some(f) => f.candle(symbol, interval),
        },
    }
}

/// Reads a candle frame of a symbol and an interval.
pub fn parse_kline_event(text: &str, symbol: &str, interval: Interval) -> (r: Result<
    StreamCandle,
    String,
>)
    ensures
        match r {
            Ok(c) => kline_event(text@, symbol@, interval) == Ok::<StreamCandle, Seq<char>>(c),
            Err(e) => kline_event(text@, symbol@, interval) == Err::<StreamCandle, Seq<char>>(e@),
        },
{
    let v = match open_message(text) {
        Ok(v) => v,
        Err(e) => return Err(e),
    };
    match KlineFrame::read(unwrapped(&v)) {
        Some(f) => f.candle(symbol, interval),
        None => Err("K 线字段不符".to_owned()),
    }
}

/// How a link stands.
#[derive(Debug, PartialEq, Eq)]
pub enum LinkState {
    /// Connecting, or connected with nothing received yet.
    Connecting,
    Live,
    /// Broken off, to be connected again.
    Retrying { attempt: u32, retry_in_ms: u64, reason: String },
    /// Requests are limited.
    CoolingDown { remaining_ms: u64 },
}

/// A [`LinkState`] with its texts as sequences of characters.
pub enum LinkModel {
    Connecting,
    Live,
    Retrying { attempt: u32, retry_in_ms: u64, reason: Seq<char> },
    CoolingDown { remaining_ms: u64 },
}

impl View for LinkState {
    type V = LinkModel;

    open spec fn view(&self) -> LinkModel {
        match *self {
            LinkState::Connecting => LinkModel::Connecting,
            LinkState::Live => LinkModel::Live,
            LinkState::Retrying { attempt, retry_in_ms, reason } => LinkModel::Retrying {
                attempt,
                retry_in_ms,
                reason: reason@,
            },
            LinkState::CoolingDown { remaining_ms } => LinkModel::CoolingDown { remaining_ms },
        }
    }
}

impl Default for LinkState {
    fn default() -> (r: Self)
        ensures
            r is Connecting,
    {
        LinkState::Connecting
    }
}

impl Clone for LinkState {
    fn clone(&self) -> (r: Self)
        ensures
            r == *self,
    {
        match self {
            LinkState::Connecting => LinkState::Connecting,
            LinkState::Live => LinkState::Live,
            LinkState::Retrying { attempt, retry_in_ms, reason } => LinkState::Retrying {
                attempt: *attempt,
                retry_in_ms: *retry_in_ms,
                reason: reason.clone(),
            },
            LinkState::CoolingDown { remaining_ms } => LinkState::CoolingDown {
                remaining_ms: *remaining_ms,
            },
        }
    }
}

/// Milliseconds in whole seconds, rounded up.
pub open spec fn seconds_up(ms: u64) -> nat {
    ((ms + 999) / 1000) as nat
}

fn round_up_seconds(ms: u64) -> (r: u64)
    ensures
        r == seconds_up(ms),
{
    if ms % 1000 == 0 {
        ms / 1000
    } else {
        ms / 1000 + 1
    }
}

impl LinkModel {
    /// What users are told; nothing of a link that is live.
    pub open spec fn told(self, kind: StreamKind) -> Option<Seq<char>> {
        match self {
            LinkModel::Live => None,
            LinkModel::Connecting => Some(kind.said() + "推送连接中"@),
            LinkModel::Retrying { attempt, retry_in_ms, reason } => Some(
                kind.said() + "推送断开（"@ + reason + "），第 "@ + crate::text::digits(
                    attempt as nat,
                ) + " 次重连将在约 "@ + crate::text::digits(seconds_up(retry_in_ms))
                    + " 秒后进行"@,
            ),
            LinkModel::CoolingDown { remaining_ms } => Some(
                "币安接口限流，"@ + kind.said() + "推送暂停约 "@ + crate::text::digits(
                    seconds_up(remaining_ms),
                ) + " 秒"@,
            ),
        }
    }
}

impl LinkState {
    /// Whether two states are the same.
    pub fn same(&self, other: &LinkState) -> (r: bool)
        ensures
            r == (self@ == other@),
    {
        match (self, other) {
            (LinkState::Connecting, LinkState::Connecting) => true,
            (LinkState::Live, LinkState::Live) => true,
            (
                LinkState::Retrying { attempt: a, retry_in_ms: b, reason: c },
                LinkState::Retrying { attempt: x, retry_in_ms: y, reason: z },
            ) => *a == *x && *b == *y && same_text(c.as_str(), z.as_str()),
            (
                LinkState::CoolingDown { remaining_ms: a },
                LinkState::CoolingDown { remaining_ms: b },
            ) => *a == *b,
            _ => false,
        }
    }

    /// What users are told; `None` where all is well.
    pub fn describe(&self, kind: StreamKind) -> (r: Option<String>)
        ensures
            match r {
                Some(s) => self@.told(kind) == Some(s@),
                None => self@.told(kind) is None,
            },
    {
        let label = kind.label();
        match self {
            LinkState::Live => None,
            LinkState::Connecting => Some(joined(label, "推送连接中")),
            LinkState::Retrying { attempt, retry_in_ms, reason } => {
                let head = joined5(
                    label,
                    "推送断开（",
                    reason.as_str(),
                    "），第 ",
                    u64_text(*attempt as u64).as_str(),
                );
                Some(
                    joined4(
                        head.as_str(),
                        " 次重连将在约 ",
                        u64_text(round_up_seconds(*retry_in_ms)).as_str(),
                        " 秒后进行",
                    ),
                )
            },
            LinkState::CoolingDown { remaining_ms } => Some(
                joined5(
                    "币安接口限流，",
                    label,
                    "推送暂停约 ",
                    u64_text(round_up_seconds(*remaining_ms)).as_str(),
                    " 秒",
                ),
            ),
        }
    }
}

/// The latest view of a symbol.
#[derive(Debug)]
pub struct MarketView {
    pub book: Option<BookSnapshot>,
    /// The last trades, newest first.
    pub trades: VecDeque<AggTrade>,
    pub depth_link: LinkState,
    pub trades_link: LinkState,
    pub kline_link: LinkState,
    /// The last candles, oldest first.
    pub candles: VecDeque<StreamCandle>,
    /// How often the candles' link was set up. After each time history has to be asked for.
    pub kline_generation: u64,
}

/// A [`MarketView`] with its texts and lists as sequences.
pub struct ViewModel {
    pub book: Option<DepthModel>,
    pub trades: Seq<AggTrade>,
    pub depth_link: LinkModel,
    pub trades_link: LinkModel,
    pub kline_link: LinkModel,
    pub candles: Seq<StreamCandle>,
    pub kline_generation: u64,
}

impl MarketView {
    /// The view with its texts and lists as sequences.
    pub open spec fn model(&self) -> ViewModel {
        ViewModel {
            book: match self.book {
                Some(b) => Some(b@),
                None => None,
            },
            trades: self.trades@,
            depth_link: self.depth_link@,
            trades_link: self.trades_link@,
            kline_link: self.kline_link@,
            candles: self.candles@,
            kline_generation: self.kline_generation,
        }
    }
}

/// The first part of a list, up to a length.
pub open spec fn first_of<T>(s: Seq<T>, n: nat) -> Seq<T> {
    if s.len() > n {
        s.take(n as int)
    } else {
        s
    }
}

/// The last part of a list, up to a length.
pub open spec fn last_of<T>(s: Seq<T>, n: nat) -> Seq<T> {
    if s.len() > n {
        s.skip(s.len() - n)
    } else {
        s
    }
}

/// Trades with one more, unless it is not newer than the newest.
pub open spec fn with_newer(s: Seq<AggTrade>, t: AggTrade) -> Seq<AggTrade> {
    if s.len() > 0 && t.trade_id <= s[0].trade_id {
        s
    } else {
        first_of(seq![t] + s, RECENT_TRADES_CAP as nat)
    }
}

/// Trades, newest first, with one more in its place, unless its number is among them.
pub open spec fn slotted(s: Seq<AggTrade>, t: AggTrade) -> Seq<AggTrade>
    decreases s.len(),
{
    if s.len() == 0 {
        seq![t]
    } else if t.trade_id == s.last().trade_id {
        s
    } else if t.trade_id < s.last().trade_id {
        s.push(t)
    } else {
        slotted(s.drop_last(), t).push(s.last())
    }
}

/// Trades put in their places one by one: newest first, each number once, the first of those
/// with a number.
pub open spec fn arranged(s: Seq<AggTrade>) -> Seq<AggTrade>
    decreases s.len(),
{
    if s.len() == 0 {
        Seq::empty()
    } else {
        slotted(arranged(s.drop_last()), s.last())
    }
}

/// Whether trades are newest first, each number once.
pub open spec fn newest_first(s: Seq<AggTrade>) -> bool {
    forall|i: int, j: int|
        0 <= i < j < s.len() ==> (#[trigger] s[i]).trade_id > (#[trigger] s[j]).trade_id
}

/// Whether a trade of a number is among some.
pub open spec fn has_trade(s: Seq<AggTrade>, id: u64) -> bool {
    exists|i: int| 0 <= i < s.len() && (#[trigger] s[i]).trade_id == id
}

proof fn lemma_slotted(s: Seq<AggTrade>, t: AggTrade)
    requires
        newest_first(s),
    ensures
        newest_first(slotted(s, t)),
        forall|i: int|
            0 <= i < slotted(s, t).len() ==> (#[trigger] slotted(s, t)[i] == t || s.contains(
                slotted(s, t)[i],
            )),
        has_trade(slotted(s, t), t.trade_id),
        forall|i: int| 0 <= i < s.len() ==> has_trade(slotted(s, t), (#[trigger] s[i]).trade_id),
        slotted(s, t).len() <= s.len() + 1,
        has_trade(s, t.trade_id) ==> slotted(s, t) == s,
    decreases s.len(),
{
    let r = slotted(s, t);
    if s.len() == 0 {
        assert(r[0] == t);
    } else if t.trade_id == s.last().trade_id {
        assert(r[r.len() - 1].trade_id == t.trade_id);
        assert forall|i: int| 0 <= i < r.len() implies (#[trigger] r[i] == t || s.contains(r[i])) by {
            assert(s[i] == r[i]);
        }
    } else if t.trade_id < s.last().trade_id {
        assert(r[r.len() - 1] == t);
        assert forall|i: int| 0 <= i < r.len() implies (#[trigger] r[i] == t || s.contains(r[i])) by {
            if i < s.len() {
                assert(s[i] == r[i]);
            }
        }
        assert forall|i: int| 0 <= i < s.len() implies has_trade(r, (#[trigger] s[i]).trade_id) by {
            assert(r[i] == s[i]);
        }
        assert forall|i: int, j: int| 0 <= i < j < r.len() implies (#[trigger] r[i]).trade_id > (
        #[trigger] r[j]).trade_id by {
            if j == s.len() && i < s.len() - 1 {
                assert(s[i].trade_id > s[s.len() - 1].trade_id);
            }
        }
        if has_trade(s, t.trade_id) {
            let k = choose|k: int| 0 <= k < s.len() && (#[trigger] s[k]).trade_id == t.trade_id;
            if k < s.len() - 1 {
                assert(s[k].trade_id > s[s.len() - 1].trade_id);
            }
        }
    } else {
        let rest = s.drop_last();
        assert(newest_first(rest)) by {
            assert forall|i: int, j: int| 0 <= i < j < rest.len() implies (
            #[trigger] rest[i]).trade_id > (#[trigger] rest[j]).trade_id by {
                assert(s[i].trade_id > s[j].trade_id);
            }
        }
        lemma_slotted(rest, t);
        let q = slotted(rest, t);
        assert forall|i: int| 0 <= i < r.len() implies (#[trigger] r[i] == t || s.contains(r[i])) by {
            if i < q.len() {
                assert(r[i] == q[i]);
                if q[i] != t {
                    let k = choose|k: int| 0 <= k < rest.len() && rest[k] == q[i];
                    assert(s[k] == q[i]);
                }
            } else {
                assert(s[s.len() - 1] == r[i]);
            }
        }
        assert forall|i: int, j: int| 0 <= i < j < r.len() implies (#[trigger] r[i]).trade_id > (
        #[trigger] r[j]).trade_id by {
            if j == q.len() {
                assert(r[i] == q[i]);
                if q[i] != t {
                    let k = choose|k: int| 0 <= k < rest.len() && rest[k] == q[i];
                    assert(s[k].trade_id > s[s.len() - 1].trade_id);
                }
            } else {
                assert(q[i].trade_id > q[j].trade_id);
            }
        }
        let at = choose|k: int| 0 <= k < q.len() && (#[trigger] q[k]).trade_id == t.trade_id;
        assert(r[at].trade_id == t.trade_id);
        assert forall|i: int| 0 <= i < s.len() implies has_trade(r, (#[trigger] s[i]).trade_id) by {
            if i < rest.len() {
                assert(rest[i] == s[i]);
                let k = choose|k: int|
                    0 <= k < q.len() && (#[trigger] q[k]).trade_id == s[i].trade_id;
                assert(r[k].trade_id == s[i].trade_id);
            } else {
                assert(r[r.len() - 1] == s[i]);
            }
        }
        if has_trade(s, t.trade_id) {
            let k = choose|k: int| 0 <= k < s.len() && (#[trigger] s[k]).trade_id == t.trade_id;
            assert(rest[k].trade_id == t.trade_id);
            assert(has_trade(rest, t.trade_id));
            assert(q.push(s.last()) =~= s);
        }
    }
}

/// Arranged trades are newest first with each number once. Every number that was there is there,
/// and nothing else.
pub proof fn law_arranged_trades(s: Seq<AggTrade>)
    ensures
        newest_first(arranged(s)),
        forall|i: int|
            0 <= i < s.len() ==> has_trade(arranged(s), (#[trigger] s[i]).trade_id),
        forall|i: int| 0 <= i < arranged(s).len() ==> s.contains(#[trigger] arranged(s)[i]),
        newest_first(s) ==> arranged(s) == s,
    decreases s.len(),
{
    if s.len() > 0 {
        let rest = s.drop_last();
        law_arranged_trades(rest);
        lemma_slotted(arranged(rest), s.last());
        let a = arranged(rest);
        let r = arranged(s);
        assert forall|i: int| 0 <= i < s.len() implies has_trade(r, (#[trigger] s[i]).trade_id) by {
            if i < rest.len() {
                assert(rest[i] == s[i]);
                let k = choose|k: int|
                    0 <= k < a.len() && (#[trigger] a[k]).trade_id == s[i].trade_id;
                assert(has_trade(r, a[k].trade_id));
            }
        }
        assert forall|i: int| 0 <= i < r.len() implies s.contains(#[trigger] r[i]) by {
            if r[i] == s.last() {
                assert(s[s.len() - 1] == r[i]);
            } else {
                let k = choose|k: int| 0 <= k < a.len() && a[k] == r[i];
                assert(rest.contains(a[k]));
                let j = choose|j: int| 0 <= j < rest.len() && rest[j] == a[k];
                assert(s[j] == r[i]);
            }
        }
        if newest_first(s) {
            assert(newest_first(rest)) by {
                assert forall|i: int, j: int| 0 <= i < j < rest.len() implies (
                #[trigger] rest[i]).trade_id > (#[trigger] rest[j]).trade_id by {
                    assert(s[i].trade_id > s[j].trade_id);
                }
            }
            assert(s =~= rest.push(s.last()));
            if rest.len() > 0 {
                assert(s[rest.len() - 1].trade_id > s[s.len() - 1].trade_id);
                assert(rest.last() == s[rest.len() - 1]);
            } else {
                assert(rest =~= Seq::<AggTrade>::empty());
                assert(seq![s.last()] =~= rest.push(s.last()));
            }
        }
    }
}

/// A pushed trade keeps the trades newest first, each number once and no more than are kept, and
/// a trade that is not newer is dropped.
pub proof fn law_pushed_trades_stay_in_order(s: Seq<AggTrade>, t: AggTrade)
    requires
        newest_first(s),
        s.len() <= RECENT_TRADES_CAP,
    ensures
        newest_first(with_newer(s, t)),
        with_newer(s, t).len() <= RECENT_TRADES_CAP,
        s.len() > 0 && t.trade_id <= s[0].trade_id ==> with_newer(s, t) == s,
        s.len() == 0 || t.trade_id > s[0].trade_id ==> with_newer(s, t)[0] == t,
{
    let r = with_newer(s, t);
    if s.len() == 0 || t.trade_id > s[0].trade_id {
        assert forall|i: int, j: int| 0 <= i < j < r.len() implies (#[trigger] r[i]).trade_id > (
        #[trigger] r[j]).trade_id by {
            assert(r[j] == s[j - 1]);
            if i == 0 {
                if j > 1 {
                    assert(s[0].trade_id > s[j - 1].trade_id);
                }
            } else {
                assert(r[i] == s[i - 1]);
                assert(s[i - 1].trade_id > s[j - 1].trade_id);
            }
        }
    }
}

/// Trades that were merged are newest first, each number once and no more than are kept. They are
/// among those that were there or came in, and what was left out is older than all of them.
pub proof fn law_merged_trades_are_the_newest(s: Seq<AggTrade>, batch: Seq<AggTrade>)
    ensures
        ({
            let all = s + batch;
            let kept = first_of(arranged(all), RECENT_TRADES_CAP as nat);
            &&& newest_first(kept)
            &&& kept.len() <= RECENT_TRADES_CAP
            &&& forall|i: int| 0 <= i < kept.len() ==> all.contains(#[trigger] kept[i])
            &&& forall|i: int, j: int|
                0 <= i < all.len() && 0 <= j < kept.len() && !has_trade(
                    kept,
                    (#[trigger] all[i]).trade_id,
                ) ==> all[i].trade_id < (#[trigger] kept[j]).trade_id
        }),
{
    let all = s + batch;
    let a = arranged(all);
    let kept = first_of(a, RECENT_TRADES_CAP as nat);
    law_arranged_trades(all);
    assert forall|i: int, j: int| 0 <= i < j < kept.len() implies (#[trigger] kept[i]).trade_id > (
    #[trigger] kept[j]).trade_id by {
        assert(kept[i] == a[i] && kept[j] == a[j]);
    }
    assert forall|i: int| 0 <= i < kept.len() implies all.contains(#[trigger] kept[i]) by {
        assert(kept[i] == a[i]);
    }
    assert forall|i: int, j: int|
        0 <= i < all.len() && 0 <= j < kept.len() && !has_trade(
            kept,
            (#[trigger] all[i]).trade_id,
        ) implies all[i].trade_id < (#[trigger] kept[j]).trade_id by {
        assert(has_trade(a, all[i].trade_id));
        let k = choose|k: int| 0 <= k < a.len() && (#[trigger] a[k]).trade_id == all[i].trade_id;
        if k < kept.len() {
            assert(kept[k] == a[k]);
        }
        assert(kept[j] == a[j]);
    }
}

impl StreamCandle {
    /// Whether two pushed candles say the same.
    pub open spec fn agrees(self, b: StreamCandle) -> bool {
        &&& self.event_ms == b.event_ms
        &&& self.candle.open_time == b.candle.open_time
        &&& self.candle.open@ == b.candle.open@
        &&& self.candle.high@ == b.candle.high@
        &&& self.candle.low@ == b.candle.low@
        &&& self.candle.close@ == b.candle.close@
        &&& self.candle.volume@ == b.candle.volume@
        &&& self.candle.closed == b.candle.closed
    }

    fn says_same(&self, b: &StreamCandle) -> (r: bool)
        ensures
            r == self.agrees(*b),
    {
        self.event_ms == b.event_ms && self.candle.open_time == b.candle.open_time
            && self.candle.open == b.candle.open && self.candle.high == b.candle.high
            && self.candle.low == b.candle.low && self.candle.close == b.candle.close
            && self.candle.volume == b.candle.volume && self.candle.closed == b.candle.closed
    }

    /// Whether a candle does not go on from another: it is of an earlier time, or of the same time
    /// where the other is closed, was pushed later or says the same.
    pub open spec fn stale_after(self, last: StreamCandle) -> bool {
        self.candle.open_time < last.candle.open_time || (self.candle.open_time
            == last.candle.open_time && (last.candle.closed || self.event_ms < last.event_ms
            || last.agrees(self)))
    }
}

/// Candles after another was pushed. One of the same time takes the place of the last.
pub open spec fn with_candle(s: Seq<StreamCandle>, u: StreamCandle) -> Seq<StreamCandle> {
    if s.len() > 0 && u.stale_after(s.last()) {
        s
    } else {
        let before = if s.len() > 0 && s.last().candle.open_time == u.candle.open_time {
            s.drop_last()
        } else {
            s
        };
        last_of(before.push(u), RECENT_CANDLES_CAP as nat)
    }
}

/// Whether candles are oldest first, one for each time.
pub open spec fn oldest_first(s: Seq<StreamCandle>) -> bool {
    forall|i: int, j: int|
        0 <= i < j < s.len() ==> (#[trigger] s[i]).candle.open_time < (
        #[trigger] s[j]).candle.open_time
}

/// A pushed candle keeps the candles oldest first, one for each time and no more than are kept; a
/// closed candle is never replaced.
pub proof fn law_pushed_candles_stay_in_order(s: Seq<StreamCandle>, u: StreamCandle)
    requires
        oldest_first(s),
        s.len() <= RECENT_CANDLES_CAP,
    ensures
        oldest_first(with_candle(s, u)),
        with_candle(s, u).len() <= RECENT_CANDLES_CAP,
        s.len() > 0 && s.last().candle.closed && s.len() < RECENT_CANDLES_CAP ==> with_candle(
            s,
            u,
        ).contains(s.last()),
{
    let r = with_candle(s, u);
    if s.len() > 0 && u.stale_after(s.last()) {
        assert(s[s.len() - 1] == s.last());
    } else {
        let before = if s.len() > 0 && s.last().candle.open_time == u.candle.open_time {
            s.drop_last()
        } else {
            s
        };
        let all = before.push(u);
        assert forall|i: int, j: int| 0 <= i < j < all.len() implies (
        #[trigger] all[i]).candle.open_time < (#[trigger] all[j]).candle.open_time by {
            assert(all[i] == s[i]);
            if j < before.len() {
                assert(s[i].candle.open_time < s[j].candle.open_time);
            } else if i < s.len() - 1 {
                assert(s[i].candle.open_time < s[s.len() - 1].candle.open_time);
            }
        }
        let skip = if all.len() > RECENT_CANDLES_CAP {
            all.len() - RECENT_CANDLES_CAP
        } else {
            0
        };
        assert forall|i: int, j: int| 0 <= i < j < r.len() implies (
        #[trigger] r[i]).candle.open_time < (#[trigger] r[j]).candle.open_time by {
            assert(r[i] == all[i + skip] && r[j] == all[j + skip]);
        }
        if s.len() > 0 && s.last().candle.closed && s.len() < RECENT_CANDLES_CAP {
            assert(r[s.len() - 1] == s.last());
        }
    }
}

impl ViewModel {
    /// Nothing known yet.
    pub open spec fn empty() -> ViewModel {
        ViewModel {
            book: None,
            trades: Seq::empty(),
            depth_link: LinkModel::Connecting,
            trades_link: LinkModel::Connecting,
            kline_link: LinkModel::Connecting,
            candles: Seq::empty(),
            kline_generation: 0,
        }
    }

    /// The state of a link.
    pub open spec fn link(self, kind: StreamKind) -> LinkModel {
        match kind {
            StreamKind::Depth => self.depth_link,
            StreamKind::Trades => self.trades_link,
            StreamKind::Kline(_) => self.kline_link,
        }
    }

    /// With a link in another state.
    pub open spec fn linked(self, kind: StreamKind, state: LinkModel) -> ViewModel {
        match kind {
            StreamKind::Depth => ViewModel { depth_link: state, ..self },
            StreamKind::Trades => ViewModel { trades_link: state, ..self },
            StreamKind::Kline(_) => ViewModel { kline_link: state, ..self },
        }
    }

    /// After a frame was received, or what is wrong with it. A frame that cannot be read changes
    /// nothing.
    pub open spec fn after_frame(
        self,
        kind: StreamKind,
        symbol: Seq<char>,
        text: Seq<char>,
        now: Timestamp,
    ) -> Result<ViewModel, Seq<char>> {
        match kind {
            StreamKind::Depth => match depth_event(text, now) {
                Ok(b) => Ok(
                    ViewModel { book: Some(b), depth_link: LinkModel::Live, ..self },
                ),
                Err(e) => Err(e),
            },
            StreamKind::Trades => match trade_event(text) {
                Ok(t) => Ok(
                    ViewModel {
                        trades: with_newer(self.trades, t),
                        trades_link: LinkModel::Live,
                        ..self
                    },
                ),
                Err(e) => Err(e),
            },
            StreamKind::Kline(interval) => match kline_event(text, symbol, interval) {
                Ok(c) => Ok(
                    ViewModel {
                        candles: with_candle(self.candles, c),
                        kline_link: LinkModel::Live,
                        ..self
                    },
                ),
                Err(e) => Err(e),
            },
        }
    }

    /// After a link was set up. Candles start anew, and trades count as live at once: a quiet
    /// symbol may have none for long.
    pub open spec fn after_connect(self, kind: StreamKind) -> ViewModel {
        match kind {
            StreamKind::Depth => self,
            StreamKind::Trades => ViewModel { trades_link: LinkModel::Live, ..self },
            StreamKind::Kline(_) => ViewModel {
                kline_generation: crate::order::next_seq(self.kline_generation),
                candles: Seq::empty(),
                ..self
            },
        }
    }
}

impl Default for MarketView {
    fn default() -> (r: Self)
        ensures
            r.model() == ViewModel::empty(),
    {
        MarketView {
            book: None,
            trades: VecDeque::new(),
            depth_link: LinkState::Connecting,
            trades_link: LinkState::Connecting,
            kline_link: LinkState::Connecting,
            candles: VecDeque::new(),
            kline_generation: 0,
        }
    }
}

impl MarketView {
    pub fn link(&self, kind: StreamKind) -> (r: &LinkState)
        ensures
            r@ == self.model().link(kind),
    {
        match kind {
            StreamKind::Depth => &self.depth_link,
            StreamKind::Trades => &self.trades_link,
            StreamKind::Kline(_) => &self.kline_link,
        }
    }

    /// Sets the state of a link, and says whether it was another.
    pub fn set_link(&mut self, kind: StreamKind, state: LinkState) -> (r: bool)
        ensures
            final(self).model() == old(self).model().linked(kind, state@),
            r == (old(self).model().link(kind) != state@),
    {
        if self.link(kind).same(&state) {
            return false;
        }
        match kind {
            StreamKind::Depth => {
                self.depth_link = state;
            },
            StreamKind::Trades => {
                self.trades_link = state;
            },
            StreamKind::Kline(_) => {
                self.kline_link = state;
            },
        }
        true
    }

    /// Takes a pushed candle, and says whether it was new.
    pub fn push_candle(&mut self, update: StreamCandle) -> (r: bool)
        ensures
            final(self).model() == (ViewModel {
                candles: with_candle(old(self).model().candles, update),
                ..old(self).model()
            }),
            r == !(old(self).candles@.len() > 0 && update.stale_after(old(self).candles@.last())),
    {
        let n = self.candles.len();
        let ghost s = self.candles@;
        if n > 0 {
            let previous = self.candles[n - 1];
            if update.candle.open_time < previous.candle.open_time {
                return false;
            }
            if update.candle.open_time == previous.candle.open_time {
                if previous.candle.closed || update.event_ms < previous.event_ms
                    || previous.says_same(&update) {
                    return false;
                }
                let _ = self.candles.pop_back();
                assert(self.candles@ =~= s.drop_last());
            }
        }
        self.candles.push_back(update);
        let ghost all = self.candles@;
        let ghost view = *self;
        let mut k: usize = self.candles.len();
        assert(all.skip(0) =~= all);
        while k > RECENT_CANDLES_CAP
            invariant
                k == self.candles@.len(),
                k <= all.len(),
                self.candles@ == all.skip(all.len() - k),
                all.len() >= RECENT_CANDLES_CAP ==> k >= RECENT_CANDLES_CAP,
                all.len() < RECENT_CANDLES_CAP ==> k == all.len(),
                self.book == view.book,
                self.trades == view.trades,
                self.depth_link == view.depth_link,
                self.trades_link == view.trades_link,
                self.kline_link == view.kline_link,
                self.kline_generation == view.kline_generation,
            decreases k,
        {
            let _ = self.candles.pop_front();
            k = k - 1;
            assert(self.candles@ =~= all.skip(all.len() - k));
        }
        assert(self.candles@ =~= last_of(all, RECENT_CANDLES_CAP as nat));
        true
    }

    /// Whether books and trades are being received.
    pub fn is_live(&self) -> (r: bool)
        ensures
            r == (self.depth_link is Live && self.trades_link is Live),
    {
        matches!(self.depth_link, LinkState::Live) && matches!(self.trades_link, LinkState::Live)
    }

    /// Takes a pushed trade, and says whether it was new.
    pub fn push_trade(&mut self, t: AggTrade) -> (r: bool)
        ensures
            final(self).model() == (ViewModel {
                trades: with_newer(old(self).model().trades, t),
                ..old(self).model()
            }),
            r == !(old(self).trades@.len() > 0 && t.trade_id <= old(self).trades@[0].trade_id),
    {
        let ghost s = self.trades@;
        if self.trades.len() > 0 && t.trade_id <= self.trades[0].trade_id {
            return false;
        }
        self.trades.push_front(t);
        assert(self.trades@ =~= seq![t] + s);
        self.trades.truncate(RECENT_TRADES_CAP);
        assert(self.trades@ =~= first_of(seq![t] + s, RECENT_TRADES_CAP as nat));
        true
    }

    /// Takes a batch of trades, which may be older than those that are there.
    pub fn merge_trades(&mut self, batch: Vec<AggTrade>)
        ensures
            final(self).model() == (ViewModel {
                trades: first_of(
                    arranged(old(self).model().trades + batch@),
                    RECENT_TRADES_CAP as nat,
                ),
                ..old(self).model()
            }),
    {
        let ghost s = self.trades@;
        let ghost all = s + batch@;
        let n = self.trades.len();
        let mut merged: Vec<AggTrade> = Vec::new();
        assert(all.take(0) =~= Seq::<AggTrade>::empty());
        for i in 0..n
            invariant
                n == self.trades@.len(),
                s == self.trades@,
                all == s + batch@,
                merged@ == arranged(all.take(i as int)),
        {
            assert(all.take(i + 1).drop_last() =~= all.take(i as int));
            slot_trade(&mut merged, self.trades[i]);
        }
        for i in 0..batch.len()
            invariant
                n == s.len(),
                all == s + batch@,
                merged@ == arranged(all.take(n + i)),
        {
            assert(all.take(n + i + 1).drop_last() =~= all.take(n + i));
            slot_trade(&mut merged, batch[i]);
        }
        assert(all.take(all.len() as int) =~= all);
        let mut kept: VecDeque<AggTrade> = VecDeque::new();
        let m = if merged.len() < RECENT_TRADES_CAP {
            merged.len()
        } else {
            RECENT_TRADES_CAP
        };
        for i in 0..m
            invariant
                m <= merged@.len(),
                kept@ == merged@.take(i as int),
        {
            kept.push_back(merged[i]);
            assert(kept@ =~= merged@.take(i + 1));
        }
        assert(kept@ =~= first_of(arranged(all), RECENT_TRADES_CAP as nat));
        self.trades = kept;
    }

    /// Takes a frame, and says whether anyone looking has to be told; or says what is wrong with
    /// the frame, which is dropped then.
    pub fn take_frame(&mut self, kind: StreamKind, symbol: &str, text: &str, now: Timestamp) -> (r:
        Result<bool, String>)
        ensures
            match r {
                Ok(_) => old(self).model().after_frame(kind, symbol@, text@, now) == Ok::<
                    ViewModel,
                    Seq<char>,
                >(final(self).model()),
                Err(e) => old(self).model().after_frame(kind, symbol@, text@, now) == Err::<
                    ViewModel,
                    Seq<char>,
                >(e@) && final(self).model() == old(self).model(),
            },
            r matches Ok(told) ==> told == (kind is Depth || final(self).model() != old(
                self,
            ).model()),
    {
        let ghost trades = self.trades@;
        let ghost candles = self.candles@;
        match kind {
            StreamKind::Depth => match parse_depth_event(text, now) {
                Ok(book) => {
                    self.book = Some(book);
                    self.depth_link = LinkState::Live;
                    Ok(true)
                },
                Err(e) => Err(e),
            },
            StreamKind::Trades => match parse_agg_trade(text) {
                Ok(trade) => {
                    let was_live = matches!(self.trades_link, LinkState::Live);
                    self.trades_link = LinkState::Live;
                    let new = self.push_trade(trade);
                    assert(new ==> self.trades@[0] == trade);
                    assert(!new ==> self.trades@ == trades);
                    Ok(new || !was_live)
                },
                Err(e) => Err(e),
            },
            StreamKind::Kline(interval) => match parse_kline_event(text, symbol, interval) {
                Ok(candle) => {
                    let was_live = matches!(self.kline_link, LinkState::Live);
                    self.kline_link = LinkState::Live;
                    let new = self.push_candle(candle);
                    assert(new ==> self.candles@.last() == candle);
                    assert(!new ==> self.candles@ == candles);
                    Ok(new || !was_live)
                },
                Err(e) => Err(e),
            },
        }
    }

    /// Notes that a link was set up.
    pub fn note_connected(&mut self, kind: StreamKind)
        ensures
            final(self).model() == old(self).model().after_connect(kind),
    {
        match kind {
            StreamKind::Depth => {},
            StreamKind::Trades => {
                self.trades_link = LinkState::Live;
            },
            StreamKind::Kline(_) => {
                self.kline_generation = crate::order::following(self.kline_generation);
                self.candles.clear();
            },
        }
    }
}

/// Puts a trade in its place, newest first, unless its number is there.
fn slot_trade(v: &mut Vec<AggTrade>, t: AggTrade)
    ensures
        final(v)@ == slotted(old(v)@, t),
{
    let ghost s = v@;
    let mut i: usize = v.len();
    assert(s.take(s.len() as int) =~= s);
    assert(s.skip(s.len() as int) =~= Seq::<AggTrade>::empty());
    while i > 0 && t.trade_id > v[i - 1].trade_id
        invariant
            v@ == s,
            i <= s.len(),
            slotted(s, t) =~= slotted(s.take(i as int), t) + s.skip(i as int),
        decreases i,
    {
        proof {
            let a = s.take(i as int);
            assert(a.drop_last() =~= s.take(i - 1));
            assert(a.last() == s[i - 1]);
            assert(slotted(s.take(i - 1), t).push(s[i - 1]) + s.skip(i as int) =~= slotted(
                s.take(i - 1),
                t,
            ) + s.skip(i - 1));
        }
        i = i - 1;
    }
    if i > 0 && t.trade_id == v[i - 1].trade_id {
        assert(s.take(i as int).last() == s[i - 1]);
        assert(s.take(i as int) + s.skip(i as int) =~= s);
    } else {
        proof {
            if i > 0 {
                assert(s.take(i as int).last() == s[i - 1]);
            } else {
                assert(s.take(0) =~= Seq::<AggTrade>::empty());
                assert(seq![t] =~= s.take(0).push(t));
            }
        }
        v.insert(i, t);
        assert(v@ =~= s.take(i as int).push(t) + s.skip(i as int));
    }
}

/// How long to wait before connecting again: twice as long each time, up to a longest wait, with
/// some jitter.
#[derive(Clone, Copy, Debug, PartialEq, Eq, Structural)]
pub struct Backoff {
    pub initial_ms: u64,
    pub max_ms: u64,
    pub current_ms: u64,
    pub attempt: u32,
}

/// The smaller of two lengths of time.
pub open spec fn shorter(a: int, b: int) -> int {
    if a < b {
        a
    } else {
        b
    }
}

impl Backoff {
    pub fn new(initial_ms: u64, max_ms: u64) -> (r: Self)
        ensures
            r == (Backoff { initial_ms, max_ms, current_ms: initial_ms, attempt: 0 }),
    {
        Backoff { initial_ms, max_ms, current_ms: initial_ms, attempt: 0 }
    }

    /// The next wait: the current one and up to a fifth of it, but not above the longest.
    pub open spec fn delay(self, nanos: u32) -> int {
        shorter(self.current_ms + self.current_ms / 1000 * (nanos % 200), self.max_ms as int)
    }

    /// After the next wait was taken.
    pub open spec fn advanced(self) -> Backoff {
        Backoff {
            current_ms: shorter(self.current_ms * 2, self.max_ms as int) as u64,
            attempt: if self.attempt == u32::MAX {
                self.attempt
            } else {
                (self.attempt + 1) as u32
            },
            ..self
        }
    }

    /// Takes the next wait in milliseconds. The jitter is drawn from the clock, so that links do
    /// not all connect at the same moment.
    pub fn next_delay(&mut self, nanos: u32) -> (r: u64)
        ensures
            r == old(self).delay(nanos),
            *final(self) == old(self).advanced(),
            r <= old(self).max_ms,
            r >= shorter(old(self).current_ms as int, old(self).max_ms as int),
            10 * r <= 12 * old(self).current_ms,
    {
        let base: u128 = self.current_ms as u128;
        let doubled: u128 = base * 2;
        let max: u128 = self.max_ms as u128;
        proof {
            let b = base as int / 1000;
            let j = nanos as int % 200;
            assert(0 <= b * j <= b * 200) by (nonlinear_arith)
                requires
                    0 <= b,
                    0 <= j <= 200,
            ;
        }
        let delay: u128 = base + base / 1000 * (nanos % 200) as u128;
        self.current_ms = if doubled < max {
            doubled as u64
        } else {
            self.max_ms
        };
        self.attempt = if self.attempt == u32::MAX {
            self.attempt
        } else {
            self.attempt + 1
        };
        if delay < max {
            delay as u64
        } else {
            self.max_ms
        }
    }

    /// Starts over.
    pub fn reset(&mut self)
        ensures
            *final(self) == (Backoff {
                current_ms: old(self).initial_ms,
                attempt: 0,
                ..*old(self)
            }),
    {
        self.current_ms = self.initial_ms;
        self.attempt = 0;
    }
}

/// The waits after a number of them were taken.
pub open spec fn after_waits(b: Backoff, n: nat) -> Backoff
    decreases n,
{
    if n == 0 {
        b
    } else {
        after_waits(b, (n - 1) as nat).advanced()
    }
}

/// Waits double from the first one until they reach the longest, and stay there.
pub proof fn law_waits_double(initial_ms: u64, max_ms: u64, n: nat)
    requires
        initial_ms <= max_ms,
    ensures
        after_waits(
            Backoff { initial_ms, max_ms, current_ms: initial_ms, attempt: 0 },
            n,
        ).current_ms == shorter(
            initial_ms * vstd::arithmetic::power2::pow2(n),
            max_ms as int,
        ),
        after_waits(
            Backoff { initial_ms, max_ms, current_ms: initial_ms, attempt: 0 },
            n,
        ).initial_ms == initial_ms,
        after_waits(
            Backoff { initial_ms, max_ms, current_ms: initial_ms, attempt: 0 },
            n,
        ).max_ms == max_ms,
    decreases n,
{
    if n == 0 {
        vstd::arithmetic::power2::lemma2_to64();
    } else {
        let m = (n - 1) as nat;
        law_waits_double(initial_ms, max_ms, m);
        vstd::arithmetic::power2::lemma_pow2_unfold(n);
        let p = vstd::arithmetic::power2::pow2(m) as int;
        let i = initial_ms as int;
        assert(i * (2 * p) == 2 * (i * p)) by (nonlinear_arith);
    }
}

/// An address that quotes are streamed from is none that requests are signed for.
pub proof fn law_streams_carry_no_signature(url: Seq<char>)
    requires
        stream_fault(url) is None,
    ensures
        !crate::signing::endpoint_ok(url),
{
    crate::signing::law_signing_hosts();
}

/// How links are run. Lengths of time are in milliseconds.
#[derive(Debug)]
pub struct StreamConfig {
    pub base: String,
    pub connect_timeout_ms: u64,
    /// How long a link of books may be silent.
    pub depth_idle_timeout_ms: u64,
    /// How long another link may be silent.
    pub trades_idle_timeout_ms: u64,
    pub backoff_initial_ms: u64,
    pub backoff_max_ms: u64,
    /// How long a link has to last for the waits to start over.
    pub stable_after_ms: u64,
    /// How long a link is kept after the last one looking has gone.
    pub linger_ms: u64,
}

impl Clone for StreamConfig {
    fn clone(&self) -> (r: Self)
        ensures
            r == *self,
    {
        StreamConfig {
            base: self.base.clone(),
            connect_timeout_ms: self.connect_timeout_ms,
            depth_idle_timeout_ms: self.depth_idle_timeout_ms,
            trades_idle_timeout_ms: self.trades_idle_timeout_ms,
            backoff_initial_ms: self.backoff_initial_ms,
            backoff_max_ms: self.backoff_max_ms,
            stable_after_ms: self.stable_after_ms,
            linger_ms: self.linger_ms,
        }
    }
}

impl StreamConfig {
    /// Whether links are run as those to the exchange are.
    pub open spec fn is_production(self) -> bool {
        &&& self.base@ == PRODUCTION_STREAM_URL@
        &&& self.connect_timeout_ms == 10000
        &&& self.depth_idle_timeout_ms == 30000
        &&& self.trades_idle_timeout_ms == 240000
        &&& self.backoff_initial_ms == 1000
        &&& self.backoff_max_ms == 60000
        &&& self.stable_after_ms == 60000
        &&& self.linger_ms == 15000
    }

    /// How links to the exchange are run.
    pub fn production() -> (r: Self)
        ensures
            r.is_production(),
    {
        StreamConfig {
            base: PRODUCTION_STREAM_URL.to_owned(),
            connect_timeout_ms: 10000,
            depth_idle_timeout_ms: 30000,
            trades_idle_timeout_ms: 240000,
            backoff_initial_ms: 1000,
            backoff_max_ms: 60000,
            stable_after_ms: 60000,
            linger_ms: 15000,
        }
    }

    /// How long a link may be silent.
    pub fn idle_timeout(&self, kind: StreamKind) -> (r: u64)
        ensures
            r == (match kind {
                StreamKind::Depth => self.depth_idle_timeout_ms,
                _ => self.trades_idle_timeout_ms,
            }),
    {
        match kind {
            StreamKind::Depth => self.depth_idle_timeout_ms,
            StreamKind::Trades | StreamKind::Kline(_) => self.trades_idle_timeout_ms,
        }
    }
}

/// Why a link could not be set up.
#[derive(Debug, PartialEq, Eq)]
pub enum ConnectError {
    RateLimited { retry_after_ms: u64, status: u16 },
    Other(String),
}

/// What becomes of a handshake that the exchange refused with an HTTP status.
pub fn handshake_refused(status: u16, retry_after: Option<&str>, body: &str, now: Timestamp) -> (r:
    ConnectError)
    ensures
        if status == 429 || status == 418 {
            r matches ConnectError::RateLimited { retry_after_ms, status: s } && s == status
                && retry_after_ms == crate::cooldown::limit_wait(
                crate::cooldown::header_text(retry_after),
                body@,
                now,
            )
        } else {
            r matches ConnectError::Other(s) && s@ == "握手被拒：HTTP "@ + crate::text::digits(
                status as nat,
            )
        },
{
    if status == 429 || status == 418 {
        let ms = wait_after_limit(retry_after, body, now);
        ConnectError::RateLimited { retry_after_ms: ms, status }
    } else {
        ConnectError::Other(joined("握手被拒：HTTP ", u64_text(status as u64).as_str()))
    }
}

/// Why a link ended.
#[derive(Debug, PartialEq, Eq)]
pub enum LinkEnd {
    /// Nothing was received for too long.
    Idle { after_ms: u64 },
    /// The other side went away.
    Gone,
    ReadFailed(String),
    /// The other side closed the link, perhaps with a code and a reason.
    Closed(Option<(u16, String)>),
    /// The handshake took too long.
    HandshakeTimeout { after_ms: u64 },
    ConnectFailed(String),
}

impl LinkEnd {
    /// What is said of an end.
    pub open spec fn said(self) -> Seq<char> {
        match self {
            LinkEnd::Idle { after_ms } => crate::text::digits((after_ms / 1000) as nat)
                + " 秒内没有收到任何数据"@,
            LinkEnd::Gone => "上游关闭了连接"@,
            LinkEnd::ReadFailed(e) => "读取失败："@ + e@,
            LinkEnd::Closed(Some((code, reason))) => "上游关闭："@ + crate::text::digits(
                code as nat,
            ) + " "@ + reason@,
            LinkEnd::Closed(None) => "上游关闭"@,
            LinkEnd::HandshakeTimeout { after_ms } => "握手超时（"@ + crate::text::digits(
                (after_ms / 1000) as nat,
            ) + " 秒）"@,
            LinkEnd::ConnectFailed(e) => "连接失败："@ + e@,
        }
    }

    /// What is said of the end.
    pub fn reason(&self) -> (r: String)
        ensures
            r@ == self.said(),
    {
        match self {
            LinkEnd::Idle { after_ms } => joined(
                u64_text(*after_ms / 1000).as_str(),
                " 秒内没有收到任何数据",
            ),
            LinkEnd::Gone => "上游关闭了连接".to_owned(),
            LinkEnd::ReadFailed(e) => joined("读取失败：", e.as_str()),
            LinkEnd::Closed(Some((code, reason))) => joined4(
                "上游关闭：",
                u64_text(*code as u64).as_str(),
                " ",
                reason.as_str(),
            ),
            LinkEnd::Closed(None) => "上游关闭".to_owned(),
            LinkEnd::HandshakeTimeout { after_ms } => joined3(
                "握手超时（",
                u64_text(*after_ms / 1000).as_str(),
                " 秒）",
            ),
            LinkEnd::ConnectFailed(e) => joined("连接失败：", e.as_str()),
        }
    }
}

/// What a link does next.
#[derive(Clone, Copy, Debug, PartialEq, Eq, Structural)]
pub enum LinkAction {
    /// Wait, then ask again whether requests are limited.
    Cool { ms: u64 },
    Connect,
    /// Read until nothing has been received for this long.
    Read { idle_ms: u64 },
    /// Wait, then connect again.
    Wait { ms: u64 },
}

/// A link to the exchange.
pub struct Link {
    kind: StreamKind,
    symbol: String,
    url: String,
    idle_ms: u64,
    stable_after_ms: u64,
    backoff: Backoff,
}

/// A [`Link`] with its texts as sequences of characters.
pub struct LinkPlan {
    pub kind: StreamKind,
    pub symbol: Seq<char>,
    pub url: Seq<char>,
    pub idle_ms: u64,
    pub stable_after_ms: u64,
    pub backoff: Backoff,
}

impl View for Link {
    type V = LinkPlan;

    closed spec fn view(&self) -> LinkPlan {
        LinkPlan {
            kind: self.kind,
            symbol: self.symbol@,
            url: self.url@,
            idle_ms: self.idle_ms,
            stable_after_ms: self.stable_after_ms,
            backoff: self.backoff,
        }
    }
}

/// The link of a symbol.
pub open spec fn link_of(config: StreamConfig, kind: StreamKind, symbol: Seq<char>) -> LinkPlan {
    LinkPlan {
        kind,
        symbol,
        url: address(config.base@, kind, symbol),
        idle_ms: match kind {
            StreamKind::Depth => config.depth_idle_timeout_ms,
            _ => config.trades_idle_timeout_ms,
        },
        stable_after_ms: config.stable_after_ms,
        backoff: Backoff {
            initial_ms: config.backoff_initial_ms,
            max_ms: config.backoff_max_ms,
            current_ms: config.backoff_initial_ms,
            attempt: 0,
        },
    }
}

impl LinkPlan {
    /// The waits before the next one is taken: those of a link that lasted start over.
    pub open spec fn rested(self, lasted_ms: Option<u64>) -> Backoff {
        if lasted_ms matches Some(ms) && ms >= self.stable_after_ms {
            Backoff { current_ms: self.backoff.initial_ms, attempt: 0, ..self.backoff }
        } else {
            self.backoff
        }
    }
}

impl Link {
    /// The link of a symbol.
    pub fn new(config: &StreamConfig, kind: StreamKind, symbol: &str) -> (r: Self)
        ensures
            r@ == link_of(*config, kind, symbol@),
    {
        Link {
            kind,
            symbol: symbol.to_owned(),
            url: stream_url(config.base.as_str(), kind, symbol),
            idle_ms: config.idle_timeout(kind),
            stable_after_ms: config.stable_after_ms,
            backoff: Backoff::new(config.backoff_initial_ms, config.backoff_max_ms),
        }
    }

    /// The address to connect to.
    pub fn url(&self) -> (r: &str)
        ensures
            r@ == self@.url,
    {
        self.url.as_str()
    }

    pub fn kind(&self) -> (r: StreamKind)
        ensures
            r == self@.kind,
    {
        self.kind
    }

    pub fn symbol(&self) -> (r: &str)
        ensures
            r@ == self@.symbol,
    {
        self.symbol.as_str()
    }

    /// The next thing to do, given how long requests are limited. A handshake is a request too, so
    /// none is made while they are. The second part says whether anyone looking has to be told.
    pub fn begin(&self, remaining_ms: Option<u64>, view: &mut MarketView) -> (r: (LinkAction, bool))
        ensures
            match remaining_ms {
                Some(ms) => r.0 == (LinkAction::Cool { ms }) && final(view).model() == old(
                    view,
                ).model().linked(self@.kind, LinkModel::CoolingDown { remaining_ms: ms }),
                None => r.0 == LinkAction::Connect && final(view).model() == old(
                    view,
                ).model().linked(self@.kind, LinkModel::Connecting),
            },
            r.1 == (old(view).model().link(self@.kind) != final(view).model().link(self@.kind)),
    {
        match remaining_ms {
            Some(ms) => {
                let told = view.set_link(self.kind, LinkState::CoolingDown { remaining_ms: ms });
                (LinkAction::Cool { ms }, told)
            },
            None => {
                let told = view.set_link(self.kind, LinkState::Connecting);
                (LinkAction::Connect, told)
            },
        }
    }

    /// The next thing to do once the link is set up.
    pub fn connected(&self, view: &mut MarketView) -> (r: LinkAction)
        ensures
            r == (LinkAction::Read { idle_ms: self@.idle_ms }),
            final(view).model() == old(view).model().after_connect(self@.kind),
    {
        view.note_connected(self.kind);
        LinkAction::Read { idle_ms: self.idle_ms }
    }

    /// The next thing to do once the link has ended or could not be set up. `lasted_ms` is how
    /// long it lasted, where it was set up.
    pub fn ended(
        &mut self,
        reason: String,
        lasted_ms: Option<u64>,
        nanos: u32,
        view: &mut MarketView,
    ) -> (r: LinkAction)
        ensures
            ({
                let rested = old(self)@.rested(lasted_ms);
                let ms = rested.delay(nanos) as u64;
                &&& r == (LinkAction::Wait { ms })
                &&& final(self)@ == (LinkPlan { backoff: rested.advanced(), ..old(self)@ })
                &&& final(view).model() == old(view).model().linked(
                    old(self)@.kind,
                    LinkModel::Retrying {
                        attempt: rested.advanced().attempt,
                        retry_in_ms: ms,
                        reason: reason@,
                    },
                )
            }),
    {
        if let Some(ms) = lasted_ms {
            if ms >= self.stable_after_ms {
                self.backoff.reset();
            }
        }
        let ms = self.backoff.next_delay(nanos);
        let state = LinkState::Retrying {
            attempt: self.backoff.attempt,
            retry_in_ms: ms,
            reason,
        };
        let _ = view.set_link(self.kind, state);
        LinkAction::Wait { ms }
    }
}

/// The key under which everyone looking at a symbol shares a link.
pub fn feed_key(symbol: &str) -> (r: String)
    ensures
        r@ == crate::text::uppercased(symbol@),
{
    to_upper(symbol)
}

/// The key under which everyone looking at the candles of a symbol shares a link.
pub fn kline_feed_key(symbol: &str, interval: Interval) -> (r: String)
    ensures
        r@ == crate::text::uppercased(symbol@) + "@kline_"@ + interval.word(),
{
    let s = to_upper(symbol);
    joined3(s.as_str(), "@kline_", interval.as_str())
}

/// Seconds are rounded up: they cover the milliseconds, and one second less would not.
pub proof fn law_seconds_are_rounded_up(ms: u64)
    ensures
        ms <= 1000 * seconds_up(ms) < ms + 1000,
{
}

/// Quotes are streamed from an encrypted address of the exchange's own host, and from no other.
pub proof fn law_stream_addresses(url: Seq<char>)
    ensures
        stream_fault(url) is None <==> (crate::signing::url_parts(url) matches Some((scheme, host))
            && scheme == "wss"@ && host == Some("fstream.binance.com"@)),
{
    reveal_strlit("fstream.binance.com");
    assert("fstream.binance.com"@.len() > 0);
    if let Some((scheme, host)) = crate::signing::url_parts(url) {
        if host is None {
            assert(Seq::<char>::empty().len() == 0);
        }
    }
}

/// A jittered wait is longer than the wait itself by a part of it: as many thousandths as the clock
/// gives, fewer than two hundred, unless it reaches the longest wait.
pub proof fn law_jitter_is_a_part_of_the_wait(b: Backoff, nanos: u32)
    ensures
        b.delay(nanos) <= b.max_ms,
        ({
            let k = nanos as int % 200;
            let extra = b.delay(nanos) - b.current_ms;
            b.delay(nanos) < b.max_ms ==> b.current_ms * k - 1000 * k <= 1000 * extra
                <= b.current_ms * k
        }),
        b.current_ms >= b.max_ms ==> b.delay(nanos) == b.max_ms,
{
    let c = b.current_ms as int;
    let k = nanos as int % 200;
    let q = c / 1000;
    assert(c * k - 1000 * k <= 1000 * (q * k) <= c * k) by (nonlinear_arith)
        requires
            1000 * q <= c < 1000 * q + 1000,
            0 <= k,
    ;
    assert(q * k >= 0) by (nonlinear_arith)
        requires
            q >= 0,
            k >= 0,
    ;
}

/// The waits of a link that lasted long enough start over, at the first wait; those of any other go on.
pub proof fn law_lasting_links_start_over(plan: LinkPlan, lasted_ms: Option<u64>)
    ensures
        (lasted_ms matches Some(ms) && ms >= plan.stable_after_ms) ==> plan.rested(
            lasted_ms,
        ).current_ms == plan.backoff.initial_ms && plan.rested(lasted_ms).attempt == 0,
        !(lasted_ms matches Some(ms) && ms >= plan.stable_after_ms) ==> plan.rested(lasted_ms)
            == plan.backoff,
        plan.rested(lasted_ms).max_ms == plan.backoff.max_ms,
{
}

/// A frame that is read makes its own link live and touches no other stream: a book frame replaces the
/// book, a trade frame adds to the trades, a candle frame to the candles.
pub proof fn law_frames_touch_their_own_stream(
    v: ViewModel,
    kind: StreamKind,
    symbol: Seq<char>,
    text: Seq<char>,
    now: Timestamp,
)
    requires
        v.after_frame(kind, symbol, text, now) is Ok,
    ensures
        ({
            let after = v.after_frame(kind, symbol, text, now)->Ok_0;
            &&& after.link(kind) is Live
            &&& !(kind is Depth) ==> after.book == v.book && after.depth_link == v.depth_link
            &&& !(kind is Trades) ==> after.trades == v.trades && after.trades_link == v.trades_link
            &&& !(kind is Kline) ==> after.candles == v.candles && after.kline_link == v.kline_link
            &&& after.kline_generation == v.kline_generation
            &&& kind is Depth ==> depth_event(text, now) == Ok::<DepthModel, Seq<char>>(
                after.book->0,
            ) && after.book is Some
            &&& kind is Trades ==> (trade_event(text) matches Ok(t) && after.trades == with_newer(
                v.trades,
                t,
            ))
        }),
{
}

/// A candle that starts later is added behind the last; one of the same start takes the place of the
/// last while that is not closed and the news is not older; one that starts earlier, is older or says
/// nothing new changes nothing.
pub proof fn law_candles_are_replaced_while_open(s: Seq<StreamCandle>, u: StreamCandle)
    requires
        0 < s.len() < RECENT_CANDLES_CAP,
    ensures
        ({
            let last = s.last();
            let after = with_candle(s, u);
            &&& u.candle.open_time > last.candle.open_time ==> after == s.push(u)
            &&& u.candle.open_time < last.candle.open_time ==> after == s
            &&& u.candle.open_time == last.candle.open_time && (last.candle.closed || u.event_ms
                < last.event_ms) ==> after == s
            &&& u.candle.open_time == last.candle.open_time && !last.candle.closed && u.event_ms
                > last.event_ms ==> after == s.drop_last().push(u)
            &&& u.candle.open_time == last.candle.open_time && !last.candle.closed && u.event_ms
                == last.event_ms && u.candle.close@ != last.candle.close@ ==> after
                == s.drop_last().push(u)
        }),
{
}

/// The levels of a side are read in their order, each with its price and its quantity; one that cannot be
/// read spoils all.
pub proof fn law_levels_are_read_in_order(s: Seq<(Seq<char>, Seq<char>)>)
    ensures
        levels_of(s) is Ok <==> forall|i: int|
            0 <= i < s.len() ==> crate::decimal::decimal_of_text((#[trigger] s[i]).0) is Some
                && crate::decimal::decimal_of_text(s[i].1) is Some,
        levels_of(s) matches Ok(v) ==> v.len() == s.len() && forall|i: int|
            0 <= i < s.len() ==> crate::decimal::decimal_of_text((#[trigger] s[i]).0) == Some(v[i].0)
                && crate::decimal::decimal_of_text(s[i].1) == Some(v[i].1),
    decreases s.len(),
{
    if s.len() > 0 {
        let before = s.drop_last();
        let n = s.len() - 1;
        law_levels_are_read_in_order(before);
        assert(s[n] == s.last());
        if levels_of(before) is Ok {
            assert forall|i: int| 0 <= i < n implies crate::decimal::decimal_of_text(
                (#[trigger] s[i]).0,
            ) is Some && crate::decimal::decimal_of_text(s[i].1) is Some by {
                assert(before[i] == s[i]);
            }
            if let Ok(v) = levels_of(s) {
                assert forall|i: int| 0 <= i < s.len() implies crate::decimal::decimal_of_text(
                    (#[trigger] s[i]).0,
                ) == Some(v[i].0) && crate::decimal::decimal_of_text(s[i].1) == Some(v[i].1) by {
                    if i < n {
                        assert(before[i] == s[i]);
                        assert(v[i] == levels_of(before)->Ok_0[i]);
                    }
                }
            }
        } else {
            let i = choose|i: int|
                0 <= i < before.len() && !(crate::decimal::decimal_of_text(
                    (#[trigger] before[i]).0,
                ) is Some && crate::decimal::decimal_of_text(before[i].1) is Some);
            assert(s[i] == before[i]);
        }
    }
}

/// A book has its best bid and its best ask from the first level of each side, and the time of its frame
/// where that has one.
pub proof fn law_books_have_their_best_prices(f: DepthFields, now: Timestamp)
    requires
        f.book(now) is Ok,
    ensures
        ({
            let book = f.book(now)->Ok_0;
            &&& levels_of(f.bids) == Ok::<Seq<(Decimal, Decimal)>, Seq<char>>(book.bids)
            &&& levels_of(f.asks) == Ok::<Seq<(Decimal, Decimal)>, Seq<char>>(book.asks)
            &&& book.bids.len() > 0 ==> book.bid == book.bids[0].0
            &&& book.asks.len() > 0 ==> book.ask == book.asks[0].0
            &&& book.bids.len() == 0 ==> book.bid@ == 0
            &&& book.asks.len() == 0 ==> book.ask@ == 0
            &&& f.time > 0 && crate::clock::dated(f.time) ==> book.at == f.time
            &&& f.time <= 0 ==> book.at == now
        }),
{
    crate::decimal::lemma_of_parts(0, 0);
}

/// A trade frame is read as the trade that it tells of: its number, price, quantity, time and side.
pub proof fn law_trade_frames_tell_their_trade(f: TradeFields)
    requires
        f.trade() is Ok,
        0 <= f.id <= u64::MAX,
    ensures
        ({
            let t = f.trade()->Ok_0;
            &&& t.trade_id == f.id
            &&& crate::decimal::decimal_of_text(f.price) == Some(t.price.0)
            &&& crate::decimal::decimal_of_text(f.qty) == Some(t.quantity.0)
            &&& t.is_buyer_maker == f.is_buyer_maker
            &&& t.at == f.time
            &&& f.event.len() == 0 || f.event == "aggTrade"@
        }),
{
}

/// A candle frame is read only for the symbol and the interval that were asked for, and as the candle
/// that it tells of.
pub proof fn law_candle_frames_tell_their_candle(
    f: KlineFields,
    symbol: Seq<char>,
    interval: Interval,
)
    requires
        f.candle(symbol, interval) is Ok,
        f.time <= i64::MAX,
    ensures
        ({
            let c = f.candle(symbol, interval)->Ok_0;
            &&& f.event == "kline"@ && f.symbol == symbol && f.bar.symbol == symbol && f.bar.interval
                == interval.word()
            &&& c.event_ms == f.time
            &&& 0 < c.candle.open_time == f.bar.open_time <= f.time
            &&& crate::decimal::decimal_of_text(f.bar.open) == Some(c.candle.open)
            &&& crate::decimal::decimal_of_text(f.bar.high) == Some(c.candle.high)
            &&& crate::decimal::decimal_of_text(f.bar.low) == Some(c.candle.low)
            &&& crate::decimal::decimal_of_text(f.bar.close) == Some(c.candle.close)
            &&& crate::decimal::decimal_of_text(f.bar.volume) == Some(c.candle.volume)
            &&& c.candle.closed == f.bar.closed
        }),
{
}

/// An object with the exchange's names is read as the trade fields that stand under them.
pub proof fn law_trade_fields_are_read_by_name(m: Map<Seq<char>, JsonModel>, f: TradeFields)
    requires
        crate::json::has_text(m, "e"@, f.event),
        crate::json::has_integer(m, "a"@, f.id),
        f.id >= 0,
        crate::json::has_text(m, "p"@, f.price),
        crate::json::has_text(m, "q"@, f.qty),
        crate::json::has_integer(m, "T"@, f.time),
        crate::json::has_flag(m, "m"@, f.is_buyer_maker),
    ensures
        trade_fields(JsonModel::Object(m)) == Some(f),
{
}

/// An object with the exchange's names is read as the candle fields that stand under them.
pub proof fn law_bar_fields_are_read_by_name(m: Map<Seq<char>, JsonModel>, f: BarFields)
    requires
        crate::json::has_integer(m, "t"@, f.open_time),
        crate::json::has_text(m, "s"@, f.symbol),
        crate::json::has_text(m, "i"@, f.interval),
        crate::json::has_text(m, "o"@, f.open),
        crate::json::has_text(m, "h"@, f.high),
        crate::json::has_text(m, "l"@, f.low),
        crate::json::has_text(m, "c"@, f.close),
        crate::json::has_text(m, "v"@, f.volume),
        crate::json::has_flag(m, "x"@, f.closed),
    ensures
        bar_fields(JsonModel::Object(m)) == Some(f),
{
}

/// An object with the exchange's names is read as the book fields that stand under them, under the short
/// names of a pushed book as well as under the long ones.
pub proof fn law_depth_fields_are_read_by_name(
    m: Map<Seq<char>, JsonModel>,
    bids: Seq<JsonModel>,
    asks: Seq<JsonModel>,
    f: DepthFields,
)
    requires
        crate::json::has_integer(m, "E"@, f.time),
        crate::json::pairs_of(bids) == Some(f.bids),
        crate::json::pairs_of(asks) == Some(f.asks),
        (m.dom().contains("b"@) && m["b"@] == JsonModel::List(bids) && !m.dom().contains("bids"@))
            || (m.dom().contains("bids"@) && m["bids"@] == JsonModel::List(bids)
            && !m.dom().contains("b"@)),
        (m.dom().contains("a"@) && m["a"@] == JsonModel::List(asks) && !m.dom().contains("asks"@))
            || (m.dom().contains("asks"@) && m["asks"@] == JsonModel::List(asks)
            && !m.dom().contains("a"@)),
    ensures
        depth_fields(JsonModel::Object(m)) == Some(f),
{
}

/// Streams are named by the symbol in lower case and by what they carry; a book comes by the way for the
/// public, trades and candles by that for the market.
pub proof fn law_streams_are_named(symbol: Seq<char>, interval: Interval, base: Seq<char>)
    ensures
        StreamKind::Depth.named(symbol) == crate::text::lowercased(symbol) + "@depth20"@,
        StreamKind::Trades.named(symbol) == crate::text::lowercased(symbol) + "@aggTrade"@,
        StreamKind::Kline(interval).named(symbol) == crate::text::lowercased(symbol) + "@kline_"@
            + interval.word(),
        StreamKind::Depth.way() == "public"@,
        StreamKind::Trades.way() == "market"@,
        StreamKind::Kline(interval).way() == "market"@,
        forall|kind: StreamKind| #[trigger]
            address(base, kind, symbol) == crate::text::without_slashes(base) + "/"@ + kind.way()
                + "/stream?streams="@ + kind.named(symbol),
{
}

/// A link gives up on silence after the time for its kind: that of books for books, and that of trades for
/// all else. Its waits begin with the first and go up to the longest.
pub proof fn law_links_are_run_as_configured(
    config: StreamConfig,
    kind: StreamKind,
    symbol: Seq<char>,
)
    ensures
        ({
            let plan = link_of(config, kind, symbol);
            &&& kind is Depth ==> plan.idle_ms == config.depth_idle_timeout_ms
            &&& !(kind is Depth) ==> plan.idle_ms == config.trades_idle_timeout_ms
            &&& plan.backoff.current_ms == config.backoff_initial_ms
            &&& plan.backoff.initial_ms == config.backoff_initial_ms
            &&& plan.backoff.max_ms == config.backoff_max_ms
            &&& plan.backoff.attempt == 0
            &&& plan.stable_after_ms == config.stable_after_ms
            &&& plan.kind == kind && plan.symbol == symbol
        }),
{
}

/// A link for trades is live as soon as it is set up, one for books only with its first frame; one for
/// candles starts them anew and says so by its generation.
pub proof fn law_links_come_up(v: ViewModel, interval: Interval)
    ensures
        v.after_connect(StreamKind::Trades).trades_link is Live,
        v.after_connect(StreamKind::Trades).trades == v.trades,
        v.after_connect(StreamKind::Depth) == v,
        v.after_connect(StreamKind::Kline(interval)).candles.len() == 0,
        v.after_connect(StreamKind::Kline(interval)).kline_link == v.kline_link,
        v.kline_generation < u64::MAX ==> v.after_connect(
            StreamKind::Kline(interval),
        ).kline_generation == v.kline_generation + 1,
{
}

/// Two reports of a candle say the same exactly where they agree in every part.
pub proof fn law_agreeing_candles(a: StreamCandle, b: StreamCandle)
    ensures
        a.agrees(a),
        a.agrees(b) == b.agrees(a),
        a.agrees(b) ==> a.candle.open@ == b.candle.open@ && a.candle.high@ == b.candle.high@
            && a.candle.low@ == b.candle.low@ && a.candle.close@ == b.candle.close@
            && a.candle.volume@ == b.candle.volume@ && a.candle.closed == b.candle.closed
            && a.candle.open_time == b.candle.open_time && a.event_ms == b.event_ms,
{
}

} // verus!
