//! Candles, books and prices, as the exchange's public answers give them.

use vstd::prelude::*;
use crate::binance::read_amount;
use crate::clock::{has_date, Timestamp};
use crate::decimal::Decimal;
use crate::error::{ExchangeError, Failure};
use crate::json::{apart, field, fits, list_of, JsonModel, Piece};
use crate::market::{BookSnapshot, Candle};
use crate::money::Price;
use crate::text::{
    contains, i64_text, joined, joined3, joined4, joined5, parse_i64, same_text, u64_text,
};
use crate::wire::open_answer;

verus! {

/// How long a book may be shown from memory, in milliseconds.
pub const DEPTH_TTL_MS: i64 = 1000;

/// How long the latest candles may be shown from memory.
pub const KLINES_TTL_MS: i64 = 2000;

/// How long candles of the past may be shown from memory. They do not change any more.
pub const HISTORY_TTL_MS: i64 = 300000;

/// How long a mark price may be shown from memory.
pub const MARK_PRICE_TTL_MS: i64 = 1000;

/// The length of a candle.
#[derive(Clone, Copy, Debug, PartialEq, Eq, Hash, Structural)]
pub enum Interval {
    M1,
    M3,
    M5,
    M15,
    M30,
    H1,
    H4,
    D1,
}

impl Interval {
    /// The exchange's name of an interval.
    pub open spec fn word(self) -> Seq<char> {
        match self {
            Interval::M1 => "1m"@,
            Interval::M3 => "3m"@,
            Interval::M5 => "5m"@,
            Interval::M15 => "15m"@,
            Interval::M30 => "30m"@,
            Interval::H1 => "1h"@,
            Interval::H4 => "4h"@,
            Interval::D1 => "1d"@,
        }
    }

    /// The interval that a text names: the exact name, and nothing like it.
    pub open spec fn named(s: Seq<char>) -> Option<Interval> {
        if s == "1m"@ {
            Some(Interval::M1)
        } else if s == "3m"@ {
            Some(Interval::M3)
        } else if s == "5m"@ {
            Some(Interval::M5)
        } else if s == "15m"@ {
            Some(Interval::M15)
        } else if s == "30m"@ {
            Some(Interval::M30)
        } else if s == "1h"@ {
            Some(Interval::H1)
        } else if s == "4h"@ {
            Some(Interval::H4)
        } else if s == "1d"@ {
            Some(Interval::D1)
        } else {
            None
        }
    }

    /// The length of an interval in milliseconds.
    pub open spec fn length(self) -> int {
        match self {
            Interval::M1 => 60000,
            Interval::M3 => 180000,
            Interval::M5 => 300000,
            Interval::M15 => 900000,
            Interval::M30 => 1800000,
            Interval::H1 => 3600000,
            Interval::H4 => 14400000,
            Interval::D1 => 86400000,
        }
    }

    /// The exchange's name.
    pub fn as_str(self) -> (r: &'static str)
        ensures
            r@ == self.word(),
    {
        match self {
            Interval::M1 => "1m",
            Interval::M3 => "3m",
            Interval::M5 => "5m",
            Interval::M15 => "15m",
            Interval::M30 => "30m",
            Interval::H1 => "1h",
            Interval::H4 => "4h",
            Interval::D1 => "1d",
        }
    }

    /// Reads the exchange's name.
    pub fn parse(s: &str) -> (r: Option<Self>)
        ensures
            r == Self::named(s@),
    {
        if same_text(s, "1m") {
            Some(Interval::M1)
        } else if same_text(s, "3m") {
            Some(Interval::M3)
        } else if same_text(s, "5m") {
            Some(Interval::M5)
        } else if same_text(s, "15m") {
            Some(Interval::M15)
        } else if same_text(s, "30m") {
            Some(Interval::M30)
        } else if same_text(s, "1h") {
            Some(Interval::H1)
        } else if same_text(s, "4h") {
            Some(Interval::H4)
        } else if same_text(s, "1d") {
            Some(Interval::D1)
        } else {
            None
        }
    }

    /// The length in milliseconds.
    pub fn millis(self) -> (r: i64)
        ensures
            r == self.length(),
    {
        match self {
            Interval::M1 => 60000,
            Interval::M3 => 180000,
            Interval::M5 => 300000,
            Interval::M15 => 900000,
            Interval::M30 => 1800000,
            Interval::H1 => 3600000,
            Interval::H4 => 14400000,
            Interval::D1 => 86400000,
        }
    }
}

/// An interval is read back from its name, and from no other text.
pub proof fn law_interval_names(i: Interval, s: Seq<char>)
    ensures
        Interval::named(i.word()) == Some(i),
        Interval::named(s) == Some(i) ==> s == i.word(),
{
    reveal_strlit("1m");
    reveal_strlit("3m");
    reveal_strlit("5m");
    reveal_strlit("15m");
    reveal_strlit("30m");
    reveal_strlit("1h");
    reveal_strlit("4h");
    reveal_strlit("1d");
    assert("1m"@.len() == 2 && "1m"@[0] == '1' && "1m"@[1] == 'm');
    assert("3m"@.len() == 2 && "3m"@[0] == '3');
    assert("5m"@.len() == 2 && "5m"@[0] == '5');
    assert("15m"@.len() == 3 && "15m"@[0] == '1');
    assert("30m"@.len() == 3 && "30m"@[0] == '3');
    assert("1h"@.len() == 2 && "1h"@[0] == '1' && "1h"@[1] == 'h');
    assert("4h"@.len() == 2 && "4h"@[0] == '4');
    assert("1d"@.len() == 2 && "1d"@[0] == '1' && "1d"@[1] == 'd');
}

/// A candle, as a row of an answer gives it.
#[derive(Clone, Copy, Debug)]
pub struct KlineRow {
    pub open_time: i64,
    pub open: Decimal,
    pub high: Decimal,
    pub low: Decimal,
    pub close: Decimal,
    pub volume: Decimal,
    pub close_time: i64,
    pub trade_count: i64,
}

/// The amount at a place of a row: a text or a number that can be read as one, else zero.
pub open spec fn amount_at(row: Seq<JsonModel>, i: int) -> Decimal {
    if i < row.len() {
        match row[i] {
            JsonModel::Text(s) => crate::binance::amount_or(Some(s), Decimal::whole(0)),
            JsonModel::Number { text, .. } => crate::binance::amount_or(
                Some(text),
                Decimal::whole(0),
            ),
            _ => Decimal::whole(0),
        }
    } else {
        Decimal::whole(0)
    }
}

/// The integer at a place of a row: a whole number or a text that is one, else zero.
pub open spec fn integer_at(row: Seq<JsonModel>, i: int) -> i64 {
    if i < row.len() {
        match row[i] {
            JsonModel::Number { whole: Some(n), .. } => if i64::MIN <= n <= i64::MAX {
                n as i64
            } else {
                0
            },
            JsonModel::Text(s) => match crate::text::signed_of(s) {
                Some(n) => n as i64,
                None => 0,
            },
            _ => 0,
        }
    } else {
        0
    }
}

/// The candle of a row. The places of the fields are fixed by the exchange.
pub open spec fn row_of(row: Seq<JsonModel>) -> KlineRow {
    KlineRow {
        open_time: integer_at(row, 0),
        open: amount_at(row, 1),
        high: amount_at(row, 2),
        low: amount_at(row, 3),
        close: amount_at(row, 4),
        volume: amount_at(row, 5),
        close_time: integer_at(row, 6),
        trade_count: integer_at(row, 8),
    }
}

fn read_amount_at(row: &Vec<serde_json::Value>, i: usize) -> (r: Decimal)
    ensures
        r == amount_at(crate::json::jsons_of(row@), i as int),
{
    if i < row.len() {
        assert(crate::json::jsons_of(row@)[i as int] == crate::json::json_of(row@[i as int]));
        match apart(&row[i]) {
            Piece::Text(s) => read_amount(s, Decimal::zero()),
            Piece::Number { text, .. } => read_amount(text.as_str(), Decimal::zero()),
            _ => Decimal::zero(),
        }
    } else {
        Decimal::zero()
    }
}

fn read_integer_at(row: &Vec<serde_json::Value>, i: usize) -> (r: i64)
    ensures
        r == integer_at(crate::json::jsons_of(row@), i as int),
{
    if i < row.len() {
        assert(crate::json::jsons_of(row@)[i as int] == crate::json::json_of(row@[i as int]));
        match apart(&row[i]) {
            Piece::Number { whole: Some(n), .. } => if i64::MIN as i128 <= n && n
                <= i64::MAX as i128 {
                n as i64
            } else {
                0
            },
            Piece::Text(s) => match parse_i64(s) {
                Some(n) => n,
                None => 0,
            },
            _ => 0,
        }
    } else {
        0
    }
}

impl KlineRow {
    /// The candle of a row.
    pub fn read(row: &Vec<serde_json::Value>) -> (r: KlineRow)
        ensures
            r == row_of(crate::json::jsons_of(row@)),
    {
        KlineRow {
            open_time: read_integer_at(row, 0),
            open: read_amount_at(row, 1),
            high: read_amount_at(row, 2),
            low: read_amount_at(row, 3),
            close: read_amount_at(row, 4),
            volume: read_amount_at(row, 5),
            close_time: read_integer_at(row, 6),
            trade_count: read_integer_at(row, 8),
        }
    }

    /// The candle that a row is at a time. It is closed once its end has passed; a time that the
    /// calendar cannot hold is taken for now.
    pub open spec fn candle_at(self, now: Timestamp) -> Candle {
        let close_time = if crate::clock::dated(self.close_time as int) {
            self.close_time
        } else {
            now
        };
        Candle {
            open_time: if crate::clock::dated(self.open_time as int) {
                self.open_time
            } else {
                now
            },
            open: self.open,
            high: self.high,
            low: self.low,
            close: self.close,
            volume: self.volume,
            closed: now >= close_time,
        }
    }

    pub fn to_candle(&self, now: Timestamp) -> (r: Candle)
        ensures
            r == self.candle_at(now),
    {
        let close_time = if has_date(self.close_time) {
            self.close_time
        } else {
            now
        };
        Candle {
            open_time: if has_date(self.open_time) {
                self.open_time
            } else {
                now
            },
            open: self.open,
            high: self.high,
            low: self.low,
            close: self.close,
            volume: self.volume,
            closed: now >= close_time,
        }
    }

    /// The last millisecond of the candle.
    pub fn close_millis(&self, interval: Interval) -> (r: i64)
        requires
            self.open_time + interval.length() <= i64::MAX,
        ensures
            r == self.open_time + interval.length() - 1,
    {
        self.open_time + interval.millis() - 1
    }
}

impl From<Vec<serde_json::Value>> for KlineRow {
    fn from(v: Vec<serde_json::Value>) -> (r: Self) {
        KlineRow::read(&v)
    }
}

impl vstd::std_specs::convert::FromSpecImpl<Vec<serde_json::Value>> for KlineRow {
    open spec fn obeys_from_spec() -> bool {
        true
    }

    open spec fn from_spec(v: Vec<serde_json::Value>) -> KlineRow {
        row_of(crate::json::jsons_of(v@))
    }
}

/// How many candles are asked for: from one to fifteen hundred.
pub open spec fn candle_limit(limit: u32) -> u32 {
    if limit < 1 {
        1
    } else if limit > 1500 {
        1500
    } else {
        limit
    }
}

/// The query for candles. Where it goes back from a time, the time stands in it.
pub open spec fn klines_text(symbol: Seq<char>, interval: Interval, limit: u32, end: Option<i64>) -> Seq<char> {
    let latest = "symbol="@ + symbol + "&interval="@ + interval.word() + "&limit="@
        + crate::text::digits(candle_limit(limit) as nat);
    match end {
        Some(t) => latest + "&endTime="@ + crate::text::signed_digits(t as int),
        None => latest,
    }
}

/// The query for candles, and how long its answer may be shown from memory.
pub fn klines_query(symbol: &str, interval: Interval, limit: u32, end_time_ms: Option<i64>) -> (r: (
    String,
    i64,
))
    ensures
        r.0@ == klines_text(symbol@, interval, limit, end_time_ms),
        r.1 == (if end_time_ms is Some {
            HISTORY_TTL_MS
        } else {
            KLINES_TTL_MS
        }),
{
    let n: u32 = if limit < 1 {
        1
    } else if limit > 1500 {
        1500
    } else {
        limit
    };
    let head = joined5("symbol=", symbol, "&interval=", interval.as_str(), "&limit=");
    let latest = joined(head.as_str(), u64_text(n as u64).as_str());
    match end_time_ms {
        Some(t) => (
            joined3(latest.as_str(), "&endTime=", i64_text(t).as_str()),
            HISTORY_TTL_MS,
        ),
        None => (latest, KLINES_TTL_MS),
    }
}

/// A failure to get candles. A symbol that the exchange does not know is no passing trouble.
pub open spec fn klines_trouble(symbol: Seq<char>, e: Failure) -> Failure {
    match e {
        Failure::Definitive(m) => if crate::text::holds_text(m, "-1121"@) {
            Failure::Fatal("合约不存在或不在交易中："@ + symbol)
        } else {
            e
        },
        _ => e,
    }
}

/// Sorts a failure to get candles.
pub fn klines_failure(symbol: &str, e: ExchangeError) -> (r: ExchangeError)
    ensures
        r@ == klines_trouble(symbol@, e@),
{
    match e {
        ExchangeError::Definitive(m) => {
            if contains(m.as_str(), "-1121") {
                ExchangeError::Fatal(joined("合约不存在或不在交易中：", symbol))
            } else {
                ExchangeError::Definitive(m)
            }
        },
        other => other,
    }
}

/// The candles that some values are; `None` where one is no row.
pub open spec fn rows_of(s: Seq<JsonModel>) -> Option<Seq<KlineRow>>
    decreases s.len(),
{
    if s.len() == 0 {
        Some(Seq::empty())
    } else {
        match (rows_of(s.drop_last()), s.last()) {
            (Some(before), JsonModel::List(row)) => Some(before.push(row_of(row))),
            _ => None,
        }
    }
}

proof fn lemma_rows_fail(s: Seq<JsonModel>, n: nat)
    requires
        n <= s.len(),
        rows_of(s.take(n as int)) is None,
    ensures
        rows_of(s) is None,
    decreases s.len() - n,
{
    if n < s.len() {
        assert(s.take((n + 1) as int).drop_last() =~= s.take(n as int));
        lemma_rows_fail(s, n + 1);
    } else {
        assert(s.take(n as int) =~= s);
    }
}

/// The rows that a text holds.
pub open spec fn klines_of(text: Seq<char>) -> Option<Seq<KlineRow>> {
    match crate::json::json_text(text) {
        Ok(JsonModel::List(s)) => rows_of(s),
        _ => None,
    }
}

/// Reads candles, closed or not as of now.
pub fn read_klines(body: &str, now: Timestamp) -> (r: Result<Vec<Candle>, ExchangeError>)
    ensures
        match r {
            Ok(v) => klines_of(body@) matches Some(rows) && v@ == rows.map_values(
                |row: KlineRow| row.candle_at(now),
            ),
            Err(e) => klines_of(body@) is None && e@ == Failure::Fatal(
                "K 线响应无法解析："@ + crate::wire::unread(body@),
            ),
        },
{
    let v = match open_answer(body) {
        Ok(v) => v,
        Err(e) => return Err(ExchangeError::Fatal(joined("K 线响应无法解析：", e.as_str()))),
    };
    let items = match list_of(&v) {
        Some(items) => items,
        None => return Err(ExchangeError::Fatal(joined("K 线响应无法解析：", "字段不符"))),
    };
    let ghost s = crate::json::jsons_of(items@);
    let ghost mut rows = Seq::<KlineRow>::empty();
    let mut out: Vec<Candle> = Vec::new();
    for i in 0..items.len()
        invariant
            s == crate::json::jsons_of(items@),
            crate::json::json_text(body@) == Ok::<JsonModel, Seq<char>>(JsonModel::List(s)),
            rows_of(s.take(i as int)) == Some(rows),
            out@ == rows.map_values(|row: KlineRow| row.candle_at(now)),
    {
        assert(s.take(i + 1).drop_last() =~= s.take(i as int));
        assert(s.take(i + 1).last() == crate::json::json_of(items@[i as int]));
        match list_of(&items[i]) {
            Some(row) => {
                let ghost before = rows;
                let k = KlineRow::read(row);
                proof {
                    rows = rows.push(k);
                }
                out.push(k.to_candle(now));
                assert(out@ =~= rows.map_values(|row: KlineRow| row.candle_at(now)));
            },
            None => {
                proof {
                    lemma_rows_fail(s, (i + 1) as nat);
                }
                return Err(
                    ExchangeError::Fatal(joined("K 线响应无法解析：", "字段不符")),
                );
            },
        }
    }
    assert(s.take(s.len() as int) =~= s);
    Ok(out)
}

/// The depth that is asked for: the least of those on offer that is enough.
pub open spec fn offered_depth(limit: u32) -> u32 {
    if limit <= 5 {
        5
    } else if limit <= 10 {
        10
    } else if limit <= 20 {
        20
    } else if limit <= 50 {
        50
    } else if limit <= 100 {
        100
    } else if limit <= 500 {
        500
    } else {
        1000
    }
}

/// The least depth on offer that is enough.
pub fn depth_limit(limit: u32) -> (r: u32)
    ensures
        r == offered_depth(limit),
        limit <= 1000 ==> r >= limit,
{
    match limit {
        0..=5 => 5,
        6..=10 => 10,
        11..=20 => 20,
        21..=50 => 50,
        51..=100 => 100,
        101..=500 => 500,
        _ => 1000,
    }
}

/// The query for a book.
pub fn depth_query(symbol: &str, limit: u32) -> (r: String)
    ensures
        r@ == "symbol="@ + symbol@ + "&limit="@ + crate::text::digits(
            offered_depth(limit) as nat,
        ),
{
    joined4("symbol=", symbol, "&limit=", u64_text(depth_limit(limit) as u64).as_str())
}

/// The levels of a book whose price and quantity can be read.
pub open spec fn good_levels(s: Seq<(Seq<char>, Seq<char>)>) -> Seq<(Decimal, Decimal)>
    decreases s.len(),
{
    if s.len() == 0 {
        Seq::empty()
    } else {
        let before = good_levels(s.drop_last());
        match (
            crate::decimal::decimal_of_text(s.last().0),
            crate::decimal::decimal_of_text(s.last().1),
        ) {
            (Some(p), Some(q)) => before.push((p, q)),
            _ => before,
        }
    }
}

fn keep_good_levels(v: &Vec<(String, String)>) -> (r: Vec<(Decimal, Decimal)>)
    ensures
        r@ == good_levels(crate::json::pair_texts(v@)),
{
    let ghost s = crate::json::pair_texts(v@);
    let mut out: Vec<(Decimal, Decimal)> = Vec::new();
    for i in 0..v.len()
        invariant
            s == crate::json::pair_texts(v@),
            out@ == good_levels(s.take(i as int)),
    {
        assert(s.take(i + 1).drop_last() =~= s.take(i as int));
        assert(s.take(i + 1).last() == (v@[i as int].0@, v@[i as int].1@));
        match (Decimal::parse(v[i].0.as_str()), Decimal::parse(v[i].1.as_str())) {
            (Some(p), Some(q)) => out.push((p, q)),
            _ => {},
        }
    }
    assert(s.take(s.len() as int) =~= s);
    out
}

/// The best price of a side, zero where it is empty.
pub open spec fn best(levels: Seq<(Decimal, Decimal)>) -> Decimal {
    if levels.len() > 0 {
        levels[0].0
    } else {
        Decimal::whole(0)
    }
}

/// The best price of a side, zero where it is empty.
pub fn best_price(levels: &Vec<(Decimal, Decimal)>) -> (r: Decimal)
    ensures
        r == best(levels@),
{
    if levels.len() > 0 {
        levels[0].0
    } else {
        Decimal::zero()
    }
}

/// The two sides of the book that a text holds.
pub open spec fn book_of(text: Seq<char>) -> Option<
    (Seq<(Seq<char>, Seq<char>)>, Seq<(Seq<char>, Seq<char>)>),
> {
    match crate::json::json_text(text) {
        Err(_) => None,
        Ok(j) => match (j.field(0, "bids"@).list(true), j.field(1, "asks"@).list(true)) {
            (Some(b), Some(a)) => match (crate::json::pairs_of(b), crate::json::pairs_of(a)) {
                (Some(bids), Some(asks)) => if j.fits(2) {
                    Some((bids, asks))
                } else {
                    None
                },
                _ => None,
            },
            _ => None,
        },
    }
}

/// The book of some levels as they are written: levels that cannot be read are left out.
pub fn book_from(bids: &Vec<(String, String)>, asks: &Vec<(String, String)>, at: Timestamp) -> (r:
    BookSnapshot)
    ensures
        r.bids@ == good_levels(crate::json::pair_texts(bids@)),
        r.asks@ == good_levels(crate::json::pair_texts(asks@)),
        r.bid == best(r.bids@),
        r.ask == best(r.asks@),
        r.at == at,
{
    let bids = keep_good_levels(bids);
    let asks = keep_good_levels(asks);
    BookSnapshot { bid: best_price(&bids), ask: best_price(&asks), bids, asks, at }
}

/// Reads a book. Levels that cannot be read are left out.
pub fn read_depth(body: &str, at: Timestamp) -> (r: Result<BookSnapshot, ExchangeError>)
    ensures
        match r {
            Ok(b) => book_of(body@) matches Some((bids, asks)) && b.bids@ == good_levels(bids)
                && b.asks@ == good_levels(asks) && b.bid == best(b.bids@) && b.ask == best(b.asks@)
                && b.at == at,
            Err(e) => book_of(body@) is None && e@ == Failure::Fatal(
                "盘口响应无法解析："@ + crate::wire::unread(body@),
            ),
        },
{
    let v = match open_answer(body) {
        Ok(v) => v,
        Err(e) => return Err(ExchangeError::Fatal(joined("盘口响应无法解析：", e.as_str()))),
    };
    let bids = field(&v, 0, "bids").pairs();
    let asks = field(&v, 1, "asks").pairs();
    match (bids, asks) {
        (Some(b), Some(a)) => {
            if fits(&v, 2) {
                return Ok(book_from(&b, &a, at));
            }
        },
        _ => {},
    }
    Err(ExchangeError::Fatal(joined("盘口响应无法解析：", "字段不符")))
}

/// The mark price that a text holds, as it is written there.
pub open spec fn mark_of(text: Seq<char>) -> Option<Seq<char>> {
    match crate::json::json_text(text) {
        Err(_) => None,
        Ok(j) => if j.fits(1) {
            j.field(0, "markPrice"@).text(false)
        } else {
            None
        },
    }
}

/// Reads a mark price, zero where it is no amount.
pub fn read_mark_price(body: &str) -> (r: Result<Price, ExchangeError>)
    ensures
        match r {
            Ok(p) => mark_of(body@) matches Some(s) && p.0 == crate::binance::amount_or(
                Some(s),
                Decimal::whole(0),
            ),
            Err(e) => mark_of(body@) is None && e@ == Failure::Fatal(
                "标记价响应无法解析："@ + crate::wire::unread(body@),
            ),
        },
{
    let v = match open_answer(body) {
        Ok(v) => v,
        Err(e) => return Err(ExchangeError::Fatal(joined("标记价响应无法解析：", e.as_str()))),
    };
    if fits(&v, 1) {
        if let Some(s) = field(&v, 0, "markPrice").text(false) {
            return Ok(Price::new(read_amount(s.as_str(), Decimal::zero())));
        }
    }
    Err(ExchangeError::Fatal(joined("标记价响应无法解析：", "字段不符")))
}

/// The unit at the end of an interval's name, in milliseconds.
pub open spec fn unit_length(c: char) -> int {
    if c == 'm' {
        60000
    } else if c == 'h' {
        3600000
    } else {
        86400000
    }
}

/// An interval is as long as its name says: so many minutes, hours or days.
pub proof fn law_intervals_are_as_long_as_named(i: Interval)
    ensures
        i.word().len() >= 2,
        crate::text::all_digits(i.word().drop_last()),
        i.length() == crate::text::number_of(i.word().drop_last()) * unit_length(i.word().last()),
{
    reveal_with_fuel(crate::text::number_of, 3);
    reveal_strlit("1m");
    reveal_strlit("3m");
    reveal_strlit("5m");
    reveal_strlit("15m");
    reveal_strlit("30m");
    reveal_strlit("1h");
    reveal_strlit("4h");
    reveal_strlit("1d");
}

/// As many candles are asked for as are wanted, at least one and at most fifteen hundred.
pub proof fn law_candle_limits(limit: u32)
    ensures
        1 <= candle_limit(limit) <= 1500,
        1 <= limit <= 1500 ==> candle_limit(limit) == limit,
        limit > 1500 ==> candle_limit(limit) == 1500,
        limit == 0 ==> candle_limit(limit) == 1,
{
}

/// Whether a depth is on offer.
pub open spec fn on_offer(depth: u32) -> bool {
    depth == 5 || depth == 10 || depth == 20 || depth == 50 || depth == 100 || depth == 500 || depth
        == 1000
}

/// The depth that is asked for is the least on offer that is enough, and the largest where none is.
pub proof fn law_least_depth_that_is_enough(limit: u32, other: u32)
    requires
        on_offer(other),
    ensures
        on_offer(offered_depth(limit)),
        limit <= 1000 ==> offered_depth(limit) >= limit,
        other >= limit ==> offered_depth(limit) <= other,
        limit > 1000 ==> offered_depth(limit) == 1000,
{
}

/// A candle that is read is closed exactly once its end has come; its prices and its volume are those
/// of its row. Times that no date stands for are replaced by now.
pub proof fn law_read_candles_are_closed_at_their_end(row: KlineRow, now: Timestamp)
    ensures
        crate::clock::dated(row.close_time as int) ==> (row.candle_at(now).closed <==> row.close_time
            <= now),
        crate::clock::dated(row.open_time as int) ==> row.candle_at(now).open_time == row.open_time,
        row.candle_at(now).open == row.open,
        row.candle_at(now).high == row.high,
        row.candle_at(now).low == row.low,
        row.candle_at(now).close == row.close,
        row.candle_at(now).volume == row.volume,
{
}

/// The levels that are kept are those that can be read, in their order; the best price is that of the
/// first of them.
pub proof fn law_kept_levels_can_be_read(s: Seq<(Seq<char>, Seq<char>)>)
    ensures
        good_levels(s).len() <= s.len(),
        forall|k: int|
            0 <= k < good_levels(s).len() ==> exists|i: int|
                0 <= i < s.len() && crate::decimal::decimal_of_text((#[trigger] s[i]).0) == Some(
                    (#[trigger] good_levels(s)[k]).0,
                ) && crate::decimal::decimal_of_text(s[i].1) == Some(good_levels(s)[k].1),
        (forall|i: int|
            0 <= i < s.len() ==> crate::decimal::decimal_of_text((#[trigger] s[i]).0) is Some
                && crate::decimal::decimal_of_text(s[i].1) is Some) ==> good_levels(s).len()
            == s.len() && forall|i: int|
            0 <= i < s.len() ==> (#[trigger] good_levels(s)[i]) == (
                crate::decimal::decimal_of_text(s[i].0)->0,
                crate::decimal::decimal_of_text(s[i].1)->0,
            ),
    decreases s.len(),
{
    if s.len() > 0 {
        let before = s.drop_last();
        let n = s.len() - 1;
        law_kept_levels_can_be_read(before);
        assert(s[n] == s.last());
        let all = good_levels(s);
        let earlier = good_levels(before);
        assert forall|k: int| 0 <= k < all.len() implies exists|i: int|
            0 <= i < s.len() && crate::decimal::decimal_of_text((#[trigger] s[i]).0) == Some(
                (#[trigger] all[k]).0,
            ) && crate::decimal::decimal_of_text(s[i].1) == Some(all[k].1) by {
            if k < earlier.len() {
                assert(all[k] == earlier[k]);
                let i = choose|i: int|
                    0 <= i < before.len() && crate::decimal::decimal_of_text(
                        (#[trigger] before[i]).0,
                    ) == Some(earlier[k].0) && crate::decimal::decimal_of_text(before[i].1) == Some(
                        earlier[k].1,
                    );
                assert(s[i] == before[i]);
            } else {
                assert(crate::decimal::decimal_of_text(s[n].0) == Some(all[k].0));
            }
        }
        if forall|i: int|
            0 <= i < s.len() ==> crate::decimal::decimal_of_text((#[trigger] s[i]).0) is Some
                && crate::decimal::decimal_of_text(s[i].1) is Some {
            assert forall|i: int| 0 <= i < before.len() implies crate::decimal::decimal_of_text(
                (#[trigger] before[i]).0,
            ) is Some && crate::decimal::decimal_of_text(before[i].1) is Some by {
                assert(before[i] == s[i]);
            }
            assert forall|i: int| 0 <= i < s.len() implies (#[trigger] all[i]) == (
                crate::decimal::decimal_of_text(s[i].0)->0,
                crate::decimal::decimal_of_text(s[i].1)->0,
            ) by {
                if i < n {
                    assert(before[i] == s[i]);
                    assert(all[i] == earlier[i]);
                }
            }
        }
    }
}

/// A row of a candle is read by its places: when it opened, its four prices in the order open, high, low
/// and close, its volume, when it closes, and, one place further on, how many trades it holds.
pub proof fn law_rows_are_read_by_place(
    row: Seq<JsonModel>,
    texts: Seq<Seq<char>>,
    amounts: Seq<Decimal>,
    opened: i64,
    closes: i64,
    trades: i64,
)
    requires
        row.len() >= 9,
        texts.len() == 6,
        amounts.len() == 6,
        forall|i: int|
            1 <= i <= 5 ==> #[trigger] row[i] == JsonModel::Text(texts[i]),
        forall|i: int|
            1 <= i <= 5 ==> crate::decimal::decimal_of_text(#[trigger] texts[i]) == Some(amounts[i]),
        row[0] matches JsonModel::Number { whole: Some(n), .. } && n == opened,
        row[6] matches JsonModel::Number { whole: Some(n), .. } && n == closes,
        row[8] matches JsonModel::Number { whole: Some(n), .. } && n == trades,
    ensures
        row_of(row) == (KlineRow {
            open_time: opened,
            open: amounts[1],
            high: amounts[2],
            low: amounts[3],
            close: amounts[4],
            volume: amounts[5],
            close_time: closes,
            trade_count: trades,
        }),
{
    assert(row[1] == JsonModel::Text(texts[1]));
    assert(row[2] == JsonModel::Text(texts[2]));
    assert(row[3] == JsonModel::Text(texts[3]));
    assert(row[4] == JsonModel::Text(texts[4]));
    assert(row[5] == JsonModel::Text(texts[5]));
}

/// A refusal because the exchange knows no such contract ends the matter; any other failure is left as it
/// is.
pub proof fn law_unknown_contracts_are_fatal(symbol: Seq<char>, e: Failure)
    ensures
        e matches Failure::Definitive(m) && crate::text::holds_text(m, "-1121"@) ==> klines_trouble(
            symbol,
            e,
        ) is Fatal,
        !(e matches Failure::Definitive(m) && crate::text::holds_text(m, "-1121"@)) ==> klines_trouble(
            symbol,
            e,
        ) == e,
{
}

} // verus!
