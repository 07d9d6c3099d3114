//! Market events: the only input of strategies, fill models and protection.

use vstd::prelude::*;
use crate::clock::{after, Timestamp};
use crate::decimal::Decimal;
use crate::money::{Price, Qty};

verus! {

/// One minute, in milliseconds.
pub const ONE_MINUTE: i64 = 60000;

/// A candle of one minute. Decisions may only use candles that are closed.
#[derive(Clone, Copy, Debug, PartialEq, Eq)]
pub struct Candle {
    pub open_time: Timestamp,
    pub open: Decimal,
    pub high: Decimal,
    pub low: Decimal,
    pub close: Decimal,
    pub volume: Decimal,
    pub closed: bool,
}

impl Candle {
    /// When the candle ends.
    pub fn close_time(&self) -> (r: Timestamp)
        ensures
            r == crate::clock::moved(self.open_time as int, 60000),
    {
        after(self.open_time, ONE_MINUTE)
    }
}

/// A trade on the exchange.
#[derive(Clone, Copy, Debug, PartialEq, Eq)]
pub struct AggTrade {
    pub trade_id: u64,
    pub price: Price,
    pub quantity: Qty,
    /// The buyer's order was resting, so the seller was the one to act.
    pub is_buyer_maker: bool,
    pub at: Timestamp,
}

impl AggTrade {
    /// Whether the seller took the buyer's resting order.
    pub fn aggressor_is_sell(&self) -> (r: bool)
        ensures
            r == self.is_buyer_maker,
    {
        self.is_buyer_maker
    }
}

/// The best bid and ask, and the levels behind them.
#[derive(Debug, PartialEq, Eq)]
pub struct BookSnapshot {
    pub bid: Decimal,
    pub ask: Decimal,
    /// Bids with their quantities, best first.
    pub bids: Vec<(Decimal, Decimal)>,
    /// Asks with their quantities, best first.
    pub asks: Vec<(Decimal, Decimal)>,
    pub at: Timestamp,
}

/// A [`BookSnapshot`] with its levels as sequences.
pub struct DepthModel {
    pub bid: Decimal,
    pub ask: Decimal,
    pub bids: Seq<(Decimal, Decimal)>,
    pub asks: Seq<(Decimal, Decimal)>,
    pub at: Timestamp,
}

impl View for BookSnapshot {
    type V = DepthModel;

    open spec fn view(&self) -> DepthModel {
        DepthModel {
            bid: self.bid,
            ask: self.ask,
            bids: self.bids@,
            asks: self.asks@,
            at: self.at,
        }
    }
}

impl Decimal {
    /// Half the sum of two amounts.
    pub open spec fn midway(self, b: Decimal) -> Decimal {
        self.sum(b).per(Decimal::whole(2))
    }
}

/// Half the sum of two amounts.
pub fn midpoint(a: Decimal, b: Decimal) -> (r: Decimal)
    ensures
        r == a.midway(b),
{
    (a + b) / Decimal::from_int(2)
}

impl BookSnapshot {
    /// The price halfway between bid and ask.
    pub fn mid(&self) -> (r: Decimal)
        ensures
            r == self.bid.midway(self.ask),
    {
        midpoint(self.bid, self.ask)
    }
}

/// An event of the market.
#[derive(Debug, PartialEq, Eq)]
pub enum MarketEvent {
    Kline(Candle),
    AggTrade(AggTrade),
    Book(BookSnapshot),
    MarkPrice { price: Price, at: Timestamp },
    /// Time has moved on.
    Clock(Timestamp),
}

impl MarketEvent {
    /// When the event becomes known: a closed candle when it ends, one in the making when it
    /// begins.
    pub open spec fn time(self) -> int {
        match self {
            MarketEvent::Kline(c) => if c.closed {
                crate::clock::moved(c.open_time as int, 60000)
            } else {
                c.open_time as int
            },
            MarketEvent::AggTrade(t) => t.at as int,
            MarketEvent::Book(b) => b.at as int,
            MarketEvent::MarkPrice { at, .. } => at as int,
            MarketEvent::Clock(t) => t as int,
        }
    }

    pub fn at(&self) -> (r: Timestamp)
        ensures
            r == self.time(),
    {
        match self {
            MarketEvent::Kline(c) => if c.closed {
                c.close_time()
            } else {
                c.open_time
            },
            MarketEvent::AggTrade(t) => t.at,
            MarketEvent::Book(b) => b.at,
            MarketEvent::MarkPrice { at, .. } => *at,
            MarketEvent::Clock(t) => *t,
        }
    }

    /// Whether the event is a trade: the only one that can prove a fill.
    pub fn is_trade(&self) -> (r: bool)
        ensures
            r == (self is AggTrade),
    {
        matches!(self, MarketEvent::AggTrade(_))
    }
}

/// The price halfway between two others, where it needs no rounding.
pub open spec fn halves_exactly(a: Decimal, b: Decimal) -> bool {
    a.adds_exactly(b) && a.sum(b).divides_exactly(Decimal::whole(2))
}

/// The price halfway between two others is as far from the one as from the other.
pub proof fn law_midpoint_is_halfway(a: Decimal, b: Decimal)
    requires
        halves_exactly(a, b),
    ensures
        2 * a.midway(b)@ == a@ + b@,
        a.midway(b)@ - a@ == b@ - a.midway(b)@,
{
    crate::decimal::lemma_of_parts(2, 0);
    crate::decimal::lemma_pow10_28();
    let u = crate::decimal::unit();
    let m = a.midway(b)@;
    let t = a@ + b@;
    assert(2 * m == t) by (nonlinear_arith)
        requires
            m * (2 * u) == t * u,
            u > 0,
    ;
}

} // verus!
