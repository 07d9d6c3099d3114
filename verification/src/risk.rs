//! The checks that every entry has to pass.

use vstd::prelude::*;
use crate::clock::Timestamp;
use crate::decimal::Decimal;
use crate::instrument::Instrument;
use crate::market::{midpoint, Candle};
use crate::money::Price;
use crate::order::Side;
use crate::strategy::StandDownReason;

verus! {

/// The limits.
#[derive(Clone, Copy, Debug, PartialEq, Eq)]
pub struct RiskLimits {
    /// The largest distance to the stop, as a fraction of the entry price.
    pub max_stop_pct: Decimal,
    /// The smallest ratio of the distance to the target and the distance to the stop.
    pub min_reward_risk: Decimal,
    /// The age in seconds beyond which quotes are too old.
    pub max_feed_staleness_secs: i64,
}

impl Default for RiskLimits {
    fn default() -> (r: Self)
        ensures
            r.max_stop_pct == Decimal::of(5, 3),
            r.min_reward_risk == Decimal::whole(1),
            r.max_feed_staleness_secs == 15,
    {
        RiskLimits {
            max_stop_pct: Decimal::new(5, 3),
            min_reward_risk: Decimal::one(),
            max_feed_staleness_secs: 15,
        }
    }
}

/// The outcome of the checks.
#[derive(Clone, Copy, Debug, PartialEq, Eq, Structural)]
pub enum RiskVerdict {
    Pass,
    Reject(StandDownReason),
}

impl RiskVerdict {
    pub fn is_pass(&self) -> (r: bool)
        ensures
            r == (self is Pass),
    {
        matches!(self, RiskVerdict::Pass)
    }
}

/// Whole seconds in some milliseconds, towards zero.
pub open spec fn whole_seconds(ms: int) -> int {
    if ms >= 0 {
        ms / 1000
    } else {
        -((-ms) / 1000)
    }
}

/// The whole seconds from `earlier` to `now`, rounded towards zero.
pub fn seconds_between(now: Timestamp, earlier: Timestamp) -> (r: i128)
    ensures
        r == whole_seconds(now - earlier),
{
    let age: i128 = now as i128 - earlier as i128;
    if age >= 0 {
        age / 1000
    } else {
        -((-age) / 1000)
    }
}

/// Whether quotes are recent enough. Quotes that never came are not.
pub fn feed_is_fresh(last_event_at: Option<Timestamp>, now: Timestamp, limits: &RiskLimits) -> (r:
    bool)
    ensures
        r == (last_event_at matches Some(t) && whole_seconds(now - t)
            <= limits.max_feed_staleness_secs),
{
    match last_event_at {
        None => false,
        Some(t) => seconds_between(now, t) <= limits.max_feed_staleness_secs as i128,
    }
}

impl RiskLimits {
    /// The verdict on an entry. The checks are made in this order, the most basic first.
    pub open spec fn verdict(
        self,
        instrument: Instrument,
        side: Side,
        entry: Decimal,
        stop: Decimal,
        take_profit: Decimal,
        leverage: Decimal,
    ) -> RiskVerdict {
        let distance = entry.less(stop).unsigned();
        let reward = take_profit.less(entry).unsigned();
        if entry@ <= 0 || stop@ <= 0 {
            RiskVerdict::Reject(StandDownReason::StopTooWide)
        } else if !(match side {
            Side::Buy => stop@ < entry@,
            Side::Sell => stop@ > entry@,
        }) {
            RiskVerdict::Reject(StandDownReason::StopTooWide)
        } else if distance.per(entry)@ > self.max_stop_pct@ {
            RiskVerdict::Reject(StandDownReason::StopTooWide)
        } else if !instrument.stop_comes_first(entry, stop, leverage, side is Buy) {
            RiskVerdict::Reject(StandDownReason::StopInsideLiquidation)
        } else if take_profit@ > 0 && distance@ > 0 && reward.per(distance)@
            < self.min_reward_risk@ {
            RiskVerdict::Reject(StandDownReason::RiskRewardTooLow)
        } else {
            RiskVerdict::Pass
        }
    }
}

/// Checks an entry.
pub fn check_entry(
    instrument: &Instrument,
    side: Side,
    entry: Decimal,
    stop: Decimal,
    take_profit: Decimal,
    leverage: Decimal,
    limits: &RiskLimits,
) -> (r: RiskVerdict)
    ensures
        r == limits.verdict(*instrument, side, entry, stop, take_profit, leverage),
{
    if entry <= Decimal::zero() || stop <= Decimal::zero() {
        return RiskVerdict::Reject(StandDownReason::StopTooWide);
    }
    let direction_ok = match side {
        Side::Buy => stop < entry,
        Side::Sell => stop > entry,
    };
    if !direction_ok {
        return RiskVerdict::Reject(StandDownReason::StopTooWide);
    }
    let stop_distance = (entry - stop).abs();
    let stop_pct = stop_distance / entry;
    if stop_pct > limits.max_stop_pct {
        return RiskVerdict::Reject(StandDownReason::StopTooWide);
    }
    let is_long = side == Side::Buy;
    if !instrument.stop_precedes_liquidation(entry, stop, leverage, is_long) {
        return RiskVerdict::Reject(StandDownReason::StopInsideLiquidation);
    }
    if take_profit > Decimal::zero() {
        let reward = (take_profit - entry).abs();
        if stop_distance > Decimal::zero() {
            let rr = reward / stop_distance;
            if rr < limits.min_reward_risk {
                return RiskVerdict::Reject(StandDownReason::RiskRewardTooLow);
            }
        }
    }
    RiskVerdict::Pass
}

/// An entry that passes has its stop on the losing side of a positive entry price, within the
/// limit, and before the liquidation price.
pub proof fn law_passed_entries_are_protected(
    limits: RiskLimits,
    instrument: Instrument,
    side: Side,
    entry: Decimal,
    stop: Decimal,
    take_profit: Decimal,
    leverage: Decimal,
)
    requires
        limits.verdict(instrument, side, entry, stop, take_profit, leverage) is Pass,
    ensures
        entry@ > 0,
        stop@ > 0,
        side is Buy ==> stop@ < entry@,
        side is Sell ==> stop@ > entry@,
        entry.less(stop).unsigned().per(entry)@ <= limits.max_stop_pct@,
        instrument.liquidation_price(entry, leverage, side is Buy) matches Some(price) && (side
            is Buy ==> price@ < stop@) && (side is Sell ==> stop@ < price@),
{
}

/// A range of prices over some candles.
#[derive(Clone, Copy, Debug, PartialEq, Eq)]
pub struct PriceRange {
    pub low: Decimal,
    pub high: Decimal,
    /// When the first candle opened.
    pub from: Timestamp,
    /// When the last candle opened.
    pub to: Timestamp,
}

impl PriceRange {
    pub fn width(&self) -> (r: Decimal)
        ensures
            r == self.high.less(self.low),
            r@ > 0 <==> self.high@ > self.low@,
            self.high.aligns_with(self.low) ==> r@ == self.high@ - self.low@,
    {
        self.high.minus(self.low)
    }

    pub fn mid(&self) -> (r: Decimal)
        ensures
            r == self.high.midway(self.low),
    {
        midpoint(self.high, self.low)
    }
}

/// The lowest low of some candles.
pub open spec fn lowest(s: Seq<Candle>) -> Decimal
    decreases s.len(),
{
    if s.len() <= 1 {
        s[0].low
    } else {
        lowest(s.drop_last()).smaller(s.last().low)
    }
}

/// The highest high of some candles.
pub open spec fn highest(s: Seq<Candle>) -> Decimal
    decreases s.len(),
{
    if s.len() <= 1 {
        s[0].high
    } else {
        highest(s.drop_last()).larger(s.last().high)
    }
}

/// The closed candles among some candles.
pub open spec fn closed_candles(s: Seq<Candle>) -> Seq<Candle> {
    s.filter(|c: Candle| c.closed)
}

/// The range of the last `lookback` closed candles; `None` where there are too few or the
/// range is empty.
pub open spec fn range_of(candles: Seq<Candle>, lookback: nat) -> Option<PriceRange> {
    let closed = closed_candles(candles);
    let window = closed.skip(closed.len() - lookback);
    if closed.len() < lookback || lookback == 0 {
        None
    } else if highest(window)@ <= lowest(window)@ {
        None
    } else {
        Some(
            PriceRange {
                low: lowest(window),
                high: highest(window),
                from: window[0].open_time,
                to: window.last().open_time,
            },
        )
    }
}

/// The range of the last closed candles. Candles in the making are not looked at.
pub fn reference_range(candles: &[Candle], lookback: usize) -> (r: Option<PriceRange>)
    ensures
        r == range_of(candles@, lookback as nat),
{
    let mut closed: Vec<Candle> = Vec::new();
    for i in 0..candles.len()
        invariant
            closed@ == closed_candles(candles@.take(i as int)),
    {
        proof {
            assert(candles@.take(i + 1).drop_last() =~= candles@.take(i as int));
            reveal(Seq::filter);
        }
        if candles[i].closed {
            closed.push(candles[i]);
        }
    }
    assert(candles@.take(candles@.len() as int) =~= candles@);
    if closed.len() < lookback || lookback == 0 {
        return None;
    }
    let start: usize = closed.len() - lookback;
    let ghost window = closed@.skip(start as int);
    let mut low = closed[start].low;
    let mut high = closed[start].high;
    let mut i: usize = start + 1;
    assert(window.take(1)[0] == closed@[start as int]);
    while i < closed.len()
        invariant
            start < i <= closed@.len(),
            window == closed@.skip(start as int),
            low == lowest(window.take(i - start)),
            high == highest(window.take(i - start)),
        decreases closed.len() - i,
    {
        let c = closed[i];
        assert(window.take(i + 1 - start).drop_last() =~= window.take(i - start));
        assert(window.take(i + 1 - start).last() == c);
        if c.low < low {
            low = c.low;
        }
        if c.high > high {
            high = c.high;
        }
        i = i + 1;
    }
    assert(window.take(closed@.len() - start) =~= window);
    if high <= low {
        return None;
    }
    Some(
        PriceRange {
            low,
            high,
            from: closed[start].open_time,
            to: closed[closed.len() - 1].open_time,
        },
    )
}

/// An entry price moved by a fraction of itself, either way, needs no rounding.
pub open spec fn scales_exactly(entry: Decimal, pct: Decimal) -> bool {
    &&& Decimal::whole(1).adds_exactly(pct)
    &&& Decimal::whole(1).subtracts_exactly(pct)
    &&& entry.multiplies_exactly(Decimal::whole(1).sum(pct))
    &&& entry.multiplies_exactly(Decimal::whole(1).less(pct))
}

/// The stop and the target at fractions of the entry price, before alignment.
pub fn resolve_exit_prices(
    side: Side,
    entry: Decimal,
    stop_pct: Decimal,
    take_profit_pct: Decimal,
) -> (r: (Decimal, Decimal))
    ensures
        r.0 == side.flipped().target(entry, stop_pct),
        r.1 == side.target(entry, take_profit_pct),
        scales_exactly(entry, stop_pct) ==> (entry@ - r.0@) * crate::decimal::unit() == side.sign()
            * entry@ * stop_pct@,
        scales_exactly(entry, take_profit_pct) ==> (r.1@ - entry@) * crate::decimal::unit()
            == side.sign() * entry@ * take_profit_pct@,
{
    proof {
        let u = crate::decimal::unit();
        let e = entry@;
        let stop = side.flipped().target(entry, stop_pct)@;
        if scales_exactly(entry, stop_pct) {
            crate::protection::law_target_is_beyond_the_entry(side.flipped(), entry, stop_pct);
            let p = stop_pct@;
            assert((e - stop) * u == -((stop - e) * u)) by (nonlinear_arith);
            assert(1 * e * p == e * p && (-1) * e * p == -(e * p)) by (nonlinear_arith);
        }
        if scales_exactly(entry, take_profit_pct) {
            crate::protection::law_target_is_beyond_the_entry(side, entry, take_profit_pct);
        }
    }
    match side {
        Side::Buy => (
            entry * (Decimal::one() - stop_pct),
            entry * (Decimal::one() + take_profit_pct),
        ),
        Side::Sell => (
            entry * (Decimal::one() + stop_pct),
            entry * (Decimal::one() - take_profit_pct),
        ),
    }
}

/// How far the stop is from liquidation, for display.
#[derive(Clone, Copy, Debug, PartialEq, Eq)]
pub struct LiquidationWarning {
    pub liquidation_price: Option<Price>,
    pub stop_price: Price,
    /// The distance from the stop to the liquidation price, as a fraction of the entry price.
    pub buffer_pct: Option<Decimal>,
    pub dangerous: bool,
}

impl Instrument {
    /// The distance from a stop to the liquidation price, as a fraction of the entry price.
    pub open spec fn stop_buffer(
        self,
        entry: Decimal,
        stop: Decimal,
        leverage: Decimal,
        is_long: bool,
    ) -> Option<Decimal> {
        match self.liquidation_price(entry, leverage, is_long) {
            Some(price) => Some(price.less(stop).unsigned().per(entry)),
            None => None,
        }
    }
}

/// Whether a buffer is below a thousandth.
pub open spec fn thin(buffer: Option<Decimal>) -> bool {
    buffer matches Some(b) && b@ < Decimal::of(1, 3)@
}

pub fn liquidation_warning(
    instrument: &Instrument,
    side: Side,
    entry: Decimal,
    stop: Decimal,
    leverage: Decimal,
) -> (r: LiquidationWarning)
    ensures
        r.liquidation_price == (match instrument.liquidation_price(entry, leverage, side is Buy) {
            Some(price) => Some(Price(price)),
            None => None,
        }),
        r.stop_price == Price(stop),
        r.buffer_pct == instrument.stop_buffer(entry, stop, leverage, side is Buy),
        r.dangerous == thin(r.buffer_pct),
{
    let is_long = side == Side::Buy;
    let liq = instrument.liquidation_price_estimate(entry, leverage, is_long);
    let buffer_pct = match liq {
        Some(l) => Some((l - stop).abs() / entry),
        None => None,
    };
    let dangerous = match buffer_pct {
        Some(b) => b < Decimal::new(1, 3),
        None => false,
    };
    LiquidationWarning {
        liquidation_price: match liq {
            Some(l) => Some(Price::new(l)),
            None => None,
        },
        stop_price: Price::new(stop),
        buffer_pct,
        dangerous,
    }
}

/// Whole seconds are rounded towards zero: a thousand of them fit into the milliseconds, and one
/// second more would not.
pub proof fn law_whole_seconds(ms: int)
    ensures
        ms >= 0 ==> 0 <= 1000 * whole_seconds(ms) <= ms < 1000 * whole_seconds(ms) + 1000,
        whole_seconds(-ms) == -whole_seconds(ms),
{
}

impl RiskLimits {
    /// The distances of an entry and their ratios are computed without rounding.
    pub open spec fn weighs_exactly(
        self,
        entry: Decimal,
        stop: Decimal,
        take_profit: Decimal,
    ) -> bool {
        let distance = entry.less(stop).unsigned();
        let reward = take_profit.less(entry).unsigned();
        &&& entry.subtracts_exactly(stop)
        &&& take_profit.subtracts_exactly(entry)
        &&& entry@ != 0 ==> distance.divides_exactly(entry)
        &&& entry@ != stop@ ==> reward.divides_exactly(distance)
    }

    /// Whether the stop is not on the losing side of a positive entry price, or further from it
    /// than the limit allows.
    pub open spec fn misplaces(self, side: Side, entry: int, stop: int) -> bool {
        ||| entry <= 0
        ||| stop <= 0
        ||| side.sign() * (entry - stop) <= 0
        ||| side.sign() * (entry - stop) * crate::decimal::unit() > self.max_stop_pct@ * entry
    }
}

/// The verdict on an entry, on integers. A stop that is not on the losing side, or further away
/// than `max_stop_pct` of the entry price, is too wide. A stop that is not between the entry and
/// the liquidation price is inside liquidation. With a positive target, whose distance is less than
/// `min_reward_risk` times the distance to the stop, the reward is too low: for either side.
/// Everything else passes.
pub proof fn law_verdicts_weigh_distances(
    limits: RiskLimits,
    instrument: Instrument,
    side: Side,
    entry: Decimal,
    stop: Decimal,
    take_profit: Decimal,
    leverage: Decimal,
)
    requires
        limits.weighs_exactly(entry, stop, take_profit),
    ensures
        ({
            let verdict = limits.verdict(instrument, side, entry, stop, take_profit, leverage);
            let wide = limits.misplaces(side, entry@, stop@);
            let protected = instrument.liquidation_price(entry, leverage, side is Buy) matches Some(
                price,
            ) && side.sign() * (stop@ - price@) > 0;
            let low = take_profit@ > 0 && crate::decimal::magnitude(take_profit@ - entry@)
                * crate::decimal::unit() < limits.min_reward_risk@ * crate::decimal::magnitude(
                entry@ - stop@,
            );
            &&& verdict == RiskVerdict::Reject(StandDownReason::StopTooWide) <==> wide
            &&& verdict == RiskVerdict::Reject(StandDownReason::StopInsideLiquidation) <==> !wide
                && !protected
            &&& verdict == RiskVerdict::Reject(StandDownReason::RiskRewardTooLow) <==> !wide
                && protected && low
            &&& verdict is Pass <==> !wide && protected && !low
        }),
{
    let u = crate::decimal::unit();
    let distance = entry.less(stop).unsigned();
    let reward = take_profit.less(entry).unsigned();
    crate::decimal::law_signs(entry.less(stop));
    crate::decimal::law_signs(take_profit.less(entry));
    let e = entry@;
    let d = distance@;
    if e > 0 {
        let q = distance.per(entry)@;
        let limit = limits.max_stop_pct@;
        assert(q > limit <==> d * u > limit * e) by (nonlinear_arith)
            requires
                q * e == d * u,
                e > 0,
        ;
    }
    if d > 0 {
        let w = reward@;
        let q = reward.per(distance)@;
        let least = limits.min_reward_risk@;
        assert(q < least <==> w * u < least * d) by (nonlinear_arith)
            requires
                q * d == w * u,
                d > 0,
        ;
    }
}

/// An entry of either side that passes with a positive target has a distance to the target of at
/// least `min_reward_risk` times the distance to the stop.
pub proof fn law_rewards_cover_the_risk(
    limits: RiskLimits,
    instrument: Instrument,
    side: Side,
    entry: Decimal,
    stop: Decimal,
    take_profit: Decimal,
    leverage: Decimal,
)
    requires
        limits.weighs_exactly(entry, stop, take_profit),
        limits.verdict(instrument, side, entry, stop, take_profit, leverage) is Pass,
        take_profit@ > 0,
    ensures
        crate::decimal::magnitude(take_profit@ - entry@) * crate::decimal::unit()
            >= limits.min_reward_risk@ * crate::decimal::magnitude(entry@ - stop@),
        crate::decimal::magnitude(entry@ - stop@) > 0,
        crate::decimal::magnitude(entry@ - stop@) * crate::decimal::unit() <= limits.max_stop_pct@
            * entry@,
{
    law_verdicts_weigh_distances(limits, instrument, side, entry, stop, take_profit, leverage);
}

/// The rounding of the ratio aside, this holds of every entry that passes with a positive target:
/// the target is no nearer than `min_reward_risk` times the distance to the stop.
pub proof fn law_rewards_cover_the_risk_closely(
    limits: RiskLimits,
    instrument: Instrument,
    side: Side,
    entry: Decimal,
    stop: Decimal,
    take_profit: Decimal,
    leverage: Decimal,
)
    requires
        entry.subtracts_exactly(stop),
        take_profit.subtracts_exactly(entry),
        take_profit.less(entry).unsigned().divides_closely(entry.less(stop).unsigned()),
        limits.verdict(instrument, side, entry, stop, take_profit, leverage) is Pass,
        take_profit@ > 0,
    ensures
        exists|ratio: int| #[trigger]
            crate::decimal::within_rounding(
                crate::decimal::magnitude(take_profit@ - entry@),
                crate::decimal::magnitude(entry@ - stop@),
                ratio,
            ) && ratio >= limits.min_reward_risk@,
{
    crate::decimal::law_signs(entry.less(stop));
    crate::decimal::law_signs(take_profit.less(entry));
    let ratio = take_profit.less(entry).unsigned().per(entry.less(stop).unsigned())@;
    assert(crate::decimal::within_rounding(
        crate::decimal::magnitude(take_profit@ - entry@),
        crate::decimal::magnitude(entry@ - stop@),
        ratio,
    ));
}

/// A long entry and its mirror image, a short entry with its stop as far above and its target as
/// far below, are of the same width and the same reward: both are too wide or neither is, and of
/// two that are protected from liquidation both have too low a reward or neither has.
pub proof fn law_mirrored_entries_fare_alike(
    limits: RiskLimits,
    instrument: Instrument,
    entry: Decimal,
    stop: Decimal,
    target: Decimal,
    mirrored_stop: Decimal,
    mirrored_target: Decimal,
    leverage: Decimal,
)
    requires
        limits.weighs_exactly(entry, stop, target),
        limits.weighs_exactly(entry, mirrored_stop, mirrored_target),
        mirrored_stop@ - entry@ == entry@ - stop@,
        mirrored_target@ - entry@ == entry@ - target@,
        stop@ > 0,
        mirrored_stop@ > 0,
        target@ > 0,
        mirrored_target@ > 0,
    ensures
        ({
            let long = limits.verdict(instrument, Side::Buy, entry, stop, target, leverage);
            let short = limits.verdict(
                instrument,
                Side::Sell,
                entry,
                mirrored_stop,
                mirrored_target,
                leverage,
            );
            let inside = RiskVerdict::Reject(StandDownReason::StopInsideLiquidation);
            let low = RiskVerdict::Reject(StandDownReason::RiskRewardTooLow);
            let wide = RiskVerdict::Reject(StandDownReason::StopTooWide);
            &&& long == wide <==> short == wide
            &&& long != inside && short != inside ==> (long == low <==> short == low)
            &&& long != inside && short != inside ==> long == short
        }),
{
    law_verdicts_weigh_distances(limits, instrument, Side::Buy, entry, stop, target, leverage);
    law_verdicts_weigh_distances(
        limits,
        instrument,
        Side::Sell,
        entry,
        mirrored_stop,
        mirrored_target,
        leverage,
    );
}

/// The lowest low and the highest high of some candles are at the bounds of all of them, and are
/// reached.
pub proof fn law_extremes_bound_all_candles(s: Seq<Candle>)
    requires
        s.len() > 0,
    ensures
        forall|i: int|
            0 <= i < s.len() ==> lowest(s)@ <= (#[trigger] s[i]).low@ && s[i].high@ <= highest(s)@,
        exists|i: int| 0 <= i < s.len() && (#[trigger] s[i]).low == lowest(s),
        exists|i: int| 0 <= i < s.len() && (#[trigger] s[i]).high == highest(s),
    decreases s.len(),
{
    if s.len() > 1 {
        let before = s.drop_last();
        let n = s.len() - 1;
        law_extremes_bound_all_candles(before);
        assert forall|i: int| 0 <= i < s.len() implies lowest(s)@ <= (#[trigger] s[i]).low@
            && s[i].high@ <= highest(s)@ by {
            if i < n {
                assert(s[i] == before[i]);
            }
        }
        let j = choose|i: int| 0 <= i < before.len() && (#[trigger] before[i]).low == lowest(before);
        let k = choose|i: int|
            0 <= i < before.len() && (#[trigger] before[i]).high == highest(before);
        assert(s[j] == before[j] && s[k] == before[k] && s[n] == s.last());
    } else {
        assert(s[0].low == lowest(s) && s[0].high == highest(s));
    }
}

proof fn lemma_closed_candles(candles: Seq<Candle>)
    ensures
        forall|i: int|
            0 <= i < closed_candles(candles).len() ==> (#[trigger] closed_candles(candles)[i]).closed
                && candles.contains(closed_candles(candles)[i]),
    decreases candles.len(),
{
    reveal(Seq::filter);
    if candles.len() > 0 {
        let before = candles.drop_last();
        let n = candles.len() - 1;
        lemma_closed_candles(before);
        assert forall|i: int| 0 <= i < closed_candles(candles).len() implies (
        #[trigger] closed_candles(candles)[i]).closed && candles.contains(
            closed_candles(candles)[i],
        ) by {
            let c = closed_candles(candles)[i];
            if i < closed_candles(before).len() {
                assert(c == closed_candles(before)[i]);
                let k = choose|k: int| 0 <= k < before.len() && before[k] == c;
                assert(candles[k] == c);
            } else {
                assert(candles[n] == c);
            }
        }
    }
}

/// A range is one of the last `lookback` closed candles: no low among them is below it and no high
/// above it, it is not empty, and candles in the making are no part of it. There is none only where
/// there are fewer closed candles, or they span no range.
pub proof fn law_range_spans_the_last_closed_candles(candles: Seq<Candle>, lookback: nat)
    ensures
        ({
            let closed = closed_candles(candles);
            let window = closed.skip(closed.len() - lookback);
            &&& forall|i: int|
                0 <= i < closed.len() ==> (#[trigger] closed[i]).closed && candles.contains(closed[i])
            &&& range_of(candles, lookback) is Some ==> 0 < lookback <= closed.len()
            &&& range_of(candles, lookback) matches Some(r) ==> ({
                &&& r.low@ < r.high@
                &&& forall|i: int|
                    0 <= i < window.len() ==> r.low@ <= (#[trigger] window[i]).low@
                        && window[i].high@ <= r.high@
                &&& exists|i: int| 0 <= i < window.len() && (#[trigger] window[i]).low == r.low
                &&& exists|i: int| 0 <= i < window.len() && (#[trigger] window[i]).high == r.high
                &&& r.from == window[0].open_time
                &&& r.to == closed.last().open_time
            })
            &&& 0 < lookback <= closed.len() && range_of(candles, lookback) is None ==> forall|
                i: int,
                j: int,
            |
                0 <= i < window.len() && 0 <= j < window.len() ==> (#[trigger] window[i]).high@ <= (
                #[trigger] window[j]).low@
        }),
{
    let closed = closed_candles(candles);
    let window = closed.skip(closed.len() - lookback);
    lemma_closed_candles(candles);
    if 0 < lookback <= closed.len() {
        law_extremes_bound_all_candles(window);
        assert(window.last() == closed.last());
    }
}

/// The buffer of a warning is the distance from the stop to the liquidation price, as a fraction
/// of the entry price, and a buffer is thin where that distance is below a thousandth of it.
pub proof fn law_thin_buffers_are_below_a_thousandth(
    instrument: Instrument,
    entry: Decimal,
    stop: Decimal,
    leverage: Decimal,
    is_long: bool,
    price: Decimal,
)
    requires
        instrument.liquidation_price(entry, leverage, is_long) == Some(price),
        entry@ > 0,
        price.subtracts_exactly(stop),
        price.less(stop).unsigned().divides_exactly(entry),
    ensures
        instrument.stop_buffer(entry, stop, leverage, is_long) matches Some(b) && b@ * entry@
            == crate::decimal::magnitude(price@ - stop@) * crate::decimal::unit(),
        thin(instrument.stop_buffer(entry, stop, leverage, is_long)) <==> 1000
            * crate::decimal::magnitude(price@ - stop@) < entry@,
{
    crate::decimal::law_signs(price.less(stop));
    crate::decimal::lemma_of_parts(1, 3);
    assert(crate::decimal::pow10(25) == 10000000000000000000000000) by {
        reveal_with_fuel(crate::decimal::pow10, 26);
    }
    let b = instrument.stop_buffer(entry, stop, leverage, is_long)->0@;
    let t = Decimal::of(1, 3)@;
    let d = crate::decimal::magnitude(price@ - stop@);
    let e = entry@;
    let u = crate::decimal::unit();
    assert(b < t <==> 1000 * d < e) by (nonlinear_arith)
        requires
            b * e == d * u,
            1000 * t == u,
            e > 0,
            u > 0,
    ;
}

} // verus!
