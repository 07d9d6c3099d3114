//! What tells an honest result from a flattering one.
//!
//! With no maker fee a profit is a function of the fill model, so a result carries what it
//! depends on: how the price moved after each fill, how long stops stood unfilled, where the fee
//! came from, and whether two fill models agree.

use vstd::prelude::*;
use crate::clock::Timestamp;
use crate::decimal::Decimal;
use crate::instrument::FeeSource;
use crate::keyed::TextMap;

verus! {

/// How the price moved after a fill. Positive is in our favour.
#[derive(Clone, Copy, Debug, PartialEq, Eq)]
pub struct MarkoutObservation {
    pub at: Timestamp,
    pub price: Decimal,
    pub side: MarkoutSide,
    pub markout_1s: Decimal,
    pub markout_5s: Decimal,
    pub markout_30s: Decimal,
    pub markout_5m: Decimal,
}

/// The side of the position.
#[derive(Clone, Copy, Debug, PartialEq, Eq, Structural)]
pub enum MarkoutSide {
    Long,
    Short,
}

/// How the price moved after all fills.
#[derive(Clone, Copy, Debug, PartialEq, Eq)]
pub struct MarkoutSummary {
    pub samples: usize,
    pub mean_1s: Decimal,
    pub mean_5s: Decimal,
    pub mean_30s: Decimal,
    pub mean_5m: Decimal,
    /// The part of the fills after which the price moved against us.
    pub adverse_ratio_5s: Decimal,
}

impl MarkoutSummary {
    /// On average the price moves against us within five seconds.
    pub open spec fn adverse(self) -> bool {
        self.samples > 0 && self.mean_5s@ < 0
    }

    pub fn has_systematic_adverse_selection(&self) -> (r: bool)
        ensures
            r == self.adverse(),
    {
        self.samples > 0 && self.mean_5s < Decimal::zero()
    }
}

/// Amounts added up in their order.
pub open spec fn total(s: Seq<Decimal>) -> Decimal
    decreases s.len(),
{
    if s.len() == 0 {
        Decimal::whole(0)
    } else {
        total(s.drop_last()).sum(s.last())
    }
}

/// The mean of some amounts.
pub open spec fn mean(s: Seq<Decimal>) -> Decimal {
    total(s).per(Decimal::whole(s.len() as int))
}

/// How many observations moved against us within five seconds.
pub open spec fn adverse_count(s: Seq<MarkoutObservation>) -> nat
    decreases s.len(),
{
    if s.len() == 0 {
        0
    } else {
        adverse_count(s.drop_last()) + (if s.last().markout_5s@ < 0 {
            1nat
        } else {
            0nat
        })
    }
}

/// The summary of some observations; all zero for none.
pub open spec fn markout_summary(s: Seq<MarkoutObservation>) -> MarkoutSummary {
    if s.len() == 0 {
        MarkoutSummary {
            samples: 0,
            mean_1s: Decimal::whole(0),
            mean_5s: Decimal::whole(0),
            mean_30s: Decimal::whole(0),
            mean_5m: Decimal::whole(0),
            adverse_ratio_5s: Decimal::whole(0),
        }
    } else {
        MarkoutSummary {
            samples: s.len() as usize,
            mean_1s: mean(s.map_values(|o: MarkoutObservation| o.markout_1s)),
            mean_5s: mean(s.map_values(|o: MarkoutObservation| o.markout_5s)),
            mean_30s: mean(s.map_values(|o: MarkoutObservation| o.markout_30s)),
            mean_5m: mean(s.map_values(|o: MarkoutObservation| o.markout_5m)),
            adverse_ratio_5s: Decimal::whole(adverse_count(s) as int).per(
                Decimal::whole(s.len() as int),
            ),
        }
    }
}

/// Adds up amounts in their order.
pub fn sum_of(v: &Vec<Decimal>) -> (r: Decimal)
    ensures
        r == total(v@),
{
    let mut t = Decimal::zero();
    for i in 0..v.len()
        invariant
            t == total(v@.take(i as int)),
    {
        assert(v@.take(i + 1).drop_last() =~= v@.take(i as int));
        t = t + v[i];
    }
    assert(v@.take(v@.len() as int) =~= v@);
    t
}

pub fn summarize_markouts(obs: &[MarkoutObservation]) -> (r: MarkoutSummary)
    ensures
        r == markout_summary(obs@),
{
    if obs.len() == 0 {
        return MarkoutSummary {
            samples: 0,
            mean_1s: Decimal::zero(),
            mean_5s: Decimal::zero(),
            mean_30s: Decimal::zero(),
            mean_5m: Decimal::zero(),
            adverse_ratio_5s: Decimal::zero(),
        };
    }
    let n = Decimal::from_count(obs.len());
    let mut a: Vec<Decimal> = Vec::new();
    let mut b: Vec<Decimal> = Vec::new();
    let mut c: Vec<Decimal> = Vec::new();
    let mut d: Vec<Decimal> = Vec::new();
    let mut adverse: usize = 0;
    for i in 0..obs.len()
        invariant
            a@ == obs@.take(i as int).map_values(|o: MarkoutObservation| o.markout_1s),
            b@ == obs@.take(i as int).map_values(|o: MarkoutObservation| o.markout_5s),
            c@ == obs@.take(i as int).map_values(|o: MarkoutObservation| o.markout_30s),
            d@ == obs@.take(i as int).map_values(|o: MarkoutObservation| o.markout_5m),
            adverse == adverse_count(obs@.take(i as int)),
            adverse <= i,
    {
        let o = obs[i];
        assert(obs@.take(i + 1).drop_last() =~= obs@.take(i as int));
        assert(obs@.take(i + 1).last() == o);
        a.push(o.markout_1s);
        b.push(o.markout_5s);
        c.push(o.markout_30s);
        d.push(o.markout_5m);
        assert(a@ =~= obs@.take(i + 1).map_values(|o: MarkoutObservation| o.markout_1s));
        assert(b@ =~= obs@.take(i + 1).map_values(|o: MarkoutObservation| o.markout_5s));
        assert(c@ =~= obs@.take(i + 1).map_values(|o: MarkoutObservation| o.markout_30s));
        assert(d@ =~= obs@.take(i + 1).map_values(|o: MarkoutObservation| o.markout_5m));
        if o.markout_5s < Decimal::zero() {
            adverse = adverse + 1;
        }
    }
    assert(obs@.take(obs@.len() as int) =~= obs@);
    MarkoutSummary {
        samples: obs.len(),
        mean_1s: sum_of(&a) / n,
        mean_5s: sum_of(&b) / n,
        mean_30s: sum_of(&c) / n,
        mean_5m: sum_of(&d) / n,
        adverse_ratio_5s: Decimal::from_count(adverse) / n,
    }
}

/// A time during which a stop was reached and not filled.
#[derive(Clone, Copy, Debug, PartialEq, Eq)]
pub struct StopExposure {
    pub triggered_at: Timestamp,
    pub resolved_at: Timestamp,
    pub resolution: StopResolution,
    pub resolved_price: Decimal,
    pub stop_price: Decimal,
    /// How much worse than the stop the price was.
    pub slippage: Decimal,
}

/// How a position without protection ended.
#[derive(Clone, Copy, Debug, PartialEq, Eq, Structural)]
pub enum StopResolution {
    StopFilled,
    /// The price came back and filled the stop.
    FilledLater,
    Liquidated,
    StillOpenAtEnd,
}

/// All the times during which stops were not filled.
#[derive(Clone, Copy, Debug, PartialEq, Eq)]
pub struct StopExposureSummary {
    pub events: usize,
    /// The part that was filled in the end.
    pub filled_ratio: Decimal,
    /// The part that was liquidated.
    pub liquidated_ratio: Decimal,
    pub median_exposure_secs: i64,
    pub max_exposure_secs: i64,
    pub mean_slippage: Decimal,
}

impl StopExposure {
    /// How long it lasted in whole seconds, zero where the times are the wrong way round.
    pub open spec fn seconds(self) -> int {
        let s = crate::risk::whole_seconds(self.resolved_at - self.triggered_at);
        if s < 0 {
            0
        } else {
            s
        }
    }

    /// Whether the stop was filled in the end.
    pub open spec fn got_filled(self) -> bool {
        self.resolution is StopFilled || self.resolution is FilledLater
    }

    fn duration_secs(&self) -> (r: i64)
        ensures
            r == self.seconds(),
    {
        if self.resolved_at <= self.triggered_at {
            0
        } else {
            let ms: i128 = self.resolved_at as i128 - self.triggered_at as i128;
            (ms / 1000) as i64
        }
    }
}

/// A number put in its place among ascending numbers.
pub open spec fn with_number(s: Seq<i64>, x: i64) -> Seq<i64>
    decreases s.len(),
{
    if s.len() == 0 || s.last() <= x {
        s.push(x)
    } else {
        with_number(s.drop_last(), x).push(s.last())
    }
}

/// The durations of some exposures in ascending order.
pub open spec fn durations_ascending(s: Seq<StopExposure>) -> Seq<i64>
    decreases s.len(),
{
    if s.len() == 0 {
        Seq::empty()
    } else {
        with_number(durations_ascending(s.drop_last()), s.last().seconds() as i64)
    }
}

proof fn lemma_with_number(s: Seq<i64>, x: i64)
    ensures
        with_number(s, x).len() == s.len() + 1,
        forall|i: int|
            0 <= i < s.len() + 1 ==> (#[trigger] with_number(s, x)[i] == x || s.contains(
                with_number(s, x)[i],
            )),
        (forall|i: int, j: int| 0 <= i <= j < s.len() ==> s[i] <= s[j]) ==> (forall|i: int, j: int|
            0 <= i <= j < s.len() + 1 ==> #[trigger] with_number(s, x)[i]
                <= #[trigger] with_number(s, x)[j]),
    decreases s.len(),
{
    if s.len() > 0 && s.last() > x {
        let rest = s.drop_last();
        lemma_with_number(rest, x);
        let r = with_number(s, x);
        let q = with_number(rest, x);
        assert forall|i: int| 0 <= i < s.len() + 1 implies (#[trigger] r[i] == x || s.contains(
            r[i],
        )) by {
            if i < q.len() {
                assert(r[i] == q[i]);
                if q[i] != x {
                    let k = choose|k: int| 0 <= k < rest.len() && rest[k] == q[i];
                    assert(s[k] == q[i]);
                }
            } else {
                assert(r[i] == s[s.len() - 1]);
            }
        }
        if forall|i: int, j: int| 0 <= i <= j < s.len() ==> s[i] <= s[j] {
            assert forall|i: int, j: int| 0 <= i <= j < s.len() + 1 implies #[trigger] r[i]
                <= #[trigger] r[j] by {
                if j == q.len() && i < q.len() {
                    if q[i] != x {
                        let k = choose|k: int| 0 <= k < rest.len() && rest[k] == q[i];
                        assert(s[k] <= s[s.len() - 1]);
                    }
                } else if j < q.len() {
                    assert(q[i] <= q[j]);
                }
            }
        }
    } else {
        let r = with_number(s, x);
        assert forall|i: int| 0 <= i < s.len() + 1 implies (#[trigger] r[i] == x || s.contains(
            r[i],
        )) by {
            if i < s.len() {
                assert(s[i] == r[i]);
            }
        }
    }
}

/// The durations are ascending, one for each exposure, and none is negative.
pub proof fn law_durations_ascend(s: Seq<StopExposure>)
    ensures
        durations_ascending(s).len() == s.len(),
        forall|i: int, j: int|
            0 <= i <= j < s.len() ==> #[trigger] durations_ascending(s)[i]
                <= #[trigger] durations_ascending(s)[j],
        forall|i: int| 0 <= i < s.len() ==> #[trigger] durations_ascending(s)[i] >= 0,
    decreases s.len(),
{
    if s.len() > 0 {
        let rest = s.drop_last();
        law_durations_ascend(rest);
        let d = durations_ascending(rest);
        let x = s.last().seconds() as i64;
        lemma_with_number(d, x);
        assert forall|i: int| 0 <= i < s.len() implies #[trigger] durations_ascending(s)[i]
            >= 0 by {
            let y = with_number(d, x)[i];
            if y != x {
                let k = choose|k: int| 0 <= k < d.len() && d[k] == y;
                assert(d[k] >= 0);
            }
        }
    }
}

/// How many exposures were filled in the end.
pub open spec fn filled_count(s: Seq<StopExposure>) -> nat
    decreases s.len(),
{
    if s.len() == 0 {
        0
    } else {
        filled_count(s.drop_last()) + (if s.last().got_filled() {
            1nat
        } else {
            0nat
        })
    }
}

/// How many exposures were liquidated.
pub open spec fn liquidated_count(s: Seq<StopExposure>) -> nat
    decreases s.len(),
{
    if s.len() == 0 {
        0
    } else {
        liquidated_count(s.drop_last()) + (if s.last().resolution is Liquidated {
            1nat
        } else {
            0nat
        })
    }
}

/// The summary of some exposures; all zero for none.
pub open spec fn exposure_summary(s: Seq<StopExposure>) -> StopExposureSummary {
    if s.len() == 0 {
        StopExposureSummary {
            events: 0,
            filled_ratio: Decimal::whole(0),
            liquidated_ratio: Decimal::whole(0),
            median_exposure_secs: 0,
            max_exposure_secs: 0,
            mean_slippage: Decimal::whole(0),
        }
    } else {
        let n = Decimal::whole(s.len() as int);
        StopExposureSummary {
            events: s.len() as usize,
            filled_ratio: Decimal::whole(filled_count(s) as int).per(n),
            liquidated_ratio: Decimal::whole(liquidated_count(s) as int).per(n),
            median_exposure_secs: durations_ascending(s)[s.len() as int / 2],
            max_exposure_secs: durations_ascending(s).last(),
            mean_slippage: mean(s.map_values(|e: StopExposure| e.slippage)),
        }
    }
}

/// Puts a number in its place among ascending numbers.
fn place_number(v: &mut Vec<i64>, x: i64)
    ensures
        final(v)@ == with_number(old(v)@, x),
{
    let ghost s = v@;
    let mut i: usize = v.len();
    assert(s.take(s.len() as int) =~= s);
    assert(s.skip(s.len() as int) =~= Seq::<i64>::empty());
    while i > 0 && v[i - 1] > x
        invariant
            v@ == s,
            i <= s.len(),
            with_number(s, x) =~= with_number(s.take(i as int), x) + s.skip(i as int),
        decreases i,
    {
        proof {
            let a = s.take(i as int);
            assert(a.drop_last() =~= s.take(i - 1));
            assert(a.last() == s[i - 1]);
            assert(with_number(s.take(i - 1), x).push(s[i - 1]) + s.skip(i as int)
                =~= with_number(s.take(i - 1), x) + s.skip(i - 1));
        }
        i = i - 1;
    }
    v.insert(i, x);
    proof {
        assert(with_number(s.take(i as int), x) == s.take(i as int).push(x));
        assert(v@ =~= s.take(i as int).push(x) + s.skip(i as int));
    }
}

pub fn summarize_stop_exposures(events: &[StopExposure]) -> (r: StopExposureSummary)
    ensures
        r == exposure_summary(events@),
{
    if events.len() == 0 {
        return StopExposureSummary {
            events: 0,
            filled_ratio: Decimal::zero(),
            liquidated_ratio: Decimal::zero(),
            median_exposure_secs: 0,
            max_exposure_secs: 0,
            mean_slippage: Decimal::zero(),
        };
    }
    let n = events.len();
    let n_dec = Decimal::from_count(n);
    let mut filled: usize = 0;
    let mut liquidated: usize = 0;
    let mut durations: Vec<i64> = Vec::new();
    let mut slippages: Vec<Decimal> = Vec::new();
    assert(events@.take(0) =~= Seq::<StopExposure>::empty());
    for i in 0..n
        invariant
            n == events@.len(),
            filled == filled_count(events@.take(i as int)),
            filled <= i,
            liquidated == liquidated_count(events@.take(i as int)),
            liquidated <= i,
            durations@ == durations_ascending(events@.take(i as int)),
            slippages@ == events@.take(i as int).map_values(|e: StopExposure| e.slippage),
    {
        let e = events[i];
        assert(events@.take(i + 1).drop_last() =~= events@.take(i as int));
        assert(events@.take(i + 1).last() == e);
        if matches!(e.resolution, StopResolution::StopFilled | StopResolution::FilledLater) {
            filled = filled + 1;
        }
        if e.resolution == StopResolution::Liquidated {
            liquidated = liquidated + 1;
        }
        place_number(&mut durations, e.duration_secs());
        slippages.push(e.slippage);
        assert(slippages@ =~= events@.take(i + 1).map_values(|e: StopExposure| e.slippage));
    }
    assert(events@.take(events@.len() as int) =~= events@);
    proof {
        law_durations_ascend(events@);
    }
    StopExposureSummary {
        events: n,
        filled_ratio: Decimal::from_count(filled) / n_dec,
        liquidated_ratio: Decimal::from_count(liquidated) / n_dec,
        median_exposure_secs: durations[n / 2],
        max_exposure_secs: durations[n - 1],
        mean_slippage: sum_of(&slippages) / n_dec,
    }
}

/// How many orders were refused because the price had moved before they arrived.
#[derive(Clone, Copy, Debug, PartialEq, Eq)]
pub struct LatencyStats {
    pub attempts: usize,
    pub rejected_post_only: usize,
    pub assumed_latency_ms: u64,
}

impl Default for LatencyStats {
    fn default() -> (r: Self)
        ensures
            r.attempts == 0,
            r.rejected_post_only == 0,
            r.assumed_latency_ms == 0,
    {
        LatencyStats { attempts: 0, rejected_post_only: 0, assumed_latency_ms: 0 }
    }
}

impl LatencyStats {
    /// The part that was refused; zero where nothing was tried.
    pub fn rejection_ratio(&self) -> (r: Decimal)
        ensures
            r == (if self.attempts == 0 {
                Decimal::whole(0)
            } else {
                Decimal::whole(self.rejected_post_only as int).per(
                    Decimal::whole(self.attempts as int),
                )
            }),
            self.attempts > 0 && Decimal::whole(self.rejected_post_only as int).divides_exactly(
                Decimal::whole(self.attempts as int),
            ) ==> r@ * self.attempts == self.rejected_post_only * crate::decimal::unit(),
    {
        proof {
            let n = self.attempts as int;
            let k = self.rejected_post_only as int;
            if n > 0 && Decimal::whole(k).divides_exactly(Decimal::whole(n)) {
                lemma_ratio(Decimal::whole(k), n);
                crate::decimal::lemma_of_parts(k, 0);
                crate::decimal::lemma_pow10_28();
            }
        }
        if self.attempts == 0 {
            return Decimal::zero();
        }
        Decimal::from_count(self.rejected_post_only) / Decimal::from_count(self.attempts)
    }
}

/// How much two fill models agree.
#[derive(Clone, Copy, Debug, PartialEq, Eq)]
pub struct EdgeMetrics {
    /// The final equity of the optimistic model.
    pub m0_final_equity: Decimal,
    /// The final equity of the honest model.
    pub m1_final_equity: Decimal,
    /// The part of the optimistic fills that has to come true for nothing to be lost; `None`
    /// where the optimistic model earns nothing.
    pub breakeven_fill_rate: Option<Decimal>,
    /// The two models disagree on whether money is made.
    pub sign_flips: bool,
    pub markout: MarkoutSummary,
    pub stop_exposure: StopExposureSummary,
    pub latency: LatencyStats,
}

/// The largest break-even fill rate that a result may depend on, eight tenths.
pub open spec fn fill_rate_limit() -> Decimal {
    Decimal::of(8, 1)
}

impl EdgeMetrics {
    /// Whether the result can be relied on.
    pub fn is_conclusive(&self) -> (r: bool)
        ensures
            r == (!self.sign_flips && !self.markout.adverse() && (self.breakeven_fill_rate matches
                Some(x) && x@ < fill_rate_limit()@)),
    {
        !self.sign_flips && !self.markout.has_systematic_adverse_selection() && (match self.breakeven_fill_rate {
            Some(x) => x < Decimal::new(8, 1),
            None => false,
        })
    }

    /// The result in a sentence.
    pub open spec fn said(self) -> Seq<char> {
        if self.sign_flips {
            "结论不可信：乐观模型与诚实模型给出相反的盈亏方向。策略依赖不现实的成交假设。"@
        } else if self.markout.adverse() {
            "存在系统性逆向选择：成交后价格平均朝不利方向走。即使零手续费也难以盈利。"@
        } else {
            match self.breakeven_fill_rate {
                Some(x) => if x@ >= fill_rate_limit()@ {
                    "这是成交率赌注而非做市 edge：需要实现乐观模型 80% 以上的成交量才能不亏。"@
                } else {
                    "结论相对稳健：诚实模型下仍盈利，且无系统性逆向选择。"@
                },
                None => "乐观模型下即不盈利，策略本身没有 edge。"@,
            }
        }
    }

    pub fn verdict(&self) -> (r: &'static str)
        ensures
            r@ == self.said(),
    {
        if self.sign_flips {
            "结论不可信：乐观模型与诚实模型给出相反的盈亏方向。策略依赖不现实的成交假设。"
        } else if self.markout.has_systematic_adverse_selection() {
            "存在系统性逆向选择：成交后价格平均朝不利方向走。即使零手续费也难以盈利。"
        } else {
            match self.breakeven_fill_rate {
                Some(x) => if x >= Decimal::new(8, 1) {
                    "这是成交率赌注而非做市 edge：需要实现乐观模型 80% 以上的成交量才能不亏。"
                } else {
                    "结论相对稳健：诚实模型下仍盈利，且无系统性逆向选择。"
                },
                None => "乐观模型下即不盈利，策略本身没有 edge。",
            }
        }
    }
}

/// Where the fee rate came from and what it is worth.
#[derive(Clone, Copy, Debug, PartialEq, Eq)]
pub struct FeeHonesty {
    pub source: FeeSource,
    pub maker_rate_used: Decimal,
    /// What would have been paid at the standard rate.
    pub fee_contribution: Decimal,
    /// The rate is not known from the exchange.
    pub incomplete: bool,
}

/// Gaps in the data. Whatever a run fills across a gap is made up.
#[derive(Clone, Copy, Debug, PartialEq, Eq)]
pub struct GapSummary {
    pub gap_count: usize,
    pub total_missing_secs: i64,
    /// Gaps were allowed, and nothing may be decided by the result where there are any.
    pub allowed_by_flag: bool,
}

/// What a result was computed from.
#[derive(Debug, PartialEq, Eq)]
pub struct BacktestProvenance {
    pub symbol: String,
    pub strategy_id: String,
    pub strategy_params: TextMap<String>,
    pub fill_model: String,
    pub fill_model_optimism: String,
    pub start: Timestamp,
    pub end: Timestamp,
    pub candle_count: usize,
    pub trade_count: usize,
    pub fees: FeeHonesty,
    pub gaps: GapSummary,
}

/// Some amounts, added up as integers.
pub open spec fn sum_int(s: Seq<Decimal>) -> int
    decreases s.len(),
{
    if s.len() == 0 {
        0
    } else {
        sum_int(s.drop_last()) + s.last()@
    }
}

/// Some amounts are added up without rounding.
pub open spec fn totals_exactly(s: Seq<Decimal>) -> bool
    decreases s.len(),
{
    if s.len() == 0 {
        true
    } else {
        totals_exactly(s.drop_last()) && total(s.drop_last()).adds_exactly(s.last())
    }
}

/// A total is the sum of all the amounts.
pub proof fn law_totals_add_up(s: Seq<Decimal>)
    requires
        totals_exactly(s),
    ensures
        total(s)@ == sum_int(s),
    decreases s.len(),
{
    if s.len() == 0 {
        crate::decimal::lemma_of_parts(0, 0);
    } else {
        law_totals_add_up(s.drop_last());
    }
}

/// A mean times the number of amounts is their sum.
pub proof fn law_mean_times_count_is_the_sum(s: Seq<Decimal>)
    requires
        0 < s.len() <= usize::MAX,
        totals_exactly(s),
        total(s).divides_exactly(Decimal::whole(s.len() as int)),
    ensures
        mean(s)@ * s.len() == sum_int(s),
{
    law_totals_add_up(s);
    lemma_ratio(total(s), s.len() as int);
}

/// A quotient by a count, times the count.
proof fn lemma_ratio(a: Decimal, n: int)
    requires
        0 < n <= usize::MAX,
        a.divides_exactly(Decimal::whole(n)),
    ensures
        a.per(Decimal::whole(n))@ * n == a@,
{
    crate::decimal::lemma_of_parts(n, 0);
    crate::decimal::lemma_pow10_28();
    let u = crate::decimal::unit();
    let q = a.per(Decimal::whole(n))@;
    let t = a@;
    assert(q * n == t) by (nonlinear_arith)
        requires
            q * (n * u) == t * u,
            u > 0,
    ;
}

/// The observations that moved against us are those whose markout after five seconds is negative.
pub proof fn law_adverse_observations(s: Seq<MarkoutObservation>)
    ensures
        adverse_count(s) == s.filter(|o: MarkoutObservation| o.markout_5s@ < 0).len(),
        adverse_count(s) <= s.len(),
    decreases s.len(),
{
    reveal(Seq::filter);
    if s.len() > 0 {
        law_adverse_observations(s.drop_last());
    }
}

/// A summary of markouts counts all of them. Each mean times their number is the sum of the
/// markouts of its own horizon, and the adverse part times their number is how many were negative
/// after five seconds. They are adverse where the mean after five seconds is negative.
pub proof fn law_markout_summary(s: Seq<MarkoutObservation>)
    requires
        0 < s.len() <= usize::MAX,
    ensures
        ({
            let m = markout_summary(s);
            let n = s.len() as int;
            let a = s.map_values(|o: MarkoutObservation| o.markout_1s);
            let b = s.map_values(|o: MarkoutObservation| o.markout_5s);
            let c = s.map_values(|o: MarkoutObservation| o.markout_30s);
            let d = s.map_values(|o: MarkoutObservation| o.markout_5m);
            let count = s.filter(|o: MarkoutObservation| o.markout_5s@ < 0).len() as int;
            &&& m.samples == n
            &&& totals_exactly(a) && total(a).divides_exactly(Decimal::whole(n)) ==> m.mean_1s@ * n
                == sum_int(a)
            &&& totals_exactly(b) && total(b).divides_exactly(Decimal::whole(n)) ==> m.mean_5s@ * n
                == sum_int(b) && (m.adverse() <==> sum_int(b) < 0)
            &&& totals_exactly(c) && total(c).divides_exactly(Decimal::whole(n)) ==> m.mean_30s@ * n
                == sum_int(c)
            &&& totals_exactly(d) && total(d).divides_exactly(Decimal::whole(n)) ==> m.mean_5m@ * n
                == sum_int(d)
            &&& Decimal::whole(count).divides_exactly(Decimal::whole(n)) ==> m.adverse_ratio_5s@ * n
                == count * crate::decimal::unit()
        }),
{
    let n = s.len() as int;
    let a = s.map_values(|o: MarkoutObservation| o.markout_1s);
    let b = s.map_values(|o: MarkoutObservation| o.markout_5s);
    let c = s.map_values(|o: MarkoutObservation| o.markout_30s);
    let d = s.map_values(|o: MarkoutObservation| o.markout_5m);
    law_adverse_observations(s);
    let count = adverse_count(s) as int;
    crate::decimal::lemma_of_parts(count, 0);
    crate::decimal::lemma_pow10_28();
    if totals_exactly(a) && total(a).divides_exactly(Decimal::whole(n)) {
        law_mean_times_count_is_the_sum(a);
    }
    if totals_exactly(b) && total(b).divides_exactly(Decimal::whole(n)) {
        law_mean_times_count_is_the_sum(b);
        let m = mean(b)@;
        assert(m < 0 <==> m * n < 0) by (nonlinear_arith)
            requires
                n > 0,
        ;
    }
    if totals_exactly(c) && total(c).divides_exactly(Decimal::whole(n)) {
        law_mean_times_count_is_the_sum(c);
    }
    if totals_exactly(d) && total(d).divides_exactly(Decimal::whole(n)) {
        law_mean_times_count_is_the_sum(d);
    }
    if Decimal::whole(count).divides_exactly(Decimal::whole(n)) {
        lemma_ratio(Decimal::whole(count), n);
    }
}

/// An exposure lasts the whole seconds from when the stop was reached to when it ended, and no time
/// where the times are the wrong way round.
pub proof fn law_exposures_last_whole_seconds(x: StopExposure)
    ensures
        x.resolved_at >= x.triggered_at ==> 1000 * x.seconds() <= x.resolved_at - x.triggered_at
            < 1000 * x.seconds() + 1000,
        x.resolved_at < x.triggered_at ==> x.seconds() == 0,
        0 <= x.seconds() <= i64::MAX,
{
}

proof fn lemma_number_placed(s: Seq<i64>, x: i64)
    ensures
        with_number(s, x).to_multiset() == s.to_multiset().insert(x),
    decreases s.len(),
{
    broadcast use vstd::seq_lib::group_to_multiset_ensures;

    if s.len() > 0 && s.last() > x {
        let rest = s.drop_last();
        lemma_number_placed(rest, x);
        assert(rest.push(s.last()) =~= s);
        assert(s.to_multiset() == rest.to_multiset().insert(s.last()));
        assert(with_number(s, x).to_multiset() =~= s.to_multiset().insert(x));
    }
}

/// The durations are those of the exposures, each as often as it occurs.
pub proof fn law_durations_are_of_the_exposures(s: Seq<StopExposure>)
    ensures
        durations_ascending(s).to_multiset() == s.map_values(
            |e: StopExposure| e.seconds() as i64,
        ).to_multiset(),
    decreases s.len(),
{
    broadcast use vstd::seq_lib::group_to_multiset_ensures;

    let f = |e: StopExposure| e.seconds() as i64;
    if s.len() > 0 {
        let rest = s.drop_last();
        law_durations_are_of_the_exposures(rest);
        lemma_number_placed(durations_ascending(rest), s.last().seconds() as i64);
        assert(s.map_values(f) =~= rest.map_values(f).push(f(s.last())));
    } else {
        assert(s.map_values(f) =~= Seq::<i64>::empty());
        assert(durations_ascending(s) =~= Seq::<i64>::empty());
    }
}

/// The exposures that were filled in the end, and those that were liquidated.
pub proof fn law_exposures_are_counted_by_their_end(s: Seq<StopExposure>)
    ensures
        filled_count(s) == s.filter(
            |e: StopExposure| e.resolution is StopFilled || e.resolution is FilledLater,
        ).len(),
        liquidated_count(s) == s.filter(|e: StopExposure| e.resolution is Liquidated).len(),
        filled_count(s) + liquidated_count(s) <= s.len(),
    decreases s.len(),
{
    reveal(Seq::filter);
    if s.len() > 0 {
        law_exposures_are_counted_by_their_end(s.drop_last());
    }
}

/// A summary of exposures: the longest is at least as long as every one and is one of them; no more
/// than half of them are shorter than the median; the parts times the number are how many were
/// filled and liquidated; the mean slippage times the number is the sum.
pub proof fn law_exposure_summary(s: Seq<StopExposure>)
    requires
        0 < s.len() <= usize::MAX,
    ensures
        ({
            let x = exposure_summary(s);
            let n = s.len() as int;
            let d = durations_ascending(s);
            let slips = s.map_values(|e: StopExposure| e.slippage);
            &&& x.events == n
            &&& forall|i: int| 0 <= i < s.len() ==> (#[trigger] s[i]).seconds() <= x.max_exposure_secs
            &&& exists|i: int| 0 <= i < s.len() && (#[trigger] s[i]).seconds() == x.max_exposure_secs
            &&& forall|i: int| 0 <= i < n / 2 ==> #[trigger] d[i] <= x.median_exposure_secs
            &&& forall|i: int| n / 2 <= i < n ==> #[trigger] d[i] >= x.median_exposure_secs
            &&& Decimal::whole(filled_count(s) as int).divides_exactly(Decimal::whole(n))
                ==> x.filled_ratio@ * n == filled_count(s) * crate::decimal::unit()
            &&& Decimal::whole(liquidated_count(s) as int).divides_exactly(Decimal::whole(n))
                ==> x.liquidated_ratio@ * n == liquidated_count(s) * crate::decimal::unit()
            &&& totals_exactly(slips) && total(slips).divides_exactly(Decimal::whole(n))
                ==> x.mean_slippage@ * n == sum_int(slips)
        }),
{
    broadcast use vstd::seq_lib::group_to_multiset_ensures;

    let x = exposure_summary(s);
    let n = s.len() as int;
    let d = durations_ascending(s);
    let f = |e: StopExposure| e.seconds() as i64;
    let all = s.map_values(f);
    let slips = s.map_values(|e: StopExposure| e.slippage);
    law_durations_ascend(s);
    law_durations_are_of_the_exposures(s);
    law_exposures_are_counted_by_their_end(s);
    assert(n / 2 < n && 0 <= n / 2);
    assert(d.last() == d[n - 1]);
    assert forall|i: int| 0 <= i < s.len() implies (#[trigger] s[i]).seconds()
        <= x.max_exposure_secs by {
        law_exposures_last_whole_seconds(s[i]);
        let v = all[i];
        assert(all.contains(v));
        assert(all.to_multiset().count(v) > 0);
        assert(d.contains(v));
        let k = choose|k: int| 0 <= k < d.len() && d[k] == v;
        assert(d[k] <= d[n - 1]);
    }
    let v = d[n - 1];
    assert(d.contains(v));
    assert(d.to_multiset().count(v) > 0);
    assert(all.contains(v));
    let k = choose|k: int| 0 <= k < all.len() && all[k] == v;
    law_exposures_last_whole_seconds(s[k]);
    assert(s[k].seconds() == x.max_exposure_secs);
    crate::decimal::lemma_of_parts(filled_count(s) as int, 0);
    crate::decimal::lemma_of_parts(liquidated_count(s) as int, 0);
    crate::decimal::lemma_pow10_28();
    if Decimal::whole(filled_count(s) as int).divides_exactly(Decimal::whole(n)) {
        lemma_ratio(Decimal::whole(filled_count(s) as int), n);
    }
    if Decimal::whole(liquidated_count(s) as int).divides_exactly(Decimal::whole(n)) {
        lemma_ratio(Decimal::whole(liquidated_count(s) as int), n);
    }
    if totals_exactly(slips) && total(slips).divides_exactly(Decimal::whole(n)) {
        law_mean_times_count_is_the_sum(slips);
    }
}

/// A result is called robust exactly where both models agree on whether money is made, the price
/// does not move against us on average within five seconds, and less than eight tenths of the
/// optimistic fills have to come true.
pub proof fn law_robust_results(m: EdgeMetrics)
    ensures
        m.said() == "结论相对稳健：诚实模型下仍盈利，且无系统性逆向选择。"@ <==> !m.sign_flips
            && !(m.markout.samples > 0 && m.markout.mean_5s@ < 0) && (m.breakeven_fill_rate matches
            Some(x) && 10 * x@ < 8 * crate::decimal::unit()),
{
    reveal_strlit("结论不可信：乐观模型与诚实模型给出相反的盈亏方向。策略依赖不现实的成交假设。");
    reveal_strlit("存在系统性逆向选择：成交后价格平均朝不利方向走。即使零手续费也难以盈利。");
    reveal_strlit("这是成交率赌注而非做市 edge：需要实现乐观模型 80% 以上的成交量才能不亏。");
    reveal_strlit("结论相对稳健：诚实模型下仍盈利，且无系统性逆向选择。");
    reveal_strlit("乐观模型下即不盈利，策略本身没有 edge。");
    crate::decimal::lemma_of_parts(8, 1);
    assert(crate::decimal::pow10(27) == 1000000000000000000000000000) by {
        reveal_with_fuel(crate::decimal::pow10, 28);
    }
    let robust = "结论相对稳健：诚实模型下仍盈利，且无系统性逆向选择。"@;
    assert(robust[2] == '相');
    assert("结论不可信：乐观模型与诚实模型给出相反的盈亏方向。策略依赖不现实的成交假设。"@[2] == '不');
    assert("存在系统性逆向选择：成交后价格平均朝不利方向走。即使零手续费也难以盈利。"@[2] == '系');
    assert("这是成交率赌注而非做市 edge：需要实现乐观模型 80% 以上的成交量才能不亏。"@[2] == '成');
    assert("乐观模型下即不盈利，策略本身没有 edge。"@[2] == '模');
}

} // verus!
