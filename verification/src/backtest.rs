//! Running a strategy over recorded events.
//!
//! The engine computes no price of its own: prices come from the precision rules and the
//! planner, fills from the fill model, and what to do from the strategy. It keeps at most one
//! entry or one position at a time.

use vstd::prelude::*;
use crate::clock::{after, since, Timestamp};
use crate::decimal::Decimal;
use crate::fill::{ContextModel, FillContext, FillModel, Optimism};
use crate::instrument::{FeeSource, Instrument};
use crate::keyed::TextMap;
use crate::liquidity::{Trade, TradeTape};
use crate::market::{Candle, MarketEvent};
use crate::metrics::{
    summarize_markouts, summarize_stop_exposures, BacktestProvenance, EdgeMetrics, FeeHonesty,
    GapSummary, LatencyStats, MarkoutObservation, MarkoutSide, StopExposure, StopResolution,
};
use crate::money::{Price, Qty};
use crate::order::{
    following, ClientOrderId, Order, OrderModel, OrderPurpose, OrderState, Side, TimeInForce,
};
use crate::precision::PriceRole;
use crate::protection::{
    target_price, unit_gain, ActionModel, EntryFill, ProtectionAction, ProtectionPlan,
    ProtectionPlanner, TpModel, TpPlan,
};
use crate::risk::{check_entry, RiskLimits, RiskVerdict};
use crate::state::{
    BookModel, EventModel, ExecEvent, Fill, FillReport, OrderBookState, Position,
};
use crate::strategy::{
    resolve_size, snapshot, EnterRequest, MarketView, ParameterSpec, SizeHint, StandDownReason,
    Strategy, StrategyIntent,
};
use crate::text::joined;

verus! {

/// What a run is set up with.
pub struct BacktestConfig {
    pub instrument: Instrument,
    pub limits: RiskLimits,
    pub initial_equity: Decimal,
    /// How many closed candles the strategy looks back on.
    pub lookback: usize,
    /// How long an order is assumed to take to the exchange. A post-only order is refused where
    /// the price moves past it in that time.
    pub assumed_latency_ms: u64,
    pub allow_gaps: bool,
    pub fee_source: FeeSource,
    /// The maker rate outside of promotions.
    pub standard_maker_rate: Decimal,
}

/// A completed trade.
#[derive(Clone, Copy, Debug, PartialEq, Eq)]
pub struct TradeRecord {
    pub entry_at: Timestamp,
    pub exit_at: Timestamp,
    pub side: Side,
    pub quantity: Decimal,
    pub entry_price: Decimal,
    pub exit_price: Decimal,
    pub fee: Decimal,
    pub exit_reason: ExitKind,
    /// The result after the fee of the exit.
    pub pnl: Decimal,
}

/// How a trade ended.
#[derive(Clone, Copy, Debug, PartialEq, Eq, Structural)]
pub enum ExitKind {
    TakeProfit,
    StopLoss,
    ForcedAtEnd,
}

/// A point of the equity curve.
#[derive(Clone, Copy, Debug, PartialEq, Eq)]
pub struct EquityPoint {
    pub at: Timestamp,
    pub equity: Decimal,
}

/// What a run gave.
pub struct BacktestResult {
    pub provenance: BacktestProvenance,
    pub metrics: EdgeMetrics,
    pub trades: Vec<TradeRecord>,
    pub equity_curve: Vec<EquityPoint>,
    pub markouts: Vec<MarkoutObservation>,
    pub stop_exposures: Vec<StopExposure>,
    /// How often nothing was done, by the message of the reason.
    pub rejections: TextMap<usize>,
    pub latency: LatencyStats,
    /// The final equity had the standard rate been paid.
    pub final_equity_at_standard_fee: Decimal,
}

/// An entry that rests.
pub struct PendingEntry {
    pub order: Order,
    pub plan: ProtectionPlan,
    pub tp: TpPlan,
    pub placed_at: Timestamp,
    pub valid_until: Timestamp,
}

/// A [`PendingEntry`] with its texts and lists as sequences.
pub struct PendingModel {
    pub order: OrderModel,
    pub plan: ProtectionPlan,
    pub tp: TpModel,
    pub placed_at: Timestamp,
    pub valid_until: Timestamp,
}

impl View for PendingEntry {
    type V = PendingModel;

    open spec fn view(&self) -> PendingModel {
        PendingModel {
            order: self.order@,
            plan: self.plan,
            tp: self.tp@,
            placed_at: self.placed_at,
            valid_until: self.valid_until,
        }
    }
}

/// A position that is open.
pub struct OpenPosition {
    pub side: Side,
    pub quantity: Decimal,
    pub entry_price: Decimal,
    pub opened_at: Timestamp,
    pub plan: ProtectionPlan,
    pub tp: TpPlan,
    /// How many targets are filled.
    pub rungs_done: usize,
    pub high_since: Decimal,
    pub low_since: Decimal,
    /// When the stop was reached, while it is not filled.
    pub stop_triggered_at: Option<Timestamp>,
}

/// An [`OpenPosition`] with its lists as sequences.
pub struct OpenModel {
    pub side: Side,
    pub quantity: Decimal,
    pub entry_price: Decimal,
    pub opened_at: Timestamp,
    pub plan: ProtectionPlan,
    pub tp: TpModel,
    pub rungs_done: usize,
    pub high_since: Decimal,
    pub low_since: Decimal,
    pub stop_triggered_at: Option<Timestamp>,
}

impl View for OpenPosition {
    type V = OpenModel;

    open spec fn view(&self) -> OpenModel {
        OpenModel {
            side: self.side,
            quantity: self.quantity,
            entry_price: self.entry_price,
            opened_at: self.opened_at,
            plan: self.plan,
            tp: self.tp@,
            rungs_done: self.rungs_done,
            high_since: self.high_since,
            low_since: self.low_since,
            stop_triggered_at: self.stop_triggered_at,
        }
    }
}

impl OpenModel {
    /// The price of the stop.
    pub open spec fn stop_level(self, instrument: Instrument) -> Decimal {
        instrument.precision.priced_or_raw(
            self.side.flipped(),
            self.plan.stop.level(self.entry_price, self.side),
            PriceRole::StopLoss,
        )
    }

    /// The price of the next target.
    pub open spec fn target_level(self, instrument: Instrument) -> Option<Decimal> {
        if self.rungs_done < self.tp.pairs().len() {
            Some(
                instrument.precision.priced_or_raw(
            self.side.flipped(),
                    self.side.target(self.entry_price, self.tp.pairs()[self.rungs_done as int].0),
                    PriceRole::TakeProfit,
                ),
            )
        } else {
            None
        }
    }

    /// Whether the price has been at a level that closes the position at a loss.
    pub open spec fn fell_to(self, level: Decimal) -> bool {
        match self.side {
            Side::Buy => self.low_since@ <= level@,
            Side::Sell => self.high_since@ >= level@,
        }
    }

    /// Whether the price has been at a level that closes the position at a profit.
    pub open spec fn rose_to(self, level: Decimal) -> bool {
        match self.side {
            Side::Buy => self.high_since@ >= level@,
            Side::Sell => self.low_since@ <= level@,
        }
    }

    /// The exit that is due: the stop before the target where both have been reached.
    pub open spec fn due(self, instrument: Instrument) -> Option<(ExitKind, Decimal)> {
        let stop = self.stop_level(instrument);
        if self.fell_to(stop) {
            Some((ExitKind::StopLoss, stop))
        } else {
            match self.target_level(instrument) {
                Some(tp) => if self.rose_to(tp) {
                    Some((ExitKind::TakeProfit, tp))
                } else {
                    None
                },
                None => None,
            }
        }
    }

    /// The extremes after a trade.
    pub open spec fn seen(self, price: Decimal) -> OpenModel {
        OpenModel {
            high_since: if price@ > self.high_since@ {
                price
            } else {
                self.high_since
            },
            low_since: if price@ < self.low_since@ {
                price
            } else {
                self.low_since
            },
            ..self
        }
    }
}

/// A count with one more, held at the largest.
pub open spec fn one_more(n: usize) -> usize {
    if n == usize::MAX {
        n
    } else {
        (n + 1) as usize
    }
}

fn bumped(n: usize) -> (r: usize)
    ensures
        r == one_more(n),
{
    if n == usize::MAX {
        n
    } else {
        n + 1
    }
}

/// Counts with one more under a key.
pub open spec fn counted(m: Map<Seq<char>, usize>, key: Seq<char>) -> Map<Seq<char>, usize> {
    m.insert(
        key,
        one_more(
            if m.dom().contains(key) {
                m[key]
            } else {
                0
            },
        ),
    )
}

/// The state of a run.
pub struct SimModel {
    pub equity: Decimal,
    pub curve: Seq<EquityPoint>,
    pub pending: Option<PendingModel>,
    pub position: Option<OpenModel>,
    pub trades: Seq<TradeRecord>,
    pub markouts: Seq<MarkoutObservation>,
    pub stop_exposures: Seq<StopExposure>,
    pub rejections: Map<Seq<char>, usize>,
    pub latency: LatencyStats,
    pub fees: Decimal,
    pub standard_fees: Decimal,
    pub candles: Seq<Candle>,
    pub order_seq: u64,
    pub used_signals: Seq<Timestamp>,
    /// The orders and positions of the life cycle.
    pub book: BookModel,
}

/// How the price moved after a fill: the first price after one, five, thirty and three hundred
/// seconds, or the price of the fill where there is none.
pub open spec fn markout_of(
    tape: Seq<Trade>,
    at: Timestamp,
    price: Decimal,
    side: Side,
) -> MarkoutObservation {
    MarkoutObservation {
        at,
        price,
        side: match side {
            Side::Buy => MarkoutSide::Long,
            Side::Sell => MarkoutSide::Short,
        },
        markout_1s: side.gain(price, price_later(tape, at, 1000, price)),
        markout_5s: side.gain(price, price_later(tape, at, 5000, price)),
        markout_30s: side.gain(price, price_later(tape, at, 30000, price)),
        markout_5m: side.gain(price, price_later(tape, at, 300000, price)),
    }
}

/// The first price some time after another, or a given one.
pub open spec fn price_later(tape: Seq<Trade>, at: Timestamp, ms: int, fallback: Decimal) -> Decimal {
    match crate::liquidity::first_price(tape, crate::clock::moved(at as int, ms) as i64) {
        Some(p) => p.0,
        None => fallback,
    }
}

fn later_price(tape: &TradeTape, at: Timestamp, ms: i64, fallback: Decimal) -> (r: Decimal)
    ensures
        r == price_later(tape@, at, ms as int, fallback),
{
    match tape.first_price_after(after(at, ms)) {
        Some(p) => p.get(),
        None => fallback,
    }
}

/// Observes how the price moved after a fill.
pub fn compute_markout(
    tape: &TradeTape,
    fill_at: Timestamp,
    fill_price: Decimal,
    side: Side,
) -> (r: Option<MarkoutObservation>)
    ensures
        r == Some(markout_of(tape@, fill_at, fill_price, side)),
{
    Some(
        MarkoutObservation {
            at: fill_at,
            price: fill_price,
            side: match side {
                Side::Buy => MarkoutSide::Long,
                Side::Sell => MarkoutSide::Short,
            },
            markout_1s: unit_gain(side, fill_price, later_price(tape, fill_at, 1000, fill_price)),
            markout_5s: unit_gain(side, fill_price, later_price(tape, fill_at, 5000, fill_price)),
            markout_30s: unit_gain(side, fill_price, later_price(tape, fill_at, 30000, fill_price)),
            markout_5m: unit_gain(side, fill_price, later_price(tape, fill_at, 300000, fill_price)),
        },
    )
}

impl SimModel {
    /// Before the first event.
    pub open spec fn start(config: BacktestConfig, at: Timestamp) -> SimModel {
        SimModel {
            equity: config.initial_equity,
            curve: seq![EquityPoint { at, equity: config.initial_equity }],
            pending: None,
            position: None,
            trades: Seq::empty(),
            markouts: Seq::empty(),
            stop_exposures: Seq::empty(),
            rejections: Map::empty(),
            latency: LatencyStats {
                attempts: 0,
                rejected_post_only: 0,
                assumed_latency_ms: config.assumed_latency_ms,
            },
            fees: Decimal::whole(0),
            standard_fees: Decimal::whole(0),
            candles: Seq::empty(),
            order_seq: 0,
            used_signals: Seq::empty(),
            book: BookModel::empty(),
        }
    }

    /// After the window of closed candles has taken up an event. It keeps two more candles than
    /// are looked back on.
    pub open spec fn with_candle(self, lookback: nat, event: MarketEvent) -> SimModel {
        match event {
            MarketEvent::Kline(c) => if c.closed {
                let all = self.candles.push(c);
                SimModel {
                    candles: if all.len() > lookback + 2 {
                        all.skip(all.len() - (lookback + 2))
                    } else {
                        all
                    },
                    ..self
                }
            } else {
                self
            },
            _ => self,
        }
    }

    /// After the extremes of the position have taken up an event.
    pub open spec fn with_extremes(self, event: MarketEvent) -> SimModel {
        match (event, self.position) {
            (MarketEvent::AggTrade(t), Some(p)) => SimModel {
                position: Some(p.seen(t.price.0)),
                ..self
            },
            _ => self,
        }
    }

    /// The life cycle after an entry was registered when it was placed, accepted, and filled.
    pub open spec fn book_with_entry(
        self,
        config: BacktestConfig,
        e: PendingModel,
        price: Decimal,
        quantity: Decimal,
        fee: Decimal,
        now: Timestamp,
    ) -> BookModel {
        self.book.registered(e.order, e.placed_at).0.applied(
            EventModel::Accepted {
                client_id: e.order.client_id,
                exchange_id: "bt-"@ + e.order.client_id,
            },
            now,
        ).0.applied(
            EventModel::Filled(
                FillReport {
                    trade_id: "bt-fill-"@ + e.order.client_id,
                    client_id: e.order.client_id,
                    quantity: Qty(quantity),
                    price: Price(price),
                    fee,
                    fee_asset: config.instrument.settlement_asset@,
                    at: now,
                },
            ),
            now,
        ).0
    }

    /// What the fill model is shown of the entry that rests: the trades from its placing up to now.
    pub open spec fn entry_context(
        e: PendingModel,
        config: BacktestConfig,
        tape: Seq<Trade>,
        now: Timestamp,
    ) -> ContextModel {
        ContextModel {
            order: e.order,
            trades: crate::liquidity::through(tape, e.placed_at, now),
            placed_at: e.placed_at,
            tick_size: config.instrument.precision.tick_size,
        }
    }

    /// What the fill model is shown of an exit: the trades from the opening of the position up to
    /// now.
    pub open spec fn exit_context(
        self,
        pos: OpenModel,
        kind: ExitKind,
        price: Decimal,
        config: BacktestConfig,
        tape: Seq<Trade>,
        now: Timestamp,
    ) -> ContextModel {
        ContextModel {
            order: self.exit_order(config, pos, kind, price),
            trades: crate::liquidity::through(tape, pos.opened_at, now),
            placed_at: pos.opened_at,
            tick_size: config.instrument.precision.tick_size,
        }
    }

    /// After the entry that rests was filled, ran out, or neither.
    pub open spec fn with_entry<M: FillModel>(
        self,
        config: BacktestConfig,
        tape: Seq<Trade>,
        model: &M,
        now: Timestamp,
    ) -> SimModel {
        match self.pending {
            None => self,
            Some(e) => {
                let outcome = model.outcome(Self::entry_context(e, config, tape, now));
                if now >= e.valid_until {
                    SimModel { pending: None, ..self }
                } else if outcome is Unfilled {
                    self
                } else {
                    let qty = outcome.of_order(e.order);
                    let px = outcome.price_else(e.order.limit_price.0);
                    let fee = px.prod(qty).prod(config.instrument.fees.maker_rate);
                    SimModel {
                        pending: None,
                        position: Some(
                            OpenModel {
                                side: e.order.side,
                                quantity: qty,
                                entry_price: px,
                                opened_at: now,
                                plan: e.plan,
                                tp: e.tp,
                                rungs_done: 0,
                                high_since: px,
                                low_since: px,
                                stop_triggered_at: None,
                            },
                        ),
                        equity: self.equity.less(fee),
                        fees: self.fees.sum(fee),
                        standard_fees: self.standard_fees.sum(
                            px.prod(qty).prod(config.standard_maker_rate),
                        ),
                        latency: LatencyStats {
                            attempts: one_more(self.latency.attempts),
                            ..self.latency
                        },
                        used_signals: self.used_signals.push(e.placed_at),
                        book: self.book_with_entry(config, e, px, qty, fee, now),
                        ..self
                    }
                }
            },
        }
    }

    /// The order that closes the position.
    pub open spec fn exit_order(
        self,
        config: BacktestConfig,
        pos: OpenModel,
        kind: ExitKind,
        price: Decimal,
    ) -> OrderModel {
        OrderModel {
            client_id: ClientOrderId::numbered("bt-exit"@, self.order_seq as nat),
            symbol: config.instrument.symbol@,
            purpose: match kind {
                ExitKind::StopLoss => OrderPurpose::StopLoss,
                _ => OrderPurpose::TakeProfit,
            },
            side: pos.side.flipped(),
            quantity: Qty(pos.quantity),
            limit_price: Price(price),
            tif: TimeInForce::PostOnly,
            parent: None,
        }
    }

    /// After the exit that is due was filled or not. A stop that is not filled leaves the
    /// position without protection, and when that began is noted.
    pub open spec fn with_exit<M: FillModel>(
        self,
        config: BacktestConfig,
        tape: Seq<Trade>,
        model: &M,
        now: Timestamp,
    ) -> SimModel {
        match self.position {
            None => self,
            Some(pos) => match pos.due(config.instrument) {
                None => self,
                Some((kind, ideal)) => {
                    let order = self.exit_order(config, pos, kind, ideal);
                    let outcome = model.outcome(
                        self.exit_context(pos, kind, ideal, config, tape, now),
                    );
                    let tried = SimModel { order_seq: crate::order::next_seq(self.order_seq), ..self };
                    if outcome is Unfilled {
                        if kind is StopLoss && pos.stop_triggered_at is None {
                            let early = crate::liquidity::between(tape, pos.opened_at, now);
                            SimModel {
                                position: Some(
                                    OpenModel {
                                        stop_triggered_at: Some(
                                            if early.len() > 0 {
                                                early[0].at
                                            } else {
                                                now
                                            },
                                        ),
                                        ..pos
                                    },
                                ),
                                ..tried
                            }
                        } else {
                            tried
                        }
                    } else {
                        let px = outcome.price_else(ideal);
                        let qty = outcome.of_order(order);
                        let fee = px.prod(qty).prod(config.instrument.fees.maker_rate);
                        let gross = pos.side.gain(pos.entry_price, px).prod(qty);
                        SimModel {
                            position: None,
                            equity: self.equity.sum(gross.less(fee)),
                            fees: self.fees.sum(fee),
                            standard_fees: self.standard_fees.sum(
                                px.prod(qty).prod(config.standard_maker_rate),
                            ),
                            trades: self.trades.push(
                                TradeRecord {
                                    entry_at: pos.opened_at,
                                    exit_at: now,
                                    side: pos.side,
                                    quantity: qty,
                                    entry_price: pos.entry_price,
                                    exit_price: px,
                                    fee,
                                    exit_reason: kind,
                                    pnl: gross.less(fee),
                                },
                            ),
                            markouts: self.markouts.push(markout_of(tape, now, px, pos.side)),
                            stop_exposures: match pos.stop_triggered_at {
                                Some(triggered_at) => self.stop_exposures.push(
                                    StopExposure {
                                        triggered_at,
                                        resolved_at: now,
                                        resolution: StopResolution::FilledLater,
                                        resolved_price: px,
                                        stop_price: ideal,
                                        slippage: px.less(ideal).unsigned(),
                                    },
                                ),
                                None => self.stop_exposures,
                            },
                            ..tried
                        }
                    }
                },
            },
        }
    }

    /// Whether the strategy is asked: on a closed candle, with neither an entry nor a position.
    pub open spec fn asks(self, event: MarketEvent) -> bool {
        self.pending is None && self.position is None && (event matches MarketEvent::Kline(c)
            && c.closed)
    }

    /// With one more thing not done for a reason.
    pub open spec fn refused(self, reason: StandDownReason) -> SimModel {
        SimModel { rejections: counted(self.rejections, reason.said()), ..self }
    }

    /// Whether the price reaches an entry while it is on its way.
    pub open spec fn crossed_on_the_way(
        config: BacktestConfig,
        tape: Seq<Trade>,
        now: Timestamp,
        side: Side,
        price: Decimal,
    ) -> bool {
        let during = crate::liquidity::between(
            tape,
            now,
            crate::clock::moved(now as int, latency_of(config.assumed_latency_ms)) as i64,
        );
        exists|i: int|
            0 <= i < during.len() && crate::fill::reaches(
                side,
                (#[trigger] during[i]).price.0,
                price,
            )
    }

    /// After an entry that passed the risk checks was sent.
    pub open spec fn sent(
        self,
        config: BacktestConfig,
        tape: Seq<Trade>,
        now: Timestamp,
        req: EnterRequest,
        price: Decimal,
    ) -> SimModel {
        let tried = SimModel {
            latency: LatencyStats { attempts: one_more(self.latency.attempts), ..self.latency },
            ..self
        };
        if Self::crossed_on_the_way(config, tape, now, req.side, price) {
            SimModel {
                latency: LatencyStats {
                    rejected_post_only: one_more(self.latency.rejected_post_only),
                    ..tried.latency
                },
                ..tried
            }
        } else {
            match req.size.resolved(Price(price), self.equity, config.instrument.precision) {
                None => tried.refused(StandDownReason::InsufficientEquity),
                Some(quantity) => SimModel {
                    order_seq: crate::order::next_seq(self.order_seq),
                    pending: Some(
                        PendingModel {
                            order: OrderModel {
                                client_id: ClientOrderId::numbered(
                                    "bt-entry"@,
                                    crate::order::next_seq(self.order_seq) as nat,
                                ),
                                symbol: config.instrument.symbol@,
                                purpose: OrderPurpose::Entry,
                                side: req.side,
                                quantity,
                                limit_price: Price(price),
                                tif: TimeInForce::PostOnly,
                                parent: None,
                            },
                            plan: req.protection,
                            tp: req.take_profit@,
                            placed_at: now,
                            valid_until: req.valid_until,
                        },
                    ),
                    ..tried
                },
            }
        }
    }

    /// After a wish to enter was weighed.
    pub open spec fn weighed(
        self,
        config: BacktestConfig,
        tape: Seq<Trade>,
        now: Timestamp,
        req: EnterRequest,
    ) -> SimModel {
        if self.used_signals.contains(now) {
            self.refused(StandDownReason::SignalAlreadyUsed)
        } else {
            let priced = config.instrument.precision.priced(
                req.side,
                req.entry,
                PriceRole::PassiveEntry,
            );
            let noted = if priced is Err {
                self.refused(StandDownReason::StopTooWide)
            } else {
                self
            };
            match config.limits.verdict(
                config.instrument,
                req.side,
                req.entry,
                req.stop,
                first_target(req),
                leverage_of(req.size),
            ) {
                RiskVerdict::Reject(reason) => noted.refused(reason),
                RiskVerdict::Pass => match priced {
                    Ok(price) => noted.sent(config, tape, now, req, price.0),
                    Err(_) => noted,
                },
            }
        }
    }

    /// After the strategy has answered.
    pub open spec fn answered(
        self,
        config: BacktestConfig,
        tape: Seq<Trade>,
        now: Timestamp,
        answer: Option<StrategyIntent>,
    ) -> SimModel {
        match answer {
            None => self,
            Some(StrategyIntent::StandDown { reason }) => self.refused(reason),
            Some(StrategyIntent::ExitNow { .. }) => SimModel { pending: None, ..self },
            Some(StrategyIntent::Enter(req)) => self.weighed(config, tape, now, *req),
        }
    }

    /// After the equity curve was sampled: at most once an hour.
    pub open spec fn sampled(self, now: Timestamp) -> SimModel {
        if self.curve.len() > 0 && now - self.curve.last().at >= 3600000 {
            SimModel { curve: self.curve.push(EquityPoint { at: now, equity: self.equity }), ..self }
        } else {
            self
        }
    }

    /// After everything that an event does before the strategy is asked.
    pub open spec fn advanced<M: FillModel>(
        self,
        config: BacktestConfig,
        tape: Seq<Trade>,
        model: &M,
        event: MarketEvent,
    ) -> SimModel {
        let now = event.time() as i64;
        self.with_candle(config.lookback as nat, event).with_extremes(event).with_entry(
            config,
            tape,
            model,
            now,
        ).with_exit(config, tape, model, now)
    }

    /// After an event, given what the strategy answers where it is asked.
    pub open spec fn after_event<M: FillModel>(
        self,
        config: BacktestConfig,
        tape: Seq<Trade>,
        model: &M,
        event: MarketEvent,
        answer: Option<StrategyIntent>,
    ) -> SimModel {
        let now = event.time() as i64;
        let s = self.advanced(config, tape, model, event);
        let t = if s.asks(event) {
            s.answered(config, tape, now, answer)
        } else {
            s
        };
        t.sampled(now)
    }

    /// After the first `n` events.
    pub open spec fn after_events<M: FillModel>(
        config: BacktestConfig,
        events: Seq<MarketEvent>,
        tape: Seq<Trade>,
        model: &M,
        answers: Seq<Option<StrategyIntent>>,
        idle: Timestamp,
        n: nat,
    ) -> SimModel
        decreases n,
    {
        if n == 0 {
            SimModel::start(config, first_time(events, idle))
        } else {
            Self::after_events(
                config,
                events,
                tape,
                model,
                answers,
                idle,
                (n - 1) as nat,
            ).after_event(config, tape, model, events[n - 1], answers[n - 1])
        }
    }

    /// After a position that is still open was closed at the last price.
    pub open spec fn wound_up(
        self,
        config: BacktestConfig,
        events: Seq<MarketEvent>,
        end: Timestamp,
    ) -> SimModel {
        let closed = match self.position {
            None => self,
            Some(pos) => {
                let px = last_price(events, pos.entry_price);
                let gross = pos.side.gain(pos.entry_price, px).prod(pos.quantity);
                let fee = px.prod(pos.quantity).prod(config.instrument.fees.maker_rate);
                let stop = pos.plan.stop.level(pos.entry_price, pos.side);
                SimModel {
                    position: None,
                    equity: self.equity.sum(gross.less(fee)),
                    fees: self.fees.sum(fee),
                    standard_fees: self.standard_fees.sum(
                        px.prod(pos.quantity).prod(config.standard_maker_rate),
                    ),
                    trades: self.trades.push(
                        TradeRecord {
                            entry_at: pos.opened_at,
                            exit_at: end,
                            side: pos.side,
                            quantity: pos.quantity,
                            entry_price: pos.entry_price,
                            exit_price: px,
                            fee,
                            exit_reason: ExitKind::ForcedAtEnd,
                            pnl: gross.less(fee),
                        },
                    ),
                    stop_exposures: match pos.stop_triggered_at {
                        Some(triggered_at) => self.stop_exposures.push(
                            StopExposure {
                                triggered_at,
                                resolved_at: end,
                                resolution: StopResolution::StillOpenAtEnd,
                                resolved_price: px,
                                stop_price: stop,
                                slippage: px.less(stop).unsigned(),
                            },
                        ),
                        None => self.stop_exposures,
                    },
                    ..self
                }
            },
        };
        SimModel {
            curve: closed.curve.push(EquityPoint { at: end, equity: closed.equity }),
            ..closed
        }
    }
}

/// A latency as a length of time.
pub open spec fn latency_of(ms: u64) -> int {
    if ms > i64::MAX {
        i64::MAX as int
    } else {
        ms as int
    }
}

/// The price of the first target of a wish, or its entry where it has none.
pub open spec fn first_target(req: EnterRequest) -> Decimal {
    if req.take_profit@.pairs().len() > 0 {
        req.side.target(req.entry, req.take_profit@.pairs()[0].0)
    } else {
        req.entry
    }
}

/// The leverage of a size, one where it names none.
pub open spec fn leverage_of(size: SizeHint) -> Decimal {
    match size {
        SizeHint::EquityFraction { leverage, .. } => leverage,
        SizeHint::Fixed(_) => Decimal::whole(1),
    }
}

/// When the first event was, or another time where there is none.
pub open spec fn first_time(events: Seq<MarketEvent>, idle: Timestamp) -> Timestamp {
    if events.len() > 0 {
        events[0].time() as i64
    } else {
        idle
    }
}

/// When the last event was, or another time where there is none.
pub open spec fn last_time(events: Seq<MarketEvent>, idle: Timestamp) -> Timestamp {
    if events.len() > 0 {
        events.last().time() as i64
    } else {
        idle
    }
}

/// The price of the last trade among some events, or another where there is none.
pub open spec fn last_price(events: Seq<MarketEvent>, fallback: Decimal) -> Decimal
    decreases events.len(),
{
    if events.len() == 0 {
        fallback
    } else {
        match events.last() {
            MarketEvent::AggTrade(t) => t.price.0,
            _ => last_price(events.drop_last(), fallback),
        }
    }
}

/// How many of some events are candles.
pub open spec fn candle_count(events: Seq<MarketEvent>) -> nat
    decreases events.len(),
{
    if events.len() == 0 {
        0
    } else {
        candle_count(events.drop_last()) + (if events.last() is Kline {
            1nat
        } else {
            0nat
        })
    }
}

/// The last closed candle among some events.
pub open spec fn last_closed(events: Seq<MarketEvent>) -> Option<Candle>
    decreases events.len(),
{
    if events.len() == 0 {
        None
    } else {
        match events.last() {
            MarketEvent::Kline(c) if c.closed => Some(c),
            _ => last_closed(events.drop_last()),
        }
    }
}

/// How much time is missing between the last closed candle before an event and the event, where
/// that is a closed candle as well: from the end of the one to the start of the other.
pub open spec fn missing_before(before: Seq<MarketEvent>, event: MarketEvent) -> int {
    match (last_closed(before), event) {
        (Some(a), MarketEvent::Kline(b)) if b.closed => {
            let ms = crate::clock::moved(
                b.open_time as int,
                -crate::clock::moved(a.open_time as int, 60000),
            );
            if ms > 0 {
                ms
            } else {
                0
            }
        },
        _ => 0,
    }
}

/// How many gaps there are between the closed candles of some events.
pub open spec fn gap_count(events: Seq<MarketEvent>) -> nat
    decreases events.len(),
{
    if events.len() == 0 {
        0
    } else {
        gap_count(events.drop_last()) + (if missing_before(events.drop_last(), events.last()) > 0 {
            1nat
        } else {
            0nat
        })
    }
}

/// How much time is missing between the closed candles of some events, in milliseconds.
pub open spec fn missing_ms(events: Seq<MarketEvent>) -> int
    decreases events.len(),
{
    if events.len() == 0 {
        0
    } else {
        crate::clock::moved(
            missing_ms(events.drop_last()),
            missing_before(events.drop_last(), events.last()),
        )
    }
}

/// A run in progress.
pub struct Simulation {
    equity: Decimal,
    curve: Vec<EquityPoint>,
    pending: Option<PendingEntry>,
    position: Option<OpenPosition>,
    trades: Vec<TradeRecord>,
    markouts: Vec<MarkoutObservation>,
    stop_exposures: Vec<StopExposure>,
    rejections: TextMap<usize>,
    latency: LatencyStats,
    fees: Decimal,
    standard_fees: Decimal,
    candles: Vec<Candle>,
    order_seq: u64,
    used_signals: Vec<Timestamp>,
    book: OrderBookState,
}

impl View for Simulation {
    type V = SimModel;

    closed spec fn view(&self) -> SimModel {
        SimModel {
            equity: self.equity,
            curve: self.curve@,
            pending: match self.pending {
                Some(e) => Some(e@),
                None => None,
            },
            position: match self.position {
                Some(p) => Some(p@),
                None => None,
            },
            trades: self.trades@,
            markouts: self.markouts@,
            stop_exposures: self.stop_exposures@,
            rejections: self.rejections@,
            latency: self.latency,
            fees: self.fees,
            standard_fees: self.standard_fees,
            candles: self.candles@,
            order_seq: self.order_seq,
            used_signals: self.used_signals@,
            book: self.book@,
        }
    }
}

impl Simulation {
    /// The lists that are kept in order are.
    pub closed spec fn wf(&self) -> bool {
        self.rejections.wf() && self.book.wf()
    }

    /// A run before its first event.
    pub fn new(config: &BacktestConfig, at: Timestamp) -> (r: Self)
        ensures
            r.wf(),
            r@ == SimModel::start(*config, at),
    {
        let curve = vec![EquityPoint { at, equity: config.initial_equity }];
        let r = Simulation {
            equity: config.initial_equity,
            curve,
            pending: None,
            position: None,
            trades: Vec::new(),
            markouts: Vec::new(),
            stop_exposures: Vec::new(),
            rejections: TextMap::new(),
            latency: LatencyStats {
                attempts: 0,
                rejected_post_only: 0,
                assumed_latency_ms: config.assumed_latency_ms,
            },
            fees: Decimal::zero(),
            standard_fees: Decimal::zero(),
            candles: Vec::new(),
            order_seq: 0,
            used_signals: Vec::new(),
            book: OrderBookState::new(),
        };
        assert(r@.curve =~= SimModel::start(*config, at).curve);
        r
    }

    /// Takes a closed candle into the window.
    fn take_candle(&mut self, lookback: usize, event: &MarketEvent)
        requires
            old(self).wf(),
        ensures
            final(self).wf(),
            final(self)@ == old(self)@.with_candle(lookback as nat, *event),
    {
        if let MarketEvent::Kline(c) = event {
            if c.closed {
                self.candles.push(*c);
                let n = self.candles.len();
                if n > 2 && n - 2 > lookback {
                    let kept = self.candles.split_off(n - 2 - lookback);
                    assert(kept@ =~= old(self).candles@.push(*c).skip(n - (lookback + 2)));
                    self.candles = kept;
                }
            }
        }
    }

    /// Takes a trade into the extremes of the position.
    fn take_extremes(&mut self, event: &MarketEvent)
        requires
            old(self).wf(),
        ensures
            final(self).wf(),
            final(self)@ == old(self)@.with_extremes(*event),
    {
        if let MarketEvent::AggTrade(t) = event {
            let open = self.position.take();
            if let Some(mut p) = open {
                let px = t.price.get();
                if px > p.high_since {
                    p.high_since = px;
                }
                if px < p.low_since {
                    p.low_since = px;
                }
                self.position = Some(p);
            }
        }
    }

    /// Registers an entry with the life cycle and books its fill.
    fn book_entry(
        &mut self,
        config: &BacktestConfig,
        entry: &PendingEntry,
        price: Decimal,
        quantity: Decimal,
        fee: Decimal,
        now: Timestamp,
    )
        requires
            old(self).wf(),
        ensures
            final(self).wf(),
            final(self)@ == (SimModel {
                book: old(self)@.book_with_entry(*config, entry@, price, quantity, fee, now),
                ..old(self)@
            }),
    {
        let _ = self.book.register(entry.order.clone(), entry.placed_at);
        let _ = self.book.apply(
            ExecEvent::Accepted {
                client_id: entry.order.client_id.clone(),
                exchange_id: joined("bt-", entry.order.client_id.as_str()),
            },
            now,
        );
        let _ = self.book.apply(
            ExecEvent::Filled(
                Fill {
                    trade_id: joined("bt-fill-", entry.order.client_id.as_str()),
                    client_id: entry.order.client_id.clone(),
                    quantity: Qty::new(quantity),
                    price: Price::new(price),
                    fee,
                    fee_asset: config.instrument.settlement_asset.clone(),
                    at: now,
                },
            ),
            now,
        );
    }

    /// Fills the entry that rests, or lets it run out.
    fn work_entry<M: FillModel>(
        &mut self,
        config: &BacktestConfig,
        tape: &TradeTape,
        model: &M,
        now: Timestamp,
    )
        requires
            old(self).wf(),
        ensures
            final(self).wf(),
            final(self)@ == old(self)@.with_entry(*config, tape@, model, now),
    {
        let resting = self.pending.take();
        if let Some(entry) = resting {
            if now < entry.valid_until {
                let part = tape.part_through(entry.placed_at, now);
                let outcome = model.evaluate(
                    &FillContext {
                        order: &entry.order,
                        tape: &part,
                        placed_at: entry.placed_at,
                        tick_size: config.instrument.precision.tick_size,
                    },
                );
                if outcome.is_filled() {
                    self.latency = LatencyStats {
                        attempts: bumped(self.latency.attempts),
                        rejected_post_only: self.latency.rejected_post_only,
                        assumed_latency_ms: self.latency.assumed_latency_ms,
                    };
                    let qty = outcome.quantity_for(&entry.order);
                    let px = outcome.price_or(entry.order.limit_price.get());
                    let fee = px * qty * config.instrument.fees.maker_rate;
                    self.fees = self.fees + fee;
                    self.standard_fees = self.standard_fees + px * qty
                        * config.standard_maker_rate;
                    self.book_entry(config, &entry, px, qty, fee, now);
                    self.equity = self.equity - fee;
                    self.used_signals.push(entry.placed_at);
                    self.position = Some(
                        OpenPosition {
                            side: entry.order.side,
                            quantity: qty,
                            entry_price: px,
                            opened_at: now,
                            plan: entry.plan,
                            tp: entry.tp,
                            rungs_done: 0,
                            high_since: px,
                            low_since: px,
                            stop_triggered_at: None,
                        },
                    );
                } else {
                    self.pending = Some(entry);
                }
            }
        }
    }

    /// The exit of a position that is due.
    fn due_exit(config: &BacktestConfig, pos: &OpenPosition) -> (r: Option<(ExitKind, Decimal)>)
        ensures
            r == pos@.due(config.instrument),
    {
        let close_side = pos.side.opposite();
        let stop_raw = pos.plan.stop.resolve(pos.entry_price, pos.side);
        let stop_px = config.instrument.precision.price_or_raw(close_side, stop_raw, PriceRole::StopLoss);
        let stop_hit = match pos.side {
            Side::Buy => pos.low_since <= stop_px,
            Side::Sell => pos.high_since >= stop_px,
        };
        if stop_hit {
            return Some((ExitKind::StopLoss, stop_px));
        }
        let rungs = pos.tp.rungs();
        if pos.rungs_done < rungs.len() {
            let tp_raw = target_price(pos.side, pos.entry_price, rungs[pos.rungs_done].0);
            let tp = config.instrument.precision.price_or_raw(close_side, tp_raw, PriceRole::TakeProfit);
            let reached = match pos.side {
                Side::Buy => pos.high_since >= tp,
                Side::Sell => pos.low_since <= tp,
            };
            if reached {
                return Some((ExitKind::TakeProfit, tp));
            }
        }
        None
    }

    /// Tries the exit that is due.
    fn work_exit<M: FillModel>(
        &mut self,
        config: &BacktestConfig,
        tape: &TradeTape,
        model: &M,
        now: Timestamp,
    )
        requires
            old(self).wf(),
        ensures
            final(self).wf(),
            final(self)@ == old(self)@.with_exit(*config, tape@, model, now),
    {
        let open = self.position.take();
        if let Some(mut pos) = open {
            match Self::due_exit(config, &pos) {
                None => {
                    self.position = Some(pos);
                },
                Some((kind, ideal_price)) => {
                    let exit_order = Order {
                        client_id: ClientOrderId::new("bt-exit", self.order_seq),
                        symbol: config.instrument.symbol.clone(),
                        purpose: match kind {
                            ExitKind::StopLoss => OrderPurpose::StopLoss,
                            _ => OrderPurpose::TakeProfit,
                        },
                        side: pos.side.opposite(),
                        quantity: Qty::new(pos.quantity),
                        limit_price: Price::new(ideal_price),
                        tif: TimeInForce::PostOnly,
                        parent: None,
                    };
                    assert(exit_order@ == old(self)@.exit_order(*config, pos@, kind, ideal_price));
                    self.order_seq = following(self.order_seq);
                    let part = tape.part_through(pos.opened_at, now);
                    let outcome = model.evaluate(
                        &FillContext {
                            order: &exit_order,
                            tape: &part,
                            placed_at: pos.opened_at,
                            tick_size: config.instrument.precision.tick_size,
                        },
                    );
                    if outcome.is_filled() {
                        let fill_px = outcome.price_or(ideal_price);
                        let qty = outcome.quantity_for(&exit_order);
                        let fee = fill_px * qty * config.instrument.fees.maker_rate;
                        self.fees = self.fees + fee;
                        self.standard_fees = self.standard_fees + fill_px * qty
                            * config.standard_maker_rate;
                        let gross = unit_gain(pos.side, pos.entry_price, fill_px) * qty;
                        let pnl = gross - fee;
                        self.equity = self.equity + pnl;
                        self.trades.push(
                            TradeRecord {
                                entry_at: pos.opened_at,
                                exit_at: now,
                                side: pos.side,
                                quantity: qty,
                                entry_price: pos.entry_price,
                                exit_price: fill_px,
                                fee,
                                exit_reason: kind,
                                pnl,
                            },
                        );
                        if let Some(m) = compute_markout(tape, now, fill_px, pos.side) {
                            self.markouts.push(m);
                        }
                        if let Some(triggered_at) = pos.stop_triggered_at {
                            self.stop_exposures.push(
                                StopExposure {
                                    triggered_at,
                                    resolved_at: now,
                                    resolution: StopResolution::FilledLater,
                                    resolved_price: fill_px,
                                    stop_price: ideal_price,
                                    slippage: (fill_px - ideal_price).abs(),
                                },
                            );
                        }
                    } else {
                        if kind == ExitKind::StopLoss && pos.stop_triggered_at.is_none() {
                            let early = tape.window(pos.opened_at, now);
                            let at = if early.len() > 0 {
                                early[0].at
                            } else {
                                now
                            };
                            pos.stop_triggered_at = Some(at);
                        }
                        self.position = Some(pos);
                    }
                },
            }
        }
    }

    /// Does everything that an event does before the strategy is asked.
    pub fn advance<M: FillModel>(
        &mut self,
        config: &BacktestConfig,
        tape: &TradeTape,
        model: &M,
        event: &MarketEvent,
    )
        requires
            old(self).wf(),
        ensures
            final(self).wf(),
            final(self)@ == old(self)@.advanced(*config, tape@, model, *event),
    {
        let now = event.at();
        self.take_candle(config.lookback, event);
        self.take_extremes(event);
        self.work_entry(config, tape, model, now);
        self.work_exit(config, tape, model, now);
    }

    /// Whether the strategy is to be asked about an event.
    pub fn wants_decision(&self, event: &MarketEvent) -> (r: bool)
        ensures
            r == self@.asks(*event),
    {
        let closed = match event {
            MarketEvent::Kline(c) => c.closed,
            _ => false,
        };
        self.pending.is_none() && self.position.is_none() && closed
    }

    /// What the strategy is shown.
    pub fn view_for<'a>(&'a self, instrument: &'a Instrument, now: Timestamp) -> (r: MarketView<'a>)
        ensures
            *r.instrument == *instrument,
            r.candles@ == self@.candles,
            r.now == now,
            !r.has_position,
            !r.has_pending_entry,
            r.equity == self@.equity,
    {
        MarketView {
            instrument,
            candles: self.candles.as_slice(),
            now,
            has_position: false,
            has_pending_entry: false,
            equity: self.equity,
        }
    }

    /// Counts a reason for which nothing was done.
    fn refuse(&mut self, reason: StandDownReason)
        requires
            old(self).wf(),
        ensures
            final(self).wf(),
            final(self)@ == old(self)@.refused(reason),
    {
        let key = reason.message();
        let n: usize = match self.rejections.get(key) {
            Some(n) => *n,
            None => 0,
        };
        self.rejections.insert(key.to_owned(), bumped(n));
    }

    /// Whether the price reaches an entry while it is on its way.
    fn crosses_on_the_way(
        config: &BacktestConfig,
        tape: &TradeTape,
        now: Timestamp,
        side: Side,
        price: Decimal,
    ) -> (r: bool)
        ensures
            r == SimModel::crossed_on_the_way(*config, tape@, now, side, price),
    {
        let delay: i64 = if config.assumed_latency_ms > i64::MAX as u64 {
            i64::MAX
        } else {
            config.assumed_latency_ms as i64
        };
        let during = tape.window(now, after(now, delay));
        for i in 0..during.len()
            invariant
                during@ == crate::liquidity::between(
                    tape@,
                    now,
                    crate::clock::moved(now as int, latency_of(config.assumed_latency_ms)) as i64,
                ),
                forall|j: int|
                    0 <= j < i ==> !crate::fill::reaches(
                        side,
                        (#[trigger] during@[j]).price.0,
                        price,
                    ),
        {
            let p = during[i].price.get();
            let reached = match side {
                Side::Buy => p <= price,
                Side::Sell => p >= price,
            };
            if reached {
                assert(crate::fill::reaches(side, during@[i as int].price.0, price));
                return true;
            }
        }
        false
    }

    /// Sends an entry that passed the risk checks.
    fn send(
        &mut self,
        config: &BacktestConfig,
        tape: &TradeTape,
        now: Timestamp,
        req: EnterRequest,
        price: Decimal,
    )
        requires
            old(self).wf(),
        ensures
            final(self).wf(),
            final(self)@ == old(self)@.sent(*config, tape@, now, req, price),
    {
        let crossed = Self::crosses_on_the_way(config, tape, now, req.side, price);
        self.latency = LatencyStats {
            attempts: bumped(self.latency.attempts),
            rejected_post_only: self.latency.rejected_post_only,
            assumed_latency_ms: self.latency.assumed_latency_ms,
        };
        if crossed {
            self.latency = LatencyStats {
                attempts: self.latency.attempts,
                rejected_post_only: bumped(self.latency.rejected_post_only),
                assumed_latency_ms: self.latency.assumed_latency_ms,
            };
            return ;
        }
        match resolve_size(
            req.size,
            Price::new(price),
            self.equity,
            &config.instrument.precision,
        ) {
            None => self.refuse(StandDownReason::InsufficientEquity),
            Some(quantity) => {
                self.order_seq = following(self.order_seq);
                self.pending = Some(
                    PendingEntry {
                        order: Order {
                            client_id: ClientOrderId::new("bt-entry", self.order_seq),
                            symbol: config.instrument.symbol.clone(),
                            purpose: OrderPurpose::Entry,
                            side: req.side,
                            quantity,
                            limit_price: Price::new(price),
                            tif: TimeInForce::PostOnly,
                            parent: None,
                        },
                        plan: req.protection,
                        tp: req.take_profit,
                        placed_at: now,
                        valid_until: req.valid_until,
                    },
                );
            },
        }
    }

    /// Whether a signal of this time has been used.
    fn signal_used(&self, now: Timestamp) -> (r: bool)
        ensures
            r == self@.used_signals.contains(now),
    {
        for i in 0..self.used_signals.len()
            invariant
                forall|j: int| 0 <= j < i ==> self.used_signals@[j] != now,
        {
            if self.used_signals[i] == now {
                return true;
            }
        }
        false
    }

    /// Weighs a wish to enter.
    fn weigh(
        &mut self,
        config: &BacktestConfig,
        tape: &TradeTape,
        now: Timestamp,
        req: EnterRequest,
    )
        requires
            old(self).wf(),
        ensures
            final(self).wf(),
            final(self)@ == old(self)@.weighed(*config, tape@, now, req),
    {
        if self.signal_used(now) {
            self.refuse(StandDownReason::SignalAlreadyUsed);
            return ;
        }
        let priced = config.instrument.precision.price_for(
            req.side,
            req.entry,
            PriceRole::PassiveEntry,
        );
        if priced.is_err() {
            self.refuse(StandDownReason::StopTooWide);
        }
        let rungs = req.take_profit.rungs();
        let tp_first = if rungs.len() > 0 {
            target_price(req.side, req.entry, rungs[0].0)
        } else {
            req.entry
        };
        let leverage = match req.size {
            SizeHint::EquityFraction { leverage, .. } => leverage,
            SizeHint::Fixed(_) => Decimal::one(),
        };
        let verdict = check_entry(
            &config.instrument,
            req.side,
            req.entry,
            req.stop,
            tp_first,
            leverage,
            &config.limits,
        );
        match verdict {
            RiskVerdict::Reject(reason) => self.refuse(reason),
            RiskVerdict::Pass => {
                if let Ok(price) = priced {
                    self.send(config, tape, now, req, price.get());
                }
            },
        }
    }

    /// Does what the strategy answered.
    pub fn decide(
        &mut self,
        config: &BacktestConfig,
        tape: &TradeTape,
        now: Timestamp,
        answer: Option<StrategyIntent>,
    )
        requires
            old(self).wf(),
        ensures
            final(self).wf(),
            final(self)@ == old(self)@.answered(*config, tape@, now, answer),
    {
        match answer {
            None => {},
            Some(StrategyIntent::StandDown { reason }) => self.refuse(reason),
            Some(StrategyIntent::ExitNow { .. }) => {
                self.pending = None;
            },
            Some(StrategyIntent::Enter(req)) => self.weigh(config, tape, now, *req),
        }
    }

    /// Samples the equity curve, at most once an hour.
    pub fn sample(&mut self, now: Timestamp)
        requires
            old(self).wf(),
        ensures
            final(self).wf(),
            final(self)@ == old(self)@.sampled(now),
    {
        let n = self.curve.len();
        if n > 0 && since(now, self.curve[n - 1].at) >= 3600000 {
            self.curve.push(EquityPoint { at: now, equity: self.equity });
        }
    }

    /// Closes a position that is still open, and ends the equity curve.
    fn wind_up(&mut self, config: &BacktestConfig, events: &[MarketEvent], end: Timestamp)
        requires
            old(self).wf(),
        ensures
            final(self).wf(),
            final(self)@ == old(self)@.wound_up(*config, events@, end),
    {
        let open = self.position.take();
        if let Some(pos) = open {
            let last_px = final_price(events, pos.entry_price);
            let gross = unit_gain(pos.side, pos.entry_price, last_px) * pos.quantity;
            let fee = last_px * pos.quantity * config.instrument.fees.maker_rate;
            self.fees = self.fees + fee;
            self.standard_fees = self.standard_fees + last_px * pos.quantity
                * config.standard_maker_rate;
            self.equity = self.equity + (gross - fee);
            self.trades.push(
                TradeRecord {
                    entry_at: pos.opened_at,
                    exit_at: end,
                    side: pos.side,
                    quantity: pos.quantity,
                    entry_price: pos.entry_price,
                    exit_price: last_px,
                    fee,
                    exit_reason: ExitKind::ForcedAtEnd,
                    pnl: gross - fee,
                },
            );
            if let Some(triggered_at) = pos.stop_triggered_at {
                let stop_price = pos.plan.stop.resolve(pos.entry_price, pos.side);
                self.stop_exposures.push(
                    StopExposure {
                        triggered_at,
                        resolved_at: end,
                        resolution: StopResolution::StillOpenAtEnd,
                        resolved_price: last_px,
                        stop_price,
                        slippage: (last_px - stop_price).abs(),
                    },
                );
            }
        }
        self.curve.push(EquityPoint { at: end, equity: self.equity });
    }

    /// Ends the run and puts the result together.
    pub fn finish(
        self,
        config: &BacktestConfig,
        events: &[MarketEvent],
        strategy_id: &str,
        strategy_params: TextMap<String>,
        fill_model: &str,
        optimism: Optimism,
        idle: Timestamp,
    ) -> (r: BacktestResult)
        requires
            self.wf(),
        ensures
            r.reports(
                self@.wound_up(*config, events@, last_time(events@, idle)),
                *config,
                events@,
                strategy_id@,
                crate::strategy::texts(strategy_params@),
                fill_model@,
                optimism,
                idle,
            ),
    {
        let mut sim = self;
        let (start, end) = span(events, idle);
        sim.wind_up(config, events, end);
        let markout = summarize_markouts(sim.markouts.as_slice());
        let stop_exposure = summarize_stop_exposures(sim.stop_exposures.as_slice());
        let standard_final = config.initial_equity + (sim.equity - config.initial_equity) - (
        sim.standard_fees - sim.fees);
        let metrics = EdgeMetrics {
            m0_final_equity: sim.equity,
            m1_final_equity: sim.equity,
            breakeven_fill_rate: None,
            sign_flips: false,
            markout,
            stop_exposure,
            latency: sim.latency,
        };
        let provenance = BacktestProvenance {
            symbol: config.instrument.symbol.clone(),
            strategy_id: strategy_id.to_owned(),
            strategy_params,
            fill_model: fill_model.to_owned(),
            fill_model_optimism: match optimism {
                Optimism::UpperBound => "上界（不现实）".to_owned(),
                Optimism::ConservativeLower => "保守下界".to_owned(),
            },
            start,
            end,
            candle_count: count_candles(events),
            trade_count: sim.trades.len(),
            fees: FeeHonesty {
                source: config.fee_source,
                maker_rate_used: config.instrument.fees.maker_rate,
                fee_contribution: sim.standard_fees - sim.fees,
                incomplete: !config.fee_source.is_authoritative(),
            },
            gaps: find_gaps(events, config.allow_gaps),
        };
        BacktestResult {
            provenance,
            metrics,
            trades: sim.trades,
            equity_curve: sim.curve,
            markouts: sim.markouts,
            stop_exposures: sim.stop_exposures,
            rejections: sim.rejections,
            latency: sim.latency,
            final_equity_at_standard_fee: standard_final,
        }
    }
}

/// When the first and the last event were.
fn span(events: &[MarketEvent], idle: Timestamp) -> (r: (Timestamp, Timestamp))
    ensures
        r.0 == first_time(events@, idle),
        r.1 == last_time(events@, idle),
{
    if events.len() > 0 {
        (events[0].at(), events[events.len() - 1].at())
    } else {
        (idle, idle)
    }
}

/// The price of the last trade among some events.
fn final_price(events: &[MarketEvent], fallback: Decimal) -> (r: Decimal)
    ensures
        r == last_price(events@, fallback),
{
    let mut i: usize = events.len();
    assert(events@.take(events@.len() as int) =~= events@);
    while i > 0
        invariant
            i <= events@.len(),
            last_price(events@, fallback) == last_price(events@.take(i as int), fallback),
        decreases i,
    {
        assert(events@.take(i as int).drop_last() =~= events@.take(i - 1));
        assert(events@.take(i as int).last() == events@[i - 1]);
        if let MarketEvent::AggTrade(t) = &events[i - 1] {
            return t.price.get();
        }
        i = i - 1;
    }
    fallback
}

/// Counts the candles among some events.
fn count_candles(events: &[MarketEvent]) -> (r: usize)
    ensures
        r == candle_count(events@),
{
    let mut n: usize = 0;
    for i in 0..events.len()
        invariant
            n == candle_count(events@.take(i as int)),
            n <= i,
    {
        assert(events@.take(i + 1).drop_last() =~= events@.take(i as int));
        assert(events@.take(i + 1).last() == events@[i as int]);
        if matches!(events[i], MarketEvent::Kline(_)) {
            n = n + 1;
        }
    }
    assert(events@.take(events@.len() as int) =~= events@);
    n
}

/// Finds the gaps between the closed candles of some events, which are of one minute each.
pub fn find_gaps(events: &[MarketEvent], allowed_by_flag: bool) -> (r: GapSummary)
    ensures
        r.gap_count == gap_count(events@),
        r.total_missing_secs == missing_ms(events@) / 1000,
        r.allowed_by_flag == allowed_by_flag,
{
    let mut count: usize = 0;
    let mut missing: i64 = 0;
    let mut last: Option<Candle> = None;
    for i in 0..events.len()
        invariant
            count == gap_count(events@.take(i as int)),
            count <= i,
            missing == missing_ms(events@.take(i as int)),
            missing >= 0,
            last == last_closed(events@.take(i as int)),
    {
        assert(events@.take(i + 1).drop_last() =~= events@.take(i as int));
        assert(events@.take(i + 1).last() == events@[i as int]);
        if let MarketEvent::Kline(b) = &events[i] {
            if b.closed {
                if let Some(a) = last {
                    let ms = since(b.open_time, a.close_time());
                    if ms > 0 {
                        count = count + 1;
                        missing = after(missing, ms);
                    }
                }
                last = Some(*b);
            }
        }
    }
    assert(events@.take(events@.len() as int) =~= events@);
    GapSummary { gap_count: count, total_missing_secs: missing / 1000, allowed_by_flag }
}

impl BacktestResult {
    /// Whether this is the result of a run that ended in a state.
    pub open spec fn reports(
        self,
        end: SimModel,
        config: BacktestConfig,
        events: Seq<MarketEvent>,
        strategy_id: Seq<char>,
        params: Map<Seq<char>, Seq<char>>,
        fill_model: Seq<char>,
        optimism: Optimism,
        idle: Timestamp,
    ) -> bool {
        &&& self.trades@ == end.trades
        &&& self.equity_curve@ == end.curve
        &&& self.markouts@ == end.markouts
        &&& self.stop_exposures@ == end.stop_exposures
        &&& self.rejections@ == end.rejections
        &&& self.rejections.wf()
        &&& self.latency == end.latency
        &&& self.final_equity_at_standard_fee == config.initial_equity.sum(
            end.equity.less(config.initial_equity),
        ).less(end.standard_fees.less(end.fees))
        &&& self.metrics == EdgeMetrics {
            m0_final_equity: end.equity,
            m1_final_equity: end.equity,
            breakeven_fill_rate: None,
            sign_flips: false,
            markout: crate::metrics::markout_summary(end.markouts),
            stop_exposure: crate::metrics::exposure_summary(end.stop_exposures),
            latency: end.latency,
        }
        &&& self.provenance.symbol == config.instrument.symbol
        &&& self.provenance.strategy_id@ == strategy_id
        &&& crate::strategy::texts(self.provenance.strategy_params@) == params
        &&& self.provenance.fill_model@ == fill_model
        &&& self.provenance.fill_model_optimism@ == (match optimism {
            Optimism::UpperBound => "上界（不现实）"@,
            Optimism::ConservativeLower => "保守下界"@,
        })
        &&& self.provenance.start == first_time(events, idle)
        &&& self.provenance.end == last_time(events, idle)
        &&& self.provenance.candle_count == candle_count(events)
        &&& self.provenance.trade_count == end.trades.len()
        &&& self.provenance.fees == FeeHonesty {
            source: config.fee_source,
            maker_rate_used: config.instrument.fees.maker_rate,
            fee_contribution: end.standard_fees.less(end.fees),
            incomplete: !(config.fee_source is ExchangeAccount
                || config.fee_source is ExchangeRules),
        }
        &&& self.provenance.gaps.gap_count == gap_count(events)
        &&& self.provenance.gaps.total_missing_secs == missing_ms(events) / 1000
        &&& self.provenance.gaps.allowed_by_flag == config.allow_gaps
    }
}

/// Whether a strategy, shown the market as it was at each decision of a run, gave some answers.
pub open spec fn all_given<S: Strategy, M: FillModel>(
    config: BacktestConfig,
    events: Seq<MarketEvent>,
    tape: Seq<Trade>,
    strategy: &S,
    model: &M,
    idle: Timestamp,
    answers: Seq<Option<StrategyIntent>>,
) -> bool {
    forall|i: int| 0 <= i < answers.len() ==> given_at(
        config,
        events,
        tape,
        strategy,
        model,
        idle,
        answers,
        #[trigger] answers[i],
        i,
    )
}

/// Whether an answer is what the strategy gave at an event, where it was asked; where it was not,
/// there is none.
pub open spec fn given_at<S: Strategy, M: FillModel>(
    config: BacktestConfig,
    events: Seq<MarketEvent>,
    tape: Seq<Trade>,
    strategy: &S,
    model: &M,
    idle: Timestamp,
    answers: Seq<Option<StrategyIntent>>,
    answer: Option<StrategyIntent>,
    i: int,
) -> bool {
    let s = SimModel::after_events(
        config,
        events,
        tape,
        model,
        answers,
        idle,
        i as nat,
    ).advanced(config, tape, model, events[i]);
    if s.asks(events[i]) {
        crate::strategy::gave(
            strategy,
            config.instrument,
            s.candles,
            events[i].time() as i64,
            s.equity,
            answer,
        )
    } else {
        answer is None
    }
}

/// Whether a result is that of a run in which the strategy gave some answers, its id and its
/// parameters.
pub open spec fn ran<M: FillModel>(
    r: BacktestResult,
    config: BacktestConfig,
    events: Seq<MarketEvent>,
    tape: Seq<Trade>,
    model: &M,
    idle: Timestamp,
    answers: Seq<Option<StrategyIntent>>,
    strategy_id: Seq<char>,
    specs: Seq<ParameterSpec>,
) -> bool {
    r.reports(
        SimModel::after_events(
            config,
            events,
            tape,
            model,
            answers,
            idle,
            events.len(),
        ).wound_up(config, events, last_time(events, idle)),
        config,
        events,
        strategy_id,
        crate::strategy::parameter_values(specs),
        model.label(),
        model.stance(),
        idle,
    )
}

/// Runs a strategy over events, oldest first. `idle` stands for the time where there is no
/// event at all.
///
/// Whatever the strategy answers, the result is that of a run in which it gave those answers,
/// each to the market as it was shown then.
pub fn run<S: Strategy, M: FillModel>(
    config: &BacktestConfig,
    events: &[MarketEvent],
    tape: &TradeTape,
    strategy: &S,
    fill_model: &M,
    idle: Timestamp,
) -> (r: BacktestResult)
    ensures
        exists|
            answers: Seq<Option<StrategyIntent>>,
            strategy_id: Seq<char>,
            specs: Seq<ParameterSpec>,
        |
            answers.len() == events@.len() && #[trigger] ran(
                r,
                *config,
                events@,
                tape@,
                fill_model,
                idle,
                answers,
                strategy_id,
                specs,
            ) && all_given(*config, events@, tape@, strategy, fill_model, idle, answers)
                && crate::strategy::goes_by(strategy, strategy_id)
                && crate::strategy::has_parameters(strategy, specs),
{
    let (start, _) = span(events, idle);
    let mut sim = Simulation::new(config, start);
    let ghost mut answers: Seq<Option<StrategyIntent>> = Seq::empty();
    for i in 0..events.len()
        invariant
            sim.wf(),
            answers.len() == i,
            sim@ == SimModel::after_events(
                *config,
                events@,
                tape@,
                fill_model,
                answers,
                idle,
                i as nat,
            ),
            all_given(*config, events@, tape@, strategy, fill_model, idle, answers),
    {
        let event = &events[i];
        let now = event.at();
        let ghost before = answers;
        sim.advance(config, tape, fill_model, event);
        let ghost shown = sim@;
        if sim.wants_decision(event) {
            let answer = {
                let view = sim.view_for(&config.instrument, now);
                let answer = strategy.evaluate(&view);
                assert(call_ensures(S::evaluate, (strategy, &view), answer));
                answer
            };
            assert(crate::strategy::gave(
                strategy,
                config.instrument,
                shown.candles,
                now,
                shown.equity,
                answer,
            ));
            proof {
                answers = answers.push(answer);
            }
            sim.decide(config, tape, now, answer);
        } else {
            proof {
                answers = answers.push(None);
            }
        }
        sim.sample(now);
        proof {
            lemma_answers_so_far(
                *config,
                events@,
                tape@,
                fill_model,
                before,
                answers,
                idle,
                i as nat,
            );
            assert forall|j: int| 0 <= j < answers.len() implies given_at(
                *config,
                events@,
                tape@,
                strategy,
                fill_model,
                idle,
                answers,
                #[trigger] answers[j],
                j,
            ) by {
                lemma_answers_so_far(
                    *config,
                    events@,
                    tape@,
                    fill_model,
                    before,
                    answers,
                    idle,
                    j as nat,
                );
                if j < i {
                    assert(given_at(
                        *config,
                        events@,
                        tape@,
                        strategy,
                        fill_model,
                        idle,
                        before,
                        before[j],
                        j,
                    ));
                }
            }
        }
    }
    let id = strategy.id();
    assert(call_ensures(S::id, (strategy,), id));
    let specs = strategy.parameters();
    assert(call_ensures(S::parameters, (strategy,), specs));
    let params = snapshot(&specs);
    let r = sim.finish(config, events, id, params, fill_model.name(), fill_model.optimism(), idle);
    assert(ran(r, *config, events@, tape@, fill_model, idle, answers, id@, specs@));
    r
}

/// The state after some events depends on no later answer.
proof fn lemma_answers_so_far<M: FillModel>(
    config: BacktestConfig,
    events: Seq<MarketEvent>,
    tape: Seq<Trade>,
    model: &M,
    a: Seq<Option<StrategyIntent>>,
    b: Seq<Option<StrategyIntent>>,
    idle: Timestamp,
    n: nat,
)
    requires
        n <= a.len(),
        n <= b.len(),
        forall|i: int| 0 <= i < n ==> a[i] == b[i],
    ensures
        SimModel::after_events(config, events, tape, model, a, idle, n) == SimModel::after_events(
            config,
            events,
            tape,
            model,
            b,
            idle,
            n,
        ),
    decreases n,
{
    if n > 0 {
        lemma_answers_so_far(config, events, tape, model, a, b, idle, (n - 1) as nat);
    }
}

impl BacktestResult {
    /// The equity at the end of the curve.
    pub open spec fn last_equity(self) -> Decimal {
        if self.equity_curve@.len() > 0 {
            self.equity_curve@.last().equity
        } else {
            Decimal::whole(0)
        }
    }

    /// The equity at the start of the curve.
    pub open spec fn first_equity(self) -> Decimal {
        if self.equity_curve@.len() > 0 {
            self.equity_curve@[0].equity
        } else {
            Decimal::whole(0)
        }
    }
}

/// The part of the optimistic fills that has to come true for nothing to be lost. It is a linear
/// estimate: a profit that is kept needs that much less, a loss needs that much more.
pub open spec fn breakeven_rate(m0_profit: Decimal, m1_profit: Decimal) -> Option<Decimal> {
    if m0_profit@ > 0 {
        let needed = if m1_profit@ >= 0 {
            Decimal::whole(1).less(m1_profit.per(m0_profit).smaller(Decimal::whole(1)))
        } else {
            m0_profit.less(m1_profit).per(m0_profit)
        };
        Some(needed.larger(Decimal::whole(0)))
    } else {
        None
    }
}

/// Compares the results of the optimistic and the honest model.
pub fn compare_models(optimistic: &BacktestResult, conservative: &BacktestResult) -> (r: EdgeMetrics)
    ensures
        r.m0_final_equity == optimistic.last_equity(),
        r.m1_final_equity == conservative.last_equity(),
        ({
            let initial = optimistic.first_equity();
            let m0_profit = optimistic.last_equity().less(initial);
            let m1_profit = conservative.last_equity().less(initial);
            &&& r.sign_flips == ((m0_profit@ > 0) != (m1_profit@ > 0))
            &&& r.breakeven_fill_rate == breakeven_rate(m0_profit, m1_profit)
        }),
        r.sign_flips == ((optimistic.last_equity()@ > optimistic.first_equity()@) != (
        conservative.last_equity()@ > optimistic.first_equity()@)),
        r.breakeven_fill_rate is Some <==> optimistic.last_equity()@ > optimistic.first_equity()@,
        r.markout == conservative.metrics.markout,
        r.stop_exposure == conservative.metrics.stop_exposure,
        r.latency == conservative.latency,
{
    let zero = Decimal::zero();
    let n0 = optimistic.equity_curve.len();
    let n1 = conservative.equity_curve.len();
    let m0 = if n0 > 0 {
        optimistic.equity_curve[n0 - 1].equity
    } else {
        zero
    };
    let m1 = if n1 > 0 {
        conservative.equity_curve[n1 - 1].equity
    } else {
        zero
    };
    let initial = if n0 > 0 {
        optimistic.equity_curve[0].equity
    } else {
        zero
    };
    let m0_profit = m0.minus(initial);
    let m1_profit = m1.minus(initial);
    let sign_flips = (m0_profit > zero) != (m1_profit > zero);
    let breakeven_fill_rate = if m0_profit > zero {
        let needed = if m1_profit >= zero {
            let retained = m1_profit / m0_profit;
            Decimal::one() - retained.min(Decimal::one())
        } else {
            (m0_profit - m1_profit) / m0_profit
        };
        Some(needed.max(zero))
    } else {
        None
    };
    EdgeMetrics {
        m0_final_equity: m0,
        m1_final_equity: m1,
        breakeven_fill_rate,
        sign_flips,
        markout: conservative.metrics.markout,
        stop_exposure: conservative.metrics.stop_exposure,
        latency: conservative.latency,
    }
}

/// The position of a symbol.
pub fn position_of<'a>(state: &'a OrderBookState, symbol: &str) -> (r: Option<&'a Position>)
    requires
        state.wf(),
    ensures
        match r {
            Some(p) => state@.positions.dom().contains(symbol@) && p@ == state@.positions[symbol@],
            None => !state@.positions.dom().contains(symbol@),
        },
{
    state.position(symbol)
}

/// Whether an order rests at the exchange.
pub fn is_order_open(state: &OrderBookState, id: &ClientOrderId) -> (r: bool)
    requires
        state.wf(),
    ensures
        r == (state@.orders.dom().contains(id@) && (state@.orders[id@].state is Live
            || state@.orders[id@].state is PartiallyFilled)),
{
    match state.get(id) {
        Some(t) => matches!(t.state, OrderState::Live | OrderState::PartiallyFilled { .. }),
        None => false,
    }
}

/// The protection of a position, or none where it cannot be compiled.
pub fn compile_protection(
    instrument: &Instrument,
    fill: &EntryFill,
    plan: &ProtectionPlan,
    tp: &TpPlan,
) -> (r: Vec<ProtectionAction>)
    ensures
        ProtectionAction::models(r@) == (match fill@.protection(*instrument, *plan, tp@) {
            Ok(actions) => actions,
            Err(_) => Seq::<ActionModel>::empty(),
        }),
{
    match ProtectionPlanner::compile(instrument, fill, plan, tp) {
        Ok(v) => v,
        Err(_) => {
            let none: Vec<ProtectionAction> = Vec::new();
            assert(ProtectionAction::models(none@) =~= Seq::<ActionModel>::empty());
            none
        },
    }
}

/// At no time do an entry and a position stand side by side, and the equity curve begins with
/// the initial equity.
pub proof fn law_one_engagement_at_a_time<M: FillModel>(
    config: BacktestConfig,
    events: Seq<MarketEvent>,
    tape: Seq<Trade>,
    model: &M,
    answers: Seq<Option<StrategyIntent>>,
    idle: Timestamp,
    n: nat,
)
    ensures
        ({
            let s = SimModel::after_events(config, events, tape, model, answers, idle, n);
            &&& s.pending is None || s.position is None
            &&& s.curve.len() > 0 && s.curve[0].equity == config.initial_equity
        }),
    decreases n,
{
    if n > 0 {
        let m = (n - 1) as nat;
        law_one_engagement_at_a_time(config, events, tape, model, answers, idle, m);
        let before = SimModel::after_events(config, events, tape, model, answers, idle, m);
        let event = events[n - 1];
        let now = event.time() as i64;
        let shown = before.with_candle(config.lookback as nat, event).with_extremes(event);
        assert(shown.pending == before.pending && shown.curve == before.curve);
        assert(shown.position is None <==> before.position is None);
        let entered = shown.with_entry(config, tape, model, now);
        lemma_entry_engages(shown, config, tape, model, now);
        let left = entered.with_exit(config, tape, model, now);
        lemma_exit_engages(entered, config, tape, model, now);
        lemma_answer_engages(left, config, tape, now, answers[n - 1]);
    }
}

proof fn lemma_entry_engages<M: FillModel>(
    s: SimModel,
    config: BacktestConfig,
    tape: Seq<Trade>,
    model: &M,
    now: Timestamp,
)
    requires
        s.pending is None || s.position is None,
    ensures
        ({
            let after = s.with_entry(config, tape, model, now);
            &&& after.pending is None || after.position is None
            &&& after.curve == s.curve
        }),
{
}

proof fn lemma_exit_engages<M: FillModel>(
    s: SimModel,
    config: BacktestConfig,
    tape: Seq<Trade>,
    model: &M,
    now: Timestamp,
)
    requires
        s.pending is None || s.position is None,
    ensures
        ({
            let after = s.with_exit(config, tape, model, now);
            &&& after.pending is None || after.position is None
            &&& after.curve == s.curve
        }),
{
}

proof fn lemma_answer_engages(
    s: SimModel,
    config: BacktestConfig,
    tape: Seq<Trade>,
    now: Timestamp,
    answer: Option<StrategyIntent>,
)
    ensures
        s.answered(config, tape, now, answer).position == s.position,
        s.answered(config, tape, now, answer).curve == s.curve,
{
}

/// A run ends without a position, and its curve ends with its equity.
pub proof fn law_runs_end_flat(
    s: SimModel,
    config: BacktestConfig,
    events: Seq<MarketEvent>,
    end: Timestamp,
)
    ensures
        s.wound_up(config, events, end).position is None,
        s.wound_up(config, events, end).curve.last() == (EquityPoint {
            at: end,
            equity: s.wound_up(config, events, end).equity,
        }),
        s.wound_up(config, events, end).trades.len() == s.trades.len() + (if s.position is Some {
            1int
        } else {
            0int
        }),
{
}

/// A position that has reached both its stop and its target is closed at the stop.
pub proof fn law_stop_comes_before_target(pos: OpenModel, instrument: Instrument)
    requires
        pos.fell_to(pos.stop_level(instrument)),
    ensures
        pos.due(instrument) == Some((ExitKind::StopLoss, pos.stop_level(instrument))),
{
}

/// An entry is filled only by trades from the time it was placed up to now, so a run never looks
/// ahead to fill one: with another tape that agrees up to now the same happens.
pub proof fn law_entries_do_not_look_ahead<M: FillModel>(
    s: SimModel,
    config: BacktestConfig,
    tape: Seq<Trade>,
    other: Seq<Trade>,
    model: &M,
    now: Timestamp,
)
    requires
        crate::liquidity::ordered_trades(tape),
        crate::liquidity::ordered_trades(other),
        crate::liquidity::agree_through(tape, other, now),
    ensures
        s.with_entry(config, tape, model, now) == s.with_entry(config, other, model, now),
{
    if let Some(e) = s.pending {
        crate::liquidity::lemma_agreeing_windows(tape, other, now, e.placed_at, now);
    }
}

/// An exit is filled only by trades from the opening of the position up to now. With another tape
/// that agrees up to now the same happens; only the observation of how the price moved afterwards
/// looks at what came later, and nothing is decided by it.
pub proof fn law_exits_do_not_look_ahead<M: FillModel>(
    s: SimModel,
    config: BacktestConfig,
    tape: Seq<Trade>,
    other: Seq<Trade>,
    model: &M,
    now: Timestamp,
)
    requires
        crate::liquidity::ordered_trades(tape),
        crate::liquidity::ordered_trades(other),
        crate::liquidity::agree_through(tape, other, now),
    ensures
        (SimModel { markouts: s.markouts, ..s.with_exit(config, tape, model, now) }) == (SimModel {
            markouts: s.markouts,
            ..s.with_exit(config, other, model, now)
        }),
        s.with_exit(config, tape, model, now).markouts.len() == s.with_exit(
            config,
            other,
            model,
            now,
        ).markouts.len(),
{
    if let Some(pos) = s.position {
        crate::liquidity::lemma_agreeing_windows(tape, other, now, pos.opened_at, now);
    }
}

/// A stop that is not filled leaves the position open, at its size and price.
pub proof fn law_unfilled_stop_leaves_position<M: FillModel>(
    s: SimModel,
    config: BacktestConfig,
    tape: Seq<Trade>,
    model: &M,
    now: Timestamp,
)
    requires
        s.position is Some,
        s.with_exit(config, tape, model, now).trades == s.trades,
    ensures
        s.with_exit(config, tape, model, now).position matches Some(p) && p.quantity
            == s.position->0.quantity && p.entry_price == s.position->0.entry_price,
        s.with_exit(config, tape, model, now).equity == s.equity,
{
    let after = s.with_exit(config, tape, model, now);
    if after.position is None {
        assert(after.trades.len() == s.trades.len() + 1);
    }
}

/// The fill model is shown no trade from before an order was placed and none from after the event
/// that is being processed, for an entry as for an exit.
pub proof fn law_models_see_only_their_time(
    s: SimModel,
    e: PendingModel,
    pos: OpenModel,
    kind: ExitKind,
    price: Decimal,
    config: BacktestConfig,
    tape: Seq<Trade>,
    now: Timestamp,
)
    requires
        crate::liquidity::ordered_trades(tape),
    ensures
        ({
            let ctx = SimModel::entry_context(e, config, tape, now);
            forall|i: int|
                0 <= i < ctx.trades.len() ==> ctx.placed_at <= (#[trigger] ctx.trades[i]).at <= now
        }),
        ({
            let ctx = s.exit_context(pos, kind, price, config, tape, now);
            forall|i: int|
                0 <= i < ctx.trades.len() ==> ctx.placed_at <= (#[trigger] ctx.trades[i]).at <= now
        }),
{
    let a = SimModel::entry_context(e, config, tape, now);
    assert forall|i: int| 0 <= i < a.trades.len() implies a.placed_at <= (
    #[trigger] a.trades[i]).at <= now by {
        crate::liquidity::law_part_is_within_its_time(tape, e.placed_at, now, i);
    }
    let b = s.exit_context(pos, kind, price, config, tape, now);
    assert forall|i: int| 0 <= i < b.trades.len() implies b.placed_at <= (
    #[trigger] b.trades[i]).at <= now by {
        crate::liquidity::law_part_is_within_its_time(tape, pos.opened_at, now, i);
    }
}

/// The closed candles among some events, in their order.
pub open spec fn closed_candles(events: Seq<MarketEvent>) -> Seq<Candle>
    decreases events.len(),
{
    if events.len() == 0 {
        Seq::empty()
    } else {
        let before = closed_candles(events.drop_last());
        match events.last() {
            MarketEvent::Kline(c) => if c.closed {
                before.push(c)
            } else {
                before
            },
            _ => before,
        }
    }
}

/// The last candles of a list, at most so many.
pub open spec fn last_candles(all: Seq<Candle>, most: nat) -> Seq<Candle> {
    if all.len() > most {
        all.skip(all.len() - most)
    } else {
        all
    }
}

/// Only closed candles are among the closed candles.
proof fn lemma_closed(events: Seq<MarketEvent>)
    ensures
        forall|i: int|
            0 <= i < closed_candles(events).len() ==> (#[trigger] closed_candles(events)[i]).closed,
    decreases events.len(),
{
    if events.len() > 0 {
        let before = closed_candles(events.drop_last());
        let all = closed_candles(events);
        lemma_closed(events.drop_last());
        assert forall|i: int| 0 <= i < all.len() implies (#[trigger] all[i]).closed by {
            if i < before.len() {
                assert(all[i] == before[i]);
            }
        }
    }
}

/// What an event does beyond taking up its candle leaves the window of candles alone.
proof fn lemma_window_kept<M: FillModel>(
    s: SimModel,
    config: BacktestConfig,
    tape: Seq<Trade>,
    model: &M,
    event: MarketEvent,
    answer: Option<StrategyIntent>,
)
    ensures
        s.advanced(config, tape, model, event).candles == s.with_candle(
            config.lookback as nat,
            event,
        ).candles,
        s.after_event(config, tape, model, event, answer).candles == s.with_candle(
            config.lookback as nat,
            event,
        ).candles,
{
    let now = event.time() as i64;
    let a = s.advanced(config, tape, model, event);
    assert(a.candles == s.with_candle(config.lookback as nat, event).candles);
    assert(a.answered(config, tape, now, answer).candles == a.candles);
}

/// The window of candles holds the last closed candles of the events so far.
proof fn lemma_window<M: FillModel>(
    config: BacktestConfig,
    events: Seq<MarketEvent>,
    tape: Seq<Trade>,
    model: &M,
    answers: Seq<Option<StrategyIntent>>,
    idle: Timestamp,
    n: nat,
)
    requires
        n <= events.len(),
    ensures
        SimModel::after_events(config, events, tape, model, answers, idle, n).candles
            == last_candles(closed_candles(events.take(n as int)), config.lookback as nat + 2),
    decreases n,
{
    if n == 0 {
        assert(events.take(0) =~= Seq::<MarketEvent>::empty());
    } else {
        let m = (n - 1) as nat;
        lemma_window(config, events, tape, model, answers, idle, m);
        let s = SimModel::after_events(config, events, tape, model, answers, idle, m);
        lemma_window_kept(s, config, tape, model, events[n - 1], answers[n - 1]);
        lemma_next_candle(s, config, events, m);
    }
}

proof fn lemma_next_candle(s: SimModel, config: BacktestConfig, events: Seq<MarketEvent>, n: nat)
    requires
        n < events.len(),
        s.candles == last_candles(
            closed_candles(events.take(n as int)),
            config.lookback as nat + 2,
        ),
    ensures
        s.with_candle(config.lookback as nat, events[n as int]).candles == last_candles(
            closed_candles(events.take(n as int + 1)),
            config.lookback as nat + 2,
        ),
{
    let most = config.lookback as nat + 2;
    let all = closed_candles(events.take(n as int));
    let event = events[n as int];
    assert(events.take(n as int + 1).drop_last() =~= events.take(n as int));
    assert(events.take(n as int + 1).last() == event);
    if let MarketEvent::Kline(c) = event {
        if c.closed {
            assert(s.with_candle(config.lookback as nat, event).candles =~= last_candles(
                all.push(c),
                most,
            ));
        }
    }
}

/// The strategy is asked only on a closed candle, with neither an entry nor a position. What it is
/// shown are the last closed candles of the events so far, in their order, at most two more than
/// are looked back on, and the last of them is the candle of the event. Nothing of a candle that is
/// not closed is shown, and nothing that comes later.
pub proof fn law_strategy_sees_closed_candles<M: FillModel>(
    config: BacktestConfig,
    events: Seq<MarketEvent>,
    tape: Seq<Trade>,
    model: &M,
    answers: Seq<Option<StrategyIntent>>,
    idle: Timestamp,
    n: nat,
)
    requires
        n < events.len(),
        SimModel::after_events(config, events, tape, model, answers, idle, n).advanced(
            config,
            tape,
            model,
            events[n as int],
        ).asks(events[n as int]),
    ensures
        ({
            let s = SimModel::after_events(
                config,
                events,
                tape,
                model,
                answers,
                idle,
                n,
            ).advanced(config, tape, model, events[n as int]);
            &&& s.pending is None
            &&& s.position is None
            &&& s.candles == last_candles(
                closed_candles(events.take(n as int + 1)),
                config.lookback as nat + 2,
            )
            &&& 0 < s.candles.len() <= config.lookback + 2
            &&& events[n as int] == MarketEvent::Kline(s.candles.last())
            &&& forall|i: int| 0 <= i < s.candles.len() ==> (#[trigger] s.candles[i]).closed
        }),
{
    let before = SimModel::after_events(config, events, tape, model, answers, idle, n);
    let event = events[n as int];
    let s = before.advanced(config, tape, model, event);
    lemma_window(config, events, tape, model, answers, idle, n);
    lemma_window_kept(before, config, tape, model, event, None);
    lemma_next_candle(before, config, events, n);
    let all = closed_candles(events.take(n as int + 1));
    assert(events.take(n as int + 1).drop_last() =~= events.take(n as int));
    assert(events.take(n as int + 1).last() == event);
    lemma_closed(events.take(n as int + 1));
    assert forall|i: int| 0 <= i < s.candles.len() implies (#[trigger] s.candles[i]).closed by {
        let k = all.len() - s.candles.len() + i;
        assert(s.candles[i] == all[k]);
    }
}

/// A movement of the equity.
pub enum Movement {
    /// The fee of an entry.
    Fee(Decimal),
    /// The result of a trade.
    Gain(Decimal),
}

/// An equity after some movements, one after the other.
pub open spec fn settled_equity(initial: Decimal, ledger: Seq<Movement>) -> Decimal
    decreases ledger.len(),
{
    if ledger.len() == 0 {
        initial
    } else {
        let before = settled_equity(initial, ledger.drop_last());
        match ledger.last() {
            Movement::Fee(fee) => before.less(fee),
            Movement::Gain(pnl) => before.sum(pnl),
        }
    }
}

/// The results among some movements, in their order.
pub open spec fn gains(ledger: Seq<Movement>) -> Seq<Decimal>
    decreases ledger.len(),
{
    if ledger.len() == 0 {
        Seq::empty()
    } else {
        match ledger.last() {
            Movement::Fee(_) => gains(ledger.drop_last()),
            Movement::Gain(pnl) => gains(ledger.drop_last()).push(pnl),
        }
    }
}

/// The results of some trades, in their order.
pub open spec fn results(trades: Seq<TradeRecord>) -> Seq<Decimal> {
    trades.map_values(|t: TradeRecord| t.pnl)
}

impl SimModel {
    /// The movements after the entry that rests was filled or not.
    pub open spec fn ledger_with_entry<M: FillModel>(
        self,
        ledger: Seq<Movement>,
        config: BacktestConfig,
        tape: Seq<Trade>,
        model: &M,
        now: Timestamp,
    ) -> Seq<Movement> {
        match self.pending {
            None => ledger,
            Some(e) => {
                let outcome = model.outcome(Self::entry_context(e, config, tape, now));
                if now >= e.valid_until || outcome is Unfilled {
                    ledger
                } else {
                    ledger.push(
                        Movement::Fee(
                            outcome.price_else(e.order.limit_price.0).prod(
                                outcome.of_order(e.order),
                            ).prod(config.instrument.fees.maker_rate),
                        ),
                    )
                }
            },
        }
    }

    /// The movements after a state that has one more trade than another, or none.
    pub open spec fn ledger_with_trade(self, ledger: Seq<Movement>, after: SimModel) -> Seq<Movement> {
        if after.trades.len() > self.trades.len() {
            ledger.push(Movement::Gain(after.trades.last().pnl))
        } else {
            ledger
        }
    }

    /// The movements after an event.
    pub open spec fn ledger_with_event<M: FillModel>(
        self,
        ledger: Seq<Movement>,
        config: BacktestConfig,
        tape: Seq<Trade>,
        model: &M,
        event: MarketEvent,
    ) -> Seq<Movement> {
        let now = event.time() as i64;
        let s = self.with_candle(config.lookback as nat, event).with_extremes(event);
        let entered = s.with_entry(config, tape, model, now);
        entered.ledger_with_trade(
            s.ledger_with_entry(ledger, config, tape, model, now),
            entered.with_exit(config, tape, model, now),
        )
    }

    /// The movements of the first `n` events.
    pub open spec fn ledger<M: FillModel>(
        config: BacktestConfig,
        events: Seq<MarketEvent>,
        tape: Seq<Trade>,
        model: &M,
        answers: Seq<Option<StrategyIntent>>,
        idle: Timestamp,
        n: nat,
    ) -> Seq<Movement>
        decreases n,
    {
        if n == 0 {
            Seq::empty()
        } else {
            let m = (n - 1) as nat;
            Self::after_events(config, events, tape, model, answers, idle, m).ledger_with_event(
                Self::ledger(config, events, tape, model, answers, idle, m),
                config,
                tape,
                model,
                events[n - 1],
            )
        }
    }

    /// Whether the equity and the trades are those of some movements.
    pub open spec fn accounts_for(self, config: BacktestConfig, ledger: Seq<Movement>) -> bool {
        self.equity == settled_equity(config.initial_equity, ledger) && results(self.trades)
            == gains(ledger)
    }
}

/// One more movement.
proof fn lemma_one_movement(config: BacktestConfig, ledger: Seq<Movement>, m: Movement)
    ensures
        settled_equity(config.initial_equity, ledger.push(m)) == (match m {
            Movement::Fee(fee) => settled_equity(config.initial_equity, ledger).less(fee),
            Movement::Gain(pnl) => settled_equity(config.initial_equity, ledger).sum(pnl),
        }),
        gains(ledger.push(m)) == (match m {
            Movement::Fee(_) => gains(ledger),
            Movement::Gain(pnl) => gains(ledger).push(pnl),
        }),
{
    assert(ledger.push(m).drop_last() =~= ledger);
}

/// An entry that is filled books its fee.
proof fn lemma_entry_accounts<M: FillModel>(
    s: SimModel,
    config: BacktestConfig,
    ledger: Seq<Movement>,
    tape: Seq<Trade>,
    model: &M,
    now: Timestamp,
)
    requires
        s.accounts_for(config, ledger),
    ensures
        s.with_entry(config, tape, model, now).accounts_for(
            config,
            s.ledger_with_entry(ledger, config, tape, model, now),
        ),
{
    let after = s.ledger_with_entry(ledger, config, tape, model, now);
    if after != ledger {
        lemma_one_movement(config, ledger, after.last());
        assert(after == ledger.push(after.last()));
    }
}

/// A state with one more trade, whose result was booked, accounts for it.
proof fn lemma_trade_accounts(
    s: SimModel,
    config: BacktestConfig,
    ledger: Seq<Movement>,
    after: SimModel,
)
    requires
        s.accounts_for(config, ledger),
        after.trades == s.trades && after.equity == s.equity || (after.trades.len()
            == s.trades.len() + 1 && after.trades.drop_last() == s.trades && after.equity
            == s.equity.sum(after.trades.last().pnl)),
    ensures
        after.accounts_for(config, s.ledger_with_trade(ledger, after)),
{
    if after.trades.len() > s.trades.len() {
        let pnl = after.trades.last().pnl;
        lemma_one_movement(config, ledger, Movement::Gain(pnl));
        assert(results(after.trades) =~= results(s.trades).push(pnl));
    }
}

/// An exit that is filled books the result of the trade that it records.
proof fn lemma_exit_accounts<M: FillModel>(
    s: SimModel,
    config: BacktestConfig,
    ledger: Seq<Movement>,
    tape: Seq<Trade>,
    model: &M,
    now: Timestamp,
)
    requires
        s.accounts_for(config, ledger),
    ensures
        s.with_exit(config, tape, model, now).accounts_for(
            config,
            s.ledger_with_trade(ledger, s.with_exit(config, tape, model, now)),
        ),
{
    let after = s.with_exit(config, tape, model, now);
    if after.trades != s.trades {
        assert(after.trades.drop_last() =~= s.trades);
    }
    lemma_trade_accounts(s, config, ledger, after);
}

/// Winding up books the result of the trade that it records.
proof fn lemma_end_accounts(
    s: SimModel,
    config: BacktestConfig,
    ledger: Seq<Movement>,
    events: Seq<MarketEvent>,
    end: Timestamp,
)
    requires
        s.accounts_for(config, ledger),
    ensures
        s.wound_up(config, events, end).accounts_for(
            config,
            s.ledger_with_trade(ledger, s.wound_up(config, events, end)),
        ),
{
    let after = s.wound_up(config, events, end);
    if after.trades != s.trades {
        assert(after.trades.drop_last() =~= s.trades);
    }
    lemma_trade_accounts(s, config, ledger, after);
}

/// An event books what it does.
proof fn lemma_event_accounts<M: FillModel>(
    s: SimModel,
    config: BacktestConfig,
    ledger: Seq<Movement>,
    tape: Seq<Trade>,
    model: &M,
    event: MarketEvent,
    answer: Option<StrategyIntent>,
)
    requires
        s.accounts_for(config, ledger),
    ensures
        s.after_event(config, tape, model, event, answer).accounts_for(
            config,
            s.ledger_with_event(ledger, config, tape, model, event),
        ),
{
    let now = event.time() as i64;
    let shown = s.with_candle(config.lookback as nat, event).with_extremes(event);
    let entered = shown.with_entry(config, tape, model, now);
    let with_fee = shown.ledger_with_entry(ledger, config, tape, model, now);
    assert(shown.accounts_for(config, ledger));
    lemma_entry_accounts(shown, config, ledger, tape, model, now);
    lemma_exit_accounts(entered, config, with_fee, tape, model, now);
    let left = entered.with_exit(config, tape, model, now);
    lemma_answers_move_nothing(left, config, tape, now, answer);
}

/// What the strategy answers moves no equity and closes no trade.
proof fn lemma_answers_move_nothing(
    s: SimModel,
    config: BacktestConfig,
    tape: Seq<Trade>,
    now: Timestamp,
    answer: Option<StrategyIntent>,
)
    ensures
        s.answered(config, tape, now, answer).equity == s.equity,
        s.answered(config, tape, now, answer).trades == s.trades,
{
}

/// At every event the equity is the initial equity after the fees of the entries and the results of
/// the trades, in the order in which they came, and every trade of the record is among them once.
/// Nothing else moves it.
pub proof fn law_equity_is_accounted_for<M: FillModel>(
    config: BacktestConfig,
    events: Seq<MarketEvent>,
    tape: Seq<Trade>,
    model: &M,
    answers: Seq<Option<StrategyIntent>>,
    idle: Timestamp,
    n: nat,
    end: Timestamp,
)
    ensures
        ({
            let s = SimModel::after_events(config, events, tape, model, answers, idle, n);
            let ledger = SimModel::ledger(config, events, tape, model, answers, idle, n);
            let closed = s.wound_up(config, events, end);
            &&& s.accounts_for(config, ledger)
            &&& closed.accounts_for(config, s.ledger_with_trade(ledger, closed))
        }),
    decreases n,
{
    let s = SimModel::after_events(config, events, tape, model, answers, idle, n);
    let ledger = SimModel::ledger(config, events, tape, model, answers, idle, n);
    if n == 0 {
        assert(results(s.trades) =~= Seq::<Decimal>::empty());
    } else {
        let m = (n - 1) as nat;
        law_equity_is_accounted_for(config, events, tape, model, answers, idle, m, end);
        lemma_event_accounts(
            SimModel::after_events(config, events, tape, model, answers, idle, m),
            config,
            SimModel::ledger(config, events, tape, model, answers, idle, m),
            tape,
            model,
            events[n - 1],
            answers[n - 1],
        );
    }
    lemma_end_accounts(s, config, ledger, events, end);
}

/// What some movements come to, added up exactly.
pub open spec fn net(ledger: Seq<Movement>) -> int
    decreases ledger.len(),
{
    if ledger.len() == 0 {
        0
    } else {
        net(ledger.drop_last()) + (match ledger.last() {
            Movement::Fee(fee) => -fee@,
            Movement::Gain(pnl) => pnl@,
        })
    }
}

/// Whether the movement at a place of a ledger is booked without rounding.
pub open spec fn booked_exactly(initial: Decimal, ledger: Seq<Movement>, i: int) -> bool {
    let before = settled_equity(initial, ledger.take(i));
    match ledger[i] {
        Movement::Fee(fee) => before.less(fee)@ == before@ - fee@,
        Movement::Gain(pnl) => before.sum(pnl)@ == before@ + pnl@,
    }
}

/// Where nothing is rounded, the equity is the initial equity, less the fees of the entries, plus
/// the results of the trades.
pub proof fn law_exact_equity(initial: Decimal, ledger: Seq<Movement>)
    requires
        forall|i: int| 0 <= i < ledger.len() ==> #[trigger] booked_exactly(initial, ledger, i),
    ensures
        settled_equity(initial, ledger)@ == initial@ + net(ledger),
    decreases ledger.len(),
{
    if ledger.len() > 0 {
        let n = ledger.len() - 1;
        let rest = ledger.drop_last();
        assert(booked_exactly(initial, ledger, n));
        assert(ledger.take(n) =~= rest);
        assert forall|i: int| 0 <= i < rest.len() implies #[trigger] booked_exactly(
            initial,
            rest,
            i,
        ) by {
            assert(booked_exactly(initial, ledger, i));
            assert(rest.take(i) =~= ledger.take(i));
        }
        law_exact_equity(initial, rest);
    }
}

/// The results and fees of a recorded trade follow from its prices and its quantity.
pub open spec fn settles(t: TradeRecord, maker_rate: Decimal) -> bool {
    crate::settlement::settles_exactly(t.entry_price, t.exit_price, t.quantity, maker_rate) ==> {
        &&& crate::settlement::is_charge(t.fee@, t.exit_price@, t.quantity@, maker_rate@)
        &&& crate::settlement::is_result(
            t.side,
            t.entry_price@,
            t.exit_price@,
            t.quantity@,
            t.fee@,
            t.pnl@,
        )
    }
}

/// A trade closed by a stop or a target records the position that it closed. Where its amounts
/// multiply exactly, its fee is the maker rate of the exit price times the quantity, and its result
/// is `s * (exit - entry) * quantity - fee`, with `s = 1` for a long and `-1` for a short position;
/// so a position closed beyond its entry price without a fee has earned. The equity moves by the
/// result, and the fees grow by the fee.
pub proof fn law_exits_settle_by_the_price<M: FillModel>(
    s: SimModel,
    config: BacktestConfig,
    tape: Seq<Trade>,
    model: &M,
    now: Timestamp,
)
    requires
        s.with_exit(config, tape, model, now).trades != s.trades,
    ensures
        ({
            let after = s.with_exit(config, tape, model, now);
            let t = after.trades.last();
            let rate = config.instrument.fees.maker_rate;
            let u = crate::decimal::unit();
            &&& s.position matches Some(pos) && t.side == pos.side && t.entry_price
                == pos.entry_price && t.entry_at == pos.opened_at
            &&& t.exit_at == now
            &&& after.position is None
            &&& after.trades.len() == s.trades.len() + 1
            &&& after.trades.drop_last() =~= s.trades
            &&& crate::settlement::settles_exactly(
                t.entry_price,
                t.exit_price,
                t.quantity,
                rate,
            ) ==> {
                &&& t.pnl@ * u == (if t.side is Buy {
                    t.exit_price@ - t.entry_price@
                } else {
                    t.entry_price@ - t.exit_price@
                }) * t.quantity@ - t.fee@ * u
                &&& t.fee@ * u * u == t.exit_price@ * t.quantity@ * rate@
                &&& t.fee@ == 0 && t.quantity@ > 0 ==> (t.pnl@ > 0 <==> (if t.side is Buy {
                    t.exit_price@ > t.entry_price@
                } else {
                    t.exit_price@ < t.entry_price@
                }))
            }
            &&& s.equity.adds_exactly(t.pnl) ==> after.equity@ == s.equity@ + t.pnl@
            &&& s.fees.adds_exactly(t.fee) ==> after.fees@ == s.fees@ + t.fee@
            &&& after.standard_fees == s.standard_fees.sum(
                t.exit_price.prod(t.quantity).prod(config.standard_maker_rate),
            )
        }),
{
    let after = s.with_exit(config, tape, model, now);
    let t = after.trades.last();
    let rate = config.instrument.fees.maker_rate;
    if crate::settlement::settles_exactly(t.entry_price, t.exit_price, t.quantity, rate) {
        crate::settlement::lemma_result(t.side, t.entry_price, t.exit_price, t.quantity, rate);
        if t.quantity@ > 0 {
            crate::settlement::law_results_have_the_sign_of_the_move(
                t.side,
                t.entry_price@,
                t.exit_price@,
                t.quantity@,
                t.fee@,
                t.pnl@,
            );
        }
    }
}

/// A stop or a target is filled at the price that the fill model gives, for the quantity that it
/// gives, and is looked for at the level of the stop or the target that was reached.
pub proof fn law_exits_fill_as_the_model_says<M: FillModel>(
    s: SimModel,
    config: BacktestConfig,
    tape: Seq<Trade>,
    model: &M,
    now: Timestamp,
)
    requires
        s.with_exit(config, tape, model, now).trades != s.trades,
    ensures
        s.position matches Some(pos) && (pos.due(config.instrument) matches Some((kind, level)) && ({
            let t = s.with_exit(config, tape, model, now).trades.last();
            let shown = s.exit_context(pos, kind, level, config, tape, now);
            &&& t.exit_reason == kind
            &&& shown.order.side == pos.side.flipped()
            &&& shown.order.limit_price.0 == level
            &&& shown.order.quantity.0 == pos.quantity
            &&& shown.order.purpose is StopLoss <==> kind is StopLoss
            &&& match model.outcome(shown) {
                crate::fill::FillOutcome::Unfilled => false,
                crate::fill::FillOutcome::Full { price } => t.exit_price == price && t.quantity
                    == pos.quantity,
                crate::fill::FillOutcome::Partial { quantity, price } => t.exit_price == price
                    && t.quantity == quantity,
            }
        })),
{
}

/// A position that is still open at the end is closed at the price of the last trade, by the same
/// rules: its result is `s * (exit - entry) * quantity - fee`.
pub proof fn law_winding_up_settles_by_the_price(
    s: SimModel,
    config: BacktestConfig,
    events: Seq<MarketEvent>,
    end: Timestamp,
)
    ensures
        ({
            let after = s.wound_up(config, events, end);
            let rate = config.instrument.fees.maker_rate;
            &&& s.position is None ==> after.trades == s.trades && after.equity == s.equity
            &&& s.position matches Some(pos) ==> ({
                let t = after.trades.last();
                &&& after.trades.len() == s.trades.len() + 1
                &&& t.side == pos.side
                &&& t.entry_price == pos.entry_price
                &&& t.quantity == pos.quantity
                &&& t.entry_at == pos.opened_at
                &&& t.exit_at == end
                &&& t.exit_reason is ForcedAtEnd
                &&& t.exit_price == last_price(events, pos.entry_price)
                &&& settles(t, rate)
                &&& s.equity.adds_exactly(t.pnl) ==> after.equity@ == s.equity@ + t.pnl@
                &&& s.fees.adds_exactly(t.fee) ==> after.fees@ == s.fees@ + t.fee@
                &&& after.standard_fees == s.standard_fees.sum(
                    t.exit_price.prod(t.quantity).prod(config.standard_maker_rate),
                )
                &&& pos.stop_triggered_at is None ==> after.stop_exposures == s.stop_exposures
                &&& pos.stop_triggered_at matches Some(since) ==> ({
                    let x = after.stop_exposures.last();
                    let stop = pos.plan.stop.level(pos.entry_price, pos.side);
                    &&& after.stop_exposures.len() == s.stop_exposures.len() + 1
                    &&& x.triggered_at == since
                    &&& x.resolved_at == end
                    &&& x.resolution is StillOpenAtEnd
                    &&& x.resolved_price == t.exit_price
                    &&& x.stop_price == stop
                    &&& t.exit_price.subtracts_exactly(stop) ==> x.slippage@
                        == crate::decimal::magnitude(t.exit_price@ - stop@)
                })
            })
            &&& after.position is None
            &&& after.curve.last() == (EquityPoint { at: end, equity: after.equity })
        }),
{
    if let Some(pos) = s.position {
        let t = s.wound_up(config, events, end).trades.last();
        let rate = config.instrument.fees.maker_rate;
        if crate::settlement::settles_exactly(t.entry_price, t.exit_price, t.quantity, rate) {
            crate::settlement::lemma_result(t.side, t.entry_price, t.exit_price, t.quantity, rate);
        }
        let stop = pos.plan.stop.level(pos.entry_price, pos.side);
        if t.exit_price.subtracts_exactly(stop) {
            crate::decimal::law_signs(t.exit_price.less(stop));
        }
    }
}

/// The last price is that of the last trade among some events, whatever else comes after it.
pub proof fn law_last_price_is_of_the_last_trade(
    events: Seq<MarketEvent>,
    fallback: Decimal,
    i: int,
)
    requires
        0 <= i < events.len(),
        events[i] is AggTrade,
        forall|j: int| i < j < events.len() ==> !(#[trigger] events[j] is AggTrade),
    ensures
        last_price(events, fallback) == events[i]->AggTrade_0.price.0,
    decreases events.len(),
{
    let before = events.drop_last();
    if i < events.len() - 1 {
        assert(before[i] == events[i]);
        assert(events[events.len() - 1] == events.last());
        assert forall|j: int| i < j < before.len() implies !(#[trigger] before[j] is AggTrade) by {
            assert(before[j] == events[j]);
        }
        law_last_price_is_of_the_last_trade(before, fallback, i);
    }
}

/// Every trade of a run, whether a stop or a target closed it or the end did, has the result that
/// its prices, its quantity and its fee give.
pub proof fn law_every_trade_settles<M: FillModel>(
    config: BacktestConfig,
    events: Seq<MarketEvent>,
    tape: Seq<Trade>,
    model: &M,
    answers: Seq<Option<StrategyIntent>>,
    idle: Timestamp,
    n: nat,
    end: Timestamp,
)
    ensures
        ({
            let s = SimModel::after_events(config, events, tape, model, answers, idle, n);
            let closed = s.wound_up(config, events, end);
            let rate = config.instrument.fees.maker_rate;
            &&& forall|i: int| 0 <= i < s.trades.len() ==> settles(#[trigger] s.trades[i], rate)
            &&& forall|i: int|
                0 <= i < closed.trades.len() ==> settles(#[trigger] closed.trades[i], rate)
        }),
    decreases n,
{
    let s = SimModel::after_events(config, events, tape, model, answers, idle, n);
    let rate = config.instrument.fees.maker_rate;
    if n > 0 {
        let m = (n - 1) as nat;
        let event = events[n - 1];
        let now = event.time() as i64;
        let before = SimModel::after_events(config, events, tape, model, answers, idle, m);
        law_every_trade_settles(config, events, tape, model, answers, idle, m, end);
        let entered = before.with_candle(config.lookback as nat, event).with_extremes(
            event,
        ).with_entry(config, tape, model, now);
        let left = entered.with_exit(config, tape, model, now);
        assert(entered.trades == before.trades);
        lemma_answers_move_nothing(left, config, tape, now, answers[n - 1]);
        assert(s.trades == left.trades);
        if left.trades != entered.trades {
            law_exits_settle_by_the_price(entered, config, tape, model, now);
            let t = left.trades.last();
            if crate::settlement::settles_exactly(t.entry_price, t.exit_price, t.quantity, rate) {
                crate::settlement::lemma_result(
                    t.side,
                    t.entry_price,
                    t.exit_price,
                    t.quantity,
                    rate,
                );
                assert(crate::settlement::is_result(
                    t.side,
                    t.entry_price@,
                    t.exit_price@,
                    t.quantity@,
                    t.fee@,
                    t.pnl@,
                ));
            }
            assert(settles(t, rate));
            assert forall|i: int| 0 <= i < left.trades.len() implies settles(
                #[trigger] left.trades[i],
                rate,
            ) by {
                if i < left.trades.len() - 1 {
                    assert(left.trades[i] == left.trades.drop_last()[i]);
                    assert(settles(entered.trades[i], rate));
                }
            }
        }
    }
    law_winding_up_settles_by_the_price(s, config, events, end);
    let closed = s.wound_up(config, events, end);
    assert forall|i: int| 0 <= i < closed.trades.len() implies settles(
        #[trigger] closed.trades[i],
        rate,
    ) by {
        if i < s.trades.len() {
            assert(closed.trades[i] == s.trades[i]);
        }
    }
}

/// An entry that is filled opens a position of its side at the price and for the quantity of the
/// fill, and pays the maker rate of both: the equity falls and the fees grow by that.
pub proof fn law_entries_pay_their_fee<M: FillModel>(
    s: SimModel,
    config: BacktestConfig,
    tape: Seq<Trade>,
    model: &M,
    now: Timestamp,
    e: PendingModel,
)
    requires
        s.pending == Some(e),
        s.position is None,
        s.with_entry(config, tape, model, now).position is Some,
    ensures
        ({
            let after = s.with_entry(config, tape, model, now);
            let pos = after.position->0;
            let rate = config.instrument.fees.maker_rate;
            let fee = pos.entry_price.prod(pos.quantity).prod(rate);
            &&& now < e.valid_until
            &&& after.pending is None
            &&& pos.side == e.order.side
            &&& pos.opened_at == now
            &&& pos.high_since == pos.entry_price && pos.low_since == pos.entry_price
            &&& pos.plan == e.plan && pos.tp == e.tp && pos.rungs_done == 0
            &&& pos.stop_triggered_at is None
            &&& match model.outcome(SimModel::entry_context(e, config, tape, now)) {
                crate::fill::FillOutcome::Unfilled => false,
                crate::fill::FillOutcome::Full { price } => pos.entry_price == price && pos.quantity
                    == e.order.quantity.0,
                crate::fill::FillOutcome::Partial { quantity, price } => pos.entry_price == price
                    && pos.quantity == quantity,
            }
            &&& crate::settlement::charges_exactly(pos.entry_price, pos.quantity, rate)
                ==> crate::settlement::is_charge(
                fee@,
                pos.entry_price@,
                pos.quantity@,
                rate@,
            )
            &&& s.equity.subtracts_exactly(fee) ==> after.equity@ == s.equity@ - fee@
            &&& s.fees.adds_exactly(fee) ==> after.fees@ == s.fees@ + fee@
            &&& after.standard_fees == s.standard_fees.sum(
                pos.entry_price.prod(pos.quantity).prod(config.standard_maker_rate),
            )
            &&& after.used_signals == s.used_signals.push(e.placed_at)
            &&& after.trades == s.trades
        }),
{
    let pos = s.with_entry(config, tape, model, now).position->0;
    let rate = config.instrument.fees.maker_rate;
    if crate::settlement::charges_exactly(pos.entry_price, pos.quantity, rate) {
        crate::settlement::lemma_charge(pos.entry_price, pos.quantity, rate);
    }
}

/// An entry that rests is dropped when its time is up, and stays while it is neither filled nor
/// out of time; nothing else changes then.
pub proof fn law_entries_run_out<M: FillModel>(
    s: SimModel,
    config: BacktestConfig,
    tape: Seq<Trade>,
    model: &M,
    now: Timestamp,
    e: PendingModel,
)
    requires
        s.pending == Some(e),
    ensures
        now >= e.valid_until ==> s.with_entry(config, tape, model, now) == (SimModel {
            pending: None,
            ..s
        }),
        now < e.valid_until && model.outcome(SimModel::entry_context(e, config, tape, now))
            is Unfilled ==> s.with_entry(config, tape, model, now) == s,
        now < e.valid_until && !(model.outcome(SimModel::entry_context(e, config, tape, now))
            is Unfilled) ==> s.with_entry(config, tape, model, now).position is Some,
{
}

/// The stop is due exactly where the worst price since the entry has reached it, and the next
/// target exactly where the stop is not and the best price has: for a long position the worst is
/// the lowest and the best the highest, for a short position the other way round.
pub proof fn law_exits_are_due_when_reached(pos: OpenModel, instrument: Instrument)
    ensures
        ({
            let s = pos.side.sign();
            let worst = if pos.side is Buy {
                pos.low_since@
            } else {
                pos.high_since@
            };
            let best = if pos.side is Buy {
                pos.high_since@
            } else {
                pos.low_since@
            };
            let stopped = s * worst <= s * pos.stop_level(instrument)@;
            let won = pos.target_level(instrument) matches Some(level) && s * best >= s * level@;
            &&& stopped <==> (pos.due(instrument) matches Some((kind, _)) && kind is StopLoss)
            &&& !stopped && won <==> (pos.due(instrument) matches Some((kind, _)) && kind
                is TakeProfit)
            &&& pos.due(instrument) is None <==> !stopped && !won
            &&& pos.due(instrument) matches Some((kind, level)) ==> level == (if stopped {
                pos.stop_level(instrument)
            } else {
                pos.target_level(instrument)->0
            })
        }),
{
    match pos.side {
        Side::Buy => {
            assert(pos.side.sign() == 1);
        },
        Side::Sell => {
            assert(pos.side.sign() == -1);
        },
    }
}

/// The extremes take up every price: the highest never falls, the lowest never rises, and either
/// is a price that was seen.
pub proof fn law_extremes_take_up_prices(pos: OpenModel, price: Decimal)
    ensures
        pos.seen(price).high_since@ >= price@,
        pos.seen(price).high_since@ >= pos.high_since@,
        pos.seen(price).low_since@ <= price@,
        pos.seen(price).low_since@ <= pos.low_since@,
        pos.seen(price).high_since == price || pos.seen(price).high_since == pos.high_since,
        pos.seen(price).low_since == price || pos.seen(price).low_since == pos.low_since,
{
}

/// A markout is the move of the price in favour of the side that was filled: the first price at
/// or after one, five, thirty and three hundred seconds, less the price of the fill, counted up
/// for a long and down for a short position.
pub proof fn law_markouts_favour_the_side(
    tape: Seq<Trade>,
    at: Timestamp,
    price: Decimal,
    side: Side,
)
    ensures
        ({
            let m = markout_of(tape, at, price, side);
            let s = side.sign();
            let p1 = price_later(tape, at, 1000, price);
            let p5 = price_later(tape, at, 5000, price);
            let p30 = price_later(tape, at, 30000, price);
            let p300 = price_later(tape, at, 300000, price);
            &&& m.at == at && m.price == price && (m.side is Long <==> side is Buy)
            &&& price.subtracts_exactly(p1) && p1.subtracts_exactly(price) ==> m.markout_1s@ == s
                * (p1@ - price@)
            &&& price.subtracts_exactly(p5) && p5.subtracts_exactly(price) ==> m.markout_5s@ == s
                * (p5@ - price@)
            &&& price.subtracts_exactly(p30) && p30.subtracts_exactly(price) ==> m.markout_30s@
                == s * (p30@ - price@)
            &&& price.subtracts_exactly(p300) && p300.subtracts_exactly(price) ==> m.markout_5m@
                == s * (p300@ - price@)
        }),
{
}

/// A stop that was not filled when it was reached is reported once the position is closed: from
/// when to when it was exposed, and how far from the stop the position was closed.
pub proof fn law_exposures_measure_the_slip<M: FillModel>(
    s: SimModel,
    config: BacktestConfig,
    tape: Seq<Trade>,
    model: &M,
    now: Timestamp,
)
    requires
        s.with_exit(config, tape, model, now).trades != s.trades,
    ensures
        ({
            let after = s.with_exit(config, tape, model, now);
            let pos = s.position->0;
            let t = after.trades.last();
            &&& pos.stop_triggered_at is None ==> after.stop_exposures == s.stop_exposures
            &&& pos.stop_triggered_at matches Some(since) ==> ({
                let x = after.stop_exposures.last();
                let (_, level) = pos.due(config.instrument)->0;
                &&& after.stop_exposures.len() == s.stop_exposures.len() + 1
                &&& x.triggered_at == since
                &&& x.resolved_at == now
                &&& x.resolution is FilledLater
                &&& x.resolved_price == t.exit_price
                &&& x.stop_price == level
                &&& t.exit_price.subtracts_exactly(level) ==> x.slippage@
                    == crate::decimal::magnitude(t.exit_price@ - level@)
            })
            &&& after.markouts == s.markouts.push(markout_of(tape, now, t.exit_price, t.side))
        }),
{
    let after = s.with_exit(config, tape, model, now);
    let pos = s.position->0;
    let t = after.trades.last();
    let (_, level) = pos.due(config.instrument)->0;
    if t.exit_price.subtracts_exactly(level) {
        crate::decimal::law_signs(t.exit_price.less(level));
    }
}

/// The part of the optimistic fills that has to come true is what the honest model loses of the
/// optimistic profit, as a part of that profit, and nothing where it loses none; a profit is needed
/// to speak of.
pub proof fn law_breakeven_rate_is_what_is_lost(m0_profit: Decimal, m1_profit: Decimal)
    requires
        m0_profit@ > 0,
        m1_profit@ >= 0 ==> m1_profit.divides_exactly(m0_profit) && Decimal::whole(
            1,
        ).subtracts_exactly(m1_profit.per(m0_profit).smaller(Decimal::whole(1))),
        m1_profit@ < 0 ==> m0_profit.subtracts_exactly(m1_profit) && m0_profit.less(
            m1_profit,
        ).divides_exactly(m0_profit),
    ensures
        breakeven_rate(m0_profit, m1_profit) matches Some(rate) && rate@ * m0_profit@ == (
        if m1_profit@ >= m0_profit@ {
            0
        } else {
            m0_profit@ - m1_profit@
        }) * crate::decimal::unit(),
{
    crate::decimal::lemma_of_parts(0, 0);
    crate::decimal::lemma_of_parts(1, 0);
    crate::decimal::lemma_pow10_28();
    let u = crate::decimal::unit();
    let a = m0_profit@;
    let b = m1_profit@;
    let rate = breakeven_rate(m0_profit, m1_profit)->0@;
    if b >= 0 {
        let q = m1_profit.per(m0_profit)@;
        assert(q >= u <==> b >= a) by (nonlinear_arith)
            requires
                q * a == b * u,
                a > 0,
                u > 0,
        ;
        assert((u - q) * a == (a - b) * u) by (nonlinear_arith)
            requires
                q * a == b * u,
        ;
        assert(0 * a == 0 && 0 * u == 0);
        if b < a {
            assert(rate == u - q);
        } else {
            assert(rate == 0);
        }
    } else {
        let q = m0_profit.less(m1_profit).per(m0_profit)@;
        assert(q > 0) by (nonlinear_arith)
            requires
                q * a == (a - b) * u,
                a > 0,
                b < 0,
                u > 0,
        ;
        assert(rate == q);
    }
}

/// The curve gains a point exactly where an hour or more has passed since its last one, and the
/// point is the equity of that time.
pub proof fn law_curve_is_sampled_hourly(s: SimModel, now: Timestamp)
    requires
        s.curve.len() > 0,
    ensures
        s.sampled(now).curve.len() == s.curve.len() + 1 <==> now - s.curve.last().at >= 3600000,
        s.sampled(now).curve != s.curve ==> s.sampled(now).curve.last() == (EquityPoint {
            at: now,
            equity: s.equity,
        }),
        s.sampled(now).equity == s.equity,
        s.sampled(now).trades == s.trades,
{
}

/// An entry that was sent is as the strategy wished it: of its side, at its price on the tick grid,
/// with its plan and its deadline. It passed the risk checks, its signal was not used before, no
/// trade reached it on its way, and it has a quantity.
pub proof fn law_sent_entries_passed_all_checks(
    s: SimModel,
    config: BacktestConfig,
    tape: Seq<Trade>,
    now: Timestamp,
    req: EnterRequest,
)
    requires
        s.pending is None,
        s.weighed(config, tape, now, req).pending is Some,
    ensures
        ({
            let e = s.weighed(config, tape, now, req).pending->0;
            &&& !s.used_signals.contains(now)
            &&& config.limits.verdict(
                config.instrument,
                req.side,
                req.entry,
                req.stop,
                first_target(req),
                leverage_of(req.size),
            ) is Pass
            &&& config.instrument.precision.priced(req.side, req.entry, PriceRole::PassiveEntry)
                matches Ok(price) && e.order.limit_price == price
            &&& !SimModel::crossed_on_the_way(config, tape, now, req.side, e.order.limit_price.0)
            &&& e.order.side == req.side
            &&& e.order.purpose is Entry
            &&& Some(e.order.quantity) == req.size.resolved(
                e.order.limit_price,
                s.equity,
                config.instrument.precision,
            )
            &&& e.plan == req.protection
            &&& e.tp == req.take_profit@
            &&& e.placed_at == now
            &&& e.valid_until == req.valid_until
            &&& s.weighed(config, tape, now, req).equity == s.equity
        }),
{
}

/// By how much one candle of a minute starts after another ended.
pub open spec fn time_lost(a: Candle, b: Candle) -> int {
    if b.open_time - a.open_time > 60000 {
        b.open_time - a.open_time - 60000
    } else {
        0
    }
}

/// The time lost between candles that follow each other, added up.
pub open spec fn all_time_lost(candles: Seq<Candle>) -> int
    decreases candles.len(),
{
    if candles.len() <= 1 {
        0
    } else {
        all_time_lost(candles.drop_last()) + time_lost(
            candles[candles.len() - 2],
            candles[candles.len() - 1],
        )
    }
}

/// How often time is lost between candles that follow each other.
pub open spec fn times_lost(candles: Seq<Candle>) -> nat
    decreases candles.len(),
{
    if candles.len() <= 1 {
        0
    } else {
        times_lost(candles.drop_last()) + (if time_lost(
            candles[candles.len() - 2],
            candles[candles.len() - 1],
        ) > 0 {
            1nat
        } else {
            0nat
        })
    }
}

/// The times of some candles are far from the ends of the range.
pub open spec fn timed_within(events: Seq<MarketEvent>) -> bool {
    forall|i: int|
        0 <= i < events.len() ==> (#[trigger] events[i] matches MarketEvent::Kline(c)
            ==> -4000000000000000000 <= c.open_time <= 4000000000000000000)
}

/// A gap is where a closed candle starts more than a minute after the closed candle before it; the
/// time that is missing is what is beyond the minute, over all gaps. Candles in the making and other
/// events make none.
pub proof fn law_gaps_are_between_closed_candles(events: Seq<MarketEvent>)
    requires
        timed_within(events),
        all_time_lost(closed_candles(events)) <= i64::MAX,
    ensures
        gap_count(events) == times_lost(closed_candles(events)),
        missing_ms(events) == all_time_lost(closed_candles(events)),
        0 <= missing_ms(events),
    decreases events.len(),
{
    if events.len() > 0 {
        let before = events.drop_last();
        let n = events.len() - 1;
        assert forall|i: int| 0 <= i < before.len() implies (#[trigger] before[i] matches
            MarketEvent::Kline(c) ==> -4000000000000000000 <= c.open_time <= 4000000000000000000) by {
            assert(before[i] == events[i]);
        }
        lemma_time_lost(closed_candles(events));
        lemma_last_closed(before);
        assert(events[n] == events.last());
        let earlier = closed_candles(before);
        let all = closed_candles(events);
        if let MarketEvent::Kline(c) = events.last() {
            if c.closed {
                assert(all == earlier.push(c));
                assert(all.drop_last() =~= earlier);
                if earlier.len() > 0 {
                    lemma_time_lost(earlier);
                    lemma_closed_within(before);
                }
            }
        }
        law_gaps_are_between_closed_candles(before);
    }
}

proof fn lemma_time_lost(candles: Seq<Candle>)
    ensures
        all_time_lost(candles) >= 0,
        candles.len() > 0 ==> all_time_lost(candles.drop_last()) <= all_time_lost(candles),
    decreases candles.len(),
{
    if candles.len() > 0 {
        lemma_time_lost(candles.drop_last());
    }
}

proof fn lemma_last_closed(events: Seq<MarketEvent>)
    ensures
        last_closed(events) == (if closed_candles(events).len() == 0 {
            None
        } else {
            Some(closed_candles(events).last())
        }),
    decreases events.len(),
{
    if events.len() > 0 {
        lemma_last_closed(events.drop_last());
    }
}

proof fn lemma_closed_within(events: Seq<MarketEvent>)
    requires
        timed_within(events),
    ensures
        forall|i: int|
            0 <= i < closed_candles(events).len() ==> -4000000000000000000 <= (
            #[trigger] closed_candles(events)[i]).open_time <= 4000000000000000000,
    decreases events.len(),
{
    if events.len() > 0 {
        let before = events.drop_last();
        assert forall|i: int| 0 <= i < before.len() implies (#[trigger] before[i] matches
            MarketEvent::Kline(c) ==> -4000000000000000000 <= c.open_time <= 4000000000000000000) by {
            assert(before[i] == events[i]);
        }
        lemma_closed_within(before);
        assert(events[events.len() - 1] == events.last());
        let all = closed_candles(events);
        assert forall|i: int| 0 <= i < all.len() implies -4000000000000000000 <= (
        #[trigger] all[i]).open_time <= 4000000000000000000 by {
            if i < closed_candles(before).len() {
                assert(all[i] == closed_candles(before)[i]);
            }
        }
    }
}

/// At the standard fee a run ends with what it ended with, less what it saved on fees; and that is
/// what the fee contributed.
pub proof fn law_standard_fees_lower_the_result(
    r: BacktestResult,
    end: SimModel,
    config: BacktestConfig,
    events: Seq<MarketEvent>,
    strategy_id: Seq<char>,
    params: Map<Seq<char>, Seq<char>>,
    fill_model: Seq<char>,
    optimism: Optimism,
    idle: Timestamp,
)
    requires
        r.reports(end, config, events, strategy_id, params, fill_model, optimism, idle),
        end.equity.subtracts_exactly(config.initial_equity),
        config.initial_equity.adds_exactly(end.equity.less(config.initial_equity)),
        end.standard_fees.subtracts_exactly(end.fees),
        config.initial_equity.sum(end.equity.less(config.initial_equity)).subtracts_exactly(
            end.standard_fees.less(end.fees),
        ),
    ensures
        r.final_equity_at_standard_fee@ == end.equity@ - (end.standard_fees@ - end.fees@),
        r.provenance.fees.fee_contribution@ == end.standard_fees@ - end.fees@,
        r.provenance.fees.incomplete <==> config.fee_source is PromotionalAssumed
            || config.fee_source is ConfiguredDefault,
{
}

/// The candles of a run are all the candles among its events, closed or not.
pub proof fn law_candles_are_counted(events: Seq<MarketEvent>)
    ensures
        candle_count(events) == events.filter(|e: MarketEvent| e is Kline).len(),
        candle_count(events) <= events.len(),
    decreases events.len(),
{
    reveal(Seq::filter);
    if events.len() > 0 {
        law_candles_are_counted(events.drop_last());
    }
}

/// An attempt is counted whenever an entry is sent. It counts as refused exactly where a trade reached
/// its price on its way; such an entry does not rest.
pub proof fn law_attempts_are_counted(
    s: SimModel,
    config: BacktestConfig,
    tape: Seq<Trade>,
    now: Timestamp,
    req: EnterRequest,
    price: Decimal,
)
    requires
        s.pending is None,
        s.latency.attempts < usize::MAX,
        s.latency.rejected_post_only < usize::MAX,
    ensures
        ({
            let after = s.sent(config, tape, now, req, price);
            let crossed = SimModel::crossed_on_the_way(config, tape, now, req.side, price);
            &&& after.latency.attempts == s.latency.attempts + 1
            &&& crossed ==> after.latency.rejected_post_only == s.latency.rejected_post_only + 1
                && after.pending is None
            &&& !crossed ==> after.latency.rejected_post_only == s.latency.rejected_post_only
            &&& after.latency.assumed_latency_ms == s.latency.assumed_latency_ms
            &&& after.equity == s.equity
        }),
{
}

/// An entry is crossed on its way exactly where some trade, within the latency from when it was sent,
/// is at the price of the entry or beyond: at or below it for a buyer, at or above it for a seller.
pub proof fn law_entries_are_crossed_within_the_latency(
    config: BacktestConfig,
    tape: Seq<Trade>,
    now: Timestamp,
    side: Side,
    price: Decimal,
)
    requires
        crate::liquidity::ordered_trades(tape),
        config.assumed_latency_ms <= i64::MAX,
        now + config.assumed_latency_ms <= i64::MAX,
    ensures
        SimModel::crossed_on_the_way(config, tape, now, side, price) <==> exists|i: int|
            0 <= i < tape.len() && now <= (#[trigger] tape[i]).at && tape[i].at < now
                + config.assumed_latency_ms && side.sign() * tape[i].price.0@ <= side.sign() * price@,
{
    let to = crate::clock::moved(now as int, latency_of(config.assumed_latency_ms)) as i64;
    let during = crate::liquidity::between(tape, now, to);
    let a = crate::liquidity::count_before(tape, now) as int;
    let b = crate::liquidity::count_before(tape, to) as int;
    crate::liquidity::law_cut_by_time(tape, now);
    crate::liquidity::law_cut_by_time(tape, to);
    assert(a <= b) by {
        if b < a {
            assert(tape[b].at >= to && tape[b].at < now);
        }
    }
    if exists|i: int|
        0 <= i < tape.len() && now <= (#[trigger] tape[i]).at && tape[i].at < now
            + config.assumed_latency_ms && side.sign() * tape[i].price.0@ <= side.sign() * price@ {
        let i = choose|i: int|
            0 <= i < tape.len() && now <= (#[trigger] tape[i]).at && tape[i].at < now
                + config.assumed_latency_ms && side.sign() * tape[i].price.0@ <= side.sign() * price@;
        assert(a <= i < b);
        assert(during[i - a] == tape[i]);
        crate::fill::law_prices_reach_from_the_other_side(side, tape[i].price.0, price);
        assert(crate::fill::reaches(side, during[i - a].price.0, price));
    }
    if SimModel::crossed_on_the_way(config, tape, now, side, price) {
        let i = choose|i: int|
            0 <= i < during.len() && crate::fill::reaches(
                side,
                (#[trigger] during[i]).price.0,
                price,
            );
        assert(during[i] == tape[a + i]);
        crate::fill::law_prices_reach_from_the_other_side(side, tape[a + i].price.0, price);
        assert(now <= tape[a + i].at && tape[a + i].at < to);
    }
}

/// Everything that is not done is counted under its reason, and under no other.
pub proof fn law_refusals_are_counted(s: SimModel, reason: StandDownReason, other: Seq<char>)
    requires
        s.rejections.dom().contains(reason.said()) ==> s.rejections[reason.said()] < usize::MAX,
        other != reason.said(),
    ensures
        ({
            let before = if s.rejections.dom().contains(reason.said()) {
                s.rejections[reason.said()] as int
            } else {
                0
            };
            let after = s.refused(reason);
            &&& after.rejections.dom().contains(reason.said())
            &&& after.rejections[reason.said()] == before + 1
            &&& after.rejections.dom().contains(other) <==> s.rejections.dom().contains(other)
            &&& s.rejections.dom().contains(other) ==> after.rejections[other] == s.rejections[other]
            &&& after.pending == s.pending && after.position == s.position && after.equity
                == s.equity
        }),
{
}

/// A wish that is not sent is refused for its reason: a signal that was used, what the risk checks say,
/// or too little equity for a quantity. One that cannot be priced is refused as too wide.
pub proof fn law_wishes_are_refused_for_their_reason(
    s: SimModel,
    config: BacktestConfig,
    tape: Seq<Trade>,
    now: Timestamp,
    req: EnterRequest,
)
    requires
        s.pending is None,
    ensures
        ({
            let after = s.weighed(config, tape, now, req);
            let verdict = config.limits.verdict(
                config.instrument,
                req.side,
                req.entry,
                req.stop,
                first_target(req),
                leverage_of(req.size),
            );
            let priced = config.instrument.precision.priced(
                req.side,
                req.entry,
                PriceRole::PassiveEntry,
            );
            let used = s.used_signals.contains(now);
            &&& used ==> after == s.refused(StandDownReason::SignalAlreadyUsed)
            &&& !used && priced is Ok ==> (verdict matches RiskVerdict::Reject(reason) ==> after
                == s.refused(reason))
            &&& !used && priced is Err && verdict is Pass ==> after == s.refused(
                StandDownReason::StopTooWide,
            )
            &&& !used && verdict is Pass ==> (priced matches Ok(price) && !SimModel::crossed_on_the_way(
                config,
                tape,
                now,
                req.side,
                price.0,
            ) && req.size.resolved(price, s.equity, config.instrument.precision) is None
                ==> after.rejections == s.refused(StandDownReason::InsufficientEquity).rejections
                && after.pending is None)
        }),
{
}

/// What a strategy answers: nothing changes nothing, a reason to stand down is counted, a wish to leave
/// drops the entry that rests, and only a wish to enter can open one.
pub proof fn law_answers_do_what_they_say(
    s: SimModel,
    config: BacktestConfig,
    tape: Seq<Trade>,
    now: Timestamp,
    answer: Option<StrategyIntent>,
)
    ensures
        ({
            let after = s.answered(config, tape, now, answer);
            &&& answer is None ==> after == s
            &&& answer matches Some(StrategyIntent::StandDown { reason }) ==> after == s.refused(reason)
            &&& answer matches Some(StrategyIntent::ExitNow { .. }) ==> after.pending is None
                && after.position == s.position && after.rejections == s.rejections
            &&& !(answer matches Some(StrategyIntent::Enter(_))) ==> (after.pending is Some
                ==> after.pending == s.pending)
        }),
{
}

/// A wish is weighed with the price of its first target and with the leverage that it asks for: one
/// where it names a quantity.
pub proof fn law_wishes_are_weighed_by_their_first_target(req: EnterRequest)
    ensures
        req.take_profit@.pairs().len() > 0 ==> ({
            let (pct, _) = req.take_profit@.pairs()[0];
            first_target(req) == req.side.target(req.entry, pct)
        }),
        req.take_profit@.pairs().len() == 0 ==> first_target(req) == req.entry,
        req.size matches SizeHint::EquityFraction { leverage, .. } ==> leverage_of(req.size)
            == leverage,
        req.size is Fixed ==> leverage_of(req.size)@ == crate::decimal::unit(),
{
    crate::decimal::lemma_of_parts(1, 0);
    crate::decimal::lemma_pow10_28();
}

/// A stop that is reached and not filled is noted as exposed from the first trade since the position was
/// opened, or from now where there is none; one that was noted keeps its time.
pub proof fn law_exposure_begins_with_the_first_trade<M: FillModel>(
    s: SimModel,
    config: BacktestConfig,
    tape: Seq<Trade>,
    model: &M,
    now: Timestamp,
    pos: OpenModel,
)
    requires
        crate::liquidity::ordered_trades(tape),
        s.position == Some(pos),
        pos.opened_at <= now,
        s.with_exit(config, tape, model, now).position is Some,
    ensures
        ({
            let left = s.with_exit(config, tape, model, now).position->0;
            &&& pos.stop_triggered_at is Some ==> left.stop_triggered_at == pos.stop_triggered_at
            &&& left.stop_triggered_at != pos.stop_triggered_at ==> (left.stop_triggered_at matches Some(
                since,
            ) && (since == now || exists|i: int|
                0 <= i < tape.len() && (#[trigger] tape[i]).at == since && pos.opened_at <= since
                    < now && forall|j: int|
                    0 <= j < i ==> (#[trigger] tape[j]).at < pos.opened_at))
        }),
{
    let left = s.with_exit(config, tape, model, now).position->0;
    let early = crate::liquidity::between(tape, pos.opened_at, now);
    let a = crate::liquidity::count_before(tape, pos.opened_at) as int;
    let b = crate::liquidity::count_before(tape, now) as int;
    crate::liquidity::law_cut_by_time(tape, pos.opened_at);
    crate::liquidity::law_cut_by_time(tape, now);
    assert(a <= b) by {
        if b < a {
            assert(tape[b].at >= now && tape[b].at < pos.opened_at);
        }
    }
    if early.len() > 0 {
        assert(early[0] == tape[a]);
        assert(tape[a].at < now);
    }
}

/// An entry that is filled is booked in the life cycle: as an order that is filled by the quantity of the
/// fill, with a position of its side, price and quantity, and with its fee.
pub proof fn law_entries_are_booked(
    s: SimModel,
    config: BacktestConfig,
    e: PendingModel,
    price: Decimal,
    quantity: Decimal,
    fee: Decimal,
    now: Timestamp,
)
    requires
        !s.book.orders.dom().contains(e.order.client_id),
        !s.book.seen.contains("bt-fill-"@ + e.order.client_id),
        !s.book.positions.dom().contains(e.order.symbol),
        e.order.purpose is Entry,
        Decimal::whole(0).adds_exactly(quantity),
        quantity@ <= e.order.quantity.0@,
    ensures
        ({
            let after = s.book_with_entry(config, e, price, quantity, fee, now);
            let asset = config.instrument.settlement_asset@;
            &&& after.orders.dom().contains(e.order.client_id)
            &&& after.orders[e.order.client_id].filled.0@ == quantity@
            &&& after.orders[e.order.client_id].order == e.order
            &&& after.positions.dom().contains(e.order.symbol)
            &&& after.positions[e.order.symbol].side == e.order.side
            &&& after.positions[e.order.symbol].quantity.0 == quantity
            &&& after.positions[e.order.symbol].entry_price.0 == price
            &&& after.result_of(asset) == s.book.result_of(asset).sum(fee)
            &&& after.seen == s.book.seen.insert("bt-fill-"@ + e.order.client_id)
        }),
{
    crate::decimal::lemma_of_parts(0, 0);
}

} // verus!
