//! The paper engine: the desk on live quotes, with orders matched locally.
//!
//! It has no rules of its own. Fills come from the fill model, protection from the planner, the
//! life of orders from the order book, and a strategy's wish takes the same way as an operator's
//! order. It keeps at most one entry or one position at a time.

use vstd::prelude::*;
use crate::backtest::compile_protection;
use crate::clock::{after, Timestamp};
use crate::decimal::Decimal;
use crate::error::{DomainError, Fault};
use crate::fill::{ContextModel, FillContext, FillModel, M1TradeThroughQueue, Optimism};
use crate::instrument::Instrument;
use crate::keyed::TextMap;
use crate::liquidity::{Trade, TradeTape};
use crate::market::{Candle, MarketEvent};
use crate::mode::{LiveSafety, ServiceMode};
use crate::money::{Price, Qty};
use crate::order::{
    following, ClientOrderId, Order, OrderModel, OrderPurpose, OrderState, Side, TimeInForce,
};
use crate::position_set::{
    check_consistency, holds, on_stop_filled, on_take_profit_filled, preview_manual, ManualPlan,
    ManualPreview, PlanModel, PositionSet, PositionView, PreviewModel, SetModel,
};
use crate::precision::PriceRole;
use crate::protection::{
    target_price, unit_gain, ActionModel, EntryFill, EntryModel, ProtectionAction, ProtectionPlan,
    StopSpec, TpModel, TpPlan,
};
use crate::risk::{seconds_between, RiskLimits};
use crate::state::{
    BookModel, EventModel, ExecEvent, Fill, FillReport, OrderBookState, Position, PositionModel,
    TrackedModel, TrackedOrder,
};
use crate::strategy::{
    EnterRequest, MarketView, StandDownReason, Strategy, StrategyIntent,
};
use crate::text::{joined, joined3, joined5, u64_text};

verus! {

/// What the engine is set up with.
#[derive(Debug)]
pub struct EngineConfig {
    pub instrument: Instrument,
    pub limits: RiskLimits,
    pub initial_equity: Decimal,
    /// How long an order is assumed to take to the exchange.
    pub assumed_latency_ms: u64,
    /// How many closed candles are kept, at least a hundred and twenty.
    pub max_candles: usize,
    /// How old the last quote may be, in seconds, for a position to be opened.
    pub max_staleness_secs: i64,
}

impl Clone for EngineConfig {
    fn clone(&self) -> (r: Self)
        ensures
            r == *self,
    {
        EngineConfig {
            instrument: self.instrument.clone(),
            limits: self.limits,
            initial_equity: self.initial_equity,
            assumed_latency_ms: self.assumed_latency_ms,
            max_candles: self.max_candles,
            max_staleness_secs: self.max_staleness_secs,
        }
    }
}

/// How a trade ended.
#[derive(Clone, Copy, Debug, PartialEq, Eq, Structural)]
pub enum ExitReason {
    TakeProfit,
    StopLoss,
    Manual,
}

/// Something the engine reports.
#[derive(Debug, PartialEq, Eq)]
pub enum EngineEvent {
    /// What is shown has changed.
    StateChanged,
    /// Something an operator has to see.
    Alarm(String),
    Filled { order: ClientOrderId, quantity: Decimal, price: Decimal, fee: Decimal },
    /// A position was entered and is closed again.
    TradeClosed {
        entry_price: Decimal,
        exit_price: Decimal,
        quantity: Decimal,
        pnl: Decimal,
        exit_reason: ExitReason,
    },
    /// A position was not opened.
    Rejected { reason: String },
}

/// An [`EngineEvent`] with its texts as sequences of characters.
pub enum ReportModel {
    StateChanged,
    Alarm(Seq<char>),
    Filled { order: Seq<char>, quantity: Decimal, price: Decimal, fee: Decimal },
    TradeClosed {
        entry_price: Decimal,
        exit_price: Decimal,
        quantity: Decimal,
        pnl: Decimal,
        exit_reason: ExitReason,
    },
    Rejected { reason: Seq<char> },
}

impl View for EngineEvent {
    type V = ReportModel;

    open spec fn view(&self) -> ReportModel {
        match *self {
            EngineEvent::StateChanged => ReportModel::StateChanged,
            EngineEvent::Alarm(s) => ReportModel::Alarm(s@),
            EngineEvent::Filled { order, quantity, price, fee } => ReportModel::Filled {
                order: order@,
                quantity,
                price,
                fee,
            },
            EngineEvent::TradeClosed { entry_price, exit_price, quantity, pnl, exit_reason } =>
                ReportModel::TradeClosed { entry_price, exit_price, quantity, pnl, exit_reason },
            EngineEvent::Rejected { reason } => ReportModel::Rejected { reason: reason@ },
        }
    }
}

impl EngineEvent {
    /// Several events by their models.
    pub open spec fn models(s: Seq<EngineEvent>) -> Seq<ReportModel> {
        s.map_values(|e: EngineEvent| e@)
    }
}

/// The state of the engine, for display.
#[derive(Debug)]
pub struct EngineSnapshot {
    pub mode: ServiceMode,
    pub symbol: String,
    pub equity: Decimal,
    pub realized_pnl: Decimal,
    pub unrealized_pnl: Decimal,
    pub position: Option<PositionView>,
    pub open_orders: Vec<OrderSnapshot>,
    pub feed_connected: bool,
    pub last_event_at: Option<Timestamp>,
    /// Why nothing is done.
    pub stand_down: Option<&'static str>,
    pub safety: LiveSafety,
}

/// An order, for display.
#[derive(Debug, PartialEq, Eq)]
pub struct OrderSnapshot {
    pub client_id: String,
    pub purpose: OrderPurpose,
    pub side: Side,
    pub quantity: Decimal,
    pub limit_price: Decimal,
    pub filled: Decimal,
    pub state: &'static str,
}

/// What became of a plan.
#[derive(Debug, PartialEq, Eq)]
pub enum SubmitOutcome {
    /// The entry rests.
    Accepted(Box<ManualPreview>),
    /// Refused by the risk checks or for its values.
    Rejected { reason: String },
}

/// A [`SubmitOutcome`] with its texts and lists as sequences.
pub enum SubmitModel {
    Accepted(PreviewModel),
    Rejected { reason: Seq<char> },
}

impl View for SubmitOutcome {
    type V = SubmitModel;

    open spec fn view(&self) -> SubmitModel {
        match *self {
            SubmitOutcome::Accepted(p) => SubmitModel::Accepted((*p)@),
            SubmitOutcome::Rejected { reason } => SubmitModel::Rejected { reason: reason@ },
        }
    }
}

/// An entry that rests.
#[derive(Debug)]
struct PendingOrder {
    order: Order,
    plan: ProtectionPlan,
    tp: TpPlan,
    placed_at: Timestamp,
    valid_until: Timestamp,
    /// How often the order was sent.
    attempts: usize,
    /// How often it was refused for being post-only.
    rejected: usize,
}

/// An entry that rests.
pub struct RestingModel {
    pub order: OrderModel,
    pub plan: ProtectionPlan,
    pub tp: TpModel,
    pub placed_at: Timestamp,
    pub valid_until: Timestamp,
    pub attempts: usize,
    pub rejected: usize,
}

impl PendingOrder {
    spec fn model(&self) -> RestingModel {
        RestingModel {
            order: self.order@,
            plan: self.plan,
            tp: self.tp@,
            placed_at: self.placed_at,
            valid_until: self.valid_until,
            attempts: self.attempts,
            rejected: self.rejected,
        }
    }
}

/// The state of the engine.
pub struct PaperModel<M> {
    pub config: EngineConfig,
    pub fill_model: M,
    pub book: BookModel,
    pub position: Option<SetModel>,
    /// Closed candles, oldest first.
    pub candles: Seq<Candle>,
    pub tape: Seq<Trade>,
    pub realized: Decimal,
    pub fees: Decimal,
    pub pending: Option<RestingModel>,
    pub stand_down: Option<StandDownReason>,
    pub safety: LiveSafety,
    pub events: Seq<ReportModel>,
    pub next_order_id: u64,
    pub feed_connected: bool,
    pub last_event_at: Option<Timestamp>,
}

/// The book after the orders of a protection are registered.
pub open spec fn with_protection(book: BookModel, actions: Seq<ActionModel>, now: Timestamp) -> BookModel
    decreases actions.len(),
{
    if actions.len() == 0 {
        book
    } else {
        let before = with_protection(book, actions.drop_last(), now);
        match actions.last() {
            ActionModel::Place(o) => before.registered(o, now).0,
            _ => before,
        }
    }
}

/// The price of the stop among the orders of a protection.
pub open spec fn stop_among(actions: Seq<ActionModel>) -> Option<Price>
    decreases actions.len(),
{
    if actions.len() == 0 {
        None
    } else {
        match actions.last() {
            ActionModel::Place(o) => if o.purpose is StopLoss {
                Some(o.limit_price)
            } else {
                stop_among(actions.drop_last())
            },
            _ => stop_among(actions.drop_last()),
        }
    }
}

/// Whether a trade has reached the stop of a position.
pub open spec fn stop_reached(side: Side, stop: Decimal, trades: Seq<Trade>) -> bool {
    exists|i: int|
        0 <= i < trades.len() && crate::fill::reaches(side, (#[trigger] trades[i]).price.0, stop)
}

/// The label of an order's state.
pub open spec fn state_label(s: OrderState) -> Seq<char> {
    match s {
        OrderState::PendingSubmit => "待提交"@,
        OrderState::Live => "挂单中"@,
        OrderState::PartiallyFilled { .. } => "部分成交"@,
        OrderState::Filled { .. } => "已成交"@,
        OrderState::Cancelled { .. } => "已撤销"@,
        OrderState::Rejected { .. } => "已拒绝"@,
        OrderState::Expired => "已过期"@,
        OrderState::Unknown { .. } => "状态未知"@,
    }
}

fn state_tag(s: &OrderState) -> (r: &'static str)
    ensures
        r@ == state_label(*s),
{
    match s {
        OrderState::PendingSubmit => "待提交",
        OrderState::Live => "挂单中",
        OrderState::PartiallyFilled { .. } => "部分成交",
        OrderState::Filled { .. } => "已成交",
        OrderState::Cancelled { .. } => "已撤销",
        OrderState::Rejected { .. } => "已拒绝",
        OrderState::Expired => "已过期",
        OrderState::Unknown { .. } => "状态未知",
    }
}

impl OrderSnapshot {
    /// Whether this is how an order is shown.
    pub open spec fn shows(self, t: TrackedModel) -> bool {
        &&& self.client_id@ == t.order.client_id
        &&& self.purpose == t.order.purpose
        &&& self.side == t.order.side
        &&& self.quantity == t.order.quantity.0
        &&& self.limit_price == t.order.limit_price.0
        &&& self.filled == t.filled.0
        &&& self.state@ == state_label(t.state)
    }
}

impl<M: FillModel> PaperModel<M> {
    /// The engine before anything has happened.
    pub open spec fn start(config: EngineConfig, fill_model: M, safety: LiveSafety) -> PaperModel<M> {
        PaperModel {
            config,
            fill_model,
            book: BookModel::empty(),
            position: None,
            candles: Seq::empty(),
            tape: Seq::empty(),
            realized: Decimal::whole(0),
            fees: Decimal::whole(0),
            pending: None,
            stand_down: None,
            safety,
            events: Seq::empty(),
            next_order_id: 1,
            feed_connected: false,
            last_event_at: None,
        }
    }

    /// With one more event to report.
    pub open spec fn reporting(self, event: ReportModel) -> PaperModel<M> {
        PaperModel { events: self.events.push(event), ..self }
    }

    /// The last price: that of the last trade, else the close of the last candle, else another.
    pub open spec fn mark_or(self, fallback: Decimal) -> Decimal {
        if self.tape.len() > 0 {
            self.tape.last().price.0
        } else if self.candles.len() > 0 {
            self.candles.last().close
        } else {
            fallback
        }
    }

    /// The result of the position at the last price.
    pub open spec fn unrealized(self) -> Decimal {
        match self.position {
            None => Decimal::whole(0),
            Some(set) => set.side.gain(
                set.entry_price.0,
                self.mark_or(set.entry_price.0),
            ).prod(set.quantity.0),
        }
    }

    /// The initial equity with all results.
    pub open spec fn worth(self) -> Decimal {
        self.config.initial_equity.sum(self.realized).sum(self.unrealized())
    }

    /// Whether quotes are arriving and the last is recent enough.
    pub open spec fn fresh(self, now: Timestamp) -> bool {
        self.feed_connected && (self.last_event_at matches Some(t) && crate::risk::whole_seconds(
            now - t,
        ) <= self.config.max_staleness_secs)
    }

    /// After quotes, candles and trades have taken up an event.
    pub open spec fn with_market(self, event: MarketEvent) -> PaperModel<M> {
        let now = event.time() as i64;
        let noted = PaperModel { last_event_at: Some(now), ..self };
        match event {
            MarketEvent::Kline(c) => if c.closed {
                let all = self.candles.push(c);
                let keep = if self.config.max_candles > 120 {
                    self.config.max_candles as int
                } else {
                    120
                };
                PaperModel {
                    candles: if all.len() > keep {
                        all.skip(all.len() - keep)
                    } else {
                        all
                    },
                    ..noted
                }
            } else {
                noted
            },
            MarketEvent::AggTrade(t) => PaperModel {
                tape: crate::liquidity::from_time(
                    crate::liquidity::with_trade(
                        self.tape,
                        Trade {
                            trade_id: t.trade_id,
                            price: t.price,
                            quantity: t.quantity,
                            is_buyer_maker: t.is_buyer_maker,
                            at: t.at,
                        },
                    ),
                    crate::clock::moved(now as int, -28800000) as i64,
                ),
                ..noted
            },
            _ => noted,
        }
    }

    /// The fee of a resting order's fill.
    pub open spec fn maker_fee(self, price: Decimal, quantity: Decimal) -> Decimal {
        price.prod(quantity).prod(self.config.instrument.fees.maker_rate)
    }

    /// The protection of a position that an entry opened; none where it cannot be compiled.
    pub open spec fn protection_of(self, e: RestingModel, price: Decimal, quantity: Decimal) -> Seq<
        ActionModel,
    > {
        let fill = EntryModel {
            symbol: self.config.instrument.symbol@,
            entry_order_id: e.order.client_id,
            side: e.order.side,
            price: Price(price),
            quantity: Qty(quantity),
        };
        match fill.protection(self.config.instrument, e.plan, e.tp) {
            Ok(actions) => actions,
            Err(_) => Seq::empty(),
        }
    }

    /// The book after an entry was filled.
    pub open spec fn book_with_entry(
        self,
        e: RestingModel,
        price: Decimal,
        quantity: Decimal,
        now: Timestamp,
    ) -> BookModel {
        self.book.registered(e.order, e.placed_at).0.applied(
            EventModel::Accepted { client_id: e.order.client_id, exchange_id: "paper"@ },
            now,
        ).0.applied(
            EventModel::Filled(
                FillReport {
                    trade_id: "paper-"@ + e.order.client_id,
                    client_id: e.order.client_id,
                    quantity: Qty(quantity),
                    price: Price(price),
                    fee: self.maker_fee(price, quantity),
                    fee_asset: self.config.instrument.settlement_asset@,
                    at: now,
                },
            ),
            now,
        ).0
    }

    /// What the fill model is shown of an order: the trades since it was placed.
    pub open spec fn tried(self, order: OrderModel, placed_at: Timestamp) -> ContextModel {
        ContextModel {
            order,
            trades: crate::liquidity::from_time(self.tape, placed_at),
            placed_at,
            tick_size: self.config.instrument.precision.tick_size,
        }
    }

    /// After the entry that rests was filled or not. Only trades from its placing on can fill it.
    pub open spec fn with_entry(self, now: Timestamp) -> PaperModel<M> {
        match self.pending {
            None => self,
            Some(e) => {
                let outcome = self.fill_model.outcome(self.tried(e.order, e.placed_at));
                if outcome is Unfilled {
                    self
                } else {
                    let qty = outcome.of_order(e.order);
                    let price = outcome.price_else(e.order.limit_price.0);
                    let fee = self.maker_fee(price, qty);
                    let actions = self.protection_of(e, price, qty);
                    let entered = SetModel::entered(
                        PositionModel {
                            symbol: self.config.instrument.symbol@,
                            side: e.order.side,
                            quantity: Qty(qty),
                            entry_price: Price(price),
                            opened_at: now,
                            stop_price: None,
                        },
                        e.plan,
                        e.tp,
                    );
                    PaperModel {
                        pending: None,
                        book: with_protection(
                            self.book_with_entry(e, price, qty, now),
                            actions,
                            now,
                        ),
                        fees: self.fees.sum(fee),
                        position: Some(
                            SetModel {
                                stop_price: stop_among(actions),
                                protection_placed_at: Some(now),
                                ..entered
                            },
                        ),
                        events: self.events.push(
                            ReportModel::Filled {
                                order: e.order.client_id,
                                quantity: qty,
                                price,
                                fee,
                            },
                        ).push(ReportModel::StateChanged),
                        ..self
                    }
                }
            },
        }
    }

    /// When the protection of a position was placed, or the position opened where that is not
    /// known.
    pub open spec fn protected_since(set: SetModel) -> Timestamp {
        match set.protection_placed_at {
            Some(t) => t,
            None => set.opened_at,
        }
    }

    /// The price of a profit target.
    pub open spec fn rung_price(self, set: SetModel, i: nat) -> Decimal {
        self.config.instrument.precision.priced_or_raw(
            set.side.flipped(),
            set.side.target(set.entry_price.0, set.tp.pairs()[i as int].0),
            PriceRole::TakeProfit,
        )
    }

    /// The order of a profit target.
    pub open spec fn rung_order(self, set: SetModel, i: nat) -> OrderModel {
        OrderModel {
            client_id: if i < set.tp_order_ids.len() {
                set.tp_order_ids[i as int]
            } else {
                ClientOrderId::numbered("paper-tp"@, i)
            },
            symbol: self.config.instrument.symbol@,
            purpose: OrderPurpose::TakeProfit,
            side: set.side.flipped(),
            quantity: set.rung_size(i),
            limit_price: Price(self.rung_price(set, i)),
            tif: TimeInForce::PostOnly,
            parent: None,
        }
    }

    /// Whether the order of a target is filled by the trades since the protection was placed.
    pub open spec fn rung_outcome(self, set: SetModel, i: nat) -> crate::fill::FillOutcome {
        self.fill_model.outcome(
            self.tried(self.rung_order(set, i), Self::protected_since(set)),
        )
    }

    /// Whether a target is no larger than what is left of the position.
    pub open spec fn rung_fits(set: SetModel, i: nat) -> bool {
        set.quantity.0.less(set.rung_size(i).0)@ >= 0
    }

    /// The first target from `from` on that is not counted yet, fits and is filled now.
    pub open spec fn due_rung(self, set: SetModel, from: nat) -> Option<nat>
        decreases set.tp.pairs().len() - from,
    {
        if from >= set.tp.pairs().len() {
            None
        } else if !set.completed_rungs.contains(from as usize) && Self::rung_fits(set, from) && !(
        self.rung_outcome(set, from) is Unfilled) {
            Some(from)
        } else {
            self.due_rung(set, from + 1)
        }
    }

    /// After a profit target was filled or none. At most one is taken at a time.
    pub open spec fn with_targets(self) -> PaperModel<M> {
        match self.position {
            None => self,
            Some(set) => match self.due_rung(set, 0) {
                None => self,
                Some(i) => {
                    let order = self.rung_order(set, i);
                    let qty = set.rung_size(i);
                    let price = self.rung_outcome(set, i).price_else(self.rung_price(set, i));
                    let fee = self.maker_fee(price, qty.0);
                    let gross = set.side.gain(set.entry_price.0, price).prod(qty.0);
                    let left = set.after_target(i, qty);
                    let booked = PaperModel {
                        position: Some(left),
                        fees: self.fees.sum(fee),
                        realized: self.realized.sum(gross.less(fee)),
                        ..self
                    }.reporting(
                        ReportModel::Filled {
                            order: order.client_id,
                            quantity: qty.0,
                            price,
                            fee,
                        },
                    );
                    let closed = if left.quantity.0@ == 0 {
                        PaperModel { position: None, ..booked }.reporting(
                            ReportModel::TradeClosed {
                                entry_price: set.entry_price.0,
                                exit_price: price,
                                quantity: qty.0,
                                pnl: gross.less(fee),
                                exit_reason: ExitReason::TakeProfit,
                            },
                        )
                    } else {
                        booked
                    };
                    closed.reporting(ReportModel::StateChanged)
                },
            },
        }
    }

    /// The order that a stop becomes once it is reached.
    pub open spec fn stop_order(self, set: SetModel, stop: Price) -> OrderModel {
        OrderModel {
            client_id: ClientOrderId::numbered("paper-stop"@, 0),
            symbol: self.config.instrument.symbol@,
            purpose: OrderPurpose::StopLoss,
            side: set.side.flipped(),
            quantity: set.quantity,
            limit_price: stop,
            tif: TimeInForce::PostOnly,
            parent: None,
        }
    }

    /// The alarm for a stop that was reached and is not filled.
    pub open spec fn exposure(self, stop: Price) -> Seq<char> {
        "止损已触发但未成交："@ + self.config.instrument.symbol@ + " @ "@ + stop.0.written()
            + "。仓位裸露中。"@
    }

    /// After the stop was watched: first a trade has to reach it, and from then on trades can
    /// fill the order that it becomes. Until they do the position is without protection.
    pub open spec fn with_stop(self, now: Timestamp) -> PaperModel<M> {
        match self.position {
            None => self,
            Some(set) => match set.stop_price {
                None => self,
                Some(stop) => if set.stop_triggered_at is None && !stop_reached(
                    set.side,
                    stop.0,
                    crate::liquidity::from_time(self.tape, Self::protected_since(set)),
                ) {
                    self
                } else {
                    let trigger_at = match set.stop_triggered_at {
                        Some(t) => t,
                        None => now,
                    };
                    let order = self.stop_order(set, stop);
                    let outcome = self.fill_model.outcome(self.tried(order, trigger_at));
                    if outcome is Unfilled {
                        PaperModel {
                            position: Some(
                                SetModel { stop_triggered_at: Some(trigger_at), ..set },
                            ),
                            ..self
                        }.reporting(ReportModel::Alarm(self.exposure(stop)))
                    } else {
                        let price = outcome.price_else(stop.0);
                        let fee = self.maker_fee(price, set.quantity.0);
                        let gross = set.side.gain(set.entry_price.0, price).prod(set.quantity.0);
                        PaperModel {
                            position: None,
                            fees: self.fees.sum(fee),
                            realized: self.realized.sum(gross.less(fee)),
                            events: self.events.push(
                                ReportModel::Filled {
                                    order: order.client_id,
                                    quantity: set.quantity.0,
                                    price,
                                    fee,
                                },
                            ).push(
                                ReportModel::TradeClosed {
                                    entry_price: set.entry_price.0,
                                    exit_price: price,
                                    quantity: set.quantity.0,
                                    pnl: gross.less(fee),
                                    exit_reason: ExitReason::StopLoss,
                                },
                            ).push(ReportModel::StateChanged),
                            ..self
                        }
                    }
                },
            },
        }
    }

    /// Whether there is an entry or a position.
    pub open spec fn engaged(self) -> bool {
        self.position is Some || self.pending is Some
    }

    /// What a plan comes to now.
    pub open spec fn previewed(self, plan: PlanModel) -> Result<PreviewModel, Fault> {
        plan.preview(
            self.config.instrument,
            self.worth(),
            self.mark_or(plan.entry),
            self.config.limits,
        )
    }

    /// The entry of a plan that was accepted.
    pub open spec fn entry_of(self, plan: PlanModel, preview: PreviewModel, now: Timestamp) -> RestingModel {
        RestingModel {
            order: OrderModel {
                client_id: ClientOrderId::numbered(
                    plan.client_ref,
                    crate::order::next_seq(self.next_order_id) as nat,
                ),
                symbol: self.config.instrument.symbol@,
                purpose: OrderPurpose::Entry,
                side: plan.side,
                quantity: preview.quantity,
                limit_price: preview.entry,
                tif: match plan.cancel_unfilled_after {
                    Some(deadline) => TimeInForce::PostOnlyGtd { deadline },
                    None => TimeInForce::PostOnly,
                },
                parent: None,
            },
            plan: ProtectionPlan {
                stop: StopSpec::AtPrice { price: plan.stop },
                break_even: plan.break_even,
                trailing: plan.trailing,
                timed_cancel: plan.cancel_unfilled_after,
            },
            tp: plan.take_profit,
            placed_at: now,
            valid_until: match plan.cancel_unfilled_after {
                Some(t) => t,
                None => crate::clock::moved(now as int, 120000) as i64,
            },
            attempts: 1,
            rejected: 0,
        }
    }

    /// What becomes of a plan. Nothing is placed beside an entry or a position.
    pub open spec fn verdict(self, plan: PlanModel) -> SubmitModel {
        if self.engaged() {
            SubmitModel::Rejected { reason: "已有持仓或在途订单，请先平仓或撤单"@ }
        } else {
            match self.previewed(plan) {
                Err(e) => SubmitModel::Rejected { reason: e.said() },
                Ok(p) => if !p.accepted {
                    SubmitModel::Rejected {
                        reason: match p.reject_reason {
                            Some(r) => r,
                            None => "风控拒绝"@,
                        },
                    }
                } else if p.quantity.0@ == 0 {
                    SubmitModel::Rejected { reason: "数量为零，无法下单"@ }
                } else {
                    SubmitModel::Accepted(p)
                },
            }
        }
    }

    /// After a plan was submitted: an accepted plan rests as an entry, a refused one changes
    /// nothing.
    pub open spec fn submitted(self, plan: PlanModel, now: Timestamp) -> PaperModel<M> {
        match self.verdict(plan) {
            SubmitModel::Rejected { .. } => self,
            SubmitModel::Accepted(p) => PaperModel {
                next_order_id: crate::order::next_seq(self.next_order_id),
                pending: Some(self.entry_of(plan, p, now)),
                ..self
            }.reporting(ReportModel::StateChanged),
        }
    }

    /// The plan of a strategy's wish. It names no size, so the usual part of the equity is taken.
    pub open spec fn plan_of(self, req: EnterRequest) -> PlanModel {
        PlanModel {
            symbol: self.config.instrument.symbol@,
            side: req.side,
            entry: req.entry,
            quantity: None,
            size_pct: None,
            leverage: Decimal::whole(1),
            stop: req.stop,
            take_profit: req.take_profit@,
            break_even: req.protection.break_even,
            trailing: req.protection.trailing,
            cancel_unfilled_after: req.protection.timed_cancel,
            client_ref: "strategy"@,
        }
    }

    /// After the strategy has answered.
    pub open spec fn answered(self, answer: Option<StrategyIntent>, now: Timestamp) -> PaperModel<M> {
        match answer {
            None => self,
            Some(StrategyIntent::StandDown { reason }) => PaperModel {
                stand_down: Some(reason),
                ..self
            }.reporting(ReportModel::Rejected { reason: reason.said() }),
            Some(StrategyIntent::Enter(req)) => {
                let going = PaperModel { stand_down: None, ..self };
                let plan = self.plan_of(*req);
                match going.verdict(plan) {
                    SubmitModel::Accepted(_) => going.submitted(plan, now),
                    SubmitModel::Rejected { reason } => going.reporting(
                        ReportModel::Rejected { reason },
                    ),
                }
            },
            Some(StrategyIntent::ExitNow { .. }) => PaperModel { pending: None, ..self },
        }
    }

    /// Whether the strategy is asked: with neither an entry nor a position, on fresh quotes.
    pub open spec fn asks(self, now: Timestamp) -> bool {
        !self.engaged() && self.fresh(now)
    }

    /// After the time for a decision. On stale quotes nothing is decided, and that is noted.
    pub open spec fn decided(self, answer: Option<StrategyIntent>, now: Timestamp) -> PaperModel<M> {
        if self.engaged() {
            self
        } else if !self.fresh(now) {
            PaperModel { stand_down: Some(StandDownReason::StaleFeed), ..self }
        } else {
            self.answered(answer, now)
        }
    }

    /// After an entry that has run out is dropped.
    pub open spec fn without_expired(self, now: Timestamp) -> PaperModel<M> {
        match self.pending {
            Some(e) => if now >= e.valid_until {
                PaperModel { pending: None, ..self }.reporting(ReportModel::StateChanged)
            } else {
                self
            },
            None => self,
        }
    }

    /// After everything that an event does before the strategy is asked.
    pub open spec fn advanced(self, event: MarketEvent) -> PaperModel<M> {
        let now = event.time() as i64;
        self.with_market(event).with_entry(now).with_targets().with_stop(now)
    }

    /// After an event, given what the strategy answers where it is asked.
    pub open spec fn after_event(self, event: MarketEvent, answer: Option<StrategyIntent>) -> PaperModel<M> {
        let now = event.time() as i64;
        let s = self.advanced(event);
        let t = if event matches MarketEvent::Kline(c) && c.closed {
            s.decided(answer, now)
        } else {
            s
        };
        t.without_expired(now)
    }

    /// After an operator closed the position at the last traded price.
    pub open spec fn closed_by_hand(self) -> (PaperModel<M>, Option<Decimal>) {
        match self.position {
            None => (self, None),
            Some(set) => {
                let price = if self.tape.len() > 0 {
                    self.tape.last().price.0
                } else {
                    set.entry_price.0
                };
                let gross = set.side.gain(set.entry_price.0, price).prod(set.quantity.0);
                let fee = price.prod(set.quantity.0).prod(self.config.instrument.fees.taker_rate);
                (
                    PaperModel {
                        position: None,
                        fees: self.fees.sum(fee),
                        realized: self.realized.sum(gross.less(fee)),
                        events: self.events.push(
                            ReportModel::TradeClosed {
                                entry_price: set.entry_price.0,
                                exit_price: price,
                                quantity: set.quantity.0,
                                pnl: gross.less(fee),
                                exit_reason: ExitReason::Manual,
                            },
                        ).push(ReportModel::StateChanged),
                        ..self
                    },
                    Some(gross.less(fee)),
                )
            },
        }
    }
}

/// The desk on live quotes, with orders matched locally.
pub struct PaperEngine<M: FillModel = M1TradeThroughQueue> {
    config: EngineConfig,
    state: OrderBookState,
    position_set: Option<PositionSet>,
    candles: Vec<Candle>,
    tape: TradeTape,
    realized_pnl: Decimal,
    total_fees: Decimal,
    pending_intent: Option<PendingOrder>,
    stand_down: Option<StandDownReason>,
    safety: LiveSafety,
    events: Vec<EngineEvent>,
    next_order_id: u64,
    feed_connected: bool,
    last_event_at: Option<Timestamp>,
    fill_model: M,
}

impl<M: FillModel> View for PaperEngine<M> {
    type V = PaperModel<M>;

    closed spec fn view(&self) -> PaperModel<M> {
        PaperModel {
            config: self.config,
            fill_model: self.fill_model,
            book: self.state@,
            position: match self.position_set {
                Some(set) => Some(set.model()),
                None => None,
            },
            candles: self.candles@,
            tape: self.tape@,
            realized: self.realized_pnl,
            fees: self.total_fees,
            pending: match self.pending_intent {
                Some(e) => Some(e.model()),
                None => None,
            },
            stand_down: self.stand_down,
            safety: self.safety,
            events: EngineEvent::models(self.events@),
            next_order_id: self.next_order_id,
            feed_connected: self.feed_connected,
            last_event_at: self.last_event_at,
        }
    }
}

impl PaperEngine<M1TradeThroughQueue> {
    /// An engine with the honest fill model.
    pub fn new(config: EngineConfig) -> (r: Self)
        ensures
            r.wf(),
            r@ == PaperModel::start(config, r@.fill_model, r@.safety),
            r@.fill_model.queue_ahead == Decimal::whole(0),
            !r@.safety.connected() && !r@.safety.reconciled() && !r@.safety.is_set(),
    {
        PaperEngine::with_fill_model(config, M1TradeThroughQueue::default())
    }
}

impl<M: FillModel> PaperEngine<M> {
    /// The book is well-formed.
    pub closed spec fn wf(&self) -> bool {
        self.state.wf()
    }

    /// The ids of the orders, in their order.
    pub closed spec fn ids(&self) -> Seq<Seq<char>> {
        self.state.ids()
    }

    /// The orders that may be resting, in the order of their ids.
    pub open spec fn resting(&self) -> Seq<TrackedModel> {
        self.ids().filter(|id: Seq<char>| self@.book.orders[id].state.resting()).map_values(
            |id: Seq<char>| self@.book.orders[id],
        )
    }

    /// An engine with a fill model.
    pub fn with_fill_model(config: EngineConfig, model: M) -> (r: Self)
        ensures
            r.wf(),
            r@ == PaperModel::start(config, model, r@.safety),
            !r@.safety.connected() && !r@.safety.reconciled() && !r@.safety.is_set(),
    {
        let r = PaperEngine {
            config,
            state: OrderBookState::new(),
            position_set: None,
            candles: Vec::new(),
            tape: TradeTape::new(),
            realized_pnl: Decimal::zero(),
            total_fees: Decimal::zero(),
            pending_intent: None,
            stand_down: None,
            safety: LiveSafety::new(),
            events: Vec::new(),
            next_order_id: 1,
            feed_connected: false,
            last_event_at: None,
            fill_model: model,
        };
        assert(r@.events =~= Seq::<ReportModel>::empty());
        r
    }

    pub fn config(&self) -> (r: &EngineConfig)
        ensures
            *r == self@.config,
    {
        &self.config
    }

    pub fn instrument(&self) -> (r: &Instrument)
        ensures
            *r == self@.config.instrument,
    {
        &self.config.instrument
    }

    pub fn state(&self) -> (r: &OrderBookState)
        requires
            self.wf(),
        ensures
            r.wf(),
            r@ == self@.book,
            r.ids() == self.ids(),
    {
        &self.state
    }

    pub fn position_set(&self) -> (r: Option<&PositionSet>)
        ensures
            match r {
                Some(set) => self@.position == Some(set.model()),
                None => self@.position is None,
            },
    {
        self.position_set.as_ref()
    }

    pub fn safety(&self) -> (r: &LiveSafety)
        ensures
            *r == self@.safety,
    {
        &self.safety
    }

    /// The interlock in front of live trading, to be set.
    pub fn safety_mut(&mut self) -> (r: &mut LiveSafety)
        requires
            old(self).wf(),
        ensures
            *r == old(self)@.safety,
            final(self).wf(),
            final(self)@ == (PaperModel { safety: *final(r), ..old(self)@ }),
    {
        &mut self.safety
    }

    /// Takes the events that have gathered.
    pub fn drain_events(&mut self) -> (r: Vec<EngineEvent>)
        requires
            old(self).wf(),
        ensures
            EngineEvent::models(r@) == old(self)@.events,
            final(self).wf(),
            final(self)@ == (PaperModel { events: Seq::empty(), ..old(self)@ }),
    {
        let mut taken: Vec<EngineEvent> = Vec::new();
        std::mem::swap(&mut taken, &mut self.events);
        assert(self@.events =~= Seq::<ReportModel>::empty());
        taken
    }

    /// Adds an event to report.
    fn report(&mut self, event: EngineEvent)
        requires
            old(self).wf(),
        ensures
            final(self).wf(),
            final(self)@ == old(self)@.reporting(event@),
    {
        let ghost before = self.events@;
        self.events.push(event);
        assert(EngineEvent::models(self.events@) =~= EngineEvent::models(before).push(event@));
    }

    pub fn feed_is_fresh(&self, now: Timestamp) -> (r: bool)
        ensures
            r == self@.fresh(now),
    {
        match self.last_event_at {
            Some(t) => self.feed_connected && seconds_between(now, t)
                <= self.config.max_staleness_secs as i128,
            None => false,
        }
    }

    /// Takes an event into candles and trades.
    fn take_market(&mut self, event: &MarketEvent)
        requires
            old(self).wf(),
        ensures
            final(self).wf(),
            final(self)@ == old(self)@.with_market(*event),
    {
        let now = event.at();
        self.last_event_at = Some(now);
        match event {
            MarketEvent::Kline(c) => {
                if c.closed {
                    self.candles.push(*c);
                    let keep: usize = if self.config.max_candles > 120 {
                        self.config.max_candles
                    } else {
                        120
                    };
                    let n = self.candles.len();
                    if n > keep {
                        let kept = self.candles.split_off(n - keep);
                        assert(kept@ =~= old(self).candles@.push(*c).skip(n - keep));
                        self.candles = kept;
                    }
                }
            },
            MarketEvent::AggTrade(t) => {
                self.tape.push(Trade::from(*t));
                self.tape.prune_before(after(now, -28800000));
            },
            _ => {},
        }
    }

    /// Registers an entry, accepts it and books its fill.
    fn book_entry(
        &mut self,
        entry: &PendingOrder,
        price: Decimal,
        quantity: Decimal,
        fee: Decimal,
        now: Timestamp,
    )
        requires
            old(self).wf(),
            fee == old(self)@.maker_fee(price, quantity),
        ensures
            final(self).wf(),
            final(self)@ == (PaperModel {
                book: old(self)@.book_with_entry(entry.model(), price, quantity, now),
                ..old(self)@
            }),
    {
        let _ = self.state.register(entry.order.clone(), entry.placed_at);
        let _ = self.state.apply(
            ExecEvent::Accepted {
                client_id: entry.order.client_id.clone(),
                exchange_id: "paper".to_owned(),
            },
            now,
        );
        let _ = self.state.apply(
            ExecEvent::Filled(
                Fill {
                    trade_id: joined("paper-", entry.order.client_id.as_str()),
                    client_id: entry.order.client_id.clone(),
                    quantity: Qty::new(quantity),
                    price: Price::new(price),
                    fee,
                    fee_asset: self.config.instrument.settlement_asset.clone(),
                    at: now,
                },
            ),
            now,
        );
    }

    /// Registers the orders of a protection, and gives the price of its stop.
    fn register_protection(&mut self, actions: &Vec<ProtectionAction>, now: Timestamp) -> (r: Option<
        Price,
    >)
        requires
            old(self).wf(),
        ensures
            final(self).wf(),
            final(self)@ == (PaperModel {
                book: with_protection(
                    old(self)@.book,
                    ProtectionAction::models(actions@),
                    now,
                ),
                ..old(self)@
            }),
            r == stop_among(ProtectionAction::models(actions@)),
    {
        let ghost all = ProtectionAction::models(actions@);
        let mut stop: Option<Price> = None;
        for i in 0..actions.len()
            invariant
                all == ProtectionAction::models(actions@),
                self.wf(),
                self@ == (PaperModel {
                    book: with_protection(old(self)@.book, all.take(i as int), now),
                    ..old(self)@
                }),
                stop == stop_among(all.take(i as int)),
        {
            assert(all.take(i + 1).drop_last() =~= all.take(i as int));
            assert(all.take(i + 1).last() == actions@[i as int]@);
            if let ProtectionAction::Place(order) = &actions[i] {
                if order.purpose == OrderPurpose::StopLoss {
                    stop = Some(order.limit_price);
                }
                let copy = (**order).clone();
                let _ = self.state.register(copy, now);
            }
        }
        assert(all.take(all.len() as int) =~= all);
        stop
    }

    /// Fills the entry that rests, and sets up the position with its protection.
    fn try_fill_pending(&mut self, now: Timestamp)
        requires
            old(self).wf(),
        ensures
            final(self).wf(),
            final(self)@ == old(self)@.with_entry(now),
    {
        let resting = self.pending_intent.take();
        if let Some(pending) = resting {
            let part = self.tape.since(pending.placed_at);
            let outcome = self.fill_model.evaluate(
                &FillContext {
                    order: &pending.order,
                    tape: &part,
                    placed_at: pending.placed_at,
                    tick_size: self.config.instrument.precision.tick_size,
                },
            );
            if !outcome.is_filled() {
                self.pending_intent = Some(pending);
                return ;
            }
            let qty = outcome.quantity_for(&pending.order);
            let price = outcome.price_or(pending.order.limit_price.get());
            let fee = price * qty * self.config.instrument.fees.maker_rate;
            self.total_fees = self.total_fees + fee;
            self.book_entry(&pending, price, qty, fee, now);
            self.report(
                EngineEvent::Filled {
                    order: pending.order.client_id.clone(),
                    quantity: qty,
                    price,
                    fee,
                },
            );
            let pos = Position {
                symbol: self.config.instrument.symbol.clone(),
                side: pending.order.side,
                quantity: Qty::new(qty),
                entry_price: Price::new(price),
                opened_at: now,
                stop_price: None,
            };
            let fill = EntryFill {
                symbol: self.config.instrument.symbol.clone(),
                entry_order_id: pending.order.client_id.clone(),
                side: pending.order.side,
                price: Price::new(price),
                quantity: Qty::new(qty),
            };
            let actions = compile_protection(
                &self.config.instrument,
                &fill,
                &pending.plan,
                &pending.tp,
            );
            let stop = self.register_protection(&actions, now);
            let mut set = PositionSet::new(&pos, pending.plan, pending.tp);
            set.stop_price = stop;
            set.protection_placed_at = Some(now);
            self.position_set = Some(set);
            self.report(EngineEvent::StateChanged);
        }
    }

    /// The order of a profit target.
    fn target_order(&self, set: &PositionSet, i: usize, price: Decimal) -> (r: Order)
        requires
            price == self@.rung_price(set.model(), i as nat),
        ensures
            r@ == self@.rung_order(set.model(), i as nat),
    {
        let client_id = if i < set.tp_order_ids.len() {
            set.tp_order_ids[i].clone()
        } else {
            ClientOrderId::new("paper-tp", i as u64)
        };
        Order {
            client_id,
            symbol: self.config.instrument.symbol.clone(),
            purpose: OrderPurpose::TakeProfit,
            side: set.side.opposite(),
            quantity: set.rung_quantity(i),
            limit_price: Price::new(price),
            tif: TimeInForce::PostOnly,
            parent: None,
        }
    }

    /// The first target that is filled now, with its order and the price of the fill.
    fn find_target(&self, set: &PositionSet) -> (r: Option<(usize, Order, Decimal)>)
        ensures
            match r {
                Some((i, order, price)) => self@.due_rung(set.model(), 0) == Some(i as nat)
                    && order@ == self@.rung_order(set.model(), i as nat) && price
                    == self@.rung_outcome(set.model(), i as nat).price_else(
                    self@.rung_price(set.model(), i as nat),
                ) && i < set.model().tp.pairs().len(),
                None => self@.due_rung(set.model(), 0) is None,
            },
    {
        let protection_at = match set.protection_placed_at {
            Some(t) => t,
            None => set.opened_at,
        };
        let part = self.tape.since(protection_at);
        let rungs = set.tp.rungs();
        let mut i: usize = 0;
        while i < rungs.len()
            invariant
                i <= rungs@.len(),
                rungs@ == set.model().tp.pairs(),
                protection_at == PaperModel::<M>::protected_since(set.model()),
                part@ == crate::liquidity::from_time(self@.tape, protection_at),
                self@.due_rung(set.model(), 0) == self@.due_rung(set.model(), i as nat),
            decreases rungs.len() - i,
        {
            let left = set.quantity.get() - set.rung_quantity(i).get();
            if !holds(&set.completed_rungs, i) && left >= Decimal::zero() {
                let target = target_price(set.side, set.entry_price.get(), rungs[i].0);
                let quantized = self.config.instrument.precision.price_or_raw(
                    set.side.opposite(),
                    target,
                    PriceRole::TakeProfit,
                );
                let order = self.target_order(set, i, quantized);
                let outcome = self.fill_model.evaluate(
                    &FillContext {
                        order: &order,
                        tape: &part,
                        placed_at: protection_at,
                        tick_size: self.config.instrument.precision.tick_size,
                    },
                );
                if outcome.is_filled() {
                    return Some((i, order, outcome.price_or(quantized)));
                }
            }
            i = i + 1;
        }
        None
    }

    /// Takes at most one filled target into account.
    fn work_targets(&mut self)
        requires
            old(self).wf(),
        ensures
            final(self).wf(),
            final(self)@ == old(self)@.with_targets(),
    {
        let found = match &self.position_set {
            Some(set) => self.find_target(set),
            None => None,
        };
        if let Some((i, order, price)) = found {
            let open = self.position_set.take();
            if let Some(mut set) = open {
                let qty = set.rung_quantity(i);
                let entry_price = set.entry_price.get();
                let fee = price * qty.get() * self.config.instrument.fees.maker_rate;
                self.total_fees = self.total_fees + fee;
                {
                    let working = self.working();
                    let _ = on_take_profit_filled(&mut set, i, qty, working.as_slice());
                }
                let gross = unit_gain(set.side, entry_price, price) * qty.get();
                let pnl = gross - fee;
                self.realized_pnl = self.realized_pnl + pnl;
                let gone = set.quantity.is_zero();
                self.position_set = Some(set);
                self.report(
                    EngineEvent::Filled {
                        order: order.client_id.clone(),
                        quantity: qty.get(),
                        price,
                        fee,
                    },
                );
                if gone {
                    self.position_set = None;
                    self.report(
                        EngineEvent::TradeClosed {
                            entry_price,
                            exit_price: price,
                            quantity: qty.get(),
                            pnl,
                            exit_reason: ExitReason::TakeProfit,
                        },
                    );
                }
                self.report(EngineEvent::StateChanged);
            }
        }
    }

    /// The protection that rests.
    fn working(&self) -> (r: Vec<&TrackedOrder>)
        requires
            self.wf(),
        ensures
            TrackedOrder::models(r@) == self.resting().filter(
                |t: TrackedModel| t.order.purpose.reduces(),
            ),
    {
        let all = self.state.open_orders();
        let ghost models = TrackedOrder::models(all@);
        let ghost p = |t: TrackedModel| t.order.purpose.reduces();
        let mut v: Vec<&TrackedOrder> = Vec::new();
        assert(TrackedOrder::models(v@) =~= Seq::<TrackedModel>::empty());
        for i in 0..all.len()
            invariant
                models == TrackedOrder::models(all@),
                p == (|t: TrackedModel| t.order.purpose.reduces()),
                TrackedOrder::models(v@) == models.take(i as int).filter(p),
        {
            let ghost before = v@;
            proof {
                assert(models.take(i + 1).drop_last() =~= models.take(i as int));
                reveal(Seq::filter);
            }
            if all[i].order.reduce_only() {
                v.push(all[i]);
                assert(TrackedOrder::models(v@) =~= TrackedOrder::models(before).push(
                    models[i as int],
                ));
            }
        }
        assert(models.take(models.len() as int) =~= models);
        v
    }

    /// Whether a trade since a time has reached the stop of a position.
    fn stop_triggered(&self, side: Side, stop: Decimal, from: Timestamp) -> (r: bool)
        ensures
            r == stop_reached(side, stop, crate::liquidity::from_time(self@.tape, from)),
    {
        let trades = self.tape.after(from);
        for i in 0..trades.len()
            invariant
                trades@ == crate::liquidity::from_time(self@.tape, from),
                forall|j: int|
                    0 <= j < i ==> !crate::fill::reaches(
                        side,
                        (#[trigger] trades@[j]).price.0,
                        stop,
                    ),
        {
            let price = trades[i].price.get();
            let reached = match side {
                Side::Buy => price <= stop,
                Side::Sell => price >= stop,
            };
            if reached {
                assert(crate::fill::reaches(side, trades@[i as int].price.0, stop));
                return true;
            }
        }
        false
    }

    /// Watches the stop.
    fn work_stop(&mut self, now: Timestamp)
        requires
            old(self).wf(),
        ensures
            final(self).wf(),
            final(self)@ == old(self)@.with_stop(now),
    {
        let open = self.position_set.take();
        if let Some(mut set) = open {
            let stop_price = match set.stop_price {
                Some(p) => p,
                None => {
                    self.position_set = Some(set);
                    return ;
                },
            };
            let protection_at = match set.protection_placed_at {
                Some(t) => t,
                None => set.opened_at,
            };
            let triggered = set.stop_triggered_at.is_some() || self.stop_triggered(
                set.side,
                stop_price.get(),
                protection_at,
            );
            if !triggered {
                self.position_set = Some(set);
                return ;
            }
            let trigger_at = match set.stop_triggered_at {
                Some(t) => t,
                None => now,
            };
            let ghost before = set.model();
            let stop_order = Order {
                client_id: ClientOrderId::new("paper-stop", 0),
                symbol: self.config.instrument.symbol.clone(),
                purpose: OrderPurpose::StopLoss,
                side: set.side.opposite(),
                quantity: set.quantity,
                limit_price: stop_price,
                tif: TimeInForce::PostOnly,
                parent: None,
            };
            assert(stop_order@ == old(self)@.stop_order(before, stop_price));
            let part = self.tape.since(trigger_at);
            let outcome = self.fill_model.evaluate(
                &FillContext {
                    order: &stop_order,
                    tape: &part,
                    placed_at: trigger_at,
                    tick_size: self.config.instrument.precision.tick_size,
                },
            );
            if !outcome.is_filled() {
                set.stop_triggered_at = Some(trigger_at);
                self.position_set = Some(set);
                let note = joined5(
                    "止损已触发但未成交：",
                    self.config.instrument.symbol.as_str(),
                    " @ ",
                    stop_price.text().as_str(),
                    "。仓位裸露中。",
                );
                self.report(EngineEvent::Alarm(note));
                return ;
            }
            let qty = set.quantity;
            let entry_price = set.entry_price.get();
            let price = outcome.price_or(stop_price.get());
            let fee = price * qty.get() * self.config.instrument.fees.maker_rate;
            self.total_fees = self.total_fees + fee;
            let gross = unit_gain(set.side, entry_price, price) * qty.get();
            let pnl = gross - fee;
            {
                let working = self.working();
                let _ = on_stop_filled(&mut set, working.as_slice());
            }
            self.realized_pnl = self.realized_pnl + pnl;
            self.report(
                EngineEvent::Filled {
                    order: stop_order.client_id.clone(),
                    quantity: qty.get(),
                    price,
                    fee,
                },
            );
            self.report(
                EngineEvent::TradeClosed {
                    entry_price,
                    exit_price: price,
                    quantity: qty.get(),
                    pnl,
                    exit_reason: ExitReason::StopLoss,
                },
            );
            self.report(EngineEvent::StateChanged);
        }
    }

    /// Takes filled targets and the stop into account.
    fn manage_position(&mut self, now: Timestamp)
        requires
            old(self).wf(),
        ensures
            final(self).wf(),
            final(self)@ == old(self)@.with_targets().with_stop(now),
    {
        self.work_targets();
        self.work_stop(now);
    }

    /// The last price.
    fn mark(&self, fallback: Decimal) -> (r: Decimal)
        ensures
            r == self@.mark_or(fallback),
    {
        let trades = self.tape.trades();
        let n = self.candles.len();
        if trades.len() > 0 {
            trades[trades.len() - 1].price.get()
        } else if n > 0 {
            self.candles[n - 1].close
        } else {
            fallback
        }
    }

    /// The result of the position at the last price.
    pub fn unrealized_pnl(&self) -> (r: Decimal)
        ensures
            r == self@.unrealized(),
    {
        match &self.position_set {
            None => Decimal::zero(),
            Some(set) => {
                let entry = set.entry_price.get();
                unit_gain(set.side, entry, self.mark(entry)) * set.quantity.get()
            },
        }
    }

    /// The initial equity with all results.
    pub fn equity(&self) -> (r: Decimal)
        ensures
            r == self@.worth(),
    {
        self.config.initial_equity + self.realized_pnl + self.unrealized_pnl()
    }

    pub fn realized_pnl(&self) -> (r: Decimal)
        ensures
            r == self@.realized,
    {
        self.realized_pnl
    }

    pub fn total_fees(&self) -> (r: Decimal)
        ensures
            r == self@.fees,
    {
        self.total_fees
    }

    /// Works out what a plan comes to, without placing anything.
    pub fn preview_manual_plan(&self, plan: &ManualPlan, now: Timestamp) -> (r: Result<
        ManualPreview,
        DomainError,
    >)
        ensures
            match r {
                Ok(p) => self@.previewed(plan@) == Ok::<PreviewModel, Fault>(p@),
                Err(e) => self@.previewed(plan@) == Err::<PreviewModel, Fault>(e@),
            },
    {
        let _ = now;
        preview_manual(
            &self.config.instrument,
            plan,
            self.equity(),
            self.mark(plan.entry),
            &self.config.limits,
        )
    }

    /// Places the entry of a plan, where it is accepted.
    fn place(&mut self, plan: &ManualPlan, now: Timestamp) -> (r: SubmitOutcome)
        requires
            old(self).wf(),
        ensures
            final(self).wf(),
            final(self)@ == old(self)@.submitted(plan@, now),
            r@ == old(self)@.verdict(plan@),
    {
        if self.position_set.is_some() || self.pending_intent.is_some() {
            return SubmitOutcome::Rejected {
                reason: "已有持仓或在途订单，请先平仓或撤单".to_owned(),
            };
        }
        let preview = match self.preview_manual_plan(plan, now) {
            Ok(p) => p,
            Err(e) => return SubmitOutcome::Rejected { reason: e.message() },
        };
        if !preview.accepted {
            return SubmitOutcome::Rejected {
                reason: match &preview.reject_reason {
                    Some(s) => s.clone(),
                    None => "风控拒绝".to_owned(),
                },
            };
        }
        if preview.quantity.is_zero() {
            return SubmitOutcome::Rejected { reason: "数量为零，无法下单".to_owned() };
        }
        self.next_order_id = following(self.next_order_id);
        let entry = PendingOrder {
            order: Order {
                client_id: ClientOrderId::new(plan.client_ref.as_str(), self.next_order_id),
                symbol: self.config.instrument.symbol.clone(),
                purpose: OrderPurpose::Entry,
                side: plan.side,
                quantity: preview.quantity,
                limit_price: preview.entry,
                tif: match plan.cancel_unfilled_after {
                    Some(deadline) => TimeInForce::PostOnlyGtd { deadline },
                    None => TimeInForce::PostOnly,
                },
                parent: None,
            },
            plan: ProtectionPlan {
                stop: StopSpec::AtPrice { price: plan.stop },
                break_even: plan.break_even,
                trailing: plan.trailing,
                timed_cancel: plan.cancel_unfilled_after,
            },
            tp: plan.take_profit.clone(),
            placed_at: now,
            valid_until: match plan.cancel_unfilled_after {
                Some(t) => t,
                None => after(now, 120000),
            },
            attempts: 1,
            rejected: 0,
        };
        self.pending_intent = Some(entry);
        self.report(EngineEvent::StateChanged);
        SubmitOutcome::Accepted(Box::new(preview))
    }

    /// Submits an operator's plan. A strategy's wish takes the same way.
    pub fn submit_manual(&mut self, plan: &ManualPlan, now: Timestamp) -> (r: SubmitOutcome)
        requires
            old(self).wf(),
        ensures
            final(self).wf(),
            final(self)@ == old(self)@.submitted(plan@, now),
            r@ == old(self)@.verdict(plan@),
    {
        self.place(plan, now)
    }

    /// Does what the strategy answered.
    pub fn take_answer(&mut self, answer: Option<StrategyIntent>, now: Timestamp)
        requires
            old(self).wf(),
        ensures
            final(self).wf(),
            final(self)@ == old(self)@.answered(answer, now),
    {
        match answer {
            None => {},
            Some(StrategyIntent::StandDown { reason }) => {
                self.stand_down = Some(reason);
                self.report(EngineEvent::Rejected { reason: reason.message().to_owned() });
            },
            Some(StrategyIntent::Enter(boxed)) => {
                let req = *boxed;
                self.stand_down = None;
                let plan = ManualPlan {
                    symbol: self.config.instrument.symbol.clone(),
                    side: req.side,
                    entry: req.entry,
                    quantity: None,
                    size_pct: None,
                    leverage: Decimal::one(),
                    stop: req.stop,
                    take_profit: req.take_profit,
                    break_even: req.protection.break_even,
                    trailing: req.protection.trailing,
                    cancel_unfilled_after: req.protection.timed_cancel,
                    client_ref: "strategy".to_owned(),
                };
                match self.place(&plan, now) {
                    SubmitOutcome::Accepted(_) => {},
                    SubmitOutcome::Rejected { reason } => self.report(
                        EngineEvent::Rejected { reason },
                    ),
                }
            },
            Some(StrategyIntent::ExitNow { .. }) => {
                self.pending_intent = None;
            },
        }
    }

    /// Asks the strategy, unless there is an entry or a position, or quotes are stale.
    fn decide<S: Strategy>(&mut self, now: Timestamp, strategy: &S)
        requires
            old(self).wf(),
        ensures
            final(self).wf(),
            exists|answer: Option<StrategyIntent>|
                final(self)@ == #[trigger] old(self)@.decided(answer, now) && (old(self)@.asks(now)
                    ==> crate::strategy::gave(
                    strategy,
                    old(self)@.config.instrument,
                    old(self)@.candles,
                    now,
                    old(self)@.worth(),
                    answer,
                )),
    {
        if self.pending_intent.is_some() || self.position_set.is_some() {
            assert(self@ == old(self)@.decided(None, now));
            return ;
        }
        if !self.feed_is_fresh(now) {
            self.stand_down = Some(StandDownReason::StaleFeed);
            assert(self@ == old(self)@.decided(None, now));
            return ;
        }
        let answer = {
            let view = MarketView {
                instrument: &self.config.instrument,
                candles: self.candles.as_slice(),
                now,
                has_position: false,
                has_pending_entry: false,
                equity: self.equity(),
            };
            let answer = strategy.evaluate(&view);
            assert(call_ensures(S::evaluate, (strategy, &view), answer));
            answer
        };
        let ghost given = answer;
        self.take_answer(answer, now);
        assert(self@ == old(self)@.decided(given, now));
    }

    /// Takes an event of the market: quotes first, then the entry that rests, the position, the
    /// decision where a candle has closed, and last what has run out.
    pub fn on_market_event<S: Strategy>(&mut self, event: MarketEvent, strategy: &S)
        requires
            old(self).wf(),
        ensures
            final(self).wf(),
            exists|answer: Option<StrategyIntent>|
                final(self)@ == #[trigger] old(self)@.after_event(event, answer) && ((event matches
                    MarketEvent::Kline(c) && c.closed) && old(self)@.advanced(event).asks(
                    event.time() as i64,
                ) ==> crate::strategy::gave(
                    strategy,
                    old(self)@.config.instrument,
                    old(self)@.advanced(event).candles,
                    event.time() as i64,
                    old(self)@.advanced(event).worth(),
                    answer,
                )),
    {
        let now = event.at();
        self.advance(&event);
        let closed = match &event {
            MarketEvent::Kline(c) => c.closed,
            _ => false,
        };
        let ghost mut answer: Option<StrategyIntent> = None;
        if closed {
            let ghost before = self@;
            self.decide(now, strategy);
            proof {
                answer = choose|answer: Option<StrategyIntent>|
                    self@ == #[trigger] before.decided(answer, now) && (before.asks(now) ==> crate::strategy::gave(
                        strategy,
                        before.config.instrument,
                        before.candles,
                        now,
                        before.worth(),
                        answer,
                    ));
            }
        }
        self.expire_pending(now);
        proof {
            lemma_setup_stays(old(self)@, event);
            assert(self@ == old(self)@.after_event(event, answer));
        }
    }

    /// Does everything that an event does before the strategy is asked.
    fn advance(&mut self, event: &MarketEvent)
        requires
            old(self).wf(),
        ensures
            final(self).wf(),
            final(self)@ == old(self)@.advanced(*event),
    {
        let now = event.at();
        self.take_market(event);
        self.try_fill_pending(now);
        self.manage_position(now);
    }

    /// Drops an entry that has run out.
    fn expire_pending(&mut self, now: Timestamp)
        requires
            old(self).wf(),
        ensures
            final(self).wf(),
            final(self)@ == old(self)@.without_expired(now),
    {
        let over = match &self.pending_intent {
            Some(e) => now >= e.valid_until,
            None => false,
        };
        if over {
            self.pending_intent = None;
            self.report(EngineEvent::StateChanged);
        }
    }

    /// Takes back the entry that rests, and says whether there was one.
    pub fn cancel_pending(&mut self) -> (r: bool)
        requires
            old(self).wf(),
        ensures
            final(self).wf(),
            r == (old(self)@.pending is Some),
            final(self)@ == (if r {
                (PaperModel { pending: None, ..old(self)@ }).reporting(ReportModel::StateChanged)
            } else {
                old(self)@
            }),
    {
        if self.pending_intent.is_some() {
            self.pending_intent = None;
            self.report(EngineEvent::StateChanged);
            true
        } else {
            false
        }
    }

    /// Closes the position at the last traded price, at the taker's fee.
    pub fn close_position_manually(&mut self, now: Timestamp) -> (r: Option<Decimal>)
        requires
            old(self).wf(),
        ensures
            final(self).wf(),
            final(self)@ == old(self)@.closed_by_hand().0,
            r == old(self)@.closed_by_hand().1,
    {
        let _ = now;
        let open = self.position_set.take();
        match open {
            None => None,
            Some(set) => {
                let entry = set.entry_price.get();
                let trades = self.tape.trades();
                let price = if trades.len() > 0 {
                    trades[trades.len() - 1].price.get()
                } else {
                    entry
                };
                let qty = set.quantity.get();
                let gross = unit_gain(set.side, entry, price) * qty;
                let fee = price * qty * self.config.instrument.fees.taker_rate;
                let pnl = gross - fee;
                self.total_fees = self.total_fees + fee;
                self.realized_pnl = self.realized_pnl + pnl;
                self.report(
                    EngineEvent::TradeClosed {
                        entry_price: entry,
                        exit_price: price,
                        quantity: qty,
                        pnl,
                        exit_reason: ExitReason::Manual,
                    },
                );
                self.report(EngineEvent::StateChanged);
                Some(pnl)
            },
        }
    }

    /// Checks that what rests closes no more than the position, and says what is wrong.
    pub fn check_consistency(&self) -> (r: Option<String>)
        requires
            self.wf(),
        ensures
            match self@.position {
                None => r is None,
                Some(set) => {
                    let resting = crate::position_set::closable_total(self.resting());
                    match r {
                        None => resting@ <= set.quantity.0@,
                        Some(s) => resting@ > set.quantity.0@ && s@ == "在挂平仓单合计 "@
                            + resting.written() + " 超过持仓 "@ + set.quantity.0.written()
                            + "——止损触发时会被交易所拒绝，保护将失效。必须减少挂单数量。"@,
                    }
                },
            },
    {
        match &self.position_set {
            None => None,
            Some(set) => {
                let pos = Position {
                    symbol: set.symbol.clone(),
                    side: set.side,
                    quantity: set.quantity,
                    entry_price: set.entry_price,
                    opened_at: set.opened_at,
                    stop_price: set.stop_price,
                };
                let working = self.state.open_orders();
                check_consistency(&pos, working.as_slice()).problem
            },
        }
    }

    /// The orders that may be resting, for display.
    fn shown_orders(&self) -> (r: Vec<OrderSnapshot>)
        requires
            self.wf(),
        ensures
            r@.len() == self.resting().len(),
            forall|i: int| 0 <= i < r@.len() ==> (#[trigger] r@[i]).shows(self.resting()[i]),
    {
        let all = self.state.open_orders();
        let ghost models = TrackedOrder::models(all@);
        let mut v: Vec<OrderSnapshot> = Vec::new();
        for i in 0..all.len()
            invariant
                models == TrackedOrder::models(all@),
                v@.len() == i,
                forall|j: int| 0 <= j < i ==> (#[trigger] v@[j]).shows(models[j]),
        {
            let t = all[i];
            assert(models[i as int] == (*t)@);
            v.push(
                OrderSnapshot {
                    client_id: t.order.client_id.0.clone(),
                    purpose: t.order.purpose,
                    side: t.order.side,
                    quantity: t.order.quantity.get(),
                    limit_price: t.order.limit_price.get(),
                    filled: t.filled.get(),
                    state: state_tag(&t.state),
                },
            );
        }
        v
    }

    /// The state of the engine, for display.
    pub fn snapshot(&self) -> (r: EngineSnapshot)
        requires
            self.wf(),
        ensures
            r.mode is Paper,
            r.symbol == self@.config.instrument.symbol,
            r.equity == self@.worth(),
            r.realized_pnl == self@.realized,
            r.unrealized_pnl == self@.unrealized(),
            match r.position {
                Some(v) => self@.position matches Some(set) && v.shows(
                    set,
                    self@.mark_or(Decimal::whole(0)),
                    self@.realized,
                ),
                None => self@.position is None,
            },
            r.open_orders@.len() == self.resting().len(),
            forall|i: int|
                0 <= i < r.open_orders@.len() ==> (#[trigger] r.open_orders@[i]).shows(
                    self.resting()[i],
                ),
            r.feed_connected == self@.feed_connected,
            r.last_event_at == self@.last_event_at,
            match r.stand_down {
                Some(s) => self@.stand_down matches Some(reason) && s@ == reason.said(),
                None => self@.stand_down is None,
            },
            r.safety == self@.safety,
    {
        let mark = Price::new(self.mark(Decimal::zero()));
        EngineSnapshot {
            mode: ServiceMode::Paper,
            symbol: self.config.instrument.symbol.clone(),
            equity: self.equity(),
            realized_pnl: self.realized_pnl,
            unrealized_pnl: self.unrealized_pnl(),
            position: match &self.position_set {
                Some(set) => Some(set.view(mark, self.realized_pnl)),
                None => None,
            },
            open_orders: self.shown_orders(),
            feed_connected: self.feed_connected,
            last_event_at: self.last_event_at,
            stand_down: match self.stand_down {
                Some(r) => Some(r.message()),
                None => None,
            },
            safety: self.safety,
        }
    }

    /// Notes whether quotes are arriving. An entry does not rest on quotes that have stopped.
    pub fn set_feed_connected(&mut self, connected: bool)
        requires
            old(self).wf(),
        ensures
            final(self).wf(),
            final(self)@ == (PaperModel {
                feed_connected: connected,
                pending: if connected {
                    old(self)@.pending
                } else {
                    None
                },
                ..old(self)@
            }).reporting(ReportModel::StateChanged),
    {
        self.feed_connected = connected;
        if !connected {
            self.pending_intent = None;
        }
        self.report(EngineEvent::StateChanged);
    }

    /// How often the entry that rests was sent and refused.
    pub fn latency_stats(&self) -> (r: (usize, usize))
        ensures
            r == (match self@.pending {
                Some(e) => (e.attempts, e.rejected),
                None => (0, 0),
            }),
    {
        match &self.pending_intent {
            Some(e) => (e.attempts, e.rejected),
            None => (0, 0),
        }
    }

    /// The name of the fill model and which way it errs.
    pub fn fill_model_info(&self) -> (r: (&'static str, Optimism))
        ensures
            r.0@ == self@.fill_model.label(),
            r.1 == self@.fill_model.stance(),
    {
        (self.fill_model.name(), self.fill_model.optimism())
    }

    /// Which profit targets are filled, by their names.
    pub fn rung_summary(&self) -> (r: TextMap<usize>)
        ensures
            r.wf(),
            r@ == (match self@.position {
                Some(set) => rungs_done(set, set.tp.pairs().len()),
                None => Map::<Seq<char>, usize>::empty(),
            }),
    {
        let mut m: TextMap<usize> = TextMap::new();
        if let Some(set) = &self.position_set {
            let n = set.tp.rungs().len();
            for i in 0..n
                invariant
                    m.wf(),
                    n == set.tp@.pairs().len(),
                    m@ == rungs_done(set.model(), i as nat),
            {
                let key = joined3("止盈第 ", u64_text(i as u64 + 1).as_str(), " 档");
                let done: usize = if holds(&set.completed_rungs, i) {
                    1
                } else {
                    0
                };
                m.insert(key, done);
            }
        }
        m
    }
}

/// Which of the first `n` profit targets are filled, by their names.
pub open spec fn rungs_done(set: SetModel, n: nat) -> Map<Seq<char>, usize>
    decreases n,
{
    if n == 0 {
        Map::empty()
    } else {
        rungs_done(set, (n - 1) as nat).insert(
            "止盈第 "@ + crate::text::digits(n) + " 档"@,
            if set.completed_rungs.contains((n - 1) as usize) {
                1
            } else {
                0
            },
        )
    }
}

/// Events change neither the set-up nor the fill model.
proof fn lemma_setup_stays<M: FillModel>(s: PaperModel<M>, event: MarketEvent)
    ensures
        s.advanced(event).config == s.config,
        s.advanced(event).fill_model == s.fill_model,
{
}

/// There is at most one of an entry and a position.
pub open spec fn one_at_a_time<M: FillModel>(s: PaperModel<M>) -> bool {
    s.position is None || s.pending is None
}

/// An entry and a position never stand side by side: whatever happens, the engine keeps to one
/// engagement at a time.
pub proof fn law_one_engagement<M: FillModel>(
    s: PaperModel<M>,
    event: MarketEvent,
    answer: Option<StrategyIntent>,
    plan: PlanModel,
    now: Timestamp,
)
    requires
        one_at_a_time(s),
    ensures
        one_at_a_time(s.after_event(event, answer)),
        one_at_a_time(s.submitted(plan, now)),
        one_at_a_time(s.closed_by_hand().0),
{
}

/// Showing a plan tells what submitting it places: where nothing stands in the way, an accepted
/// plan rests with the price and quantity that were shown, and a refused one changes nothing.
pub proof fn law_preview_is_what_is_placed<M: FillModel>(
    s: PaperModel<M>,
    plan: PlanModel,
    now: Timestamp,
)
    requires
        !s.engaged(),
    ensures
        s.previewed(plan) matches Ok(p) ==> (if p.accepted {
            s.submitted(plan, now).pending matches Some(e) && e.order.quantity == p.quantity
                && e.order.limit_price == p.entry && e.order.side == plan.side && e.order.purpose
                is Entry
        } else {
            s.submitted(plan, now) == s
        }),
        s.previewed(plan) is Err ==> s.submitted(plan, now) == s,
{
    crate::position_set::law_refused_plans_say_why(
        plan,
        s.config.instrument,
        s.worth(),
        s.mark_or(plan.entry),
        s.config.limits,
    );
}

/// A plan is refused beside an entry or a position, and then nothing changes.
pub proof fn law_no_second_engagement<M: FillModel>(
    s: PaperModel<M>,
    plan: PlanModel,
    now: Timestamp,
)
    requires
        s.engaged(),
    ensures
        s.verdict(plan) is Rejected,
        s.submitted(plan, now) == s,
{
}

/// On quotes that are stale or have stopped no entry comes of an event, whatever the strategy
/// would answer, and the reason is noted.
pub proof fn law_stale_quotes_open_nothing<M: FillModel>(
    s: PaperModel<M>,
    event: MarketEvent,
    answer: Option<StrategyIntent>,
)
    requires
        s.pending is None,
        !s.advanced(event).fresh(event.time() as i64),
    ensures
        s.after_event(event, answer).pending is None,
        (event matches MarketEvent::Kline(c) && c.closed) && !s.advanced(event).engaged()
            ==> s.after_event(event, answer).stand_down == Some(StandDownReason::StaleFeed),
{
}

/// A stop that is reached and not filled leaves the position as it was, and an operator is told.
pub proof fn law_unfilled_stop_is_reported<M: FillModel>(s: PaperModel<M>, now: Timestamp)
    requires
        s.position is Some,
        s.with_stop(now).position is Some,
        s.with_stop(now).position->0.stop_triggered_at is Some,
    ensures
        ({
            let before = s.position->0;
            let left = s.with_stop(now).position->0;
            &&& left.quantity == before.quantity
            &&& left.entry_price == before.entry_price
            &&& s.with_stop(now).realized == s.realized
            &&& before.stop_price matches Some(stop) ==> s.with_stop(now).events.last()
                == ReportModel::Alarm(s.exposure(stop))
        }),
{
}

/// Only trades since an order was placed can fill it: tapes that agree from that time on fill
/// the entry alike.
pub proof fn law_old_trades_fill_nothing<M: FillModel>(
    s: PaperModel<M>,
    other: Seq<Trade>,
    now: Timestamp,
)
    requires
        s.pending matches Some(e) ==> crate::liquidity::from_time(s.tape, e.placed_at)
            == crate::liquidity::from_time(other, e.placed_at),
    ensures
        (PaperModel { tape: other, ..s }).with_entry(now) == (PaperModel {
            tape: other,
            ..s.with_entry(now)
        }),
{
}

/// A target that is taken into account is planned, was not counted before and fits what is left of
/// the position, so it is never one that is refused.
pub proof fn law_filled_targets_fit<M: FillModel>(
    s: PaperModel<M>,
    set: SetModel,
    from: nat,
    working: Seq<&TrackedOrder>,
)
    requires
        s.due_rung(set, from) is Some,
    ensures
        ({
            let i = s.due_rung(set, from)->0;
            &&& from <= i < set.tp.pairs().len()
            &&& !set.completed_rungs.contains(i as usize)
            &&& set.target_fixes(i, set.rung_size(i), working) is Ok
        }),
    decreases set.tp.pairs().len() - from,
{
    let taken = !set.completed_rungs.contains(from as usize) && PaperModel::<M>::rung_fits(
        set,
        from,
    ) && !(s.rung_outcome(set, from) is Unfilled);
    if from < set.tp.pairs().len() && !taken {
        law_filled_targets_fit(s, set, from + 1, working);
    }
}

/// A target that is filled is reported with its quantity, price and fee. Where the amounts
/// multiply exactly, the fee is the maker rate of price times quantity, and the realised result
/// grows by `s * (price - entry) * quantity - fee`, with `s = 1` for a long and `-1` for a short
/// position; so a target filled beyond the entry price without a fee never lowers it. What is left
/// of the position is less by the quantity, and a position that nothing is left of is closed.
pub proof fn law_targets_settle_by_the_price<M: FillModel>(s: PaperModel<M>, set: SetModel)
    requires
        s.position == Some(set),
        s.with_targets() != s,
    ensures
        ({
            let after = s.with_targets();
            let n = s.events.len() as int;
            let entry = set.entry_price.0;
            let rate = s.config.instrument.fees.maker_rate;
            &&& after.events.len() > n
            &&& after.events.take(n) =~= s.events
            &&& after.events[n] matches ReportModel::Filled { quantity, price, fee, .. } && {
                &&& crate::settlement::books_exactly(s.realized, entry, price, quantity, rate)
                    ==> fee@ * crate::decimal::unit() * crate::decimal::unit() == price@ * quantity@
                    * rate@ && (after.realized@ - s.realized@) * crate::decimal::unit() == (
                if set.side is Buy {
                    price@ - entry@
                } else {
                    entry@ - price@
                }) * quantity@ - fee@ * crate::decimal::unit()
                &&& crate::settlement::books_exactly(s.realized, entry, price, quantity, rate)
                    && fee@ == 0 && quantity@ >= 0 && (if set.side is Buy {
                    price@ >= entry@
                } else {
                    price@ <= entry@
                }) ==> after.realized@ >= s.realized@
                &&& s.fees.adds_exactly(fee) ==> after.fees@ == s.fees@ + fee@
                &&& set.quantity.0.subtracts_exactly(quantity) ==> (match after.position {
                    Some(left) => left.quantity.0@ == set.quantity.0@ - quantity@
                        && left.quantity.0@ != 0 && left.entry_price == set.entry_price && left.side
                        == set.side,
                    None => quantity@ == set.quantity.0@,
                })
                &&& after.position is None ==> (after.events[n + 1] matches
                    ReportModel::TradeClosed {
                    entry_price,
                    exit_price,
                    quantity: closed,
                    pnl,
                    exit_reason,
                } && entry_price == entry && exit_price == price && closed == quantity
                    && exit_reason is TakeProfit && (crate::settlement::settles_exactly(
                    entry,
                    price,
                    quantity,
                    rate,
                ) ==> crate::settlement::is_result(
                    set.side,
                    entry@,
                    price@,
                    quantity@,
                    fee@,
                    pnl@,
                )))
            }
        }),
{
    let i = s.due_rung(set, 0)->0;
    let entry = set.entry_price.0;
    let rate = s.config.instrument.fees.maker_rate;
    let quantity = set.rung_size(i).0;
    let price = s.rung_outcome(set, i).price_else(s.rung_price(set, i));
    let fee = price.prod(quantity).prod(rate);
    let no_orders = Seq::<&crate::state::TrackedOrder>::empty();
    law_filled_targets_fit(s, set, 0, no_orders);
    if crate::settlement::settles_exactly(entry, price, quantity, rate) {
        crate::settlement::lemma_result(set.side, entry, price, quantity, rate);
    }
    if crate::settlement::books_exactly(s.realized, entry, price, quantity, rate) {
        crate::settlement::lemma_booked(s.realized, set.side, entry, price, quantity, rate);
        let u = crate::decimal::unit();
        let x = set.side.sign() * (price@ - entry@);
        let q = quantity@;
        let d = s.with_targets().realized@ - s.realized@;
        if x >= 0 && q >= 0 && fee@ == 0 {
            assert(d >= 0) by (nonlinear_arith)
                requires
                    d * u == x * q - 0 * u,
                    x >= 0,
                    q >= 0,
                    u > 0,
            ;
        }
    }
}

/// A target is filled at the price that the fill model gives for its order: for its part of the
/// position as it was entered, at its price on the tick grid.
pub proof fn law_targets_fill_as_the_model_says<M: FillModel>(s: PaperModel<M>, set: SetModel)
    requires
        s.position == Some(set),
        s.with_targets() != s,
    ensures
        s.due_rung(set, 0) matches Some(i) && i < set.tp.pairs().len()
            && !set.completed_rungs.contains(i as usize) && ({
            let order = s.rung_order(set, i);
            let n = s.events.len() as int;
            &&& order.side == set.side.flipped()
            &&& order.purpose is TakeProfit
            &&& s.with_targets().events[n] matches ReportModel::Filled {
                order: id,
                quantity,
                price,
                ..
            } && id == order.client_id && quantity == order.quantity.0 && (match s.fill_model.outcome(
                s.tried(order, PaperModel::<M>::protected_since(set)),
            ) {
                crate::fill::FillOutcome::Unfilled => false,
                crate::fill::FillOutcome::Full { price: p } => p == price,
                crate::fill::FillOutcome::Partial { price: p, .. } => p == price,
            })
            &&& set.original_quantity.0.multiplies_exactly(set.tp.pairs()[i as int].1)
                ==> order.quantity.0@ * crate::decimal::unit() == set.original_quantity.0@
                * set.tp.pairs()[i as int].1@
        }),
{
    let no_orders = Seq::<&crate::state::TrackedOrder>::empty();
    law_filled_targets_fit(s, set, 0, no_orders);
    lemma_due_rung_is_filled(s, set, 0);
}

proof fn lemma_due_rung_is_filled<M: FillModel>(s: PaperModel<M>, set: SetModel, from: nat)
    requires
        s.due_rung(set, from) is Some,
    ensures
        !(s.rung_outcome(set, s.due_rung(set, from)->0) is Unfilled),
    decreases set.tp.pairs().len() - from,
{
    let taken = !set.completed_rungs.contains(from as usize) && PaperModel::<M>::rung_fits(
        set,
        from,
    ) && !(s.rung_outcome(set, from) is Unfilled);
    if from < set.tp.pairs().len() && !taken {
        lemma_due_rung_is_filled(s, set, from + 1);
    }
}

/// A stop that is filled closes the whole position. Where the amounts multiply exactly, its result
/// is `s * (price - entry) * quantity - fee`, and the realised result grows by that.
pub proof fn law_stops_settle_by_the_price<M: FillModel>(
    s: PaperModel<M>,
    set: SetModel,
    now: Timestamp,
)
    requires
        s.position == Some(set),
        s.with_stop(now).position is None,
    ensures
        ({
            let after = s.with_stop(now);
            let n = s.events.len() as int;
            let entry = set.entry_price.0;
            let rate = s.config.instrument.fees.maker_rate;
            &&& after.events.len() == n + 3
            &&& after.events[n] matches ReportModel::Filled { quantity, price, fee, .. } && {
                &&& quantity == set.quantity.0
                &&& crate::settlement::books_exactly(s.realized, entry, price, quantity, rate)
                    ==> fee@ * crate::decimal::unit() * crate::decimal::unit() == price@ * quantity@
                    * rate@ && (after.realized@ - s.realized@) * crate::decimal::unit() == (
                if set.side is Buy {
                    price@ - entry@
                } else {
                    entry@ - price@
                }) * quantity@ - fee@ * crate::decimal::unit()
                &&& s.fees.adds_exactly(fee) ==> after.fees@ == s.fees@ + fee@
                &&& after.events[n + 1] matches ReportModel::TradeClosed {
                    entry_price,
                    exit_price,
                    quantity: closed,
                    pnl,
                    exit_reason,
                } && entry_price == entry && exit_price == price && closed == quantity
                    && exit_reason is StopLoss && (crate::settlement::settles_exactly(
                    entry,
                    price,
                    quantity,
                    rate,
                ) ==> crate::settlement::is_result(
                    set.side,
                    entry@,
                    price@,
                    quantity@,
                    fee@,
                    pnl@,
                ))
            }
        }),
{
    let after = s.with_stop(now);
    let n = s.events.len() as int;
    let entry = set.entry_price.0;
    let rate = s.config.instrument.fees.maker_rate;
    let quantity = set.quantity.0;
    let price = after.events[n]->Filled_price;
    if crate::settlement::settles_exactly(entry, price, quantity, rate) {
        crate::settlement::lemma_result(set.side, entry, price, quantity, rate);
    }
    if crate::settlement::books_exactly(s.realized, entry, price, quantity, rate) {
        crate::settlement::lemma_booked(s.realized, set.side, entry, price, quantity, rate);
    }
}

/// A stop does nothing until a trade since the protection was placed is at it or beyond: at or
/// below it for a long, at or above it for a short position.
pub proof fn law_stops_wait_for_a_trade<M: FillModel>(
    s: PaperModel<M>,
    set: SetModel,
    stop: Price,
    now: Timestamp,
)
    requires
        s.position == Some(set),
        set.stop_price == Some(stop),
        set.stop_triggered_at is None,
    ensures
        ({
            let trades = crate::liquidity::from_time(s.tape, PaperModel::<M>::protected_since(set));
            (forall|i: int|
                0 <= i < trades.len() ==> set.side.sign() * (#[trigger] trades[i]).price.0@
                    > set.side.sign() * stop.0@) <==> s.with_stop(now) == s
        }),
{
    let trades = crate::liquidity::from_time(s.tape, PaperModel::<M>::protected_since(set));
    if stop_reached(set.side, stop.0, trades) {
        let i = choose|i: int|
            0 <= i < trades.len() && crate::fill::reaches(
                set.side,
                (#[trigger] trades[i]).price.0,
                stop.0,
            );
        assert(!(set.side.sign() * trades[i].price.0@ > set.side.sign() * stop.0@));
        assert(s.with_stop(now).events.len() > s.events.len());
    } else {
        assert forall|i: int| 0 <= i < trades.len() implies set.side.sign() * (
        #[trigger] trades[i]).price.0@ > set.side.sign() * stop.0@ by {
            assert(!crate::fill::reaches(set.side, trades[i].price.0, stop.0));
        }
    }
}

/// A position that an operator closes is closed whole, at the price of the last trade, for the
/// taker rate. Where the amounts multiply exactly, its result is
/// `s * (price - entry) * quantity - fee`, which is answered and by which the realised result grows.
pub proof fn law_closing_by_hand_settles_by_the_price<M: FillModel>(s: PaperModel<M>, set: SetModel)
    requires
        s.position == Some(set),
    ensures
        ({
            let (after, answer) = s.closed_by_hand();
            let n = s.events.len() as int;
            let entry = set.entry_price.0;
            let rate = s.config.instrument.fees.taker_rate;
            let price = if s.tape.len() > 0 {
                s.tape.last().price.0
            } else {
                entry
            };
            let quantity = set.quantity.0;
            let fee = price.prod(quantity).prod(rate);
            &&& after.position is None
            &&& answer matches Some(pnl) && {
                &&& crate::settlement::settles_exactly(entry, price, quantity, rate)
                    ==> crate::settlement::is_charge(fee@, price@, quantity@, rate@)
                    && crate::settlement::is_result(
                    set.side,
                    entry@,
                    price@,
                    quantity@,
                    fee@,
                    pnl@,
                )
                &&& s.realized.adds_exactly(pnl) ==> after.realized@ == s.realized@ + pnl@
                &&& s.fees.adds_exactly(fee) ==> after.fees@ == s.fees@ + fee@
                &&& after.events[n] == (ReportModel::TradeClosed {
                    entry_price: entry,
                    exit_price: price,
                    quantity,
                    pnl,
                    exit_reason: ExitReason::Manual,
                })
            }
        }),
{
    let entry = set.entry_price.0;
    let rate = s.config.instrument.fees.taker_rate;
    let price = if s.tape.len() > 0 {
        s.tape.last().price.0
    } else {
        entry
    };
    let quantity = set.quantity.0;
    if crate::settlement::settles_exactly(entry, price, quantity, rate) {
        crate::settlement::lemma_result(set.side, entry, price, quantity, rate);
    }
}

/// The unrealised result is what the position would earn at the last price before a fee:
/// `s * (mark - entry) * quantity`, and nothing without a position. The worth is the initial equity
/// with both results.
pub proof fn law_worth_counts_both_results<M: FillModel>(s: PaperModel<M>)
    ensures
        s.position is None ==> s.unrealized()@ == 0,
        s.position matches Some(set) ==> ({
            let entry = set.entry_price.0;
            let mark = s.mark_or(entry);
            crate::settlement::gains_exactly(entry, mark, set.quantity.0) ==> s.unrealized()@
                * crate::decimal::unit() == (if set.side is Buy {
                mark@ - entry@
            } else {
                entry@ - mark@
            }) * set.quantity.0@
        }),
        s.config.initial_equity.adds_exactly(s.realized) && s.config.initial_equity.sum(
            s.realized,
        ).adds_exactly(s.unrealized()) ==> s.worth()@ == s.config.initial_equity@ + s.realized@
            + s.unrealized()@,
{
    crate::decimal::lemma_of_parts(0, 0);
}

/// The last price is that of the last trade; without trades it is the close of the last candle, and
/// without either the one that is given.
pub proof fn law_mark_is_the_last_price<M: FillModel>(s: PaperModel<M>, fallback: Decimal)
    ensures
        s.tape.len() > 0 ==> s.mark_or(fallback) == s.tape[s.tape.len() - 1].price.0,
        s.tape.len() == 0 && s.candles.len() > 0 ==> s.mark_or(fallback)
            == s.candles[s.candles.len() - 1].close,
        s.tape.len() == 0 && s.candles.len() == 0 ==> s.mark_or(fallback) == fallback,
{
}

/// An entry that is filled opens a position of its side for the quantity and at the price of the
/// fill, with its protection. The fees grow by the maker rate of both; nothing is realised.
pub proof fn law_entries_pay_their_fee<M: FillModel>(
    s: PaperModel<M>,
    e: RestingModel,
    now: Timestamp,
)
    requires
        s.pending == Some(e),
        s.with_entry(now) != s,
    ensures
        ({
            let after = s.with_entry(now);
            let n = s.events.len() as int;
            let rate = s.config.instrument.fees.maker_rate;
            &&& after.pending is None
            &&& after.realized == s.realized
            &&& after.events[n] matches ReportModel::Filled { order, quantity, price, fee } && {
                &&& order == e.order.client_id
                &&& match s.fill_model.outcome(s.tried(e.order, e.placed_at)) {
                    crate::fill::FillOutcome::Unfilled => false,
                    crate::fill::FillOutcome::Full { price: p } => p == price && quantity
                        == e.order.quantity.0,
                    crate::fill::FillOutcome::Partial { quantity: q, price: p } => p == price && q
                        == quantity,
                }
                &&& after.position matches Some(set) && set.side == e.order.side && set.quantity.0
                    == quantity && set.original_quantity.0 == quantity && set.entry_price.0 == price
                    && set.opened_at == now && set.plan == e.plan && set.tp == e.tp
                    && set.completed_rungs.len() == 0 && set.stop_triggered_at is None
                    && set.protection_placed_at == Some(now)
                &&& crate::settlement::charges_exactly(price, quantity, rate)
                    ==> crate::settlement::is_charge(fee@, price@, quantity@, rate@)
                &&& s.fees.adds_exactly(fee) ==> after.fees@ == s.fees@ + fee@
            }
        }),
{
    let after = s.with_entry(now);
    let n = s.events.len() as int;
    let price = after.events[n]->Filled_price;
    let quantity = after.events[n]->Filled_quantity;
    let rate = s.config.instrument.fees.maker_rate;
    if crate::settlement::charges_exactly(price, quantity, rate) {
        crate::settlement::lemma_charge(price, quantity, rate);
    }
}

/// Quotes count as fresh while they are connected and the last event is no older than the limit, a
/// second more not yet counted.
pub proof fn law_fresh_quotes_are_recent<M: FillModel>(s: PaperModel<M>, t: Timestamp, now: Timestamp)
    requires
        s.last_event_at == Some(t),
        now >= t,
    ensures
        s.fresh(now) <==> s.feed_connected && now - t < 1000 * (s.config.max_staleness_secs + 1),
{
    crate::risk::law_whole_seconds(now - t);
}

/// An entry that rests is dropped exactly when its time is up.
pub proof fn law_resting_entries_run_out<M: FillModel>(
    s: PaperModel<M>,
    e: RestingModel,
    now: Timestamp,
)
    requires
        s.pending == Some(e),
    ensures
        s.without_expired(now).pending is None <==> now >= e.valid_until,
        now < e.valid_until ==> s.without_expired(now) == s,
        s.without_expired(now).position == s.position,
        s.without_expired(now).realized == s.realized,
{
}

/// Trades are kept for eight hours: after a trade, every trade of the eight hours up to it is on the tape,
/// itself among them, and none from before.
pub proof fn law_trades_are_kept_for_eight_hours<M: FillModel>(
    s: PaperModel<M>,
    t: crate::market::AggTrade,
)
    requires
        crate::liquidity::ordered_trades(s.tape),
        t.at >= i64::MIN + 28800000,
    ensures
        ({
            let after = s.with_market(MarketEvent::AggTrade(t)).tape;
            let all = crate::liquidity::with_trade(
                s.tape,
                Trade {
                    trade_id: t.trade_id,
                    price: t.price,
                    quantity: t.quantity,
                    is_buyer_maker: t.is_buyer_maker,
                    at: t.at,
                },
            );
            &&& after.len() <= all.len()
            &&& forall|i: int| 0 <= i < after.len() ==> (#[trigger] after[i]).at >= t.at - 28800000
            &&& forall|i: int| 0 <= i < after.len() ==> #[trigger] after[i] == all[all.len()
                - after.len() + i]
            &&& forall|i: int|
                0 <= i < all.len() - after.len() ==> (#[trigger] all[i]).at < t.at - 28800000
        }),
{
    let trade = Trade {
        trade_id: t.trade_id,
        price: t.price,
        quantity: t.quantity,
        is_buyer_maker: t.is_buyer_maker,
        at: t.at,
    };
    let all = crate::liquidity::with_trade(s.tape, trade);
    crate::liquidity::lemma_with_trade(s.tape, trade);
    crate::liquidity::law_later_trades_are_kept(all, (t.at - 28800000) as i64);
}

/// Of the closed candles the last are kept: as many as are wanted, and never fewer than a hundred and
/// twenty where there are as many. A candle in the making is not kept.
pub proof fn law_closed_candles_are_kept<M: FillModel>(s: PaperModel<M>, c: Candle)
    ensures
        ({
            let after = s.with_market(MarketEvent::Kline(c)).candles;
            let all = s.candles.push(c);
            &&& !c.closed ==> after == s.candles
            &&& c.closed ==> after.len() > 0 && after.last() == c
            &&& c.closed ==> after.len() <= all.len() && (after.len() == all.len() || (after.len()
                >= 120 && after.len() >= s.config.max_candles))
            &&& c.closed && all.len() > 120 && all.len() > s.config.max_candles ==> after.len() == 120
                || after.len() == s.config.max_candles
            &&& c.closed ==> after =~= all.skip(all.len() - after.len())
        }),
{
}

/// A plan that is accepted rests until the time that it names, or for two minutes; it is protected as the
/// plan says, and its stop is the plan's price.
pub proof fn law_accepted_plans_rest_for_their_time<M: FillModel>(
    s: PaperModel<M>,
    plan: PlanModel,
    preview: PreviewModel,
    now: Timestamp,
)
    ensures
        ({
            let e = s.entry_of(plan, preview, now);
            &&& plan.cancel_unfilled_after matches Some(t) ==> e.valid_until == t && e.order.tif == (
            TimeInForce::PostOnlyGtd { deadline: t })
            &&& plan.cancel_unfilled_after is None && now + 120000 <= i64::MAX ==> e.valid_until == now
                + 120000 && e.order.tif is PostOnly
            &&& e.placed_at == now
            &&& e.order.side == plan.side
            &&& e.order.quantity == preview.quantity
            &&& e.order.limit_price == preview.entry
            &&& e.order.purpose is Entry
            &&& e.plan.stop == (StopSpec::AtPrice { price: plan.stop })
            &&& e.plan.break_even == plan.break_even
            &&& e.plan.trailing == plan.trailing
            &&& e.plan.timed_cancel == plan.cancel_unfilled_after
            &&& e.tp == plan.take_profit
        }),
{
}

/// A strategy's wish becomes a plan of its side, prices and protection, at a leverage of one, whose size
/// follows from the equity.
pub proof fn law_wishes_become_plans<M: FillModel>(s: PaperModel<M>, req: EnterRequest)
    ensures
        ({
            let plan = s.plan_of(req);
            &&& plan.side == req.side
            &&& plan.entry == req.entry
            &&& plan.stop == req.stop
            &&& plan.take_profit == req.take_profit@
            &&& plan.leverage@ == crate::decimal::unit()
            &&& plan.quantity is None && plan.size_pct is None
            &&& plan.break_even == req.protection.break_even
            &&& plan.trailing == req.protection.trailing
            &&& plan.cancel_unfilled_after == req.protection.timed_cancel
        }),
{
    crate::decimal::lemma_of_parts(1, 0);
    crate::decimal::lemma_pow10_28();
}

/// What a strategy answers: nothing changes nothing, a reason to stand down is noted and reported, and a
/// wish to leave drops the entry that rests.
pub proof fn law_answers_do_what_they_say<M: FillModel>(
    s: PaperModel<M>,
    answer: Option<StrategyIntent>,
    now: Timestamp,
)
    ensures
        ({
            let after = s.answered(answer, now);
            &&& answer is None ==> after == s
            &&& answer matches Some(StrategyIntent::StandDown { reason }) ==> after.stand_down == Some(
                reason,
            ) && after.events == s.events.push(ReportModel::Rejected { reason: reason.said() })
                && after.pending == s.pending
            &&& answer matches Some(StrategyIntent::ExitNow { .. }) ==> after.pending is None
                && after.position == s.position && after.events == s.events
            &&& after.position == s.position && after.realized == s.realized
        }),
{
}

/// A target is due only while it is no larger than what is left of the position; one of exactly that size
/// fits.
pub proof fn law_targets_fit_what_is_left<M: FillModel>(set: SetModel, i: nat)
    requires
        set.quantity.0.subtracts_exactly(set.rung_size(i).0),
    ensures
        PaperModel::<M>::rung_fits(set, i) <==> set.rung_size(i).0@ <= set.quantity.0@,
{
}

/// The stop of a position is that of its protection: the price of the first stop, where it could be
/// compiled, and none where it could not.
pub proof fn law_stop_is_that_of_the_protection(stop: OrderModel, targets: Seq<ActionModel>)
    requires
        stop.purpose is StopLoss,
        forall|i: int|
            0 <= i < targets.len() ==> (#[trigger] targets[i] matches ActionModel::Place(o)
                && o.purpose is TakeProfit),
    ensures
        stop_among(seq![ActionModel::Place(stop)] + targets) == Some(stop.limit_price),
        stop_among(Seq::empty()) is None,
    decreases targets.len(),
{
    let all = seq![ActionModel::Place(stop)] + targets;
    if targets.len() == 0 {
        assert(all.last() == ActionModel::Place(stop));
    } else {
        let rest = targets.drop_last();
        assert(all.last() == targets[targets.len() - 1]);
        assert(all.drop_last() =~= seq![ActionModel::Place(stop)] + rest);
        assert forall|i: int| 0 <= i < rest.len() implies (#[trigger] rest[i] matches
            ActionModel::Place(o) && o.purpose is TakeProfit) by {
            assert(rest[i] == targets[i]);
        }
        law_stop_is_that_of_the_protection(stop, rest);
    }
}

/// A position that an entry opened has its stop at the planned level, aligned for the side that closes it.
pub proof fn law_entries_are_protected<M: FillModel>(
    s: PaperModel<M>,
    e: RestingModel,
    now: Timestamp,
    price: Price,
)
    requires
        s.pending == Some(e),
        s.with_entry(now) != s,
        s.with_entry(now).position is Some,
        e.tp.fault() is None,
        s.config.instrument.precision.priced(
            e.order.side.flipped(),
            e.plan.stop.level(s.with_entry(now).position->0.entry_price.0, e.order.side),
            PriceRole::StopLoss,
        ) == Ok::<Price, crate::error::DomainError>(price),
        s.protection_of(
            e,
            s.with_entry(now).position->0.entry_price.0,
            s.with_entry(now).position->0.quantity.0,
        ).len() > 0,
    ensures
        s.with_entry(now).position->0.stop_price == Some(price),
{
    let set = s.with_entry(now).position->0;
    let actions = s.protection_of(e, set.entry_price.0, set.quantity.0);
    let fill = EntryModel {
        symbol: s.config.instrument.symbol@,
        entry_order_id: e.order.client_id,
        side: e.order.side,
        price: set.entry_price,
        quantity: set.quantity,
    };
    assert(Price(set.entry_price.0) == set.entry_price && Qty(set.quantity.0) == set.quantity);
    crate::protection::law_protection_only_reduces(fill, s.config.instrument, e.plan, e.tp);
    let targets = fill.target_orders(s.config.instrument, e.tp.pairs(), e.tp.pairs().len())->Ok_0;
    let stop = fill.exit_order("stop"@, OrderPurpose::StopLoss, fill.quantity, price);
    assert(actions == seq![ActionModel::Place(stop)] + targets);
    crate::protection::lemma_targets_reduce(
        fill,
        s.config.instrument,
        e.tp.pairs(),
        e.tp.pairs().len(),
    );
    law_stop_is_that_of_the_protection(stop, targets);
}

/// An entry that is filled is booked in the life cycle, with its fee in the settlement asset.
pub proof fn law_entries_are_booked<M: FillModel>(
    s: PaperModel<M>,
    e: RestingModel,
    price: Decimal,
    quantity: Decimal,
    now: Timestamp,
)
    requires
        !s.book.orders.dom().contains(e.order.client_id),
        !s.book.seen.contains("paper-"@ + e.order.client_id),
        !s.book.positions.dom().contains(e.order.symbol),
        e.order.purpose is Entry,
        Decimal::whole(0).adds_exactly(quantity),
        quantity@ <= e.order.quantity.0@,
    ensures
        ({
            let after = s.book_with_entry(e, price, quantity, now);
            let asset = s.config.instrument.settlement_asset@;
            let fee = price.prod(quantity).prod(s.config.instrument.fees.maker_rate);
            &&& after.orders.dom().contains(e.order.client_id)
            &&& after.orders[e.order.client_id].filled.0@ == quantity@
            &&& after.positions.dom().contains(e.order.symbol)
            &&& after.positions[e.order.symbol].side == e.order.side
            &&& after.positions[e.order.symbol].quantity.0 == quantity
            &&& after.positions[e.order.symbol].entry_price.0 == price
            &&& after.result_of(asset) == s.book.result_of(asset).sum(fee)
        }),
{
    crate::decimal::lemma_of_parts(0, 0);
}

/// From when a stop was reached, the trades since then can fill it, for all of the position at its own
/// price; until they do, the time at which it was reached is kept.
pub proof fn law_stops_are_filled_since_they_were_reached<M: FillModel>(
    s: PaperModel<M>,
    set: SetModel,
    stop: Price,
    now: Timestamp,
)
    requires
        s.position == Some(set),
        set.stop_price == Some(stop),
    ensures
        set.stop_triggered_at matches Some(t) ==> ({
            let shown = s.tried(s.stop_order(set, stop), t);
            &&& shown.trades == crate::liquidity::from_time(s.tape, t)
            &&& shown.placed_at == t
            &&& shown.order.quantity == set.quantity
            &&& shown.order.limit_price == stop
            &&& shown.order.side == set.side.flipped()
            &&& s.with_stop(now).position is None <==> !(s.fill_model.outcome(shown) is Unfilled)
            &&& s.with_stop(now).position matches Some(left) ==> left.stop_triggered_at == Some(t)
        }),
        set.stop_triggered_at is None ==> (s.with_stop(now).position matches Some(left)
            ==> left.stop_triggered_at is None || left.stop_triggered_at == Some(now)),
{
}

/// A position is protected from when its protection was placed, or from its opening where that is not
/// known.
pub proof fn law_protection_begins_when_it_is_placed<M: FillModel>(set: SetModel)
    ensures
        set.protection_placed_at matches Some(t) ==> PaperModel::<M>::protected_since(set) == t,
        set.protection_placed_at is None ==> PaperModel::<M>::protected_since(set) == set.opened_at,
{
}

/// The strategy is asked exactly with neither an entry nor a position and on fresh quotes; a plan is
/// accepted only with neither, and only where its preview is accepted with a quantity.
pub proof fn law_nothing_is_asked_while_engaged<M: FillModel>(
    s: PaperModel<M>,
    plan: PlanModel,
    now: Timestamp,
)
    ensures
        s.asks(now) <==> s.position is None && s.pending is None && s.fresh(now),
        s.verdict(plan) matches SubmitModel::Accepted(p) ==> s.position is None && s.pending is None
            && p.accepted && p.quantity.0@ != 0 && s.previewed(plan) == Ok::<PreviewModel, Fault>(p),
{
}

} // verus!
