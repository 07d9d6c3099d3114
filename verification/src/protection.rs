//! Planning protection: stops, profit targets, break-even and trailing stops, timed cancels.
//!
//! Every exit price of the desk is computed here, from a fill by [`ProtectionPlanner::compile`]
//! and from the market by [`ProtectionPlanner::on_market`]. Rounding is left to
//! [`Precision::price_for`](crate::precision::Precision::price_for).

use vstd::prelude::*;
use crate::clock::{since, Timestamp};
use crate::decimal::{Decimal, MAX_MANTISSA};
use crate::error::{DomainError, Fault};
use crate::instrument::Instrument;
use crate::market::midpoint;
use crate::money::{Price, Qty};
use crate::order::{
    Alarm, AlarmModel, ClientOrderId, Effect, EffectModel, Order, OrderModel, OrderPurpose, Side,
    TimeInForce,
};
use crate::precision::PriceRole;
use crate::state::{Position, TrackedOrder};
use crate::text::{joined, joined3, u64_text};

verus! {

/// Where a stop is put.
#[derive(Clone, Copy, Debug, PartialEq, Eq)]
pub enum StopSpec {
    /// At a price that follows from the signal.
    AtPrice { price: Decimal },
    /// At a fraction of the entry price away from it.
    FixedPct { pct: Decimal },
}

impl StopSpec {
    /// The stop of a position that was entered at a price.
    pub open spec fn level(self, entry: Decimal, side: Side) -> Decimal {
        match self {
            StopSpec::AtPrice { price } => price,
            StopSpec::FixedPct { pct } => match side {
                Side::Buy => entry.less(entry.prod(pct)),
                Side::Sell => entry.sum(entry.prod(pct)),
            },
        }
    }

    pub fn resolve(&self, entry: Decimal, side: Side) -> (r: Decimal)
        ensures
            r == self.level(entry, side),
    {
        match self {
            StopSpec::AtPrice { price } => *price,
            StopSpec::FixedPct { pct } => {
                let offset = entry * *pct;
                match side {
                    Side::Buy => entry - offset,
                    Side::Sell => entry + offset,
                }
            },
        }
    }
}

/// One rung of a ladder of profit targets.
#[derive(Clone, Copy, Debug, PartialEq, Eq)]
pub struct TpRung {
    /// The distance from the entry price, as a fraction of it.
    pub pct: Decimal,
    /// The part of the position that is closed.
    pub fraction: Decimal,
}

/// Profit targets.
#[derive(Debug, PartialEq, Eq)]
pub enum TpPlan {
    /// One target for all of the position.
    Single { pct: Decimal },
    /// Several targets, which together close at most the whole position.
    Ladder { rungs: Vec<TpRung> },
}

/// A [`TpPlan`] with its rungs as a sequence.
pub enum TpModel {
    Single { pct: Decimal },
    Ladder { rungs: Seq<TpRung> },
}

impl View for TpPlan {
    type V = TpModel;

    open spec fn view(&self) -> TpModel {
        match *self {
            TpPlan::Single { pct } => TpModel::Single { pct },
            TpPlan::Ladder { rungs } => TpModel::Ladder { rungs: rungs@ },
        }
    }
}

impl TpModel {
    /// The sum of the parts of some rungs, added up in their order.
    pub open spec fn total_fraction(rungs: Seq<TpRung>) -> Decimal
        decreases rungs.len(),
    {
        if rungs.len() == 0 {
            Decimal::whole(0)
        } else {
            Self::total_fraction(rungs.drop_last()).sum(rungs.last().fraction)
        }
    }

    /// A rung that closes nothing or has no distance.
    pub open spec fn bad(rung: TpRung) -> bool {
        rung.fraction@ <= 0 || rung.pct@ <= 0
    }

    /// The first bad rung.
    pub open spec fn first_bad(rungs: Seq<TpRung>) -> Option<nat>
        decreases rungs.len(),
    {
        if rungs.len() == 0 {
            None
        } else {
            match Self::first_bad(rungs.drop_last()) {
                Some(i) => Some(i),
                None => if Self::bad(rungs.last()) {
                    Some((rungs.len() - 1) as nat)
                } else {
                    None
                },
            }
        }
    }

    /// What is wrong with the plan.
    pub open spec fn fault(self) -> Option<Fault> {
        match self {
            TpModel::Single { .. } => None,
            TpModel::Ladder { rungs } => if rungs.len() == 0 {
                Some(Fault::IllegalTransition("分批止盈不能为空"@))
            } else if Self::total_fraction(rungs)@ > crate::decimal::unit() {
                Some(
                    Fault::IllegalTransition(
                        "分批止盈各档比例之和 "@ + Self::total_fraction(rungs).written()
                            + " 超过 1"@,
                    ),
                )
            } else {
                match Self::first_bad(rungs) {
                    Some(i) => Some(
                        Fault::IllegalTransition(
                            "第 "@ + crate::text::digits(i + 1) + " 档的比例和百分比必须为正数"@,
                        ),
                    ),
                    None => None,
                }
            },
        }
    }

    /// The targets as pairs of distance and part.
    pub open spec fn pairs(self) -> Seq<(Decimal, Decimal)> {
        match self {
            TpModel::Single { pct } => seq![(pct, Decimal::whole(1))],
            TpModel::Ladder { rungs } => rungs.map_values(|r: TpRung| (r.pct, r.fraction)),
        }
    }
}

impl TpPlan {
    /// Checks that the rungs close something each and at most everything together.
    pub fn validate(&self) -> (r: Result<(), DomainError>)
        ensures
            match r {
                Ok(_) => self@.fault() is None,
                Err(e) => self@.fault() == Some(e@),
            },
    {
        match self {
            TpPlan::Single { .. } => Ok(()),
            TpPlan::Ladder { rungs } => {
                if rungs.is_empty() {
                    return Err(DomainError::IllegalTransition("分批止盈不能为空".to_owned()));
                }
                let mut total = Decimal::zero();
                for i in 0..rungs.len()
                    invariant
                        total == TpModel::total_fraction(rungs@.take(i as int)),
                {
                    assert(rungs@.take(i + 1).drop_last() =~= rungs@.take(i as int));
                    total = total + rungs[i].fraction;
                }
                assert(rungs@.take(rungs@.len() as int) =~= rungs@);
                if total > Decimal::one() {
                    return Err(
                        DomainError::IllegalTransition(
                            joined3(
                                "分批止盈各档比例之和 ",
                                total.text().as_str(),
                                " 超过 1",
                            ),
                        ),
                    );
                }
                for i in 0..rungs.len()
                    invariant
                        TpModel::first_bad(rungs@.take(i as int)) is None,
                        self@ == (TpModel::Ladder { rungs: rungs@ }),
                        rungs@.len() > 0,
                        TpModel::total_fraction(rungs@)@ <= crate::decimal::unit(),
                {
                    assert(rungs@.take(i + 1).drop_last() =~= rungs@.take(i as int));
                    if rungs[i].fraction <= Decimal::zero() || rungs[i].pct <= Decimal::zero() {
                        proof {
                            lemma_first_bad_prefix(rungs@, (i + 1) as nat);
                        }
                        return Err(
                            DomainError::IllegalTransition(
                                joined3(
                                    "第 ",
                                    u64_text(i as u64 + 1).as_str(),
                                    " 档的比例和百分比必须为正数",
                                ),
                            ),
                        );
                    }
                }
                Ok(())
            },
        }
    }

    /// The targets as pairs of distance and part.
    pub fn rungs(&self) -> (r: Vec<(Decimal, Decimal)>)
        ensures
            r@ == self@.pairs(),
    {
        match self {
            TpPlan::Single { pct } => {
                let v = vec![(*pct, Decimal::one())];
                assert(v@ =~= self@.pairs());
                v
            },
            TpPlan::Ladder { rungs } => {
                let mut v: Vec<(Decimal, Decimal)> = Vec::new();
                for i in 0..rungs.len()
                    invariant
                        v@ == rungs@.take(i as int).map_values(|r: TpRung| (r.pct, r.fraction)),
                {
                    v.push((rungs[i].pct, rungs[i].fraction));
                    assert(v@ =~= rungs@.take(i + 1).map_values(|r: TpRung| (r.pct, r.fraction)));
                }
                assert(rungs@.take(rungs@.len() as int) =~= rungs@);
                v
            },
        }
    }
}

proof fn lemma_first_bad_prefix(rungs: Seq<TpRung>, n: nat)
    requires
        n <= rungs.len(),
        TpModel::first_bad(rungs.take(n as int)) is Some,
    ensures
        TpModel::first_bad(rungs) == TpModel::first_bad(rungs.take(n as int)),
    decreases rungs.len(),
{
    if n == rungs.len() {
        assert(rungs.take(n as int) =~= rungs);
    } else {
        assert(rungs.drop_last().take(n as int) =~= rungs.take(n as int));
        lemma_first_bad_prefix(rungs.drop_last(), n);
    }
}

impl Clone for TpPlan {
    fn clone(&self) -> (r: Self)
        ensures
            r@ == self@,
    {
        match self {
            TpPlan::Single { pct } => TpPlan::Single { pct: *pct },
            TpPlan::Ladder { rungs } => {
                let copy = rungs.clone();
                assert(copy@ =~= rungs@);
                TpPlan::Ladder { rungs: copy }
            },
        }
    }
}

/// A stop that moves to the entry price once the position has earned enough.
#[derive(Clone, Copy, Debug, PartialEq, Eq)]
pub struct BreakEvenSpec {
    /// How many times the distance to the stop the position has to have earned.
    pub trigger_r: Decimal,
    /// How far beyond the entry price the stop is put.
    pub offset: Decimal,
}

/// A stop that follows the best price.
#[derive(Clone, Copy, Debug, PartialEq, Eq)]
pub struct TrailingSpec {
    /// The distance from the best price.
    pub distance: Decimal,
    /// The price that has to be reached first; at once where there is none.
    pub activate_at: Option<Decimal>,
}

/// All of the protection of a position.
#[derive(Clone, Copy, Debug, PartialEq, Eq)]
pub struct ProtectionPlan {
    pub stop: StopSpec,
    pub break_even: Option<BreakEvenSpec>,
    pub trailing: Option<TrailingSpec>,
    /// When an entry that still rests is cancelled.
    pub timed_cancel: Option<Timestamp>,
}

/// Something the planner wants done.
#[derive(Debug, PartialEq, Eq)]
pub enum ProtectionAction {
    Place(Box<Order>),
    Cancel(ClientOrderId),
    /// Move an order to another price.
    Replace { id: ClientOrderId, new_price: Price },
    Alarm(Alarm),
}

/// A [`ProtectionAction`] with its texts as sequences of characters.
pub enum ActionModel {
    Place(OrderModel),
    Cancel(Seq<char>),
    Replace { id: Seq<char>, new_price: Price },
    Alarm(AlarmModel),
}

impl View for ProtectionAction {
    type V = ActionModel;

    open spec fn view(&self) -> ActionModel {
        match *self {
            ProtectionAction::Place(o) => ActionModel::Place((*o)@),
            ProtectionAction::Cancel(id) => ActionModel::Cancel(id@),
            ProtectionAction::Replace { id, new_price } => ActionModel::Replace {
                id: id@,
                new_price,
            },
            ProtectionAction::Alarm(a) => ActionModel::Alarm(a@),
        }
    }
}

impl ProtectionAction {
    /// Several actions by their models.
    pub open spec fn models(s: Seq<ProtectionAction>) -> Seq<ActionModel> {
        s.map_values(|a: ProtectionAction| a@)
    }
}

/// What the planner sees of the market.
#[derive(Clone, Copy, Debug, PartialEq, Eq)]
pub struct MarketSlice {
    pub bid: Price,
    pub ask: Price,
    /// The highest price since the position was opened.
    pub high_since_entry: Price,
    /// The lowest price since the position was opened.
    pub low_since_entry: Price,
}

impl MarketSlice {
    pub fn mid(&self) -> (r: Price)
        ensures
            r.0 == self.bid.0.midway(self.ask.0),
    {
        Price::new(midpoint(self.bid.get(), self.ask.get()))
    }
}

/// A fill of an entry.
#[derive(Debug, PartialEq, Eq)]
pub struct EntryFill {
    pub symbol: String,
    /// The entry; the ids of its protection are derived from it.
    pub entry_order_id: ClientOrderId,
    /// The side of the position.
    pub side: Side,
    /// The average price of the fills.
    pub price: Price,
    pub quantity: Qty,
}

impl Side {
    /// The price of a profit target at a fraction of the entry price.
    pub open spec fn target(self, entry: Decimal, pct: Decimal) -> Decimal {
        match self {
            Side::Buy => entry.prod(Decimal::whole(1).sum(pct)),
            Side::Sell => entry.prod(Decimal::whole(1).less(pct)),
        }
    }
}

/// The price of a profit target at a fraction of the entry price.
pub fn target_price(side: Side, entry: Decimal, pct: Decimal) -> (r: Decimal)
    ensures
        r == side.target(entry, pct),
{
    match side {
        Side::Buy => entry * (Decimal::one() + pct),
        Side::Sell => entry * (Decimal::one() - pct),
    }
}

/// An [`EntryFill`] with its texts as sequences of characters.
pub struct EntryModel {
    pub symbol: Seq<char>,
    pub entry_order_id: Seq<char>,
    pub side: Side,
    pub price: Price,
    pub quantity: Qty,
}

impl View for EntryFill {
    type V = EntryModel;

    open spec fn view(&self) -> EntryModel {
        EntryModel {
            symbol: self.symbol@,
            entry_order_id: self.entry_order_id@,
            side: self.side,
            price: self.price,
            quantity: self.quantity,
        }
    }
}

impl EntryModel {
    /// A protection order of the position.
    pub open spec fn exit_order(
        self,
        tag: Seq<char>,
        purpose: OrderPurpose,
        quantity: Qty,
        price: Price,
    ) -> OrderModel {
        OrderModel {
            client_id: ClientOrderId::tagged(self.entry_order_id, tag),
            symbol: self.symbol,
            purpose,
            side: self.side.flipped(),
            quantity,
            limit_price: price,
            tif: TimeInForce::PostOnly,
            parent: Some(self.entry_order_id),
        }
    }

    /// The tag of a profit target: `tp` for the only one, else `tp` and its number.
    pub open spec fn target_tag(count: nat, i: nat) -> Seq<char> {
        if count == 1 {
            "tp"@
        } else {
            "tp"@ + crate::text::digits(i)
        }
    }

    /// The orders of the first `n` profit targets. A target too small for the exchange's step is
    /// left out.
    pub open spec fn target_orders(
        self,
        instrument: Instrument,
        pairs: Seq<(Decimal, Decimal)>,
        n: nat,
    ) -> Result<Seq<ActionModel>, Fault>
        decreases n,
    {
        if n == 0 {
            Ok(Seq::empty())
        } else {
            let i = (n - 1) as nat;
            let (pct, fraction) = pairs[i as int];
            match self.target_orders(instrument, pairs, i) {
                Err(e) => Err(e),
                Ok(before) => match instrument.precision.priced(
                    self.side.flipped(),
                    self.side.target(self.price.0, pct),
                    PriceRole::TakeProfit,
                ) {
                    Err(e) => Err(e@),
                    Ok(price) => match instrument.precision.sized_or_zero(
                        self.quantity.0.prod(fraction),
                    ) {
                        Err(e) => Err(e@),
                        Ok(quantity) => if quantity.0@ == 0 {
                            Ok(before)
                        } else {
                            Ok(
                                before.push(
                                    ActionModel::Place(
                                        self.exit_order(
                                            Self::target_tag(pairs.len(), i),
                                            OrderPurpose::TakeProfit,
                                            quantity,
                                            price,
                                        ),
                                    ),
                                ),
                            )
                        },
                    },
                },
            }
        }
    }

    /// The protection of the position: the stop for all of it, then the profit targets.
    pub open spec fn protection(
        self,
        instrument: Instrument,
        plan: ProtectionPlan,
        tp: TpModel,
    ) -> Result<Seq<ActionModel>, Fault> {
        match tp.fault() {
            Some(f) => Err(f),
            None => match instrument.precision.priced(
                self.side.flipped(),
                plan.stop.level(self.price.0, self.side),
                PriceRole::StopLoss,
            ) {
                Err(e) => Err(e@),
                Ok(price) => match self.target_orders(instrument, tp.pairs(), tp.pairs().len()) {
                    Err(e) => Err(e),
                    Ok(targets) => Ok(
                        seq![
                            ActionModel::Place(
                                self.exit_order(
                                    "stop"@,
                                    OrderPurpose::StopLoss,
                                    self.quantity,
                                    price,
                                ),
                            ),
                        ] + targets,
                    ),
                },
            },
        }
    }
}

/// The quantities of the profit targets among some actions, added up.
pub open spec fn target_quantity(actions: Seq<ActionModel>) -> int
    decreases actions.len(),
{
    if actions.len() == 0 {
        0
    } else {
        target_quantity(actions.drop_last()) + (match actions.last() {
            ActionModel::Place(o) => if o.purpose is TakeProfit {
                o.quantity.0@
            } else {
                0
            },
            _ => 0,
        })
    }
}

/// The parts of some targets, added up exactly.
pub open spec fn fraction_sum(pairs: Seq<(Decimal, Decimal)>) -> int
    decreases pairs.len(),
{
    if pairs.len() == 0 {
        0
    } else {
        fraction_sum(pairs.drop_last()) + pairs.last().1@
    }
}

/// The quantity and the parts have few enough digits to be multiplied and stepped exactly.
pub open spec fn splits_exactly(
    quantity: Decimal,
    step: Decimal,
    pairs: Seq<(Decimal, Decimal)>,
) -> bool {
    quantity@ >= 0 && forall|i: int|
        0 <= i < pairs.len() ==> {
            &&& crate::decimal::magnitude(
                quantity.spec_mantissa() * (#[trigger] pairs[i]).1.spec_mantissa(),
            ) <= MAX_MANTISSA
            &&& quantity.spec_scale() + pairs[i].1.spec_scale() <= 28
            &&& quantity.prod(pairs[i].1).on_grid_of(step)
        }
}

/// The planner. It keeps nothing: every answer follows from the arguments.
pub struct ProtectionPlanner;

impl ProtectionPlanner {
    /// The protection of a position that has just been entered.
    ///
    /// Where the parts of the targets add up to at most one, the targets together never close
    /// more than the position.
    pub fn compile(
        instrument: &Instrument,
        fill: &EntryFill,
        plan: &ProtectionPlan,
        tp: &TpPlan,
    ) -> (r: Result<Vec<ProtectionAction>, DomainError>)
        ensures
            match r {
                Ok(v) => fill@.protection(*instrument, *plan, tp@) == Ok::<Seq<ActionModel>, Fault>(
                    ProtectionAction::models(v@),
                ),
                Err(e) => fill@.protection(*instrument, *plan, tp@) == Err::<
                    Seq<ActionModel>,
                    Fault,
                >(e@),
            },
            r is Ok && splits_exactly(
                fill.quantity.0,
                instrument.precision.step_size,
                tp@.pairs(),
            ) && fraction_sum(tp@.pairs()) <= crate::decimal::unit() ==> target_quantity(
                ProtectionAction::models(r->Ok_0@),
            ) <= fill.quantity.0@,
    {
        match tp.validate() {
            Ok(_) => {},
            Err(e) => return Err(e),
        }
        let entry = fill.price.get();
        let close_side = fill.side.opposite();
        let mut actions: Vec<ProtectionAction> = Vec::new();

        let stop_raw = plan.stop.resolve(entry, fill.side);
        let stop_price = match instrument.precision.price_for(
            close_side,
            stop_raw,
            PriceRole::StopLoss,
        ) {
            Ok(p) => p,
            Err(e) => return Err(e),
        };
        actions.push(
            ProtectionAction::Place(
                Box::new(
                    Order {
                        client_id: fill.entry_order_id.child("stop"),
                        symbol: fill.symbol.clone(),
                        purpose: OrderPurpose::StopLoss,
                        side: close_side,
                        quantity: fill.quantity,
                        limit_price: stop_price,
                        tif: TimeInForce::PostOnly,
                        parent: Some(fill.entry_order_id.clone()),
                    },
                ),
            ),
        );
        let ghost stop = ActionModel::Place(
            fill@.exit_order("stop"@, OrderPurpose::StopLoss, fill.quantity, stop_price),
        );
        let rungs = tp.rungs();
        let ghost exact = splits_exactly(
            fill.quantity.0,
            instrument.precision.step_size,
            tp@.pairs(),
        );
        let ghost mut targets = Seq::<ActionModel>::empty();
        proof {
            reveal_with_fuel(target_quantity, 2);
            assert(seq![stop].drop_last() =~= Seq::<ActionModel>::empty());
            assert(ProtectionAction::models(actions@) =~= seq![stop] + targets);
            assert(seq![stop] + targets =~= seq![stop]);
            assert(rungs@.take(0) =~= Seq::<(Decimal, Decimal)>::empty());
            assert(target_quantity(seq![stop]) == 0);
            assert(fraction_sum(rungs@.take(0)) == 0);
            assert(fill.quantity.0@ * 0 == 0);
        }
        for i in 0..rungs.len()
            invariant
                rungs@ == tp@.pairs(),
                tp@.fault() is None,
                entry == fill.price.0,
                close_side == fill.side.flipped(),
                exact == splits_exactly(
                    fill.quantity.0,
                    instrument.precision.step_size,
                    tp@.pairs(),
                ),
                stop == ActionModel::Place(
                    fill@.exit_order("stop"@, OrderPurpose::StopLoss, fill.quantity, stop_price),
                ),
                instrument.precision.priced(
                    fill.side.flipped(),
                    plan.stop.level(fill.price.0, fill.side),
                    PriceRole::StopLoss,
                ) == Ok::<Price, DomainError>(stop_price),
                ProtectionAction::models(actions@) == seq![stop] + targets,
                fill@.target_orders(*instrument, rungs@, i as nat) == Ok::<Seq<ActionModel>, Fault>(
                    targets,
                ),
                exact ==> target_quantity(seq![stop] + targets) * crate::decimal::unit()
                    <= fill.quantity.0@ * fraction_sum(rungs@.take(i as int)),
        {
            let (pct, fraction) = rungs[i];
            let ghost n = rungs@.len();
            assert(rungs@.take(i + 1).drop_last() =~= rungs@.take(i as int));
            let tp_raw = target_price(fill.side, entry, pct);
            let tp_price = match instrument.precision.price_for(
                close_side,
                tp_raw,
                PriceRole::TakeProfit,
            ) {
                Ok(p) => p,
                Err(e) => {
                    proof {
                        lemma_targets_fail(fill@, *instrument, rungs@, (i + 1) as nat, n, e@);
                    }
                    return Err(e);
                },
            };
            let part = fill.quantity.get().times(fraction);
            let qty = match instrument.precision.quantity_or_zero(part) {
                Ok(q) => q,
                Err(e) => {
                    proof {
                        lemma_targets_fail(fill@, *instrument, rungs@, (i + 1) as nat, n, e@);
                    }
                    return Err(e);
                },
            };
            proof {
                if exact {
                    lemma_rung_within(
                        fill.quantity.0,
                        fraction,
                        part,
                        instrument.precision.step_size@,
                        qty.0@,
                        target_quantity(seq![stop] + targets),
                        fraction_sum(rungs@.take(i as int)),
                    );
                }
            }
            if !qty.is_zero() {
                let tag = if rungs.len() == 1 {
                    "tp".to_owned()
                } else {
                    joined("tp", u64_text(i as u64).as_str())
                };
                let ghost before = actions@;
                actions.push(
                    ProtectionAction::Place(
                        Box::new(
                            Order {
                                client_id: fill.entry_order_id.child(tag.as_str()),
                                symbol: fill.symbol.clone(),
                                purpose: OrderPurpose::TakeProfit,
                                side: close_side,
                                quantity: qty,
                                limit_price: tp_price,
                                tif: TimeInForce::PostOnly,
                                parent: Some(fill.entry_order_id.clone()),
                            },
                        ),
                    ),
                );
                proof {
                    let next = ActionModel::Place(
                        fill@.exit_order(
                            EntryModel::target_tag(rungs@.len(), i as nat),
                            OrderPurpose::TakeProfit,
                            qty,
                            tp_price,
                        ),
                    );
                    assert(ProtectionAction::models(actions@) =~= ProtectionAction::models(before).push(
                        next,
                    ));
                    assert((seq![stop] + targets).push(next) =~= seq![stop] + targets.push(next));
                    assert((seq![stop] + targets).push(next).drop_last() =~= seq![stop] + targets);
                    targets = targets.push(next);
                }
            }
        }
        proof {
            assert(rungs@.take(rungs@.len() as int) =~= rungs@);
            if exact && fraction_sum(rungs@) <= crate::decimal::unit() {
                let t = target_quantity(seq![stop] + targets);
                let q = fill.quantity.0@;
                let f = fraction_sum(rungs@);
                let u = crate::decimal::unit();
                assert(t <= q) by (nonlinear_arith)
                    requires
                        t * u <= q * f,
                        f <= u,
                        q >= 0,
                        u > 0,
                ;
            }
        }
        Ok(actions)
    }
}

/// A target that cannot be placed fails the whole ladder.
proof fn lemma_targets_fail(
    fill: EntryModel,
    instrument: Instrument,
    pairs: Seq<(Decimal, Decimal)>,
    i: nat,
    n: nat,
    e: Fault,
)
    requires
        i <= n,
        fill.target_orders(instrument, pairs, i) == Err::<Seq<ActionModel>, Fault>(e),
    ensures
        fill.target_orders(instrument, pairs, n) == Err::<Seq<ActionModel>, Fault>(e),
    decreases n,
{
    if i < n {
        lemma_targets_fail(fill, instrument, pairs, i, (n - 1) as nat, e);
    }
}

/// A rung stepped down from the exact part keeps the total within the parts so far.
pub proof fn lemma_rung_within(
    quantity: Decimal,
    fraction: Decimal,
    part: Decimal,
    step: int,
    rung: int,
    total: int,
    parts: int,
)
    requires
        step > 0,
        part@ * crate::decimal::unit() == quantity@ * fraction@,
        rung == (part@ / step) * step,
        total * crate::decimal::unit() <= quantity@ * parts,
    ensures
        (total + rung) * crate::decimal::unit() <= quantity@ * (parts + fraction@),
        rung == 0 ==> total * crate::decimal::unit() <= quantity@ * (parts + fraction@),
{
    crate::precision::law_grid_neighbours(part@, step);
    let q = quantity@;
    let f = fraction@;
    let u = crate::decimal::unit();
    assert(q * (parts + f) == q * parts + q * f) by (nonlinear_arith);
}

/// The first open stop among some orders.
pub open spec fn open_stop(working: Seq<&TrackedOrder>) -> Option<TrackedOrder>
    decreases working.len(),
{
    if working.len() == 0 {
        None
    } else {
        match open_stop(working.drop_last()) {
            Some(t) => Some(t),
            None => if working.last().order.purpose is StopLoss && working.last().state.resting() {
                Some(*working.last())
            } else {
                None
            },
        }
    }
}

/// The open entries among some orders.
pub open spec fn open_entries(working: Seq<&TrackedOrder>) -> Seq<ActionModel>
    decreases working.len(),
{
    if working.len() == 0 {
        Seq::empty()
    } else {
        let before = open_entries(working.drop_last());
        if working.last().order.purpose is Entry && working.last().state.resting() {
            before.push(ActionModel::Cancel(working.last().order.client_id@))
        } else {
            before
        }
    }
}

impl Side {
    /// Whether a stop at `a` protects a position of this side better than one at `b`.
    pub open spec fn tighter(self, a: Decimal, b: Decimal) -> bool {
        match self {
            Side::Buy => a@ > b@,
            Side::Sell => a@ < b@,
        }
    }

    /// The better of two stops for a position of this side.
    pub open spec fn tightest(self, a: Decimal, b: Decimal) -> Decimal {
        match self {
            Side::Buy => a.larger(b),
            Side::Sell => a.smaller(b),
        }
    }

    /// What a position of this side has earned per unit when the price goes from `a` to `b`.
    pub open spec fn gain(self, a: Decimal, b: Decimal) -> Decimal {
        match self {
            Side::Buy => b.less(a),
            Side::Sell => a.less(b),
        }
    }

    /// A price moved in favour of a position of this side.
    pub open spec fn onward(self, a: Decimal, by: Decimal) -> Decimal {
        match self {
            Side::Buy => a.sum(by),
            Side::Sell => a.less(by),
        }
    }
}

impl ProtectionPlan {
    /// The break-even stop, where the position has earned enough. The distance at risk follows
    /// from the plan, so that it is known even where no stop is resting.
    pub open spec fn break_even_stop(
        self,
        side: Side,
        entry: Decimal,
        current: Decimal,
    ) -> Option<Decimal> {
        match self.break_even {
            None => None,
            Some(be) => {
                let risk = entry.less(self.stop.level(entry, side)).unsigned();
                if risk@ > 0 && side.gain(entry, current)@ >= risk.prod(be.trigger_r)@ {
                    Some(side.onward(entry, be.offset))
                } else {
                    None
                }
            },
        }
    }

    /// The trailing stop, where it is active.
    pub open spec fn trailing_stop(self, side: Side, market: MarketSlice) -> Option<Decimal> {
        match self.trailing {
            None => None,
            Some(tr) => {
                let active = match tr.activate_at {
                    None => true,
                    Some(level) => match side {
                        Side::Buy => market.high_since_entry.0@ >= level@,
                        Side::Sell => market.low_since_entry.0@ <= level@,
                    },
                };
                if active {
                    Some(
                        match side {
                            Side::Buy => market.high_since_entry.0.less(tr.distance),
                            Side::Sell => market.low_since_entry.0.sum(tr.distance),
                        },
                    )
                } else {
                    None
                }
            },
        }
    }

    /// The stop that the plan asks for now: the better of the two.
    pub open spec fn wanted_stop(
        self,
        side: Side,
        entry: Decimal,
        market: MarketSlice,
    ) -> Option<Decimal> {
        let even = self.break_even_stop(side, entry, market.bid.0.midway(market.ask.0));
        match (even, self.trailing_stop(side, market)) {
            (Some(a), Some(b)) => Some(side.tightest(a, b)),
            (Some(a), None) => Some(a),
            (None, Some(b)) => Some(b),
            (None, None) => None,
        }
    }
}

impl Position {
    /// The stop in force: the one that is noted, else the one that rests.
    pub open spec fn stop_in_force(self, working: Seq<&TrackedOrder>) -> Option<Decimal> {
        match self.stop_price {
            Some(p) => Some(p.0),
            None => match open_stop(working) {
                Some(t) => Some(t.order.limit_price.0),
                None => None,
            },
        }
    }

    /// The id of a stop that is placed anew. It follows from the position alone, so that asking
    /// again gives the same id.
    pub open spec fn new_stop_id(self, symbol: Seq<char>) -> Seq<char> {
        ClientOrderId::numbered(
            symbol + ":restop:"@ + self.side_word(),
            (if self.opened_at < 0 {
                0
            } else {
                self.opened_at as int
            }) as nat,
        )
    }

    /// The stop that is to be moved or placed: one that protects better than the one in force,
    /// or any where there is none.
    pub open spec fn stop_to_set(
        self,
        working: Seq<&TrackedOrder>,
        market: MarketSlice,
        plan: ProtectionPlan,
    ) -> Option<Decimal> {
        match plan.wanted_stop(self.side, self.entry_price.0, market) {
            None => None,
            Some(want) => match self.stop_in_force(working) {
                Some(now) => if self.side.tighter(want, now) {
                    Some(want)
                } else {
                    None
                },
                None => Some(want),
            },
        }
    }

    /// What is done about the stop.
    pub open spec fn stop_actions(
        self,
        instrument: Instrument,
        symbol: Seq<char>,
        working: Seq<&TrackedOrder>,
        market: MarketSlice,
        plan: ProtectionPlan,
    ) -> Result<Seq<ActionModel>, Fault> {
        match self.stop_to_set(working, market, plan) {
            None => Ok(Seq::empty()),
            Some(want) => match instrument.precision.priced(
                self.side.flipped(),
                want,
                PriceRole::StopLoss,
            ) {
                Err(e) => Err(e@),
                Ok(price) => Ok(
                    seq![
                        match open_stop(working) {
                            Some(t) => ActionModel::Replace {
                                id: t.order.client_id@,
                                new_price: price,
                            },
                            None => ActionModel::Place(
                                OrderModel {
                                    client_id: self.new_stop_id(symbol),
                                    symbol,
                                    purpose: OrderPurpose::StopLoss,
                                    side: self.side.flipped(),
                                    quantity: self.quantity,
                                    limit_price: price,
                                    tif: TimeInForce::PostOnly,
                                    parent: None,
                                },
                            ),
                        },
                    ],
                ),
            },
        }
    }

    /// The entries that are cancelled because their time is up.
    pub open spec fn timed_cancels(
        working: Seq<&TrackedOrder>,
        plan: ProtectionPlan,
        now: Timestamp,
    ) -> Seq<ActionModel> {
        match plan.timed_cancel {
            Some(deadline) => if now >= deadline {
                open_entries(working)
            } else {
                Seq::empty()
            },
            None => Seq::empty(),
        }
    }

    /// The alarm for a stop that was reached more than half a minute after it was last touched
    /// and still rests.
    pub open spec fn exposure_alarm(
        self,
        working: Seq<&TrackedOrder>,
        market: MarketSlice,
        now: Timestamp,
    ) -> Seq<ActionModel> {
        match open_stop(working) {
            None => Seq::empty(),
            Some(t) => {
                let reached = match self.side {
                    Side::Buy => market.bid.0@ <= t.order.limit_price.0@,
                    Side::Sell => market.ask.0@ >= t.order.limit_price.0@,
                };
                if reached && now - t.updated_at > 30000 {
                    seq![
                        ActionModel::Alarm(
                            AlarmModel::StopUnfilledExposure {
                                order: t.order.client_id@,
                                since: t.updated_at,
                            },
                        ),
                    ]
                } else {
                    Seq::empty()
                }
            },
        }
    }

    /// Everything that the market asks of the protection of the position.
    pub open spec fn protection_now(
        self,
        instrument: Instrument,
        symbol: Seq<char>,
        working: Seq<&TrackedOrder>,
        market: MarketSlice,
        plan: ProtectionPlan,
        now: Timestamp,
    ) -> Result<Seq<ActionModel>, Fault> {
        match self.stop_actions(instrument, symbol, working, market, plan) {
            Err(e) => Err(e),
            Ok(stop) => Ok(
                stop + Self::timed_cancels(working, plan, now) + self.exposure_alarm(
                    working,
                    market,
                    now,
                ),
            ),
        }
    }
}

/// The first open stop among some orders.
pub fn find_open_stop<'a>(working: &[&'a TrackedOrder]) -> (r: Option<&'a TrackedOrder>)
    ensures
        match r {
            Some(t) => open_stop(working@) == Some(*t),
            None => open_stop(working@) is None,
        },
{
    let mut found: Option<&'a TrackedOrder> = None;
    for i in 0..working.len()
        invariant
            match found {
                Some(t) => open_stop(working@.take(i as int)) == Some(*t),
                None => open_stop(working@.take(i as int)) is None,
            },
    {
        let t = working[i];
        assert(working@.take(i + 1).drop_last() =~= working@.take(i as int));
        if found.is_none() && t.order.purpose == OrderPurpose::StopLoss && t.state.is_open() {
            found = Some(t);
        }
    }
    assert(working@.take(working@.len() as int) =~= working@);
    found
}

/// What a position of a side has earned per unit when the price goes from `a` to `b`.
pub fn unit_gain(side: Side, a: Decimal, b: Decimal) -> (r: Decimal)
    ensures
        r == side.gain(a, b),
{
    match side {
        Side::Buy => b - a,
        Side::Sell => a - b,
    }
}

/// A price moved in favour of a position of a side.
pub fn onward_price(side: Side, a: Decimal, by: Decimal) -> (r: Decimal)
    ensures
        r == side.onward(a, by),
{
    match side {
        Side::Buy => a + by,
        Side::Sell => a - by,
    }
}

/// Whether a stop at `a` protects a position of a side better than one at `b`.
pub fn is_tighter(side: Side, a: Decimal, b: Decimal) -> (r: bool)
    ensures
        r == side.tighter(a, b),
{
    match side {
        Side::Buy => a > b,
        Side::Sell => a < b,
    }
}

impl ProtectionPlan {
    /// The stop that the plan asks for as the market stands.
    fn stop_wanted(&self, side: Side, entry: Decimal, market: &MarketSlice) -> (r: Option<Decimal>)
        ensures
            r == self.wanted_stop(side, entry, *market),
    {
        let current = market.mid().get();
        let mut desired_stop: Option<Decimal> = None;
        if let Some(be) = self.break_even {
            let risk_distance = (entry - self.stop.resolve(entry, side)).abs();
            let favorable = unit_gain(side, entry, current);
            if risk_distance > Decimal::zero() && favorable >= risk_distance * be.trigger_r {
                desired_stop = Some(onward_price(side, entry, be.offset));
            }
        }
        if let Some(tr) = self.trailing {
            let activated = match tr.activate_at {
                None => true,
                Some(level) => match side {
                    Side::Buy => market.high_since_entry.get() >= level,
                    Side::Sell => market.low_since_entry.get() <= level,
                },
            };
            if activated {
                let trailed = match side {
                    Side::Buy => market.high_since_entry.get() - tr.distance,
                    Side::Sell => market.low_since_entry.get() + tr.distance,
                };
                desired_stop = Some(
                    match desired_stop {
                        Some(existing) => match side {
                            Side::Buy => existing.max(trailed),
                            Side::Sell => existing.min(trailed),
                        },
                        None => trailed,
                    },
                );
            }
        }
        desired_stop
    }
}

impl ProtectionPlanner {
    /// Goes through the protection of a position as the market moves: the break-even stop and
    /// the trailing stop, which only ever tighten, then timed cancels, then the alarm for a stop
    /// that was reached and not filled.
    ///
    /// Where the stop in force is on the tick grid, a stop that is moved is never further from
    /// the market than the one before.
    #[verifier::rlimit(30)]
    pub fn on_market(
        instrument: &Instrument,
        symbol: &str,
        position: &Position,
        working: &[&TrackedOrder],
        market: &MarketSlice,
        plan: &ProtectionPlan,
        now: Timestamp,
    ) -> (r: Result<Vec<ProtectionAction>, DomainError>)
        ensures
            match r {
                Ok(v) => position.protection_now(
                    *instrument,
                    symbol@,
                    working@,
                    *market,
                    *plan,
                    now,
                ) == Ok::<Seq<ActionModel>, Fault>(ProtectionAction::models(v@)),
                Err(e) => position.protection_now(
                    *instrument,
                    symbol@,
                    working@,
                    *market,
                    *plan,
                    now,
                ) == Err::<Seq<ActionModel>, Fault>(e@),
            },
            r matches Ok(v) ==> position.stop_to_set(working@, *market, *plan) matches Some(want)
                ==> position.stop_in_force(working@) matches Some(before) ==> want.on_grid_of(
                instrument.precision.tick_size,
            ) && before@ % instrument.precision.tick_size@ == 0 ==> v@.len() > 0 && (match v@[0]@ {
                ActionModel::Replace { new_price, .. } => !position.side.tighter(
                    before,
                    new_price.0,
                ),
                ActionModel::Place(o) => !position.side.tighter(before, o.limit_price.0),
                _ => false,
            }),
    {
        let mut actions: Vec<ProtectionAction> = Vec::new();
        let close_side = position.side.opposite();
        let entry = position.entry_price.get();
        let stop_order = find_open_stop(working);
        let current_stop = match position.stop_price {
            Some(p) => Some(p.get()),
            None => match stop_order {
                Some(t) => Some(t.order.limit_price.get()),
                None => None,
            },
        };

        let desired_stop = plan.stop_wanted(position.side, entry, market);

        if let Some(desired) = desired_stop {
            let strictly_better = match current_stop {
                Some(existing) => is_tighter(position.side, desired, existing),
                None => true,
            };
            if strictly_better {
                let quantized = match instrument.precision.price_for(
                    close_side,
                    desired,
                    PriceRole::StopLoss,
                ) {
                    Ok(p) => p,
                    Err(e) => return Err(e),
                };
                proof {
                    if let Some(before) = current_stop {
                        if desired.on_grid_of(instrument.precision.tick_size) && before@
                            % instrument.precision.tick_size@ == 0 {
                            lemma_no_looser(
                                before@,
                                desired@,
                                instrument.precision.tick_size@,
                            );
                        }
                    }
                }
                match stop_order {
                    Some(t) => {
                        actions.push(
                            ProtectionAction::Replace {
                                id: t.order.client_id.clone(),
                                new_price: quantized,
                            },
                        );
                    },
                    None => {
                        let seq: u64 = if position.opened_at < 0 {
                            0
                        } else {
                            position.opened_at as u64
                        };
                        let prefix = joined3(symbol, ":restop:", position.side_stable_tag());
                        actions.push(
                            ProtectionAction::Place(
                                Box::new(
                                    Order {
                                        client_id: ClientOrderId::new(prefix.as_str(), seq),
                                        symbol: symbol.to_owned(),
                                        purpose: OrderPurpose::StopLoss,
                                        side: close_side,
                                        quantity: position.quantity,
                                        limit_price: quantized,
                                        tif: TimeInForce::PostOnly,
                                        parent: None,
                                    },
                                ),
                            ),
                        );
                    },
                }
            }
        }
        let ghost stop = position.stop_actions(*instrument, symbol@, working@, *market, *plan)->Ok_0;
        assert(ProtectionAction::models(actions@) =~= stop);

        if let Some(deadline) = plan.timed_cancel {
            if now >= deadline {
                for i in 0..working.len()
                    invariant
                        ProtectionAction::models(actions@) == stop + open_entries(
                            working@.take(i as int),
                        ),
                        actions@.len() >= stop.len(),
                        stop.len() > 0 ==> actions@[0]@ == stop[0],
                {
                    let t = working[i];
                    let ghost before = actions@;
                    assert(working@.take(i + 1).drop_last() =~= working@.take(i as int));
                    if t.order.purpose.is_entry() && t.state.is_open() {
                        actions.push(ProtectionAction::Cancel(t.order.client_id.clone()));
                        assert(ProtectionAction::models(actions@) =~= ProtectionAction::models(
                            before,
                        ).push(ActionModel::Cancel(t.order.client_id@)));
                        assert(ProtectionAction::models(actions@) =~= stop + open_entries(
                            working@.take(i + 1),
                        ));
                    }
                }
                assert(working@.take(working@.len() as int) =~= working@);
            }
        }
        let ghost cancels = Position::timed_cancels(working@, *plan, now);
        assert(ProtectionAction::models(actions@) =~= stop + cancels);

        if let Some(t) = stop_order {
            let triggered = match position.side {
                Side::Buy => market.bid.get() <= t.order.limit_price.get(),
                Side::Sell => market.ask.get() >= t.order.limit_price.get(),
            };
            if triggered && since(now, t.updated_at) > 30000 {
                actions.push(
                    ProtectionAction::Alarm(
                        Alarm::StopUnfilledExposure {
                            order: t.order.client_id.clone(),
                            since: t.updated_at,
                        },
                    ),
                );
            }
        }
        assert(ProtectionAction::models(actions@) =~= stop + cancels + position.exposure_alarm(
            working@,
            *market,
            now,
        ));
        Ok(actions)
    }
}

/// Rounding a better stop to the grid does not take it past a stop on the grid.
proof fn lemma_no_looser(before: int, want: int, tick: int)
    requires
        tick > 0,
        before % tick == 0,
    ensures
        want > before ==> (want / tick) * tick >= before,
        want < before ==> -((-want) / tick) * tick <= before,
{
    crate::precision::law_grid_neighbours(want, tick);
    crate::precision::law_grid_neighbours(before, tick);
    let n = before / tick;
    let w = want / tick;
    let m = (-want) / tick;
    if want > before {
        assert(w >= n) by (nonlinear_arith)
            requires
                want < w * tick + tick,
                before == n * tick,
                want > before,
                tick > 0,
        ;
        assert(w * tick >= n * tick) by (nonlinear_arith)
            requires
                w >= n,
                tick > 0,
        ;
    }
    if want < before {
        assert(-m <= n) by (nonlinear_arith)
            requires
                -m * tick - tick < want,
                before == n * tick,
                want < before,
                tick > 0,
        ;
        assert(-m * tick <= n * tick) by (nonlinear_arith)
            requires
                -m <= n,
                tick > 0,
        ;
    }
}

/// Turns the planner's actions into effects. A stop is moved by cancelling it first, so that
/// never two of them rest.
pub open spec fn effect_of(a: ActionModel) -> EffectModel {
    match a {
        ActionModel::Place(o) => EffectModel::Submit(o),
        ActionModel::Cancel(id) => EffectModel::Cancel(id),
        ActionModel::Replace { id, .. } => EffectModel::Cancel(id),
        ActionModel::Alarm(a) => EffectModel::Alarm(a),
    }
}

/// The effects of some actions, in their order.
pub fn actions_to_effects(actions: Vec<ProtectionAction>) -> (r: Vec<Effect>)
    ensures
        Effect::models(r@) == ProtectionAction::models(actions@).map_values(
            |a: ActionModel| effect_of(a),
        ),
{
    let ghost f = |a: ActionModel| effect_of(a);
    let ghost all = actions@;
    let mut left = actions;
    let mut reversed: Vec<Effect> = Vec::new();
    while left.len() > 0
        invariant
            left@.len() + reversed@.len() == all.len(),
            forall|i: int| 0 <= i < left@.len() ==> left@[i] == all[i],
            forall|i: int|
                0 <= i < reversed@.len() ==> (#[trigger] reversed@[i])@ == effect_of(
                    all[all.len() - 1 - i]@,
                ),
        decreases left.len(),
    {
        let a = left.pop();
        if let Some(a) = a {
            let e = match a {
                ProtectionAction::Place(o) => Effect::Submit(o),
                ProtectionAction::Cancel(id) => Effect::Cancel(id),
                ProtectionAction::Replace { id, .. } => Effect::Cancel(id),
                ProtectionAction::Alarm(x) => Effect::Alarm(x),
            };
            reversed.push(e);
        }
    }
    let mut out: Vec<Effect> = Vec::new();
    while reversed.len() > 0
        invariant
            out@.len() + reversed@.len() == all.len(),
            forall|i: int|
                0 <= i < reversed@.len() ==> (#[trigger] reversed@[i])@ == effect_of(
                    all[all.len() - 1 - i]@,
                ),
            forall|i: int|
                0 <= i < out@.len() ==> (#[trigger] out@[i])@ == effect_of(all[i]@),
        decreases reversed.len(),
    {
        let e = reversed.pop();
        if let Some(e) = e {
            out.push(e);
        }
    }
    assert(Effect::models(out@) =~= ProtectionAction::models(all).map_values(f));
    out
}

/// Every order that protects a new position only reduces it: it is of the other side, belongs to
/// the entry, and rests until it is filled or cancelled. The first of them is the stop for the
/// whole position.
pub proof fn law_protection_only_reduces(
    fill: EntryModel,
    instrument: Instrument,
    plan: ProtectionPlan,
    tp: TpModel,
)
    requires
        fill.protection(instrument, plan, tp) is Ok,
    ensures
        ({
            let actions = fill.protection(instrument, plan, tp)->Ok_0;
            &&& actions.len() > 0
            &&& actions[0] matches ActionModel::Place(stop) && stop.purpose is StopLoss
                && stop.quantity == fill.quantity
            &&& forall|i: int| 0 <= i < actions.len() ==> (#[trigger] actions[i] matches
                ActionModel::Place(o) && o.purpose.reduces() && o.side == fill.side.flipped()
                && o.parent == Some(fill.entry_order_id) && o.tif is PostOnly && o.symbol
                == fill.symbol)
        }),
{
    let n = tp.pairs().len();
    lemma_targets_reduce(fill, instrument, tp.pairs(), n);
}

/// The orders of the targets.
pub proof fn lemma_targets_reduce(
    fill: EntryModel,
    instrument: Instrument,
    pairs: Seq<(Decimal, Decimal)>,
    n: nat,
)
    requires
        fill.target_orders(instrument, pairs, n) is Ok,
    ensures
        ({
            let actions = fill.target_orders(instrument, pairs, n)->Ok_0;
            forall|i: int| 0 <= i < actions.len() ==> (#[trigger] actions[i] matches
                ActionModel::Place(o) && o.purpose is TakeProfit && o.side == fill.side.flipped()
                && o.parent == Some(fill.entry_order_id) && o.tif is PostOnly && o.symbol
                == fill.symbol)
        }),
    decreases n,
{
    if n > 0 {
        lemma_targets_reduce(fill, instrument, pairs, (n - 1) as nat);
    }
}

/// A stop that the planner sets is better than the one in force, by price before rounding.
pub proof fn law_stops_only_tighten(
    position: Position,
    working: Seq<&TrackedOrder>,
    market: MarketSlice,
    plan: ProtectionPlan,
)
    ensures
        position.stop_to_set(working, market, plan) matches Some(want) ==> position.stop_in_force(
            working,
        ) matches Some(before) ==> position.side.tighter(want, before),
{
}

/// Asking again with the same position gives a new stop the same id, so that it is not placed
/// twice.
pub proof fn law_new_stop_id_is_stable(
    a: Position,
    b: Position,
    symbol: Seq<char>,
)
    requires
        a.side == b.side,
        a.opened_at == b.opened_at,
    ensures
        a.new_stop_id(symbol) == b.new_stop_id(symbol),
{
}

/// What a position earns per unit is the move of the price, counted up for a long and down for a
/// short position.
pub proof fn law_gain_is_the_move(side: Side, a: Decimal, b: Decimal)
    requires
        a.subtracts_exactly(b),
        b.subtracts_exactly(a),
    ensures
        side.gain(a, b)@ == side.sign() * (b@ - a@),
        side.gain(a, b).wf(),
        side.gain(a, b)@ == -side.flipped().gain(a, b)@,
        side.gain(a, b)@ == -side.gain(b, a)@,
{
}

/// A price moved in favour of a position goes up for a long and down for a short position.
pub proof fn law_onward_is_the_move(side: Side, a: Decimal, by: Decimal)
    requires
        a.adds_exactly(by),
        a.subtracts_exactly(by),
    ensures
        side.onward(a, by)@ == a@ + side.sign() * by@,
{
}

/// A profit target lies its fraction of the entry price beyond it: above for a long, below for a
/// short position.
pub proof fn law_target_is_beyond_the_entry(side: Side, entry: Decimal, pct: Decimal)
    requires
        Decimal::whole(1).adds_exactly(pct),
        Decimal::whole(1).subtracts_exactly(pct),
        entry.multiplies_exactly(Decimal::whole(1).sum(pct)),
        entry.multiplies_exactly(Decimal::whole(1).less(pct)),
    ensures
        (side.target(entry, pct)@ - entry@) * crate::decimal::unit() == side.sign() * entry@ * pct@,
        entry@ > 0 && pct@ > 0 ==> side.sign() * side.target(entry, pct)@ > side.sign() * entry@,
{
    crate::decimal::lemma_of_parts(1, 0);
    crate::decimal::lemma_pow10_28();
    let u = crate::decimal::unit();
    let e = entry@;
    let p = pct@;
    let t = side.target(entry, pct)@;
    assert(e * (u + p) == e * u + e * p) by (nonlinear_arith);
    assert(e * (u - p) == e * u - e * p) by (nonlinear_arith);
    assert((t - e) * u == t * u - e * u) by (nonlinear_arith);
    assert(1 * e * p == e * p && (-1) * e * p == -(e * p)) by (nonlinear_arith);
    assert(e > 0 && p > 0 ==> e * p > 0) by (nonlinear_arith);
}

/// A stop at a fraction of the entry price lies that far on the losing side of it; a stop at a
/// price is that price, whatever the entry.
pub proof fn law_stop_is_on_the_losing_side(stop: StopSpec, entry: Decimal, side: Side)
    requires
        stop matches StopSpec::FixedPct { pct } ==> entry.multiplies_exactly(pct)
            && entry.subtracts_exactly(entry.prod(pct)) && entry.adds_exactly(entry.prod(pct)),
    ensures
        stop matches StopSpec::AtPrice { price } ==> stop.level(entry, side) == price,
        stop matches StopSpec::FixedPct { pct } ==> (stop.level(entry, side)@ - entry@)
            * crate::decimal::unit() == -(side.sign() * entry@ * pct@),
        stop matches StopSpec::FixedPct { pct } ==> entry@ > 0 && pct@ > 0 ==> side.sign()
            * stop.level(entry, side)@ < side.sign() * entry@,
{
    if let StopSpec::FixedPct { pct } = stop {
        let u = crate::decimal::unit();
        let e = entry@;
        let p = pct@;
        let o = entry.prod(pct)@;
        assert((-o) * u == -(o * u)) by (nonlinear_arith);
        assert(1 * e * p == e * p && (-1) * e * p == -(e * p)) by (nonlinear_arith);
        assert(e > 0 && p > 0 ==> e * p > 0) by (nonlinear_arith);
        assert(o * u > 0 ==> o > 0) by (nonlinear_arith)
            requires
                u > 0,
        ;
    }
}

/// Of two stops the better one is the higher for a long and the lower for a short position, and
/// the better of the two is at least as good as either.
pub proof fn law_better_stops(side: Side, a: Decimal, b: Decimal)
    ensures
        side.tighter(a, b) <==> side.sign() * a@ > side.sign() * b@,
        side.tightest(a, b) == a || side.tightest(a, b) == b,
        side.sign() * side.tightest(a, b)@ >= side.sign() * a@,
        side.sign() * side.tightest(a, b)@ >= side.sign() * b@,
{
}

impl ProtectionPlan {
    /// The amounts that decide on the break-even stop are computed without rounding.
    pub open spec fn breaks_even_exactly(
        self,
        be: BreakEvenSpec,
        side: Side,
        entry: Decimal,
        market: MarketSlice,
    ) -> bool {
        let stop = self.stop.level(entry, side);
        let mid = market.bid.0.midway(market.ask.0);
        &&& crate::market::halves_exactly(market.bid.0, market.ask.0)
        &&& entry.subtracts_exactly(stop)
        &&& entry.less(stop).unsigned().multiplies_exactly(be.trigger_r)
        &&& entry.subtracts_exactly(mid)
        &&& mid.subtracts_exactly(entry)
        &&& entry.adds_exactly(be.offset)
        &&& entry.subtracts_exactly(be.offset)
    }
}

/// Without a trailing stop, a stop is wanted exactly where the mid price has moved in favour of
/// the position by at least `trigger_r` times the distance from the entry price to the planned
/// stop; it is the entry price moved by the offset, up for a long and down for a short position.
pub proof fn law_break_even_needs_its_move(
    plan: ProtectionPlan,
    be: BreakEvenSpec,
    side: Side,
    entry: Decimal,
    market: MarketSlice,
)
    requires
        plan.trailing is None,
        plan.break_even == Some(be),
        plan.breaks_even_exactly(be, side, entry, market),
    ensures
        plan.wanted_stop(side, entry, market) is Some <==> plan.stop.level(entry, side)@ != entry@
            && side.sign() * (market.bid.0@ + market.ask.0@ - 2 * entry@) * crate::decimal::unit()
            >= 2 * crate::decimal::magnitude(entry@ - plan.stop.level(entry, side)@)
            * be.trigger_r@,
        plan.wanted_stop(side, entry, market) matches Some(stop) ==> stop@ == entry@ + side.sign()
            * be.offset@,
{
    let stop = plan.stop.level(entry, side);
    let mid = market.bid.0.midway(market.ask.0);
    let u = crate::decimal::unit();
    let d = entry.less(stop).unsigned();
    crate::market::law_midpoint_is_halfway(market.bid.0, market.ask.0);
    crate::decimal::law_signs(entry.less(stop));
    law_gain_is_the_move(side, entry, mid);
    law_onward_is_the_move(side, entry, be.offset);
    let g = side.gain(entry, mid)@;
    let w = d.prod(be.trigger_r)@;
    let r = be.trigger_r@;
    let m = market.bid.0@ + market.ask.0@ - 2 * entry@;
    assert(2 * g == side.sign() * m);
    let x = side.sign() * m;
    let dd = d@;
    assert(g >= w <==> x * u >= 2 * dd * r) by (nonlinear_arith)
        requires
            2 * g == x,
            w * u == dd * r,
            u > 0,
    ;
}

/// A plan that asks for nothing to be moved wants no stop, and one without a break-even stop
/// wants its trailing stop: exactly where the best price since the entry has reached the price
/// of activation, and at its distance behind the best price.
pub proof fn law_trailing_stop_follows_the_best(
    plan: ProtectionPlan,
    side: Side,
    entry: Decimal,
    market: MarketSlice,
)
    requires
        plan.break_even is None,
        plan.trailing matches Some(tr) ==> market.high_since_entry.0.subtracts_exactly(tr.distance)
            && market.low_since_entry.0.adds_exactly(tr.distance),
    ensures
        plan.trailing is None ==> plan.wanted_stop(side, entry, market) is None,
        plan.trailing matches Some(tr) ==> ({
            let best = if side is Buy {
                market.high_since_entry.0@
            } else {
                market.low_since_entry.0@
            };
            &&& plan.wanted_stop(side, entry, market) is Some <==> (tr.activate_at matches Some(
                level,
            ) ==> side.sign() * best >= side.sign() * level@)
            &&& plan.wanted_stop(side, entry, market) matches Some(stop) ==> stop@ == best
                - side.sign() * tr.distance@
        }),
{
    match side {
        Side::Buy => {
            assert(side.sign() == 1);
            assert(plan.break_even_stop(side, entry, market.bid.0.midway(market.ask.0)) is None);
        },
        Side::Sell => {
            assert(side.sign() == -1);
            assert(plan.break_even_stop(side, entry, market.bid.0.midway(market.ask.0)) is None);
        },
    }
}

/// With both kinds of stop, the wanted stop is the better of those that each alone would want.
pub proof fn law_wanted_stop_is_the_better(
    plan: ProtectionPlan,
    side: Side,
    entry: Decimal,
    market: MarketSlice,
)
    ensures
        ({
            let even = (ProtectionPlan { trailing: None, ..plan }).wanted_stop(side, entry, market);
            let trailed = (ProtectionPlan { break_even: None, ..plan }).wanted_stop(
                side,
                entry,
                market,
            );
            let both = plan.wanted_stop(side, entry, market);
            &&& both is Some <==> even is Some || trailed is Some
            &&& both is Some ==> both == even || both == trailed
            &&& both is Some && even is Some ==> side.sign() * both->0@ >= side.sign() * even->0@
            &&& both is Some && trailed is Some ==> side.sign() * both->0@ >= side.sign()
                * trailed->0@
        }),
{
    match side {
        Side::Buy => {
            assert(side.sign() == 1);
        },
        Side::Sell => {
            assert(side.sign() == -1);
        },
    }
}

/// A stop is set exactly where one is wanted and none is in force, or the wanted one is higher
/// for a long and lower for a short position; what is set is what is wanted.
pub proof fn law_stops_move_only_forward(
    position: Position,
    working: Seq<&TrackedOrder>,
    market: MarketSlice,
    plan: ProtectionPlan,
)
    ensures
        ({
            let want = plan.wanted_stop(position.side, position.entry_price.0, market);
            let set = position.stop_to_set(working, market, plan);
            &&& set is Some <==> want is Some && (position.stop_in_force(working) matches Some(now)
                ==> position.side.sign() * want->0@ > position.side.sign() * now@)
            &&& set is Some ==> set == want
        }),
{
    match position.side {
        Side::Buy => {
            assert(position.side.sign() == 1);
        },
        Side::Sell => {
            assert(position.side.sign() == -1);
        },
    }
}

/// The open stop is an open stop among the orders, and there is none only where no order is one.
pub proof fn law_open_stop_is_found(working: Seq<&TrackedOrder>)
    ensures
        open_stop(working) matches Some(t) ==> exists|i: int|
            0 <= i < working.len() && *(#[trigger] working[i]) == t && t.order.purpose is StopLoss
                && t.state.resting() && forall|j: int|
                0 <= j < i ==> !((#[trigger] working[j]).order.purpose is StopLoss
                    && working[j].state.resting()),
        open_stop(working) is None ==> forall|i: int|
            0 <= i < working.len() ==> !((#[trigger] working[i]).order.purpose is StopLoss
                && working[i].state.resting()),
    decreases working.len(),
{
    if working.len() > 0 {
        let before = working.drop_last();
        law_open_stop_is_found(before);
        if let Some(t) = open_stop(before) {
            let i = choose|i: int|
                0 <= i < before.len() && *(#[trigger] before[i]) == t && t.order.purpose is StopLoss
                    && t.state.resting() && forall|j: int|
                    0 <= j < i ==> !((#[trigger] before[j]).order.purpose is StopLoss
                        && before[j].state.resting());
            assert(working[i] == before[i]);
            assert forall|j: int| 0 <= j < i implies !((#[trigger] working[j]).order.purpose is StopLoss
                && working[j].state.resting()) by {
                assert(working[j] == before[j]);
            }
        } else {
            assert forall|j: int| 0 <= j < before.len() implies !((
            #[trigger] working[j]).order.purpose is StopLoss && working[j].state.resting()) by {
                assert(working[j] == before[j]);
            }
            let n = working.len() - 1;
            assert(working[n] == working.last());
        }
    }
}

/// Once the time is up every open entry is cancelled and nothing else; before that nothing is.
pub proof fn law_time_cancels_open_entries(
    working: Seq<&TrackedOrder>,
    plan: ProtectionPlan,
    now: Timestamp,
    a: ActionModel,
)
    ensures
        Position::timed_cancels(working, plan, now).contains(a) <==> (plan.timed_cancel matches Some(
            deadline,
        ) && deadline <= now) && exists|i: int|
            0 <= i < working.len() && a == ActionModel::Cancel(
                (#[trigger] working[i]).order.client_id@,
            ) && working[i].order.purpose is Entry && working[i].state.resting(),
{
    lemma_open_entries(working, a);
}

proof fn lemma_open_entries(working: Seq<&TrackedOrder>, a: ActionModel)
    ensures
        open_entries(working).contains(a) <==> exists|i: int|
            0 <= i < working.len() && a == ActionModel::Cancel(
                (#[trigger] working[i]).order.client_id@,
            ) && working[i].order.purpose is Entry && working[i].state.resting(),
    decreases working.len(),
{
    if working.len() > 0 {
        let before = working.drop_last();
        let n = working.len() - 1;
        let last = ActionModel::Cancel(working[n].order.client_id@);
        let open = working[n].order.purpose is Entry && working[n].state.resting();
        lemma_open_entries(before, a);
        let earlier = open_entries(before);
        if open {
            assert(open_entries(working) == earlier.push(last));
            assert(earlier.push(last)[earlier.len() as int] == last);
            if earlier.contains(a) {
                let k = choose|k: int| 0 <= k < earlier.len() && earlier[k] == a;
                assert(earlier.push(last)[k] == a);
            }
            if earlier.push(last).contains(a) && a != last {
                let k = choose|k: int|
                    0 <= k < earlier.push(last).len() && earlier.push(last)[k] == a;
                assert(earlier[k] == a);
            }
        }
        if exists|i: int|
            0 <= i < before.len() && a == ActionModel::Cancel(
                (#[trigger] before[i]).order.client_id@,
            ) && before[i].order.purpose is Entry && before[i].state.resting() {
            let i = choose|i: int|
                0 <= i < before.len() && a == ActionModel::Cancel(
                    (#[trigger] before[i]).order.client_id@,
                ) && before[i].order.purpose is Entry && before[i].state.resting();
            assert(working[i] == before[i]);
        }
        if exists|i: int|
            0 <= i < working.len() && a == ActionModel::Cancel(
                (#[trigger] working[i]).order.client_id@,
            ) && working[i].order.purpose is Entry && working[i].state.resting() {
            let i = choose|i: int|
                0 <= i < working.len() && a == ActionModel::Cancel(
                    (#[trigger] working[i]).order.client_id@,
                ) && working[i].order.purpose is Entry && working[i].state.resting();
            if i < n {
                assert(working[i] == before[i]);
            }
        }
    } else {
        assert(open_entries(working) =~= Seq::<ActionModel>::empty());
    }
}

/// A resting stop is alarmed about exactly where the market has been through it for more than
/// half a minute since it was last touched: the bid at or below it for a long, the ask at or
/// above it for a short position.
pub proof fn law_reached_stops_are_alarmed_about(
    position: Position,
    working: Seq<&TrackedOrder>,
    market: MarketSlice,
    now: Timestamp,
)
    ensures
        ({
            let price = if position.side is Buy {
                market.bid.0@
            } else {
                market.ask.0@
            };
            let alarms = position.exposure_alarm(working, market, now);
            &&& alarms.len() <= 1
            &&& alarms.len() == 1 <==> (open_stop(working) matches Some(t) && position.side.sign() * (
            price - t.order.limit_price.0@) <= 0 && now - t.updated_at > 30000)
            &&& alarms.len() == 1 ==> alarms[0] == ActionModel::Alarm(
                AlarmModel::StopUnfilledExposure {
                    order: open_stop(working)->0.order.client_id@,
                    since: open_stop(working)->0.updated_at,
                },
            )
        }),
{
}

/// The parts of some rungs add up without rounding.
pub open spec fn parts_add_exactly(rungs: Seq<TpRung>) -> bool {
    forall|i: int|
        0 <= i < rungs.len() ==> (#[trigger] TpModel::total_fraction(
            rungs.take(i),
        )).adds_exactly(rungs[i].fraction)
}

/// The parts of some rungs, added up as integers.
pub open spec fn parts_of(rungs: Seq<TpRung>) -> int
    decreases rungs.len(),
{
    if rungs.len() == 0 {
        0
    } else {
        parts_of(rungs.drop_last()) + rungs.last().fraction@
    }
}

proof fn lemma_parts(rungs: Seq<TpRung>)
    requires
        parts_add_exactly(rungs),
    ensures
        TpModel::total_fraction(rungs)@ == parts_of(rungs),
    decreases rungs.len(),
{
    if rungs.len() == 0 {
        crate::decimal::lemma_of_parts(0, 0);
    } else {
        let before = rungs.drop_last();
        let n = rungs.len() - 1;
        assert forall|i: int| 0 <= i < before.len() implies (#[trigger] TpModel::total_fraction(
            before.take(i),
        )).adds_exactly(before[i].fraction) by {
            assert(before.take(i) =~= rungs.take(i));
        }
        lemma_parts(before);
        assert(rungs.take(n) =~= before);
    }
}

proof fn lemma_first_bad(rungs: Seq<TpRung>)
    ensures
        TpModel::first_bad(rungs) is None <==> forall|i: int|
            0 <= i < rungs.len() ==> (#[trigger] rungs[i]).fraction@ > 0 && rungs[i].pct@ > 0,
    decreases rungs.len(),
{
    if rungs.len() > 0 {
        let before = rungs.drop_last();
        let n = rungs.len() - 1;
        lemma_first_bad(before);
        assert(rungs[n] == rungs.last());
        if TpModel::first_bad(rungs) is None {
            assert forall|i: int| 0 <= i < rungs.len() implies (#[trigger] rungs[i]).fraction@ > 0
                && rungs[i].pct@ > 0 by {
                if i < n {
                    assert(rungs[i] == before[i]);
                }
            }
        } else if TpModel::first_bad(before) is Some {
            let i = choose|i: int|
                0 <= i < before.len() && !((#[trigger] before[i]).fraction@ > 0 && before[i].pct@
                    > 0);
            assert(rungs[i] == before[i]);
        }
    }
}

/// A ladder is accepted exactly where it has a rung, every rung has a distance and closes
/// something, and all of them together close no more than the position.
pub proof fn law_ladders_close_at_most_the_position(rungs: Seq<TpRung>)
    requires
        parts_add_exactly(rungs),
    ensures
        (TpModel::Ladder { rungs }).fault() is None <==> rungs.len() > 0 && parts_of(rungs)
            <= crate::decimal::unit() && forall|i: int|
            0 <= i < rungs.len() ==> (#[trigger] rungs[i]).fraction@ > 0 && rungs[i].pct@ > 0,
{
    lemma_parts(rungs);
    lemma_first_bad(rungs);
}

/// An order that is placed is submitted, one that is cancelled or moved is cancelled, and an alarm is
/// passed on: moving a stop never submits a second one beside it.
pub proof fn law_moves_cancel_first(a: ActionModel)
    ensures
        a matches ActionModel::Place(o) ==> effect_of(a) == EffectModel::Submit(o),
        a matches ActionModel::Cancel(id) ==> effect_of(a) == EffectModel::Cancel(id),
        a matches ActionModel::Replace { id, .. } ==> effect_of(a) == EffectModel::Cancel(id),
        a matches ActionModel::Alarm(x) ==> effect_of(a) == EffectModel::Alarm(x),
{
}

/// A single target closes all of the position at its distance; a ladder has a target for each rung, at its
/// distance and for its part, in their order.
pub proof fn law_plans_name_their_targets(tp: TpModel)
    ensures
        tp matches TpModel::Single { pct } ==> tp.pairs().len() == 1 && ({
            let (distance, part) = tp.pairs()[0];
            distance == pct && part@ == crate::decimal::unit()
        }),
        tp matches TpModel::Ladder { rungs } ==> tp.pairs().len() == rungs.len() && forall|i: int|
            0 <= i < rungs.len() ==> (#[trigger] tp.pairs()[i]) == (rungs[i].pct, rungs[i].fraction),
{
    crate::decimal::lemma_of_parts(1, 0);
    crate::decimal::lemma_pow10_28();
}

/// Every target order closes something, at the price of one of the planned targets and for that target's
/// part of the position stepped down; a target that comes to nothing is not placed.
pub proof fn law_target_orders_are_planned(
    fill: EntryModel,
    instrument: Instrument,
    pairs: Seq<(Decimal, Decimal)>,
    n: nat,
)
    requires
        n <= pairs.len(),
        fill.target_orders(instrument, pairs, n) is Ok,
    ensures
        ({
            let placed = fill.target_orders(instrument, pairs, n)->Ok_0;
            &&& placed.len() <= n
            &&& forall|k: int|
                0 <= k < placed.len() ==> (#[trigger] placed[k] matches ActionModel::Place(o)
                    && o.quantity.0@ != 0 && o.side == fill.side.flipped() && o.purpose is TakeProfit
                    && planned_target(fill, instrument, pairs, n, o))
        }),
    decreases n,
{
    if n > 0 {
        let i = (n - 1) as nat;
        law_target_orders_are_planned(fill, instrument, pairs, i);
        let before = fill.target_orders(instrument, pairs, i)->Ok_0;
        let placed = fill.target_orders(instrument, pairs, n)->Ok_0;
        assert forall|k: int| 0 <= k < placed.len() implies (#[trigger] placed[k] matches
            ActionModel::Place(o) && o.quantity.0@ != 0 && o.side == fill.side.flipped() && o.purpose
            is TakeProfit && planned_target(fill, instrument, pairs, n, o)) by {
            if k < before.len() {
                assert(placed[k] == before[k]);
                let o = before[k]->Place_0;
                assert(planned_target(fill, instrument, pairs, i, o));
                let r = choose|r: int| 0 <= r < i && is_target(fill, instrument, #[trigger] pairs[r], o);
                assert(is_target(fill, instrument, pairs[r], o));
            } else {
                let o = placed[k]->Place_0;
                assert(is_target(fill, instrument, pairs[i as int], o));
            }
        }
    }
}

/// Whether an order is at the price and for the part of a target.
pub open spec fn is_target(
    fill: EntryModel,
    instrument: Instrument,
    pair: (Decimal, Decimal),
    o: OrderModel,
) -> bool {
    let (pct, fraction) = pair;
    &&& instrument.precision.priced(
        fill.side.flipped(),
        fill.side.target(fill.price.0, pct),
        PriceRole::TakeProfit,
    ) == Ok::<Price, DomainError>(o.limit_price)
    &&& instrument.precision.sized_or_zero(fill.quantity.0.prod(fraction)) == Ok::<Qty, DomainError>(
        o.quantity,
    )
}

/// Whether an order is one of the first planned targets.
pub open spec fn planned_target(
    fill: EntryModel,
    instrument: Instrument,
    pairs: Seq<(Decimal, Decimal)>,
    n: nat,
    o: OrderModel,
) -> bool {
    exists|r: int| 0 <= r < n && is_target(fill, instrument, #[trigger] pairs[r], o)
}

/// The stop in force is the one that is noted, else the limit of the one that rests. A stop that is set
/// moves the one that rests; where none rests, one is placed for all of the position, on the side that
/// closes it.
pub proof fn law_stops_cover_the_position(
    position: Position,
    instrument: Instrument,
    symbol: Seq<char>,
    working: Seq<&TrackedOrder>,
    market: MarketSlice,
    plan: ProtectionPlan,
)
    ensures
        position.stop_price matches Some(p) ==> position.stop_in_force(working) == Some(p.0),
        position.stop_price is None ==> (match open_stop(working) {
            Some(t) => position.stop_in_force(working) == Some(t.order.limit_price.0),
            None => position.stop_in_force(working) is None,
        }),
        position.stop_actions(instrument, symbol, working, market, plan) matches Ok(actions) ==> (
        actions.len() == 1 <==> position.stop_to_set(working, market, plan) is Some)
            && actions.len() <= 1 && (actions.len() == 1 ==> (match open_stop(working) {
            Some(t) => actions[0] matches ActionModel::Replace { id, .. } && id
                == t.order.client_id@,
            None => actions[0] matches ActionModel::Place(o) && o.quantity == position.quantity
                && o.side == position.side.flipped() && o.purpose is StopLoss && o.symbol == symbol
                && o.tif is PostOnly,
        })),
{
}

/// The orders of a protection are named after the entry: `stop` behind its id, `tp` behind it for the only
/// target, and `tp` with its number, counted from zero, for one of several. No two of them share a name.
pub proof fn law_protection_is_named_after_the_entry(
    fill: EntryModel,
    purpose: OrderPurpose,
    quantity: Qty,
    price: Price,
    count: nat,
    i: nat,
    j: nat,
)
    ensures
        fill.exit_order("stop"@, purpose, quantity, price).client_id == fill.entry_order_id + ":"@
            + "stop"@,
        count == 1 ==> fill.exit_order(
            EntryModel::target_tag(count, i),
            purpose,
            quantity,
            price,
        ).client_id == fill.entry_order_id + ":"@ + "tp"@,
        count != 1 ==> fill.exit_order(
            EntryModel::target_tag(count, i),
            purpose,
            quantity,
            price,
        ).client_id == fill.entry_order_id + ":"@ + ("tp"@ + crate::text::digits(i)),
        count != 1 && i != j ==> EntryModel::target_tag(count, i) != EntryModel::target_tag(count, j),
{
    if count != 1 && i != j {
        crate::text::lemma_digits_read_back(i);
        crate::text::lemma_digits_read_back(j);
        let a = "tp"@ + crate::text::digits(i);
        let b = "tp"@ + crate::text::digits(j);
        if a == b {
            let n = "tp"@.len() as int;
            assert(a.skip(n) =~= crate::text::digits(i));
            assert(b.skip(n) =~= crate::text::digits(j));
        }
    }
}

/// A stop that is placed anew is named after the symbol, the side of the position and the time of its
/// opening; a time before 1970 counts as its start.
pub proof fn law_new_stops_are_named_after_the_position(p: Position, symbol: Seq<char>)
    ensures
        p.opened_at >= 0 ==> p.new_stop_id(symbol) == symbol + ":restop:"@ + (if p.side is Buy {
            "long"@
        } else {
            "short"@
        }) + ":"@ + crate::text::digits(p.opened_at as nat),
        p.opened_at < 0 ==> p.new_stop_id(symbol) == symbol + ":restop:"@ + (if p.side is Buy {
            "long"@
        } else {
            "short"@
        }) + ":"@ + crate::text::digits(0),
{
}

} // verus!
