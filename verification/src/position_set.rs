//! A position together with its protection.
//!
//! The exchange has neither brackets nor one-cancels-other orders, so the desk keeps a position
//! and the orders that protect it in step: when a target is filled the stop shrinks with the
//! position, and when the stop is filled the targets go.

use vstd::prelude::*;
use crate::clock::Timestamp;
use crate::decimal::Decimal;
use crate::error::{DomainError, Fault};
use crate::instrument::Instrument;
use crate::keyed::TextMap;
use crate::money::{Price, Qty};
use crate::order::{
    ClientOrderId, Effect, EffectModel, Order, OrderModel, OrderPurpose, OrderState, Side,
};
use crate::precision::PriceRole;
use crate::protection::{
    find_open_stop, is_tighter, onward_price, target_price, unit_gain, BreakEvenSpec,
    ProtectionPlan, TpModel, TpPlan, TrailingSpec,
};
use crate::risk::{check_entry, RiskLimits, RiskVerdict};
use crate::state::{Position, PositionModel, TrackedModel, TrackedOrder};
use crate::text::{joined3, joined4, joined5, u64_text};

verus! {

/// What a protection order is for.
#[derive(Clone, Copy, Debug, PartialEq, Eq, Structural)]
pub enum ProtectionRole {
    Stop,
    /// A profit target, counted from zero.
    TakeProfit { rung: usize },
}

/// A position with its protection.
#[derive(Debug)]
pub struct PositionSet {
    pub symbol: String,
    pub side: Side,
    /// What is left of the position.
    pub quantity: Qty,
    /// What the position was when it was entered. The parts of the targets are parts of this.
    pub original_quantity: Qty,
    pub entry_price: Price,
    pub opened_at: Timestamp,
    pub plan: ProtectionPlan,
    pub tp: TpPlan,
    /// The targets that are filled.
    pub completed_rungs: Vec<usize>,
    pub stop_price: Option<Price>,
    /// When the stop was reached, while it is not filled.
    pub stop_triggered_at: Option<Timestamp>,
    /// When the protection was placed. Only trades after that can fill it.
    pub protection_placed_at: Option<Timestamp>,
    /// The orders of the targets.
    pub tp_order_ids: Vec<ClientOrderId>,
}

/// A [`PositionSet`] with its texts and lists as sequences.
pub struct SetModel {
    pub symbol: Seq<char>,
    pub side: Side,
    pub quantity: Qty,
    pub original_quantity: Qty,
    pub entry_price: Price,
    pub opened_at: Timestamp,
    pub plan: ProtectionPlan,
    pub tp: TpModel,
    pub completed_rungs: Seq<usize>,
    pub stop_price: Option<Price>,
    pub stop_triggered_at: Option<Timestamp>,
    pub protection_placed_at: Option<Timestamp>,
    pub tp_order_ids: Seq<Seq<char>>,
}

impl PositionSet {
    /// The position with its texts and lists as sequences.
    pub open spec fn model(&self) -> SetModel {
        SetModel {
            symbol: self.symbol@,
            side: self.side,
            quantity: self.quantity,
            original_quantity: self.original_quantity,
            entry_price: self.entry_price,
            opened_at: self.opened_at,
            plan: self.plan,
            tp: self.tp@,
            completed_rungs: self.completed_rungs@,
            stop_price: self.stop_price,
            stop_triggered_at: self.stop_triggered_at,
            protection_placed_at: self.protection_placed_at,
            tp_order_ids: self.tp_order_ids@.map_values(|id: ClientOrderId| id@),
        }
    }
}

impl SetModel {
    /// A position that has just been entered.
    pub open spec fn entered(position: PositionModel, plan: ProtectionPlan, tp: TpModel) -> SetModel {
        SetModel {
            symbol: position.symbol,
            side: position.side,
            quantity: position.quantity,
            original_quantity: position.quantity,
            entry_price: position.entry_price,
            opened_at: position.opened_at,
            plan,
            tp,
            completed_rungs: Seq::empty(),
            stop_price: position.stop_price,
            stop_triggered_at: None,
            protection_placed_at: None,
            tp_order_ids: Seq::empty(),
        }
    }

    /// The quantity of a target: its part of the position as it was entered.
    pub open spec fn rung_size(self, rung: nat) -> Qty {
        if rung < self.tp.pairs().len() {
            Qty(self.original_quantity.0.prod(self.tp.pairs()[rung as int].1))
        } else {
            Qty(Decimal::whole(0))
        }
    }

    /// How a target is shown.
    pub open spec fn rung_shown(self, i: int) -> RungView {
        let (pct, fraction) = self.tp.pairs()[i];
        RungView {
            rung: i as usize,
            pct,
            fraction,
            price: self.side.target(self.entry_price.0, pct),
            filled: self.completed_rungs.contains(i as usize),
        }
    }

    /// The stop after a target was filled: at break-even where the target is far enough from
    /// the entry and that is better, else as it was.
    pub open spec fn stop_after_target(self, rung: int) -> Option<Price> {
        match (self.plan.break_even, self.stop_price) {
            (Some(be), Some(stop)) => {
                let entry = self.entry_price.0;
                let risk = entry.less(stop.0).unsigned();
                let reached = self.tp.pairs()[rung].0.prod(entry);
                let moved = self.side.onward(entry, be.offset);
                if risk@ > 0 && reached@ >= risk.prod(be.trigger_r)@ && self.side.tighter(
                    moved,
                    stop.0,
                ) {
                    Some(Price(moved))
                } else {
                    Some(stop)
                }
            },
            _ => self.stop_price,
        }
    }

    /// The position after a target was filled. A target that was counted, is not planned or is
    /// larger than the position changes nothing.
    pub open spec fn after_target(self, rung: nat, filled: Qty) -> SetModel {
        let left = self.quantity.0.less(filled.0);
        let counted = SetModel {
            completed_rungs: self.completed_rungs.push(rung as usize),
            ..self
        };
        if self.completed_rungs.contains(rung as usize) || rung >= self.tp.pairs().len() || left@
            < 0 {
            self
        } else if left@ == 0 {
            SetModel { quantity: Qty(left), ..counted }
        } else {
            SetModel {
                quantity: Qty(left),
                stop_price: self.stop_after_target(rung as int),
                ..counted
            }
        }
    }

    /// What a filled target asks for: nothing for one that was counted; everything cancelled
    /// where the position is gone; else a stop for what is left.
    pub open spec fn target_fixes(
        self,
        rung: nat,
        filled: Qty,
        working: Seq<&TrackedOrder>,
    ) -> Result<Seq<FixModel>, Fault> {
        let left = self.quantity.0.less(filled.0);
        if self.completed_rungs.contains(rung as usize) {
            Ok(seq![FixModel::Nothing])
        } else if rung >= self.tp.pairs().len() {
            Err(
                Fault::IllegalTransition(
                    "止盈档位 "@ + crate::text::digits(rung) + " 超出计划范围（共 "@
                        + crate::text::digits(self.tp.pairs().len()) + " 档）"@,
                ),
            )
        } else if left@ < 0 {
            Err(
                Fault::IllegalTransition(
                    "止盈成交 "@ + filled.0.written() + " 超过持仓 "@ + self.quantity.0.written(),
                ),
            )
        } else if left@ == 0 {
            Ok(cancels(working, false))
        } else {
            match crate::protection::open_stop(working) {
                Some(stop) => if stop.order.quantity.0.less(stop.filled.0)@ != left@ {
                    Ok(
                        seq![
                            FixModel::Replace(
                                OrderModel { quantity: Qty(left), ..stop.order@ },
                            ),
                        ],
                    )
                } else {
                    Ok(Seq::empty())
                },
                None => Ok(Seq::empty()),
            }
        }
    }
}

/// The first number below `total` that is not in a list.
pub open spec fn first_missing(done: Seq<usize>, total: nat, from: nat) -> Option<nat>
    decreases total - from,
{
    if from >= total {
        None
    } else if !done.contains(from as usize) {
        Some(from)
    } else {
        first_missing(done, total, from + 1)
    }
}

/// Whether a number is in a list.
pub fn holds(v: &Vec<usize>, x: usize) -> (r: bool)
    ensures
        r == v@.contains(x),
{
    for i in 0..v.len()
        invariant
            forall|j: int| 0 <= j < i ==> v@[j] != x,
    {
        if v[i] == x {
            return true;
        }
    }
    false
}

/// The parts of some pairs, added up in their order.
pub open spec fn parts_total(pairs: Seq<(Decimal, Decimal)>) -> Decimal
    decreases pairs.len(),
{
    if pairs.len() == 0 {
        Decimal::whole(0)
    } else {
        parts_total(pairs.drop_last()).sum(pairs.last().1)
    }
}

impl PositionSet {
    pub fn new(position: &Position, plan: ProtectionPlan, tp: TpPlan) -> (r: Self)
        ensures
            r.model() == SetModel::entered(position@, plan, tp@),
            r.symbol == position.symbol,
            r.tp == tp,
    {
        let r = PositionSet {
            symbol: position.symbol.clone(),
            side: position.side,
            quantity: position.quantity,
            original_quantity: position.quantity,
            entry_price: position.entry_price,
            opened_at: position.opened_at,
            plan,
            tp,
            completed_rungs: Vec::new(),
            stop_price: position.stop_price,
            stop_triggered_at: None,
            protection_placed_at: None,
            tp_order_ids: Vec::new(),
        };
        assert(r.model().tp_order_ids =~= Seq::<Seq<char>>::empty());
        r
    }

    /// Notes the orders of the targets.
    pub fn set_tp_order_ids(&mut self, ids: Vec<ClientOrderId>)
        ensures
            *final(self) == (PositionSet { tp_order_ids: ids, ..*old(self) }),
    {
        self.tp_order_ids = ids;
    }

    /// The first target that is not filled.
    pub fn next_rung(&self) -> (r: Option<usize>)
        ensures
            match r {
                Some(i) => first_missing(self.completed_rungs@, self.tp@.pairs().len(), 0) == Some(
                    i as nat,
                ),
                None => first_missing(self.completed_rungs@, self.tp@.pairs().len(), 0) is None,
            },
    {
        let total = self.tp.rungs().len();
        let mut i: usize = 0;
        while i < total
            invariant
                i <= total,
                total == self.tp@.pairs().len(),
                first_missing(self.completed_rungs@, total as nat, 0) == first_missing(
                    self.completed_rungs@,
                    total as nat,
                    i as nat,
                ),
            decreases total - i,
        {
            if !holds(&self.completed_rungs, i) {
                return Some(i);
            }
            i = i + 1;
        }
        None
    }

    pub fn rung_quantity(&self, rung: usize) -> (r: Qty)
        ensures
            r == self.model().rung_size(rung as nat),
    {
        let rungs = self.tp.rungs();
        if rung < rungs.len() {
            Qty::new(self.original_quantity.get() * rungs[rung].1)
        } else {
            Qty::zero()
        }
    }

    /// The parts of all targets together.
    pub fn total_tp_fraction(&self) -> (r: Decimal)
        ensures
            r == parts_total(self.tp@.pairs()),
    {
        let rungs = self.tp.rungs();
        let mut total = Decimal::zero();
        for i in 0..rungs.len()
            invariant
                total == parts_total(rungs@.take(i as int)),
        {
            assert(rungs@.take(i + 1).drop_last() =~= rungs@.take(i as int));
            total = total + rungs[i].1;
        }
        assert(rungs@.take(rungs@.len() as int) =~= rungs@);
        total
    }
}

/// The next target is the first that is not filled.
pub proof fn law_next_rung_is_first_open(done: Seq<usize>, total: nat, from: nat)
    requires
        total <= usize::MAX,
    ensures
        first_missing(done, total, from) matches Some(i) ==> from <= i < total && !done.contains(
            i as usize,
        ) && forall|j: nat| from <= j < i ==> done.contains(#[trigger] (j as usize)),
        first_missing(done, total, from) is None ==> forall|j: nat|
            from <= j < total ==> done.contains(#[trigger] (j as usize)),
    decreases total - from,
{
    if from < total && done.contains(from as usize) {
        law_next_rung_is_first_open(done, total, from + 1);
        assert forall|j: nat|
            from <= j && first_missing(done, total, from) is None && j < total implies done.contains(
            #[trigger] (j as usize),
        ) by {
            if j > from {
                assert(from + 1 <= j);
            }
        }
    }
}

/// The outcome of comparing the reducing orders with the position.
#[derive(Debug, PartialEq, Eq)]
pub struct ConsistencyReport {
    /// What the resting reducing orders could still close.
    pub working_reduce_only_qty: Decimal,
    pub position_qty: Decimal,
    pub ok: bool,
    pub problem: Option<String>,
}

/// What an order could still close: nothing unless it is a reducing order that rests.
pub open spec fn closable(t: TrackedModel) -> Option<Decimal> {
    let left = t.order.quantity.0.less(t.filled.0);
    if t.order.purpose.reduces() && (t.state is Live || t.state is PartiallyFilled) && left@ > 0 {
        Some(left)
    } else {
        None
    }
}

/// What some orders could still close together.
pub open spec fn closable_total(working: Seq<TrackedModel>) -> Decimal
    decreases working.len(),
{
    if working.len() == 0 {
        Decimal::whole(0)
    } else {
        match closable(working.last()) {
            Some(left) => closable_total(working.drop_last()).sum(left),
            None => closable_total(working.drop_last()),
        }
    }
}

/// Checks that the resting reducing orders close no more than the position. Where they would,
/// the exchange refuses the stop when it is reached, so something has to be taken away.
pub fn check_consistency(position: &Position, working: &[&TrackedOrder]) -> (r: ConsistencyReport)
    ensures
        r.working_reduce_only_qty == closable_total(TrackedOrder::models(working@)),
        r.position_qty == position.quantity.0,
        r.ok == (closable_total(TrackedOrder::models(working@))@ <= position.quantity.0@),
        match r.problem {
            None => r.ok,
            Some(s) => !r.ok && s@ == "在挂平仓单合计 "@ + closable_total(TrackedOrder::models(working@)).written()
                + " 超过持仓 "@ + position.quantity.0.written()
                + "——止损触发时会被交易所拒绝，保护将失效。必须减少挂单数量。"@,
        },
{
    let ghost all = TrackedOrder::models(working@);
    let mut sum = Decimal::zero();
    for i in 0..working.len()
        invariant
            all == TrackedOrder::models(working@),
            sum == closable_total(all.take(i as int)),
    {
        let t = working[i];
        assert(all.take(i + 1).drop_last() =~= all.take(i as int));
        assert(all.take(i + 1).last() == (*t)@);
        if t.order.reduce_only() && matches!(
            t.state,
            OrderState::Live | OrderState::PartiallyFilled { .. }
        ) {
            let left = t.order.quantity.get() - t.filled.get();
            if left > Decimal::zero() {
                sum = sum + left;
            }
        }
    }
    assert(all.take(all.len() as int) =~= all);
    let pos = position.quantity.get();
    let ok = sum <= pos;
    ConsistencyReport {
        working_reduce_only_qty: sum,
        position_qty: pos,
        ok,
        problem: if ok {
            None
        } else {
            Some(
                joined5(
                    "在挂平仓单合计 ",
                    sum.text().as_str(),
                    " 超过持仓 ",
                    pos.text().as_str(),
                    "——止损触发时会被交易所拒绝，保护将失效。必须减少挂单数量。",
                ),
            )
        },
    }
}

/// What has to be done to keep the protection in step.
#[derive(Debug, PartialEq, Eq)]
pub enum ProtectionFix {
    Cancel(ClientOrderId),
    /// Place an order anew, with its quantity corrected.
    Replace(Box<Order>),
    Nothing,
}

/// A [`ProtectionFix`] with its texts as sequences of characters.
pub enum FixModel {
    Cancel(Seq<char>),
    Replace(OrderModel),
    Nothing,
}

impl View for ProtectionFix {
    type V = FixModel;

    open spec fn view(&self) -> FixModel {
        match *self {
            ProtectionFix::Cancel(id) => FixModel::Cancel(id@),
            ProtectionFix::Replace(o) => FixModel::Replace((*o)@),
            ProtectionFix::Nothing => FixModel::Nothing,
        }
    }
}

impl ProtectionFix {
    /// Several fixes by their models.
    pub open spec fn models(s: Seq<ProtectionFix>) -> Seq<FixModel> {
        s.map_values(|f: ProtectionFix| f@)
    }
}

/// A cancel for every order that may rest and has one of some purposes.
pub open spec fn cancels(working: Seq<&TrackedOrder>, only_targets: bool) -> Seq<FixModel>
    decreases working.len(),
{
    if working.len() == 0 {
        Seq::empty()
    } else {
        let before = cancels(working.drop_last(), only_targets);
        let t = working.last();
        if t.state.resting() && (only_targets ==> t.order.purpose is TakeProfit) {
            before.push(FixModel::Cancel(t.order.client_id@))
        } else {
            before
        }
    }
}

/// Cancels every order that may rest, or only the targets among them.
fn cancel_open(working: &[&TrackedOrder], only_targets: bool) -> (r: Vec<ProtectionFix>)
    ensures
        ProtectionFix::models(r@) == cancels(working@, only_targets),
{
    let mut fixes: Vec<ProtectionFix> = Vec::new();
    assert(ProtectionFix::models(fixes@) =~= Seq::<FixModel>::empty());
    for i in 0..working.len()
        invariant
            ProtectionFix::models(fixes@) == cancels(working@.take(i as int), only_targets),
    {
        let t = working[i];
        let ghost before = fixes@;
        assert(working@.take(i + 1).drop_last() =~= working@.take(i as int));
        if t.state.is_open() && (!only_targets || t.order.purpose == OrderPurpose::TakeProfit) {
            fixes.push(ProtectionFix::Cancel(t.order.client_id.clone()));
            assert(ProtectionFix::models(fixes@) =~= ProtectionFix::models(before).push(
                FixModel::Cancel(t.order.client_id@),
            ));
        }
    }
    assert(working@.take(working@.len() as int) =~= working@);
    fixes
}

/// Takes a filled target into account: the position shrinks, and the stop shrinks with it. A
/// target that was counted before is not counted again, and one that is refused changes nothing.
pub fn on_take_profit_filled(
    set: &mut PositionSet,
    rung: usize,
    filled_qty: Qty,
    working: &[&TrackedOrder],
) -> (r: Result<Vec<ProtectionFix>, DomainError>)
    ensures
        match r {
            Ok(v) => old(set).model().target_fixes(rung as nat, filled_qty, working@) == Ok::<
                Seq<FixModel>,
                Fault,
            >(ProtectionFix::models(v@)),
            Err(e) => old(set).model().target_fixes(rung as nat, filled_qty, working@) == Err::<
                Seq<FixModel>,
                Fault,
            >(e@),
        },
        final(set).model() == old(set).model().after_target(rung as nat, filled_qty),
        r is Err ==> final(set).model() == old(set).model(),
        rung < old(set).tp@.pairs().len() && !old(set).completed_rungs@.contains(rung) ==> (r is Err
            <==> filled_qty.0@ > old(set).quantity.0@),
{
    if holds(&set.completed_rungs, rung) {
        let v = vec![ProtectionFix::Nothing];
        assert(ProtectionFix::models(v@) =~= seq![FixModel::Nothing]);
        return Ok(v);
    }
    let rungs = set.tp.rungs();
    if rung >= rungs.len() {
        return Err(
            DomainError::IllegalTransition(
                joined5(
                    "止盈档位 ",
                    u64_text(rung as u64).as_str(),
                    " 超出计划范围（共 ",
                    u64_text(rungs.len() as u64).as_str(),
                    " 档）",
                ),
            ),
        );
    }
    let new_qty = set.quantity.get().minus(filled_qty.get());
    if new_qty < Decimal::zero() {
        return Err(
            DomainError::IllegalTransition(
                joined4(
                    "止盈成交 ",
                    filled_qty.text().as_str(),
                    " 超过持仓 ",
                    set.quantity.text().as_str(),
                ),
            ),
        );
    }
    set.completed_rungs.push(rung);
    set.quantity = Qty::new(new_qty);
    if new_qty.is_zero() {
        return Ok(cancel_open(working, false));
    }
    let mut fixes: Vec<ProtectionFix> = Vec::new();
    if let Some(stop) = find_open_stop(working) {
        let have = stop.order.quantity.get() - stop.filled.get();
        if have != new_qty {
            let mut corrected = stop.order.clone();
            corrected.quantity = Qty::new(new_qty);
            fixes.push(ProtectionFix::Replace(Box::new(corrected)));
        }
    }
    proof {
        let want = old(set).model().target_fixes(rung as nat, filled_qty, working@)->Ok_0;
        assert(ProtectionFix::models(fixes@) =~= want);
    }
    if let Some(be) = set.plan.break_even {
        if let Some(stop_price) = set.stop_price {
            let entry = set.entry_price.get();
            let risk = (entry - stop_price.get()).abs();
            let reached = rungs[rung].0 * entry;
            if risk > Decimal::zero() && reached >= risk * be.trigger_r {
                let new_stop = onward_price(set.side, entry, be.offset);
                if is_tighter(set.side, new_stop, stop_price.get()) {
                    set.stop_price = Some(Price::new(new_stop));
                }
            }
        }
    }
    Ok(fixes)
}

/// Takes a filled stop into account: the position is gone, and the targets that rest are
/// cancelled.
pub fn on_stop_filled(set: &mut PositionSet, working: &[&TrackedOrder]) -> (r: Vec<ProtectionFix>)
    ensures
        ProtectionFix::models(r@) == cancels(working@, true),
        final(set).model() == (SetModel { quantity: Qty(Decimal::whole(0)), ..old(set).model() }),
{
    let fixes = cancel_open(working, true);
    set.quantity = Qty::zero();
    fixes
}

/// Cancels everything that rests once the position is gone.
pub fn on_position_closed(working: &[&TrackedOrder]) -> (r: Vec<ProtectionFix>)
    ensures
        ProtectionFix::models(r@) == cancels(working@, false),
{
    cancel_open(working, false)
}

/// Every order that may rest is cancelled, or every target among them, and nothing else is done.
pub proof fn law_cancels_are_complete(working: Seq<&TrackedOrder>, only_targets: bool)
    ensures
        forall|i: int|
            0 <= i < working.len() && (#[trigger] working[i]).state.resting() && (only_targets
                ==> working[i].order.purpose is TakeProfit) ==> cancels(
                working,
                only_targets,
            ).contains(FixModel::Cancel(working[i].order.client_id@)),
        forall|k: int|
            0 <= k < cancels(working, only_targets).len() ==> exists|i: int|
                0 <= i < working.len() && (#[trigger] working[i]).state.resting() && (only_targets
                    ==> working[i].order.purpose is TakeProfit) && #[trigger] cancels(
                    working,
                    only_targets,
                )[k] == FixModel::Cancel(working[i].order.client_id@),
    decreases working.len(),
{
    if working.len() > 0 {
        let rest = working.drop_last();
        let before = cancels(rest, only_targets);
        let all = cancels(working, only_targets);
        law_cancels_are_complete(rest, only_targets);
        assert forall|i: int|
            0 <= i < working.len() && (#[trigger] working[i]).state.resting() && (only_targets
                ==> working[i].order.purpose is TakeProfit) implies all.contains(
            FixModel::Cancel(working[i].order.client_id@),
        ) by {
            let c = FixModel::Cancel(working[i].order.client_id@);
            if i < rest.len() {
                assert(rest[i] == working[i]);
                let k = choose|k: int| 0 <= k < before.len() && before[k] == c;
                assert(all[k] == c);
            } else {
                assert(all[all.len() - 1] == c);
            }
        }
        assert forall|k: int| 0 <= k < all.len() implies exists|i: int|
            0 <= i < working.len() && (#[trigger] working[i]).state.resting() && (only_targets
                ==> working[i].order.purpose is TakeProfit) && #[trigger] all[k]
                == FixModel::Cancel(working[i].order.client_id@) by {
            if k < before.len() {
                assert(before[k] == all[k]);
                let i = choose|i: int|
                    0 <= i < rest.len() && (#[trigger] rest[i]).state.resting() && (only_targets
                        ==> rest[i].order.purpose is TakeProfit) && before[k] == FixModel::Cancel(
                        rest[i].order.client_id@,
                    );
                assert(working[i] == rest[i]);
            } else {
                let i = working.len() - 1;
                assert(working[i] == working.last());
            }
        }
    }
}

/// A target that has been counted changes nothing when it is reported again.
pub proof fn law_counted_target_is_ignored(
    set: SetModel,
    rung: usize,
    filled: Qty,
    working: Seq<&TrackedOrder>,
)
    requires
        set.completed_rungs.contains(rung),
    ensures
        set.target_fixes(rung as nat, filled, working) == Ok::<Seq<FixModel>, Fault>(
            seq![FixModel::Nothing],
        ),
        set.after_target(rung as nat, filled) == set,
{
}

/// A target that is refused, because it is not planned or larger than the position, changes
/// nothing: only targets that were filled are counted.
pub proof fn law_refused_target_changes_nothing(
    set: SetModel,
    rung: usize,
    filled: Qty,
    working: Seq<&TrackedOrder>,
)
    requires
        set.target_fixes(rung as nat, filled, working) is Err,
    ensures
        set.after_target(rung as nat, filled) == set,
        !set.after_target(rung as nat, filled).completed_rungs.contains(rung),
{
}

/// A filled target never loosens the stop, and never changes what the parts are parts of.
pub proof fn law_targets_never_loosen_the_stop(set: SetModel, rung: usize, filled: Qty)
    ensures
        set.stop_price matches Some(before) ==> set.after_target(rung as nat, filled).stop_price
            matches Some(now) && !set.side.tighter(before.0, now.0),
        set.after_target(rung as nat, filled).original_quantity == set.original_quantity,
        set.after_target(rung as nat, filled).tp == set.tp,
{
}

/// A filled target does not change the size of any target: sizes are parts of the position as it
/// was entered, not of what is left of it.
pub proof fn law_target_sizes_are_fixed(set: SetModel, rung: usize, filled: Qty, other: nat)
    ensures
        set.after_target(rung as nat, filled).rung_size(other) == set.rung_size(other),
{
}

/// After a target is filled and part of the position is left, the only order that is placed is
/// the stop again, for exactly what is left.
pub proof fn law_stop_matches_what_is_left(
    set: SetModel,
    rung: usize,
    filled: Qty,
    working: Seq<&TrackedOrder>,
)
    requires
        !set.completed_rungs.contains(rung),
        set.target_fixes(rung as nat, filled, working) is Ok,
        set.quantity.0.less(filled.0)@ > 0,
    ensures
        ({
            let fixes = set.target_fixes(rung as nat, filled, working)->Ok_0;
            &&& forall|i: int| 0 <= i < fixes.len() ==> (#[trigger] fixes[i] matches
                FixModel::Replace(o) && o.quantity == Qty(set.quantity.0.less(filled.0)))
            &&& (crate::protection::open_stop(working) matches Some(stop)
                && stop.order.quantity.0.less(stop.filled.0)@ != set.quantity.0.less(filled.0)@
                ==> fixes.len() == 1)
        }),
{
}

/// The effects of some fixes: a fix that is nothing has none.
pub open spec fn fix_effects(fixes: Seq<FixModel>) -> Seq<EffectModel>
    decreases fixes.len(),
{
    if fixes.len() == 0 {
        Seq::empty()
    } else {
        let before = fix_effects(fixes.drop_last());
        match fixes.last() {
            FixModel::Cancel(id) => before.push(EffectModel::Cancel(id)),
            FixModel::Replace(o) => before.push(EffectModel::Submit(o)),
            FixModel::Nothing => before,
        }
    }
}

/// Turns fixes into effects.
pub fn fixes_to_effects(fixes: Vec<ProtectionFix>) -> (r: Vec<Effect>)
    ensures
        Effect::models(r@) == fix_effects(ProtectionFix::models(fixes@)),
{
    let ghost all = fixes@;
    let ghost models = ProtectionFix::models(all);
    let mut out: Vec<Effect> = Vec::new();
    assert(Effect::models(out@) =~= Seq::<EffectModel>::empty());
    for i in 0..fixes.len()
        invariant
            all == fixes@,
            models == ProtectionFix::models(all),
            Effect::models(out@) == fix_effects(models.take(i as int)),
    {
        let ghost before = out@;
        assert(models.take(i + 1).drop_last() =~= models.take(i as int));
        assert(models.take(i + 1).last() == fixes@[i as int]@);
        match &fixes[i] {
            ProtectionFix::Cancel(id) => {
                out.push(Effect::Cancel(id.clone()));
                assert(Effect::models(out@) =~= Effect::models(before).push(
                    EffectModel::Cancel(id@),
                ));
            },
            ProtectionFix::Replace(o) => {
                let copy = (**o).clone();
                out.push(Effect::Submit(Box::new(copy)));
                assert(Effect::models(out@) =~= Effect::models(before).push(
                    EffectModel::Submit((**o)@),
                ));
            },
            ProtectionFix::Nothing => {},
        }
    }
    assert(models.take(models.len() as int) =~= models);
    out
}

/// A position and its protection, for display.
#[derive(Debug, PartialEq, Eq)]
pub struct PositionView {
    pub symbol: String,
    pub side: Side,
    pub quantity: Decimal,
    pub entry_price: Decimal,
    pub unrealized_pnl: Decimal,
    pub stop_price: Option<Price>,
    pub stop_triggered: bool,
    pub rungs: Vec<RungView>,
    pub realized_pnl: Decimal,
}

/// A profit target, for display.
#[derive(Clone, Copy, Debug, PartialEq, Eq)]
pub struct RungView {
    pub rung: usize,
    /// The distance from the entry price, as a fraction of it.
    pub pct: Decimal,
    /// The part of the position.
    pub fraction: Decimal,
    pub price: Decimal,
    pub filled: bool,
}

impl PositionView {
    /// Whether this is how a position is shown at a mark price.
    pub open spec fn shows(self, set: SetModel, mark: Decimal, realized_pnl: Decimal) -> bool {
        &&& self.symbol@ == set.symbol
        &&& self.side == set.side
        &&& self.quantity == set.quantity.0
        &&& self.entry_price == set.entry_price.0
        &&& self.unrealized_pnl == set.side.gain(set.entry_price.0, mark).prod(set.quantity.0)
        &&& self.stop_price == set.stop_price
        &&& self.stop_triggered == (set.stop_triggered_at is Some)
        &&& self.realized_pnl == realized_pnl
        &&& self.rungs@ == Seq::new(set.tp.pairs().len(), |i: int| set.rung_shown(i))
    }
}

impl PositionSet {
    /// The position as it is shown at a mark price.
    pub fn view(&self, mark_price: Price, realized_pnl: Decimal) -> (r: PositionView)
        ensures
            r.shows(self.model(), mark_price.0, realized_pnl),
    {
        let entry = self.entry_price.get();
        let mark = mark_price.get();
        let unrealized = unit_gain(self.side, entry, mark) * self.quantity.get();
        let pairs = self.tp.rungs();
        let mut rungs: Vec<RungView> = Vec::new();
        for i in 0..pairs.len()
            invariant
                pairs@ == self.tp@.pairs(),
                entry == self.entry_price.0,
                rungs@.len() == i,
                forall|j: int| 0 <= j < i ==> rungs@[j] == self.model().rung_shown(j),
        {
            let (pct, fraction) = pairs[i];
            rungs.push(
                RungView {
                    rung: i,
                    pct,
                    fraction,
                    price: target_price(self.side, entry, pct),
                    filled: holds(&self.completed_rungs, i),
                },
            );
        }
        assert(rungs@ =~= Seq::new(
            self.model().tp.pairs().len(),
            |i: int| self.model().rung_shown(i),
        ));
        PositionView {
            symbol: self.symbol.clone(),
            side: self.side,
            quantity: self.quantity.get(),
            entry_price: entry,
            unrealized_pnl: unrealized,
            stop_price: self.stop_price,
            stop_triggered: self.stop_triggered_at.is_some(),
            rungs,
            realized_pnl,
        }
    }
}

/// An order that an operator wants, before anything is aligned.
#[derive(Debug, PartialEq, Eq)]
pub struct ManualPlan {
    pub symbol: String,
    pub side: Side,
    pub entry: Decimal,
    /// The quantity; where there is none it follows from `size_pct` and the leverage.
    pub quantity: Option<Qty>,
    /// The part of the equity.
    pub size_pct: Option<Decimal>,
    pub leverage: Decimal,
    pub stop: Decimal,
    pub take_profit: TpPlan,
    pub break_even: Option<BreakEvenSpec>,
    pub trailing: Option<TrailingSpec>,
    /// When an entry that still rests is cancelled.
    pub cancel_unfilled_after: Option<Timestamp>,
    /// The prefix of the order's id.
    pub client_ref: String,
}

/// What an operator's plan comes to.
#[derive(Debug, PartialEq, Eq)]
pub struct ManualPreview {
    pub entry: Price,
    pub take_profits: Vec<RungPreview>,
    pub stop: Price,
    pub quantity: Qty,
    pub notional: Decimal,
    pub margin_required: Decimal,
    /// The distance from the stop to the liquidation price, as a fraction of the entry price.
    pub liquidation_buffer_pct: Option<Decimal>,
    /// Whether the risk checks pass.
    pub accepted: bool,
    pub reject_reason: Option<String>,
    pub warnings: Vec<String>,
}

/// What a profit target of an operator's plan comes to.
#[derive(Clone, Copy, Debug, PartialEq, Eq)]
pub struct RungPreview {
    pub rung: usize,
    pub price: Price,
    pub quantity: Qty,
    /// The profit of the target, before fees.
    pub gross_profit: Decimal,
    /// The distance from the entry price in basis points.
    pub distance_bp: Decimal,
}

/// A [`ManualPreview`] with its texts and lists as sequences.
pub struct PreviewModel {
    pub entry: Price,
    pub take_profits: Seq<RungPreview>,
    pub stop: Price,
    pub quantity: Qty,
    pub notional: Decimal,
    pub margin_required: Decimal,
    pub liquidation_buffer_pct: Option<Decimal>,
    pub accepted: bool,
    pub reject_reason: Option<Seq<char>>,
    pub warnings: Seq<Seq<char>>,
}

/// Several texts by their characters.
pub open spec fn texts(s: Seq<String>) -> Seq<Seq<char>> {
    s.map_values(|t: String| t@)
}

impl View for ManualPreview {
    type V = PreviewModel;

    open spec fn view(&self) -> PreviewModel {
        PreviewModel {
            entry: self.entry,
            take_profits: self.take_profits@,
            stop: self.stop,
            quantity: self.quantity,
            notional: self.notional,
            margin_required: self.margin_required,
            liquidation_buffer_pct: self.liquidation_buffer_pct,
            accepted: self.accepted,
            reject_reason: match self.reject_reason {
                Some(s) => Some(s@),
                None => None,
            },
            warnings: texts(self.warnings@),
        }
    }
}

/// A [`ManualPlan`] with its texts and lists as sequences.
pub struct PlanModel {
    pub symbol: Seq<char>,
    pub side: Side,
    pub entry: Decimal,
    pub quantity: Option<Qty>,
    pub size_pct: Option<Decimal>,
    pub leverage: Decimal,
    pub stop: Decimal,
    pub take_profit: TpModel,
    pub break_even: Option<BreakEvenSpec>,
    pub trailing: Option<TrailingSpec>,
    pub cancel_unfilled_after: Option<Timestamp>,
    pub client_ref: Seq<char>,
}

impl View for ManualPlan {
    type V = PlanModel;

    open spec fn view(&self) -> PlanModel {
        PlanModel {
            symbol: self.symbol@,
            side: self.side,
            entry: self.entry,
            quantity: self.quantity,
            size_pct: self.size_pct,
            leverage: self.leverage,
            stop: self.stop,
            take_profit: self.take_profit@,
            break_even: self.break_even,
            trailing: self.trailing,
            cancel_unfilled_after: self.cancel_unfilled_after,
            client_ref: self.client_ref@,
        }
    }
}

impl Clone for ManualPlan {
    fn clone(&self) -> (r: Self)
        ensures
            r@ == self@,
    {
        ManualPlan {
            symbol: self.symbol.clone(),
            side: self.side,
            entry: self.entry,
            quantity: self.quantity,
            size_pct: self.size_pct,
            leverage: self.leverage,
            stop: self.stop,
            take_profit: self.take_profit.clone(),
            break_even: self.break_even,
            trailing: self.trailing,
            cancel_unfilled_after: self.cancel_unfilled_after,
            client_ref: self.client_ref.clone(),
        }
    }
}

impl PlanModel {
    /// The quantity before it is aligned: the one that is given, else the part of the equity
    /// (a tenth, where none is given) times the leverage at the entry price.
    pub open spec fn raw_quantity(self, equity: Decimal, entry: Price) -> Decimal {
        match self.quantity {
            Some(q) => q.0,
            None => {
                let pct = match self.size_pct {
                    Some(p) => p,
                    None => Decimal::of(1, 1),
                };
                equity.prod(pct).prod(self.leverage).per(entry.0)
            },
        }
    }

    /// The first `n` profit targets with the warnings for those that are left out.
    pub open spec fn targets(self, instrument: Instrument, entry: Price, quantity: Qty, n: nat) -> Result<
        (Seq<RungPreview>, Seq<Seq<char>>),
        Fault,
    >
        decreases n,
    {
        if n == 0 {
            Ok((Seq::empty(), Seq::empty()))
        } else {
            let i = (n - 1) as nat;
            let (pct, fraction) = self.take_profit.pairs()[i as int];
            match self.targets(instrument, entry, quantity, i) {
                Err(e) => Err(e),
                Ok((before, warned)) => match instrument.precision.priced(
                    self.side.flipped(),
                    self.side.target(entry.0, pct),
                    PriceRole::TakeProfit,
                ) {
                    Err(e) => Err(e@),
                    Ok(price) => match instrument.precision.sized_or_zero(
                        quantity.0.prod(fraction),
                    ) {
                        Err(e) => Err(e@),
                        Ok(q) => if q.0@ == 0 {
                            Ok(
                                (
                                    before,
                                    warned.push(
                                        "第 "@ + crate::text::digits(n)
                                            + " 档止盈数量低于交易所最小步长，会被跳过"@,
                                    ),
                                ),
                            )
                        } else {
                            Ok(
                                (
                                    before.push(
                                        RungPreview {
                                            rung: i as usize,
                                            price,
                                            quantity: q,
                                            gross_profit: self.side.gain(entry.0, price.0).prod(
                                                q.0,
                                            ),
                                            distance_bp: pct.prod(Decimal::whole(10000)),
                                        },
                                    ),
                                    warned,
                                ),
                            )
                        },
                    },
                },
            }
        }
    }

    /// The warning about a stop close to the liquidation price.
    pub open spec fn liquidation_warnings(buffer: Option<Decimal>) -> Seq<Seq<char>> {
        if crate::risk::thin(buffer) {
            seq![
                "止损距估算强平价仅 "@ + buffer->0.written()
                    + "，仓位在此止损前有被强平的风险"@,
            ]
        } else {
            Seq::empty()
        }
    }

    /// Whether a price is within a twentieth of the mark price.
    pub open spec fn near_mark(price: Decimal, mark: Decimal) -> bool {
        price.less(mark).per(mark).unsigned()@ < Decimal::of(5, 2)@
    }

    /// The note about conditional orders, where a target or the stop is near the mark price.
    pub open spec fn trigger_warnings(first: Decimal, stop: Decimal, mark: Decimal) -> Seq<
        Seq<char>,
    > {
        if mark@ > 0 && (Self::near_mark(first, mark) || Self::near_mark(stop, mark)) {
            seq![
                "止盈或止损价距当前市价较近。本系统的出场单用 GTX 限价单挂出，不受币安条件单触发保护（triggerProtect，距标记价需 ≥5%）的约束；但若你打算改用条件单，这两个价位会被拒单。"@,
            ]
        } else {
            Seq::empty()
        }
    }

    /// The preview of a plan whose quantity is below one step.
    pub open spec fn too_small(entry: Price, quantity: Qty) -> PreviewModel {
        PreviewModel {
            entry,
            take_profits: Seq::empty(),
            stop: entry,
            quantity,
            notional: Decimal::whole(0),
            margin_required: Decimal::whole(0),
            liquidation_buffer_pct: None,
            accepted: false,
            reject_reason: Some("数量低于交易所最小步长，无法下单"@),
            warnings: Seq::empty(),
        }
    }

    /// What the plan comes to, once entry, quantity, stop and targets are aligned.
    pub open spec fn priced(
        self,
        instrument: Instrument,
        mark: Decimal,
        limits: RiskLimits,
        entry: Price,
        quantity: Qty,
        stop: Price,
        targets: Seq<RungPreview>,
        warned: Seq<Seq<char>>,
    ) -> PreviewModel {
        let notional = quantity.0.prod(entry.0);
        let first = if targets.len() > 0 {
            targets[0].price.0
        } else {
            entry.0
        };
        let verdict = limits.verdict(
            instrument,
            self.side,
            entry.0,
            stop.0,
            first,
            self.leverage,
        );
        let buffer = instrument.stop_buffer(entry.0, stop.0, self.leverage, self.side is Buy);
        PreviewModel {
            entry,
            take_profits: targets,
            stop,
            quantity,
            notional,
            margin_required: notional.margin_at(self.leverage),
            liquidation_buffer_pct: buffer,
            accepted: verdict is Pass,
            reject_reason: match verdict {
                RiskVerdict::Pass => None,
                RiskVerdict::Reject(r) => Some(r.said()),
            },
            warnings: warned + Self::liquidation_warnings(buffer) + Self::trigger_warnings(
                first,
                stop.0,
                mark,
            ),
        }
    }

    /// What the plan comes to.
    pub open spec fn preview(
        self,
        instrument: Instrument,
        equity: Decimal,
        mark: Decimal,
        limits: RiskLimits,
    ) -> Result<PreviewModel, Fault> {
        match instrument.precision.priced(self.side, self.entry, PriceRole::PassiveEntry) {
            Err(e) => Err(e@),
            Ok(entry) => match instrument.precision.sized_or_zero(
                self.raw_quantity(equity, entry),
            ) {
                Err(e) => Err(e@),
                Ok(quantity) => if quantity.0@ == 0 {
                    Ok(Self::too_small(entry, quantity))
                } else {
                    match instrument.precision.priced(
                        self.side.flipped(),
                        self.stop,
                        PriceRole::StopLoss,
                    ) {
                        Err(e) => Err(e@),
                        Ok(stop) => match self.take_profit.fault() {
                            Some(f) => Err(f),
                            None => match self.targets(
                                instrument,
                                entry,
                                quantity,
                                self.take_profit.pairs().len(),
                            ) {
                                Err(e) => Err(e),
                                Ok((targets, warned)) => Ok(
                                    self.priced(
                                        instrument,
                                        mark,
                                        limits,
                                        entry,
                                        quantity,
                                        stop,
                                        targets,
                                        warned,
                                    ),
                                ),
                            },
                        },
                    }
                },
            },
        }
    }
}

proof fn lemma_preview_targets_fail(
    plan: PlanModel,
    instrument: Instrument,
    entry: Price,
    quantity: Qty,
    i: nat,
    n: nat,
    e: Fault,
)
    requires
        i <= n,
        plan.targets(instrument, entry, quantity, i) == Err::<
            (Seq<RungPreview>, Seq<Seq<char>>),
            Fault,
        >(e),
    ensures
        plan.targets(instrument, entry, quantity, n) == Err::<
            (Seq<RungPreview>, Seq<Seq<char>>),
            Fault,
        >(e),
    decreases n,
{
    if i < n {
        lemma_preview_targets_fail(plan, instrument, entry, quantity, i, (n - 1) as nat, e);
    }
}

/// What the targets of a preview close, added up exactly.
pub open spec fn shown_quantity(targets: Seq<RungPreview>) -> int
    decreases targets.len(),
{
    if targets.len() == 0 {
        0
    } else {
        shown_quantity(targets.drop_last()) + targets.last().quantity.0@
    }
}

/// The profit targets of a plan, aligned, with the warnings for those that are left out.
fn preview_targets(instrument: &Instrument, plan: &ManualPlan, entry: Price, quantity: Qty) -> (r:
    Result<(Vec<RungPreview>, Vec<String>), DomainError>)
    ensures
        match r {
            Ok((targets, warned)) => plan@.targets(
                *instrument,
                entry,
                quantity,
                plan.take_profit@.pairs().len(),
            ) == Ok::<(Seq<RungPreview>, Seq<Seq<char>>), Fault>((targets@, texts(warned@))),
            Err(e) => plan@.targets(*instrument, entry, quantity, plan.take_profit@.pairs().len())
                == Err::<(Seq<RungPreview>, Seq<Seq<char>>), Fault>(e@),
        },
        r is Ok && crate::protection::splits_exactly(
            quantity.0,
            instrument.precision.step_size,
            plan.take_profit@.pairs(),
        ) && crate::protection::fraction_sum(plan.take_profit@.pairs()) <= crate::decimal::unit()
            ==> shown_quantity(r->Ok_0.0@) <= quantity.0@,
{
    let close_side = plan.side.opposite();
    let pairs = plan.take_profit.rungs();
    let mut take_profits: Vec<RungPreview> = Vec::new();
    let mut warnings: Vec<String> = Vec::new();
    let ghost exact = crate::protection::splits_exactly(
        quantity.0,
        instrument.precision.step_size,
        pairs@,
    );
    proof {
        assert(texts(warnings@) =~= Seq::<Seq<char>>::empty());
        assert(pairs@.take(0) =~= Seq::<(Decimal, Decimal)>::empty());
        assert(quantity.0@ * 0 == 0);
    }
    for i in 0..pairs.len()
        invariant
            exact == crate::protection::splits_exactly(
                quantity.0,
                instrument.precision.step_size,
                pairs@,
            ),
            exact ==> shown_quantity(take_profits@) * crate::decimal::unit() <= quantity.0@
                * crate::protection::fraction_sum(pairs@.take(i as int)),
            pairs@ == plan.take_profit@.pairs(),
            close_side == plan.side.flipped(),
            plan@.targets(*instrument, entry, quantity, i as nat) == Ok::<
                (Seq<RungPreview>, Seq<Seq<char>>),
                Fault,
            >((take_profits@, texts(warnings@))),
    {
        let (pct, fraction) = pairs[i];
        let raw = target_price(plan.side, entry.get(), pct);
        let price = match instrument.precision.price_for(close_side, raw, PriceRole::TakeProfit) {
            Ok(p) => p,
            Err(e) => {
                proof {
                    lemma_preview_targets_fail(
                        plan@,
                        *instrument,
                        entry,
                        quantity,
                        (i + 1) as nat,
                        pairs@.len(),
                        e@,
                    );
                }
                return Err(e);
            },
        };
        let part = quantity.get().times(fraction);
        let qty = match instrument.precision.quantity_or_zero(part) {
            Ok(q) => q,
            Err(e) => {
                proof {
                    lemma_preview_targets_fail(
                        plan@,
                        *instrument,
                        entry,
                        quantity,
                        (i + 1) as nat,
                        pairs@.len(),
                        e@,
                    );
                }
                return Err(e);
            },
        };
        let ghost shown = take_profits@;
        proof {
            assert(pairs@.take(i + 1).drop_last() =~= pairs@.take(i as int));
            if exact {
                crate::protection::lemma_rung_within(
                    quantity.0,
                    fraction,
                    part,
                    instrument.precision.step_size@,
                    qty.0@,
                    shown_quantity(shown),
                    crate::protection::fraction_sum(pairs@.take(i as int)),
                );
            }
        }
        if qty.is_zero() {
            let ghost before = warnings@;
            let note = joined3(
                "第 ",
                u64_text(i as u64 + 1).as_str(),
                " 档止盈数量低于交易所最小步长，会被跳过",
            );
            warnings.push(note);
            assert(texts(warnings@) =~= texts(before).push(note@));
        } else {
            take_profits.push(
                RungPreview {
                    rung: i,
                    price,
                    quantity: qty,
                    gross_profit: unit_gain(plan.side, entry.get(), price.get()) * qty.get(),
                    distance_bp: pct * Decimal::from_int(10000),
                },
            );
            assert(take_profits@.drop_last() =~= shown);
        }
    }
    proof {
        assert(pairs@.take(pairs@.len() as int) =~= pairs@);
        if exact && crate::protection::fraction_sum(pairs@) <= crate::decimal::unit() {
            let t = shown_quantity(take_profits@);
            let q = quantity.0@;
            let f = crate::protection::fraction_sum(pairs@);
            let u = crate::decimal::unit();
            assert(t <= q) by (nonlinear_arith)
                requires
                    t * u <= q * f,
                    f <= u,
                    q >= 0,
                    u > 0,
            ;
        }
    }
    Ok((take_profits, warnings))
}

/// Works out what an operator's plan comes to. Showing a plan and submitting it both go through
/// here, so that what is shown is what is placed. Where the parts of the targets add up to at most
/// one, the targets together never close more than the position.
pub fn preview_manual(
    instrument: &Instrument,
    plan: &ManualPlan,
    equity: Decimal,
    mark_price: Decimal,
    limits: &RiskLimits,
) -> (r: Result<ManualPreview, DomainError>)
    ensures
        match r {
            Ok(p) => plan@.preview(*instrument, equity, mark_price, *limits) == Ok::<
                PreviewModel,
                Fault,
            >(p@),
            Err(e) => plan@.preview(*instrument, equity, mark_price, *limits) == Err::<
                PreviewModel,
                Fault,
            >(e@),
        },
        r is Ok && crate::protection::splits_exactly(
            r->Ok_0.quantity.0,
            instrument.precision.step_size,
            plan.take_profit@.pairs(),
        ) && crate::protection::fraction_sum(plan.take_profit@.pairs()) <= crate::decimal::unit()
            ==> shown_quantity(r->Ok_0.take_profits@) <= r->Ok_0.quantity.0@,
{
    let entry = match instrument.precision.price_for(
        plan.side,
        plan.entry,
        PriceRole::PassiveEntry,
    ) {
        Ok(p) => p,
        Err(e) => return Err(e),
    };
    let close_side = plan.side.opposite();
    let raw = match plan.quantity {
        Some(q) => q.get(),
        None => {
            let pct = match plan.size_pct {
                Some(p) => p,
                None => Decimal::new(1, 1),
            };
            equity * pct * plan.leverage / entry.get()
        },
    };
    let quantity = match instrument.precision.quantity_or_zero(raw) {
        Ok(q) => q,
        Err(e) => return Err(e),
    };
    if quantity.is_zero() {
        let none: Vec<String> = Vec::new();
        assert(texts(none@) =~= Seq::<Seq<char>>::empty());
        return Ok(
            ManualPreview {
                entry,
                take_profits: Vec::new(),
                stop: entry,
                quantity,
                notional: Decimal::zero(),
                margin_required: Decimal::zero(),
                liquidation_buffer_pct: None,
                accepted: false,
                reject_reason: Some("数量低于交易所最小步长，无法下单".to_owned()),
                warnings: none,
            },
        );
    }
    let notional = quantity.get() * entry.get();
    let margin_required = crate::margin::initial_margin(notional, plan.leverage);
    let stop = match instrument.precision.price_for(close_side, plan.stop, PriceRole::StopLoss) {
        Ok(p) => p,
        Err(e) => return Err(e),
    };
    match plan.take_profit.validate() {
        Ok(_) => {},
        Err(e) => return Err(e),
    }
    let (take_profits, mut warnings) = match preview_targets(instrument, plan, entry, quantity) {
        Ok(x) => x,
        Err(e) => return Err(e),
    };
    let ghost warned = texts(warnings@);
    let tp_first = if take_profits.len() > 0 {
        take_profits[0].price.get()
    } else {
        entry.get()
    };
    let verdict = check_entry(
        instrument,
        plan.side,
        entry.get(),
        stop.get(),
        tp_first,
        plan.leverage,
        limits,
    );
    let (accepted, reject_reason) = match verdict {
        RiskVerdict::Pass => (true, None),
        RiskVerdict::Reject(r) => (false, Some(r.message().to_owned())),
    };
    let is_long = plan.side == Side::Buy;
    let liq = instrument.liquidation_price_estimate(entry.get(), plan.leverage, is_long);
    let liquidation_buffer_pct = match liq {
        Some(l) => Some((l - stop.get()).abs() / entry.get()),
        None => None,
    };
    if let Some(b) = liquidation_buffer_pct {
        if b < Decimal::new(1, 3) {
            warnings.push(
                joined3(
                    "止损距估算强平价仅 ",
                    b.text().as_str(),
                    "，仓位在此止损前有被强平的风险",
                ),
            );
        }
    }
    let ghost near_liquidation = PlanModel::liquidation_warnings(liquidation_buffer_pct);
    assert(texts(warnings@) =~= warned + near_liquidation);
    if mark_price > Decimal::zero() {
        let limit = Decimal::new(5, 2);
        let tp_distance = ((tp_first - mark_price) / mark_price).abs();
        let stop_distance = ((stop.get() - mark_price) / mark_price).abs();
        if tp_distance < limit || stop_distance < limit {
            warnings.push(
                "止盈或止损价距当前市价较近。本系统的出场单用 GTX 限价单挂出，不受币安条件单触发保护（triggerProtect，距标记价需 ≥5%）的约束；但若你打算改用条件单，这两个价位会被拒单。".to_owned(),
            );
        }
    }
    assert(texts(warnings@) =~= warned + near_liquidation + PlanModel::trigger_warnings(
        tp_first,
        stop.0,
        mark_price,
    ));
    Ok(
        ManualPreview {
            entry,
            take_profits,
            stop,
            quantity,
            notional,
            margin_required,
            liquidation_buffer_pct,
            accepted,
            reject_reason,
            warnings,
        },
    )
}

/// A plan is accepted only where it has a quantity and the risk checks pass, and a plan that is
/// not accepted says why.
pub proof fn law_refused_plans_say_why(
    plan: PlanModel,
    instrument: Instrument,
    equity: Decimal,
    mark: Decimal,
    limits: RiskLimits,
)
    ensures
        plan.preview(instrument, equity, mark, limits) matches Ok(p) ==> (p.accepted
            <==> p.reject_reason is None) && (p.accepted ==> p.quantity.0@ != 0 && p.entry.0@ > 0
            && limits.verdict(
            instrument,
            plan.side,
            p.entry.0,
            p.stop.0,
            if p.take_profits.len() > 0 {
                p.take_profits[0].price.0
            } else {
                p.entry.0
            },
            plan.leverage,
        ) is Pass),
{
}

impl ProtectionRole {
    /// The name of a role in statistics.
    pub open spec fn said(self) -> Seq<char> {
        match self {
            ProtectionRole::Stop => "止损"@,
            ProtectionRole::TakeProfit { rung } => "止盈第 "@ + crate::text::digits(
                (rung + 1) as nat,
            ) + " 档"@,
        }
    }
}

/// How many of some orders have a role of a name.
pub open spec fn role_count(rungs: Seq<(ClientOrderId, ProtectionRole)>, name: Seq<char>) -> nat
    decreases rungs.len(),
{
    if rungs.len() == 0 {
        0
    } else {
        role_count(rungs.drop_last(), name) + (if rungs.last().1.said() == name {
            1nat
        } else {
            0nat
        })
    }
}

proof fn lemma_role_count(rungs: Seq<(ClientOrderId, ProtectionRole)>, name: Seq<char>)
    ensures
        role_count(rungs, name) <= rungs.len(),
    decreases rungs.len(),
{
    if rungs.len() > 0 {
        lemma_role_count(rungs.drop_last(), name);
    }
}

/// Counts orders by the names of their roles.
pub fn rung_distribution(rungs: &[(ClientOrderId, ProtectionRole)]) -> (r: TextMap<usize>)
    requires
        forall|i: int|
            0 <= i < rungs@.len() ==> (#[trigger] rungs@[i].1 matches ProtectionRole::TakeProfit {
                rung,
            } ==> rung < usize::MAX),
    ensures
        r.wf(),
        forall|name: Seq<char>| #[trigger]
            r@.dom().contains(name) <==> role_count(rungs@, name) > 0,
        forall|name: Seq<char>| #[trigger]
            r@.dom().contains(name) ==> r@[name] == role_count(rungs@, name),
{
    let mut m: TextMap<usize> = TextMap::new();
    for i in 0..rungs.len()
        invariant
            forall|j: int|
                0 <= j < rungs@.len() ==> (#[trigger] rungs@[j].1 matches
                    ProtectionRole::TakeProfit { rung } ==> rung < usize::MAX),
            m.wf(),
            forall|name: Seq<char>| #[trigger]
                m@.dom().contains(name) <==> role_count(rungs@.take(i as int), name) > 0,
            forall|name: Seq<char>| #[trigger]
                m@.dom().contains(name) ==> m@[name] == role_count(rungs@.take(i as int), name),
    {
        assert(rungs@.take(i + 1).drop_last() =~= rungs@.take(i as int));
        assert(rungs@.take(i + 1).last() == rungs@[i as int]);
        let role = rungs[i].1;
        assert(rungs@[i as int].1 == role);
        let key = match role {
            ProtectionRole::Stop => "止损".to_owned(),
            ProtectionRole::TakeProfit { rung } => joined3(
                "止盈第 ",
                u64_text(rung as u64 + 1).as_str(),
                " 档",
            ),
        };
        assert(key@ == role.said());
        proof {
            lemma_role_count(rungs@.take(i as int), key@);
        }
        let n: usize = match m.get(key.as_str()) {
            Some(n) => *n,
            None => 0,
        };
        m.insert(key, n + 1);
    }
    assert(rungs@.take(rungs@.len() as int) =~= rungs@);
    m
}

/// A target is its part of the position as it was entered; one that is not planned is nothing.
pub proof fn law_target_is_its_part(set: SetModel, rung: nat)
    requires
        rung < set.tp.pairs().len() ==> set.original_quantity.0.multiplies_exactly(
            set.tp.pairs()[rung as int].1,
        ),
    ensures
        rung < set.tp.pairs().len() ==> set.rung_size(rung).0@ * crate::decimal::unit()
            == set.original_quantity.0@ * set.tp.pairs()[rung as int].1@,
        rung >= set.tp.pairs().len() ==> set.rung_size(rung).0@ == 0,
{
    crate::decimal::lemma_of_parts(0, 0);
}

/// A target that is planned, new and no larger than the position takes its quantity off the
/// position and is counted; any other changes nothing.
pub proof fn law_target_takes_its_quantity(set: SetModel, rung: usize, filled: Qty)
    requires
        set.quantity.0.subtracts_exactly(filled.0),
    ensures
        ({
            let after = set.after_target(rung as nat, filled);
            let taken = rung < set.tp.pairs().len() && !set.completed_rungs.contains(rung)
                && filled.0@ <= set.quantity.0@;
            &&& taken ==> after.quantity.0@ == set.quantity.0@ - filled.0@
            &&& taken ==> after.completed_rungs == set.completed_rungs.push(rung)
            &&& !taken ==> after == set
            &&& after.side == set.side && after.entry_price == set.entry_price
            &&& after.quantity.0@ == 0 ==> after.stop_price == set.stop_price
        }),
{
}

impl SetModel {
    /// The amounts that decide on the break-even stop after a target are computed without rounding.
    pub open spec fn breaks_even_exactly(self, be: BreakEvenSpec, stop: Decimal, rung: int) -> bool {
        let entry = self.entry_price.0;
        &&& entry.subtracts_exactly(stop)
        &&& entry.less(stop).unsigned().multiplies_exactly(be.trigger_r)
        &&& self.tp.pairs()[rung].0.multiplies_exactly(entry)
        &&& entry.adds_exactly(be.offset)
        &&& entry.subtracts_exactly(be.offset)
    }
}

/// After a target the stop moves exactly where the distance of the target from the entry price is
/// at least `trigger_r` times the distance to the stop, and the entry price moved by the offset is
/// a better stop: higher for a long, lower for a short position. It moves there. Without a
/// break-even stop or without a stop it stays as it is.
pub proof fn law_targets_bring_break_even(set: SetModel, rung: int)
    requires
        set.plan.break_even is Some && set.stop_price is Some ==> set.breaks_even_exactly(
            set.plan.break_even->0,
            (set.stop_price->0).0,
            rung,
        ),
    ensures
        set.plan.break_even is None || set.stop_price is None ==> set.stop_after_target(rung)
            == set.stop_price,
        set.plan.break_even is Some && set.stop_price is Some ==> ({
            let be = set.plan.break_even->0;
            let stop = (set.stop_price->0).0@;
            let entry = set.entry_price.0@;
            let s = set.side.sign();
            let far = set.tp.pairs()[rung].0@ * entry >= crate::decimal::magnitude(entry - stop)
                * be.trigger_r@;
            let better = s * (entry + s * be.offset@) > s * stop;
            &&& set.stop_after_target(rung) is Some
            &&& entry != stop && far && better ==> (set.stop_after_target(rung)->0).0@ == entry + s
                * be.offset@
            &&& !(entry != stop && far && better) ==> set.stop_after_target(rung) == set.stop_price
        }),
{
    if set.plan.break_even is Some && set.stop_price is Some {
        let be = set.plan.break_even->0;
        let stop = (set.stop_price->0).0;
        let entry = set.entry_price.0;
        let risk = entry.less(stop).unsigned();
        let reached = set.tp.pairs()[rung].0.prod(entry);
        crate::decimal::law_signs(entry.less(stop));
        crate::protection::law_onward_is_the_move(set.side, entry, be.offset);
        let u = crate::decimal::unit();
        let a = reached@;
        let b = risk.prod(be.trigger_r)@;
        assert(a >= b <==> a * u >= b * u) by (nonlinear_arith)
            requires
                u > 0,
        ;
    }
}

/// What some orders could still close, added up as integers: what is not filled yet of every
/// reducing order that rests.
pub open spec fn still_closing(working: Seq<TrackedModel>) -> int
    decreases working.len(),
{
    if working.len() == 0 {
        0
    } else {
        let t = working.last();
        let left = t.order.quantity.0@ - t.filled.0@;
        still_closing(working.drop_last()) + (if !(t.order.purpose is Entry) && (t.state is Live
            || t.state is PartiallyFilled) && left > 0 {
            left
        } else {
            0
        })
    }
}

/// What some orders could still close is added up without rounding.
pub open spec fn closes_exactly(working: Seq<TrackedModel>) -> bool
    decreases working.len(),
{
    if working.len() == 0 {
        true
    } else {
        let t = working.last();
        let left = t.order.quantity.0.less(t.filled.0);
        &&& closes_exactly(working.drop_last())
        &&& t.order.quantity.0.subtracts_exactly(t.filled.0)
        &&& closable_total(working.drop_last()).adds_exactly(left)
    }
}

/// What the resting reducing orders could still close is what is left of all of them. Entries, and
/// orders that do not rest, are not counted.
pub proof fn law_closing_orders_add_up(working: Seq<TrackedModel>)
    requires
        closes_exactly(working),
    ensures
        closable_total(working)@ == still_closing(working),
    decreases working.len(),
{
    if working.len() == 0 {
        crate::decimal::lemma_of_parts(0, 0);
    } else {
        law_closing_orders_add_up(working.drop_last());
    }
}

/// A plan without a quantity of its own is sized by the equity: at its entry price it is worth its
/// part of the equity, a tenth where it names none, times the leverage.
pub proof fn law_plans_are_worth_their_part(plan: PlanModel, equity: Decimal, entry: Price)
    requires
        entry.0@ > 0,
        plan.quantity is None ==> crate::strategy::sizes_exactly(
            equity,
            match plan.size_pct {
                Some(p) => p,
                None => Decimal::of(1, 1),
            },
            plan.leverage,
            entry.0,
        ),
    ensures
        plan.quantity matches Some(q) ==> plan.raw_quantity(equity, entry) == q.0,
        plan.quantity is None && plan.size_pct is Some ==> plan.raw_quantity(equity, entry)@
            * entry.0@ * crate::decimal::unit() == equity@ * plan.size_pct->0@ * plan.leverage@,
        plan.quantity is None && plan.size_pct is None ==> 10 * plan.raw_quantity(equity, entry)@
            * entry.0@ == equity@ * plan.leverage@,
{
    if plan.quantity is None {
        let pct = match plan.size_pct {
            Some(p) => p,
            None => Decimal::of(1, 1),
        };
        crate::strategy::lemma_size(equity, pct, plan.leverage, entry.0);
        if plan.size_pct is None {
            crate::decimal::lemma_of_parts(1, 1);
            assert(crate::decimal::pow10(27) == 1000000000000000000000000000) by {
                reveal_with_fuel(crate::decimal::pow10, 28);
            }
            let u = crate::decimal::unit();
            let t = pct@;
            let q = plan.raw_quantity(equity, entry)@;
            let e = entry.0@;
            let w = equity@;
            let l = plan.leverage@;
            assert(10 * q * e == w * l) by (nonlinear_arith)
                requires
                    q * e * u == w * t * l,
                    10 * t == u,
                    u > 0,
            ;
        }
    }
}

/// Every target that is shown is one of the plan's: at its price for the closing side, for a
/// quantity. Its profit is `s * (price - entry) * quantity`, and its distance is that of the plan in
/// basis points.
pub proof fn law_shown_targets_tell_their_profit(
    plan: PlanModel,
    instrument: Instrument,
    entry: Price,
    quantity: Qty,
    n: nat,
)
    requires
        n <= plan.take_profit.pairs().len() <= usize::MAX,
    ensures
        plan.targets(instrument, entry, quantity, n) matches Ok((shown, _)) ==> forall|k: int|
            0 <= k < shown.len() ==> ({
                let r = #[trigger] shown[k];
                let (pct, fraction) = plan.take_profit.pairs()[r.rung as int];
                &&& r.rung < n
                &&& r.quantity.0@ != 0
                &&& crate::settlement::gains_exactly(entry.0, r.price.0, r.quantity.0)
                    ==> r.gross_profit@ * crate::decimal::unit() == plan.side.sign() * (r.price.0@
                    - entry.0@) * r.quantity.0@
                &&& pct.multiplies_exactly(Decimal::whole(10000)) ==> r.distance_bp@ == 10000 * pct@
                &&& instrument.precision.priced(
                    plan.side.flipped(),
                    plan.side.target(entry.0, pct),
                    PriceRole::TakeProfit,
                ) == Ok::<Price, DomainError>(r.price)
            }),
    decreases n,
{
    if n > 0 {
        let i = (n - 1) as nat;
        law_shown_targets_tell_their_profit(plan, instrument, entry, quantity, i);
        if let Ok((shown, _)) = plan.targets(instrument, entry, quantity, n) {
            let before = plan.targets(instrument, entry, quantity, i)->Ok_0.0;
            if shown.len() > before.len() {
                let r = shown.last();
                let (pct, fraction) = plan.take_profit.pairs()[i as int];
                assert(r.rung == i);
                if pct.multiplies_exactly(Decimal::whole(10000)) {
                    crate::decimal::lemma_of_parts(10000, 0);
                    crate::decimal::lemma_pow10_28();
                    let u = crate::decimal::unit();
                    let d = r.distance_bp@;
                    let p = pct@;
                    assert(d == 10000 * p) by (nonlinear_arith)
                        requires
                            d * u == p * (10000 * u),
                            u > 0,
                    ;
                }
                assert(shown == before.push(r));
            }
        }
    }
}

/// The figures of a preview: the value is quantity times entry price, the margin is the value over
/// the leverage (at least one), and both prices are aligned for the sides that they are for.
pub proof fn law_preview_figures(
    plan: PlanModel,
    instrument: Instrument,
    equity: Decimal,
    mark: Decimal,
    limits: RiskLimits,
)
    ensures
        plan.preview(instrument, equity, mark, limits) matches Ok(p) && p.quantity.0@ != 0 ==> ({
            let p = plan.preview(instrument, equity, mark, limits)->Ok_0;
            let u = crate::decimal::unit();
            &&& p.quantity.0.multiplies_exactly(p.entry.0) ==> p.notional@ * u == p.quantity.0@
                * p.entry.0@
            &&& p.notional.divides_exactly(plan.leverage.larger(Decimal::whole(1)))
                ==> p.margin_required@ * (if plan.leverage@ >= u {
                plan.leverage@
            } else {
                u
            }) == p.notional@ * u
            &&& instrument.precision.priced(plan.side, plan.entry, PriceRole::PassiveEntry) == Ok::<
                Price,
                DomainError,
            >(p.entry)
            &&& instrument.precision.priced(plan.side.flipped(), plan.stop, PriceRole::StopLoss)
                == Ok::<Price, DomainError>(p.stop)
            &&& p.liquidation_buffer_pct == instrument.stop_buffer(
                p.entry.0,
                p.stop.0,
                plan.leverage,
                plan.side is Buy,
            )
        }),
{
    crate::decimal::lemma_of_parts(1, 0);
    crate::decimal::lemma_pow10_28();
}

/// A price is near the mark price where it is less than a twentieth of it away, on either side.
pub proof fn law_near_the_mark(price: Decimal, mark: Decimal)
    requires
        mark@ > 0,
        price.subtracts_exactly(mark),
        price.less(mark).divides_exactly(mark),
    ensures
        PlanModel::near_mark(price, mark) <==> 20 * crate::decimal::magnitude(price@ - mark@)
            < mark@,
{
    let u = crate::decimal::unit();
    let r = price.less(mark).per(mark);
    crate::decimal::law_signs(r);
    crate::decimal::lemma_of_parts(5, 2);
    assert(crate::decimal::pow10(26) == 100000000000000000000000000) by {
        reveal_with_fuel(crate::decimal::pow10, 27);
    }
    let t = Decimal::of(5, 2)@;
    let q = r@;
    let a = r.unsigned()@;
    let d = price@ - mark@;
    let m = mark@;
    let w = crate::decimal::magnitude(d);
    assert(a * m == w * u) by (nonlinear_arith)
        requires
            q * m == d * u,
            m > 0,
            u > 0,
            a == (if q < 0 { -q } else { q }),
            w == (if d < 0 { -d } else { d }),
    ;
    assert(a < t <==> 20 * w < m) by (nonlinear_arith)
        requires
            a * m == w * u,
            20 * t == u,
            m > 0,
            u > 0,
    ;
}

/// A position is shown with the result that it would have at the mark price before a fee:
/// `s * (mark - entry) * quantity`.
pub proof fn law_shown_positions_tell_their_result(
    shown: PositionView,
    set: SetModel,
    mark: Decimal,
    realized: Decimal,
)
    requires
        shown.shows(set, mark, realized),
        crate::settlement::gains_exactly(set.entry_price.0, mark, set.quantity.0),
    ensures
        shown.unrealized_pnl@ * crate::decimal::unit() == set.side.sign() * (mark@
            - set.entry_price.0@) * set.quantity.0@,
        shown.realized_pnl == realized,
        shown.stop_triggered <==> set.stop_triggered_at is Some,
        forall|i: int|
            0 <= i < shown.rungs@.len() && i <= usize::MAX ==> (#[trigger] shown.rungs@[i]).filled
                == set.completed_rungs.contains(i as usize) && shown.rungs@[i].pct
                == set.tp.pairs()[i].0 && shown.rungs@[i].fraction == set.tp.pairs()[i].1,
{
}

/// Prices near the mark price are warned about: the first target as well as the stop.
pub proof fn law_near_prices_are_warned_about(first: Decimal, stop: Decimal, mark: Decimal)
    ensures
        PlanModel::trigger_warnings(first, stop, mark).len() <= 1,
        mark@ > 0 && PlanModel::near_mark(first, mark) ==> PlanModel::trigger_warnings(
            first,
            stop,
            mark,
        ).len() == 1,
        mark@ > 0 && PlanModel::near_mark(stop, mark) ==> PlanModel::trigger_warnings(
            first,
            stop,
            mark,
        ).len() == 1,
        mark@ <= 0 || (!PlanModel::near_mark(first, mark) && !PlanModel::near_mark(stop, mark))
            ==> PlanModel::trigger_warnings(first, stop, mark).len() == 0,
{
}

/// The warnings of a preview begin with those about targets that are left out; a warning about liquidation
/// follows where the buffer is thin, and one about near prices comes last.
pub proof fn law_preview_warnings(
    plan: PlanModel,
    instrument: Instrument,
    mark: Decimal,
    limits: RiskLimits,
    entry: Price,
    quantity: Qty,
    stop: Price,
    targets: Seq<RungPreview>,
    warned: Seq<Seq<char>>,
)
    ensures
        ({
            let p = plan.priced(
                instrument,
                mark,
                limits,
                entry,
                quantity,
                stop,
                targets,
                warned,
            );
            let first = if targets.len() > 0 {
                targets[0].price.0
            } else {
                entry.0
            };
            let liquidation = crate::risk::thin(p.liquidation_buffer_pct);
            let near = PlanModel::trigger_warnings(first, stop.0, mark);
            let n = warned.len() as int;
            &&& p.warnings.len() == n + (if liquidation {
                1int
            } else {
                0int
            }) + near.len()
            &&& forall|i: int| 0 <= i < n ==> #[trigger] p.warnings[i] == warned[i]
            &&& liquidation ==> p.warnings[n] == PlanModel::liquidation_warnings(
                p.liquidation_buffer_pct,
            )[0]
            &&& near.len() == 1 ==> p.warnings.last() == near[0]
        }),
{
}

/// A target that closes all that is left cancels every order that may rest, the stop among them.
pub proof fn law_last_target_cancels_everything(
    set: SetModel,
    rung: usize,
    filled: Qty,
    working: Seq<&TrackedOrder>,
    i: int,
)
    requires
        rung < set.tp.pairs().len(),
        !set.completed_rungs.contains(rung),
        set.quantity.0.subtracts_exactly(filled.0),
        set.quantity.0@ == filled.0@,
        0 <= i < working.len(),
        working[i].state.resting(),
    ensures
        set.target_fixes(rung as nat, filled, working) matches Ok(fixes) && fixes.contains(
            FixModel::Cancel(working[i].order.client_id@),
        ),
{
    law_cancels_are_complete(working, false);
}

/// Every fix that does something has its effect: a cancel cancels, a replacement is submitted, and nothing
/// else happens.
pub proof fn law_fixes_have_their_effects(fixes: Seq<FixModel>)
    ensures
        forall|i: int|
            0 <= i < fixes.len() ==> (#[trigger] fixes[i] matches FixModel::Cancel(id)
                ==> fix_effects(fixes).contains(EffectModel::Cancel(id))),
        forall|i: int|
            0 <= i < fixes.len() ==> (#[trigger] fixes[i] matches FixModel::Replace(o)
                ==> fix_effects(fixes).contains(EffectModel::Submit(o))),
        fix_effects(fixes).len() == fixes.filter(|f: FixModel| !(f is Nothing)).len(),
    decreases fixes.len(),
{
    reveal(Seq::filter);
    if fixes.len() > 0 {
        let rest = fixes.drop_last();
        let n = fixes.len() - 1;
        let before = fix_effects(rest);
        let all = fix_effects(fixes);
        law_fixes_have_their_effects(rest);
        assert(fixes[n] == fixes.last());
        assert forall|e: EffectModel| before.contains(e) implies all.contains(e) by {
            let k = choose|k: int| 0 <= k < before.len() && before[k] == e;
            assert(all[k] == e);
        }
        if !(fixes.last() is Nothing) {
            assert(all.last() == all[before.len() as int]);
        }
        assert forall|i: int| 0 <= i < fixes.len() implies (#[trigger] fixes[i] matches
            FixModel::Cancel(id) ==> all.contains(EffectModel::Cancel(id))) by {
            if i < n {
                assert(rest[i] == fixes[i]);
            }
        }
        assert forall|i: int| 0 <= i < fixes.len() implies (#[trigger] fixes[i] matches
            FixModel::Replace(o) ==> all.contains(EffectModel::Submit(o))) by {
            if i < n {
                assert(rest[i] == fixes[i]);
            }
        }
    }
}

/// Targets are named by their place, counted from one.
pub proof fn law_roles_are_named(rung: usize)
    requires
        rung < usize::MAX,
    ensures
        ProtectionRole::Stop.said() == "止损"@,
        (ProtectionRole::TakeProfit { rung }).said() == "止盈第 "@ + crate::text::digits(
            rung as nat + 1,
        ) + " 档"@,
{
}

} // verus!
