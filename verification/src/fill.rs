//! Fill models: whether a resting order would have been filled by the trades on the tape.
//!
//! With no maker fee the profit of a trade is the distance to its target, so an optimistic fill
//! model can turn the sign of a result. [`M0WickTouchFull`] fills at a touch and serves as an
//! upper bound only; [`M1TradeThroughQueue`] asks for a trade that takes the order's side of the
//! book, and for all that queued ahead.

use vstd::prelude::*;
use crate::clock::Timestamp;
use crate::decimal::Decimal;
use crate::liquidity::{Trade, TradeTape};
use crate::order::{Order, OrderModel, Side};
use crate::text::same_text;

verus! {

/// Which way a model errs.
#[derive(Clone, Copy, Debug, PartialEq, Eq, Structural)]
pub enum Optimism {
    UpperBound,
    ConservativeLower,
}

/// Whether an order is filled.
#[derive(Clone, Copy, Debug, PartialEq, Eq)]
pub enum FillOutcome {
    Unfilled,
    Partial { quantity: Decimal, price: Decimal },
    Full { price: Decimal },
}

impl FillOutcome {
    /// The quantity that the outcome itself names; a full fill names none.
    pub fn filled_quantity(&self) -> (r: Decimal)
        ensures
            r == (match *self {
                FillOutcome::Partial { quantity, .. } => quantity,
                _ => Decimal::whole(0),
            }),
    {
        match self {
            FillOutcome::Unfilled => Decimal::zero(),
            FillOutcome::Partial { quantity, .. } => *quantity,
            FillOutcome::Full { .. } => Decimal::zero(),
        }
    }

    pub fn is_filled(&self) -> (r: bool)
        ensures
            r == !(self is Unfilled),
    {
        !matches!(self, FillOutcome::Unfilled)
    }

    /// The quantity of an order that is filled.
    pub open spec fn of_order(self, order: OrderModel) -> Decimal {
        match self {
            FillOutcome::Unfilled => Decimal::whole(0),
            FillOutcome::Partial { quantity, .. } => quantity,
            FillOutcome::Full { .. } => order.quantity.0,
        }
    }

    /// The price of the fill, or another where there is none.
    pub open spec fn price_else(self, fallback: Decimal) -> Decimal {
        match self {
            FillOutcome::Unfilled => fallback,
            FillOutcome::Partial { price, .. } => price,
            FillOutcome::Full { price } => price,
        }
    }

    pub fn quantity_for(&self, order: &Order) -> (r: Decimal)
        ensures
            r == self.of_order(order@),
    {
        match self {
            FillOutcome::Unfilled => Decimal::zero(),
            FillOutcome::Partial { quantity, .. } => *quantity,
            FillOutcome::Full { .. } => order.quantity.get(),
        }
    }

    pub fn price_or(&self, fallback: Decimal) -> (r: Decimal)
        ensures
            r == self.price_else(fallback),
    {
        match self {
            FillOutcome::Unfilled => fallback,
            FillOutcome::Partial { price, .. } => *price,
            FillOutcome::Full { price } => *price,
        }
    }
}

/// What a model may look at.
pub struct FillContext<'a> {
    pub order: &'a Order,
    /// The trades after the order was placed, and no others.
    pub tape: &'a TradeTape,
    pub placed_at: Timestamp,
    pub tick_size: Decimal,
}

/// A [`FillContext`] with its order and its trades as values.
pub struct ContextModel {
    pub order: OrderModel,
    pub trades: Seq<Trade>,
    pub placed_at: Timestamp,
    pub tick_size: Decimal,
}

impl<'a> View for FillContext<'a> {
    type V = ContextModel;

    open spec fn view(&self) -> ContextModel {
        ContextModel {
            order: self.order@,
            trades: self.tape@,
            placed_at: self.placed_at,
            tick_size: self.tick_size,
        }
    }
}

/// A fill model.
pub trait FillModel: Send + Sync {
    /// Whether an order is filled by some trades.
    spec fn outcome(&self, ctx: ContextModel) -> FillOutcome;

    /// The name of the model.
    spec fn label(&self) -> Seq<char>;

    /// Which way the model errs.
    spec fn stance(&self) -> Optimism;

    /// The name that stands in every result.
    fn name(&self) -> (r: &'static str)
        ensures
            r@ == self.label(),
    ;

    /// The data that the model needs.
    fn data_requirements(&self) -> &'static str;

    fn optimism(&self) -> (r: Optimism)
        ensures
            r == self.stance(),
    ;

    fn evaluate(&self, ctx: &FillContext<'_>) -> (r: FillOutcome)
        ensures
            r == self.outcome(ctx@),
    ;
}

/// Whether a price reaches an order that rests at a limit.
pub open spec fn reaches(side: Side, price: Decimal, limit: Decimal) -> bool {
    match side {
        Side::Buy => price@ <= limit@,
        Side::Sell => price@ >= limit@,
    }
}

/// Whether a trade was driven by the side that takes an order of this side.
pub open spec fn takes(side: Side, t: Trade) -> bool {
    match side {
        Side::Buy => t.is_buyer_maker,
        Side::Sell => !t.is_buyer_maker,
    }
}

fn price_reaches(side: Side, price: Decimal, limit: Decimal) -> (r: bool)
    ensures
        r == reaches(side, price, limit),
{
    match side {
        Side::Buy => price <= limit,
        Side::Sell => price >= limit,
    }
}

/// Fills an order in full at the first trade that touches its price. It is the most optimistic
/// model there is and serves to measure how much of a result depends on that.
pub struct M0WickTouchFull;

/// Whether some trade reaches an order.
pub open spec fn touched(order: OrderModel, trades: Seq<Trade>) -> bool {
    exists|i: int|
        0 <= i < trades.len() && reaches(
            order.side,
            (#[trigger] trades[i]).price.0,
            order.limit_price.0,
        )
}

impl FillModel for M0WickTouchFull {
    open spec fn outcome(&self, ctx: ContextModel) -> FillOutcome {
        if touched(ctx.order, ctx.trades) {
            FillOutcome::Full { price: ctx.order.limit_price.0 }
        } else {
            FillOutcome::Unfilled
        }
    }

    open spec fn label(&self) -> Seq<char> {
        "M0_wick_touch_full"@
    }

    open spec fn stance(&self) -> Optimism {
        Optimism::UpperBound
    }

    fn name(&self) -> (r: &'static str) {
        "M0_wick_touch_full"
    }

    fn data_requirements(&self) -> (r: &'static str)
        ensures
            r@ == "1m OHLCV"@,
    {
        "1m OHLCV"
    }

    fn optimism(&self) -> (r: Optimism) {
        Optimism::UpperBound
    }

    fn evaluate(&self, ctx: &FillContext<'_>) -> (r: FillOutcome) {
        let limit = ctx.order.limit_price.get();
        let side = ctx.order.side;
        let trades = ctx.tape.trades();
        for i in 0..trades.len()
            invariant
                trades@ == ctx.tape@,
                limit == ctx.order.limit_price.0,
                side == ctx.order.side,
                forall|j: int|
                    0 <= j < i ==> !reaches(side, (#[trigger] trades@[j]).price.0, limit),
        {
            if price_reaches(side, trades[i].price.get(), limit) {
                assert(reaches(side, trades@[i as int].price.0, limit));
                return FillOutcome::Full { price: limit };
            }
        }
        FillOutcome::Unfilled
    }
}

/// Fills an order once trades that take its side of the book, at its price or beyond, add up to
/// more than what queued ahead of it. A price that merely touches fills nothing.
pub struct M1TradeThroughQueue {
    /// The quantity that queued ahead.
    pub queue_ahead: Decimal,
}

impl Default for M1TradeThroughQueue {
    fn default() -> (r: Self)
        ensures
            r.queue_ahead == Decimal::whole(0),
    {
        M1TradeThroughQueue { queue_ahead: Decimal::zero() }
    }
}

/// Whether a trade eats into the queue that an order stands in.
pub open spec fn consumes(order: OrderModel, t: Trade) -> bool {
    reaches(order.side, t.price.0, order.limit_price.0) && takes(order.side, t)
}

/// What some trades take from the queue, added up in their order.
pub open spec fn consumed(order: OrderModel, trades: Seq<Trade>) -> Decimal
    decreases trades.len(),
{
    if trades.len() == 0 {
        Decimal::whole(0)
    } else if consumes(order, trades.last()) {
        consumed(order, trades.drop_last()).sum(trades.last().quantity.0)
    } else {
        consumed(order, trades.drop_last())
    }
}

/// Whether at some trade that takes from the queue all that queued ahead is gone.
pub open spec fn traded_through(order: OrderModel, trades: Seq<Trade>, queue_ahead: Decimal) -> bool {
    exists|n: int|
        0 < n <= trades.len() && consumes(order, trades[n - 1]) && (#[trigger] consumed(
            order,
            trades.take(n),
        ))@ > queue_ahead@
}

/// How much some trades take from the queue, added up exactly, in units of `10^-28`.
pub open spec fn volume(order: OrderModel, trades: Seq<Trade>) -> int
    decreases trades.len(),
{
    if trades.len() == 0 {
        0
    } else if consumes(order, trades.last()) {
        volume(order, trades.drop_last()) + trades.last().quantity.0@
    } else {
        volume(order, trades.drop_last())
    }
}

/// The most decimal places that a quantity of some trades has.
pub open spec fn most_places(trades: Seq<Trade>) -> int
    decreases trades.len(),
{
    if trades.len() == 0 {
        0
    } else {
        crate::decimal::more_places(
            most_places(trades.drop_last()),
            trades.last().quantity.0.spec_scale(),
        )
    }
}

/// No quantity is negative, and what is taken from the queue, written with the most decimal places
/// of all, fits in 96 bits.
pub open spec fn adds_exactly(order: OrderModel, trades: Seq<Trade>) -> bool {
    &&& forall|i: int| 0 <= i < trades.len() ==> (#[trigger] trades[i]).quantity.0@ >= 0
    &&& most_places(trades) <= 28
    &&& volume(order, trades) <= crate::decimal::MAX_MANTISSA * crate::decimal::pow10(
        (28 - most_places(trades)) as nat,
    )
}

/// The first trades take no more than all of them, and have no more decimal places.
proof fn lemma_first_trades(order: OrderModel, trades: Seq<Trade>, n: int)
    requires
        0 <= n <= trades.len(),
        forall|i: int| 0 <= i < trades.len() ==> (#[trigger] trades[i]).quantity.0@ >= 0,
    ensures
        0 <= volume(order, trades.take(n)) <= volume(order, trades),
        0 <= most_places(trades.take(n)) <= most_places(trades),
    decreases trades.len(),
{
    if n < trades.len() {
        let rest = trades.drop_last();
        assert(trades.last() == trades[trades.len() - 1]);
        assert forall|i: int| 0 <= i < rest.len() implies (#[trigger] rest[i]).quantity.0@ >= 0 by {
            assert(rest[i] == trades[i]);
        }
        assert(rest.take(n) =~= trades.take(n));
        lemma_first_trades(order, rest, n);
    } else {
        assert(trades.take(n) =~= trades);
        if n > 0 {
            let rest = trades.drop_last();
            assert(trades.last() == trades[n - 1]);
            assert forall|i: int| 0 <= i < rest.len() implies (#[trigger] rest[i]).quantity.0@ >= 0 by {
                assert(rest[i] == trades[i]);
            }
            lemma_first_trades(order, rest, n - 1);
            assert(rest.take(n - 1) =~= rest);
        }
    }
}

/// What the first trades take and what the next one takes add up exactly.
proof fn lemma_next_adds(order: OrderModel, trades: Seq<Trade>, n: int, taken: Decimal)
    requires
        0 <= n < trades.len(),
        adds_exactly(order, trades),
        consumes(order, trades[n]),
        taken@ == volume(order, trades.take(n)),
        0 <= taken.spec_scale() <= most_places(trades.take(n)),
        0 <= trades[n].quantity.0.spec_scale(),
    ensures
        taken.aligns_with(trades[n].quantity.0),
        volume(order, trades.take(n + 1)) == taken@ + trades[n].quantity.0@,
        most_places(trades.take(n + 1)) == crate::decimal::more_places(
            most_places(trades.take(n)),
            trades[n].quantity.0.spec_scale(),
        ),
{
    let q = trades[n].quantity.0;
    assert(trades.take(n + 1).drop_last() =~= trades.take(n));
    assert(trades.take(n + 1).last() == trades[n]);
    lemma_first_trades(order, trades, n);
    lemma_first_trades(order, trades, n + 1);
    let s = crate::decimal::more_places(taken.spec_scale(), q.spec_scale());
    let p = most_places(trades);
    let k = (p - s) as nat;
    let g = crate::decimal::pow10((28 - p) as nat);
    let h = crate::decimal::pow10((28 - s) as nat);
    crate::decimal::lemma_pow10_positive(k);
    crate::decimal::lemma_pow10_positive((28 - p) as nat);
    crate::decimal::lemma_pow10_adds(k, (28 - p) as nat);
    assert(k + (28 - p) as nat == (28 - s) as nat);
    let m = crate::decimal::MAX_MANTISSA;
    assert(m * g <= m * h) by (nonlinear_arith)
        requires
            h == crate::decimal::pow10(k) * g,
            crate::decimal::pow10(k) >= 1,
            g > 0,
            m > 0,
    ;
}

impl M1TradeThroughQueue {
    pub fn new(queue_ahead: Decimal) -> (r: Self)
        ensures
            r.queue_ahead == queue_ahead,
    {
        M1TradeThroughQueue { queue_ahead }
    }
}

impl FillModel for M1TradeThroughQueue {
    open spec fn outcome(&self, ctx: ContextModel) -> FillOutcome {
        if traded_through(ctx.order, ctx.trades, self.queue_ahead) {
            FillOutcome::Full { price: ctx.order.limit_price.0 }
        } else {
            FillOutcome::Unfilled
        }
    }

    open spec fn label(&self) -> Seq<char> {
        "M1_trade_through_queue"@
    }

    open spec fn stance(&self) -> Optimism {
        Optimism::ConservativeLower
    }

    fn name(&self) -> (r: &'static str) {
        "M1_trade_through_queue"
    }

    fn data_requirements(&self) -> (r: &'static str)
        ensures
            r@ == "1m OHLCV + aggTrades（逐笔成交）"@,
    {
        "1m OHLCV + aggTrades（逐笔成交）"
    }

    fn optimism(&self) -> (r: Optimism) {
        Optimism::ConservativeLower
    }

    /// The order is filled if and only if what trades take from the queue is more than what queued
    /// ahead; just as much does not fill it.
    fn evaluate(&self, ctx: &FillContext<'_>) -> (r: FillOutcome)
        ensures
            self.queue_ahead@ >= 0 && adds_exactly(ctx.order@, ctx.tape@) ==> r == (if volume(
                ctx.order@,
                ctx.tape@,
            ) > self.queue_ahead@ {
                FillOutcome::Full { price: ctx.order.limit_price.0 }
            } else {
                FillOutcome::Unfilled
            }),
    {
        let limit = ctx.order.limit_price.get();
        let side = ctx.order.side;
        let trades = ctx.tape.trades();
        let mut taken = Decimal::zero();
        let ghost order = ctx.order@;
        let ghost exact = self.queue_ahead@ >= 0 && adds_exactly(order, trades@);
        proof {
            assert(trades@.take(0) =~= Seq::<Trade>::empty());
            crate::decimal::lemma_of_parts(0, 0);
        }
        for i in 0..trades.len()
            invariant
                trades@ == ctx.tape@,
                order == ctx.order@,
                limit == ctx.order.limit_price.0,
                side == ctx.order.side,
                exact == (self.queue_ahead@ >= 0 && adds_exactly(order, trades@)),
                taken == consumed(order, trades@.take(i as int)),
                exact ==> taken@ == volume(order, trades@.take(i as int)) && 0
                    <= taken.spec_scale() <= most_places(trades@.take(i as int)) && taken@
                    <= self.queue_ahead@,
                forall|n: int|
                    0 < n <= i && consumes(order, trades@[n - 1]) ==> (#[trigger] consumed(
                        order,
                        trades@.take(n),
                    ))@ <= self.queue_ahead@,
        {
            let t = trades[i];
            assert(trades@.take(i + 1).drop_last() =~= trades@.take(i as int));
            assert(trades@.take(i + 1).last() == t);
            let takes_our_side = match side {
                Side::Buy => t.is_buyer_maker,
                Side::Sell => !t.is_buyer_maker,
            };
            if price_reaches(side, t.price.get(), limit) && takes_our_side {
                let more = t.quantity.get();
                proof {
                    use_type_invariant(&more);
                    if exact {
                        lemma_next_adds(order, trades@, i as int, taken);
                    }
                }
                taken = taken.plus(more);
                proof {
                    use_type_invariant(&taken);
                }
                assert(taken == consumed(order, trades@.take(i + 1)));
                if taken > self.queue_ahead {
                    assert(consumes(order, trades@[(i + 1) - 1]));
                    proof {
                        if exact {
                            lemma_first_trades(order, trades@, i + 1);
                        }
                    }
                    return FillOutcome::Full { price: limit };
                }
            }
        }
        assert(trades@.take(trades@.len() as int) =~= trades@);
        FillOutcome::Unfilled
    }
}

/// A model that is chosen by its name.
pub enum NamedModel {
    M0(M0WickTouchFull),
    M1(M1TradeThroughQueue),
}

impl FillModel for NamedModel {
    open spec fn outcome(&self, ctx: ContextModel) -> FillOutcome {
        match self {
            NamedModel::M0(m) => m.outcome(ctx),
            NamedModel::M1(m) => m.outcome(ctx),
        }
    }

    open spec fn label(&self) -> Seq<char> {
        match self {
            NamedModel::M0(m) => m.label(),
            NamedModel::M1(m) => m.label(),
        }
    }

    open spec fn stance(&self) -> Optimism {
        match self {
            NamedModel::M0(m) => m.stance(),
            NamedModel::M1(m) => m.stance(),
        }
    }

    fn name(&self) -> (r: &'static str) {
        match self {
            NamedModel::M0(m) => m.name(),
            NamedModel::M1(m) => m.name(),
        }
    }

    fn data_requirements(&self) -> (r: &'static str)
        ensures
            r@ == (match self {
                NamedModel::M0(_) => "1m OHLCV"@,
                NamedModel::M1(_) => "1m OHLCV + aggTrades（逐笔成交）"@,
            }),
    {
        match self {
            NamedModel::M0(m) => m.data_requirements(),
            NamedModel::M1(m) => m.data_requirements(),
        }
    }

    fn optimism(&self) -> (r: Optimism) {
        match self {
            NamedModel::M0(m) => m.optimism(),
            NamedModel::M1(m) => m.optimism(),
        }
    }

    fn evaluate(&self, ctx: &FillContext<'_>) -> (r: FillOutcome) {
        match self {
            NamedModel::M0(m) => m.evaluate(ctx),
            NamedModel::M1(m) => m.evaluate(ctx),
        }
    }
}

/// The model of a name: `m0` or `m1`, in either case.
pub fn model_by_name(name: &str) -> (r: Option<NamedModel>)
    ensures
        match r {
            Some(NamedModel::M0(_)) => name@ == "m0"@ || name@ == "M0"@,
            Some(NamedModel::M1(m)) => (name@ == "m1"@ || name@ == "M1"@) && m.queue_ahead
                == Decimal::whole(0),
            None => name@ != "m0"@ && name@ != "M0"@ && name@ != "m1"@ && name@ != "M1"@,
        },
{
    if same_text(name, "m0") || same_text(name, "M0") {
        Some(NamedModel::M0(M0WickTouchFull))
    } else if same_text(name, "m1") || same_text(name, "M1") {
        Some(NamedModel::M1(M1TradeThroughQueue::default()))
    } else {
        None
    }
}

/// The names of the models.
pub const MODEL_NAMES: [&'static str; 2] = ["m0", "m1"];

/// The optimistic model is an upper bound: whatever the honest model fills, it fills, at the
/// same price.
pub proof fn law_touch_is_an_upper_bound(
    m0: M0WickTouchFull,
    m1: M1TradeThroughQueue,
    ctx: ContextModel,
)
    requires
        !(m1.outcome(ctx) is Unfilled),
    ensures
        m0.outcome(ctx) == m1.outcome(ctx),
{
    let order = ctx.order;
    let trades = ctx.trades;
    let n = choose|n: int|
        0 < n <= trades.len() && consumes(order, trades[n - 1]) && (#[trigger] consumed(
            order,
            trades.take(n),
        ))@ > m1.queue_ahead@;
    assert(reaches(order.side, trades[n - 1].price.0, order.limit_price.0));
}

/// Without trades nothing is filled, and trades that take the other side of the book fill
/// nothing in the honest model.
pub proof fn law_only_the_right_side_fills(m1: M1TradeThroughQueue, ctx: ContextModel)
    requires
        forall|i: int|
            0 <= i < ctx.trades.len() ==> !takes(ctx.order.side, #[trigger] ctx.trades[i]),
    ensures
        m1.outcome(ctx) is Unfilled,
{
}

/// A fill is at the order's own price: neither model improves on it.
pub proof fn law_fills_are_at_the_limit(
    m0: M0WickTouchFull,
    m1: M1TradeThroughQueue,
    ctx: ContextModel,
    fallback: Decimal,
)
    ensures
        !(m0.outcome(ctx) is Unfilled) ==> m0.outcome(ctx).price_else(fallback)
            == ctx.order.limit_price.0,
        !(m1.outcome(ctx) is Unfilled) ==> m1.outcome(ctx).price_else(fallback)
            == ctx.order.limit_price.0,
{
}

/// A price reaches a buying order at or below its limit, and a selling order at or above it.
pub proof fn law_prices_reach_from_the_other_side(side: Side, price: Decimal, limit: Decimal)
    ensures
        reaches(side, price, limit) <==> side.sign() * price@ <= side.sign() * limit@,
        reaches(side, limit, limit),
{
}

/// A buying order is taken by trades in which the buyer rested, a selling order by the others: no
/// trade takes both sides of the book, and each takes one.
pub proof fn law_trades_take_one_side(t: Trade)
    ensures
        takes(Side::Buy, t) <==> t.is_buyer_maker,
        takes(Side::Sell, t) <==> !t.is_buyer_maker,
        takes(Side::Buy, t) != takes(Side::Sell, t),
{
}

/// The optimistic model fills an order, in full and at its limit, exactly where some trade was at
/// its limit or better for it; which side drove the trade does not matter.
pub proof fn law_touch_fills_at_the_first_touch(m0: M0WickTouchFull, ctx: ContextModel)
    ensures
        m0.outcome(ctx) is Unfilled <==> forall|i: int|
            0 <= i < ctx.trades.len() ==> ctx.order.side.sign() * (#[trigger] ctx.trades[i]).price.0@
                > ctx.order.side.sign() * ctx.order.limit_price.0@,
        !(m0.outcome(ctx) is Unfilled) ==> m0.outcome(ctx) == (FillOutcome::Full {
            price: ctx.order.limit_price.0,
        }),
{
    if touched(ctx.order, ctx.trades) {
        let i = choose|i: int|
            0 <= i < ctx.trades.len() && reaches(
                ctx.order.side,
                (#[trigger] ctx.trades[i]).price.0,
                ctx.order.limit_price.0,
            );
        assert(!(ctx.order.side.sign() * ctx.trades[i].price.0@ > ctx.order.side.sign()
            * ctx.order.limit_price.0@));
    } else {
        assert forall|i: int| 0 <= i < ctx.trades.len() implies ctx.order.side.sign() * (
        #[trigger] ctx.trades[i]).price.0@ > ctx.order.side.sign() * ctx.order.limit_price.0@ by {
            assert(!reaches(
                ctx.order.side,
                ctx.trades[i].price.0,
                ctx.order.limit_price.0,
            ));
        }
    }
}

/// More trades never undo a fill, and a shorter queue never does: an order that the honest model
/// fills is filled as well when trades follow, or less stood ahead of it.
pub proof fn law_fills_are_never_undone(
    m1: M1TradeThroughQueue,
    shorter: M1TradeThroughQueue,
    ctx: ContextModel,
    more: Seq<Trade>,
)
    requires
        !(m1.outcome(ctx) is Unfilled),
        shorter.queue_ahead@ <= m1.queue_ahead@,
    ensures
        !(m1.outcome(ContextModel { trades: ctx.trades + more, ..ctx }) is Unfilled),
        !(shorter.outcome(ctx) is Unfilled),
{
    let order = ctx.order;
    let trades = ctx.trades;
    let n = choose|n: int|
        0 < n <= trades.len() && consumes(order, trades[n - 1]) && (#[trigger] consumed(
            order,
            trades.take(n),
        ))@ > m1.queue_ahead@;
    let all = trades + more;
    assert(all.take(n) =~= trades.take(n));
    assert(all[n - 1] == trades[n - 1]);
    assert(consumed(order, all.take(n))@ > m1.queue_ahead@);
    assert(consumed(order, trades.take(n))@ > shorter.queue_ahead@);
}

} // verus!
