//! Orders, their life cycle, and what the life cycle asks to be done.

use vstd::prelude::*;
use crate::clock::Timestamp;
use crate::decimal::Decimal;
use crate::error::RejectReason;
use crate::money::{Price, Qty};
use crate::text::{joined3, joined5, u64_text};

verus! {

/// The direction of an order.
#[derive(Clone, Copy, Debug, PartialEq, Eq, Hash, Structural)]
pub enum Side {
    Buy,
    Sell,
}

impl Side {
    /// The other direction.
    pub open spec fn flipped(self) -> Side {
        match self {
            Side::Buy => Side::Sell,
            Side::Sell => Side::Buy,
        }
    }

    /// `1` for a side that earns as the price rises, `-1` for one that earns as it falls.
    pub open spec fn sign(self) -> int {
        if self is Buy {
            1
        } else {
            -1
        }
    }

    pub fn opposite(self) -> (r: Self)
        ensures
            r == self.flipped(),
            r.sign() == -self.sign(),
    {
        match self {
            Side::Buy => Side::Sell,
            Side::Sell => Side::Buy,
        }
    }
}

/// What an order is for.
#[derive(Clone, Copy, Debug, PartialEq, Eq, Hash, Structural)]
pub enum OrderPurpose {
    /// Opens a position.
    Entry,
    /// Takes profit; only ever reduces.
    TakeProfit,
    /// Stops a loss; only ever reduces.
    StopLoss,
}

impl OrderPurpose {
    /// Whether an order of this purpose may only reduce a position.
    pub open spec fn reduces(self) -> bool {
        !(self is Entry)
    }

    pub fn is_reduce_only(self) -> (r: bool)
        ensures
            r == self.reduces(),
    {
        matches!(self, OrderPurpose::TakeProfit | OrderPurpose::StopLoss)
    }

    pub fn is_entry(self) -> (r: bool)
        ensures
            r == (self is Entry),
    {
        matches!(self, OrderPurpose::Entry)
    }
}

/// The desk's own id of an order. The exchange keeps no trace of some refused orders, so this
/// id is the only one that follows an order all the way.
#[derive(Debug, PartialEq, Eq, PartialOrd, Ord, Hash)]
pub struct ClientOrderId(pub String);

impl View for ClientOrderId {
    type V = Seq<char>;

    open spec fn view(&self) -> Seq<char> {
        self.0@
    }
}

impl Clone for ClientOrderId {
    fn clone(&self) -> (r: Self)
        ensures
            r == *self,
    {
        ClientOrderId(self.0.clone())
    }
}

impl ClientOrderId {
    /// The text of the id with a given prefix and number.
    pub open spec fn numbered(prefix: Seq<char>, seq: nat) -> Seq<char> {
        prefix + ":"@ + crate::text::digits(seq)
    }

    /// The text of the id derived from another.
    pub open spec fn tagged(parent: Seq<char>, tag: Seq<char>) -> Seq<char> {
        parent + ":"@ + tag
    }

    pub fn new(prefix: &str, seq: u64) -> (r: Self)
        ensures
            r@ == Self::numbered(prefix@, seq as nat),
    {
        ClientOrderId(joined3(prefix, ":", u64_text(seq).as_str()))
    }

    /// The id of an order that belongs to this one, such as the stop of an entry.
    pub fn child(&self, tag: &str) -> (r: Self)
        ensures
            r@ == Self::tagged(self@, tag@),
    {
        ClientOrderId(joined3(self.0.as_str(), ":", tag))
    }

    pub fn as_str(&self) -> (r: &str)
        ensures
            r@ == self@,
    {
        self.0.as_str()
    }

    /// Whether two ids are the same.
    pub fn same(&self, other: &ClientOrderId) -> (r: bool)
        ensures
            r == (self@ == other@),
    {
        self.0 == other.0
    }
}

/// The next number of an order, held at the largest.
pub open spec fn next_seq(n: u64) -> u64 {
    if n == u64::MAX {
        n
    } else {
        (n + 1) as u64
    }
}

/// The next number of an order.
pub fn following(n: u64) -> (r: u64)
    ensures
        r == next_seq(n),
{
    if n == u64::MAX {
        n
    } else {
        n + 1
    }
}

/// A text ends in a colon and a tail without one in at most one way.
proof fn lemma_last_colon(p: Seq<char>, s: Seq<char>, q: Seq<char>, t: Seq<char>)
    requires
        ClientOrderId::tagged(p, s) == ClientOrderId::tagged(q, t),
        !s.contains(':'),
        !t.contains(':'),
    ensures
        p == q,
        s == t,
{
    reveal_strlit(":");
    let a = ClientOrderId::tagged(p, s);
    let b = ClientOrderId::tagged(q, t);
    assert(a.len() == p.len() + 1 + s.len() && b.len() == q.len() + 1 + t.len());
    assert(a[p.len() as int] == ':' && b[q.len() as int] == ':');
    if p.len() < q.len() {
        assert(a[q.len() as int] == s[q.len() - p.len() - 1]);
    } else if q.len() < p.len() {
        assert(b[p.len() as int] == t[p.len() - q.len() - 1]);
    }
    assert(p =~= a.subrange(0, p.len() as int));
    assert(q =~= b.subrange(0, q.len() as int));
    assert(s =~= a.subrange(a.len() - s.len(), a.len() as int));
    assert(t =~= b.subrange(b.len() - t.len(), b.len() as int));
}

/// Different prefixes or numbers give different ids.
pub proof fn law_ids_are_distinct(p: Seq<char>, m: nat, q: Seq<char>, n: nat)
    requires
        ClientOrderId::numbered(p, m) == ClientOrderId::numbered(q, n),
    ensures
        p == q,
        m == n,
{
    let s = crate::text::digits(m);
    let t = crate::text::digits(n);
    crate::text::lemma_digits_read_back(m);
    crate::text::lemma_digits_read_back(n);
    assert(!s.contains(':') && !t.contains(':'));
    lemma_last_colon(p, s, q, t);
}

/// Orders derived from different orders, or under different tags without a colon, have
/// different ids.
pub proof fn law_children_are_distinct(p: Seq<char>, s: Seq<char>, q: Seq<char>, t: Seq<char>)
    requires
        !s.contains(':'),
        !t.contains(':'),
        ClientOrderId::tagged(p, s) == ClientOrderId::tagged(q, t),
    ensures
        p == q,
        s == t,
{
    lemma_last_colon(p, s, q, t);
}

/// How long an order stands. Every order is post-only.
#[derive(Clone, Copy, Debug, PartialEq, Eq, Structural)]
pub enum TimeInForce {
    /// Until it is filled or cancelled.
    PostOnly,
    /// Until the deadline.
    PostOnlyGtd { deadline: Timestamp },
}

/// An order. It has no state of its own: states are kept by the life cycle.
#[derive(Debug, PartialEq, Eq)]
pub struct Order {
    pub client_id: ClientOrderId,
    pub symbol: String,
    pub purpose: OrderPurpose,
    pub side: Side,
    pub quantity: Qty,
    pub limit_price: Price,
    pub tif: TimeInForce,
    /// The entry that a reducing order belongs to; `None` for an entry.
    pub parent: Option<ClientOrderId>,
}

/// An [`Order`] with its texts as sequences of characters.
pub struct OrderModel {
    pub client_id: Seq<char>,
    pub symbol: Seq<char>,
    pub purpose: OrderPurpose,
    pub side: Side,
    pub quantity: Qty,
    pub limit_price: Price,
    pub tif: TimeInForce,
    pub parent: Option<Seq<char>>,
}

impl View for Order {
    type V = OrderModel;

    open spec fn view(&self) -> OrderModel {
        OrderModel {
            client_id: self.client_id@,
            symbol: self.symbol@,
            purpose: self.purpose,
            side: self.side,
            quantity: self.quantity,
            limit_price: self.limit_price,
            tif: self.tif,
            parent: match self.parent {
                Some(p) => Some(p@),
                None => None,
            },
        }
    }
}

/// A copy of an optional id.
pub fn clone_id(id: &Option<ClientOrderId>) -> (r: Option<ClientOrderId>)
    ensures
        r == *id,
{
    match id {
        Some(x) => Some(x.clone()),
        None => None,
    }
}

impl Clone for Order {
    fn clone(&self) -> (r: Self)
        ensures
            r == *self,
    {
        Order {
            client_id: self.client_id.clone(),
            symbol: self.symbol.clone(),
            purpose: self.purpose,
            side: self.side,
            quantity: self.quantity,
            limit_price: self.limit_price,
            tif: self.tif,
            parent: clone_id(&self.parent),
        }
    }
}

impl Order {
    pub fn reduce_only(&self) -> (r: bool)
        ensures
            r == self.purpose.reduces(),
    {
        self.purpose.is_reduce_only()
    }

    /// Whether the order has run out at `now`.
    pub open spec fn run_out(self, now: Timestamp) -> bool {
        match self.tif {
            TimeInForce::PostOnly => false,
            TimeInForce::PostOnlyGtd { deadline } => now >= deadline,
        }
    }

    pub fn expired_at(&self, now: Timestamp) -> (r: bool)
        ensures
            r == self.run_out(now),
    {
        match self.tif {
            TimeInForce::PostOnly => false,
            TimeInForce::PostOnlyGtd { deadline } => now >= deadline,
        }
    }
}

/// Where an order stands in its life.
#[derive(Debug, PartialEq, Eq)]
pub enum OrderState {
    /// Decided on, not yet sent.
    PendingSubmit,
    /// Resting at the exchange.
    Live,
    PartiallyFilled { filled: Qty, avg: Price },
    Filled { filled: Qty, avg: Price },
    /// Cancelled, perhaps after a partial fill.
    Cancelled { filled: Qty },
    Rejected { reason: RejectReason },
    /// Ran past its deadline.
    Expired,
    /// A request was sent at `since` and its outcome is not known. The order has to be looked
    /// up before anything is sent again under its id.
    Unknown { since: Timestamp, last_probe: Option<Timestamp> },
}

impl Clone for OrderState {
    fn clone(&self) -> (r: Self)
        ensures
            r == *self,
    {
        match self {
            OrderState::PendingSubmit => OrderState::PendingSubmit,
            OrderState::Live => OrderState::Live,
            OrderState::PartiallyFilled { filled, avg } => OrderState::PartiallyFilled {
                filled: *filled,
                avg: *avg,
            },
            OrderState::Filled { filled, avg } => OrderState::Filled {
                filled: *filled,
                avg: *avg,
            },
            OrderState::Cancelled { filled } => OrderState::Cancelled { filled: *filled },
            OrderState::Rejected { reason } => OrderState::Rejected { reason: reason.clone() },
            OrderState::Expired => OrderState::Expired,
            OrderState::Unknown { since, last_probe } => OrderState::Unknown {
                since: *since,
                last_probe: *last_probe,
            },
        }
    }
}

impl OrderState {
    /// Nothing more can happen to the order.
    pub open spec fn finished(self) -> bool {
        self is Filled || self is Cancelled || self is Rejected || self is Expired
    }

    /// The order may be resting at the exchange.
    pub open spec fn resting(self) -> bool {
        self is Live || self is PartiallyFilled || self is Unknown
    }

    /// The quantity filled so far.
    pub open spec fn filled(self) -> Qty {
        match self {
            OrderState::PartiallyFilled { filled, .. } => filled,
            OrderState::Filled { filled, .. } => filled,
            OrderState::Cancelled { filled } => filled,
            _ => Qty(Decimal::whole(0)),
        }
    }

    /// How a final state is named in a message; the others are not named.
    pub open spec fn shown(self) -> Seq<char> {
        match self {
            OrderState::Filled { filled, avg } => "Filled { filled: Qty("@ + filled.0.written()
                + "), avg: Price("@ + avg.0.written() + ") }"@,
            OrderState::Cancelled { filled } => "Cancelled { filled: Qty("@ + filled.0.written()
                + ") }"@,
            OrderState::Rejected { reason } => "Rejected { reason: "@ + reason.shown() + " }"@,
            OrderState::Expired => "Expired"@,
            _ => Seq::<char>::empty(),
        }
    }

    /// The name of a final state; empty for a state that is not final.
    pub fn name(&self) -> (r: String)
        ensures
            r@ == self.shown(),
    {
        match self {
            OrderState::Filled { filled, avg } => joined5(
                "Filled { filled: Qty(",
                filled.text().as_str(),
                "), avg: Price(",
                avg.text().as_str(),
                ") }",
            ),
            OrderState::Cancelled { filled } => joined3(
                "Cancelled { filled: Qty(",
                filled.text().as_str(),
                ") }",
            ),
            OrderState::Rejected { reason } => joined3(
                "Rejected { reason: ",
                reason.name().as_str(),
                " }",
            ),
            OrderState::Expired => "Expired".to_owned(),
            _ => String::new(),
        }
    }

    pub fn is_terminal(&self) -> (r: bool)
        ensures
            r == self.finished(),
    {
        matches!(
            self,
            OrderState::Filled { .. } | OrderState::Cancelled { .. } | OrderState::Rejected { .. }
                | OrderState::Expired
        )
    }

    pub fn is_open(&self) -> (r: bool)
        ensures
            r == self.resting(),
    {
        matches!(
            self,
            OrderState::Live | OrderState::PartiallyFilled { .. } | OrderState::Unknown { .. }
        )
    }

    pub fn filled_quantity(&self) -> (r: Qty)
        ensures
            r == self.filled(),
    {
        match self {
            OrderState::PartiallyFilled { filled, .. } => *filled,
            OrderState::Filled { filled, .. } => *filled,
            OrderState::Cancelled { filled } => *filled,
            _ => Qty::zero(),
        }
    }
}

/// No state is both final and open: an order that is done is not resting anywhere.
pub proof fn law_finished_orders_do_not_rest(s: OrderState)
    ensures
        !(s.finished() && s.resting()),
        !s.finished() && !s.resting() <==> s is PendingSubmit,
{
}

/// Why trading is held.
#[derive(Clone, Copy, Debug, PartialEq, Eq, Structural)]
pub enum HaltReason {
    /// Quotes are old: no new positions, existing protection goes on.
    StaleFeed,
    FeedDisconnected,
    PositionMismatch,
    UnresolvedOrders,
    RiskLimit,
    OperatorKill,
}

/// Something that has to be done outside.
#[derive(Debug, PartialEq, Eq)]
pub enum Effect {
    Submit(Box<Order>),
    Cancel(ClientOrderId),
    /// Look up an order of unknown state.
    Query(ClientOrderId),
    /// The state has changed and has to be stored.
    Persist,
    Halt(HaltReason),
    Alarm(Alarm),
}

/// Something an operator has to see.
#[derive(Debug, PartialEq, Eq)]
pub enum Alarm {
    /// A stop was not filled and the position is without protection.
    StopUnfilledExposure { order: ClientOrderId, since: Timestamp },
    /// An order has been unresolved for long.
    ReconcileTimeout { order: ClientOrderId, since: Timestamp },
    /// The fee rate is not the one that was assumed.
    FeeDrift { old: Decimal, new: Decimal },
}

/// An [`Effect`] with its texts as sequences of characters.
pub enum EffectModel {
    Submit(OrderModel),
    Cancel(Seq<char>),
    Query(Seq<char>),
    Persist,
    Halt(HaltReason),
    Alarm(AlarmModel),
}

/// An [`Alarm`] with its texts as sequences of characters.
pub enum AlarmModel {
    StopUnfilledExposure { order: Seq<char>, since: Timestamp },
    ReconcileTimeout { order: Seq<char>, since: Timestamp },
    FeeDrift { old: Decimal, new: Decimal },
}

impl View for Effect {
    type V = EffectModel;

    open spec fn view(&self) -> EffectModel {
        match *self {
            Effect::Submit(o) => EffectModel::Submit((*o)@),
            Effect::Cancel(id) => EffectModel::Cancel(id@),
            Effect::Query(id) => EffectModel::Query(id@),
            Effect::Persist => EffectModel::Persist,
            Effect::Halt(h) => EffectModel::Halt(h),
            Effect::Alarm(a) => EffectModel::Alarm(a@),
        }
    }
}

impl View for Alarm {
    type V = AlarmModel;

    open spec fn view(&self) -> AlarmModel {
        match *self {
            Alarm::StopUnfilledExposure { order, since } => AlarmModel::StopUnfilledExposure {
                order: order@,
                since,
            },
            Alarm::ReconcileTimeout { order, since } => AlarmModel::ReconcileTimeout {
                order: order@,
                since,
            },
            Alarm::FeeDrift { old, new } => AlarmModel::FeeDrift { old, new },
        }
    }
}

impl Effect {
    /// Several effects by their models.
    pub open spec fn models(s: Seq<Effect>) -> Seq<EffectModel> {
        s.map_values(|e: Effect| e@)
    }
}

/// An order is always in exactly one of three places: not sent yet, perhaps resting, or final. It may
/// rest while it is live, partly filled or of unknown outcome.
pub proof fn law_orders_are_in_one_place(s: OrderState)
    ensures
        s is PendingSubmit || s.resting() || s.finished(),
        !(s is PendingSubmit && s.resting()),
        !(s is PendingSubmit && s.finished()),
        !(s.resting() && s.finished()),
        s is Live || s is PartiallyFilled || s is Unknown ==> s.resting(),
        s is Filled || s is Cancelled || s is Rejected || s is Expired ==> s.finished(),
{
}

/// Only orders that were filled, wholly or in part, or cancelled can have a quantity filled, and it is
/// the one that their state names.
pub proof fn law_states_name_what_is_filled(s: OrderState)
    ensures
        s matches OrderState::PartiallyFilled { filled, .. } ==> s.filled() == filled,
        s matches OrderState::Filled { filled, .. } ==> s.filled() == filled,
        s matches OrderState::Cancelled { filled } ==> s.filled() == filled,
        s is PendingSubmit || s is Live || s is Rejected || s is Expired || s is Unknown
            ==> s.filled().0@ == 0,
{
    crate::decimal::lemma_of_parts(0, 0);
}

/// An order with a deadline has run out from its deadline on and not before; one without never does.
pub proof fn law_orders_run_out_at_their_deadline(o: Order, now: Timestamp, later: Timestamp)
    requires
        now <= later,
    ensures
        o.run_out(now) ==> o.run_out(later),
        o.tif is PostOnly ==> !o.run_out(now),
        o.tif matches TimeInForce::PostOnlyGtd { deadline } ==> o.run_out(deadline) && (now < deadline
            <==> !o.run_out(now)),
{
}

/// Numbers of orders go up by one until they are held at the largest.
pub proof fn law_order_numbers_go_up(n: u64)
    ensures
        n < u64::MAX ==> next_seq(n) == n + 1,
        n == u64::MAX ==> next_seq(n) == n,
{
}

} // verus!
