//! The life cycle of orders and positions: the one place that says which orders there are.
//!
//! Execution events move orders from state to state, keep positions and realised results, and
//! ask for effects that are carried out elsewhere.

use vstd::prelude::*;
use crate::clock::Timestamp;
use crate::decimal::Decimal;
use crate::error::{DomainError, Fault, RejectReason};
use crate::keyed::TextMap;
use crate::money::{Price, Qty};
use crate::order::{ClientOrderId, Effect, EffectModel, Order, OrderModel, OrderState, Side};
use crate::text::{joined, joined3, joined5};

verus! {

/// A fill, as the exchange or a fill model reports it.
#[derive(Debug, PartialEq, Eq)]
pub struct Fill {
    /// The exchange's id of the trade. One trade may be reported more than once.
    pub trade_id: String,
    pub client_id: ClientOrderId,
    pub quantity: Qty,
    pub price: Price,
    /// The fee with its sign: negative where it is paid.
    pub fee: Decimal,
    /// The asset that the fee is booked in.
    pub fee_asset: String,
    pub at: Timestamp,
}

/// A [`Fill`] with its texts as sequences of characters.
pub struct FillReport {
    pub trade_id: Seq<char>,
    pub client_id: Seq<char>,
    pub quantity: Qty,
    pub price: Price,
    pub fee: Decimal,
    pub fee_asset: Seq<char>,
    pub at: Timestamp,
}

impl View for Fill {
    type V = FillReport;

    open spec fn view(&self) -> FillReport {
        FillReport {
            trade_id: self.trade_id@,
            client_id: self.client_id@,
            quantity: self.quantity,
            price: self.price,
            fee: self.fee,
            fee_asset: self.fee_asset@,
            at: self.at,
        }
    }
}

/// Something that happened to an order.
#[derive(Debug, PartialEq, Eq)]
pub enum ExecEvent {
    /// The order is resting.
    Accepted { client_id: ClientOrderId, exchange_id: String },
    Rejected { client_id: ClientOrderId, reason: RejectReason },
    Filled(Fill),
    Cancelled { client_id: ClientOrderId, filled: Qty },
    Expired { client_id: ClientOrderId },
    /// What became of a request is not known.
    Unknown { client_id: ClientOrderId, at: Timestamp },
}

/// An [`ExecEvent`] with its texts as sequences of characters.
pub enum EventModel {
    Accepted { client_id: Seq<char>, exchange_id: Seq<char> },
    Rejected { client_id: Seq<char>, reason: RejectReason },
    Filled(FillReport),
    Cancelled { client_id: Seq<char>, filled: Qty },
    Expired { client_id: Seq<char> },
    Unknown { client_id: Seq<char>, at: Timestamp },
}

impl View for ExecEvent {
    type V = EventModel;

    open spec fn view(&self) -> EventModel {
        match *self {
            ExecEvent::Accepted { client_id, exchange_id } => EventModel::Accepted {
                client_id: client_id@,
                exchange_id: exchange_id@,
            },
            ExecEvent::Rejected { client_id, reason } => EventModel::Rejected {
                client_id: client_id@,
                reason,
            },
            ExecEvent::Filled(fill) => EventModel::Filled(fill@),
            ExecEvent::Cancelled { client_id, filled } => EventModel::Cancelled {
                client_id: client_id@,
                filled,
            },
            ExecEvent::Expired { client_id } => EventModel::Expired { client_id: client_id@ },
            ExecEvent::Unknown { client_id, at } => EventModel::Unknown {
                client_id: client_id@,
                at,
            },
        }
    }
}

/// An order with what is known of it.
#[derive(Debug, PartialEq, Eq)]
pub struct TrackedOrder {
    pub order: Order,
    pub state: OrderState,
    pub exchange_id: Option<String>,
    /// The quantity filled so far.
    pub filled: Qty,
    /// The average price of the fills, weighted by quantity.
    pub avg_price: Option<Price>,
    pub updated_at: Timestamp,
}

/// A [`TrackedOrder`] with its texts as sequences of characters.
pub struct TrackedModel {
    pub order: OrderModel,
    pub state: OrderState,
    pub exchange_id: Option<Seq<char>>,
    pub filled: Qty,
    pub avg_price: Option<Price>,
    pub updated_at: Timestamp,
}

impl View for TrackedOrder {
    type V = TrackedModel;

    open spec fn view(&self) -> TrackedModel {
        TrackedModel {
            order: self.order@,
            state: self.state,
            exchange_id: match self.exchange_id {
                Some(s) => Some(s@),
                None => None,
            },
            filled: self.filled,
            avg_price: self.avg_price,
            updated_at: self.updated_at,
        }
    }
}

impl TrackedOrder {
    /// Several orders by their models.
    pub open spec fn models(s: Seq<&TrackedOrder>) -> Seq<TrackedModel> {
        s.map_values(|t: &TrackedOrder| (*t)@)
    }
}

impl Clone for TrackedOrder {
    fn clone(&self) -> (r: Self)
        ensures
            r == *self,
    {
        TrackedOrder {
            order: self.order.clone(),
            state: self.state.clone(),
            exchange_id: match &self.exchange_id {
                Some(s) => Some(s.clone()),
                None => None,
            },
            filled: self.filled,
            avg_price: self.avg_price,
            updated_at: self.updated_at,
        }
    }
}

/// A position.
#[derive(Debug, PartialEq, Eq)]
pub struct Position {
    pub symbol: String,
    pub side: Side,
    pub quantity: Qty,
    pub entry_price: Price,
    pub opened_at: Timestamp,
    /// The stop in force.
    pub stop_price: Option<Price>,
}

/// A [`Position`] with its symbol as a sequence of characters.
pub struct PositionModel {
    pub symbol: Seq<char>,
    pub side: Side,
    pub quantity: Qty,
    pub entry_price: Price,
    pub opened_at: Timestamp,
    pub stop_price: Option<Price>,
}

impl View for Position {
    type V = PositionModel;

    open spec fn view(&self) -> PositionModel {
        PositionModel {
            symbol: self.symbol@,
            side: self.side,
            quantity: self.quantity,
            entry_price: self.entry_price,
            opened_at: self.opened_at,
            stop_price: self.stop_price,
        }
    }
}

impl Clone for Position {
    fn clone(&self) -> (r: Self)
        ensures
            r == *self,
    {
        Position {
            symbol: self.symbol.clone(),
            side: self.side,
            quantity: self.quantity,
            entry_price: self.entry_price,
            opened_at: self.opened_at,
            stop_price: self.stop_price,
        }
    }
}

impl Position {
    /// The word for the side of a position in order ids.
    pub open spec fn side_word(&self) -> Seq<char> {
        match self.side {
            Side::Buy => "long"@,
            Side::Sell => "short"@,
        }
    }

    pub fn side_stable_tag(&self) -> (r: &'static str)
        ensures
            r@ == self.side_word(),
    {
        match self.side {
            Side::Buy => "long",
            Side::Sell => "short",
        }
    }
}

/// What looking up an order found.
#[derive(Debug, PartialEq, Eq)]
pub enum QueryOutcome {
    StillOpen { exchange_id: String },
    Filled { filled: Qty, avg: Price },
    Cancelled { filled: Qty },
    /// The exchange does not know the order.
    NotFound,
}

/// A [`QueryOutcome`] with its texts as sequences of characters.
pub enum LookupModel {
    StillOpen { exchange_id: Seq<char> },
    Filled { filled: Qty, avg: Price },
    Cancelled { filled: Qty },
    NotFound,
}

impl View for QueryOutcome {
    type V = LookupModel;

    open spec fn view(&self) -> LookupModel {
        match *self {
            QueryOutcome::StillOpen { exchange_id } => LookupModel::StillOpen {
                exchange_id: exchange_id@,
            },
            QueryOutcome::Filled { filled, avg } => LookupModel::Filled { filled, avg },
            QueryOutcome::Cancelled { filled } => LookupModel::Cancelled { filled },
            QueryOutcome::NotFound => LookupModel::NotFound,
        }
    }
}

/// Orders, positions and results as mathematical maps.
pub struct BookModel {
    /// Every order under its id.
    pub orders: Map<Seq<char>, TrackedModel>,
    /// The open positions under their symbols.
    pub positions: Map<Seq<char>, PositionModel>,
    /// The trades that have been booked.
    pub seen: Set<Seq<char>>,
    /// The realised result of each asset.
    pub realized: Map<Seq<char>, Decimal>,
}

/// What an operation answers: effects, or the fault that it ended in.
pub type Answer = Result<Seq<EffectModel>, Fault>;

/// Whether an executable answer is the one that is specified.
pub open spec fn answers(r: Result<Vec<Effect>, DomainError>, a: Answer) -> bool {
    match r {
        Ok(v) => a == Ok::<Seq<EffectModel>, Fault>(Effect::models(v@)),
        Err(e) => a == Err::<Seq<EffectModel>, Fault>(e@),
    }
}

/// The answer that asks for the state to be stored.
fn persist() -> (r: Vec<Effect>)
    ensures
        Effect::models(r@) == seq![EffectModel::Persist],
{
    let v = vec![Effect::Persist];
    assert(Effect::models(v@) =~= seq![EffectModel::Persist]);
    v
}

impl TrackedModel {
    /// An order in another state.
    pub open spec fn moved(self, state: OrderState, now: Timestamp) -> TrackedModel {
        TrackedModel { state, updated_at: now, ..self }
    }

    /// The average price after one more fill; `None` while nothing is filled.
    pub open spec fn average_with(self, price: Price, quantity: Qty) -> Option<Price> {
        let total = self.filled.0.sum(quantity.0);
        let before = match self.avg_price {
            Some(p) => p.0.prod(self.filled.0),
            None => Decimal::whole(0),
        };
        if total@ == 0 {
            None
        } else {
            Some(Price(before.sum(price.0.prod(quantity.0)).per(total)))
        }
    }

    /// An order after one more fill.
    pub open spec fn with_fill(self, price: Price, quantity: Qty, now: Timestamp) -> TrackedModel {
        let filled = Qty(self.filled.0.sum(quantity.0));
        let avg_price = self.average_with(price, quantity);
        let avg = match avg_price {
            Some(p) => p,
            None => price,
        };
        TrackedModel {
            filled,
            avg_price,
            state: if filled.0@ == self.order.quantity.0@ {
                OrderState::Filled { filled, avg }
            } else {
                OrderState::PartiallyFilled { filled, avg }
            },
            updated_at: now,
            ..self
        }
    }
}

impl PositionModel {
    /// A position after more of the same side was bought or sold.
    pub open spec fn extended(self, price: Price, quantity: Qty) -> PositionModel {
        let total = self.quantity.0.sum(quantity.0);
        PositionModel {
            entry_price: if total@ == 0 {
                self.entry_price
            } else {
                Price(
                    self.entry_price.0.prod(self.quantity.0).sum(price.0.prod(quantity.0)).per(
                        total,
                    ),
                )
            },
            quantity: Qty(total),
            ..self
        }
    }
}

impl BookModel {
    /// Nothing at all.
    pub open spec fn empty() -> BookModel {
        BookModel {
            orders: Map::empty(),
            positions: Map::empty(),
            seen: Set::empty(),
            realized: Map::empty(),
        }
    }

    /// The result of an asset, zero where nothing was booked.
    pub open spec fn result_of(self, asset: Seq<char>) -> Decimal {
        if self.realized.dom().contains(asset) {
            self.realized[asset]
        } else {
            Decimal::whole(0)
        }
    }

    /// With an order in place of the one under the same id.
    pub open spec fn put(self, id: Seq<char>, t: TrackedModel) -> BookModel {
        BookModel { orders: self.orders.insert(id, t), ..self }
    }

    /// An order that nothing is known of yet.
    pub open spec fn fresh(order: OrderModel, now: Timestamp) -> TrackedModel {
        TrackedModel {
            order,
            state: OrderState::PendingSubmit,
            exchange_id: None,
            filled: Qty(Decimal::whole(0)),
            avg_price: None,
            updated_at: now,
        }
    }

    /// After an order is registered.
    pub open spec fn registered(self, order: OrderModel, now: Timestamp) -> (BookModel, Result<
        (),
        Fault,
    >) {
        if self.orders.dom().contains(order.client_id) {
            (
                self,
                Err(
                    Fault::IllegalTransition(
                        "订单 "@ + order.client_id + " 已登记，禁止重复登记"@,
                    ),
                ),
            )
        } else {
            (self.put(order.client_id, Self::fresh(order, now)), Ok(()))
        }
    }

    /// Why an order that is final is not moved.
    pub open spec fn settled(self, id: Seq<char>) -> Fault {
        Fault::IllegalTransition(
            "订单 "@ + id + " 已处于终态 "@ + self.orders[id].state.shown() + "，不再变化"@,
        )
    }

    /// After one order was to be moved to another state. An order that is final stays as it is.
    pub open spec fn with_state(
        self,
        id: Seq<char>,
        t: TrackedModel,
        effects: Seq<EffectModel>,
    ) -> (BookModel, Answer) {
        if !self.orders.dom().contains(id) {
            (self, Err(Fault::UnknownReference(id)))
        } else if self.orders[id].state.finished() {
            (self, Err(self.settled(id)))
        } else {
            (self.put(id, t), Ok(effects))
        }
    }

    /// After an execution event.
    pub open spec fn applied(self, event: EventModel, now: Timestamp) -> (BookModel, Answer) {
        match event {
            EventModel::Accepted { client_id, exchange_id } => {
                let t = self.orders[client_id];
                if self.orders.dom().contains(client_id) && t.state.finished() {
                    (
                        self,
                        Err(
                            Fault::IllegalTransition(
                                "订单 "@ + client_id + " 已处于终态 "@ + t.state.shown()
                                    + "，不能再被接受"@,
                            ),
                        ),
                    )
                } else {
                    self.with_state(
                        client_id,
                        TrackedModel {
                            exchange_id: Some(exchange_id),
                            ..t.moved(OrderState::Live, now)
                        },
                        seq![EffectModel::Persist],
                    )
                }
            },
            EventModel::Rejected { client_id, reason } => self.with_state(
                client_id,
                self.orders[client_id].moved(OrderState::Rejected { reason }, now),
                seq![EffectModel::Persist],
            ),
            EventModel::Filled(fill) => self.filled(fill, now),
            EventModel::Cancelled { client_id, filled } => self.with_state(
                client_id,
                TrackedModel {
                    filled,
                    ..self.orders[client_id].moved(OrderState::Cancelled { filled }, now)
                },
                seq![EffectModel::Persist],
            ),
            EventModel::Expired { client_id } => self.with_state(
                client_id,
                self.orders[client_id].moved(OrderState::Expired, now),
                seq![EffectModel::Persist],
            ),
            EventModel::Unknown { client_id, at } => self.with_state(
                client_id,
                self.orders[client_id].moved(
                    OrderState::Unknown { since: at, last_probe: None },
                    now,
                ),
                seq![EffectModel::Persist, EffectModel::Query(client_id)],
            ),
        }
    }

    /// After a fill. A trade that has been booked changes nothing; a fill beyond the order's
    /// quantity is refused.
    pub open spec fn filled(self, fill: FillReport, now: Timestamp) -> (BookModel, Answer) {
        let id = fill.client_id;
        let noted = BookModel { seen: self.seen.insert(fill.trade_id), ..self };
        let t = self.orders[id];
        let total = t.filled.0.sum(fill.quantity.0);
        if self.seen.contains(fill.trade_id) {
            (self, Ok(Seq::<EffectModel>::empty()))
        } else if !self.orders.dom().contains(id) {
            (noted, Err(Fault::UnknownReference(id)))
        } else if total@ > t.order.quantity.0@ {
            (
                noted,
                Err(
                    Fault::IllegalTransition(
                        "订单 "@ + id + " 累计成交量 "@ + total.written() + " 超过下单量 "@
                            + t.order.quantity.0.written(),
                    ),
                ),
            )
        } else {
            let booked = BookModel {
                realized: noted.realized.insert(
                    fill.fee_asset,
                    self.result_of(fill.fee_asset).sum(fill.fee),
                ),
                ..noted.put(id, t.with_fill(fill.price, fill.quantity, now))
            };
            if t.order.purpose is Entry {
                (
                    booked.opened(t.order, fill.price, fill.quantity, now),
                    Ok(seq![EffectModel::Persist]),
                )
            } else {
                booked.reduced(t.order, fill.quantity)
            }
        }
    }

    /// After a fill of an entry: a new position, or more of the one there is. A fill against the
    /// position that is open changes nothing.
    pub open spec fn opened(
        self,
        order: OrderModel,
        price: Price,
        quantity: Qty,
        now: Timestamp,
    ) -> BookModel {
        let symbol = order.symbol;
        if !self.positions.dom().contains(symbol) {
            BookModel {
                positions: self.positions.insert(
                    symbol,
                    PositionModel {
                        symbol: order.symbol,
                        side: order.side,
                        quantity,
                        entry_price: price,
                        opened_at: now,
                        stop_price: None,
                    },
                ),
                ..self
            }
        } else if self.positions[symbol].side == order.side {
            BookModel {
                positions: self.positions.insert(
                    symbol,
                    self.positions[symbol].extended(price, quantity),
                ),
                ..self
            }
        } else {
            self
        }
    }

    /// After a fill of a reducing order. It never opens a position.
    pub open spec fn reduced(self, order: OrderModel, quantity: Qty) -> (BookModel, Answer) {
        let symbol = order.symbol;
        if !self.positions.dom().contains(symbol) {
            (
                self,
                Err(
                    Fault::UnknownReference(
                        "平仓单 "@ + symbol + " 成交但本地无持仓，状态不一致"@,
                    ),
                ),
            )
        } else if self.positions[symbol].side == order.side {
            (
                self,
                Err(
                    Fault::IllegalTransition(
                        "平仓单方向与持仓方向相同（"@ + symbol + "），会导致反向开仓"@,
                    ),
                ),
            )
        } else {
            let left = Qty(self.positions[symbol].quantity.0.less(quantity.0));
            (
                BookModel {
                    positions: if left.0@ == 0 {
                        self.positions.remove(symbol)
                    } else {
                        self.positions.insert(
                            symbol,
                            PositionModel { quantity: left, ..self.positions[symbol] },
                        )
                    },
                    ..self
                },
                Ok(seq![EffectModel::Persist]),
            )
        }
    }

    /// After an order was looked up.
    pub open spec fn resolved(self, id: Seq<char>, outcome: LookupModel, now: Timestamp) -> (
        BookModel,
        Answer,
    ) {
        let t = self.orders[id];
        let found = match outcome {
            LookupModel::StillOpen { exchange_id } => TrackedModel {
                exchange_id: Some(exchange_id),
                ..t.moved(OrderState::Live, now)
            },
            LookupModel::Filled { filled, avg } => TrackedModel {
                filled,
                avg_price: Some(avg),
                ..t.moved(OrderState::Filled { filled, avg }, now)
            },
            LookupModel::Cancelled { filled } => TrackedModel {
                filled,
                ..t.moved(OrderState::Cancelled { filled }, now)
            },
            LookupModel::NotFound => t.moved(OrderState::Cancelled { filled: t.filled }, now),
        };
        self.with_state(id, found, seq![EffectModel::Persist])
    }
}

/// The life cycle of orders and positions.
#[derive(Debug)]
pub struct OrderBookState {
    orders: TextMap<TrackedOrder>,
    positions: TextMap<Position>,
    seen_fills: TextMap<()>,
    realized_pnl: TextMap<Decimal>,
}

impl View for OrderBookState {
    type V = BookModel;

    closed spec fn view(&self) -> BookModel {
        BookModel {
            orders: self.orders@.map_values(|t: TrackedOrder| t@),
            positions: self.positions@.map_values(|p: Position| p@),
            seen: self.seen_fills@.dom(),
            realized: self.realized_pnl@,
        }
    }
}

impl OrderBookState {
    /// Every order stands under its own id, and every position under its own symbol.
    pub closed spec fn wf(&self) -> bool {
        &&& self.orders.wf()
        &&& self.positions.wf()
        &&& self.seen_fills.wf()
        &&& self.realized_pnl.wf()
        &&& forall|id: Seq<char>| #[trigger]
            self.orders@.dom().contains(id) ==> self.orders@[id].order.client_id@ == id
        &&& forall|s: Seq<char>| #[trigger]
            self.positions@.dom().contains(s) ==> self.positions@[s].symbol@ == s
    }

    pub fn new() -> (r: Self)
        ensures
            r.wf(),
            r@ == BookModel::empty(),
    {
        let r = OrderBookState {
            orders: TextMap::new(),
            positions: TextMap::new(),
            seen_fills: TextMap::new(),
            realized_pnl: TextMap::new(),
        };
        assert(r@.seen =~= Set::<Seq<char>>::empty());
        assert(r@.orders =~= Map::<Seq<char>, TrackedModel>::empty());
        assert(r@.positions =~= Map::<Seq<char>, PositionModel>::empty());
        r
    }

    /// Registers an order before it is sent.
    pub fn register(&mut self, order: Order, now: Timestamp) -> (r: Result<(), DomainError>)
        requires
            old(self).wf(),
        ensures
            final(self).wf(),
            final(self)@ == old(self)@.registered(order@, now).0,
            match r {
                Ok(_) => old(self)@.registered(order@, now).1 is Ok,
                Err(e) => old(self)@.registered(order@, now).1 == Err::<(), Fault>(e@),
            },
    {
        if self.orders.contains(order.client_id.as_str()) {
            return Err(
                DomainError::IllegalTransition(
                    joined3("订单 ", order.client_id.as_str(), " 已登记，禁止重复登记"),
                ),
            );
        }
        let id = order.client_id.clone();
        self.put(
            &id,
            TrackedOrder {
                order,
                state: OrderState::PendingSubmit,
                exchange_id: None,
                filled: Qty::zero(),
                avg_price: None,
                updated_at: now,
            },
        );
        Ok(())
    }

    /// Puts an order back under its id.
    fn put(&mut self, id: &ClientOrderId, t: TrackedOrder)
        requires
            old(self).wf(),
            t.order.client_id@ == id@,
        ensures
            final(self).wf(),
            final(self)@ == old(self)@.put(id@, t@),
    {
        let key = id.0.clone();
        self.orders.insert(key, t);
        assert(self@.orders =~= old(self)@.orders.insert(id@, t@));
    }

    /// Puts a position under its symbol.
    fn put_position(&mut self, p: Position)
        requires
            old(self).wf(),
        ensures
            final(self).wf(),
            final(self)@ == (BookModel {
                positions: old(self)@.positions.insert(p.symbol@, p@),
                ..old(self)@
            }),
    {
        let symbol = p.symbol.clone();
        self.positions.insert(symbol, p);
        assert(self@.positions =~= old(self)@.positions.insert(p.symbol@, p@));
    }

    /// The order under an id.
    fn lookup(&self, id: &ClientOrderId) -> (r: Result<TrackedOrder, DomainError>)
        requires
            self.wf(),
        ensures
            match r {
                Ok(t) => self@.orders.dom().contains(id@) && t@ == self@.orders[id@]
                    && t.order.client_id@ == id@,
                Err(e) => !self@.orders.dom().contains(id@) && e@ == Fault::UnknownReference(id@),
            },
    {
        match self.orders.get(id.as_str()) {
            Some(t) => Ok(t.clone()),
            None => Err(DomainError::UnknownReference(id.0.clone())),
        }
    }

    /// The order under an id, unless it is final.
    fn lookup_unsettled(&self, id: &ClientOrderId) -> (r: Result<TrackedOrder, DomainError>)
        requires
            self.wf(),
        ensures
            match r {
                Ok(t) => self@.orders.dom().contains(id@) && t@ == self@.orders[id@]
                    && t.order.client_id@ == id@ && !t.state.finished(),
                Err(e) => if self@.orders.dom().contains(id@) {
                    self@.orders[id@].state.finished() && e@ == self@.settled(id@)
                } else {
                    e@ == Fault::UnknownReference(id@)
                },
            },
    {
        let t = match self.lookup(id) {
            Ok(t) => t,
            Err(e) => return Err(e),
        };
        if t.state.is_terminal() {
            return Err(
                DomainError::IllegalTransition(
                    joined5(
                        "订单 ",
                        id.as_str(),
                        " 已处于终态 ",
                        t.state.name().as_str(),
                        "，不再变化",
                    ),
                ),
            );
        }
        Ok(t)
    }

    /// Applies an execution event. Only a fill is booked on an order that is final.
    pub fn apply(&mut self, event: ExecEvent, now: Timestamp) -> (r: Result<
        Vec<Effect>,
        DomainError,
    >)
        requires
            old(self).wf(),
        ensures
            final(self).wf(),
            final(self)@ == old(self)@.applied(event@, now).0,
            answers(r, old(self)@.applied(event@, now).1),
    {
        match event {
            ExecEvent::Accepted { client_id, exchange_id } => {
                let mut t = match self.lookup(&client_id) {
                    Ok(t) => t,
                    Err(e) => return Err(e),
                };
                if t.state.is_terminal() {
                    return Err(
                        DomainError::IllegalTransition(
                            joined5(
                                "订单 ",
                                client_id.as_str(),
                                " 已处于终态 ",
                                t.state.name().as_str(),
                                "，不能再被接受",
                            ),
                        ),
                    );
                }
                t.exchange_id = Some(exchange_id);
                t.state = OrderState::Live;
                t.updated_at = now;
                self.put(&client_id, t);
                Ok(persist())
            },
            ExecEvent::Rejected { client_id, reason } => {
                let mut t = match self.lookup_unsettled(&client_id) {
                    Ok(t) => t,
                    Err(e) => return Err(e),
                };
                t.state = OrderState::Rejected { reason };
                t.updated_at = now;
                self.put(&client_id, t);
                Ok(persist())
            },
            ExecEvent::Filled(fill) => self.apply_fill(fill, now),
            ExecEvent::Cancelled { client_id, filled } => {
                let mut t = match self.lookup_unsettled(&client_id) {
                    Ok(t) => t,
                    Err(e) => return Err(e),
                };
                t.filled = filled;
                t.state = OrderState::Cancelled { filled };
                t.updated_at = now;
                self.put(&client_id, t);
                Ok(persist())
            },
            ExecEvent::Expired { client_id } => {
                let mut t = match self.lookup_unsettled(&client_id) {
                    Ok(t) => t,
                    Err(e) => return Err(e),
                };
                t.state = OrderState::Expired;
                t.updated_at = now;
                self.put(&client_id, t);
                Ok(persist())
            },
            ExecEvent::Unknown { client_id, at } => {
                let mut t = match self.lookup_unsettled(&client_id) {
                    Ok(t) => t,
                    Err(e) => return Err(e),
                };
                t.state = OrderState::Unknown { since: at, last_probe: None };
                t.updated_at = now;
                self.put(&client_id, t);
                let ghost id = client_id@;
                let effects = vec![Effect::Persist, Effect::Query(client_id)];
                assert(Effect::models(effects@) =~= seq![
                    EffectModel::Persist,
                    EffectModel::Query(id),
                ]);
                Ok(effects)
            },
        }
    }

    /// Books a fill.
    fn apply_fill(&mut self, fill: Fill, now: Timestamp) -> (r: Result<Vec<Effect>, DomainError>)
        requires
            old(self).wf(),
        ensures
            final(self).wf(),
            final(self)@ == old(self)@.filled(fill@, now).0,
            answers(r, old(self)@.filled(fill@, now).1),
    {
        let ghost start = self@;
        if self.seen_fills.contains(fill.trade_id.as_str()) {
            let none: Vec<Effect> = Vec::new();
            assert(Effect::models(none@) =~= Seq::<EffectModel>::empty());
            return Ok(none);
        }
        let trade = fill.trade_id.clone();
        self.seen_fills.insert(trade, ());
        assert(self@.seen =~= start.seen.insert(fill.trade_id@));
        let mut t = match self.lookup(&fill.client_id) {
            Ok(t) => t,
            Err(e) => return Err(e),
        };
        let order = t.order.clone();
        let new_filled = t.filled + fill.quantity;
        if new_filled.get() > order.quantity.get() {
            return Err(
                DomainError::IllegalTransition(
                    joined(
                        joined5(
                            "订单 ",
                            fill.client_id.as_str(),
                            " 累计成交量 ",
                            new_filled.text().as_str(),
                            " 超过下单量 ",
                        ).as_str(),
                        order.quantity.text().as_str(),
                    ),
                ),
            );
        }
        let prev_notional = match t.avg_price {
            Some(p) => p.get() * t.filled.get(),
            None => Decimal::zero(),
        };
        let new_notional = prev_notional + fill.price.get() * fill.quantity.get();
        let avg_price = if new_filled.is_zero() {
            None
        } else {
            Some(Price::new(new_notional / new_filled.get()))
        };
        let avg = match avg_price {
            Some(p) => p,
            None => fill.price,
        };
        t.filled = new_filled;
        t.avg_price = avg_price;
        t.state = if new_filled.get() == order.quantity.get() {
            OrderState::Filled { filled: new_filled, avg }
        } else {
            OrderState::PartiallyFilled { filled: new_filled, avg }
        };
        t.updated_at = now;
        self.put(&fill.client_id, t);
        let booked = match self.realized_pnl.get(fill.fee_asset.as_str()) {
            Some(d) => *d,
            None => Decimal::zero(),
        };
        let asset = fill.fee_asset.clone();
        self.realized_pnl.insert(asset, booked + fill.fee);
        if order.purpose.is_entry() {
            self.open_or_extend_position(&order, &fill, now);
            Ok(persist())
        } else {
            self.reduce_position(&order, &fill)
        }
    }

    /// Opens a position with a fill of an entry, or adds to the one there is.
    fn open_or_extend_position(&mut self, order: &Order, fill: &Fill, now: Timestamp)
        requires
            old(self).wf(),
        ensures
            final(self).wf(),
            final(self)@ == old(self)@.opened(order@, fill.price, fill.quantity, now),
    {
        let next = match self.positions.get(order.symbol.as_str()) {
            Some(pos) => {
                if pos.side == order.side {
                    let mut p = pos.clone();
                    let prev_notional = p.entry_price.get() * p.quantity.get();
                    let add_notional = fill.price.get() * fill.quantity.get();
                    let total_qty = p.quantity + fill.quantity;
                    if !total_qty.is_zero() {
                        p.entry_price = Price::new(
                            (prev_notional + add_notional) / total_qty.get(),
                        );
                    }
                    p.quantity = total_qty;
                    Some(p)
                } else {
                    None
                }
            },
            None => Some(
                Position {
                    symbol: order.symbol.clone(),
                    side: order.side,
                    quantity: fill.quantity,
                    entry_price: fill.price,
                    opened_at: now,
                    stop_price: None,
                },
            ),
        };
        if let Some(p) = next {
            self.put_position(p);
        }
    }

    /// Takes a fill of a reducing order off the position.
    fn reduce_position(&mut self, order: &Order, fill: &Fill) -> (r: Result<
        Vec<Effect>,
        DomainError,
    >)
        requires
            old(self).wf(),
        ensures
            final(self).wf(),
            final(self)@ == old(self)@.reduced(order@, fill.quantity).0,
            answers(r, old(self)@.reduced(order@, fill.quantity).1),
    {
        let mut p = match self.positions.get(order.symbol.as_str()) {
            Some(pos) => pos.clone(),
            None => return Err(
                DomainError::UnknownReference(
                    joined3(
                        "平仓单 ",
                        order.symbol.as_str(),
                        " 成交但本地无持仓，状态不一致",
                    ),
                ),
            ),
        };
        if p.side == order.side {
            return Err(
                DomainError::IllegalTransition(
                    joined3(
                        "平仓单方向与持仓方向相同（",
                        order.symbol.as_str(),
                        "），会导致反向开仓",
                    ),
                ),
            );
        }
        p.quantity = p.quantity - fill.quantity;
        if p.quantity.is_zero() {
            self.positions.remove(order.symbol.as_str());
            assert(self@.positions =~= old(self)@.positions.remove(order.symbol@));
        } else {
            self.put_position(p);
        }
        Ok(persist())
    }

    /// Records what looking up an order found, unless the order is final. An order that the exchange does not know never
    /// arrived or was refused without a trace; either way it is not there.
    pub fn resolve_query(
        &mut self,
        client_id: &ClientOrderId,
        outcome: QueryOutcome,
        now: Timestamp,
    ) -> (r: Result<Vec<Effect>, DomainError>)
        requires
            old(self).wf(),
        ensures
            final(self).wf(),
            final(self)@ == old(self)@.resolved(client_id@, outcome@, now).0,
            answers(r, old(self)@.resolved(client_id@, outcome@, now).1),
    {
        let mut t = match self.lookup_unsettled(client_id) {
            Ok(t) => t,
            Err(e) => return Err(e),
        };
        match outcome {
            QueryOutcome::StillOpen { exchange_id } => {
                t.exchange_id = Some(exchange_id);
                t.state = OrderState::Live;
            },
            QueryOutcome::Filled { filled, avg } => {
                t.filled = filled;
                t.avg_price = Some(avg);
                t.state = OrderState::Filled { filled, avg };
            },
            QueryOutcome::Cancelled { filled } => {
                t.filled = filled;
                t.state = OrderState::Cancelled { filled };
            },
            QueryOutcome::NotFound => {
                t.state = OrderState::Cancelled { filled: t.filled };
            },
        }
        t.updated_at = now;
        self.put(client_id, t);
        Ok(persist())
    }

    /// The ids of the orders, in their order.
    pub closed spec fn ids(&self) -> Seq<Seq<char>> {
        self.orders.keys()
    }

    /// The symbols of the positions, in their order.
    pub closed spec fn symbols(&self) -> Seq<Seq<char>> {
        self.positions.keys()
    }

    /// The ids are those of the orders, each once, in the order of texts, and likewise the
    /// symbols of the positions.
    pub proof fn law_listings_are_in_order(&self)
        requires
            self.wf(),
        ensures
            forall|i: int, j: int|
                0 <= i < j < self.ids().len() ==> crate::text::text_before(
                    #[trigger] self.ids()[i],
                    #[trigger] self.ids()[j],
                ),
            forall|k: Seq<char>| #[trigger]
                self@.orders.dom().contains(k) <==> self.ids().contains(k),
            forall|i: int, j: int|
                0 <= i < j < self.symbols().len() ==> crate::text::text_before(
                    #[trigger] self.symbols()[i],
                    #[trigger] self.symbols()[j],
                ),
            forall|k: Seq<char>| #[trigger]
                self@.positions.dom().contains(k) <==> self.symbols().contains(k),
    {
        self.orders.lemma_keys();
        self.positions.lemma_keys();
    }

    /// The orders whose state is not known, in the order of their ids.
    pub fn unresolved(&self) -> (r: Vec<ClientOrderId>)
        requires
            self.wf(),
        ensures
            r@.map_values(|id: ClientOrderId| id@) == self.ids().filter(
                |id: Seq<char>| self@.orders[id].state is Unknown,
            ),
    {
        let ghost p = |id: Seq<char>| self@.orders[id].state is Unknown;
        let mut v: Vec<ClientOrderId> = Vec::new();
        let n = self.orders.len();
        for i in 0..n
            invariant
                self.wf(),
                n == self.ids().len(),
                p == (|id: Seq<char>| self@.orders[id].state is Unknown),
                v@.map_values(|id: ClientOrderId| id@) == self.ids().take(i as int).filter(p),
        {
            let t = self.orders.value(i);
            let ghost before = v@;
            proof {
                assert(self.ids().take(i + 1).drop_last() =~= self.ids().take(i as int));
                reveal(Seq::filter);
            }
            if matches!(t.state, OrderState::Unknown { .. }) {
                v.push(t.order.client_id.clone());
                assert(v@.map_values(|id: ClientOrderId| id@) =~= before.map_values(
                    |id: ClientOrderId| id@,
                ).push(self.ids()[i as int]));
            }
        }
        assert(self.ids().take(n as int) =~= self.ids());
        v
    }

    /// The orders that may be resting at the exchange, in the order of their ids.
    pub fn open_orders(&self) -> (r: Vec<&TrackedOrder>)
        requires
            self.wf(),
        ensures
            TrackedOrder::models(r@) == self.ids().filter(
                |id: Seq<char>| self@.orders[id].state.resting(),
            ).map_values(|id: Seq<char>| self@.orders[id]),
    {
        let ghost p = |id: Seq<char>| self@.orders[id].state.resting();
        let ghost f = |id: Seq<char>| self@.orders[id];
        let mut v: Vec<&TrackedOrder> = Vec::new();
        let n = self.orders.len();
        for i in 0..n
            invariant
                self.wf(),
                n == self.ids().len(),
                p == (|id: Seq<char>| self@.orders[id].state.resting()),
                f == (|id: Seq<char>| self@.orders[id]),
                TrackedOrder::models(v@) == self.ids().take(i as int).filter(p).map_values(f),
        {
            let t = self.orders.value(i);
            let ghost before = v@;
            proof {
                assert(self.ids().take(i + 1).drop_last() =~= self.ids().take(i as int));
                reveal(Seq::filter);
            }
            if t.state.is_open() {
                v.push(t);
                assert(TrackedOrder::models(v@) =~= TrackedOrder::models(before).push((*t)@));
                assert(self.ids().take(i as int).filter(p).push(self.ids()[i as int]).map_values(f)
                    =~= self.ids().take(i as int).filter(p).map_values(f).push((*t)@));
            }
        }
        assert(self.ids().take(n as int) =~= self.ids());
        v
    }

    pub fn get(&self, id: &ClientOrderId) -> (r: Option<&TrackedOrder>)
        requires
            self.wf(),
        ensures
            match r {
                Some(t) => self@.orders.dom().contains(id@) && t@ == self@.orders[id@],
                None => !self@.orders.dom().contains(id@),
            },
    {
        self.orders.get(id.as_str())
    }

    pub fn position(&self, symbol: &str) -> (r: Option<&Position>)
        requires
            self.wf(),
        ensures
            match r {
                Some(p) => self@.positions.dom().contains(symbol@) && p@ == self@.positions[symbol@],
                None => !self@.positions.dom().contains(symbol@),
            },
    {
        self.positions.get(symbol)
    }

    /// The open positions, in the order of their symbols.
    pub fn all_positions(&self) -> (r: Vec<&Position>)
        requires
            self.wf(),
        ensures
            r@.len() == self.symbols().len(),
            forall|i: int|
                0 <= i < r@.len() ==> (#[trigger] r@[i])@ == self@.positions[self.symbols()[i]],
    {
        let mut v: Vec<&Position> = Vec::new();
        let n = self.positions.len();
        for i in 0..n
            invariant
                self.wf(),
                n == self.symbols().len(),
                v@.len() == i,
                forall|j: int|
                    0 <= j < i ==> (#[trigger] v@[j])@ == self@.positions[self.symbols()[j]],
        {
            v.push(self.positions.value(i));
        }
        v
    }

    /// The realised result of an asset.
    pub fn realized_pnl(&self, asset: &str) -> (r: Decimal)
        requires
            self.wf(),
        ensures
            r == self@.result_of(asset@),
    {
        match self.realized_pnl.get(asset) {
            Some(d) => *d,
            None => Decimal::zero(),
        }
    }

    /// Moves the stop of a position.
    pub fn set_stop(&mut self, symbol: &str, stop: Price) -> (r: Result<(), DomainError>)
        requires
            old(self).wf(),
        ensures
            final(self).wf(),
            r is Ok <==> old(self)@.positions.dom().contains(symbol@),
            r is Ok ==> final(self)@ == (BookModel {
                positions: old(self)@.positions.insert(
                    symbol@,
                    PositionModel { stop_price: Some(stop), ..old(self)@.positions[symbol@] },
                ),
                ..old(self)@
            }),
            r is Err ==> final(self)@ == old(self)@ && r->Err_0@ == Fault::UnknownReference(
                symbol@,
            ),
    {
        let mut p = match self.positions.get(symbol) {
            Some(p) => p.clone(),
            None => return Err(DomainError::UnknownReference(symbol.to_owned())),
        };
        p.stop_price = Some(stop);
        self.put_position(p);
        Ok(())
    }
}

/// A trade that is reported again changes nothing and asks for nothing.
pub proof fn law_repeated_fill_is_ignored(s: BookModel, fill: FillReport, again: FillReport, t1: Timestamp, t2: Timestamp)
    requires
        again.trade_id == fill.trade_id,
    ensures
        s.filled(fill, t1).0.filled(again, t2) == (
            s.filled(fill, t1).0,
            Ok::<Seq<EffectModel>, Fault>(Seq::<EffectModel>::empty()),
        ),
{
}

/// A fill that is booked never takes an order beyond its quantity.
pub proof fn law_fills_stay_within_the_order(s: BookModel, fill: FillReport, now: Timestamp)
    requires
        s.filled(fill, now).0.orders[fill.client_id].filled != s.orders[fill.client_id].filled,
    ensures
        s.filled(fill, now).0.orders[fill.client_id].filled.0@
            <= s.orders[fill.client_id].order.quantity.0@,
{
}

/// No event asks for an order to be sent, and an event of unknown outcome asks for the order to
/// be looked up unless it is final.
pub proof fn law_events_never_submit(s: BookModel, event: EventModel, now: Timestamp)
    ensures
        s.applied(event, now).1 matches Ok(effects) ==> forall|i: int|
            0 <= i < effects.len() ==> !(#[trigger] effects[i] is Submit),
        event matches EventModel::Unknown { client_id, .. } && s.orders.dom().contains(client_id)
            && !s.orders[client_id].state.finished() ==> s.applied(event, now).1 is Ok && s.applied(event, now).1->Ok_0.contains(
            EffectModel::Query(event->Unknown_client_id),
        ),
{
    if let EventModel::Unknown { client_id, .. } = event {
        if s.orders.dom().contains(client_id) && !s.orders[client_id].state.finished() {
            let effects = s.applied(event, now).1->Ok_0;
            assert(effects[1] == EffectModel::Query(client_id));
        }
    }
}

/// A fill of a reducing order never opens a position, never turns one round, and touches no
/// other symbol.
pub proof fn law_reducing_fills_only_reduce(s: BookModel, fill: FillReport, now: Timestamp)
    requires
        s.orders.dom().contains(fill.client_id),
        s.orders[fill.client_id].order.purpose.reduces(),
    ensures
        s.filled(fill, now).0.positions.dom().subset_of(s.positions.dom()),
        forall|k: Seq<char>| #[trigger]
            s.filled(fill, now).0.positions.dom().contains(k)
                ==> s.filled(fill, now).0.positions[k].side == s.positions[k].side
                && s.filled(fill, now).0.positions[k].entry_price == s.positions[k].entry_price && (k
                != s.orders[fill.client_id].order.symbol
                ==> s.filled(fill, now).0.positions[k] == s.positions[k]),
{
}

/// A fill books its fee in its own asset and in no other.
pub proof fn law_assets_are_kept_apart(s: BookModel, fill: FillReport, now: Timestamp, asset: Seq<char>)
    requires
        asset != fill.fee_asset,
    ensures
        s.filled(fill, now).0.result_of(asset) == s.result_of(asset),
{
}

/// No event makes an order disappear or changes what was ordered.
pub proof fn law_orders_are_never_lost(s: BookModel, event: EventModel, now: Timestamp, id: Seq<char>)
    requires
        s.orders.dom().contains(id),
    ensures
        s.applied(event, now).0.orders.dom() == s.orders.dom(),
        s.applied(event, now).0.orders[id].order == s.orders[id].order,
{
    assert(s.applied(event, now).0.orders.dom() =~= s.orders.dom());
}

impl EventModel {
    /// Whether the event moves an order to another state, without a fill.
    pub open spec fn moves(self, id: Seq<char>) -> bool {
        match self {
            EventModel::Accepted { client_id, .. } => client_id == id,
            EventModel::Rejected { client_id, .. } => client_id == id,
            EventModel::Filled(_) => false,
            EventModel::Cancelled { client_id, .. } => client_id == id,
            EventModel::Expired { client_id } => client_id == id,
            EventModel::Unknown { client_id, .. } => client_id == id,
        }
    }
}

/// An order that is final stays so: neither a confirmation, a rejection, a cancel, an expiry nor
/// a lost request moves it, and neither does looking it up. Each is refused and changes nothing.
pub proof fn law_final_orders_stay_final(
    s: BookModel,
    id: Seq<char>,
    event: EventModel,
    outcome: LookupModel,
    now: Timestamp,
)
    requires
        s.orders.dom().contains(id),
        s.orders[id].state.finished(),
        event.moves(id),
    ensures
        s.applied(event, now).0 == s,
        s.applied(event, now).1 matches Err(Fault::IllegalTransition(_)),
        s.resolved(id, outcome, now).0 == s,
        s.resolved(id, outcome, now).1 matches Err(Fault::IllegalTransition(_)),
{
}

/// Looking an order up always ends its uncertainty, unless the order is final already.
pub proof fn law_lookup_resolves(s: BookModel, id: Seq<char>, outcome: LookupModel, now: Timestamp)
    requires
        s.orders.dom().contains(id),
        !s.orders[id].state.finished(),
    ensures
        !(s.resolved(id, outcome, now).0.orders[id].state is Unknown),
        s.resolved(id, outcome, now).1 is Ok,
{
}

impl TrackedModel {
    /// What has been paid for what is filled: the average price times the quantity.
    pub open spec fn worth(self) -> int {
        match self.avg_price {
            Some(p) => p.0@ * self.filled.0@,
            None => 0,
        }
    }

    /// Everything but the quotient of an average is computed without rounding, and that is in
    /// range.
    pub open spec fn averages_closely(self, price: Price, quantity: Qty) -> bool {
        let total = self.filled.0.sum(quantity.0);
        let before = match self.avg_price {
            Some(p) => p.0.prod(self.filled.0),
            None => Decimal::whole(0),
        };
        let paid = price.0.prod(quantity.0);
        &&& self.filled.0@ >= 0
        &&& quantity.0@ >= 0
        &&& self.filled.0.adds_exactly(quantity.0)
        &&& self.avg_price matches Some(p) ==> p.0.multiplies_exactly(self.filled.0)
        &&& price.0.multiplies_exactly(quantity.0)
        &&& before.adds_exactly(paid)
        &&& total@ != 0 ==> before.sum(paid).divides_closely(total)
    }

    /// An average is computed without rounding.
    pub open spec fn averages_exactly(self, price: Price, quantity: Qty) -> bool {
        let total = self.filled.0.sum(quantity.0);
        let before = match self.avg_price {
            Some(p) => p.0.prod(self.filled.0),
            None => Decimal::whole(0),
        };
        &&& self.averages_closely(price, quantity)
        &&& total@ != 0 ==> before.sum(price.0.prod(quantity.0)).divides_exactly(total)
    }
}

/// One amount is another up to the rounding of an average over a quantity.
pub open spec fn averaged(worth: int, paid: int, average: int, quantity: int) -> bool {
    crate::decimal::magnitude(worth - paid) * crate::decimal::unit() <= quantity * (
    crate::decimal::unit() + crate::decimal::magnitude(average))
}

/// A fill adds its quantity to what is filled and its price times its quantity to what was paid:
/// the average price times the quantity filled is that, up to the rounding of the average.
pub proof fn law_average_weighs_each_fill(
    t: TrackedModel,
    price: Price,
    quantity: Qty,
    now: Timestamp,
)
    requires
        t.averages_closely(price, quantity),
    ensures
        ({
            let after = t.with_fill(price, quantity, now);
            &&& after.filled.0@ == t.filled.0@ + quantity.0@
            &&& after.avg_price is None <==> after.filled.0@ == 0
            &&& after.avg_price matches Some(average) ==> averaged(
                after.worth(),
                t.worth() + price.0@ * quantity.0@,
                average.0@,
                after.filled.0@,
            )
            &&& t.averages_exactly(price, quantity) ==> after.worth() == t.worth() + price.0@
                * quantity.0@
            &&& after.filled.0@ >= 0
        }),
{
    crate::decimal::lemma_of_parts(0, 0);
    let after = t.with_fill(price, quantity, now);
    let u = crate::decimal::unit();
    let total = t.filled.0.sum(quantity.0);
    let before = match t.avg_price {
        Some(p) => p.0.prod(t.filled.0),
        None => Decimal::whole(0),
    };
    let paid = price.0.prod(quantity.0);
    let sum = before.sum(paid);
    let p = price.0@;
    let q = quantity.0@;
    let w = t.worth();
    assert(before@ * u == w);
    assert((before@ + paid@) * u == before@ * u + paid@ * u) by (nonlinear_arith);
    assert(sum@ * u == w + p * q);
    if total@ == 0 {
        let f = t.filled.0@;
        assert(p * 0 == 0 && after.worth() == 0);
        if let Some(a) = t.avg_price {
            assert(a.0@ * 0 == 0);
        }
    }
}

/// A fill that completes an order makes it filled, any other leaves it partly filled; either state
/// names the quantity and the average that the order has then.
pub proof fn law_fills_are_shown_in_the_state(
    t: TrackedModel,
    price: Price,
    quantity: Qty,
    now: Timestamp,
)
    requires
        t.filled.0.adds_exactly(quantity.0),
    ensures
        ({
            let after = t.with_fill(price, quantity, now);
            &&& after.state is Filled <==> t.filled.0@ + quantity.0@ == t.order.quantity.0@
            &&& after.state is PartiallyFilled <==> t.filled.0@ + quantity.0@
                != t.order.quantity.0@
            &&& after.state matches OrderState::Filled { filled, avg } ==> filled == after.filled
                && (after.avg_price is Some ==> after.avg_price == Some(avg))
            &&& after.state matches OrderState::PartiallyFilled { filled, avg } ==> filled
                == after.filled && (after.avg_price is Some ==> after.avg_price == Some(avg))
            &&& after.order == t.order
            &&& after.exchange_id == t.exchange_id
            &&& after.updated_at == now
        }),
{
}

impl BookModel {
    /// After some fills, in their order.
    pub open spec fn after_fills(self, fills: Seq<FillReport>, now: Timestamp) -> BookModel
        decreases fills.len(),
    {
        if fills.len() == 0 {
            self
        } else {
            self.after_fills(fills.drop_last(), now).filled(fills.last(), now).0
        }
    }

    /// The prices times the quantities of the fills by which an order came to be filled further.
    pub open spec fn paid_for(self, id: Seq<char>, fills: Seq<FillReport>, now: Timestamp) -> int
        decreases fills.len(),
    {
        if fills.len() == 0 {
            0
        } else {
            let before = self.after_fills(fills.drop_last(), now);
            let after = self.after_fills(fills, now);
            self.paid_for(id, fills.drop_last(), now) + (if after.orders[id].filled
                != before.orders[id].filled {
                fills.last().price.0@ * fills.last().quantity.0@
            } else {
                0
            })
        }
    }

    /// Every one of some fills of an order is averaged without rounding.
    pub open spec fn averages_all(self, id: Seq<char>, fills: Seq<FillReport>, now: Timestamp) -> bool {
        forall|i: int|
            0 <= i < fills.len() && fills[i].client_id == id ==> (#[trigger] self.after_fills(
                fills.take(i),
                now,
            )).orders[id].averages_exactly(fills[i].price, fills[i].quantity)
    }
}

/// An order that is not filled at all has no average price.
pub open spec fn unfilled_at_first(t: TrackedModel) -> bool {
    t.filled.0@ == 0 && t.avg_price is None
}

/// After any fills, the average price of an order times the quantity filled is the sum of price
/// times quantity over the fills that were booked for it.
pub proof fn law_average_is_over_all_fills(
    s: BookModel,
    id: Seq<char>,
    fills: Seq<FillReport>,
    now: Timestamp,
)
    requires
        s.orders.dom().contains(id),
        unfilled_at_first(s.orders[id]),
        s.averages_all(id, fills, now),
    ensures
        s.after_fills(fills, now).orders.dom().contains(id),
        s.after_fills(fills, now).orders[id].filled.0@ >= 0,
        s.after_fills(fills, now).orders[id].worth() == s.paid_for(id, fills, now),
    decreases fills.len(),
{
    if fills.len() > 0 {
        let earlier = fills.drop_last();
        let n = fills.len() - 1;
        let f = fills.last();
        let before = s.after_fills(earlier, now);
        let after = s.after_fills(fills, now);
        assert forall|i: int| 0 <= i < earlier.len() && earlier[i].client_id == id implies (
        #[trigger] s.after_fills(earlier.take(i), now)).orders[id].averages_exactly(
            earlier[i].price,
            earlier[i].quantity,
        ) by {
            assert(earlier.take(i) =~= fills.take(i));
            assert(earlier[i] == fills[i]);
        }
        law_average_is_over_all_fills(s, id, earlier, now);
        assert(fills.take(n) =~= earlier);
        assert(fills[n] == f);
        let t = before.orders[id];
        if f.client_id == id {
            assert(s.after_fills(fills.take(n), now).orders[id].averages_exactly(
                f.price,
                f.quantity,
            ));
            law_average_weighs_each_fill(t, f.price, f.quantity, now);
            if after.orders[id].filled == t.filled && f.quantity.0@ == 0 {
                let p = f.price.0@;
                assert(p * 0 == 0);
            }
        }
    }
}

/// The same with a last fill whose average is rounded: the average price times the quantity filled
/// is the sum over the fills that were booked, up to the rounding of that last average.
pub proof fn law_average_is_over_all_fills_closely(
    s: BookModel,
    id: Seq<char>,
    fills: Seq<FillReport>,
    now: Timestamp,
)
    requires
        s.orders.dom().contains(id),
        unfilled_at_first(s.orders[id]),
        fills.len() > 0,
        s.averages_all(id, fills.drop_last(), now),
        fills.last().client_id == id,
        s.after_fills(fills.drop_last(), now).orders[id].averages_closely(
            fills.last().price,
            fills.last().quantity,
        ),
    ensures
        ({
            let t = s.after_fills(fills, now).orders[id];
            t.avg_price matches Some(average) ==> averaged(
                t.worth(),
                s.paid_for(id, fills, now),
                average.0@,
                t.filled.0@,
            )
        }),
{
    let earlier = fills.drop_last();
    let f = fills.last();
    law_average_is_over_all_fills(s, id, earlier, now);
    let t = s.after_fills(earlier, now).orders[id];
    let after = s.after_fills(fills, now).orders[id];
    law_average_weighs_each_fill(t, f.price, f.quantity, now);
    if after.filled == t.filled && f.quantity.0@ == 0 {
        let p = f.price.0@;
        assert(p * 0 == 0);
    }
    if let Some(average) = after.avg_price {
        let a = average.0@;
        let q = after.filled.0@;
        let u = crate::decimal::unit();
        assert(q * (u + crate::decimal::magnitude(a)) >= 0) by (nonlinear_arith)
            requires
                q >= 0,
                u > 0,
                crate::decimal::magnitude(a) >= 0,
        ;
    }
}

impl PositionModel {
    /// Everything but the quotient of an average entry price is computed without rounding, and
    /// that is in range.
    pub open spec fn extends_closely(self, price: Price, quantity: Qty) -> bool {
        let total = self.quantity.0.sum(quantity.0);
        let before = self.entry_price.0.prod(self.quantity.0);
        let paid = price.0.prod(quantity.0);
        &&& self.quantity.0.adds_exactly(quantity.0)
        &&& self.entry_price.0.multiplies_exactly(self.quantity.0)
        &&& price.0.multiplies_exactly(quantity.0)
        &&& before.adds_exactly(paid)
        &&& total@ > 0
        &&& before.sum(paid).divides_closely(total)
    }
}

/// A position that is added to keeps its side and grows by the quantity. Its entry price times
/// its quantity is what was paid for both parts, up to the rounding of the entry price.
pub proof fn law_entry_price_weighs_both_parts(p: PositionModel, price: Price, quantity: Qty)
    requires
        p.extends_closely(price, quantity),
    ensures
        ({
            let after = p.extended(price, quantity);
            &&& after.quantity.0@ == p.quantity.0@ + quantity.0@
            &&& averaged(
                after.entry_price.0@ * after.quantity.0@,
                p.entry_price.0@ * p.quantity.0@ + price.0@ * quantity.0@,
                after.entry_price.0@,
                after.quantity.0@,
            )
            &&& after.side == p.side
            &&& after.symbol == p.symbol
            &&& after.opened_at == p.opened_at
            &&& after.stop_price == p.stop_price
        }),
{
    let u = crate::decimal::unit();
    let before = p.entry_price.0.prod(p.quantity.0);
    let paid = price.0.prod(quantity.0);
    assert((before@ + paid@) * u == before@ * u + paid@ * u) by (nonlinear_arith);
}

/// A trade that is new and stays within an order is booked, and one that would take the order
/// beyond its quantity is refused and leaves the orders, positions and results alone.
pub proof fn law_fills_are_booked_within_the_order(s: BookModel, fill: FillReport, now: Timestamp)
    requires
        !s.seen.contains(fill.trade_id),
        s.orders.dom().contains(fill.client_id),
        s.orders[fill.client_id].filled.0.adds_exactly(fill.quantity.0),
    ensures
        ({
            let t = s.orders[fill.client_id];
            let after = s.filled(fill, now).0;
            let fits = t.filled.0@ + fill.quantity.0@ <= t.order.quantity.0@;
            &&& after.seen == s.seen.insert(fill.trade_id)
            &&& fits ==> after.orders[fill.client_id].filled.0@ == t.filled.0@ + fill.quantity.0@
            &&& fits ==> after.result_of(fill.fee_asset) == s.result_of(fill.fee_asset).sum(fill.fee)
            &&& !fits ==> s.filled(fill, now).1 is Err && after.orders == s.orders
                && after.positions == s.positions && after.realized == s.realized
            &&& forall|other: Seq<char>|
                other != fill.client_id ==> (#[trigger] after.orders.dom().contains(other)
                    <==> s.orders.dom().contains(other)) && (s.orders.dom().contains(other)
                    ==> after.orders[other] == s.orders[other])
        }),
{
}

/// A fill of an entry opens a position of its side, price and quantity where there is none, and
/// adds to one of the same side; one of the other side is left as it is.
pub proof fn law_entries_open_positions(s: BookModel, fill: FillReport, now: Timestamp)
    requires
        !s.seen.contains(fill.trade_id),
        s.orders.dom().contains(fill.client_id),
        s.orders[fill.client_id].order.purpose is Entry,
        s.orders[fill.client_id].filled.0.adds_exactly(fill.quantity.0),
        s.orders[fill.client_id].filled.0@ + fill.quantity.0@
            <= s.orders[fill.client_id].order.quantity.0@,
    ensures
        ({
            let order = s.orders[fill.client_id].order;
            let after = s.filled(fill, now).0;
            let there = s.positions.dom().contains(order.symbol);
            &&& after.positions.dom().contains(order.symbol)
            &&& !there ==> ({
                let p = after.positions[order.symbol];
                &&& p.side == order.side
                &&& p.quantity == fill.quantity
                &&& p.entry_price == fill.price
                &&& p.opened_at == now
                &&& p.stop_price is None
            })
            &&& there && s.positions[order.symbol].side != order.side ==> after.positions
                == s.positions
            &&& there && s.positions[order.symbol].side == order.side
                && s.positions[order.symbol].extends_closely(fill.price, fill.quantity)
                ==> after.positions[order.symbol].quantity.0@
                == s.positions[order.symbol].quantity.0@ + fill.quantity.0@
            &&& forall|k: Seq<char>|
                k != order.symbol ==> (#[trigger] after.positions.dom().contains(k)
                    <==> s.positions.dom().contains(k)) && after.positions[k] == s.positions[k]
        }),
{
}

/// A fill of a reducing order takes its quantity off the position, which is gone once nothing is
/// left of it.
pub proof fn law_exits_reduce_positions(s: BookModel, fill: FillReport, now: Timestamp)
    requires
        !s.seen.contains(fill.trade_id),
        s.orders.dom().contains(fill.client_id),
        s.orders[fill.client_id].order.purpose.reduces(),
        s.orders[fill.client_id].filled.0.adds_exactly(fill.quantity.0),
        s.orders[fill.client_id].filled.0@ + fill.quantity.0@
            <= s.orders[fill.client_id].order.quantity.0@,
    ensures
        ({
            let order = s.orders[fill.client_id].order;
            let after = s.filled(fill, now).0;
            let against = s.positions.dom().contains(order.symbol)
                && s.positions[order.symbol].side == order.side.flipped();
            let held = s.positions[order.symbol].quantity.0;
            &&& s.filled(fill, now).1 is Ok <==> against
            &&& !against ==> after.positions == s.positions
            &&& against && held.subtracts_exactly(fill.quantity.0) ==> (
            after.positions.dom().contains(order.symbol) <==> held@ != fill.quantity.0@)
            &&& against && held.subtracts_exactly(fill.quantity.0) && held@ != fill.quantity.0@
                ==> after.positions[order.symbol].quantity.0@ == held@ - fill.quantity.0@
        }),
{
}

/// An event other than a fill moves its order, and no other, to the state that it names; it books
/// nothing.
pub proof fn law_events_name_the_state(s: BookModel, event: EventModel, id: Seq<char>, now: Timestamp)
    requires
        s.orders.dom().contains(id),
        !s.orders[id].state.finished(),
        event.moves(id),
    ensures
        ({
            let after = s.applied(event, now).0;
            let t = after.orders[id];
            &&& s.applied(event, now).1 is Ok
            &&& after.positions == s.positions
            &&& after.realized == s.realized
            &&& after.seen == s.seen
            &&& forall|other: Seq<char>|
                other != id && #[trigger] s.orders.dom().contains(other) ==> after.orders[other]
                    == s.orders[other]
            &&& t.updated_at == now
            &&& event matches EventModel::Accepted { exchange_id, .. } ==> t.state is Live
                && t.exchange_id == Some(exchange_id)
            &&& event matches EventModel::Rejected { reason, .. } ==> t.state == (
            OrderState::Rejected { reason })
            &&& event matches EventModel::Cancelled { filled, .. } ==> t.state == (
            OrderState::Cancelled { filled }) && t.filled == filled
            &&& event is Expired ==> t.state is Expired
            &&& event matches EventModel::Unknown { at, .. } ==> t.state == (OrderState::Unknown {
                since: at,
                last_probe: None,
            })
            &&& !(event is Cancelled) ==> t.filled == s.orders[id].filled
            &&& t.avg_price == s.orders[id].avg_price
        }),
{
}

/// Looking an order up gives it the state that was found; an order that the exchange does not know
/// is cancelled with what had been filled of it.
pub proof fn law_lookups_name_the_state(
    s: BookModel,
    id: Seq<char>,
    outcome: LookupModel,
    now: Timestamp,
)
    requires
        s.orders.dom().contains(id),
        !s.orders[id].state.finished(),
    ensures
        ({
            let after = s.resolved(id, outcome, now).0;
            let t = after.orders[id];
            &&& after.positions == s.positions
            &&& after.realized == s.realized
            &&& after.seen == s.seen
            &&& t.updated_at == now
            &&& outcome matches LookupModel::StillOpen { exchange_id } ==> t.state is Live
                && t.exchange_id == Some(exchange_id) && t.filled == s.orders[id].filled
            &&& outcome matches LookupModel::Filled { filled, avg } ==> t.state == (
            OrderState::Filled { filled, avg }) && t.filled == filled && t.avg_price == Some(avg)
            &&& outcome matches LookupModel::Cancelled { filled } ==> t.state == (
            OrderState::Cancelled { filled }) && t.filled == filled
            &&& outcome is NotFound ==> t.state == (OrderState::Cancelled {
                filled: s.orders[id].filled,
            }) && t.filled == s.orders[id].filled
        }),
{
}

} // verus!
