//! Who shares which links to the exchange's quotes.
//!
//! Everyone looking at the same quotes shares one feed, that is one view and the links that keep
//! it. A feed is opened by the first who looks and dropped some time after the last has gone.

use std::sync::atomic::AtomicU64;
use std::sync::Arc;
use vstd::prelude::*;
use crate::clock::Timestamp;
use crate::cooldown::Cooldown;
use crate::keyed::TextMap;
use crate::market::AggTrade;
use crate::quotes::Interval;
use crate::shared_end::Act;
use crate::stream::{
    feed_key, kline_feed_key, ConnectError, Link, LinkAction, LinkModel, LinkPlan, MarketView, StreamConfig, StreamKind,
    ViewModel,
};
use crate::text::to_upper;

verus! {

/// A place at a feed.
#[derive(Debug, PartialEq, Eq)]
pub struct Subscription {
    pub key: String,
    /// The number of the feed; a feed that is opened under the same key later has another.
    pub feed: u64,
    /// The links to set up: those of the feed where it was opened just now, else none.
    pub start: Vec<StreamKind>,
}

/// The feeds that are open.
pub struct MarketStreams {
    config: StreamConfig,
    cooldown: Cooldown,
    feeds: TextMap<u64>,
    next: u64,
}

/// [`MarketStreams`] with its texts as sequences of characters.
pub struct HubModel {
    pub config: StreamConfig,
    /// Until when requests are limited, as was noted here.
    pub deadline: int,
    /// Where the end of the wait is kept that is shared with others.
    pub cell: Arc<AtomicU64>,
    /// What was done to that end here.
    pub acts: Seq<Act>,
    /// The number of the feed under each key.
    pub feeds: Map<Seq<char>, u64>,
    /// The number of the next feed.
    pub next: u64,
}

impl View for MarketStreams {
    type V = HubModel;

    closed spec fn view(&self) -> HubModel {
        HubModel {
            config: self.config,
            deadline: self.cooldown.noted_until(),
            cell: self.cooldown.cell(),
            acts: self.cooldown.acts(),
            feeds: self.feeds@,
            next: self.next,
        }
    }
}

impl HubModel {
    /// Whether the number of every feed was given out before the next.
    pub open spec fn numbered(self) -> bool {
        forall|k: Seq<char>| #[trigger]
            self.feeds.dom().contains(k) ==> self.feeds[k] < self.next || self.next == u64::MAX
    }

    /// The number of the feed under a key, once someone looks.
    pub open spec fn feed(self, key: Seq<char>) -> u64 {
        if self.feeds.dom().contains(key) {
            self.feeds[key]
        } else {
            self.next
        }
    }

    /// After someone began to look: a feed that is there is shared, else one is opened.
    pub open spec fn looked(self, key: Seq<char>) -> HubModel {
        if self.feeds.dom().contains(key) {
            self
        } else {
            HubModel {
                feeds: self.feeds.insert(key, self.next),
                next: crate::order::next_seq(self.next),
                ..self
            }
        }
    }

    /// The feeds where others wait until a given time: their links wait with them.
    pub open spec fn alongside(self, shared: u64) -> HubModel {
        HubModel {
            deadline: crate::cooldown::later(self.deadline, crate::cooldown::as_signed(shared)),
            ..self
        }
    }

    /// What becomes of a view before a link does its first step.
    pub open spec fn first_view(self, view: ViewModel, kind: StreamKind, now: Timestamp) -> ViewModel {
        view.linked(
            kind,
            match self.first_step(now) {
                LinkAction::Cool { ms } => LinkModel::CoolingDown { remaining_ms: ms },
                _ => LinkModel::Connecting,
            },
        )
    }

    /// What a link does first: it waits while requests are limited, and else connects.
    pub open spec fn first_step(self, now: Timestamp) -> LinkAction {
        match crate::cooldown::left(self.deadline, now) {
            Some(ms) => LinkAction::Cool { ms: ms as u64 },
            None => LinkAction::Connect,
        }
    }

    /// After a wait was taken over from another, where the end that the other shares is a given
    /// one.
    pub open spec fn adopting(self, noted: int, shared: u64) -> HubModel {
        HubModel {
            deadline: crate::cooldown::later(self.deadline, noted),
            acts: crate::cooldown::acts_when_adopted(self.acts, noted, shared),
            ..self
        }
    }

    /// After requests were limited for some time: every link waits, and so do all that share the
    /// end of the wait.
    pub open spec fn limited(self, duration_ms: u64, now: Timestamp) -> HubModel {
        let until = crate::clock::moved(now as int, crate::cooldown::as_signed(duration_ms));
        HubModel {
            deadline: crate::cooldown::later(self.deadline, until),
            acts: crate::cooldown::acts_when_armed(self.acts, until),
            ..self
        }
    }

    /// After a feed was given the chance to go. It goes where nobody looks, and takes no entry
    /// but its own.
    pub open spec fn retired(self, key: Seq<char>, feed: u64, looking: usize) -> HubModel {
        if looking == 0 && self.feeds.dom().contains(key) && self.feeds[key] == feed {
            HubModel { feeds: self.feeds.remove(key), ..self }
        } else {
            self
        }
    }
}

impl MarketStreams {
    /// The entries are in order, and their numbers were given out before the next.
    pub closed spec fn wf(&self) -> bool {
        self.feeds.wf() && self@.numbered()
    }

    /// No feed yet, with links to the exchange.
    pub fn production(cooldown: Cooldown) -> (r: Self)
        ensures
            r.wf(),
            r@.deadline == cooldown.noted_until(),
            r@.cell == cooldown.cell(),
            r@.acts == cooldown.acts(),
            r@.feeds == Map::<Seq<char>, u64>::empty(),
            r@.config.is_production(),
    {
        MarketStreams::with_config(StreamConfig::production(), cooldown)
    }

    /// No feed yet.
    pub fn with_config(config: StreamConfig, cooldown: Cooldown) -> (r: Self)
        ensures
            r.wf(),
            r@ == (HubModel {
                config,
                deadline: cooldown.noted_until(),
                cell: cooldown.cell(),
                acts: cooldown.acts(),
                feeds: Map::empty(),
                next: 0,
            }),
    {
        MarketStreams { config, cooldown, feeds: TextMap::new(), next: 0 }
    }

    fn open(&mut self, key: &String) -> (r: (u64, bool))
        requires
            old(self).wf(),
        ensures
            final(self).wf(),
            final(self)@ == old(self)@.looked(key@),
            r.0 == old(self)@.feed(key@),
            r.1 == !old(self)@.feeds.dom().contains(key@),
    {
        let ghost hub = self@;
        match self.feeds.get(key.as_str()) {
            Some(n) => (*n, false),
            None => {
                let n = self.next;
                self.feeds.insert(key.clone(), n);
                self.next = crate::order::following(n);
                assert forall|k: Seq<char>| #[trigger]
                    self@.feeds.dom().contains(k) implies self@.feeds[k] < self@.next || self@.next
                    == u64::MAX by {
                    if k != key@ {
                        assert(hub.feeds.dom().contains(k));
                    }
                }
                (n, true)
            },
        }
    }

    /// Takes a place at the books and trades of a symbol.
    pub fn subscribe(&mut self, symbol: &str) -> (r: Subscription)
        requires
            old(self).wf(),
        ensures
            final(self).wf(),
            r.key@ == crate::text::uppercased(symbol@),
            r.feed == old(self)@.feed(r.key@),
            final(self)@ == old(self)@.looked(r.key@),
            r.start@ == (if old(self)@.feeds.dom().contains(r.key@) {
                Seq::empty()
            } else {
                seq![StreamKind::Depth, StreamKind::Trades]
            }),
    {
        let key = feed_key(symbol);
        let (feed, fresh) = self.open(&key);
        let mut start: Vec<StreamKind> = Vec::new();
        if fresh {
            start.push(StreamKind::Depth);
            start.push(StreamKind::Trades);
        }
        Subscription { key, feed, start }
    }

    /// Takes a place at the candles of a symbol.
    pub fn subscribe_klines(&mut self, symbol: &str, interval: Interval) -> (r: Subscription)
        requires
            old(self).wf(),
        ensures
            final(self).wf(),
            r.key@ == crate::text::uppercased(symbol@) + "@kline_"@ + interval.word(),
            r.feed == old(self)@.feed(r.key@),
            final(self)@ == old(self)@.looked(r.key@),
            r.start@ == (if old(self)@.feeds.dom().contains(r.key@) {
                Seq::empty()
            } else {
                seq![StreamKind::Kline(interval)]
            }),
    {
        let key = kline_feed_key(symbol, interval);
        let (feed, fresh) = self.open(&key);
        let mut start: Vec<StreamKind> = Vec::new();
        if fresh {
            start.push(StreamKind::Kline(interval));
        }
        Subscription { key, feed, start }
    }

    /// Drops a feed where nobody looks, and says whether its links end. `looking` is how many
    /// look at this feed.
    pub fn retire(&mut self, key: &str, feed: u64, looking: usize) -> (r: bool)
        requires
            old(self).wf(),
        ensures
            final(self).wf(),
            final(self)@ == old(self)@.retired(key@, feed, looking),
            r == (looking == 0),
    {
        let ghost hub = self@;
        if looking > 0 {
            return false;
        }
        let own = match self.feeds.get(key) {
            Some(n) => *n == feed,
            None => false,
        };
        if own {
            self.feeds.remove(key);
            assert forall|k: Seq<char>| #[trigger]
                self@.feeds.dom().contains(k) implies self@.feeds[k] < self@.next || self@.next
                == u64::MAX by {
                assert(hub.feeds.dom().contains(k));
            }
        }
        true
    }

    /// The feed whose view is to take trades of a symbol that were asked for; `None` where nobody
    /// looks at them.
    pub fn seeded_feed(&self, symbol: &str) -> (r: Option<u64>)
        requires
            self.wf(),
        ensures
            r == (if self@.feeds.dom().contains(crate::text::uppercased(symbol@)) {
                Some(self@.feeds[crate::text::uppercased(symbol@)])
            } else {
                None
            }),
    {
        let key = feed_key(symbol);
        match self.feeds.get(key.as_str()) {
            Some(n) => Some(*n),
            None => None,
        }
    }

    /// Puts trades of a symbol that were asked for under those that were pushed, in the view of
    /// its feed. `feed` is the number of the feed that the view is of. Says whether the view took
    /// them.
    pub fn seed_trades(
        &self,
        symbol: &str,
        trades: Vec<AggTrade>,
        feed: u64,
        view: &mut MarketView,
    ) -> (r: bool)
        requires
            self.wf(),
        ensures
            r == (self@.feeds.dom().contains(crate::text::uppercased(symbol@))
                && self@.feeds[crate::text::uppercased(symbol@)] == feed),
            final(view).model() == (if r {
                ViewModel {
                    trades: crate::stream::first_of(
                        crate::stream::arranged(old(view).model().trades + trades@),
                        crate::stream::RECENT_TRADES_CAP as nat,
                    ),
                    ..old(view).model()
                }
            } else {
                old(view).model()
            }),
    {
        match self.seeded_feed(symbol) {
            Some(n) => {
                if n == feed {
                    view.merge_trades(trades);
                    true
                } else {
                    false
                }
            },
            None => false,
        }
    }

    /// How many feeds are open.
    pub fn active_feeds(&self) -> (r: usize)
        requires
            self.wf(),
        ensures
            r == self@.feeds.dom().len(),
    {
        proof {
            self.feeds.lemma_len();
        }
        self.feeds.len()
    }

    pub fn config(&self) -> (r: &StreamConfig)
        ensures
            *r == self@.config,
    {
        &self.config
    }

    /// Until when requests are limited.
    pub fn cooldown(&self) -> (r: &Cooldown)
        ensures
            r.noted_until() == self@.deadline,
            r.cell() == self@.cell,
            r.acts() == self@.acts,
    {
        &self.cooldown
    }

    /// Notes that requests are limited, as others found.
    pub fn adopt_cooldown(&mut self, other: &Cooldown)
        requires
            old(self).wf(),
        ensures
            final(self).wf(),
            exists|shared: u64|
                final(self)@ == #[trigger] old(self)@.adopting(other.noted_until(), shared),
    {
        self.cooldown.adopt(other);
        proof {
            let shared = choose|shared: u64|
                self@.acts == #[trigger] crate::cooldown::acts_when_adopted(
                    old(self)@.acts,
                    other.noted_until(),
                    shared,
                );
            assert(self@ == old(self)@.adopting(other.noted_until(), shared));
        }
    }

    /// Notes that a handshake was refused because requests are limited.
    pub fn arm_cooldown(&mut self, duration_ms: u64, now: Timestamp)
        requires
            old(self).wf(),
        ensures
            final(self).wf(),
            final(self)@ == old(self)@.limited(duration_ms, now),
    {
        self.cooldown.arm_ms(duration_ms, now);
    }

    /// The link of a symbol.
    pub fn link(&self, kind: StreamKind, symbol: &str) -> (r: Link)
        ensures
            r@ == crate::stream::link_of(
                self@.config,
                kind,
                crate::text::uppercased(symbol@),
            ),
    {
        let name = to_upper(symbol);
        Link::new(&self.config, kind, name.as_str())
    }

    /// The next thing that a link does, whatever the shared end of the wait is. While requests are
    /// limited it is to wait.
    pub fn begin(&self, link: &Link, view: &mut MarketView, now: Timestamp) -> (r: (LinkAction, bool))
        ensures
            exists|shared: u64|
                {
                    let hub = #[trigger] self@.alongside(shared);
                    &&& r.0 == hub.first_step(now)
                    &&& final(view).model() == hub.first_view(old(view).model(), link@.kind, now)
                },
            r.1 == (old(view).model().link(link@.kind) != final(view).model().link(link@.kind)),
    {
        let shared = self.cooldown.shared_until();
        let r = self.begin_with(link, view, now, shared);
        assert(r.0 == self@.alongside(shared).first_step(now));
        r
    }

    /// The next thing that a link does where others wait until a given time.
    pub fn begin_with(
        &self,
        link: &Link,
        view: &mut MarketView,
        now: Timestamp,
        shared: u64,
    ) -> (r: (LinkAction, bool))
        ensures
            r.0 == self@.alongside(shared).first_step(now),
            final(view).model() == self@.alongside(shared).first_view(
                old(view).model(),
                link@.kind,
                now,
            ),
            r.1 == (old(view).model().link(link@.kind) != final(view).model().link(link@.kind)),
    {
        link.begin(self.cooldown.remaining_with(shared, now), view)
    }
}

impl MarketStreams {
    /// The next thing to do once a link could not be set up. Where that was because requests are
    /// limited, everyone waits and the link begins again; else it waits its turn. The second part
    /// says whether anyone looking has to be told.
    pub fn refused(
        &mut self,
        link: &mut Link,
        error: ConnectError,
        nanos: u32,
        view: &mut MarketView,
        now: Timestamp,
    ) -> (r: (LinkAction, bool))
        requires
            old(self).wf(),
        ensures
            final(self).wf(),
            match error {
                ConnectError::RateLimited { retry_after_ms, .. } => {
                    &&& final(self)@ == old(self)@.limited(retry_after_ms, now)
                    &&& final(link)@ == old(link)@
                    &&& exists|shared: u64|
                        {
                            let hub = #[trigger] final(self)@.alongside(shared);
                            &&& r.0 == hub.first_step(now)
                            &&& final(view).model() == hub.first_view(
                                old(view).model(),
                                old(link)@.kind,
                                now,
                            )
                        }
                    &&& r.1 == (old(view).model().link(old(link)@.kind)
                        != final(view).model().link(old(link)@.kind))
                },
                ConnectError::Other(reason) => {
                    let ms = old(link)@.backoff.delay(nanos) as u64;
                    let next = old(link)@.backoff.advanced();
                    &&& final(self)@ == old(self)@
                    &&& final(link)@ == (LinkPlan { backoff: next, ..old(link)@ })
                    &&& r == (LinkAction::Wait { ms }, true)
                    &&& final(view).model() == old(view).model().linked(
                        old(link)@.kind,
                        LinkModel::Retrying {
                            attempt: next.attempt,
                            retry_in_ms: ms,
                            reason: reason@,
                        },
                    )
                },
            },
    {
        match error {
            ConnectError::RateLimited { retry_after_ms, .. } => {
                self.arm_cooldown(retry_after_ms, now);
                self.begin(&*link, view, now)
            },
            ConnectError::Other(reason) => (link.ended(reason, None, nanos, view), true),
        }
    }
}

/// Two who look under the same key share a feed, and only the first opens it.
pub proof fn law_same_quotes_share_a_feed(hub: HubModel, key: Seq<char>)
    ensures
        hub.looked(key).feed(key) == hub.feed(key),
        hub.looked(key).looked(key) == hub.looked(key),
        hub.looked(key).feeds.dom().contains(key),
{
}

/// Feeds under different keys are different feeds, and opening one leaves the others alone.
pub proof fn law_other_quotes_have_their_own_feed(
    hub: HubModel,
    key: Seq<char>,
    other: Seq<char>,
)
    requires
        hub.numbered(),
        hub.next < u64::MAX,
        key != other,
        hub.feeds.dom().contains(other),
        !hub.feeds.dom().contains(key),
    ensures
        hub.looked(key).feeds.dom().contains(other),
        hub.looked(key).feeds[other] == hub.feeds[other],
        hub.looked(key).feed(key) != hub.looked(key).feed(other),
{
}

/// A feed that someone looks at stays. One that nobody looks at goes, and whoever looks next gets
/// another, which the links of the old one cannot drop.
pub proof fn law_unused_feeds_go(hub: HubModel, key: Seq<char>, looking: usize)
    requires
        hub.numbered(),
        hub.next < u64::MAX,
        hub.feeds.dom().contains(key),
    ensures
        looking > 0 ==> hub.retired(key, hub.feeds[key], looking) == hub,
        !hub.retired(key, hub.feeds[key], 0).feeds.dom().contains(key),
        ({
            let later = hub.retired(key, hub.feeds[key], 0).looked(key);
            &&& later.feed(key) != hub.feeds[key]
            &&& later.retired(key, hub.feeds[key], 0) == later
        }),
{
}

/// After a limited request no link connects until the wait is over, whatever others were told.
pub proof fn law_limited_handshakes_wait(
    hub: HubModel,
    shared: u64,
    wait: u64,
    now: Timestamp,
    later: Timestamp,
)
    requires
        hub.deadline <= i64::MAX,
        0 <= now <= later < now + wait <= i64::MAX,
    ensures
        hub.limited(wait, now).alongside(shared).first_step(later) is Cool,
{
}

/// While others wait no link connects either: a limit that one who shares the end of the wait runs
/// into holds for all.
pub proof fn law_links_wait_with_others(hub: HubModel, shared: u64, now: Timestamp)
    requires
        hub.deadline <= i64::MAX,
        0 <= now < shared <= i64::MAX,
    ensures
        hub.alongside(shared).first_step(now) is Cool,
{
}

/// A limited handshake raises the shared end of the wait to its own end, so that everyone waits.
pub proof fn law_limited_handshakes_are_passed_on(hub: HubModel, wait: u64, now: Timestamp)
    requires
        0 <= now,
        0 < now + wait <= i64::MAX,
    ensures
        hub.limited(wait, now).acts == hub.acts.push(Act::Raised((now + wait) as u64)),
{
}

/// A link first waits out every wait that goes on, for as long as it goes on, and connects at once
/// where none does; whoever looks is shown which.
pub proof fn law_links_wait_first(hub: HubModel, view: ViewModel, kind: StreamKind, now: Timestamp)
    requires
        0 <= now,
        hub.deadline <= i64::MAX,
    ensures
        hub.deadline > now ==> hub.first_step(now) == (LinkAction::Cool {
            ms: (hub.deadline - now) as u64,
        }) && hub.first_view(view, kind, now).link(kind) == (LinkModel::CoolingDown {
            remaining_ms: (hub.deadline - now) as u64,
        }),
        hub.deadline <= now ==> hub.first_step(now) == LinkAction::Connect && hub.first_view(
            view,
            kind,
            now,
        ).link(kind) is Connecting,
{
}

/// A limited handshake is waited out from now on, and never less than an earlier wait still asks for.
pub proof fn law_limits_only_lengthen_the_wait(hub: HubModel, wait: u64, now: Timestamp)
    requires
        0 <= now,
        now + wait <= i64::MAX,
    ensures
        hub.limited(wait, now).deadline >= now + wait,
        hub.limited(wait, now).deadline >= hub.deadline,
        hub.limited(wait, now).deadline == now + wait || hub.limited(wait, now).deadline
            == hub.deadline,
        hub.limited(wait, now).feeds == hub.feeds,
{
}

} // verus!
