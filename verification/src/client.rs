//! What a client of the exchange sends, and what it makes of the answers.
//!
//! Nothing is sent here: the client says which request to send, and takes the answer. While the
//! exchange limits requests none goes out, and answers to public requests are kept for a while,
//! so that how much is sent does not depend on how many are looking.

use std::sync::atomic::AtomicU64;
use std::sync::Arc;
use vstd::prelude::*;
use crate::binance::{
    classify_api_error_with, find_contract, fee_schedule_from_account, parse_all_contracts,
    read_amount, AcceptedModel, AcceptedOrder, AccountFeeResponse, BinanceError, ContractSpec,
    ExchangeInfoResponse, OrderRequest, OrderResponse, RateLimitHint, RequestModel, SpecModel,
};
use crate::clock::{after, Timestamp};
use crate::cooldown::{wait_after_limit, Cooldown};
use crate::decimal::Decimal;
use crate::error::{ExchangeError, Failure};
use crate::instrument::FeeSchedule;
use crate::json::{field, fits, list_of, read_json, JsonModel};
use crate::keyed::TextMap;
use crate::mode::ServiceMode;
use crate::shared_end::Act;
use crate::signing::{endpoint_allowed, Credentials, ParamModel};
use crate::text::{
    chars_of, contains, first_chars, i64_text, joined, joined3, joined4, same_text, trim_slashes,
};

verus! {

/// The exchange itself.
pub const PRODUCTION_URL: &'static str = "https://fapi.binance.com";

/// The exchange's test network.
pub const TESTNET_URL: &'static str = "https://testnet.binancefuture.com";

/// How long a signed request may take, in milliseconds.
pub const DEFAULT_RECV_WINDOW_MS: u64 = 5000;

/// How many characters of an answer that is not the exchange's own are kept for the record.
pub const LOG_BODY_MAX_CHARS: usize = 200;

/// How a signing client runs. There is none for paper trading.
#[derive(Clone, Copy, Debug, PartialEq, Eq, Structural)]
pub enum Mode {
    Live,
}

/// The mode of a client for a service; paper trading needs none.
pub fn exchange_mode_for(service: ServiceMode) -> (r: Option<Mode>)
    ensures
        r == (match service {
            ServiceMode::Paper => None::<Mode>,
            ServiceMode::Live => Some(Mode::Live),
        }),
{
    match service {
        ServiceMode::Paper => None,
        ServiceMode::Live => Some(Mode::Live),
    }
}

/// An answer that is kept.
struct CacheEntry {
    body: String,
    expires_at_ms: i64,
}

/// Answers to public requests, until they run out. Signed requests are never answered from here.
pub struct MarketCache {
    entries: TextMap<CacheEntry>,
}

/// An answer that is kept, and when it runs out.
pub type KeptModel = (Seq<char>, i64);

impl View for MarketCache {
    type V = Map<Seq<char>, KeptModel>;

    closed spec fn view(&self) -> Map<Seq<char>, KeptModel> {
        self.entries@.map_values(|e: CacheEntry| (e.body@, e.expires_at_ms))
    }
}

/// The answers that have not run out.
pub open spec fn unexpired(m: Map<Seq<char>, KeptModel>, now: Timestamp) -> Map<Seq<char>, KeptModel> {
    m.restrict(Set::new(|k: Seq<char>| m.dom().contains(k) && m[k].1 > now))
}

/// The answer under a key that has not run out.
pub open spec fn kept(m: Map<Seq<char>, KeptModel>, key: Seq<char>, now: Timestamp) -> Option<Seq<char>> {
    if m.dom().contains(key) && m[key].1 > now {
        Some(m[key].0)
    } else {
        None
    }
}

impl MarketCache {
    /// The keys are in order.
    pub closed spec fn wf(&self) -> bool {
        self.entries.wf()
    }

    /// Nothing kept.
    pub fn new() -> (r: Self)
        ensures
            r.wf(),
            r@ == Map::<Seq<char>, KeptModel>::empty(),
    {
        let r = MarketCache { entries: TextMap::new() };
        assert(r@ =~= Map::<Seq<char>, KeptModel>::empty());
        r
    }

    /// The answer under a key, unless it has run out.
    pub fn get(&self, key: &str, now: Timestamp) -> (r: Option<String>)
        requires
            self.wf(),
        ensures
            match r {
                Some(s) => kept(self@, key@, now) == Some(s@),
                None => kept(self@, key@, now) is None,
            },
    {
        match self.entries.get(key) {
            Some(e) => if e.expires_at_ms <= now {
                None
            } else {
                Some(e.body.clone())
            },
            None => None,
        }
    }

    /// Drops the answers that have run out.
    fn prune(&mut self, now: Timestamp)
        requires
            old(self).wf(),
        ensures
            final(self).wf(),
            final(self)@ == unexpired(old(self)@, now),
    {
        let ghost m = self.entries@;
        let ghost keys = self.entries.keys();
        proof {
            self.entries.lemma_keys();
        }
        let mut alive: TextMap<CacheEntry> = TextMap::new();
        let n = self.entries.len();
        for i in 0..n
            invariant
                self.entries.wf(),
                m == self.entries@,
                keys == self.entries.keys(),
                n == keys.len(),
                alive.wf(),
                forall|k: Seq<char>| #[trigger]
                    alive@.dom().contains(k) <==> keys.take(i as int).contains(k)
                        && m[k].expires_at_ms > now,
                forall|k: Seq<char>| #[trigger] alive@.dom().contains(k) ==> alive@[k] == m[k],
        {
            let e = self.entries.value(i);
            let key = self.entries.key(i);
            let ghost before = alive@;
            proof {
                assert(keys.take(i + 1) =~= keys.take(i as int).push(keys[i as int]));
                assert forall|k: Seq<char>| keys.take(i + 1).contains(k) <==> (keys.take(
                    i as int,
                ).contains(k) || k == keys[i as int]) by {
                    if keys.take(i as int).contains(k) {
                        let some = keys.take(i as int);
                        let j = choose|j: int| 0 <= j < some.len() && some[j] == k;
                        assert(keys.take(i + 1)[j] == k);
                    }
                    if k == keys[i as int] {
                        assert(keys.take(i + 1)[i as int] == k);
                    }
                    let more = keys.take(i + 1);
                    if more.contains(k) {
                        let j = choose|j: int| 0 <= j < more.len() && more[j] == k;
                        if j < i {
                            assert(keys.take(i as int)[j] == k);
                        }
                    }
                }
            }
            if e.expires_at_ms > now {
                alive.insert(
                    key.clone(),
                    CacheEntry { body: e.body.clone(), expires_at_ms: e.expires_at_ms },
                );
            }
        }
        proof {
            assert(keys.take(n as int) =~= keys);
            let want = unexpired(old(self)@, now);
            let have = alive@.map_values(|e: CacheEntry| (e.body@, e.expires_at_ms));
            assert(have =~= want);
        }
        self.entries = alive;
    }

    /// Keeps an answer for some time, and drops those that have run out.
    pub fn put(&mut self, key: String, body: String, ttl_ms: i64, now: Timestamp)
        requires
            old(self).wf(),
        ensures
            final(self).wf(),
            final(self)@ == unexpired(old(self)@, now).insert(
                key@,
                (body@, crate::clock::moved(now as int, ttl_ms as int) as i64),
            ),
    {
        self.prune(now);
        let ghost pruned = self@;
        let ghost k = key@;
        let ghost b = body@;
        let expires_at_ms = after(now, ttl_ms);
        self.entries.insert(key, CacheEntry { body, expires_at_ms });
        assert(self@ =~= pruned.insert(k, (b, expires_at_ms)));
    }
}

/// A client of the exchange.
pub struct BinanceClient {
    base: String,
    creds: Option<Credentials>,
    recv_window_ms: u64,
    cooldown: Cooldown,
    cache: MarketCache,
}

/// The state of a client.
pub struct ClientModel {
    pub base: Seq<char>,
    /// The key and the secret.
    pub creds: Option<(Seq<char>, Seq<char>)>,
    pub recv_window_ms: u64,
    /// Until when no request may be sent, as this client was told.
    pub deadline: int,
    /// Where the end of the wait is kept that is shared with others.
    pub cell: Arc<AtomicU64>,
    /// What this client has done to that end.
    pub acts: Seq<Act>,
    pub cache: Map<Seq<char>, KeptModel>,
}

impl View for BinanceClient {
    type V = ClientModel;

    closed spec fn view(&self) -> ClientModel {
        ClientModel {
            base: self.base@,
            creds: match self.creds {
                Some(c) => Some((c.key(), c.hidden())),
                None => None,
            },
            recv_window_ms: self.recv_window_ms,
            deadline: self.cooldown.noted_until(),
            cell: self.cooldown.cell(),
            acts: self.cooldown.acts(),
            cache: self.cache@,
        }
    }
}

/// What becomes of a public request.
#[derive(Debug, PartialEq, Eq)]
pub enum PublicStep {
    /// An answer that was kept.
    Answer(String),
    /// No request may be sent.
    Refused(ExchangeError),
    /// The request to send.
    Send { url: String },
}

/// A [`PublicStep`] with its texts as sequences of characters.
pub enum StepModel {
    Answer(Seq<char>),
    Refused(Failure),
    Send { url: Seq<char> },
}

impl View for PublicStep {
    type V = StepModel;

    open spec fn view(&self) -> StepModel {
        match *self {
            PublicStep::Answer(s) => StepModel::Answer(s@),
            PublicStep::Refused(e) => StepModel::Refused(e@),
            PublicStep::Send { url } => StepModel::Send { url: url@ },
        }
    }
}

/// The path and the query of a request.
pub open spec fn request_key(path: Seq<char>, query: Seq<char>) -> Seq<char> {
    path + "?"@ + query
}

impl ClientModel {
    /// A client of a host, before anything was sent.
    pub open spec fn fresh(
        base: Seq<char>,
        creds: Option<(Seq<char>, Seq<char>)>,
        deadline: int,
        cell: Arc<AtomicU64>,
        acts: Seq<Act>,
    ) -> ClientModel {
        ClientModel {
            base: crate::text::without_slashes(base),
            creds,
            recv_window_ms: DEFAULT_RECV_WINDOW_MS,
            deadline,
            cell,
            acts,
            cache: Map::empty(),
        }
    }

    /// The client where others wait until a given time: it waits with them.
    pub open spec fn alongside(self, shared: u64) -> ClientModel {
        ClientModel {
            deadline: crate::cooldown::later(self.deadline, crate::cooldown::as_signed(shared)),
            ..self
        }
    }

    /// How long no request may be sent.
    pub open spec fn wait_at(self, now: Timestamp) -> Option<int> {
        crate::cooldown::left(self.deadline, now)
    }

    /// What becomes of a public request whose answer may be kept for some time. An answer that is
    /// kept is given also while requests are limited.
    pub open spec fn public_step(self, path: Seq<char>, query: Seq<char>, ttl_ms: i64, now: Timestamp) -> StepModel {
        match kept(self.cache, request_key(path, query), now) {
            Some(body) if ttl_ms > 0 => StepModel::Answer(body),
            _ => match self.wait_at(now) {
                Some(ms) => StepModel::Refused(Failure::RateLimited { retry_after_ms: ms as u64 }),
                None => StepModel::Send {
                    url: if query.len() == 0 {
                        self.base + path
                    } else {
                        self.base + path + "?"@ + query
                    },
                },
            },
        }
    }

    /// What stands in the way of a signed request.
    pub open spec fn signed_bar(self, path: Seq<char>, now: Timestamp) -> Option<Failure> {
        let url = self.base + path;
        if self.creds is None {
            Some(Failure::Fatal("该操作需要 API 凭据，但客户端是只读的"@))
        } else {
            match self.wait_at(now) {
                Some(ms) => Some(Failure::RateLimited { retry_after_ms: ms as u64 }),
                None => if crate::signing::endpoint_ok(url) {
                    None
                } else {
                    Some(Failure::Fatal(crate::signing::host_fault(url)))
                },
            }
        }
    }

    /// The URL of a signed request at a time.
    pub open spec fn signed_url(self, path: Seq<char>, params: Seq<ParamModel>, at: u64) -> Seq<char> {
        self.base + path + "?"@ + crate::signing::signed_text(
            (self.creds->0).1,
            params,
            self.recv_window_ms,
            at,
        )
    }

    /// Whether a result is that of a signed request, signed for a time.
    pub open spec fn signs(
        self,
        path: Seq<char>,
        params: Seq<ParamModel>,
        now: Timestamp,
        at: u64,
        r: Result<String, ExchangeError>,
    ) -> bool {
        match r {
            Ok(url) => self.signed_bar(path, now) is None && url@ == self.signed_url(
                path,
                params,
                at,
            ),
            Err(e) => self.signed_bar(path, now) == Some(e@),
        }
    }

    /// Whether a result is that of a signed request, signed for what the clock said. Nothing is
    /// signed where the clock cannot be read.
    pub open spec fn signs_now(
        self,
        path: Seq<char>,
        params: Seq<ParamModel>,
        now: Timestamp,
        r: Result<String, ExchangeError>,
    ) -> bool {
        match r {
            Ok(url) => self.signed_bar(path, now) is None && exists|at: u64|
                url@ == #[trigger] self.signed_url(path, params, at),
            Err(e) => self.signed_bar(path, now) == Some(e@) || (self.signed_bar(path, now) is None
                && e@ == Failure::Fatal("系统时钟早于 UNIX 纪元"@)),
        }
    }

    /// After requests were limited until a time: this client waits, and so do all that share the
    /// end of the wait.
    pub open spec fn limited_until(self, until: int) -> ClientModel {
        ClientModel {
            deadline: crate::cooldown::later(self.deadline, until),
            acts: crate::cooldown::acts_when_armed(self.acts, until),
            ..self
        }
    }

    /// After an answer that is no success. A limited request makes everyone wait.
    pub open spec fn failed(self, status: u16, header: Option<Seq<char>>, body: Seq<char>, now: Timestamp) -> ClientModel {
        if status == 429 || status == 418 {
            self.limited_until(
                crate::clock::moved(
                    now as int,
                    crate::cooldown::limit_wait(header, body, now),
                ),
            )
        } else {
            self
        }
    }

    /// After an answer, where the shared end of the wait was found to be a given one. A success
    /// ends a wait only where that is over.
    pub open spec fn answered(
        self,
        status: u16,
        header: Option<Seq<char>>,
        body: Seq<char>,
        now: Timestamp,
        found: u64,
    ) -> ClientModel {
        if 200 <= status < 300 {
            ClientModel {
                deadline: if self.deadline <= now {
                    0
                } else {
                    self.deadline
                },
                acts: crate::cooldown::acts_after_success(self.acts, found, now),
                ..self
            }
        } else {
            self.failed(status, header, body, now)
        }
    }

    /// After a wait was taken over from another, where the end that the other shares is a given
    /// one.
    pub open spec fn adopting(self, noted: int, shared: u64) -> ClientModel {
        ClientModel {
            deadline: crate::cooldown::later(self.deadline, noted),
            acts: crate::cooldown::acts_when_adopted(self.acts, noted, shared),
            ..self
        }
    }
}

impl BinanceClient {
    /// The cache is well-formed.
    pub closed spec fn wf(&self) -> bool {
        self.cache.wf()
    }

    /// A client without credentials, for what the exchange makes public.
    pub fn public(base: &str) -> (r: Result<Self, ExchangeError>)
        ensures
            match r {
                Ok(c) => c.wf() && crate::signing::endpoint_ok(base@) && c@ == ClientModel::fresh(
                    base@,
                    None,
                    0,
                    c@.cell,
                    Seq::empty(),
                ),
                Err(e) => !crate::signing::endpoint_ok(base@) && e@ == Failure::Fatal(
                    crate::signing::host_fault(base@),
                ),
            },
    {
        Self::public_with_cooldown(base, Cooldown::new())
    }

    /// A client without credentials that waits as others do.
    pub fn public_with_cooldown(base: &str, cooldown: Cooldown) -> (r: Result<Self, ExchangeError>)
        ensures
            match r {
                Ok(c) => c.wf() && crate::signing::endpoint_ok(base@) && c@ == ClientModel::fresh(
                    base@,
                    None,
                    cooldown.noted_until(),
                    cooldown.cell(),
                    cooldown.acts(),
                ),
                Err(e) => !crate::signing::endpoint_ok(base@) && e@ == Failure::Fatal(
                    crate::signing::host_fault(base@),
                ),
            },
    {
        match endpoint_allowed(base) {
            Ok(_) => Ok(Self::build(base, None, cooldown)),
            Err(e) => Err(e.into_exchange_error()),
        }
    }

    fn build(base: &str, creds: Option<Credentials>, cooldown: Cooldown) -> (r: Self)
        ensures
            r.wf(),
            r@ == ClientModel::fresh(
                base@,
                match creds {
                    Some(c) => Some((c.key(), c.hidden())),
                    None => None,
                },
                cooldown.noted_until(),
                cooldown.cell(),
                cooldown.acts(),
            ),
    {
        BinanceClient {
            base: trim_slashes(base),
            creds,
            recv_window_ms: DEFAULT_RECV_WINDOW_MS,
            cooldown,
            cache: MarketCache::new(),
        }
    }

    /// A client that signs. The mode says that this is meant.
    pub fn signed(base: &str, creds: Credentials, mode: Mode) -> (r: Result<Self, ExchangeError>)
        ensures
            match r {
                Ok(c) => c.wf() && crate::signing::endpoint_ok(base@) && c@ == ClientModel::fresh(
                    base@,
                    Some((creds.key(), creds.hidden())),
                    0,
                    c@.cell,
                    Seq::empty(),
                ),
                Err(e) => !crate::signing::endpoint_ok(base@) && e@ == Failure::Fatal(
                    crate::signing::host_fault(base@),
                ),
            },
    {
        Self::signed_with_cooldown(base, creds, mode, Cooldown::new())
    }

    /// A client that signs and waits as others do.
    pub fn signed_with_cooldown(base: &str, creds: Credentials, mode: Mode, cooldown: Cooldown) -> (r:
        Result<Self, ExchangeError>)
        ensures
            match r {
                Ok(c) => c.wf() && crate::signing::endpoint_ok(base@) && c@ == ClientModel::fresh(
                    base@,
                    Some((creds.key(), creds.hidden())),
                    cooldown.noted_until(),
                    cooldown.cell(),
                    cooldown.acts(),
                ),
                Err(e) => !crate::signing::endpoint_ok(base@) && e@ == Failure::Fatal(
                    crate::signing::host_fault(base@),
                ),
            },
    {
        let Mode::Live = mode;
        match endpoint_allowed(base) {
            Ok(_) => Ok(Self::build(base, Some(creds), cooldown)),
            Err(e) => Err(e.into_exchange_error()),
        }
    }

    /// A client that signs, from settings that may be missing. The test network is the default.
    pub fn from_settings(creds: Option<Credentials>, base: Option<String>) -> (r: Result<
        Self,
        ExchangeError,
    >)
        ensures
            ({
                let host = match base {
                    Some(b) => b@,
                    None => TESTNET_URL@,
                };
                match creds {
                    None => r matches Err(e) && e@ == Failure::Fatal(
                        "缺少 API 凭据。需要设置 RUST_CRYPTO_BINANCE_API_KEY 与 RUST_CRYPTO_BINANCE_API_SECRET。"@,
                    ),
                    Some(k) => match r {
                        Ok(c) => c.wf() && crate::signing::endpoint_ok(host) && c@
                            == ClientModel::fresh(
                            host,
                            Some((k.key(), k.hidden())),
                            0,
                            c@.cell,
                            Seq::empty(),
                        ),
                        Err(e) => !crate::signing::endpoint_ok(host) && e@ == Failure::Fatal(
                            crate::signing::host_fault(host),
                        ),
                    },
                }
            }),
    {
        match creds {
            None => Err(
                ExchangeError::Fatal(
                    "缺少 API 凭据。需要设置 RUST_CRYPTO_BINANCE_API_KEY 与 RUST_CRYPTO_BINANCE_API_SECRET。".to_owned(),
                ),
            ),
            Some(c) => match &base {
                Some(b) => Self::signed(b.as_str(), c, Mode::Live),
                None => Self::signed(TESTNET_URL, c, Mode::Live),
            },
        }
    }

    pub fn cooldown(&self) -> (r: &Cooldown)
        ensures
            r.noted_until() == self@.deadline,
            r.cell() == self@.cell,
            r.acts() == self@.acts,
    {
        &self.cooldown
    }

    /// Makes another client wait at least as long as this one.
    pub fn share_cooldown_with(&self, other: &mut BinanceClient)
        requires
            old(other).wf(),
        ensures
            final(other).wf(),
            exists|shared: u64|
                final(other)@ == #[trigger] old(other)@.adopting(self@.deadline, shared),
    {
        other.cooldown.adopt(&self.cooldown);
        proof {
            let shared = choose|shared: u64|
                other@.acts == #[trigger] crate::cooldown::acts_when_adopted(
                    old(other)@.acts,
                    self@.deadline,
                    shared,
                );
            assert(other@ == old(other)@.adopting(self@.deadline, shared));
        }
    }

    /// Makes this client wait some time from now.
    pub fn arm_cooldown(&mut self, duration_ms: u64, now: Timestamp)
        requires
            old(self).wf(),
        ensures
            final(self).wf(),
            final(self)@ == old(self)@.limited_until(
                crate::clock::moved(now as int, crate::cooldown::as_signed(duration_ms)),
            ),
    {
        self.cooldown.arm_ms(duration_ms, now);
    }

    /// How long no request may be sent, whatever the shared end of the wait is.
    pub fn cooldown_remaining_ms(&self, now: Timestamp) -> (r: Option<u64>)
        ensures
            exists|shared: u64|
                crate::cooldown::waits(r, (#[trigger] self@.alongside(shared)).wait_at(now)),
    {
        let shared = self.cooldown.shared_until();
        let r = self.cooldown.remaining_with(shared, now);
        assert(crate::cooldown::waits(r, self@.alongside(shared).wait_at(now)));
        r
    }

    pub fn base_url(&self) -> (r: &str)
        ensures
            r@ == self@.base,
    {
        self.base.as_str()
    }

    pub fn is_signed(&self) -> (r: bool)
        ensures
            r == (self@.creds is Some),
    {
        self.creds.is_some()
    }

    /// The credentials; without them nothing can be signed.
    pub fn require_creds(&self) -> (r: Result<&Credentials, ExchangeError>)
        ensures
            match r {
                Ok(c) => self@.creds == Some((c.key(), c.hidden())),
                Err(e) => self@.creds is None && e@ == Failure::Fatal(
                    "该操作需要 API 凭据，但客户端是只读的"@,
                ),
            },
    {
        match &self.creds {
            Some(c) => Ok(c),
            None => Err(
                ExchangeError::Fatal("该操作需要 API 凭据，但客户端是只读的".to_owned()),
            ),
        }
    }

    /// Checks that a request may be sent now, where others wait until a given time.
    fn check_cooldown(&self, now: Timestamp, shared: u64) -> (r: Result<(), ExchangeError>)
        ensures
            match r {
                Ok(_) => self@.alongside(shared).wait_at(now) is None,
                Err(e) => self@.alongside(shared).wait_at(now) is Some && e@
                    == (Failure::RateLimited {
                    retry_after_ms: self@.alongside(shared).wait_at(now)->0 as u64,
                }),
            },
    {
        match self.cooldown.remaining_with(shared, now) {
            Some(ms) => Err(ExchangeError::RateLimited { retry_after_ms: ms }),
            None => Ok(()),
        }
    }

    /// Says what becomes of a public request whose answer may be kept for some time; none is kept
    /// where that is zero.
    pub fn begin_public(&self, path: &str, query: &str, ttl_ms: i64, now: Timestamp) -> (r:
        PublicStep)
        requires
            self.wf(),
        ensures
            exists|shared: u64|
                r@ == (#[trigger] self@.alongside(shared)).public_step(path@, query@, ttl_ms, now),
    {
        let shared = self.cooldown.shared_until();
        let r = self.begin_public_with(path, query, ttl_ms, now, shared);
        assert(r@ == self@.alongside(shared).public_step(path@, query@, ttl_ms, now));
        r
    }

    /// Says what becomes of a public request where others wait until a given time.
    pub fn begin_public_with(
        &self,
        path: &str,
        query: &str,
        ttl_ms: i64,
        now: Timestamp,
        shared: u64,
    ) -> (r: PublicStep)
        requires
            self.wf(),
        ensures
            r@ == self@.alongside(shared).public_step(path@, query@, ttl_ms, now),
    {
        let key = joined3(path, "?", query);
        if ttl_ms > 0 {
            if let Some(body) = self.cache.get(key.as_str(), now) {
                return PublicStep::Answer(body);
            }
        }
        match self.check_cooldown(now, shared) {
            Err(e) => PublicStep::Refused(e),
            Ok(_) => {
                let q = chars_of(query);
                let url = if q.len() == 0 {
                    joined(self.base.as_str(), path)
                } else {
                    joined4(self.base.as_str(), path, "?", query)
                };
                PublicStep::Send { url }
            },
        }
    }

    /// Keeps the answer to a public request for some time.
    pub fn keep(&mut self, path: &str, query: &str, body: &str, ttl_ms: i64, now: Timestamp)
        requires
            old(self).wf(),
        ensures
            final(self).wf(),
            final(self)@ == (if ttl_ms > 0 {
                ClientModel {
                    cache: unexpired(old(self)@.cache, now).insert(
                        request_key(path@, query@),
                        (body@, crate::clock::moved(now as int, ttl_ms as int) as i64),
                    ),
                    ..old(self)@
                }
            } else {
                old(self)@
            }),
    {
        if ttl_ms > 0 {
            let key = joined3(path, "?", query);
            self.cache.put(key, body.to_owned(), ttl_ms, now);
        }
    }

    /// The URL of a signed request, signed for a time, whatever the shared end of the wait is.
    pub fn begin_signed_at(
        &self,
        path: &str,
        params: Vec<(&str, String)>,
        now: Timestamp,
        at: u64,
    ) -> (r: Result<String, ExchangeError>)
        ensures
            exists|shared: u64|
                (#[trigger] self@.alongside(shared)).signs(
                    path@,
                    crate::signing::params_of(params@),
                    now,
                    at,
                    r,
                ),
    {
        let shared = self.cooldown.shared_until();
        let ghost given = crate::signing::params_of(params@);
        let r = self.begin_signed_with(path, params, now, at, shared);
        assert(self@.alongside(shared).signs(path@, given, now, at, r));
        r
    }

    /// The URL of a signed request, signed for a time, where others wait until a given time.
    pub fn begin_signed_with(
        &self,
        path: &str,
        params: Vec<(&str, String)>,
        now: Timestamp,
        at: u64,
        shared: u64,
    ) -> (r: Result<String, ExchangeError>)
        ensures
            self@.alongside(shared).signs(
                path@,
                crate::signing::params_of(params@),
                now,
                at,
                r,
            ),
    {
        let creds = match self.require_creds() {
            Ok(c) => c,
            Err(e) => return Err(e),
        };
        match self.check_cooldown(now, shared) {
            Ok(_) => {},
            Err(e) => return Err(e),
        }
        let url = joined(self.base.as_str(), path);
        match endpoint_allowed(url.as_str()) {
            Ok(_) => {},
            Err(e) => return Err(e.into_exchange_error()),
        }
        let query = creds.sign_params_at(params, self.recv_window_ms, at);
        Ok(joined3(url.as_str(), "?", query.as_str()))
    }

    /// The URL of a signed request, signed for now. Nothing is signed while requests are limited,
    /// and nothing for a host that is not the exchange's own.
    pub fn begin_signed(&self, path: &str, params: Vec<(&str, String)>, now: Timestamp) -> (r: Result<
        String,
        ExchangeError,
    >)
        ensures
            exists|shared: u64|
                (#[trigger] self@.alongside(shared)).signs_now(
                    path@,
                    crate::signing::params_of(params@),
                    now,
                    r,
                ),
    {
        let shared = self.cooldown.shared_until();
        let ghost c = self@.alongside(shared);
        let ghost given = crate::signing::params_of(params@);
        let r = match crate::signing::timestamp_ms() {
            Ok(at) => {
                let r = self.begin_signed_with(path, params, now, at, shared);
                assert(c.signs(path@, given, now, at, r));
                assert(c.signs_now(path@, given, now, r));
                r
            },
            Err(e) => {
                match self.begin_signed_with(path, params, now, 0, shared) {
                    Ok(_) => Err(e.into_exchange_error()),
                    Err(bar) => Err(bar),
                }
            },
        };
        assert(self@.alongside(shared).signs_now(path@, given, now, r));
        r
    }

    /// Takes an answer: its body where it is a success, else the sorted failure. A limited request
    /// makes everyone wait.
    pub fn finish(
        &mut self,
        status: u16,
        retry_after: Option<&str>,
        body: String,
        now: Timestamp,
    ) -> (r: Result<String, ExchangeError>)
        requires
            old(self).wf(),
        ensures
            final(self).wf(),
            exists|found: u64|
                final(self)@ == #[trigger] old(self)@.answered(
                    status,
                    crate::cooldown::header_text(retry_after),
                    body@,
                    now,
                    found,
                ),
            match r {
                Ok(s) => 200 <= status < 300 && s == body,
                Err(e) => !(200 <= status < 300) && e@ == crate::binance::sorted(
                    status,
                    body@,
                    crate::binance::error_of(body@),
                    crate::cooldown::limit_wait(
                        crate::cooldown::header_text(retry_after),
                        body@,
                        now,
                    ),
                ),
            },
    {
        let ghost header = crate::cooldown::header_text(retry_after);
        if 200 <= status && status < 300 {
            self.cooldown.clear_if_elapsed(now);
            proof {
                let found = choose|found: u64|
                    self@.acts == #[trigger] crate::cooldown::acts_after_success(
                        old(self)@.acts,
                        found,
                        now,
                    );
                assert(self@ == old(self)@.answered(status, header, body@, now, found));
            }
            Ok(body)
        } else {
            let e = self.upstream_failure(status, retry_after, body.as_str(), now);
            assert(self@ == old(self)@.answered(status, header, body@, now, 0));
            Err(e)
        }
    }

    /// Takes an answer that is no success.
    fn upstream_failure(
        &mut self,
        status: u16,
        retry_after: Option<&str>,
        body: &str,
        now: Timestamp,
    ) -> (r: ExchangeError)
        requires
            old(self).wf(),
            !(200 <= status < 300),
        ensures
            final(self).wf(),
            final(self)@ == old(self)@.failed(
                status,
                crate::cooldown::header_text(retry_after),
                body@,
                now,
            ),
            r@ == crate::binance::sorted(
                status,
                body@,
                crate::binance::error_of(body@),
                crate::cooldown::limit_wait(
                    crate::cooldown::header_text(retry_after),
                    body@,
                    now,
                ),
            ),
    {
        if status == 429 || status == 418 {
            let ms = wait_after_limit(retry_after, body, now);
            self.cooldown.arm_ms(ms, now);
        }
        classify_api_error_with(status, RateLimitHint { retry_after, body }, now)
    }
}

/// The request that failed.
#[derive(Clone, Copy, Debug, PartialEq, Eq, Structural)]
pub enum Method {
    Get,
    Post,
    Delete,
}

/// How a request failed without an answer.
#[derive(Clone, Copy, Debug, PartialEq, Eq, Structural)]
pub enum Transport {
    Timeout,
    Connect,
    Other,
}

impl Transport {
    /// The word for the record.
    pub fn kind(self) -> (r: &'static str)
        ensures
            r@ == (match self {
                Transport::Timeout => "timeout"@,
                Transport::Connect => "connect"@,
                Transport::Other => "other"@,
            }),
    {
        match self {
            Transport::Timeout => "timeout",
            Transport::Connect => "connect",
            Transport::Other => "other",
        }
    }
}

/// How a request without an answer is sorted. Where no connection came about, the request surely
/// did not arrive. After a timeout, or where the connection broke, that is not known.
pub open spec fn unanswered(method: Method, how: Transport, e: Seq<char>) -> Failure {
    match (method, how) {
        (Method::Delete, Transport::Timeout) => Failure::Unknown("撤单请求超时："@ + e),
        (_, Transport::Timeout) => Failure::Unknown("请求超时："@ + e),
        (Method::Post, Transport::Connect) => Failure::Definitive("连接失败："@ + e),
        (Method::Get, Transport::Connect) => Failure::Definitive("请求失败："@ + e),
        (Method::Delete, Transport::Connect) => Failure::Definitive("撤单请求失败："@ + e),
        (Method::Delete, Transport::Other) => Failure::Unknown("撤单请求失败："@ + e),
        (_, Transport::Other) => Failure::Unknown("请求失败："@ + e),
    }
}

/// Sorts a request without an answer.
pub fn transport_failure(method: Method, how: Transport, e: &str) -> (r: ExchangeError)
    ensures
        r@ == unanswered(method, how, e@),
{
    match (method, how) {
        (Method::Delete, Transport::Timeout) => ExchangeError::Unknown(
            joined("撤单请求超时：", e),
        ),
        (_, Transport::Timeout) => ExchangeError::Unknown(joined("请求超时：", e)),
        (Method::Post, Transport::Connect) => ExchangeError::Definitive(
            joined("连接失败：", e),
        ),
        (Method::Get, Transport::Connect) => ExchangeError::Definitive(
            joined("请求失败：", e),
        ),
        (Method::Delete, Transport::Connect) => ExchangeError::Definitive(
            joined("撤单请求失败：", e),
        ),
        (Method::Delete, Transport::Other) => ExchangeError::Unknown(
            joined("撤单请求失败：", e),
        ),
        (_, Transport::Other) => ExchangeError::Unknown(joined("请求失败：", e)),
    }
}

/// A request whose outcome is unsure is never sorted as safe to repeat, whatever was asked: only
/// one that found no connection is.
pub proof fn law_timeouts_are_unsure(method: Method, how: Transport, e: Seq<char>)
    ensures
        unanswered(method, how, e) is Definitive <==> how is Connect,
        unanswered(method, how, e) is Unknown <==> !(how is Connect),
{
}

/// The word for a truth value.
pub open spec fn bool_word(b: bool) -> Seq<char> {
    if b {
        "true"@
    } else {
        "false"@
    }
}

fn bool_text(b: bool) -> (r: String)
    ensures
        r@ == bool_word(b),
{
    if b {
        "true".to_owned()
    } else {
        "false".to_owned()
    }
}

/// Parameters with one more, where there is one.
pub open spec fn with_param(s: Seq<ParamModel>, name: Seq<char>, value: Option<Seq<char>>) -> Seq<ParamModel> {
    match value {
        Some(v) => s.push((name, v)),
        None => s,
    }
}

fn add_param(params: &mut Vec<(&'static str, String)>, name: &'static str, value: Option<String>)
    ensures
        crate::signing::params_of(final(params)@) == with_param(
            crate::signing::params_of(old(params)@),
            name@,
            crate::binance::maybe(value),
        ),
{
    if let Some(v) = value {
        let ghost before = params@;
        let ghost t = v@;
        params.push((name, v));
        assert(crate::signing::params_of(params@) =~= crate::signing::params_of(before).push(
            (name@, t),
        ));
    }
}

fn copied(s: &Option<String>) -> (r: Option<String>)
    ensures
        r == *s,
{
    match s {
        Some(t) => Some(t.clone()),
        None => None,
    }
}

impl RequestModel {
    /// The parameters of an order. The exchange is asked to answer with the result.
    pub open spec fn params(self) -> Seq<ParamModel> {
        let needed = seq![
            ("symbol"@, self.symbol),
            ("side"@, self.side),
            ("type"@, self.order_type),
            ("quantity"@, self.quantity),
            ("newClientOrderId"@, self.client_order_id),
            ("newOrderRespType"@, "RESULT"@),
        ];
        let a = with_param(needed, "price"@, self.price);
        let b = with_param(a, "timeInForce"@, self.time_in_force);
        let c = with_param(
            b,
            "reduceOnly"@,
            match self.reduce_only {
                Some(x) => Some(bool_word(x)),
                None => None,
            },
        );
        let d = with_param(c, "stopPrice"@, self.stop_price);
        let e = with_param(d, "workingType"@, self.working_type);
        let f = with_param(
            e,
            "priceProtect"@,
            match self.price_protect {
                Some(x) => Some(bool_word(x)),
                None => None,
            },
        );
        with_param(
            f,
            "goodTillDate"@,
            match self.good_till_date {
                Some(t) => Some(crate::text::signed_digits(t as int)),
                None => None,
            },
        )
    }
}

impl OrderRequest {
    /// The parameters of the order.
    pub fn params(&self) -> (r: Vec<(&'static str, String)>)
        ensures
            crate::signing::params_of(r@) == self@.params(),
    {
        let mut v: Vec<(&'static str, String)> = Vec::new();
        assert(crate::signing::params_of(v@) =~= Seq::<ParamModel>::empty());
        add_param(&mut v, "symbol", Some(self.symbol.clone()));
        add_param(&mut v, "side", Some(self.side.clone()));
        add_param(&mut v, "type", Some(self.order_type.clone()));
        add_param(&mut v, "quantity", Some(self.quantity.clone()));
        add_param(&mut v, "newClientOrderId", Some(self.client_order_id.clone()));
        add_param(&mut v, "newOrderRespType", Some("RESULT".to_owned()));
        assert(crate::signing::params_of(v@) =~= seq![
            ("symbol"@, self.symbol@),
            ("side"@, self.side@),
            ("type"@, self.order_type@),
            ("quantity"@, self.quantity@),
            ("newClientOrderId"@, self.client_order_id@),
            ("newOrderRespType"@, "RESULT"@),
        ]);
        add_param(&mut v, "price", copied(&self.price));
        add_param(&mut v, "timeInForce", copied(&self.time_in_force));
        let reduce_only = match self.reduce_only {
            Some(b) => Some(bool_text(b)),
            None => None,
        };
        add_param(&mut v, "reduceOnly", reduce_only);
        add_param(&mut v, "stopPrice", copied(&self.stop_price));
        add_param(&mut v, "workingType", copied(&self.working_type));
        let price_protect = match self.price_protect {
            Some(b) => Some(bool_text(b)),
            None => None,
        };
        add_param(&mut v, "priceProtect", price_protect);
        let good_till_date = match self.good_till_date {
            Some(t) => Some(i64_text(t)),
            None => None,
        };
        add_param(&mut v, "goodTillDate", good_till_date);
        v
    }
}

/// The parameters that name an order.
pub fn order_params(symbol: &str, client_order_id: &str) -> (r: Vec<(&'static str, String)>)
    ensures
        crate::signing::params_of(r@) == seq![
            ("symbol"@, symbol@),
            ("origClientOrderId"@, client_order_id@),
        ],
{
    let mut v: Vec<(&'static str, String)> = Vec::new();
    v.push(("symbol", symbol.to_owned()));
    v.push(("origClientOrderId", client_order_id.to_owned()));
    assert(crate::signing::params_of(v@) =~= seq![
        ("symbol"@, symbol@),
        ("origClientOrderId"@, client_order_id@),
    ]);
    v
}

/// The parameters that put a symbol under cross margin.
pub fn cross_margin_params(symbol: &str) -> (r: Vec<(&'static str, String)>)
    ensures
        crate::signing::params_of(r@) == seq![("symbol"@, symbol@), ("marginType"@, "CROSSED"@)],
{
    let mut v: Vec<(&'static str, String)> = Vec::new();
    v.push(("symbol", symbol.to_owned()));
    v.push(("marginType", "CROSSED".to_owned()));
    assert(crate::signing::params_of(v@) =~= seq![
        ("symbol"@, symbol@),
        ("marginType"@, "CROSSED"@),
    ]);
    v
}

/// Reads the answer to a new order. Where it cannot be read it is not known what became of the
/// order.
pub fn read_submitted(body: &str) -> (r: Result<AcceptedOrder, ExchangeError>)
    ensures
        match r {
            Ok(a) => crate::wire::answer_of(body@) matches Some(m) && a@ == m.accepted(),
            Err(e) => crate::wire::answer_of(body@) is None && e@ == Failure::Unknown(
                "下单响应无法解析："@ + crate::wire::unread(body@) + "；原文："@ + body@,
            ),
        },
{
    match OrderResponse::read(body) {
        Ok(resp) => AcceptedOrder::try_from(resp),
        Err(e) => Err(
            ExchangeError::Unknown(joined4("下单响应无法解析：", e.as_str(), "；原文：", body)),
        ),
    }
}

/// What looking up an order found.
pub open spec fn found_order(result: Result<Seq<char>, Failure>) -> Result<
    Option<AcceptedModel>,
    Failure,
> {
    match result {
        Ok(body) => match crate::wire::answer_of(body) {
            Some(m) => Ok(Some(m.accepted())),
            None => Err(
                Failure::Unknown("订单查询响应无法解析："@ + crate::wire::unread(body)),
            ),
        },
        Err(Failure::Definitive(m)) => if crate::text::holds_text(m, "-2013"@) {
            Ok(None)
        } else {
            Err(Failure::Definitive(m))
        },
        Err(e) => Err(e),
    }
}

/// A result with its texts as sequences of characters.
pub open spec fn outcome_of(r: Result<String, ExchangeError>) -> Result<Seq<char>, Failure> {
    match r {
        Ok(s) => Ok(s@),
        Err(e) => Err(e@),
    }
}

/// Reads the answer to a look-up. The exchange keeps no trace of a post-only order that it
/// refused, so an order that it does not know is none.
pub fn read_queried(result: Result<String, ExchangeError>) -> (r: Result<
    Option<AcceptedOrder>,
    ExchangeError,
>)
    ensures
        match r {
            Ok(Some(a)) => found_order(outcome_of(result)) == Ok::<
                Option<AcceptedModel>,
                Failure,
            >(Some(a@)),
            Ok(None) => found_order(outcome_of(result)) == Ok::<Option<AcceptedModel>, Failure>(
                None,
            ),
            Err(e) => found_order(outcome_of(result)) == Err::<Option<AcceptedModel>, Failure>(e@),
        },
{
    match result {
        Ok(body) => match OrderResponse::read(body.as_str()) {
            Ok(resp) => match AcceptedOrder::try_from(resp) {
                Ok(a) => Ok(Some(a)),
                Err(e) => Err(e),
            },
            Err(e) => Err(
                ExchangeError::Unknown(joined("订单查询响应无法解析：", e.as_str())),
            ),
        },
        Err(ExchangeError::Definitive(m)) => if contains(m.as_str(), "-2013") {
            Ok(None)
        } else {
            Err(ExchangeError::Definitive(m))
        },
        Err(e) => Err(e),
    }
}

/// Takes the answer to a cancellation. An order that the exchange does not know counts as
/// cancelled; a timeout does not.
pub fn read_cancelled(result: Result<String, ExchangeError>) -> (r: Result<(), ExchangeError>)
    ensures
        match outcome_of(result) {
            Ok(_) => r is Ok,
            Err(Failure::Definitive(m)) => if crate::text::holds_text(m, "-2011"@) {
                r is Ok
            } else {
                r matches Err(e) && e@ == Failure::Definitive(m)
            },
            Err(f) => r matches Err(e) && e@ == f,
        },
{
    match result {
        Ok(_) => Ok(()),
        Err(ExchangeError::Definitive(m)) => if contains(m.as_str(), "-2011") {
            Ok(())
        } else {
            Err(ExchangeError::Definitive(m))
        },
        Err(e) => Err(e),
    }
}

/// Reads the rules of all contracts.
pub fn read_exchange_info(body: &str) -> (r: Result<
    (TextMap<ContractSpec>, Vec<String>),
    ExchangeError,
>)
    ensures
        match r {
            Ok((map, errors)) => crate::wire::info_of(body@) matches Some(all) && map.wf()
                && map@.map_values(|c: ContractSpec| c@) == crate::binance::readable(all)
                && crate::position_set::texts(errors@) == crate::binance::unreadable(all),
            Err(e) => crate::wire::info_of(body@) is None && e@ == Failure::Fatal(
                "exchangeInfo 解析失败："@ + crate::wire::unread(body@),
            ),
        },
{
    match ExchangeInfoResponse::read(body) {
        Ok(resp) => Ok(parse_all_contracts(&resp)),
        Err(e) => Err(ExchangeError::Fatal(joined("exchangeInfo 解析失败：", e.as_str()))),
    }
}

/// Reads the rules of one contract.
pub fn read_contract(body: &str, symbol: &str) -> (r: Result<ContractSpec, ExchangeError>)
    ensures
        match crate::wire::info_of(body@) {
            Some(all) => match r {
                Ok(spec) => crate::binance::rules_of(all, symbol@) == Ok::<SpecModel, Seq<char>>(
                    spec@,
                ),
                Err(e) => e@ matches Failure::Fatal(s) && crate::binance::rules_of(all, symbol@)
                    == Err::<SpecModel, Seq<char>>(s),
            },
            None => r matches Err(e) && e@ == Failure::Fatal(
                "exchangeInfo 解析失败："@ + crate::wire::unread(body@),
            ),
        },
{
    match ExchangeInfoResponse::read(body) {
        Ok(resp) => find_contract(&resp, symbol),
        Err(e) => Err(ExchangeError::Fatal(joined("exchangeInfo 解析失败：", e.as_str()))),
    }
}

/// Reads the fee rates of an account.
pub fn read_account_fees(body: &str, at: Timestamp) -> (r: Result<FeeSchedule, ExchangeError>)
    ensures
        match r {
            Ok(f) => crate::wire::account_of(body@) matches Some((maker, taker)) && f.maker_rate
                == crate::binance::ratio_of(maker) && f.taker_rate == crate::binance::ratio_of(
                taker,
            ) && f.source is ExchangeAccount && f.observed_at == at,
            Err(e) => crate::wire::account_of(body@) is None && e@ == Failure::Fatal(
                "账户信息解析失败："@ + crate::wire::unread(body@),
            ),
        },
{
    match AccountFeeResponse::read(body) {
        Ok(resp) => Ok(fee_schedule_from_account(&resp, at)),
        Err(e) => Err(ExchangeError::Fatal(joined("账户信息解析失败：", e.as_str()))),
    }
}

/// What is noted of an error that the exchange sent, or of an answer that holds none: its
/// beginning.
pub fn noted_error(error: Option<BinanceError>, body: &str) -> (r: (Option<i64>, String))
    ensures
        match error {
            Some(e) => r.0 == Some(e.code) && r.1@ == e.msg@,
            None => r.0 is None && r.1@ == body@.take(
                if body@.len() < LOG_BODY_MAX_CHARS {
                    body@.len() as int
                } else {
                    LOG_BODY_MAX_CHARS as int
                },
            ),
        },
{
    match error {
        Some(e) => (Some(e.code), e.msg),
        None => {
            let v = chars_of(body);
            let n = if v.len() < LOG_BODY_MAX_CHARS {
                v.len()
            } else {
                LOG_BODY_MAX_CHARS
            };
            (None, first_chars(&v, n))
        },
    }
}

/// The code and the message of a failed answer, for the record. Of an answer that is not the
/// exchange's own the start is kept.
pub fn binance_error_fields(body: &str) -> (r: (Option<i64>, String))
    ensures
        match crate::binance::error_of(body@) {
            Some((code, msg)) => r.0 == Some(code as i64) && r.0->0 == code && r.1@ == msg,
            None => r.0 is None && r.1@ == body@.take(
                if body@.len() < LOG_BODY_MAX_CHARS {
                    body@.len() as int
                } else {
                    LOG_BODY_MAX_CHARS as int
                },
            ),
        },
{
    noted_error(BinanceError::read(body), body)
}

/// The balance of one asset.
pub type BalanceModel = (Seq<char>, Seq<char>);

/// The balance that a value is.
pub open spec fn balance_of(j: JsonModel) -> Option<BalanceModel> {
    match (j.field(0, "asset"@).text(false), j.field(1, "availableBalance"@).text(false)) {
        (Some(asset), Some(available)) => if j.fits(2) {
            Some((asset, available))
        } else {
            None
        },
        _ => None,
    }
}

/// The balances that some values are; `None` where one is none.
pub open spec fn balances_of(s: Seq<JsonModel>) -> Option<Seq<BalanceModel>>
    decreases s.len(),
{
    if s.len() == 0 {
        Some(Seq::empty())
    } else {
        match (balances_of(s.drop_last()), balance_of(s.last())) {
            (Some(before), Some(b)) => Some(before.push(b)),
            _ => None,
        }
    }
}

proof fn lemma_balances_fail(s: Seq<JsonModel>, n: nat)
    requires
        n <= s.len(),
        balances_of(s.take(n as int)) is None,
    ensures
        balances_of(s) is None,
    decreases s.len() - n,
{
    if n < s.len() {
        assert(s.take((n + 1) as int).drop_last() =~= s.take(n as int));
        lemma_balances_fail(s, n + 1);
    } else {
        assert(s.take(n as int) =~= s);
    }
}

/// The first balance of an asset.
pub open spec fn first_balance(s: Seq<BalanceModel>, asset: Seq<char>) -> Option<Seq<char>>
    decreases s.len(),
{
    if s.len() == 0 {
        None
    } else {
        match first_balance(s.drop_last(), asset) {
            Some(t) => Some(t),
            None => if s.last().0 == asset {
                Some(s.last().1)
            } else {
                None
            },
        }
    }
}

/// What is available of an asset, by a text. Balances of different assets are never added up.
pub open spec fn available_of(text: Seq<char>, asset: Seq<char>) -> Decimal {
    match crate::json::json_text(text) {
        Ok(JsonModel::List(s)) => match balances_of(s) {
            Some(all) => crate::binance::amount_or(first_balance(all, asset), Decimal::whole(0)),
            None => Decimal::whole(0),
        },
        _ => Decimal::whole(0),
    }
}

/// What is available of an asset, by balances of assets: the first balance of the asset. Zero
/// where there is none, or where it cannot be read.
pub fn balance_of_asset(balances: &Vec<(String, String)>, asset: &str) -> (r: Decimal)
    ensures
        r == crate::binance::amount_or(
            first_balance(crate::json::pair_texts(balances@), asset@),
            Decimal::whole(0),
        ),
{
    let ghost s = crate::json::pair_texts(balances@);
    for i in 0..balances.len()
        invariant
            s == crate::json::pair_texts(balances@),
            first_balance(s.take(i as int), asset@) is None,
    {
        assert(s.take(i + 1).drop_last() =~= s.take(i as int));
        assert(s.take(i + 1).last() == (balances@[i as int].0@, balances@[i as int].1@));
        if same_text(balances[i].0.as_str(), asset) {
            proof {
                lemma_first_balance(s, (i + 1) as nat, asset@);
            }
            return read_amount(balances[i].1.as_str(), Decimal::zero());
        }
    }
    assert(s.take(s.len() as int) =~= s);
    Decimal::zero()
}

proof fn lemma_first_balance(s: Seq<BalanceModel>, n: nat, asset: Seq<char>)
    requires
        n <= s.len(),
        first_balance(s.take(n as int), asset) is Some,
    ensures
        first_balance(s, asset) == first_balance(s.take(n as int), asset),
    decreases s.len() - n,
{
    if n < s.len() {
        assert(s.take((n + 1) as int).drop_last() =~= s.take(n as int));
        lemma_first_balance(s, n + 1, asset);
    } else {
        assert(s.take(n as int) =~= s);
    }
}

/// The balances of an answer; `None` where it cannot be read.
fn read_balances(body: &str) -> (r: Option<Vec<(String, String)>>)
    ensures
        match r {
            Some(v) => crate::json::json_text(body@) matches Ok(JsonModel::List(s)) && balances_of(
                s,
            ) == Some(crate::json::pair_texts(v@)),
            None => !(crate::json::json_text(body@) matches Ok(JsonModel::List(s)) && balances_of(
                s,
            ) is Some),
        },
{
    let v = match read_json(body) {
        Ok(v) => v,
        Err(_) => return None,
    };
    let items = match list_of(&v) {
        Some(items) => items,
        None => return None,
    };
    let ghost s = crate::json::jsons_of(items@);
    let mut all: Vec<(String, String)> = Vec::new();
    assert(crate::json::pair_texts(all@) =~= Seq::<BalanceModel>::empty());
    for i in 0..items.len()
        invariant
            s == crate::json::jsons_of(items@),
            crate::json::json_text(body@) == Ok::<JsonModel, Seq<char>>(JsonModel::List(s)),
            balances_of(s.take(i as int)) == Some(crate::json::pair_texts(all@)),
    {
        assert(s.take(i + 1).drop_last() =~= s.take(i as int));
        assert(s.take(i + 1).last() == crate::json::json_of(items@[i as int]));
        let item = &items[i];
        let name = field(item, 0, "asset").text(false);
        let available = field(item, 1, "availableBalance").text(false);
        let whole = fits(item, 2);
        match (name, available) {
            (Some(n), Some(a)) => {
                if !whole {
                    proof {
                        lemma_balances_fail(s, (i + 1) as nat);
                    }
                    return None;
                }
                let ghost before = crate::json::pair_texts(all@);
                let ghost here = (n@, a@);
                all.push((n, a));
                assert(crate::json::pair_texts(all@) =~= before.push(here));
            },
            _ => {
                proof {
                    lemma_balances_fail(s, (i + 1) as nat);
                }
                return None;
            },
        }
    }
    assert(s.take(s.len() as int) =~= s);
    Some(all)
}

/// Reads what is available of an asset: zero where the account has none of it, or the answer
/// cannot be read.
pub fn parse_available_balance(body: &str, asset: &str) -> (r: Decimal)
    ensures
        r == available_of(body@, asset@),
{
    match read_balances(body) {
        Some(balances) => balance_of_asset(&balances, asset),
        None => Decimal::zero(),
    }
}

/// While requests are limited nothing is sent, whatever others were told: a public request is
/// answered from memory or refused, and a signed one is refused.
pub proof fn law_nothing_is_sent_while_limited(
    c: ClientModel,
    shared: u64,
    path: Seq<char>,
    query: Seq<char>,
    ttl_ms: i64,
    now: Timestamp,
)
    requires
        c.deadline <= i64::MAX,
        0 <= now,
        c.wait_at(now) is Some,
    ensures
        !(c.alongside(shared).public_step(path, query, ttl_ms, now) is Send),
        c.alongside(shared).signed_bar(path, now) is Some,
{
}

/// Where others wait, nothing is sent either: a limit that one client runs into holds for all
/// that share the end of the wait.
pub proof fn law_shared_limits_are_kept(
    c: ClientModel,
    shared: u64,
    path: Seq<char>,
    query: Seq<char>,
    ttl_ms: i64,
    now: Timestamp,
)
    requires
        c.deadline <= i64::MAX,
        0 <= now < shared <= i64::MAX,
    ensures
        !(c.alongside(shared).public_step(path, query, ttl_ms, now) is Send),
        c.alongside(shared).signed_bar(path, now) is Some,
{
}

/// A limited request raises the shared end of the wait to its own end, so that everyone waits; and
/// a success leaves every wait that goes on as it is.
pub proof fn law_limits_are_passed_on(
    c: ClientModel,
    status: u16,
    header: Option<Seq<char>>,
    body: Seq<char>,
    now: Timestamp,
    found: u64,
)
    requires
        0 <= now,
        now + crate::cooldown::limit_wait(header, body, now) <= i64::MAX,
    ensures
        status == 429 || status == 418 ==> c.answered(status, header, body, now, found).acts
            == c.acts.push(
            Act::Raised((now + crate::cooldown::limit_wait(header, body, now)) as u64),
        ),
        200 <= status < 300 && crate::cooldown::as_signed(found) > now ==> c.answered(
            status,
            header,
            body,
            now,
            found,
        ).acts == c.acts.push(Act::Found(found)).push(Act::Settled { found, end: found }),
{
    crate::cooldown::law_limits_always_wait(header, body, now);
}

/// After a limited request no request is sent until its wait is over, whatever others were told.
pub proof fn law_limits_are_kept(
    c: ClientModel,
    shared: u64,
    found: u64,
    status: u16,
    header: Option<Seq<char>>,
    body: Seq<char>,
    now: Timestamp,
    later: Timestamp,
)
    requires
        status == 429 || status == 418,
        c.deadline <= i64::MAX,
        0 <= now <= later < now + crate::cooldown::limit_wait(header, body, now) <= i64::MAX,
    ensures
        c.answered(status, header, body, now, found).alongside(shared).wait_at(later) is Some,
{
}

/// An answer that is kept is given again until it runs out, and nothing is sent for it.
pub proof fn law_kept_answers_are_given(
    c: ClientModel,
    path: Seq<char>,
    query: Seq<char>,
    body: Seq<char>,
    ttl_ms: i64,
    now: Timestamp,
    later: Timestamp,
    deadline: int,
)
    requires
        ttl_ms > 0,
        now <= later < now + ttl_ms,
        later < i64::MAX,
    ensures
        (ClientModel {
            cache: unexpired(c.cache, now).insert(
                request_key(path, query),
                (body, crate::clock::moved(now as int, ttl_ms as int) as i64),
            ),
            deadline,
            ..c
        }).public_step(path, query, ttl_ms, later) == StepModel::Answer(body),
{
}

/// A request whose answer may not be kept is never answered from memory.
pub proof fn law_nothing_is_kept_for_zero(
    c: ClientModel,
    path: Seq<char>,
    query: Seq<char>,
    now: Timestamp,
)
    ensures
        !(c.public_step(path, query, 0, now) is Answer),
{
}

/// An answer is kept from when it came until its time is up, and not a moment longer; with it go all
/// that ran out before.
pub proof fn law_answers_run_out(
    m: Map<Seq<char>, KeptModel>,
    key: Seq<char>,
    body: Seq<char>,
    ttl_ms: i64,
    now: Timestamp,
    later: Timestamp,
    other: Seq<char>,
)
    requires
        0 <= ttl_ms,
        now + ttl_ms <= i64::MAX,
        now <= later,
        other != key,
    ensures
        ({
            let after = unexpired(m, now).insert(
                key,
                (body, crate::clock::moved(now as int, ttl_ms as int) as i64),
            );
            &&& kept(after, key, later) == (if later < now + ttl_ms {
                Some(body)
            } else {
                None
            })
            &&& kept(after, other, later) == kept(m, other, later)
            &&& after.dom().contains(other) <==> m.dom().contains(other) && m[other].1 > now
        }),
{
}

/// A public request is sent exactly where no answer that may be given is kept and no wait goes on; it
/// goes to the client's host, with its query behind its path.
pub proof fn law_public_requests_are_sent(
    c: ClientModel,
    path: Seq<char>,
    query: Seq<char>,
    ttl_ms: i64,
    now: Timestamp,
)
    requires
        0 <= now,
        c.deadline <= i64::MAX,
    ensures
        ({
            let given = ttl_ms > 0 && c.cache.dom().contains(path + "?"@ + query)
                && c.cache[path + "?"@ + query].1 > now;
            let step = c.public_step(path, query, ttl_ms, now);
            &&& step is Answer <==> given
            &&& step is Send <==> !given && c.deadline <= now
            &&& step is Refused <==> !given && c.deadline > now
            &&& step matches StepModel::Send { url } ==> url == (if query.len() == 0 {
                c.base + path
            } else {
                c.base + path + "?"@ + query
            })
            &&& step matches StepModel::Refused(e) ==> e == (Failure::RateLimited {
                retry_after_ms: (c.deadline - now) as u64,
            })
        }),
{
}

/// A signed request is made exactly where the client has credentials, no wait goes on, and the host is
/// one that requests may be signed for.
pub proof fn law_signed_requests_need_all_three(c: ClientModel, path: Seq<char>, now: Timestamp)
    requires
        0 <= now,
        c.deadline <= i64::MAX,
    ensures
        c.signed_bar(path, now) is None <==> c.creds is Some && c.deadline <= now
            && crate::signing::endpoint_ok(c.base + path),
        c.creds is None ==> c.signed_bar(path, now) matches Some(Failure::Fatal(_)),
        c.creds is Some && c.deadline > now ==> c.signed_bar(path, now) == Some(
            Failure::RateLimited { retry_after_ms: (c.deadline - now) as u64 },
        ),
{
}

/// A limited request is waited out from when it was answered: until the time that the answer names,
/// and never less than an earlier one still asks for. Any other failure changes nothing.
pub proof fn law_limits_are_waited_out(
    c: ClientModel,
    status: u16,
    header: Option<Seq<char>>,
    body: Seq<char>,
    now: Timestamp,
    found: u64,
)
    requires
        0 <= now,
        now + crate::cooldown::limit_wait(header, body, now) <= i64::MAX,
        !(200 <= status < 300),
    ensures
        ({
            let after = c.answered(status, header, body, now, found);
            let until = now + crate::cooldown::limit_wait(header, body, now);
            &&& status == 429 || status == 418 ==> after.deadline >= until && after.deadline
                >= c.deadline && (after.deadline == until || after.deadline == c.deadline)
            &&& status != 429 && status != 418 ==> after == c
            &&& after.cache == c.cache && after.base == c.base && after.creds == c.creds
        }),
{
    crate::cooldown::law_limits_always_wait(header, body, now);
}

proof fn lemma_param_kept(
    s: Seq<ParamModel>,
    name: Seq<char>,
    value: Option<Seq<char>>,
    p: ParamModel,
)
    ensures
        s.contains(p) ==> with_param(s, name, value).contains(p),
        value matches Some(v) ==> with_param(s, name, value).contains((name, v)),
        with_param(s, name, value).contains(p) ==> s.contains(p) || (value matches Some(v) && p == (
            name,
            v,
        )),
{
    let r = with_param(s, name, value);
    if let Some(v) = value {
        assert(r[s.len() as int] == (name, v));
        if s.contains(p) {
            let i = choose|i: int| 0 <= i < s.len() && s[i] == p;
            assert(r[i] == p);
        }
        if r.contains(p) && p != (name, v) {
            let i = choose|i: int| 0 <= i < r.len() && r[i] == p;
            assert(s[i] == p);
        }
    }
}

/// An order is sent with all that it holds, each part under the exchange's name for it, and with nothing
/// that it does not hold.
pub proof fn law_orders_are_sent_whole(r: RequestModel, p: ParamModel)
    ensures
        r.params().contains(p) <==> {
            ||| p == ("symbol"@, r.symbol)
            ||| p == ("side"@, r.side)
            ||| p == ("type"@, r.order_type)
            ||| p == ("quantity"@, r.quantity)
            ||| p == ("newClientOrderId"@, r.client_order_id)
            ||| p == ("newOrderRespType"@, "RESULT"@)
            ||| r.price matches Some(v) && p == ("price"@, v)
            ||| r.time_in_force matches Some(v) && p == ("timeInForce"@, v)
            ||| r.reduce_only matches Some(b) && p == ("reduceOnly"@, if b {
                "true"@
            } else {
                "false"@
            })
            ||| r.stop_price matches Some(v) && p == ("stopPrice"@, v)
            ||| r.working_type matches Some(v) && p == ("workingType"@, v)
            ||| r.price_protect matches Some(b) && p == ("priceProtect"@, if b {
                "true"@
            } else {
                "false"@
            })
            ||| r.good_till_date matches Some(t) && p == (
                "goodTillDate"@,
                crate::text::signed_digits(t as int),
            )
        },
{
    let needed = seq![
        ("symbol"@, r.symbol),
        ("side"@, r.side),
        ("type"@, r.order_type),
        ("quantity"@, r.quantity),
        ("newClientOrderId"@, r.client_order_id),
        ("newOrderRespType"@, "RESULT"@),
    ];
    assert(needed.contains(p) <==> p == needed[0] || p == needed[1] || p == needed[2] || p
        == needed[3] || p == needed[4] || p == needed[5]);
    let a = with_param(needed, "price"@, r.price);
    let b = with_param(a, "timeInForce"@, r.time_in_force);
    let reduce = match r.reduce_only {
        Some(x) => Some(bool_word(x)),
        None => None,
    };
    let c = with_param(b, "reduceOnly"@, reduce);
    let d = with_param(c, "stopPrice"@, r.stop_price);
    let e = with_param(d, "workingType"@, r.working_type);
    let protect = match r.price_protect {
        Some(x) => Some(bool_word(x)),
        None => None,
    };
    let f = with_param(e, "priceProtect"@, protect);
    let till = match r.good_till_date {
        Some(t) => Some(crate::text::signed_digits(t as int)),
        None => None,
    };
    lemma_param_kept(needed, "price"@, r.price, p);
    lemma_param_kept(a, "timeInForce"@, r.time_in_force, p);
    lemma_param_kept(b, "reduceOnly"@, reduce, p);
    lemma_param_kept(c, "stopPrice"@, r.stop_price, p);
    lemma_param_kept(d, "workingType"@, r.working_type, p);
    lemma_param_kept(e, "priceProtect"@, protect, p);
    lemma_param_kept(f, "goodTillDate"@, till, p);
}

/// An order is taken to be gone only where the exchange says for certain that it does not know it; an
/// answer that is unsure leaves it unsure.
pub proof fn law_only_unknown_orders_are_gone(result: Result<Seq<char>, Failure>)
    ensures
        found_order(result) == Ok::<Option<AcceptedModel>, Failure>(None) <==> (result matches Err(
            Failure::Definitive(m),
        ) && crate::text::holds_text(m, "-2013"@)),
        result matches Err(e) && !(e is Definitive) ==> found_order(result) == Err::<
            Option<AcceptedModel>,
            Failure,
        >(result->Err_0),
        result matches Ok(body) ==> (found_order(result) is Err ==> found_order(result)->Err_0
            is Unknown),
{
}

/// The balance of an asset is the first that is named for it; that of another asset never counts.
pub proof fn law_balances_are_of_their_asset(s: Seq<BalanceModel>, asset: Seq<char>)
    ensures
        first_balance(s, asset) matches Some(t) ==> exists|i: int|
            0 <= i < s.len() && (#[trigger] s[i]).0 == asset && s[i].1 == t && forall|j: int|
                0 <= j < i ==> (#[trigger] s[j]).0 != asset,
        first_balance(s, asset) is None ==> forall|i: int|
            0 <= i < s.len() ==> (#[trigger] s[i]).0 != asset,
    decreases s.len(),
{
    if s.len() > 0 {
        let before = s.drop_last();
        let n = s.len() - 1;
        law_balances_are_of_their_asset(before, asset);
        assert(s[n] == s.last());
        if let Some(t) = first_balance(before, asset) {
            let i = choose|i: int|
                0 <= i < before.len() && (#[trigger] before[i]).0 == asset && before[i].1 == t
                    && forall|j: int| 0 <= j < i ==> (#[trigger] before[j]).0 != asset;
            assert(s[i] == before[i]);
            assert forall|j: int| 0 <= j < i implies (#[trigger] s[j]).0 != asset by {
                assert(s[j] == before[j]);
            }
        } else {
            assert forall|j: int| 0 <= j < n implies (#[trigger] s[j]).0 != asset by {
                assert(s[j] == before[j]);
            }
        }
    }
}

/// A new client knows of no answer, waits as it is told, takes the slashes off its host, and lets its
/// requests be good for five seconds.
pub proof fn law_new_clients(
    base: Seq<char>,
    creds: Option<(Seq<char>, Seq<char>)>,
    deadline: int,
    cell: Arc<AtomicU64>,
    acts: Seq<Act>,
)
    ensures
        ({
            let c = ClientModel::fresh(base, creds, deadline, cell, acts);
            &&& c.recv_window_ms == 5000
            &&& c.cache.dom() =~= Set::empty()
            &&& c.deadline == deadline
            &&& c.creds == creds
            &&& c.base.len() > 0 ==> c.base.last() != '/'
        }),
{
    lemma_no_slash_behind(base);
}

proof fn lemma_no_slash_behind(s: Seq<char>)
    ensures
        crate::text::without_slashes(s).len() > 0 ==> crate::text::without_slashes(s).last() != '/',
    decreases s.len(),
{
    if s.len() > 0 && s.last() == '/' {
        lemma_no_slash_behind(s.drop_last());
    }
}

/// A success ends a wait that is over and leaves one that goes on, and keeps everything else.
pub proof fn law_success_ends_only_what_is_over(
    c: ClientModel,
    status: u16,
    header: Option<Seq<char>>,
    body: Seq<char>,
    now: Timestamp,
    found: u64,
)
    requires
        200 <= status < 300,
    ensures
        ({
            let after = c.answered(status, header, body, now, found);
            &&& c.deadline <= now ==> after.deadline == 0
            &&& c.deadline > now ==> after.deadline == c.deadline
            &&& after.cache == c.cache && after.base == c.base && after.creds == c.creds
                && after.recv_window_ms == c.recv_window_ms
        }),
{
}

} // verus!
