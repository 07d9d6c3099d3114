//! Waiting after the exchange has limited requests.
//!
//! The exchange answers too many requests with a refusal, and requests sent in spite of it with
//! a ban. Bans are counted by address, so whoever runs into one makes everyone wait. Nothing here
//! sleeps: it says how long no request may be sent.

use std::sync::atomic::AtomicU64;
use std::sync::Arc;
use vstd::prelude::*;
use crate::clock::Timestamp;
use crate::shared_end::{Act, SharedEnd};
use crate::text::{chars_of, find, parse_i64, parse_u64, trim};

verus! {

/// The wait where the exchange names none, in milliseconds.
pub const DEFAULT_RETRY_AFTER_MS: u64 = 1000;

/// The longest wait that is taken from one answer: an hour.
pub const MAX_RETRY_AFTER_MS: u64 = 3600000;

/// A wait held at the longest.
pub open spec fn capped(ms: int) -> int {
    if ms > MAX_RETRY_AFTER_MS {
        MAX_RETRY_AFTER_MS as int
    } else {
        ms
    }
}

/// The wait that a `Retry-After` header names: whole seconds, perhaps with white space around
/// them. No header, no number and zero name none.
pub open spec fn header_wait(raw: Option<Seq<char>>) -> Option<int> {
    match raw {
        None => None,
        Some(s) => match crate::text::unsigned_of(crate::text::trimmed(s)) {
            None => None,
            Some(secs) => if secs == 0 {
                None
            } else {
                Some(capped(secs * 1000))
            },
        },
    }
}

/// The text of an optional header.
pub open spec fn header_text(raw: Option<&str>) -> Option<Seq<char>> {
    match raw {
        Some(s) => Some(s@),
        None => None,
    }
}

/// The wait that a `Retry-After` header names.
pub fn parse_retry_after_opt(raw: Option<&str>) -> (r: Option<u64>)
    ensures
        match r {
            Some(ms) => header_wait(header_text(raw)) == Some(ms as int),
            None => header_wait(header_text(raw)) is None,
        },
        r matches Some(ms) ==> 1000 <= ms <= MAX_RETRY_AFTER_MS,
{
    match raw {
        None => None,
        Some(s) => {
            let t = trim(s);
            match parse_u64(t.as_str()) {
                None => None,
                Some(secs) => {
                    if secs == 0 {
                        None
                    } else if secs > 3600 {
                        Some(MAX_RETRY_AFTER_MS)
                    } else {
                        Some(secs * 1000)
                    }
                },
            }
        },
    }
}

/// The wait that a `Retry-After` header names, or the default. It is never zero: a wait that is
/// not named does not mean that a request may be sent at once.
pub fn parse_retry_after(raw: Option<&str>) -> (r: u64)
    ensures
        r == (match header_wait(header_text(raw)) {
            Some(ms) => ms,
            None => DEFAULT_RETRY_AFTER_MS as int,
        }),
        1000 <= r <= MAX_RETRY_AFTER_MS,
{
    match parse_retry_after_opt(raw) {
        Some(ms) => ms,
        None => DEFAULT_RETRY_AFTER_MS,
    }
}

/// How many decimal digits a text starts with.
pub open spec fn leading_digits(s: Seq<char>) -> nat
    decreases s.len(),
{
    if s.len() > 0 && '0' <= s[0] <= '9' {
        1 + leading_digits(s.drop_first())
    } else {
        0
    }
}

proof fn lemma_leading_digits(s: Seq<char>, k: nat)
    requires
        k <= s.len(),
        forall|i: int| 0 <= i < k ==> '0' <= #[trigger] s[i] <= '9',
        k == s.len() || !('0' <= s[k as int] <= '9'),
    ensures
        leading_digits(s) == k,
    decreases k,
{
    if k > 0 {
        assert('0' <= s[0] <= '9');
        assert forall|i: int| 0 <= i < k - 1 implies '0' <= #[trigger] s.drop_first()[i] <= '9' by {
            assert('0' <= s[i + 1] <= '9');
        }
        lemma_leading_digits(s.drop_first(), (k - 1) as nat);
    }
}

/// When a ban ends, as a message says: the digits behind the first `banned until`.
pub open spec fn ban_end(body: Seq<char>) -> Option<int> {
    let marker = "banned until "@;
    match crate::text::found_from(body, marker, 0) {
        None => None,
        Some(i) => {
            let rest = body.skip((i + marker.len()) as int);
            crate::text::signed_of(rest.take(leading_digits(rest) as int))
        },
    }
}

/// How long a ban goes on, as a message says. A ban that is over has no wait.
pub open spec fn ban_wait(body: Seq<char>, now_ms: Timestamp) -> Option<int> {
    match ban_end(body) {
        None => None,
        Some(until) => if 0 < until - now_ms <= i64::MAX {
            Some(capped(until - now_ms))
        } else {
            None
        },
    }
}

/// The end of a ban that a message names.
fn named_ban_end(body: &str) -> (r: Option<i64>)
    ensures
        match r {
            Some(t) => ban_end(body@) == Some(t as int),
            None => ban_end(body@) is None,
        },
{
    let v = chars_of(body);
    let len = v.len();
    let marker = chars_of("banned until ");
    match find(&v, &marker) {
        None => None,
        Some(at) => {
            let start: usize = at + marker.len();
            let ghost rest = v@.skip(start as int);
            let mut digits = String::new();
            let mut i: usize = start;
            while i < len && '0' <= v[i] && v[i] <= '9'
                invariant
                    len == v@.len(),
                    start <= i <= len,
                    rest == v@.skip(start as int),
                    digits@ == rest.take(i - start),
                    forall|j: int| 0 <= j < i - start ==> '0' <= #[trigger] rest[j] <= '9',
                decreases len - i,
            {
                digits.push(v[i]);
                assert(rest.take(i - start + 1) =~= rest.take(i - start).push(v@[i as int]));
                i = i + 1;
            }
            proof {
                lemma_leading_digits(rest, (i - start) as nat);
            }
            parse_i64(digits.as_str())
        },
    }
}

/// How long a ban goes on, as the message of a refusal says.
pub fn parse_banned_until_ms(body: &str, now_ms: Timestamp) -> (r: Option<u64>)
    ensures
        match r {
            Some(ms) => ban_wait(body@, now_ms) == Some(ms as int),
            None => ban_wait(body@, now_ms) is None,
        },
        r matches Some(ms) ==> 0 < ms <= MAX_RETRY_AFTER_MS,
{
    match named_ban_end(body) {
        None => None,
        Some(until) => {
            let remaining: i128 = until as i128 - now_ms as i128;
            if remaining <= 0 || remaining > i64::MAX as i128 {
                None
            } else if remaining > MAX_RETRY_AFTER_MS as i128 {
                Some(MAX_RETRY_AFTER_MS)
            } else {
                Some(remaining as u64)
            }
        },
    }
}

/// The wait after a limited request: what the header names, else what the message names, else
/// the default.
pub open spec fn limit_wait(header: Option<Seq<char>>, body: Seq<char>, now_ms: Timestamp) -> int {
    match header_wait(header) {
        Some(ms) => ms,
        None => match ban_wait(body, now_ms) {
            Some(ms) => ms,
            None => DEFAULT_RETRY_AFTER_MS as int,
        },
    }
}

/// The wait after a limited request.
pub fn wait_after_limit(header: Option<&str>, body: &str, now_ms: Timestamp) -> (r: u64)
    ensures
        r == limit_wait(header_text(header), body@, now_ms),
        0 < r <= MAX_RETRY_AFTER_MS,
{
    match parse_retry_after_opt(header) {
        Some(ms) => ms,
        None => match parse_banned_until_ms(body, now_ms) {
            Some(ms) => ms,
            None => DEFAULT_RETRY_AFTER_MS,
        },
    }
}

/// A length of time in milliseconds as a signed number of the same width.
pub open spec fn as_signed(ms: u64) -> int {
    if ms > i64::MAX {
        ms - 0x1_0000_0000_0000_0000
    } else {
        ms as int
    }
}

/// How long a wait with some end still goes on; `None` where it does not.
pub open spec fn left(deadline: int, now_ms: Timestamp) -> Option<int> {
    if 0 < deadline - now_ms <= i64::MAX {
        Some(deadline - now_ms)
    } else {
        None
    }
}

/// The later of two times.
pub open spec fn later(a: int, b: int) -> int {
    if b > a {
        b
    } else {
        a
    }
}

/// Whether an executable wait is the one that is specified.
pub open spec fn waits(r: Option<u64>, wait: Option<int>) -> bool {
    match r {
        Some(ms) => wait == Some(ms as int),
        None => wait is None,
    }
}

/// An unsigned number read as a signed one of the same width.
fn signed(ms: u64) -> (r: i64)
    ensures
        r == as_signed(ms),
{
    if ms > i64::MAX as u64 {
        -((u64::MAX - ms) as i64) - 1
    } else {
        ms as i64
    }
}

/// How long a wait with some end still goes on.
fn remaining(until_ms: i64, now_ms: Timestamp) -> (r: Option<u64>)
    ensures
        waits(r, left(until_ms as int, now_ms)),
{
    let ms: i128 = until_ms as i128 - now_ms as i128;
    if ms <= 0 || ms > i64::MAX as i128 {
        None
    } else {
        Some(ms as u64)
    }
}

/// The end of a wait.
#[derive(Debug)]
pub struct Deadline {
    until_ms: i64,
}

impl Deadline {
    /// The end of the wait; zero where there is none.
    pub closed spec fn end(&self) -> int {
        self.until_ms as int
    }

    /// The end of a wait is never before the start of 1970.
    #[verifier::type_invariant]
    spec fn wf(&self) -> bool {
        self.until_ms >= 0
    }

    /// No wait.
    pub fn new() -> (r: Self)
        ensures
            r.end() == 0,
    {
        Deadline { until_ms: 0 }
    }

    /// The end of the wait.
    pub fn until(&self) -> (r: Timestamp)
        ensures
            r == self.end(),
            r >= 0,
    {
        proof {
            use_type_invariant(self);
        }
        self.until_ms
    }

    /// How long the wait goes on from a time on; `None` where it is over.
    pub fn remaining_ms(&self, now_ms: Timestamp) -> (r: Option<u64>)
        ensures
            waits(r, left(self.end(), now_ms)),
    {
        remaining(self.until_ms, now_ms)
    }

    /// Waits until a time, or longer where the wait was longer: a wait is never shortened.
    pub fn arm_until(&mut self, until_ms: Timestamp)
        ensures
            final(self).end() == later(old(self).end(), until_ms as int),
    {
        proof {
            use_type_invariant(&*self);
        }
        if until_ms > self.until_ms {
            *self = Deadline { until_ms };
        }
    }

    /// Ends a wait that is over.
    pub fn clear_if_elapsed(&mut self, now_ms: Timestamp)
        ensures
            final(self).end() == (if old(self).end() <= now_ms {
                0
            } else {
                old(self).end()
            }),
    {
        if self.until_ms <= now_ms {
            *self = Deadline { until_ms: 0 };
        }
    }
}

impl Clone for Deadline {
    fn clone(&self) -> (r: Self)
        ensures
            r.end() == self.end(),
    {
        proof {
            use_type_invariant(self);
        }
        Deadline { until_ms: self.until_ms }
    }
}

/// The mark of a time on the shared end.
pub open spec fn mark_of(until_ms: int) -> u64 {
    if 0 < until_ms <= i64::MAX {
        until_ms as u64
    } else {
        0
    }
}

/// The mark of a time on the shared end. A time before the start of 1970 has the mark of the start.
pub fn shared_mark(until_ms: Timestamp) -> (r: u64)
    ensures
        r == (if until_ms > 0 {
            until_ms as int
        } else {
            0
        }),
        r == mark_of(until_ms as int),
{
    if until_ms > 0 {
        until_ms as u64
    } else {
        0
    }
}

/// What the shared end is after a success: the start where the wait was over, else what it was.
pub open spec fn end_after_success(shared: u64, now_ms: Timestamp) -> u64 {
    if as_signed(shared) <= now_ms {
        0
    } else {
        shared
    }
}

/// What the shared end is to be after a success. A wait that still goes on is left as it is.
pub fn shared_after_success(shared: u64, now_ms: Timestamp) -> (r: u64)
    ensures
        r == (if as_signed(shared) <= now_ms {
            0
        } else {
            shared as int
        }),
        r == end_after_success(shared, now_ms),
{
    if signed(shared) <= now_ms {
        0
    } else {
        shared
    }
}

/// What a clone has done to the shared end once it was armed until a time.
pub open spec fn acts_when_armed(acts: Seq<Act>, until_ms: int) -> Seq<Act> {
    acts.push(Act::Raised(mark_of(until_ms)))
}

/// What a clone has done to the shared end once it took over a wait: one that was noted, and one
/// that others share.
pub open spec fn acts_when_adopted(acts: Seq<Act>, noted: int, shared: u64) -> Seq<Act> {
    acts_when_armed(acts_when_armed(acts, noted), as_signed(shared))
}

/// What a clone has done to the shared end once a request succeeded, where it found the end to be
/// a given one.
pub open spec fn acts_after_success(acts: Seq<Act>, found: u64, now_ms: Timestamp) -> Seq<Act> {
    acts.push(Act::Found(found)).push(
        Act::Settled { found, end: end_after_success(found, now_ms) },
    )
}

/// Until when no request may be sent. Clones share one end, so whoever runs into a limit makes
/// every holder of a clone wait.
///
/// The shared end may be moved by any of them at any time. Beside it each clone keeps the end
/// that was noted through itself, which nobody else can move: the wait goes on until the later of
/// the two.
pub struct Cooldown {
    noted: Deadline,
    shared: SharedEnd,
}

impl Cooldown {
    /// The end of the wait that was noted here; zero where there is none.
    pub closed spec fn noted_until(&self) -> int {
        self.noted.end()
    }

    /// Where the shared end is kept.
    pub closed spec fn cell(&self) -> Arc<AtomicU64> {
        self.shared.cell()
    }

    /// What was done to the shared end through this clone.
    pub closed spec fn acts(&self) -> Seq<Act> {
        self.shared.acts()
    }

    /// No wait, shared with nobody yet.
    pub fn new() -> (r: Self)
        ensures
            r.noted_until() == 0,
            r.acts() == Seq::<Act>::empty(),
    {
        Cooldown { noted: Deadline::new(), shared: SharedEnd::new() }
    }

    /// How long no request may be sent where the shared end is a given one; `None` where one may
    /// be.
    pub open spec fn wait_with(&self, shared: u64, now_ms: Timestamp) -> Option<int> {
        left(later(self.noted_until(), as_signed(shared)), now_ms)
    }

    /// The shared end as it is now, which may be anything.
    pub(crate) fn shared_until(&self) -> u64 {
        self.shared.peek()
    }

    /// How long no request may be sent from a time on, where the shared end is a given one.
    pub fn remaining_with(&self, shared: u64, now_ms: Timestamp) -> (r: Option<u64>)
        ensures
            waits(r, self.wait_with(shared, now_ms)),
    {
        let own = self.noted.until();
        let others = signed(shared);
        remaining(
            if others > own {
                others
            } else {
                own
            },
            now_ms,
        )
    }

    /// How long no request may be sent from a time on, whatever the shared end is then.
    pub fn remaining_ms(&self, now_ms: Timestamp) -> (r: Option<u64>)
        ensures
            exists|shared: u64| waits(r, #[trigger] self.wait_with(shared, now_ms)),
    {
        let shared = self.shared_until();
        let r = self.remaining_with(shared, now_ms);
        assert(waits(r, self.wait_with(shared, now_ms)));
        r
    }

    /// Whether no request may be sent at a time, whatever the shared end is then.
    pub fn is_cooling_down(&self, now_ms: Timestamp) -> (r: bool)
        ensures
            exists|shared: u64| r == (#[trigger] self.wait_with(shared, now_ms) is Some),
    {
        let shared = self.shared_until();
        let r = self.remaining_with(shared, now_ms).is_some();
        assert(r == (self.wait_with(shared, now_ms) is Some));
        r
    }

    /// Waits until a time, or longer where the wait was longer: a wait is never shortened. The
    /// shared end is moved with it.
    pub fn arm_until(&mut self, until_ms: Timestamp)
        ensures
            final(self).noted_until() == later(old(self).noted_until(), until_ms as int),
            final(self).cell() == old(self).cell(),
            final(self).acts() == acts_when_armed(old(self).acts(), until_ms as int),
    {
        self.noted.arm_until(until_ms);
        self.shared.raise(shared_mark(until_ms));
    }

    /// Waits some time from now, or longer where the wait was longer.
    pub fn arm_ms(&mut self, duration_ms: u64, now_ms: Timestamp)
        ensures
            ({
                let until = crate::clock::moved(now_ms as int, as_signed(duration_ms));
                &&& final(self).noted_until() == later(old(self).noted_until(), until)
                &&& final(self).acts() == acts_when_armed(old(self).acts(), until)
            }),
            final(self).cell() == old(self).cell(),
    {
        self.arm_until(crate::clock::after(now_ms, signed(duration_ms)));
    }

    /// Takes over the wait of another where that is longer, whatever the end is that the other
    /// shares.
    pub fn adopt(&mut self, other: &Cooldown)
        ensures
            final(self).noted_until() == later(old(self).noted_until(), other.noted_until()),
            final(self).cell() == old(self).cell(),
            exists|shared: u64|
                final(self).acts() == #[trigger] acts_when_adopted(
                    old(self).acts(),
                    other.noted_until(),
                    shared,
                ),
    {
        let shared = other.shared_until();
        self.arm_until(other.noted.until());
        self.shared.raise(shared_mark(signed(shared)));
        assert(self.acts() == acts_when_adopted(old(self).acts(), other.noted_until(), shared));
    }

    /// Notes that a request succeeded. A wait that still goes on is left as it is, here and in the
    /// shared end: the answer may be to a request from before it.
    pub fn clear_if_elapsed(&mut self, now_ms: Timestamp)
        ensures
            final(self).noted_until() == (if old(self).noted_until() <= now_ms {
                0
            } else {
                old(self).noted_until()
            }),
            final(self).cell() == old(self).cell(),
            exists|found: u64|
                final(self).acts() == #[trigger] acts_after_success(
                    old(self).acts(),
                    found,
                    now_ms,
                ),
    {
        self.noted.clear_if_elapsed(now_ms);
        let found = self.shared.find();
        self.shared.settle(found, shared_after_success(found, now_ms));
        assert(self.acts() == acts_after_success(old(self).acts(), found, now_ms));
    }
}

impl Default for Cooldown {
    fn default() -> (r: Self)
        ensures
            r.noted_until() == 0,
            r.acts() == Seq::<Act>::empty(),
    {
        Cooldown::new()
    }
}

impl Clone for Cooldown {
    /// A clone shares the end of the wait.
    fn clone(&self) -> (r: Self)
        ensures
            r.noted_until() == self.noted_until(),
            r.cell() == self.cell(),
            r.acts() == Seq::<Act>::empty(),
    {
        Cooldown { noted: self.noted.clone(), shared: self.shared.clone() }
    }
}

/// A success changes no wait from then on, neither that of the clone that saw it nor that of any
/// other: a late success never shortens a wait that goes on.
pub proof fn law_success_keeps_waits(
    c: Cooldown,
    seen: Cooldown,
    shared: u64,
    found: u64,
    now_ms: Timestamp,
    t: Timestamp,
)
    requires
        0 <= c.noted_until() <= i64::MAX,
        seen.noted_until() == (if c.noted_until() <= now_ms {
            0
        } else {
            c.noted_until()
        }),
        0 <= now_ms <= t,
    ensures
        ({
            let act = Act::Settled { found, end: end_after_success(found, now_ms) };
            let after = crate::shared_end::moved_by(shared, act);
            &&& c.wait_with(after, t) == c.wait_with(shared, t)
            &&& seen.wait_with(after, t) == c.wait_with(shared, t)
            &&& c.wait_with(end_after_success(shared, now_ms), t) == c.wait_with(shared, t)
        }),
{
}

/// Once the shared end is raised to a time, every clone waits at least until that time, and one
/// for which nothing later was noted waits until the later of that time and what the end was.
pub proof fn law_armed_clones_wait(
    c: Cooldown,
    shared: u64,
    until_ms: Timestamp,
    now_ms: Timestamp,
)
    requires
        0 <= c.noted_until() <= i64::MAX,
        shared <= i64::MAX,
        0 <= now_ms,
    ensures
        ({
            let after = crate::shared_end::moved_by(shared, Act::Raised(mark_of(until_ms as int)));
            &&& after == later(shared as int, until_ms as int)
            &&& now_ms < until_ms ==> (c.wait_with(after, now_ms) matches Some(ms) && ms >= until_ms
                - now_ms)
            &&& c.noted_until() <= after ==> c.wait_with(after, now_ms) == left(
                later(shared as int, until_ms as int),
                now_ms,
            )
        }),
{
}

/// Whether an act is one that a clone does up to a time: it raises the end to the mark of a time,
/// or settles one that was over.
pub open spec fn done_by(act: Act, t: Timestamp) -> bool {
    match act {
        Act::Found(_) => true,
        Act::Raised(mark) => mark <= i64::MAX,
        Act::Settled { found, end } => end == found || (end == 0 && as_signed(found) <= t),
    }
}

/// Whatever all clones do up to a time, in whatever order, no wait that goes on at that time is
/// shortened by it: whoever runs into a limit makes everyone wait until it is over.
pub proof fn law_shared_waits_outlast(shared: u64, acts: Seq<Act>, t: Timestamp)
    requires
        shared <= i64::MAX,
        0 <= t,
        forall|i: int| 0 <= i < acts.len() ==> done_by(#[trigger] acts[i], t),
    ensures
        ({
            let after = crate::shared_end::moved_by_all(shared, acts);
            &&& after <= i64::MAX
            &&& t < shared ==> after >= shared
            &&& left(shared as int, t) matches Some(ms) ==> (left(after as int, t) matches Some(more)
                && more >= ms)
        }),
    decreases acts.len(),
{
    if acts.len() > 0 {
        let rest = acts.drop_last();
        assert forall|i: int| 0 <= i < rest.len() implies done_by(#[trigger] rest[i], t) by {
            assert(rest[i] == acts[i]);
        }
        law_shared_waits_outlast(shared, rest, t);
        assert(done_by(acts[acts.len() - 1], t));
    }
}

/// What a clone does to the shared end is what is done up to the time at which it does it, whether
/// it is armed, takes over a wait or notes a success.
pub proof fn law_clones_only_do_so(
    acts: Seq<Act>,
    until_ms: int,
    noted: int,
    shared: u64,
    now_ms: Timestamp,
    t: Timestamp,
)
    requires
        now_ms <= t,
        forall|i: int| 0 <= i < acts.len() ==> done_by(#[trigger] acts[i], t),
    ensures
        forall|i: int|
            0 <= i < acts_when_armed(acts, until_ms).len() ==> done_by(
                #[trigger] acts_when_armed(acts, until_ms)[i],
                t,
            ),
        forall|i: int|
            0 <= i < acts_when_adopted(acts, noted, shared).len() ==> done_by(
                #[trigger] acts_when_adopted(acts, noted, shared)[i],
                t,
            ),
        forall|i: int|
            0 <= i < acts_after_success(acts, shared, now_ms).len() ==> done_by(
                #[trigger] acts_after_success(acts, shared, now_ms)[i],
                t,
            ),
{
}

/// A wait that was noted is kept, whatever the shared end is: others can make it longer, and
/// never shorter.
pub proof fn law_noted_waits_are_kept(c: Cooldown, shared: u64, now_ms: Timestamp)
    requires
        c.noted_until() <= i64::MAX,
        0 <= now_ms < c.noted_until(),
    ensures
        c.wait_with(shared, now_ms) matches Some(ms) && ms >= c.noted_until() - now_ms,
{
}

/// What a header names comes before what the message names, and a limited request always has a
/// wait.
pub proof fn law_limits_always_wait(header: Option<Seq<char>>, body: Seq<char>, now_ms: Timestamp)
    ensures
        0 < limit_wait(header, body, now_ms) <= MAX_RETRY_AFTER_MS,
        header_wait(header) matches Some(ms) ==> limit_wait(header, body, now_ms) == ms,
{
    if let Some(s) = header {
        let t = crate::text::trimmed(s);
        if let Some(n) = crate::text::unsigned_of(t) {
            let d = if t.len() > 0 && t[0] == '+' {
                t.skip(1)
            } else {
                t
            };
            lemma_number_not_negative(d);
        }
    }
}

proof fn lemma_number_not_negative(s: Seq<char>)
    requires
        crate::text::all_digits(s),
    ensures
        crate::text::number_of(s) >= 0,
    decreases s.len(),
{
    if s.len() > 0 {
        assert('0' <= s[s.len() - 1] <= '9');
        assert(crate::text::all_digits(s.drop_last())) by {
            assert forall|i: int| 0 <= i < s.len() - 1 implies '0' <= #[trigger] s.drop_last()[i]
                <= '9' by {
                assert('0' <= s[i] <= '9');
            }
        }
        lemma_number_not_negative(s.drop_last());
    }
}

/// A header of whole seconds names that many seconds, an hour at most; a header of zero names none.
pub proof fn law_header_names_seconds(secs: nat)
    requires
        secs <= u64::MAX,
    ensures
        header_wait(Some(crate::text::digits(secs))) == (if secs == 0 {
            None
        } else if secs * 1000 <= 3600000 {
            Some(secs as int * 1000)
        } else {
            Some(3600000int)
        }),
        header_wait(None) is None,
{
    let d = crate::text::digits(secs);
    crate::text::law_written_numbers_are_read(secs, 0);
    crate::text::lemma_digits_read_back(secs);
    crate::text::law_trimming_takes_only_spaces(d);
    let a = crate::text::leading_spaces(d) as int;
    let t = crate::text::trimmed(d);
    assert('0' <= d[0] <= '9');
    assert('0' <= d[d.len() - 1] <= '9');
    assert(a == 0);
    assert(t.len() == d.len());
    assert(t =~= d);
}

/// A message that names the end of a ban, with no digit behind it, is waited for until then: an hour at
/// most, and not at all once the ban is over.
pub proof fn law_bans_name_their_end(
    front: Seq<char>,
    until: nat,
    back: Seq<char>,
    now_ms: Timestamp,
)
    requires
        until <= i64::MAX,
        now_ms >= 0,
        back.len() > 0 ==> !('0' <= back[0] <= '9'),
        crate::text::found_from(
            front + "banned until "@ + crate::text::digits(until) + back,
            "banned until "@,
            0,
        ) == Some(front.len()),
    ensures
        ({
            let body = front + "banned until "@ + crate::text::digits(until) + back;
            &&& ban_end(body) == Some(until as int)
            &&& ban_wait(body, now_ms) == (if until <= now_ms {
                None
            } else if until - now_ms <= 3600000 {
                Some(until - now_ms)
            } else {
                Some(3600000int)
            })
        }),
{
    let marker = "banned until "@;
    let d = crate::text::digits(until);
    let body = front + marker + d + back;
    let rest = body.skip((front.len() + marker.len()) as int);
    crate::text::law_written_numbers_are_read(0, until as i64);
    crate::text::lemma_digits_read_back(until);
    assert(rest =~= d + back);
    assert forall|i: int| 0 <= i < d.len() implies '0' <= #[trigger] rest[i] <= '9' by {
        assert('0' <= d[i] <= '9');
    }
    lemma_leading_digits(rest, d.len());
    assert(rest.take(d.len() as int) =~= d);
}

/// A wait counts down: it goes on until its end, and at a later time it is shorter by as much as the
/// time is later.
pub proof fn law_waits_count_down(deadline: int, now_ms: Timestamp, later_ms: Timestamp)
    requires
        0 <= now_ms <= later_ms,
        deadline <= i64::MAX,
    ensures
        left(deadline, now_ms) is Some <==> now_ms < deadline,
        left(deadline, later_ms) matches Some(ms) ==> left(deadline, now_ms) == Some(
            ms + (later_ms - now_ms),
        ),
        left(deadline, later_ms) matches Some(ms) ==> later_ms + ms == deadline,
{
}

/// The wait of a clone ends with the later of the two ends that it knows of, and not before either.
pub proof fn law_waits_end_with_the_later(c: Cooldown, shared: u64, now_ms: Timestamp)
    requires
        shared <= i64::MAX,
        0 <= now_ms,
        c.noted_until() <= i64::MAX,
    ensures
        c.wait_with(shared, now_ms) is None <==> c.noted_until() <= now_ms && shared <= now_ms,
        c.wait_with(shared, now_ms) matches Some(ms) ==> now_ms + ms >= shared && now_ms + ms
            >= c.noted_until() && (now_ms + ms == shared || now_ms + ms == c.noted_until()),
{
}

/// A limited request without a header that names a wait, and without a message that names a ban that goes
/// on, waits for a second.
pub proof fn law_unnamed_waits_are_a_second(
    header: Option<Seq<char>>,
    body: Seq<char>,
    now_ms: Timestamp,
)
    requires
        header_wait(header) is None,
    ensures
        ban_wait(body, now_ms) is None ==> limit_wait(header, body, now_ms) == 1000,
        ban_wait(body, now_ms) matches Some(ms) ==> limit_wait(header, body, now_ms) == ms,
{
}

/// A success clears the shared end exactly where that has come, and else leaves it as it is.
pub proof fn law_success_clears_what_is_over(shared: u64, now_ms: Timestamp)
    requires
        shared <= i64::MAX,
        0 <= now_ms,
    ensures
        shared <= now_ms ==> end_after_success(shared, now_ms) == 0,
        shared > now_ms ==> end_after_success(shared, now_ms) == shared,
{
}

} // verus!
