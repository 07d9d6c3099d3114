//! The tape: trades in the order of their time and number.
//!
//! A resting order can only be filled by trades that come after it was placed, so the tape is
//! cut by time and its order is fixed by the numbers of the trades.

use vstd::prelude::*;
use vstd::slice::slice_subrange;
use crate::clock::Timestamp;
use crate::market::AggTrade;
use crate::money::{Price, Qty};

verus! {

/// A trade on the tape.
#[derive(Clone, Copy, Debug, PartialEq, Eq)]
pub struct Trade {
    pub trade_id: u64,
    pub price: Price,
    pub quantity: Qty,
    pub is_buyer_maker: bool,
    pub at: Timestamp,
}

impl From<AggTrade> for Trade {
    fn from(t: AggTrade) -> (r: Self) {
        Trade {
            trade_id: t.trade_id,
            price: t.price,
            quantity: t.quantity,
            is_buyer_maker: t.is_buyer_maker,
            at: t.at,
        }
    }
}

impl vstd::std_specs::convert::FromSpecImpl<AggTrade> for Trade {
    open spec fn obeys_from_spec() -> bool {
        true
    }

    open spec fn from_spec(t: AggTrade) -> Trade {
        Trade {
            trade_id: t.trade_id,
            price: t.price,
            quantity: t.quantity,
            is_buyer_maker: t.is_buyer_maker,
            at: t.at,
        }
    }
}

impl Trade {
    /// Whether the trade does not come after another: by time, then by number.
    pub open spec fn not_after(self, b: Trade) -> bool {
        self.at < b.at || (self.at == b.at && self.trade_id <= b.trade_id)
    }

    fn comes_not_after(&self, b: &Trade) -> (r: bool)
        ensures
            r == self.not_after(*b),
    {
        self.at < b.at || (self.at == b.at && self.trade_id <= b.trade_id)
    }
}

/// Trades in their order with one more, behind those that do not come after it.
pub open spec fn with_trade(s: Seq<Trade>, t: Trade) -> Seq<Trade>
    decreases s.len(),
{
    if s.len() == 0 || s.last().not_after(t) {
        s.push(t)
    } else {
        with_trade(s.drop_last(), t).push(s.last())
    }
}

/// Trades put in their order; trades of the same time and number keep theirs.
pub open spec fn in_order(s: Seq<Trade>) -> Seq<Trade>
    decreases s.len(),
{
    if s.len() == 0 {
        s
    } else {
        with_trade(in_order(s.drop_last()), s.last())
    }
}

/// Whether trades are in their order.
pub open spec fn ordered_trades(s: Seq<Trade>) -> bool {
    forall|i: int, j: int| 0 <= i <= j < s.len() ==> (#[trigger] s[i]).not_after(#[trigger] s[j])
}

/// How many trades at the start of an ordered tape come before a time.
pub open spec fn count_before(s: Seq<Trade>, t: Timestamp) -> nat
    decreases s.len(),
{
    if s.len() == 0 {
        0
    } else if s.last().at < t {
        s.len()
    } else {
        count_before(s.drop_last(), t)
    }
}

/// A trade put in its place leaves the others in theirs.
pub proof fn lemma_with_trade(s: Seq<Trade>, t: Trade)
    requires
        ordered_trades(s),
    ensures
        ordered_trades(with_trade(s, t)),
        with_trade(s, t).len() == s.len() + 1,
        with_trade(s, t).to_multiset() == s.to_multiset().insert(t),
        forall|i: int|
            0 <= i < s.len() + 1 ==> (#[trigger] with_trade(s, t)[i] == t || s.contains(
                with_trade(s, t)[i],
            )),
    decreases s.len(),
{
    broadcast use vstd::seq_lib::group_to_multiset_ensures;

    let r = with_trade(s, t);
    if s.len() == 0 || s.last().not_after(t) {
        assert forall|i: int, j: int| 0 <= i <= j < r.len() implies (#[trigger] r[i]).not_after(
            #[trigger] r[j],
        ) by {
            if j == s.len() && i < s.len() {
                assert(s[i].not_after(s[s.len() - 1]));
            }
        }
        assert forall|i: int| 0 <= i < r.len() implies (#[trigger] r[i] == t || s.contains(r[i])) by {
            if i < s.len() {
                assert(s[i] == r[i]);
            }
        }
    } else {
        let rest = s.drop_last();
        lemma_with_trade(rest, t);
        let q = with_trade(rest, t);
        assert(s =~= rest.push(s.last()));
        assert forall|i: int| 0 <= i < r.len() implies (#[trigger] r[i] == t || s.contains(r[i])) by {
            if i < q.len() {
                assert(r[i] == q[i]);
                if q[i] != t {
                    let k = choose|k: int| 0 <= k < rest.len() && rest[k] == q[i];
                    assert(s[k] == q[i]);
                }
            } else {
                assert(s[s.len() - 1] == r[i]);
            }
        }
        assert forall|i: int, j: int| 0 <= i <= j < r.len() implies (#[trigger] r[i]).not_after(
            #[trigger] r[j],
        ) by {
            if j == q.len() && i < q.len() {
                if q[i] != t {
                    let k = choose|k: int| 0 <= k < rest.len() && rest[k] == q[i];
                    assert(s[k].not_after(s[s.len() - 1]));
                }
            } else if j < q.len() {
                assert(q[i].not_after(q[j]));
            }
        }
        assert(s.to_multiset() =~= rest.to_multiset().insert(s.last()));
        assert(r.to_multiset() =~= q.to_multiset().insert(s.last()));
        assert(r.to_multiset() =~= s.to_multiset().insert(t));
    }
}

/// Putting trades in order keeps every trade and nothing else, and leaves trades alone that are
/// in order.
pub proof fn law_order_keeps_trades(s: Seq<Trade>)
    ensures
        ordered_trades(in_order(s)),
        in_order(s).len() == s.len(),
        in_order(s).to_multiset() == s.to_multiset(),
        ordered_trades(s) ==> in_order(s) == s,
    decreases s.len(),
{
    broadcast use vstd::seq_lib::group_to_multiset_ensures;

    if s.len() > 0 {
        let rest = s.drop_last();
        law_order_keeps_trades(rest);
        lemma_with_trade(in_order(rest), s.last());
        assert(s =~= rest.push(s.last()));
        if ordered_trades(s) {
            assert(ordered_trades(rest)) by {
                assert forall|i: int, j: int| 0 <= i <= j < rest.len() implies (
                #[trigger] rest[i]).not_after(#[trigger] rest[j]) by {
                    assert(s[i].not_after(s[j]));
                }
            }
            if rest.len() > 0 {
                assert(s[rest.len() - 1].not_after(s[s.len() - 1]));
            }
        }
    }
}

proof fn lemma_count_before(s: Seq<Trade>, t: Timestamp, k: nat)
    requires
        ordered_trades(s),
        k <= s.len(),
        forall|i: int| 0 <= i < k ==> (#[trigger] s[i]).at < t,
        forall|i: int| k <= i < s.len() ==> (#[trigger] s[i]).at >= t,
    ensures
        count_before(s, t) == k,
    decreases s.len(),
{
    if s.len() > 0 && k < s.len() {
        assert(s[s.len() - 1].at >= t);
        let rest = s.drop_last();
        assert forall|i: int, j: int| 0 <= i <= j < rest.len() implies (
        #[trigger] rest[i]).not_after(#[trigger] rest[j]) by {
            assert(s[i].not_after(s[j]));
        }
        assert forall|i: int| k <= i < rest.len() implies (#[trigger] rest[i]).at >= t by {
            assert(s[i].at >= t);
        }
        assert forall|i: int| 0 <= i < k implies (#[trigger] rest[i]).at < t by {
            assert(s[i].at < t);
        }
        lemma_count_before(rest, t, k);
    } else if s.len() > 0 {
        assert(s[s.len() - 1].at < t);
    }
}

/// A cut by time has exactly the earlier trades in front of it.
pub proof fn law_cut_by_time(s: Seq<Trade>, t: Timestamp)
    requires
        ordered_trades(s),
    ensures
        count_before(s, t) <= s.len(),
        forall|i: int| 0 <= i < count_before(s, t) ==> (#[trigger] s[i]).at < t,
        forall|i: int| count_before(s, t) <= i < s.len() ==> (#[trigger] s[i]).at >= t,
    decreases s.len(),
{
    if s.len() > 0 {
        if s.last().at < t {
            assert forall|i: int| 0 <= i < s.len() implies (#[trigger] s[i]).at < t by {
                assert(s[i].not_after(s[s.len() - 1]));
            }
        } else {
            let rest = s.drop_last();
            assert forall|i: int, j: int| 0 <= i <= j < rest.len() implies (
            #[trigger] rest[i]).not_after(#[trigger] rest[j]) by {
                assert(s[i].not_after(s[j]));
            }
            law_cut_by_time(rest, t);
            let k = count_before(rest, t);
            assert forall|i: int| 0 <= i < k implies (#[trigger] s[i]).at < t by {
                assert(rest[i].at < t);
            }
            assert forall|i: int| k <= i < s.len() implies (#[trigger] s[i]).at >= t by {
                if i < rest.len() {
                    assert(rest[i].at >= t);
                }
            }
        }
    }
}

/// The trades of an ordered tape from one time up to another.
pub open spec fn between(s: Seq<Trade>, from: Timestamp, to: Timestamp) -> Seq<Trade> {
    if from <= to {
        s.subrange(count_before(s, from) as int, count_before(s, to) as int)
    } else {
        Seq::empty()
    }
}

/// The trades of an ordered tape from one time to another, both included.
pub open spec fn through(s: Seq<Trade>, from: Timestamp, last: Timestamp) -> Seq<Trade> {
    if last == i64::MAX {
        from_time(s, from)
    } else {
        between(s, from, (last + 1) as i64)
    }
}

/// The trades of an ordered tape from a time on.
pub open spec fn from_time(s: Seq<Trade>, from: Timestamp) -> Seq<Trade> {
    s.skip(count_before(s, from) as int)
}

/// The lowest price of some trades, the first where several are equal.
pub open spec fn lowest_price(s: Seq<Trade>) -> Price
    decreases s.len(),
{
    if s.len() <= 1 {
        s[0].price
    } else if s.last().price.0@ < lowest_price(s.drop_last()).0@ {
        s.last().price
    } else {
        lowest_price(s.drop_last())
    }
}

/// The highest price of some trades, the first where several are equal.
pub open spec fn highest_price(s: Seq<Trade>) -> Price
    decreases s.len(),
{
    if s.len() <= 1 {
        s[0].price
    } else if s.last().price.0@ > highest_price(s.drop_last()).0@ {
        s.last().price
    } else {
        highest_price(s.drop_last())
    }
}

/// Trades in the order of their time and number.
#[derive(Debug)]
pub struct TradeTape {
    trades: Vec<Trade>,
}

impl View for TradeTape {
    type V = Seq<Trade>;

    closed spec fn view(&self) -> Seq<Trade> {
        self.trades@
    }
}

impl Clone for TradeTape {
    fn clone(&self) -> (r: Self)
        ensures
            r@ == self@,
    {
        proof {
            use_type_invariant(self);
        }
        let trades = self.trades.clone();
        assert(trades@ =~= self.trades@);
        TradeTape { trades }
    }
}

impl Default for TradeTape {
    fn default() -> (r: Self)
        ensures
            r@ == Seq::<Trade>::empty(),
    {
        TradeTape::new()
    }
}

/// Puts a trade in its place among ordered trades.
fn place_trade(v: &mut Vec<Trade>, t: Trade)
    requires
        ordered_trades(old(v)@),
    ensures
        final(v)@ == with_trade(old(v)@, t),
        ordered_trades(final(v)@),
{
    let ghost s = v@;
    let mut i: usize = v.len();
    assert(s.take(s.len() as int) =~= s);
    assert(s.skip(s.len() as int) =~= Seq::<Trade>::empty());
    while i > 0 && !v[i - 1].comes_not_after(&t)
        invariant
            v@ == s,
            i <= s.len(),
            with_trade(s, t) =~= with_trade(s.take(i as int), t) + s.skip(i as int),
        decreases i,
    {
        proof {
            let a = s.take(i as int);
            assert(a.drop_last() =~= s.take(i - 1));
            assert(a.last() == s[i - 1]);
            assert(with_trade(a, t) == with_trade(s.take(i - 1), t).push(s[i - 1]));
            assert(with_trade(s.take(i - 1), t).push(s[i - 1]) + s.skip(i as int) =~= with_trade(
                s.take(i - 1),
                t,
            ) + s.skip(i - 1));
        }
        i = i - 1;
    }
    v.insert(i, t);
    proof {
        lemma_with_trade(s, t);
        assert(with_trade(s.take(i as int), t) == s.take(i as int).push(t));
        assert(v@ =~= s.take(i as int).push(t) + s.skip(i as int));
    }
}

impl TradeTape {
    #[verifier::type_invariant]
    spec fn wf(&self) -> bool {
        ordered_trades(self.trades@)
    }

    /// A tape without trades.
    pub fn new() -> (r: Self)
        ensures
            r@ == Seq::<Trade>::empty(),
    {
        TradeTape { trades: Vec::new() }
    }

    /// A tape of trades in any order.
    pub fn from_trades(trades: Vec<Trade>) -> (r: Self)
        ensures
            r@ == in_order(trades@),
            ordered_trades(r@),
    {
        let mut v: Vec<Trade> = Vec::new();
        assert(trades@.take(0) =~= Seq::<Trade>::empty());
        for i in 0..trades.len()
            invariant
                ordered_trades(v@),
                v@ == in_order(trades@.take(i as int)),
        {
            assert(trades@.take(i + 1).drop_last() =~= trades@.take(i as int));
            place_trade(&mut v, trades[i]);
        }
        assert(trades@.take(trades@.len() as int) =~= trades@);
        TradeTape { trades: v }
    }

    /// Adds a trade in its place.
    pub fn push(&mut self, t: Trade)
        ensures
            final(self)@ == with_trade(old(self)@, t),
    {
        proof {
            use_type_invariant(&*self);
        }
        let mut v: Vec<Trade> = Vec::new();
        std::mem::swap(&mut v, &mut self.trades);
        place_trade(&mut v, t);
        self.trades = v;
    }

    /// Takes off the trades before a time.
    pub fn prune_before(&mut self, t: Timestamp)
        ensures
            final(self)@ == from_time(old(self)@, t),
    {
        proof {
            use_type_invariant(&*self);
        }
        let n = self.cut(t);
        let mut v: Vec<Trade> = Vec::new();
        std::mem::swap(&mut v, &mut self.trades);
        let ghost s = v@;
        let kept = v.split_off(n);
        proof {
            law_cut_by_time(s, t);
            assert(kept@ =~= from_time(s, t));
            assert forall|i: int, j: int| 0 <= i <= j < kept@.len() implies (
            #[trigger] kept@[i]).not_after(#[trigger] kept@[j]) by {
                assert(s[i + n].not_after(s[j + n]));
            }
        }
        self.trades = kept;
    }

    pub fn is_empty(&self) -> (r: bool)
        ensures
            r == (self@.len() == 0),
    {
        self.trades.len() == 0
    }

    pub fn len(&self) -> (r: usize)
        ensures
            r == self@.len(),
    {
        self.trades.len()
    }

    /// All trades.
    pub fn trades(&self) -> (r: &[Trade])
        ensures
            r@ == self@,
            ordered_trades(r@),
    {
        proof {
            use_type_invariant(self);
        }
        self.trades.as_slice()
    }

    /// How many trades come before a time, by halving.
    fn cut(&self, t: Timestamp) -> (r: usize)
        ensures
            r == count_before(self@, t),
            r <= self@.len(),
    {
        proof {
            use_type_invariant(self);
        }
        let mut lo: usize = 0;
        let mut hi: usize = self.trades.len();
        while lo < hi
            invariant
                lo <= hi <= self.trades@.len(),
                ordered_trades(self.trades@),
                forall|i: int| 0 <= i < lo ==> (#[trigger] self.trades@[i]).at < t,
                forall|i: int|
                    hi <= i < self.trades@.len() ==> (#[trigger] self.trades@[i]).at >= t,
            decreases hi - lo,
        {
            let mid: usize = lo + (hi - lo) / 2;
            if self.trades[mid].at < t {
                proof {
                    assert forall|i: int| 0 <= i < mid + 1 implies (#[trigger] self.trades@[i]).at
                        < t by {
                        assert(self.trades@[i].not_after(self.trades@[mid as int]));
                    }
                }
                lo = mid + 1;
            } else {
                proof {
                    assert forall|i: int| mid <= i < self.trades@.len() implies (
                    #[trigger] self.trades@[i]).at >= t by {
                        assert(self.trades@[mid as int].not_after(self.trades@[i]));
                    }
                }
                hi = mid;
            }
        }
        proof {
            lemma_count_before(self.trades@, t, lo as nat);
        }
        lo
    }

    /// The trades from one time up to another, the first included and the last not.
    pub fn window(&self, from: Timestamp, to: Timestamp) -> (r: &[Trade])
        ensures
            r@ == between(self@, from, to),
    {
        proof {
            use_type_invariant(self);
            law_cut_by_time(self@, from);
            law_cut_by_time(self@, to);
        }
        let start = self.cut(from);
        let end = self.cut(to);
        if from <= to {
            proof {
                if end < start {
                    assert(self@[end as int].at >= to);
                    assert(self@[end as int].at < from);
                }
            }
            slice_subrange(self.trades.as_slice(), start, end)
        } else {
            let none = slice_subrange(self.trades.as_slice(), 0, 0);
            assert(none@ =~= Seq::<Trade>::empty());
            none
        }
    }

    /// The trades from a time on.
    pub fn after(&self, from: Timestamp) -> (r: &[Trade])
        ensures
            r@ == from_time(self@, from),
    {
        let start = self.cut(from);
        let r = slice_subrange(self.trades.as_slice(), start, self.trades.len());
        assert(r@ =~= from_time(self@, from));
        r
    }

    /// The part of the tape from a time on.
    pub fn since(&self, from: Timestamp) -> (r: TradeTape)
        ensures
            r@ == from_time(self@, from),
            ordered_trades(r@),
    {
        proof {
            use_type_invariant(self);
        }
        let ghost s = self@;
        let rest = self.after(from);
        let mut v: Vec<Trade> = Vec::new();
        for i in 0..rest.len()
            invariant
                v@ == rest@.take(i as int),
        {
            v.push(rest[i]);
            assert(v@ =~= rest@.take(i + 1));
        }
        assert(rest@.take(rest@.len() as int) =~= rest@);
        proof {
            law_cut_by_time(s, from);
            let n = count_before(s, from);
            assert forall|i: int, j: int| 0 <= i <= j < v@.len() implies (
            #[trigger] v@[i]).not_after(#[trigger] v@[j]) by {
                assert(s[i + n].not_after(s[j + n]));
            }
        }
        TradeTape { trades: v }
    }

    /// The part of the tape from one time up to another, the first included and the last not.
    pub fn part(&self, from: Timestamp, to: Timestamp) -> (r: TradeTape)
        ensures
            r@ == between(self@, from, to),
    {
        proof {
            use_type_invariant(self);
            law_cut_by_time(self@, from);
            law_cut_by_time(self@, to);
        }
        let ghost s = self@;
        let w = self.window(from, to);
        let mut v: Vec<Trade> = Vec::new();
        for i in 0..w.len()
            invariant
                v@ == w@.take(i as int),
        {
            v.push(w[i]);
            assert(v@ =~= w@.take(i + 1));
        }
        assert(w@.take(w@.len() as int) =~= w@);
        proof {
            let n = count_before(s, from);
            if from <= to && n > count_before(s, to) {
                assert(s[count_before(s, to) as int].at >= to);
                assert(s[count_before(s, to) as int].at < from);
            }
            assert forall|i: int, j: int| 0 <= i <= j < v@.len() implies (
            #[trigger] v@[i]).not_after(#[trigger] v@[j]) by {
                assert(s[i + n].not_after(s[j + n]));
            }
        }
        TradeTape { trades: v }
    }

    /// The part of the tape from one time to another, both included.
    pub fn part_through(&self, from: Timestamp, last: Timestamp) -> (r: TradeTape)
        ensures
            r@ == through(self@, from, last),
    {
        if last == i64::MAX {
            self.since(from)
        } else {
            self.part(from, last + 1)
        }
    }

    /// The lowest and the highest price between two times, in place of bid and ask.
    pub fn approx_bid_ask(&self, from: Timestamp, to: Timestamp) -> (r: Option<(Price, Price)>)
        ensures
            r == (if between(self@, from, to).len() == 0 {
                None
            } else {
                Some(
                    (
                        lowest_price(between(self@, from, to)),
                        highest_price(between(self@, from, to)),
                    ),
                )
            }),
    {
        let w = self.window(from, to);
        if w.len() == 0 {
            return None;
        }
        let mut lo = w[0].price;
        let mut hi = w[0].price;
        let mut i: usize = 1;
        assert(w@.take(1)[0] == w@[0]);
        while i < w.len()
            invariant
                1 <= i <= w@.len(),
                lo == lowest_price(w@.take(i as int)),
                hi == highest_price(w@.take(i as int)),
            decreases w.len() - i,
        {
            let t = w[i];
            assert(w@.take(i + 1).drop_last() =~= w@.take(i as int));
            assert(w@.take(i + 1).last() == t);
            if t.price.get() < lo.get() {
                lo = t.price;
            }
            if t.price.get() > hi.get() {
                hi = t.price;
            }
            i = i + 1;
        }
        assert(w@.take(w@.len() as int) =~= w@);
        Some((lo, hi))
    }

    /// The price of the first trade from a time on.
    pub fn first_price_after(&self, t: Timestamp) -> (r: Option<Price>)
        ensures
            r == first_price(self@, t),
    {
        let start = self.cut(t);
        if start < self.trades.len() {
            Some(self.trades[start].price)
        } else {
            None
        }
    }
}

/// The price of the first trade from a time on.
pub open spec fn first_price(s: Seq<Trade>, t: Timestamp) -> Option<Price> {
    if count_before(s, t) < s.len() {
        Some(s[count_before(s, t) as int].price)
    } else {
        None
    }
}

/// A window holds exactly the trades of its time: none before its start, none at its end or
/// later.
pub proof fn law_window_is_half_open(s: Seq<Trade>, from: Timestamp, to: Timestamp, i: int)
    requires
        ordered_trades(s),
        0 <= i < s.len(),
    ensures
        from <= s[i].at < to <==> (from <= to && count_before(s, from) <= i < count_before(s, to)),
{
    law_cut_by_time(s, from);
    law_cut_by_time(s, to);
}

/// A part that is cut at its last time holds only trades from its first time to its last, both
/// included.
pub proof fn law_part_is_within_its_time(s: Seq<Trade>, from: Timestamp, last: Timestamp, i: int)
    requires
        ordered_trades(s),
        0 <= i < through(s, from, last).len(),
    ensures
        from <= through(s, from, last)[i].at <= last,
{
    law_cut_by_time(s, from);
    if last < i64::MAX && from <= last + 1 {
        let to = (last + 1) as i64;
        law_cut_by_time(s, to);
        let n = count_before(s, from);
        let m = count_before(s, to);
        if n > m {
            assert(s[m as int].at >= to);
            assert(s[m as int].at < from);
        }
        assert(through(s, from, last)[i] == s[n + i]);
    }
}

/// Whether two tapes have the same trades up to a time, that included.
pub open spec fn agree_through(a: Seq<Trade>, b: Seq<Trade>, last: Timestamp) -> bool {
    through(a, i64::MIN, last) == through(b, i64::MIN, last)
}

/// What comes before a time is found in any start of the tape that goes up to it.
proof fn lemma_count_in_start(s: Seq<Trade>, hi: Timestamp, t: Timestamp)
    requires
        ordered_trades(s),
        t <= hi,
    ensures
        count_before(s, hi) <= s.len(),
        count_before(s.take(count_before(s, hi) as int), t) == count_before(s, t),
{
    law_cut_by_time(s, hi);
    let c = count_before(s, hi) as int;
    let start = s.take(c);
    assert forall|i: int, j: int| 0 <= i <= j < start.len() implies (
    #[trigger] start[i]).not_after(#[trigger] start[j]) by {
        assert(s[i].not_after(s[j]));
    }
    law_cut_by_time(start, t);
    let k = count_before(start, t);
    assert forall|i: int| 0 <= i < k implies (#[trigger] s[i]).at < t by {
        assert(start[i].at < t);
    }
    assert forall|i: int| k <= i < s.len() implies (#[trigger] s[i]).at >= t by {
        if i < c {
            assert(start[i].at >= t);
        }
    }
    lemma_count_before(s, t, k);
}

/// Tapes that agree up to a time have the same trades in every window up to it.
pub proof fn lemma_agreeing_windows(
    a: Seq<Trade>,
    b: Seq<Trade>,
    last: Timestamp,
    from: Timestamp,
    to: Timestamp,
)
    requires
        ordered_trades(a),
        ordered_trades(b),
        agree_through(a, b, last),
        to <= last,
    ensures
        between(a, from, to) == between(b, from, to),
        through(a, from, last) == through(b, from, last),
{
    law_cut_by_time(a, i64::MIN);
    law_cut_by_time(b, i64::MIN);
    if count_before(a, i64::MIN) > 0 {
        assert(a[0].at < i64::MIN);
    }
    if count_before(b, i64::MIN) > 0 {
        assert(b[0].at < i64::MIN);
    }
    if last == i64::MAX {
        assert(from_time(a, i64::MIN) =~= a);
        assert(from_time(b, i64::MIN) =~= b);
    } else {
        let hi = (last + 1) as i64;
        let m = count_before(a, hi) as int;
        let n = count_before(b, hi) as int;
        lemma_count_in_start(a, hi, hi);
        lemma_count_in_start(b, hi, hi);
        assert(through(a, i64::MIN, last) =~= a.take(m));
        assert(through(b, i64::MIN, last) =~= b.take(n));
        lemma_window_of_start(a, hi, from, to);
        lemma_window_of_start(b, hi, from, to);
        lemma_window_of_start(a, hi, from, hi);
        lemma_window_of_start(b, hi, from, hi);
    }
}

proof fn lemma_window_of_start(s: Seq<Trade>, hi: Timestamp, from: Timestamp, to: Timestamp)
    requires
        ordered_trades(s),
        to <= hi,
    ensures
        between(s, from, to) == between(s.take(count_before(s, hi) as int), from, to),
{
    if from <= to {
        lemma_count_in_start(s, hi, from);
        lemma_count_in_start(s, hi, to);
        law_cut_by_time(s, from);
        law_cut_by_time(s, to);
        law_cut_by_time(s, hi);
        let c = count_before(s, hi) as int;
        let m = count_before(s, to) as int;
        let n = count_before(s, from) as int;
        if m > c {
            assert(s[c].at >= hi);
            assert(s[c].at < to);
        }
        if n > m {
            assert(s[m].at >= to);
            assert(s[m].at < from);
        }
        assert(s.take(c).subrange(n, m) =~= s.subrange(n, m));
    }
}

/// The first price from a time on is that of the first trade that is not before it, and there is
/// none only where every trade is before it.
pub proof fn law_first_price_is_not_early(s: Seq<Trade>, t: Timestamp)
    requires
        ordered_trades(s),
    ensures
        first_price(s, t) matches Some(p) ==> exists|i: int|
            0 <= i < s.len() && (#[trigger] s[i]).price == p && s[i].at >= t && forall|j: int|
                0 <= j < i ==> (#[trigger] s[j]).at < t,
        first_price(s, t) is None ==> forall|i: int| 0 <= i < s.len() ==> (#[trigger] s[i]).at < t,
{
    law_cut_by_time(s, t);
    let c = count_before(s, t) as int;
    if c < s.len() {
        assert(s[c].price == first_price(s, t)->0);
    }
}

/// What is left from a time on are exactly the trades that are not before it, in their order.
pub proof fn law_later_trades_are_kept(s: Seq<Trade>, t: Timestamp)
    requires
        ordered_trades(s),
    ensures
        from_time(s, t).len() <= s.len(),
        forall|i: int|
            0 <= i < from_time(s, t).len() ==> (#[trigger] from_time(s, t)[i]).at >= t
                && from_time(s, t)[i] == s[s.len() - from_time(s, t).len() + i],
        forall|i: int|
            0 <= i < s.len() - from_time(s, t).len() ==> (#[trigger] s[i]).at < t,
{
    law_cut_by_time(s, t);
}

/// The lowest and the highest price of some trades bound every price among them, and both were
/// paid.
pub proof fn law_extreme_prices_bound_all(s: Seq<Trade>)
    requires
        s.len() > 0,
    ensures
        forall|i: int|
            0 <= i < s.len() ==> lowest_price(s).0@ <= (#[trigger] s[i]).price.0@
                <= highest_price(s).0@,
        exists|i: int| 0 <= i < s.len() && (#[trigger] s[i]).price == lowest_price(s),
        exists|i: int| 0 <= i < s.len() && (#[trigger] s[i]).price == highest_price(s),
    decreases s.len(),
{
    if s.len() > 1 {
        let before = s.drop_last();
        let n = s.len() - 1;
        law_extreme_prices_bound_all(before);
        assert forall|i: int| 0 <= i < s.len() implies lowest_price(s).0@ <= (
        #[trigger] s[i]).price.0@ <= highest_price(s).0@ by {
            if i < n {
                assert(s[i] == before[i]);
            }
        }
        let j = choose|i: int|
            0 <= i < before.len() && (#[trigger] before[i]).price == lowest_price(before);
        let k = choose|i: int|
            0 <= i < before.len() && (#[trigger] before[i]).price == highest_price(before);
        assert(s[j] == before[j] && s[k] == before[k] && s[n] == s.last());
    } else {
        assert(s[0].price == lowest_price(s) && s[0].price == highest_price(s));
    }
}

/// Trades are in the order of their time, and those of one time in the order of their number.
pub proof fn law_trades_are_ordered_by_time_and_number(s: Seq<Trade>, i: int, j: int)
    requires
        ordered_trades(s),
        0 <= i <= j < s.len(),
    ensures
        s[i].at <= s[j].at,
        s[i].at == s[j].at ==> s[i].trade_id <= s[j].trade_id,
{
    assert(s[i].not_after(s[j]));
}

} // verus!
