//! The end of a wait that several clones share.
//!
//! Any clone may move the end at any time, so a clone cannot say what it is. It can say what it
//! has done to it: every act of a clone on the end is kept in its history.

use std::sync::atomic::{AtomicU64, Ordering};
use std::sync::Arc;
use vstd::prelude::*;

verus! {

/// An act on the shared end.
pub enum Act {
    /// The end was looked up, and was this.
    Found(u64),
    /// The end was moved to this, unless it was later.
    Raised(u64),
    /// The end was moved from what it had been found to be, unless it was another by then.
    Settled { found: u64, end: u64 },
}

/// What an act makes of the end.
pub open spec fn moved_by(end: u64, act: Act) -> u64 {
    match act {
        Act::Found(_) => end,
        Act::Raised(mark) => if mark > end {
            mark
        } else {
            end
        },
        Act::Settled { found, end: next } => if end == found {
            next
        } else {
            end
        },
    }
}

/// What some acts make of the end, one after the other. They may be those of several clones, in
/// the order in which they took place.
pub open spec fn moved_by_all(end: u64, acts: Seq<Act>) -> u64
    decreases acts.len(),
{
    if acts.len() == 0 {
        end
    } else {
        moved_by(moved_by_all(end, acts.drop_last()), acts.last())
    }
}

/// The shared end, as one clone holds it.
pub struct SharedEnd {
    cell: Arc<AtomicU64>,
    acts: Ghost<Seq<Act>>,
}

impl SharedEnd {
    /// Where the end is kept.
    pub closed spec fn cell(&self) -> Arc<AtomicU64> {
        self.cell
    }

    /// What this clone has done to the end.
    pub closed spec fn acts(&self) -> Seq<Act> {
        self.acts@
    }

    /// An end that is shared with nobody yet: the start of time.
    pub fn new() -> (r: Self)
        ensures
            r.acts() == Seq::<Act>::empty(),
    {
        SharedEnd { cell: Arc::new(AtomicU64::new(0)), acts: Ghost(Seq::empty()) }
    }

    /// The end as it is now, which may be anything.
    pub(crate) fn peek(&self) -> u64 {
        self.cell.load(Ordering::Relaxed)
    }

    /// Looks the end up, to settle it.
    pub(crate) fn find(&mut self) -> (r: u64)
        ensures
            final(self).cell() == old(self).cell(),
            final(self).acts() == old(self).acts().push(Act::Found(r)),
    {
        let found = self.cell.load(Ordering::Relaxed);
        self.acts = Ghost(self.acts@.push(Act::Found(found)));
        found
    }

    /// Moves the end to a mark, unless it is later.
    pub(crate) fn raise(&mut self, mark: u64)
        ensures
            final(self).cell() == old(self).cell(),
            final(self).acts() == old(self).acts().push(Act::Raised(mark)),
    {
        let _ = self.cell.fetch_max(mark, Ordering::Relaxed);
        self.acts = Ghost(self.acts@.push(Act::Raised(mark)));
    }

    /// Moves the end from what it was found to be, unless it is another by now.
    pub(crate) fn settle(&mut self, found: u64, end: u64)
        ensures
            final(self).cell() == old(self).cell(),
            final(self).acts() == old(self).acts().push(Act::Settled { found, end }),
    {
        let _ = self.cell.compare_exchange(found, end, Ordering::Relaxed, Ordering::Relaxed);
        self.acts = Ghost(self.acts@.push(Act::Settled { found, end }));
    }
}

impl Clone for SharedEnd {
    /// A clone shares the end, and has done nothing to it yet.
    fn clone(&self) -> (r: Self)
        ensures
            r.cell() == self.cell(),
            r.acts() == Seq::<Act>::empty(),
    {
        SharedEnd { cell: self.cell.clone(), acts: Ghost(Seq::empty()) }
    }
}

} // verus!
