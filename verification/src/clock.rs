//! Points in time.

use vstd::prelude::*;

verus! {

/// A point in time: milliseconds since the start of 1970 in UTC.
pub type Timestamp = i64;

/// A length of time in milliseconds.
pub type Millis = i64;

/// A time moved by a length of time, held at the ends of the range.
pub open spec fn moved(t: int, by: int) -> int {
    if t + by > i64::MAX {
        i64::MAX as int
    } else if t + by < i64::MIN {
        i64::MIN as int
    } else {
        t + by
    }
}

/// The time `by` after `t`.
pub fn after(t: Timestamp, by: Millis) -> (r: Timestamp)
    ensures
        r == moved(t as int, by as int),
{
    if by >= 0 {
        if t > i64::MAX - by {
            i64::MAX
        } else {
            t + by
        }
    } else if t < i64::MIN - by {
        i64::MIN
    } else {
        t + by
    }
}

/// The length of time from `earlier` to `t`.
pub fn since(t: Timestamp, earlier: Timestamp) -> (r: Millis)
    ensures
        r == moved(t as int, -earlier),
{
    if earlier >= 0 {
        if t < i64::MIN + earlier {
            i64::MIN
        } else {
            t - earlier
        }
    } else if t > i64::MAX + earlier {
        i64::MAX
    } else {
        t - earlier
    }
}

/// Whether a time is one that the calendar can hold.
pub open spec fn dated(ms: int) -> bool {
    -8334601228800000 <= ms <= 8210266876799999
}

/// `chrono`'s `Utc.timestamp_millis_opt`: which times there are dates for, from the first
/// millisecond of the year 262144 before our era, which it counts as -262143, to the last of the
/// year 262142.
#[verifier::external_body]
pub(crate) fn has_date(ms: Timestamp) -> (r: bool)
    ensures
        r == dated(ms as int),
{
    chrono::TimeZone::timestamp_millis_opt(&chrono::Utc, ms).single().is_some()
}

/// A time moved within the range is moved by exactly the length of time, and back again by moving
/// it the other way; beyond the range it is held at the end that it was moved towards.
pub proof fn law_moved_times(t: Timestamp, by: Millis)
    ensures
        i64::MIN <= t + by <= i64::MAX ==> moved(t as int, by as int) == t + by && moved(
            moved(t as int, by as int),
            -by,
        ) == t,
        t + by > i64::MAX ==> moved(t as int, by as int) == i64::MAX && by > 0,
        t + by < i64::MIN ==> moved(t as int, by as int) == i64::MIN && by < 0,
        by > 0 && t < i64::MAX ==> moved(t as int, by as int) > t,
        by < 0 && t > i64::MIN ==> moved(t as int, by as int) < t,
{
}

} // verus!
