//! The holding-period buckets that trades are grouped into for payoff
//! analysis.
use vstd::prelude::*;

verus! {

/// Number of holding-period buckets.
pub const NUM_HOLDING_BUCKETS: usize = 5;

/// The inclusive day range of each bucket: 0-1, 2-5, 6-10, 11-20, 21 and up.
pub open spec fn bucket_range(b: int) -> (int, int) {
    if b == 0 {
        (0, 1)
    } else if b == 1 {
        (2, 5)
    } else if b == 2 {
        (6, 10)
    } else if b == 3 {
        (11, 20)
    } else {
        (21, i64::MAX as int)
    }
}

/// The bucket a trade held for `days` days falls in; `None` for a negative
/// holding period.
pub fn holding_period_bucket(days: i64) -> (r: Option<usize>)
    ensures
        r matches Some(b) ==> b < NUM_HOLDING_BUCKETS && bucket_range(b as int).0 <= days
            <= bucket_range(b as int).1,
        r is None <==> days < 0,
        0 <= days <= 1 ==> r == Some(0usize),
        2 <= days <= 5 ==> r == Some(1usize),
        6 <= days <= 10 ==> r == Some(2usize),
        11 <= days <= 20 ==> r == Some(3usize),
        21 <= days ==> r == Some(4usize),
{
    if days < 0 {
        None
    } else if days <= 1 {
        Some(0)
    } else if days <= 5 {
        Some(1)
    } else if days <= 10 {
        Some(2)
    } else if days <= 20 {
        Some(3)
    } else {
        Some(4)
    }
}

pub open spec fn bucket_name(b: int) -> Seq<char> {
    if b == 0 {
        "1 day"@
    } else if b == 1 {
        "2-5 days"@
    } else if b == 2 {
        "6-10 days"@
    } else if b == 3 {
        "11-20 days"@
    } else {
        "21+ days"@
    }
}

/// The label of a bucket.
pub fn holding_bucket_name(b: usize) -> (r: &'static str)
    requires
        b < NUM_HOLDING_BUCKETS,
    ensures
        r@ == bucket_name(b as int),
{
    if b == 0 {
        "1 day"
    } else if b == 1 {
        "2-5 days"
    } else if b == 2 {
        "6-10 days"
    } else if b == 3 {
        "11-20 days"
    } else {
        "21+ days"
    }
}

/// The buckets do not overlap: a holding period lies in at most one.
pub proof fn law_buckets_disjoint(days: int, a: int, b: int)
    requires
        0 <= a < b < NUM_HOLDING_BUCKETS,
        bucket_range(a).0 <= days <= bucket_range(a).1,
    ensures
        !(bucket_range(b).0 <= days <= bucket_range(b).1),
{
}

/// A holding period lies in bucket `b` exactly as the day counts say: 0-1
/// days in the first, 2-5 in the second, 6-10 in the third, 11-20 in the
/// fourth, 21 and more in the last.
pub proof fn law_bucket_day_bounds(days: int, b: int)
    requires
        0 <= b < NUM_HOLDING_BUCKETS,
        0 <= days <= i64::MAX,
    ensures
        (bucket_range(b).0 <= days <= bucket_range(b).1) <==> ((b == 0 && 0 <= days <= 1) || (b
            == 1 && 2 <= days <= 5) || (b == 2 && 6 <= days <= 10) || (b == 3 && 11 <= days <= 20)
            || (b == 4 && 21 <= days)),
{
}

/// Each bucket's label names its day range.
pub proof fn law_bucket_labels_match_ranges(b: int)
    requires
        0 <= b < NUM_HOLDING_BUCKETS,
    ensures
        bucket_range(b) == (0int, 1int) ==> bucket_name(b) == "1 day"@,
        bucket_range(b) == (2int, 5int) ==> bucket_name(b) == "2-5 days"@,
        bucket_range(b) == (6int, 10int) ==> bucket_name(b) == "6-10 days"@,
        bucket_range(b) == (11int, 20int) ==> bucket_name(b) == "11-20 days"@,
        bucket_range(b).0 == 21 ==> bucket_name(b) == "21+ days"@,
        bucket_range(b) == (0int, 1int) || bucket_range(b) == (2int, 5int) || bucket_range(b) == (
            6int,
            10int,
        ) || bucket_range(b) == (11int, 20int) || bucket_range(b) == (21int, i64::MAX as int),
{
}

} // verus!
