//! Retry decisions for failed data requests: whether to try again and how
//! long to back off, longer after a rate-limit error.
use crate::text::{occurs_in, str_contains};
use vstd::prelude::*;

verus! {

/// 2^n.
pub open spec fn pow2(n: nat) -> int
    decreases n,
{
    if n == 0 {
        1
    } else {
        2 * pow2((n - 1) as nat)
    }
}

/// Whether an error message reads as a rate limit: it mentions "429" or
/// "rate".
pub fn is_rate_limit_error(message: &str) -> (r: bool)
    ensures
        r == (occurs_in(message@, "429"@) || occurs_in(message@, "rate"@)),
{
    str_contains(message, "429") || str_contains(message, "rate")
}

/// The backoff before the retry that follows failure number `attempt`
/// (from 1): `2^attempt * 2` seconds after a rate limit, else
/// `2^(attempt - 1)` seconds.
pub open spec fn backoff_secs(attempt: nat, rate_limited: bool) -> int {
    if rate_limited {
        pow2(attempt) * 2
    } else {
        pow2((attempt - 1) as nat)
    }
}

fn pow2_u64(n: u32) -> (r: u64)
    requires
        n < 64,
    ensures
        r == pow2(n as nat),
{
    let mut r: u64 = 1;
    let mut i: u32 = 0;
    while i < n
        invariant
            i <= n,
            n < 64,
            r == pow2(i as nat),
            r <= 0x8000_0000_0000_0000u64,
        decreases n - i,
    {
        proof {
            lemma_pow2_bound(i as nat);
            lemma_pow2_bound((i + 1) as nat);
        }
        r = r * 2;
        i = i + 1;
    }
    r
}

proof fn lemma_pow2_mono(a: nat, b: nat)
    requires
        a <= b,
    ensures
        1 <= pow2(a) <= pow2(b),
    decreases b,
{
    if b > a {
        lemma_pow2_mono(a, (b - 1) as nat);
    } else {
        lemma_pow2_positive(a);
    }
}

proof fn lemma_pow2_positive(n: nat)
    ensures
        pow2(n) >= 1,
    decreases n,
{
    if n > 0 {
        lemma_pow2_positive((n - 1) as nat);
    }
}

proof fn lemma_pow2_bound(n: nat)
    ensures
        n <= 63 ==> 1 <= pow2(n) <= 0x8000_0000_0000_0000,
        n <= 62 ==> pow2(n) <= 0x4000_0000_0000_0000,
{
    assert(pow2(63) == 0x8000_0000_0000_0000 && pow2(62) == 0x4000_0000_0000_0000) by {
        reveal_with_fuel(pow2, 64);
    }
    if n <= 62 {
        lemma_pow2_mono(n, 62);
    }
    if n <= 63 {
        lemma_pow2_mono(n, 63);
    }
}

/// After `failures` failed attempts in a row, with at most `max_retries`
/// retries allowed: `None` to give up, else `Some(seconds)` to wait before
/// trying again.
pub fn next_retry(failures: u32, max_retries: u32, rate_limited: bool) -> (r: Option<u64>)
    requires
        1 <= failures,
        failures <= max_retries ==> (if rate_limited {
            failures <= 62
        } else {
            failures <= 64
        }),
    ensures
        failures > max_retries ==> r is None,
        failures <= max_retries ==> r == Some(backoff_secs(failures as nat, rate_limited) as u64),
{
    if failures > max_retries {
        return None;
    }
    proof {
        lemma_pow2_bound(failures as nat);
        lemma_pow2_bound((failures - 1) as nat);
    }
    if rate_limited {
        Some(pow2_u64(failures) * 2)
    } else {
        Some(pow2_u64(failures - 1))
    }
}

/// The waits grow: each backoff is twice the one before (for the same kind of
/// failure).
pub proof fn law_backoff_doubles(attempt: nat, rate_limited: bool)
    requires
        attempt >= 1,
    ensures
        backoff_secs(attempt + 1, rate_limited) == 2 * backoff_secs(attempt, rate_limited),
{
}

} // verus!
