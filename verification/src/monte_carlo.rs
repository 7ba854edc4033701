//! Random trade orders for Monte Carlo replays and bootstrap resamples.
use vstd::prelude::*;

verus! {

broadcast use {vstd::seq_lib::group_to_multiset_ensures, vstd::multiset::group_multiset_axioms};

/// Calls `rand::seq::SliceRandom::shuffle` with the thread's generator.
/// Claims: the vector ends as a permutation of what it held (the shuffle only
/// swaps elements). Which permutation comes out is left to chance.
#[verifier::external_body]
fn shuffle_in_place(v: &mut Vec<usize>)
    ensures
        final(v)@.to_multiset() == old(v)@.to_multiset(),
{
    rand::seq::SliceRandom::shuffle(v.as_mut_slice(), &mut rand::thread_rng());
}

/// Calls `rand::Rng::gen_range(0..n)` with the thread's generator. Claims:
/// the result lies in `0..n` (the range must not be empty). Which index comes
/// out is left to chance.
#[verifier::external_body]
fn random_below(n: usize) -> (r: usize)
    requires
        n > 0,
    ensures
        r < n,
{
    rand::Rng::gen_range(&mut rand::thread_rng(), 0..n)
}

/// The indices `0..n` in order.
pub open spec fn identity_order(n: nat) -> Seq<usize> {
    Seq::new(n, |i: int| i as usize)
}

/// The indices `0..n` in a random order: each index exactly once.
pub fn shuffled_order(n: usize) -> (r: Vec<usize>)
    ensures
        r@.len() == n,
        r@.to_multiset() == identity_order(n as nat).to_multiset(),
{
    let mut v: Vec<usize> = Vec::new();
    let mut i: usize = 0;
    while i < n
        invariant
            i <= n,
            v@ == identity_order(i as nat),
        decreases n - i,
    {
        v.push(i);
        i = i + 1;
        proof {
            assert(v@ =~= identity_order(i as nat));
        }
    }
    let ghost before = v@;
    shuffle_in_place(&mut v);
    proof {
        assert(v@.len() == v@.to_multiset().len());
        assert(before.len() == before.to_multiset().len());
    }
    v
}

/// `count` indices drawn from `0..n` with replacement (a bootstrap resample).
pub fn resample_indices(n: usize, count: usize) -> (r: Vec<usize>)
    requires
        n > 0,
    ensures
        r@.len() == count,
        forall|k: int| 0 <= k < count ==> r@[k] < n,
{
    let mut v: Vec<usize> = Vec::new();
    let mut i: usize = 0;
    while i < count
        invariant
            i <= count,
            n > 0,
            v@.len() == i,
            forall|k: int| 0 <= k < i ==> v@[k] < n,
        decreases count - i,
    {
        let j = random_below(n);
        v.push(j);
        i = i + 1;
    }
    v
}

/// A shuffled order holds every index below `n` once and nothing else: each
/// position holds an index below `n`, and no index appears twice.
pub proof fn law_shuffled_order_is_permutation(r: Seq<usize>, n: nat)
    requires
        n <= usize::MAX + 1,
        r.to_multiset() == identity_order(n).to_multiset(),
    ensures
        r.len() == n,
        forall|k: int| 0 <= k < r.len() ==> r[k] < n,
        forall|a: int, b: int| 0 <= a < b < r.len() ==> r[a] != r[b],
{
    let id = identity_order(n);
    assert(r.len() == r.to_multiset().len());
    assert(id.len() == id.to_multiset().len());
    assert forall|k: int| 0 <= k < r.len() implies r[k] < n by {
        assert(r.to_multiset().contains(r[k]));
        assert(id.to_multiset().contains(r[k]));
        assert(id.contains(r[k]));
    }
    lemma_identity_counts(n);
    assert forall|a: int, b: int| 0 <= a < b < r.len() implies r[a] != r[b] by {
        if r[a] == r[b] {
            lemma_count_two(r, a, b);
            assert(id.to_multiset().count(r[a]) <= 1);
        }
    }
}

proof fn lemma_identity_counts(n: nat)
    requires
        n <= usize::MAX + 1,
    ensures
        forall|x: usize| identity_order(n).to_multiset().count(x) <= 1,
    decreases n,
{
    if n > 0 {
        let m = (n - 1) as nat;
        lemma_identity_counts(m);
        let id = identity_order(n);
        assert(id =~= identity_order(m).push((n - 1) as usize));
        assert forall|x: usize| identity_order(n).to_multiset().count(x) <= 1 by {
            vstd::seq_lib::to_multiset_build(identity_order(m), (n - 1) as usize);
            vstd::seq_lib::to_multiset_contains(identity_order(m), x);
            if x == (n - 1) as usize {
                assert(!identity_order(m).contains(x)) by {
                    if identity_order(m).contains(x) {
                        let k = choose|k: int| 0 <= k < identity_order(m).len() && identity_order(m)[k] == x;
                        assert(identity_order(m)[k] == k as usize);
                        assert(k as usize == k);
                    }
                }
                assert(identity_order(m).to_multiset().count(x) == 0);
            }
        }
    }
}

proof fn lemma_count_two(s: Seq<usize>, a: int, b: int)
    requires
        0 <= a < b < s.len(),
        s[a] == s[b],
    ensures
        s.to_multiset().count(s[a]) >= 2,
{
    let t = s.remove(b);
    assert(t[a] == s[a]);
    assert(t.contains(s[a]));
    vstd::seq_lib::to_multiset_contains(t, s[a]);
    vstd::seq_lib::to_multiset_remove(s, b);
}

} // verus!
