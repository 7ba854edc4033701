//! Enumerating k-element subsets of 0..n in lexicographic order, with a cap
//! on how many are produced (used to pick train/test splits).
use vstd::prelude::*;

verus! {

/// All ways to extend `cur` to `k` indices by picking increasing indices from
/// `start..n`, in lexicographic order.
pub open spec fn combos(n: int, k: int, start: int, cur: Seq<usize>) -> Seq<Seq<usize>>
    decreases n - start, 1int,
{
    if cur.len() >= k {
        seq![cur]
    } else if start >= n {
        Seq::empty()
    } else {
        combos_from(n, k, start, cur)
    }
}

/// The extensions of `cur` whose next index is `i` or later.
pub open spec fn combos_from(n: int, k: int, i: int, cur: Seq<usize>) -> Seq<Seq<usize>>
    decreases n - i, 0int,
{
    if i >= n || i < 0 {
        Seq::empty()
    } else {
        combos(n, k, i + 1, cur.push(i as usize)) + combos_from(n, k, i + 1, cur)
    }
}

/// At most the first `max` elements of `s`.
pub open spec fn cap<A>(s: Seq<A>, max: int) -> Seq<A> {
    if s.len() <= max {
        s
    } else {
        s.take(max)
    }
}

pub open spec fn vec_views(v: Seq<Vec<usize>>) -> Seq<Seq<usize>> {
    v.map_values(|x: Vec<usize>| x@)
}

proof fn lemma_cap_concat<A>(a: Seq<A>, c: Seq<A>, m: int)
    requires
        m >= 0,
    ensures
        cap(cap(a, m) + c, m) == cap(a + c, m),
{
    if a.len() > m {
        assert(cap(a.take(m) + c, m) =~= cap(a + c, m));
    }
}

proof fn lemma_combos_unfold(n: int, k: int, start: int, cur: Seq<usize>)
    requires
        cur.len() < k,
    ensures
        combos(n, k, start, cur) == combos_from(n, k, start, cur),
{
}

fn copy_indices(v: &Vec<usize>) -> (r: Vec<usize>)
    ensures
        r@ == v@,
{
    let mut r: Vec<usize> = Vec::new();
    let mut i: usize = 0;
    while i < v.len()
        invariant
            i <= v@.len(),
            r@ == v@.take(i as int),
        decreases v@.len() - i,
    {
        r.push(v[i]);
        i = i + 1;
        proof {
            assert(r@ == v@.take(i as int));
        }
    }
    proof {
        assert(v@.take(v@.len() as int) == v@);
    }
    r
}

/// Appends to `result` the extensions of `current` by indices from
/// `start..n`, stopping once `result` holds `max` entries.
fn gen_combos_recursive(
    n: usize,
    k: usize,
    start: usize,
    current: &mut Vec<usize>,
    result: &mut Vec<Vec<usize>>,
    max: usize,
)
    requires
        old(current)@.len() <= k,
    ensures
        final(current)@ == old(current)@,
        vec_views(final(result)@) == if old(result)@.len() >= max {
            vec_views(old(result)@)
        } else {
            cap(vec_views(old(result)@) + combos(n as int, k as int, start as int, old(current)@), max as int)
        },
    decreases n - start,
{
    if result.len() >= max {
        return;
    }
    if current.len() == k {
        let copy = copy_indices(current);
        result.push(copy);
        proof {
            assert(vec_views(final(result)@) =~= vec_views(old(result)@) + seq![old(current)@]);
        }
        return;
    }
    let ghost base = vec_views(result@);
    let ghost cur = current@;
    proof {
        if start >= n {
            assert(combos(n as int, k as int, start as int, cur) =~= Seq::<Seq<usize>>::empty());
            assert(base + Seq::<Seq<usize>>::empty() =~= base);
        } else {
            lemma_combos_unfold(n as int, k as int, start as int, cur);
        }
    }
    let mut i = start;
    while i < n
        invariant
            start <= i <= n || (start > n && i == start),
            current@ == cur,
            cur == old(current)@,
            base == vec_views(old(result)@),
            old(result)@.len() < max,
            cur.len() < k,
            vec_views(result@).len() < max,
            start < n ==> cap(vec_views(result@) + combos_from(n as int, k as int, i as int, cur), max as int)
                == cap(base + combos(n as int, k as int, start as int, cur), max as int),
            start >= n ==> vec_views(result@) == base,
        decreases n - i,
    {
        let ghost before = vec_views(result@);
        current.push(i);
        gen_combos_recursive(n, k, i + 1, current, result, max);
        current.pop();
        proof {
            assert(current@ =~= cur);
            let sub = combos(n as int, k as int, i + 1, cur.push(i));
            let rest = combos_from(n as int, k as int, i + 1, cur);
            assert(combos_from(n as int, k as int, i as int, cur) == sub + rest);
            lemma_cap_concat(before + sub, rest, max as int);
            assert(before + sub + rest =~= before + (sub + rest));
        }
        if result.len() >= max {
            proof {
                let rest = combos_from(n as int, k as int, i + 1, cur);
                assert(vec_views(result@).len() == max);
                assert(cap(vec_views(result@) + rest, max as int) =~= vec_views(result@));
            }
            return;
        }
        i = i + 1;
    }
    proof {
        if start < n {
            assert(combos_from(n as int, k as int, n as int, cur) =~= Seq::<Seq<usize>>::empty());
            assert(vec_views(result@) + Seq::<Seq<usize>>::empty() =~= vec_views(result@));
        } else {
            assert(cap(base, max as int) == base);
        }
    }
}

/// The first `max` (at most) `k`-element subsets of `0..n`, each listed in
/// increasing order, in lexicographic order.
pub fn generate_combinations(n: usize, k: usize, max: usize) -> (r: Vec<Vec<usize>>)
    ensures
        vec_views(r@) == cap(combos(n as int, k as int, 0, Seq::empty()), max as int),
{
    let mut result: Vec<Vec<usize>> = Vec::new();
    let mut current: Vec<usize> = Vec::new();
    gen_combos_recursive(n, k, 0, &mut current, &mut result, max);
    proof {
        if max == 0 {
            assert(cap(combos(n as int, k as int, 0, Seq::empty()), 0) =~= Seq::<Seq<usize>>::empty());
        } else {
            assert(vec_views(Seq::<Vec<usize>>::empty()) + combos(n as int, k as int, 0, Seq::empty())
                =~= combos(n as int, k as int, 0, Seq::empty()));
        }
    }
    result
}

// ---------------------------------------------------------------------------
// Laws
// ---------------------------------------------------------------------------

/// `c` is a `k`-element strictly increasing index list that starts with
/// `prefix` and whose remaining indices lie in `lo..hi`.
pub open spec fn increasing_extension(c: Seq<usize>, prefix: Seq<usize>, k: int, lo: int, hi: int) -> bool {
    &&& c.len() == k
    &&& c.take(prefix.len() as int) == prefix
    &&& forall|a: int, b: int| 0 <= a < b < c.len() ==> c[a] < c[b]
    &&& forall|a: int| prefix.len() <= a < c.len() ==> lo <= #[trigger] c[a] < hi
}

/// Every enumerated subset has `k` indices, strictly increasing, all below
/// `n`, and extends the prefix it was built from.
pub proof fn law_combinations_are_increasing_subsets(
    n: int,
    k: int,
    start: int,
    cur: Seq<usize>,
)
    requires
        0 <= start,
        n <= usize::MAX + 1,
        cur.len() <= k,
        forall|a: int| 0 <= a < cur.len() ==> cur[a] < start,
        forall|a: int, b: int| 0 <= a < b < cur.len() ==> cur[a] < cur[b],
    ensures
        forall|j: int|
            0 <= j < combos(n, k, start, cur).len() ==> increasing_extension(
                #[trigger] combos(n, k, start, cur)[j],
                cur,
                k,
                start,
                n,
            ),
    decreases n - start, 1int,
{
    if cur.len() >= k {
        assert(combos(n, k, start, cur) == seq![cur]);
        assert(cur.take(cur.len() as int) == cur);
    } else if start >= n {
    } else {
        lemma_combos_from_are_increasing_subsets(n, k, start, cur);
        assert(combos(n, k, start, cur) == combos_from(n, k, start, cur));
    }
}

proof fn lemma_combos_from_are_increasing_subsets(n: int, k: int, i: int, cur: Seq<usize>)
    requires
        0 <= i,
        n <= usize::MAX + 1,
        cur.len() < k,
        forall|a: int| 0 <= a < cur.len() ==> cur[a] < i,
        forall|a: int, b: int| 0 <= a < b < cur.len() ==> cur[a] < cur[b],
    ensures
        forall|j: int|
            0 <= j < combos_from(n, k, i, cur).len() ==> increasing_extension(
                #[trigger] combos_from(n, k, i, cur)[j],
                cur,
                k,
                i,
                n,
            ),
    decreases n - i, 0int,
{
    if i < n {
        let ext = cur.push(i as usize);
        assert forall|a: int, b: int| 0 <= a < b < ext.len() implies ext[a] < ext[b] by {
            if b == ext.len() - 1 {
                assert(ext[a] == cur[a]);
            } else {
                assert(ext[a] == cur[a] && ext[b] == cur[b]);
            }
        }
        law_combinations_are_increasing_subsets(n, k, i + 1, ext);
        lemma_combos_from_are_increasing_subsets(n, k, i + 1, cur);
        let left = combos(n, k, i + 1, ext);
        let right = combos_from(n, k, i + 1, cur);
        let all = combos_from(n, k, i, cur);
        assert(all == left + right);
        assert forall|j: int| 0 <= j < all.len() implies increasing_extension(
            #[trigger] all[j],
            cur,
            k,
            i,
            n,
        ) by {
            if j < left.len() {
                let c = left[j];
                assert(all[j] == c);
                assert(increasing_extension(c, ext, k, i + 1, n));
                assert(c.take(ext.len() as int) == ext);
                assert(c.take(cur.len() as int) =~= ext.take(cur.len() as int));
                assert(ext.take(cur.len() as int) =~= cur);
                assert forall|a: int| cur.len() <= a < c.len() implies i <= #[trigger] c[a] < n by {
                    if a == cur.len() {
                        assert(c[a] == c.take(ext.len() as int)[a]);
                    }
                }
            } else {
                assert(all[j] == right[j - left.len()]);
                assert(increasing_extension(right[j - left.len()], cur, k, i + 1, n));
            }
        }
    }
}

} // verus!
