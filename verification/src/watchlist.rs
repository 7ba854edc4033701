//! A user's watchlist of symbols: at most `MAX_WATCHLIST_SIZE` of them, each
//! listed once, in the order they were added.
use crate::text::str_equal;
use vstd::prelude::*;

verus! {

/// Symbols a watchlist holds at most.
pub const MAX_WATCHLIST_SIZE: usize = 20;

/// What adding a symbol did.
#[derive(Clone, Copy, Debug, PartialEq, Eq, Structural)]
pub enum WatchlistAdd {
    /// The list already holds `MAX_WATCHLIST_SIZE` symbols; nothing changed.
    Full,
    /// The symbol was already listed; nothing changed.
    Duplicate,
    /// The symbol was appended.
    Added,
}

/// The symbols of a list, as character sequences.
pub open spec fn names(l: Seq<String>) -> Seq<Seq<char>> {
    l.map_values(|x: String| x@)
}

/// Whether `i` is the first position of `s` in `l`.
pub open spec fn is_first_position(l: Seq<Seq<char>>, s: Seq<char>, i: int) -> bool {
    &&& 0 <= i < l.len()
    &&& l[i] == s
    &&& forall|j: int| 0 <= j < i ==> l[j] != s
}

/// The first position of `s` in `l` (meaningful when `l` contains `s`).
pub open spec fn first_position(l: Seq<Seq<char>>, s: Seq<char>) -> int {
    choose|i: int| is_first_position(l, s, i)
}

/// The outcome of adding `s` to `l`: refused when the list is full, then
/// when `s` is already listed; otherwise added.
pub open spec fn add_outcome(l: Seq<Seq<char>>, s: Seq<char>) -> WatchlistAdd {
    if l.len() >= MAX_WATCHLIST_SIZE {
        WatchlistAdd::Full
    } else if l.contains(s) {
        WatchlistAdd::Duplicate
    } else {
        WatchlistAdd::Added
    }
}

/// The list after adding `s`.
pub open spec fn after_add(l: Seq<Seq<char>>, s: Seq<char>) -> Seq<Seq<char>> {
    if add_outcome(l, s) == WatchlistAdd::Added {
        l.push(s)
    } else {
        l
    }
}

/// The list after removing `s`: its first occurrence goes, when there is one.
pub open spec fn after_remove(l: Seq<Seq<char>>, s: Seq<char>) -> Seq<Seq<char>> {
    if l.contains(s) {
        l.remove(first_position(l, s))
    } else {
        l
    }
}

proof fn lemma_first_position_unique(l: Seq<Seq<char>>, s: Seq<char>, i: int)
    requires
        is_first_position(l, s, i),
    ensures
        first_position(l, s) == i,
        l.contains(s),
{
    let k = first_position(l, s);
    assert(is_first_position(l, s, k));
    if k < i {
        assert(l[k] != s);
    }
    if i < k {
        assert(l[i] != s);
    }
}

/// The first position of `sym` in `list`, if it is listed.
fn position_of(list: &Vec<String>, sym: &str) -> (r: Option<usize>)
    ensures
        match r {
            Some(i) => is_first_position(names(list@), sym@, i as int),
            None => !names(list@).contains(sym@),
        },
{
    let ghost l = names(list@);
    let mut i: usize = 0;
    while i < list.len()
        invariant
            0 <= i <= list@.len(),
            l == names(list@),
            forall|j: int| 0 <= j < i ==> l[j] != sym@,
        decreases list@.len() - i,
    {
        if str_equal(list[i].as_str(), sym) {
            return Some(i);
        }
        i = i + 1;
    }
    proof {
        if l.contains(sym@) {
            let k = choose|k: int| 0 <= k < l.len() && l[k] == sym@;
            assert(l[k] != sym@);
        }
    }
    None
}

/// Adds `sym` at the end of the watchlist, unless the list is full or
/// already holds it.
pub fn watchlist_add(list: &mut Vec<String>, sym: String) -> (r: WatchlistAdd)
    ensures
        r == add_outcome(names(old(list)@), sym@),
        names(final(list)@) == after_add(names(old(list)@), sym@),
        final(list)@ == (if r == WatchlistAdd::Added {
            old(list)@.push(sym)
        } else {
            old(list)@
        }),
{
    if list.len() >= MAX_WATCHLIST_SIZE {
        return WatchlistAdd::Full;
    }
    match position_of(list, sym.as_str()) {
        Some(i) => {
            proof {
                lemma_first_position_unique(names(list@), sym@, i as int);
            }
            WatchlistAdd::Duplicate
        },
        None => {
            let ghost before = list@;
            list.push(sym);
            proof {
                assert(names(list@) == names(before).push(sym@));
            }
            WatchlistAdd::Added
        },
    }
}

/// Removes the first occurrence of `sym` from the watchlist; `false` when
/// it is not listed, and the list is unchanged.
pub fn watchlist_remove(list: &mut Vec<String>, sym: &str) -> (r: bool)
    ensures
        r == names(old(list)@).contains(sym@),
        names(final(list)@) == after_remove(names(old(list)@), sym@),
        r ==> final(list)@ == old(list)@.remove(first_position(names(old(list)@), sym@)),
        !r ==> final(list)@ == old(list)@,
{
    match position_of(list, sym) {
        Some(i) => {
            let ghost before = list@;
            proof {
                lemma_first_position_unique(names(before), sym@, i as int);
            }
            list.remove(i);
            proof {
                assert(names(list@) == names(before).remove(i as int));
            }
            true
        },
        None => false,
    }
}

// ---------------------------------------------------------------------------
// Laws
// ---------------------------------------------------------------------------

/// Adding keeps a watchlist within bounds and free of repeats: a list of at
/// most `MAX_WATCHLIST_SIZE` distinct symbols stays so.
pub proof fn law_add_keeps_list_valid(l: Seq<Seq<char>>, s: Seq<char>)
    requires
        l.len() <= MAX_WATCHLIST_SIZE,
        l.no_duplicates(),
    ensures
        after_add(l, s).len() <= MAX_WATCHLIST_SIZE,
        after_add(l, s).no_duplicates(),
{
    if add_outcome(l, s) == WatchlistAdd::Added {
        let m = l.push(s);
        assert forall|i: int, j: int|
            0 <= i < m.len() && 0 <= j < m.len() && i != j implies m[i] != m[j] by {
            if i == l.len() as int {
                assert(m[j] == l[j]);
            } else if j == l.len() as int {
                assert(m[i] == l[i]);
            } else {
                assert(m[i] == l[i] && m[j] == l[j]);
            }
        }
    }
}

/// Removing a symbol that was just added gives back the list as it was.
pub proof fn law_remove_undoes_add(l: Seq<Seq<char>>, s: Seq<char>)
    requires
        add_outcome(l, s) == WatchlistAdd::Added,
    ensures
        after_remove(after_add(l, s), s) == l,
{
    let m = l.push(s);
    assert forall|j: int| 0 <= j < l.len() implies m[j] != s by {
        assert(m[j] == l[j]);
    }
    assert(is_first_position(m, s, l.len() as int));
    lemma_first_position_unique(m, s, l.len() as int);
    assert(m.remove(l.len() as int) == l);
}

/// A symbol is listed after adding it, unless the list was full.
pub proof fn law_added_symbol_is_listed(l: Seq<Seq<char>>, s: Seq<char>)
    requires
        l.len() < MAX_WATCHLIST_SIZE,
    ensures
        after_add(l, s).contains(s),
{
    if add_outcome(l, s) == WatchlistAdd::Added {
        assert(l.push(s)[l.len() as int] == s);
    }
}

} // verus!
