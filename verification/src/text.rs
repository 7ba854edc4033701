//! Small text helpers used to label trades and to format messages.
use vstd::prelude::*;
use vstd::string::{StrSliceExecFns, StringSliceAdditionalSpecFns};
use vstd::utf8::{encode_utf8, is_char_boundary};

verus! {

/// What `char::to_uppercase` yields for a character.
pub uninterp spec fn uppercase_of(c: char) -> Seq<char>;

/// What `str::to_lowercase` yields for a string.
pub uninterp spec fn lowercase_of(s: Seq<char>) -> Seq<char>;

pub open spec fn is_ascii_lower(c: char) -> bool {
    'a' <= c && c <= 'z'
}

pub open spec fn is_ascii_upper(c: char) -> bool {
    'A' <= c && c <= 'Z'
}

pub open spec fn is_ascii_char(c: char) -> bool {
    (c as u32) < 128
}

/// The ASCII lowercase of a character (other characters unchanged).
pub open spec fn ascii_lower(c: char) -> char {
    if is_ascii_upper(c) {
        ((c as u32) + 32) as char
    } else {
        c
    }
}

/// Whether `pat` occurs in `s` as a contiguous run.
pub open spec fn occurs_in(s: Seq<char>, pat: Seq<char>) -> bool {
    exists|i: int| 0 <= i && i + pat.len() <= s.len() && #[trigger] s.subrange(i, i + pat.len()) == pat
}

/// Calls `char::to_uppercase` and collects the characters. Claims: the
/// result is the named uppercase mapping; an ASCII lowercase letter becomes
/// the matching capital, and any other ASCII character is unchanged.
#[verifier::external_body]
fn char_uppercase(c: char) -> (r: String)
    ensures
        r@ == uppercase_of(c),
        is_ascii_lower(c) ==> r@ == seq![((c as u32) - 32) as char],
        is_ascii_char(c) && !is_ascii_lower(c) ==> r@ == seq![c],
{
    c.to_uppercase().collect()
}

/// Calls `str::to_lowercase`. Claims: the result is the named lowercase
/// mapping; on an ASCII string it lowers each capital and keeps the rest.
#[verifier::external_body]
fn str_lowercase(s: &str) -> (r: String)
    ensures
        r@ == lowercase_of(s@),
        (forall|i: int| 0 <= i < s@.len() ==> is_ascii_char(#[trigger] s@[i])) ==> r@ == s@.map_values(
            |c: char| ascii_lower(c),
        ),
{
    s.to_lowercase()
}

/// Whether `pat` occurs in `s` starting at character `i`.
fn matches_at(s: &str, pat: &str, i: usize) -> (r: bool)
    requires
        i + pat@.len() <= s@.len(),
    ensures
        r == (s@.subrange(i as int, i + pat@.len()) == pat@),
{
    let n = s.unicode_len();
    let m = pat.unicode_len();
    let mut j: usize = 0;
    while j < m
        invariant
            n == s@.len(),
            m == pat@.len(),
            i + m <= n,
            j <= m,
            forall|t: int| 0 <= t < j ==> s@[i + t] == pat@[t],
        decreases m - j,
    {
        if s.get_char(i + j) != pat.get_char(j) {
            proof {
                assert(s@.subrange(i as int, i + m)[j as int] != pat@[j as int]);
            }
            return false;
        }
        j = j + 1;
    }
    proof {
        assert(s@.subrange(i as int, i + m) =~= pat@);
    }
    true
}

/// Whether `pat` occurs in `s`, searched one starting character at a time.
pub(crate) fn str_contains(s: &str, pat: &str) -> (r: bool)
    ensures
        r == occurs_in(s@, pat@),
{
    let n = s.unicode_len();
    let m = pat.unicode_len();
    if m > n {
        return false;
    }
    if m == 0 {
        proof {
            assert(s@.subrange(0, 0 + pat@.len() as int) =~= pat@);
        }
        return true;
    }
    let mut i: usize = 0;
    while i <= n - m
        invariant
            n == s@.len(),
            m == pat@.len(),
            0 < m <= n,
            i <= n - m + 1,
            forall|k: int| 0 <= k < i ==> #[trigger] s@.subrange(k, k + m) != pat@,
        decreases n - m + 1 - i,
    {
        if matches_at(s, pat, i) {
            return true;
        }
        i = i + 1;
    }
    false
}

/// Whether two strings hold the same characters.
pub fn str_equal(a: &str, b: &str) -> (r: bool)
    ensures
        r == (a@ == b@),
{
    let n = a.unicode_len();
    if n != b.unicode_len() {
        return false;
    }
    let mut i: usize = 0;
    while i < n
        invariant
            n == a@.len(),
            n == b@.len(),
            i <= n,
            forall|k: int| 0 <= k < i ==> a@[k] == b@[k],
        decreases n - i,
    {
        if a.get_char(i) != b.get_char(i) {
            return false;
        }
        i = i + 1;
    }
    proof {
        assert(a@ =~= b@);
    }
    true
}

/// `s` with its first character upper-cased (as `char::to_uppercase` does,
/// which may give several characters); the empty string stays empty.
pub fn capitalize_first(s: &str) -> (r: String)
    ensures
        s@.len() == 0 ==> r@.len() == 0,
        s@.len() > 0 ==> r@ == uppercase_of(s@[0]) + s@.subrange(1, s@.len() as int),
{
    let n = s.unicode_len();
    if n == 0 {
        String::new()
    } else {
        let first = s.get_char(0);
        let rest = s.substring_char(1, n);
        let mut r = char_uppercase(first);
        r.append(rest);
        r
    }
}

/// `s` cut to its first `max` bytes followed by "...", or `s` itself when it
/// is no longer than `max` bytes. The cut must fall on a character boundary.
pub fn truncate(s: &str, max: usize) -> (r: String)
    requires
        s.len() > max ==> is_char_boundary(s.spec_bytes(), max as int),
    ensures
        s.len() <= max ==> r@ == s@,
        s.len() > max ==> {
            &&& r@.len() >= 3
            &&& r@.subrange(r@.len() - 3, r@.len() as int) == "..."@
            &&& encode_utf8(r@.subrange(0, r@.len() - 3)) == s.spec_bytes().subrange(0, max as int)
        },
{
    if s.len() <= max {
        s.to_owned()
    } else {
        let (head, _) = s.split_at(max);
        let mut r = head.to_owned();
        let ghost head_chars = r@;
        r.append("...");
        proof {
            reveal_strlit("...");
            assert(head_chars == head@);
            assert(head.spec_bytes() == encode_utf8(head@));
            assert(head.spec_bytes() == s.spec_bytes().subrange(0, max as int));
            assert(r@.subrange(0, r@.len() - 3) == head_chars);
            assert(r@.subrange(r@.len() - 3, r@.len() as int) == "..."@);
            assert(r@.len() >= 3);
            assert(encode_utf8(r@.subrange(0, r@.len() - 3)) == s.spec_bytes().subrange(0, max as int));
        }
        r
    }
}

/// Which side a signal asks for.
#[derive(Clone, Copy, Debug, PartialEq, Eq, Structural)]
pub enum SignalAction {
    Buy,
    Sell,
    Other,
}

/// Reads a signal type ("buy", "StrongBuy", "Sell", ...): a buy when its
/// lowercase form contains "buy", else a sell when it contains "sell".
pub fn signal_action(signal_type: &str) -> (r: SignalAction)
    ensures
        r == (if occurs_in(lowercase_of(signal_type@), "buy"@) {
            SignalAction::Buy
        } else if occurs_in(lowercase_of(signal_type@), "sell"@) {
            SignalAction::Sell
        } else {
            SignalAction::Other
        }),
{
    let action = str_lowercase(signal_type);
    if str_contains(action.as_str(), "buy") {
        SignalAction::Buy
    } else if str_contains(action.as_str(), "sell") {
        SignalAction::Sell
    } else {
        SignalAction::Other
    }
}

} // verus!
