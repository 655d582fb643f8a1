//! Substring search on character sequences.

use vstd::prelude::*;
use vstd::string::StrSliceExecFns;

verus! {

/// `pat` occurs in `s` starting at position `i`.
pub open spec fn occurs_at(s: Seq<char>, pat: Seq<char>, i: int) -> bool {
    0 <= i && i + pat.len() <= s.len() && s.subrange(i, i + pat.len()) == pat
}

/// The first position at or after `i` where `pat` occurs in `s`, or -1.
pub open spec fn first_match_from(s: Seq<char>, pat: Seq<char>, i: int) -> int
    decreases s.len() + 1 - i,
{
    if i < 0 || i + pat.len() > s.len() {
        -1
    } else if occurs_at(s, pat, i) {
        i
    } else {
        first_match_from(s, pat, i + 1)
    }
}

/// The first position where `pat` occurs in `s`, or -1.
pub open spec fn first_match(s: Seq<char>, pat: Seq<char>) -> int {
    first_match_from(s, pat, 0)
}

/// `pat` occurs somewhere in `s`.
pub open spec fn has_substring(s: Seq<char>, pat: Seq<char>) -> bool {
    first_match(s, pat) >= 0
}

/// What follows the first occurrence of `pat`, or nothing where it does not occur.
pub open spec fn after_first(s: Seq<char>, pat: Seq<char>) -> Seq<char> {
    let i = first_match(s, pat);
    if i >= 0 {
        s.subrange(i + pat.len(), s.len() as int)
    } else {
        Seq::empty()
    }
}

/// What precedes the first occurrence of `pat`, or all of `s` where it does not occur.
pub open spec fn before_first(s: Seq<char>, pat: Seq<char>) -> Seq<char> {
    let i = first_match(s, pat);
    if i >= 0 {
        s.subrange(0, i)
    } else {
        s
    }
}

proof fn lemma_first_match_from_bounds(s: Seq<char>, pat: Seq<char>, i: int)
    ensures
        first_match_from(s, pat, i) == -1 || (i <= first_match_from(s, pat, i)
            && occurs_at(s, pat, first_match_from(s, pat, i))),
    decreases s.len() + 1 - i,
{
    if !(i < 0 || i + pat.len() > s.len()) && !occurs_at(s, pat, i) {
        lemma_first_match_from_bounds(s, pat, i + 1);
    }
}

/// The characters of `s`, in order.
pub fn chars_of(s: &str) -> (r: Vec<char>)
    ensures
        r@ == s@,
{
    let n = s.unicode_len();
    let mut out: Vec<char> = Vec::new();
    let mut i: usize = 0;
    while i < n
        invariant
            n == s@.len(),
            i <= n,
            out@ == s@.take(i as int),
        decreases n - i,
    {
        out.push(s.get_char(i));
        i = i + 1;
        assert(out@ =~= s@.take(i as int));
    }
    assert(s@.take(n as int) =~= s@);
    out
}

fn occurs_here(s: &Vec<char>, pat: &Vec<char>, i: usize) -> (r: bool)
    requires
        i + pat@.len() <= s@.len(),
    ensures
        r == occurs_at(s@, pat@, i as int),
{
    let n = s.len();
    let mut k: usize = 0;
    while k < pat.len()
        invariant
            n == s@.len(),
            i + pat@.len() <= s@.len(),
            k <= pat@.len(),
            forall|q: int| 0 <= q < k ==> s@[i + q] == pat@[q],
        decreases pat@.len() - k,
    {
        if s[i + k] != pat[k] {
            assert(s@.subrange(i as int, i + pat@.len())[k as int] != pat@[k as int]);
            return false;
        }
        k = k + 1;
    }
    assert(s@.subrange(i as int, i + pat@.len()) =~= pat@);
    true
}

/// The first position where `pat` occurs in `s`.
pub fn find(s: &Vec<char>, pat: &Vec<char>) -> (r: Option<usize>)
    ensures
        match r {
            Some(i) => i as int == first_match(s@, pat@),
            None => first_match(s@, pat@) == -1,
        },
{
    if pat.len() > s.len() {
        return None;
    }
    let last = s.len() - pat.len();
    let mut i: usize = 0;
    while i <= last
        invariant
            last + pat@.len() == s@.len(),
            i <= last + 1,
            first_match(s@, pat@) == first_match_from(s@, pat@, i as int),
        decreases last + 1 - i,
    {
        if occurs_here(s, pat, i) {
            return Some(i);
        }
        if i == last {
            assert(first_match_from(s@, pat@, i + 1) == -1);
            return None;
        }
        i = i + 1;
    }
    None
}

/// `pat` occurs in `s`.
pub fn contains(s: &str, pat: &str) -> (r: bool)
    ensures
        r == has_substring(s@, pat@),
{
    let sc = chars_of(s);
    let pc = chars_of(pat);
    find(&sc, &pc).is_some()
}

/// The part of `s` after the first occurrence of `pat` (empty where it does
/// not occur).
pub fn text_after(s: &str, pat: &str) -> (r: String)
    ensures
        r@ == after_first(s@, pat@),
{
    let sc = chars_of(s);
    let pc = chars_of(pat);
    let n = sc.len();
    match find(&sc, &pc) {
        Some(i) => {
            proof {
                lemma_first_match_from_bounds(s@, pat@, 0);
                assert(i + pc@.len() <= n);
            }
            s.substring_char(i + pc.len(), n).to_owned()
        },
        None => String::new(),
    }
}

/// The part of `s` before the first occurrence of `pat` (all of `s` where it
/// does not occur).
pub fn text_before(s: &str, pat: &str) -> (r: String)
    ensures
        r@ == before_first(s@, pat@),
{
    let sc = chars_of(s);
    let pc = chars_of(pat);
    match find(&sc, &pc) {
        Some(i) => {
            proof {
                lemma_first_match_from_bounds(s@, pat@, 0);
            }
            s.substring_char(0, i).to_owned()
        },
        None => s.to_owned(),
    }
}

} // verus!
