//! Verified text primitives: string equality, single-pass substring
//! replacement, and the search helpers the template parser builds on.

use vstd::prelude::*;
use vstd::string::*;

verus! {

/// The pattern `pat` occurs in `s` at character index `i`.
pub open spec fn match_at(s: Seq<char>, pat: Seq<char>, i: int) -> bool {
    &&& 0 <= i
    &&& i + pat.len() <= s.len()
    &&& s.subrange(i, i + pat.len() as int) == pat
}

/// `pat` occurs somewhere in `s`.
pub open spec fn spec_contains(s: Seq<char>, pat: Seq<char>) -> bool {
    exists|i: int| match_at(s, pat, i)
}

/// Single-pass, left-to-right replacement of every non-overlapping occurrence
/// of `pat` in `s` by `val`. Replaced text is never rescanned, so an
/// occurrence of `pat` inside `val` is not expanded again. An empty pattern
/// replaces nothing.
pub open spec fn spec_replace(s: Seq<char>, pat: Seq<char>, val: Seq<char>) -> Seq<char>
    decreases s.len(),
{
    if pat.len() == 0 || s.len() < pat.len() {
        s
    } else if s.subrange(0, pat.len() as int) == pat {
        val + spec_replace(s.skip(pat.len() as int), pat, val)
    } else {
        seq![s[0]] + spec_replace(s.skip(1), pat, val)
    }
}

/// Replacement of an absent pattern changes nothing.
pub proof fn lemma_replace_absent(s: Seq<char>, pat: Seq<char>, val: Seq<char>)
    requires
        !spec_contains(s, pat),
    ensures
        spec_replace(s, pat, val) == s,
    decreases s.len(),
{
    if pat.len() == 0 || s.len() < pat.len() {
    } else if s.subrange(0, pat.len() as int) == pat {
        assert(match_at(s, pat, 0));
    } else {
        assert forall|i: int| !match_at(s.skip(1), pat, i) by {
            if match_at(s.skip(1), pat, i) {
                assert(s.subrange(i + 1, i + 1 + pat.len() as int) =~= s.skip(1).subrange(
                    i,
                    i + pat.len() as int,
                ));
                assert(match_at(s, pat, i + 1));
            }
        }
        lemma_replace_absent(s.skip(1), pat, val);
        assert(spec_replace(s, pat, val) =~= s);
    }
}

/// Character-wise string equality, decided without trusting any outside code.
pub fn str_eq(a: &str, b: &str) -> (r: bool)
    ensures
        r == (a@ == b@),
{
    let na = a.unicode_len();
    let nb = b.unicode_len();
    if na != nb {
        return false;
    }
    let mut i: usize = 0;
    while i < na
        invariant
            na == a@.len(),
            na == b@.len(),
            0 <= i <= na,
            forall|j: int| 0 <= j < i ==> a@[j] == b@[j],
        decreases na - i,
    {
        if a.get_char(i) != b.get_char(i) {
            return false;
        }
        i = i + 1;
    }
    proof {
        assert(a@ =~= b@);
    }
    true
}

/// Whether `pat` matches `s` at character index `i`.
fn matches_at(s: &str, pat: &str, i: usize) -> (r: bool)
    requires
        i <= s@.len(),
    ensures
        r == match_at(s@, pat@, i as int),
{
    let n = s.unicode_len();
    let m = pat.unicode_len();
    if m > n - i {
        return false;
    }
    let mut j: usize = 0;
    while j < m
        invariant
            n == s@.len(),
            m == pat@.len(),
            i + m <= n,
            0 <= j <= m,
            forall|k: int| 0 <= k < j ==> s@[i + k] == pat@[k],
        decreases m - j,
    {
        if s.get_char(i + j) != pat.get_char(j) {
            proof {
                assert(s@.subrange(i as int, i + m as int)[j as int] == s@[i + j]);
            }
            return false;
        }
        j = j + 1;
    }
    proof {
        assert(s@.subrange(i as int, i + m as int) =~= pat@);
    }
    true
}

/// Replaces every non-overlapping occurrence of `pat` in `s` by `val`,
/// scanning once from the left; text already substituted in is not rescanned.
pub fn replace_all(s: &str, pat: &str, val: &str) -> (r: String)
    ensures
        r@ == spec_replace(s@, pat@, val@),
{
    let n = s.unicode_len();
    let m = pat.unicode_len();
    if m == 0 {
        return String::from_str(s);
    }
    let mut out = String::new();
    let mut i: usize = 0;
    proof {
        assert(s@.skip(0) =~= s@);
        assert(out@ + spec_replace(s@, pat@, val@) =~= spec_replace(s@, pat@, val@));
    }
    while i < n
        invariant
            n == s@.len(),
            m == pat@.len(),
            m >= 1,
            0 <= i <= n,
            spec_replace(s@, pat@, val@) == out@ + spec_replace(s@.skip(i as int), pat@, val@),
        decreases n - i,
    {
        let ghost rest = s@.skip(i as int);
        if matches_at(s, pat, i) {
            proof {
                assert(rest.subrange(0, m as int) =~= s@.subrange(i as int, i + m as int));
                assert(rest.skip(m as int) =~= s@.skip(i + m as int));
                assert(out@ + (val@ + spec_replace(rest.skip(m as int), pat@, val@)) =~= (out@
                    + val@) + spec_replace(s@.skip(i + m as int), pat@, val@));
            }
            out.append(val);
            i = i + m;
        } else {
            proof {
                assert(rest.skip(1) =~= s@.skip(i + 1));
                if i + m <= n {
                    assert(rest.subrange(0, m as int) =~= s@.subrange(i as int, i + m as int));
                    assert(rest.subrange(0, m as int) != pat@);
                    assert(seq![rest[0]] =~= s@.subrange(i as int, i + 1));
                    assert(out@ + (seq![rest[0]] + spec_replace(rest.skip(1), pat@, val@)) =~= (
                    out@ + s@.subrange(i as int, i + 1)) + spec_replace(
                        s@.skip(i + 1),
                        pat@,
                        val@,
                    ));
                } else {
                    // the tail is shorter than the pattern: both sides are the tail itself
                    assert(spec_replace(rest, pat@, val@) == rest);
                    assert(spec_replace(s@.skip(i + 1), pat@, val@) == s@.skip(i + 1));
                    assert(out@ + rest =~= (out@ + s@.subrange(i as int, i + 1)) + s@.skip(i + 1));
                }
            }
            let piece = s.substring_char(i, i + 1);
            out.append(piece);
            i = i + 1;
        }
    }
    proof {
        assert(s@.skip(n as int) =~= Seq::<char>::empty());
        assert(out@ + spec_replace(s@.skip(n as int), pat@, val@) =~= out@);
    }
    out
}

/// The first index `>= from` at which the character `c` stands in `s`;
/// `s.len()` when there is none.
pub open spec fn spec_find_char_from(s: Seq<char>, from: int, c: char) -> int
    decreases s.len() - from,
{
    if from < 0 || from >= s.len() {
        s.len() as int
    } else if s[from] == c {
        from
    } else {
        spec_find_char_from(s, from + 1, c)
    }
}

pub proof fn lemma_find_char_from_bounds(s: Seq<char>, from: int, c: char)
    requires
        0 <= from <= s.len(),
    ensures
        from <= spec_find_char_from(s, from, c) <= s.len(),
        spec_find_char_from(s, from, c) < s.len() ==> s[spec_find_char_from(s, from, c)] == c,
    decreases s.len() - from,
{
    if from < s.len() && s[from] != c {
        lemma_find_char_from_bounds(s, from + 1, c);
    }
}

/// The first index `>= from` holding `c`, or the length of `s`.
pub fn find_char_from(s: &str, from: usize, c: char) -> (r: usize)
    requires
        from <= s@.len(),
    ensures
        r == spec_find_char_from(s@, from as int, c),
        from <= r <= s@.len(),
        r < s@.len() ==> s@[r as int] == c,
{
    let n = s.unicode_len();
    let mut i: usize = from;
    while i < n
        invariant
            n == s@.len(),
            from <= i <= n,
            spec_find_char_from(s@, from as int, c) == spec_find_char_from(s@, i as int, c),
        decreases n - i,
    {
        if s.get_char(i) == c {
            return i;
        }
        i = i + 1;
    }
    i
}

} // verus!
