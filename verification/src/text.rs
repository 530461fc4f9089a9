//! Verified helpers over strings, viewed as sequences of characters.
//!
//! Identifiers and entry paths are plain strings throughout the library, so
//! prefix/suffix tests, single-character search, splitting and concatenation
//! are gathered here, each with an exact contract over `Seq<char>`.

use vstd::prelude::*;
use vstd::string::StrSliceExecFns;
use vstd::string::StringExecFns;

verus! {

/// `p` occurs in `s` at position `i`.
pub open spec fn matches_at(s: Seq<char>, i: int, p: Seq<char>) -> bool {
    0 <= i && i + p.len() <= s.len() && s.subrange(i, i + p.len()) == p
}

/// `p` is a prefix of `s`.
pub open spec fn starts_with(s: Seq<char>, p: Seq<char>) -> bool {
    matches_at(s, 0, p)
}

/// `p` is a suffix of `s`.
pub open spec fn ends_with(s: Seq<char>, p: Seq<char>) -> bool {
    p.len() <= s.len() && matches_at(s, s.len() - p.len(), p)
}

/// Whether `p` occurs in `s` at position `i`, checked character by character.
pub fn str_matches_at(s: &str, i: usize, p: &str) -> (r: bool)
    ensures
        r == matches_at(s@, i as int, p@),
{
    let sn: usize = s.unicode_len();
    let pn: usize = p.unicode_len();
    if pn > sn || i > sn - pn {
        return false;
    }
    let mut j: usize = 0;
    while j < pn
        invariant
            j <= pn,
            i + pn <= sn,
            sn == s@.len(),
            pn == p@.len(),
            forall|k: int| 0 <= k < j ==> s@[i + k] == p@[k],
        decreases pn - j,
    {
        if s.get_char(i + j) != p.get_char(j) {
            assert(s@.subrange(i as int, i + pn) != p@) by {
                assert(s@.subrange(i as int, i + pn)[j as int] == s@[i + j]);
            }
            return false;
        }
        j += 1;
    }
    assert(s@.subrange(i as int, i + pn) =~= p@);
    true
}

/// Whether `p` is a prefix of `s`.
pub fn str_starts_with(s: &str, p: &str) -> (r: bool)
    ensures
        r == starts_with(s@, p@),
{
    str_matches_at(s, 0, p)
}

/// Whether `p` is a suffix of `s`.
pub fn str_ends_with(s: &str, p: &str) -> (r: bool)
    ensures
        r == ends_with(s@, p@),
{
    let sn: usize = s.unicode_len();
    let pn: usize = p.unicode_len();
    if pn > sn {
        return false;
    }
    str_matches_at(s, sn - pn, p)
}

/// Whether the character sequences of `a` and `b` are equal.
pub fn str_eq(a: &str, b: &str) -> (r: bool)
    ensures
        r == (a@ == b@),
{
    let an: usize = a.unicode_len();
    let bn: usize = b.unicode_len();
    if an != bn {
        return false;
    }
    let r = str_matches_at(a, 0, b);
    proof {
        assert(a@.subrange(0, a@.len() as int) =~= a@);
    }
    r
}

/// Whether `p` occurs anywhere in `s`.
pub open spec fn contains_seq(s: Seq<char>, p: Seq<char>) -> bool {
    exists|i: int| matches_at(s, i, p)
}

/// Index of the first occurrence of `c` in `s`, as an `Option<int>`.
pub open spec fn opt_index(r: Option<usize>) -> Option<int> {
    match r {
        Some(i) => Some(i as int),
        None => None,
    }
}

/// Index of the first occurrence of `c` in `s` at or after position `from`.
pub fn find_char_from(s: &str, c: char, from: usize) -> (r: Option<usize>)
    requires
        from <= s@.len(),
    ensures
        opt_index(r) == (match s@.skip(from as int).index_of_first(c) {
            Some(i) => Some(i + from),
            None => None::<int>,
        }),
{
    let sn: usize = s.unicode_len();
    let ghost suffix = s@.skip(from as int);
    proof {
        suffix.index_of_first_ensures(c);
    }
    let mut i: usize = from;
    while i < sn
        invariant
            from <= i <= sn,
            sn == s@.len(),
            suffix == s@.skip(from as int),
            forall|k: int| from <= k < i ==> s@[k] != c,
        decreases sn - i,
    {
        if s.get_char(i) == c {
            proof {
                suffix.index_of_first_ensures(c);
                assert(0 <= i - from < suffix.len());
                assert(suffix[i - from] == c);
                assert(suffix.contains(c));
                let fi = suffix.index_of_first(c)->Some_0;
                assert(s@[fi + from] == suffix[fi]);
                assert(fi == i - from);
            }
            return Some(i);
        }
        i += 1;
    }
    proof {
        if suffix.contains(c) {
            let w = choose|w: int| 0 <= w < suffix.len() && suffix[w] == c;
            assert(s@[w + from] == c);
        }
    }
    None
}

/// Index of the first occurrence of `c` in `s`.
pub fn find_char(s: &str, c: char) -> (r: Option<usize>)
    ensures
        opt_index(r) == s@.index_of_first(c),
{
    let r = find_char_from(s, c, 0);
    assert(s@.skip(0) =~= s@);
    r
}

/// Index of the last occurrence of `c` in `s`.
pub fn rfind_char(s: &str, c: char) -> (r: Option<usize>)
    ensures
        opt_index(r) == s@.index_of_last(c),
{
    proof {
        s@.index_of_last_ensures(c);
    }
    let sn: usize = s.unicode_len();
    let mut i: usize = sn;
    while i > 0
        invariant
            i <= sn,
            sn == s@.len(),
            forall|k: int| i <= k < sn ==> s@[k] != c,
        decreases i,
    {
        i -= 1;
        if s.get_char(i) == c {
            proof {
                s@.index_of_last_ensures(c);
                assert(s@.contains(c));
                let li = s@.index_of_last(c)->Some_0;
                assert(li == i);
            }
            return Some(i);
        }
    }
    proof {
        if s@.contains(c) {
            let w = choose|w: int| 0 <= w < s@.len() && s@[w] == c;
            assert(s@[w] == c);
        }
    }
    None
}

/// An owned copy of the characters of `s` from `from` (inclusive) to `to`
/// (exclusive).
pub fn substring(s: &str, from: usize, to: usize) -> (r: String)
    requires
        from <= to <= s@.len(),
    ensures
        r@ == s@.subrange(from as int, to as int),
{
    String::from_str(s.substring_char(from, to))
}

/// The concatenation of two strings.
pub fn concat2(a: &str, b: &str) -> (r: String)
    ensures
        r@ == a@ + b@,
{
    let mut out = String::from_str(a);
    out.append(b);
    out
}

/// The concatenation of three strings.
pub fn concat3(a: &str, b: &str, c: &str) -> (r: String)
    ensures
        r@ == a@ + b@ + c@,
{
    let mut out = String::from_str(a);
    out.append(b);
    out.append(c);
    out
}

/// The concatenation of five strings.
pub fn concat5(a: &str, b: &str, c: &str, d: &str, e: &str) -> (r: String)
    ensures
        r@ == a@ + b@ + c@ + d@ + e@,
{
    let mut out = String::from_str(a);
    out.append(b);
    out.append(c);
    out.append(d);
    out.append(e);
    out
}

/// Whether some string in `v` has the same characters as `s`.
pub fn vec_contains_str(v: &Vec<String>, s: &str) -> (r: bool)
    ensures
        r == v@.map_values(|x: String| x@).contains(s@),
{
    let ghost views = v@.map_values(|x: String| x@);
    let mut i: usize = 0;
    while i < v.len()
        invariant
            i <= v.len(),
            views == v@.map_values(|x: String| x@),
            forall|k: int| 0 <= k < i ==> views[k] != s@,
        decreases v.len() - i,
    {
        if str_eq(v[i].as_str(), s) {
            assert(views[i as int] == s@);
            return true;
        }
        i += 1;
    }
    assert forall|k: int| 0 <= k < views.len() implies views[k] != s@ by {
        assert(0 <= k < i);
    }
    false
}

} // verus!
