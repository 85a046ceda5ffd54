//! Character-sequence utilities: substring search, slicing, and sequential
//! replacement, with exact specifications over `Seq<char>`.
//!
//! The page-scanning logic works on `Vec<char>` so that indexing is O(1) and
//! every position is a character boundary; `to_chars` / `to_string` convert at
//! the library boundary.

use vstd::prelude::*;

verus! {

/// `needle` occurs in `hay` starting at position `i`.
pub open spec fn matches_at(hay: Seq<char>, needle: Seq<char>, i: int) -> bool {
    0 <= i && i + needle.len() <= hay.len() && hay.subrange(i, i + needle.len()) == needle
}

/// Index of the first occurrence of `needle` in `hay` at or after `from`.
pub open spec fn find_from_spec(hay: Seq<char>, needle: Seq<char>, from: int) -> Option<int>
    decreases hay.len() - from + 1,
{
    if from < 0 || from + needle.len() > hay.len() {
        None
    } else if hay.subrange(from, from + needle.len()) == needle {
        Some(from)
    } else {
        find_from_spec(hay, needle, from + 1)
    }
}

pub open spec fn find_spec(hay: Seq<char>, needle: Seq<char>) -> Option<int> {
    find_from_spec(hay, needle, 0)
}

pub open spec fn contains_spec(hay: Seq<char>, needle: Seq<char>) -> bool {
    find_spec(hay, needle) is Some
}

proof fn lemma_find_from_step(hay: Seq<char>, needle: Seq<char>, from: int)
    requires
        0 <= from,
        !matches_at(hay, needle, from),
    ensures
        find_from_spec(hay, needle, from) == find_from_spec(hay, needle, from + 1),
{
}

/// The result of `find_from_spec` is a genuine occurrence, and the first one.
pub proof fn lemma_find_from_found(hay: Seq<char>, needle: Seq<char>, from: int)
    requires
        0 <= from,
    ensures
        match find_from_spec(hay, needle, from) {
            Some(i) => from <= i && matches_at(hay, needle, i) && forall|j: int|
                from <= j < i ==> !matches_at(hay, needle, j),
            None => forall|j: int| from <= j ==> !matches_at(hay, needle, j),
        },
    decreases hay.len() - from + 1,
{
    if from + needle.len() > hay.len() {
        assert forall|j: int| from <= j implies !matches_at(hay, needle, j) by {}
    } else if hay.subrange(from, from + needle.len()) == needle {
    } else {
        lemma_find_from_found(hay, needle, from + 1);
    }
}

fn eq_range(hay: &Vec<char>, needle: &Vec<char>, at: usize) -> (r: bool)
    requires
        at + needle@.len() <= hay@.len(),
    ensures
        r == matches_at(hay@, needle@, at as int),
{
    let n = needle.len();
    let hlen = hay.len();
    let mut k: usize = 0;
    while k < n
        invariant
            k <= n,
            n == needle@.len(),
            hlen == hay@.len(),
            at + n <= hay@.len(),
            forall|j: int| 0 <= j < k ==> hay@[at + j] == needle@[j],
        decreases n - k,
    {
        if hay[at + k] != needle[k] {
            assert(hay@.subrange(at as int, at + n) != needle@) by {
                assert(hay@.subrange(at as int, at + n)[k as int] != needle@[k as int]);
            }
            return false;
        }
        k += 1;
    }
    assert(hay@.subrange(at as int, at + n) =~= needle@);
    true
}

/// First occurrence of `needle` at or after `from`, as `find_from_spec` gives it.
pub fn find_from(hay: &Vec<char>, needle: &Vec<char>, from: usize) -> (r: Option<usize>)
    ensures
        hay@.len() <= usize::MAX,
        match r {
            Some(i) => from <= i && matches_at(hay@, needle@, i as int) && find_from_spec(
                hay@,
                needle@,
                from as int,
            ) == Some(i as int),
            None => find_from_spec(hay@, needle@, from as int) is None,
        },
{
    let mut i: usize = from;
    if needle.len() > hay.len() {
        proof {
            lemma_find_from_found(hay@, needle@, from as int);
        }
        return None;
    }
    if needle.len() == 0 {
        if from <= hay.len() {
            assert(hay@.subrange(from as int, from as int) =~= needle@);
            return Some(from);
        } else {
            return None;
        }
    }
    let last = hay.len() - needle.len();
    if from > last {
        return None;
    }
    while i <= last
        invariant
            from <= i,
            i <= last + 1,
            1 <= needle@.len() <= hay@.len(),
            hay@.len() <= usize::MAX,
            last == hay@.len() - needle@.len(),
            find_from_spec(hay@, needle@, from as int) == find_from_spec(hay@, needle@, i as int),
        decreases last + 1 - i,
    {
        if eq_range(hay, needle, i) {
            return Some(i);
        }
        proof {
            lemma_find_from_step(hay@, needle@, i as int);
        }
        i += 1;
    }
    None
}

pub fn find(hay: &Vec<char>, needle: &Vec<char>) -> (r: Option<usize>)
    ensures
        hay@.len() <= usize::MAX,
        match r {
            Some(i) => matches_at(hay@, needle@, i as int) && find_spec(hay@, needle@) == Some(
                i as int,
            ),
            None => find_spec(hay@, needle@) is None,
        },
{
    find_from(hay, needle, 0)
}

pub fn contains(hay: &Vec<char>, needle: &Vec<char>) -> (r: bool)
    ensures
        r == contains_spec(hay@, needle@),
{
    find(hay, needle).is_some()
}

/// Copy of `v[lo..hi]`.
pub fn subvec(v: &Vec<char>, lo: usize, hi: usize) -> (r: Vec<char>)
    requires
        lo <= hi <= v@.len(),
    ensures
        r@ == v@.subrange(lo as int, hi as int),
{
    let mut out: Vec<char> = Vec::new();
    let mut k: usize = lo;
    while k < hi
        invariant
            lo <= k <= hi <= v@.len(),
            out@ == v@.subrange(lo as int, k as int),
        decreases hi - k,
    {
        out.push(v[k]);
        assert(out@ =~= v@.subrange(lo as int, k + 1));
        k += 1;
    }
    out
}

/// Append all of `src` to `dst`.
pub fn append_all(dst: &mut Vec<char>, src: &Vec<char>)
    ensures
        final(dst)@ == old(dst)@ + src@,
{
    let mut k: usize = 0;
    while k < src.len()
        invariant
            k <= src@.len(),
            dst@ == old(dst)@ + src@.subrange(0, k as int),
        decreases src@.len() - k,
    {
        dst.push(src[k]);
        assert(dst@ =~= old(dst)@ + src@.subrange(0, k + 1));
        k += 1;
    }
    assert(dst@ =~= old(dst)@ + src@);
}

/// `s` with every non-overlapping occurrence of `pat` replaced by `rep`,
/// scanning left to right.
pub open spec fn replace_all_spec(s: Seq<char>, pat: Seq<char>, rep: Seq<char>) -> Seq<char>
    decreases s.len(),
    when pat.len() >= 1
{
    if s.len() == 0 {
        s
    } else if s.len() >= pat.len() && s.subrange(0, pat.len() as int) == pat {
        rep + replace_all_spec(s.skip(pat.len() as int), pat, rep)
    } else {
        seq![s[0]] + replace_all_spec(s.skip(1), pat, rep)
    }
}

proof fn lemma_replace_all_match(s: Seq<char>, pat: Seq<char>, rep: Seq<char>, i: int)
    requires
        pat.len() >= 1,
        0 <= i,
        matches_at(s, pat, i),
    ensures
        replace_all_spec(s.skip(i), pat, rep) == rep + replace_all_spec(
            s.skip(i + pat.len()),
            pat,
            rep,
        ),
{
    let t = s.skip(i);
    assert(t.len() >= pat.len());
    assert(t.subrange(0, pat.len() as int) =~= s.subrange(i, i + pat.len()));
    assert(t.skip(pat.len() as int) =~= s.skip(i + pat.len()));
}

proof fn lemma_replace_all_no_match(s: Seq<char>, pat: Seq<char>, rep: Seq<char>, i: int)
    requires
        pat.len() >= 1,
        0 <= i < s.len(),
        !matches_at(s, pat, i),
    ensures
        replace_all_spec(s.skip(i), pat, rep) == seq![s[i]] + replace_all_spec(
            s.skip(i + 1),
            pat,
            rep,
        ),
{
    let t = s.skip(i);
    assert(t.len() >= 1);
    if t.len() >= pat.len() {
        assert(t.subrange(0, pat.len() as int) =~= s.subrange(i, i + pat.len()));
        assert(t.subrange(0, pat.len() as int) != pat);
    }
    assert(t[0] == s[i]);
    assert(t.skip(1) =~= s.skip(i + 1));
}

/// Sequential left-to-right replacement, as `str::replace` does it.
pub fn replace_all(s: &Vec<char>, pat: &Vec<char>, rep: &Vec<char>) -> (r: Vec<char>)
    requires
        pat@.len() >= 1,
    ensures
        r@ == replace_all_spec(s@, pat@, rep@),
{
    let mut out: Vec<char> = Vec::new();
    let mut i: usize = 0;
    proof {
        assert(s@.skip(0) =~= s@);
    }
    while i < s.len()
        invariant
            i <= s@.len(),
            pat@.len() >= 1,
            replace_all_spec(s@, pat@, rep@) == out@ + replace_all_spec(
                s@.skip(i as int),
                pat@,
                rep@,
            ),
        decreases s@.len() - i,
    {
        if pat.len() <= s.len() - i && eq_range(s, pat, i) {
            proof {
                lemma_replace_all_match(s@, pat@, rep@, i as int);
            }
            append_all(&mut out, rep);
            i += pat.len();
        } else {
            proof {
                lemma_replace_all_no_match(s@, pat@, rep@, i as int);
            }
            out.push(s[i]);
            i += 1;
        }
    }
    proof {
        assert(s@.skip(i as int) =~= Seq::<char>::empty());
        assert(out@ + Seq::<char>::empty() =~= out@);
    }
    out
}

/// The sequence ends with the suffix.
pub open spec fn ends_with_spec(v: Seq<char>, suffix: Seq<char>) -> bool {
    v.len() >= suffix.len() && v.subrange(v.len() - suffix.len(), v.len() as int) == suffix
}

pub fn ends_with(v: &Vec<char>, suffix: &Vec<char>) -> (r: bool)
    ensures
        r == ends_with_spec(v@, suffix@),
{
    if suffix.len() > v.len() {
        return false;
    }
    eq_range(v, suffix, v.len() - suffix.len())
}

/// Conversion between `&str`/`String` and `Vec<char>`.
pub fn to_chars(s: &str) -> (r: Vec<char>)
    ensures
        r@ == s@,
{
    let n = s.unicode_len();
    let mut out: Vec<char> = Vec::new();
    let mut k: usize = 0;
    while k < n
        invariant
            k <= n,
            n == s@.len(),
            out@ == s@.subrange(0, k as int),
        decreases n - k,
    {
        out.push(s.get_char(k));
        assert(out@ =~= s@.subrange(0, k + 1));
        k += 1;
    }
    assert(out@ =~= s@);
    out
}

/// Relies on `String::push`: appends the given char to the end of the string.
#[verifier::external_body]
fn push_char(s: &mut String, c: char)
    ensures
        final(s)@ == old(s)@.push(c),
{
    s.push(c)
}

pub fn to_string(v: &Vec<char>) -> (r: String)
    ensures
        r@ == v@,
{
    let mut out = String::new();
    let mut k: usize = 0;
    while k < v.len()
        invariant
            k <= v@.len(),
            out@ == v@.subrange(0, k as int),
        decreases v@.len() - k,
    {
        push_char(&mut out, v[k]);
        assert(out@ =~= v@.subrange(0, k + 1));
        k += 1;
    }
    assert(out@ =~= v@);
    out
}

} // verus!
