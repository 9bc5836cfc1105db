//! Character-sequence primitives shared by the text modules.
//!
//! Every string of the library is modelled by the sequence of its Unicode
//! scalar values (`Seq<char>`, the view of `String` and `&str`).  The spec
//! functions here fix the meaning of the handful of `str` operations the
//! library relies on (`trim`, `split`, `replace`, `lines`, `contains`, ...);
//! the executable functions work on `Vec<char>` and are proved against them.
use vstd::prelude::*;

verus! {

// ---------------------------------------------------------------------------
// Conversions
// ---------------------------------------------------------------------------

/// Appends one character to a string (`String::push`).
#[verifier::external_body]
pub(crate) fn push_char(s: &mut String, c: char)
    ensures
        final(s)@ == old(s)@.push(c),
{
    s.push(c);
}

/// The characters of a string slice, in order.
pub fn to_chars(s: &str) -> (v: Vec<char>)
    ensures
        v@ == s@,
{
    let mut v: Vec<char> = Vec::new();
    for c in it: s.chars()
        invariant
            v@ == it.seq().take(it.index() as int),
            it.seq() == s@,
    {
        v.push(c);
    }
    v
}

/// Builds a string from a character sequence.
pub fn from_chars(v: &[char]) -> (s: String)
    ensures
        s@ == v@,
{
    let mut s = String::new();
    let mut i: usize = 0;
    while i < v.len()
        invariant
            i <= v.len(),
            s@ == v@.take(i as int),
        decreases v.len() - i,
    {
        push_char(&mut s, v[i]);
        assert(v@.take(i + 1) =~= v@.take(i as int).push(v@[i as int]));
        i = i + 1;
    }
    assert(v@.take(v.len() as int) =~= v@);
    s
}

/// Copies `v[start..end]` into a new vector.
pub fn sub_chars(v: &[char], start: usize, end: usize) -> (r: Vec<char>)
    requires
        start <= end <= v.len(),
    ensures
        r@ == v@.subrange(start as int, end as int),
{
    let mut r: Vec<char> = Vec::new();
    let mut i = start;
    while i < end
        invariant
            start <= i <= end <= v.len(),
            r@ == v@.subrange(start as int, i as int),
        decreases end - i,
    {
        r.push(v[i]);
        assert(v@.subrange(start as int, i + 1) =~= v@.subrange(start as int, i as int).push(
            v@[i as int],
        ));
        i = i + 1;
    }
    r
}

/// Appends all characters of `w` to `v`.
pub fn extend_chars(v: &mut Vec<char>, w: &[char])
    ensures
        final(v)@ == old(v)@ + w@,
{
    let mut i: usize = 0;
    while i < w.len()
        invariant
            i <= w.len(),
            v@ == old(v)@ + w@.take(i as int),
        decreases w.len() - i,
    {
        v.push(w[i]);
        assert(w@.take(i + 1) =~= w@.take(i as int).push(w@[i as int]));
        i = i + 1;
    }
    assert(w@.take(w.len() as int) =~= w@);
}

/// Character-sequence equality.
pub fn chars_eq(a: &[char], b: &[char]) -> (r: bool)
    ensures
        r == (a@ == b@),
{
    if a.len() != b.len() {
        return false;
    }
    let mut i: usize = 0;
    while i < a.len()
        invariant
            i <= a.len() == b.len(),
            a@.take(i as int) == b@.take(i as int),
        decreases a.len() - i,
    {
        if a[i] != b[i] {
            assert(a@[i as int] != b@[i as int]);
            return false;
        }
        assert(a@.take(i + 1) =~= a@.take(i as int).push(a@[i as int]));
        assert(b@.take(i + 1) =~= b@.take(i as int).push(b@[i as int]));
        i = i + 1;
    }
    assert(a@.take(a.len() as int) =~= a@);
    assert(b@.take(b.len() as int) =~= b@);
    true
}

// ---------------------------------------------------------------------------
// Whitespace and trimming
// ---------------------------------------------------------------------------

/// Unicode `White_Space` property, as used by `char::is_whitespace`.
pub open spec fn is_white_space(c: char) -> bool {
    let u = c as u32;
    (0x9 <= u <= 0xd) || u == 0x20 || u == 0x85 || u == 0xa0 || u == 0x1680 || (0x2000 <= u
        <= 0x200a) || u == 0x2028 || u == 0x2029 || u == 0x202f || u == 0x205f || u == 0x3000
}

pub fn is_whitespace(c: char) -> (r: bool)
    ensures
        r == is_white_space(c),
{
    let u = c as u32;
    (0x9 <= u && u <= 0xd) || u == 0x20 || u == 0x85 || u == 0xa0 || u == 0x1680 || (0x2000 <= u
        && u <= 0x200a) || u == 0x2028 || u == 0x2029 || u == 0x202f || u == 0x205f || u == 0x3000
}

/// `s` without its leading whitespace.
pub open spec fn trim_start_seq(s: Seq<char>) -> Seq<char>
    decreases s.len(),
{
    if s.len() > 0 && is_white_space(s[0]) {
        trim_start_seq(s.drop_first())
    } else {
        s
    }
}

/// `s` without its trailing whitespace.
pub open spec fn trim_end_seq(s: Seq<char>) -> Seq<char>
    decreases s.len(),
{
    if s.len() > 0 && is_white_space(s.last()) {
        trim_end_seq(s.drop_last())
    } else {
        s
    }
}

/// `str::trim`: `s` without leading and trailing whitespace.
pub open spec fn trim_seq(s: Seq<char>) -> Seq<char> {
    trim_end_seq(trim_start_seq(s))
}

proof fn lemma_trim_start_skip(s: Seq<char>, i: int)
    requires
        0 <= i <= s.len(),
        forall|k: int| 0 <= k < i ==> is_white_space(#[trigger] s[k]),
    ensures
        trim_start_seq(s) == trim_start_seq(s.skip(i)),
    decreases i,
{
    if i > 0 {
        lemma_trim_start_skip(s, i - 1);
        assert(s.skip(i - 1).drop_first() =~= s.skip(i));
        assert(s.skip(i - 1)[0] == s[i - 1]);
    } else {
        assert(s.skip(0) =~= s);
    }
}

proof fn lemma_trim_end_take(s: Seq<char>, j: int)
    requires
        0 <= j <= s.len(),
        forall|k: int| j <= k < s.len() ==> is_white_space(#[trigger] s[k]),
    ensures
        trim_end_seq(s) == trim_end_seq(s.take(j)),
    decreases s.len() - j,
{
    if j < s.len() {
        lemma_trim_end_take(s, j + 1);
        assert(s.take(j + 1).drop_last() =~= s.take(j));
        assert(s.take(j + 1).last() == s[j]);
    } else {
        assert(s.take(j) =~= s);
    }
}

/// Index of the first non-whitespace character, and the end of the last one.
pub fn trim_bounds(v: &[char]) -> (r: (usize, usize))
    ensures
        r.0 <= r.1 <= v.len(),
        v@.subrange(r.0 as int, r.1 as int) == trim_seq(v@),
{
    let n = v.len();
    let mut i: usize = 0;
    while i < n && is_whitespace(v[i])
        invariant
            i <= n == v.len(),
            forall|k: int| 0 <= k < i ==> is_white_space(#[trigger] v@[k]),
        decreases n - i,
    {
        i = i + 1;
    }
    proof {
        lemma_trim_start_skip(v@, i as int);
        if i < n {
            assert(!is_white_space(v@.skip(i as int)[0]));
        }
        assert(trim_start_seq(v@.skip(i as int)) == v@.skip(i as int));
    }
    let mut j: usize = n;
    while j > i && is_whitespace(v[j - 1])
        invariant
            i <= j <= n == v.len(),
            forall|k: int| j <= k < n ==> is_white_space(#[trigger] v@[k]),
        decreases j,
    {
        j = j - 1;
    }
    proof {
        let t = v@.skip(i as int);
        assert forall|k: int| (j - i) <= k < t.len() implies is_white_space(#[trigger] t[k]) by {
            assert(t[k] == v@[k + i]);
        }
        lemma_trim_end_take(t, (j - i) as int);
        assert(t.take((j - i) as int) =~= v@.subrange(i as int, j as int));
        if j > i {
            assert(!is_white_space(t.take((j - i) as int).last()));
        }
    }
    (i, j)
}

/// `str::trim` on a character vector.
pub fn trim_chars(v: &[char]) -> (r: Vec<char>)
    ensures
        r@ == trim_seq(v@),
{
    let (i, j) = trim_bounds(v);
    sub_chars(v, i, j)
}

/// `str::trim` on a string slice.
pub fn trim_str(s: &str) -> (r: String)
    ensures
        r@ == trim_seq(s@),
{
    let v = to_chars(s);
    let t = trim_chars(&v);
    from_chars(&t)
}

// ---------------------------------------------------------------------------
// Pattern matching
// ---------------------------------------------------------------------------

/// `pat` occurs in `s` at position `i`.
pub open spec fn matches_at(s: Seq<char>, pat: Seq<char>, i: int) -> bool {
    0 <= i && i + pat.len() <= s.len() && s.subrange(i, i + pat.len()) == pat
}

/// `str::contains`.
pub open spec fn contains_seq(s: Seq<char>, pat: Seq<char>) -> bool {
    exists|i: int| matches_at(s, pat, i)
}

/// `str::starts_with`.
pub open spec fn starts_with_seq(s: Seq<char>, pat: Seq<char>) -> bool {
    matches_at(s, pat, 0)
}

/// `str::ends_with`.
pub open spec fn ends_with_seq(s: Seq<char>, pat: Seq<char>) -> bool {
    matches_at(s, pat, s.len() - pat.len())
}

pub fn matches_at_exec(v: &[char], pat: &[char], i: usize) -> (r: bool)
    ensures
        r == matches_at(v@, pat@, i as int),
{
    if i > v.len() || pat.len() > v.len() - i {
        return false;
    }
    let mut k: usize = 0;
    while k < pat.len()
        invariant
            i + pat.len() <= v.len(),
            k <= pat.len(),
            forall|m: int| 0 <= m < k ==> v@[i + m] == pat@[m],
        decreases pat.len() - k,
    {
        if v[i + k] != pat[k] {
            assert(v@.subrange(i as int, i + pat.len())[k as int] != pat@[k as int]);
            return false;
        }
        k = k + 1;
    }
    assert(v@.subrange(i as int, i + pat.len()) =~= pat@);
    true
}

pub fn contains_chars(v: &[char], pat: &[char]) -> (r: bool)
    ensures
        r == contains_seq(v@, pat@),
{
    if pat.len() > v.len() {
        proof {
            assert forall|i: int| !matches_at(v@, pat@, i) by {}
        }
        return false;
    }
    let last = v.len() - pat.len();
    let mut i: usize = 0;
    while i < last
        invariant
            last == v.len() - pat.len(),
            pat.len() <= v.len(),
            i <= last,
            forall|k: int| 0 <= k < i ==> !matches_at(v@, pat@, k),
        decreases last - i,
    {
        if matches_at_exec(v, pat, i) {
            return true;
        }
        i = i + 1;
    }
    if matches_at_exec(v, pat, last) {
        return true;
    }
    proof {
        assert forall|k: int| !matches_at(v@, pat@, k) by {
            if 0 <= k < i {
            }
        }
    }
    false
}

pub fn contains_str(s: &str, pat: &str) -> (r: bool)
    ensures
        r == contains_seq(s@, pat@),
{
    let v = to_chars(s);
    let p = to_chars(pat);
    contains_chars(&v, &p)
}

pub fn starts_with_chars(v: &[char], pat: &[char]) -> (r: bool)
    ensures
        r == starts_with_seq(v@, pat@),
{
    matches_at_exec(v, pat, 0)
}

pub fn ends_with_chars(v: &[char], pat: &[char]) -> (r: bool)
    ensures
        r == ends_with_seq(v@, pat@),
{
    if pat.len() > v.len() {
        return false;
    }
    matches_at_exec(v, pat, v.len() - pat.len())
}

// ---------------------------------------------------------------------------
// Replace
// ---------------------------------------------------------------------------

/// `str::replace(pat, rep)` for a non-empty pattern: every occurrence of
/// `pat`, taken left to right without overlap, is replaced by `rep`.
pub open spec fn replace_seq(s: Seq<char>, pat: Seq<char>, rep: Seq<char>) -> Seq<char>
    recommends
        pat.len() > 0,
    decreases s.len(),
{
    if pat.len() == 0 || s.len() < pat.len() {
        s
    } else if s.take(pat.len() as int) == pat {
        rep + replace_seq(s.skip(pat.len() as int), pat, rep)
    } else {
        seq![s[0]] + replace_seq(s.skip(1), pat, rep)
    }
}

/// Characters without the pattern's first character are kept by a replace.
pub proof fn lemma_replace_prefix(p: Seq<char>, rest: Seq<char>, pat: Seq<char>, rep: Seq<char>)
    requires
        pat.len() > 0,
        forall|i: int| 0 <= i < p.len() ==> #[trigger] p[i] != pat[0],
    ensures
        replace_seq(p + rest, pat, rep) == p + replace_seq(rest, pat, rep),
    decreases p.len(),
{
    if p.len() == 0 {
        assert(p + rest =~= rest);
        assert(p + replace_seq(rest, pat, rep) =~= replace_seq(rest, pat, rep));
    } else {
        let s = p + rest;
        if s.len() < pat.len() {
            assert(rest.len() < pat.len());
        } else {
            assert(s.take(pat.len() as int)[0] == p[0]);
            assert(s.take(pat.len() as int) != pat);
            assert(s.skip(1) =~= p.skip(1) + rest);
            assert forall|i: int| 0 <= i < p.skip(1).len() implies #[trigger] p.skip(1)[i] != pat[0] by {
                assert(p.skip(1)[i] == p[i + 1]);
            }
            lemma_replace_prefix(p.skip(1), rest, pat, rep);
            assert(seq![s[0]] + (p.skip(1) + replace_seq(rest, pat, rep)) =~= p + replace_seq(
                rest,
                pat,
                rep,
            ));
        }
    }
}

/// A text without the pattern's first character is left as it is.
pub proof fn lemma_replace_none(s: Seq<char>, pat: Seq<char>, rep: Seq<char>)
    requires
        pat.len() > 0,
        forall|i: int| 0 <= i < s.len() ==> #[trigger] s[i] != pat[0],
    ensures
        replace_seq(s, pat, rep) == s,
{
    lemma_replace_prefix(s, Seq::empty(), pat, rep);
    assert(s + Seq::<char>::empty() =~= s);
}

/// A text without an occurrence of the pattern is left as it is.
pub proof fn lemma_replace_absent(s: Seq<char>, pat: Seq<char>, rep: Seq<char>)
    requires
        pat.len() > 0,
        !contains_seq(s, pat),
    ensures
        replace_seq(s, pat, rep) == s,
    decreases s.len(),
{
    if s.len() >= pat.len() {
        if s.take(pat.len() as int) == pat {
            assert(s.subrange(0, pat.len() as int) =~= s.take(pat.len() as int));
            assert(matches_at(s, pat, 0));
        }
        let t = s.skip(1);
        if contains_seq(t, pat) {
            let i = choose|i: int| matches_at(t, pat, i);
            assert(s.subrange(i + 1, i + 1 + pat.len()) =~= t.subrange(i, i + pat.len()));
            assert(matches_at(s, pat, i + 1));
        }
        lemma_replace_absent(t, pat, rep);
        assert(seq![s[0]] + t =~= s);
    }
}

/// One occurrence of the pattern, between texts without its first
/// character, is replaced.
pub proof fn lemma_replace_one(a: Seq<char>, b: Seq<char>, pat: Seq<char>, rep: Seq<char>)
    requires
        pat.len() > 0,
        forall|i: int| 0 <= i < a.len() ==> #[trigger] a[i] != pat[0],
        forall|i: int| 0 <= i < b.len() ==> #[trigger] b[i] != pat[0],
    ensures
        replace_seq(a + pat + b, pat, rep) == a + rep + b,
{
    assert(a + pat + b =~= a + (pat + b));
    lemma_replace_prefix(a, pat + b, pat, rep);
    let s = pat + b;
    assert(s.take(pat.len() as int) =~= pat);
    assert(s.skip(pat.len() as int) =~= b);
    lemma_replace_none(b, pat, rep);
    assert(a + (rep + b) =~= a + rep + b);
}


pub fn replace_chars(v: &[char], pat: &[char], rep: &[char]) -> (r: Vec<char>)
    requires
        pat.len() > 0,
    ensures
        r@ == replace_seq(v@, pat@, rep@),
{
    let n = v.len();
    let m = pat.len();
    let mut out: Vec<char> = Vec::new();
    let mut i: usize = 0;
    assert(v@.skip(0) =~= v@);
    while i < n
        invariant
            n == v.len(),
            m == pat.len() > 0,
            i <= n,
            out@ + replace_seq(v@.skip(i as int), pat@, rep@) == replace_seq(v@, pat@, rep@),
        decreases n - i,
    {
        let ghost rest = v@.skip(i as int);
        if m <= n - i && matches_at_exec(v, pat, i) {
            proof {
                assert(rest.take(m as int) =~= v@.subrange(i as int, i + m));
                assert(rest.skip(m as int) =~= v@.skip(i + m));
                assert(replace_seq(rest, pat@, rep@) == rep@ + replace_seq(
                    v@.skip(i + m),
                    pat@,
                    rep@,
                ));
            }
            let ghost old_out = out@;
            extend_chars(&mut out, pat_rep(rep));
            assert(out@ + replace_seq(v@.skip(i + m), pat@, rep@) =~= old_out + (rep@
                + replace_seq(v@.skip(i + m), pat@, rep@)));
            i = i + m;
        } else {
            proof {
                assert(rest[0] == v@[i as int]);
                assert(rest.skip(1) =~= v@.skip(i + 1));
                if rest.len() >= pat@.len() {
                    assert(rest.take(m as int) =~= v@.subrange(i as int, i + m));
                    assert(rest.take(m as int) != pat@);
                    assert(replace_seq(rest, pat@, rep@) == seq![v@[i as int]] + replace_seq(
                        v@.skip(i + 1),
                        pat@,
                        rep@,
                    ));
                } else {
                    assert(replace_seq(rest, pat@, rep@) == rest);
                    assert(v@.skip(i + 1).len() < pat@.len());
                    assert(replace_seq(v@.skip(i + 1), pat@, rep@) == v@.skip(i + 1));
                    assert(rest =~= seq![v@[i as int]] + v@.skip(i + 1));
                }
            }
            let ghost old_out = out@;
            out.push(v[i]);
            assert(out@ + replace_seq(v@.skip(i + 1), pat@, rep@) =~= old_out + (seq![v@[i as int]]
                + replace_seq(v@.skip(i + 1), pat@, rep@)));
            i = i + 1;
        }
    }
    assert(v@.skip(n as int).len() == 0);
    assert(replace_seq(v@.skip(n as int), pat@, rep@) =~= Seq::<char>::empty());
    assert(out@ + Seq::<char>::empty() =~= out@);
    out
}

#[inline]
fn pat_rep(rep: &[char]) -> (r: &[char])
    ensures
        r@ == rep@,
{
    rep
}

/// `str::replace` on string slices.
pub fn replace_str(s: &str, pat: &str, rep: &str) -> (r: String)
    requires
        pat@.len() > 0,
    ensures
        r@ == replace_seq(s@, pat@, rep@),
{
    let v = to_chars(s);
    let p = to_chars(pat);
    let q = to_chars(rep);
    let r = replace_chars(&v, &p, &q);
    from_chars(&r)
}


// ---------------------------------------------------------------------------
// Split, lines, join
// ---------------------------------------------------------------------------

/// The views of a vector of character vectors.
pub open spec fn views(parts: Seq<Vec<char>>) -> Seq<Seq<char>> {
    parts.map_values(|p: Vec<char>| p@)
}

/// The views of a vector of strings.
pub open spec fn string_views(parts: Seq<String>) -> Seq<Seq<char>> {
    parts.map_values(|p: String| p@)
}

/// `str::split(sep)` for a non-empty separator, where `cur` is the part of
/// the current piece already read.
pub open spec fn split_from(s: Seq<char>, sep: Seq<char>, cur: Seq<char>) -> Seq<Seq<char>>
    recommends
        sep.len() > 0,
    decreases s.len(),
{
    if sep.len() == 0 || s.len() < sep.len() {
        seq![cur + s]
    } else if s.take(sep.len() as int) == sep {
        seq![cur] + split_from(s.skip(sep.len() as int), sep, Seq::empty())
    } else {
        split_from(s.skip(1), sep, cur.push(s[0]))
    }
}

/// `str::split(sep)` for a non-empty separator: the pieces between the
/// occurrences of `sep`, found left to right without overlap.
pub open spec fn split_seq(s: Seq<char>, sep: Seq<char>) -> Seq<Seq<char>> {
    split_from(s, sep, Seq::empty())
}

pub proof fn lemma_split_from_nonempty(s: Seq<char>, sep: Seq<char>, cur: Seq<char>)
    ensures
        split_from(s, sep, cur).len() >= 1,
    decreases s.len(),
{
    if sep.len() == 0 || s.len() < sep.len() {
    } else if s.take(sep.len() as int) == sep {
        lemma_split_from_nonempty(s.skip(sep.len() as int), sep, Seq::empty());
    } else {
        lemma_split_from_nonempty(s.skip(1), sep, cur.push(s[0]));
    }
}

/// Characters without the separator's first character join the current
/// piece unchanged.
pub proof fn lemma_split_from_prefix(p: Seq<char>, rest: Seq<char>, sep: Seq<char>, cur: Seq<char>)
    requires
        sep.len() > 0,
        forall|i: int| 0 <= i < p.len() ==> #[trigger] p[i] != sep[0],
    ensures
        split_from(p + rest, sep, cur) == split_from(rest, sep, cur + p),
    decreases p.len(),
{
    if p.len() == 0 {
        assert(p + rest =~= rest);
        assert(cur + p =~= cur);
    } else {
        let s = p + rest;
        if s.len() < sep.len() {
            assert(cur + s =~= (cur + p) + rest);
        } else {
            assert(s.take(sep.len() as int)[0] == p[0]);
            assert(s.take(sep.len() as int) != sep);
            assert(s.skip(1) =~= p.skip(1) + rest);
            assert forall|i: int| 0 <= i < p.skip(1).len() implies #[trigger] p.skip(1)[i] != sep[0] by {
                assert(p.skip(1)[i] == p[i + 1]);
            }
            lemma_split_from_prefix(p.skip(1), rest, sep, cur.push(s[0]));
            assert(cur.push(s[0]) + p.skip(1) =~= cur + p);
        }
    }
}

/// A separator at the front ends the current piece.
pub proof fn lemma_split_from_sep(rest: Seq<char>, sep: Seq<char>, cur: Seq<char>)
    requires
        sep.len() > 0,
    ensures
        split_from(sep + rest, sep, cur) == seq![cur] + split_from(rest, sep, Seq::empty()),
{
    let s = sep + rest;
    assert(s.take(sep.len() as int) =~= sep);
    assert(s.skip(sep.len() as int) =~= rest);
}

/// A text without the separator's first character is a single piece.
pub proof fn lemma_split_single(s: Seq<char>, sep: Seq<char>)
    requires
        sep.len() > 0,
        forall|i: int| 0 <= i < s.len() ==> #[trigger] s[i] != sep[0],
    ensures
        split_seq(s, sep) == seq![s],
{
    lemma_split_from_prefix(s, Seq::empty(), sep, Seq::empty());
    assert(s + Seq::<char>::empty() =~= s);
    assert(Seq::<char>::empty() + s =~= s);
}

/// Two texts without the separator's first character, joined by the
/// separator, split back into the two.
pub proof fn lemma_split_two(a: Seq<char>, b: Seq<char>, sep: Seq<char>)
    requires
        sep.len() > 0,
        forall|i: int| 0 <= i < a.len() ==> #[trigger] a[i] != sep[0],
        forall|i: int| 0 <= i < b.len() ==> #[trigger] b[i] != sep[0],
    ensures
        split_seq(a + sep + b, sep) == seq![a, b],
{
    assert(a + sep + b =~= a + (sep + b));
    lemma_split_from_prefix(a, sep + b, sep, Seq::empty());
    assert(Seq::<char>::empty() + a =~= a);
    lemma_split_from_sep(b, sep, a);
    lemma_split_single(b, sep);
    assert(seq![a] + seq![b] =~= seq![a, b]);
}

/// A text that starts and ends with a non-whitespace character is its own trim.
pub proof fn lemma_trim_fixed(s: Seq<char>)
    requires
        s.len() > 0,
        !is_white_space(s[0]),
        !is_white_space(s.last()),
    ensures
        trim_seq(s) == s,
{
    assert(trim_start_seq(s) == s);
    assert(trim_end_seq(s) == s);
}


pub fn split_chars(v: &[char], sep: &[char]) -> (r: Vec<Vec<char>>)
    requires
        sep.len() > 0,
    ensures
        views(r@) == split_seq(v@, sep@),
{
    let n = v.len();
    let m = sep.len();
    let mut parts: Vec<Vec<char>> = Vec::new();
    let mut cur: Vec<char> = Vec::new();
    let mut i: usize = 0;
    assert(v@.skip(0) =~= v@);
    assert(views(parts@) =~= Seq::<Seq<char>>::empty());
    while i < n
        invariant
            n == v.len(),
            m == sep.len() > 0,
            i <= n,
            views(parts@) + split_from(v@.skip(i as int), sep@, cur@) == split_seq(v@, sep@),
        decreases n - i,
    {
        let ghost rest = v@.skip(i as int);
        if m <= n - i && matches_at_exec(v, sep, i) {
            proof {
                assert(rest.take(m as int) =~= v@.subrange(i as int, i + m));
                assert(rest.skip(m as int) =~= v@.skip(i + m));
            }
            let ghost old_parts = views(parts@);
            let ghost old_cur = cur@;
            let piece = cur;
            parts.push(piece);
            cur = Vec::new();
            assert(views(parts@) =~= old_parts.push(old_cur));
            assert(views(parts@) + split_from(v@.skip(i + m), sep@, cur@) =~= old_parts + (seq![
                old_cur,
            ] + split_from(v@.skip(i + m), sep@, Seq::empty())));
            i = i + m;
        } else {
            proof {
                assert(rest[0] == v@[i as int]);
                assert(rest.skip(1) =~= v@.skip(i + 1));
                if rest.len() >= sep@.len() {
                    assert(rest.take(m as int) =~= v@.subrange(i as int, i + m));
                } else {
                    assert(v@.skip(i + 1).len() < sep@.len());
                    assert(cur@.push(v@[i as int]) + v@.skip(i + 1) =~= cur@ + rest);
                }
            }
            cur.push(v[i]);
            i = i + 1;
        }
    }
    assert(v@.skip(n as int) =~= Seq::<char>::empty());
    assert(cur@ + Seq::<char>::empty() =~= cur@);
    let ghost old_parts = views(parts@);
    let ghost last = cur@;
    parts.push(cur);
    assert(views(parts@) =~= old_parts.push(last));
    assert(views(parts@) =~= old_parts + seq![last]);
    parts
}

/// Converts character vectors to strings.
pub fn to_strings(parts: &Vec<Vec<char>>) -> (r: Vec<String>)
    ensures
        string_views(r@) == views(parts@),
{
    let mut out: Vec<String> = Vec::new();
    let mut i: usize = 0;
    while i < parts.len()
        invariant
            i <= parts.len(),
            string_views(out@) == views(parts@).take(i as int),
        decreases parts.len() - i,
    {
        let s = from_chars(parts[i].as_slice());
        let ghost old = out@;
        let ghost sv = s@;
        out.push(s);
        assert(string_views(out@) =~= string_views(old).push(sv));
        assert(string_views(out@) =~= views(parts@).take(i + 1));
        i = i + 1;
    }
    assert(views(parts@).take(parts.len() as int) =~= views(parts@));
    out
}

/// A line without the `'\r'` of a `"\r\n"` line ending.
pub open spec fn strip_cr(p: Seq<char>) -> Seq<char> {
    if p.len() > 0 && p.last() == '\r' {
        p.drop_last()
    } else {
        p
    }
}

/// `str::lines`: the pieces between `'\n'`, a final empty piece dropped, and
/// the `'\r'` of every `"\r\n"` ending removed.
pub open spec fn lines_seq(s: Seq<char>) -> Seq<Seq<char>> {
    let p = split_seq(s, seq!['\n']);
    let n = if p.len() > 0 && p.last().len() == 0 {
        p.len() - 1
    } else {
        p.len() as int
    };
    Seq::new(
        n as nat,
        |i: int|
            if i < p.len() - 1 {
                strip_cr(p[i])
            } else {
                p[i]
            },
    )
}

/// A split yields at most one piece more than the text has characters.
pub proof fn lemma_split_from_len(s: Seq<char>, sep: Seq<char>, cur: Seq<char>)
    requires
        sep.len() > 0,
    ensures
        split_from(s, sep, cur).len() <= s.len() + 1,
    decreases s.len(),
{
    if s.len() < sep.len() {
    } else if s.take(sep.len() as int) == sep {
        lemma_split_from_len(s.skip(sep.len() as int), sep, Seq::empty());
    } else {
        lemma_split_from_len(s.skip(1), sep, cur.push(s[0]));
    }
}

/// A text has at most one line more than it has characters.
pub proof fn lemma_lines_len(s: Seq<char>)
    ensures
        lines_seq(s).len() <= s.len() + 1,
{
    lemma_split_from_len(s, seq!['\n'], Seq::empty());
}


/// The pieces of a split at a one-character separator never hold that character.
pub proof fn lemma_split_pieces_free(s: Seq<char>, c: char, cur: Seq<char>)
    requires
        forall|i: int| 0 <= i < cur.len() ==> #[trigger] cur[i] != c,
    ensures
        forall|k: int, i: int|
            0 <= k < split_from(s, seq![c], cur).len() && 0 <= i < split_from(s, seq![c], cur)[k].len()
                ==> #[trigger] split_from(s, seq![c], cur)[k][i] != c,
    decreases s.len(),
{
    let sep = seq![c];
    assert(sep.len() == 1);
    if s.len() < 1 {
        assert(cur + s =~= cur);
        assert(split_from(s, sep, cur) == seq![cur + s]);
        assert(seq![cur + s][0] == cur);
    } else if s.take(1) == sep {
        let t = s.skip(1);
        lemma_split_pieces_free(t, c, Seq::empty());
        let r = split_from(t, sep, Seq::empty());
        assert(split_from(s, sep, cur) == seq![cur] + r);
        assert forall|k: int, i: int|
            0 <= k < (seq![cur] + r).len() && 0 <= i < (seq![cur] + r)[k].len() implies #[trigger] (
            seq![cur] + r)[k][i] != c by {
            if k > 0 {
                assert((seq![cur] + r)[k] == r[k - 1]);
            }
        }
    } else {
        assert(s.take(1)[0] == s[0]);
        if s[0] == c {
            assert(s.take(1) =~= sep);
        }
        let cur2 = cur.push(s[0]);
        assert forall|i: int| 0 <= i < cur2.len() implies #[trigger] cur2[i] != c by {
            if i < cur.len() {
                assert(cur2[i] == cur[i]);
            }
        }
        lemma_split_pieces_free(s.skip(1), c, cur2);
        assert(split_from(s, sep, cur) == split_from(s.skip(1), sep, cur2));
    }
}

/// No line of a text holds a line break.
pub proof fn lemma_lines_free(s: Seq<char>)
    ensures
        forall|k: int, i: int|
            0 <= k < lines_seq(s).len() && 0 <= i < lines_seq(s)[k].len() ==> #[trigger] lines_seq(
                s,
            )[k][i] != '\n',
{
    let p = split_seq(s, seq!['\n']);
    lemma_split_pieces_free(s, '\n', Seq::empty());
    assert forall|k: int, i: int|
        0 <= k < lines_seq(s).len() && 0 <= i < lines_seq(s)[k].len() implies #[trigger] lines_seq(
        s,
    )[k][i] != '\n' by {
        if k < p.len() - 1 && p[k].len() > 0 && p[k].last() == '\r' {
            assert(lines_seq(s)[k] == p[k].drop_last());
            assert(p[k].drop_last()[i] == p[k][i]);
        }
    }
}


pub fn strip_cr_chars(v: Vec<char>) -> (r: Vec<char>)
    ensures
        r@ == strip_cr(v@),
{
    let mut v = v;
    if v.len() > 0 && v[v.len() - 1] == '\r' {
        v.pop();
    }
    v
}

pub fn lines_chars(v: &[char]) -> (r: Vec<Vec<char>>)
    ensures
        views(r@) == lines_seq(v@),
{
    let nl: Vec<char> = vec!['\n'];
    let parts = split_chars(v, nl.as_slice());
    proof {
        assert(nl@ =~= seq!['\n']);
        lemma_split_from_nonempty(v@, seq!['\n'], Seq::empty());
    }
    let ghost p = split_seq(v@, seq!['\n']);
    let np = parts.len();
    let n = if parts[np - 1].len() == 0 {
        np - 1
    } else {
        np
    };
    let ghost target = lines_seq(v@);
    let mut out: Vec<Vec<char>> = Vec::new();
    let mut i: usize = 0;
    while i < n
        invariant
            np == parts.len() >= 1,
            views(parts@) == p,
            target == lines_seq(v@),
            target.len() == n,
            n <= np,
            i <= n,
            views(out@) == target.take(i as int),
            forall|k: int| 0 <= k < target.len() ==> #[trigger] target[k] == (if k < p.len() - 1 {
                strip_cr(p[k])
            } else {
                p[k]
            }),
        decreases n - i,
    {
        let piece = parts[i].clone();
        assert(piece@ == p[i as int]);
        let ghost old = out@;
        let q = if i < np - 1 {
            strip_cr_chars(piece)
        } else {
            piece
        };
        assert(q@ == target[i as int]);
        out.push(q);
        assert(views(out@) =~= views(old).push(target[i as int]));
        assert(views(out@) =~= target.take(i + 1));
        i = i + 1;
    }
    assert(target.take(n as int) =~= target);
    out
}

/// `[a, b, c].join(sep)` = `a + sep + b + sep + c`.
pub open spec fn join_seq(parts: Seq<Seq<char>>, sep: Seq<char>) -> Seq<char>
    decreases parts.len(),
{
    if parts.len() == 0 {
        Seq::empty()
    } else if parts.len() == 1 {
        parts[0]
    } else {
        join_seq(parts.drop_last(), sep) + sep + parts.last()
    }
}

pub fn join_chars(parts: &Vec<Vec<char>>, sep: &[char]) -> (r: Vec<char>)
    ensures
        r@ == join_seq(views(parts@), sep@),
{
    let mut out: Vec<char> = Vec::new();
    let mut i: usize = 0;
    while i < parts.len()
        invariant
            i <= parts.len(),
            out@ == join_seq(views(parts@).take(i as int), sep@),
        decreases parts.len() - i,
    {
        let ghost pre = views(parts@).take(i as int);
        assert(views(parts@).take(i + 1).drop_last() =~= pre);
        if i > 0 {
            extend_chars(&mut out, sep);
        } else {
            assert(views(parts@).take(1) =~= seq![parts@[0]@]);
        }
        extend_chars(&mut out, parts[i].as_slice());
        i = i + 1;
    }
    assert(views(parts@).take(parts.len() as int) =~= views(parts@));
    out
}


// ---------------------------------------------------------------------------
// Ordering
// ---------------------------------------------------------------------------

/// Lexicographic order by code point, the order of `str`'s `Ord` (UTF-8
/// preserves the order of code points).
pub open spec fn seq_lt(a: Seq<char>, b: Seq<char>) -> bool
    decreases a.len(),
{
    if b.len() == 0 {
        false
    } else if a.len() == 0 {
        true
    } else if a[0] != b[0] {
        (a[0] as int) < (b[0] as int)
    } else {
        seq_lt(a.drop_first(), b.drop_first())
    }
}

pub proof fn lemma_seq_lt_irreflexive(a: Seq<char>)
    ensures
        !seq_lt(a, a),
    decreases a.len(),
{
    if a.len() > 0 {
        lemma_seq_lt_irreflexive(a.drop_first());
    }
}

pub proof fn lemma_seq_lt_transitive(a: Seq<char>, b: Seq<char>, c: Seq<char>)
    requires
        seq_lt(a, b),
        seq_lt(b, c),
    ensures
        seq_lt(a, c),
    decreases a.len(),
{
    if a.len() > 0 && b.len() > 0 && c.len() > 0 {
        if a[0] == b[0] && b[0] == c[0] {
            lemma_seq_lt_transitive(a.drop_first(), b.drop_first(), c.drop_first());
        }
    }
}

pub proof fn lemma_seq_lt_total(a: Seq<char>, b: Seq<char>)
    requires
        a != b,
    ensures
        seq_lt(a, b) || seq_lt(b, a),
    decreases a.len(),
{
    if a.len() == 0 && b.len() == 0 {
        assert(a =~= b);
    } else if a.len() > 0 && b.len() > 0 && a[0] == b[0] {
        if a.drop_first() == b.drop_first() {
            assert(a =~= seq![a[0]] + a.drop_first());
            assert(b =~= seq![b[0]] + b.drop_first());
        }
        lemma_seq_lt_total(a.drop_first(), b.drop_first());
    } else if a.len() > 0 && b.len() > 0 {
        assert((a[0] as int) != (b[0] as int));
    }
}

pub proof fn lemma_seq_lt_asymmetric(a: Seq<char>, b: Seq<char>)
    requires
        seq_lt(a, b),
    ensures
        !seq_lt(b, a),
{
    if seq_lt(b, a) {
        lemma_seq_lt_transitive(a, b, a);
        lemma_seq_lt_irreflexive(a);
    }
}

/// `a < b` in the order of `seq_lt`.
pub fn chars_lt(a: &[char], b: &[char]) -> (r: bool)
    ensures
        r == seq_lt(a@, b@),
{
    let mut i: usize = 0;
    assert(a@.skip(0) =~= a@);
    assert(b@.skip(0) =~= b@);
    while i < a.len() && i < b.len() && a[i] == b[i]
        invariant
            i <= a.len(),
            i <= b.len(),
            seq_lt(a@, b@) == seq_lt(a@.skip(i as int), b@.skip(i as int)),
        decreases a.len() - i,
    {
        assert(a@.skip(i as int).drop_first() =~= a@.skip(i + 1));
        assert(b@.skip(i as int).drop_first() =~= b@.skip(i + 1));
        i = i + 1;
    }
    if i == b.len() {
        false
    } else if i == a.len() {
        true
    } else {
        assert(a@.skip(i as int)[0] == a@[i as int]);
        assert(b@.skip(i as int)[0] == b@[i as int]);
        a[i] < b[i]
    }
}

// ---------------------------------------------------------------------------
// ASCII helpers
// ---------------------------------------------------------------------------

pub open spec fn is_ascii_alpha(c: char) -> bool {
    (65 <= (c as u32) <= 90) || (97 <= (c as u32) <= 122)
}

pub open spec fn is_ascii_upper(c: char) -> bool {
    65 <= (c as u32) <= 90
}

/// `char::to_ascii_lowercase`.
pub open spec fn ascii_lower(c: char) -> char {
    if is_ascii_upper(c) {
        ((c as u32) + 32) as char
    } else {
        c
    }
}

pub open spec fn ascii_lower_seq(s: Seq<char>) -> Seq<char> {
    s.map_values(|c: char| ascii_lower(c))
}

pub fn ascii_lower_exec(c: char) -> (r: char)
    ensures
        r == ascii_lower(c),
{
    if 'A' <= c && c <= 'Z' {
        let b = c as u8;
        ((b + 32) as char)
    } else {
        c
    }
}

pub fn ascii_lower_chars(v: &[char]) -> (r: Vec<char>)
    ensures
        r@ == ascii_lower_seq(v@),
{
    let mut out: Vec<char> = Vec::new();
    let mut i: usize = 0;
    while i < v.len()
        invariant
            i <= v.len(),
            out@ == ascii_lower_seq(v@.take(i as int)),
        decreases v.len() - i,
    {
        out.push(ascii_lower_exec(v[i]));
        assert(ascii_lower_seq(v@.take(i + 1)) =~= ascii_lower_seq(v@.take(i as int)).push(
            ascii_lower(v@[i as int]),
        ));
        i = i + 1;
    }
    assert(v@.take(v.len() as int) =~= v@);
    out
}

/// ASCII case-insensitive equality (`str::eq_ignore_ascii_case`).
pub open spec fn eq_ignore_ascii_case_seq(a: Seq<char>, b: Seq<char>) -> bool {
    ascii_lower_seq(a) == ascii_lower_seq(b)
}

pub fn eq_ignore_ascii_case_chars(a: &[char], b: &[char]) -> (r: bool)
    ensures
        r == eq_ignore_ascii_case_seq(a@, b@),
{
    let la = ascii_lower_chars(a);
    let lb = ascii_lower_chars(b);
    chars_eq(&la, &lb)
}


// ---------------------------------------------------------------------------
// Facts about trimming
// ---------------------------------------------------------------------------

pub proof fn lemma_trim_start_shape(s: Seq<char>)
    ensures
        trim_start_seq(s).len() <= s.len(),
        trim_start_seq(s).len() == 0 || !is_white_space(trim_start_seq(s)[0]),
        trim_start_seq(s) == s.skip(s.len() - trim_start_seq(s).len()),
    decreases s.len(),
{
    if s.len() > 0 && is_white_space(s[0]) {
        lemma_trim_start_shape(s.drop_first());
        let t = trim_start_seq(s.drop_first());
        assert(s.drop_first().skip(s.drop_first().len() - t.len()) =~= s.skip(s.len() - t.len()));
    } else {
        assert(s.skip(0) =~= s);
    }
}

pub proof fn lemma_trim_end_shape(s: Seq<char>)
    ensures
        trim_end_seq(s).len() <= s.len(),
        trim_end_seq(s).len() == 0 || !is_white_space(trim_end_seq(s).last()),
        trim_end_seq(s) == s.take(trim_end_seq(s).len() as int),
    decreases s.len(),
{
    if s.len() > 0 && is_white_space(s.last()) {
        lemma_trim_end_shape(s.drop_last());
        let t = trim_end_seq(s.drop_last());
        assert(s.drop_last().take(t.len() as int) =~= s.take(t.len() as int));
    } else {
        assert(s.take(s.len() as int) =~= s);
    }
}

/// Trimming twice is trimming once.
pub proof fn lemma_trim_idempotent(s: Seq<char>)
    ensures
        trim_seq(trim_seq(s)) == trim_seq(s),
{
    let a = trim_start_seq(s);
    lemma_trim_start_shape(s);
    let b = trim_end_seq(a);
    lemma_trim_end_shape(a);
    // b is a prefix of a, so it starts with a non-whitespace character (or is empty).
    if b.len() > 0 {
        assert(b[0] == a[0]);
    }
    assert(trim_start_seq(b) == b);
    lemma_trim_end_shape(b);
    assert(trim_end_seq(b) == b);
}

// ---------------------------------------------------------------------------
// Building strings
// ---------------------------------------------------------------------------

/// Appends a string slice to a string (`String::push_str`).
pub fn push_str(s: &mut String, t: &str)
    ensures
        final(s)@ == old(s)@ + t@,
{
    let v = to_chars(t);
    let mut i: usize = 0;
    while i < v.len()
        invariant
            i <= v.len(),
            v@ == t@,
            s@ == old(s)@ + t@.take(i as int),
        decreases v.len() - i,
    {
        push_char(s, v[i]);
        assert(t@.take(i + 1) =~= t@.take(i as int).push(t@[i as int]));
        i = i + 1;
    }
    assert(t@.take(v.len() as int) =~= t@);
}

/// The concatenation of two string slices.
pub fn concat(a: &str, b: &str) -> (r: String)
    ensures
        r@ == a@ + b@,
{
    let mut r = String::new();
    push_str(&mut r, a);
    assert(Seq::<char>::empty() + a@ =~= a@);
    push_str(&mut r, b);
    r
}

/// The concatenation of three string slices.
pub fn concat3(a: &str, b: &str, c: &str) -> (r: String)
    ensures
        r@ == a@ + b@ + c@,
{
    let mut r = concat(a, b);
    push_str(&mut r, c);
    r
}

/// The decimal digit for `d < 10`.
pub open spec fn digit_char(d: nat) -> char {
    if d == 0 { '0' } else if d == 1 { '1' } else if d == 2 { '2' } else if d == 3 { '3' }
    else if d == 4 { '4' } else if d == 5 { '5' } else if d == 6 { '6' } else if d == 7 { '7' }
    else if d == 8 { '8' } else { '9' }
}

/// The decimal notation of a natural number, without leading zeros (`"0"` for zero).
pub open spec fn decimal_seq(n: nat) -> Seq<char>
    decreases n,
{
    if n < 10 {
        seq![digit_char(n)]
    } else {
        decimal_seq(n / 10).push(digit_char(n % 10))
    }
}

/// The decimal notation of an integer, with a leading `-` when negative.
pub open spec fn signed_decimal_seq(n: int) -> Seq<char> {
    if n < 0 {
        seq!['-'] + decimal_seq((-n) as nat)
    } else {
        decimal_seq(n as nat)
    }
}

fn digit_exec(d: u64) -> (c: char)
    requires
        d < 10,
    ensures
        c == digit_char(d as nat),
{
    if d == 0 { '0' } else if d == 1 { '1' } else if d == 2 { '2' } else if d == 3 { '3' }
    else if d == 4 { '4' } else if d == 5 { '5' } else if d == 6 { '6' } else if d == 7 { '7' }
    else if d == 8 { '8' } else { '9' }
}

fn decimal_chars(n: u64) -> (v: Vec<char>)
    ensures
        v@ == decimal_seq(n as nat),
    decreases n,
{
    if n < 10 {
        let mut v: Vec<char> = Vec::new();
        v.push(digit_exec(n));
        assert(v@ =~= seq![digit_char(n as nat)]);
        v
    } else {
        let mut v = decimal_chars(n / 10);
        v.push(digit_exec(n % 10));
        v
    }
}

/// `n.to_string()` for an unsigned integer.
pub fn u64_to_string(n: u64) -> (s: String)
    ensures
        s@ == decimal_seq(n as nat),
{
    let v = decimal_chars(n);
    from_chars(&v)
}

/// `n.to_string()` for a signed integer.
pub fn i64_to_string(n: i64) -> (s: String)
    ensures
        s@ == signed_decimal_seq(n as int),
{
    if n < 0 {
        let m: u64 = if n == i64::MIN {
            9223372036854775808u64
        } else {
            (-n) as u64
        };
        let mut v: Vec<char> = Vec::new();
        v.push('-');
        let d = decimal_chars(m);
        extend_chars(&mut v, &d);
        assert(v@ =~= seq!['-'] + decimal_seq((-(n as int)) as nat));
        from_chars(&v)
    } else {
        u64_to_string(n as u64)
    }
}

/// `str::to_lowercase`: the full Unicode lower-case mapping of a string.
pub uninterp spec fn lowercase(s: Seq<char>) -> Seq<char>;

/// Calls `str::to_lowercase`.  Claims that the result is the fixed Unicode
/// lower-case mapping of the argument, named `lowercase`, and that on an
/// ASCII text it maps `A`–`Z` to `a`–`z` and leaves every other character
/// as it is (no other ASCII character has a lower-case mapping).
#[verifier::external_body]
pub(crate) fn to_lowercase(s: &str) -> (r: String)
    ensures
        r@ == lowercase(s@),
        (forall|i: int| 0 <= i < s@.len() ==> (#[trigger] s@[i] as u32) < 128) ==> r@
            == ascii_lower_seq(s@),
{
    s.to_lowercase()
}


proof fn lemma_trim_start_keeps(s: Seq<char>, i: int)
    requires
        0 <= i < s.len(),
        !is_white_space(s[i]),
    ensures
        trim_start_seq(s).len() >= s.len() - i,
        trim_start_seq(s)[trim_start_seq(s).len() - (s.len() - i)] == s[i],
    decreases s.len(),
{
    if s.len() > 0 && is_white_space(s[0]) {
        lemma_trim_start_keeps(s.drop_first(), i - 1);
    }
}

proof fn lemma_trim_end_keeps(s: Seq<char>, j: int)
    requires
        0 <= j < s.len(),
        !is_white_space(s[j]),
    ensures
        trim_end_seq(s).len() > j,
    decreases s.len(),
{
    if s.len() > 0 && is_white_space(s.last()) {
        lemma_trim_end_keeps(s.drop_last(), j);
    }
}

/// A text with a non-whitespace character does not trim to nothing.
pub proof fn lemma_trim_nonblank(s: Seq<char>, i: int)
    requires
        0 <= i < s.len(),
        !is_white_space(s[i]),
    ensures
        trim_seq(s).len() > 0,
{
    lemma_trim_start_keeps(s, i);
    let t = trim_start_seq(s);
    lemma_trim_end_keeps(t, t.len() - (s.len() - i));
}

} // verus!
