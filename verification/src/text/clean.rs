//! Cleaning of clipboard text before it is sent to the model.
//!
//! Steps: trim surrounding whitespace; drop zero-width characters and control
//! characters other than `\n`, `\t`, `\r`; collapse runs of spaces; drop
//! spaces at the start and end of every line; collapse three or more line
//! breaks into a paragraph break.
use vstd::prelude::*;

use crate::chars::{
    from_chars, is_white_space, lemma_trim_end_shape, lemma_trim_start_shape, to_chars,
    trim_chars, trim_end_seq, trim_seq, trim_start_seq,
};

verus! {

/// U+200B, U+200C, U+200D, U+FEFF.
pub open spec fn is_zero_width_char(c: char) -> bool {
    c == '\u{200B}' || c == '\u{200C}' || c == '\u{200D}' || c == '\u{FEFF}'
}

/// `char::is_control`: the general category Cc (U+0000–U+001F, U+007F–U+009F).
pub open spec fn is_control_char(c: char) -> bool {
    let u = c as u32;
    u <= 0x1f || (0x7f <= u && u <= 0x9f)
}

/// Characters that survive the filtering step.
pub open spec fn kept_char(c: char) -> bool {
    !is_zero_width_char(c) && (!is_control_char(c) || c == '\n' || c == '\t' || c == '\r')
}

/// `s` restricted to the characters that are kept, in order.
pub open spec fn kept_seq(s: Seq<char>) -> Seq<char>
    decreases s.len(),
{
    if s.len() == 0 {
        Seq::empty()
    } else if kept_char(s.last()) {
        kept_seq(s.drop_last()).push(s.last())
    } else {
        kept_seq(s.drop_last())
    }
}

/// `r` without its trailing spaces.
pub open spec fn pop_spaces(r: Seq<char>) -> Seq<char>
    decreases r.len(),
{
    if r.len() > 0 && r.last() == ' ' {
        pop_spaces(r.drop_last())
    } else {
        r
    }
}

/// One step of the whitespace normaliser: `st` is the output so far and the
/// previous character written (`'\0'` before the first one).
pub open spec fn clean_step(st: (Seq<char>, char), ch: char) -> (Seq<char>, char) {
    let r = st.0;
    let prev = st.1;
    if ch == ' ' {
        if prev == '\n' || prev == '\0' || prev == ' ' {
            st
        } else {
            (r.push(' '), ' ')
        }
    } else if ch == '\n' {
        let r2 = pop_spaces(r);
        if r2.len() >= 2 && r2[r2.len() - 1] == '\n' && r2[r2.len() - 2] == '\n' {
            (r2, prev)
        } else {
            (r2.push('\n'), '\n')
        }
    } else {
        (r.push(ch), ch)
    }
}

/// The normaliser run over `s`.
pub open spec fn clean_fold(s: Seq<char>) -> (Seq<char>, char)
    decreases s.len(),
{
    if s.len() == 0 {
        (Seq::empty(), '\0')
    } else {
        clean_step(clean_fold(s.drop_last()), s.last())
    }
}

/// What `clean` returns for `raw`.
pub open spec fn clean_seq(raw: Seq<char>) -> Seq<char> {
    let t = trim_seq(raw);
    if t.len() == 0 {
        Seq::empty()
    } else {
        pop_spaces(clean_fold(kept_seq(t)).0)
    }
}

/// No two adjacent spaces.
pub open spec fn no_double_space(r: Seq<char>) -> bool {
    forall|i: int| 0 <= i < r.len() - 1 ==> !(#[trigger] r[i] == ' ' && r[i + 1] == ' ')
}

/// No space directly before or after a line break.
pub open spec fn no_space_at_line_edge(r: Seq<char>) -> bool {
    forall|i: int|
        0 <= i < r.len() - 1 ==> !(#[trigger] r[i] == ' ' && r[i + 1] == '\n') && !(r[i] == '\n'
            && r[i + 1] == ' ')
}

/// No three consecutive line breaks.
pub open spec fn no_triple_newline(r: Seq<char>) -> bool {
    forall|i: int|
        0 <= i < r.len() - 2 ==> !(#[trigger] r[i] == '\n' && r[i + 1] == '\n' && r[i + 2] == '\n')
}

/// Every character of `r` is one that the filter keeps.
pub open spec fn only_kept(r: Seq<char>) -> bool {
    forall|i: int| 0 <= i < r.len() ==> kept_char(#[trigger] r[i])
}

/// The shape that the normaliser maintains.
pub open spec fn well_shaped(r: Seq<char>) -> bool {
    &&& no_double_space(r)
    &&& no_space_at_line_edge(r)
    &&& no_triple_newline(r)
    &&& only_kept(r)
    &&& (r.len() > 0 ==> r[0] != ' ')
}

proof fn lemma_pop_spaces(r: Seq<char>)
    ensures
        pop_spaces(r).len() <= r.len(),
        pop_spaces(r) == r.take(pop_spaces(r).len() as int),
        pop_spaces(r).len() == 0 || pop_spaces(r).last() != ' ',
        forall|k: int| pop_spaces(r).len() <= k < r.len() ==> r[k] == ' ',
    decreases r.len(),
{
    if r.len() > 0 && r.last() == ' ' {
        lemma_pop_spaces(r.drop_last());
        let p = pop_spaces(r.drop_last());
        assert(p =~= r.take(p.len() as int));
        assert forall|k: int| p.len() <= k < r.len() implies r[k] == ' ' by {
            if k < r.len() - 1 {
                assert(r.drop_last()[k] == r[k]);
            }
        }
    } else {
        assert(r =~= r.take(r.len() as int));
    }
}

proof fn lemma_well_shaped_prefix(r: Seq<char>, n: int)
    requires
        well_shaped(r),
        0 <= n <= r.len(),
    ensures
        well_shaped(r.take(n)),
{
    let t = r.take(n);
    assert forall|i: int| 0 <= i < t.len() - 1 implies !(#[trigger] t[i] == ' ' && t[i + 1]
        == ' ') by {
        assert(t[i] == r[i] && t[i + 1] == r[i + 1]);
    }
    assert forall|i: int| 0 <= i < t.len() - 1 implies !(#[trigger] t[i] == ' ' && t[i + 1]
        == '\n') && !(t[i] == '\n' && t[i + 1] == ' ') by {
        assert(t[i] == r[i] && t[i + 1] == r[i + 1]);
    }
    assert forall|i: int| 0 <= i < t.len() - 2 implies !(#[trigger] t[i] == '\n' && t[i + 1]
        == '\n' && t[i + 2] == '\n') by {
        assert(t[i] == r[i] && t[i + 1] == r[i + 1] && t[i + 2] == r[i + 2]);
    }
    assert forall|i: int| 0 <= i < t.len() implies kept_char(#[trigger] t[i]) by {
        assert(t[i] == r[i]);
    }
}

proof fn lemma_push_shape(r: Seq<char>, c: char)
    requires
        well_shaped(r),
        kept_char(c),
        c == ' ' ==> r.len() > 0 && r.last() != ' ' && r.last() != '\n',
        c == '\n' ==> r.len() == 0 || r.last() != ' ',
        c == '\n' ==> !(r.len() >= 2 && r[r.len() - 1] == '\n' && r[r.len() - 2] == '\n'),
    ensures
        well_shaped(r.push(c)),
{
    let t = r.push(c);
    assert forall|i: int| 0 <= i < t.len() - 1 implies !(#[trigger] t[i] == ' ' && t[i + 1]
        == ' ') by {
        if i + 1 < r.len() {
            assert(t[i] == r[i] && t[i + 1] == r[i + 1]);
        }
    }
    assert forall|i: int| 0 <= i < t.len() - 1 implies !(#[trigger] t[i] == ' ' && t[i + 1]
        == '\n') && !(t[i] == '\n' && t[i + 1] == ' ') by {
        if i + 1 < r.len() {
            assert(t[i] == r[i] && t[i + 1] == r[i + 1]);
        }
    }
    assert forall|i: int| 0 <= i < t.len() - 2 implies !(#[trigger] t[i] == '\n' && t[i + 1]
        == '\n' && t[i + 2] == '\n') by {
        if i + 2 < r.len() {
            assert(t[i] == r[i] && t[i + 1] == r[i + 1] && t[i + 2] == r[i + 2]);
        }
    }
}

/// The state invariant of the normaliser.
pub open spec fn fold_invariant(st: (Seq<char>, char)) -> bool {
    &&& well_shaped(st.0)
    &&& (st.0.len() == 0 ==> st.1 == '\0')
    &&& (st.0.len() > 0 ==> st.1 == st.0.last())
}

proof fn lemma_step_invariant(st: (Seq<char>, char), ch: char)
    requires
        fold_invariant(st),
        kept_char(ch),
    ensures
        fold_invariant(clean_step(st, ch)),
{
    let r = st.0;
    let prev = st.1;
    if ch == ' ' {
        if prev == '\n' || prev == '\0' || prev == ' ' {
        } else {
            lemma_push_shape(r, ' ');
        }
    } else if ch == '\n' {
        lemma_pop_spaces(r);
        let r2 = pop_spaces(r);
        lemma_well_shaped_prefix(r, r2.len() as int);
        if r2.len() >= 2 && r2[r2.len() - 1] == '\n' && r2[r2.len() - 2] == '\n' {
            if r2.len() < r.len() {
                // r2 followed by a space in r would be "\n " in r.
                assert(r[r2.len() as int] == ' ');
                assert(r[r2.len() - 1] == '\n');
                assert(!(r[r2.len() - 1] == '\n' && r[r2.len() as int] == ' '));
            }
            assert(r2 =~= r);
        } else {
            lemma_push_shape(r2, '\n');
        }
    } else {
        lemma_push_shape(r, ch);
    }
}

proof fn lemma_fold_invariant(s: Seq<char>)
    requires
        only_kept(s),
    ensures
        fold_invariant(clean_fold(s)),
    decreases s.len(),
{
    if s.len() > 0 {
        assert forall|i: int| 0 <= i < s.drop_last().len() implies kept_char(
            #[trigger] s.drop_last()[i],
        ) by {
            assert(s.drop_last()[i] == s[i]);
        }
        lemma_fold_invariant(s.drop_last());
        assert(kept_char(s[s.len() - 1]));
        lemma_step_invariant(clean_fold(s.drop_last()), s.last());
    }
}

proof fn lemma_kept_seq_only_kept(s: Seq<char>)
    ensures
        only_kept(kept_seq(s)),
    decreases s.len(),
{
    if s.len() > 0 {
        lemma_kept_seq_only_kept(s.drop_last());
        let k = kept_seq(s.drop_last());
        if kept_char(s.last()) {
            assert forall|i: int| 0 <= i < k.push(s.last()).len() implies kept_char(
                #[trigger] k.push(s.last())[i],
            ) by {
                if i < k.len() {
                    assert(k.push(s.last())[i] == k[i]);
                }
            }
        }
    }
}

/// The output of `clean` has the shape that the cleaning rules promise.
pub proof fn lemma_clean_shape(raw: Seq<char>)
    ensures
        well_shaped(clean_seq(raw)),
        clean_seq(raw).len() == 0 || clean_seq(raw).last() != ' ',
{
    let t = trim_seq(raw);
    if t.len() > 0 {
        lemma_kept_seq_only_kept(t);
        lemma_fold_invariant(kept_seq(t));
        let r = clean_fold(kept_seq(t)).0;
        lemma_pop_spaces(r);
        lemma_well_shaped_prefix(r, pop_spaces(r).len() as int);
    }
}

proof fn lemma_kept_seq_id(s: Seq<char>)
    requires
        only_kept(s),
    ensures
        kept_seq(s) == s,
    decreases s.len(),
{
    if s.len() > 0 {
        assert forall|i: int| 0 <= i < s.drop_last().len() implies kept_char(
            #[trigger] s.drop_last()[i],
        ) by {
            assert(s.drop_last()[i] == s[i]);
        }
        lemma_kept_seq_id(s.drop_last());
        assert(kept_char(s[s.len() - 1]));
        assert(s.drop_last().push(s.last()) =~= s);
    }
}

proof fn lemma_well_shaped_sub(r: Seq<char>, lo: int, hi: int)
    requires
        well_shaped(r),
        0 <= lo <= hi <= r.len(),
        lo < hi ==> r[lo] != ' ',
    ensures
        well_shaped(r.subrange(lo, hi)),
{
    let t = r.subrange(lo, hi);
    assert forall|i: int| 0 <= i < t.len() - 1 implies !(#[trigger] t[i] == ' ' && t[i + 1]
        == ' ') by {
        assert(t[i] == r[lo + i] && t[i + 1] == r[lo + i + 1]);
    }
    assert forall|i: int| 0 <= i < t.len() - 1 implies !(#[trigger] t[i] == ' ' && t[i + 1]
        == '\n') && !(t[i] == '\n' && t[i + 1] == ' ') by {
        assert(t[i] == r[lo + i] && t[i + 1] == r[lo + i + 1]);
    }
    assert forall|i: int| 0 <= i < t.len() - 2 implies !(#[trigger] t[i] == '\n' && t[i + 1]
        == '\n' && t[i + 2] == '\n') by {
        assert(t[i] == r[lo + i] && t[i + 1] == r[lo + i + 1] && t[i + 2] == r[lo + i + 2]);
    }
    assert forall|i: int| 0 <= i < t.len() implies kept_char(#[trigger] t[i]) by {
        assert(t[i] == r[lo + i]);
    }
}

/// On a well-shaped text the normaliser changes nothing.
proof fn lemma_fold_fixed(r: Seq<char>)
    requires
        well_shaped(r),
    ensures
        clean_fold(r).0 == r,
        r.len() == 0 ==> clean_fold(r).1 == '\0',
        r.len() > 0 ==> clean_fold(r).1 == r.last(),
    decreases r.len(),
{
    if r.len() > 0 {
        let p = r.drop_last();
        lemma_well_shaped_prefix(r, r.len() - 1);
        assert(r.take(r.len() - 1) =~= p);
        lemma_fold_fixed(p);
        let ch = r.last();
        assert(kept_char(r[r.len() - 1]));
        if p.len() > 0 {
            assert(kept_char(r[p.len() - 1]));
            assert(p.last() == r[p.len() - 1]);
        }
        if ch == ' ' {
            assert(r[r.len() - 2] != ' ' && r[r.len() - 2] != '\n');
        } else if ch == '\n' {
            if p.len() > 0 {
                assert(r[r.len() - 2] != ' ');
                assert(pop_spaces(p) == p);
            }
            if p.len() >= 2 {
                assert(!(r[r.len() - 3] == '\n' && r[r.len() - 2] == '\n' && r[r.len() - 1]
                    == '\n'));
            }
        }
        assert(p.push(ch) =~= r);
    }
}

/// Cleaning a cleaned text only trims it: cleaning twice gives the
/// cleaned text without leading and trailing whitespace.
pub proof fn lemma_clean_twice(raw: Seq<char>)
    ensures
        clean_seq(clean_seq(raw)) == trim_seq(clean_seq(raw)),
{
    let c = clean_seq(raw);
    lemma_clean_shape(raw);
    let a = trim_start_seq(c);
    lemma_trim_start_shape(c);
    let t = trim_end_seq(a);
    lemma_trim_end_shape(a);
    let k = c.len() - a.len();
    assert(t =~= c.subrange(k, k + t.len()));
    if t.len() > 0 {
        assert(t[0] == a[0]);
        assert(c[k] == a[0]);
        lemma_well_shaped_sub(c, k, k + t.len());
        lemma_kept_seq_id(t);
        lemma_fold_fixed(t);
        assert(!is_white_space(t.last()));
    }
}

/// The normaliser keeps a text's first character when it is not a space.
proof fn lemma_fold_first(s: Seq<char>)
    requires
        s.len() > 0,
        s[0] != ' ',
    ensures
        clean_fold(s).0.len() > 0,
        clean_fold(s).0[0] == s[0],
    decreases s.len(),
{
    if s.len() == 1 {
        assert(s.drop_last() =~= Seq::<char>::empty());
        assert(clean_fold(s) == clean_step(clean_fold(s.drop_last()), s[0]));
        assert(pop_spaces(Seq::<char>::empty()) == Seq::<char>::empty());
    } else {
        let p = s.drop_last();
        assert(p[0] == s[0]);
        lemma_fold_first(p);
        let r = clean_fold(p).0;
        lemma_pop_spaces(r);
        let r2 = pop_spaces(r);
        if r2.len() == 0 {
            assert(r[0] == ' ');
        }
        assert(r2[0] == r[0]);
        let ch = s.last();
        assert(p.push(ch) =~= s);
        assert(r.push(ch)[0] == r[0]);
        assert(r2.push(ch)[0] == r2[0]);
        assert(clean_fold(s) == clean_step(clean_fold(p), ch));
    }
}

/// Cleaning is idempotent on text without zero-width or control characters
/// (other than `\n`, `\t`, `\r`): cleaning the cleaned text changes nothing.
pub proof fn lemma_clean_idempotent(raw: Seq<char>)
    requires
        only_kept(raw),
    ensures
        clean_seq(clean_seq(raw)) == clean_seq(raw),
{
    lemma_clean_twice(raw);
    let c = clean_seq(raw);
    let t = trim_seq(raw);
    if t.len() > 0 {
        let a = trim_start_seq(raw);
        lemma_trim_start_shape(raw);
        lemma_trim_end_shape(a);
        assert(t[0] == a[0]);
        let k = raw.len() - a.len();
        assert(t =~= raw.subrange(k, k + t.len()));
        assert forall|i: int| 0 <= i < t.len() implies kept_char(#[trigger] t[i]) by {
            assert(t[i] == raw[k + i]);
        }
        lemma_kept_seq_id(t);
        let f = clean_fold(t);
        lemma_fold_first(t);
        // the last character is pushed, being neither a space nor a line break
        assert(t.drop_last().push(t.last()) =~= t);
        assert(f.0.last() == t.last());
        lemma_pop_spaces(f.0);
        assert(pop_spaces(f.0) == f.0);
        assert(c == f.0);
        assert(!is_white_space(c[0]));
        assert(!is_white_space(c.last()));
        assert(trim_start_seq(c) == c);
        assert(trim_end_seq(c) == c);
    } else {
        assert(c =~= Seq::<char>::empty());
        assert(trim_start_seq(c) == c);
    }
}

/// Zero-width characters: U+200B U+200C U+200D U+FEFF.
fn is_zero_width(c: char) -> (r: bool)
    ensures
        r == is_zero_width_char(c),
{
    c == '\u{200B}' || c == '\u{200C}' || c == '\u{200D}' || c == '\u{FEFF}'
}

fn is_control(c: char) -> (r: bool)
    ensures
        r == is_control_char(c),
{
    let u = c as u32;
    u <= 0x1f || (0x7f <= u && u <= 0x9f)
}

fn pop_trailing_spaces(r: &mut Vec<char>)
    ensures
        final(r)@ == pop_spaces(old(r)@),
{
    while r.len() > 0 && r[r.len() - 1] == ' '
        invariant
            pop_spaces(r@) == pop_spaces(old(r)@),
        decreases r.len(),
    {
        let ghost before = r@;
        r.pop();
        assert(r@ =~= before.drop_last());
    }
}

/// Cleans clipboard text (see the module documentation for the rules).
pub fn clean(raw: &str) -> (r: String)
    ensures
        r@ == clean_seq(raw@),
        well_shaped(r@),
        r@.len() == 0 || r@.last() != ' ',
{
    proof {
        lemma_clean_shape(raw@);
    }
    let v = to_chars(raw);
    let trimmed = trim_chars(&v);
    if trimmed.len() == 0 {
        return String::new();
    }
    // Drop zero-width characters and control characters other than \n \t \r.
    let mut filtered: Vec<char> = Vec::new();
    let mut i: usize = 0;
    while i < trimmed.len()
        invariant
            i <= trimmed.len(),
            filtered@ == kept_seq(trimmed@.take(i as int)),
        decreases trimmed.len() - i,
    {
        let c = trimmed[i];
        assert(trimmed@.take(i + 1).drop_last() =~= trimmed@.take(i as int));
        if is_zero_width(c) {
        } else if is_control(c) {
            if c == '\n' || c == '\t' || c == '\r' {
                filtered.push(c);
            }
        } else {
            filtered.push(c);
        }
        i = i + 1;
    }
    assert(trimmed@.take(trimmed.len() as int) =~= trimmed@);
    // Normalise spaces and line breaks character by character.
    let mut result: Vec<char> = Vec::new();
    let mut prev = '\0';
    let mut j: usize = 0;
    while j < filtered.len()
        invariant
            j <= filtered.len(),
            (result@, prev) == clean_fold(filtered@.take(j as int)),
        decreases filtered.len() - j,
    {
        let ch = filtered[j];
        assert(filtered@.take(j + 1).drop_last() =~= filtered@.take(j as int));
        if ch == ' ' {
            if prev == '\n' || prev == '\0' || prev == ' ' {
            } else {
                result.push(ch);
                prev = ch;
            }
        } else if ch == '\n' {
            pop_trailing_spaces(&mut result);
            let n = result.len();
            if n >= 2 && result[n - 1] == '\n' && result[n - 2] == '\n' {
            } else {
                result.push(ch);
                prev = ch;
            }
        } else {
            result.push(ch);
            prev = ch;
        }
        j = j + 1;
    }
    assert(filtered@.take(filtered.len() as int) =~= filtered@);
    pop_trailing_spaces(&mut result);
    from_chars(&result)
}

} // verus!
