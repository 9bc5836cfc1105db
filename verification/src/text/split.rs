//! Splitting model output into reply candidates.
//!
//! The default prompt asks for candidates separated by `---`; a reply
//! without that separator is split at blank lines; otherwise it is a single
//! candidate.
use vstd::prelude::*;

use crate::chars::{
    from_chars, is_white_space, lemma_split_from_prefix, lemma_split_from_sep, lemma_split_single,
    lemma_split_two, lemma_trim_fixed, lemma_trim_idempotent, split_chars, split_seq,
    string_views, to_chars, to_strings, trim_chars, trim_seq, trim_start_seq, views,
};

verus! {

/// The separator `---`.
pub open spec fn dash_sep() -> Seq<char> {
    seq!['-', '-', '-']
}

/// The separator `\n\n`.
pub open spec fn blank_line_sep() -> Seq<char> {
    seq!['\n', '\n']
}

/// The trimmed pieces that are not empty, in order.
pub open spec fn non_empty_trimmed(parts: Seq<Seq<char>>) -> Seq<Seq<char>>
    decreases parts.len(),
{
    if parts.len() == 0 {
        Seq::empty()
    } else if trim_seq(parts.last()).len() == 0 {
        non_empty_trimmed(parts.drop_last())
    } else {
        non_empty_trimmed(parts.drop_last()).push(trim_seq(parts.last()))
    }
}

/// The candidates found in a model reply.
pub open spec fn candidates_seq(raw: Seq<char>) -> Seq<Seq<char>> {
    let t = trim_seq(raw);
    if t.len() == 0 {
        Seq::empty()
    } else if split_seq(t, dash_sep()).len() > 1 {
        non_empty_trimmed(split_seq(t, dash_sep()))
    } else if split_seq(t, blank_line_sep()).len() > 1 {
        non_empty_trimmed(split_seq(t, blank_line_sep()))
    } else {
        seq![t]
    }
}

/// Trims every piece and keeps the non-empty ones.
fn collect_non_empty(parts: &Vec<Vec<char>>) -> (r: Vec<Vec<char>>)
    ensures
        views(r@) == non_empty_trimmed(views(parts@)),
{
    let mut out: Vec<Vec<char>> = Vec::new();
    let mut i: usize = 0;
    while i < parts.len()
        invariant
            i <= parts.len(),
            views(out@) == non_empty_trimmed(views(parts@).take(i as int)),
        decreases parts.len() - i,
    {
        assert(views(parts@).take(i + 1).drop_last() =~= views(parts@).take(i as int));
        assert(views(parts@).take(i + 1).last() == parts@[i as int]@);
        let t = trim_chars(parts[i].as_slice());
        if t.len() > 0 {
            let ghost old = views(out@);
            let ghost tv = t@;
            out.push(t);
            assert(views(out@) =~= old.push(tv));
        }
        i = i + 1;
    }
    assert(views(parts@).take(parts.len() as int) =~= views(parts@));
    out
}

/// Splits a model reply into candidates: by `---` if present, else by blank
/// lines, else the whole trimmed reply; empty pieces are dropped.
pub fn split_candidates(raw: &str) -> (r: Vec<String>)
    ensures
        string_views(r@) == candidates_seq(raw@),
        forall|i: int| 0 <= i < r@.len() ==> #[trigger] r@[i]@.len() > 0,
        forall|i: int| 0 <= i < r@.len() ==> trim_seq(#[trigger] r@[i]@) == r@[i]@,
{
    proof {
        lemma_candidates_trimmed(raw@);
    }
    let v = to_chars(raw);
    let t = trim_chars(&v);
    let r: Vec<String> = if t.len() == 0 {
        let r: Vec<String> = Vec::new();
        assert(string_views(r@) =~= candidates_seq(raw@));
        r
    } else {
        let dash: Vec<char> = vec!['-', '-', '-'];
        assert(dash@ =~= dash_sep());
        let parts = split_chars(&t, &dash);
        if parts.len() > 1 {
            let c = collect_non_empty(&parts);
            to_strings(&c)
        } else {
            let blank: Vec<char> = vec!['\n', '\n'];
            assert(blank@ =~= blank_line_sep());
            let parts = split_chars(&t, &blank);
            if parts.len() > 1 {
                let c = collect_non_empty(&parts);
                to_strings(&c)
            } else {
                let mut r: Vec<String> = Vec::new();
                r.push(from_chars(&t));
                assert(string_views(r@) =~= seq![t@]);
                r
            }
        }
    };
    proof {
        assert(string_views(r@) == candidates_seq(raw@));
        assert forall|i: int| 0 <= i < r@.len() implies #[trigger] r@[i]@.len() > 0 && trim_seq(
            r@[i]@,
        ) == r@[i]@ by {
            assert(string_views(r@)[i] == r@[i]@);
            assert(candidates_seq(raw@)[i] == r@[i]@);
        }
    }
    r
}

proof fn lemma_non_empty_trimmed_shape(parts: Seq<Seq<char>>)
    ensures
        forall|i: int|
            0 <= i < non_empty_trimmed(parts).len() ==> (#[trigger] non_empty_trimmed(parts)[i]).len()
                > 0 && trim_seq(non_empty_trimmed(parts)[i]) == non_empty_trimmed(parts)[i],
    decreases parts.len(),
{
    if parts.len() > 0 {
        lemma_non_empty_trimmed_shape(parts.drop_last());
        lemma_trim_idempotent(parts.last());
        let r = non_empty_trimmed(parts.drop_last());
        let x = trim_seq(parts.last());
        if x.len() > 0 {
            assert forall|i: int| 0 <= i < r.push(x).len() implies (#[trigger] r.push(x)[i]).len()
                > 0 && trim_seq(r.push(x)[i]) == r.push(x)[i] by {
                if i < r.len() {
                    assert(r.push(x)[i] == r[i]);
                }
            }
        }
    }
}

/// Every candidate is non-empty and already trimmed.
pub proof fn lemma_candidates_trimmed(raw: Seq<char>)
    ensures
        forall|i: int|
            0 <= i < candidates_seq(raw).len() ==> (#[trigger] candidates_seq(raw)[i]).len() > 0
                && trim_seq(candidates_seq(raw)[i]) == candidates_seq(raw)[i],
{
    let t = trim_seq(raw);
    lemma_trim_idempotent(raw);
    lemma_non_empty_trimmed_shape(split_seq(t, dash_sep()));
    lemma_non_empty_trimmed_shape(split_seq(t, blank_line_sep()));
}

/// A paragraph of a reply: not empty, without surrounding whitespace, and
/// without line breaks or dashes.
pub open spec fn plain_paragraph(a: Seq<char>) -> bool {
    &&& a.len() > 0
    &&& !is_white_space(a[0])
    &&& !is_white_space(a.last())
    &&& forall|i: int| 0 <= i < a.len() ==> #[trigger] a[i] != '\n' && a[i] != '-'
}

proof fn lemma_paragraph_pair(a: Seq<char>, b: Seq<char>, sep: Seq<char>)
    requires
        plain_paragraph(a),
        plain_paragraph(b),
        sep.len() > 0,
    ensures
        non_empty_trimmed(seq![a, b]) == seq![a, b],
        (a + sep + b)[0] == a[0],
        (a + sep + b).last() == b.last(),
{
    lemma_trim_fixed(a);
    lemma_trim_fixed(b);
    assert(seq![a, b].drop_last() =~= seq![a]);
    assert(seq![a].drop_last() =~= Seq::<Seq<char>>::empty());
    assert(seq![a].last() == a);
    assert(non_empty_trimmed(Seq::<Seq<char>>::empty()) == Seq::<Seq<char>>::empty());
    assert(Seq::<Seq<char>>::empty().push(a) =~= seq![a]);
    assert(non_empty_trimmed(seq![a]) =~= seq![a]);
    assert(seq![a, b].last() == b);
    assert(seq![a].push(b) =~= seq![a, b]);
}

/// Two paragraphs separated by a blank line are two candidates.
pub proof fn lemma_blank_line_splits(a: Seq<char>, b: Seq<char>)
    requires
        plain_paragraph(a),
        plain_paragraph(b),
    ensures
        candidates_seq(a + seq!['\n', '\n'] + b) == seq![a, b],
{
    let t = a + blank_line_sep() + b;
    lemma_paragraph_pair(a, b, blank_line_sep());
    lemma_trim_fixed(t);
    assert forall|i: int| 0 <= i < t.len() implies #[trigger] t[i] != dash_sep()[0] by {
        if i < a.len() {
            assert(t[i] == a[i]);
        } else if i >= a.len() + 2 {
            assert(t[i] == b[i - a.len() - 2]);
        }
    }
    lemma_split_single(t, dash_sep());
    assert forall|i: int| 0 <= i < a.len() implies #[trigger] a[i] != blank_line_sep()[0] by {}
    assert forall|i: int| 0 <= i < b.len() implies #[trigger] b[i] != blank_line_sep()[0] by {}
    lemma_split_two(a, b, blank_line_sep());
}

/// Two paragraphs separated by `---` are two candidates.
pub proof fn lemma_dash_splits(a: Seq<char>, b: Seq<char>)
    requires
        plain_paragraph(a),
        plain_paragraph(b),
    ensures
        candidates_seq(a + seq!['-', '-', '-'] + b) == seq![a, b],
{
    let t = a + dash_sep() + b;
    lemma_paragraph_pair(a, b, dash_sep());
    lemma_trim_fixed(t);
    assert forall|i: int| 0 <= i < a.len() implies #[trigger] a[i] != dash_sep()[0] by {}
    assert forall|i: int| 0 <= i < b.len() implies #[trigger] b[i] != dash_sep()[0] by {}
    lemma_split_two(a, b, dash_sep());
}

/// A single paragraph is a single candidate.
pub proof fn lemma_single_paragraph(a: Seq<char>)
    requires
        plain_paragraph(a),
    ensures
        candidates_seq(a) == seq![a],
{
    lemma_trim_fixed(a);
    assert forall|i: int| 0 <= i < a.len() implies #[trigger] a[i] != dash_sep()[0] by {}
    assert forall|i: int| 0 <= i < a.len() implies #[trigger] a[i] != blank_line_sep()[0] by {}
    lemma_split_single(a, dash_sep());
    lemma_split_single(a, blank_line_sep());
}

/// Extra blank lines between two paragraphs make no empty candidate.
pub proof fn lemma_blank_lines_skip_empty(a: Seq<char>, b: Seq<char>)
    requires
        plain_paragraph(a),
        plain_paragraph(b),
    ensures
        candidates_seq(a + seq!['\n', '\n', '\n', '\n'] + b) == seq![a, b],
{
    let nn = blank_line_sep();
    let t = a + seq!['\n', '\n', '\n', '\n'] + b;
    assert(t =~= a + (nn + (nn + b)));
    assert(t[0] == a[0]);
    assert(t.last() == b.last());
    lemma_trim_fixed(t);
    assert forall|i: int| 0 <= i < t.len() implies #[trigger] t[i] != dash_sep()[0] by {
        if i < a.len() {
            assert(t[i] == a[i]);
        } else if i >= a.len() + 4 {
            assert(t[i] == b[i - a.len() - 4]);
        }
    }
    lemma_split_single(t, dash_sep());
    assert forall|i: int| 0 <= i < a.len() implies #[trigger] a[i] != nn[0] by {}
    assert forall|i: int| 0 <= i < b.len() implies #[trigger] b[i] != nn[0] by {}
    lemma_split_from_prefix(a, nn + (nn + b), nn, Seq::empty());
    assert(Seq::<char>::empty() + a =~= a);
    lemma_split_from_sep(nn + b, nn, a);
    lemma_split_from_sep(b, nn, Seq::empty());
    lemma_split_single(b, nn);
    let parts = seq![a, Seq::<char>::empty(), b];
    assert(split_seq(t, nn) =~= parts);
    lemma_trim_fixed(a);
    lemma_trim_fixed(b);
    assert(parts.drop_last() =~= seq![a, Seq::<char>::empty()]);
    assert(seq![a, Seq::<char>::empty()].drop_last() =~= seq![a]);
    assert(seq![a].drop_last() =~= Seq::<Seq<char>>::empty());
    assert(trim_seq(Seq::<char>::empty()) =~= Seq::<char>::empty()) by {
        assert(trim_start_seq(Seq::<char>::empty()) == Seq::<char>::empty());
    }
    assert(seq![a].last() == a);
    assert(non_empty_trimmed(Seq::<Seq<char>>::empty()) == Seq::<Seq<char>>::empty());
    assert(Seq::<Seq<char>>::empty().push(a) =~= seq![a]);
    assert(non_empty_trimmed(seq![a]) =~= seq![a]);
    assert(non_empty_trimmed(seq![a, Seq::<char>::empty()]) =~= seq![a]);
    assert(non_empty_trimmed(parts) =~= seq![a, b]);
}

} // verus!
