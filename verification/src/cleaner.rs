//! Cleaning of captured text with regular expressions: control characters
//! removed, runs of spaces and tabs collapsed, lines trimmed, and runs of
//! three or more newlines reduced to two.
use vstd::prelude::*;

use crate::chars::{
    from_chars, is_white_space, join_chars, join_seq, lemma_lines_free, lemma_trim_end_shape,
    lemma_trim_idempotent, lemma_trim_start_shape, lines_chars, lines_seq, to_chars, trim_chars,
    trim_end_seq, trim_seq, trim_start_seq, trim_str, views,
};
use crate::pattern::{regex_compiles, regex_replace_all, replace_all};

verus! {

/// Control characters other than `\n`, `\r` and `\t` (and DEL).
pub const CONTROL_CHARS: &'static str = "[\\x00-\\x08\\x0B\\x0C\\x0E-\\x1F\\x7F]";

/// Runs of spaces and tabs.
pub const MULTI_WS: &'static str = "[ \\t]+";

/// Spaces and tabs at the very start or end of the text.
pub const EDGE_WS: &'static str = "^[ \\t]+|[ \\t]+$";

/// Runs of three or more newlines.
pub const MULTI_NEWLINE: &'static str = "\\n{3,}";

/// `replace_all` with a fixed pattern; a pattern that does not compile
/// changes nothing.
pub open spec fn rewrite(pattern: &str, text: Seq<char>, rep: Seq<char>) -> Seq<char> {
    if regex_compiles(pattern@) {
        regex_replace_all(pattern@, text, rep)
    } else {
        text
    }
}

/// Every line trimmed.
pub open spec fn trim_each(lines: Seq<Seq<char>>) -> Seq<Seq<char>> {
    lines.map_values(|l: Seq<char>| trim_seq(l))
}

/// The cleaned text.
pub open spec fn cleaned_text(raw: Seq<char>) -> Seq<char> {
    let t1 = rewrite(CONTROL_CHARS, raw, Seq::empty());
    let t2 = rewrite(MULTI_WS, t1, seq![' ']);
    let t3 = join_seq(trim_each(lines_seq(t2)), seq!['\n']);
    let t4 = rewrite(EDGE_WS, t3, Seq::empty());
    let t5 = rewrite(MULTI_NEWLINE, t4, seq!['\n', '\n']);
    trim_seq(t5)
}

/// No line of `w` begins or ends with whitespace: next to every line break
/// there is another line break, the edge of the text, or a character that
/// is not whitespace (blank lines are empty).
pub open spec fn line_trimmed(w: Seq<char>) -> bool {
    forall|i: int|
        0 <= i < w.len() && #[trigger] w[i] == '\n' ==> (i == 0 || w[i - 1] == '\n'
            || !is_white_space(w[i - 1])) && (i + 1 == w.len() || w[i + 1] == '\n'
            || !is_white_space(w[i + 1]))
}

/// `w` is empty, or ends with a line break or a non-whitespace character.
spec fn clean_end(w: Seq<char>) -> bool {
    w.len() == 0 || w.last() == '\n' || !is_white_space(w.last())
}

proof fn lemma_join_line_trimmed(parts: Seq<Seq<char>>)
    requires
        forall|k: int, i: int|
            0 <= k < parts.len() && 0 <= i < parts[k].len() ==> #[trigger] parts[k][i] != '\n',
        forall|k: int| 0 <= k < parts.len() ==> trim_seq(#[trigger] parts[k]) == parts[k],
    ensures
        line_trimmed(join_seq(parts, seq!['\n'])),
        clean_end(join_seq(parts, seq!['\n'])),
    decreases parts.len(),
{
    if parts.len() == 1 {
        let p = parts[0];
        assert(trim_seq(parts[0]) == p);
        lemma_trim_end_shape(trim_start_seq(p));
        lemma_trim_start_shape(p);
        if p.len() > 0 {
            let a = trim_start_seq(p);
            assert(trim_end_seq(a).last() == p.last());
        }
        assert forall|i: int| 0 <= i < p.len() implies #[trigger] p[i] != '\n' by {
            assert(parts[0][i] != '\n');
        }
    } else if parts.len() > 1 {
        let init = parts.drop_last();
        let l = parts.last();
        assert forall|k: int, i: int|
            0 <= k < init.len() && 0 <= i < init[k].len() implies #[trigger] init[k][i] != '\n' by {
            assert(init[k] == parts[k]);
        }
        assert forall|k: int| 0 <= k < init.len() implies trim_seq(#[trigger] init[k]) == init[k] by {
            assert(init[k] == parts[k]);
        }
        lemma_join_line_trimmed(init);
        let j = join_seq(init, seq!['\n']);
        let w = join_seq(parts, seq!['\n']);
        assert(w == j + seq!['\n'] + l);
        assert(trim_seq(parts[parts.len() - 1]) == l);
        lemma_trim_start_shape(l);
        lemma_trim_end_shape(trim_start_seq(l));
        if l.len() > 0 {
            let a = trim_start_seq(l);
            assert(a.len() == l.len());
            assert(l[0] == a[0]);
            assert(trim_end_seq(a).last() == l.last());
        }
        assert forall|i: int| 0 <= i < l.len() implies #[trigger] l[i] != '\n' by {
            assert(parts[parts.len() - 1][i] != '\n');
        }
        let jl = j.len() as int;
        assert forall|i: int|
            0 <= i < w.len() && #[trigger] w[i] == '\n' implies (i == 0 || w[i - 1] == '\n'
                || !is_white_space(w[i - 1])) && (i + 1 == w.len() || w[i + 1] == '\n'
                || !is_white_space(w[i + 1])) by {
            if i < jl {
                assert(w[i] == j[i]);
                if i > 0 {
                    assert(w[i - 1] == j[i - 1]);
                }
                if i + 1 < jl {
                    assert(w[i + 1] == j[i + 1]);
                } else {
                    assert(w[i + 1] == '\n');
                }
            } else if i == jl {
                if i > 0 {
                    assert(w[i - 1] == j.last());
                }
                if i + 1 < w.len() {
                    assert(w[i + 1] == l[0]);
                }
            } else {
                assert(w[i] == l[i - jl - 1]);
            }
        }
        if l.len() > 0 {
            assert(w.last() == l.last());
        }
    }
}

/// Every line of `trim_lines`' result is trimmed.
proof fn lemma_trim_lines_shape(text: Seq<char>)
    ensures
        line_trimmed(join_seq(trim_each(lines_seq(text)), seq!['\n'])),
{
    let parts = trim_each(lines_seq(text));
    lemma_lines_free(text);
    assert forall|k: int, i: int|
        0 <= k < parts.len() && 0 <= i < parts[k].len() implies #[trigger] parts[k][i] != '\n' by {
        let line = lines_seq(text)[k];
        let a = trim_start_seq(line);
        lemma_trim_start_shape(line);
        lemma_trim_end_shape(a);
        assert(parts[k] == trim_seq(line));
        let off = line.len() - a.len();
        assert(parts[k][i] == a[i]);
        assert(a[i] == line[off + i]);
    }
    assert forall|k: int| 0 <= k < parts.len() implies trim_seq(#[trigger] parts[k]) == parts[k] by {
        lemma_trim_idempotent(lines_seq(text)[k]);
    }
    lemma_join_line_trimmed(parts);
}

/// Cleaning collapses newline runs last, on a text whose lines are all
/// trimmed already: the result is the final trim of the newline collapse
/// of a line-trimmed text (with only its outer spaces and tabs removed),
/// so blank lines that held whitespace take part in the collapse.
pub proof fn lemma_clean_text_collapses_trimmed_lines(raw: Seq<char>)
    ensures
        exists|w: Seq<char>|
            line_trimmed(w) && #[trigger] cleaned_text(raw) == trim_seq(
                rewrite(MULTI_NEWLINE, rewrite(EDGE_WS, w, Seq::empty()), seq!['\n', '\n']),
            ),
{
    let t1 = rewrite(CONTROL_CHARS, raw, Seq::empty());
    let t2 = rewrite(MULTI_WS, t1, seq![' ']);
    let w = join_seq(trim_each(lines_seq(t2)), seq!['\n']);
    lemma_trim_lines_shape(t2);
    assert(line_trimmed(w));
}

fn rewrite_exec(pattern: &str, text: String, rep: &str) -> (r: String)
    ensures
        r@ == rewrite(pattern, text@, rep@),
{
    match replace_all(pattern, text.as_str(), rep) {
        Some(s) => s,
        None => text,
    }
}

/// Trims every line of `text` (split as `str::lines` does) and joins the
/// lines again with `\n`.
pub fn trim_lines(text: &str) -> (r: String)
    ensures
        r@ == join_seq(trim_each(lines_seq(text@)), seq!['\n']),
        line_trimmed(r@),
{
    proof {
        lemma_trim_lines_shape(text@);
    }
    let v = to_chars(text);
    let lines = lines_chars(&v);
    let ghost lv = views(lines@);
    let mut out: Vec<Vec<char>> = Vec::new();
    let mut i: usize = 0;
    while i < lines.len()
        invariant
            i <= lines.len(),
            lv == views(lines@),
            lv == lines_seq(text@),
            views(out@) == trim_each(lv).take(i as int),
        decreases lines.len() - i,
    {
        let t = trim_chars(lines[i].as_slice());
        let ghost before = views(out@);
        out.push(t);
        assert(views(out@) =~= before.push(trim_seq(lv[i as int])));
        assert(views(out@) =~= trim_each(lv).take(i + 1));
        i = i + 1;
    }
    assert(trim_each(lv).take(lines.len() as int) =~= trim_each(lv));
    let mut nl: Vec<char> = Vec::new();
    nl.push('\n');
    assert(nl@ =~= seq!['\n']);
    let joined = join_chars(&out, nl.as_slice());
    from_chars(&joined)
}

/// Cleans captured text (see the module documentation for the steps).
pub fn clean_text(raw: &str) -> (r: String)
    ensures
        r@ == cleaned_text(raw@),
{
    proof {
        reveal_strlit("");
        reveal_strlit(" ");
        reveal_strlit("\n\n");
    }
    let t1 = rewrite_exec(CONTROL_CHARS, raw.to_owned(), "");
    let t2 = rewrite_exec(MULTI_WS, t1, " ");
    let t3 = trim_lines(t2.as_str());
    let t4 = rewrite_exec(EDGE_WS, t3, "");
    let t5 = rewrite_exec(MULTI_NEWLINE, t4, "\n\n");
    assert(""@ =~= Seq::<char>::empty());
    assert(" "@ =~= seq![' ']);
    assert("\n\n"@ =~= seq!['\n', '\n']);
    trim_str(t5.as_str())
}

/// A text is usable when something other than whitespace is left.
pub fn is_valid_text(text: &str) -> (r: bool)
    ensures
        r == (trim_seq(text@).len() > 0),
{
    !trim_str(text).as_str().is_empty()
}

} // verus!
