//! Prompt templates: `{{name}}` placeholders.
//!
//! Rendering replaces each given variable's placeholder by its value, in
//! the order the variables are given, and leaves other placeholders as they
//! are.  Extraction lists the placeholder names of a template, trimmed,
//! without repeats, in order of first appearance.
use vstd::prelude::*;

use crate::chars::{
    chars_eq, contains_seq, from_chars, lemma_replace_absent, lemma_replace_none,
    lemma_replace_one, lemma_replace_prefix, matches_at, matches_at_exec, replace_chars, replace_seq, string_views,
    sub_chars, to_chars, to_strings, trim_chars, trim_seq, views,
};
use crate::error::AppError;

verus! {

/// The placeholder `{{name}}`.
pub open spec fn placeholder(name: Seq<char>) -> Seq<char> {
    seq!['{', '{'] + name + seq!['}', '}']
}

/// The template with the placeholders of `vars[0..k]` replaced, in order.
pub open spec fn render_prefix(tpl: Seq<char>, vars: Seq<(Seq<char>, Seq<char>)>, k: nat) -> Seq<char>
    decreases k,
{
    if k == 0 || k > vars.len() {
        tpl
    } else {
        replace_seq(
            render_prefix(tpl, vars, (k - 1) as nat),
            placeholder(vars[k - 1].0),
            vars[k - 1].1,
        )
    }
}

/// The rendered template.
pub open spec fn render_seq(tpl: Seq<char>, vars: Seq<(Seq<char>, Seq<char>)>) -> Seq<char> {
    render_prefix(tpl, vars, vars.len())
}

/// No character of `s` is `c`.
pub open spec fn free_of(s: Seq<char>, c: char) -> bool {
    forall|i: int| 0 <= i < s.len() ==> #[trigger] s[i] != c
}

/// A variable name usable in a placeholder: no braces in it.
pub open spec fn plain_name(k: Seq<char>) -> bool {
    free_of(k, '{') && free_of(k, '}')
}

/// In a text whose only braces are those of one placeholder, the
/// placeholder of another plain name does not occur.
proof fn lemma_other_placeholder_absent(a: Seq<char>, b: Seq<char>, k1: Seq<char>, k2: Seq<char>)
    requires
        free_of(a, '{'),
        free_of(b, '{'),
        plain_name(k1),
        plain_name(k2),
        k1 != k2,
    ensures
        !contains_seq(a + placeholder(k1) + b, placeholder(k2)),
{
    let s = a + placeholder(k1) + b;
    let p2 = placeholder(k2);
    let la = a.len() as int;
    let l1 = k1.len() as int;
    let l2 = k2.len() as int;
    assert forall|x: int| 0 <= x < s.len() && #[trigger] s[x] == '{' implies x == la || x == la + 1 by {
        if x < la {
            assert(s[x] == a[x]);
        } else if x >= la + 2 && x < la + 2 + l1 {
            assert(s[x] == k1[x - la - 2]);
        } else if x >= la + 2 + l1 && x < la + 4 + l1 {
            assert(s[x] == '}');
        } else if x >= la + 4 + l1 {
            assert(s[x] == b[x - la - 4 - l1]);
        }
    }
    if contains_seq(s, p2) {
        let i = choose|i: int| matches_at(s, p2, i);
        assert forall|j: int| 0 <= j < p2.len() implies #[trigger] s[i + j] == p2[j] by {
            assert(s.subrange(i, i + p2.len())[j] == s[i + j]);
        }
        assert(s[i + 0] == p2[0]);
        assert(s[i + 1] == p2[1]);
        assert(i == la);
        assert forall|t: int| 0 <= t < l1 implies #[trigger] s[la + 2 + t] == k1[t] by {}
        assert(s[la + 2 + l1] == '}');
        if l1 < l2 {
            assert(s[i + (2 + l1)] == p2[2 + l1]);
            assert(p2[2 + l1] == k2[l1]);
        } else if l1 > l2 {
            assert(s[i + (2 + l2)] == p2[2 + l2]);
            assert(p2[2 + l2] == '}');
            assert(s[la + 2 + l2] == k1[l2]);
        } else {
            assert forall|t: int| 0 <= t < l1 implies k1[t] == k2[t] by {
                assert(s[i + (2 + t)] == p2[2 + t]);
                assert(p2[2 + t] == k2[t]);
            }
            assert(k1 =~= k2);
        }
    }
}

/// A template with one placeholder and a single variable of that name:
/// the placeholder becomes the value, whatever the value is (an empty one
/// included), and the rest of the template stays.
pub proof fn lemma_render_single(a: Seq<char>, b: Seq<char>, k: Seq<char>, v: Seq<char>)
    requires
        free_of(a, '{'),
        free_of(b, '{'),
    ensures
        render_seq(a + placeholder(k) + b, seq![(k, v)]) == a + v + b,
{
    let vars = seq![(k, v)];
    let tpl = a + placeholder(k) + b;
    assert(placeholder(k)[0] == '{');
    lemma_replace_one(a, b, placeholder(k), v);
    assert(vars.len() == 1);
    assert(vars[0] == (k, v));
    assert(render_prefix(tpl, vars, 0) == tpl);
    assert(render_prefix(tpl, vars, 1) == replace_seq(tpl, placeholder(k), v));
}

/// Rendering a template whose only placeholder is that of the `j`-th
/// variable puts that variable's value in its place and changes nothing
/// else, whatever the other variables are (names plain and distinct; the
/// value itself holds no placeholder).
pub proof fn lemma_render_placeholder(a: Seq<char>, b: Seq<char>, vars: Seq<(Seq<char>, Seq<char>)>, j: int)
    requires
        0 <= j < vars.len(),
        free_of(a, '{'),
        free_of(b, '{'),
        free_of(vars[j].1, '{'),
        forall|i: int| 0 <= i < vars.len() ==> plain_name(#[trigger] vars[i].0),
        forall|i: int| 0 <= i < vars.len() && i != j ==> #[trigger] vars[i].0 != vars[j].0,
    ensures
        render_seq(a + placeholder(vars[j].0) + b, vars) == a + vars[j].1 + b,
{
    lemma_render_placeholder_prefix(a, b, vars, j, vars.len());
}

proof fn lemma_render_placeholder_prefix(
    a: Seq<char>,
    b: Seq<char>,
    vars: Seq<(Seq<char>, Seq<char>)>,
    j: int,
    k: nat,
)
    requires
        0 <= j < vars.len(),
        k <= vars.len(),
        free_of(a, '{'),
        free_of(b, '{'),
        free_of(vars[j].1, '{'),
        forall|i: int| 0 <= i < vars.len() ==> plain_name(#[trigger] vars[i].0),
        forall|i: int| 0 <= i < vars.len() && i != j ==> #[trigger] vars[i].0 != vars[j].0,
    ensures
        k <= j ==> render_prefix(a + placeholder(vars[j].0) + b, vars, k) == a + placeholder(
            vars[j].0,
        ) + b,
        k > j ==> render_prefix(a + placeholder(vars[j].0) + b, vars, k) == a + vars[j].1 + b,
    decreases k,
{
    let tpl = a + placeholder(vars[j].0) + b;
    if k > 0 {
        lemma_render_placeholder_prefix(a, b, vars, j, (k - 1) as nat);
        let pat = placeholder(vars[k - 1].0);
        assert(pat[0] == '{');
        assert(plain_name(vars[k - 1].0));
        if k - 1 < j {
            assert(vars[k - 1].0 != vars[j].0);
            lemma_other_placeholder_absent(a, b, vars[j].0, vars[k - 1].0);
            lemma_replace_absent(tpl, pat, vars[k - 1].1);
        } else if k - 1 == j {
            lemma_replace_one(a, b, pat, vars[j].1);
        } else {
            let r = a + vars[j].1 + b;
            assert forall|x: int| 0 <= x < r.len() implies #[trigger] r[x] != pat[0] by {
                if x < a.len() {
                    assert(r[x] == a[x]);
                } else if x < a.len() + vars[j].1.len() {
                    assert(r[x] == vars[j].1[x - a.len()]);
                } else {
                    assert(r[x] == b[x - a.len() - vars[j].1.len()]);
                }
            }
            lemma_replace_none(r, pat, vars[k - 1].1);
        }
    }
}

/// Every occurrence of the placeholder is replaced, not only the first.
pub proof fn lemma_render_every_occurrence(
    a: Seq<char>,
    b: Seq<char>,
    c: Seq<char>,
    k: Seq<char>,
    v: Seq<char>,
)
    requires
        free_of(a, '{'),
        free_of(b, '{'),
        free_of(c, '{'),
    ensures
        render_seq(a + placeholder(k) + b + placeholder(k) + c, seq![(k, v)]) == a + v + b + v + c,
{
    let p = placeholder(k);
    let vars = seq![(k, v)];
    let tpl = a + p + b + p + c;
    assert(p[0] == '{');
    assert(tpl =~= a + (p + (b + p + c)));
    lemma_replace_prefix(a, p + (b + p + c), p, v);
    let s2 = p + (b + p + c);
    assert(s2.take(p.len() as int) =~= p);
    assert(s2.skip(p.len() as int) =~= b + p + c);
    lemma_replace_one(b, c, p, v);
    assert(a + (v + (b + v + c)) =~= a + v + b + v + c);
    assert(vars.len() == 1);
    assert(vars[0] == (k, v));
    assert(render_prefix(tpl, vars, 0) == tpl);
    assert(render_prefix(tpl, vars, 1) == replace_seq(tpl, p, v));
}

/// The views of name/value pairs.
pub open spec fn pair_views(vars: Seq<(String, String)>) -> Seq<(Seq<char>, Seq<char>)> {
    vars.map_values(|p: (String, String)| (p.0@, p.1@))
}

/// Renders a template: each `{{key}}` of `vars` becomes its value, key by
/// key in the given order; placeholders of other names stay.
pub fn render_template(tpl: &str, vars: &Vec<(String, String)>) -> (r: Result<String, AppError>)
    ensures
        r is Ok,
        r->Ok_0@ == render_seq(tpl@, pair_views(vars@)),
{
    let mut out = to_chars(tpl);
    let mut k: usize = 0;
    while k < vars.len()
        invariant
            k <= vars.len(),
            out@ == render_prefix(tpl@, pair_views(vars@), k as nat),
        decreases vars.len() - k,
    {
        let mut pat: Vec<char> = Vec::new();
        pat.push('{');
        pat.push('{');
        let name = to_chars(vars[k].0.as_str());
        let mut j: usize = 0;
        while j < name.len()
            invariant
                j <= name.len(),
                pat@ == seq!['{', '{'] + name@.take(j as int),
            decreases name.len() - j,
        {
            pat.push(name[j]);
            assert(name@.take(j + 1) =~= name@.take(j as int).push(name@[j as int]));
            j = j + 1;
        }
        pat.push('}');
        pat.push('}');
        assert(name@.take(name.len() as int) =~= name@);
        assert(pat@ =~= placeholder(vars@[k as int].0@));
        let value = to_chars(vars[k].1.as_str());
        out = replace_chars(&out, &pat, &value);
        assert(pair_views(vars@)[k as int] == (vars@[k as int].0@, vars@[k as int].1@));
        k = k + 1;
    }
    Ok(from_chars(&out))
}

/// The first position `k >= from` where `pat` occurs in `s`.
pub open spec fn find_from(s: Seq<char>, pat: Seq<char>, from: int) -> Option<int>
    decreases s.len() - from,
{
    if from < 0 || from >= s.len() || from + pat.len() > s.len() {
        None
    } else if matches_at(s, pat, from) {
        Some(from)
    } else {
        find_from(s, pat, from + 1)
    }
}

proof fn lemma_find_from_bounds(s: Seq<char>, pat: Seq<char>, from: int)
    ensures
        find_from(s, pat, from) matches Some(k) ==> from <= k && matches_at(s, pat, k) && (forall|
            m: int,
        | from <= m < k ==> !matches_at(s, pat, m)),
        find_from(s, pat, from) is None && pat.len() > 0 ==> forall|m: int|
            from <= m && 0 <= from ==> !matches_at(s, pat, m),
    decreases s.len() - from,
{
    if from < 0 || from >= s.len() || from + pat.len() > s.len() {
    } else if matches_at(s, pat, from) {
    } else {
        lemma_find_from_bounds(s, pat, from + 1);
    }
}

/// The closing braces `}}`.
pub open spec fn close_braces() -> Seq<char> {
    seq!['}', '}']
}

/// Scans `s` from position `i`, adding to `acc` each new non-empty trimmed
/// name found between `{{` and the next `}}`.
pub open spec fn scan_vars(s: Seq<char>, i: int, acc: Seq<Seq<char>>) -> Seq<Seq<char>>
    decreases s.len() - i,
{
    if i < 0 || i + 1 >= s.len() {
        acc
    } else if s[i] == '{' && s[i + 1] == '{' && find_from(s, close_braces(), i + 2) is Some {
        let c = find_from(s, close_braces(), i + 2)->0;
        let name = trim_seq(s.subrange(i + 2, c));
        let acc2 = if name.len() > 0 && !acc.contains(name) {
            acc.push(name)
        } else {
            acc
        };
        if i < c + 2 <= s.len() {
            scan_vars(s, c + 2, acc2)
        } else {
            acc2
        }
    } else {
        scan_vars(s, i + 1, acc)
    }
}

/// The variable names of a template, in order, without repeats.
pub open spec fn template_vars(tpl: Seq<char>) -> Seq<Seq<char>> {
    scan_vars(tpl, 0, Seq::empty())
}

fn find_close(v: &[char], from: usize) -> (r: Option<usize>)
    requires
        from <= v.len(),
    ensures
        r matches Some(k) ==> find_from(v@, close_braces(), from as int) == Some(k as int),
        r is None ==> find_from(v@, close_braces(), from as int) is None,
{
    let pat: Vec<char> = vec!['}', '}'];
    assert(pat@ =~= close_braces());
    let mut k = from;
    while k < v.len() && v.len() - k >= 2
        invariant
            from <= k <= v.len(),
            pat@ == close_braces(),
            find_from(v@, close_braces(), from as int) == find_from(v@, close_braces(), k as int),
        decreases v.len() - k,
    {
        if matches_at_exec(v, &pat, k) {
            return Some(k);
        }
        k = k + 1;
    }
    None
}

fn contains_name(vars: &Vec<Vec<char>>, name: &[char]) -> (r: bool)
    ensures
        r == views(vars@).contains(name@),
{
    let ghost vs = views(vars@);
    let mut i: usize = 0;
    while i < vars.len()
        invariant
            i <= vars.len(),
            vs == views(vars@),
            forall|k: int| 0 <= k < i ==> vs[k] != name@,
        decreases vars.len() - i,
    {
        if chars_eq(vars[i].as_slice(), name) {
            assert(vs[i as int] == name@);
            return true;
        }
        i = i + 1;
    }
    false
}

/// Lists the `{{name}}` variables of a template: names are trimmed, empty
/// names skipped, repeats dropped, first appearance first.
pub fn extract_variables(tpl: &str) -> (r: Vec<String>)
    ensures
        string_views(r@) == template_vars(tpl@),
{
    let v = to_chars(tpl);
    let mut vars: Vec<Vec<char>> = Vec::new();
    let mut i: usize = 0;
    assert(views(vars@) =~= Seq::<Seq<char>>::empty());
    while i < v.len() && v.len() - i > 1
        invariant
            i <= v.len(),
            v@ == tpl@,
            scan_vars(v@, i as int, views(vars@)) == template_vars(tpl@),
        decreases v.len() - i,
    {
        if v[i] == '{' && v[i + 1] == '{' {
            let found = find_close(&v, i + 2);
            if let Some(c) = found {
                proof {
                    lemma_find_from_bounds(v@, close_braces(), i + 2);
                }
                let inner = sub_chars(&v, i + 2, c);
                let name = trim_chars(&inner);
                let ghost before = views(vars@);
                if name.len() > 0 && !contains_name(&vars, &name) {
                    vars.push(name);
                    assert(views(vars@) =~= before.push(
                        trim_seq(v@.subrange(i + 2, c as int)),
                    ));
                }
                i = c + 2;
                continue;
            }
        }
        i = i + 1;
    }
    to_strings(&vars)
}

/// Every extracted name occurs once: the list has no repeats.
pub proof fn lemma_template_vars_distinct(tpl: Seq<char>)
    ensures
        template_vars(tpl).no_duplicates(),
{
    lemma_scan_distinct(tpl, 0, Seq::empty());
}

proof fn lemma_scan_distinct(s: Seq<char>, i: int, acc: Seq<Seq<char>>)
    requires
        acc.no_duplicates(),
    ensures
        scan_vars(s, i, acc).no_duplicates(),
    decreases s.len() - i,
{
    if i < 0 || i + 1 >= s.len() {
    } else if s[i] == '{' && s[i + 1] == '{' && find_from(s, close_braces(), i + 2) is Some {
        let c = find_from(s, close_braces(), i + 2)->0;
        lemma_find_from_bounds(s, close_braces(), i + 2);
        let name = trim_seq(s.subrange(i + 2, c));
        if name.len() > 0 && !acc.contains(name) {
            let acc2 = acc.push(name);
            assert forall|a: int, b: int| 0 <= a < b < acc2.len() implies acc2[a] != acc2[b] by {
                assert(acc2[a] == acc[a]);
                if b == acc.len() {
                    assert(acc2[b] == name);
                    if acc[a] == name {
                        assert(acc.contains(name));
                    }
                } else {
                    assert(acc2[b] == acc[b]);
                }
            }
            lemma_scan_distinct(s, c + 2, acc2);
        } else {
            lemma_scan_distinct(s, c + 2, acc);
        }
    } else {
        lemma_scan_distinct(s, i + 1, acc);
    }
}

} // verus!
