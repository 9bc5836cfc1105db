//! Word frequencies for the word cloud.
//!
//! Words are the matches of `WORD_PATTERN` (two or more CJK ideographs, two
//! or more ASCII letters, or two or more digits).  Stop words are skipped and
//! purely alphabetic ASCII words are lower-cased before counting.
use vstd::prelude::*;

use crate::chars::{
    ascii_lower_chars, ascii_lower_seq, chars_eq, from_chars, is_ascii_alpha, join_seq, string_views,
    sub_chars, to_chars, views,
};
use crate::pattern::{find_all, regex_compiles, regex_find_all};
use crate::text::tally::{
    count_of, is_tally, lemma_count_of_bound, lemma_count_of_push, lemma_tally_keys_distinct,
    lemma_tally_unique, ranks_before, table_keys, tally, tally_view,
};

verus! {

/// The word pattern: CJK runs, ASCII letter runs or digit runs of length ≥ 2.
pub const WORD_PATTERN: &'static str = "[\\u4e00-\\u9fa5]{2,}|[A-Za-z]{2,}|\\d{2,}";

/// Frequent function words that are not counted.
pub open spec fn stop_words() -> Seq<&'static str> {
    seq![
        "的", "了", "是", "在", "我", "有", "和", "就", "不", "人", "都", "一", "上", "也", "很",
        "到", "说", "要", "去", "你", "会", "着", "没有", "看", "好", "自己", "这", "那", "它",
        "他", "她", "们", "什么", "怎么", "可以", "这个", "那个", "一个", "没有", "不是", "不要",
        "的话", "然后", "因为", "所以", "但是", "不过", "还是", "就是", "只是", "已经", "一下",
        "觉得", "知道", "现在", "这样", "那样", "怎么", "为什么", "其实", "可能", "应该", "或者",
    ]
}

fn stop_word_list() -> (r: Vec<&'static str>)
    ensures
        r@ == stop_words(),
{
    vec![
        "的", "了", "是", "在", "我", "有", "和", "就", "不", "人", "都", "一", "上", "也", "很",
        "到", "说", "要", "去", "你", "会", "着", "没有", "看", "好", "自己", "这", "那", "它",
        "他", "她", "们", "什么", "怎么", "可以", "这个", "那个", "一个", "没有", "不是", "不要",
        "的话", "然后", "因为", "所以", "但是", "不过", "还是", "就是", "只是", "已经", "一下",
        "觉得", "知道", "现在", "这样", "那样", "怎么", "为什么", "其实", "可能", "应该", "或者",
    ]
}

/// `w` is one of the stop words.
pub open spec fn is_stop(w: Seq<char>) -> bool {
    exists|i: int| 0 <= i < stop_words().len() && #[trigger] stop_words()[i]@ == w
}

/// Whether `word` is a stop word.
fn is_stop_word(word: &[char]) -> (r: bool)
    ensures
        r == is_stop(word@),
{
    let list = stop_word_list();
    let mut i: usize = 0;
    while i < list.len()
        invariant
            list@ == stop_words(),
            i <= list.len(),
            forall|k: int| 0 <= k < i ==> #[trigger] stop_words()[k]@ != word@,
        decreases list.len() - i,
    {
        let s = to_chars(list[i]);
        if chars_eq(&s, word) {
            return true;
        }
        i = i + 1;
    }
    false
}

/// The counting key of a word: lower-cased when it is made of ASCII letters only.
pub open spec fn word_key(w: Seq<char>) -> Seq<char> {
    if forall|i: int| 0 <= i < w.len() ==> is_ascii_alpha(#[trigger] w[i]) {
        ascii_lower_seq(w)
    } else {
        w
    }
}

fn word_key_exec(w: &[char]) -> (r: Vec<char>)
    ensures
        r@ == word_key(w@),
{
    let mut all = true;
    let mut i: usize = 0;
    while i < w.len()
        invariant
            i <= w.len(),
            all == forall|k: int| 0 <= k < i ==> is_ascii_alpha(#[trigger] w@[k]),
        decreases w.len() - i,
    {
        let u = w[i] as u32;
        let alpha = (65 <= u && u <= 90) || (97 <= u && u <= 122);
        if !alpha {
            assert(!is_ascii_alpha(w@[i as int]));
        }
        all = all && alpha;
        i = i + 1;
    }
    if all {
        ascii_lower_chars(w)
    } else {
        sub_chars(w, 0, w.len())
    }
}

/// The keys counted for a list of matched words: stop words skipped, the rest keyed.
pub open spec fn counted_keys(words: Seq<Seq<char>>) -> Seq<Seq<char>>
    decreases words.len(),
{
    if words.len() == 0 {
        Seq::empty()
    } else if is_stop(words.last()) {
        counted_keys(words.drop_last())
    } else {
        counted_keys(words.drop_last()).push(word_key(words.last()))
    }
}

/// The matches of the word pattern in `text` (none if the pattern did not compile).
pub open spec fn matched_words(text: Seq<char>) -> Seq<Seq<char>> {
    if regex_compiles(WORD_PATTERN@) {
        regex_find_all(WORD_PATTERN@, text)
    } else {
        Seq::empty()
    }
}

/// The keys counted in `text`.
pub open spec fn word_keys(text: Seq<char>) -> Seq<Seq<char>> {
    counted_keys(matched_words(text))
}

/// The keys counted in several texts, text after text.
pub open spec fn batch_keys(texts: Seq<&str>) -> Seq<Seq<char>>
    decreases texts.len(),
{
    if texts.len() == 0 {
        Seq::empty()
    } else {
        batch_keys(texts.drop_last()) + word_keys(texts.last()@)
    }
}

/// Characters of all texts plus one per text (a bound on the number of matches).
pub open spec fn batch_size(texts: Seq<&str>) -> nat
    decreases texts.len(),
{
    if texts.len() == 0 {
        0
    } else {
        batch_size(texts.drop_last()) + texts.last()@.len() + 1
    }
}

/// The matched words of `text`, as character vectors.
fn matches_of(text: &str) -> (r: Vec<Vec<char>>)
    ensures
        views(r@) == matched_words(text@),
        r.len() <= text@.len() + 1,
{
    match find_all(WORD_PATTERN, text) {
        Some(found) => {
            let mut out: Vec<Vec<char>> = Vec::new();
            let mut i: usize = 0;
            while i < found.len()
                invariant
                    i <= found.len(),
                    views(out@) == found@.map_values(|s: String| s@).take(i as int),
                decreases found.len() - i,
            {
                let ghost old = out@;
                let v = to_chars(found[i].as_str());
                out.push(v);
                assert(views(out@) =~= views(old).push(found@[i as int]@));
                assert(views(out@) =~= found@.map_values(|s: String| s@).take(i + 1));
                i = i + 1;
            }
            assert(found@.map_values(|s: String| s@).take(found.len() as int) =~= found@.map_values(
                |s: String| s@,
            ));
            out
        },
        None => Vec::new(),
    }
}

/// Appends the keys of `words` to `keys`.
fn push_keys(keys: &mut Vec<Vec<char>>, words: &Vec<Vec<char>>)
    ensures
        views(final(keys)@) == views(old(keys)@) + counted_keys(views(words@)),
        final(keys).len() <= old(keys).len() + words.len(),
{
    let mut i: usize = 0;
    assert(views(words@).take(0) =~= Seq::<Seq<char>>::empty());
    while i < words.len()
        invariant
            i <= words.len(),
            views(keys@) == views(old(keys)@) + counted_keys(views(words@).take(i as int)),
            keys.len() <= old(keys).len() + i,
        decreases words.len() - i,
    {
        assert(views(words@).take(i + 1).drop_last() =~= views(words@).take(i as int));
        assert(views(words@).take(i + 1).last() == words@[i as int]@);
        if !is_stop_word(words[i].as_slice()) {
            let ghost old = keys@;
            let k = word_key_exec(words[i].as_slice());
            let ghost kv = k@;
            keys.push(k);
            assert(views(keys@) =~= views(old).push(kv));
        }
        i = i + 1;
    }
    assert(views(words@).take(words.len() as int) =~= views(words@));
}

fn keys_of(text: &str) -> (r: Vec<Vec<char>>)
    ensures
        views(r@) == word_keys(text@),
        r.len() <= text@.len() + 1,
{
    let words = matches_of(text);
    let mut keys: Vec<Vec<char>> = Vec::new();
    push_keys(&mut keys, &words);
    assert(views(keys@) =~= word_keys(text@));
    keys
}

/// Counts the words of `text`: one `(word, count)` pair per distinct word,
/// by descending count and then ascending word.
pub fn count_words(text: &str) -> (r: Vec<(String, u32)>)
    requires
        text@.len() < u32::MAX,
    ensures
        is_tally(tally_view(r@), word_keys(text@)),
{
    let keys = keys_of(text);
    tally(&keys)
}

/// Counts the words of several texts together (as `count_words` does for one).
pub fn count_words_batch(texts: &[&str]) -> (r: Vec<(String, u32)>)
    requires
        batch_size(texts@) <= u32::MAX,
    ensures
        is_tally(tally_view(r@), batch_keys(texts@)),
{
    let mut keys: Vec<Vec<char>> = Vec::new();
    let mut i: usize = 0;
    while i < texts.len()
        invariant
            i <= texts.len(),
            views(keys@) == batch_keys(texts@.take(i as int)),
            keys.len() <= batch_size(texts@.take(i as int)),
            batch_size(texts@) <= u32::MAX,
        decreases texts.len() - i,
    {
        assert(texts@.take(i + 1).drop_last() =~= texts@.take(i as int));
        assert(texts@.take(i + 1).last() == texts@[i as int]);
        let words = matches_of(texts[i]);
        let ghost before = views(keys@);
        push_keys(&mut keys, &words);
        assert(views(keys@) =~= before + word_keys(texts@[i as int]@));
        proof {
            lemma_batch_size_prefix(texts@, i as int + 1);
        }
        i = i + 1;
    }
    assert(texts@.take(texts.len() as int) =~= texts@);
    tally(&keys)
}

proof fn lemma_batch_size_prefix(texts: Seq<&str>, n: int)
    requires
        0 <= n <= texts.len(),
    ensures
        batch_size(texts.take(n)) <= batch_size(texts),
    decreases texts.len() - n,
{
    if n < texts.len() {
        lemma_batch_size_prefix(texts, n + 1);
        assert(texts.take(n + 1).drop_last() =~= texts.take(n));
    } else {
        assert(texts.take(n) =~= texts);
    }
}

/// `s` with repeated elements removed, first occurrences kept in order.
pub open spec fn dedup_seq(s: Seq<Seq<char>>) -> Seq<Seq<char>>
    decreases s.len(),
{
    if s.len() == 0 {
        Seq::empty()
    } else if dedup_seq(s.drop_last()).contains(s.last()) {
        dedup_seq(s.drop_last())
    } else {
        dedup_seq(s.drop_last()).push(s.last())
    }
}

/// The distinct words of `text`, in order of first appearance (for storing
/// word frequencies).
pub fn extract_words(text: &str) -> (r: Vec<String>)
    ensures
        string_views(r@) == dedup_seq(word_keys(text@)),
{
    let keys = keys_of(text);
    let mut out: Vec<Vec<char>> = Vec::new();
    let mut i: usize = 0;
    while i < keys.len()
        invariant
            i <= keys.len(),
            views(out@) == dedup_seq(views(keys@).take(i as int)),
        decreases keys.len() - i,
    {
        let ghost pre = views(keys@).take(i as int);
        assert(views(keys@).take(i + 1).drop_last() =~= pre);
        assert(views(keys@).take(i + 1).last() == keys@[i as int]@);
        let mut seen = false;
        let mut j: usize = 0;
        while j < out.len()
            invariant
                j <= out.len(),
                seen == exists|k: int| 0 <= k < j && #[trigger] out@[k]@ == keys@[i as int]@,
                i < keys.len(),
            decreases out.len() - j,
        {
            if chars_eq(out[j].as_slice(), keys[i].as_slice()) {
                seen = true;
            }
            j = j + 1;
        }
        proof {
            if seen {
                let k = choose|k: int| 0 <= k < out.len() && #[trigger] out@[k]@ == keys@[i as int]@;
                assert(views(out@)[k] == keys@[i as int]@);
            } else {
                if views(out@).contains(keys@[i as int]@) {
                    let k = choose|k: int| 0 <= k < views(out@).len() && views(out@)[k] == keys@[i as int]@;
                    assert(out@[k]@ == keys@[i as int]@);
                }
            }
        }
        if !seen {
            let ghost old = views(out@);
            out.push(keys[i].clone());
            assert(views(out@) =~= old.push(keys@[i as int]@));
        }
        i = i + 1;
    }
    assert(views(keys@).take(keys.len() as int) =~= views(keys@));
    let mut res: Vec<String> = Vec::new();
    let mut x: usize = 0;
    while x < out.len()
        invariant
            x <= out.len(),
            string_views(res@) == views(out@).take(x as int),
        decreases out.len() - x,
    {
        let ghost old = string_views(res@);
        let s = from_chars(out[x].as_slice());
        let ghost sv = s@;
        res.push(s);
        assert(string_views(res@) =~= old.push(sv));
        assert(string_views(res@) =~= views(out@).take(x + 1));
        x = x + 1;
    }
    assert(views(out@).take(out.len() as int) =~= views(out@));
    res
}

/// Number of distinct words of `text`.
pub fn count_unique_words(text: &str) -> (r: usize)
    ensures
        r == dedup_seq(word_keys(text@)).len(),
{
    let words = extract_words(text);
    words.len()
}

/// Whether `text` holds at least one word that is not a stop word.
pub fn has_words(text: &str) -> (r: bool)
    ensures
        r == exists|i: int|
            0 <= i < matched_words(text@).len() && !is_stop(#[trigger] matched_words(text@)[i]),
{
    let words = matches_of(text);
    let mut i: usize = 0;
    while i < words.len()
        invariant
            i <= words.len(),
            views(words@) == matched_words(text@),
            forall|k: int| 0 <= k < i ==> is_stop(#[trigger] matched_words(text@)[k]),
        decreases words.len() - i,
    {
        assert(views(words@)[i as int] == words@[i as int]@);
        if !is_stop_word(words[i].as_slice()) {
            return true;
        }
        i = i + 1;
    }
    false
}

/// Number of words of `words` that are not stop words.
pub open spec fn non_stop_count(words: Seq<Seq<char>>) -> nat
    decreases words.len(),
{
    if words.len() == 0 {
        0
    } else if is_stop(words.last()) {
        non_stop_count(words.drop_last())
    } else {
        non_stop_count(words.drop_last()) + 1
    }
}

/// The sum of the counts of a frequency table.
pub open spec fn tally_total(res: Seq<(Seq<char>, u32)>) -> nat
    decreases res.len(),
{
    if res.len() == 0 {
        0
    } else {
        tally_total(res.drop_last()) + res.last().1 as nat
    }
}

/// The occurrences in `keys` of the words of `d`, added up.
spec fn sum_counts(d: Seq<Seq<char>>, keys: Seq<Seq<char>>) -> nat
    decreases d.len(),
{
    if d.len() == 0 {
        0
    } else {
        sum_counts(d.drop_last(), keys) + count_of(keys, d.last())
    }
}

spec fn distinct(d: Seq<Seq<char>>) -> bool {
    forall|i: int, j: int| 0 <= i < j < d.len() ==> d[i] != d[j]
}

proof fn lemma_counted_len(words: Seq<Seq<char>>)
    ensures
        counted_keys(words).len() == non_stop_count(words),
        non_stop_count(words) > 0 <==> exists|i: int|
            0 <= i < words.len() && !is_stop(#[trigger] words[i]),
    decreases words.len(),
{
    if words.len() > 0 {
        let p = words.drop_last();
        lemma_counted_len(p);
        if exists|i: int| 0 <= i < p.len() && !is_stop(#[trigger] p[i]) {
            let i = choose|i: int| 0 <= i < p.len() && !is_stop(#[trigger] p[i]);
            assert(words[i] == p[i]);
        }
        if exists|i: int| 0 <= i < words.len() && !is_stop(#[trigger] words[i]) {
            let i = choose|i: int| 0 <= i < words.len() && !is_stop(#[trigger] words[i]);
            if i < p.len() {
                assert(p[i] == words[i]);
            }
        }
        if !is_stop(words.last()) {
            assert(!is_stop(words[words.len() - 1]));
        }
    }
}

proof fn lemma_dedup_contains(s: Seq<Seq<char>>, x: Seq<char>)
    ensures
        dedup_seq(s).contains(x) <==> s.contains(x),
    decreases s.len(),
{
    if s.len() > 0 {
        let p = s.drop_last();
        lemma_dedup_contains(p, x);
        lemma_dedup_contains(p, s.last());
        let d = dedup_seq(p);
        if s.contains(x) {
            let i = choose|i: int| 0 <= i < s.len() && s[i] == x;
            if i < p.len() {
                assert(p[i] == x);
            } else {
                assert(x == s.last());
                if !d.contains(x) {
                    assert(d.push(x)[d.len() as int] == x);
                }
            }
        }
        if dedup_seq(s).contains(x) {
            if d.contains(x) {
                let i = choose|i: int| 0 <= i < p.len() && p[i] == x;
                assert(s[i] == x);
            } else {
                let i = choose|i: int| 0 <= i < dedup_seq(s).len() && dedup_seq(s)[i] == x;
                if i < d.len() {
                    assert(d.push(s.last())[i] == d[i]);
                }
                assert(s[s.len() - 1] == x);
            }
        }
        if d.contains(x) && !d.contains(s.last()) {
            let i = choose|i: int| 0 <= i < d.len() && d[i] == x;
            assert(d.push(s.last())[i] == x);
        }
    }
}

proof fn lemma_sum_counts_empty(d: Seq<Seq<char>>)
    ensures
        sum_counts(d, Seq::empty()) == 0,
    decreases d.len(),
{
    if d.len() > 0 {
        lemma_sum_counts_empty(d.drop_last());
    }
}

proof fn lemma_sum_counts_push(d: Seq<Seq<char>>, keys: Seq<Seq<char>>, x: Seq<char>)
    ensures
        sum_counts(d, keys.push(x)) == sum_counts(d, keys) + count_of(d, x),
    decreases d.len(),
{
    if d.len() > 0 {
        lemma_sum_counts_push(d.drop_last(), keys, x);
        lemma_count_of_push(keys, x, d.last());
        assert(d.drop_last().push(d.last()) =~= d);
        lemma_count_of_push(d.drop_last(), d.last(), x);
    }
}

proof fn lemma_count_distinct(d: Seq<Seq<char>>, x: Seq<char>)
    requires
        distinct(d),
        d.contains(x),
    ensures
        count_of(d, x) == 1,
    decreases d.len(),
{
    let p = d.drop_last();
    assert(distinct(p)) by {
        assert forall|i: int, j: int| 0 <= i < j < p.len() implies p[i] != p[j] by {
            assert(p[i] == d[i] && p[j] == d[j]);
        }
    }
    lemma_count_of_push(p, d.last(), x);
    assert(p.push(d.last()) =~= d);
    if d.last() == x {
        if p.contains(x) {
            let i = choose|i: int| 0 <= i < p.len() && p[i] == x;
            assert(d[i] == d[d.len() - 1]);
        }
        lemma_count_of_bound(p, x);
    } else {
        let i = choose|i: int| 0 <= i < d.len() && d[i] == x;
        assert(i < p.len());
        assert(p[i] == x);
        lemma_count_distinct(p, x);
    }
}

/// Over a list of distinct words that names every key, the occurrences add
/// up to the number of keys.
proof fn lemma_sum_counts_total(d: Seq<Seq<char>>, keys: Seq<Seq<char>>)
    requires
        distinct(d),
        forall|k: Seq<char>| #[trigger] keys.contains(k) ==> d.contains(k),
    ensures
        sum_counts(d, keys) == keys.len(),
    decreases keys.len(),
{
    if keys.len() == 0 {
        assert(keys =~= Seq::<Seq<char>>::empty());
        lemma_sum_counts_empty(d);
    } else {
        let p = keys.drop_last();
        assert forall|k: Seq<char>| #[trigger] p.contains(k) implies d.contains(k) by {
            let i = choose|i: int| 0 <= i < p.len() && p[i] == k;
            assert(keys[i] == k);
            assert(keys.contains(k));
        }
        lemma_sum_counts_total(d, p);
        assert(p.push(keys.last()) =~= keys);
        lemma_sum_counts_push(d, p, keys.last());
        assert(keys.contains(keys[keys.len() - 1]));
        lemma_count_distinct(d, keys.last());
    }
}

proof fn lemma_tally_total_sum(res: Seq<(Seq<char>, u32)>, keys: Seq<Seq<char>>)
    requires
        forall|i: int| 0 <= i < res.len() ==> #[trigger] count_of(keys, res[i].0) == res[i].1,
    ensures
        tally_total(res) == sum_counts(table_keys(res), keys),
    decreases res.len(),
{
    if res.len() > 0 {
        let p = res.drop_last();
        assert forall|i: int| 0 <= i < p.len() implies #[trigger] count_of(keys, p[i].0) == p[i].1 by {
            assert(p[i] == res[i]);
        }
        lemma_tally_total_sum(p, keys);
        assert(table_keys(res).drop_last() =~= table_keys(p));
        assert(count_of(keys, res[res.len() - 1].0) == res[res.len() - 1].1);
    }
}

/// `has_words` is true exactly when `extract_words` finds a word.
pub proof fn lemma_has_words_iff_extract(text: Seq<char>)
    ensures
        (exists|i: int|
            0 <= i < matched_words(text).len() && !is_stop(#[trigger] matched_words(text)[i]))
            <==> dedup_seq(word_keys(text)).len() > 0,
{
    let w = matched_words(text);
    let k = word_keys(text);
    lemma_counted_len(w);
    if k.len() > 0 {
        lemma_dedup_contains(k, k[0]);
        assert(k.contains(k[0]));
    }
}

/// What `count_words` gives: each distinct word of `extract_words` once,
/// with a count of at least one, ranked by count and then word, and the
/// counts add up to the number of matched words that are not stop words.
pub proof fn lemma_count_words_summary(text: Seq<char>, res: Seq<(Seq<char>, u32)>)
    requires
        is_tally(res, word_keys(text)),
    ensures
        forall|w: Seq<char>| #[trigger] table_keys(res).contains(w) <==> dedup_seq(
            word_keys(text),
        ).contains(w),
        forall|i: int| 0 <= i < res.len() ==> #[trigger] res[i].1 >= 1,
        forall|i: int, j: int| 0 <= i < j < res.len() ==> ranks_before(res[i], res[j]),
        tally_total(res) == non_stop_count(matched_words(text)),
{
    let keys = word_keys(text);
    let d = table_keys(res);
    lemma_counted_len(matched_words(text));
    lemma_tally_keys_distinct(res, keys);
    assert(distinct(d)) by {
        assert forall|i: int, j: int| 0 <= i < j < d.len() implies d[i] != d[j] by {
            assert(d[i] == res[i].0 && d[j] == res[j].0);
        }
    }
    assert forall|w: Seq<char>| #[trigger] d.contains(w) <==> dedup_seq(keys).contains(w) by {
        lemma_dedup_contains(keys, w);
        if d.contains(w) {
            let i = choose|i: int| 0 <= i < d.len() && d[i] == w;
            assert(d[i] == res[i].0);
            assert(count_of(keys, res[i].0) == res[i].1);
            assert(res[i].1 >= 1);
            lemma_count_of_bound(keys, w);
        }
        if keys.contains(w) {
            let i = choose|i: int| 0 <= i < res.len() && #[trigger] res[i].0 == w;
            assert(d[i] == w);
        }
    }
    assert forall|k: Seq<char>| #[trigger] keys.contains(k) implies d.contains(k) by {
        let i = choose|i: int| 0 <= i < res.len() && #[trigger] res[i].0 == k;
        assert(d[i] == k);
    }
    lemma_sum_counts_total(d, keys);
    lemma_tally_total_sum(res, keys);
}

/// The texts as character sequences.
pub open spec fn text_views(texts: Seq<&str>) -> Seq<Seq<char>> {
    texts.map_values(|t: &str| t@)
}

/// The word matches of each text, text after text.
pub open spec fn batch_matches(texts: Seq<&str>) -> Seq<Seq<char>>
    decreases texts.len(),
{
    if texts.len() == 0 {
        Seq::empty()
    } else {
        batch_matches(texts.drop_last()) + matched_words(texts.last()@)
    }
}

proof fn lemma_counted_keys_concat(a: Seq<Seq<char>>, b: Seq<Seq<char>>)
    ensures
        counted_keys(a + b) == counted_keys(a) + counted_keys(b),
    decreases b.len(),
{
    if b.len() == 0 {
        assert(a + b =~= a);
        assert(counted_keys(a) + counted_keys(b) =~= counted_keys(a));
    } else {
        lemma_counted_keys_concat(a, b.drop_last());
        assert((a + b).drop_last() =~= a + b.drop_last());
        assert((a + b).last() == b.last());
        if !is_stop(b.last()) {
            assert(counted_keys(a) + counted_keys(b.drop_last()).push(word_key(b.last())) =~= (
            counted_keys(a) + counted_keys(b.drop_last())).push(word_key(b.last())));
        }
    }
}

proof fn lemma_batch_keys_matches(texts: Seq<&str>)
    ensures
        batch_keys(texts) == counted_keys(batch_matches(texts)),
    decreases texts.len(),
{
    if texts.len() == 0 {
        assert(counted_keys(Seq::<Seq<char>>::empty()) =~= Seq::<Seq<char>>::empty());
    } else {
        lemma_batch_keys_matches(texts.drop_last());
        lemma_counted_keys_concat(batch_matches(texts.drop_last()), matched_words(texts.last()@));
    }
}

/// Counting several texts together equals counting them joined by spaces,
/// whenever the word matches of the joined text are the matches of each
/// text in turn (no word runs across a joining space).
pub proof fn lemma_batch_is_joined(
    texts: Seq<&str>,
    batch: Seq<(Seq<char>, u32)>,
    joined: Seq<(Seq<char>, u32)>,
)
    requires
        matched_words(join_seq(text_views(texts), seq![' '])) == batch_matches(texts),
        is_tally(batch, batch_keys(texts)),
        is_tally(joined, word_keys(join_seq(text_views(texts), seq![' ']))),
    ensures
        batch == joined,
{
    lemma_batch_keys_matches(texts);
    lemma_tally_unique(batch, joined, batch_keys(texts));
}

/// The word list never names a word twice.
pub proof fn lemma_dedup_distinct(s: Seq<Seq<char>>)
    ensures
        forall|i: int, j: int| 0 <= i < j < dedup_seq(s).len() ==> dedup_seq(s)[i] != dedup_seq(s)[j],
    decreases s.len(),
{
    if s.len() > 0 {
        lemma_dedup_distinct(s.drop_last());
        let d = dedup_seq(s.drop_last());
        if !d.contains(s.last()) {
            let e = d.push(s.last());
            assert forall|i: int, j: int| 0 <= i < j < e.len() implies e[i] != e[j] by {
                if j == d.len() {
                    if e[i] == e[j] {
                        assert(d[i] == s.last());
                    }
                } else {
                    assert(e[i] == d[i] && e[j] == d[j]);
                }
            }
        }
    }
}

} // verus!
