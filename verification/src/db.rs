//! Records of the local database and the decisions around its queries:
//! the SQL of the filtered listings, word import, schema migrations, tags
//! and which settings are stored encrypted.
use vstd::prelude::*;

use crate::chars::{
    chars_eq, chars_lt, concat, concat3, ends_with_seq, from_chars, lemma_seq_lt_asymmetric,
    lemma_seq_lt_irreflexive, lemma_seq_lt_total, lemma_seq_lt_transitive, seq_lt, split_chars,
    split_seq, string_views, to_chars, trim_chars, trim_seq, trim_str, u64_to_string, views,
    decimal_seq,
};
use crate::config::{parse_u32_spec, parse_u32};

verus! {

/// One generated reply that was typed.
#[derive(Debug, Clone)]
pub struct HistoryEntry {
    pub id: Option<i64>,
    pub origin: String,
    pub selected: String,
    pub prompt_name: String,
    pub model: String,
    pub created_at: String,
}

/// Paging and search of the history list.
#[derive(Debug, Clone)]
pub struct HistoryFilter {
    pub search: Option<String>,
    pub limit: u32,
    pub offset: u32,
}

/// What is recorded when a reply is typed.
#[derive(Debug, Clone)]
pub struct HistoryRecord {
    pub origin: String,
    pub selected: String,
    pub prompt_name: String,
    pub model: String,
}

/// A schema migration.
#[derive(Debug)]
pub struct Migration {
    pub version: u32,
    pub name: &'static str,
    pub up_sql: &'static str,
}

/// A prompt template.
#[derive(Debug, Clone)]
pub struct PromptTemplate {
    pub id: Option<i64>,
    pub name: String,
    pub template: String,
    pub is_default: bool,
    pub tags: String,
    pub created_at: String,
    pub updated_at: String,
}

/// Position, size and pinning of a window.
#[derive(Debug, Clone, Copy, PartialEq, Eq)]
pub struct WindowState {
    pub x: i32,
    pub y: i32,
    pub w: u32,
    pub h: u32,
    pub always_on_top: bool,
}

/// How often a word was used.
#[derive(Debug, Clone)]
pub struct WordFreqEntry {
    pub word: String,
    pub count: i64,
    pub last_used_at: Option<String>,
}

/// An entry of the user's word list.
#[derive(Debug, Clone)]
pub struct WordEntry {
    pub id: Option<i64>,
    pub word: String,
    pub category: String,
    pub enabled: bool,
    pub created_at: String,
    pub updated_at: String,
}

/// The outcome of a word import.
#[derive(Debug, Clone)]
pub struct BatchResult {
    pub imported: u32,
    pub skipped: u32,
    pub errors: Vec<String>,
}

/// Search of the word list.
#[derive(Debug, Clone)]
pub struct WordFilter {
    pub search: Option<String>,
    pub category: Option<String>,
    pub enabled_only: bool,
}

/// A bound parameter of a query.
#[derive(Debug, Clone, PartialEq, Eq)]
pub enum SqlParam {
    Text(String),
    Int(i64),
}

/// A query with its parameters, in placeholder order.
#[derive(Debug, Clone)]
pub struct SqlQuery {
    pub sql: String,
    pub params: Vec<SqlParam>,
}

/// The longest page of history or word-frequency results.
pub const MAX_PAGE: u32 = 500;

/// The key under which the schema version is stored.
pub const SCHEMA_VERSION_KEY: &'static str = "schema_version";

/// The schema version this code writes.
pub const LATEST_VERSION: u32 = 2;

/// The `LIKE` pattern of a search text.
pub open spec fn like_pattern(search: Seq<char>) -> Seq<char> {
    seq!['%'] + search + seq!['%']
}

fn like(search: &str) -> (r: String)
    ensures
        r@ == like_pattern(search@),
{
    proof {
        reveal_strlit("%");
    }
    let r = concat3("%", search, "%");
    assert("%"@ =~= seq!['%']);
    r
}

/// The effective search of a filter: a non-empty search text.
pub open spec fn active_search(search: Option<String>) -> Option<Seq<char>> {
    match search {
        Some(s) => if s@.len() > 0 {
            Some(s@)
        } else {
            None
        },
        None => None,
    }
}

/// The view of an optional text.
pub open spec fn opt_view(o: Option<String>) -> Option<Seq<char>> {
    match o {
        Some(s) => Some(s@),
        None => None,
    }
}

/// The views of query parameters.
pub open spec fn param_view(p: SqlParam) -> (bool, Seq<char>, i64) {
    match p {
        SqlParam::Text(s) => (true, s@, 0),
        SqlParam::Int(n) => (false, Seq::empty(), n),
    }
}

/// The parameter views of a list.
pub open spec fn params_view(ps: Seq<SqlParam>) -> Seq<(bool, Seq<char>, i64)> {
    ps.map_values(|p: SqlParam| param_view(p))
}

/// The history page query: newest first, optionally searching origin and
/// reply text, at most 500 rows.
pub open spec fn history_list_sql(search: Option<Seq<char>>) -> Seq<char> {
    let base = "SELECT id, origin, selected, prompt_name, model, created_at FROM history WHERE 1=1"@;
    let with_search = match search {
        Some(_) => base + " AND (origin LIKE ? OR selected LIKE ?) COLLATE NOCASE"@,
        None => base,
    };
    with_search + " ORDER BY created_at DESC, id DESC LIMIT ? OFFSET ?"@
}

/// The parameters of the history page query.
pub open spec fn history_list_params(search: Option<Seq<char>>, limit: u32, offset: u32) -> Seq<
    (bool, Seq<char>, i64),
> {
    let l = (if limit > MAX_PAGE {
        MAX_PAGE
    } else {
        limit
    }) as i64;
    match search {
        Some(s) => seq![
            (true, like_pattern(s), 0i64),
            (true, like_pattern(s), 0i64),
            (false, Seq::empty(), l),
            (false, Seq::empty(), offset as i64),
        ],
        None => seq![(false, Seq::empty(), l), (false, Seq::empty(), offset as i64)],
    }
}

/// Builds the history page query of a filter; the page size is capped at 500.
pub fn history_list_query(filter: &HistoryFilter) -> (r: SqlQuery)
    ensures
        r.sql@ == history_list_sql(active_search(filter.search)),
        params_view(r.params@) == history_list_params(
            active_search(filter.search),
            filter.limit,
            filter.offset,
        ),
{
    let limit: u32 = if filter.limit > MAX_PAGE {
        MAX_PAGE
    } else {
        filter.limit
    };
    let mut sql = "SELECT id, origin, selected, prompt_name, model, created_at FROM history WHERE 1=1".to_owned();
    let mut params: Vec<SqlParam> = Vec::new();
    let ghost s0 = sql@;
    let mut searching = false;
    match &filter.search {
        Some(s) => {
            if !s.as_str().is_empty() {
                crate::chars::push_str(&mut sql, " AND (origin LIKE ? OR selected LIKE ?) COLLATE NOCASE");
                let p = like(s.as_str());
                params.push(SqlParam::Text(p.clone()));
                params.push(SqlParam::Text(p));
                searching = true;
            }
        },
        None => {},
    }
    crate::chars::push_str(&mut sql, " ORDER BY created_at DESC, id DESC LIMIT ? OFFSET ?");
    params.push(SqlParam::Int(limit as i64));
    params.push(SqlParam::Int(filter.offset as i64));
    proof {
        let s = active_search(filter.search);
        assert(params_view(params@) =~= history_list_params(s, filter.limit, filter.offset)) by {
            if searching {
                assert(params@.len() == 4);
            }
        }
    }
    SqlQuery { sql, params }
}

/// The history count query, with the same search as the listing.
pub open spec fn history_count_sql(search: Option<Seq<char>>) -> Seq<char> {
    let base = "SELECT COUNT(*) FROM history WHERE 1=1"@;
    match search {
        Some(_) => base + " AND (origin LIKE ? OR selected LIKE ?) COLLATE NOCASE"@,
        None => base,
    }
}

/// Builds the history count query for an optional search text.
pub fn history_count_query(search: Option<&str>) -> (r: SqlQuery)
    ensures
        r.sql@ == history_count_sql(match search {
            Some(s) => if s@.len() > 0 {
                Some(s@)
            } else {
                None
            },
            None => None,
        }),
        params_view(r.params@) == (match search {
            Some(s) => if s@.len() > 0 {
                seq![(true, like_pattern(s@), 0i64), (true, like_pattern(s@), 0i64)]
            } else {
                Seq::empty()
            },
            None => Seq::empty(),
        }),
{
    let mut sql = "SELECT COUNT(*) FROM history WHERE 1=1".to_owned();
    let mut params: Vec<SqlParam> = Vec::new();
    match search {
        Some(s) => {
            if !s.is_empty() {
                crate::chars::push_str(&mut sql, " AND (origin LIKE ? OR selected LIKE ?) COLLATE NOCASE");
                let p = like(s);
                params.push(SqlParam::Text(p.clone()));
                params.push(SqlParam::Text(p));
                assert(params_view(params@) =~= seq![
                    (true, like_pattern(s@), 0i64),
                    (true, like_pattern(s@), 0i64),
                ]);
            } else {
                assert(params_view(params@) =~= Seq::empty());
            }
        },
        None => {
            assert(params_view(params@) =~= Seq::empty());
        },
    }
    SqlQuery { sql, params }
}

/// The word list query: optional case-insensitive search, optional
/// category (when not empty), optionally enabled words only; by category,
/// newest first within a category.
pub open spec fn word_list_sql(search: Option<Seq<char>>, category: Option<Seq<char>>, enabled_only: bool) -> Seq<char> {
    let base = "SELECT id, word, category, enabled, created_at, updated_at FROM words WHERE 1=1"@;
    let a = match search {
        Some(_) => base + " AND word LIKE ? COLLATE NOCASE"@,
        None => base,
    };
    let b = match category {
        Some(c) => if c.len() > 0 {
            a + " AND category = ?"@
        } else {
            a
        },
        None => a,
    };
    let c = if enabled_only {
        b + " AND enabled = 1"@
    } else {
        b
    };
    c + " ORDER BY category ASC, id DESC"@
}

/// The parameters of the word list query.
pub open spec fn word_list_params(search: Option<Seq<char>>, category: Option<Seq<char>>) -> Seq<(bool, Seq<char>, i64)> {
    let a: Seq<(bool, Seq<char>, i64)> = match search {
        Some(s) => seq![(true, like_pattern(s), 0i64)],
        None => Seq::empty(),
    };
    match category {
        Some(c) => if c.len() > 0 {
            a.push((true, c, 0i64))
        } else {
            a
        },
        None => a,
    }
}

/// Builds the word list query of a filter.
pub fn word_list_query(filter: &WordFilter) -> (r: SqlQuery)
    ensures
        r.sql@ == word_list_sql(
            opt_view(filter.search),
            opt_view(filter.category),
            filter.enabled_only,
        ),
        params_view(r.params@) == word_list_params(
            opt_view(filter.search),
            opt_view(filter.category),
        ),
{
    let mut sql = "SELECT id, word, category, enabled, created_at, updated_at FROM words WHERE 1=1".to_owned();
    let mut params: Vec<SqlParam> = Vec::new();
    let ghost ss = opt_view(filter.search);
    match &filter.search {
        Some(s) => {
            crate::chars::push_str(&mut sql, " AND word LIKE ? COLLATE NOCASE");
            params.push(SqlParam::Text(like(s.as_str())));
        },
        None => {},
    }
    let ghost pa = params_view(params@);
    assert(pa =~= (match ss {
        Some(s) => seq![(true, like_pattern(s), 0i64)],
        None => Seq::<(bool, Seq<char>, i64)>::empty(),
    }));
    match &filter.category {
        Some(c) => {
            if !c.as_str().is_empty() {
                crate::chars::push_str(&mut sql, " AND category = ?");
                params.push(SqlParam::Text(c.clone()));
                assert(params_view(params@) =~= pa.push((true, c@, 0i64)));
            }
        },
        None => {},
    }
    if filter.enabled_only {
        crate::chars::push_str(&mut sql, " AND enabled = 1");
    }
    crate::chars::push_str(&mut sql, " ORDER BY category ASC, id DESC");
    SqlQuery { sql, params }
}

/// The page size of the word-frequency ranking (at most 500).
pub fn top_limit(limit: u32) -> (r: i64)
    ensures
        r == (if limit > MAX_PAGE {
            MAX_PAGE
        } else {
            limit
        }),
{
    if limit > MAX_PAGE {
        MAX_PAGE as i64
    } else {
        limit as i64
    }
}

/// What to do with one line of a word import.
#[derive(Debug)]
pub enum ImportStep {
    /// The word is blank: skip it.
    Skip,
    /// Look the trimmed word and category up, and insert them if absent.
    Check { word: String, category: String },
}

/// The first step for one import line: blank words are skipped, others are
/// checked with their trimmed word and category.
pub fn import_step(word: &str, category: &str) -> (r: ImportStep)
    ensures
        trim_seq(word@).len() == 0 ==> r is Skip,
        trim_seq(word@).len() > 0 ==> (r matches ImportStep::Check { word: w, category: c } && w@
            == trim_seq(word@) && c@ == trim_seq(category@)),
{
    let w = trim_str(word);
    if w.as_str().is_empty() {
        ImportStep::Skip
    } else {
        ImportStep::Check { word: w, category: trim_str(category) }
    }
}

impl BatchResult {
    /// Nothing imported yet.
    pub fn new() -> (r: BatchResult)
        ensures
            r.imported == 0,
            r.skipped == 0,
            r.errors@.len() == 0,
    {
        BatchResult { imported: 0, skipped: 0, errors: Vec::new() }
    }

    /// Counts a skipped line (blank, or already present).
    pub fn skip(&mut self)
        requires
            old(self).skipped < u32::MAX,
        ensures
            final(self).skipped == old(self).skipped + 1,
            final(self).imported == old(self).imported,
            final(self).errors@ == old(self).errors@,
    {
        self.skipped = self.skipped + 1;
    }

    /// Counts the outcome of an insert of line `index` (from 0): an import,
    /// or the message `第 {index+1} 行「{word}」导入失败: {error}`.
    pub fn record_insert(&mut self, index: usize, word: &str, outcome: Result<(), String>)
        requires
            old(self).imported < u32::MAX,
            index < usize::MAX,
        ensures
            outcome is Ok ==> final(self).imported == old(self).imported + 1 && final(self).errors@
                == old(self).errors@,
            outcome matches Err(e) ==> final(self).imported == old(self).imported
                && final(self).errors@.len() == old(self).errors@.len() + 1
                && final(self).errors@.drop_last() == old(self).errors@
                && final(self).errors@.last()@ == "第 "@ + decimal_seq((index + 1) as nat) + " 行「"@
                + word@ + "」导入失败: "@ + e@,
            final(self).skipped == old(self).skipped,
    {
        match outcome {
            Ok(()) => {
                self.imported = self.imported + 1;
            },
            Err(e) => {
                let n = u64_to_string((index + 1) as u64);
                let mut m = concat3("第 ", n.as_str(), " 行「");
                crate::chars::push_str(&mut m, word);
                crate::chars::push_str(&mut m, "」导入失败: ");
                crate::chars::push_str(&mut m, e.as_str());
                self.errors.push(m);
            },
        }
    }
}

/// What migrating a database at a version does.
#[derive(Debug, PartialEq, Eq)]
pub enum MigrationPlan {
    /// The database is newer than this code: leave it.
    Keep(u32),
    /// A new database: record the latest version directly.
    Fresh,
    /// Apply the migrations at these positions, in order, then make sure
    /// the latest version is recorded.
    Apply(Vec<usize>),
}

/// The migrations newer than `current`, in order.
pub open spec fn pending(versions: Seq<u32>, current: u32, k: int) -> Seq<usize>
    decreases k,
{
    if k <= 0 || k > versions.len() {
        Seq::empty()
    } else if versions[k - 1] > current {
        pending(versions, current, k - 1).push((k - 1) as usize)
    } else {
        pending(versions, current, k - 1)
    }
}

/// Decides how to migrate a database recorded at `current`, given the
/// versions of the known migrations.
pub fn migration_plan(current: u32, versions: &Vec<u32>) -> (r: MigrationPlan)
    ensures
        current > LATEST_VERSION ==> r == MigrationPlan::Keep(current),
        current == 0 ==> r is Fresh,
        0 < current <= LATEST_VERSION ==> (r matches MigrationPlan::Apply(idx) && idx@ == pending(
            versions@,
            current,
            versions@.len() as int,
        )),
{
    if current > LATEST_VERSION {
        return MigrationPlan::Keep(current);
    }
    if current == 0 {
        return MigrationPlan::Fresh;
    }
    let mut idx: Vec<usize> = Vec::new();
    let mut k: usize = 0;
    while k < versions.len()
        invariant
            k <= versions.len(),
            idx@ == pending(versions@, current, k as int),
        decreases versions.len() - k,
    {
        if versions[k] > current {
            idx.push(k);
        }
        k = k + 1;
    }
    MigrationPlan::Apply(idx)
}

/// The version read from the settings: its number, or 0 when missing or unreadable.
pub fn stored_version(value: Option<String>) -> (r: u32)
    ensures
        r == (match value {
            Some(v) => match parse_u32_spec(v@) {
                Some(n) => n,
                None => 0,
            },
            None => 0,
        }),
{
    match value {
        Some(v) => match parse_u32(v.as_str()) {
            Some(n) => n,
            None => 0,
        },
        None => 0,
    }
}

/// The settings stored encrypted.
pub fn is_sensitive(key: &str) -> (r: bool)
    ensures
        r == (key@ == "llm_api_key"@),
{
    chars_eq(&to_chars(key), &to_chars("llm_api_key"))
}

/// The tags of a comma-separated list: trimmed, empty ones dropped.
pub open spec fn tags_of(parts: Seq<Seq<char>>) -> Seq<Seq<char>>
    decreases parts.len(),
{
    if parts.len() == 0 {
        Seq::empty()
    } else if trim_seq(parts.last()).len() == 0 {
        tags_of(parts.drop_last())
    } else {
        tags_of(parts.drop_last()).push(trim_seq(parts.last()))
    }
}

/// Splits a comma-separated tag list into trimmed, non-empty tags.
pub fn split_tags(tags: &str) -> (r: Vec<String>)
    ensures
        string_views(r@) == tags_of(split_seq(tags@, seq![','])),
{
    let v = to_chars(tags);
    let mut comma: Vec<char> = Vec::new();
    comma.push(',');
    assert(comma@ =~= seq![',']);
    let parts = split_chars(&v, comma.as_slice());
    let ghost pv = views(parts@);
    let mut out: Vec<Vec<char>> = Vec::new();
    let mut i: usize = 0;
    while i < parts.len()
        invariant
            i <= parts.len(),
            pv == views(parts@),
            pv == split_seq(tags@, seq![',']),
            views(out@) == tags_of(pv.take(i as int)),
        decreases parts.len() - i,
    {
        assert(pv.take(i + 1).drop_last() =~= pv.take(i as int));
        let t = trim_chars(parts[i].as_slice());
        if t.len() > 0 {
            let ghost before = views(out@);
            out.push(t);
            assert(views(out@) =~= before.push(trim_seq(pv[i as int])));
        }
        i = i + 1;
    }
    assert(pv.take(parts.len() as int) =~= pv);
    crate::chars::to_strings(&out)
}

/// Strictly increasing in code-point order: sorted, no repeats.
pub open spec fn strictly_sorted(s: Seq<Seq<char>>) -> bool {
    forall|i: int, j: int| 0 <= i < j < s.len() ==> seq_lt(#[trigger] s[i], #[trigger] s[j])
}

/// Inserts `t` into a sorted list without repeats.
fn insert_sorted(list: &mut Vec<Vec<char>>, t: Vec<char>)
    requires
        strictly_sorted(views(old(list)@)),
    ensures
        strictly_sorted(views(final(list)@)),
        views(final(list)@).to_set() == views(old(list)@).to_set().insert(t@),
{
    let ghost l0 = views(list@);
    let mut i: usize = 0;
    while i < list.len() && chars_lt(list[i].as_slice(), t.as_slice())
        invariant
            i <= list.len(),
            views(list@) == l0,
            strictly_sorted(l0),
            forall|k: int| 0 <= k < i ==> seq_lt(#[trigger] l0[k], t@),
        decreases list.len() - i,
    {
        i = i + 1;
    }
    if i < list.len() && chars_eq(list[i].as_slice(), t.as_slice()) {
        assert(l0.to_set().insert(t@) =~= l0.to_set()) by {
            assert(l0[i as int] == t@);
        }
        return;
    }
    proof {
        if i < list.len() {
            lemma_seq_lt_total(l0[i as int], t@);
        }
    }
    list.insert(i, t);
    proof {
        let l1 = views(list@);
        assert(l1 =~= l0.insert(i as int, t@));
        assert forall|a: int, b: int| 0 <= a < b < l1.len() implies seq_lt(
            #[trigger] l1[a],
            #[trigger] l1[b],
        ) by {
            if b < i {
            } else if a < i && b == i {
            } else if a < i && b > i {
                assert(l1[b] == l0[b - 1]);
                if i < l0.len() {
                    lemma_seq_lt_transitive(l0[a], t@, l0[i as int]);
                    if b - 1 > i {
                        lemma_seq_lt_transitive(l0[a], l0[i as int], l0[b - 1]);
                    }
                }
            } else if a == i {
                assert(l1[b] == l0[b - 1]);
                if b - 1 > i {
                    lemma_seq_lt_transitive(t@, l0[i as int], l0[b - 1]);
                }
            } else {
                assert(l1[a] == l0[a - 1]);
                assert(l1[b] == l0[b - 1]);
            }
        }
        assert forall|x: Seq<char>| l1.to_set().contains(x) <==> l0.to_set().insert(t@).contains(x) by {
            if l1.to_set().contains(x) {
                let k = choose|k: int| 0 <= k < l1.len() && l1[k] == x;
                if k < i {
                    assert(l0[k] == x);
                } else if k > i {
                    assert(l0[k - 1] == x);
                }
            }
            if l0.to_set().contains(x) {
                let k = choose|k: int| 0 <= k < l0.len() && l0[k] == x;
                if k < i {
                    assert(l1[k] == x);
                } else {
                    assert(l1[k + 1] == x);
                }
            }
            if x == t@ {
                assert(l1[i as int] == x);
            }
        }
        assert(l1.to_set() =~= l0.to_set().insert(t@));
    }
}

/// The tags of the first `n` lists, as a set.
pub open spec fn tag_union(lists: Seq<String>, n: int) -> Set<Seq<char>>
    decreases n,
{
    if n <= 0 || n > lists.len() {
        Set::empty()
    } else {
        tag_union(lists, n - 1).union(tags_of(split_seq(lists[n - 1]@, seq![','])).to_set())
    }
}

/// The distinct tags of several comma-separated lists, in ascending order.
pub fn merge_tags(tag_lists: &Vec<String>) -> (r: Vec<String>)
    ensures
        strictly_sorted(string_views(r@)),
        string_views(r@).to_set() == tag_union(tag_lists@, tag_lists@.len() as int),
{
    let mut out: Vec<Vec<char>> = Vec::new();
    let mut i: usize = 0;
    assert(views(out@).to_set() =~= Set::<Seq<char>>::empty());
    while i < tag_lists.len()
        invariant
            i <= tag_lists.len(),
            strictly_sorted(views(out@)),
            views(out@).to_set() == tag_union(tag_lists@, i as int),
        decreases tag_lists.len() - i,
    {
        let tags = split_tags(tag_lists[i].as_str());
        let ghost tv = string_views(tags@);
        let ghost before = views(out@).to_set();
        let mut j: usize = 0;
        assert(tv.take(0).to_set() =~= Set::<Seq<char>>::empty());
        assert(before.union(tv.take(0).to_set()) =~= before);
        while j < tags.len()
            invariant
                j <= tags.len(),
                tv == string_views(tags@),
                strictly_sorted(views(out@)),
                views(out@).to_set() == before.union(tv.take(j as int).to_set()),
            decreases tags.len() - j,
        {
            let t = to_chars(tags[j].as_str());
            assert(t@ == tv[j as int]);
            let ghost o0 = views(out@).to_set();
            insert_sorted(&mut out, t);
            proof {
                assert(tv.take(j + 1) =~= tv.take(j as int).push(tv[j as int]));
                tv.take(j as int).lemma_push_to_set_commute(tv[j as int]);
                assert(views(out@).to_set() =~= before.union(tv.take(j + 1).to_set()));
            }
            j = j + 1;
        }
        proof {
            assert(tv.take(tags.len() as int) =~= tv);
            assert(views(out@).to_set() =~= tag_union(tag_lists@, i + 1));
        }
        i = i + 1;
    }
    let r = crate::chars::to_strings(&out);
    r
}

/// The history filter of a listing request: 20 rows and offset 0 by default.
pub fn history_filter(search: Option<String>, limit: Option<u32>, offset: Option<u32>) -> (r: HistoryFilter)
    ensures
        r.search == search,
        r.limit == (match limit {
            Some(l) => l,
            None => 20,
        }),
        r.offset == (match offset {
            Some(o) => o,
            None => 0,
        }),
{
    HistoryFilter {
        search,
        limit: match limit {
            Some(l) => l,
            None => 20,
        },
        offset: match offset {
            Some(o) => o,
            None => 0,
        },
    }
}

/// Checks a template position against the number of templates.
pub fn check_prompt_index(index: usize, count: usize) -> (r: Result<(), String>)
    ensures
        index < count ==> r is Ok,
        index >= count ==> r is Err && r->Err_0@ == "模板索引超出范围（共 "@ + decimal_seq(count as nat)
            + " 个模板）"@,
{
    if index >= count {
        let n = u64_to_string(count as u64);
        return Err(concat3("模板索引超出范围（共 ", n.as_str(), " 个模板）"));
    }
    Ok(())
}

impl Default for WordFilter {
    /// No search, all categories, enabled or not.
    fn default() -> (r: WordFilter)
        ensures
            r.search is None,
            r.category is None,
            !r.enabled_only,
    {
        WordFilter { search: None, category: None, enabled_only: false }
    }
}

impl Default for HistoryFilter {
    /// No search, an empty page at offset 0.
    fn default() -> (r: HistoryFilter)
        ensures
            r.search is None,
            r.limit == 0,
            r.offset == 0,
    {
        HistoryFilter { search: None, limit: 0, offset: 0 }
    }
}

/// The prompt template written into a new database.
pub const DEFAULT_PROMPT_TEMPLATE: &'static str = "你是一个聊天回复助手。请根据下面的对话上下文，生成 {{n}} 条简短、自然、口语化的回复候选。每条回复独占一行，用 --- 分隔。不要编号，不要额外说明。\n\n对话上下文：\n{{origin}}\n\n参考词库（可酌情使用）：\n{{words}}";

/// The name of the prompt template written into a new database.
pub const DEFAULT_PROMPT_NAME: &'static str = "默认回复模板";

/// A database without prompt templates gets the default one.
pub fn needs_seed(prompt_count: i64) -> (r: bool)
    ensures
        r == (prompt_count == 0),
{
    prompt_count == 0
}

/// The profile to make active after a deletion: the most recently updated
/// remaining one, when no active profile is left.
pub open spec fn promote_choice(active_count: i64, most_recent: Option<i64>) -> Option<i64> {
    if active_count == 0 {
        most_recent
    } else {
        None
    }
}

/// After deleting a profile, the most recently updated remaining one is
/// made active when none is active any more.
pub fn profile_to_promote(active_count: i64, most_recent: Option<i64>) -> (r: Option<i64>)
    ensures
        r == promote_choice(active_count, most_recent),
{
    if active_count == 0 {
        most_recent
    } else {
        None
    }
}

/// After the migrations, a database still below the latest version is
/// raised to it: `Some(LATEST_VERSION)` is the version to record, `None`
/// means the recorded version stays.
pub fn version_to_record(reached: u32) -> (r: Option<u32>)
    ensures
        reached < LATEST_VERSION ==> r == Some(LATEST_VERSION),
        reached >= LATEST_VERSION ==> r is None,
{
    if reached < LATEST_VERSION {
        Some(LATEST_VERSION)
    } else {
        None
    }
}

/// The text of an optional string.
pub open spec fn string_opt(o: Option<String>) -> Option<Seq<char>> {
    match o {
        Some(s) => Some(s@),
        None => None,
    }
}

/// The model of the profile made from the stored model configuration: the
/// stored model, when no profile exists yet and it is not empty.
pub open spec fn default_profile_choice(profile_count: i64, stored_model: Option<Seq<char>>) -> Option<
    Seq<char>,
> {
    if profile_count <= 0 && (stored_model matches Some(m) && m.len() > 0) {
        stored_model
    } else {
        None
    }
}

/// The model of the first profile made from the single stored model
/// configuration: only when there is no profile yet and a non-empty model
/// is stored; `None` means nothing is migrated.
pub fn default_profile_model(profile_count: i64, stored_model: Option<String>) -> (r: Option<String>)
    ensures
        string_opt(r) == default_profile_choice(profile_count, string_opt(stored_model)),
{
    if profile_count > 0 {
        return None;
    }
    match stored_model {
        Some(m) => {
            if m.as_str().is_empty() {
                None
            } else {
                Some(m)
            }
        },
        None => None,
    }
}

/// The number of profiles after the default-profile step: one more when a
/// profile is made from the stored model.
pub open spec fn profiles_after_default(profile_count: i64, stored_model: Option<Seq<char>>) -> int {
    if default_profile_choice(profile_count, stored_model) is Some {
        profile_count + 1
    } else {
        profile_count as int
    }
}

/// After the default-profile step a profile exists exactly when one existed
/// before or a non-empty model was stored; an existing profile list is left
/// as it is, and running the step again makes nothing.
pub proof fn lemma_default_profile_step(profile_count: i64, stored_model: Option<Seq<char>>)
    requires
        profile_count >= 0,
    ensures
        profiles_after_default(profile_count, stored_model) > 0 <==> (profile_count > 0 || (
        stored_model matches Some(m) && m.len() > 0)),
        profile_count > 0 ==> default_profile_choice(profile_count, stored_model) is None,
        profiles_after_default(profile_count, stored_model) <= i64::MAX ==> default_profile_choice(
            profiles_after_default(profile_count, stored_model) as i64,
            stored_model,
        ) is None,
{
}

/// A profile row as the deletion step sees it: id, active flag and the
/// rank of its update time.
pub type ProfileMeta = (i64, bool, int);

/// The number of active profiles.
pub open spec fn count_active(rows: Seq<ProfileMeta>) -> nat
    decreases rows.len(),
{
    if rows.len() == 0 {
        0
    } else {
        count_active(rows.drop_last()) + if rows.last().1 {
            1nat
        } else {
            0nat
        }
    }
}

/// `id` names a row updated no earlier than any other.
pub open spec fn is_most_recent(rows: Seq<ProfileMeta>, id: i64) -> bool {
    exists|i: int|
        0 <= i < rows.len() && rows[i].0 == id && forall|j: int|
            0 <= j < rows.len() ==> #[trigger] rows[j].2 <= rows[i].2
}

/// The rows with the profile `id` made active.
pub open spec fn activate(rows: Seq<ProfileMeta>, id: i64) -> Seq<ProfileMeta> {
    rows.map_values(|r: ProfileMeta| if r.0 == id { (r.0, true, r.2) } else { r })
}

/// The rows after the promotion step.
pub open spec fn after_promotion(rows: Seq<ProfileMeta>, most_recent: Option<i64>) -> Seq<ProfileMeta> {
    match promote_choice(count_active(rows) as i64, most_recent) {
        Some(n) => activate(rows, n),
        None => rows,
    }
}

proof fn lemma_count_active(rows: Seq<ProfileMeta>)
    ensures
        count_active(rows) == 0 <==> forall|i: int| 0 <= i < rows.len() ==> !(#[trigger] rows[i]).1,
        count_active(rows) <= rows.len(),
    decreases rows.len(),
{
    if rows.len() > 0 {
        let p = rows.drop_last();
        lemma_count_active(p);
        if count_active(rows) == 0 {
            assert forall|i: int| 0 <= i < rows.len() implies !(#[trigger] rows[i]).1 by {
                if i < p.len() {
                    assert(p[i] == rows[i]);
                }
            }
        }
        if forall|i: int| 0 <= i < rows.len() ==> !(#[trigger] rows[i]).1 {
            assert forall|i: int| 0 <= i < p.len() implies !(#[trigger] p[i]).1 by {
                assert(p[i] == rows[i]);
            }
            assert(!rows[rows.len() - 1].1);
        }
    }
}

/// After a deletion, the profiles that remain (ids distinct, at most one
/// active) have exactly one active profile: the one that was active, or,
/// when none was, the most recently updated one, as the query names it.
/// When none remain, nothing is made active.
pub proof fn lemma_promotion_keeps_one_active(rows: Seq<ProfileMeta>, most_recent: Option<i64>)
    requires
        rows.len() <= i64::MAX,
        forall|i: int, j: int| 0 <= i < j < rows.len() ==> rows[i].0 != rows[j].0,
        forall|i: int, j: int| 0 <= i < rows.len() && 0 <= j < rows.len() && rows[i].1 && rows[j].1
            ==> i == j,
        rows.len() == 0 ==> most_recent is None,
        rows.len() > 0 ==> (most_recent matches Some(m) && is_most_recent(rows, m)),
    ensures
        rows.len() == 0 ==> after_promotion(rows, most_recent).len() == 0,
        after_promotion(rows, most_recent).len() == rows.len(),
        forall|i: int| 0 <= i < rows.len() ==> #[trigger] after_promotion(rows, most_recent)[i].0
            == rows[i].0,
        rows.len() > 0 ==> exists|i: int|
            0 <= i < rows.len() && after_promotion(rows, most_recent)[i].1 && forall|j: int|
                0 <= j < rows.len() && #[trigger] after_promotion(rows, most_recent)[j].1 ==> j == i,
        (exists|i: int| 0 <= i < rows.len() && rows[i].1) ==> after_promotion(rows, most_recent)
            == rows,
        (forall|i: int| 0 <= i < rows.len() ==> !(#[trigger] rows[i]).1) && rows.len() > 0
            ==> forall|i: int|
            0 <= i < rows.len() && #[trigger] after_promotion(rows, most_recent)[i].1 ==> forall|j: int|
                0 <= j < rows.len() ==> rows[j].2 <= rows[i].2,
{
    lemma_count_active(rows);
    let after = after_promotion(rows, most_recent);
    if exists|i: int| 0 <= i < rows.len() && rows[i].1 {
        let i = choose|i: int| 0 <= i < rows.len() && rows[i].1;
        assert(count_active(rows) != 0);
        assert(count_active(rows) <= rows.len());
        assert((count_active(rows) as i64) as int == count_active(rows) as int);
        assert(promote_choice(count_active(rows) as i64, most_recent) is None);
        assert(after == rows);
    } else if rows.len() > 0 {
        assert(forall|i: int| 0 <= i < rows.len() ==> !(#[trigger] rows[i]).1);
        assert(count_active(rows) == 0);
        assert(count_active(rows) as i64 == 0);
        let m = most_recent->0;
        let i = choose|i: int|
            0 <= i < rows.len() && rows[i].0 == m && forall|j: int|
                0 <= j < rows.len() ==> #[trigger] rows[j].2 <= rows[i].2;
        assert(after == activate(rows, m));
        assert(after[i].1);
        assert forall|j: int| 0 <= j < rows.len() && #[trigger] after[j].1 implies j == i by {
            if j != i {
                assert(rows[j].0 != rows[i].0);
                assert(after[j] == rows[j]);
            }
        }
        assert forall|k: int| 0 <= k < rows.len() && #[trigger] after[k].1 implies forall|j: int|
            0 <= j < rows.len() ==> rows[j].2 <= rows[k].2 by {
            if k != i {
                assert(rows[k].0 != rows[i].0);
                assert(after[k] == rows[k]);
            }
        }
    }
}

/// The ordering of a history page: newest first (later creation time first,
/// then the larger id), then the page bounds.
pub open spec fn newest_first_page() -> Seq<char> {
    " ORDER BY created_at DESC, id DESC LIMIT ? OFFSET ?"@
}

/// The history page query selects the rows that the count query counts,
/// under the same search, and lists them newest first: its text is the
/// column list, the count query's table and search condition, then the
/// newest-first ordering and the page bounds.
pub proof fn lemma_history_page_newest_first(search: Option<Seq<char>>)
    ensures
        ends_with_seq(history_list_sql(search), newest_first_page()),
        history_list_sql(search) == "SELECT id, origin, selected, prompt_name, model, created_at"@
            + history_count_sql(search).skip("SELECT COUNT(*)"@.len() as int) + newest_first_page(),
{
    let body = history_count_sql(search).skip("SELECT COUNT(*)"@.len() as int);
    let cols = "SELECT id, origin, selected, prompt_name, model, created_at"@;
    let tail = " FROM history WHERE 1=1"@;
    let cond = " AND (origin LIKE ? OR selected LIKE ?) COLLATE NOCASE"@;
    reveal_strlit("SELECT id, origin, selected, prompt_name, model, created_at FROM history WHERE 1=1");
    reveal_strlit("SELECT id, origin, selected, prompt_name, model, created_at");
    reveal_strlit(" FROM history WHERE 1=1");
    reveal_strlit("SELECT COUNT(*) FROM history WHERE 1=1");
    reveal_strlit("SELECT COUNT(*)");
    assert("SELECT id, origin, selected, prompt_name, model, created_at FROM history WHERE 1=1"@
        =~= cols + tail);
    assert("SELECT COUNT(*) FROM history WHERE 1=1"@ =~= "SELECT COUNT(*)"@ + tail);
    match search {
        Some(_) => {
            assert(history_count_sql(search) =~= "SELECT COUNT(*)"@ + (tail + cond));
            assert(body =~= tail + cond);
            assert(history_list_sql(search) =~= cols + body + newest_first_page());
        },
        None => {
            assert(body =~= tail);
            assert(history_list_sql(search) =~= cols + body + newest_first_page());
        },
    }
    let l = history_list_sql(search);
    assert(l.subrange(l.len() - newest_first_page().len(), l.len() as int) =~= newest_first_page());
}

} // verus!
