//! Counting keys and ranking them by frequency.
//!
//! `tally` turns a list of keys into `(key, count)` pairs, one per distinct
//! key, ordered by count (descending) and then by key (ascending).
use vstd::prelude::*;

use crate::chars::{
    chars_eq, chars_lt, from_chars, lemma_seq_lt_asymmetric, lemma_seq_lt_irreflexive,
    lemma_seq_lt_total, lemma_seq_lt_transitive, seq_lt, views,
};

verus! {

/// Number of occurrences of `k` in `keys`.
pub open spec fn count_of(keys: Seq<Seq<char>>, k: Seq<char>) -> nat
    decreases keys.len(),
{
    if keys.len() == 0 {
        0
    } else {
        count_of(keys.drop_last(), k) + if keys.last() == k {
            1nat
        } else {
            0nat
        }
    }
}

/// `(c1, k1)` ranks before `(c2, k2)`: a higher count first, then the smaller key.
pub open spec fn ranks_before(a: (Seq<char>, u32), b: (Seq<char>, u32)) -> bool {
    a.1 > b.1 || (a.1 == b.1 && seq_lt(a.0, b.0))
}

/// `res` is the frequency table of `keys`: every distinct key exactly once,
/// with its number of occurrences, ranked by `ranks_before`.
pub open spec fn is_tally(res: Seq<(Seq<char>, u32)>, keys: Seq<Seq<char>>) -> bool {
    &&& forall|i: int| 0 <= i < res.len() ==> #[trigger] count_of(keys, res[i].0) == res[i].1
    &&& forall|i: int| 0 <= i < res.len() ==> #[trigger] res[i].1 >= 1
    &&& forall|k: Seq<char>| #[trigger] keys.contains(k) ==> exists|i: int|
        0 <= i < res.len() && #[trigger] res[i].0 == k
    &&& forall|i: int, j: int| 0 <= i < j < res.len() ==> ranks_before(res[i], res[j])
}

/// The view of a frequency table of strings.
pub open spec fn tally_view(res: Seq<(String, u32)>) -> Seq<(Seq<char>, u32)> {
    res.map_values(|p: (String, u32)| (p.0@, p.1))
}

pub proof fn lemma_count_of_push(keys: Seq<Seq<char>>, x: Seq<char>, k: Seq<char>)
    ensures
        count_of(keys.push(x), k) == count_of(keys, k) + if x == k {
            1nat
        } else {
            0nat
        },
{
    assert(keys.push(x).drop_last() =~= keys);
}

pub proof fn lemma_count_of_bound(keys: Seq<Seq<char>>, k: Seq<char>)
    ensures
        count_of(keys, k) <= keys.len(),
        keys.contains(k) ==> count_of(keys, k) >= 1,
        !keys.contains(k) ==> count_of(keys, k) == 0,
    decreases keys.len(),
{
    if keys.len() > 0 {
        lemma_count_of_bound(keys.drop_last(), k);
        if keys.contains(k) && keys.last() != k {
            let i = choose|i: int| 0 <= i < keys.len() && keys[i] == k;
            assert(keys.drop_last()[i] == k);
        }
        if keys.drop_last().contains(k) {
            let i = choose|i: int| 0 <= i < keys.drop_last().len() && keys.drop_last()[i] == k;
            assert(keys[i] == k);
        }
        if keys.last() == k {
            assert(keys[keys.len() - 1] == k);
        }
    }
}

proof fn lemma_ranks_transitive(a: (Seq<char>, u32), b: (Seq<char>, u32), c: (Seq<char>, u32))
    requires
        ranks_before(a, b),
        ranks_before(b, c),
    ensures
        ranks_before(a, c),
{
    if a.1 == b.1 && b.1 == c.1 {
        lemma_seq_lt_transitive(a.0, b.0, c.0);
    }
}

proof fn lemma_ranks_total(a: (Seq<char>, u32), b: (Seq<char>, u32))
    requires
        a.0 != b.0,
    ensures
        ranks_before(a, b) || ranks_before(b, a),
{
    lemma_seq_lt_total(a.0, b.0);
}

proof fn lemma_ranks_irreflexive(a: (Seq<char>, u32))
    ensures
        !ranks_before(a, a),
{
    lemma_seq_lt_irreflexive(a.0);
}

/// The pair at `idx` of the counting table.
spec fn entry(fkeys: Seq<Vec<char>>, fcounts: Seq<u32>, idx: usize) -> (Seq<char>, u32) {
    (fkeys[idx as int]@, fcounts[idx as int])
}

/// Counts the keys: `fkeys` holds each distinct key once, `fcounts` its count.
fn count_keys(keys: &Vec<Vec<char>>) -> (r: (Vec<Vec<char>>, Vec<u32>))
    requires
        keys.len() <= u32::MAX,
    ensures
        r.0.len() == r.1.len(),
        forall|a: int| 0 <= a < r.0.len() ==> #[trigger] r.1[a] == count_of(views(keys@), r.0[a]@),
        forall|a: int| 0 <= a < r.0.len() ==> #[trigger] r.1[a] >= 1,
        forall|a: int, b: int| 0 <= a < b < r.0.len() ==> r.0[a]@ != r.0[b]@,
        forall|k: Seq<char>| #[trigger] views(keys@).contains(k) ==> exists|a: int|
            0 <= a < r.0.len() && #[trigger] r.0[a]@ == k,
{
    let mut fkeys: Vec<Vec<char>> = Vec::new();
    let mut fcounts: Vec<u32> = Vec::new();
    let mut i: usize = 0;
    while i < keys.len()
        invariant
            i <= keys.len() <= u32::MAX,
            fkeys.len() == fcounts.len(),
            forall|a: int|
                0 <= a < fkeys.len() ==> #[trigger] fcounts[a] == count_of(
                    views(keys@).take(i as int),
                    fkeys[a]@,
                ),
            forall|a: int| 0 <= a < fkeys.len() ==> #[trigger] fcounts[a] >= 1,
            forall|a: int| 0 <= a < fkeys.len() ==> #[trigger] fcounts[a] <= i,
            forall|a: int, b: int| 0 <= a < b < fkeys.len() ==> fkeys[a]@ != fkeys[b]@,
            forall|k: Seq<char>| #[trigger] views(keys@).take(i as int).contains(k) ==> exists|
                a: int,
            |
                0 <= a < fkeys.len() && #[trigger] fkeys[a]@ == k,
        decreases keys.len() - i,
    {
        let ghost pre = views(keys@).take(i as int);
        let ghost key = keys@[i as int]@;
        assert(views(keys@).take(i + 1) =~= pre.push(key));
        proof {
            assert forall|k: Seq<char>| #[trigger] count_of(pre.push(key), k) == count_of(pre, k)
                + if key == k {
                1nat
            } else {
                0nat
            } by {
                lemma_count_of_push(pre, key, k);
            }
        }
        let mut found = false;
        let mut a: usize = 0;
        while a < fkeys.len()
            invariant_except_break
                !found,
            invariant
                a <= fkeys.len(),
                forall|b: int| 0 <= b < a ==> fkeys[b]@ != key,
                key == keys@[i as int]@,
                i < keys.len(),
            ensures
                found ==> a < fkeys.len() && fkeys[a as int]@ == key,
                !found ==> a == fkeys.len(),
            decreases fkeys.len() - a,
        {
            if chars_eq(fkeys[a].as_slice(), keys[i].as_slice()) {
                found = true;
                break;
            }
            a = a + 1;
        }
        if found {
            let c = fcounts[a];
            fcounts.set(a, c + 1);
            proof {
                assert forall|k: Seq<char>| #[trigger] pre.push(key).contains(k) implies exists|
                    b: int,
                |
                    0 <= b < fkeys.len() && #[trigger] fkeys[b]@ == k by {
                    if k == key {
                        assert(fkeys[a as int]@ == k);
                    } else {
                        let j = choose|j: int| 0 <= j < pre.push(key).len() && pre.push(key)[j] == k;
                        assert(pre[j] == k);
                        assert(pre.contains(k));
                    }
                }
            }
        } else {
            let ghost old_keys = fkeys@;
            let ghost old_counts = fcounts@;
            fkeys.push(keys[i].clone());
            fcounts.push(1);
            proof {
                assert(fkeys[fkeys.len() - 1]@ == key);
                lemma_count_of_bound(pre, key);
                assert forall|b: int| 0 <= b < fkeys.len() implies #[trigger] fcounts[b]
                    == count_of(pre.push(key), fkeys[b]@) by {
                    if b < old_keys.len() {
                        assert(fkeys[b] == old_keys[b]);
                        assert(fcounts[b] == old_counts[b]);
                    }
                }
                assert forall|k: Seq<char>| #[trigger] pre.push(key).contains(k) implies exists|
                    b: int,
                |
                    0 <= b < fkeys.len() && #[trigger] fkeys[b]@ == k by {
                    if k == key {
                        assert(fkeys[fkeys.len() - 1]@ == k);
                    } else {
                        let j = choose|j: int| 0 <= j < pre.push(key).len() && pre.push(key)[j] == k;
                        assert(pre[j] == k);
                        assert(pre.contains(k));
                        let b = choose|b: int| 0 <= b < old_keys.len() && #[trigger] old_keys[b]@ == k;
                        assert(fkeys[b]@ == k);
                    }
                }
                assert forall|b: int, c: int| 0 <= b < c < fkeys.len() implies fkeys[b]@
                    != fkeys[c]@ by {
                    if c < old_keys.len() {
                        assert(fkeys[b] == old_keys[b] && fkeys[c] == old_keys[c]);
                    } else {
                        assert(fkeys[b] == old_keys[b]);
                    }
                }
            }
        }
        i = i + 1;
    }
    assert(views(keys@).take(keys.len() as int) =~= views(keys@));
    (fkeys, fcounts)
}

/// Builds the frequency table of `keys` (see `is_tally`).
pub fn tally(keys: &Vec<Vec<char>>) -> (r: Vec<(String, u32)>)
    requires
        keys.len() <= u32::MAX,
    ensures
        is_tally(tally_view(r@), views(keys@)),
{
    let (fkeys, fcounts) = count_keys(keys);
    let n = fkeys.len();
    // Insertion of each table index into a ranked order.
    let mut order: Vec<usize> = Vec::new();
    let mut i: usize = 0;
    while i < n
        invariant
            n == fkeys.len() == fcounts.len(),
            i <= n,
            order.len() == i,
            forall|x: int| 0 <= x < order.len() ==> #[trigger] order[x] < i,
            forall|a: int| 0 <= a < i ==> #[trigger] order@.contains(a as usize),
            forall|x: int, y: int|
                0 <= x < y < order.len() ==> ranks_before(
                    entry(fkeys@, fcounts@, order[x]),
                    entry(fkeys@, fcounts@, order[y]),
                ),
            forall|a: int, b: int| 0 <= a < b < fkeys.len() ==> fkeys[a]@ != fkeys[b]@,
        decreases n - i,
    {
        let mut p: usize = 0;
        while p < order.len() && !before(&fkeys, &fcounts, i, order[p])
            invariant
                n == fkeys.len() == fcounts.len(),
                i < n,
                p <= order.len(),
                forall|x: int| 0 <= x < order.len() ==> #[trigger] order[x] < i,
                forall|x: int|
                    0 <= x < p ==> ranks_before(
                        entry(fkeys@, fcounts@, #[trigger] order[x]),
                        entry(fkeys@, fcounts@, i),
                    ),
                forall|a: int, b: int| 0 <= a < b < fkeys.len() ==> fkeys[a]@ != fkeys[b]@,
            decreases order.len() - p,
        {
            proof {
                let o = order[p as int];
                assert(fkeys[o as int]@ != fkeys[i as int]@);
                lemma_ranks_total(entry(fkeys@, fcounts@, o), entry(fkeys@, fcounts@, i));
            }
            p = p + 1;
        }
        let ghost old_order = order@;
        order.insert(p, i);
        proof {
            assert(order@ == old_order.insert(p as int, i));
            assert forall|x: int, y: int| 0 <= x < y < order.len() implies ranks_before(
                entry(fkeys@, fcounts@, order[x]),
                entry(fkeys@, fcounts@, order[y]),
            ) by {
                if y < p {
                    assert(order[x] == old_order[x] && order[y] == old_order[y]);
                } else if y == p {
                    assert(order[x] == old_order[x]);
                } else if x < p {
                    assert(order[x] == old_order[x] && order[y] == old_order[y - 1]);
                    if p < old_order.len() {
                        // i ranks before old_order[p], which ranks no later than old_order[y - 1].
                        let e_i = entry(fkeys@, fcounts@, i);
                        let e_p = entry(fkeys@, fcounts@, old_order[p as int]);
                        let e_y = entry(fkeys@, fcounts@, old_order[y - 1]);
                        if y - 1 > p {
                            lemma_ranks_transitive(e_i, e_p, e_y);
                        }
                        lemma_ranks_transitive(entry(fkeys@, fcounts@, old_order[x]), e_i, e_y);
                    }
                } else if x == p {
                    assert(order[y] == old_order[y - 1]);
                    let e_i = entry(fkeys@, fcounts@, i);
                    let e_p = entry(fkeys@, fcounts@, old_order[p as int]);
                    if y - 1 > p {
                        lemma_ranks_transitive(e_i, e_p, entry(fkeys@, fcounts@, old_order[y - 1]));
                    }
                } else {
                    assert(order[x] == old_order[x - 1] && order[y] == old_order[y - 1]);
                }
            }
            assert forall|a: int| 0 <= a < i + 1 implies #[trigger] order@.contains(a as usize) by {
                if a == i {
                    assert(order@[p as int] == i);
                } else {
                    assert(old_order.contains(a as usize));
                    let x = choose|x: int| 0 <= x < old_order.len() && old_order[x] == a as usize;
                    if x < p {
                        assert(order@[x] == a as usize);
                    } else {
                        assert(order@[x + 1] == a as usize);
                    }
                }
            }
            assert forall|x: int| 0 <= x < order.len() implies #[trigger] order[x] < i + 1 by {
                if x < p {
                    assert(order[x] == old_order[x]);
                } else if x > p {
                    assert(order[x] == old_order[x - 1]);
                }
            }
        }
        i = i + 1;
    }
    // Assemble the ranked table.
    let mut out: Vec<(String, u32)> = Vec::new();
    let mut x: usize = 0;
    while x < n
        invariant
            n == fkeys.len() == fcounts.len() == order.len(),
            x <= n,
            forall|y: int| 0 <= y < order.len() ==> #[trigger] order[y] < n,
            tally_view(out@) == Seq::new(
                x as nat,
                |y: int| entry(fkeys@, fcounts@, order[y]),
            ),
        decreases n - x,
    {
        let o = order[x];
        let s = from_chars(fkeys[o].as_slice());
        let ghost old_out = out@;
        let ghost sv = s@;
        out.push((s, fcounts[o]));
        assert(tally_view(out@) =~= tally_view(old_out).push((sv, fcounts@[o as int])));
        assert(tally_view(out@) =~= Seq::new(
            (x + 1) as nat,
            |y: int| entry(fkeys@, fcounts@, order[y]),
        ));
        x = x + 1;
    }
    proof {
        let res = tally_view(out@);
        let kv = views(keys@);
        assert forall|k: Seq<char>| #[trigger] kv.contains(k) implies exists|y: int|
            0 <= y < res.len() && #[trigger] res[y].0 == k by {
            let a = choose|a: int| 0 <= a < fkeys.len() && #[trigger] fkeys[a]@ == k;
            assert(order@.contains(a as usize));
            let y = choose|y: int| 0 <= y < order.len() && order@[y] == a as usize;
            assert(res[y].0 == k);
        }
        assert forall|y: int| 0 <= y < res.len() implies #[trigger] count_of(kv, res[y].0)
            == res[y].1 by {
            let o = order[y];
            assert(res[y] == entry(fkeys@, fcounts@, o));
        }
        assert forall|y: int| 0 <= y < res.len() implies #[trigger] res[y].1 >= 1 by {
            let o = order[y];
            assert(res[y] == entry(fkeys@, fcounts@, o));
        }
    }
    out
}

/// Whether table entry `a` ranks before table entry `b`.
fn before(fkeys: &Vec<Vec<char>>, fcounts: &Vec<u32>, a: usize, b: usize) -> (r: bool)
    requires
        fkeys.len() == fcounts.len(),
        a < fkeys.len(),
        b < fkeys.len(),
    ensures
        r == ranks_before(entry(fkeys@, fcounts@, a), entry(fkeys@, fcounts@, b)),
{
    let ca = fcounts[a];
    let cb = fcounts[b];
    if ca != cb {
        ca > cb
    } else {
        chars_lt(fkeys[a].as_slice(), fkeys[b].as_slice())
    }
}

/// A frequency table names each key once (two entries never share a key).
pub proof fn lemma_tally_keys_distinct(res: Seq<(Seq<char>, u32)>, keys: Seq<Seq<char>>)
    requires
        is_tally(res, keys),
    ensures
        forall|i: int, j: int| 0 <= i < j < res.len() ==> res[i].0 != res[j].0,
{
    assert forall|i: int, j: int| 0 <= i < j < res.len() implies res[i].0 != res[j].0 by {
        if res[i].0 == res[j].0 {
            assert(ranks_before(res[i], res[j]));
            assert(count_of(keys, res[i].0) == res[i].1);
            assert(count_of(keys, res[j].0) == res[j].1);
            lemma_ranks_irreflexive(res[i]);
        }
    }
}

/// The keys named by a frequency table, in order.
pub open spec fn table_keys(res: Seq<(Seq<char>, u32)>) -> Seq<Seq<char>> {
    res.map_values(|e: (Seq<char>, u32)| e.0)
}

proof fn lemma_sorted_tables_equal(a: Seq<(Seq<char>, u32)>, b: Seq<(Seq<char>, u32)>, keys: Seq<Seq<char>>)
    requires
        forall|i: int| 0 <= i < a.len() ==> #[trigger] count_of(keys, a[i].0) == a[i].1,
        forall|i: int| 0 <= i < b.len() ==> #[trigger] count_of(keys, b[i].0) == b[i].1,
        forall|i: int, j: int| 0 <= i < j < a.len() ==> ranks_before(a[i], a[j]),
        forall|i: int, j: int| 0 <= i < j < b.len() ==> ranks_before(b[i], b[j]),
        forall|k: Seq<char>| #[trigger] table_keys(a).contains(k) <==> table_keys(b).contains(k),
    ensures
        a == b,
    decreases a.len(),
{
    if a.len() == 0 {
        if b.len() > 0 {
            assert(table_keys(b)[0] == b[0].0);
            assert(table_keys(b).contains(b[0].0));
            assert(table_keys(a).contains(b[0].0));
            assert(table_keys(a).len() == 0);
        }
        assert(b =~= a);
    } else if b.len() == 0 {
        assert(table_keys(a)[0] == a[0].0);
        assert(table_keys(a).contains(a[0].0));
        assert(table_keys(b).contains(a[0].0));
        assert(table_keys(b).len() == 0);
    } else {
        // the first entries agree
        assert(table_keys(a)[0] == a[0].0);
        assert(table_keys(a).contains(a[0].0));
        assert(table_keys(b).contains(a[0].0));
        let j = choose|j: int| 0 <= j < table_keys(b).len() && table_keys(b)[j] == a[0].0;
        assert(table_keys(b)[j] == b[j].0);
        assert(b[j].0 == a[0].0);
        assert(count_of(keys, b[j].0) == b[j].1);
        assert(count_of(keys, a[0].0) == a[0].1);
        assert(b[j] == a[0]);
        assert(table_keys(b)[0] == b[0].0);
        assert(table_keys(b).contains(b[0].0));
        assert(table_keys(a).contains(b[0].0));
        let i = choose|i: int| 0 <= i < table_keys(a).len() && table_keys(a)[i] == b[0].0;
        assert(table_keys(a)[i] == a[i].0);
        assert(a[i].0 == b[0].0);
        assert(count_of(keys, a[i].0) == a[i].1);
        assert(count_of(keys, b[0].0) == b[0].1);
        assert(a[i] == b[0]);
        if i > 0 && j > 0 {
            assert(ranks_before(a[0], a[i]));
            assert(ranks_before(b[0], b[j]));
            lemma_ranks_transitive(a[0], b[0], a[0]);
            lemma_ranks_irreflexive(a[0]);
        }
        assert(a[0] == b[0]);
        let ta = a.drop_first();
        let tb = b.drop_first();
        assert forall|k: Seq<char>| #[trigger] table_keys(ta).contains(k) <==> table_keys(tb).contains(k) by {
            if table_keys(ta).contains(k) {
                let x = choose|x: int| 0 <= x < table_keys(ta).len() && table_keys(ta)[x] == k;
                assert(ta[x] == a[x + 1]);
                assert(table_keys(a)[x + 1] == k);
                assert(table_keys(a).contains(k));
                assert(table_keys(b).contains(k));
                let y = choose|y: int| 0 <= y < table_keys(b).len() && table_keys(b)[y] == k;
                assert(table_keys(b)[y] == b[y].0);
                if y == 0 {
                    assert(ranks_before(a[0], a[x + 1]));
                    assert(a[x + 1].0 == a[0].0);
                    assert(count_of(keys, a[x + 1].0) == a[x + 1].1);
                    assert(a[x + 1] == a[0]);
                    lemma_ranks_irreflexive(a[0]);
                }
                assert(tb[y - 1] == b[y]);
                assert(table_keys(tb)[y - 1] == k);
            }
            if table_keys(tb).contains(k) {
                let x = choose|x: int| 0 <= x < table_keys(tb).len() && table_keys(tb)[x] == k;
                assert(tb[x] == b[x + 1]);
                assert(table_keys(b)[x + 1] == k);
                assert(table_keys(b).contains(k));
                assert(table_keys(a).contains(k));
                let y = choose|y: int| 0 <= y < table_keys(a).len() && table_keys(a)[y] == k;
                assert(table_keys(a)[y] == a[y].0);
                if y == 0 {
                    assert(ranks_before(b[0], b[x + 1]));
                    assert(b[x + 1].0 == b[0].0);
                    assert(count_of(keys, b[x + 1].0) == b[x + 1].1);
                    assert(b[x + 1] == b[0]);
                    lemma_ranks_irreflexive(b[0]);
                }
                assert(ta[y - 1] == a[y]);
                assert(table_keys(ta)[y - 1] == k);
            }
        }
        assert forall|x: int| 0 <= x < ta.len() implies #[trigger] count_of(keys, ta[x].0) == ta[x].1 by {
            assert(ta[x] == a[x + 1]);
        }
        assert forall|x: int| 0 <= x < tb.len() implies #[trigger] count_of(keys, tb[x].0) == tb[x].1 by {
            assert(tb[x] == b[x + 1]);
        }
        assert forall|x: int, y: int| 0 <= x < y < ta.len() implies ranks_before(ta[x], ta[y]) by {
            assert(ta[x] == a[x + 1] && ta[y] == a[y + 1]);
        }
        assert forall|x: int, y: int| 0 <= x < y < tb.len() implies ranks_before(tb[x], tb[y]) by {
            assert(tb[x] == b[x + 1] && tb[y] == b[y + 1]);
        }
        lemma_sorted_tables_equal(ta, tb, keys);
        assert(a =~= seq![a[0]] + ta);
        assert(b =~= seq![b[0]] + tb);
    }
}

/// The frequency table of a key list is unique: two tables of the same keys
/// are equal.
pub proof fn lemma_tally_unique(r1: Seq<(Seq<char>, u32)>, r2: Seq<(Seq<char>, u32)>, keys: Seq<Seq<char>>)
    requires
        is_tally(r1, keys),
        is_tally(r2, keys),
    ensures
        r1 == r2,
{
    assert forall|k: Seq<char>| #[trigger] table_keys(r1).contains(k) <==> keys.contains(k) by {
        lemma_count_of_bound(keys, k);
        if table_keys(r1).contains(k) {
            let i = choose|i: int| 0 <= i < table_keys(r1).len() && table_keys(r1)[i] == k;
            assert(r1[i].0 == k);
            assert(count_of(keys, r1[i].0) == r1[i].1);
            assert(r1[i].1 >= 1);
        }
        if keys.contains(k) {
            let i = choose|i: int| 0 <= i < r1.len() && #[trigger] r1[i].0 == k;
            assert(table_keys(r1)[i] == k);
        }
    }
    assert forall|k: Seq<char>| #[trigger] table_keys(r2).contains(k) <==> keys.contains(k) by {
        lemma_count_of_bound(keys, k);
        if table_keys(r2).contains(k) {
            let i = choose|i: int| 0 <= i < table_keys(r2).len() && table_keys(r2)[i] == k;
            assert(r2[i].0 == k);
            assert(count_of(keys, r2[i].0) == r2[i].1);
            assert(r2[i].1 >= 1);
        }
        if keys.contains(k) {
            let i = choose|i: int| 0 <= i < r2.len() && #[trigger] r2[i].0 == k;
            assert(table_keys(r2)[i] == k);
        }
    }
    lemma_sorted_tables_equal(r1, r2, keys);
}

} // verus!
