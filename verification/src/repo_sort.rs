//! The order of the repository list: by lowercased name (A-Z, or exactly
//! reversed for Z-A), or dirty repositories first and then by name. Pinned
//! repositories sort among the others; the selection stays on its repository.

use vstd::prelude::*;
use crate::sorting::SortOrder;
use crate::text::{lowercase, to_lowercase};

verus! {

/// What a repository is sorted by.
#[derive(Debug, Clone)]
pub struct RepoKey {
    /// The name shown in the list.
    pub name: String,
    /// Whether its working tree has changes.
    pub dirty: bool,
}

/// `a` before `b` comparing characters by code point, a proper prefix first
/// (the order of `str`).
pub open spec fn lex_lt(a: Seq<char>, b: Seq<char>) -> bool
    decreases a.len(),
{
    if a.len() == 0 {
        b.len() > 0
    } else if b.len() == 0 {
        false
    } else if a[0] != b[0] {
        (a[0] as int) < (b[0] as int)
    } else {
        lex_lt(a.drop_first(), b.drop_first())
    }
}

/// The sort key of a repository: its lowercased name and its dirtiness.
pub open spec fn key_v(k: RepoKey) -> (Seq<char>, bool) {
    (lowercase(k.name@), k.dirty)
}

/// The sort keys of the list.
pub open spec fn keys_v(ks: Seq<RepoKey>) -> Seq<(Seq<char>, bool)> {
    ks.map_values(|k: RepoKey| key_v(k))
}

/// Key `x` sorts before key `y`: by name, or (dirty first) dirty before
/// clean and then by name.
pub open spec fn key_lt(dirty_first: bool, x: (Seq<char>, bool), y: (Seq<char>, bool)) -> bool {
    if dirty_first {
        (x.1 && !y.1) || (x.1 == y.1 && lex_lt(x.0, y.0))
    } else {
        lex_lt(x.0, y.0)
    }
}

/// Row `a` sorts before row `b`: its key is smaller, or the keys tie and it
/// came first (the sort is stable).
pub open spec fn before(ks: Seq<(Seq<char>, bool)>, dirty_first: bool, a: int, b: int) -> bool {
    key_lt(dirty_first, ks[a], ks[b]) || (!key_lt(dirty_first, ks[b], ks[a]) && a < b)
}

/// Some position of `r` shows row `x`.
pub open spec fn lists(r: Seq<usize>, x: int) -> bool {
    exists|p: int| 0 <= p < r.len() && r[p] == x
}

/// `r` lists every row below `n` exactly once.
pub open spec fn is_permutation(r: Seq<usize>, n: int) -> bool {
    &&& r.len() == n
    &&& forall|p: int| 0 <= p < n ==> r[p] < n
    &&& forall|p: int, q: int| 0 <= p < q < n ==> r[p] != r[q]
    &&& forall|x: int| 0 <= x < n ==> #[trigger] lists(r, x)
}

/// `r` is in the order `before` sets.
pub open spec fn sorted_by(ks: Seq<(Seq<char>, bool)>, dirty_first: bool, r: Seq<usize>) -> bool {
    forall|p: int, q: int| 0 <= p < q < r.len() ==> before(ks, dirty_first, r[p] as int, r[q] as int)
}

/// The rows of `order`: A-Z by name, Z-A as its exact reverse, or dirty
/// first.
pub open spec fn ordered(ks: Seq<(Seq<char>, bool)>, order: SortOrder, r: Seq<usize>) -> bool {
    match order {
        SortOrder::Alphabetical => sorted_by(ks, false, r),
        SortOrder::ReverseAlphabetical => sorted_by(ks, false, r.reverse()),
        SortOrder::DirtyFirst => sorted_by(ks, true, r),
    }
}

proof fn lemma_lex_irreflexive(a: Seq<char>)
    ensures
        !lex_lt(a, a),
    decreases a.len(),
{
    if a.len() > 0 {
        lemma_lex_irreflexive(a.drop_first());
    }
}

proof fn lemma_lex_total(a: Seq<char>, b: Seq<char>)
    ensures
        a != b ==> lex_lt(a, b) || lex_lt(b, a),
        !(lex_lt(a, b) && lex_lt(b, a)),
    decreases a.len(),
{
    if a.len() == 0 && b.len() == 0 {
        assert(a =~= b);
    } else if a.len() > 0 && b.len() > 0 && a[0] == b[0] {
        lemma_lex_total(a.drop_first(), b.drop_first());
        if a.drop_first() == b.drop_first() {
            assert forall|i: int| 0 <= i < a.len() implies a[i] == b[i] by {
                if i > 0 {
                    assert(a[i] == a.drop_first()[i - 1]);
                    assert(b[i] == b.drop_first()[i - 1]);
                }
            }
            assert(a =~= b);
        }
    } else if a.len() > 0 && b.len() > 0 {
        assert((a[0] as int) != (b[0] as int));
    }
}

proof fn lemma_lex_transitive(a: Seq<char>, b: Seq<char>, c: Seq<char>)
    requires
        lex_lt(a, b),
        lex_lt(b, c),
    ensures
        lex_lt(a, c),
    decreases a.len(),
{
    if a.len() > 0 && a[0] == b[0] && b[0] == c[0] {
        lemma_lex_transitive(a.drop_first(), b.drop_first(), c.drop_first());
    }
}

proof fn lemma_key_transitive(df: bool, x: (Seq<char>, bool), y: (Seq<char>, bool), z: (Seq<char>, bool))
    requires
        key_lt(df, x, y),
        key_lt(df, y, z),
    ensures
        key_lt(df, x, z),
{
    if lex_lt(x.0, y.0) && lex_lt(y.0, z.0) {
        lemma_lex_transitive(x.0, y.0, z.0);
    }
}

proof fn lemma_key_tie(df: bool, y: (Seq<char>, bool), z: (Seq<char>, bool))
    requires
        !key_lt(df, y, z),
        !key_lt(df, z, y),
    ensures
        y.0 == z.0,
        df ==> y.1 == z.1,
{
    lemma_lex_total(y.0, z.0);
}

proof fn lemma_key_asymmetric(df: bool, y: (Seq<char>, bool), z: (Seq<char>, bool))
    ensures
        !(key_lt(df, y, z) && key_lt(df, z, y)),
        !key_lt(df, y, y),
{
    lemma_lex_total(y.0, z.0);
    lemma_lex_irreflexive(y.0);
}

/// `before` is a strict total order on the rows.
proof fn lemma_before_order(ks: Seq<(Seq<char>, bool)>, df: bool, a: int, b: int, c: int)
    ensures
        !before(ks, df, a, a),
        a != b ==> before(ks, df, a, b) || before(ks, df, b, a),
        !(before(ks, df, a, b) && before(ks, df, b, a)),
        before(ks, df, a, b) && before(ks, df, b, c) ==> before(ks, df, a, c),
{
    lemma_key_asymmetric(df, ks[a], ks[b]);
    lemma_key_asymmetric(df, ks[a], ks[c]);
    lemma_key_asymmetric(df, ks[b], ks[c]);
    if before(ks, df, a, b) && before(ks, df, b, c) {
        let (x, y, z) = (ks[a], ks[b], ks[c]);
        if key_lt(df, x, y) && key_lt(df, y, z) {
            lemma_key_transitive(df, x, y, z);
        } else if key_lt(df, x, y) {
            lemma_key_tie(df, y, z);
        } else if key_lt(df, y, z) {
            lemma_key_tie(df, x, y);
        } else {
            lemma_key_tie(df, x, y);
            lemma_key_tie(df, y, z);
        }
    }
}

fn lex_less(a: &str, b: &str) -> (r: bool)
    ensures
        r == lex_lt(a@, b@),
{
    let n = a.unicode_len();
    let m = b.unicode_len();
    let mut i: usize = 0;
    assert(a@.skip(0) =~= a@ && b@.skip(0) =~= b@);
    while i < n && i < m
        invariant
            i <= n,
            i <= m,
            n == a@.len(),
            m == b@.len(),
            lex_lt(a@, b@) == lex_lt(a@.skip(i as int), b@.skip(i as int)),
        decreases n - i,
    {
        let x = a.get_char(i);
        let y = b.get_char(i);
        assert(a@.skip(i as int)[0] == x);
        assert(b@.skip(i as int)[0] == y);
        if x != y {
            return (x as u32) < (y as u32);
        }
        assert(a@.skip(i as int).drop_first() =~= a@.skip(i + 1));
        assert(b@.skip(i as int).drop_first() =~= b@.skip(i + 1));
        i = i + 1;
    }
    assert(i == n ==> a@.skip(i as int).len() == 0);
    assert(i == m ==> b@.skip(i as int).len() == 0);
    i < m && i == n
}

fn key_less(df: bool, a_name: &str, a_dirty: bool, b_name: &str, b_dirty: bool) -> (r: bool)
    ensures
        r == key_lt(df, (a_name@, a_dirty), (b_name@, b_dirty)),
{
    if df {
        if a_dirty && !b_dirty {
            return true;
        }
        if a_dirty != b_dirty {
            return false;
        }
    }
    lex_less(a_name, b_name)
}

fn row_before(df: bool, lows: &Vec<String>, keys: &Vec<RepoKey>, a: usize, b: usize) -> (r: bool)
    requires
        a < keys@.len(),
        b < keys@.len(),
        lows@.len() == keys@.len(),
        forall|j: int| 0 <= j < keys@.len() ==> (#[trigger] lows@[j])@ == keys_v(keys@)[j].0,
    ensures
        r == before(keys_v(keys@), df, a as int, b as int),
{
    let ab = key_less(df, lows[a].as_str(), keys[a].dirty, lows[b].as_str(), keys[b].dirty);
    if ab {
        return true;
    }
    let ba = key_less(df, lows[b].as_str(), keys[b].dirty, lows[a].as_str(), keys[a].dirty);
    !ba && a < b
}

fn sort_rows(keys: &Vec<RepoKey>, df: bool) -> (r: Vec<usize>)
    ensures
        is_permutation(r@, keys@.len() as int),
        sorted_by(keys_v(keys@), df, r@),
{
    let ghost ks = keys_v(keys@);
    let n = keys.len();
    let mut lows: Vec<String> = Vec::new();
    let mut j: usize = 0;
    while j < n
        invariant
            n == keys@.len(),
            ks == keys_v(keys@),
            j <= n,
            lows@.len() == j,
            forall|t: int| 0 <= t < j ==> (#[trigger] lows@[t])@ == ks[t].0,
        decreases n - j,
    {
        lows.push(to_lowercase(keys[j].name.as_str()));
        j = j + 1;
    }
    let mut s: Vec<usize> = Vec::new();
    let mut i: usize = 0;
    while i < n
        invariant
            n == keys@.len(),
            ks == keys_v(keys@),
            lows@.len() == n,
            forall|t: int| 0 <= t < n ==> (#[trigger] lows@[t])@ == ks[t].0,
            i <= n,
            s@.len() == i,
            forall|p: int| 0 <= p < i ==> s@[p] < i,
            forall|p: int, q: int| 0 <= p < q < i ==> s@[p] != s@[q],
            forall|x: int| 0 <= x < i ==> #[trigger] lists(s@, x),
            sorted_by(ks, df, s@),
        decreases n - i,
    {
        let mut k: usize = 0;
        while k < s.len() && row_before(df, &lows, keys, s[k], i)
            invariant
                n == keys@.len(),
                ks == keys_v(keys@),
                lows@.len() == n,
                forall|t: int| 0 <= t < n ==> (#[trigger] lows@[t])@ == ks[t].0,
                i < n,
                s@.len() == i,
                forall|p: int| 0 <= p < i ==> s@[p] < i,
                k <= i,
                forall|p: int| 0 <= p < k ==> before(ks, df, s@[p] as int, i as int),
            decreases i - k,
        {
            k = k + 1;
        }
        proof {
            if k < i {
                lemma_before_order(ks, df, s@[k as int] as int, i as int, i as int);
                assert(before(ks, df, i as int, s@[k as int] as int));
                assert forall|q: int| k < q < i implies before(ks, df, i as int, s@[q] as int) by {
                    lemma_before_order(ks, df, i as int, s@[k as int] as int, s@[q] as int);
                }
            }
        }
        let ghost old_s = s@;
        s.insert(k, i);
        proof {
            assert forall|p: int, q: int| 0 <= p < q < s@.len() implies before(ks, df, s@[p] as int, s@[q] as int) by {
                if q < k {
                    assert(s@[p] == old_s[p] && s@[q] == old_s[q]);
                } else if q == k {
                    assert(s@[p] == old_s[p]);
                } else if p < k {
                    assert(s@[p] == old_s[p] && s@[q] == old_s[q - 1]);
                    if q - 1 == k as int {
                        assert(before(ks, df, i as int, old_s[k as int] as int));
                    }
                    lemma_before_order(ks, df, s@[p] as int, i as int, s@[q] as int);
                } else if p == k {
                    assert(s@[q] == old_s[q - 1]);
                } else {
                    assert(s@[p] == old_s[p - 1] && s@[q] == old_s[q - 1]);
                }
            }
            assert forall|x: int| 0 <= x < i + 1 implies #[trigger] lists(s@, x) by {
                if x == i {
                    assert(s@[k as int] == x);
                } else {
                    assert(lists(old_s, x));
                    let p = choose|p: int| 0 <= p < old_s.len() && old_s[p] == x;
                    if p < k {
                        assert(s@[p] == x);
                    } else {
                        assert(s@[p + 1] == x);
                    }
                }
            }
            assert forall|p: int, q: int| 0 <= p < q < i + 1 implies s@[p] != s@[q] by {
                if p != k && q != k {
                    let pp = if p < k { p } else { p - 1 };
                    let qq = if q < k { q } else { q - 1 };
                    assert(s@[p] == old_s[pp] && s@[q] == old_s[qq]);
                } else if p == k {
                    assert(s@[q] == old_s[q - 1]);
                } else {
                    assert(s@[p] == old_s[p]);
                }
            }
            assert forall|p: int| 0 <= p < i + 1 implies s@[p] < i + 1 by {
                if p < k {
                    assert(s@[p] == old_s[p]);
                } else if p > k {
                    assert(s@[p] == old_s[p - 1]);
                }
            }
        }
        i = i + 1;
    }
    s
}

/// The rows of `keys` in `order`: `r[p]` is the row shown at position
/// `p`. Every row appears once; A-Z and dirty-first are stable sorts, and
/// Z-A lists the A-Z order backwards.
pub fn sorted_order(keys: &Vec<RepoKey>, order: SortOrder) -> (r: Vec<usize>)
    ensures
        is_permutation(r@, keys@.len() as int),
        ordered(keys_v(keys@), order, r@),
{
    match order {
        SortOrder::Alphabetical => sort_rows(keys, false),
        SortOrder::DirtyFirst => sort_rows(keys, true),
        SortOrder::ReverseAlphabetical => {
            let az = sort_rows(keys, false);
            let n = az.len();
            let mut r: Vec<usize> = Vec::new();
            let mut k: usize = 0;
            while k < n
                invariant
                    n == az@.len(),
                    k <= n,
                    r@.len() == k,
                    forall|p: int| 0 <= p < k ==> r@[p] == az@[n - 1 - p],
                decreases n - k,
            {
                r.push(az[n - 1 - k]);
                k = k + 1;
            }
            proof {
                assert(r@.reverse() =~= az@);
                assert forall|x: int| 0 <= x < n implies #[trigger] lists(r@, x) by {
                    assert(lists(az@, x));
                    let p = choose|p: int| 0 <= p < az@.len() && az@[p] == x;
                    assert(r@[n - 1 - p] == x);
                }
                assert forall|p: int, q: int| 0 <= p < q < n implies r@[p] != r@[q] by {
                    assert(r@[p] == az@[n - 1 - p] && r@[q] == az@[n - 1 - q]);
                }
            }
            r
        },
    }
}

/// Where `row` went in the sorted order `r`: the position showing it.
pub fn position_after_sort(r: &Vec<usize>, row: usize) -> (p: Option<usize>)
    ensures
        match p {
            Some(p) => p < r@.len() && r@[p as int] == row,
            None => forall|q: int| 0 <= q < r@.len() ==> r@[q] != row,
        },
{
    let mut k: usize = 0;
    while k < r.len()
        invariant
            k <= r@.len(),
            forall|q: int| 0 <= q < k ==> r@[q] != row,
        decreases r@.len() - k,
    {
        if r[k] == row {
            return Some(k);
        }
        k = k + 1;
    }
    None
}

/// A sort moves rows, never the selection off its repository: whatever row
/// was selected is shown at some position of the sorted order.
pub proof fn law_sort_keeps_every_row(r: Seq<usize>, n: int, row: int)
    requires
        is_permutation(r, n),
        0 <= row < n,
    ensures
        lists(r, row),
{
}

/// The order is a strict total order on the rows, so the sorted order is the
/// only one: two results of the same sort agree position by position.
pub proof fn law_sort_is_deterministic(ks: Seq<(Seq<char>, bool)>, df: bool, r1: Seq<usize>, r2: Seq<usize>)
    requires
        is_permutation(r1, ks.len() as int),
        is_permutation(r2, ks.len() as int),
        sorted_by(ks, df, r1),
        sorted_by(ks, df, r2),
    ensures
        r1 == r2,
{
    let n = ks.len() as int;
    assert forall|p: int| 0 <= p < n implies r1[p] == r2[p] by {
        lemma_same_rank(ks, df, r1, r2, p);
    }
    assert(r1 =~= r2);
}

/// In a sorted permutation the row at position `p` has exactly `p` rows
/// before it; two sorted permutations therefore agree at `p`.
proof fn lemma_same_rank(ks: Seq<(Seq<char>, bool)>, df: bool, r1: Seq<usize>, r2: Seq<usize>, p: int)
    requires
        is_permutation(r1, ks.len() as int),
        is_permutation(r2, ks.len() as int),
        sorted_by(ks, df, r1),
        sorted_by(ks, df, r2),
        0 <= p < ks.len(),
    ensures
        r1[p] == r2[p],
{
    let n = ks.len() as int;
    let a = r1[p] as int;
    let b = r2[p] as int;
    if a != b {
        lemma_before_order(ks, df, a, b, b);
        assert(lists(r2, a) && lists(r1, b));
        let qa = choose|q: int| 0 <= q < r2.len() && r2[q] == a;
        let qb = choose|q: int| 0 <= q < r1.len() && r1[q] == b;
        if before(ks, df, a, b) {
            // In r1, b comes after a, so qb > p; in r2, a comes before b, so qa < p.
            if qb < p {
                lemma_before_order(ks, df, b, a, a);
            }
            if qa > p {
                lemma_before_order(ks, df, b, a, a);
            }
            lemma_count_before(ks, df, r1, r2, p, a, b);
        } else {
            if qa < p {
                lemma_before_order(ks, df, a, b, b);
            }
            if qb > p {
                lemma_before_order(ks, df, a, b, b);
            }
            lemma_count_before(ks, df, r2, r1, p, b, a);
        }
    }
}

/// The number of rows of `r` before row `x` in the order.
spec fn rank(ks: Seq<(Seq<char>, bool)>, df: bool, r: Seq<usize>, x: int, k: int) -> int
    decreases k,
{
    if k <= 0 {
        0
    } else {
        rank(ks, df, r, x, k - 1) + if before(ks, df, r[k - 1] as int, x) { 1int } else { 0int }
    }
}

proof fn lemma_rank_bounds(ks: Seq<(Seq<char>, bool)>, df: bool, r: Seq<usize>, x: int, k: int)
    requires
        0 <= k,
    ensures
        0 <= rank(ks, df, r, x, k) <= k,
    decreases k,
{
    if k > 0 {
        lemma_rank_bounds(ks, df, r, x, k - 1);
    }
}

/// In a sorted permutation, the rows before the one at `p` are exactly the
/// first `p`.
proof fn lemma_rank_of_position(ks: Seq<(Seq<char>, bool)>, df: bool, r: Seq<usize>, p: int, k: int)
    requires
        is_permutation(r, ks.len() as int),
        sorted_by(ks, df, r),
        0 <= p < ks.len(),
        0 <= k <= ks.len(),
    ensures
        rank(ks, df, r, r[p] as int, k) == if k <= p { k } else { p },
    decreases k,
{
    if k > 0 {
        lemma_rank_of_position(ks, df, r, p, k - 1);
        let y = r[k - 1] as int;
        let x = r[p] as int;
        lemma_before_order(ks, df, y, x, x);
        if k - 1 > p {
            assert(before(ks, df, x, y));
        }
    }
}

/// Rank does not depend on the order in which a permutation lists the rows.
proof fn lemma_rank_permutation_invariant(ks: Seq<(Seq<char>, bool)>, df: bool, r1: Seq<usize>, r2: Seq<usize>, x: int)
    requires
        is_permutation(r1, ks.len() as int),
        is_permutation(r2, ks.len() as int),
    ensures
        rank(ks, df, r1, x, ks.len() as int) == rank(ks, df, r2, x, ks.len() as int),
{
    let n = ks.len() as int;
    lemma_rank_is_count(ks, df, r1, x, n);
    lemma_rank_is_count(ks, df, r2, x, n);
    assert(r1.take(n).to_set() =~= r2.take(n).to_set()) by {
        assert forall|y: usize| r1.take(n).to_set().contains(y) <==> r2.take(n).to_set().contains(y) by {
            if r1.take(n).to_set().contains(y) {
                assert(lists(r2, y as int));
                let q = choose|q: int| 0 <= q < r2.len() && r2[q] == y as int;
                assert(r2.take(n)[q] == y);
            }
            if r2.take(n).to_set().contains(y) {
                assert(lists(r1, y as int));
                let q = choose|q: int| 0 <= q < r1.len() && r1[q] == y as int;
                assert(r1.take(n)[q] == y);
            }
        }
    }
}

/// The rank over the first `k` entries counts the distinct rows among them
/// that come before `x`.
proof fn lemma_rank_is_count(ks: Seq<(Seq<char>, bool)>, df: bool, r: Seq<usize>, x: int, k: int)
    requires
        0 <= k <= r.len(),
        forall|p: int, q: int| 0 <= p < q < r.len() ==> r[p] != r[q],
    ensures
        rank(ks, df, r, x, k) == r.take(k).to_set().filter(|y: usize| before(ks, df, y as int, x)).len(),
    decreases k,
{
    let f = |y: usize| before(ks, df, y as int, x);
    if k == 0 {
        assert(r.take(0).to_set() =~= Set::<usize>::empty());
        assert(r.take(0).to_set().filter(f) =~= Set::<usize>::empty());
    } else {
        lemma_rank_is_count(ks, df, r, x, k - 1);
        let prev = r.take(k - 1).to_set();
        let y = r[k - 1];
        assert(r.take(k).to_set() =~= prev.insert(y)) by {
            assert(r.take(k) =~= r.take(k - 1).push(y));
            r.take(k - 1).lemma_push_to_set_commute(y);
        }
        assert(!prev.contains(y)) by {
            if prev.contains(y) {
                let t = r.take(k - 1);
                let q = choose|q: int| 0 <= q < t.len() && t[q] == y;
                assert(r[q] == r[k - 1]);
            }
        }
        vstd::seq_lib::seq_to_set_is_finite(r.take(k - 1));
        if f(y) {
            assert(prev.insert(y).filter(f) =~= prev.filter(f).insert(y));
        } else {
            assert(prev.insert(y).filter(f) =~= prev.filter(f));
        }
    }
}

/// Two sorted permutations that show `lo` and `hi` at the same position
/// `p`: `lo` cannot come before `hi` (the rows before `hi` would number
/// more than `p` in one and exactly `p` in the other).
proof fn lemma_count_before(ks: Seq<(Seq<char>, bool)>, df: bool, r: Seq<usize>, s: Seq<usize>, p: int, lo: int, hi: int)
    requires
        is_permutation(r, ks.len() as int),
        is_permutation(s, ks.len() as int),
        sorted_by(ks, df, r),
        sorted_by(ks, df, s),
        0 <= p < ks.len(),
        r[p] == lo,
        s[p] == hi,
    ensures
        !before(ks, df, lo, hi),
{
    let n = ks.len() as int;
    if before(ks, df, lo, hi) {
        assert(lists(r, hi));
        let qh = choose|q: int| 0 <= q < r.len() && r[q] == hi;
        lemma_before_order(ks, df, lo, hi, hi);
        if qh <= p {
            if qh < p {
                assert(before(ks, df, hi, lo));
            }
        } else {
            lemma_rank_of_position(ks, df, r, qh, n);
            lemma_rank_of_position(ks, df, s, p, n);
            lemma_rank_permutation_invariant(ks, df, r, s, hi);
        }
    }
}

} // verus!
