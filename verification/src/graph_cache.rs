//! Bounded least-recently-used cache of built commit graphs, keyed by the
//! repository and the options that shape the rows.

use vstd::prelude::*;
use crate::graph::{DiffStat, GraphRow, RowView, rows_view, strings_view, clone_rows, clone_strings};
use crate::status::BranchFilter;

verus! {

/// Upper bound on cached graph snapshots.
pub const GRAPH_CACHE_CAPACITY: usize = 32;

/// Optional restrictions of the drawn commits to some branches or authors.
#[derive(Debug)]
pub struct GraphFilters {
    pub branches: Option<Vec<String>>,
    pub authors: Option<Vec<String>>,
}

/// The options that shape the built rows, with the repository path.
#[derive(Debug)]
pub struct GraphCacheKey {
    pub path: String,
    pub branch_filter: BranchFilter,
    pub first_parent: bool,
    pub show_stats: bool,
    pub filters: GraphFilters,
}

/// The value of a key.
pub struct KeyView {
    pub path: Seq<char>,
    pub branch_filter: BranchFilter,
    pub first_parent: bool,
    pub show_stats: bool,
    pub branches: Option<Seq<Seq<char>>>,
    pub authors: Option<Seq<Seq<char>>>,
}

/// The view of an optional list of strings.
pub open spec fn opt_strings_view(o: Option<Vec<String>>) -> Option<Seq<Seq<char>>> {
    match o {
        Some(v) => Some(strings_view(v@)),
        None => None,
    }
}

impl View for GraphCacheKey {
    type V = KeyView;

    open spec fn view(&self) -> KeyView {
        KeyView {
            path: self.path@,
            branch_filter: self.branch_filter,
            first_parent: self.first_parent,
            show_stats: self.show_stats,
            branches: opt_strings_view(self.filters.branches),
            authors: opt_strings_view(self.filters.authors),
        }
    }
}

/// A key for `path` drawing all branches with stats and no filters.
pub fn graph_key(path: &str) -> (k: GraphCacheKey)
    ensures
        k@ == (KeyView {
            path: path@,
            branch_filter: BranchFilter::All,
            first_parent: false,
            show_stats: true,
            branches: None,
            authors: None,
        }),
{
    GraphCacheKey {
        path: path.to_string(),
        branch_filter: BranchFilter::All,
        first_parent: false,
        show_stats: true,
        filters: GraphFilters { branches: None, authors: None },
    }
}

fn strings_eq(a: &Vec<String>, b: &Vec<String>) -> (r: bool)
    ensures
        r == (strings_view(a@) == strings_view(b@)),
{
    if a.len() != b.len() {
        assert(strings_view(a@).len() != strings_view(b@).len());
        return false;
    }
    let mut i: usize = 0;
    while i < a.len()
        invariant
            a@.len() == b@.len(),
            i <= a@.len(),
            forall|j: int| 0 <= j < i ==> (#[trigger] a@[j])@ == b@[j]@,
        decreases a@.len() - i,
    {
        if a[i] != b[i] {
            assert(strings_view(a@)[i as int] != strings_view(b@)[i as int]);
            return false;
        }
        i = i + 1;
    }
    assert(strings_view(a@) =~= strings_view(b@));
    true
}

fn opt_strings_eq(a: &Option<Vec<String>>, b: &Option<Vec<String>>) -> (r: bool)
    ensures
        r == (opt_strings_view(*a) == opt_strings_view(*b)),
{
    match (a, b) {
        (Some(x), Some(y)) => strings_eq(x, y),
        (None, None) => true,
        _ => false,
    }
}

impl GraphCacheKey {
    /// Whether two keys are the same key.
    pub fn same(&self, other: &GraphCacheKey) -> (r: bool)
        ensures
            r == (self@ == other@),
    {
        self.path == other.path && self.branch_filter == other.branch_filter
            && self.first_parent == other.first_parent && self.show_stats == other.show_stats
            && opt_strings_eq(&self.filters.branches, &other.filters.branches)
            && opt_strings_eq(&self.filters.authors, &other.filters.authors)
    }
}

/// A built graph snapshot, restored on a cache hit.
#[derive(Debug)]
pub struct CachedGraph {
    pub rows: Vec<GraphRow>,
    pub filter_branches: Vec<String>,
    pub filter_authors: Vec<String>,
}

/// The value of a snapshot.
pub struct CachedView {
    pub rows: Seq<RowView>,
    pub filter_branches: Seq<Seq<char>>,
    pub filter_authors: Seq<Seq<char>>,
}

impl View for CachedGraph {
    type V = CachedView;

    open spec fn view(&self) -> CachedView {
        CachedView {
            rows: rows_view(self.rows@),
            filter_branches: strings_view(self.filter_branches@),
            filter_authors: strings_view(self.filter_authors@),
        }
    }
}

impl Clone for CachedGraph {
    fn clone(&self) -> (r: Self)
        ensures
            r@ == self@,
    {
        CachedGraph {
            rows: clone_rows(&self.rows),
            filter_branches: clone_strings(&self.filter_branches),
            filter_authors: clone_strings(&self.filter_authors),
        }
    }
}

/// A snapshot of `rows` with no filter values.
pub fn cached_graph(rows: Vec<GraphRow>) -> (c: CachedGraph)
    ensures
        c@ == (CachedView { rows: rows_view(rows@), filter_branches: Seq::empty(), filter_authors: Seq::empty() }),
{
    let c = CachedGraph { rows, filter_branches: Vec::new(), filter_authors: Vec::new() };
    assert(strings_view(c.filter_branches@) =~= Seq::<Seq<char>>::empty());
    assert(strings_view(c.filter_authors@) =~= Seq::<Seq<char>>::empty());
    c
}

#[derive(Debug)]
struct GraphCacheEntry {
    key: GraphCacheKey,
    cached: CachedGraph,
    last_used: u64,
}

/// The value of an entry: its key, its snapshot and its last use.
pub struct EntryView {
    pub key: KeyView,
    pub cached: CachedView,
    pub last_used: u64,
}

/// Whether `k` has an entry.
pub open spec fn has_key(es: Seq<EntryView>, k: KeyView) -> bool {
    exists|i: int| 0 <= i < es.len() && (#[trigger] es[i]).key == k
}

/// The position of `k`'s entry.
pub open spec fn pos(es: Seq<EntryView>, k: KeyView) -> int {
    choose|i: int| 0 <= i < es.len() && (#[trigger] es[i]).key == k
}

/// The snapshot stored under `k`.
pub open spec fn value_of(es: Seq<EntryView>, k: KeyView) -> CachedView {
    es[pos(es, k)].cached
}

/// The last use of `k`'s entry.
pub open spec fn recency_of(es: Seq<EntryView>, k: KeyView) -> u64 {
    es[pos(es, k)].last_used
}

/// Keys are unique, uses are unique and none is later than `clock`.
pub open spec fn entries_wf(es: Seq<EntryView>, clock: u64) -> bool {
    &&& forall|i: int, j: int| 0 <= i < es.len() && 0 <= j < es.len() && i != j ==> (#[trigger] es[i]).key != (#[trigger] es[j]).key
    &&& forall|i: int, j: int| 0 <= i < es.len() && 0 <= j < es.len() && i != j ==> (#[trigger] es[i]).last_used != (#[trigger] es[j]).last_used
    &&& forall|i: int| 0 <= i < es.len() ==> (#[trigger] es[i]).last_used <= clock
}

/// The snapshots by key.
pub open spec fn contents(es: Seq<EntryView>) -> Map<KeyView, CachedView> {
    Map::new(|k: KeyView| has_key(es, k), |k: KeyView| value_of(es, k))
}

/// The last use of each key.
pub open spec fn recency(es: Seq<EntryView>) -> Map<KeyView, u64> {
    Map::new(|k: KeyView| has_key(es, k), |k: KeyView| recency_of(es, k))
}

/// Whether `k` is the key used least recently.
pub open spec fn is_lru(es: Seq<EntryView>, k: KeyView) -> bool {
    &&& has_key(es, k)
    &&& forall|j: int| 0 <= j < es.len() ==> recency_of(es, k) <= (#[trigger] es[j]).last_used
}

proof fn lemma_pos(es: Seq<EntryView>, i: int)
    requires
        0 <= i < es.len(),
        forall|a: int, b: int| 0 <= a < es.len() && 0 <= b < es.len() && a != b ==> (#[trigger] es[a]).key != (#[trigger] es[b]).key,
    ensures
        has_key(es, es[i].key),
        pos(es, es[i].key) == i,
{
    assert(es[i].key == es[i].key);
    let j = pos(es, es[i].key);
    assert(es[j].key == es[i].key);
}

/// With unique keys and uses none later than `clock`: each cached key's
/// last use is at most `clock`, two keys never share a last use, and the
/// keys with a snapshot are the keys with a last use.
proof fn lemma_recency_bounds(es: Seq<EntryView>, clock: u64)
    requires
        entries_wf(es, clock),
    ensures
        forall|o: KeyView| #[trigger] recency(es).dom().contains(o) ==> recency(es)[o] <= clock,
        forall|o1: KeyView, o2: KeyView|
            recency(es).dom().contains(o1) && recency(es).dom().contains(o2) && o1 != o2
                ==> #[trigger] recency(es)[o1] != #[trigger] recency(es)[o2],
        recency(es).dom() == contents(es).dom(),
{
    assert forall|o: KeyView| #[trigger] recency(es).dom().contains(o) implies recency(es)[o] <= clock by {
        let i = pos(es, o);
        assert(es[i].key == o);
    }
    assert forall|o1: KeyView, o2: KeyView|
        recency(es).dom().contains(o1) && recency(es).dom().contains(o2) && o1 != o2
            implies #[trigger] recency(es)[o1] != #[trigger] recency(es)[o2] by {
        let i = pos(es, o1);
        let j = pos(es, o2);
        assert(es[i].key == o1 && es[j].key == o2);
    }
    assert(recency(es).dom() =~= contents(es).dom());
}

/// Bounded LRU cache of built graphs.
#[derive(Debug)]
pub struct GraphCache {
    entries: Vec<GraphCacheEntry>,
    capacity: usize,
    /// Monotonic access clock for LRU eviction.
    clock: u64,
}

impl GraphCache {
    /// The entries, in storage order.
    pub closed spec fn entries(self) -> Seq<EntryView> {
        self.entries@.map_values(|e: GraphCacheEntry| EntryView { key: e.key@, cached: e.cached@, last_used: e.last_used })
    }

    /// The entry limit the cache was made with.
    pub closed spec fn capacity(self) -> usize {
        self.capacity
    }

    /// The access clock.
    pub closed spec fn clock(self) -> u64 {
        self.clock
    }

    /// Keys and uses are unique, no use is later than the clock, and the
    /// entry count stays within the capacity (one entry when it is zero).
    pub closed spec fn wf(self) -> bool {
        &&& entries_wf(self.entries(), self.clock)
        &&& self.entries@.len() <= if self.capacity == 0 { 1 } else { self.capacity as int }
    }

    /// An empty cache holding at most `capacity` snapshots.
    pub fn new(capacity: usize) -> (c: Self)
        ensures
            c.wf(),
            c.entries() == Seq::<EntryView>::empty(),
            c.capacity() == capacity,
            c.clock() == 0,
    {
        let c = GraphCache { entries: Vec::new(), capacity, clock: 0 };
        assert(c.entries() =~= Seq::<EntryView>::empty());
        c
    }
}


proof fn lemma_update_same_key(es: Seq<EntryView>, i: int, e: EntryView)
    requires
        0 <= i < es.len(),
        e.key == es[i].key,
        forall|a: int, b: int| 0 <= a < es.len() && 0 <= b < es.len() && a != b ==> (#[trigger] es[a]).key != (#[trigger] es[b]).key,
    ensures
        contents(es.update(i, e)) == contents(es).insert(e.key, e.cached),
        recency(es.update(i, e)) == recency(es).insert(e.key, e.last_used),
        forall|a: int, b: int| 0 <= a < es.len() && 0 <= b < es.len() && a != b ==> (#[trigger] es.update(i, e)[a]).key != (#[trigger] es.update(i, e)[b]).key,
{
    let es2 = es.update(i, e);
    assert forall|a: int, b: int| 0 <= a < es.len() && 0 <= b < es.len() && a != b implies (#[trigger] es2[a]).key != (#[trigger] es2[b]).key by {
        assert(es2[a].key == es[a].key);
        assert(es2[b].key == es[b].key);
    }
    lemma_pos(es2, i);
    assert forall|k: KeyView| has_key(es2, k) <==> (has_key(es, k) || k == e.key) by {
        if has_key(es2, k) {
            let j = pos(es2, k);
            assert(es[j].key == es2[j].key);
        }
        if has_key(es, k) {
            let j = pos(es, k);
            assert(es2[j].key == es[j].key);
        }
    }
    assert forall|k: KeyView| has_key(es2, k) && k != e.key implies value_of(es2, k) == value_of(es, k) && recency_of(es2, k) == recency_of(es, k) by {
        let j = pos(es2, k);
        assert(es[j].key == k);
        assert(j != i);
        lemma_pos(es, j);
    }
    assert(contents(es2) =~= contents(es).insert(e.key, e.cached));
    assert(recency(es2) =~= recency(es).insert(e.key, e.last_used));
}

proof fn lemma_push_new_key(es: Seq<EntryView>, e: EntryView)
    requires
        !has_key(es, e.key),
        forall|a: int, b: int| 0 <= a < es.len() && 0 <= b < es.len() && a != b ==> (#[trigger] es[a]).key != (#[trigger] es[b]).key,
    ensures
        contents(es.push(e)) == contents(es).insert(e.key, e.cached),
        recency(es.push(e)) == recency(es).insert(e.key, e.last_used),
        forall|a: int, b: int| 0 <= a < es.len() + 1 && 0 <= b < es.len() + 1 && a != b ==> (#[trigger] es.push(e)[a]).key != (#[trigger] es.push(e)[b]).key,
{
    let es2 = es.push(e);
    assert forall|a: int, b: int| 0 <= a < es.len() + 1 && 0 <= b < es.len() + 1 && a != b implies (#[trigger] es2[a]).key != (#[trigger] es2[b]).key by {
        if a < es.len() && b < es.len() {
            assert(es2[a] == es[a] && es2[b] == es[b]);
        } else if a < es.len() {
            assert(es2[a] == es[a]);
            if es[a].key == e.key { assert(has_key(es, e.key)); }
        } else if b < es.len() {
            assert(es2[b] == es[b]);
            if es[b].key == e.key { assert(has_key(es, e.key)); }
        }
    }
    lemma_pos(es2, es.len() as int);
    assert forall|k: KeyView| has_key(es2, k) <==> (has_key(es, k) || k == e.key) by {
        if has_key(es2, k) {
            let j = pos(es2, k);
            if j < es.len() { assert(es[j] == es2[j]); }
        }
        if has_key(es, k) {
            let j = pos(es, k);
            assert(es2[j] == es[j]);
        }
    }
    assert forall|k: KeyView| has_key(es2, k) && k != e.key implies value_of(es2, k) == value_of(es, k) && recency_of(es2, k) == recency_of(es, k) by {
        let j = pos(es2, k);
        assert(j < es.len());
        assert(es[j] == es2[j]);
        lemma_pos(es, j);
        lemma_pos(es2, j);
    }
    assert(contents(es2) =~= contents(es).insert(e.key, e.cached));
    assert(recency(es2) =~= recency(es).insert(e.key, e.last_used));
}

proof fn lemma_remove(es: Seq<EntryView>, i: int, clock: u64)
    requires
        0 <= i < es.len(),
        entries_wf(es, clock),
    ensures
        contents(es.remove(i)) == contents(es).remove(es[i].key),
        recency(es.remove(i)) == recency(es).remove(es[i].key),
        entries_wf(es.remove(i), clock),
{
    let es2 = es.remove(i);
    let k0 = es[i].key;
    assert forall|a: int| 0 <= a < es2.len() implies (#[trigger] es2[a]).last_used <= clock by {
        if a < i { assert(es2[a] == es[a]); } else { assert(es2[a] == es[a + 1]); }
    }
    assert forall|a: int, b: int| 0 <= a < es2.len() && 0 <= b < es2.len() && a != b implies (#[trigger] es2[a]).key != (#[trigger] es2[b]).key
        && es2[a].last_used != es2[b].last_used by {
        let a1 = if a < i { a } else { a + 1 };
        let b1 = if b < i { b } else { b + 1 };
        assert(es2[a] == es[a1]);
        assert(es2[b] == es[b1]);
    }
    assert forall|k: KeyView| has_key(es2, k) <==> (has_key(es, k) && k != k0) by {
        if has_key(es2, k) {
            let j = pos(es2, k);
            let j1 = if j < i { j } else { j + 1 };
            assert(es2[j] == es[j1]);
            assert(es[j1].key == k);
            if k == k0 { assert(j1 != i); }
        }
        if has_key(es, k) && k != k0 {
            let j = pos(es, k);
            assert(j != i);
            let j2 = if j < i { j } else { j - 1 };
            assert(es2[j2] == es[j]);
        }
    }
    assert forall|k: KeyView| has_key(es2, k) implies value_of(es2, k) == value_of(es, k) && recency_of(es2, k) == recency_of(es, k) by {
        let j = pos(es2, k);
        let j1 = if j < i { j } else { j + 1 };
        assert(es2[j] == es[j1]);
        lemma_pos(es, j1);
    }
    assert(contents(es2) =~= contents(es).remove(k0));
    assert(recency(es2) =~= recency(es).remove(k0));
}
impl GraphCache {
    fn find(&self, key: &GraphCacheKey) -> (r: Option<usize>)
        requires
            self.wf(),
        ensures
            match r {
                Some(i) => i < self.entries().len() && self.entries()[i as int].key == key@ && has_key(self.entries(), key@)
                    && pos(self.entries(), key@) == i,
                None => !has_key(self.entries(), key@),
            },
    {
        let mut i: usize = 0;
        while i < self.entries.len()
            invariant
                i <= self.entries@.len(),
                self.wf(),
                forall|j: int| 0 <= j < i ==> (#[trigger] self.entries()[j]).key != key@,
            decreases self.entries@.len() - i,
        {
            if self.entries[i].key.same(key) {
                proof { lemma_pos(self.entries(), i as int); }
                return Some(i);
            }
            i = i + 1;
        }
        None
    }

    /// Number of cached snapshots.
    pub fn len(&self) -> (n: usize)
        ensures
            n == self.entries().len(),
    {
        self.entries.len()
    }

    /// Whether `key` has a snapshot, without touching recency.
    pub fn contains(&self, key: &GraphCacheKey) -> (r: bool)
        requires
            self.wf(),
        ensures
            r == contents(self.entries()).dom().contains(key@),
    {
        self.find(key).is_some()
    }

    /// The snapshot stored under `key`, marking it most recently used.
    pub fn get(&mut self, key: &GraphCacheKey) -> (r: Option<CachedGraph>)
        requires
            old(self).wf(),
            old(self).clock() < u64::MAX,
        ensures
            final(self).wf(),
            final(self).capacity() == old(self).capacity(),
            contents(final(self).entries()) == contents(old(self).entries()),
            has_key(old(self).entries(), key@) ==> {
                &&& r is Some
                &&& r->0@ == contents(old(self).entries())[key@]
                &&& final(self).clock() == old(self).clock() + 1
                &&& recency(final(self).entries()) == recency(old(self).entries()).insert(key@, (old(self).clock() + 1) as u64)
                &&& final(self).entries().len() == old(self).entries().len()
                &&& forall|o: KeyView| #[trigger] recency(final(self).entries()).dom().contains(o) && o != key@
                    ==> recency(final(self).entries())[o] < recency(final(self).entries())[key@]
            },
            !has_key(old(self).entries(), key@) ==> {
                &&& r is None
                &&& final(self).entries() == old(self).entries()
                &&& final(self).clock() == old(self).clock()
            },
    {
        match self.find(key) {
            None => None,
            Some(i) => {
                let ghost es = self.entries();
                self.clock = self.clock + 1;
                let c = self.clock;
                self.entries[i].last_used = c;
                let ghost e = EntryView { key: es[i as int].key, cached: es[i as int].cached, last_used: c };
                assert(self.entries() =~= es.update(i as int, e));
                proof {
                    lemma_update_same_key(es, i as int, e);
                    lemma_recency_bounds(es, (c - 1) as u64);
                    assert forall|o: KeyView| #[trigger] recency(self.entries()).dom().contains(o) && o != key@
                        implies recency(self.entries())[o] < recency(self.entries())[key@] by {
                        assert(recency(es).dom().contains(o));
                    }
                }
                Some(self.entries[i].cached.clone())
            },
        }
    }
}

/// The least recently used key (unique while uses are unique).
pub open spec fn lru_victim(es: Seq<EntryView>) -> KeyView {
    choose|k: KeyView| is_lru(es, k)
}

proof fn lemma_lru_at(es: Seq<EntryView>, m: int, clock: u64)
    requires
        entries_wf(es, clock),
        0 <= m < es.len(),
        forall|j: int| 0 <= j < es.len() ==> es[m].last_used <= (#[trigger] es[j]).last_used,
    ensures
        is_lru(es, es[m].key),
        lru_victim(es) == es[m].key,
{
    lemma_pos(es, m);
    assert(is_lru(es, es[m].key));
    let k0 = lru_victim(es);
    assert(is_lru(es, k0));
    let p0 = pos(es, k0);
    assert(es[p0].key == k0);
    assert(es[p0].last_used <= es[m].last_used);
    assert(es[m].last_used <= es[p0].last_used);
    if p0 != m {
        assert(es[p0].last_used != es[m].last_used);
    }
}

/// `after` is `before` with `v` stored under `k` as the most recently used
/// snapshot; when `k` was new and the cache full, the least recently used
/// snapshot went first.
pub open spec fn inserted(before: GraphCache, after: GraphCache, k: KeyView, v: CachedView) -> bool {
    let es = before.entries();
    let evicts = !has_key(es, k) && es.len() >= before.capacity() && es.len() > 0;
    let victim = lru_victim(es);
    &&& after.capacity() == before.capacity()
    &&& after.clock() == before.clock() + 1
    &&& evicts ==> is_lru(es, victim)
    &&& contents(after.entries()) == (if evicts { contents(es).remove(victim) } else { contents(es) }).insert(k, v)
    &&& recency(after.entries()) == (if evicts { recency(es).remove(victim) } else { recency(es) }).insert(
        k,
        (before.clock() + 1) as u64,
    )
}

impl GraphCache {
    /// Drops the least recently used snapshot, if any.
    pub fn evict_lru(&mut self)
        requires
            old(self).wf(),
        ensures
            entries_wf(final(self).entries(), final(self).clock()),
            final(self).capacity() == old(self).capacity(),
            final(self).clock() == old(self).clock(),
            old(self).entries().len() == 0 ==> final(self).entries() == old(self).entries(),
            old(self).entries().len() > 0 ==> {
                &&& is_lru(old(self).entries(), lru_victim(old(self).entries()))
                &&& contents(final(self).entries()) == contents(old(self).entries()).remove(lru_victim(old(self).entries()))
                &&& recency(final(self).entries()) == recency(old(self).entries()).remove(lru_victim(old(self).entries()))
                &&& final(self).entries().len() == old(self).entries().len() - 1
            },
    {
        let n = self.entries.len();
        if n == 0 {
            return;
        }
        let ghost es = self.entries();
        let mut m: usize = 0;
        let mut i: usize = 1;
        while i < n
            invariant
                n == es.len(),
                es == self.entries(),
                m < i <= n,
                forall|j: int| 0 <= j < i ==> es[m as int].last_used <= (#[trigger] es[j]).last_used,
            decreases n - i,
        {
            if self.entries[i].last_used < self.entries[m].last_used {
                m = i;
            }
            i = i + 1;
        }
        proof {
            lemma_lru_at(es, m as int, self.clock);
            lemma_remove(es, m as int, self.clock);
        }
        self.entries.remove(m);
        assert(self.entries() =~= es.remove(m as int));
    }

    /// Stores `cached` under `key` as the most recently used snapshot. When
    /// `key` is new and the cache is full, the least recently used snapshot
    /// is dropped first.
    pub fn insert(&mut self, key: GraphCacheKey, cached: CachedGraph)
        requires
            old(self).wf(),
            old(self).clock() < u64::MAX,
        ensures
            final(self).wf(),
            inserted(*old(self), *final(self), key@, cached@),
            final(self).entries().len() == old(self).entries().len()
                + (if has_key(old(self).entries(), key@) { 0int } else { 1int })
                - (if !has_key(old(self).entries(), key@) && old(self).entries().len() >= old(self).capacity()
                    && old(self).entries().len() > 0 { 1int } else { 0int }),
            forall|o: KeyView| #[trigger] recency(final(self).entries()).dom().contains(o) && o != key@
                ==> recency(final(self).entries())[o] < recency(final(self).entries())[key@],
    {
        let ghost es0 = self.entries();
        let existing = self.find(&key);
        if existing.is_none() && self.entries.len() >= self.capacity {
            self.evict_lru();
        }
        let ghost es1 = self.entries();
        proof {
            if existing.is_none() {
                assert(!contents(es0).dom().contains(key@));
                assert(!contents(es1).dom().contains(key@));
                assert(!has_key(es1, key@));
            }
        }
        proof {
            lemma_recency_bounds(es0, self.clock);
        }
        self.clock = self.clock + 1;
        let c = self.clock;
        let ghost ev = EntryView { key: key@, cached: cached@, last_used: c };
        match existing {
            Some(i) => {
                self.entries.set(i, GraphCacheEntry { key, cached, last_used: c });
                assert(self.entries() =~= es1.update(i as int, ev));
                proof {
                    lemma_update_same_key(es1, i as int, ev);
                    assert forall|a: int, b: int| 0 <= a < es1.len() && 0 <= b < es1.len() && a != b implies
                        (#[trigger] self.entries()[a]).last_used != (#[trigger] self.entries()[b]).last_used by {
                        if a != i && b != i {
                            assert(self.entries()[a] == es1[a]);
                            assert(self.entries()[b] == es1[b]);
                        }
                    }
                }
            },
            None => {
                self.entries.push(GraphCacheEntry { key, cached, last_used: c });
                assert(self.entries() =~= es1.push(ev));
                proof {
                    lemma_push_new_key(es1, ev);
                    assert forall|a: int, b: int| 0 <= a < es1.len() + 1 && 0 <= b < es1.len() + 1 && a != b implies
                        (#[trigger] self.entries()[a]).last_used != (#[trigger] self.entries()[b]).last_used by {
                        if a < es1.len() { assert(self.entries()[a] == es1[a]); }
                        if b < es1.len() { assert(self.entries()[b] == es1[b]); }
                    }
                }
            },
        }
    }
}

/// The keys of a repository other than `path`.
pub open spec fn other_paths(path: Seq<char>) -> Set<KeyView> {
    Set::new(|k: KeyView| k.path != path)
}

/// The stat a stats list gives `oid`: its last entry for that oid.
pub open spec fn stat_for(stats: Seq<(String, DiffStat)>, oid: Seq<char>) -> Option<DiffStat>
    decreases stats.len(),
{
    if stats.len() == 0 {
        None
    } else if stats.last().0@ == oid {
        Some(stats.last().1)
    } else {
        stat_for(stats.drop_last(), oid)
    }
}

/// `rows` with each row's stat replaced by the one `stats` gives its oid,
/// where it gives one.
pub open spec fn with_stats(rows: Seq<RowView>, stats: Seq<(String, DiffStat)>) -> Seq<RowView> {
    rows.map_values(|r: RowView| match stat_for(stats, r.oid) {
        Some(st) => RowView { diff_stat: Some(st), ..r },
        None => r,
    })
}

pub(crate) fn find_stat(stats: &Vec<(String, DiffStat)>, oid: &String) -> (r: Option<DiffStat>)
    ensures
        r == stat_for(stats@, oid@),
{
    let mut i: usize = stats.len();
    assert(stats@.take(i as int) =~= stats@);
    while i > 0
        invariant
            i <= stats@.len(),
            stat_for(stats@, oid@) == stat_for(stats@.take(i as int), oid@),
        decreases i,
    {
        let ghost t = stats@.take(i as int);
        assert(t.drop_last() =~= stats@.take(i - 1));
        if stats[i - 1].0 == *oid {
            return Some(stats[i - 1].1);
        }
        i = i - 1;
    }
    None
}

pub(crate) fn apply_stats_to_rows(rows: &mut Vec<GraphRow>, stats: &Vec<(String, DiffStat)>)
    ensures
        rows_view(final(rows)@) == with_stats(rows_view(old(rows)@), stats@),
{
    let ghost r0 = rows_view(rows@);
    let mut i: usize = 0;
    while i < rows.len()
        invariant
            i <= rows@.len(),
            rows@.len() == r0.len(),
            forall|j: int| 0 <= j < i ==> (#[trigger] rows@[j])@ == with_stats(r0, stats@)[j],
            forall|j: int| i <= j < rows@.len() ==> (#[trigger] rows@[j])@ == r0[j],
        decreases rows@.len() - i,
    {
        let st = find_stat(stats, &rows[i].oid);
        if let Some(st) = st {
            rows[i].diff_stat = Some(st);
        }
        i = i + 1;
    }
    assert(rows_view(rows@) =~= with_stats(r0, stats@));
}

impl GraphCache {
    /// Drops every snapshot of the repository at `path`, whatever its options.
    pub fn invalidate(&mut self, path: &str)
        requires
            old(self).wf(),
        ensures
            final(self).wf(),
            final(self).capacity() == old(self).capacity(),
            final(self).clock() == old(self).clock(),
            contents(final(self).entries()) == contents(old(self).entries()).restrict(other_paths(path@)),
            recency(final(self).entries()) == recency(old(self).entries()).restrict(other_paths(path@)),
    {
        let target = path.to_string();
        let ghost es0 = self.entries();
        let ghost mut removed: Set<KeyView> = Set::empty();
        assert(contents(es0).remove_keys(removed) =~= contents(es0));
        assert(recency(es0).remove_keys(removed) =~= recency(es0));
        let mut i: usize = 0;
        while i < self.entries.len()
            invariant
                self.wf(),
                self.capacity == old(self).capacity,
                self.clock == old(self).clock,
                i <= self.entries@.len(),
                target@ == path@,
                forall|j: int| 0 <= j < i ==> (#[trigger] self.entries()[j]).key.path != path@,
                forall|k: KeyView| removed.contains(k) ==> k.path == path@,
                contents(self.entries()) == contents(es0).remove_keys(removed),
                recency(self.entries()) == recency(es0).remove_keys(removed),
            decreases self.entries@.len() - i,
        {
            if self.entries[i].key.path == target {
                let ghost es = self.entries();
                proof {
                    lemma_remove(es, i as int, self.clock);
                }
                let ghost k = es[i as int].key;
                self.entries.remove(i);
                assert(self.entries() =~= es.remove(i as int));
                proof {
                    assert(contents(es0).remove_keys(removed).remove(k) =~= contents(es0).remove_keys(removed.insert(k)));
                    assert(recency(es0).remove_keys(removed).remove(k) =~= recency(es0).remove_keys(removed.insert(k)));
                    removed = removed.insert(k);
                    assert forall|j: int| 0 <= j < i implies (#[trigger] self.entries()[j]).key.path != path@ by {
                        assert(self.entries()[j] == es[j]);
                    }
                }
            } else {
                i = i + 1;
            }
        }
        proof {
            let es1 = self.entries();
            assert forall|k: KeyView| contents(es1).dom().contains(k) implies k.path != path@ by {
                let j = pos(es1, k);
                assert(es1[j].key == k);
            }
            assert(contents(es1) =~= contents(es0).restrict(other_paths(path@)));
            assert(recency(es1) =~= recency(es0).restrict(other_paths(path@)));
        }
    }

    /// Drops every snapshot.
    pub fn clear(&mut self)
        requires
            old(self).wf(),
        ensures
            final(self).wf(),
            final(self).entries().len() == 0,
            final(self).capacity() == old(self).capacity(),
            final(self).clock() == old(self).clock(),
    {
        self.entries = Vec::new();
        assert(self.entries() =~= Seq::<EntryView>::empty());
    }

    /// Folds freshly computed diff stats into the snapshot of `key`, so a
    /// later hit does not bring back rows without them.
    pub fn apply_stats(&mut self, key: &GraphCacheKey, stats: &Vec<(String, DiffStat)>)
        requires
            old(self).wf(),
        ensures
            final(self).wf(),
            final(self).capacity() == old(self).capacity(),
            final(self).clock() == old(self).clock(),
            recency(final(self).entries()) == recency(old(self).entries()),
            contents(final(self).entries()) == if has_key(old(self).entries(), key@) {
                contents(old(self).entries()).insert(key@, CachedView {
                    rows: with_stats(contents(old(self).entries())[key@].rows, stats@),
                    ..contents(old(self).entries())[key@]
                })
            } else {
                contents(old(self).entries())
            },
    {
        match self.find(key) {
            None => {},
            Some(i) => {
                let ghost es = self.entries();
                apply_stats_to_rows(&mut self.entries[i].cached.rows, stats);
                let ghost e = EntryView {
                    key: es[i as int].key,
                    cached: CachedView { rows: with_stats(es[i as int].cached.rows, stats@), ..es[i as int].cached },
                    last_used: es[i as int].last_used,
                };
                assert(self.entries() =~= es.update(i as int, e));
                proof {
                    lemma_update_same_key(es, i as int, e);
                    lemma_pos(es, i as int);
                    assert(recency(es).insert(e.key, e.last_used) =~= recency(es));
                    assert forall|a: int, b: int| 0 <= a < es.len() && 0 <= b < es.len() && a != b implies
                        (#[trigger] self.entries()[a]).last_used != (#[trigger] self.entries()[b]).last_used by {
                        assert(self.entries()[a].last_used == es[a].last_used);
                        assert(self.entries()[b].last_used == es[b].last_used);
                    }
                }
            },
        }
    }
}

/// A read gives back what the last write stored: after `v` was stored under
/// `k`, the cache holds `v` under `k`; every other key keeps its snapshot,
/// except the least recently used one when the write evicted it.
pub proof fn law_cache_read_after_write(before: GraphCache, after: GraphCache, k: KeyView, v: CachedView, other: KeyView)
    requires
        inserted(before, after, k, v),
        other != k,
        contents(before.entries()).dom().contains(other),
    ensures
        contents(after.entries()).dom().contains(k),
        contents(after.entries())[k] == v,
        other != lru_victim(before.entries()) || has_key(before.entries(), k) || before.entries().len() < before.capacity()
            ==> contents(after.entries()).dom().contains(other) && contents(after.entries())[other] == contents(before.entries())[other],
{
}

/// What a well-formed cache keeps of its uses: none is later than its
/// clock, no two keys share one, and every key with a snapshot has one (so
/// a key touched at a later clock is the most recently used).
pub proof fn law_cache_uses_precede_the_clock(c: GraphCache)
    requires
        c.wf(),
    ensures
        entries_wf(c.entries(), c.clock()),
        forall|o: KeyView| #[trigger] recency(c.entries()).dom().contains(o) ==> recency(c.entries())[o] <= c.clock(),
        forall|o1: KeyView, o2: KeyView|
            recency(c.entries()).dom().contains(o1) && recency(c.entries()).dom().contains(o2) && o1 != o2
                ==> #[trigger] recency(c.entries())[o1] != #[trigger] recency(c.entries())[o2],
        recency(c.entries()).dom() == contents(c.entries()).dom(),
{
    lemma_recency_bounds(c.entries(), c.clock());
}

/// The cache never holds more snapshots than its capacity (one, for a
/// capacity of zero).
pub proof fn law_cache_within_capacity(c: GraphCache)
    requires
        c.wf(),
    ensures
        c.entries().len() <= if c.capacity() == 0 { 1 } else { c.capacity() as int },
{
    assert(c.entries().len() == c.entries@.len());
}

/// A write that makes room drops the snapshot used least recently: no
/// other cached key was used before it.
pub proof fn law_cache_evicts_least_recent(before: GraphCache, after: GraphCache, k: KeyView, v: CachedView, other: KeyView)
    requires
        before.wf(),
        inserted(before, after, k, v),
        !has_key(before.entries(), k),
        before.entries().len() >= before.capacity(),
        before.entries().len() > 0,
        recency(before.entries()).dom().contains(other),
    ensures
        !contents(after.entries()).dom().contains(lru_victim(before.entries())),
        recency(before.entries())[lru_victim(before.entries())] <= recency(before.entries())[other],
{
    let es = before.entries();
    let victim = lru_victim(es);
    assert(is_lru(es, victim));
    assert(victim != k);
    let j = pos(es, other);
    assert(has_key(es, other));
    let i0 = choose|i: int| 0 <= i < es.len() && (#[trigger] es[i]).key == other;
    assert(es[pos(es, other)].key == other);
}

} // verus!
