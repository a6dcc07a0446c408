//! Branch segments of a commit graph: the trunk is the first-parent chain
//! from the newest row; every other row belongs to exactly one segment, a
//! first-parent chain that starts at the newest row not yet placed and runs
//! until its parent is missing, on the trunk, or already placed.

use vstd::prelude::*;
use vstd::set_lib::{lemma_int_range, lemma_len_subset, set_int_range};
use crate::graph::{BranchSegment, GraphRow};

verus! {

/// Index of the first of the first `n` rows whose oid is `oid`, or `-1`.
pub open spec fn find_oid(rows: Seq<GraphRow>, oid: Seq<char>, n: int) -> int
    decreases n,
{
    if n <= 0 {
        -1
    } else {
        let f = find_oid(rows, oid, n - 1);
        if f >= 0 { f } else if rows[n - 1].oid@ == oid { n - 1 } else { -1 }
    }
}

proof fn lemma_find_oid(rows: Seq<GraphRow>, oid: Seq<char>, n: int)
    requires
        0 <= n <= rows.len(),
    ensures
        -1 <= find_oid(rows, oid, n) < n,
        find_oid(rows, oid, n) >= 0 ==> rows[find_oid(rows, oid, n)].oid@ == oid,
        find_oid(rows, oid, n) < 0 ==> forall|j: int| 0 <= j < n ==> (#[trigger] rows[j]).oid@ != oid,
    decreases n,
{
    if n > 0 {
        lemma_find_oid(rows, oid, n - 1);
    }
}

pub(crate) fn position_of_oid(rows: &Vec<GraphRow>, oid: &String) -> (r: Option<usize>)
    ensures
        match r {
            Some(i) => i as int == find_oid(rows@, oid@, rows@.len() as int),
            None => find_oid(rows@, oid@, rows@.len() as int) < 0,
        },
{
    let mut i: usize = 0;
    while i < rows.len()
        invariant
            i <= rows@.len(),
            find_oid(rows@, oid@, i as int) < 0,
        decreases rows@.len() - i,
    {
        if rows[i].oid == *oid {
            assert(find_oid(rows@, oid@, i + 1) == i);
            proof { lemma_find_first(rows@, oid@, i as int + 1, rows@.len() as int); }
            return Some(i);
        }
        i = i + 1;
    }
    None
}

proof fn lemma_find_first(rows: Seq<GraphRow>, oid: Seq<char>, m: int, n: int)
    requires
        0 <= m <= n,
        find_oid(rows, oid, m) >= 0,
    ensures
        find_oid(rows, oid, n) == find_oid(rows, oid, m),
    decreases n - m,
{
    if n > m {
        lemma_find_first(rows, oid, m, n - 1);
    }
}


/// `-1` for no row, else the row.
pub open spec fn opt_idx(o: Option<usize>) -> int {
    match o {
        Some(x) => x as int,
        None => -1,
    }
}

/// The row of row `i`'s first parent (the first row with that oid), or `-1`.
pub open spec fn parent_row(rows: Seq<GraphRow>, i: int) -> int {
    if 0 <= i < rows.len() && rows[i].parent_oids@.len() > 0 {
        find_oid(rows, rows[i].parent_oids@[0]@, rows.len() as int)
    } else {
        -1
    }
}

/// The row reached after `k` first-parent steps from the newest row, or
/// `-1` once the chain has left the rows.
pub open spec fn trunk_walk(rows: Seq<GraphRow>, k: nat) -> int
    decreases k,
{
    if k == 0 {
        if rows.len() > 0 { 0 } else { -1 }
    } else {
        let p = trunk_walk(rows, (k - 1) as nat);
        if p < 0 { -1 } else { parent_row(rows, p) }
    }
}

/// Whether row `j` is on the trunk.
pub open spec fn on_trunk(rows: Seq<GraphRow>, j: int) -> bool {
    0 <= j && exists|k: nat| trunk_walk(rows, k) == j
}

/// Whether row `j` is one of the rows of `seg`.
pub open spec fn seg_has(seg: BranchSegment, j: int) -> bool {
    exists|k: int| 0 <= k < seg.row_indices@.len() && seg.row_indices@[k] == j
}

/// Whether row `j` is in one of the segments before `m`.
pub open spec fn placed_before(segs: Seq<BranchSegment>, j: int, m: int) -> bool {
    exists|s: int| 0 <= s < m && #[trigger] seg_has(segs[s], j)
}

/// The name a segment shows: its tip's first label, else its short id.
pub open spec fn tip_name(r: GraphRow) -> Seq<char> {
    if r.labels@.len() > 0 { r.labels@[0].name@ } else { r.short_id@ }
}

/// `segs` are the branch segments of `rows`.
pub open spec fn segments_of(rows: Seq<GraphRow>, segs: Seq<BranchSegment>) -> bool {
    let n = rows.len() as int;
    // each segment is a non-empty first-parent chain of off-trunk rows
    &&& forall|s: int| 0 <= s < segs.len() ==> (#[trigger] segs[s]).row_indices@.len() > 0
    &&& forall|s: int, k: int| 0 <= s < segs.len() && 0 <= k < segs[s].row_indices@.len() ==> {
        let j = #[trigger] segs[s].row_indices@[k] as int;
        0 <= j < n && !on_trunk(rows, j)
    }
    &&& forall|s: int, k: int| 0 <= s < segs.len() && 0 <= k && k + 1 < segs[s].row_indices@.len() ==>
        #[trigger] segs[s].row_indices@[k + 1] as int == parent_row(rows, segs[s].row_indices@[k] as int)
    // named after its tip
    &&& forall|s: int| 0 <= s < segs.len() ==> {
        let tip = (#[trigger] segs[s]).row_indices@[0] as int;
        &&& segs[s].id@ == rows[tip].oid@
        &&& segs[s].display_name@ == tip_name(rows[tip])
    }
    // no row is placed twice
    &&& forall|s1: int, k1: int, s2: int, k2: int|
        0 <= s1 < segs.len() && 0 <= s2 < segs.len() && 0 <= k1 < segs[s1].row_indices@.len()
            && 0 <= k2 < segs[s2].row_indices@.len()
            && #[trigger] segs[s1].row_indices@[k1] == #[trigger] segs[s2].row_indices@[k2]
            ==> s1 == s2 && k1 == k2
    // every off-trunk row is placed
    &&& forall|j: int| 0 <= j < n && !on_trunk(rows, j) ==> placed_before(segs, j, segs.len() as int)
    // a segment starts at the newest row not yet placed
    &&& forall|s: int, j: int| #![trigger segs[s], placed_before(segs, j, s)]
        0 <= s < segs.len() && 0 <= j < segs[s].row_indices@[0] ==> on_trunk(rows, j) || placed_before(segs, j, s)
    // and ends where its chain cannot go on
    &&& forall|s: int| 0 <= s < segs.len() ==> {
        let last = (#[trigger] segs[s]).row_indices@.last() as int;
        let p = parent_row(rows, last);
        p < 0 || on_trunk(rows, p) || placed_before(segs, p, s + 1)
    }
}

proof fn lemma_parent_bounds(rows: Seq<GraphRow>, i: int)
    ensures
        -1 <= parent_row(rows, i) < rows.len(),
{
    if 0 <= i < rows.len() && rows[i].parent_oids@.len() > 0 {
        lemma_find_oid(rows, rows[i].parent_oids@[0]@, rows.len() as int);
    }
}

proof fn lemma_walk_bounds(rows: Seq<GraphRow>, k: nat)
    ensures
        -1 <= trunk_walk(rows, k) < rows.len(),
    decreases k,
{
    if k > 0 {
        lemma_walk_bounds(rows, (k - 1) as nat);
        lemma_parent_bounds(rows, trunk_walk(rows, (k - 1) as nat));
    }
}

proof fn lemma_walk_shift(rows: Seq<GraphRow>, a: nat, b: nat, d: nat)
    requires
        trunk_walk(rows, a) == trunk_walk(rows, b),
    ensures
        trunk_walk(rows, a + d) == trunk_walk(rows, b + d),
    decreases d,
{
    if d > 0 {
        lemma_walk_shift(rows, a, b, (d - 1) as nat);
        assert(trunk_walk(rows, a + d) == {
            let p = trunk_walk(rows, (a + d - 1) as nat);
            if p < 0 { -1 } else { parent_row(rows, p) }
        });
        assert(trunk_walk(rows, b + d) == {
            let p = trunk_walk(rows, (b + d - 1) as nat);
            if p < 0 { -1 } else { parent_row(rows, p) }
        });
        assert((a + d - 1) as nat == a + (d - 1) as nat);
        assert((b + d - 1) as nat == b + (d - 1) as nat);
    }
}

proof fn lemma_walk_dead(rows: Seq<GraphRow>, a: nat, k: nat)
    requires
        trunk_walk(rows, a) < 0,
        a <= k,
    ensures
        trunk_walk(rows, k) < 0,
    decreases k - a,
{
    if k > a {
        lemma_walk_dead(rows, a, (k - 1) as nat);
    }
}

proof fn lemma_walk_cycle(rows: Seq<GraphRow>, t: nat, s: nat, k: nat)
    requires
        t < s,
        trunk_walk(rows, s) == trunk_walk(rows, t),
    ensures
        exists|k2: nat| k2 < s && trunk_walk(rows, k2) == trunk_walk(rows, k),
    decreases k,
{
    if k < s {
        assert(trunk_walk(rows, k) == trunk_walk(rows, k));
    } else {
        let d = (k - s) as nat;
        lemma_walk_shift(rows, s, t, d);
        assert(s + d == k);
        lemma_walk_cycle(rows, t, s, t + d);
    }
}

fn parent_rows(rows: &Vec<GraphRow>) -> (par: Vec<Option<usize>>)
    ensures
        par@.len() == rows@.len(),
        forall|i: int| 0 <= i < rows@.len() ==> opt_idx(#[trigger] par@[i]) == parent_row(rows@, i),
        forall|i: int| 0 <= i < rows@.len() ==> (#[trigger] par@[i] matches Some(x) ==> x < rows@.len()),
{
    let mut par: Vec<Option<usize>> = Vec::new();
    let mut i: usize = 0;
    while i < rows.len()
        invariant
            i <= rows@.len(),
            par@.len() == i,
            forall|j: int| 0 <= j < i ==> opt_idx(#[trigger] par@[j]) == parent_row(rows@, j),
            forall|j: int| 0 <= j < i ==> (#[trigger] par@[j] matches Some(x) ==> x < rows@.len()),
        decreases rows@.len() - i,
    {
        let p = if rows[i].parent_oids.len() > 0 { position_of_oid(rows, &rows[i].parent_oids[0]) } else { None };
        proof { lemma_parent_bounds(rows@, i as int); }
        par.push(p);
        i = i + 1;
    }
    par
}

fn trunk_rows(rows: &Vec<GraphRow>, par: &Vec<Option<usize>>) -> (t: Vec<bool>)
    requires
        par@.len() == rows@.len(),
        forall|i: int| 0 <= i < rows@.len() ==> opt_idx(#[trigger] par@[i]) == parent_row(rows@, i),
        forall|i: int| 0 <= i < rows@.len() ==> (#[trigger] par@[i] matches Some(x) ==> x < rows@.len()),
    ensures
        t@.len() == rows@.len(),
        forall|j: int| 0 <= j < rows@.len() ==> (#[trigger] t@[j] <==> on_trunk(rows@, j)),
{
    let n = rows.len();
    let mut t: Vec<bool> = Vec::new();
    let mut i: usize = 0;
    while i < n
        invariant
            i <= n,
            t@.len() == i,
            forall|j: int| 0 <= j < i ==> !(#[trigger] t@[j]),
        decreases n - i,
    {
        t.push(false);
        i = i + 1;
    }
    if n == 0 {
        return t;
    }
    let mut cur: usize = 0;
    let ghost mut steps: nat = 0;
    let ghost mut seen: Set<int> = Set::empty();
    proof { lemma_int_range(0, n as int); }
    loop
        invariant_except_break
            cur < n,
            cur as int == trunk_walk(rows@, steps),
        invariant
            n == rows@.len(),
            n > 0,
            par@.len() == n,
            forall|i: int| 0 <= i < n ==> opt_idx(#[trigger] par@[i]) == parent_row(rows@, i),
            forall|i: int| 0 <= i < n ==> (#[trigger] par@[i] matches Some(x) ==> x < n),
            set_int_range(0, n as int).finite(),
            set_int_range(0, n as int).len() == n,
            t@.len() == n,
            seen.finite(),
            seen.len() == steps,
            steps <= n,
            forall|j: int| seen.contains(j) <==> (0 <= j < n && t@[j]),
            forall|j: int| 0 <= j < n ==> (#[trigger] t@[j] <==> exists|k: nat| k < steps && trunk_walk(rows@, k) == j),
        ensures
            t@.len() == n,
            forall|j: int| 0 <= j < n ==> (#[trigger] t@[j] <==> on_trunk(rows@, j)),
        decreases n - steps,
    {
        if t[cur] {
            proof {
                let k0 = choose|k: nat| k < steps && trunk_walk(rows@, k) == cur as int;
                assert forall|j: int| 0 <= j < n implies (#[trigger] t@[j] <==> on_trunk(rows@, j)) by {
                    if on_trunk(rows@, j) {
                        let k = choose|k: nat| trunk_walk(rows@, k) == j;
                        lemma_walk_cycle(rows@, k0, steps, k);
                    }
                }
            }
            break;
        }
        let ghost old_t = t@;
        t.set(cur, true);
        proof {
            assert(!seen.contains(cur as int));
            seen = seen.insert(cur as int);
            assert(seen.subset_of(set_int_range(0, n as int)));
            lemma_len_subset(seen, set_int_range(0, n as int));
            assert forall|j: int| 0 <= j < n implies (#[trigger] t@[j] <==> exists|k: nat| k < steps + 1 && trunk_walk(rows@, k) == j) by {
                if j == cur as int {
                    assert(trunk_walk(rows@, steps) == j);
                } else {
                    assert(t@[j] == old_t[j]);
                    if exists|k: nat| k < steps + 1 && trunk_walk(rows@, k) == j {
                        let k = choose|k: nat| k < steps + 1 && trunk_walk(rows@, k) == j;
                        assert(k != steps);
                    }
                }
            }
            steps = steps + 1;
        }
        match par[cur] {
            None => {
                proof {
                    assert(trunk_walk(rows@, steps) < 0);
                    assert forall|j: int| 0 <= j < n implies (#[trigger] t@[j] <==> on_trunk(rows@, j)) by {
                        if on_trunk(rows@, j) {
                            let k = choose|k: nat| trunk_walk(rows@, k) == j;
                            if k >= steps {
                                lemma_walk_dead(rows@, steps, k);
                            }
                        }
                    }
                }
                break;
            },
            Some(p) => {
                cur = p;
            },
        }
    }
    t
}


/// How rows map to segments: `map[j]` is the segment holding row `j`.
pub open spec fn row_map_of(segs: Seq<BranchSegment>, map: Seq<Option<usize>>, n: int) -> bool {
    &&& map.len() == n
    &&& forall|j: int| 0 <= j < n ==> match #[trigger] map[j] {
        Some(s) => s < segs.len() && seg_has(segs[s as int], j),
        None => !placed_before(segs, j, segs.len() as int),
    }
}

/// Whether `map` places row `j` in a segment before `m`.
spec fn seg_below(map: Seq<Option<usize>>, j: int, m: int) -> bool {
    match map[j] {
        Some(s) => s < m,
        None => false,
    }
}

/// Bookkeeping of the segment walk: `seg_of[j]`/`pos[j]` locate each placed
/// row; `assigned` is the set of placed rows.
spec fn placed_ok(
    rows: Seq<GraphRow>,
    segs: Seq<BranchSegment>,
    seg_of: Seq<Option<usize>>,
    pos: Seq<int>,
    assigned: Set<int>,
) -> bool {
    let n = rows.len() as int;
    &&& seg_of.len() == n
    &&& pos.len() == n
    &&& assigned.finite()
    &&& forall|j: int| #[trigger] assigned.contains(j) <==> (0 <= j < n && seg_of[j] is Some)
    &&& forall|j: int| 0 <= j < n && seg_below(seg_of, j, segs.len() as int) ==> {
        let s = (#[trigger] seg_of[j])->0 as int;
        0 <= pos[j] < segs[s].row_indices@.len() && segs[s].row_indices@[pos[j]] == j
    }
    &&& forall|s: int, k: int| 0 <= s < segs.len() && 0 <= k < segs[s].row_indices@.len() ==> {
        let j = #[trigger] segs[s].row_indices@[k] as int;
        &&& 0 <= j < n
        &&& seg_of[j] == Some(s as usize)
        &&& pos[j] == k
        &&& !on_trunk(rows, j)
    }
}

proof fn lemma_placed(segs: Seq<BranchSegment>, seg_of: Seq<Option<usize>>, pos: Seq<int>, n: int, j: int, m: int)
    requires
        0 <= j < n,
        seg_of.len() == n,
        pos.len() == n,
        forall|s: int, k: int| 0 <= s < segs.len() && 0 <= k < segs[s].row_indices@.len() ==> {
            let j2 = #[trigger] segs[s].row_indices@[k] as int;
            &&& 0 <= j2 < n
            &&& seg_of[j2] == Some(s as usize)
            &&& pos[j2] == k
        },
        forall|j2: int| 0 <= j2 < n && seg_below(seg_of, j2, segs.len() as int) ==> {
            let s = (#[trigger] seg_of[j2])->0 as int;
            0 <= pos[j2] < segs[s].row_indices@.len() && segs[s].row_indices@[pos[j2]] == j2
        },
        0 <= m <= segs.len(),
    ensures
        placed_before(segs, j, m) <==> seg_below(seg_of, j, m),
{
    if seg_below(seg_of, j, m) {
        let s = seg_of[j]->0 as int;
        assert(seg_has(segs[s], j));
    }
    if placed_before(segs, j, m) {
        let s = choose|s: int| 0 <= s < m && #[trigger] seg_has(segs[s], j);
        let k = choose|k: int| 0 <= k < segs[s].row_indices@.len() && segs[s].row_indices@[k] == j;
        assert(segs[s].row_indices@[k] == j);
    }
}

/// The branch segments of `rows` and, per row, the segment holding it.
pub fn compute_segments(rows: &Vec<GraphRow>) -> (r: (Vec<BranchSegment>, Vec<Option<usize>>))
    ensures
        segments_of(rows@, r.0@),
        row_map_of(r.0@, r.1@, rows@.len() as int),
{
    let n = rows.len();
    let par = parent_rows(rows);
    let trunk = trunk_rows(rows, &par);
    let mut segs: Vec<BranchSegment> = Vec::new();
    let mut seg_of: Vec<Option<usize>> = Vec::new();
    let mut i: usize = 0;
    while i < n
        invariant
            i <= n,
            seg_of@.len() == i,
            forall|j: int| 0 <= j < i ==> (#[trigger] seg_of@[j]).is_none(),
        decreases n - i,
    {
        seg_of.push(None);
        i = i + 1;
    }
    let ghost mut pos: Seq<int> = Seq::new(n as nat, |j: int| 0);
    let ghost mut assigned: Set<int> = Set::empty();
    proof {
        lemma_int_range(0, n as int);
        assert forall|j: int| #[trigger] assigned.contains(j) <==> (0 <= j < n && seg_of@[j] is Some) by {}
        assert(placed_ok(rows@, segs@, seg_of@, pos, assigned));
    }
    let mut i: usize = 0;
    while i < n
        invariant
            n == rows@.len(),
            i <= n,
            par@.len() == n,
            forall|x: int| 0 <= x < n ==> opt_idx(#[trigger] par@[x]) == parent_row(rows@, x),
            forall|x: int| 0 <= x < n ==> (#[trigger] par@[x] matches Some(y) ==> y < n),
            trunk@.len() == n,
            forall|j: int| 0 <= j < n ==> (#[trigger] trunk@[j] <==> on_trunk(rows@, j)),
            set_int_range(0, n as int).finite(),
            set_int_range(0, n as int).len() == n,
            placed_ok(rows@, segs@, seg_of@, pos, assigned),
            forall|j: int| 0 <= j < n ==> (#[trigger] seg_of@[j] matches Some(s) ==> s < segs@.len()),
            forall|s: int| 0 <= s < segs@.len() ==> (#[trigger] segs@[s]).row_indices@.len() > 0,
            forall|s: int, k: int| 0 <= s < segs@.len() && 0 <= k && k + 1 < segs@[s].row_indices@.len() ==>
                #[trigger] segs@[s].row_indices@[k + 1] as int == parent_row(rows@, segs@[s].row_indices@[k] as int),
            forall|s: int| 0 <= s < segs@.len() ==> {
                let tip = (#[trigger] segs@[s]).row_indices@[0] as int;
                &&& tip < i
                &&& segs@[s].id@ == rows@[tip].oid@
                &&& segs@[s].display_name@ == tip_name(rows@[tip])
            },
            forall|j: int| 0 <= j < i && !on_trunk(rows@, j) ==> (#[trigger] seg_of@[j]) is Some,
            forall|s: int, j: int| #![trigger segs@[s], seg_of@[j]]
                0 <= s < segs@.len() && 0 <= j < segs@[s].row_indices@[0] ==>
                on_trunk(rows@, j) || seg_below(seg_of@, j, s),
            forall|s: int| 0 <= s < segs@.len() ==> {
                let p = parent_row(rows@, (#[trigger] segs@[s]).row_indices@.last() as int);
                p < 0 || on_trunk(rows@, p) || (p < n && seg_below(seg_of@, p, s + 1))
            },
        decreases n - i,
    {
        if !trunk[i] && seg_of[i].is_none() {
            let s = segs.len();
            let ghost seg_before = seg_of@;
            let mut chain: Vec<usize> = Vec::new();
            let mut cur: Option<usize> = Some(i);
            proof {
                assert(assigned.subset_of(set_int_range(0, n as int)));
                lemma_len_subset(assigned, set_int_range(0, n as int));
            }
            loop
                invariant_except_break
                    opt_idx(cur) == if chain@.len() == 0 { i as int } else { parent_row(rows@, chain@.last() as int) },
                    cur matches Some(c) ==> c < n,
                invariant
                    n == rows@.len(),
                    i < n,
                    s == segs@.len(),
                    !on_trunk(rows@, i as int),
                    seg_before[i as int].is_none(),
                    par@.len() == n,
                    forall|x: int| 0 <= x < n ==> opt_idx(#[trigger] par@[x]) == parent_row(rows@, x),
                    forall|x: int| 0 <= x < n ==> (#[trigger] par@[x] matches Some(y) ==> y < n),
                    trunk@.len() == n,
                    forall|j: int| 0 <= j < n ==> (#[trigger] trunk@[j] <==> on_trunk(rows@, j)),
                    set_int_range(0, n as int).finite(),
                    set_int_range(0, n as int).len() == n,
                    placed_ok(rows@, segs@, seg_of@, pos, assigned),
                    seg_before.len() == n,
                    forall|j: int| 0 <= j < n && (#[trigger] seg_before[j]) is Some ==> seg_of@[j] == seg_before[j],
                    forall|j: int| 0 <= j < n && (#[trigger] seg_of@[j]) is Some && seg_before[j] is None ==> seg_of@[j] == Some(s),
                    forall|j: int| 0 <= j < n ==> (#[trigger] seg_before[j] matches Some(s2) ==> s2 < s),
                    forall|k: int| 0 <= k < chain@.len() ==> {
                        let c = #[trigger] chain@[k] as int;
                        &&& 0 <= c < n
                        &&& seg_of@[c] == Some(s)
                        &&& pos[c] == k
                        &&& !on_trunk(rows@, c)
                    },
                    forall|j: int| 0 <= j < n && #[trigger] seg_of@[j] == Some(s) ==> 0 <= pos[j] < chain@.len() && chain@[pos[j]] == j,
                    forall|k: int| 0 <= k && k + 1 < chain@.len() ==> #[trigger] chain@[k + 1] as int == parent_row(rows@, chain@[k] as int),
                    chain@.len() > 0 ==> chain@[0] == i,
                    assigned.len() <= n,
                ensures
                    chain@.len() > 0,
                    ({
                        let p = parent_row(rows@, chain@.last() as int);
                        p < 0 || on_trunk(rows@, p) || (p < n && seg_below(seg_of@, p, s + 1))
                    }),
                decreases n - assigned.len(),
            {
                match cur {
                    None => {
                        proof { lemma_parent_bounds(rows@, chain@.last() as int); }
                        break;
                    },
                    Some(c) => {
                        if trunk[c] || seg_of[c].is_some() {
                            proof {
                                if chain@.len() == 0 {
                                    assert(c == i);
                                    assert(false);
                                }
                                if seg_of@[c as int] is Some && seg_before[c as int] is Some {
                                    assert(seg_of@[c as int] == seg_before[c as int]);
                                }
                            }
                            break;
                        }
                        proof { lemma_parent_bounds(rows@, c as int); }
                        let ghost old_seg = seg_of@;
                        let ghost old_chain = chain@;
                        seg_of.set(c, Some(s));
                        proof {
                            pos = pos.update(c as int, old_chain.len() as int);
                            assert(!assigned.contains(c as int));
                            assigned = assigned.insert(c as int);
                            assert(assigned.subset_of(set_int_range(0, n as int)));
                            lemma_len_subset(assigned, set_int_range(0, n as int));
                        }
                        chain.push(c);
                        cur = par[c];
                        proof {
                            assert forall|j: int| #[trigger] assigned.contains(j) <==> (0 <= j < n && seg_of@[j] is Some) by {
                                if j != c as int && 0 <= j < n { assert(seg_of@[j] == old_seg[j]); }
                            }
                            assert forall|s3: int, k: int| 0 <= s3 < segs@.len() && 0 <= k < segs@[s3].row_indices@.len() implies {
                                let j = #[trigger] segs@[s3].row_indices@[k] as int;
                                &&& 0 <= j < n
                                &&& seg_of@[j] == Some(s3 as usize)
                                &&& pos[j] == k
                                &&& !on_trunk(rows@, j)
                            } by {
                                let j = segs@[s3].row_indices@[k] as int;
                                assert(old_seg[j] == Some(s3 as usize));
                                assert(j != c as int);
                            }
                            assert(placed_ok(rows@, segs@, seg_of@, pos, assigned));
                            assert forall|k: int| 0 <= k < chain@.len() implies {
                                let c2 = #[trigger] chain@[k] as int;
                                &&& 0 <= c2 < n
                                &&& seg_of@[c2] == Some(s)
                                &&& pos[c2] == k
                                &&& !on_trunk(rows@, c2)
                            } by {
                                if k < old_chain.len() {
                                    assert(chain@[k] == old_chain[k]);
                                    assert(old_chain[k] != c);
                                }
                            }
                            assert forall|j: int| 0 <= j < n && #[trigger] seg_of@[j] == Some(s) implies 0 <= pos[j] < chain@.len() && chain@[pos[j]] == j by {
                                if j != c as int {
                                    assert(old_seg[j] == Some(s));
                                }
                            }
                            assert forall|k: int| 0 <= k && k + 1 < chain@.len() implies #[trigger] chain@[k + 1] as int == parent_row(rows@, chain@[k] as int) by {
                                if k + 1 < old_chain.len() {
                                    assert(chain@[k + 1] == old_chain[k + 1]);
                                    assert(chain@[k] == old_chain[k]);
                                }
                            }
                        }
                    },
                }
            }
            let tip = &rows[i];
            let name = if tip.labels.len() > 0 { tip.labels[0].name.clone() } else { tip.short_id.clone() };
            let ghost segs0 = segs@;
            let seg = BranchSegment { id: tip.oid.clone(), display_name: name, row_indices: chain };
            segs.push(seg);
            proof {
                assert(segs@[s as int] == seg);
                assert forall|s3: int, k: int| 0 <= s3 < segs@.len() && 0 <= k < segs@[s3].row_indices@.len() implies {
                    let j = #[trigger] segs@[s3].row_indices@[k] as int;
                    &&& 0 <= j < n
                    &&& seg_of@[j] == Some(s3 as usize)
                    &&& pos[j] == k
                    &&& !on_trunk(rows@, j)
                } by {
                    if s3 < s {
                        assert(segs@[s3] == segs0[s3]);
                    }
                }
                assert forall|j: int| 0 <= j < n implies (#[trigger] seg_of@[j] matches Some(s2) ==> s2 < segs@.len()) by {
                    if seg_before[j] is None && seg_of@[j] is Some {
                        assert(seg_of@[j] == Some(s));
                    }
                }
                assert forall|s3: int, j: int| #![trigger segs@[s3], seg_of@[j]]
                    0 <= s3 < segs@.len() && 0 <= j < segs@[s3].row_indices@[0] implies
                    on_trunk(rows@, j) || seg_below(seg_of@, j, s3) by {
                    if s3 < s {
                        assert(segs@[s3] == segs0[s3]);
                        assert(seg_before[j] is Some ==> seg_of@[j] == seg_before[j]);
                    } else {
                        if !on_trunk(rows@, j) {
                            assert(seg_before[j] is Some);
                        }
                    }
                }
                assert forall|s3: int| 0 <= s3 < segs@.len() implies {
                    let p = parent_row(rows@, (#[trigger] segs@[s3]).row_indices@.last() as int);
                    p < 0 || on_trunk(rows@, p) || (p < n && seg_below(seg_of@, p, s3 + 1))
                } by {
                    if s3 < s {
                        assert(segs@[s3] == segs0[s3]);
                        let p = parent_row(rows@, segs0[s3].row_indices@.last() as int);
                        if 0 <= p < n && seg_before[p] is Some {
                            assert(seg_of@[p] == seg_before[p]);
                        }
                    }
                }
                assert forall|j: int| 0 <= j < i + 1 && !on_trunk(rows@, j) implies (#[trigger] seg_of@[j]) is Some by {
                    if j < i {
                        assert(seg_before[j] is Some);
                    }
                }
                assert forall|s3: int, k: int| 0 <= s3 < segs@.len() && 0 <= k && k + 1 < segs@[s3].row_indices@.len() implies
                    #[trigger] segs@[s3].row_indices@[k + 1] as int == parent_row(rows@, segs@[s3].row_indices@[k] as int) by {
                    if s3 < s {
                        assert(segs@[s3] == segs0[s3]);
                    }
                }
            }
        }
        i = i + 1;
    }
    proof {
        let rs = rows@;
        let ss = segs@;
        assert forall|j: int| 0 <= j < n implies {
            &&& (placed_before(ss, j, ss.len() as int) <==> seg_of@[j] is Some)
        } by {
            lemma_placed(ss, seg_of@, pos, n as int, j, ss.len() as int);
        }
        assert forall|s1: int, k1: int, s2: int, k2: int|
            0 <= s1 < ss.len() && 0 <= s2 < ss.len() && 0 <= k1 < ss[s1].row_indices@.len()
                && 0 <= k2 < ss[s2].row_indices@.len()
                && #[trigger] ss[s1].row_indices@[k1] == #[trigger] ss[s2].row_indices@[k2]
                implies s1 == s2 && k1 == k2 by {
            let j = ss[s1].row_indices@[k1] as int;
            assert(ss[s2].row_indices@[k2] as int == j);
            assert(ss.len() == segs.len());
            assert(seg_of@[j] == Some(s1 as usize) && pos[j] == k1);
            assert(seg_of@[j] == Some(s2 as usize) && pos[j] == k2);
            assert(s1 as usize == s2 as usize);
        }
        assert forall|s3: int, j: int| #![trigger ss[s3], placed_before(ss, j, s3)]
            0 <= s3 < ss.len() && 0 <= j < ss[s3].row_indices@[0] implies on_trunk(rs, j) || placed_before(ss, j, s3) by {
            assert(ss[s3].row_indices@[0] < n);
            lemma_placed(ss, seg_of@, pos, n as int, j, s3);
        }
        assert forall|s3: int| 0 <= s3 < ss.len() implies {
            let last = (#[trigger] ss[s3]).row_indices@.last() as int;
            let p = parent_row(rs, last);
            p < 0 || on_trunk(rs, p) || placed_before(ss, p, s3 + 1)
        } by {
            let p = parent_row(rs, ss[s3].row_indices@.last() as int);
            lemma_parent_bounds(rs, ss[s3].row_indices@.last() as int);
            if 0 <= p < n {
                lemma_placed(ss, seg_of@, pos, n as int, p, s3 + 1);
            }
        }
        assert forall|j: int| 0 <= j < n && !on_trunk(rs, j) implies placed_before(ss, j, ss.len() as int) by {
            lemma_placed(ss, seg_of@, pos, n as int, j, ss.len() as int);
        }
        assert forall|j: int| 0 <= j < n implies match #[trigger] seg_of@[j] {
            Some(s) => s < ss.len() && seg_has(ss[s as int], j),
            None => !placed_before(ss, j, ss.len() as int),
        } by {
            lemma_placed(ss, seg_of@, pos, n as int, j, ss.len() as int);
            if let Some(s) = seg_of@[j] {
                assert(ss[s as int].row_indices@[pos[j]] == j);
            }
        }
    }
    (segs, seg_of)
}

/// The branch segments of `rows`.
pub fn compute_branch_segments(rows: &Vec<GraphRow>) -> (segs: Vec<BranchSegment>)
    ensures
        segments_of(rows@, segs@),
{
    compute_segments(rows).0
}


/// Trunk commits belong to no segment, so they never collapse; every other
/// commit belongs to exactly the segment the row map names.
pub proof fn law_trunk_rows_unsegmented(rows: Seq<GraphRow>, segs: Seq<BranchSegment>, map: Seq<Option<usize>>, j: int)
    requires
        segments_of(rows, segs),
        row_map_of(segs, map, rows.len() as int),
        0 <= j < rows.len(),
    ensures
        on_trunk(rows, j) <==> map[j].is_none(),
{
    if on_trunk(rows, j) {
        if let Some(s) = map[j] {
            let k = choose|k: int| 0 <= k < segs[s as int].row_indices@.len() && segs[s as int].row_indices@[k] == j;
            assert(segs[s as int].row_indices@[k] == j);
        }
    } else {
        assert(placed_before(segs, j, segs.len() as int));
    }
}

} // verus!
