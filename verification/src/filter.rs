//! A substring filter over a list of paths: the query typed after `/`, the
//! rows it matches (case-insensitively), and how the highlight moves among
//! them.

use vstd::prelude::*;
use crate::graph::strings_view;
use crate::text::{contains_seq, contains_str, lowercase, pop_char, push_char, to_lowercase};

verus! {

/// Whether `path` matches the query `q` (both lowercased).
pub open spec fn path_hit(path: Seq<char>, q: Seq<char>) -> bool {
    contains_seq(lowercase(path), lowercase(q))
}

/// The indices below `n` of the paths matching `q`, in order.
pub open spec fn path_hits(paths: Seq<Seq<char>>, q: Seq<char>, n: int) -> Seq<usize>
    decreases n,
{
    if n <= 0 {
        Seq::empty()
    } else if path_hit(paths[n - 1], q) {
        path_hits(paths, q, n - 1).push((n - 1) as usize)
    } else {
        path_hits(paths, q, n - 1)
    }
}

/// The matches of query `q` over `paths` (none while the query is empty).
pub open spec fn filter_matches(paths: Seq<Seq<char>>, q: Seq<char>) -> Seq<usize> {
    if q.len() == 0 { Seq::empty() } else { path_hits(paths, q, paths.len() as int) }
}

/// Position of the first of the first `k` entries equal to `x`, or `-1`.
pub open spec fn position_in(m: Seq<usize>, x: int, k: int) -> int
    decreases k,
{
    if k <= 0 {
        -1
    } else {
        let p = position_in(m, x, k - 1);
        if p >= 0 { p } else if m[k - 1] == x { k - 1 } else { -1 }
    }
}

/// Position of the first of the first `k` entries at least `x`, or `-1`.
pub open spec fn first_at_least(m: Seq<usize>, x: int, k: int) -> int
    decreases k,
{
    if k <= 0 {
        -1
    } else {
        let p = first_at_least(m, x, k - 1);
        if p >= 0 { p } else if m[k - 1] >= x { k - 1 } else { -1 }
    }
}

/// Position of the last of the first `k` entries below `x`, or `-1`.
pub open spec fn last_below(m: Seq<usize>, x: int, k: int) -> int
    decreases k,
{
    if k <= 0 {
        -1
    } else if m[k - 1] < x {
        k - 1
    } else {
        last_below(m, x, k - 1)
    }
}

/// The query and the rows it matches.
#[derive(Debug)]
pub struct ListFilter {
    pub query: String,
    /// Indices of the matching rows, in order.
    pub matches: Vec<usize>,
}

/// Where the highlight lands when the matches change: kept on a match,
/// else the first match at or after it (wrapping to the first), none
/// without matches; untouched while the filter is off.
pub open spec fn spec_selected_match(f: ListFilter, sel: Option<usize>) -> Option<usize> {
    let m = f.matches@;
    if f.query@.len() == 0 {
        sel
    } else if m.len() == 0 {
        None
    } else {
        match sel {
            Some(i) => {
                let p = first_at_least(m, i as int, m.len() as int);
                if p >= 0 { Some(m[p]) } else { Some(m[0]) }
            },
            None => Some(m[0]),
        }
    }
}

/// The highlight after one step down (or up) among the matches, wrapping;
/// unchanged without matches.
pub open spec fn spec_step(f: ListFilter, sel: Option<usize>, down: bool) -> Option<usize> {
    let m = f.matches@;
    let n = m.len() as int;
    if n == 0 {
        sel
    } else {
        match sel {
            Some(i) => {
                let p = position_in(m, i as int, n);
                if p >= 0 {
                    Some(if down { m[(p + 1) % n] } else { m[(p + n - 1) % n] })
                } else if down {
                    let q = first_at_least(m, i as int + 1, n);
                    Some(if q >= 0 { m[q] } else { m[0] })
                } else {
                    let q = last_below(m, i as int, n);
                    Some(if q >= 0 { m[q] } else { m[n - 1] })
                }
            },
            None => Some(if down { m[0] } else { m[n - 1] }),
        }
    }
}

impl ListFilter {
    /// An empty, inactive filter.
    pub fn new() -> (f: Self)
        ensures
            f.query@.len() == 0,
            f.matches@.len() == 0,
    {
        ListFilter { query: String::new(), matches: Vec::new() }
    }

    /// Whether a query is typed.
    pub fn is_active(&self) -> (b: bool)
        ensures
            b == (self.query@.len() > 0),
    {
        self.query.as_str().unicode_len() > 0
    }

    /// Number of matching rows.
    pub fn count(&self) -> (n: usize)
        ensures
            n == self.matches@.len(),
    {
        self.matches.len()
    }

    /// Types `c` at the end of the query (matches refresh on `rebuild`).
    pub fn push(&mut self, c: char)
        ensures
            final(self).query@ == old(self).query@.push(c),
            final(self).matches == old(self).matches,
    {
        push_char(&mut self.query, c);
    }

    /// Erases the last character of the query.
    pub fn pop(&mut self)
        ensures
            final(self).query@ == (if old(self).query@.len() == 0 { old(self).query@ } else { old(self).query@.drop_last() }),
            final(self).matches == old(self).matches,
    {
        pop_char(&mut self.query);
    }

    /// Clears the query and the matches.
    pub fn clear(&mut self)
        ensures
            final(self).query@.len() == 0,
            final(self).matches@.len() == 0,
    {
        self.query = String::new();
        self.matches = Vec::new();
    }

    /// Recomputes the matches of the query over `paths`.
    pub fn rebuild(&mut self, paths: &Vec<String>)
        ensures
            final(self).query == old(self).query,
            final(self).matches@ == filter_matches(strings_view(paths@), old(self).query@),
    {
        if !self.is_active() {
            self.matches = Vec::new();
            return;
        }
        let q = to_lowercase(self.query.as_str());
        let ghost ps = strings_view(paths@);
        let mut m: Vec<usize> = Vec::new();
        let mut i: usize = 0;
        while i < paths.len()
            invariant
                i <= paths@.len(),
                ps == strings_view(paths@),
                q@ == lowercase(self.query@),
                m@ == path_hits(ps, self.query@, i as int),
            decreases paths@.len() - i,
        {
            let p = to_lowercase(paths[i].as_str());
            assert(ps[i as int] == paths@[i as int]@);
            if contains_str(p.as_str(), q.as_str()) {
                m.push(i);
            }
            i = i + 1;
        }
        self.matches = m;
    }

    /// Position of row `idx` among the matches.
    pub fn position_of(&self, idx: usize) -> (r: Option<usize>)
        ensures
            match r {
                Some(p) => p as int == position_in(self.matches@, idx as int, self.matches@.len() as int),
                None => position_in(self.matches@, idx as int, self.matches@.len() as int) < 0,
            },
    {
        let mut k: usize = 0;
        while k < self.matches.len()
            invariant
                k <= self.matches@.len(),
                position_in(self.matches@, idx as int, k as int) < 0,
            decreases self.matches@.len() - k,
        {
            if self.matches[k] == idx {
                proof { lemma_position_stays(self.matches@, idx as int, k as int + 1, self.matches@.len() as int); }
                return Some(k);
            }
            k = k + 1;
        }
        None
    }

    fn first_at_least_exec(&self, x: usize) -> (r: Option<usize>)
        ensures
            match r {
                Some(p) => p as int == first_at_least(self.matches@, x as int, self.matches@.len() as int) && p < self.matches@.len(),
                None => first_at_least(self.matches@, x as int, self.matches@.len() as int) < 0,
            },
    {
        let mut k: usize = 0;
        while k < self.matches.len()
            invariant
                k <= self.matches@.len(),
                first_at_least(self.matches@, x as int, k as int) < 0,
            decreases self.matches@.len() - k,
        {
            if self.matches[k] >= x {
                proof { lemma_first_stays(self.matches@, x as int, k as int + 1, self.matches@.len() as int); }
                return Some(k);
            }
            k = k + 1;
        }
        None
    }

    fn last_below_exec(&self, x: usize) -> (r: Option<usize>)
        ensures
            match r {
                Some(p) => p as int == last_below(self.matches@, x as int, self.matches@.len() as int) && p < self.matches@.len(),
                None => last_below(self.matches@, x as int, self.matches@.len() as int) < 0,
            },
    {
        let mut k: usize = self.matches.len();
        while k > 0
            invariant
                k <= self.matches@.len(),
                last_below(self.matches@, x as int, self.matches@.len() as int) == last_below(self.matches@, x as int, k as int),
            decreases k,
        {
            if self.matches[k - 1] < x {
                return Some(k - 1);
            }
            k = k - 1;
        }
        None
    }

    /// Where the highlight `sel` lands after the matches changed.
    pub fn selected_match(&self, sel: Option<usize>) -> (r: Option<usize>)
        ensures
            r == spec_selected_match(*self, sel),
    {
        if !self.is_active() {
            return sel;
        }
        if self.matches.len() == 0 {
            return None;
        }
        match sel {
            Some(i) => match self.first_at_least_exec(i) {
                Some(p) => Some(self.matches[p]),
                None => Some(self.matches[0]),
            },
            None => Some(self.matches[0]),
        }
    }

    /// The highlight after one step down (or up) among the matches.
    pub fn step(&self, sel: Option<usize>, down: bool) -> (r: Option<usize>)
        ensures
            r == spec_step(*self, sel, down),
    {
        let n = self.matches.len();
        if n == 0 {
            return sel;
        }
        match sel {
            Some(i) => match self.position_of(i) {
                Some(p) => {
                    proof { lemma_position_bounds(self.matches@, i as int, n as int); }
                    if down {
                        Some(self.matches[(p + 1) % n])
                    } else {
                        let q = if p == 0 { n - 1 } else { p - 1 };
                        proof {
                            let (pi, ni) = (p as int, n as int);
                            if pi == 0 {
                                assert((pi + ni - 1) % ni == ni - 1) by (nonlinear_arith)
                                    requires pi == 0, ni > 0;
                            } else {
                                assert((pi + ni - 1) % ni == pi - 1) by (nonlinear_arith)
                                    requires 0 < pi < ni;
                            }
                        }
                        Some(self.matches[q])
                    }
                },
                None => {
                    if down {
                        let next = if i < usize::MAX { self.first_at_least_exec(i + 1) } else { None };
                        proof {
                            if i == usize::MAX {
                                lemma_none_at_least(self.matches@, i as int + 1, n as int);
                            }
                        }
                        match next {
                            Some(q) => Some(self.matches[q]),
                            None => Some(self.matches[0]),
                        }
                    } else {
                        match self.last_below_exec(i) {
                            Some(q) => Some(self.matches[q]),
                            None => Some(self.matches[n - 1]),
                        }
                    }
                },
            },
            None => if down { Some(self.matches[0]) } else { Some(self.matches[n - 1]) },
        }
    }
}

proof fn lemma_position_stays(m: Seq<usize>, x: int, k: int, n: int)
    requires
        0 <= k <= n,
        position_in(m, x, k) >= 0,
    ensures
        position_in(m, x, n) == position_in(m, x, k),
    decreases n - k,
{
    if n > k {
        lemma_position_stays(m, x, k, n - 1);
    }
}

proof fn lemma_position_bounds(m: Seq<usize>, x: int, k: int)
    requires
        0 <= k,
    ensures
        -1 <= position_in(m, x, k) < k,
    decreases k,
{
    if k > 0 {
        lemma_position_bounds(m, x, k - 1);
    }
}

proof fn lemma_first_stays(m: Seq<usize>, x: int, k: int, n: int)
    requires
        0 <= k <= n,
        first_at_least(m, x, k) >= 0,
    ensures
        first_at_least(m, x, n) == first_at_least(m, x, k),
    decreases n - k,
{
    if n > k {
        lemma_first_stays(m, x, k, n - 1);
    }
}

proof fn lemma_none_at_least(m: Seq<usize>, x: int, k: int)
    requires
        x > usize::MAX,
        0 <= k <= m.len(),
    ensures
        first_at_least(m, x, k) < 0,
    decreases k,
{
    if k > 0 {
        lemma_none_at_least(m, x, k - 1);
    }
}


/// While a query is typed, the highlight only ever lands on a matching row
/// (or nowhere when nothing matches), and stepping never leaves the matches.
pub proof fn law_selection_stays_on_matches(f: ListFilter, sel: Option<usize>, down: bool)
    requires
        f.query@.len() > 0,
        sel matches Some(i) ==> f.matches@.contains(i),
    ensures
        spec_selected_match(f, sel) matches Some(x) ==> f.matches@.contains(x),
        spec_selected_match(f, sel).is_none() <==> f.matches@.len() == 0,
        spec_step(f, sel, down) matches Some(x) ==> f.matches@.contains(x),
{
    let m = f.matches@;
    let n = m.len() as int;
    if n > 0 {
        if let Some(i) = sel {
            let p = first_at_least(m, i as int, n);
            lemma_first_bounds(m, i as int, n);
            if p >= 0 {
                assert(m.contains(m[p]));
            }
            let q = position_in(m, i as int, n);
            lemma_position_bounds(m, i as int, n);
            if q >= 0 {
                assert(0 <= (q + 1) % n < n);
                assert(0 <= (q + n - 1) % n < n);
                assert(m.contains(m[(q + 1) % n]));
                assert(m.contains(m[(q + n - 1) % n]));
            }
            let a = first_at_least(m, i as int + 1, n);
            lemma_first_bounds(m, i as int + 1, n);
            if a >= 0 {
                assert(m.contains(m[a]));
            }
            let b = last_below(m, i as int, n);
            lemma_last_bounds(m, i as int, n);
            if b >= 0 {
                assert(m.contains(m[b]));
            }
        }
        assert(m.contains(m[0]));
        assert(m.contains(m[n - 1]));
    }
}

proof fn lemma_first_bounds(m: Seq<usize>, x: int, k: int)
    requires
        0 <= k,
    ensures
        -1 <= first_at_least(m, x, k) < k,
    decreases k,
{
    if k > 0 {
        lemma_first_bounds(m, x, k - 1);
    }
}

proof fn lemma_last_bounds(m: Seq<usize>, x: int, k: int)
    requires
        0 <= k,
    ensures
        -1 <= last_below(m, x, k) < k,
    decreases k,
{
    if k > 0 {
        lemma_last_bounds(m, x, k - 1);
    }
}

} // verus!
