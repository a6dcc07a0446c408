//! Per-repository cache of the issues and pull requests fetched through `gh`,
//! one snapshot per state filter, with request generations that reject late
//! or foreign responses.

use vstd::prelude::*;

verus! {

/// How long fetched data stays fresh, in milliseconds.
pub const GITHUB_COOLDOWN_MS: u64 = 60_000;

/// Which issues/PRs the panel lists. Cycled with `c`.
#[derive(Debug, Clone, Copy, PartialEq, Eq, Structural)]
pub enum GithubStateFilter {
    Open,
    All,
    Closed,
}

/// The filter after `f`.
pub open spec fn next_filter(f: GithubStateFilter) -> GithubStateFilter {
    match f {
        GithubStateFilter::Open => GithubStateFilter::All,
        GithubStateFilter::All => GithubStateFilter::Closed,
        GithubStateFilter::Closed => GithubStateFilter::Open,
    }
}

/// Cycling the filter visits all three and comes back after three steps.
pub proof fn law_filter_cycles(f: GithubStateFilter)
    ensures
        next_filter(next_filter(next_filter(f))) == f,
        next_filter(f) != f,
        next_filter(next_filter(f)) != f,
{
}

impl GithubStateFilter {
    /// Open → All → Closed → Open.
    pub fn next(self) -> (r: Self)
        ensures
            r == next_filter(self),
    {
        match self {
            GithubStateFilter::Open => GithubStateFilter::All,
            GithubStateFilter::All => GithubStateFilter::Closed,
            GithubStateFilter::Closed => GithubStateFilter::Open,
        }
    }

    /// The `--state` argument passed to `gh`.
    pub fn gh_state(self) -> (r: &'static str)
        ensures
            r@ == (match self {
                GithubStateFilter::Open => "open"@,
                GithubStateFilter::All => "all"@,
                GithubStateFilter::Closed => "closed"@,
            }),
    {
        match self {
            GithubStateFilter::Open => "open",
            GithubStateFilter::All => "all",
            GithubStateFilter::Closed => "closed",
        }
    }

    /// Short label shown in the panel title.
    pub fn label(self) -> (r: &'static str)
        ensures
            r@ == (match self {
                GithubStateFilter::Open => "open"@,
                GithubStateFilter::All => "all"@,
                GithubStateFilter::Closed => "closed"@,
            }),
    {
        match self {
            GithubStateFilter::Open => "open",
            GithubStateFilter::All => "all",
            GithubStateFilter::Closed => "closed",
        }
    }
}

impl Default for GithubStateFilter {
    fn default() -> (r: Self)
        ensures
            r == GithubStateFilter::Open,
    {
        GithubStateFilter::Open
    }
}

/// One issue or pull request as `gh` lists it.
#[derive(Debug, Clone)]
pub struct GhItem {
    pub number: u64,
    pub title: String,
    pub state: String,
    pub is_draft: bool,
    pub author: String,
    pub updated_at: String,
    pub url: String,
    pub checks: Option<String>,
}

/// The issues and pull requests of one fetch.
#[derive(Debug, Clone)]
pub struct GithubData {
    pub issues: Vec<GhItem>,
    pub prs: Vec<GhItem>,
}

/// The cached result of one filter.
#[derive(Debug)]
pub struct GithubSnapshot {
    /// The request in flight, if any.
    pub loading: Option<u64>,
    /// When the last fetch attempt completed, in milliseconds.
    pub fetched_at: Option<u64>,
    pub data: Option<GithubData>,
    /// First stderr line of the last failed fetch, if any.
    pub error: Option<String>,
}

/// A snapshot that has never been requested.
pub open spec fn empty_snapshot() -> GithubSnapshot {
    GithubSnapshot { loading: None, fetched_at: None, data: None, error: None }
}

impl GithubSnapshot {
    /// A snapshot that has never been requested.
    pub fn new() -> (s: Self)
        ensures
            s == empty_snapshot(),
    {
        GithubSnapshot { loading: None, fetched_at: None, data: None, error: None }
    }
}

/// Source of request generations. Every generation it hands out is larger
/// than the ones before it, until the counter wraps, so one source shared by
/// all caches never hands one request id to two of them.
#[derive(Debug)]
pub struct RequestIds {
    pub next: u64,
}

impl RequestIds {
    /// Generations start at 1.
    pub fn new() -> (r: Self)
        ensures
            r.next == 1,
    {
        RequestIds { next: 1 }
    }

    /// Hands out `next` and advances it (wrapping like an atomic counter).
    pub fn take(&mut self) -> (id: u64)
        ensures
            id == old(self).next,
            final(self).next == next_id(old(self).next),
    {
        let id = self.next;
        self.next = self.next.wrapping_add(1);
        id
    }
}

/// Cached GitHub state of one repository.
#[derive(Debug)]
pub struct GithubState {
    /// `origin` as `(owner, repo)`; `None` = not a github.com repo.
    pub owner_repo: Option<(String, String)>,
    pub remote_checked_at: Option<u64>,
    pub open: GithubSnapshot,
    pub all: GithubSnapshot,
    pub closed: GithubSnapshot,
}

/// The snapshot of `filter`.
pub open spec fn snap(s: GithubState, filter: GithubStateFilter) -> GithubSnapshot {
    match filter {
        GithubStateFilter::Open => s.open,
        GithubStateFilter::All => s.all,
        GithubStateFilter::Closed => s.closed,
    }
}

/// Whether a snapshot refuses a new request: one is in flight, or (unless
/// forced) the last attempt completed less than the cooldown ago.
pub open spec fn request_blocked(sn: GithubSnapshot, force: bool, now: u64) -> bool {
    ||| sn.loading.is_some()
    ||| (!force && match sn.fetched_at {
        Some(at) => (if now >= at { now - at } else { 0int }) < GITHUB_COOLDOWN_MS,
        None => false,
    })
}

/// The filter whose snapshot waits for `generation`: the first of Open, All,
/// Closed in that order.
pub open spec fn waiting_filter(s: GithubState, generation: u64) -> Option<GithubStateFilter> {
    if s.open.loading == Some(generation) {
        Some(GithubStateFilter::Open)
    } else if s.all.loading == Some(generation) {
        Some(GithubStateFilter::All)
    } else if s.closed.loading == Some(generation) {
        Some(GithubStateFilter::Closed)
    } else {
        None
    }
}

/// `after` is `before` with only the snapshot of `filter` changed.
pub open spec fn only_snapshot_changed(before: GithubState, after: GithubState, filter: GithubStateFilter) -> bool {
    &&& after.owner_repo == before.owner_repo
    &&& after.remote_checked_at == before.remote_checked_at
    &&& filter != GithubStateFilter::Open ==> after.open == before.open
    &&& filter != GithubStateFilter::All ==> after.all == before.all
    &&& filter != GithubStateFilter::Closed ==> after.closed == before.closed
}

/// Number of items in a fetch.
pub open spec fn data_count(d: Option<GithubData>) -> int {
    match d {
        Some(d) => (d.issues@.len() + d.prs@.len()) as int,
        None => 0,
    }
}

impl GithubState {
    /// A repository nothing is known about yet.
    pub fn new() -> (s: Self)
        ensures
            s.owner_repo.is_none(),
            s.remote_checked_at.is_none(),
            s.open == empty_snapshot(),
            s.all == empty_snapshot(),
            s.closed == empty_snapshot(),
    {
        GithubState {
            owner_repo: None,
            remote_checked_at: None,
            open: GithubSnapshot::new(),
            all: GithubSnapshot::new(),
            closed: GithubSnapshot::new(),
        }
    }

    /// The snapshot of `filter`.
    pub fn snapshot(&self, filter: GithubStateFilter) -> (r: &GithubSnapshot)
        ensures
            *r == snap(*self, filter),
    {
        match filter {
            GithubStateFilter::Open => &self.open,
            GithubStateFilter::All => &self.all,
            GithubStateFilter::Closed => &self.closed,
        }
    }

    fn snapshot_mut(&mut self, filter: GithubStateFilter) -> (r: &mut GithubSnapshot)
        ensures
            *r == snap(*old(self), filter),
            snap(*final(self), filter) == *final(r),
            only_snapshot_changed(*old(self), *final(self), filter),
    {
        match filter {
            GithubStateFilter::Open => &mut self.open,
            GithubStateFilter::All => &mut self.all,
            GithubStateFilter::Closed => &mut self.closed,
        }
    }

    /// Reserves a request for `filter` at time `now`, unless one is in flight
    /// or (without `force`) the last fetch is still fresh. The generation
    /// comes from `ids`, shared by all caches, so a response addressed to a
    /// removed and re-added repository's former cache cannot land here.
    pub fn begin_request(&mut self, filter: GithubStateFilter, force: bool, now: u64, ids: &mut RequestIds) -> (r: Option<u64>)
        ensures
            request_blocked(snap(*old(self), filter), force, now) ==> {
                &&& r.is_none()
                &&& *final(self) == *old(self)
                &&& *final(ids) == *old(ids)
            },
            !request_blocked(snap(*old(self), filter), force, now) ==> {
                &&& r == Some(old(ids).next)
                &&& final(ids).next == next_id(old(ids).next)
                &&& only_snapshot_changed(*old(self), *final(self), filter)
                &&& snap(*final(self), filter) == (GithubSnapshot {
                    loading: Some(old(ids).next),
                    ..snap(*old(self), filter)
                })
            },
    {
        let snapshot = self.snapshot_mut(filter);
        let fresh = match snapshot.fetched_at {
            Some(at) => {
                let elapsed: u64 = if now >= at { now - at } else { 0 };
                elapsed < GITHUB_COOLDOWN_MS
            },
            None => false,
        };
        if snapshot.loading.is_some() || (!force && fresh) {
            return None;
        }
        let generation = ids.take();
        snapshot.loading = Some(generation);
        Some(generation)
    }

    /// Stores the result of request `generation`, completed at `now`, in the
    /// snapshot that waits for it. A generation no snapshot waits for (stale,
    /// or addressed to another cache) changes nothing.
    pub fn complete_request_at(&mut self, generation: u64, result: Result<GithubData, String>, now: u64)
        ensures
            waiting_filter(*old(self), generation).is_none() ==> *final(self) == *old(self),
            match waiting_filter(*old(self), generation) {
                Some(f) => {
                    &&& only_snapshot_changed(*old(self), *final(self), f)
                    &&& snap(*final(self), f) == (match result {
                        Ok(d) => GithubSnapshot {
                            loading: None,
                            fetched_at: Some(now),
                            data: Some(d),
                            error: None,
                        },
                        Err(e) => GithubSnapshot {
                            loading: None,
                            fetched_at: Some(now),
                            error: Some(e),
                            ..snap(*old(self), f)
                        },
                    })
                },
                None => true,
            },
    {
        let filter = if self.open.loading == Some(generation) {
            GithubStateFilter::Open
        } else if self.all.loading == Some(generation) {
            GithubStateFilter::All
        } else if self.closed.loading == Some(generation) {
            GithubStateFilter::Closed
        } else {
            return;
        };
        let snapshot = self.snapshot_mut(filter);
        snapshot.loading = None;
        snapshot.fetched_at = Some(now);
        match result {
            Ok(data) => {
                snapshot.data = Some(data);
                snapshot.error = None;
            },
            Err(error) => snapshot.error = Some(error),
        }
    }

    /// [`Self::complete_request_at`] at the current wall-clock time.
    pub fn complete_request(&mut self, generation: u64, result: Result<GithubData, String>)
        ensures
            waiting_filter(*old(self), generation).is_none() ==> *final(self) == *old(self),
            match waiting_filter(*old(self), generation) {
                Some(f) => {
                    &&& only_snapshot_changed(*old(self), *final(self), f)
                    &&& snap(*final(self), f).loading.is_none()
                    &&& snap(*final(self), f).fetched_at.is_some()
                    &&& match result {
                        Ok(d) => snap(*final(self), f).data == Some(d) && snap(*final(self), f).error.is_none(),
                        Err(e) => snap(*final(self), f).error == Some(e)
                            && snap(*final(self), f).data == snap(*old(self), f).data,
                    }
                },
                None => true,
            },
    {
        let now = crate::clock::now_millis();
        self.complete_request_at(generation, result, now);
    }

    /// Items of the cached Open fetch; drives whether the panel auto-shows.
    pub fn open_count(&self) -> (n: usize)
        requires
            data_count(self.open.data) <= usize::MAX,
        ensures
            n == data_count(self.open.data),
    {
        match &self.open.data {
            Some(data) => data.issues.len() + data.prs.len(),
            None => 0,
        }
    }
}

/// What the GitHub panel shows for the selected repository and filter.
#[derive(Debug, Clone, Copy, PartialEq, Eq, Structural)]
pub enum PanelSource {
    /// The `gh` program is not installed: no fetch will ever fill the cache.
    GhMissing,
    /// Nothing cached yet for this filter: a fetch is pending.
    Loading,
    /// The repository has no github.com `origin`.
    NotGithub,
    /// The last fetch for this filter failed: show its error.
    Failed,
    /// Show the cached issues and pull requests of this filter.
    Cached,
}

/// The choice of `panel_source`: a missing `gh` first, then no cache, then
/// a checked remote that is not on GitHub, then the filter's error, then
/// its data.
pub open spec fn spec_panel_source(state: Option<GithubState>, filter: GithubStateFilter, gh_available: bool) -> PanelSource {
    if !gh_available {
        PanelSource::GhMissing
    } else {
        match state {
            None => PanelSource::Loading,
            Some(s) => if s.owner_repo.is_none() && s.remote_checked_at.is_some() {
                PanelSource::NotGithub
            } else if snap(s, filter).error.is_some() {
                PanelSource::Failed
            } else if snap(s, filter).data.is_some() {
                PanelSource::Cached
            } else {
                PanelSource::Loading
            },
        }
    }
}

/// What the panel shows for the repository's cache `state` (none when the
/// repository was never fetched) under `filter`.
pub fn panel_source(state: Option<&GithubState>, filter: GithubStateFilter, gh_available: bool) -> (r: PanelSource)
    ensures
        r == spec_panel_source(match state { Some(s) => Some(*s), None => None }, filter, gh_available),
{
    if !gh_available {
        return PanelSource::GhMissing;
    }
    match state {
        None => PanelSource::Loading,
        Some(s) => {
            if s.owner_repo.is_none() && s.remote_checked_at.is_some() {
                PanelSource::NotGithub
            } else {
                let sn = s.snapshot(filter);
                if sn.error.is_some() {
                    PanelSource::Failed
                } else if sn.data.is_some() {
                    PanelSource::Cached
                } else {
                    PanelSource::Loading
                }
            }
        },
    }
}


/// Whether the GitHub panel shows: never while the feature is off; else a
/// manual `p` override wins, and by default it shows only when the
/// repository has open issues or pull requests.
pub open spec fn spec_panel_visible(enabled: bool, forced: Option<bool>, open_count: int) -> bool {
    enabled && match forced {
        Some(f) => f,
        None => open_count > 0,
    }
}

/// Whether the GitHub panel shows (see `spec_panel_visible`).
pub fn panel_visible(enabled: bool, forced: Option<bool>, open_count: usize) -> (r: bool)
    ensures
        r == spec_panel_visible(enabled, forced, open_count as int),
{
    if !enabled {
        return false;
    }
    match forced {
        Some(f) => f,
        None => open_count > 0,
    }
}

/// What the `p` key does to the GitHub panel.
#[derive(Debug, Clone, Copy, PartialEq, Eq, Structural)]
pub enum PanelToggle {
    /// The feature is off: say so.
    Disabled,
    /// Force the panel to this visibility; when it opens, fetch (bypassing
    /// the cooldown) and refresh the view.
    Force(bool),
}

/// The `p` key: force the opposite of what is visible now.
pub fn toggle_panel(enabled: bool, forced: Option<bool>, open_count: usize) -> (r: PanelToggle)
    ensures
        !enabled ==> r == PanelToggle::Disabled,
        enabled ==> r == PanelToggle::Force(!spec_panel_visible(enabled, forced, open_count as int)),
{
    if !enabled {
        PanelToggle::Disabled
    } else {
        PanelToggle::Force(!panel_visible(enabled, forced, open_count))
    }
}

/// Whether a fetch must first look up the repository's `origin`: not known
/// to be on GitHub yet, and (unless forced) not checked within the cooldown.
pub open spec fn spec_remote_probe_due(s: GithubState, force: bool, now: u64) -> bool {
    s.owner_repo.is_none() && (force || match s.remote_checked_at {
        Some(at) => (if now >= at { now - at } else { 0int }) >= GITHUB_COOLDOWN_MS,
        None => true,
    })
}

impl GithubState {
    /// Whether to look up `origin` before fetching (see
    /// `spec_remote_probe_due`).
    pub fn remote_probe_due(&self, force: bool, now: u64) -> (r: bool)
        ensures
            r == spec_remote_probe_due(*self, force, now),
    {
        if self.owner_repo.is_some() {
            return false;
        }
        if force {
            return true;
        }
        match self.remote_checked_at {
            Some(at) => now.saturating_sub(at) >= GITHUB_COOLDOWN_MS,
            None => true,
        }
    }

    /// Records the result of looking up `origin` at `now`.
    pub fn record_remote(&mut self, owner_repo: Option<(String, String)>, now: u64)
        ensures
            final(self).owner_repo == owner_repo,
            final(self).remote_checked_at == Some(now),
            final(self).open == old(self).open,
            final(self).all == old(self).all,
            final(self).closed == old(self).closed,
    {
        self.owner_repo = owner_repo;
        self.remote_checked_at = Some(now);
    }
}

/// Each `p` flips what is shown: after forcing the opposite of the current
/// visibility, the panel shows exactly that.
pub proof fn law_toggle_flips_the_panel(forced: Option<bool>, open_count: int)
    ensures
        spec_panel_visible(true, Some(!spec_panel_visible(true, forced, open_count)), open_count)
            != spec_panel_visible(true, forced, open_count),
{
}

/// A cache that waits for nothing refuses every response: a repository that
/// was removed and added again starts from a new cache, so an answer to a
/// request of its former cache cannot land in it.
pub proof fn law_idle_cache_refuses_responses(s: GithubState, generation: u64)
    requires
        s.open.loading.is_none(),
        s.all.loading.is_none(),
        s.closed.loading.is_none(),
    ensures
        waiting_filter(s, generation).is_none(),
{
}

/// The filters load independently: whether a request for one filter may
/// start depends on that filter's snapshot alone, and a response for a
/// generation is stored in the one snapshot that waits for it.
pub proof fn law_filters_independent(s1: GithubState, s2: GithubState, f: GithubStateFilter, force: bool, now: u64)
    requires
        snap(s1, f) == snap(s2, f),
    ensures
        request_blocked(snap(s1, f), force, now) == request_blocked(snap(s2, f), force, now),
{
}

/// The counter after one take from `next`.
pub open spec fn next_id(next: u64) -> u64 {
    if next == u64::MAX { 0 } else { (next + 1) as u64 }
}

/// The ids that `n` takes in a row hand out, starting from `next`.
pub open spec fn ids_from(next: u64, n: nat) -> Seq<u64>
    decreases n,
{
    if n == 0 { Seq::empty() } else { seq![next] + ids_from(next_id(next), (n - 1) as nat) }
}

/// Generations are handed out in sequence: takes from one source, while the
/// counter does not wrap, give ids that strictly increase, each one above
/// the last, and none of them is 0 when the source started at 1 or above.
pub proof fn law_request_ids_increase(next: u64, n: nat)
    requires
        next + n <= u64::MAX + 1,
    ensures
        ids_from(next, n).len() == n,
        forall|i: int| 0 <= i < n ==> #[trigger] ids_from(next, n)[i] == next + i,
        forall|i: int, j: int| 0 <= i < j < n ==> #[trigger] ids_from(next, n)[i] < #[trigger] ids_from(next, n)[j],
        next >= 1 ==> forall|i: int| 0 <= i < n ==> #[trigger] ids_from(next, n)[i] >= 1,
    decreases n,
{
    if n > 0 {
        let m = (n - 1) as nat;
        if m > 0 {
            assert(next < u64::MAX);
        }
        law_request_ids_increase(next_id(next), m);
        let rest = ids_from(next_id(next), m);
        assert(ids_from(next, n) == seq![next] + rest);
        assert forall|i: int| 0 <= i < n implies #[trigger] ids_from(next, n)[i] == next + i by {
            if i > 0 {
                assert(ids_from(next, n)[i] == rest[i - 1]);
            }
        }
    }
}

} // verus!
