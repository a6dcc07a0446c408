//! The application's own state and what each event does to it: the
//! repository list and its selection, the status queries in flight, the
//! repositories that changed meanwhile, the cooldown-deferred refreshes and
//! the last refresh of each repository. An event gives the next state and the
//! commands the surrounding loop carries out (queries, timers, panel loads,
//! saving the configuration).

use vstd::prelude::*;
use crate::github::RequestIds;
use crate::graph::strings_view;
use crate::graph_view::{other_than, remove_all, strings_contain};
use crate::refresh::{refresh_decision, RefreshDecision};
use crate::text::{lowercase, push_str};
use crate::sorting::{next_order, SortOrder};
use crate::repo_sort::{is_permutation, key_v, keys_v, law_sort_is_deterministic, lists, ordered, position_after_sort, sorted_order, RepoKey};
use crate::repo_admin::{added_name, context_removed, exclude_on_removal, file_name, path_prefix, spec_exclude_on_removal, views};

verus! {

/// A listed repository: its path (its identity), its name, and whether
/// its last status showed changes.
#[derive(Debug)]
pub struct RepoItem {
    pub path: String,
    pub name: String,
    pub dirty: bool,
}

/// The state the application keeps besides its panels.
#[derive(Debug)]
pub struct Dashboard {
    pub repos: Vec<RepoItem>,
    /// The selected repository row.
    pub selected: Option<usize>,
    /// Repositories with a status query in flight.
    pub pending_status: Vec<String>,
    /// Repositories that changed while their query was in flight.
    pub dirty_repos: Vec<String>,
    /// Repositories with a deferred refresh already scheduled.
    pub refresh_scheduled: Vec<String>,
    /// When each repository's last status query finished (milliseconds).
    pub last_refresh: Vec<(String, u64)>,
    /// The path the panels show instead of the selected repository (a
    /// worktree, or a repository opened in the graph).
    pub active_worktree: Option<String>,
    /// The configured scan roots (canonical).
    pub roots: Vec<String>,
    /// Repository names the scan skips.
    pub excluded: Vec<String>,
    /// Repositories added by hand.
    pub pinned: Vec<String>,
    /// How long a repository rests between status queries (milliseconds).
    pub refresh_cooldown_ms: u64,
    pub should_quit: bool,
    /// The order of the list.
    pub sort_order: SortOrder,
    /// The one source of GitHub request generations, shared by the caches
    /// of every repository, so a re-added repository's fresh cache never
    /// takes an answer meant for its former one.
    pub request_ids: RequestIds,
}

/// Something that happened, as the loop hands it over.
#[derive(Debug)]
pub enum AppEvent {
    Quit,
    /// A repository row was chosen.
    SelectRepo(String),
    /// The watcher saw a change in a repository.
    RefreshRepo(String),
    /// A deferred refresh came due.
    RefreshRepoAfterCooldown(String),
    /// A status query ended without a status.
    StatusQueryDone(String),
    /// A status query delivered a new status: whether it shows changes.
    StatusUpdated(String, bool),
    /// The user removed a repository from the list.
    RemoveRepo(String),
    /// A child row (a stash) points the panels at its repository without
    /// moving the selection.
    FocusRepoDetails(String),
    /// A worktree row was chosen: the repository, the worktree's path and
    /// its branch.
    SelectWorktree(String, String, String),
    /// A worktree's changed files arrived (the loop holds the files).
    WorktreeFilesLoaded(String),
    /// The user asked for the repositories to be discovered afresh.
    RescanRepos,
    /// The user moved to the next sort order.
    CycleSortOrder,
    /// The user asked to remove a repository (before confirming).
    ConfirmRemoveRepo(String),
    /// The user entered a path to add, canonical, and whether it is the
    /// root of a git repository.
    AddRepo(String, bool),
}

/// What the loop is asked to do.
#[derive(Debug)]
pub enum AppCommand {
    HideContextMenu,
    /// Show the repository at this row in the changes and graph panels.
    ShowRepo(usize),
    /// Reload the changes (and, if its history moved, the graph) of the
    /// repository at this row from its new status.
    RefreshPanels(usize),
    /// Run a status query for the repository.
    QueryStatus(String),
    /// Hand back `RefreshRepoAfterCooldown` for the repository after this
    /// many milliseconds.
    WakeAfter(String, u64),
    /// Drop the graph snapshots cached for the path.
    InvalidateGraph(String),
    SaveConfig,
    /// Empty the changes panel (the list became empty).
    ClearPanels,
    /// Select the repository at this path next.
    SelectRepo(String),
    /// Show the worktree at the path, under the title, for the repository:
    /// an empty list until its files arrive, its graph, and a query of its
    /// status.
    ShowWorktree(String, String, String),
    /// Show the worktree files that just arrived.
    ApplyWorktreeFiles,
    /// Drop every cached graph.
    InvalidateAllGraphs,
    /// Discover the repositories afresh.
    Rediscover,
    /// Tell the user the list is now in this order.
    SortMessage(SortOrder),
    /// Ask whether to remove the repository (name, path).
    AskRemove(String, String),
    /// Keep the path input open: the path is no repository.
    PathInputError,
    HidePathInput,
    FocusRepos,
    /// Tell the user the repository is listed already.
    AlreadyListed,
    /// Refresh the repository at this path.
    RefreshRepo(String),
}

impl Dashboard {
    /// The state at start-up: the discovered `repos` with none selected,
    /// nothing queried, marked, deferred or stamped, no panel context, and
    /// request generations from 1.
    pub fn new(repos: Vec<RepoItem>, roots: Vec<String>, excluded: Vec<String>, pinned: Vec<String>, refresh_cooldown_ms: u64) -> (d: Self)
        ensures
            d.repos@ == repos@,
            d.selected.is_none(),
            d.pending_status@.len() == 0,
            d.dirty_repos@.len() == 0,
            d.refresh_scheduled@.len() == 0,
            d.last_refresh@.len() == 0,
            d.active_worktree.is_none(),
            d.roots@ == roots@,
            d.excluded@ == excluded@,
            d.pinned@ == pinned@,
            d.refresh_cooldown_ms == refresh_cooldown_ms,
            !d.should_quit,
            d.request_ids.next == 1,
            d.sort_order == SortOrder::Alphabetical,
    {
        Dashboard {
            repos,
            selected: None,
            pending_status: Vec::new(),
            dirty_repos: Vec::new(),
            refresh_scheduled: Vec::new(),
            last_refresh: Vec::new(),
            active_worktree: None,
            roots,
            excluded,
            pinned,
            refresh_cooldown_ms,
            should_quit: false,
            sort_order: SortOrder::Alphabetical,
            request_ids: RequestIds::new(),
        }
    }
}

/// A command over plain values.
pub enum CmdView {
    HideContextMenu,
    ShowRepo(usize),
    RefreshPanels(usize),
    QueryStatus(Seq<char>),
    WakeAfter(Seq<char>, u64),
    InvalidateGraph(Seq<char>),
    SaveConfig,
    ClearPanels,
    SelectRepo(Seq<char>),
    ShowWorktree(Seq<char>, Seq<char>, Seq<char>),
    ApplyWorktreeFiles,
    InvalidateAllGraphs,
    Rediscover,
    SortMessage(SortOrder),
    AskRemove(Seq<char>, Seq<char>),
    PathInputError,
    HidePathInput,
    FocusRepos,
    AlreadyListed,
    RefreshRepo(Seq<char>),
}

impl View for AppCommand {
    type V = CmdView;

    open spec fn view(&self) -> CmdView {
        match self {
            AppCommand::HideContextMenu => CmdView::HideContextMenu,
            AppCommand::ShowRepo(i) => CmdView::ShowRepo(*i),
            AppCommand::RefreshPanels(i) => CmdView::RefreshPanels(*i),
            AppCommand::QueryStatus(s) => CmdView::QueryStatus(s@),
            AppCommand::WakeAfter(s, ms) => CmdView::WakeAfter(s@, *ms),
            AppCommand::InvalidateGraph(s) => CmdView::InvalidateGraph(s@),
            AppCommand::SaveConfig => CmdView::SaveConfig,
            AppCommand::ClearPanels => CmdView::ClearPanels,
            AppCommand::SelectRepo(s) => CmdView::SelectRepo(s@),
            AppCommand::ShowWorktree(r, p, t) => CmdView::ShowWorktree(r@, p@, t@),
            AppCommand::ApplyWorktreeFiles => CmdView::ApplyWorktreeFiles,
            AppCommand::InvalidateAllGraphs => CmdView::InvalidateAllGraphs,
            AppCommand::Rediscover => CmdView::Rediscover,
            AppCommand::SortMessage(o) => CmdView::SortMessage(*o),
            AppCommand::AskRemove(n, p) => CmdView::AskRemove(n@, p@),
            AppCommand::PathInputError => CmdView::PathInputError,
            AppCommand::HidePathInput => CmdView::HidePathInput,
            AppCommand::FocusRepos => CmdView::FocusRepos,
            AppCommand::AlreadyListed => CmdView::AlreadyListed,
            AppCommand::RefreshRepo(p) => CmdView::RefreshRepo(p@),
        }
    }
}

/// An event over plain values.
pub enum EventView {
    Quit,
    SelectRepo(Seq<char>),
    RefreshRepo(Seq<char>),
    RefreshRepoAfterCooldown(Seq<char>),
    StatusQueryDone(Seq<char>),
    StatusUpdated(Seq<char>, bool),
    RemoveRepo(Seq<char>),
    FocusRepoDetails(Seq<char>),
    SelectWorktree(Seq<char>, Seq<char>, Seq<char>),
    WorktreeFilesLoaded(Seq<char>),
    RescanRepos,
    CycleSortOrder,
    ConfirmRemoveRepo(Seq<char>),
    AddRepo(Seq<char>, bool),
}

impl View for AppEvent {
    type V = EventView;

    open spec fn view(&self) -> EventView {
        match self {
            AppEvent::Quit => EventView::Quit,
            AppEvent::SelectRepo(s) => EventView::SelectRepo(s@),
            AppEvent::RefreshRepo(s) => EventView::RefreshRepo(s@),
            AppEvent::RefreshRepoAfterCooldown(s) => EventView::RefreshRepoAfterCooldown(s@),
            AppEvent::StatusQueryDone(s) => EventView::StatusQueryDone(s@),
            AppEvent::StatusUpdated(s, dirty) => EventView::StatusUpdated(s@, *dirty),
            AppEvent::RemoveRepo(s) => EventView::RemoveRepo(s@),
            AppEvent::FocusRepoDetails(s) => EventView::FocusRepoDetails(s@),
            AppEvent::SelectWorktree(r, p, b) => EventView::SelectWorktree(r@, p@, b@),
            AppEvent::WorktreeFilesLoaded(p) => EventView::WorktreeFilesLoaded(p@),
            AppEvent::RescanRepos => EventView::RescanRepos,
            AppEvent::CycleSortOrder => EventView::CycleSortOrder,
            AppEvent::ConfirmRemoveRepo(s) => EventView::ConfirmRemoveRepo(s@),
            AppEvent::AddRepo(s, ok) => EventView::AddRepo(s@, *ok),
        }
    }
}

/// The state over plain values: repositories as (path, name, dirtiness).
#[verifier::ext_equal]
pub struct DashView {
    pub repos: Seq<(Seq<char>, Seq<char>, bool)>,
    pub selected: Option<usize>,
    pub pending: Seq<Seq<char>>,
    pub dirty: Seq<Seq<char>>,
    pub scheduled: Seq<Seq<char>>,
    pub last: Seq<(Seq<char>, u64)>,
    pub active: Option<Seq<char>>,
    pub roots: Seq<Seq<char>>,
    pub excluded: Seq<Seq<char>>,
    pub pinned: Seq<Seq<char>>,
    pub cooldown: u64,
    pub quit: bool,
    /// The next GitHub request generation.
    pub next_request: u64,
    pub order: SortOrder,
}

/// The (path, name, dirtiness) of each repository.
pub open spec fn items_view(v: Seq<RepoItem>) -> Seq<(Seq<char>, Seq<char>, bool)> {
    v.map_values(|r: RepoItem| (r.path@, r.name@, r.dirty))
}

/// The (key, time) entries.
pub open spec fn stamps_view(v: Seq<(String, u64)>) -> Seq<(Seq<char>, u64)> {
    v.map_values(|e: (String, u64)| (e.0@, e.1))
}

impl View for Dashboard {
    type V = DashView;

    open spec fn view(&self) -> DashView {
        DashView {
            repos: items_view(self.repos@),
            selected: self.selected,
            pending: views(self.pending_status@),
            dirty: views(self.dirty_repos@),
            scheduled: views(self.refresh_scheduled@),
            last: stamps_view(self.last_refresh@),
            active: match self.active_worktree {
                Some(a) => Some(a@),
                None => None,
            },
            roots: views(self.roots@),
            excluded: views(self.excluded@),
            pinned: views(self.pinned@),
            cooldown: self.refresh_cooldown_ms,
            quit: self.should_quit,
            next_request: self.request_ids.next,
            order: self.sort_order,
        }
    }
}

/// `s` with `x` added, unless it holds it already (a set's insert).
pub open spec fn with_key(s: Seq<Seq<char>>, x: Seq<char>) -> Seq<Seq<char>> {
    if s.contains(x) { s } else { s.push(x) }
}

/// `s` without `x` (a set's remove).
pub open spec fn without_key(s: Seq<Seq<char>>, x: Seq<char>) -> Seq<Seq<char>> {
    s.filter(other_than(x))
}

/// The test "is not stamped for `x`".
pub open spec fn stamp_other_than(x: Seq<char>) -> spec_fn((Seq<char>, u64)) -> bool {
    |e: (Seq<char>, u64)| e.0 != x
}

/// The stamps without `x`'s.
pub open spec fn unstamp(l: Seq<(Seq<char>, u64)>, x: Seq<char>) -> Seq<(Seq<char>, u64)> {
    l.filter(stamp_other_than(x))
}

/// The stamps with `x`'s replaced by `at`.
pub open spec fn stamp(l: Seq<(Seq<char>, u64)>, x: Seq<char>, at: u64) -> Seq<(Seq<char>, u64)> {
    unstamp(l, x).push((x, at))
}

/// The latest stamp of `x`.
pub open spec fn stamp_of(l: Seq<(Seq<char>, u64)>, x: Seq<char>) -> Option<u64>
    decreases l.len(),
{
    if l.len() == 0 {
        None
    } else if l.last().0 == x {
        Some(l.last().1)
    } else {
        stamp_of(l.drop_last(), x)
    }
}

/// The first row whose path is `x`.
pub open spec fn row_of(rs: Seq<(Seq<char>, Seq<char>, bool)>, x: Seq<char>) -> Option<usize>
    decreases rs.len(),
{
    if rs.len() == 0 {
        None
    } else {
        match row_of(rs.drop_last(), x) {
            Some(i) => Some(i),
            None => if rs.last().0 == x { Some((rs.len() - 1) as usize) } else { None },
        }
    }
}

/// What `decision` asks for a repository not queried at the moment
/// `now`, given its last stamp and the cooldown.
pub open spec fn decide(last: Option<u64>, now: u64, cooldown: u64) -> RefreshDecision {
    match last {
        None => RefreshDecision::Now,
        Some(l) => {
            let elapsed: int = if now >= l { now - l } else { 0 };
            if elapsed < cooldown { RefreshDecision::Later((cooldown - elapsed) as u64) } else { RefreshDecision::Now }
        },
    }
}

/// A refresh of `id` at `now`: while its query runs it is only marked
/// changed; otherwise, inside the cooldown, a wake-up is scheduled (once);
/// after it, the deferral is dropped and a query starts for a listed
/// repository.
pub open spec fn scheduled(d: DashView, id: Seq<char>, now: u64) -> (DashView, Seq<CmdView>) {
    if d.pending.contains(id) {
        (DashView { dirty: with_key(d.dirty, id), ..d }, Seq::empty())
    } else {
        match decide(stamp_of(d.last, id), now, d.cooldown) {
            RefreshDecision::Now => {
                let d1 = DashView { scheduled: without_key(d.scheduled, id), ..d };
                if row_of(d.repos, id) is Some {
                    (DashView { pending: with_key(d.pending, id), ..d1 }, seq![CmdView::QueryStatus(id)])
                } else {
                    (d1, Seq::empty())
                }
            },
            RefreshDecision::Later(wait) => if d.scheduled.contains(id) {
                (d, Seq::empty())
            } else {
                (DashView { scheduled: d.scheduled.push(id), ..d }, seq![CmdView::WakeAfter(id, wait)])
            },
        }
    }
}


/// The paths of the listed repositories.
pub open spec fn paths_of(rs: Seq<(Seq<char>, Seq<char>, bool)>) -> Seq<Seq<char>> {
    rs.map_values(|r: (Seq<char>, Seq<char>, bool)| r.0)
}

/// The row selected after a removal left `n` rows where row `idx` was:
/// the same position, or the last row; none when the list is empty.
pub open spec fn row_after_removal(idx: usize, n: nat) -> Option<usize> {
    if n == 0 { None } else if idx < n { Some(idx) } else { Some((n - 1) as usize) }
}

/// The removal of the repository at row `idx`: its query, change mark,
/// deferred refresh and stamp go; it is no longer pinned; a repository the
/// scan could find again is excluded by name (once); a panel context
/// inside it is dropped; the row leaves the list and the selection stays
/// at its position (or the new last row). The loop drops the path's cached
/// graphs, saves the configuration, then selects the row now under the
/// selection or empties the changes panel.
pub open spec fn removed(d: DashView, idx: usize) -> (DashView, Seq<CmdView>) {
    let path = d.repos[idx as int].0;
    let name = d.repos[idx as int].1;
    let rest = d.repos.remove(idx as int);
    let sel = row_after_removal(idx, rest.len());
    let exclude = spec_exclude_on_removal(path, name, paths_of(d.repos), d.roots, d.excluded);
    let h = DashView {
        repos: rest,
        selected: sel,
        pending: without_key(d.pending, path),
        dirty: without_key(d.dirty, path),
        scheduled: without_key(d.scheduled, path),
        last: unstamp(d.last, path),
        pinned: without_key(d.pinned, path),
        excluded: if exclude { d.excluded.push(name) } else { d.excluded },
        active: match d.active {
            Some(a) => if path_prefix(a, path) { None } else { Some(a) },
            None => None,
        },
        ..d
    };
    let tail = match sel {
        Some(j) => seq![CmdView::SelectRepo(rest[j as int].0)],
        None => seq![CmdView::ClearPanels],
    };
    (h, seq![CmdView::InvalidateGraph(path), CmdView::SaveConfig] + tail)
}

/// The sort keys of the rows: lowercased name and dirtiness.
pub open spec fn keys_of(rs: Seq<(Seq<char>, Seq<char>, bool)>) -> Seq<(Seq<char>, bool)> {
    rs.map_values(|r: (Seq<char>, Seq<char>, bool)| (lowercase(r.1), r.2))
}

/// The rows of `rs` in `order` (the one permutation that `ordered` allows).
pub open spec fn sort_of(rs: Seq<(Seq<char>, Seq<char>, bool)>, order: SortOrder) -> Seq<usize> {
    choose|r: Seq<usize>| is_permutation(r, rs.len() as int) && ordered(keys_of(rs), order, r)
}

/// `rs` rearranged so that position `p` shows row `r[p]`.
pub open spec fn permuted(rs: Seq<(Seq<char>, Seq<char>, bool)>, r: Seq<usize>) -> Seq<(Seq<char>, Seq<char>, bool)> {
    Seq::new(r.len(), |p: int| rs[r[p] as int])
}

/// The position of `r` that shows row `row`.
pub open spec fn place_of(r: Seq<usize>, row: usize) -> Option<usize> {
    if exists|p: int| 0 <= p < r.len() && r[p] == row {
        Some((choose|p: int| 0 <= p < r.len() && r[p] == row) as usize)
    } else {
        None
    }
}

/// The rows sorted into `o`, the selection following its repository.
pub open spec fn sorted_with(d: DashView, o: SortOrder) -> DashView {
    let r = sort_of(d.repos, o);
    let sel = match d.selected {
        Some(s) => place_of(r, s),
        None => None,
    };
    DashView { order: o, repos: permuted(d.repos, r), selected: sel, ..d }
}

/// The list moves to the next order: the rows are sorted into it and the
/// selection follows its repository; the user is told the order and the
/// selected repository is shown again.
pub open spec fn resorted(d: DashView) -> (DashView, Seq<CmdView>) {
    let h = sorted_with(d, next_order(d.order));
    (
        h,
        seq![CmdView::SortMessage(h.order)] + match h.selected {
            Some(p) => seq![CmdView::ShowRepo(p)],
            None => Seq::empty(),
        },
    )
}

/// Adding the repository at `path`: a path that is no repository keeps
/// the input open; otherwise the input closes and the list takes focus; a
/// listed repository is only selected; a new one is pinned, saved, listed
/// under `added_name` as clean, sorted in, refreshed and selected.
pub open spec fn added(d: DashView, path: Seq<char>, is_repo: bool) -> (DashView, Seq<CmdView>) {
    if !is_repo {
        (d, seq![CmdView::PathInputError])
    } else if row_of(d.repos, path) is Some {
        (d, seq![CmdView::HidePathInput, CmdView::FocusRepos, CmdView::AlreadyListed, CmdView::SelectRepo(path)])
    } else {
        let d1 = DashView {
            pinned: with_key(d.pinned, path),
            repos: d.repos.push((path, added_name(path), false)),
            ..d
        };
        (
            sorted_with(d1, d1.order),
            seq![CmdView::HidePathInput, CmdView::FocusRepos, CmdView::SaveConfig, CmdView::RefreshRepo(path), CmdView::SelectRepo(path)],
        )
    }
}

/// What event `e` at time `now` (milliseconds) does: the next state and
/// the commands for the loop, in order.
pub open spec fn handled(d: DashView, e: EventView, now: u64) -> (DashView, Seq<CmdView>) {
    match e {
        EventView::Quit => (DashView { quit: true, ..d }, Seq::empty()),
        EventView::SelectRepo(id) => {
            let d1 = DashView { active: None, ..d };
            match row_of(d.repos, id) {
                Some(i) => (DashView { selected: Some(i), ..d1 }, seq![CmdView::HideContextMenu, CmdView::ShowRepo(i)]),
                None => (d1, seq![CmdView::HideContextMenu]),
            }
        },
        EventView::RefreshRepo(id) => scheduled(d, id, now),
        EventView::RefreshRepoAfterCooldown(id) => if d.scheduled.contains(id) {
            scheduled(DashView { scheduled: without_key(d.scheduled, id), ..d }, id, now)
        } else {
            (d, Seq::empty())
        },
        EventView::StatusQueryDone(id) => {
            let d1 = DashView { pending: without_key(d.pending, id), last: stamp(d.last, id, now), ..d };
            if d.dirty.contains(id) {
                scheduled(DashView { dirty: without_key(d.dirty, id), ..d1 }, id, now)
            } else {
                (d1, Seq::empty())
            }
        },
        EventView::StatusUpdated(id, changes) => {
            let d1 = DashView {
                repos: match row_of(d.repos, id) {
                    Some(i) => d.repos.update(i as int, (d.repos[i as int].0, d.repos[i as int].1, changes)),
                    None => d.repos,
                },
                pending: without_key(d.pending, id),
                last: stamp(d.last, id, now),
                dirty: without_key(d.dirty, id),
                ..d
            };
            let panels = match row_of(d.repos, id) {
                Some(i) => if d.selected == Some(i) && d.active is None { seq![CmdView::RefreshPanels(i)] } else { Seq::empty() },
                None => Seq::empty(),
            };
            if d.dirty.contains(id) {
                let next = scheduled(d1, id, now);
                (next.0, panels + next.1)
            } else {
                (d1, panels)
            }
        },
        EventView::RemoveRepo(id) => match row_of(d.repos, id) {
            Some(i) => removed(d, i),
            None => (d, Seq::empty()),
        },
        EventView::FocusRepoDetails(id) => {
            let d1 = DashView { active: None, ..d };
            match row_of(d.repos, id) {
                Some(i) => (d1, seq![CmdView::HideContextMenu, CmdView::ShowRepo(i)]),
                None => (d1, seq![CmdView::HideContextMenu]),
            }
        },
        EventView::SelectWorktree(repo, path, branch) => {
            let name = match row_of(d.repos, repo) {
                Some(i) => d.repos[i as int].1,
                None => Seq::empty(),
            };
            (
                DashView { active: Some(path), ..d },
                seq![CmdView::HideContextMenu, CmdView::ShowWorktree(repo, path, name + ":"@ + branch)],
            )
        },
        EventView::WorktreeFilesLoaded(path) => (
            d,
            if d.active == Some(path) { seq![CmdView::ApplyWorktreeFiles] } else { Seq::empty() },
        ),
        EventView::CycleSortOrder => resorted(d),
        EventView::ConfirmRemoveRepo(id) => match row_of(d.repos, id) {
            Some(i) => (d, seq![CmdView::AskRemove(d.repos[i as int].1, id)]),
            None => (d, Seq::empty()),
        },
        EventView::AddRepo(path, ok) => added(d, path, ok),
        EventView::RescanRepos => (
            DashView {
                pending: Seq::empty(),
                dirty: Seq::empty(),
                scheduled: Seq::empty(),
                last: Seq::empty(),
                excluded: Seq::empty(),
                ..d
            },
            seq![CmdView::InvalidateAllGraphs, CmdView::SaveConfig, CmdView::Rediscover],
        ),
    }
}


/// No two rows share a path.
pub open spec fn unique_paths(rs: Seq<(Seq<char>, Seq<char>, bool)>) -> bool {
    forall|i: int, j: int| 0 <= i < rs.len() && 0 <= j < rs.len() && i != j ==> rs[i].0 != rs[j].0
}

proof fn lemma_row_of(rs: Seq<(Seq<char>, Seq<char>, bool)>, x: Seq<char>)
    requires
        rs.len() <= usize::MAX,
    ensures
        row_of(rs, x) matches Some(i) ==> i < rs.len() && rs[i as int].0 == x,
        row_of(rs, x) is None ==> !paths_of(rs).contains(x),
    decreases rs.len(),
{
    if rs.len() > 0 {
        lemma_row_of(rs.drop_last(), x);
        match row_of(rs.drop_last(), x) {
            Some(i) => {
                assert(rs.drop_last()[i as int] == rs[i as int]);
            },
            None => {},
        }
        if row_of(rs, x) is None {
            assert forall|k: int| 0 <= k < rs.len() implies paths_of(rs)[k] != x by {
                if k < rs.len() - 1 {
                    assert(paths_of(rs.drop_last())[k] == paths_of(rs)[k]);
                }
            }
        }
    }
}

proof fn lemma_without(s: Seq<Seq<char>>, x: Seq<char>)
    ensures
        !without_key(s, x).contains(x),
{
    if without_key(s, x).contains(x) {
        let i = choose|i: int| 0 <= i < without_key(s, x).len() && without_key(s, x)[i] == x;
        s.lemma_filter_pred(other_than(x), i);
    }
}

proof fn lemma_unstamp(l: Seq<(Seq<char>, u64)>, x: Seq<char>)
    ensures
        stamp_of(unstamp(l, x), x) is None,
    decreases l.len(),
{
    reveal(Seq::filter);
    if l.len() > 0 {
        lemma_unstamp(l.drop_last(), x);
        let rest = l.drop_last().filter(stamp_other_than(x));
        assert(unstamp(l, x) == if stamp_other_than(x)(l.last()) { rest.push(l.last()) } else { rest });
        if stamp_other_than(x)(l.last()) {
            assert(rest.push(l.last()).drop_last() =~= rest);
        }
    }
}

/// Removing a listed repository takes it off the list, one row shorter,
/// and out of every record kept for it: no query in flight, no change
/// mark, no deferred refresh, no stamp, no pin.
pub proof fn law_removed_repository_is_gone(d: DashView, id: Seq<char>, now: u64)
    requires
        d.repos.len() <= usize::MAX,
        unique_paths(d.repos),
        paths_of(d.repos).contains(id),
    ensures
        ({
            let h = handled(d, EventView::RemoveRepo(id), now).0;
            &&& !paths_of(h.repos).contains(id)
            &&& h.repos.len() == d.repos.len() - 1
            &&& !h.pending.contains(id)
            &&& !h.dirty.contains(id)
            &&& !h.scheduled.contains(id)
            &&& stamp_of(h.last, id) is None
            &&& !h.pinned.contains(id)
        }),
{
    lemma_row_of(d.repos, id);
    let i = row_of(d.repos, id)->0;
    let rest = d.repos.remove(i as int);
    assert forall|k: int| 0 <= k < rest.len() implies paths_of(rest)[k] != id by {
        if k < i {
            assert(rest[k] == d.repos[k]);
        } else {
            assert(rest[k] == d.repos[k + 1]);
        }
    }
    lemma_without(d.pending, id);
    lemma_without(d.dirty, id);
    lemma_without(d.scheduled, id);
    lemma_without(d.pinned, id);
    lemma_unstamp(d.last, id);
}

/// The selection always names a row: whatever the event, a selection
/// inside the list stays inside it.
pub proof fn law_selection_stays_on_a_row(d: DashView, e: EventView, now: u64)
    requires
        d.repos.len() <= usize::MAX,
        d.selected matches Some(i) ==> i < d.repos.len(),
    ensures
        handled(d, e, now).0.selected matches Some(i) ==> i < handled(d, e, now).0.repos.len(),
{
    match e {
        EventView::SelectRepo(id) => {
            lemma_row_of(d.repos, id);
        },
        EventView::RemoveRepo(id) => {
            lemma_row_of(d.repos, id);
        },
        EventView::StatusUpdated(id, _) => {
            lemma_row_of(d.repos, id);
        },
        EventView::AddRepo(path, ok) => {
            if ok && row_of(d.repos, path) is None {
                let d1 = DashView {
                    pinned: with_key(d.pinned, path),
                    repos: d.repos.push((path, added_name(path), false)),
                    ..d
                };
                let r = sort_of(d1.repos, d1.order);
                match d1.selected {
                    Some(s) => {
                        if place_of(r, s) is Some {
                            let p = choose|p: int| 0 <= p < r.len() && r[p] == s;
                            assert(0 <= p < r.len());
                        }
                    },
                    None => {},
                }
            }
        },
        EventView::CycleSortOrder => {
            let r = sort_of(d.repos, next_order(d.order));
            match d.selected {
                Some(s) => {
                    if place_of(r, s) is Some {
                        let p = choose|p: int| 0 <= p < r.len() && r[p] == s;
                        assert(0 <= p < r.len());
                    }
                },
                None => {},
            }
        },
        _ => {},
    }
}

/// A change seen while a repository's query runs starts no second query:
/// it only marks the repository changed.
pub proof fn law_no_second_query_in_flight(d: DashView, id: Seq<char>, now: u64)
    requires
        d.pending.contains(id),
    ensures
        handled(d, EventView::RefreshRepo(id), now).1 == Seq::<CmdView>::empty(),
        handled(d, EventView::RefreshRepo(id), now).0.dirty.contains(id),
        handled(d, EventView::RefreshRepo(id), now).0.pending == d.pending,
{
    if !d.dirty.contains(id) {
        assert(d.dirty.push(id)[d.dirty.len() as int] == id);
    }
}

/// A change that arrived during a query is not lost: once the query ends,
/// the listed repository is queried again at once, or a deferred refresh
/// waits for it, and the change mark is cleared.
pub proof fn law_changed_repository_is_queried_again(d: DashView, id: Seq<char>, now: u64)
    requires
        d.repos.len() <= usize::MAX,
        d.dirty.contains(id),
        paths_of(d.repos).contains(id),
    ensures
        ({
            let h = handled(d, EventView::StatusQueryDone(id), now).0;
            &&& !h.dirty.contains(id)
            &&& h.pending.contains(id) || h.scheduled.contains(id)
        }),
{
    lemma_row_of(d.repos, id);
    lemma_without(d.pending, id);
    lemma_without(d.dirty, id);
    let d1 = DashView { pending: without_key(d.pending, id), last: stamp(d.last, id, now), ..d };
    let d2 = DashView { dirty: without_key(d.dirty, id), ..d1 };
    if !d2.pending.contains(id) {
        assert(d2.pending.push(id)[d2.pending.len() as int] == id);
    }
    if !d2.scheduled.contains(id) {
        assert(d2.scheduled.push(id)[d2.scheduled.len() as int] == id);
    }
}

/// The views of a sequence of commands.
pub open spec fn cmds_view(v: Seq<AppCommand>) -> Seq<CmdView> {
    v.map_values(|c: AppCommand| c@)
}

fn has_key(v: &Vec<String>, x: &String) -> (r: bool)
    ensures
        r == views(v@).contains(x@),
{
    assert(strings_view(v@) =~= views(v@));
    strings_contain(v, x)
}

fn add_key(v: &mut Vec<String>, x: &String)
    ensures
        views(final(v)@) == with_key(views(old(v)@), x@),
{
    if !has_key(v, x) {
        v.push(x.clone());
        assert(views(v@) =~= views(old(v)@).push(x@));
    }
}

fn drop_key(v: &mut Vec<String>, x: &String)
    ensures
        views(final(v)@) == without_key(views(old(v)@), x@),
{
    let r = remove_all(v, x);
    assert(strings_view(r@) =~= views(r@));
    assert(strings_view(old(v)@) =~= views(old(v)@));
    *v = r;
}

fn stamp_lookup(l: &Vec<(String, u64)>, x: &String) -> (r: Option<u64>)
    ensures
        r == stamp_of(stamps_view(l@), x@),
{
    let ghost full = stamps_view(l@);
    let mut i: usize = l.len();
    assert(full.take(l@.len() as int) =~= full);
    while i > 0
        invariant
            i <= l@.len(),
            full == stamps_view(l@),
            stamp_of(full, x@) == stamp_of(full.take(i as int), x@),
        decreases i,
    {
        let ghost t = full.take(i as int);
        assert(t.drop_last() =~= full.take(i - 1));
        if l[i - 1].0 == *x {
            assert(t.last() == full[i - 1]);
            return Some(l[i - 1].1);
        }
        i = i - 1;
    }
    None
}

fn unstamp_of(l: &Vec<(String, u64)>, x: &String) -> (r: Vec<(String, u64)>)
    ensures
        stamps_view(r@) == unstamp(stamps_view(l@), x@),
{
    let ghost pred = stamp_other_than(x@);
    let ghost full = stamps_view(l@);
    let mut r: Vec<(String, u64)> = Vec::new();
    let mut i: usize = 0;
    assert(full.take(0).filter(pred) =~= Seq::<(Seq<char>, u64)>::empty()) by {
        reveal(Seq::filter);
    }
    while i < l.len()
        invariant
            i <= l@.len(),
            full == stamps_view(l@),
            pred == stamp_other_than(x@),
            stamps_view(r@) == full.take(i as int).filter(pred),
        decreases l@.len() - i,
    {
        assert(full.take(i + 1) =~= full.take(i as int).push(full[i as int]));
        proof { full.take(i as int).lemma_filter_push(full[i as int], pred); }
        if l[i].0 != *x {
            assert(pred(full[i as int]));
            r.push((l[i].0.clone(), l[i].1));
            assert(stamps_view(r@) =~= full.take(i as int).filter(pred).push(full[i as int]));
        } else {
            assert(!pred(full[i as int]));
        }
        i = i + 1;
    }
    assert(full.take(l@.len() as int) =~= full);
    r
}

fn stamp_now(l: &mut Vec<(String, u64)>, x: &String, at: u64)
    ensures
        stamps_view(final(l)@) == stamp(stamps_view(old(l)@), x@, at),
{
    let mut r = unstamp_of(l, x);
    r.push((x.clone(), at));
    assert(stamps_view(r@) =~= unstamp(stamps_view(old(l)@), x@).push((x@, at)));
    *l = r;
}

fn drop_stamp(l: &mut Vec<(String, u64)>, x: &String)
    ensures
        stamps_view(final(l)@) == unstamp(stamps_view(old(l)@), x@),
{
    let r = unstamp_of(l, x);
    *l = r;
}

proof fn lemma_row_of_prefix(rs: Seq<(Seq<char>, Seq<char>, bool)>, x: Seq<char>, n: int)
    requires
        0 <= n <= rs.len(),
        row_of(rs.take(n), x) is Some,
    ensures
        row_of(rs, x) == row_of(rs.take(n), x),
    decreases rs.len() - n,
{
    if n < rs.len() {
        assert(rs.take(n + 1).drop_last() =~= rs.take(n));
        assert(row_of(rs.take(n + 1), x) == row_of(rs.take(n), x));
        lemma_row_of_prefix(rs, x, n + 1);
    } else {
        assert(rs.take(n) =~= rs);
    }
}

fn row_index(repos: &Vec<RepoItem>, x: &String) -> (r: Option<usize>)
    ensures
        r == row_of(items_view(repos@), x@),
        r matches Some(i) ==> i < repos@.len() && repos@[i as int].path@ == x@,
{
    let ghost full = items_view(repos@);
    let mut i: usize = 0;
    assert(full.take(0) =~= Seq::<(Seq<char>, Seq<char>, bool)>::empty());
    while i < repos.len()
        invariant
            i <= repos@.len(),
            full == items_view(repos@),
            row_of(full.take(i as int), x@) is None,
        decreases repos@.len() - i,
    {
        let ghost t = full.take(i + 1);
        assert(t.drop_last() =~= full.take(i as int));
        if repos[i].path == *x {
            assert(row_of(t, x@) == Some(i));
            proof { lemma_row_of_prefix(full, x@, i + 1); }
            return Some(i);
        }
        i = i + 1;
    }
    assert(full.take(repos@.len() as int) =~= full);
    None
}

impl Dashboard {
    fn schedule_refresh(&mut self, id: &String, now: u64) -> (cmds: Vec<AppCommand>)
        ensures
            final(self)@ == scheduled(old(self)@, id@, now).0,
            cmds_view(cmds@) == scheduled(old(self)@, id@, now).1,
    {
        let ghost d = self@;
        if has_key(&self.pending_status, id) {
            add_key(&mut self.dirty_repos, id);
            assert(self@ =~= (DashView { dirty: with_key(d.dirty, id@), ..d }));
            let c: Vec<AppCommand> = Vec::new();
            assert(cmds_view(c@) =~= Seq::<CmdView>::empty());
            return c;
        }
        let last = stamp_lookup(&self.last_refresh, id);
        match refresh_decision(last, now, self.refresh_cooldown_ms) {
            RefreshDecision::Now => {
                drop_key(&mut self.refresh_scheduled, id);
                let ghost d1 = DashView { scheduled: without_key(d.scheduled, id@), ..d };
                assert(self@ =~= d1);
                let mut c: Vec<AppCommand> = Vec::new();
                match row_index(&self.repos, id) {
                    Some(_) => {
                        add_key(&mut self.pending_status, id);
                        assert(self@ =~= (DashView { pending: with_key(d.pending, id@), ..d1 }));
                        c.push(AppCommand::QueryStatus(id.clone()));
                        assert(cmds_view(c@) =~= seq![CmdView::QueryStatus(id@)]);
                    },
                    None => {
                        assert(cmds_view(c@) =~= Seq::<CmdView>::empty());
                    },
                }
                c
            },
            RefreshDecision::Later(wait) => {
                let mut c: Vec<AppCommand> = Vec::new();
                if has_key(&self.refresh_scheduled, id) {
                    assert(self@ =~= d);
                    assert(cmds_view(c@) =~= Seq::<CmdView>::empty());
                } else {
                    self.refresh_scheduled.push(id.clone());
                    assert(views(self.refresh_scheduled@) =~= d.scheduled.push(id@));
                    assert(self@ =~= (DashView { scheduled: d.scheduled.push(id@), ..d }));
                    c.push(AppCommand::WakeAfter(id.clone(), wait));
                    assert(cmds_view(c@) =~= seq![CmdView::WakeAfter(id@, wait)]);
                }
                c
            },
        }
    }
}


fn listed_paths(repos: &Vec<RepoItem>) -> (r: Vec<String>)
    ensures
        views(r@) == paths_of(items_view(repos@)),
{
    let mut r: Vec<String> = Vec::new();
    let mut i: usize = 0;
    while i < repos.len()
        invariant
            i <= repos@.len(),
            views(r@) == paths_of(items_view(repos@)).take(i as int),
        decreases repos@.len() - i,
    {
        let ghost before = r@;
        let p = repos[i].path.clone();
        assert(p@ == paths_of(items_view(repos@))[i as int]);
        r.push(p);
        assert(r@ == before.push(p));
        assert(views(r@) =~= views(before).push(p@));
        assert(paths_of(items_view(repos@)).take(i + 1) =~= paths_of(items_view(repos@)).take(i as int).push(p@));
        i = i + 1;
    }
    assert(paths_of(items_view(repos@)).take(repos@.len() as int) =~= paths_of(items_view(repos@)));
    r
}

fn one(c: AppCommand) -> (r: Vec<AppCommand>)
    ensures
        cmds_view(r@) == seq![c@],
{
    let mut v: Vec<AppCommand> = Vec::new();
    v.push(c);
    assert(cmds_view(v@) =~= seq![c@]);
    v
}

impl Dashboard {
    fn remove_row(&mut self, idx: usize, id: &String) -> (cmds: Vec<AppCommand>)
        requires
            idx < old(self).repos@.len(),
            old(self).repos@[idx as int].path@ == id@,
        ensures
            final(self)@ == removed(old(self)@, idx).0,
            cmds_view(cmds@) == removed(old(self)@, idx).1,
    {
        let ghost d = self@;
        let path = self.repos[idx].path.clone();
        let name = self.repos[idx].name.clone();
        drop_key(&mut self.pending_status, id);
        drop_key(&mut self.dirty_repos, id);
        drop_stamp(&mut self.last_refresh, id);
        drop_key(&mut self.refresh_scheduled, id);
        drop_key(&mut self.pinned, &path);
        let listed = listed_paths(&self.repos);
        if exclude_on_removal(path.as_str(), name.as_str(), &listed, &self.roots, &self.excluded) {
            self.excluded.push(name.clone());
            assert(views(self.excluded@) =~= d.excluded.push(name@));
        }
        let gone = match &self.active_worktree {
            Some(a) => context_removed(a.as_str(), path.as_str()),
            None => false,
        };
        if gone {
            self.active_worktree = None;
        }
        self.repos.remove(idx);
        assert(items_view(self.repos@) =~= d.repos.remove(idx as int));
        let n = self.repos.len();
        self.selected = crate::repo_admin::selection_after_removal(idx, n);
        let mut cmds: Vec<AppCommand> = Vec::new();
        cmds.push(AppCommand::InvalidateGraph(path.clone()));
        cmds.push(AppCommand::SaveConfig);
        match self.selected {
            Some(j) => {
                cmds.push(AppCommand::SelectRepo(self.repos[j].path.clone()));
            },
            None => {
                cmds.push(AppCommand::ClearPanels);
            },
        }
        assert(self@ =~= removed(d, idx).0);
        assert(cmds_view(cmds@) =~= removed(d, idx).1);
        cmds
    }

    /// Applies `event`, seen at `now` (milliseconds), and returns what the
    /// loop is to do next (see `handled`).
    pub fn handle_event(&mut self, event: AppEvent, now: u64) -> (cmds: Vec<AppCommand>)
        ensures
            final(self)@ == handled(old(self)@, event@, now).0,
            cmds_view(cmds@) == handled(old(self)@, event@, now).1,
    {
        let ghost d = self@;
        match event {
            AppEvent::Quit => {
                self.should_quit = true;
                let c: Vec<AppCommand> = Vec::new();
                assert(self@ =~= (DashView { quit: true, ..d }));
                assert(cmds_view(c@) =~= Seq::<CmdView>::empty());
                c
            },
            AppEvent::SelectRepo(id) => {
                self.active_worktree = None;
                let mut c = one(AppCommand::HideContextMenu);
                match row_index(&self.repos, &id) {
                    Some(i) => {
                        self.selected = Some(i);
                        let ghost before = c@;
                        c.push(AppCommand::ShowRepo(i));
                        assert(c@ == before.push(AppCommand::ShowRepo(i)));
                        assert(cmds_view(c@) =~= cmds_view(before).push(CmdView::ShowRepo(i)));
                        assert(cmds_view(c@) =~= seq![CmdView::HideContextMenu, CmdView::ShowRepo(i)]);
                    },
                    None => {},
                }
                assert(self@ =~= handled(d, event@, now).0);
                c
            },
            AppEvent::RefreshRepo(id) => self.schedule_refresh(&id, now),
            AppEvent::RefreshRepoAfterCooldown(id) => {
                if has_key(&self.refresh_scheduled, &id) {
                    drop_key(&mut self.refresh_scheduled, &id);
                    assert(self@ =~= (DashView { scheduled: without_key(d.scheduled, id@), ..d }));
                    self.schedule_refresh(&id, now)
                } else {
                    let c: Vec<AppCommand> = Vec::new();
                    assert(cmds_view(c@) =~= Seq::<CmdView>::empty());
                    c
                }
            },
            AppEvent::StatusQueryDone(id) => {
                drop_key(&mut self.pending_status, &id);
                stamp_now(&mut self.last_refresh, &id, now);
                let ghost d1 = DashView { pending: without_key(d.pending, id@), last: stamp(d.last, id@, now), ..d };
                assert(self@ =~= d1);
                if has_key(&self.dirty_repos, &id) {
                    drop_key(&mut self.dirty_repos, &id);
                    assert(self@ =~= (DashView { dirty: without_key(d.dirty, id@), ..d1 }));
                    self.schedule_refresh(&id, now)
                } else {
                    let c: Vec<AppCommand> = Vec::new();
                    assert(cmds_view(c@) =~= Seq::<CmdView>::empty());
                    c
                }
            },
            AppEvent::StatusUpdated(id, changes) => {
                let was_dirty = has_key(&self.dirty_repos, &id);
                drop_key(&mut self.pending_status, &id);
                stamp_now(&mut self.last_refresh, &id, now);
                drop_key(&mut self.dirty_repos, &id);
                let row = row_index(&self.repos, &id);
                match row {
                    Some(i) => {
                        self.repos[i].dirty = changes;
                    },
                    None => {},
                }
                let ghost d1 = DashView {
                    repos: match row_of(d.repos, id@) {
                        Some(i) => d.repos.update(i as int, (d.repos[i as int].0, d.repos[i as int].1, changes)),
                        None => d.repos,
                    },
                    pending: without_key(d.pending, id@),
                    last: stamp(d.last, id@, now),
                    dirty: without_key(d.dirty, id@),
                    ..d
                };
                assert(self@ =~= d1);
                let mut c: Vec<AppCommand> = Vec::new();
                match row {
                    Some(i) => {
                        if self.selected == Some(i) && self.active_worktree.is_none() {
                            c.push(AppCommand::RefreshPanels(i));
                        }
                    },
                    None => {},
                }
                let ghost panels = cmds_view(c@);
                assert(panels =~= match row_of(d.repos, id@) {
                    Some(i) => if d.selected == Some(i) && d.active is None { seq![CmdView::RefreshPanels(i)] } else { Seq::<CmdView>::empty() },
                    None => Seq::<CmdView>::empty(),
                });
                if was_dirty {
                    let mut more = self.schedule_refresh(&id, now);
                    let ghost m = cmds_view(more@);
                    c.append(&mut more);
                    assert(cmds_view(c@) =~= panels + m);
                }
                c
            },
            AppEvent::FocusRepoDetails(id) => {
                self.active_worktree = None;
                let mut c = one(AppCommand::HideContextMenu);
                match row_index(&self.repos, &id) {
                    Some(i) => {
                        let ghost before = c@;
                        c.push(AppCommand::ShowRepo(i));
                        assert(c@ == before.push(AppCommand::ShowRepo(i)));
                        assert(cmds_view(c@) =~= cmds_view(before).push(CmdView::ShowRepo(i)));
                    },
                    None => {},
                }
                assert(self@ =~= handled(d, event@, now).0);
                c
            },
            AppEvent::SelectWorktree(repo, path, branch) => {
                let mut title = String::new();
                match row_index(&self.repos, &repo) {
                    Some(i) => push_str(&mut title, self.repos[i].name.as_str()),
                    None => {},
                }
                push_str(&mut title, ":");
                push_str(&mut title, branch.as_str());
                self.active_worktree = Some(path.clone());
                let mut c = one(AppCommand::HideContextMenu);
                let ghost before = c@;
                let cmd = AppCommand::ShowWorktree(repo, path, title);
                c.push(cmd);
                assert(c@ == before.push(cmd));
                assert(cmds_view(c@) =~= cmds_view(before).push(cmd@));
                assert(self@ =~= handled(d, event@, now).0);
                c
            },
            AppEvent::WorktreeFilesLoaded(path) => {
                let shown = match &self.active_worktree {
                    Some(a) => *a == path,
                    None => false,
                };
                if shown {
                    one(AppCommand::ApplyWorktreeFiles)
                } else {
                    let c: Vec<AppCommand> = Vec::new();
                    assert(cmds_view(c@) =~= Seq::<CmdView>::empty());
                    c
                }
            },
            AppEvent::CycleSortOrder => self.cycle_sort(),
            AppEvent::ConfirmRemoveRepo(id) => {
                match row_index(&self.repos, &id) {
                    Some(i) => {
                        let ask = AppCommand::AskRemove(self.repos[i].name.clone(), id);
                        one(ask)
                    },
                    None => {
                        let c: Vec<AppCommand> = Vec::new();
                        assert(cmds_view(c@) =~= Seq::<CmdView>::empty());
                        c
                    },
                }
            },
            AppEvent::AddRepo(path, ok) => self.add_repo(path, ok),
            AppEvent::RescanRepos => {
                self.pending_status = Vec::new();
                self.dirty_repos = Vec::new();
                self.refresh_scheduled = Vec::new();
                self.last_refresh = Vec::new();
                self.excluded = Vec::new();
                let mut c: Vec<AppCommand> = Vec::new();
                c.push(AppCommand::InvalidateAllGraphs);
                c.push(AppCommand::SaveConfig);
                c.push(AppCommand::Rediscover);
                assert(c@ =~= seq![AppCommand::InvalidateAllGraphs, AppCommand::SaveConfig, AppCommand::Rediscover]);
                assert(cmds_view(c@) =~= seq![CmdView::InvalidateAllGraphs, CmdView::SaveConfig, CmdView::Rediscover]);
                assert(self@ =~= handled(d, event@, now).0);
                c
            },
            AppEvent::RemoveRepo(id) => {
                match row_index(&self.repos, &id) {
                    Some(i) => self.remove_row(i, &id),
                    None => {
                        let c: Vec<AppCommand> = Vec::new();
                        assert(cmds_view(c@) =~= Seq::<CmdView>::empty());
                        c
                    },
                }
            },
        }
    }
}


fn sort_keys(repos: &Vec<RepoItem>) -> (k: Vec<RepoKey>)
    ensures
        keys_v(k@) == keys_of(items_view(repos@)),
{
    let mut k: Vec<RepoKey> = Vec::new();
    let mut i: usize = 0;
    while i < repos.len()
        invariant
            i <= repos@.len(),
            keys_v(k@) == keys_of(items_view(repos@)).take(i as int),
        decreases repos@.len() - i,
    {
        let ghost before = k@;
        let key = RepoKey { name: repos[i].name.clone(), dirty: repos[i].dirty };
        assert(key_v(key) == keys_of(items_view(repos@))[i as int]);
        k.push(key);
        assert(k@ == before.push(key));
        assert(keys_v(k@) =~= keys_v(before).push(key_v(key)));
        assert(keys_of(items_view(repos@)).take(i + 1) =~= keys_of(items_view(repos@)).take(i as int).push(key_v(key)));
        i = i + 1;
    }
    assert(keys_of(items_view(repos@)).take(repos@.len() as int) =~= keys_of(items_view(repos@)));
    k
}

proof fn lemma_reverse_permutation(r: Seq<usize>, n: int)
    requires
        is_permutation(r, n),
    ensures
        is_permutation(r.reverse(), n),
{
    assert forall|x: int| 0 <= x < n implies #[trigger] lists(r.reverse(), x) by {
        assert(lists(r, x));
        let p = choose|p: int| 0 <= p < r.len() && r[p] == x;
        assert(r.reverse()[n - 1 - p] == x);
    }
    assert forall|p: int, q: int| 0 <= p < q < n implies r.reverse()[p] != r.reverse()[q] by {
        assert(r.reverse()[p] == r[n - 1 - p] && r.reverse()[q] == r[n - 1 - q]);
    }
}

/// The sorted order is the only one `ordered` allows.
proof fn lemma_sort_unique(ks: Seq<(Seq<char>, bool)>, order: SortOrder, r1: Seq<usize>, r2: Seq<usize>)
    requires
        is_permutation(r1, ks.len() as int),
        is_permutation(r2, ks.len() as int),
        ordered(ks, order, r1),
        ordered(ks, order, r2),
    ensures
        r1 == r2,
{
    match order {
        SortOrder::Alphabetical => law_sort_is_deterministic(ks, false, r1, r2),
        SortOrder::DirtyFirst => law_sort_is_deterministic(ks, true, r1, r2),
        SortOrder::ReverseAlphabetical => {
            let n = ks.len() as int;
            lemma_reverse_permutation(r1, n);
            lemma_reverse_permutation(r2, n);
            law_sort_is_deterministic(ks, false, r1.reverse(), r2.reverse());
            assert forall|p: int| 0 <= p < n implies r1[p] == r2[p] by {
                assert(r1.reverse()[n - 1 - p] == r1[p]);
                assert(r2.reverse()[n - 1 - p] == r2[p]);
            }
            assert(r1 =~= r2);
        },
    }
}

impl Dashboard {
    fn sort_in(&mut self, o: SortOrder)
        ensures
            final(self)@ == sorted_with(old(self)@, o),
    {
        let ghost d = self@;
        let keys = sort_keys(&self.repos);
        let r = sorted_order(&keys, o);
        proof {
            let ks = keys_of(d.repos);
            assert(keys_v(keys@) == ks);
            assert(is_permutation(r@, d.repos.len() as int) && ordered(ks, o, r@));
            lemma_sort_unique(ks, o, r@, sort_of(d.repos, o));
            assert(sort_of(d.repos, o) == r@);
        }
        let n = r.len();
        let mut rows: Vec<RepoItem> = Vec::new();
        let mut p: usize = 0;
        while p < n
            invariant
                n == r@.len(),
                n == self.repos@.len(),
                p <= n,
                d.repos == items_view(self.repos@),
                is_permutation(r@, n as int),
                items_view(rows@) == permuted(d.repos, r@).take(p as int),
            decreases n - p,
        {
            let at = r[p];
            let ghost before = rows@;
            let item = RepoItem { path: self.repos[at].path.clone(), name: self.repos[at].name.clone(), dirty: self.repos[at].dirty };
            rows.push(item);
            assert(rows@ == before.push(item));
            assert(items_view(rows@) =~= items_view(before).push(d.repos[at as int]));
            assert(permuted(d.repos, r@).take(p + 1) =~= permuted(d.repos, r@).take(p as int).push(d.repos[at as int]));
            p = p + 1;
        }
        assert(permuted(d.repos, r@).take(n as int) =~= permuted(d.repos, r@));
        let sel = match self.selected {
            Some(s) => position_after_sort(&r, s),
            None => None,
        };
        proof {
            match d.selected {
                Some(s) => {
                    match sel {
                        Some(q) => {
                            let c = choose|x: int| 0 <= x < r@.len() && r@[x] == s;
                            assert(r@[c] == s && r@[q as int] == s);
                            assert(c == q);
                        },
                        None => {},
                    }
                },
                None => {},
            }
        }
        self.repos = rows;
        self.sort_order = o;
        self.selected = sel;
        assert(self@ =~= sorted_with(d, o));
    }

    fn cycle_sort(&mut self) -> (cmds: Vec<AppCommand>)
        ensures
            final(self)@ == resorted(old(self)@).0,
            cmds_view(cmds@) == resorted(old(self)@).1,
    {
        let o = self.sort_order.next();
        self.sort_in(o);
        let mut c = one(AppCommand::SortMessage(o));
        match self.selected {
            Some(q) => {
                let ghost before = c@;
                c.push(AppCommand::ShowRepo(q));
                assert(c@ == before.push(AppCommand::ShowRepo(q)));
                assert(cmds_view(c@) =~= cmds_view(before).push(CmdView::ShowRepo(q)));
            },
            None => {
                assert(cmds_view(c@) =~= seq![CmdView::SortMessage(o)] + Seq::<CmdView>::empty());
            },
        }
        c
    }

    fn add_repo(&mut self, path: String, is_repo: bool) -> (cmds: Vec<AppCommand>)
        ensures
            final(self)@ == added(old(self)@, path@, is_repo).0,
            cmds_view(cmds@) == added(old(self)@, path@, is_repo).1,
    {
        let ghost d = self@;
        let mut c: Vec<AppCommand> = Vec::new();
        if !is_repo {
            c.push(AppCommand::PathInputError);
            assert(c@ =~= seq![AppCommand::PathInputError]);
            assert(cmds_view(c@) =~= seq![CmdView::PathInputError]);
            return c;
        }
        c.push(AppCommand::HidePathInput);
        c.push(AppCommand::FocusRepos);
        assert(c@ =~= seq![AppCommand::HidePathInput, AppCommand::FocusRepos]);
        if row_index(&self.repos, &path).is_some() {
            c.push(AppCommand::AlreadyListed);
            let ghost before = c@;
            let cmd = AppCommand::SelectRepo(path);
            c.push(cmd);
            assert(c@ == before.push(cmd));
            assert(cmds_view(c@) =~= seq![CmdView::HidePathInput, CmdView::FocusRepos, CmdView::AlreadyListed, CmdView::SelectRepo(path@)]);
            return c;
        }
        let name = match file_name(path.as_str()) {
            Some(n) => n,
            None => path.clone(),
        };
        add_key(&mut self.pinned, &path);
        self.repos.push(RepoItem { path: path.clone(), name, dirty: false });
        let ghost d1 = DashView {
            pinned: with_key(d.pinned, path@),
            repos: d.repos.push((path@, added_name(path@), false)),
            ..d
        };
        assert(items_view(self.repos@) =~= d.repos.push((path@, added_name(path@), false)));
        assert(self@ =~= d1);
        let o = self.sort_order;
        self.sort_in(o);
        c.push(AppCommand::SaveConfig);
        let ghost b1 = c@;
        let refresh = AppCommand::RefreshRepo(path.clone());
        c.push(refresh);
        assert(c@ == b1.push(refresh));
        let ghost b2 = c@;
        let select = AppCommand::SelectRepo(path);
        c.push(select);
        assert(c@ == b2.push(select));
        assert(cmds_view(c@) =~= seq![CmdView::HidePathInput, CmdView::FocusRepos, CmdView::SaveConfig, CmdView::RefreshRepo(path@), CmdView::SelectRepo(path@)]);
        c
    }
}

} // verus!
