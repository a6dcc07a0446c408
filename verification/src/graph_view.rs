//! The commit graph panel's state: rows and collapsed branch groups, the
//! highlight, commit search, the open commit's files and diff, and the load
//! latch that coalesces rebuilds and bounds retries after aborted builds.

use vstd::prelude::*;
use crate::graph::{BranchSegment, DiffStat, GraphRow, LabelView, RowView, clone_rows, clone_strings, rows_view, strings_view};
use crate::input::{Key, Mouse, MouseKind};
use crate::scroll::{max_scroll_lines, pane_max};
use crate::scroll_bar::{list_bar, list_indicator, press_offset, text_bar, text_indicator, track_offset, ScrollGrab};
use crate::graph_scrub::{spec_scrub, DetailPane};
use crate::segments::{compute_segments, find_oid, position_of_oid, row_map_of, segments_of};
use crate::graph_cache::{CachedGraph, CachedView, GRAPH_CACHE_CAPACITY, GraphCache, GraphCacheKey, GraphFilters, KeyView, inserted, opt_strings_view, has_key, contents, recency, other_paths, with_stats, apply_stats_to_rows};
use crate::layout::{DETAIL_GRAB_ZONE, Rect, detail_border_positions, spec_end};
use crate::status::BranchFilter;
use crate::filter::{filter_matches, position_in, spec_selected_match, spec_step, ListFilter};
use crate::text::{contains_seq, contains_str, lowercase, pop_char, push_char, push_decimal, push_str, to_lowercase, decimal};

verus! {

/// Aborted builds in a row after which the panel stops retrying and shows
/// an error.
pub const MAX_CONSECUTIVE_ABORTS: u32 = 3;

/// The `/` commit search.
#[derive(Debug)]
pub struct SearchState {
    pub visible: bool,
    pub input: String,
    /// Display-row indices that match, in order.
    pub matches: Vec<usize>,
    /// Position in `matches` of the current match.
    pub current_match: Option<usize>,
}

impl SearchState {
    /// A hidden, empty search.
    pub fn new() -> (s: Self)
        ensures
            !s.visible,
            s.input@.len() == 0,
            s.matches@.len() == 0,
            s.current_match.is_none(),
    {
        SearchState { visible: false, input: String::new(), matches: Vec::new(), current_match: None }
    }

    /// Hides and empties the search.
    pub fn clear(&mut self)
        ensures
            !final(self).visible,
            final(self).input@.len() == 0,
            final(self).matches@.len() == 0,
            final(self).current_match.is_none(),
    {
        self.visible = false;
        self.input = String::new();
        self.matches = Vec::new();
        self.current_match = None;
    }
}

/// The open commit: its files, the highlighted file, and its diff.
#[derive(Debug)]
pub struct CommitDetail {
    pub oid: String,
    pub message: String,
    /// `(status, path)` per changed file.
    pub files: Vec<(String, String)>,
    pub file_selected: Option<usize>,
    /// First visible file row.
    pub file_offset: usize,
    pub diff_content: Option<String>,
    /// Whether the diff has the keyboard (`j`/`k` scroll it) rather than the
    /// file list.
    pub diff_focused: bool,
    pub diff_scroll: u16,
    pub msg_scroll: u16,
    /// Where the message block was drawn.
    pub msg_area: Rect,
    /// Where the file list was drawn.
    pub file_list_area: Rect,
    /// The `/` search over the file paths, while it runs.
    pub file_filter: Option<ListFilter>,
}

/// The options the graph is built with.
#[derive(Debug)]
pub struct GraphOptions {
    pub branch_filter: BranchFilter,
    pub label_max_len: usize,
    pub first_parent: bool,
    pub show_stats: bool,
    pub filters: GraphFilters,
}

/// A build the app should run in the background.
#[derive(Debug)]
pub struct GraphLoadRequest {
    pub generation: u64,
    pub path: String,
}

/// What the graph asks the app to do.
#[derive(Debug)]
pub enum GraphAction {
    ShowCommitFiles { repo_path: String, oid: String },
    ShowCommitDiff { repo_path: String, oid: String, file_path: String },
    /// Ask back through `commit_diff_settled` once the file highlight has
    /// rested; only the latest generation is honoured.
    ScheduleCommitDiff { generation: u64 },
    OpenGraphContextMenu,
}

/// The commit graph panel.
#[derive(Debug)]
pub struct GitGraph {
    /// Display rows (with collapsed placeholders) while a group is collapsed.
    pub rows: Vec<GraphRow>,
    /// Rows as built.
    pub all_rows: Vec<GraphRow>,
    /// Ids of the collapsed segments.
    pub collapsed_branches: Vec<String>,
    /// Non-trunk commit groups.
    pub segments: Vec<BranchSegment>,
    /// `all_rows` index → segment index (`None` = trunk).
    pub row_to_segment: Vec<Option<usize>>,
    pub selected: Option<usize>,
    /// First visible row.
    pub offset: usize,
    pub repo_name: String,
    pub repo_path: Option<String>,
    pub loading: bool,
    pub error: Option<String>,
    pub focused: bool,
    /// Whether the app has registered to run builds.
    pub action_ready: bool,
    pub render_area: Rect,
    pub graph_list_area: Rect,
    pub files_area: Rect,
    pub diff_area: Rect,
    pub commit_detail: Option<CommitDetail>,
    pub graph_options: GraphOptions,
    pub search: SearchState,
    /// Horizontal scroll (characters).
    pub h_scroll: usize,
    pub horizontal_layout: bool,
    /// Deferred reload, set when new data should be fetched later.
    pub needs_reload: bool,
    /// A build runs for the current repository.
    pub load_in_flight: bool,
    /// Tags builds so stale results are discarded.
    pub load_generation: u64,
    /// Tags commit file/diff loads so stale results are discarded.
    pub detail_generation: u64,
    /// Builds aborted in a row.
    pub consecutive_aborts: u32,
    pub graph_cache: GraphCache,
    /// Branch names offered by the filter picker.
    pub filter_branches: Vec<String>,
    /// Author names offered by the filter picker.
    pub filter_authors: Vec<String>,
    /// The build the app should start next.
    pub pending_load: Option<GraphLoadRequest>,
    /// Tags deferred diff requests so only the last file highlighted asks.
    pub diff_debounce: u64,
    /// The detail border (0, 1 or 2) a press grabbed, dragged by the app.
    pub dragging_detail_border: Option<u8>,
    /// The commit-detail pane whose scroll indicator a press grabbed, with
    /// the indicator as grabbed; drags scrub it until the release.
    pub scrubbing: Option<(DetailPane, ScrollGrab)>,
}

/// The rows on screen: the built rows, or the collapsed view while any
/// group is collapsed.
pub open spec fn display(g: GitGraph) -> Seq<GraphRow> {
    if g.collapsed_branches@.len() == 0 { g.all_rows@ } else { g.rows@ }
}

/// Whether a row matches a lowercased query in its message, author or
/// short id (each lowercased).
pub open spec fn row_hit(r: GraphRow, q: Seq<char>) -> bool {
    ||| contains_seq(lowercase(r.message@), q)
    ||| contains_seq(lowercase(r.author@), q)
    ||| contains_seq(lowercase(r.short_id@), q)
}

/// Indices below `n` of the rows that match `q`, in order.
pub open spec fn hits(rows: Seq<GraphRow>, q: Seq<char>, n: int) -> Seq<usize>
    decreases n,
{
    if n <= 0 {
        Seq::empty()
    } else if row_hit(rows[n - 1], q) {
        hits(rows, q, n - 1).push((n - 1) as usize)
    } else {
        hits(rows, q, n - 1)
    }
}

/// The matches of the search input over the display rows.
pub open spec fn search_hits(g: GitGraph) -> Seq<usize> {
    if g.search.input@.len() == 0 {
        Seq::empty()
    } else {
        hits(display(g), lowercase(g.search.input@), display(g).len() as int)
    }
}

/// `g` with its search matches recomputed (and the first one current).
pub open spec fn researched(g: GitGraph, matches: Vec<usize>) -> GitGraph {
    GitGraph {
        search: SearchState {
            matches,
            current_match: if matches@.len() > 0 { Some(0usize) } else { None },
            ..g.search
        },
        ..g
    }
}

/// The current match is at most one past the matches (as the search keeps
/// it).
pub open spec fn search_ok(g: GitGraph) -> bool {
    match g.search.current_match {
        Some(i) => i <= g.search.matches@.len(),
        None => true,
    }
}

/// `n`: the next match becomes current (wrapping to the first) and its row
/// is highlighted; nothing without matches.
pub open spec fn after_search_next(g: GitGraph) -> GitGraph {
    let n = g.search.matches@.len();
    if n == 0 {
        g
    } else {
        let next = match g.search.current_match {
            Some(i) => ((i + 1) % (n as int)) as usize,
            None => 0usize,
        };
        GitGraph {
            selected: Some(g.search.matches@[next as int]),
            search: SearchState { current_match: Some(next), ..g.search },
            ..g
        }
    }
}

/// `N`: the previous match becomes current (wrapping to the last) and its
/// row is highlighted; nothing without matches.
pub open spec fn after_search_prev(g: GitGraph) -> GitGraph {
    let n = g.search.matches@.len();
    if n == 0 {
        g
    } else {
        let prev = match g.search.current_match {
            Some(i) => if i == 0 { (n - 1) as usize } else { (i - 1) as usize },
            None => (n - 1) as usize,
        };
        GitGraph {
            selected: Some(g.search.matches@[prev as int]),
            search: SearchState { current_match: Some(prev), ..g.search },
            ..g
        }
    }
}

proof fn lemma_mod_succ(i: int, n: int)
    requires
        i >= 0,
        n > 0,
    ensures
        ((i % n) + 1) % n == (i + 1) % n,
{
    vstd::arithmetic::div_mod::lemma_add_mod_noop(i, 1, n);
    vstd::arithmetic::div_mod::lemma_mod_twice(1, n);
    if n > 1 {
        vstd::arithmetic::div_mod::lemma_small_mod(1, n as nat);
    }
    vstd::arithmetic::div_mod::lemma_add_mod_noop(i % n, 1, n);
    vstd::arithmetic::div_mod::lemma_mod_twice(i, n);
}

fn row_matches(r: &GraphRow, q: &str) -> (b: bool)
    ensures
        b == row_hit(*r, q@),
{
    let m = to_lowercase(r.message.as_str());
    if contains_str(m.as_str(), q) {
        return true;
    }
    let a = to_lowercase(r.author.as_str());
    if contains_str(a.as_str(), q) {
        return true;
    }
    let s = to_lowercase(r.short_id.as_str());
    contains_str(s.as_str(), q)
}

fn collect_hits(rows: &Vec<GraphRow>, q: &str) -> (m: Vec<usize>)
    ensures
        m@ == hits(rows@, q@, rows@.len() as int),
{
    let mut m: Vec<usize> = Vec::new();
    let mut i: usize = 0;
    while i < rows.len()
        invariant
            i <= rows@.len(),
            m@ == hits(rows@, q@, i as int),
        decreases rows@.len() - i,
    {
        if row_matches(&rows[i], q) {
            m.push(i);
        }
        i = i + 1;
    }
    m
}

impl GitGraph {
    /// The rows on screen.
    pub fn display_rows(&self) -> (r: &Vec<GraphRow>)
        ensures
            r@ == display(*self),
    {
        if self.collapsed_branches.len() == 0 { &self.all_rows } else { &self.rows }
    }

    /// Recomputes the search matches over the display rows; the first match
    /// becomes current.
    pub fn update_search_matches(&mut self)
        ensures
            final(self).search.matches@ == search_hits(*old(self)),
            *final(self) == researched(*old(self), final(self).search.matches),
    {
        if self.search.input.as_str().unicode_len() == 0 {
            self.search.matches = Vec::new();
            self.search.current_match = None;
            assert(self.search.matches@ =~= search_hits(*old(self)));
            return;
        }
        let query = to_lowercase(self.search.input.as_str());
        let matches = collect_hits(self.display_rows(), query.as_str());
        self.search.current_match = if matches.len() > 0 { Some(0) } else { None };
        self.search.matches = matches;
    }

    /// Makes the next match current (wrapping) and highlights its row.
    pub fn search_next(&mut self)
        ensures
            *final(self) == after_search_next(*old(self)),
    {
        let n = self.search.matches.len();
        if n == 0 {
            return;
        }
        let next = match self.search.current_match {
            Some(i) => (i % n + 1) % n,
            None => 0,
        };
        proof {
            match old(self).search.current_match {
                Some(i) => lemma_mod_succ(i as int, n as int),
                None => {},
            }
        }
        self.search.current_match = Some(next);
        self.selected = Some(self.search.matches[next]);
    }

    /// Makes the previous match current (wrapping) and highlights its row.
    pub fn search_prev(&mut self)
        requires
            search_ok(*old(self)),
        ensures
            *final(self) == after_search_prev(*old(self)),
    {
        let n = self.search.matches.len();
        if n == 0 {
            return;
        }
        let prev = match self.search.current_match {
            Some(i) => if i == 0 { n - 1 } else { i - 1 },
            None => n - 1,
        };
        self.search.current_match = Some(prev);
        self.selected = Some(self.search.matches[prev]);
    }
}


impl GraphOptions {
    /// All branches, labels cut at 24 characters, every parent, with stats
    /// and no filters.
    pub fn new() -> (o: Self)
        ensures
            o.branch_filter == BranchFilter::All,
            o.label_max_len == 24,
            !o.first_parent,
            o.show_stats,
            o.filters.branches.is_none(),
            o.filters.authors.is_none(),
    {
        GraphOptions {
            branch_filter: BranchFilter::All,
            label_max_len: 24,
            first_parent: false,
            show_stats: true,
            filters: GraphFilters { branches: None, authors: None },
        }
    }
}

fn clone_opt_strings(o: &Option<Vec<String>>) -> (r: Option<Vec<String>>)
    ensures
        opt_strings_view(r) == opt_strings_view(*o),
{
    match o {
        Some(v) => Some(clone_strings(v)),
        None => None,
    }
}

/// The cache key of the rows built for `path` with options `o`.
pub open spec fn key_of(o: GraphOptions, path: Seq<char>) -> KeyView {
    KeyView {
        path,
        branch_filter: o.branch_filter,
        first_parent: o.first_parent,
        show_stats: o.show_stats,
        branches: opt_strings_view(o.filters.branches),
        authors: opt_strings_view(o.filters.authors),
    }
}

/// The highlight after moving down one row of `len` (stopping at the last).
pub open spec fn next_index(sel: Option<usize>, len: nat) -> usize {
    match sel {
        Some(i) => if i + 1 < len { (i + 1) as usize } else { (len - 1) as usize },
        None => 0,
    }
}

/// The highlight after moving up one row (stopping at the first).
pub open spec fn prev_index(sel: Option<usize>) -> usize {
    match sel {
        Some(i) => if i == 0 { 0 } else { (i - 1) as usize },
        None => 0,
    }
}

/// `j`: the highlight moves down one display row (nothing without rows).
pub open spec fn after_select_next(g: GitGraph) -> GitGraph {
    if display(g).len() == 0 { g } else { GitGraph { selected: Some(next_index(g.selected, display(g).len())), ..g } }
}

/// `k`: the highlight moves up one display row (nothing without rows).
pub open spec fn after_select_prev(g: GitGraph) -> GitGraph {
    if display(g).len() == 0 { g } else { GitGraph { selected: Some(prev_index(g.selected)), ..g } }
}

/// What copying from the panel yields: the highlighted file's path while a
/// commit is open and a file is highlighted, else the highlighted commit's
/// short id and message.
pub open spec fn spec_selected_text(g: GitGraph) -> Option<Seq<char>> {
    let file = match g.commit_detail {
        Some(d) => match d.file_selected {
            Some(i) => if i < d.files@.len() { Some(d.files@[i as int].1@) } else { None },
            None => None,
        },
        None => None,
    };
    if file is Some {
        file
    } else {
        match g.selected {
            Some(i) => if i < display(g).len() {
                Some(display(g)[i as int].short_id@ + seq![' '] + display(g)[i as int].message@)
            } else {
                None
            },
            None => None,
        }
    }
}

impl GitGraph {
    /// An empty panel: no repository, rows, highlight, detail or search;
    /// no build pending and every counter at zero.
    pub fn new() -> (g: Self)
        ensures
            g.rows@.len() == 0,
            g.all_rows@.len() == 0,
            g.collapsed_branches@.len() == 0,
            g.segments@.len() == 0,
            g.row_to_segment@.len() == 0,
            g.selected.is_none(),
            g.offset == 0,
            g.repo_name@.len() == 0,
            g.repo_path.is_none(),
            !g.loading,
            g.error.is_none(),
            !g.focused,
            !g.action_ready,
            g.commit_detail.is_none(),
            g.graph_options.branch_filter == BranchFilter::All,
            !g.graph_options.first_parent,
            g.graph_options.show_stats,
            g.graph_options.filters.branches.is_none(),
            g.graph_options.filters.authors.is_none(),
            !g.search.visible,
            g.search.input@.len() == 0,
            g.search.matches@.len() == 0,
            g.search.current_match.is_none(),
            g.h_scroll == 0,
            !g.horizontal_layout,
            !g.needs_reload,
            !g.load_in_flight,
            g.load_generation == 0,
            g.detail_generation == 0,
            g.consecutive_aborts == 0,
            g.graph_cache.wf(),
            g.graph_cache.entries().len() == 0,
            g.graph_cache.capacity() == GRAPH_CACHE_CAPACITY,
            g.graph_cache.clock() == 0,
            g.filter_branches@.len() == 0,
            g.filter_authors@.len() == 0,
            g.pending_load.is_none(),
            g.diff_debounce == 0,
            g.dragging_detail_border.is_none(),
            g.scrubbing.is_none(),
            g.render_area == Rect::default_spec(),
            g.graph_list_area == Rect::default_spec(),
            g.files_area == Rect::default_spec(),
            g.diff_area == Rect::default_spec(),
    {
        GitGraph {
            rows: Vec::new(),
            all_rows: Vec::new(),
            collapsed_branches: Vec::new(),
            segments: Vec::new(),
            row_to_segment: Vec::new(),
            selected: None,
            offset: 0,
            repo_name: String::new(),
            repo_path: None,
            loading: false,
            error: None,
            focused: false,
            action_ready: false,
            render_area: Rect { x: 0, y: 0, width: 0, height: 0 },
            graph_list_area: Rect { x: 0, y: 0, width: 0, height: 0 },
            files_area: Rect { x: 0, y: 0, width: 0, height: 0 },
            diff_area: Rect { x: 0, y: 0, width: 0, height: 0 },
            commit_detail: None,
            graph_options: GraphOptions::new(),
            search: SearchState::new(),
            h_scroll: 0,
            horizontal_layout: false,
            needs_reload: false,
            load_in_flight: false,
            load_generation: 0,
            detail_generation: 0,
            consecutive_aborts: 0,
            graph_cache: GraphCache::new(GRAPH_CACHE_CAPACITY),
            filter_branches: Vec::new(),
            filter_authors: Vec::new(),
            pending_load: None,
            diff_debounce: 0,
            dragging_detail_border: None,
            scrubbing: None,
        }
    }

    /// The cache key of the rows the current options build for `path`.
    pub fn cache_key(&self, path: &str) -> (k: GraphCacheKey)
        ensures
            k@ == key_of(self.graph_options, path@),
    {
        GraphCacheKey {
            path: path.to_string(),
            branch_filter: self.graph_options.branch_filter,
            first_parent: self.graph_options.first_parent,
            show_stats: self.graph_options.show_stats,
            filters: GraphFilters {
                branches: clone_opt_strings(&self.graph_options.filters.branches),
                authors: clone_opt_strings(&self.graph_options.filters.authors),
            },
        }
    }

    /// Whether the commit search overlay shows.
    pub fn search_visible(&self) -> (b: bool)
        ensures
            b == self.search.visible,
    {
        self.search.visible
    }

    /// Whether a commit's files are open.
    pub fn has_detail(&self) -> (b: bool)
        ensures
            b == self.commit_detail.is_some(),
    {
        self.commit_detail.is_some()
    }

    /// Asks for a rebuild once the current one (or the open detail) is done.
    pub fn set_needs_reload(&mut self)
        ensures
            *final(self) == (GitGraph { needs_reload: true, ..*old(self) }),
    {
        self.needs_reload = true;
    }

    /// The generation of the latest build.
    pub fn current_generation(&self) -> (g: u64)
        ensures
            g == self.load_generation,
    {
        self.load_generation
    }

    /// The generation of the latest commit files/diff request.
    pub fn current_detail_generation(&self) -> (g: u64)
        ensures
            g == self.detail_generation,
    {
        self.detail_generation
    }

    /// Hands the pending build to the app, leaving none.
    pub fn take_load_request(&mut self) -> (r: Option<GraphLoadRequest>)
        ensures
            r == old(self).pending_load,
            *final(self) == (GitGraph { pending_load: None, ..*old(self) }),
    {
        self.pending_load.take()
    }

    /// Moves the highlight down one row, stopping at the last.
    pub fn select_next(&mut self)
        ensures
            *final(self) == after_select_next(*old(self)),
    {
        let n = self.display_rows().len();
        if n == 0 {
            return;
        }
        let i = match self.selected {
            Some(i) => if i < n - 1 { i + 1 } else { n - 1 },
            None => 0,
        };
        self.selected = Some(i);
    }

    /// Moves the highlight up one row, stopping at the first.
    pub fn select_prev(&mut self)
        ensures
            *final(self) == after_select_prev(*old(self)),
    {
        if self.display_rows().len() == 0 {
            return;
        }
        let i = match self.selected {
            Some(i) => if i == 0 { 0 } else { i - 1 },
            None => 0,
        };
        self.selected = Some(i);
    }

    /// The text to copy: the highlighted file's path in an open commit, or
    /// the highlighted commit's `"<short id> <message>"`.
    pub fn selected_text(&self) -> (r: Option<String>)
        ensures
            match r {
                Some(t) => spec_selected_text(*self) == Some(t@),
                None => spec_selected_text(*self).is_none(),
            },
    {
        if let Some(detail) = &self.commit_detail {
            if let Some(idx) = detail.file_selected {
                if idx < detail.files.len() {
                    return Some(detail.files[idx].1.clone());
                }
            }
        }
        let idx = match self.selected {
            Some(i) => i,
            None => { return None; },
        };
        let rows = self.display_rows();
        if idx >= rows.len() {
            return None;
        }
        let row = &rows[idx];
        let mut s = row.short_id.clone();
        push_char(&mut s, ' ');
        push_str(&mut s, row.message.as_str());
        assert(s@ =~= row.short_id@ + seq![' '] + row.message@);
        Some(s)
    }

    /// Opens an empty commit search.
    pub fn open_search(&mut self)
        ensures
            final(self).search.input@.len() == 0,
            final(self).search.matches@.len() == 0,
            *final(self) == (GitGraph {
                search: SearchState {
                    visible: true,
                    current_match: None,
                    input: final(self).search.input,
                    matches: final(self).search.matches,
                },
                ..*old(self)
            }),
    {
        self.search.visible = true;
        self.search.input = String::new();
        self.search.matches = Vec::new();
        self.search.current_match = None;
    }

    /// A key typed into the commit search: Esc hides it, Enter hides it and
    /// highlights the first match, Backspace and characters edit the query
    /// and recompute the matches.
    pub fn handle_search_key(&mut self, key: Key)
        ensures
            key == Key::Esc ==> *final(self) == (GitGraph {
                search: SearchState { visible: false, ..old(self).search },
                ..*old(self)
            }),
            key == Key::Enter ==> {
                let hid = GitGraph { search: SearchState { visible: false, ..old(self).search }, ..*old(self) };
                if old(self).search.matches@.len() > 0 {
                    *final(self) == (GitGraph {
                        selected: Some(old(self).search.matches@[0]),
                        search: SearchState { current_match: Some(0usize), ..hid.search },
                        ..hid
                    })
                } else {
                    *final(self) == hid
                }
            },
            key == Key::Backspace || key is Char ==> {
                let input = if key is Char { old(self).search.input@.push(key->0) }
                    else if old(self).search.input@.len() == 0 { old(self).search.input@ }
                    else { old(self).search.input@.drop_last() };
                &&& final(self).search.input@ == input
                &&& final(self).search.matches@ == search_hits(GitGraph {
                    search: SearchState { input: final(self).search.input, ..old(self).search },
                    ..*old(self)
                })
                &&& *final(self) == researched(GitGraph {
                    search: SearchState { input: final(self).search.input, ..old(self).search },
                    ..*old(self)
                }, final(self).search.matches)
            },
            !(key == Key::Esc || key == Key::Enter || key == Key::Backspace || key is Char) ==> *final(self) == *old(self),
    {
        match key {
            Key::Esc => {
                self.search.visible = false;
            },
            Key::Enter => {
                self.search.visible = false;
                if self.search.matches.len() > 0 {
                    let idx = self.search.matches[0];
                    self.search.current_match = Some(0);
                    self.selected = Some(idx);
                }
            },
            Key::Backspace => {
                pop_char(&mut self.search.input);
                self.update_search_matches();
            },
            Key::Char(c) => {
                push_char(&mut self.search.input, c);
                self.update_search_matches();
            },
            _ => {},
        }
    }
}


/// An optional index as an integer.
pub open spec fn opt_int(o: Option<usize>) -> Option<int> {
    match o {
        Some(x) => Some(x as int),
        None => None,
    }
}

/// Whether the segment `s` is collapsed.
pub open spec fn seg_collapsed(segs: Seq<BranchSegment>, coll: Seq<String>, s: int) -> bool {
    strings_view(coll).contains(segs[s].id@)
}

/// Whether `j` is one of the rows of segment `s`.
pub open spec fn in_seg(segs: Seq<BranchSegment>, s: int, j: int) -> bool {
    exists|k: int| 0 <= k < segs[s].row_indices@.len() && segs[s].row_indices@[k] == j
}

/// Whether row `j` belongs to one of the first `m` segments that is collapsed.
pub open spec fn hidden_upto(segs: Seq<BranchSegment>, coll: Seq<String>, j: int, m: int) -> bool {
    exists|s: int| 0 <= s < m && #[trigger] seg_collapsed(segs, coll, s) && in_seg(segs, s, j)
}

/// The first of the first `m` collapsed segments whose tip is row `t`.
pub open spec fn tip_seg(segs: Seq<BranchSegment>, coll: Seq<String>, t: int, m: int) -> Option<int>
    decreases m,
{
    if m <= 0 {
        None
    } else {
        let p = tip_seg(segs, coll, t, m - 1);
        if p is Some {
            p
        } else if seg_collapsed(segs, coll, m - 1) && segs[m - 1].row_indices@.len() > 0
            && segs[m - 1].row_indices@[0] == t {
            Some(m - 1)
        } else {
            None
        }
    }
}

/// The text a collapsed group shows: `"▶ <name> (<count> commits)"`.
pub open spec fn placeholder_message(name: Seq<char>, count: usize) -> Seq<char> {
    seq!['\u{25b6}', ' '] + name + seq![' ', '('] + decimal(count as nat) + seq![' ', 'c', 'o', 'm', 'm', 'i', 't', 's', ')']
}

/// The row standing for a collapsed segment: its tip with the group's
/// message, no id, author, labels or stats, and the segment's id and size.
pub open spec fn placeholder_row(r: RowView, id: Seq<char>, name: Seq<char>, count: usize) -> RowView {
    RowView {
        message: placeholder_message(name, count),
        short_id: Seq::empty(),
        author: Seq::empty(),
        labels: Seq::empty(),
        diff_stat: None,
        collapsed: Some((id, count)),
        ..r
    }
}

/// The collapsed view of the first `n` built rows: rows of collapsed
/// segments give way to one placeholder at each segment's tip.
pub open spec fn collapsed_view(all: Seq<GraphRow>, segs: Seq<BranchSegment>, coll: Seq<String>, n: int) -> Seq<RowView>
    decreases n,
{
    if n <= 0 {
        Seq::empty()
    } else {
        let prev = collapsed_view(all, segs, coll, n - 1);
        let i = n - 1;
        if hidden_upto(segs, coll, i, segs.len() as int) {
            match tip_seg(segs, coll, i, segs.len() as int) {
                Some(s) => prev.push(placeholder_row(
                    all[i]@,
                    segs[s].id@,
                    segs[s].display_name@,
                    segs[s].row_indices@.len() as usize,
                )),
                None => prev,
            }
        } else {
            prev.push(all[i]@)
        }
    }
}

/// The display rows kept while some group is collapsed (none otherwise).
pub open spec fn collapsed_rows(g: GitGraph) -> Seq<RowView> {
    if g.collapsed_branches@.len() == 0 {
        Seq::empty()
    } else {
        collapsed_view(g.all_rows@, g.segments@, g.collapsed_branches@, g.all_rows@.len() as int)
    }
}

pub(crate) fn strings_contain(v: &Vec<String>, x: &String) -> (r: bool)
    ensures
        r == strings_view(v@).contains(x@),
{
    let mut i: usize = 0;
    while i < v.len()
        invariant
            i <= v@.len(),
            forall|j: int| 0 <= j < i ==> (#[trigger] v@[j])@ != x@,
        decreases v@.len() - i,
    {
        if v[i] == *x {
            assert(strings_view(v@)[i as int] == x@);
            return true;
        }
        i = i + 1;
    }
    assert forall|j: int| 0 <= j < strings_view(v@).len() implies strings_view(v@)[j] != x@ by {
        assert(strings_view(v@)[j] == v@[j]@);
    }
    false
}

fn placeholder(row: &GraphRow, id: &String, name: &String, count: usize) -> (p: GraphRow)
    ensures
        p@ == placeholder_row(row@, id@, name@, count),
{
    let mut message = String::new();
    push_char(&mut message, '\u{25b6}');
    push_char(&mut message, ' ');
    push_str(&mut message, name.as_str());
    push_char(&mut message, ' ');
    push_char(&mut message, '(');
    push_decimal(&mut message, count as u64);
    push_str(&mut message, " commits)");
    proof {
        reveal_strlit(" commits)");
        assert(message@ =~= placeholder_message(name@, count));
    }
    let mut p = row.clone();
    p.message = message;
    p.short_id = String::new();
    p.author = String::new();
    p.labels = Vec::new();
    p.diff_stat = None;
    p.collapsed = Some((id.clone(), count));
    assert(p@.labels =~= Seq::<LabelView>::empty());
    assert(p@ =~= placeholder_row(row@, id@, name@, count));
    p
}

impl GitGraph {
    /// Rebuilds the collapsed view from the built rows, the segments and the
    /// collapsed ids; with nothing collapsed it holds no rows.
    pub fn recompute_collapsed_rows(&mut self)
        ensures
            rows_view(final(self).rows@) == collapsed_rows(*old(self)),
            *final(self) == (GitGraph { rows: final(self).rows, ..*old(self) }),
    {
        if self.collapsed_branches.len() == 0 {
            self.rows = Vec::new();
            assert(rows_view(self.rows@) =~= collapsed_rows(*old(self)));
            return;
        }
        let ghost g = *self;
        let ghost segs = self.segments@;
        let ghost coll = self.collapsed_branches@;
        let ghost all = self.all_rows@;
        let n = self.all_rows.len();
        let nsegs = self.segments.len();
        let mut hidden: Vec<bool> = Vec::new();
        let mut tips: Vec<Option<usize>> = Vec::new();
        let mut i: usize = 0;
        while i < n
            invariant
                i <= n,
                hidden@.len() == i,
                tips@.len() == i,
                forall|j: int| 0 <= j < i ==> !(#[trigger] hidden@[j]),
                forall|j: int| 0 <= j < i ==> (#[trigger] tips@[j]).is_none(),
            decreases n - i,
        {
            hidden.push(false);
            tips.push(None);
            i = i + 1;
        }
        let mut s: usize = 0;
        while s < nsegs
            invariant
                *self == g,
                segs == g.segments@,
                coll == g.collapsed_branches@,
                all == g.all_rows@,
                n == g.all_rows@.len(),
                nsegs == g.segments@.len(),
                s <= nsegs,
                hidden@.len() == n,
                tips@.len() == n,
                forall|j: int| 0 <= j < n ==> (#[trigger] hidden@[j] <==> hidden_upto(segs, coll, j, s as int)),
                forall|j: int| 0 <= j < n ==> opt_int(#[trigger] tips@[j]) == tip_seg(segs, coll, j, s as int),
            decreases nsegs - s,
        {
            let collapsed = strings_contain(&self.collapsed_branches, &self.segments[s].id);
            assert(collapsed == seg_collapsed(segs, coll, s as int));
            let ghost hidden0 = hidden@;
            if collapsed {
                let len = self.segments[s].row_indices.len();
                let mut k: usize = 0;
                while k < len
                    invariant
                        *self == g,
                segs == g.segments@,
                coll == g.collapsed_branches@,
                all == g.all_rows@,
                        n == g.all_rows@.len(),
                        nsegs == g.segments@.len(),
                        s < nsegs,
                        seg_collapsed(segs, coll, s as int),
                        len == g.segments@[s as int].row_indices@.len(),
                        k <= len,
                        hidden@.len() == n,
                        forall|j: int| 0 <= j < n ==> (#[trigger] hidden@[j] <==> (hidden0[j] || exists|k2: int|
                            0 <= k2 < k && g.segments@[s as int].row_indices@[k2] == j)),
                    decreases len - k,
                {
                    let j = self.segments[s].row_indices[k];
                    if j < n {
                        hidden.set(j, true);
                    }
                    k = k + 1;
                }
                let t = if len > 0 { self.segments[s].row_indices[0] } else { n };
                if t < n && tips[t].is_none() {
                    tips.set(t, Some(s));
                }
            }
            proof {
                assert forall|j: int| 0 <= j < n implies (#[trigger] hidden@[j] <==> hidden_upto(segs, coll, j, s + 1)) by {
                    if hidden@[j] && !hidden0[j] {
                        assert(in_seg(segs, s as int, j));
                        assert(seg_collapsed(segs, coll, s as int));
                    }
                    if hidden_upto(segs, coll, j, s + 1) && !hidden_upto(segs, coll, j, s as int) {
                        let s2 = choose|s2: int| 0 <= s2 < s + 1 && #[trigger] seg_collapsed(segs, coll, s2) && in_seg(segs, s2, j);
                        assert(s2 == s);
                        let k2 = choose|k2: int| 0 <= k2 < g.segments@[s2].row_indices@.len() && g.segments@[s2].row_indices@[k2] == j;
                        assert(hidden@[j]);
                    }
                    if hidden_upto(segs, coll, j, s as int) {
                        let s2 = choose|s2: int| 0 <= s2 < s && #[trigger] seg_collapsed(segs, coll, s2) && in_seg(segs, s2, j);
                        assert(0 <= s2 < s + 1 && seg_collapsed(segs, coll, s2) && in_seg(segs, s2, j));
                    }
                }
                assert forall|j: int| 0 <= j < n implies opt_int(#[trigger] tips@[j]) == tip_seg(segs, coll, j, s + 1) by {
                    assert(tip_seg(segs, coll, j, s + 1) == (if tip_seg(segs, coll, j, s as int) is Some { tip_seg(segs, coll, j, s as int) }
                        else if seg_collapsed(segs, coll, s as int) && g.segments@[s as int].row_indices@.len() > 0
                            && g.segments@[s as int].row_indices@[0] == j { Some(s as int) } else { None }));
                }
            }
            s = s + 1;
        }
        let mut rows: Vec<GraphRow> = Vec::new();
        let mut i: usize = 0;
        while i < n
            invariant
                *self == g,
                segs == g.segments@,
                coll == g.collapsed_branches@,
                all == g.all_rows@,
                n == g.all_rows@.len(),
                nsegs == g.segments@.len(),
                i <= n,
                hidden@.len() == n,
                tips@.len() == n,
                forall|j: int| 0 <= j < n ==> (#[trigger] hidden@[j] <==> hidden_upto(segs, coll, j, nsegs as int)),
                forall|j: int| 0 <= j < n ==> opt_int(#[trigger] tips@[j]) == tip_seg(segs, coll, j, nsegs as int),
                rows_view(rows@) == collapsed_view(all, segs, coll, i as int),
            decreases n - i,
        {
            let ghost before = rows@;
            if hidden[i] {
                match tips[i] {
                    Some(t) => {
                        proof { lemma_tip_seg_bounds(segs, coll, i as int, nsegs as int); }
                        let seg = &self.segments[t];
                        let p = placeholder(&self.all_rows[i], &seg.id, &seg.display_name, seg.row_indices.len());
                        rows.push(p);
                    },
                    None => {},
                }
            } else {
                rows.push(self.all_rows[i].clone());
            }
            assert(rows_view(rows@) =~= collapsed_view(all, segs, coll, i + 1));
            i = i + 1;
        }
        self.rows = rows;
    }
}

proof fn lemma_tip_seg_bounds(segs: Seq<BranchSegment>, coll: Seq<String>, t: int, m: int)
    ensures
        tip_seg(segs, coll, t, m) matches Some(s) ==> 0 <= s < m,
    decreases m,
{
    if m > 0 {
        lemma_tip_seg_bounds(segs, coll, t, m - 1);
    }
}


/// The stat the last of `old`'s rows with oid `oid` that has one carries.
pub open spec fn carried_stat(old: Seq<GraphRow>, oid: Seq<char>) -> Option<DiffStat>
    decreases old.len(),
{
    if old.len() == 0 {
        None
    } else if old.last().oid@ == oid && old.last().diff_stat is Some {
        old.last().diff_stat
    } else {
        carried_stat(old.drop_last(), oid)
    }
}

/// `rows` where each row without a stat takes the one `old` carried for
/// its oid (so a rebuild does not blank the `+N/-M` columns).
pub open spec fn carry_stats(rows: Seq<RowView>, old: Seq<GraphRow>) -> Seq<RowView> {
    rows.map_values(|r: RowView| if r.diff_stat is None { RowView { diff_stat: carried_stat(old, r.oid), ..r } } else { r })
}

/// The oid of the highlighted display row, if any.
pub open spec fn sel_oid(g: GitGraph) -> Option<Seq<char>> {
    match g.selected {
        Some(i) => if i < display(g).len() { Some(display(g)[i as int].oid@) } else { None },
        None => None,
    }
}

/// The highlight over new display rows `disp`: the row with the previously
/// highlighted oid, else the previous index clamped to the rows, else the
/// first row; unchanged when there are no rows.
pub open spec fn kept_selection(prev_oid: Option<Seq<char>>, prev: Option<usize>, disp: Seq<GraphRow>) -> Option<usize> {
    if disp.len() == 0 {
        prev
    } else {
        let f = match prev_oid {
            Some(o) => find_oid(disp, o, disp.len() as int),
            None => -1,
        };
        if f >= 0 {
            Some(f as usize)
        } else {
            match prev {
                Some(i) => Some(if i < disp.len() { i } else { (disp.len() - 1) as usize }),
                None => Some(0usize),
            }
        }
    }
}

/// The facts that hold of `h` once the rows `all` are installed with the
/// highlight `sel`: segments, collapsed view and search matches follow.
pub open spec fn rows_installed(h: GitGraph, all: Seq<RowView>, sel: Option<usize>) -> bool {
    &&& rows_view(h.all_rows@) == all
    &&& segments_of(h.all_rows@, h.segments@)
    &&& row_map_of(h.segments@, h.row_to_segment@, h.all_rows@.len() as int)
    &&& rows_view(h.rows@) == collapsed_rows(h)
    &&& h.selected == sel
    &&& h.search.matches@ == search_hits(h)
    &&& h.search.current_match == (if h.search.matches@.len() > 0 { Some(0usize) } else { None })
}

/// The snapshot `g` caches of the rows `all`.
pub open spec fn snapshot(g: GitGraph, all: Seq<RowView>) -> CachedView {
    CachedView { rows: all, filter_branches: strings_view(g.filter_branches@), filter_authors: strings_view(g.filter_authors@) }
}

/// The cache effect of installing rows `all` into `g`: stored under the
/// repository's key, if there is a repository.
pub open spec fn cache_after_install(g: GitGraph, all: Seq<RowView>, c: GraphCache) -> bool {
    &&& c.wf()
    &&& match g.repo_path {
        Some(p) => inserted(g.graph_cache, c, key_of(g.graph_options, p@), snapshot(g, all)),
        None => c == g.graph_cache,
    }
}

/// A build of `path` was handed to the app when it is ready to run one.
pub open spec fn load_started(g: GitGraph, h: GitGraph, path: Seq<char>) -> bool {
    if g.action_ready {
        &&& h.load_in_flight
        &&& h.load_generation == g.load_generation + 1
        &&& h.pending_load matches Some(r) && r.generation == h.load_generation && r.path@ == path
    } else {
        &&& h.load_in_flight == g.load_in_flight
        &&& h.load_generation == g.load_generation
        &&& h.pending_load == g.pending_load
    }
}

/// The effect of reloading the current repository of `g`: coalesced while a
/// build runs, else the error is cleared and a build starts.
pub open spec fn relaunched(g: GitGraph, h: GitGraph) -> bool {
    match g.repo_path {
        None => h == g,
        Some(p) => if g.load_in_flight {
            h == GitGraph { needs_reload: true, ..g }
        } else {
            &&& h.repo_name@ == g.repo_name@
            &&& h.repo_path matches Some(q) && q@ == p@
            &&& load_started(g, h, p@)
            &&& h == GitGraph {
                repo_name: h.repo_name,
                repo_path: h.repo_path,
                error: None,
                load_in_flight: h.load_in_flight,
                load_generation: h.load_generation,
                pending_load: h.pending_load,
                ..g
            }
        },
    }
}

/// The effect of running a deferred reload, if one is pending.
pub open spec fn reload_ran(g: GitGraph, h: GitGraph) -> bool {
    if g.needs_reload { relaunched(GitGraph { needs_reload: false, ..g }, h) } else { h == g }
}

/// What loading needs of the counters: a well-formed cache with clock room
/// for a lookup and a store, and room in the generation counters.
pub open spec fn load_room(g: GitGraph) -> bool {
    &&& g.graph_cache.wf()
    &&& g.graph_cache.clock() + 2 <= u64::MAX
    &&& g.load_generation < u64::MAX
    &&& g.detail_generation < u64::MAX
}

fn carried(old_rows: &Vec<GraphRow>, oid: &String) -> (r: Option<DiffStat>)
    ensures
        r == carried_stat(old_rows@, oid@),
{
    let mut k: usize = old_rows.len();
    assert(old_rows@.take(k as int) =~= old_rows@);
    while k > 0
        invariant
            k <= old_rows@.len(),
            carried_stat(old_rows@, oid@) == carried_stat(old_rows@.take(k as int), oid@),
        decreases k,
    {
        assert(old_rows@.take(k as int).drop_last() =~= old_rows@.take(k - 1));
        if old_rows[k - 1].diff_stat.is_some() && old_rows[k - 1].oid == *oid {
            return old_rows[k - 1].diff_stat;
        }
        k = k - 1;
    }
    None
}

fn carry_stats_into(rows: &mut Vec<GraphRow>, old_rows: &Vec<GraphRow>)
    ensures
        rows_view(final(rows)@) == carry_stats(rows_view(old(rows)@), old_rows@),
{
    let ghost r0 = rows_view(rows@);
    let mut i: usize = 0;
    while i < rows.len()
        invariant
            i <= rows@.len(),
            rows@.len() == r0.len(),
            forall|j: int| 0 <= j < i ==> (#[trigger] rows@[j])@ == carry_stats(r0, old_rows@)[j],
            forall|j: int| i <= j < rows@.len() ==> (#[trigger] rows@[j])@ == r0[j],
        decreases rows@.len() - i,
    {
        if rows[i].diff_stat.is_none() {
            let found = carried(old_rows, &rows[i].oid);
            rows[i].diff_stat = found;
        }
        i = i + 1;
    }
    assert(rows_view(rows@) =~= carry_stats(r0, old_rows@));
}

impl GitGraph {
    /// Recomputes the branch segments and the row → segment map from the
    /// built rows.
    fn recompute_segments(&mut self)
        ensures
            segments_of(final(self).all_rows@, final(self).segments@),
            row_map_of(final(self).segments@, final(self).row_to_segment@, final(self).all_rows@.len() as int),
            *final(self) == (GitGraph { segments: final(self).segments, row_to_segment: final(self).row_to_segment, ..*old(self) }),
    {
        let (segs, map) = compute_segments(&self.all_rows);
        self.segments = segs;
        self.row_to_segment = map;
    }

    /// Installs built rows: carries stats over, recomputes segments, the
    /// collapsed view, the highlight and the search, ends loading, and
    /// caches the snapshot for the repository.
    fn install_rows(&mut self, rows: Vec<GraphRow>)
        requires
            old(self).graph_cache.wf(),
            old(self).graph_cache.clock() < u64::MAX,
        ensures
            rows_installed(
                *final(self),
                carry_stats(rows_view(rows@), old(self).all_rows@),
                kept_selection(sel_oid(*old(self)), old(self).selected, display(*final(self))),
            ),
            cache_after_install(*old(self), carry_stats(rows_view(rows@), old(self).all_rows@), final(self).graph_cache),
            *final(self) == (GitGraph {
                all_rows: final(self).all_rows,
                rows: final(self).rows,
                segments: final(self).segments,
                row_to_segment: final(self).row_to_segment,
                selected: final(self).selected,
                search: SearchState {
                    matches: final(self).search.matches,
                    current_match: final(self).search.current_match,
                    ..old(self).search
                },
                loading: false,
                load_in_flight: false,
                consecutive_aborts: 0,
                graph_cache: final(self).graph_cache,
                ..*old(self)
            }),
    {
        let prev_oid: Option<String> = match self.selected {
            Some(i) => {
                let d = self.display_rows();
                if i < d.len() { Some(d[i].oid.clone()) } else { None }
            },
            None => None,
        };
        let prev = self.selected;
        let ghost all = carry_stats(rows_view(rows@), old(self).all_rows@);
        let mut rows = rows;
        carry_stats_into(&mut rows, &self.all_rows);
        self.all_rows = rows;
        self.loading = false;
        self.load_in_flight = false;
        self.consecutive_aborts = 0;
        self.recompute_segments();
        self.recompute_collapsed_rows();
        let n = self.display_rows().len();
        if n > 0 {
            let found = match &prev_oid {
                Some(o) => position_of_oid(self.display_rows(), o),
                None => None,
            };
            self.selected = match found {
                Some(f) => Some(f),
                None => match prev {
                    Some(i) => Some(if i < n { i } else { n - 1 }),
                    None => Some(0),
                },
            };
        }
        self.update_search_matches();
        match &self.repo_path {
            Some(p) => {
                let key = self.cache_key(p.as_str());
                let cached = CachedGraph {
                    rows: clone_rows(&self.all_rows),
                    filter_branches: clone_strings(&self.filter_branches),
                    filter_authors: clone_strings(&self.filter_authors),
                };
                assert(cached@ == snapshot(*old(self), all));
                self.graph_cache.insert(key, cached);
            },
            None => {},
        }
    }
}


/// Whether `g` shows the repository at `path`.
pub open spec fn same_repo(g: GitGraph, path: Seq<char>) -> bool {
    g.repo_path matches Some(p) && p@ == path
}

/// The view reset a switch to another repository makes: loading, with no
/// rows, segments, highlight, detail (older detail answers are refused),
/// deferred reload, search or abort streak.
pub open spec fn switched(g: GitGraph, h: GitGraph) -> bool {
    &&& h.rows@.len() == 0
    &&& h.all_rows@.len() == 0
    &&& h.collapsed_branches@.len() == 0
    &&& h.segments@.len() == 0
    &&& h.row_to_segment@.len() == 0
    &&& h.search.input@.len() == 0
    &&& h.search.matches@.len() == 0
    &&& h == GitGraph {
        loading: true,
        rows: h.rows,
        all_rows: h.all_rows,
        collapsed_branches: h.collapsed_branches,
        segments: h.segments,
        row_to_segment: h.row_to_segment,
        selected: None,
        commit_detail: None,
        detail_generation: (g.detail_generation + 1) as u64,
        needs_reload: false,
        search: SearchState { visible: false, input: h.search.input, matches: h.search.matches, current_match: None },
        consecutive_aborts: 0,
        ..g
    }
}

impl GitGraph {
    /// Clears the view for another repository.
    fn reset_view(&mut self)
        requires
            old(self).detail_generation < u64::MAX,
        ensures
            switched(*old(self), *final(self)),
    {
        self.loading = true;
        self.rows = Vec::new();
        self.all_rows = Vec::new();
        self.selected = None;
        self.commit_detail = None;
        self.detail_generation = self.detail_generation + 1;
        self.needs_reload = false;
        self.search.clear();
        self.collapsed_branches = Vec::new();
        self.segments = Vec::new();
        self.row_to_segment = Vec::new();
        self.consecutive_aborts = 0;
    }

    /// Hands a build of `path` to the app, when the app is ready to run one.
    fn start_load(&mut self, path: &str)
        requires
            old(self).load_generation < u64::MAX,
        ensures
            load_started(*old(self), *final(self), path@),
            *final(self) == (GitGraph {
                load_in_flight: final(self).load_in_flight,
                load_generation: final(self).load_generation,
                pending_load: final(self).pending_load,
                ..*old(self)
            }),
    {
        if !self.action_ready {
            return;
        }
        self.load_in_flight = true;
        self.load_generation = self.load_generation + 1;
        self.pending_load = Some(GraphLoadRequest { generation: self.load_generation, path: path.to_string() });
    }

    /// Shows the repository at `path`. While a build of the same repository
    /// runs, the request is only remembered. A switch to another repository
    /// clears the view; its snapshot, when cached under the current options,
    /// comes back at once, else a build starts. For the same repository a
    /// build starts (keeping the rows on screen meanwhile).
    pub fn load_repo(&mut self, path: &str, repo_name: &str)
        requires
            old(self).graph_cache.wf(),
            old(self).load_generation < u64::MAX,
            !same_repo(*old(self), path@) ==> old(self).graph_cache.clock() + 2 <= u64::MAX,
            !same_repo(*old(self), path@) ==> old(self).detail_generation < u64::MAX,
        ensures
            same_repo(*old(self), path@) && old(self).load_in_flight ==> *final(self) == (GitGraph { needs_reload: true, ..*old(self) }),
            !(same_repo(*old(self), path@) && old(self).load_in_flight) ==> {
                &&& final(self).repo_name@ == repo_name@
                &&& final(self).repo_path matches Some(p) && p@ == path@
                &&& final(self).error.is_none()
            },
            same_repo(*old(self), path@) && !old(self).load_in_flight ==> {
                &&& load_started(*old(self), *final(self), path@)
                &&& *final(self) == (GitGraph {
                    repo_name: final(self).repo_name,
                    repo_path: final(self).repo_path,
                    error: None,
                    load_in_flight: final(self).load_in_flight,
                    load_generation: final(self).load_generation,
                    pending_load: final(self).pending_load,
                    ..*old(self)
                })
            },
            !same_repo(*old(self), path@) ==> {
                let k = key_of(old(self).graph_options, path@);
                let es = old(self).graph_cache.entries();
                &&& final(self).graph_cache.wf()
                &&& final(self).graph_cache.capacity() == old(self).graph_cache.capacity()
                &&& final(self).detail_generation == old(self).detail_generation + 1
                &&& final(self).commit_detail.is_none()
                &&& !final(self).needs_reload
                &&& !final(self).search.visible
                &&& final(self).search.input@.len() == 0
                &&& final(self).consecutive_aborts == 0
                &&& *final(self) == (GitGraph {
                    rows: final(self).rows,
                    all_rows: final(self).all_rows,
                    collapsed_branches: final(self).collapsed_branches,
                    segments: final(self).segments,
                    row_to_segment: final(self).row_to_segment,
                    selected: final(self).selected,
                    repo_name: final(self).repo_name,
                    repo_path: final(self).repo_path,
                    loading: final(self).loading,
                    error: final(self).error,
                    commit_detail: final(self).commit_detail,
                    search: final(self).search,
                    needs_reload: final(self).needs_reload,
                    load_in_flight: final(self).load_in_flight,
                    load_generation: final(self).load_generation,
                    detail_generation: final(self).detail_generation,
                    consecutive_aborts: final(self).consecutive_aborts,
                    graph_cache: final(self).graph_cache,
                    filter_branches: final(self).filter_branches,
                    filter_authors: final(self).filter_authors,
                    pending_load: final(self).pending_load,
                    ..*old(self)
                })
                &&& has_key(es, k) ==> {
                    let c = contents(es)[k];
                    &&& !final(self).loading
                    &&& rows_installed(*final(self), c.rows, if c.rows.len() > 0 { Some(0usize) } else { None })
                    &&& strings_view(final(self).filter_branches@) == c.filter_branches
                    &&& strings_view(final(self).filter_authors@) == c.filter_authors
                    &&& contents(final(self).graph_cache.entries()) == contents(es)
                    &&& recency(final(self).graph_cache.entries()) == recency(es).insert(k, (old(self).graph_cache.clock() + 2) as u64)
                    &&& final(self).load_generation == old(self).load_generation
                    &&& final(self).pending_load == old(self).pending_load
                }
                &&& !has_key(es, k) ==> {
                    &&& final(self).loading
                    &&& final(self).all_rows@.len() == 0
                    &&& final(self).rows@.len() == 0
                    &&& final(self).selected.is_none()
                    &&& final(self).graph_cache.entries() == es
                    &&& final(self).graph_cache.clock() == old(self).graph_cache.clock()
                    &&& load_started(*old(self), *final(self), path@)
                }
            },
    {
        let target = path.to_string();
        let same = match &self.repo_path {
            Some(p) => *p == target,
            None => false,
        };
        if same && self.load_in_flight {
            self.needs_reload = true;
            return;
        }
        self.repo_name = repo_name.to_string();
        self.repo_path = Some(path.to_string());
        self.error = None;
        if !same {
            self.reset_view();
            let key = self.cache_key(path);
            let ghost k = key@;
            proof {
                if has_key(self.graph_cache.entries(), k) {
                    assert(contents(self.graph_cache.entries()).dom().contains(k));
                }
            }
            match self.graph_cache.get(&key) {
                Some(cached) => {
                    let ghost c = cached@;
                    self.filter_branches = cached.filter_branches;
                    self.filter_authors = cached.filter_authors;
                    let ghost before = *self;
                    self.install_rows(cached.rows);
                    proof {
                        assert(carry_stats(c.rows, before.all_rows@) =~= c.rows);
                        assert(snapshot(before, c.rows) == c);
                        assert(contents(final(self).graph_cache.entries()) =~= contents(old(self).graph_cache.entries()));
                    }
                    return;
                },
                None => {},
            }
        }
        self.start_load(path);
    }
}


/// `h` is `g` after the built rows `rows` arrived: installed (see
/// `rows_installed`), cached, loading ended, and a deferred reload run.
pub open spec fn rows_set(g: GitGraph, rows: Seq<GraphRow>, h: GitGraph) -> bool {
    let all = carry_stats(rows_view(rows), g.all_rows@);
    let reloads = g.needs_reload && g.repo_path is Some;
    &&& rows_installed(h, all, kept_selection(sel_oid(g), g.selected, display(h)))
    &&& cache_after_install(g, all, h.graph_cache)
    &&& reloads ==> {
        &&& h.repo_name@ == g.repo_name@
        &&& h.repo_path matches Some(q) && g.repo_path matches Some(p) && q@ == p@
        &&& h.error.is_none()
        &&& load_started(GitGraph { load_in_flight: false, ..g }, h, g.repo_path->0@)
    }
    &&& !reloads ==> {
        &&& h.repo_name == g.repo_name
        &&& h.repo_path == g.repo_path
        &&& h.error == g.error
        &&& !h.load_in_flight
        &&& h.load_generation == g.load_generation
        &&& h.pending_load == g.pending_load
    }
    &&& h == GitGraph {
        all_rows: h.all_rows,
        rows: h.rows,
        segments: h.segments,
        row_to_segment: h.row_to_segment,
        selected: h.selected,
        search: SearchState { matches: h.search.matches, current_match: h.search.current_match, ..g.search },
        loading: false,
        consecutive_aborts: 0,
        graph_cache: h.graph_cache,
        needs_reload: false,
        repo_name: h.repo_name,
        repo_path: h.repo_path,
        error: h.error,
        load_in_flight: h.load_in_flight,
        load_generation: h.load_generation,
        pending_load: h.pending_load,
        ..g
    }
}

/// `h` is `g` after its build failed with `msg`: the error shows, loading
/// ends, and a deferred reload runs (clearing the error again).
pub open spec fn error_set(g: GitGraph, msg: String, h: GitGraph) -> bool {
    reload_ran(GitGraph { error: Some(msg), loading: false, load_in_flight: false, ..g }, h)
}

/// The abort streak after one more aborted build.
pub open spec fn next_aborts(n: u32) -> u32 {
    if n == u32::MAX { n } else { (n + 1) as u32 }
}

/// `h` is `g` after a build aborted without a result: ignored unless one is
/// in flight; else the latch is released and, past the retry budget, an
/// error shows and deferred reloads stop, otherwise a deferred reload runs.
pub open spec fn aborted(g: GitGraph, h: GitGraph) -> bool {
    if !g.load_in_flight {
        h == g
    } else {
        let mid = GitGraph { load_in_flight: false, loading: false, consecutive_aborts: next_aborts(g.consecutive_aborts), ..g };
        if mid.consecutive_aborts > MAX_CONSECUTIVE_ABORTS {
            &&& h.error matches Some(e) && e@ == "Graph build failed repeatedly"@
            &&& h == GitGraph { error: h.error, needs_reload: false, ..mid }
        } else {
            reload_ran(mid, h)
        }
    }
}

/// `h` is `g` after diff stats arrived: folded into the built rows (the
/// last stat of an oid wins), the collapsed view and the cached snapshot.
pub open spec fn stats_set(g: GitGraph, stats: Seq<(String, DiffStat)>, h: GitGraph) -> bool {
    &&& rows_view(h.all_rows@) == with_stats(rows_view(g.all_rows@), stats)
    &&& rows_view(h.rows@) == collapsed_rows(h)
    &&& h.graph_cache.wf()
    &&& h.graph_cache.capacity() == g.graph_cache.capacity()
    &&& h.graph_cache.clock() == g.graph_cache.clock()
    &&& recency(h.graph_cache.entries()) == recency(g.graph_cache.entries())
    &&& match g.repo_path {
        Some(p) => {
            let k = key_of(g.graph_options, p@);
            let es = g.graph_cache.entries();
            contents(h.graph_cache.entries()) == if has_key(es, k) {
                contents(es).insert(k, CachedView { rows: with_stats(contents(es)[k].rows, stats), ..contents(es)[k] })
            } else {
                contents(es)
            }
        },
        None => contents(h.graph_cache.entries()) == contents(g.graph_cache.entries()),
    }
    &&& h == GitGraph { all_rows: h.all_rows, rows: h.rows, graph_cache: h.graph_cache, ..g }
}

/// A result of a background build, tagged with its generation.
#[derive(Debug)]
pub enum GraphLoadEvent {
    Loaded { generation: u64, rows: Vec<GraphRow> },
    StatsLoaded { generation: u64, stats: Vec<(String, DiffStat)> },
    Failed { generation: u64, message: String },
    Aborted { generation: u64 },
}

/// The generation an event carries.
pub open spec fn event_generation(ev: GraphLoadEvent) -> u64 {
    match ev {
        GraphLoadEvent::Loaded { generation, .. } => generation,
        GraphLoadEvent::StatsLoaded { generation, .. } => generation,
        GraphLoadEvent::Failed { generation, .. } => generation,
        GraphLoadEvent::Aborted { generation } => generation,
    }
}

impl GitGraph {
    /// Builds the current repository again (coalesced while a build runs).
    fn reload_graph(&mut self)
        requires
            old(self).graph_cache.wf(),
            old(self).load_generation < u64::MAX,
        ensures
            relaunched(*old(self), *final(self)),
    {
        match &self.repo_path {
            Some(p) => {
                let path = p.clone();
                let name = self.repo_name.clone();
                self.load_repo(path.as_str(), name.as_str());
            },
            None => {},
        }
    }

    /// Runs a deferred reload, if one is pending.
    fn reload_pending(&mut self)
        requires
            old(self).graph_cache.wf(),
            old(self).load_generation < u64::MAX,
        ensures
            reload_ran(*old(self), *final(self)),
    {
        if self.needs_reload {
            self.needs_reload = false;
            self.reload_graph();
        }
    }

    /// Built rows arrived: they replace the graph (keeping the highlighted
    /// commit where it still is), end loading and the abort streak, are
    /// cached, and a deferred reload runs.
    pub fn set_rows(&mut self, rows: Vec<GraphRow>)
        requires
            old(self).graph_cache.wf(),
            old(self).graph_cache.clock() < u64::MAX,
            old(self).load_generation < u64::MAX,
        ensures
            rows_set(*old(self), rows@, *final(self)),
    {
        self.install_rows(rows);
        self.reload_pending();
    }

    /// The build failed with `msg`.
    pub fn set_error(&mut self, msg: String)
        requires
            old(self).graph_cache.wf(),
            old(self).load_generation < u64::MAX,
        ensures
            error_set(*old(self), msg, *final(self)),
    {
        self.error = Some(msg);
        self.loading = false;
        self.load_in_flight = false;
        self.reload_pending();
    }

    /// A build ended without reporting (it panicked).
    pub fn abort_load(&mut self)
        requires
            old(self).graph_cache.wf(),
            old(self).load_generation < u64::MAX,
        ensures
            aborted(*old(self), *final(self)),
    {
        if !self.load_in_flight {
            return;
        }
        self.load_in_flight = false;
        self.loading = false;
        self.consecutive_aborts = self.consecutive_aborts.saturating_add(1);
        if self.consecutive_aborts > MAX_CONSECUTIVE_ABORTS {
            self.error = Some("Graph build failed repeatedly".to_string());
            self.needs_reload = false;
            return;
        }
        self.reload_pending();
    }

    /// Diff stats of the built commits arrived.
    pub fn set_diff_stats(&mut self, stats: Vec<(String, DiffStat)>)
        requires
            old(self).graph_cache.wf(),
        ensures
            stats_set(*old(self), stats@, *final(self)),
    {
        apply_stats_to_rows(&mut self.all_rows, &stats);
        self.recompute_collapsed_rows();
        match &self.repo_path {
            Some(p) => {
                let key = self.cache_key(p.as_str());
                self.graph_cache.apply_stats(&key, &stats);
            },
            None => {},
        }
    }

    /// Drops every cached snapshot of the repository at `path`.
    pub fn invalidate_repo(&mut self, path: &str)
        requires
            old(self).graph_cache.wf(),
        ensures
            final(self).graph_cache.wf(),
            final(self).graph_cache.capacity() == old(self).graph_cache.capacity(),
            final(self).graph_cache.clock() == old(self).graph_cache.clock(),
            contents(final(self).graph_cache.entries()) == contents(old(self).graph_cache.entries()).restrict(other_paths(path@)),
            recency(final(self).graph_cache.entries()) == recency(old(self).graph_cache.entries()).restrict(other_paths(path@)),
            *final(self) == (GitGraph { graph_cache: final(self).graph_cache, ..*old(self) }),
    {
        self.graph_cache.invalidate(path);
    }

    /// Drops every cached snapshot.
    pub fn invalidate_graph_cache(&mut self)
        requires
            old(self).graph_cache.wf(),
        ensures
            final(self).graph_cache.wf(),
            final(self).graph_cache.entries().len() == 0,
            final(self).graph_cache.capacity() == old(self).graph_cache.capacity(),
            final(self).graph_cache.clock() == old(self).graph_cache.clock(),
            *final(self) == (GitGraph { graph_cache: final(self).graph_cache, ..*old(self) }),
    {
        self.graph_cache.clear();
    }

    /// Loads the repository at `path` without using a cached snapshot of
    /// it: its snapshots are dropped first.
    pub fn force_reload_repo(&mut self, path: &str, repo_name: &str)
        requires
            old(self).graph_cache.wf(),
            old(self).graph_cache.clock() + 2 <= u64::MAX,
            old(self).load_generation < u64::MAX,
            old(self).detail_generation < u64::MAX,
        ensures
            !contents(final(self).graph_cache.entries()).dom().contains(key_of(old(self).graph_options, path@)),
            same_repo(*old(self), path@) && old(self).load_in_flight ==> final(self).needs_reload,
            !(same_repo(*old(self), path@) && old(self).load_in_flight) ==> {
                &&& final(self).repo_path matches Some(p) && p@ == path@
                &&& final(self).repo_name@ == repo_name@
                &&& final(self).error.is_none()
                &&& load_started(*old(self), *final(self), path@)
            },
            !same_repo(*old(self), path@) ==> {
                &&& final(self).loading
                &&& final(self).all_rows@.len() == 0
                &&& final(self).commit_detail.is_none()
            },
    {
        self.graph_cache.invalidate(path);
        proof {
            let k = key_of(old(self).graph_options, path@);
            assert(!contents(self.graph_cache.entries()).dom().contains(k));
            assert(!has_key(self.graph_cache.entries(), k));
        }
        self.load_repo(path, repo_name);
    }

    /// Applies a build result, unless a later build superseded it.
    pub fn handle_load_event(&mut self, ev: GraphLoadEvent)
        requires
            old(self).graph_cache.wf(),
            old(self).graph_cache.clock() < u64::MAX,
            old(self).load_generation < u64::MAX,
        ensures
            event_generation(ev) != old(self).load_generation ==> *final(self) == *old(self),
            event_generation(ev) == old(self).load_generation ==> match ev {
                GraphLoadEvent::Loaded { rows, .. } => rows_set(*old(self), rows@, *final(self)),
                GraphLoadEvent::StatsLoaded { stats, .. } => stats_set(*old(self), stats@, *final(self)),
                GraphLoadEvent::Failed { message, .. } => error_set(*old(self), message, *final(self)),
                GraphLoadEvent::Aborted { .. } => aborted(*old(self), *final(self)),
            },
    {
        match ev {
            GraphLoadEvent::Loaded { generation, rows } => {
                if generation == self.load_generation {
                    self.set_rows(rows);
                }
            },
            GraphLoadEvent::StatsLoaded { generation, stats } => {
                if generation == self.load_generation {
                    self.set_diff_stats(stats);
                }
            },
            GraphLoadEvent::Failed { generation, message } => {
                if generation == self.load_generation {
                    self.set_error(message);
                }
            },
            GraphLoadEvent::Aborted { generation } => {
                if generation == self.load_generation {
                    self.abort_load();
                }
            },
        }
    }
}


/// What `c` does on the highlighted row: `(true, id)` expands the group
/// `id` its placeholder stands for; `(false, id)` collapses the segment `id`
/// the commit belongs to; nothing for trunk commits or no highlight.
pub open spec fn collapse_change(g: GitGraph) -> Option<(bool, Seq<char>)> {
    match g.selected {
        None => None,
        Some(idx) => if idx >= display(g).len() {
            None
        } else {
            let row = display(g)[idx as int];
            match row.collapsed {
                Some(c) => Some((true, c.0@)),
                None => {
                    let a = find_oid(g.all_rows@, row.oid@, g.all_rows@.len() as int);
                    if a < 0 || a >= g.row_to_segment@.len() {
                        None
                    } else {
                        match g.row_to_segment@[a] {
                            Some(si) => if si < g.segments@.len() { Some((false, g.segments@[si as int].id@)) } else { None },
                            None => None,
                        }
                    }
                },
            }
        },
    }
}

/// `h` is `g` after `c` on the highlighted row (see `collapse_change`).
pub open spec fn toggled(g: GitGraph, h: GitGraph) -> bool {
    match collapse_change(g) {
        None => h == g,
        Some((expand, id)) => {
            let ids = strings_view(g.collapsed_branches@);
            &&& strings_view(h.collapsed_branches@) == if expand {
                ids.filter(other_than(id))
            } else if ids.contains(id) {
                ids
            } else {
                ids.push(id)
            }
            &&& rows_view(h.rows@) == collapsed_rows(h)
            &&& h == GitGraph { collapsed_branches: h.collapsed_branches, rows: h.rows, ..g }
        },
    }
}

/// The test "is not `id`".
pub open spec fn other_than(id: Seq<char>) -> spec_fn(Seq<char>) -> bool {
    |x: Seq<char>| x != id
}

/// Collapsing a group and then expanding it from its placeholder gives back
/// what was shown: starting with no group collapsed, the second `c` leaves
/// none collapsed, shows the built rows again, and keeps everything else.
pub proof fn law_collapse_then_expand_restores(g: GitGraph, h: GitGraph, k: GitGraph, id: Seq<char>)
    requires
        g.collapsed_branches@.len() == 0,
        collapse_change(g) == Some((false, id)),
        toggled(g, h),
        collapse_change(h) == Some((true, id)),
        toggled(h, k),
    ensures
        k.collapsed_branches@.len() == 0,
        display(k) == display(g),
        collapsed_rows(k) == Seq::<RowView>::empty(),
        k == (GitGraph { collapsed_branches: k.collapsed_branches, rows: k.rows, ..g }),
{
    let ids = strings_view(g.collapsed_branches@);
    assert(ids =~= Seq::<Seq<char>>::empty());
    assert(!ids.contains(id));
    assert(strings_view(h.collapsed_branches@) =~= seq![id]);
    let p = other_than(id);
    assert(seq![id].filter(p) =~= Seq::<Seq<char>>::empty()) by {
        reveal(Seq::filter);
        assert(Seq::<Seq<char>>::empty().push(id) =~= seq![id]);
        Seq::<Seq<char>>::empty().lemma_filter_push(id, p);
        assert(Seq::<Seq<char>>::empty().filter(p) =~= Seq::<Seq<char>>::empty());
    }
    assert(strings_view(k.collapsed_branches@).len() == k.collapsed_branches@.len());
}

pub(crate) fn remove_all(v: &Vec<String>, key: &String) -> (r: Vec<String>)
    ensures
        strings_view(r@) == strings_view(v@).filter(other_than(key@)),
{
    let ghost pred = other_than(key@);
    let mut r: Vec<String> = Vec::new();
    let mut i: usize = 0;
    assert(strings_view(v@.take(0)) =~= Seq::<Seq<char>>::empty());
    assert(Seq::<Seq<char>>::empty().filter(pred) =~= Seq::<Seq<char>>::empty()) by {
        reveal(Seq::filter);
    }
    while i < v.len()
        invariant
            i <= v@.len(),
            pred == other_than(key@),
            strings_view(r@) == strings_view(v@.take(i as int)).filter(pred),
        decreases v@.len() - i,
    {
        assert(strings_view(v@.take(i + 1)) =~= strings_view(v@.take(i as int)).push(v@[i as int]@));
        proof { strings_view(v@.take(i as int)).lemma_filter_push(v@[i as int]@, pred); }
        if v[i] != *key {
            assert(pred(v@[i as int]@));
            r.push(v[i].clone());
            assert(strings_view(r@) =~= strings_view(v@.take(i as int)).filter(pred).push(v@[i as int]@));
        } else {
            assert(!pred(v@[i as int]@));
        }
        i = i + 1;
    }
    assert(v@.take(v@.len() as int) =~= v@);
    r
}

impl GitGraph {
    /// `c`: collapses the highlighted commit's segment, or expands the
    /// group whose placeholder is highlighted.
    pub fn toggle_collapse_selected(&mut self)
        ensures
            toggled(*old(self), *final(self)),
    {
        let idx = match self.selected {
            Some(i) => i,
            None => { return; },
        };
        let n = self.display_rows().len();
        if idx >= n {
            return;
        }
        let collapsed_key: Option<String> = match &self.display_rows()[idx].collapsed {
            Some(c) => Some(c.0.clone()),
            None => None,
        };
        let oid = self.display_rows()[idx].oid.clone();
        match collapsed_key {
            Some(key) => {
                self.collapsed_branches = remove_all(&self.collapsed_branches, &key);
                self.recompute_collapsed_rows();
                return;
            },
            None => {},
        }
        let a = match position_of_oid(&self.all_rows, &oid) {
            Some(a) => a,
            None => { return; },
        };
        if a >= self.row_to_segment.len() {
            return;
        }
        let si = match self.row_to_segment[a] {
            Some(si) => si,
            None => { return; },
        };
        if si >= self.segments.len() {
            return;
        }
        let id = self.segments[si].id.clone();
        if !strings_contain(&self.collapsed_branches, &id) {
            let ghost before = strings_view(self.collapsed_branches@);
            self.collapsed_branches.push(id);
            assert(strings_view(self.collapsed_branches@) =~= before.push(id@));
        }
        self.recompute_collapsed_rows();
    }

    /// `H`: expands every collapsed group.
    pub fn expand_all_branches(&mut self)
        ensures
            old(self).collapsed_branches@.len() == 0 ==> *final(self) == *old(self),
            old(self).collapsed_branches@.len() > 0 ==> {
                &&& final(self).collapsed_branches@.len() == 0
                &&& final(self).rows@.len() == 0
                &&& *final(self) == (GitGraph { collapsed_branches: final(self).collapsed_branches, rows: final(self).rows, ..*old(self) })
            },
    {
        if self.collapsed_branches.len() == 0 {
            return;
        }
        self.collapsed_branches = Vec::new();
        self.recompute_collapsed_rows();
        assert(rows_view(self.rows@).len() == self.rows@.len());
    }
}


/// The files request the highlighted commit makes: `(repository, oid)`.
pub open spec fn files_request(g: GitGraph) -> Option<(Seq<char>, Seq<char>)> {
    match g.selected {
        Some(i) => if i < display(g).len() && g.repo_path is Some {
            Some((g.repo_path->0@, display(g)[i as int].oid@))
        } else {
            None
        },
        None => None,
    }
}

/// The diff request the highlighted file of the open commit makes:
/// `(repository, oid, file)`.
pub open spec fn diff_request(g: GitGraph) -> Option<(Seq<char>, Seq<char>, Seq<char>)> {
    match g.commit_detail {
        Some(d) => match d.file_selected {
            Some(i) => if i < d.files@.len() && g.repo_path is Some {
                Some((g.repo_path->0@, d.oid@, d.files@[i as int].1@))
            } else {
                None
            },
            None => None,
        },
        None => None,
    }
}

/// `r` is the files request `req` (or nothing when there is none).
pub open spec fn files_action(r: Option<GraphAction>, req: Option<(Seq<char>, Seq<char>)>) -> bool {
    match req {
        Some(q) => r matches Some(GraphAction::ShowCommitFiles { repo_path, oid }) && repo_path@ == q.0 && oid@ == q.1,
        None => r is None,
    }
}

/// `r` is the diff request `req` (or nothing when there is none).
pub open spec fn diff_action(r: Option<GraphAction>, req: Option<(Seq<char>, Seq<char>, Seq<char>)>) -> bool {
    match req {
        Some(q) => r matches Some(GraphAction::ShowCommitDiff { repo_path, oid, file_path })
            && repo_path@ == q.0 && oid@ == q.1 && file_path@ == q.2,
        None => r is None,
    }
}

/// `g` after asking for the highlighted commit's files (a new detail
/// generation, so older answers are refused).
pub open spec fn after_files_request(g: GitGraph) -> GitGraph {
    if files_request(g) is Some { GitGraph { detail_generation: (g.detail_generation + 1) as u64, ..g } } else { g }
}

/// `g` after asking for the highlighted file's diff.
pub open spec fn after_diff_request(g: GitGraph) -> GitGraph {
    if diff_request(g) is Some { GitGraph { detail_generation: (g.detail_generation + 1) as u64, ..g } } else { g }
}

/// `g` with the commit detail closed; pending detail answers are refused.
pub open spec fn after_close(g: GitGraph) -> GitGraph {
    GitGraph { commit_detail: None, detail_generation: (g.detail_generation + 1) as u64, ..g }
}

/// `g` with the commit detail `d`.
pub open spec fn with_detail(g: GitGraph, d: CommitDetail) -> GitGraph {
    GitGraph { commit_detail: Some(d), ..g }
}

/// The open commit's files with the first highlighted, no diff yet.
pub open spec fn new_detail(oid: String, message: String, files: Vec<(String, String)>) -> CommitDetail {
    CommitDetail {
        oid,
        message,
        files,
        file_selected: if files@.len() > 0 { Some(0usize) } else { None },
        file_offset: 0,
        diff_content: None,
        diff_focused: false,
        diff_scroll: 0,
        msg_scroll: 0,
        msg_area: Rect::default_spec(),
        file_list_area: Rect::default_spec(),
        file_filter: None,
    }
}

/// The file highlight moved one row (down or up), when there are files;
/// while the file search runs, one match (see `spec_step`).
pub open spec fn file_step(d: CommitDetail, down: bool) -> CommitDetail {
    if d.files@.len() == 0 {
        d
    } else {
        match d.file_filter {
            Some(f) => CommitDetail { file_selected: spec_step(f, d.file_selected, down), ..d },
            None => CommitDetail {
                file_selected: Some(if down { next_index(d.file_selected, d.files@.len()) } else { prev_index(d.file_selected) }),
                ..d
            },
        }
    }
}

/// The paths of the open commit's files.
pub open spec fn file_paths(d: CommitDetail) -> Seq<Seq<char>> {
    d.files@.map_values(|f: (String, String)| f.1@)
}

/// Whether file row `idx` passes the file search (every row does without a
/// query).
pub open spec fn file_visible(d: CommitDetail, idx: usize) -> bool {
    match d.file_filter {
        Some(f) => f.query@.len() == 0 || position_in(f.matches@, idx as int, f.matches@.len() as int) >= 0,
        None => true,
    }
}

/// The diff of the open commit dropped and its pending answers refused.
pub open spec fn diff_reset(g: GitGraph) -> GitGraph {
    match g.commit_detail {
        Some(d) => GitGraph {
            detail_generation: (g.detail_generation + 1) as u64,
            ..with_detail(g, CommitDetail { diff_content: None, diff_scroll: 0, ..d })
        },
        None => g,
    }
}

/// After the file highlight moved: during a file search the shown diff
/// goes at once (and a diff still loading is refused).
pub open spec fn after_file_moved(g: GitGraph) -> GitGraph {
    match g.commit_detail {
        Some(d) => if d.file_filter is Some { diff_reset(g) } else { g },
        None => g,
    }
}

/// `v` moved one step down or up, saturating, then held to `max`.
pub open spec fn stepped(v: u16, down: bool, max: u16) -> u16 {
    let w = if down { if v == u16::MAX { v } else { (v + 1) as u16 } } else { if v == 0 { 0 } else { (v - 1) as u16 } };
    if w > max { max } else { w }
}

/// The diff scrolled one row in the pane `pane` (reset without a diff).
pub open spec fn diff_stepped(d: CommitDetail, pane: Rect, down: bool) -> CommitDetail {
    match d.diff_content {
        Some(c) => CommitDetail { diff_scroll: stepped(d.diff_scroll, down, pane_max(c@, pane)), ..d },
        None => CommitDetail { diff_scroll: 0, ..d },
    }
}

/// The message scrolled one row in its pane.
pub open spec fn msg_stepped(d: CommitDetail, down: bool) -> CommitDetail {
    CommitDetail { msg_scroll: stepped(d.msg_scroll, down, pane_max(d.message@, d.msg_area)), ..d }
}

/// `g` after the file highlight moved: a deferred diff request of a new
/// generation.
pub open spec fn after_schedule(g: GitGraph) -> GitGraph {
    GitGraph { diff_debounce: (g.diff_debounce + 1) as u64, ..g }
}

/// The counters the detail and key handling advance have room.
pub open spec fn detail_room(g: GitGraph) -> bool {
    &&& g.detail_generation < u64::MAX
    &&& g.diff_debounce < u64::MAX
}

fn step_offset(v: u16, down: bool, max: u16) -> (r: u16)
    ensures
        r == stepped(v, down, max),
{
    let w = if down { v.saturating_add(1) } else { v.saturating_sub(1) };
    if w > max { max } else { w }
}

fn step_diff_scroll(d: &mut CommitDetail, pane: Rect, down: bool)
    ensures
        *final(d) == diff_stepped(*old(d), pane, down),
{
    match &d.diff_content {
        Some(c) => {
            let max = max_scroll_lines(c.as_str(), pane.height, pane.width);
            d.diff_scroll = step_offset(d.diff_scroll, down, max);
        },
        None => {
            d.diff_scroll = 0;
        },
    }
}

fn step_msg_scroll(d: &mut CommitDetail, down: bool)
    ensures
        *final(d) == msg_stepped(*old(d), down),
{
    let max = max_scroll_lines(d.message.as_str(), d.msg_area.height, d.msg_area.width);
    d.msg_scroll = step_offset(d.msg_scroll, down, max);
}

impl GitGraph {
    /// Closes the commit detail; answers to its requests are refused.
    pub fn close_detail(&mut self)
        requires
            old(self).detail_generation < u64::MAX,
        ensures
            *final(self) == after_close(*old(self)),
    {
        self.commit_detail = None;
        self.detail_generation = self.detail_generation + 1;
    }

    /// Asks for the highlighted commit's files.
    pub fn open_selected_commit_files(&mut self) -> (r: Option<GraphAction>)
        requires
            old(self).detail_generation < u64::MAX,
        ensures
            files_action(r, files_request(*old(self))),
            *final(self) == after_files_request(*old(self)),
    {
        let idx = match self.selected {
            Some(i) => i,
            None => { return None; },
        };
        if idx >= self.display_rows().len() {
            return None;
        }
        let oid = self.display_rows()[idx].oid.clone();
        let repo_path = match &self.repo_path {
            Some(p) => p.clone(),
            None => { return None; },
        };
        self.detail_generation = self.detail_generation + 1;
        Some(GraphAction::ShowCommitFiles { repo_path, oid })
    }

    /// Asks for the highlighted file's diff in the open commit.
    pub fn try_show_commit_diff(&mut self) -> (r: Option<GraphAction>)
        requires
            old(self).detail_generation < u64::MAX,
        ensures
            diff_action(r, diff_request(*old(self))),
            *final(self) == after_diff_request(*old(self)),
    {
        let (oid, file_path) = match &self.commit_detail {
            Some(d) => match d.file_selected {
                Some(i) => if i < d.files.len() {
                    (d.oid.clone(), d.files[i].1.clone())
                } else {
                    return None;
                },
                None => { return None; },
            },
            None => { return None; },
        };
        let repo_path = match &self.repo_path {
            Some(p) => p.clone(),
            None => { return None; },
        };
        self.detail_generation = self.detail_generation + 1;
        Some(GraphAction::ShowCommitDiff { repo_path, oid, file_path })
    }

    /// Whether the commit on display row `idx` is the one open.
    pub fn is_detail_open_for(&self, idx: usize) -> (b: bool)
        ensures
            b == (self.commit_detail is Some && idx < display(*self).len()
                && self.commit_detail->0.oid@ == display(*self)[idx as int].oid@),
    {
        match &self.commit_detail {
            Some(d) => {
                let rows = self.display_rows();
                idx < rows.len() && d.oid == rows[idx].oid
            },
            None => false,
        }
    }

    /// A commit's files arrived: the detail opens on them with the first
    /// file highlighted, and that file's diff is asked for.
    pub fn set_commit_files(&mut self, oid: String, message: String, files: Vec<(String, String)>) -> (r: Option<GraphAction>)
        requires
            old(self).detail_generation < u64::MAX,
        ensures
            diff_action(r, diff_request(with_detail(*old(self), new_detail(oid, message, files)))),
            *final(self) == after_diff_request(with_detail(*old(self), new_detail(oid, message, files))),
    {
        let file_selected = if files.len() > 0 { Some(0) } else { None };
        self.commit_detail = Some(CommitDetail {
            oid,
            message,
            files,
            file_selected,
            file_offset: 0,
            diff_content: None,
            diff_focused: false,
            diff_scroll: 0,
            msg_scroll: 0,
            msg_area: Rect { x: 0, y: 0, width: 0, height: 0 },
            file_list_area: Rect { x: 0, y: 0, width: 0, height: 0 },
            file_filter: None,
        });
        self.try_show_commit_diff()
    }

    /// A diff arrived for the open commit: it shows from its top.
    pub fn set_commit_diff(&mut self, content: String)
        ensures
            match old(self).commit_detail {
                Some(d) => *final(self) == with_detail(*old(self), CommitDetail { diff_content: Some(content), diff_scroll: 0, ..d }),
                None => *final(self) == *old(self),
            },
    {
        match &mut self.commit_detail {
            Some(d) => {
                d.diff_content = Some(content);
                d.diff_scroll = 0;
            },
            None => {},
        }
    }

    /// The file highlight moved: a diff is asked for once it rests.
    pub(crate) fn file_selection_changed(&mut self) -> (r: Option<GraphAction>)
        requires
            detail_room(*old(self)),
        ensures
            r == Some(GraphAction::ScheduleCommitDiff { generation: (old(self).diff_debounce + 1) as u64 }),
            *final(self) == after_schedule(after_file_moved(*old(self))),
    {
        let searching = match &self.commit_detail {
            Some(d) => d.file_filter.is_some(),
            None => false,
        };
        if searching {
            self.reset_diff();
        }
        self.schedule_diff()
    }

    fn reset_diff(&mut self)
        requires
            old(self).detail_generation < u64::MAX,
        ensures
            *final(self) == diff_reset(*old(self)),
    {
        match &mut self.commit_detail {
            Some(d) => {
                d.diff_content = None;
                d.diff_scroll = 0;
                self.detail_generation = self.detail_generation + 1;
            },
            None => {},
        }
    }

    fn schedule_diff(&mut self) -> (r: Option<GraphAction>)
        requires
            old(self).diff_debounce < u64::MAX,
        ensures
            r == Some(GraphAction::ScheduleCommitDiff { generation: (old(self).diff_debounce + 1) as u64 }),
            *final(self) == after_schedule(*old(self)),
    {
        self.diff_debounce = self.diff_debounce + 1;
        Some(GraphAction::ScheduleCommitDiff { generation: self.diff_debounce })
    }

    /// The deferred diff request `generation` came due: the highlighted
    /// file's diff is asked for, unless the highlight moved on since.
    pub fn commit_diff_settled(&mut self, generation: u64) -> (r: Option<GraphAction>)
        requires
            old(self).detail_generation < u64::MAX,
        ensures
            generation != old(self).diff_debounce ==> r is None && *final(self) == *old(self),
            generation == old(self).diff_debounce ==> {
                &&& diff_action(r, diff_request(*old(self)))
                &&& *final(self) == after_diff_request(*old(self))
            },
    {
        if generation != self.diff_debounce {
            return None;
        }
        self.try_show_commit_diff()
    }
}

/// `j` or Down.
pub open spec fn is_down(k: Key) -> bool {
    k == Key::Char('j') || k == Key::Down
}

/// `k` or Up.
pub open spec fn is_up(k: Key) -> bool {
    k == Key::Char('k') || k == Key::Up
}

/// Esc, `h` or Left.
pub open spec fn is_back(k: Key) -> bool {
    k == Key::Esc || k == Key::Char('h') || k == Key::Left
}

/// `v + 4`, saturating.
pub open spec fn plus4(v: usize) -> usize {
    if v > usize::MAX - 4 { usize::MAX } else { (v + 4) as usize }
}

/// `v - 4`, saturating.
pub open spec fn minus4(v: usize) -> usize {
    if v < 4 { 0 } else { (v - 4) as usize }
}

/// `g` with the first-parent option flipped.
pub open spec fn flipped_first_parent(g: GitGraph) -> GitGraph {
    GitGraph { graph_options: GraphOptions { first_parent: !g.graph_options.first_parent, ..g.graph_options }, ..g }
}

/// What a key does to the panel (`h`) and asks of the app (`r`), with a
/// commit's detail open.
pub open spec fn detail_key(g: GitGraph, d: CommitDetail, key: Key, h: GitGraph, r: Option<GraphAction>) -> bool {
    if d.diff_focused {
        &&& r is None
        &&& h == if is_back(key) {
            with_detail(g, CommitDetail { diff_focused: false, ..d })
        } else if is_down(key) {
            with_detail(g, diff_stepped(d, g.diff_area, true))
        } else if is_up(key) {
            with_detail(g, diff_stepped(d, g.diff_area, false))
        } else {
            g
        }
    } else if key == Key::Char('/') {
        &&& r is None
        &&& h.commit_detail matches Some(hd) && hd.file_filter matches Some(f)
            && f.query@.len() == 0 && f.matches@.len() == 0
            && h == with_detail(g, CommitDetail { file_filter: hd.file_filter, ..d })
    } else if key == Key::Esc {
        r is None && reload_ran(after_close(g), h)
    } else if is_down(key) || is_up(key) {
        let m = with_detail(g, file_step(d, is_down(key)));
        r == Some(GraphAction::ScheduleCommitDiff { generation: (g.diff_debounce + 1) as u64 }) && h == after_schedule(m)
    } else if key == Key::Enter {
        let m = with_detail(g, CommitDetail { diff_focused: true, ..d });
        diff_action(r, diff_request(m)) && h == after_diff_request(m)
    } else {
        r is None && h == g
    }
}

/// The file search after its query became `q`: the matches refreshed over
/// the file paths, the highlight moved onto a match, the shown diff dropped
/// and the highlighted file's diff scheduled.
pub open spec fn refined(g: GitGraph, d: CommitDetail, q: Seq<char>, h: GitGraph, r: Option<GraphAction>) -> bool {
    &&& r == Some(GraphAction::ScheduleCommitDiff { generation: (g.diff_debounce + 1) as u64 })
    &&& h.commit_detail matches Some(hd) && hd.file_filter matches Some(f) && {
        &&& f.query@ == q
        &&& f.matches@ == filter_matches(file_paths(d), q)
        &&& hd.file_selected == spec_selected_match(f, d.file_selected)
        &&& h == after_schedule(diff_reset(with_detail(g, CommitDetail {
            file_filter: hd.file_filter,
            file_selected: hd.file_selected,
            ..d
        })))
    }
}

/// What a key does while the file search of the open commit `d` runs:
/// typed characters and Backspace edit the query, Up and Down step between
/// matching files, Esc ends the search (the commit stays open), and Enter
/// asks for the highlighted file's diff and hands it the keyboard.
pub open spec fn file_search_key(g: GitGraph, d: CommitDetail, key: Key, h: GitGraph, r: Option<GraphAction>) -> bool {
    let f = d.file_filter->0;
    let scheduled = Some(GraphAction::ScheduleCommitDiff { generation: (g.diff_debounce + 1) as u64 });
    match key {
        Key::Char(c) => refined(g, d, f.query@.push(c), h, r),
        Key::Backspace => refined(g, d, if f.query@.len() == 0 { f.query@ } else { f.query@.drop_last() }, h, r),
        Key::Esc => r == scheduled && h == after_schedule(diff_reset(with_detail(g, CommitDetail { file_filter: None, ..d }))),
        Key::Down => r == scheduled && h == after_schedule(diff_reset(with_detail(g, file_step(d, true)))),
        Key::Up => r == scheduled && h == after_schedule(diff_reset(with_detail(g, file_step(d, false)))),
        Key::Enter => {
            &&& diff_action(r, diff_request(g))
            &&& h == if diff_request(g) is Some {
                with_detail(after_diff_request(g), CommitDetail { diff_focused: true, ..d })
            } else {
                g
            }
        },
        _ => r is None && h == g,
    }
}

/// What a key does to the panel without a commit open.
pub open spec fn list_key(g: GitGraph, key: Key, h: GitGraph, r: Option<GraphAction>) -> bool {
    if key == Key::Enter {
        files_action(r, files_request(g)) && h == after_files_request(g)
    } else {
        &&& r is None
        &&& if key == Key::Esc {
            h == after_close(g)
        } else if key == Key::Char('n') {
            h == after_search_next(g)
        } else if key == Key::Char('N') {
            h == after_search_prev(g)
        } else if key == Key::Char('/') {
            &&& h.search.input@.len() == 0
            &&& h.search.matches@.len() == 0
            &&& h == GitGraph {
                search: SearchState { visible: true, current_match: None, input: h.search.input, matches: h.search.matches },
                ..g
            }
        } else if is_down(key) {
            h == after_select_next(g)
        } else if is_up(key) {
            h == after_select_prev(g)
        } else if key == Key::Char('f') {
            relaunched(flipped_first_parent(g), h)
        } else if key == Key::Char('c') {
            toggled(g, h)
        } else if key == Key::Char('H') {
            if g.collapsed_branches@.len() == 0 {
                h == g
            } else {
                &&& h.collapsed_branches@.len() == 0
                &&& h.rows@.len() == 0
                &&& h == GitGraph { collapsed_branches: h.collapsed_branches, rows: h.rows, ..g }
            }
        } else if key == Key::Char('l') || key == Key::Right {
            h == GitGraph { h_scroll: plus4(g.h_scroll), ..g }
        } else if key == Key::Char('h') || key == Key::Left {
            h == GitGraph { h_scroll: minus4(g.h_scroll), ..g }
        } else {
            h == g
        }
    }
}

/// Moves the file highlight one row, or one match during a file search.
fn step_file(d: &mut CommitDetail, down: bool)
    ensures
        *final(d) == file_step(*old(d), down),
{
    let n = d.files.len();
    if n == 0 {
        return;
    }
    let next = match &d.file_filter {
        Some(f) => f.step(d.file_selected, down),
        None => Some(if down {
            match d.file_selected {
                Some(i) => if i < n - 1 { i + 1 } else { n - 1 },
                None => 0,
            }
        } else {
            match d.file_selected {
                Some(i) => if i == 0 { 0 } else { i - 1 },
                None => 0,
            }
        }),
    };
    d.file_selected = next;
}

/// Whether file row `idx` passes the file search.
fn file_row_visible(d: &CommitDetail, idx: usize) -> (r: bool)
    ensures
        r == file_visible(*d, idx),
{
    match &d.file_filter {
        Some(f) => !f.is_active() || f.position_of(idx).is_some(),
        None => true,
    }
}

/// The paths of a commit's files.
fn file_paths_of(files: &Vec<(String, String)>) -> (r: Vec<String>)
    ensures
        strings_view(r@) == files@.map_values(|f: (String, String)| f.1@),
{
    let mut r: Vec<String> = Vec::new();
    let mut i: usize = 0;
    while i < files.len()
        invariant
            i <= files@.len(),
            r@.len() == i,
            forall|j: int| 0 <= j < i ==> (#[trigger] r@[j])@ == files@[j].1@,
        decreases files@.len() - i,
    {
        r.push(files[i].1.clone());
        i = i + 1;
    }
    assert(strings_view(r@) =~= files@.map_values(|f: (String, String)| f.1@));
    r
}

impl GitGraph {
    /// Whether typed keys go to the file search: it runs and the diff does
    /// not have the keyboard.
    pub fn file_search_active(&self) -> (r: bool)
        ensures
            r == (self.commit_detail matches Some(d) && d.file_filter is Some && !d.diff_focused),
    {
        match &self.commit_detail {
            Some(d) => d.file_filter.is_some() && !d.diff_focused,
            None => false,
        }
    }

    /// `/` over an open commit: starts the file search with an empty query.
    fn start_file_search(&mut self)
        ensures
            match old(self).commit_detail {
                Some(d) => final(self).commit_detail matches Some(hd) && hd.file_filter matches Some(f)
                    && f.query@.len() == 0 && f.matches@.len() == 0
                    && *final(self) == with_detail(*old(self), CommitDetail { file_filter: hd.file_filter, ..d }),
                None => *final(self) == *old(self),
            },
    {
        match &mut self.commit_detail {
            Some(d) => {
                d.file_filter = Some(ListFilter::new());
            },
            None => {},
        }
    }

    /// A key during the file search (see `file_search_key`).
    fn handle_file_search_key(&mut self, key: Key) -> (r: Option<GraphAction>)
        requires
            detail_room(*old(self)),
            old(self).commit_detail matches Some(d) && d.file_filter is Some,
        ensures
            file_search_key(*old(self), old(self).commit_detail->0, key, *final(self), r),
    {
        match key {
            Key::Enter => {
                let action = self.try_show_commit_diff();
                if action.is_some() {
                    match &mut self.commit_detail {
                        Some(d) => {
                            d.diff_focused = true;
                        },
                        None => {},
                    }
                }
                action
            },
            Key::Down | Key::Up => {
                match &mut self.commit_detail {
                    Some(d) => step_file(d, key == Key::Down),
                    None => {},
                }
                self.reset_diff();
                self.schedule_diff()
            },
            Key::Esc => {
                match &mut self.commit_detail {
                    Some(d) => {
                        d.file_filter = None;
                    },
                    None => {},
                }
                self.reset_diff();
                self.schedule_diff()
            },
            Key::Char(_) | Key::Backspace => {
                match &mut self.commit_detail {
                    Some(d) => {
                        let paths = file_paths_of(&d.files);
                        match d.file_filter.take() {
                            Some(mut f) => {
                                match key {
                                    Key::Char(c) => f.push(c),
                                    _ => f.pop(),
                                }
                                f.rebuild(&paths);
                                d.file_selected = f.selected_match(d.file_selected);
                                d.file_filter = Some(f);
                            },
                            None => {},
                        }
                    },
                    None => {},
                }
                self.reset_diff();
                self.schedule_diff()
            },
            _ => None,
        }
    }
}

impl GitGraph {
    /// A key pressed while the panel has focus (outside the search
    /// overlay).
    pub fn handle_key_event(&mut self, key: Key) -> (r: Option<GraphAction>)
        requires
            old(self).graph_cache.wf(),
            old(self).load_generation < u64::MAX,
            detail_room(*old(self)),
            search_ok(*old(self)),
        ensures
            match old(self).commit_detail {
                Some(d) => if d.file_filter is Some && !d.diff_focused {
                    file_search_key(*old(self), d, key, *final(self), r)
                } else {
                    detail_key(*old(self), d, key, *final(self), r)
                },
                None => list_key(*old(self), key, *final(self), r),
            },
    {
        if self.file_search_active() {
            return self.handle_file_search_key(key);
        }
        if self.commit_detail.is_some() {
            let diff_area = self.diff_area;
            let focused = match &self.commit_detail {
                Some(d) => d.diff_focused,
                None => false,
            };
            if focused {
                match &mut self.commit_detail {
                    Some(d) => {
                        if key == Key::Esc || key == Key::Char('h') || key == Key::Left {
                            d.diff_focused = false;
                        } else if key == Key::Char('j') || key == Key::Down {
                            step_diff_scroll(d, diff_area, true);
                        } else if key == Key::Char('k') || key == Key::Up {
                            step_diff_scroll(d, diff_area, false);
                        }
                    },
                    None => {},
                }
                return None;
            }
            if key == Key::Char('/') {
                self.start_file_search();
                return None;
            }
            if key == Key::Esc {
                self.close_detail();
                self.reload_pending();
                return None;
            }
            if key == Key::Char('j') || key == Key::Down || key == Key::Char('k') || key == Key::Up {
                let down = key == Key::Char('j') || key == Key::Down;
                match &mut self.commit_detail {
                    Some(d) => step_file(d, down),
                    None => {},
                }
                return self.file_selection_changed();
            }
            if key == Key::Enter {
                match &mut self.commit_detail {
                    Some(d) => {
                        d.diff_focused = true;
                    },
                    None => {},
                }
                return self.try_show_commit_diff();
            }
            return None;
        }
        if key == Key::Enter {
            return self.open_selected_commit_files();
        }
        if key == Key::Esc {
            self.close_detail();
        } else if key == Key::Char('n') {
            self.search_next();
        } else if key == Key::Char('N') {
            self.search_prev();
        } else if key == Key::Char('/') {
            self.open_search();
        } else if key == Key::Char('j') || key == Key::Down {
            self.select_next();
        } else if key == Key::Char('k') || key == Key::Up {
            self.select_prev();
        } else if key == Key::Char('f') {
            self.graph_options.first_parent = !self.graph_options.first_parent;
            self.reload_graph();
        } else if key == Key::Char('c') {
            self.toggle_collapse_selected();
        } else if key == Key::Char('H') {
            self.expand_all_branches();
        } else if key == Key::Char('l') || key == Key::Right {
            self.h_scroll = self.h_scroll.saturating_add(4);
        } else if key == Key::Char('h') || key == Key::Left {
            self.h_scroll = self.h_scroll.saturating_sub(4);
        }
        None
    }
}


/// The axis coordinate of a pointer: its row when the panes stack
/// vertically, else its column.
pub open spec fn axis_pos(g: GitGraph, m: Mouse) -> u16 {
    if g.horizontal_layout { m.row } else { m.column }
}

/// Where the open commit's message was drawn (nowhere without one).
pub open spec fn msg_rect(g: GitGraph) -> Rect {
    match g.commit_detail {
        Some(d) => d.msg_area,
        None => Rect::default_spec(),
    }
}

/// The detail borders on the axis (see `detail_border_positions`).
pub open spec fn border_positions(g: GitGraph) -> [Option<u16>; 3] {
    let v = g.horizontal_layout;
    [
        spec_end(g.graph_list_area, v),
        spec_end(msg_rect(g), v),
        if g.diff_area.width > 0 && g.diff_area.height > 0 { spec_end(g.files_area, v) } else { None },
    ]
}

/// The distance from border `p` to `a`, when the border is there.
pub open spec fn border_dist(p: Option<u16>, a: u16) -> Option<int> {
    match p {
        Some(x) => Some(if a >= x { a - x } else { x - a }),
        None => None,
    }
}

/// `best` after considering border `i` at distance `d`: it wins inside the
/// grab zone when strictly closer (so ties go to the earlier border).
pub open spec fn pick(i: u8, d: Option<int>, best: Option<(u8, int)>) -> Option<(u8, int)> {
    match d {
        Some(dd) => if dd <= DETAIL_GRAB_ZONE && (best is None || dd < (best->0).1) { Some((i, dd)) } else { best },
        None => best,
    }
}

/// The detail border a press grabs: the closest within the grab zone.
pub open spec fn border_grab(g: GitGraph, m: Mouse) -> Option<u8> {
    let ps = border_positions(g);
    let a = axis_pos(g, m);
    match pick(2, border_dist(ps[2], a), pick(1, border_dist(ps[1], a), pick(0, border_dist(ps[0], a), None))) {
        Some(b) => Some(b.0),
        None => None,
    }
}

/// The list index under screen row `row` of a bordered list drawn in `area`
/// and scrolled by `offset`; none on the top border.
pub open spec fn row_index(area: Rect, row: u16, offset: usize) -> Option<int> {
    if row >= area.y + 1 { Some(row - (area.y + 1) + offset) } else { None }
}

/// The areas were laid out inside the terminal's coordinates.
pub open spec fn areas_fit(g: GitGraph) -> bool {
    &&& g.graph_list_area.fits()
    &&& g.files_area.fits()
    &&& msg_rect(g).fits()
}

/// What a left press does (after recording the border grab in `g1`).
pub open spec fn left_press(g: GitGraph, g1: GitGraph, m: Mouse, h: GitGraph, r: Option<GraphAction>) -> bool {
    if g.graph_list_area.spec_contains(m.column, m.row) {
        match row_index(g.graph_list_area, m.row, g.offset) {
            Some(idx) => if idx < display(g).len() {
                if g.commit_detail matches Some(d) && d.oid@ == display(g)[idx].oid@ {
                    r is None && h == g1
                } else {
                    let g2 = GitGraph { selected: Some(idx as usize), commit_detail: None, ..g1 };
                    &&& files_action(r, files_request(g2))
                    &&& h.detail_generation == after_files_request(g2).detail_generation
                    &&& reload_ran(g2, GitGraph { detail_generation: g2.detail_generation, ..h })
                }
            } else {
                r is None && h == g1
            },
            None => r is None && h == g1,
        }
    } else {
        match g.commit_detail {
            Some(d) => if d.diff_content is Some && g.diff_area.spec_contains(m.column, m.row) {
                r is None && h == with_detail(g1, CommitDetail { diff_focused: true, ..d })
            } else if d.file_list_area.spec_contains(m.column, m.row) {
                match row_index(d.file_list_area, m.row, d.file_offset) {
                    Some(idx) => if idx < d.files@.len() && file_visible(d, idx as usize) {
                        let m2 = with_detail(g1, CommitDetail { file_selected: Some(idx as usize), diff_focused: false, ..d });
                        r == Some(GraphAction::ScheduleCommitDiff { generation: (g.diff_debounce + 1) as u64 })
                            && h == after_schedule(after_file_moved(m2))
                    } else {
                        r is None && h == g1
                    },
                    None => r is None && h == g1,
                }
            } else {
                r is None && h == g1
            },
            None => r is None && h == g1,
        }
    }
}

/// What a wheel step (down or up) does.
pub open spec fn wheel(g: GitGraph, m: Mouse, down: bool, h: GitGraph, r: Option<GraphAction>) -> bool {
    let moved = if down { after_select_next(g) } else { after_select_prev(g) };
    match g.commit_detail {
        Some(d) => if g.diff_area.spec_contains(m.column, m.row) && d.diff_content is Some {
            r is None && h == with_detail(g, diff_stepped(d, g.diff_area, down))
        } else if d.msg_area.spec_contains(m.column, m.row) {
            r is None && h == with_detail(g, msg_stepped(d, down))
        } else if d.file_list_area.spec_contains(m.column, m.row) && d.files@.len() > 0 {
            r == Some(GraphAction::ScheduleCommitDiff { generation: (g.diff_debounce + 1) as u64 })
                && h == after_schedule(after_file_moved(with_detail(g, file_step(d, down))))
        } else {
            r is None && h == moved
        },
        None => r is None && h == moved,
    }
}

/// What a right press does: on a row of the graph it highlights the row
/// (when there is one) and opens the graph's context menu.
pub open spec fn right_press(g: GitGraph, m: Mouse, h: GitGraph, r: Option<GraphAction>) -> bool {
    if g.graph_list_area.spec_contains(m.column, m.row) && row_index(g.graph_list_area, m.row, g.offset) is Some {
        let idx = row_index(g.graph_list_area, m.row, g.offset)->0;
        &&& r == Some(GraphAction::OpenGraphContextMenu)
        &&& h == if idx < display(g).len() { GitGraph { selected: Some(idx as usize), ..g } } else { g }
    } else {
        r is None && h == g
    }
}

fn dist_of(p: Option<u16>, a: u16) -> (d: Option<u16>)
    ensures
        match d {
            Some(x) => border_dist(p, a) == Some(x as int),
            None => border_dist(p, a).is_none(),
        },
{
    match p {
        Some(x) => Some(if a >= x { a - x } else { x - a }),
        None => None,
    }
}

fn pick_exec(i: u8, d: Option<u16>, best: Option<(u8, u16)>) -> (r: Option<(u8, u16)>)
    ensures
        match r {
            Some(b) => pick(i, opt_u16(d), opt_pair(best)) == Some((b.0, b.1 as int)),
            None => pick(i, opt_u16(d), opt_pair(best)).is_none(),
        },
{
    match d {
        Some(dd) => {
            let closer = match best {
                Some(b) => dd < b.1,
                None => true,
            };
            if dd <= DETAIL_GRAB_ZONE && closer { Some((i, dd)) } else { best }
        },
        None => best,
    }
}

/// An optional `u16` as an integer.
pub open spec fn opt_u16(d: Option<u16>) -> Option<int> {
    match d {
        Some(x) => Some(x as int),
        None => None,
    }
}

/// An optional (border, distance) with the distance as an integer.
pub open spec fn opt_pair(b: Option<(u8, u16)>) -> Option<(u8, int)> {
    match b {
        Some(p) => Some((p.0, p.1 as int)),
        None => None,
    }
}

fn index_under(area: Rect, row: u16, offset: usize) -> (r: Option<usize>)
    ensures
        match r {
            Some(i) => row_index(area, row, offset) == Some(i as int),
            None => row_index(area, row, offset) matches Some(i) ==> i > usize::MAX,
        },
{
    if area.y == u16::MAX || row < area.y + 1 {
        return None;
    }
    let visual = (row - (area.y + 1)) as usize;
    offset.checked_add(visual)
}

/// `pane` with the offset a press at `(column, row)` selects on its
/// indicator `bar`, when the press lies there.
pub open spec fn pane_hit(pane: DetailPane, bar: Option<ScrollGrab>, column: u16, row: u16) -> Option<(DetailPane, u16, ScrollGrab)> {
    match bar {
        Some(l) => match press_offset(l, column, row) {
            Some(o) => Some((pane, o, l)),
            None => None,
        },
        None => None,
    }
}

/// The commit-detail pane whose scroll indicator lies under `(column, row)`
/// (the message, the file list, then the diff), the offset the point
/// selects, and the indicator.
pub open spec fn detail_indicator(g: GitGraph, column: u16, row: u16) -> Option<(DetailPane, u16, ScrollGrab)> {
    match g.commit_detail {
        None => None,
        Some(d) => {
            let a = pane_hit(DetailPane::Message, text_bar(d.message@, d.msg_area), column, row);
            let b = pane_hit(DetailPane::Files, list_bar(d.files@.len(), g.files_area), column, row);
            let c = pane_hit(DetailPane::Diff, match d.diff_content {
                Some(t) => text_bar(t@, g.diff_area),
                None => None,
            }, column, row);
            if a is Some { a } else if b is Some { b } else { c }
        },
    }
}

fn hit_of(pane: DetailPane, bar: Option<ScrollGrab>, column: u16, row: u16) -> (r: Option<(DetailPane, u16, ScrollGrab)>)
    ensures
        r == pane_hit(pane, bar, column, row),
{
    match bar {
        Some(l) => match l.press(column, row) {
            Some(o) => Some((pane, o, l)),
            None => None,
        },
        None => None,
    }
}

impl GitGraph {
    /// The commit-detail pane whose scroll indicator lies under
    /// `(column, row)` (see `detail_indicator`).
    pub fn indicator_at(&self, column: u16, row: u16) -> (r: Option<(DetailPane, u16, ScrollGrab)>)
        requires
            areas_fit(*self),
            self.diff_area.fits(),
        ensures
            r == detail_indicator(*self, column, row),
    {
        match &self.commit_detail {
            None => None,
            Some(d) => {
                let a = hit_of(DetailPane::Message, text_indicator(d.message.as_str(), d.msg_area), column, row);
                if a.is_some() {
                    return a;
                }
                let b = hit_of(DetailPane::Files, list_indicator(d.files.len(), self.files_area), column, row);
                if b.is_some() {
                    return b;
                }
                let bar = match &d.diff_content {
                    Some(t) => text_indicator(t.as_str(), self.diff_area),
                    None => None,
                };
                hit_of(DetailPane::Diff, bar, column, row)
            },
        }
    }

    /// Whether `(column, row)` lies on one of the detail panes' scroll
    /// indicators; the app asks before it lets a press grab the panel seam.
    pub fn is_on_scroll_indicator(&self, column: u16, row: u16) -> (r: bool)
        requires
            areas_fit(*self),
            self.diff_area.fits(),
        ensures
            r == detail_indicator(*self, column, row) is Some,
    {
        self.indicator_at(column, row).is_some()
    }

    /// Lets go of a detail-border grab and of a scroll-indicator grab.
    pub fn cancel_drag(&mut self)
        ensures
            *final(self) == (GitGraph { dragging_detail_border: None, scrubbing: None, ..*old(self) }),
    {
        self.dragging_detail_border = None;
        self.scrubbing = None;
    }

    /// A mouse event over the panel. A left press on a commit-detail pane's
    /// scroll indicator grabs it (no detail border) and scrubs the pane to
    /// the offset its row selects; drags keep scrubbing by the row alone
    /// until the release.
    pub fn handle_mouse_event(&mut self, m: Mouse) -> (r: Option<GraphAction>)
        requires
            old(self).graph_cache.wf(),
            old(self).load_generation < u64::MAX,
            detail_room(*old(self)),
            areas_fit(*old(self)),
            old(self).diff_area.fits(),
        ensures
            ({
                let g = *old(self);
                let h = *final(self);
                let g0 = GitGraph { scrubbing: None, ..g };
                match m.kind {
                    MouseKind::LeftDown => match detail_indicator(g, m.column, m.row) {
                        Some(hit) => spec_scrub(GitGraph { scrubbing: Some((hit.0, hit.2)), dragging_detail_border: None, ..g }, hit.0, hit.1, h, r),
                        None => left_press(g0, GitGraph { dragging_detail_border: border_grab(g0, m), ..g0 }, m, h, r),
                    },
                    MouseKind::LeftDrag => match g.scrubbing {
                        Some(grab) => if g.dragging_detail_border is None {
                            spec_scrub(g, grab.0, track_offset(grab.1, m.row), h, r)
                        } else {
                            r is None && h == g
                        },
                        None => r is None && h == g,
                    },
                    MouseKind::LeftUp => r is None && h == (GitGraph { dragging_detail_border: None, scrubbing: None, ..g }),
                    MouseKind::ScrollUp => wheel(g, m, false, h, r),
                    MouseKind::ScrollDown => wheel(g, m, true, h, r),
                    MouseKind::ScrollLeft => r is None && h == (GitGraph { h_scroll: minus4(g.h_scroll), ..g }),
                    MouseKind::ScrollRight => r is None && h == (GitGraph { h_scroll: plus4(g.h_scroll), ..g }),
                    MouseKind::RightDown => right_press(g, m, h, r),
                    _ => r is None && h == g,
                }
            }),
    {
        match m.kind {
            MouseKind::LeftDown => {
                let hit = self.indicator_at(m.column, m.row);
                match hit {
                    Some((p, o, l)) => {
                        self.dragging_detail_border = None;
                        self.scrubbing = Some((p, l));
                        self.scrub_to(p, o)
                    },
                    None => {
                        self.scrubbing = None;
                        self.left_press(m)
                    },
                }
            },
            MouseKind::LeftDrag => {
                if self.dragging_detail_border.is_none() {
                    match self.scrubbing {
                        Some((p, l)) => {
                            let o = l.row_offset(m.row);
                            return self.scrub_to(p, o);
                        },
                        None => {},
                    }
                }
                None
            },
            MouseKind::LeftUp => {
                self.dragging_detail_border = None;
                self.scrubbing = None;
                None
            },
            MouseKind::ScrollUp => self.wheel(m, false),
            MouseKind::ScrollDown => self.wheel(m, true),
            MouseKind::ScrollLeft => {
                self.h_scroll = self.h_scroll.saturating_sub(4);
                None
            },
            MouseKind::ScrollRight => {
                self.h_scroll = self.h_scroll.saturating_add(4);
                None
            },
            MouseKind::RightDown => self.right_press(m),
            _ => None,
        }
    }

    fn right_press(&mut self, m: Mouse) -> (r: Option<GraphAction>)
        ensures
            right_press(*old(self), m, *final(self), r),
    {
        if self.graph_list_area.contains(m.column, m.row) && self.graph_list_area.y < u16::MAX
            && m.row >= self.graph_list_area.y + 1 {
            let n = self.display_rows().len();
            match index_under(self.graph_list_area, m.row, self.offset) {
                Some(idx) => {
                    if idx < n {
                        self.selected = Some(idx);
                    }
                },
                None => {},
            }
            return Some(GraphAction::OpenGraphContextMenu);
        }
        None
    }

    fn wheel(&mut self, m: Mouse, down: bool) -> (r: Option<GraphAction>)
        requires
            detail_room(*old(self)),
        ensures
            wheel(*old(self), m, down, *final(self), r),
    {
        let diff_area = self.diff_area;
        let mut moved = false;
        match &mut self.commit_detail {
            Some(d) => {
                if diff_area.contains(m.column, m.row) && d.diff_content.is_some() {
                    step_diff_scroll(d, diff_area, down);
                    return None;
                }
                if d.msg_area.contains(m.column, m.row) {
                    step_msg_scroll(d, down);
                    return None;
                }
                if d.file_list_area.contains(m.column, m.row) && d.files.len() > 0 {
                    step_file(d, down);
                    moved = true;
                }
            },
            None => {},
        }
        if moved {
            return self.file_selection_changed();
        }
        if down {
            self.select_next();
        } else {
            self.select_prev();
        }
        None
    }

    fn left_press(&mut self, m: Mouse) -> (r: Option<GraphAction>)
        requires
            old(self).graph_cache.wf(),
            old(self).load_generation < u64::MAX,
            detail_room(*old(self)),
            areas_fit(*old(self)),
        ensures
            left_press(*old(self), GitGraph { dragging_detail_border: border_grab(*old(self), m), ..*old(self) }, m, *final(self), r),
    {
        self.grab_border(m);
        if self.graph_list_area.contains(m.column, m.row) {
            self.click_graph_row(m)
        } else {
            self.click_detail(m)
        }
    }

    fn grab_border(&mut self, m: Mouse)
        requires
            areas_fit(*old(self)),
        ensures
            *final(self) == (GitGraph { dragging_detail_border: border_grab(*old(self), m), ..*old(self) }),
    {
        let vertical = self.horizontal_layout;
        let a = if vertical { m.row } else { m.column };
        let msg = match &self.commit_detail {
            Some(d) => d.msg_area,
            None => Rect { x: 0, y: 0, width: 0, height: 0 },
        };
        let ps = detail_border_positions(self.graph_list_area, msg, self.files_area, self.diff_area, vertical);
        let best = pick_exec(0, dist_of(ps[0], a), None);
        let best = pick_exec(1, dist_of(ps[1], a), best);
        let best = pick_exec(2, dist_of(ps[2], a), best);
        self.dragging_detail_border = match best {
            Some(b) => Some(b.0),
            None => None,
        };
    }

    fn click_graph_row(&mut self, m: Mouse) -> (r: Option<GraphAction>)
        requires
            old(self).graph_cache.wf(),
            old(self).load_generation < u64::MAX,
            detail_room(*old(self)),
            old(self).graph_list_area.spec_contains(m.column, m.row),
        ensures
            left_press(*old(self), *old(self), m, *final(self), r),
    {
        let n = self.display_rows().len();
        match index_under(self.graph_list_area, m.row, self.offset) {
            Some(idx) => {
                if idx < n {
                    if self.is_detail_open_for(idx) {
                        return None;
                    }
                    self.selected = Some(idx);
                    self.commit_detail = None;
                    self.reload_pending();
                    return self.open_selected_commit_files();
                }
            },
            None => {},
        }
        None
    }

    fn click_detail(&mut self, m: Mouse) -> (r: Option<GraphAction>)
        requires
            detail_room(*old(self)),
            !old(self).graph_list_area.spec_contains(m.column, m.row),
        ensures
            left_press(*old(self), *old(self), m, *final(self), r),
    {
        let diff_area = self.diff_area;
        let mut moved = false;
        match &mut self.commit_detail {
            Some(d) => {
                if d.diff_content.is_some() && diff_area.contains(m.column, m.row) {
                    d.diff_focused = true;
                    return None;
                }
                if d.file_list_area.contains(m.column, m.row) {
                    let nf = d.files.len();
                    match index_under(d.file_list_area, m.row, d.file_offset) {
                        Some(idx) => {
                            if idx < nf && file_row_visible(d, idx) {
                                d.file_selected = Some(idx);
                                d.diff_focused = false;
                                moved = true;
                            }
                        },
                        None => {},
                    }
                }
            },
            None => {},
        }
        if moved {
            return self.file_selection_changed();
        }
        None
    }
}


/// An answer for a commit detail requested before the detail was closed,
/// before the panel switched repository, or before a newer request for the
/// files or a diff carries a generation that is no longer current, so
/// `commit_files_loaded` and `commit_diff_loaded` refuse it.
pub proof fn law_superseded_detail_answers_are_refused(g: GitGraph, h: GitGraph)
    requires
        g.detail_generation < u64::MAX,
        h == after_close(g) || switched(g, h)
            || (files_request(g) is Some && h == after_files_request(g))
            || (diff_request(g) is Some && h == after_diff_request(g)),
    ensures
        h.detail_generation != g.detail_generation,
{
}

/// Leaving the graph panel (Esc with no commit open, routed as
/// `KeyRoute::LeaveGraph`) closes the detail: every commit-files answer
/// requested until then carries a generation that is no longer current, so
/// `commit_files_loaded` leaves the graph as it is, with no detail open.
pub proof fn law_leaving_the_graph_refuses_late_files(g: GitGraph, generation: u64)
    requires
        g.detail_generation < u64::MAX,
        generation <= g.detail_generation,
    ensures
        after_close(g).commit_detail is None,
        generation != after_close(g).detail_generation,
{
}

/// Esc during a file search ends the search and keeps the commit open.
pub proof fn law_file_search_escape_keeps_the_commit(g: GitGraph, d: CommitDetail, h: GitGraph, r: Option<GraphAction>)
    requires
        d.file_filter is Some,
        file_search_key(g, d, Key::Esc, h, r),
    ensures
        h.commit_detail matches Some(hd) && hd.file_filter is None && hd.oid == d.oid && hd.files == d.files,
{
}

/// `N` undoes `n`: stepping to the next match and back returns to the same
/// match and highlight.
pub proof fn law_search_prev_undoes_next(g: GitGraph)
    requires
        g.search.current_match matches Some(i) && i < g.search.matches@.len(),
    ensures
        after_search_prev(after_search_next(g)).search.current_match == g.search.current_match,
        after_search_prev(after_search_next(g)).selected == Some(g.search.matches@[g.search.current_match->0 as int]),
{
    let n = g.search.matches@.len() as int;
    let i = g.search.current_match->0 as int;
    let g1 = after_search_next(g);
    assert(g.search.matches@.len() == g.search.matches.len());
    if i + 1 < n {
        assert((i + 1) % n == i + 1) by (nonlinear_arith)
            requires 0 <= i, i + 1 < n;
        assert(g1.search.current_match == Some((i + 1) as usize));
    } else {
        assert((i + 1) % n == 0) by (nonlinear_arith)
            requires i + 1 == n, n > 0;
        assert(g1.search.current_match == Some(0usize));
    }
    assert(g1.search.matches == g.search.matches);
}

/// Retries after aborted builds are bounded: once the streak passes the
/// budget, the abort shows an error and drops the deferred reload instead
/// of starting another build.
pub proof fn law_abort_budget(g: GitGraph, h: GitGraph)
    requires
        g.load_in_flight,
        g.consecutive_aborts >= MAX_CONSECUTIVE_ABORTS,
        aborted(g, h),
    ensures
        h.error.is_some(),
        !h.needs_reload,
        !h.load_in_flight,
        h.load_generation == g.load_generation,
        h.pending_load == g.pending_load,
{
}



impl GitGraph {
    /// A commit's files arrived for the detail request `generation`: they
    /// open only when no later request (or a close, or a repository
    /// switch) superseded it.
    pub fn commit_files_loaded(&mut self, generation: u64, oid: String, message: String, files: Vec<(String, String)>) -> (r: Option<GraphAction>)
        requires
            old(self).detail_generation < u64::MAX,
        ensures
            generation != old(self).detail_generation ==> r is None && *final(self) == *old(self),
            generation == old(self).detail_generation ==> {
                &&& diff_action(r, diff_request(with_detail(*old(self), new_detail(oid, message, files))))
                &&& *final(self) == after_diff_request(with_detail(*old(self), new_detail(oid, message, files)))
            },
    {
        if generation != self.detail_generation {
            return None;
        }
        self.set_commit_files(oid, message, files)
    }

    /// A diff arrived for the detail request `generation`: it shows only
    /// when no later request superseded it.
    pub fn commit_diff_loaded(&mut self, generation: u64, content: String)
        ensures
            generation != old(self).detail_generation ==> *final(self) == *old(self),
            generation == old(self).detail_generation ==> match old(self).commit_detail {
                Some(d) => *final(self) == with_detail(*old(self), CommitDetail { diff_content: Some(content), diff_scroll: 0, ..d }),
                None => *final(self) == *old(self),
            },
    {
        if generation == self.detail_generation {
            self.set_commit_diff(content);
        }
    }
}


impl GitGraph {
    /// Offers `name` in the branch filter picker; a name already offered is
    /// not offered twice. Says whether it was new.
    pub fn insert_filter_branch(&mut self, name: String) -> (added: bool)
        ensures
            added == !strings_view(old(self).filter_branches@).contains(name@),
            strings_view(final(self).filter_branches@) == if added {
                strings_view(old(self).filter_branches@).push(name@)
            } else {
                strings_view(old(self).filter_branches@)
            },
            *final(self) == (GitGraph { filter_branches: final(self).filter_branches, ..*old(self) }),
    {
        if strings_contain(&self.filter_branches, &name) {
            return false;
        }
        let ghost before = self.filter_branches@;
        self.filter_branches.push(name);
        assert(strings_view(self.filter_branches@) =~= strings_view(before).push(self.filter_branches@.last()@));
        true
    }

    /// Offers `name` in the author filter picker; a name already offered is
    /// not offered twice. Says whether it was new.
    pub fn insert_filter_author(&mut self, name: String) -> (added: bool)
        ensures
            added == !strings_view(old(self).filter_authors@).contains(name@),
            strings_view(final(self).filter_authors@) == if added {
                strings_view(old(self).filter_authors@).push(name@)
            } else {
                strings_view(old(self).filter_authors@)
            },
            *final(self) == (GitGraph { filter_authors: final(self).filter_authors, ..*old(self) }),
    {
        if strings_contain(&self.filter_authors, &name) {
            return false;
        }
        let ghost before = self.filter_authors@;
        self.filter_authors.push(name);
        assert(strings_view(self.filter_authors@) =~= strings_view(before).push(self.filter_authors@.last()@));
        true
    }
}

/// Offered filter names never repeat: inserting into a list without
/// repeats keeps it without repeats.
pub proof fn law_filter_names_stay_distinct(before: Seq<Seq<char>>, name: Seq<char>)
    requires
        forall|i: int, j: int| 0 <= i < j < before.len() ==> before[i] != before[j],
    ensures
        ({
            let after = if before.contains(name) { before } else { before.push(name) };
            forall|i: int, j: int| 0 <= i < j < after.len() ==> after[i] != after[j]
        }),
{
    if !before.contains(name) {
        let after = before.push(name);
        assert forall|i: int, j: int| 0 <= i < j < after.len() implies after[i] != after[j] by {
            if j == before.len() {
                assert(after[j] == name);
                assert(after[i] == before[i]);
            }
        }
    }
}

} // verus!
