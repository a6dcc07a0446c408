//! What the commit graph panel shows in a frame: its title, which body it
//! draws, which rows are dimmed by the search, and the commit message title.

use vstd::prelude::*;
use crate::graph_view::{display, CommitDetail, GitGraph};
use crate::layout::{feasible_bounds, Rect};
use crate::text::{decimal, has_prefix, push_char, push_decimal, push_str, starts_with};

verus! {

/// The body of the graph list.
#[derive(Debug, Clone, Copy, PartialEq, Eq, Structural)]
pub enum GraphBody {
    /// `Loading graph...`
    Loading,
    /// The build error.
    Failed,
    /// `No commits`
    Empty,
    /// The commit rows.
    Rows,
}

/// ` [branches a/b, authors c/d]`: how many of the offered branches and
/// authors the filters keep, each part only while that filter is set.
pub open spec fn spec_filter_summary(g: GitGraph) -> Option<Seq<char>> {
    let b = match g.graph_options.filters.branches {
        Some(v) => Some("branches "@ + decimal(v@.len()) + "/"@ + decimal(g.filter_branches@.len())),
        None => None,
    };
    let a = match g.graph_options.filters.authors {
        Some(v) => Some("authors "@ + decimal(v@.len()) + "/"@ + decimal(g.filter_authors@.len())),
        None => None,
    };
    match (b, a) {
        (Some(x), Some(y)) => Some(" ["@ + x + ", "@ + y + "]"@),
        (Some(x), None) => Some(" ["@ + x + "]"@),
        (None, Some(y)) => Some(" ["@ + y + "]"@),
        (None, None) => None,
    }
}

/// The title of the graph list: ` Git Graph — <repo> `, with
/// `[1st-parent]` in first-parent mode and `(<n> collapsed)` while groups
/// are collapsed, then the filter summary.
pub open spec fn spec_list_title(g: GitGraph) -> Seq<char> {
    let n = g.collapsed_branches@.len();
    let head = " Git Graph \u{2014} "@ + g.repo_name@;
    let fp = if g.graph_options.first_parent { " [1st-parent]"@ } else { Seq::empty() };
    let col = if n == 0 { Seq::empty() } else { " ("@ + decimal(n) + " collapsed)"@ };
    let base = head + fp + col + " "@;
    match spec_filter_summary(g) {
        Some(s) => base + s,
        None => base,
    }
}

/// Which body the list draws: loading first, then the error, then an
/// empty list, else the rows.
pub open spec fn spec_list_body(g: GitGraph) -> GraphBody {
    if g.loading {
        GraphBody::Loading
    } else if g.error.is_some() {
        GraphBody::Failed
    } else if display(g).len() == 0 {
        GraphBody::Empty
    } else {
        GraphBody::Rows
    }
}

/// A display row is dimmed while a search with matches runs and the row is
/// not one of them.
pub open spec fn spec_row_dimmed(g: GitGraph, i: usize) -> bool {
    g.search.input@.len() > 0 && g.search.matches@.len() > 0 && !g.search.matches@.contains(i)
}

/// ` Message — <first seven characters of the oid> `.
pub open spec fn spec_message_title(oid: Seq<char>) -> Seq<char> {
    " Message \u{2014} "@ + oid.take(if oid.len() < 7 { oid.len() as int } else { 7 }) + " "@
}

fn push_count_part(s: &mut String, label: &str, kept: usize, offered: usize)
    ensures
        final(s)@ == old(s)@ + label@ + decimal(kept as nat) + "/"@ + decimal(offered as nat),
{
    push_str(s, label);
    push_decimal(s, kept as u64);
    push_str(s, "/");
    push_decimal(s, offered as u64);
}

impl GitGraph {
    /// The filter summary of the title (see `spec_filter_summary`).
    pub fn filter_summary(&self) -> (r: Option<String>)
        ensures
            match r {
                Some(s) => spec_filter_summary(*self) == Some(s@),
                None => spec_filter_summary(*self).is_none(),
            },
    {
        let has_b = self.graph_options.filters.branches.is_some();
        let has_a = self.graph_options.filters.authors.is_some();
        if !has_b && !has_a {
            return None;
        }
        let mut s = String::new();
        push_str(&mut s, " [");
        if let Some(v) = &self.graph_options.filters.branches {
            push_count_part(&mut s, "branches ", v.len(), self.filter_branches.len());
        }
        if has_b && has_a {
            push_str(&mut s, ", ");
        }
        if let Some(v) = &self.graph_options.filters.authors {
            push_count_part(&mut s, "authors ", v.len(), self.filter_authors.len());
        }
        push_str(&mut s, "]");
        proof {
            let b = self.graph_options.filters.branches;
            let a = self.graph_options.filters.authors;
            if b.is_some() && a.is_some() {
                assert(s@ =~= " ["@ + ("branches "@ + decimal(b.unwrap()@.len()) + "/"@ + decimal(self.filter_branches@.len()))
                    + ", "@ + ("authors "@ + decimal(a.unwrap()@.len()) + "/"@ + decimal(self.filter_authors@.len())) + "]"@);
            } else if b.is_some() {
                assert(s@ =~= " ["@ + ("branches "@ + decimal(b.unwrap()@.len()) + "/"@ + decimal(self.filter_branches@.len())) + "]"@);
            } else {
                assert(s@ =~= " ["@ + ("authors "@ + decimal(a.unwrap()@.len()) + "/"@ + decimal(self.filter_authors@.len())) + "]"@);
            }
        }
        Some(s)
    }

    /// The title of the graph list (see `spec_list_title`).
    pub fn list_title(&self) -> (r: String)
        ensures
            r@ == spec_list_title(*self),
    {
        let n = self.collapsed_branches.len();
        let mut s = String::new();
        push_str(&mut s, " Git Graph \u{2014} ");
        push_str(&mut s, self.repo_name.as_str());
        let ghost head = s@;
        if self.graph_options.first_parent {
            push_str(&mut s, " [1st-parent]");
        }
        let ghost with_fp = s@;
        if n > 0 {
            push_str(&mut s, " (");
            push_decimal(&mut s, n as u64);
            push_str(&mut s, " collapsed)");
        }
        let ghost with_col = s@;
        push_char(&mut s, ' ');
        proof {
            let fp = if self.graph_options.first_parent { " [1st-parent]"@ } else { Seq::<char>::empty() };
            let col = if n == 0 { Seq::<char>::empty() } else { " ("@ + decimal(n as nat) + " collapsed)"@ };
            assert(with_fp =~= head + fp);
            assert(with_col =~= head + fp + col);
            reveal_strlit(" ");
            assert(s@ =~= head + fp + col + " "@);
        }
        if let Some(summary) = self.filter_summary() {
            push_str(&mut s, summary.as_str());
        }
        s
    }

    /// Which body the graph list draws (see `spec_list_body`).
    pub fn list_body(&self) -> (r: GraphBody)
        ensures
            r == spec_list_body(*self),
    {
        if self.loading {
            GraphBody::Loading
        } else if self.error.is_some() {
            GraphBody::Failed
        } else if self.display_rows().len() == 0 {
            GraphBody::Empty
        } else {
            GraphBody::Rows
        }
    }

    /// Whether display row `i` is drawn dimmed (see `spec_row_dimmed`).
    pub fn row_dimmed(&self, i: usize) -> (r: bool)
        ensures
            r == spec_row_dimmed(*self, i),
    {
        if self.search.input.as_str().unicode_len() == 0 || self.search.matches.len() == 0 {
            return false;
        }
        let mut k: usize = 0;
        while k < self.search.matches.len()
            invariant
                k <= self.search.matches@.len(),
                forall|j: int| 0 <= j < k ==> self.search.matches@[j] != i,
            decreases self.search.matches@.len() - k,
        {
            if self.search.matches[k] == i {
                assert(self.search.matches@.contains(i));
                return false;
            }
            k = k + 1;
        }
        true
    }
}

/// How a diff line is colored.
#[derive(Debug, Clone, Copy, PartialEq, Eq, Structural)]
pub enum DiffLineKind {
    Added,
    Removed,
    Hunk,
    Meta,
    Context,
}

/// The kind of a diff line, from its prefix: `+` (not `+++`) added, `-`
/// (not `---`) removed, `@@` a hunk header, `diff ` or `index ` file
/// metadata, anything else context.
pub open spec fn spec_diff_line_kind(l: Seq<char>) -> DiffLineKind {
    if has_prefix(l, "+"@) && !has_prefix(l, "+++"@) {
        DiffLineKind::Added
    } else if has_prefix(l, "-"@) && !has_prefix(l, "---"@) {
        DiffLineKind::Removed
    } else if has_prefix(l, "@@"@) {
        DiffLineKind::Hunk
    } else if has_prefix(l, "diff "@) || has_prefix(l, "index "@) {
        DiffLineKind::Meta
    } else {
        DiffLineKind::Context
    }
}

/// The kind of a diff line (see `spec_diff_line_kind`).
pub fn diff_line_kind(line: &str) -> (r: DiffLineKind)
    ensures
        r == spec_diff_line_kind(line@),
{
    if starts_with(line, "+") && !starts_with(line, "+++") {
        DiffLineKind::Added
    } else if starts_with(line, "-") && !starts_with(line, "---") {
        DiffLineKind::Removed
    } else if starts_with(line, "@@") {
        DiffLineKind::Hunk
    } else if starts_with(line, "diff ") || starts_with(line, "index ") {
        DiffLineKind::Meta
    } else {
        DiffLineKind::Context
    }
}

/// How a changed file of a commit is colored, by its status letter.
#[derive(Debug, Clone, Copy, PartialEq, Eq, Structural)]
pub enum FileChangeKind {
    Modified,
    Added,
    Deleted,
    Renamed,
    Other,
}

/// `M`, `A`, `D` and `R` name their kinds; any other status is `Other`.
pub open spec fn spec_file_change_kind(status: Seq<char>) -> FileChangeKind {
    if status == "M"@ {
        FileChangeKind::Modified
    } else if status == "A"@ {
        FileChangeKind::Added
    } else if status == "D"@ {
        FileChangeKind::Deleted
    } else if status == "R"@ {
        FileChangeKind::Renamed
    } else {
        FileChangeKind::Other
    }
}

fn is_exactly(s: &str, t: &str) -> (r: bool)
    ensures
        r == (s@ == t@),
{
    let r = s.unicode_len() == t.unicode_len() && starts_with(s, t);
    proof {
        if s@.len() == t@.len() && has_prefix(s@, t@) {
            assert(s@.take(t@.len() as int) =~= s@);
        }
        if s@ == t@ {
            assert(s@.take(t@.len() as int) =~= t@);
        }
    }
    r
}

/// The kind of a commit file's status (see `spec_file_change_kind`).
pub fn file_change_kind(status: &str) -> (r: FileChangeKind)
    ensures
        r == spec_file_change_kind(status@),
{
    if is_exactly(status, "M") {
        FileChangeKind::Modified
    } else if is_exactly(status, "A") {
        FileChangeKind::Added
    } else if is_exactly(status, "D") {
        FileChangeKind::Deleted
    } else if is_exactly(status, "R") {
        FileChangeKind::Renamed
    } else {
        FileChangeKind::Other
    }
}

/// The title of the commit diff pane: where Esc or Enter moves the keyboard.
pub fn diff_title(focused: bool) -> (r: &'static str)
    ensures
        r@ == (if focused { " Commit Diff (Esc to leave) "@ } else { " Commit Diff (Enter to scroll) "@ }),
{
    if focused { " Commit Diff (Esc to leave) " } else { " Commit Diff (Enter to scroll) " }
}

/// ` Files — <first seven characters of the oid> `.
pub open spec fn spec_files_title(oid: Seq<char>) -> Seq<char> {
    " Files \u{2014} "@ + oid.take(if oid.len() < 7 { oid.len() as int } else { 7 }) + " "@
}

fn push_oid_prefix(s: &mut String, oid: &str)
    ensures
        final(s)@ == old(s)@ + oid@.take(if oid@.len() < 7 { oid@.len() as int } else { 7 }),
{
    let n = oid.unicode_len();
    let keep = if n < 7 { n } else { 7 };
    let ghost head = s@;
    let mut i: usize = 0;
    while i < keep
        invariant
            keep <= n,
            n == oid@.len(),
            i <= keep,
            s@ == head + oid@.take(i as int),
        decreases keep - i,
    {
        push_char(s, oid.get_char(i));
        assert(oid@.take(i + 1) =~= oid@.take(i as int).push(oid@[i as int]));
        i = i + 1;
    }
}

/// The title of the commit file list (see `spec_files_title`).
pub fn files_title(oid: &str) -> (r: String)
    ensures
        r@ == spec_files_title(oid@),
{
    let mut s = String::new();
    push_str(&mut s, " Files \u{2014} ");
    push_oid_prefix(&mut s, oid);
    push_str(&mut s, " ");
    s
}

/// The rectangle of `len` cells from `start` on the detail axis of `area`
/// (rows when `vertical`, columns otherwise).
pub open spec fn axis_slice(area: Rect, start: int, len: int, vertical: bool) -> Rect {
    if vertical {
        Rect { y: (area.y + start) as u16, height: len as u16, ..area }
    } else {
        Rect { x: (area.x + start) as u16, width: len as u16, ..area }
    }
}

/// The graph, message, files and diff panes of the commit detail, cut from
/// `area` at the border cells `b` along its height when the panels sit side
/// by side (`vertical`), else along its width; without a diff the last pane
/// is empty and the files pane still ends at the third border.
pub open spec fn spec_detail_rects(area: Rect, b: [u16; 3], vertical: bool, with_diff: bool) -> [Rect; 4] {
    let axis = if vertical { area.height } else { area.width };
    [
        axis_slice(area, 0, b[0] as int, vertical),
        axis_slice(area, b[0] as int, b[1] - b[0], vertical),
        axis_slice(area, b[1] as int, b[2] - b[1], vertical),
        if with_diff { axis_slice(area, b[2] as int, axis - b[2], vertical) } else { Rect { x: 0, y: 0, width: 0, height: 0 } },
    ]
}

fn slice_exec(area: Rect, start: u16, len: u16, vertical: bool) -> (r: Rect)
    requires
        area.fits(),
        start + len <= (if vertical { area.height } else { area.width }),
    ensures
        r == axis_slice(area, start as int, len as int, vertical),
{
    if vertical {
        Rect { y: area.y + start, height: len, ..area }
    } else {
        Rect { x: area.x + start, width: len, ..area }
    }
}

/// The commit-detail panes of a frame (see `spec_detail_rects`).
pub fn detail_rects(area: Rect, b: [u16; 3], vertical: bool, with_diff: bool) -> (r: [Rect; 4])
    requires
        area.fits(),
        feasible_bounds(if vertical { area.height } else { area.width }, b),
    ensures
        r == spec_detail_rects(area, b, vertical, with_diff),
{
    let axis = if vertical { area.height } else { area.width };
    [
        slice_exec(area, 0, b[0], vertical),
        slice_exec(area, b[0], b[1] - b[0], vertical),
        slice_exec(area, b[1], b[2] - b[1], vertical),
        if with_diff { slice_exec(area, b[2], axis - b[2], vertical) } else { Rect { x: 0, y: 0, width: 0, height: 0 } },
    ]
}

/// The search line over the bottom of the graph: ` / <input> ` and, once
/// something is typed, ` <current>/<matches>` before the closing space
/// (`0` while no match is current).
pub open spec fn spec_search_overlay(g: GitGraph) -> Seq<char> {
    let info = if g.search.input@.len() == 0 {
        Seq::empty()
    } else {
        " "@ + decimal(match g.search.current_match { Some(i) => (i + 1) as nat, None => 0 }) + "/"@
            + decimal(g.search.matches@.len())
    };
    " / "@ + g.search.input@ + info + " "@
}

impl GitGraph {
    /// The search line (see `spec_search_overlay`).
    pub fn search_overlay_text(&self) -> (r: String)
        requires
            self.search.current_match matches Some(i) ==> i < u64::MAX,
        ensures
            r@ == spec_search_overlay(*self),
    {
        let mut s = String::new();
        push_str(&mut s, " / ");
        push_str(&mut s, self.search.input.as_str());
        let ghost head = s@;
        if self.search.input.as_str().unicode_len() > 0 {
            push_str(&mut s, " ");
            let cur: u64 = match self.search.current_match {
                Some(i) => i as u64 + 1,
                None => 0,
            };
            push_decimal(&mut s, cur);
            push_str(&mut s, "/");
            push_decimal(&mut s, self.search.matches.len() as u64);
        }
        push_str(&mut s, " ");
        s
    }
}

/// The empty rectangle.
pub open spec fn no_rect() -> Rect {
    Rect { x: 0, y: 0, width: 0, height: 0 }
}

/// The panel after a frame laid it out in `area` with the commit-detail
/// borders `b`: without an open commit the list takes the whole area;
/// with one, the graph list, message, files and (once loaded) diff panes
/// are cut at the borders (see `spec_detail_rects`).
pub open spec fn laid_out(g: GitGraph, area: Rect, b: [u16; 3], h: GitGraph) -> bool {
    match g.commit_detail {
        None => h == GitGraph { render_area: area, graph_list_area: area, files_area: no_rect(), diff_area: no_rect(), ..g },
        Some(d) => {
            let rs = spec_detail_rects(area, b, g.horizontal_layout, d.diff_content is Some);
            h == GitGraph {
                render_area: area,
                graph_list_area: rs[0],
                files_area: rs[2],
                diff_area: rs[3],
                commit_detail: Some(CommitDetail { msg_area: rs[1], file_list_area: rs[2], ..d }),
                ..g
            }
        },
    }
}

impl GitGraph {
    /// Lays the panel out for a frame in `area`; `b` are the detail borders
    /// on its axis (height when the panels sit side by side, else width),
    /// as `detail_cell_bounds` gives them.
    pub fn lay_out(&mut self, area: Rect, b: [u16; 3])
        requires
            area.fits(),
            old(self).commit_detail is Some ==> feasible_bounds(
                if old(self).horizontal_layout { area.height } else { area.width },
                b,
            ),
        ensures
            laid_out(*old(self), area, b, *final(self)),
    {
        self.render_area = area;
        let vertical = self.horizontal_layout;
        match &mut self.commit_detail {
            None => {
                self.graph_list_area = area;
                self.files_area = Rect { x: 0, y: 0, width: 0, height: 0 };
                self.diff_area = Rect { x: 0, y: 0, width: 0, height: 0 };
            },
            Some(d) => {
                let rs = detail_rects(area, b, vertical, d.diff_content.is_some());
                d.msg_area = rs[1];
                d.file_list_area = rs[2];
                self.graph_list_area = rs[0];
                self.files_area = rs[2];
                self.diff_area = rs[3];
            },
        }
    }
}

/// The title of the commit message pane (see `spec_message_title`).
pub fn message_title(oid: &str) -> (r: String)
    ensures
        r@ == spec_message_title(oid@),
{
    let mut s = String::new();
    push_str(&mut s, " Message \u{2014} ");
    push_oid_prefix(&mut s, oid);
    push_str(&mut s, " ");
    s
}

} // verus!
