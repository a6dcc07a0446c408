//! The changed-files panel of a repository: the list, its `/` filter, the
//! highlighted file, and the diff shown beside it.

use vstd::prelude::*;
use crate::filter::{ListFilter, filter_matches, position_in, spec_selected_match, spec_step};
use crate::graph::strings_view;
use crate::graph_view::{is_down, is_up, next_index, prev_index, row_index, stepped};
use crate::input::{Key, Mouse, MouseKind};
use crate::layout::Rect;
use crate::menu::FileMenuContext;
use crate::scroll::{clamp_scroll, pane_max};
use crate::scroll_bar::{press_offset, text_bar, text_indicator, track_offset, ScrollGrab};
use crate::status::{FileEntry, FileStatus, SubmoduleHead, SubmoduleState, SubmoduleWarn};

verus! {

/// The value of a submodule head: the branch name, or none when detached.
pub open spec fn head_view(h: Option<SubmoduleHead>) -> Option<Option<Seq<char>>> {
    match h {
        Some(SubmoduleHead::Branch(name)) => Some(Some(name@)),
        Some(SubmoduleHead::Detached) => Some(None),
        None => None,
    }
}

/// The value of a changed file.
pub struct FileView {
    pub path: Seq<char>,
    pub status: FileStatus,
    pub staged: bool,
    pub unstaged: bool,
    pub is_submodule: bool,
    pub submodule_state: Option<SubmoduleState>,
    pub submodule_warn: SubmoduleWarn,
    pub submodule_head: Option<Option<Seq<char>>>,
}

impl View for FileEntry {
    type V = FileView;

    open spec fn view(&self) -> FileView {
        FileView {
            path: self.path@,
            status: self.status,
            staged: self.staged,
            unstaged: self.unstaged,
            is_submodule: self.is_submodule,
            submodule_state: self.submodule_state,
            submodule_warn: self.submodule_warn,
            submodule_head: head_view(self.submodule_head),
        }
    }
}

/// The values of a list of files.
pub open spec fn files_view(s: Seq<FileEntry>) -> Seq<FileView> {
    s.map_values(|f: FileEntry| f@)
}

/// The paths of a list of files.
pub open spec fn paths_of(s: Seq<FileEntry>) -> Seq<Seq<char>> {
    s.map_values(|f: FileEntry| f.path@)
}

fn head_eq(a: &Option<SubmoduleHead>, b: &Option<SubmoduleHead>) -> (r: bool)
    ensures
        r == (head_view(*a) == head_view(*b)),
{
    match (a, b) {
        (Some(SubmoduleHead::Branch(x)), Some(SubmoduleHead::Branch(y))) => *x == *y,
        (Some(SubmoduleHead::Detached), Some(SubmoduleHead::Detached)) => true,
        (None, None) => true,
        _ => false,
    }
}

fn entry_eq(a: &FileEntry, b: &FileEntry) -> (r: bool)
    ensures
        r == (a@ == b@),
{
    a.path == b.path && a.status == b.status && a.staged == b.staged && a.unstaged == b.unstaged
        && a.is_submodule == b.is_submodule && a.submodule_state == b.submodule_state
        && a.submodule_warn == b.submodule_warn && head_eq(&a.submodule_head, &b.submodule_head)
}

fn entries_eq(a: &Vec<FileEntry>, b: &Vec<FileEntry>) -> (r: bool)
    ensures
        r == (files_view(a@) == files_view(b@)),
{
    if a.len() != b.len() {
        assert(files_view(a@).len() != files_view(b@).len());
        return false;
    }
    let mut i: usize = 0;
    while i < a.len()
        invariant
            a@.len() == b@.len(),
            i <= a@.len(),
            forall|j: int| 0 <= j < i ==> (#[trigger] a@[j])@ == b@[j]@,
        decreases a@.len() - i,
    {
        if !entry_eq(&a[i], &b[i]) {
            assert(files_view(a@)[i as int] != files_view(b@)[i as int]);
            return false;
        }
        i = i + 1;
    }
    assert(files_view(a@) =~= files_view(b@));
    true
}

fn path_strings_of(files: &Vec<FileEntry>) -> (r: Vec<String>)
    ensures
        strings_view(r@) == paths_of(files@),
{
    let mut r: Vec<String> = Vec::new();
    let mut i: usize = 0;
    while i < files.len()
        invariant
            i <= files@.len(),
            r@.len() == i,
            forall|j: int| 0 <= j < i ==> (#[trigger] r@[j])@ == files@[j].path@,
        decreases files@.len() - i,
    {
        r.push(files[i].path.clone());
        i = i + 1;
    }
    assert(strings_view(r@) =~= paths_of(files@));
    r
}

/// A file row's context menu to open: for the repository `repo_id`, at
/// `(col, row)`.
#[derive(Debug)]
pub struct FileMenuRequest {
    pub repo_id: String,
    pub row: u16,
    pub col: u16,
    pub ctx: FileMenuContext,
}

/// What the panel asks of the app.
#[derive(Debug)]
pub enum FileListAction {
    /// Load the diff of `path` in the repository `repo_id`.
    ShowDiff { repo_id: String, path: String },
    ShowFileContextMenu(FileMenuRequest),
}

/// The changed-files panel.
#[derive(Debug)]
pub struct FileList {
    pub files: Vec<FileEntry>,
    pub selected: Option<usize>,
    /// First visible row.
    pub offset: usize,
    pub repo_name: String,
    pub repo_id: Option<String>,
    pub focused: bool,
    pub render_area: Rect,
    pub file_list_area: Rect,
    pub diff_area: Rect,
    pub diff_content: Option<String>,
    pub diff_scroll: u16,
    pub horizontal_layout: bool,
    /// Tags diff loads so stale results are discarded.
    pub diff_generation: u64,
    pub filter: ListFilter,
    /// Filter characters are being typed.
    pub searching: bool,
    /// The paths of `files`, which the filter matches against.
    pub path_strings: Vec<String>,
    /// The diff's scroll indicator a press grabbed, scrubbed by drags until
    /// the release.
    pub dragging_scrollbar: Option<ScrollGrab>,
}

/// The highlight a new file list starts from before the filter places it:
/// kept (clamped) for the same repository, else the first file.
pub open spec fn base_selection(same: bool, prev: Option<usize>, len: nat) -> Option<usize> {
    if len == 0 {
        None
    } else if same {
        match prev {
            Some(i) => Some(if i < len { i } else { (len - 1) as usize }),
            None => Some(0usize),
        }
    } else {
        Some(0usize)
    }
}

/// Whether `f` shows the repository `id`.
pub open spec fn same_id(f: FileList, id: Seq<char>) -> bool {
    f.repo_id matches Some(r) && r@ == id
}

/// Whether row `idx` can be picked: any row without a filter, else a match.
pub open spec fn pickable(f: FileList, idx: int) -> bool {
    f.filter.query@.len() == 0 || position_in(f.filter.matches@, idx, f.filter.matches@.len() as int) >= 0
}

/// The diff request for the highlighted file: `(repository, path)`.
pub open spec fn diff_request(f: FileList) -> Option<(Seq<char>, Seq<char>)> {
    match f.selected {
        Some(i) => if pickable(f, i as int) && f.repo_id is Some && i < f.files@.len() {
            Some((f.repo_id->0@, f.files@[i as int].path@))
        } else {
            None
        },
        None => None,
    }
}

/// `r` is the diff request `req`, or nothing when there is none.
pub open spec fn diff_action(r: Option<FileListAction>, req: Option<(Seq<char>, Seq<char>)>) -> bool {
    match req {
        Some(q) => r matches Some(FileListAction::ShowDiff { repo_id, path }) && repo_id@ == q.0 && path@ == q.1,
        None => r is None,
    }
}

/// `f` after asking for a diff (a new generation when it asked).
pub open spec fn after_diff_request(f: FileList) -> FileList {
    if diff_request(f) is Some { FileList { diff_generation: (f.diff_generation + 1) as u64, ..f } } else { f }
}

/// The highlight after one step down or up: among the matches while
/// filtering or typing, else along the list.
pub open spec fn list_step(f: FileList, down: bool) -> Option<usize> {
    if f.filter.query@.len() > 0 || f.searching {
        spec_step(f.filter, f.selected, down)
    } else if f.files@.len() == 0 {
        f.selected
    } else if down {
        Some(next_index(f.selected, f.files@.len()))
    } else {
        Some(prev_index(f.selected))
    }
}

/// The context menu a file row offers: conflicted rows count as stageable.
pub open spec fn menu_of(e: FileEntry, repo: Seq<char>, row: u16, col: u16, r: FileMenuRequest) -> bool {
    &&& r.repo_id@ == repo
    &&& r.row == row
    &&& r.col == col
    &&& r.ctx.path@ == e.path@
    &&& r.ctx.staged == e.staged
    &&& r.ctx.unstaged == (e.unstaged || e.status == FileStatus::Conflicted)
    &&& r.ctx.is_untracked == (e.status == FileStatus::Untracked)
    &&& r.ctx.is_submodule == e.is_submodule
}

/// Where the highlighted row ends: its screen row (below the top border,
/// scrolled by the offset) and the panel's last column.
pub open spec fn menu_anchor(f: FileList, idx: usize) -> (u16, u16) {
    let area = if f.diff_content is Some { f.file_list_area } else { f.render_area };
    let y1 = if area.y == u16::MAX { u16::MAX } else { (area.y + 1) as u16 };
    let d = (if idx >= f.offset { idx - f.offset } else { 0 }) as u16;
    let row = if y1 + d > u16::MAX { u16::MAX } else { (y1 + d) as u16 };
    let w1 = if area.width == 0 { 0 } else { (area.width - 1) as u16 };
    let col = if area.x + w1 > u16::MAX { u16::MAX } else { (area.x + w1) as u16 };
    (row, col)
}

fn menu_request(e: &FileEntry, repo: &String, row: u16, col: u16) -> (r: FileMenuRequest)
    ensures
        menu_of(*e, repo@, row, col, r),
{
    FileMenuRequest {
        repo_id: repo.clone(),
        row,
        col,
        ctx: FileMenuContext {
            path: e.path.clone(),
            staged: e.staged,
            unstaged: e.unstaged || e.status == FileStatus::Conflicted,
            is_untracked: e.status == FileStatus::Untracked,
            is_submodule: e.is_submodule,
        },
    }
}

impl FileList {
    /// An empty panel with no repository.
    pub fn new() -> (f: Self)
        ensures
            f.files@.len() == 0,
            f.selected.is_none(),
            f.repo_name@.len() == 0,
            f.repo_id.is_none(),
            f.diff_content.is_none(),
            f.diff_generation == 0,
            f.filter.query@.len() == 0,
            f.filter.matches@.len() == 0,
            !f.searching,
            f.path_strings@.len() == 0,
            f.offset == 0,
            !f.focused,
            f.render_area == Rect::default_spec(),
            f.file_list_area == Rect::default_spec(),
            f.diff_area == Rect::default_spec(),
            f.diff_scroll == 0,
            !f.horizontal_layout,
            f.dragging_scrollbar.is_none(),
    {
        FileList {
            files: Vec::new(),
            selected: None,
            offset: 0,
            repo_name: String::new(),
            repo_id: None,
            focused: false,
            render_area: Rect { x: 0, y: 0, width: 0, height: 0 },
            file_list_area: Rect { x: 0, y: 0, width: 0, height: 0 },
            diff_area: Rect { x: 0, y: 0, width: 0, height: 0 },
            diff_content: None,
            diff_scroll: 0,
            horizontal_layout: false,
            diff_generation: 0,
            filter: ListFilter::new(),
            searching: false,
            path_strings: Vec::new(),
            dragging_scrollbar: None,
        }
    }

    /// New status for a repository: the list, its filter matches and the
    /// highlight follow; another repository ends the search; changed files
    /// drop the diff (older diff answers are refused).
    pub fn set_files(&mut self, files: Vec<FileEntry>, repo_name: &str, repo_id: &str)
        requires
            old(self).diff_generation < u64::MAX,
        ensures
            ({
                let same = same_id(*old(self), repo_id@);
                let changed = !same || files_view(old(self).files@) != files_view(files@);
                let query = if same { old(self).filter.query@ } else { Seq::empty() };
                &&& final(self).files == files
                &&& strings_view(final(self).path_strings@) == paths_of(files@)
                &&& final(self).filter.query@ == query
                &&& final(self).filter.matches@ == filter_matches(paths_of(files@), query)
                &&& final(self).searching == (same && old(self).searching)
                &&& final(self).repo_name@ == repo_name@
                &&& final(self).repo_id matches Some(r) && r@ == repo_id@
                &&& final(self).selected == spec_selected_match(final(self).filter,
                    base_selection(same, old(self).selected, files@.len()))
                &&& changed ==> {
                    &&& final(self).diff_generation == old(self).diff_generation + 1
                    &&& final(self).diff_content.is_none()
                    &&& final(self).diff_scroll == 0
                }
                &&& !changed ==> {
                    &&& final(self).diff_generation == old(self).diff_generation
                    &&& final(self).diff_content == old(self).diff_content
                    &&& final(self).diff_scroll == old(self).diff_scroll
                }
                &&& *final(self) == (FileList {
                    files: final(self).files,
                    selected: final(self).selected,
                    repo_name: final(self).repo_name,
                    repo_id: final(self).repo_id,
                    diff_content: final(self).diff_content,
                    diff_scroll: final(self).diff_scroll,
                    diff_generation: final(self).diff_generation,
                    filter: final(self).filter,
                    searching: final(self).searching,
                    path_strings: final(self).path_strings,
                    ..*old(self)
                })
            }),
    {
        let target = repo_id.to_string();
        let same = match &self.repo_id {
            Some(r) => *r == target,
            None => false,
        };
        let prev = self.selected;
        let changed = !same || !entries_eq(&self.files, &files);
        if !same {
            self.searching = false;
            self.filter.clear();
        }
        self.files = files;
        self.path_strings = path_strings_of(&self.files);
        self.filter.rebuild(&self.path_strings);
        self.repo_name = repo_name.to_string();
        self.repo_id = Some(target);
        if changed {
            self.diff_generation = self.diff_generation + 1;
            self.diff_content = None;
            self.diff_scroll = 0;
        }
        let n = self.files.len();
        let base = if n == 0 {
            None
        } else if same {
            match prev {
                Some(i) => Some(if i < n { i } else { n - 1 }),
                None => Some(0),
            }
        } else {
            Some(0)
        };
        self.selected = self.filter.selected_match(base);
    }

    /// Whether filter characters are being typed (and no diff covers the
    /// list).
    pub fn search_active(&self) -> (b: bool)
        ensures
            b == (self.searching && self.diff_content.is_none()),
    {
        self.searching && self.diff_content.is_none()
    }

    /// A diff arrived: it shows from its top.
    pub fn set_diff(&mut self, content: String)
        ensures
            *final(self) == (FileList { diff_content: Some(content), diff_scroll: 0, ..*old(self) }),
    {
        self.diff_content = Some(content);
        self.diff_scroll = 0;
    }

    /// Whether a diff shows.
    pub fn viewing_diff(&self) -> (b: bool)
        ensures
            b == self.diff_content.is_some(),
    {
        self.diff_content.is_some()
    }

    /// The generation of the latest diff request.
    pub fn diff_generation(&self) -> (g: u64)
        ensures
            g == self.diff_generation,
    {
        self.diff_generation
    }

    /// The highlighted file's path.
    pub fn selected_path(&self) -> (r: Option<String>)
        ensures
            match self.selected {
                Some(i) => if i < self.files@.len() { r matches Some(p) && p@ == self.files@[i as int].path@ } else { r is None },
                None => r is None,
            },
    {
        let idx = match self.selected {
            Some(i) => i,
            None => { return None; },
        };
        if idx >= self.files.len() {
            return None;
        }
        Some(self.files[idx].path.clone())
    }

    /// Moves the highlight one step (see `list_step`).
    pub fn select_next(&mut self)
        ensures
            *final(self) == (FileList { selected: list_step(*old(self), true), ..*old(self) }),
    {
        self.step(true);
    }

    /// Moves the highlight one step up (see `list_step`).
    pub fn select_prev(&mut self)
        ensures
            *final(self) == (FileList { selected: list_step(*old(self), false), ..*old(self) }),
    {
        self.step(false);
    }

    fn step(&mut self, down: bool)
        ensures
            *final(self) == (FileList { selected: list_step(*old(self), down), ..*old(self) }),
    {
        if self.filter.is_active() || self.searching {
            self.selected = self.filter.step(self.selected, down);
            return;
        }
        let n = self.files.len();
        if n == 0 {
            return;
        }
        let i = if down {
            match self.selected {
                Some(i) => if i < n - 1 { i + 1 } else { n - 1 },
                None => 0,
            }
        } else {
            match self.selected {
                Some(i) => if i == 0 { 0 } else { i - 1 },
                None => 0,
            }
        };
        self.selected = Some(i);
    }

    /// Asks for the highlighted file's diff, unless the filter hides it.
    pub fn try_show_diff(&mut self) -> (r: Option<FileListAction>)
        requires
            old(self).diff_generation < u64::MAX,
        ensures
            diff_action(r, diff_request(*old(self))),
            *final(self) == after_diff_request(*old(self)),
    {
        let idx = match self.selected {
            Some(i) => i,
            None => { return None; },
        };
        if self.filter.is_active() && self.filter.position_of(idx).is_none() {
            return None;
        }
        let repo_id = match &self.repo_id {
            Some(r) => r.clone(),
            None => { return None; },
        };
        if idx >= self.files.len() {
            return None;
        }
        let path = self.files[idx].path.clone();
        self.diff_generation = self.diff_generation + 1;
        Some(FileListAction::ShowDiff { repo_id, path })
    }

    /// The context menu of the highlighted file, anchored at its row's
    /// right end (the keyboard counterpart of a right click).
    pub fn selected_menu(&self) -> (r: Option<FileMenuRequest>)
        ensures
            match self.selected {
                Some(i) => if i < self.files@.len() && self.repo_id is Some {
                    r matches Some(m) && menu_of(self.files@[i as int], self.repo_id->0@,
                        menu_anchor(*self, i).0, menu_anchor(*self, i).1, m)
                } else {
                    r is None
                },
                None => r is None,
            },
    {
        let idx = match self.selected {
            Some(i) => i,
            None => { return None; },
        };
        if idx >= self.files.len() {
            return None;
        }
        let repo = match &self.repo_id {
            Some(r) => r,
            None => { return None; },
        };
        let area = if self.diff_content.is_some() { self.file_list_area } else { self.render_area };
        let d = idx.saturating_sub(self.offset) as u16;
        let row = area.y.saturating_add(1).saturating_add(d);
        let col = area.x.saturating_add(area.width.saturating_sub(1));
        Some(menu_request(&self.files[idx], repo, row, col))
    }

    fn rebuild_search(&mut self)
        requires
            old(self).diff_generation < u64::MAX,
        ensures
            final(self).filter.query == old(self).filter.query,
            final(self).filter.matches@ == filter_matches(strings_view(old(self).path_strings@), old(self).filter.query@),
            final(self).selected == spec_selected_match(final(self).filter, old(self).selected),
            *final(self) == (FileList {
                filter: final(self).filter,
                selected: final(self).selected,
                diff_generation: (old(self).diff_generation + 1) as u64,
                ..*old(self)
            }),
    {
        self.filter.rebuild(&self.path_strings);
        self.selected = self.filter.selected_match(self.selected);
        self.diff_generation = self.diff_generation + 1;
    }
}


/// The diff scrolled one row down or up, held to its last screenful.
pub open spec fn diff_scrolled(f: FileList, down: bool) -> FileList {
    match f.diff_content {
        Some(c) => FileList { diff_scroll: stepped(f.diff_scroll, down, pane_max(c@, f.diff_area)), ..f },
        None => FileList { diff_scroll: 0, ..f },
    }
}

/// `h` is `f` with the filter query `q` applied: matches rebuilt, the
/// highlight placed among them, and older diff answers refused.
pub open spec fn refiltered(f: FileList, q: Seq<char>, h: FileList) -> bool {
    &&& h.filter.query@ == q
    &&& h.filter.matches@ == filter_matches(strings_view(f.path_strings@), q)
    &&& h.selected == spec_selected_match(h.filter, f.selected)
    &&& h.diff_generation == f.diff_generation + 1
}

/// What a key does to the panel (`h`) and asks of the app (`r`).
pub open spec fn file_key(f: FileList, key: Key, h: FileList, r: Option<FileListAction>) -> bool {
    if f.diff_content is Some {
        &&& r is None
        &&& h == if key == Key::Esc || key == Key::Char('q') || key == Key::Char('h') || key == Key::Left {
            FileList { diff_content: None, diff_scroll: 0, ..f }
        } else if is_down(key) {
            diff_scrolled(f, true)
        } else if is_up(key) {
            diff_scrolled(f, false)
        } else {
            f
        }
    } else if f.searching {
        let rest = FileList { filter: h.filter, selected: h.selected, diff_generation: h.diff_generation, ..f };
        match key {
            Key::Char(c) => r is None && refiltered(f, f.filter.query@.push(c), h) && h == rest,
            Key::Backspace => {
                let q = if f.filter.query@.len() == 0 { f.filter.query@ } else { f.filter.query@.drop_last() };
                r is None && refiltered(f, q, h) && h == rest
            },
            Key::Esc => r is None && refiltered(f, Seq::empty(), h) && h == (FileList { searching: false, ..rest }),
            Key::Down => r is None && h == (FileList { selected: list_step(f, true), ..f }),
            Key::Up => r is None && h == (FileList { selected: list_step(f, false), ..f }),
            Key::Enter => if f.filter.matches@.len() == 0 {
                r is None && h == f
            } else {
                diff_action(r, diff_request(f)) && h == after_diff_request(f)
            },
            _ => r is None && h == f,
        }
    } else if key == Key::Enter {
        diff_action(r, diff_request(f)) && h == after_diff_request(f)
    } else {
        &&& r is None
        &&& h == if key == Key::Char('/') {
            FileList { searching: true, ..f }
        } else if is_down(key) {
            FileList { selected: list_step(f, true), ..f }
        } else if is_up(key) {
            FileList { selected: list_step(f, false), ..f }
        } else {
            f
        }
    }
}

/// The area whose rows a click picks: the list beside the diff, else the
/// whole panel.
pub open spec fn click_area(f: FileList) -> Rect {
    if f.diff_content is Some { f.file_list_area } else { f.render_area }
}

/// The diff pane's scroll indicator, while a diff outgrows the pane.
pub open spec fn diff_bar(f: FileList) -> Option<ScrollGrab> {
    match f.diff_content {
        Some(c) => text_bar(c@, f.diff_area),
        None => None,
    }
}

/// The offset a press at `(column, row)` on the diff's scroll indicator
/// selects, when it lies there.
pub open spec fn diff_bar_press(f: FileList, column: u16, row: u16) -> Option<u16> {
    match diff_bar(f) {
        Some(l) => press_offset(l, column, row),
        None => None,
    }
}

/// What a left press does below the scroll indicator (with any earlier
/// grab already dropped): a row of the list is highlighted, or opened when
/// it already was.
pub open spec fn list_press(f: FileList, m: Mouse, h: FileList, r: Option<FileListAction>) -> bool {
    let area = click_area(f);
    let hit = area.spec_contains(m.column, m.row);
    let at = row_index(area, m.row, f.offset);
    if hit && at is Some && at->0 < f.files@.len() {
        let idx = at->0;
        if !pickable(f, idx) {
            r is None && h == f
        } else if f.selected == Some(idx as usize) {
            diff_action(r, diff_request(f)) && h == after_diff_request(f)
        } else {
            r is None && h == (FileList { selected: Some(idx as usize), ..f })
        }
    } else {
        r is None && h == f
    }
}

/// What a mouse event does to the panel (`h`) and asks of the app (`r`).
/// A left press on the diff's scroll indicator jumps the diff to the offset
/// its row selects and grabs the indicator; a drag then scrubs by the row
/// alone, and the release lets go.
pub open spec fn file_mouse(f: FileList, m: Mouse, h: FileList, r: Option<FileListAction>) -> bool {
    let area = click_area(f);
    let hit = area.spec_contains(m.column, m.row);
    let at = row_index(area, m.row, f.offset);
    match m.kind {
        MouseKind::LeftDown => match diff_bar_press(f, m.column, m.row) {
            Some(o) => r is None && h == (FileList { diff_scroll: o, dragging_scrollbar: diff_bar(f), ..f }),
            None => list_press(FileList { dragging_scrollbar: None, ..f }, m, h, r),
        },
        MouseKind::LeftDrag => r is None && h == match f.dragging_scrollbar {
            Some(l) => FileList { diff_scroll: track_offset(l, m.row), ..f },
            None => f,
        },
        MouseKind::LeftUp => r is None && h == (FileList { dragging_scrollbar: None, ..f }),
        MouseKind::RightDown => if hit && at is Some && pickable(f, at->0) && at->0 < f.files@.len() && f.repo_id is Some {
            let idx = at->0;
            &&& r matches Some(FileListAction::ShowFileContextMenu(req))
                && menu_of(f.files@[idx], f.repo_id->0@, m.row, m.column, req)
            &&& h == (FileList { selected: Some(idx as usize), ..f })
        } else {
            r is None && h == f
        },
        MouseKind::ScrollUp => r is None && h == if f.diff_content is Some && f.diff_area.spec_contains(m.column, m.row) {
            diff_scrolled(f, false)
        } else {
            FileList { selected: list_step(f, false), ..f }
        },
        MouseKind::ScrollDown => r is None && h == if f.diff_content is Some && f.diff_area.spec_contains(m.column, m.row) {
            diff_scrolled(f, true)
        } else {
            FileList { selected: list_step(f, true), ..f }
        },
        _ => r is None && h == f,
    }
}

fn row_under(area: Rect, row: u16, offset: usize) -> (r: Option<usize>)
    ensures
        match r {
            Some(i) => row_index(area, row, offset) == Some(i as int),
            None => row_index(area, row, offset) matches Some(i) ==> i > usize::MAX,
        },
{
    if area.y == u16::MAX || row < area.y + 1 {
        return None;
    }
    offset.checked_add((row - (area.y + 1)) as usize)
}

impl FileList {
    fn scroll_diff(&mut self, down: bool)
        ensures
            *final(self) == diff_scrolled(*old(self), down),
    {
        match &self.diff_content {
            Some(c) => {
                let next = if down { self.diff_scroll.saturating_add(1) } else { self.diff_scroll.saturating_sub(1) };
                self.diff_scroll = clamp_scroll(c.as_str(), self.diff_area, next);
            },
            None => {
                self.diff_scroll = 0;
            },
        }
    }

    /// A key pressed while the panel has focus.
    pub fn handle_key_event(&mut self, key: Key) -> (r: Option<FileListAction>)
        requires
            old(self).diff_generation < u64::MAX,
        ensures
            file_key(*old(self), key, *final(self), r),
    {
        if self.diff_content.is_some() {
            if key == Key::Esc || key == Key::Char('q') || key == Key::Char('h') || key == Key::Left {
                self.diff_content = None;
                self.diff_scroll = 0;
            } else if key == Key::Char('j') || key == Key::Down {
                self.scroll_diff(true);
            } else if key == Key::Char('k') || key == Key::Up {
                self.scroll_diff(false);
            }
            return None;
        }
        if self.searching {
            match key {
                Key::Char(c) => {
                    self.filter.push(c);
                    self.rebuild_search();
                },
                Key::Backspace => {
                    self.filter.pop();
                    self.rebuild_search();
                },
                Key::Esc => {
                    self.searching = false;
                    self.filter.clear();
                    assert(self.filter.query@ =~= Seq::<char>::empty());
                    self.rebuild_search();
                },
                Key::Down => self.step(true),
                Key::Up => self.step(false),
                Key::Enter => {
                    if self.filter.count() == 0 {
                        return None;
                    }
                    return self.try_show_diff();
                },
                _ => {},
            }
            return None;
        }
        if key == Key::Enter {
            return self.try_show_diff();
        }
        if key == Key::Char('/') {
            self.searching = true;
        } else if key == Key::Char('j') || key == Key::Down {
            self.step(true);
        } else if key == Key::Char('k') || key == Key::Up {
            self.step(false);
        }
        None
    }

    /// The diff pane's scroll indicator, while a diff outgrows the pane.
    pub fn diff_indicator(&self) -> (r: Option<ScrollGrab>)
        requires
            self.diff_area.fits(),
        ensures
            r == diff_bar(*self),
    {
        match &self.diff_content {
            Some(c) => text_indicator(c.as_str(), self.diff_area),
            None => None,
        }
    }

    /// Whether `(column, row)` lies on the diff's scroll indicator; the app
    /// asks before it lets a press grab the panel seam beside it.
    pub fn is_on_scroll_indicator(&self, column: u16, row: u16) -> (r: bool)
        requires
            self.diff_area.fits(),
        ensures
            r == diff_bar_press(*self, column, row) is Some,
    {
        match self.diff_indicator() {
            Some(l) => l.press(column, row).is_some(),
            None => false,
        }
    }

    /// Lets go of a scroll-indicator grab.
    pub fn cancel_drag(&mut self)
        ensures
            *final(self) == (FileList { dragging_scrollbar: None, ..*old(self) }),
    {
        self.dragging_scrollbar = None;
    }

    fn press_list(&mut self, m: Mouse) -> (r: Option<FileListAction>)
        requires
            old(self).diff_generation < u64::MAX,
        ensures
            list_press(*old(self), m, *final(self), r),
    {
        let area = if self.diff_content.is_some() { self.file_list_area } else { self.render_area };
        let n = self.files.len();
        if area.contains(m.column, m.row) {
            match row_under(area, m.row, self.offset) {
                Some(idx) => {
                    if idx < n {
                        if self.filter.is_active() && self.filter.position_of(idx).is_none() {
                            return None;
                        }
                        if self.selected == Some(idx) {
                            return self.try_show_diff();
                        }
                        self.selected = Some(idx);
                    }
                },
                None => {},
            }
        }
        None
    }

    /// A mouse event over the panel.
    pub fn handle_mouse_event(&mut self, m: Mouse) -> (r: Option<FileListAction>)
        requires
            old(self).diff_generation < u64::MAX,
            old(self).diff_area.fits(),
        ensures
            file_mouse(*old(self), m, *final(self), r),
    {
        let area = if self.diff_content.is_some() { self.file_list_area } else { self.render_area };
        let n = self.files.len();
        match m.kind {
            MouseKind::LeftDown => {
                let bar = self.diff_indicator();
                match bar {
                    Some(l) => {
                        match l.press(m.column, m.row) {
                            Some(o) => {
                                self.diff_scroll = o;
                                self.dragging_scrollbar = bar;
                                return None;
                            },
                            None => {},
                        }
                    },
                    None => {},
                }
                self.dragging_scrollbar = None;
                self.press_list(m)
            },
            MouseKind::LeftDrag => {
                match self.dragging_scrollbar {
                    Some(l) => {
                        self.diff_scroll = l.row_offset(m.row);
                    },
                    None => {},
                }
                None
            },
            MouseKind::LeftUp => {
                self.dragging_scrollbar = None;
                None
            },
            MouseKind::RightDown => {
                if area.contains(m.column, m.row) {
                    match row_under(area, m.row, self.offset) {
                        Some(idx) => {
                            if self.filter.is_active() && self.filter.position_of(idx).is_none() {
                                return None;
                            }
                            if idx < n {
                                match &self.repo_id {
                                    Some(repo) => {
                                        let req = menu_request(&self.files[idx], repo, m.row, m.column);
                                        self.selected = Some(idx);
                                        return Some(FileListAction::ShowFileContextMenu(req));
                                    },
                                    None => {},
                                }
                            }
                        },
                        None => {},
                    }
                }
                None
            },
            MouseKind::ScrollUp => {
                if self.diff_content.is_some() && self.diff_area.contains(m.column, m.row) {
                    self.scroll_diff(false);
                } else {
                    self.step(false);
                }
                None
            },
            MouseKind::ScrollDown => {
                if self.diff_content.is_some() && self.diff_area.contains(m.column, m.row) {
                    self.scroll_diff(true);
                } else {
                    self.step(true);
                }
                None
            },
            _ => None,
        }
    }
}

} // verus!
