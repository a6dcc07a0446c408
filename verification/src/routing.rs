//! Where the app sends an input event: modal overlays first, then the
//! global keys, then the focused panel. A mouse press also moves the focus
//! to the panel under it and may grab a border between panels.

use vstd::prelude::*;
use crate::graph_view::{border_dist, pick};
use crate::input::{Key, Mouse, MouseKind};
use crate::layout::{DETAIL_GRAB_ZONE, Rect};
use crate::file_list::{diff_bar, diff_bar_press, file_mouse, FileList, FileListAction};

verus! {

/// The panel that has the keyboard.
#[derive(Debug, Clone, Copy, PartialEq, Eq, Structural)]
pub enum FocusPanel {
    Repos,
    Changes,
    Graph,
    GitHub,
}

/// What decides where a key goes.
#[derive(Debug, Clone, Copy)]
pub struct KeyContext {
    pub focus: FocusPanel,
    pub confirm_visible: bool,
    pub path_input_visible: bool,
    pub theme_picker_visible: bool,
    pub picker_visible: bool,
    pub graph_search_visible: bool,
    pub context_menu_visible: bool,
    pub show_help: bool,
    pub file_diff_open: bool,
    pub graph_detail_open: bool,
    pub github_detail_open: bool,
    pub github_visible: bool,
    /// The repository list highlights a worktree row.
    pub worktree_selected: bool,
    /// The repository list highlights a repository row.
    pub repo_selected: bool,
    /// The user keybinding bound to the typed character, if any.
    pub keybinding: Option<usize>,
}

/// Where a key goes, or what it does.
#[derive(Debug, Clone, Copy, PartialEq, Eq, Structural)]
pub enum KeyRoute {
    Quit,
    Confirm,
    PathInput,
    ThemePicker,
    Picker,
    GraphSearch,
    ContextMenu,
    ToggleHelp,
    DismissHelp,
    /// Move the focus to this panel.
    Focus(FocusPanel),
    /// Esc in the graph with no commit open: the focus moves to the changes
    /// panel and the graph drops its pending commit-detail request
    /// (`GitGraph::close_detail`), so a late answer to it is refused.
    LeaveGraph,
    /// Hand the key to this panel.
    Panel(FocusPanel),
    RefreshAll,
    OpenThemePicker,
    RescanRepos,
    ShowGitGraph,
    ToggleGithub,
    GotoSessionSelected,
    OpenSelected,
    ReviewSelected,
    OpenAddRepo,
    RemoveWorktree,
    ConfirmRemoveRepo,
    CycleSortOrder,
    CopySelected,
    RunKeybinding(usize),
    Nothing,
}

/// Tab: the panel to the right, skipping the GitHub panel while hidden.
pub open spec fn next_focus(f: FocusPanel, github_visible: bool) -> FocusPanel {
    match f {
        FocusPanel::Repos => FocusPanel::Changes,
        FocusPanel::Changes => FocusPanel::Graph,
        FocusPanel::Graph => if github_visible { FocusPanel::GitHub } else { FocusPanel::Repos },
        FocusPanel::GitHub => FocusPanel::Repos,
    }
}

/// Shift-Tab: the panel to the left, skipping the GitHub panel while hidden.
pub open spec fn prev_focus(f: FocusPanel, github_visible: bool) -> FocusPanel {
    match f {
        FocusPanel::Repos => if github_visible { FocusPanel::GitHub } else { FocusPanel::Graph },
        FocusPanel::Changes => FocusPanel::Repos,
        FocusPanel::Graph => FocusPanel::Changes,
        FocusPanel::GitHub => FocusPanel::Graph,
    }
}

/// Where a key goes once no overlay claims it: the global keys, then a
/// user keybinding, then the focused panel. `q` and Esc close an open diff
/// or detail of the focused panel first; Esc otherwise walks the focus back
/// to the repository list (leaving the graph drops its pending detail
/// request) and quits from there.
pub open spec fn global_key(ctx: KeyContext, key: Key, ctrl: bool, alt: bool) -> KeyRoute {
    let f = ctx.focus;
    if key == Key::Char('q') {
        if f == FocusPanel::Changes && ctx.file_diff_open {
            KeyRoute::Panel(FocusPanel::Changes)
        } else if f == FocusPanel::GitHub && ctx.github_detail_open {
            KeyRoute::Panel(FocusPanel::GitHub)
        } else {
            KeyRoute::Quit
        }
    } else if key == Key::Esc {
        if f == FocusPanel::Changes && ctx.file_diff_open {
            KeyRoute::Panel(FocusPanel::Changes)
        } else if f == FocusPanel::Graph && ctx.graph_detail_open {
            KeyRoute::Panel(FocusPanel::Graph)
        } else if f == FocusPanel::GitHub && ctx.github_detail_open {
            KeyRoute::Panel(FocusPanel::GitHub)
        } else {
            match f {
                FocusPanel::GitHub => KeyRoute::Focus(FocusPanel::Graph),
                FocusPanel::Graph => KeyRoute::LeaveGraph,
                FocusPanel::Changes => KeyRoute::Focus(FocusPanel::Repos),
                FocusPanel::Repos => KeyRoute::Quit,
            }
        }
    } else if key == Key::Tab {
        KeyRoute::Focus(next_focus(f, ctx.github_visible))
    } else if key == Key::BackTab {
        KeyRoute::Focus(prev_focus(f, ctx.github_visible))
    } else if key == Key::Char('r') {
        KeyRoute::RefreshAll
    } else if key == Key::Char('t') {
        KeyRoute::OpenThemePicker
    } else if key == Key::Char('R') {
        KeyRoute::RescanRepos
    } else if key == Key::Char('g') {
        KeyRoute::ShowGitGraph
    } else if key == Key::Char('p') {
        KeyRoute::ToggleGithub
    } else if key == Key::Char('G') {
        KeyRoute::GotoSessionSelected
    } else if key == Key::Char('o') {
        KeyRoute::OpenSelected
    } else if key == Key::Char('v') {
        KeyRoute::ReviewSelected
    } else if key == Key::Char('a') {
        KeyRoute::OpenAddRepo
    } else if key == Key::Char('d') {
        if ctx.worktree_selected {
            KeyRoute::RemoveWorktree
        } else if ctx.repo_selected {
            KeyRoute::ConfirmRemoveRepo
        } else {
            KeyRoute::Nothing
        }
    } else if key == Key::Char('s') {
        KeyRoute::CycleSortOrder
    } else if key == Key::Char('y') {
        KeyRoute::CopySelected
    } else if key is Char && !ctrl && !alt && ctx.keybinding is Some {
        KeyRoute::RunKeybinding(ctx.keybinding->0)
    } else {
        KeyRoute::Panel(f)
    }
}

/// Where a key goes: Ctrl+C always quits; an open overlay takes every key
/// (the confirmation, the path input, the theme picker, the session
/// picker, the commit search, the context menu, in that order); `?`
/// toggles the help, which any other key dismisses.
pub open spec fn spec_route_key(ctx: KeyContext, key: Key, ctrl: bool, alt: bool) -> KeyRoute {
    if key == Key::Char('c') && ctrl {
        KeyRoute::Quit
    } else if ctx.confirm_visible {
        KeyRoute::Confirm
    } else if ctx.path_input_visible {
        KeyRoute::PathInput
    } else if ctx.theme_picker_visible {
        KeyRoute::ThemePicker
    } else if ctx.picker_visible {
        KeyRoute::Picker
    } else if ctx.focus == FocusPanel::Graph && ctx.graph_search_visible {
        KeyRoute::GraphSearch
    } else if ctx.context_menu_visible {
        KeyRoute::ContextMenu
    } else if key == Key::Char('?') {
        KeyRoute::ToggleHelp
    } else if ctx.show_help {
        KeyRoute::DismissHelp
    } else {
        global_key(ctx, key, ctrl, alt)
    }
}

fn next_focus_exec(f: FocusPanel, github_visible: bool) -> (r: FocusPanel)
    ensures
        r == next_focus(f, github_visible),
{
    match f {
        FocusPanel::Repos => FocusPanel::Changes,
        FocusPanel::Changes => FocusPanel::Graph,
        FocusPanel::Graph => if github_visible { FocusPanel::GitHub } else { FocusPanel::Repos },
        FocusPanel::GitHub => FocusPanel::Repos,
    }
}

fn prev_focus_exec(f: FocusPanel, github_visible: bool) -> (r: FocusPanel)
    ensures
        r == prev_focus(f, github_visible),
{
    match f {
        FocusPanel::Repos => if github_visible { FocusPanel::GitHub } else { FocusPanel::Graph },
        FocusPanel::Changes => FocusPanel::Repos,
        FocusPanel::Graph => FocusPanel::Changes,
        FocusPanel::GitHub => FocusPanel::Graph,
    }
}

fn global_key_exec(ctx: &KeyContext, key: Key, ctrl: bool, alt: bool) -> (r: KeyRoute)
    ensures
        r == global_key(*ctx, key, ctrl, alt),
{
    let f = ctx.focus;
    if key == Key::Char('q') {
        if f == FocusPanel::Changes && ctx.file_diff_open {
            KeyRoute::Panel(FocusPanel::Changes)
        } else if f == FocusPanel::GitHub && ctx.github_detail_open {
            KeyRoute::Panel(FocusPanel::GitHub)
        } else {
            KeyRoute::Quit
        }
    } else if key == Key::Esc {
        if f == FocusPanel::Changes && ctx.file_diff_open {
            KeyRoute::Panel(FocusPanel::Changes)
        } else if f == FocusPanel::Graph && ctx.graph_detail_open {
            KeyRoute::Panel(FocusPanel::Graph)
        } else if f == FocusPanel::GitHub && ctx.github_detail_open {
            KeyRoute::Panel(FocusPanel::GitHub)
        } else {
            match f {
                FocusPanel::GitHub => KeyRoute::Focus(FocusPanel::Graph),
                FocusPanel::Graph => KeyRoute::LeaveGraph,
                FocusPanel::Changes => KeyRoute::Focus(FocusPanel::Repos),
                FocusPanel::Repos => KeyRoute::Quit,
            }
        }
    } else if key == Key::Tab {
        KeyRoute::Focus(next_focus_exec(f, ctx.github_visible))
    } else if key == Key::BackTab {
        KeyRoute::Focus(prev_focus_exec(f, ctx.github_visible))
    } else if key == Key::Char('r') {
        KeyRoute::RefreshAll
    } else if key == Key::Char('t') {
        KeyRoute::OpenThemePicker
    } else if key == Key::Char('R') {
        KeyRoute::RescanRepos
    } else if key == Key::Char('g') {
        KeyRoute::ShowGitGraph
    } else if key == Key::Char('p') {
        KeyRoute::ToggleGithub
    } else if key == Key::Char('G') {
        KeyRoute::GotoSessionSelected
    } else if key == Key::Char('o') {
        KeyRoute::OpenSelected
    } else if key == Key::Char('v') {
        KeyRoute::ReviewSelected
    } else if key == Key::Char('a') {
        KeyRoute::OpenAddRepo
    } else if key == Key::Char('d') {
        if ctx.worktree_selected {
            KeyRoute::RemoveWorktree
        } else if ctx.repo_selected {
            KeyRoute::ConfirmRemoveRepo
        } else {
            KeyRoute::Nothing
        }
    } else if key == Key::Char('s') {
        KeyRoute::CycleSortOrder
    } else if key == Key::Char('y') {
        KeyRoute::CopySelected
    } else {
        let typed = match key {
            Key::Char(_) => true,
            _ => false,
        };
        match ctx.keybinding {
            Some(i) => if typed && !ctrl && !alt { KeyRoute::RunKeybinding(i) } else { KeyRoute::Panel(f) },
            None => KeyRoute::Panel(f),
        }
    }
}

/// Where a key goes (see `spec_route_key`).
pub fn route_key(ctx: &KeyContext, key: Key, ctrl: bool, alt: bool) -> (r: KeyRoute)
    ensures
        r == spec_route_key(*ctx, key, ctrl, alt),
{
    if key == Key::Char('c') && ctrl {
        KeyRoute::Quit
    } else if ctx.confirm_visible {
        KeyRoute::Confirm
    } else if ctx.path_input_visible {
        KeyRoute::PathInput
    } else if ctx.theme_picker_visible {
        KeyRoute::ThemePicker
    } else if ctx.picker_visible {
        KeyRoute::Picker
    } else if ctx.focus == FocusPanel::Graph && ctx.graph_search_visible {
        KeyRoute::GraphSearch
    } else if ctx.context_menu_visible {
        KeyRoute::ContextMenu
    } else if key == Key::Char('?') {
        KeyRoute::ToggleHelp
    } else if ctx.show_help {
        KeyRoute::DismissHelp
    } else {
        global_key_exec(ctx, key, ctrl, alt)
    }
}

/// The four panels as last drawn, the focus, and the border a press grabbed.
#[derive(Debug, Clone, Copy)]
pub struct PanelLayout {
    pub repo_area: Rect,
    pub changes_area: Rect,
    pub graph_area: Rect,
    pub github_area: Rect,
    /// Panels side by side (borders are columns) rather than stacked.
    pub horizontal_layout: bool,
    pub github_visible: bool,
    /// The panel border (0: repos|changes, 1: changes|graph, 2: graph|github)
    /// being dragged.
    pub dragging_border: Option<u8>,
    pub focus: FocusPanel,
}

/// Where a mouse event goes.
#[derive(Debug, Clone, Copy, PartialEq, Eq, Structural)]
pub enum MouseRoute {
    /// An overlay is open: nothing happens.
    Swallow,
    ContextMenu,
    /// Resize along the dragged border.
    DragBorder(u8),
    Panel(FocusPanel),
    Nothing,
}

/// The end of `r` on the layout axis.
pub open spec fn panel_end(r: Rect, horizontal: bool) -> u16 {
    (if horizontal { r.x + r.width } else { r.y + r.height }) as u16
}

/// The border a press at `m` grabs: the closest within the grab zone of
/// repos|changes, changes|graph and (while shown) graph|github.
pub open spec fn panel_grab(l: PanelLayout, m: Mouse) -> Option<u8> {
    let h = l.horizontal_layout;
    let a = if h { m.column } else { m.row };
    let b0 = pick(0, border_dist(Some(panel_end(l.repo_area, h)), a), None);
    let b1 = pick(1, border_dist(Some(panel_end(l.changes_area, h)), a), b0);
    let b2 = if l.github_visible { pick(2, border_dist(Some(panel_end(l.graph_area, h)), a), b1) } else { b1 };
    match b2 {
        Some(b) => Some(b.0),
        None => None,
    }
}

/// The panel under `(col, row)`.
pub open spec fn panel_at(l: PanelLayout, col: u16, row: u16) -> Option<FocusPanel> {
    if l.repo_area.spec_contains(col, row) {
        Some(FocusPanel::Repos)
    } else if l.changes_area.spec_contains(col, row) {
        Some(FocusPanel::Changes)
    } else if l.graph_area.spec_contains(col, row) {
        Some(FocusPanel::Graph)
    } else if l.github_visible && l.github_area.spec_contains(col, row) {
        Some(FocusPanel::GitHub)
    } else {
        None
    }
}

/// The layout after a mouse event (`h`) and where the event goes (`r`).
/// `on_indicator`: the panel under the pointer has a scroll indicator at
/// that cell; a press there goes to the indicator and grabs no border, even
/// within a seam's grab zone.
pub open spec fn spec_route_mouse(l: PanelLayout, m: Mouse, modal: bool, menu_visible: bool, on_indicator: bool, h: PanelLayout, r: MouseRoute) -> bool {
    if modal {
        r == MouseRoute::Swallow && h == l
    } else if menu_visible {
        r == MouseRoute::ContextMenu && h == l
    } else if l.repo_area.width > 0 && m.kind == MouseKind::LeftDrag && l.dragging_border is Some {
        r == MouseRoute::DragBorder(l.dragging_border->0) && h == l
    } else if l.repo_area.width > 0 && m.kind == MouseKind::LeftUp && l.dragging_border is Some {
        r == MouseRoute::Nothing && h == (PanelLayout { dragging_border: None, ..l })
    } else {
        let grabbed = if l.repo_area.width > 0 && m.kind == MouseKind::LeftDown {
            PanelLayout { dragging_border: if on_indicator { None } else { panel_grab(l, m) }, ..l }
        } else {
            l
        };
        let focused = if m.kind == MouseKind::LeftDown && panel_at(l, m.column, m.row) is Some {
            PanelLayout { focus: panel_at(l, m.column, m.row)->0, ..grabbed }
        } else {
            grabbed
        };
        &&& h == focused
        &&& r == match panel_at(l, m.column, m.row) {
            Some(p) => MouseRoute::Panel(p),
            None => MouseRoute::Nothing,
        }
    }
}

/// The panels were laid out inside the terminal's coordinates.
pub open spec fn layout_fits(l: PanelLayout) -> bool {
    &&& l.repo_area.fits()
    &&& l.changes_area.fits()
    &&& l.graph_area.fits()
}

fn end_exec(r: Rect, horizontal: bool) -> (e: u16)
    requires
        r.fits(),
    ensures
        e == panel_end(r, horizontal),
{
    if horizontal { r.x + r.width } else { r.y + r.height }
}

fn dist_exec(p: u16, a: u16) -> (d: u16)
    ensures
        border_dist(Some(p), a) == Some(d as int),
{
    if a >= p { a - p } else { p - a }
}

fn pick_exec(i: u8, d: u16, best: Option<(u8, u16)>) -> (r: Option<(u8, u16)>)
    ensures
        match r {
            Some(b) => pick(i, Some(d as int), opt_pair(best)) == Some((b.0, b.1 as int)),
            None => pick(i, Some(d as int), opt_pair(best)).is_none(),
        },
{
    let closer = match best {
        Some(b) => d < b.1,
        None => true,
    };
    if d <= DETAIL_GRAB_ZONE && closer { Some((i, d)) } else { best }
}

/// An optional (border, distance) with the distance as an integer.
pub open spec fn opt_pair(b: Option<(u8, u16)>) -> Option<(u8, int)> {
    match b {
        Some(p) => Some((p.0, p.1 as int)),
        None => None,
    }
}

impl PanelLayout {
    fn panel_at_exec(&self, col: u16, row: u16) -> (r: Option<FocusPanel>)
        ensures
            r == panel_at(*self, col, row),
    {
        if self.repo_area.contains(col, row) {
            Some(FocusPanel::Repos)
        } else if self.changes_area.contains(col, row) {
            Some(FocusPanel::Changes)
        } else if self.graph_area.contains(col, row) {
            Some(FocusPanel::Graph)
        } else if self.github_visible && self.github_area.contains(col, row) {
            Some(FocusPanel::GitHub)
        } else {
            None
        }
    }

    /// Routes a mouse event: overlays swallow it (`modal`) or take it (the
    /// context menu); a drag or release of a grabbed panel border resizes
    /// or ends the resize; a press grabs the nearest border within reach
    /// (unless it lands on a scroll indicator, `on_indicator`, which outranks
    /// the seam) and focuses the panel under it, and the event goes to that
    /// panel.
    pub fn route_mouse(&mut self, m: Mouse, modal: bool, menu_visible: bool, on_indicator: bool) -> (r: MouseRoute)
        requires
            layout_fits(*old(self)),
        ensures
            spec_route_mouse(*old(self), m, modal, menu_visible, on_indicator, *final(self), r),
    {
        if modal {
            return MouseRoute::Swallow;
        }
        if menu_visible {
            return MouseRoute::ContextMenu;
        }
        let under = self.panel_at_exec(m.column, m.row);
        if self.repo_area.width > 0 {
            match m.kind {
                MouseKind::LeftDown => {
                    let h = self.horizontal_layout;
                    let a = if h { m.column } else { m.row };
                    let b0 = pick_exec(0, dist_exec(end_exec(self.repo_area, h), a), None);
                    let b1 = pick_exec(1, dist_exec(end_exec(self.changes_area, h), a), b0);
                    let b2 = if self.github_visible {
                        pick_exec(2, dist_exec(end_exec(self.graph_area, h), a), b1)
                    } else {
                        b1
                    };
                    self.dragging_border = if on_indicator {
                        None
                    } else {
                        match b2 {
                            Some(b) => Some(b.0),
                            None => None,
                        }
                    };
                },
                MouseKind::LeftDrag => {
                    if let Some(b) = self.dragging_border {
                        return MouseRoute::DragBorder(b);
                    }
                },
                MouseKind::LeftUp => {
                    if self.dragging_border.is_some() {
                        self.dragging_border = None;
                        return MouseRoute::Nothing;
                    }
                },
                _ => {},
            }
        }
        if m.kind == MouseKind::LeftDown {
            if let Some(p) = under {
                self.focus = p;
            }
        }
        match under {
            Some(p) => MouseRoute::Panel(p),
            None => MouseRoute::Nothing,
        }
    }
}

/// The user keybinding a typed `c` runs: the first whose key is exactly
/// that one character (a longer key never matches).
pub fn keybinding_index(keys: &Vec<String>, c: char) -> (r: Option<usize>)
    ensures
        match r {
            Some(i) => i < keys@.len() && keys@[i as int]@ == seq![c]
                && forall|j: int| 0 <= j < i ==> keys@[j]@ != seq![c],
            None => forall|j: int| 0 <= j < keys@.len() ==> keys@[j]@ != seq![c],
        },
{
    let mut i: usize = 0;
    while i < keys.len()
        invariant
            i <= keys@.len(),
            forall|j: int| 0 <= j < i ==> keys@[j]@ != seq![c],
        decreases keys@.len() - i,
    {
        let k = keys[i].as_str();
        if k.unicode_len() == 1 && k.get_char(0) == c {
            assert(k@ =~= seq![c]);
            return Some(i);
        }
        i = i + 1;
    }
    None
}

/// A panel border painted as draggable: the border index, whether it is
/// being dragged, and the two axis coordinates painted (the columns either
/// side of the seam side by side; the border row, twice, when stacked).
#[derive(Debug, Clone, Copy, PartialEq, Eq, Structural)]
pub struct Seam {
    pub border: u8,
    pub active: bool,
    pub first: u16,
    pub second: u16,
}

/// The seam between `left` and `right` side by side.
pub open spec fn side_seam(border: u8, dragging: Option<u8>, left: Rect, right: Rect) -> Seam {
    Seam {
        border,
        active: dragging == Some(border),
        first: (left.x + if left.width >= 1 { left.width - 1 } else { 0 }) as u16,
        second: right.x,
    }
}

/// The painted seams: side by side, every border between drawn panels
/// (idle or dragged); stacked, only the border being dragged, at the top
/// row of the panel below it.
pub open spec fn spec_seams(l: PanelLayout) -> Seq<Seam> {
    if l.horizontal_layout {
        let two = seq![
            side_seam(0, l.dragging_border, l.repo_area, l.changes_area),
            side_seam(1, l.dragging_border, l.changes_area, l.graph_area),
        ];
        if l.github_visible { two.push(side_seam(2, l.dragging_border, l.graph_area, l.github_area)) } else { two }
    } else {
        match l.dragging_border {
            Some(0) => seq![Seam { border: 0, active: true, first: l.changes_area.y, second: l.changes_area.y }],
            Some(1) => seq![Seam { border: 1, active: true, first: l.graph_area.y, second: l.graph_area.y }],
            Some(2) => if l.github_visible {
                seq![Seam { border: 2, active: true, first: l.github_area.y, second: l.github_area.y }]
            } else {
                Seq::empty()
            },
            _ => Seq::empty(),
        }
    }
}

fn side_seam_exec(border: u8, dragging: Option<u8>, left: Rect, right: Rect) -> (s: Seam)
    requires
        left.fits(),
    ensures
        s == side_seam(border, dragging, left, right),
{
    Seam {
        border,
        active: dragging == Some(border),
        first: left.x + if left.width >= 1 { left.width - 1 } else { 0 },
        second: right.x,
    }
}

impl PanelLayout {
    /// The seams to paint (see `spec_seams`).
    pub fn seams(&self) -> (r: Vec<Seam>)
        requires
            layout_fits(*self),
        ensures
            r@ == spec_seams(*self),
    {
        let mut v: Vec<Seam> = Vec::new();
        if self.horizontal_layout {
            v.push(side_seam_exec(0, self.dragging_border, self.repo_area, self.changes_area));
            v.push(side_seam_exec(1, self.dragging_border, self.changes_area, self.graph_area));
            if self.github_visible {
                v.push(side_seam_exec(2, self.dragging_border, self.graph_area, self.github_area));
            }
        } else {
            match self.dragging_border {
                Some(0) => v.push(Seam { border: 0, active: true, first: self.changes_area.y, second: self.changes_area.y }),
                Some(1) => v.push(Seam { border: 1, active: true, first: self.graph_area.y, second: self.graph_area.y }),
                Some(2) => if self.github_visible {
                    v.push(Seam { border: 2, active: true, first: self.github_area.y, second: self.github_area.y });
                },
                _ => {},
            }
        }
        proof {
            assert(v@ =~= spec_seams(*self));
        }
        v
    }
}

/// Tab (or Shift-Tab) pressed four times — five with the GitHub panel —
/// comes back to the panel it started from; the hidden GitHub panel is
/// never focused that way.
pub proof fn law_tab_cycles_through_the_panels(f: FocusPanel, github_visible: bool)
    ensures
        github_visible ==> next_focus(next_focus(next_focus(next_focus(f, true), true), true), true) == f,
        !github_visible && f != FocusPanel::GitHub ==> {
            &&& next_focus(next_focus(next_focus(f, false), false), false) == f
            &&& next_focus(f, false) != FocusPanel::GitHub
            &&& prev_focus(f, false) != FocusPanel::GitHub
        },
        prev_focus(next_focus(f, github_visible), github_visible) == f || (!github_visible && f == FocusPanel::GitHub),
{
}

/// While an overlay is open the focused panel never receives a key.
pub proof fn law_overlays_take_the_keyboard(ctx: KeyContext, key: Key, ctrl: bool, alt: bool)
    requires
        ctx.confirm_visible || ctx.path_input_visible || ctx.theme_picker_visible || ctx.picker_visible
            || ctx.context_menu_visible,
    ensures
        !(spec_route_key(ctx, key, ctrl, alt) is Panel),
{
}


/// A press on the diff's scroll indicator belongs to the diff, even beside
/// a panel seam: the laid-out layout grabs no seam and hands the press to the
/// changes panel, where the diff jumps to the offset the row selects and
/// the indicator is grabbed for the drags that follow.
pub proof fn law_indicator_press_scrubs_instead_of_resizing(
    l: PanelLayout,
    f: FileList,
    m: Mouse,
    h: PanelLayout,
    r: MouseRoute,
    g: FileList,
    a: Option<FileListAction>,
)
    requires
        m.kind == MouseKind::LeftDown,
        l.repo_area.width > 0,
        diff_bar_press(f, m.column, m.row) is Some,
        spec_route_mouse(l, m, false, false, diff_bar_press(f, m.column, m.row) is Some, h, r),
        file_mouse(f, m, g, a),
    ensures
        h.dragging_border is None,
        g.diff_scroll == diff_bar_press(f, m.column, m.row)->0,
        g.dragging_scrollbar == diff_bar(f),
        g.dragging_scrollbar is Some,
        a is None,
{
}


/// No overlay, dialog, search or help open: what a key does.
pub open spec fn nothing_open(ctx: KeyContext) -> bool {
    &&& !ctx.confirm_visible
    &&& !ctx.path_input_visible
    &&& !ctx.theme_picker_visible
    &&& !ctx.picker_visible
    &&& !(ctx.focus == FocusPanel::Graph && ctx.graph_search_visible)
    &&& !ctx.context_menu_visible
    &&& !ctx.show_help
}

/// The global letters mean the same in every panel: with nothing open over
/// the panels, `y` copies the selected item, `r` refreshes, `t` opens the
/// theme picker, `R` rescans, `g` shows the graph, `p` toggles GitHub, `G`
/// goes to the session, `o` opens, `v` reviews, `a` adds a repository and `s`
/// cycles the sort order, whichever panel has focus and whatever modifiers
/// are held (Ctrl-C aside).
pub proof fn law_global_letters_work_in_every_panel(ctx: KeyContext, ctrl: bool, alt: bool)
    requires
        nothing_open(ctx),
    ensures
        spec_route_key(ctx, Key::Char('y'), ctrl, alt) == KeyRoute::CopySelected,
        spec_route_key(ctx, Key::Char('r'), ctrl, alt) == KeyRoute::RefreshAll,
        spec_route_key(ctx, Key::Char('t'), ctrl, alt) == KeyRoute::OpenThemePicker,
        spec_route_key(ctx, Key::Char('R'), ctrl, alt) == KeyRoute::RescanRepos,
        spec_route_key(ctx, Key::Char('g'), ctrl, alt) == KeyRoute::ShowGitGraph,
        spec_route_key(ctx, Key::Char('p'), ctrl, alt) == KeyRoute::ToggleGithub,
        spec_route_key(ctx, Key::Char('G'), ctrl, alt) == KeyRoute::GotoSessionSelected,
        spec_route_key(ctx, Key::Char('o'), ctrl, alt) == KeyRoute::OpenSelected,
        spec_route_key(ctx, Key::Char('v'), ctrl, alt) == KeyRoute::ReviewSelected,
        spec_route_key(ctx, Key::Char('a'), ctrl, alt) == KeyRoute::OpenAddRepo,
        spec_route_key(ctx, Key::Char('s'), ctrl, alt) == KeyRoute::CycleSortOrder,
{
}


/// `q` and Esc close the innermost thing first: an open diff (Changes) or
/// detail (GitHub, and for Esc also the graph's commit) takes the key. Past
/// that, `q` quits from anywhere, and Esc steps back one panel (GitHub to
/// the graph, the graph to the changes, the changes to the repositories)
/// and quits from the repositories.
pub proof fn law_q_and_escape_close_innermost_first(ctx: KeyContext, ctrl: bool, alt: bool)
    requires
        nothing_open(ctx),
    ensures
        ({
            let f = ctx.focus;
            let inner_q = (f == FocusPanel::Changes && ctx.file_diff_open) || (f == FocusPanel::GitHub && ctx.github_detail_open);
            let inner_esc = inner_q || (f == FocusPanel::Graph && ctx.graph_detail_open);
            &&& inner_q ==> spec_route_key(ctx, Key::Char('q'), false, alt) == KeyRoute::Panel(f)
            &&& !inner_q ==> spec_route_key(ctx, Key::Char('q'), false, alt) == KeyRoute::Quit
            &&& inner_esc ==> spec_route_key(ctx, Key::Esc, ctrl, alt) == KeyRoute::Panel(f)
            &&& !inner_esc && f == FocusPanel::GitHub ==> spec_route_key(ctx, Key::Esc, ctrl, alt) == KeyRoute::Focus(FocusPanel::Graph)
            &&& !inner_esc && f == FocusPanel::Graph ==> spec_route_key(ctx, Key::Esc, ctrl, alt) == KeyRoute::LeaveGraph
            &&& !inner_esc && f == FocusPanel::Changes ==> spec_route_key(ctx, Key::Esc, ctrl, alt) == KeyRoute::Focus(FocusPanel::Repos)
            &&& !inner_esc && f == FocusPanel::Repos ==> spec_route_key(ctx, Key::Esc, ctrl, alt) == KeyRoute::Quit
        }),
{
}

} // verus!
