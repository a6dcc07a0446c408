//! The GitHub panel: issues then pull requests of the selected repository,
//! a highlight, and a detail pane whose loads are tagged with a generation
//! so late answers are dropped.

use vstd::prelude::*;
use crate::github::GhItem;
use crate::input::{Key, Mouse, MouseKind};
use crate::layout::Rect;

verus! {

/// One selectable row: an issue or a pull request.
#[derive(Debug)]
pub struct PanelRow {
    pub is_pr: bool,
    pub item: GhItem,
}

/// What the panel shows when it lists no rows.
#[derive(Debug)]
pub enum PanelStatus {
    /// Rows are authoritative (may be empty: nothing open).
    Ready,
    /// A fetch is in flight and nothing is cached.
    Loading,
    /// The repository has no github.com `origin`.
    NotGithub,
    /// A `gh` call failed; its first stderr line.
    Error(String),
}

/// One comment of an issue or pull request.
#[derive(Debug)]
pub struct ItemComment {
    pub author: String,
    pub created_at: String,
    pub body: String,
}

/// Body and comments of one issue or pull request.
#[derive(Debug)]
pub struct ItemDetail {
    pub number: u64,
    pub title: String,
    pub author: String,
    pub body: String,
    pub comments: Vec<ItemComment>,
}

/// A request to load an item's detail.
#[derive(Debug)]
pub struct DetailRequest {
    pub url: String,
    pub is_pr: bool,
    pub generation: u64,
}

/// The outcome of an event routed to the panel.
#[derive(Debug)]
pub enum PanelEvent {
    Nothing,
    /// Load the detail of the highlighted item.
    ShowItem(DetailRequest),
    /// Open this URL in the browser.
    OpenUrl(String),
}

/// The panel.
#[derive(Debug)]
pub struct GithubPanel {
    pub rows: Vec<PanelRow>,
    pub issue_count: usize,
    pub pr_count: usize,
    pub selected: Option<usize>,
    /// First visible row.
    pub offset: usize,
    pub repo_name: String,
    pub status: PanelStatus,
    pub focused: bool,
    pub horizontal_layout: bool,
    pub render_area: Rect,
    pub list_area: Rect,
    pub detail_area: Rect,
    pub detail: Option<ItemDetail>,
    pub detail_loading: bool,
    pub detail_error: Option<String>,
    pub detail_scroll: u16,
    /// Bumped per detail request so a late answer is discarded.
    pub detail_generation: u64,
}

/// The rows as `(is_pr, item)` pairs.
pub open spec fn row_pairs(rows: Seq<PanelRow>) -> Seq<(bool, GhItem)> {
    rows.map_values(|r: PanelRow| (r.is_pr, r.item))
}

/// Items tagged as issues (`false`) or pull requests (`true`).
pub open spec fn tagged(items: Seq<GhItem>, is_pr: bool) -> Seq<(bool, GhItem)> {
    items.map_values(|i: GhItem| (is_pr, i))
}

/// Whether the detail pane is open: loading, loaded or failed.
pub open spec fn spec_has_detail(p: GithubPanel) -> bool {
    p.detail_loading || p.detail.is_some() || p.detail_error.is_some()
}

/// `p` with the detail pane closed.
pub open spec fn closed(p: GithubPanel) -> GithubPanel {
    GithubPanel { detail: None, detail_loading: false, detail_error: None, detail_scroll: 0, ..p }
}

/// `p` retargeted at `name`: rows, counts, highlight and detail dropped
/// when the name differs.
pub open spec fn retargeted(p: GithubPanel, name: Seq<char>) -> GithubPanel {
    if p.repo_name@ != name {
        GithubPanel { rows: p.rows, issue_count: 0, pr_count: 0, selected: None, ..closed(p) }
    } else {
        p
    }
}

/// Whether the panel state after a status change agrees with `retargeted`
/// on everything but the repo name (set to `name`) and `status`.
pub open spec fn status_set(old_p: GithubPanel, new_p: GithubPanel, name: Seq<char>) -> bool {
    let r = retargeted(old_p, name);
    &&& new_p.repo_name@ == name
    &&& (old_p.repo_name@ != name ==> new_p.rows@.len() == 0)
    &&& (old_p.repo_name@ == name ==> new_p.rows == old_p.rows)
    &&& new_p.issue_count == r.issue_count
    &&& new_p.pr_count == r.pr_count
    &&& new_p.selected == r.selected
    &&& new_p.detail == r.detail
    &&& new_p.detail_loading == r.detail_loading
    &&& new_p.detail_error == r.detail_error
    &&& new_p.detail_scroll == r.detail_scroll
    &&& new_p.detail_generation == old_p.detail_generation
    &&& new_p.offset == old_p.offset
}

impl GithubPanel {
    /// An empty panel, loading.
    pub fn new() -> (p: Self)
        ensures
            p.rows@.len() == 0,
            p.issue_count == 0 && p.pr_count == 0,
            p.selected.is_none(),
            p.repo_name@.len() == 0,
            p.status is Loading,
            !spec_has_detail(p),
            p.detail_generation == 0,
    {
        GithubPanel {
            rows: Vec::new(),
            issue_count: 0,
            pr_count: 0,
            selected: None,
            offset: 0,
            repo_name: String::new(),
            status: PanelStatus::Loading,
            focused: false,
            horizontal_layout: false,
            render_area: Rect { x: 0, y: 0, width: 0, height: 0 },
            list_area: Rect { x: 0, y: 0, width: 0, height: 0 },
            detail_area: Rect { x: 0, y: 0, width: 0, height: 0 },
            detail: None,
            detail_loading: false,
            detail_error: None,
            detail_scroll: 0,
            detail_generation: 0,
        }
    }

    /// Replaces the rows with `issues` then `prs`. The highlight stays (at
    /// most on the last row) when the repository is the same, else it goes
    /// to the top; no rows, no highlight.
    pub fn set_data(&mut self, issues: Vec<GhItem>, prs: Vec<GhItem>, repo_name: &str)
        ensures
            row_pairs(final(self).rows@) == tagged(issues@, false) + tagged(prs@, true),
            final(self).issue_count == issues@.len(),
            final(self).pr_count == prs@.len(),
            final(self).repo_name@ == repo_name@,
            final(self).status is Ready,
            final(self).selected == (if issues@.len() + prs@.len() == 0 {
                None
            } else if old(self).repo_name@ == repo_name@ {
                match old(self).selected {
                    Some(i) => Some(if i < issues@.len() + prs@.len() - 1 { i } else { (issues@.len() + prs@.len() - 1) as usize }),
                    None => Some(0usize),
                }
            } else {
                Some(0usize)
            }),
            final(self).detail == old(self).detail,
            final(self).detail_loading == old(self).detail_loading,
            final(self).detail_error == old(self).detail_error,
            final(self).detail_generation == old(self).detail_generation,
    {
        let name = repo_name.to_string();
        let same_repo = self.repo_name == name;
        let prev = self.selected;
        self.issue_count = issues.len();
        self.pr_count = prs.len();
        let ghost iv = tagged(issues@, false);
        let ghost pv = tagged(prs@, true);
        let mut rows: Vec<PanelRow> = Vec::new();
        let mut issues = issues;
        let mut prs = prs;
        let ni = issues.len();
        let np = prs.len();
        let mut k: usize = 0;
        while k < ni
            invariant
                ni == iv.len(),
                k <= ni,
                issues@.len() == ni - k,
                forall|x: int| 0 <= x < ni - k ==> (false, #[trigger] issues@[x]) == iv[k + x],
                row_pairs(rows@) == iv.take(k as int),
            decreases ni - k,
        {
            let item = issues.remove(0);
            let ghost before = rows@;
            rows.push(PanelRow { is_pr: false, item });
            assert(row_pairs(rows@) =~= row_pairs(before).push(iv[k as int]));
            assert(iv.take(k + 1) =~= iv.take(k as int).push(iv[k as int]));
            k = k + 1;
        }
        assert(iv.take(ni as int) =~= iv);
        let mut k: usize = 0;
        while k < np
            invariant
                np == pv.len(),
                ni == iv.len(),
                k <= np,
                prs@.len() == np - k,
                forall|x: int| 0 <= x < np - k ==> (true, #[trigger] prs@[x]) == pv[k + x],
                row_pairs(rows@) == iv + pv.take(k as int),
            decreases np - k,
        {
            let item = prs.remove(0);
            let ghost before = rows@;
            rows.push(PanelRow { is_pr: true, item });
            assert(row_pairs(rows@) =~= row_pairs(before).push(pv[k as int]));
            assert(pv.take(k + 1) =~= pv.take(k as int).push(pv[k as int]));
            k = k + 1;
        }
        assert(pv.take(np as int) =~= pv);
        self.rows = rows;
        self.repo_name = name;
        self.status = PanelStatus::Ready;
        let n = self.rows.len();
        if n == 0 {
            self.selected = None;
        } else if same_repo {
            self.selected = Some(match prev {
                Some(i) => if i < n - 1 { i } else { n - 1 },
                None => 0,
            });
        } else {
            self.selected = Some(0);
        }
    }

    /// Drops stale rows when the panel retargets another repository; keeps
    /// them on a same-repository status change so the list does not flicker.
    fn reset_if_new(&mut self, repo_name: &str)
        ensures
            status_set(*old(self), *final(self), repo_name@),
            final(self).status == old(self).status,
    {
        let name = repo_name.to_string();
        if self.repo_name != name {
            self.rows = Vec::new();
            self.issue_count = 0;
            self.pr_count = 0;
            self.selected = None;
            self.close_detail();
        }
        self.repo_name = name;
    }

    /// Marks the panel loading for `repo_name`.
    pub fn set_loading(&mut self, repo_name: &str)
        ensures
            status_set(*old(self), *final(self), repo_name@),
            final(self).status is Loading,
    {
        self.reset_if_new(repo_name);
        self.status = PanelStatus::Loading;
    }

    /// Marks `repo_name` as having no github.com remote.
    pub fn set_not_github(&mut self, repo_name: &str)
        ensures
            status_set(*old(self), *final(self), repo_name@),
            final(self).status is NotGithub,
    {
        self.reset_if_new(repo_name);
        self.status = PanelStatus::NotGithub;
    }

    /// Shows a fetch error for `repo_name`.
    pub fn set_error(&mut self, repo_name: &str, message: String)
        ensures
            status_set(*old(self), *final(self), repo_name@),
            final(self).status == PanelStatus::Error(message),
    {
        self.reset_if_new(repo_name);
        self.status = PanelStatus::Error(message);
    }

    /// Web URL of the highlighted row.
    pub fn selected_url(&self) -> (r: Option<String>)
        ensures
            match self.selected {
                Some(i) if i < self.rows@.len() => r is Some && r->0@ == self.rows@[i as int].item.url@,
                _ => r is None,
            },
    {
        let idx = match self.selected {
            Some(i) => i,
            None => return None,
        };
        if idx < self.rows.len() {
            Some(self.rows[idx].item.url.clone())
        } else {
            None
        }
    }

    /// Whether the detail pane is open: loading, loaded or failed.
    pub fn has_detail(&self) -> (r: bool)
        ensures
            r == spec_has_detail(*self),
    {
        self.detail_loading || self.detail.is_some() || self.detail_error.is_some()
    }

    /// Closes the detail pane and resets its scroll.
    pub fn close_detail(&mut self)
        ensures
            *final(self) == closed(*old(self)),
    {
        self.detail = None;
        self.detail_loading = false;
        self.detail_error = None;
        self.detail_scroll = 0;
    }

    /// Applies a detail load, unless a newer request superseded it.
    pub fn set_detail(&mut self, generation: u64, result: Result<ItemDetail, String>)
        ensures
            generation != old(self).detail_generation ==> *final(self) == *old(self),
            generation == old(self).detail_generation ==> *final(self) == (match result {
                Ok(d) => GithubPanel { detail_loading: false, detail: Some(d), detail_error: None, ..*old(self) },
                Err(e) => GithubPanel { detail_loading: false, detail: None, detail_error: Some(e), ..*old(self) },
            }),
    {
        if generation != self.detail_generation {
            return;
        }
        self.detail_loading = false;
        match result {
            Ok(detail) => {
                self.detail = Some(detail);
                self.detail_error = None;
            },
            Err(e) => {
                self.detail = None;
                self.detail_error = Some(e);
            },
        }
    }

    /// Starts loading the highlighted item's detail: a new generation, the
    /// pane open and loading.
    pub fn open_selected_detail(&mut self) -> (r: Option<DetailRequest>)
        ensures
            match old(self).selected {
                Some(i) if i < old(self).rows@.len() => {
                    let g = if old(self).detail_generation == u64::MAX { 0 } else { (old(self).detail_generation + 1) as u64 };
                    &&& r is Some
                    &&& r->0.url@ == old(self).rows@[i as int].item.url@
                    &&& r->0.is_pr == old(self).rows@[i as int].is_pr
                    &&& r->0.generation == g
                    &&& *final(self) == (GithubPanel {
                        detail_generation: g,
                        detail_loading: true,
                        detail: None,
                        detail_error: None,
                        detail_scroll: 0,
                        ..*old(self)
                    })
                },
                _ => r is None && *final(self) == *old(self),
            },
    {
        let idx = match self.selected {
            Some(i) => i,
            None => return None,
        };
        if idx >= self.rows.len() {
            return None;
        }
        let url = self.rows[idx].item.url.clone();
        let is_pr = self.rows[idx].is_pr;
        self.detail_generation = self.detail_generation.wrapping_add(1);
        self.detail_loading = true;
        self.detail = None;
        self.detail_error = None;
        self.detail_scroll = 0;
        Some(DetailRequest { url, is_pr, generation: self.detail_generation })
    }

    /// Moves the highlight down, stopping at the last row.
    pub fn select_next(&mut self)
        ensures
            *final(self) == (if old(self).rows@.len() == 0 {
                *old(self)
            } else {
                GithubPanel {
                    selected: Some(match old(self).selected {
                        Some(i) => if i + 1 < old(self).rows@.len() { (i + 1) as usize } else { (old(self).rows@.len() - 1) as usize },
                        None => 0usize,
                    }),
                    ..*old(self)
                }
            }),
    {
        let n = self.rows.len();
        if n == 0 {
            return;
        }
        let i = match self.selected {
            Some(i) => if i < n - 1 { i + 1 } else { n - 1 },
            None => 0,
        };
        self.selected = Some(i);
    }

    /// Moves the highlight up, stopping at the first row.
    pub fn select_prev(&mut self)
        ensures
            *final(self) == (if old(self).rows@.len() == 0 {
                *old(self)
            } else {
                GithubPanel {
                    selected: Some(match old(self).selected {
                        Some(i) => if i > 0 { (i - 1) as usize } else { 0usize },
                        None => 0usize,
                    }),
                    ..*old(self)
                }
            }),
    {
        if self.rows.len() == 0 {
            return;
        }
        let i = match self.selected {
            Some(i) => if i > 0 { i - 1 } else { 0 },
            None => 0,
        };
        self.selected = Some(i);
    }

    /// Routes a key. With the detail open: Esc/`q`/`h`/Left close it,
    /// `j`/`k`/arrows scroll it, Enter opens the item in the browser.
    /// Otherwise `j`/`k`/arrows move the highlight and Enter loads the detail.
    pub fn handle_key_event(&mut self, key: Key) -> (e: PanelEvent)
        ensures
            spec_has_detail(*old(self)) ==> match key {
                Key::Esc | Key::Char('q') | Key::Char('h') | Key::Left => e is Nothing && *final(self) == closed(*old(self)),
                Key::Char('j') | Key::Down => e is Nothing && *final(self) == (GithubPanel {
                    detail_scroll: if old(self).detail_scroll < u16::MAX { (old(self).detail_scroll + 1) as u16 } else { u16::MAX },
                    ..*old(self)
                }),
                Key::Char('k') | Key::Up => e is Nothing && *final(self) == (GithubPanel {
                    detail_scroll: if old(self).detail_scroll > 0 { (old(self).detail_scroll - 1) as u16 } else { 0u16 },
                    ..*old(self)
                }),
                Key::Enter => *final(self) == *old(self) && match old(self).selected {
                    Some(i) if i < old(self).rows@.len() => e is OpenUrl && e->OpenUrl_0@ == old(self).rows@[i as int].item.url@,
                    _ => e is Nothing,
                },
                _ => e is Nothing && *final(self) == *old(self),
            },
            !spec_has_detail(*old(self)) ==> match key {
                Key::Char('j') | Key::Down => e is Nothing && final(self).selected == (if old(self).rows@.len() == 0 {
                    old(self).selected
                } else {
                    Some(match old(self).selected {
                        Some(i) => if i + 1 < old(self).rows@.len() { (i + 1) as usize } else { (old(self).rows@.len() - 1) as usize },
                        None => 0usize,
                    })
                }),
                Key::Char('k') | Key::Up => e is Nothing && final(self).selected == (if old(self).rows@.len() == 0 {
                    old(self).selected
                } else {
                    Some(match old(self).selected {
                        Some(i) => if i > 0 { (i - 1) as usize } else { 0usize },
                        None => 0usize,
                    })
                }),
                Key::Enter => match old(self).selected {
                    Some(i) if i < old(self).rows@.len() => e is ShowItem && e->ShowItem_0.url@ == old(self).rows@[i as int].item.url@
                        && e->ShowItem_0.is_pr == old(self).rows@[i as int].is_pr
                        && e->ShowItem_0.generation == final(self).detail_generation
                        && final(self).detail_loading,
                    _ => e is Nothing && *final(self) == *old(self),
                },
                _ => e is Nothing && *final(self) == *old(self),
            },
    {
        if self.has_detail() {
            match key {
                Key::Esc | Key::Char('q') | Key::Char('h') | Key::Left => self.close_detail(),
                Key::Char('j') | Key::Down => self.detail_scroll = self.detail_scroll.saturating_add(1),
                Key::Char('k') | Key::Up => self.detail_scroll = self.detail_scroll.saturating_sub(1),
                Key::Enter => {
                    return match self.selected_url() {
                        Some(u) => PanelEvent::OpenUrl(u),
                        None => PanelEvent::Nothing,
                    };
                },
                _ => {},
            }
            return PanelEvent::Nothing;
        }
        match key {
            Key::Char('j') | Key::Down => {
                self.select_next();
                PanelEvent::Nothing
            },
            Key::Char('k') | Key::Up => {
                self.select_prev();
                PanelEvent::Nothing
            },
            Key::Enter => match self.open_selected_detail() {
                Some(r) => PanelEvent::ShowItem(r),
                None => PanelEvent::Nothing,
            },
            _ => PanelEvent::Nothing,
        }
    }

    /// Routes a mouse event: a left click on a row highlights it (a click
    /// on the highlighted row loads its detail); the wheel scrolls the
    /// detail when open, else moves the highlight.
    pub fn handle_mouse_event(&mut self, mouse: Mouse) -> (e: PanelEvent)
        ensures
            mouse.kind == MouseKind::LeftDown ==> {
                let area = if spec_has_detail(*old(self)) { old(self).list_area } else { old(self).render_area };
                let hit = area.spec_contains(mouse.column, mouse.row) && mouse.row >= area.y + 1
                    && mouse.row - (area.y + 1) + old(self).offset < old(self).rows@.len();
                let idx = (mouse.row - (area.y + 1) + old(self).offset) as usize;
                if !hit {
                    e is Nothing && *final(self) == *old(self)
                } else if old(self).selected == Some(idx) {
                    e is ShowItem && e->ShowItem_0.url@ == old(self).rows@[idx as int].item.url@
                        && e->ShowItem_0.is_pr == old(self).rows@[idx as int].is_pr
                        && e->ShowItem_0.generation == final(self).detail_generation && final(self).detail_loading
                } else {
                    e is Nothing && *final(self) == (GithubPanel { selected: Some(idx), ..*old(self) })
                }
            },
            mouse.kind == MouseKind::ScrollUp ==> e is Nothing && if spec_has_detail(*old(self)) {
                *final(self) == (GithubPanel {
                    detail_scroll: if old(self).detail_scroll > 0 { (old(self).detail_scroll - 1) as u16 } else { 0u16 },
                    ..*old(self)
                })
            } else {
                final(self).selected == (if old(self).rows@.len() == 0 {
                    old(self).selected
                } else {
                    Some(match old(self).selected {
                        Some(i) => if i > 0 { (i - 1) as usize } else { 0usize },
                        None => 0usize,
                    })
                })
            },
            mouse.kind == MouseKind::ScrollDown ==> e is Nothing && if spec_has_detail(*old(self)) {
                *final(self) == (GithubPanel {
                    detail_scroll: if old(self).detail_scroll < u16::MAX { (old(self).detail_scroll + 1) as u16 } else { u16::MAX },
                    ..*old(self)
                })
            } else {
                final(self).selected == (if old(self).rows@.len() == 0 {
                    old(self).selected
                } else {
                    Some(match old(self).selected {
                        Some(i) => if i + 1 < old(self).rows@.len() { (i + 1) as usize } else { (old(self).rows@.len() - 1) as usize },
                        None => 0usize,
                    })
                })
            },
            mouse.kind != MouseKind::LeftDown && mouse.kind != MouseKind::ScrollUp && mouse.kind != MouseKind::ScrollDown
                ==> e is Nothing && *final(self) == *old(self),
    {
        match mouse.kind {
            MouseKind::LeftDown => {
                let area = if self.has_detail() { self.list_area } else { self.render_area };
                if area.contains(mouse.column, mouse.row) && mouse.row as u32 >= area.y as u32 + 1 {
                    let visual = (mouse.row - (area.y + 1)) as usize;
                    if visual < self.rows.len() && self.offset < self.rows.len() - visual {
                        let idx = visual + self.offset;
                        if self.selected == Some(idx) {
                            return match self.open_selected_detail() {
                                Some(r) => PanelEvent::ShowItem(r),
                                None => PanelEvent::Nothing,
                            };
                        }
                        self.selected = Some(idx);
                    }
                }
                PanelEvent::Nothing
            },
            MouseKind::ScrollUp => {
                if self.has_detail() {
                    self.detail_scroll = self.detail_scroll.saturating_sub(1);
                } else {
                    self.select_prev();
                }
                PanelEvent::Nothing
            },
            MouseKind::ScrollDown => {
                if self.has_detail() {
                    self.detail_scroll = self.detail_scroll.saturating_add(1);
                } else {
                    self.select_next();
                }
                PanelEvent::Nothing
            },
            _ => PanelEvent::Nothing,
        }
    }
}

} // verus!
