//! The overlays drawn over the panels: the keybinding help, the update
//! notice, and how long status-bar messages stay.

use vstd::prelude::*;
use crate::layout::Rect;
use crate::routing::FocusPanel;
use crate::text::push_str;

verus! {

/// One line of the keybinding help.
#[derive(Debug)]
pub enum HelpLine {
    /// A bold section title.
    Section(String),
    /// A key and what it does.
    Binding(String, String),
    /// An empty separating line.
    Blank,
}

/// The value of a help line.
pub enum HelpLineV {
    Section(Seq<char>),
    Binding(Seq<char>, Seq<char>),
    Blank,
}

/// The value of a help line.
pub open spec fn help_v(l: HelpLine) -> HelpLineV {
    match l {
        HelpLine::Section(s) => HelpLineV::Section(s@),
        HelpLine::Binding(k, d) => HelpLineV::Binding(k@, d@),
        HelpLine::Blank => HelpLineV::Blank,
    }
}

/// The values of some help lines.
pub open spec fn helps_v(ls: Seq<HelpLine>) -> Seq<HelpLineV> {
    ls.map_values(|l: HelpLine| help_v(l))
}

/// A key and its description.
pub open spec fn bind(k: &str, d: &str) -> HelpLineV {
    HelpLineV::Binding(k@, d@)
}

/// The global keys, listed whatever has the focus.
pub open spec fn global_help() -> Seq<HelpLineV> {
    seq![
        HelpLineV::Section("Global"@),
        bind("?", "Toggle this help"),
        bind("Tab", "Cycle focus forward"),
        bind("Shift+Tab", "Cycle focus backward"),
        bind("Esc", "Close / go back"),
        bind("r", "Refresh all repos"),
        bind("o", "Open repo/worktree"),
        bind("v", "Review changes (tmux window)"),
        bind("G", "Attach live tmux session"),
        bind("p", "Toggle GitHub panel"),
        bind("y", "Copy to clipboard"),
        bind("q", "Quit"),
    ]
}

/// The keys of the focused panel, after a blank line.
pub open spec fn panel_help(focus: FocusPanel) -> Seq<HelpLineV> {
    match focus {
        FocusPanel::Repos => seq![
            HelpLineV::Blank,
            HelpLineV::Section("Repos"@),
            bind("j / k", "Move up / down"),
            bind("a", "Add repo"),
            bind("d", "Remove repo / worktree (confirm)"),
            bind("s", "Cycle sort order"),
            bind("w", "Toggle worktrees"),
            bind("right-click", "Menu: new worktree, push/pull, …"),
            bind("R", "Rescan repos"),
            bind("g", "Open git graph"),
        ],
        FocusPanel::Changes => seq![
            HelpLineV::Blank,
            HelpLineV::Section("Changes"@),
            bind("j / k", "Move up / down"),
            bind("Enter", "Open diff view"),
            bind("Esc / h", "Close diff view"),
        ],
        FocusPanel::Graph => seq![
            HelpLineV::Blank,
            HelpLineV::Section("Graph"@),
            bind("j / k", "Move up / down"),
            bind("h / l", "Scroll left / right"),
            bind("Enter", "Open commit files"),
            HelpLineV::Blank,
            HelpLineV::Section("Search"@),
            bind("/", "Search commits"),
            bind("n / N", "Next / prev match"),
            HelpLineV::Blank,
            HelpLineV::Section("View"@),
            bind("f", "First-parent mode"),
            bind("c", "Collapse / expand branch"),
            bind("H", "Expand all collapsed"),
        ],
        FocusPanel::GitHub => seq![
            HelpLineV::Blank,
            HelpLineV::Section("GitHub"@),
            bind("j / k", "Move / scroll"),
            bind("Enter", "Preview, then open in browser"),
            bind("Esc", "Close preview"),
            bind("c", "Cycle open / all / closed"),
            bind("p", "Hide panel"),
        ],
    }
}

fn section(title: &str) -> (l: HelpLine)
    ensures
        help_v(l) == HelpLineV::Section(title@),
{
    HelpLine::Section(title.to_string())
}

fn binding(k: &str, d: &str) -> (l: HelpLine)
    ensures
        help_v(l) == bind(k, d),
{
    HelpLine::Binding(k.to_string(), d.to_string())
}

fn append(lines: &mut Vec<HelpLine>, l: HelpLine)
    ensures
        helps_v(final(lines)@) == helps_v(old(lines)@).push(help_v(l)),
{
    let ghost before = lines@;
    lines.push(l);
    assert(helps_v(lines@) =~= helps_v(before).push(help_v(l)));
}

/// The lines of the keybinding help: the global keys, then those of the
/// focused panel.
pub fn help_lines(focus: FocusPanel) -> (r: Vec<HelpLine>)
    ensures
        helps_v(r@) == global_help() + panel_help(focus),
{
    let mut v: Vec<HelpLine> = Vec::new();
    append(&mut v, section("Global"));
    append(&mut v, binding("?", "Toggle this help"));
    append(&mut v, binding("Tab", "Cycle focus forward"));
    append(&mut v, binding("Shift+Tab", "Cycle focus backward"));
    append(&mut v, binding("Esc", "Close / go back"));
    append(&mut v, binding("r", "Refresh all repos"));
    append(&mut v, binding("o", "Open repo/worktree"));
    append(&mut v, binding("v", "Review changes (tmux window)"));
    append(&mut v, binding("G", "Attach live tmux session"));
    append(&mut v, binding("p", "Toggle GitHub panel"));
    append(&mut v, binding("y", "Copy to clipboard"));
    append(&mut v, binding("q", "Quit"));
    assert(helps_v(v@) =~= global_help());
    let ghost g = helps_v(v@);
    match focus {
        FocusPanel::Repos => {
            append(&mut v, HelpLine::Blank);
            append(&mut v, section("Repos"));
            append(&mut v, binding("j / k", "Move up / down"));
            append(&mut v, binding("a", "Add repo"));
            append(&mut v, binding("d", "Remove repo / worktree (confirm)"));
            append(&mut v, binding("s", "Cycle sort order"));
            append(&mut v, binding("w", "Toggle worktrees"));
            append(&mut v, binding("right-click", "Menu: new worktree, push/pull, …"));
            append(&mut v, binding("R", "Rescan repos"));
            append(&mut v, binding("g", "Open git graph"));
        },
        FocusPanel::Changes => {
            append(&mut v, HelpLine::Blank);
            append(&mut v, section("Changes"));
            append(&mut v, binding("j / k", "Move up / down"));
            append(&mut v, binding("Enter", "Open diff view"));
            append(&mut v, binding("Esc / h", "Close diff view"));
        },
        FocusPanel::Graph => {
            append(&mut v, HelpLine::Blank);
            append(&mut v, section("Graph"));
            append(&mut v, binding("j / k", "Move up / down"));
            append(&mut v, binding("h / l", "Scroll left / right"));
            append(&mut v, binding("Enter", "Open commit files"));
            append(&mut v, HelpLine::Blank);
            append(&mut v, section("Search"));
            append(&mut v, binding("/", "Search commits"));
            append(&mut v, binding("n / N", "Next / prev match"));
            append(&mut v, HelpLine::Blank);
            append(&mut v, section("View"));
            append(&mut v, binding("f", "First-parent mode"));
            append(&mut v, binding("c", "Collapse / expand branch"));
            append(&mut v, binding("H", "Expand all collapsed"));
        },
        FocusPanel::GitHub => {
            append(&mut v, HelpLine::Blank);
            append(&mut v, section("GitHub"));
            append(&mut v, binding("j / k", "Move / scroll"));
            append(&mut v, binding("Enter", "Preview, then open in browser"));
            append(&mut v, binding("Esc", "Close preview"));
            append(&mut v, binding("c", "Cycle open / all / closed"));
            append(&mut v, binding("p", "Hide panel"));
        },
    }
    assert(helps_v(v@) =~= g + panel_help(focus));
    v
}

/// The name of a panel as the help title shows it.
pub open spec fn panel_name(focus: FocusPanel) -> Seq<char> {
    match focus {
        FocusPanel::Repos => "Repos"@,
        FocusPanel::Changes => "Changes"@,
        FocusPanel::Graph => "Graph"@,
        FocusPanel::GitHub => "GitHub"@,
    }
}

/// The title of the help box: ` Keybindings — <panel> `.
pub fn help_title(focus: FocusPanel) -> (r: String)
    ensures
        r@ == " Keybindings \u{2014} "@ + panel_name(focus) + " "@,
{
    let mut s = String::new();
    push_str(&mut s, " Keybindings \u{2014} ");
    match focus {
        FocusPanel::Repos => push_str(&mut s, "Repos"),
        FocusPanel::Changes => push_str(&mut s, "Changes"),
        FocusPanel::Graph => push_str(&mut s, "Graph"),
        FocusPanel::GitHub => push_str(&mut s, "GitHub"),
    }
    push_str(&mut s, " ");
    s
}

/// The help box for `lines` lines: 42 cells wide and two taller than the
/// lines (each at most the area), centered in `area`.
pub open spec fn spec_help_area(area: Rect, lines: int) -> Rect {
    let h = if lines + 2 < area.height { lines + 2 } else { area.height as int };
    let w = if 42 < area.width { 42 } else { area.width as int };
    Rect {
        x: (area.x + (area.width - w) / 2) as u16,
        y: (area.y + (area.height - h) / 2) as u16,
        width: w as u16,
        height: h as u16,
    }
}

/// Where the help box of `lines` lines is drawn inside `area` (see
/// `spec_help_area`).
pub fn help_area(area: Rect, lines: usize) -> (r: Rect)
    requires
        area.fits(),
    ensures
        r == spec_help_area(area, lines as int),
{
    let height: u16 = if lines < area.height as usize && lines + 2 < area.height as usize {
        (lines + 2) as u16
    } else {
        area.height
    };
    let width: u16 = if 42 < area.width { 42 } else { area.width };
    let x = area.x + (area.width - width) / 2;
    let y = area.y + (area.height - height) / 2;
    Rect { x, y, width, height }
}

/// The corner of the main area where the update notice sits.
#[derive(Debug, Clone, Copy, PartialEq, Eq, Structural)]
pub enum UpdatePosition {
    TopRight,
    TopLeft,
}

/// The update notice ` ↑ v<version> · gitpane update `, in UTF-8 bytes
/// (the width the box is sized by): 25 bytes around the version.
pub open spec fn toast_text_len(version_len: int) -> int {
    25 + version_len
}

/// The box of the update notice for a version of `version_len` bytes: the
/// text plus two border cells wide, three rows tall, on the top row of
/// `area`, one cell in from the chosen side (flush left when it fills the
/// width exactly); none when it does not fit.
pub open spec fn spec_toast_rect(area: Rect, version_len: int, pos: UpdatePosition) -> Option<Rect> {
    let width = toast_text_len(version_len) + 2;
    if area.width < width || area.height < 3 {
        None
    } else {
        Some(Rect {
            x: (match pos {
                UpdatePosition::TopRight => if area.width >= width + 1 { area.x + area.width - (width + 1) } else { area.x as int },
                UpdatePosition::TopLeft => area.x + 1,
            }) as u16,
            y: area.y,
            width: width as u16,
            height: 3,
        })
    }
}

/// Where the update notice is drawn (see `spec_toast_rect`).
pub fn toast_rect(area: Rect, version_len: usize, pos: UpdatePosition) -> (r: Option<Rect>)
    requires
        area.fits(),
    ensures
        r == spec_toast_rect(area, version_len as int, pos),
{
    if version_len > 65508 || (area.width as usize) < version_len + 27 || area.height < 3 {
        return None;
    }
    let width = (version_len + 27) as u16;
    let x = match pos {
        UpdatePosition::TopRight => if area.width > width {
            area.x + area.width - (width + 1)
        } else {
            area.x
        },
        UpdatePosition::TopLeft => area.x + 1,
    };
    Some(Rect { x, y: area.y, width, height: 3 })
}

/// How long an error stays in the status bar, in milliseconds.
pub const ERROR_SHOWN_MS: u64 = 5000;

/// How long a success message stays in the status bar, in milliseconds.
pub const SUCCESS_SHOWN_MS: u64 = 3000;

/// Whether a message shown at `shown_at` has stayed `limit` milliseconds by
/// `now` (a clock that went back never expires it).
pub open spec fn expired(shown_at: u64, now: u64, limit: u64) -> bool {
    now >= shown_at && now - shown_at >= limit
}

/// Drops the error after five seconds and the success message after three;
/// whether either went (so the status bar needs a repaint).
pub fn clear_expired_messages(error: &mut Option<(String, u64)>, success: &mut Option<(String, u64)>, now: u64) -> (changed: bool)
    ensures
        *final(error) == (match *old(error) {
            Some(e) => if expired(e.1, now, ERROR_SHOWN_MS) { None } else { Some(e) },
            None => None,
        }),
        *final(success) == (match *old(success) {
            Some(s) => if expired(s.1, now, SUCCESS_SHOWN_MS) { None } else { Some(s) },
            None => None,
        }),
        changed == (old(error).is_some() != final(error).is_some() || old(success).is_some() != final(success).is_some()),
{
    let had_error = error.is_some();
    let had_success = success.is_some();
    let drop_error = match error {
        Some(e) => now >= e.1 && now - e.1 >= ERROR_SHOWN_MS,
        None => false,
    };
    if drop_error {
        *error = None;
    }
    let drop_success = match success {
        Some(s) => now >= s.1 && now - s.1 >= SUCCESS_SHOWN_MS,
        None => false,
    };
    if drop_success {
        *success = None;
    }
    had_error != error.is_some() || had_success != success.is_some()
}

} // verus!
