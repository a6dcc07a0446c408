//! The right-click context menu: which items a repository row or a changed
//! file row offers, keyboard and mouse navigation, and the command an item
//! runs.

use vstd::prelude::*;
use crate::input::{Key, Mouse, MouseKind};
use crate::layout::Rect;
use crate::text::{push_decimal, push_str, decimal};

verus! {

/// Minimum menu width in cells.
pub const MENU_WIDTH: u16 = 26;

/// What an item does when activated.
#[derive(Debug, Clone, Copy, PartialEq, Eq, Structural)]
pub enum MenuAction {
    Open,
    Review,
    /// Attach the single live session named by the item.
    GotoSession,
    /// Several live sessions: open the picker to choose.
    GotoSessionPicker,
    NewWorktree,
    RemoveWorktree,
    OpenGraph,
    Refresh,
    CopyPath,
    Push,
    Pull,
    PullRebase,
    PullSubmodules,
    SubmoduleUpdate,
    SubmoduleSync,
    SubmoduleUpdateLatest,
    OpenFile,
    RevealFile,
    CopyFilePath,
    OpenSubmoduleGraph,
    AddSubmoduleAsRepo,
    StageFile,
    UnstageFile,
    /// Discard a changed file; `true` when it is untracked (delete, not restore).
    DiscardFile(bool),
}

/// A selectable menu item. `session` names the session a `GotoSession`
/// item attaches.
#[derive(Debug)]
pub struct MenuItem {
    pub label: String,
    pub action: MenuAction,
    pub session: Option<String>,
}

/// A rendered menu row: an item or a non-selectable divider.
#[derive(Debug)]
pub enum MenuRow {
    Item(MenuItem),
    Separator,
}

/// The value of a row.
pub enum RowV {
    Item { label: Seq<char>, action: MenuAction, session: Option<Seq<char>> },
    Separator,
}

/// The value of an item.
pub open spec fn item_v(i: MenuItem) -> RowV {
    RowV::Item {
        label: i.label@,
        action: i.action,
        session: match i.session {
            Some(s) => Some(s@),
            None => None,
        },
    }
}

/// The value of a row.
pub open spec fn row_v(r: MenuRow) -> RowV {
    match r {
        MenuRow::Item(i) => item_v(i),
        MenuRow::Separator => RowV::Separator,
    }
}

/// The values of some rows.
pub open spec fn rows_v(rs: Seq<MenuRow>) -> Seq<RowV> {
    rs.map_values(|r: MenuRow| row_v(r))
}

/// An item without session.
pub open spec fn it(label: Seq<char>, action: MenuAction) -> RowV {
    RowV::Item { label, action, session: None }
}

/// Appends a group of items: nothing for an empty group, a divider first
/// when rows precede it.
pub open spec fn add_group(rows: Seq<RowV>, group: Seq<RowV>) -> Seq<RowV> {
    if group.len() == 0 {
        rows
    } else if rows.len() == 0 {
        group
    } else {
        rows.push(RowV::Separator) + group
    }
}

/// The multiplexer the app runs under.
#[derive(Debug, Clone, Copy, PartialEq, Eq, Structural)]
pub enum Multiplexer {
    Tmux,
    Herdr,
    Other,
}

/// Row context that decides which items a repository row offers.
#[derive(Debug)]
pub struct MenuContext {
    pub ahead: usize,
    pub behind: usize,
    pub has_submodules: bool,
    pub is_worktree: bool,
    /// Sessions live in the row's path.
    pub live_sessions: Vec<String>,
    /// Where the `[goto]` command opens a session (`new tab`, ...), if known.
    pub goto_placement: Option<String>,
    pub mux: Multiplexer,
}

/// Context of a changed-file row.
#[derive(Debug)]
pub struct FileMenuContext {
    pub path: String,
    /// Index side dirty: offer Unstage.
    pub staged: bool,
    /// Worktree side dirty (or conflicted): offer Stage.
    pub unstaged: bool,
    /// Untracked: Discard means delete.
    pub is_untracked: bool,
    /// Submodule row: no stage/unstage/discard.
    pub is_submodule: bool,
}

/// The mutation items of a file row.
pub open spec fn file_mutations(c: FileMenuContext) -> Seq<RowV> {
    if c.is_submodule {
        Seq::empty()
    } else {
        (if c.unstaged { seq![it("Stage"@, MenuAction::StageFile)] } else { Seq::empty() })
            + (if c.staged { seq![it("Unstage"@, MenuAction::UnstageFile)] } else { Seq::empty() })
            + (if c.staged || c.unstaged {
                seq![it(if c.is_untracked { "Delete file"@ } else { "Discard changes"@ }, MenuAction::DiscardFile(c.is_untracked))]
            } else {
                Seq::empty()
            })
    }
}

/// The inspect items of a file row.
pub open spec fn file_inspect(c: FileMenuContext) -> Seq<RowV> {
    seq![
        it("Open"@, MenuAction::OpenFile),
        it("Open folder"@, MenuAction::RevealFile),
        it("Copy path"@, MenuAction::CopyFilePath),
    ] + (if c.is_submodule {
        seq![
            it("Open in graph"@, MenuAction::OpenSubmoduleGraph),
            it("Add to repositories"@, MenuAction::AddSubmoduleAsRepo),
        ]
    } else {
        Seq::empty()
    })
}

/// The rows of a file row's menu.
pub open spec fn file_menu_rows(c: FileMenuContext) -> Seq<RowV> {
    add_group(add_group(Seq::empty(), file_mutations(c)), file_inspect(c))
}

/// What the session item calls a live session, singular and plural.
pub open spec fn live_kind(mux: Multiplexer) -> (Seq<char>, Seq<char>) {
    match mux {
        Multiplexer::Herdr => ("herdr tab"@, "herdr tabs"@),
        _ => ("tmux"@, "tmux sessions"@),
    }
}

/// The suffix that says where a session opens.
pub open spec fn where_suffix(mux: Multiplexer, placement: Option<Seq<char>>) -> Seq<char> {
    match mux {
        Multiplexer::Herdr => " (focus tab)"@,
        _ => match placement {
            Some(p) => " ("@ + p + ")"@,
            None => Seq::empty(),
        },
    }
}

/// The launch items of a repository row.
pub open spec fn repo_launch(c: MenuContext) -> Seq<RowV> {
    launch_rows(c.live_sessions@, match c.goto_placement { Some(p) => Some(p@), None => None }, c.mux)
}

/// The launch items for the live `sessions`, opening at `placement`.
pub open spec fn launch_rows(sessions: Seq<String>, placement: Option<Seq<char>>, mux: Multiplexer) -> Seq<RowV> {
    let suffix = where_suffix(mux, placement);
    let session_items = if sessions.len() == 0 {
        Seq::empty()
    } else if sessions.len() == 1 {
        seq![RowV::Item {
            label: "Open "@ + sessions[0]@ + " active "@ + live_kind(mux).0 + suffix,
            action: MenuAction::GotoSession,
            session: Some(sessions[0]@),
        }]
    } else {
        seq![it("Open active "@ + live_kind(mux).1 + "…"@ + suffix, MenuAction::GotoSessionPicker)]
    };
    seq![it("Open"@, MenuAction::Open), it("Review changes"@, MenuAction::Review)] + session_items
        + seq![it("Open git graph"@, MenuAction::OpenGraph)]
}

/// The sync items of a repository row.
pub open spec fn repo_sync(c: MenuContext) -> Seq<RowV> {
    sync_rows(c.ahead, c.behind, c.has_submodules)
}

/// The sync items for a row `ahead`/`behind` its upstream.
pub open spec fn sync_rows(ahead: usize, behind: usize, has_submodules: bool) -> Seq<RowV> {
    seq![
        it(if ahead > 0 { "Push  ↑"@ + decimal(ahead as nat) } else { "Push"@ }, MenuAction::Push),
        it(if behind > 0 { "Pull  ↓"@ + decimal(behind as nat) } else { "Pull"@ }, MenuAction::Pull),
        it("Pull --rebase"@, MenuAction::PullRebase),
    ] + (if has_submodules {
        seq![
            it("Pull --recurse-subs"@, MenuAction::PullSubmodules),
            it("Sub: update --init"@, MenuAction::SubmoduleUpdate),
            it("Sub: sync"@, MenuAction::SubmoduleSync),
            it("Sub: pull latest"@, MenuAction::SubmoduleUpdateLatest),
        ]
    } else {
        Seq::empty()
    })
}

/// The rows of a repository row's menu: launch, housekeeping, sync and
/// worktree groups.
pub open spec fn repo_menu_rows(c: MenuContext) -> Seq<RowV> {
    let housekeeping = seq![it("Refresh"@, MenuAction::Refresh), it("Copy path"@, MenuAction::CopyPath)];
    let worktree = if c.is_worktree {
        seq![it("Remove worktree"@, MenuAction::RemoveWorktree)]
    } else {
        seq![it("New worktree…"@, MenuAction::NewWorktree)]
    };
    add_group(add_group(add_group(add_group(Seq::empty(), repo_launch(c)), housekeeping), repo_sync(c)), worktree)
}

/// The index of the first item at or after `lo`, if any.
pub open spec fn first_item_from(rows: Seq<RowV>, lo: int) -> Option<usize>
    decreases rows.len() - lo,
{
    if lo < 0 || lo >= rows.len() {
        None
    } else if rows[lo] is Item {
        Some(lo as usize)
    } else {
        first_item_from(rows, lo + 1)
    }
}

/// The index of the first item of `rows`, if any.
pub open spec fn first_item(rows: Seq<RowV>) -> Option<usize> {
    first_item_from(rows, 0)
}

/// The values of some items.
pub open spec fn items_v(items: Seq<MenuItem>) -> Seq<RowV> {
    items.map_values(|i: MenuItem| item_v(i))
}

fn mk(label: &str, action: MenuAction) -> (m: MenuItem)
    ensures
        item_v(m) == it(label@, action),
{
    MenuItem { label: label.to_string(), action, session: None }
}

fn push_item(group: &mut Vec<MenuItem>, item: MenuItem)
    ensures
        items_v(final(group)@) == items_v(old(group)@).push(item_v(item)),
{
    group.push(item);
    assert(items_v(group@) =~= items_v(old(group)@).push(item_v(item)));
}

fn append_group(rows: &mut Vec<MenuRow>, group: Vec<MenuItem>)
    ensures
        rows_v(final(rows)@) == add_group(rows_v(old(rows)@), items_v(group@)),
{
    if group.len() == 0 {
        return;
    }
    let ghost r0 = rows_v(rows@);
    if rows.len() > 0 {
        rows.push(MenuRow::Separator);
    }
    let ghost r1 = rows_v(rows@);
    assert(r1 =~= if r0.len() == 0 { r0 } else { r0.push(RowV::Separator) });
    let mut items = group;
    let n = items.len();
    let ghost gv = items_v(items@);
    let mut k: usize = 0;
    while k < n
        invariant
            n == gv.len(),
            k <= n,
            items@.len() == n - k,
            forall|x: int| 0 <= x < n - k ==> item_v(#[trigger] items@[x]) == gv[k + x],
            rows_v(rows@) == r1 + gv.take(k as int),
        decreases n - k,
    {
        let item = items.remove(0);
        assert(item_v(item) == gv[k as int]);
        let ghost before = rows@;
        rows.push(MenuRow::Item(item));
        assert(rows_v(rows@) =~= rows_v(before).push(gv[k as int]));
        assert(gv.take(k + 1) =~= gv.take(k as int).push(gv[k as int]));
        assert(rows_v(rows@) =~= r1 + gv.take(k + 1));
        k = k + 1;
    }
    assert(gv.take(n as int) =~= gv);
    assert(rows_v(rows@) =~= add_group(r0, gv));
}


fn first_item_index(rows: &Vec<MenuRow>) -> (r: Option<usize>)
    ensures
        r == first_item(rows_v(rows@)),
{
    let ghost rv = rows_v(rows@);
    let mut i: usize = 0;
    while i < rows.len()
        invariant
            i <= rows@.len(),
            rv == rows_v(rows@),
            first_item_from(rv, 0) == first_item_from(rv, i as int),
        decreases rows@.len() - i,
    {
        if let MenuRow::Item(_) = &rows[i] {
            assert(rv[i as int] is Item);
            return Some(i);
        }
        i = i + 1;
    }
    None
}

fn launch_items(live_sessions: &Vec<String>, goto_placement: &Option<String>, mux: Multiplexer) -> (g: Vec<MenuItem>)
    ensures
        items_v(g@) == launch_rows(live_sessions@, match *goto_placement { Some(p) => Some(p@), None => None }, mux),
{
    let mut launch: Vec<MenuItem> = Vec::new();
    push_item(&mut launch, mk("Open", MenuAction::Open));
    push_item(&mut launch, mk("Review changes", MenuAction::Review));
    let (kind, plural) = match mux {
        Multiplexer::Herdr => ("herdr tab", "herdr tabs"),
        _ => ("tmux", "tmux sessions"),
    };
    let mut suffix = String::new();
    match mux {
        Multiplexer::Herdr => push_str(&mut suffix, " (focus tab)"),
        _ => match goto_placement {
            Some(p) => {
                push_str(&mut suffix, " (");
                push_str(&mut suffix, p.as_str());
                push_str(&mut suffix, ")");
            },
            None => {},
        },
    }
    assert(suffix@ =~= where_suffix(mux, match *goto_placement { Some(p) => Some(p@), None => None }));
    if live_sessions.len() == 1 {
        let mut label = String::new();
        push_str(&mut label, "Open ");
        push_str(&mut label, live_sessions[0].as_str());
        push_str(&mut label, " active ");
        push_str(&mut label, kind);
        push_str(&mut label, suffix.as_str());
        push_item(&mut launch, MenuItem { label, action: MenuAction::GotoSession, session: Some(live_sessions[0].clone()) });
    } else if live_sessions.len() > 1 {
        let mut label = String::new();
        push_str(&mut label, "Open active ");
        push_str(&mut label, plural);
        push_str(&mut label, "…");
        push_str(&mut label, suffix.as_str());
        push_item(&mut launch, MenuItem { label, action: MenuAction::GotoSessionPicker, session: None });
    }
    push_item(&mut launch, mk("Open git graph", MenuAction::OpenGraph));
    assert(items_v(launch@) =~= launch_rows(live_sessions@, match *goto_placement { Some(p) => Some(p@), None => None }, mux));
    launch
}

fn count_label(word: &str, n: usize) -> (l: String)
    ensures
        l@ == (if n > 0 { word@ + decimal(n as nat) } else { Seq::empty() }),
{
    let mut label = String::new();
    if n > 0 {
        push_str(&mut label, word);
        push_decimal(&mut label, n as u64);
    }
    label
}

fn sync_items(ahead: usize, behind: usize, has_submodules: bool) -> (g: Vec<MenuItem>)
    ensures
        items_v(g@) == sync_rows(ahead, behind, has_submodules),
{
    let mut sync: Vec<MenuItem> = Vec::new();
    let push_label = if ahead > 0 { count_label("Push  ↑", ahead) } else { "Push".to_string() };
    push_item(&mut sync, MenuItem { label: push_label, action: MenuAction::Push, session: None });
    let pull_label = if behind > 0 { count_label("Pull  ↓", behind) } else { "Pull".to_string() };
    push_item(&mut sync, MenuItem { label: pull_label, action: MenuAction::Pull, session: None });
    push_item(&mut sync, mk("Pull --rebase", MenuAction::PullRebase));
    if has_submodules {
        push_item(&mut sync, mk("Pull --recurse-subs", MenuAction::PullSubmodules));
        push_item(&mut sync, mk("Sub: update --init", MenuAction::SubmoduleUpdate));
        push_item(&mut sync, mk("Sub: sync", MenuAction::SubmoduleSync));
        push_item(&mut sync, mk("Sub: pull latest", MenuAction::SubmoduleUpdateLatest));
    }
    assert(items_v(sync@) =~= sync_rows(ahead, behind, has_submodules));
    sync
}

/// The first item after `cur`.
pub open spec fn next_item(rows: Seq<RowV>, cur: int) -> Option<usize> {
    first_item_from(rows, cur + 1)
}

/// The last item before `hi`.
pub open spec fn last_item_before(rows: Seq<RowV>, hi: int) -> Option<usize>
    decreases hi,
{
    if hi <= 0 {
        None
    } else if hi - 1 < rows.len() && rows[hi - 1] is Item {
        Some((hi - 1) as usize)
    } else {
        last_item_before(rows, hi - 1)
    }
}

/// The last item before `cur`.
pub open spec fn prev_item(rows: Seq<RowV>, cur: int) -> Option<usize> {
    last_item_before(rows, cur)
}

/// The longest item label, in characters.
pub open spec fn longest_label(rows: Seq<RowV>) -> nat
    decreases rows.len(),
{
    if rows.len() == 0 {
        0
    } else {
        let rest = longest_label(rows.drop_last());
        let here = match rows.last() {
            RowV::Item { label, .. } => label.len(),
            RowV::Separator => 0,
        };
        if here > rest { here } else { rest }
    }
}

/// Menu width: the longest label plus borders and padding, at least
/// `MENU_WIDTH`.
pub open spec fn spec_menu_width(rows: Seq<RowV>) -> int {
    let w = (longest_label(rows) + 4) as int;
    if w > MENU_WIDTH { w } else { MENU_WIDTH as int }
}

/// Whether every label leaves room for the padding in a `u16`.
pub open spec fn labels_fit(rows: Seq<RowV>) -> bool {
    forall|i: int| 0 <= i < rows.len() ==> match #[trigger] rows[i] {
        RowV::Item { label, .. } => label.len() + 4 <= u16::MAX,
        RowV::Separator => true,
    }
}

/// `base` joined with `rel` the way a Unix path joins: an absolute `rel`
/// replaces `base`, otherwise a separator is put between them when `base`
/// does not end with one.
pub open spec fn path_join(base: Seq<char>, rel: Seq<char>) -> Seq<char> {
    if rel.len() > 0 && rel[0] == '/' {
        rel
    } else if base.len() == 0 {
        rel
    } else if base.last() == '/' {
        base + rel
    } else {
        base + "/"@ + rel
    }
}

/// `base` joined with `rel` as a Unix path.
pub fn join_path(base: &str, rel: &str) -> (r: String)
    ensures
        r@ == path_join(base@, rel@),
{
    let nr = rel.unicode_len();
    let nb = base.unicode_len();
    if nr > 0 && rel.get_char(0) == '/' {
        return rel.to_string();
    }
    if nb == 0 {
        return rel.to_string();
    }
    let mut r = base.to_string();
    if base.get_char(nb - 1) != '/' {
        push_str(&mut r, "/");
    }
    push_str(&mut r, rel);
    r
}

/// Whether an action is bound to the right-clicked file.
pub open spec fn is_file_action(a: MenuAction) -> bool {
    match a {
        MenuAction::OpenFile | MenuAction::RevealFile | MenuAction::CopyFilePath | MenuAction::OpenSubmoduleGraph
        | MenuAction::AddSubmoduleAsRepo | MenuAction::StageFile | MenuAction::UnstageFile | MenuAction::DiscardFile(_) => true,
        _ => false,
    }
}

/// What an activated item asks the app to do: `action` on the row
/// `repo_id`, with the session name (`GotoSession`), the file path (file
/// actions) or the submodule's own path (`AddSubmoduleAsRepo`).
#[derive(Debug)]
pub struct MenuCommand {
    pub action: MenuAction,
    pub repo_id: String,
    pub arg: Option<String>,
}

/// The outcome of an event routed to the menu.
#[derive(Debug)]
pub enum MenuEvent {
    Nothing,
    /// A key outside the menu's own closed it.
    Hidden,
    Command(MenuCommand),
}

/// The view of an optional string.
pub open spec fn ov(o: Option<String>) -> Option<Seq<char>> {
    match o {
        Some(s) => Some(s@),
        None => None,
    }
}

/// The command the item at `idx` runs, `None` when there is none to run.
pub open spec fn command_at(m: ContextMenu, idx: int) -> Option<(MenuAction, Seq<char>, Option<Seq<char>>)> {
    if 0 <= idx < m.rows@.len() && m.repo_id.is_some() {
        match m.rows@[idx] {
            MenuRow::Item(item) => {
                let id = m.repo_id.unwrap()@;
                if is_file_action(item.action) {
                    match m.file_path {
                        Some(p) => Some((item.action, id, Some(
                            if item.action == MenuAction::AddSubmoduleAsRepo { path_join(id, p@) } else { p@ }))),
                        None => None,
                    }
                } else if item.action == MenuAction::GotoSession {
                    Some((item.action, id, ov(item.session)))
                } else {
                    Some((item.action, id, None))
                }
            },
            MenuRow::Separator => None,
        }
    } else {
        None
    }
}

/// The view of a command.
pub open spec fn cmd_v(c: MenuCommand) -> (MenuAction, Seq<char>, Option<Seq<char>>) {
    (c.action, c.repo_id@, ov(c.arg))
}

/// The cell rectangle the menu occupies in `area`.
pub open spec fn spec_menu_rect(m: ContextMenu, area: Rect) -> (int, int, int, int) {
    let mw = spec_menu_width(rows_v(m.rows@));
    let width = if mw < area.width { mw } else { area.width as int };
    let height = (m.rows@.len() + 2) as int;
    let max_x = if area.width >= width { area.width - width } else { 0 };
    let max_y = if area.height >= height { area.height - height } else { 0 };
    let x = if m.position.0 < max_x { m.position.0 as int } else { max_x };
    let y = if m.position.1 < max_y { m.position.1 as int } else { max_y };
    (x, y, width, height)
}

/// The row a click at `(col, row)` lands on, if inside the menu's content.
pub open spec fn spec_click_index(m: ContextMenu, col: u16, row: u16) -> Option<usize> {
    let (x, y, width, height) = spec_menu_rect(m, m.last_rendered_area);
    let right = x + if width >= 1 { width - 1 } else { 0 };
    let bottom = y + 1 + m.rows@.len();
    if col >= x + 1 && col < right && row >= y + 1 && row < bottom {
        Some((row - (y + 1)) as usize)
    } else {
        None
    }
}

fn label_width(rows: &Vec<MenuRow>) -> (w: u16)
    requires
        labels_fit(rows_v(rows@)),
    ensures
        w == spec_menu_width(rows_v(rows@)),
{
    let ghost rv = rows_v(rows@);
    let mut longest: usize = 0;
    let mut i: usize = 0;
    while i < rows.len()
        invariant
            i <= rows@.len(),
            rv == rows_v(rows@),
            labels_fit(rv),
            longest == longest_label(rv.take(i as int)),
            longest + 4 <= u16::MAX,
        decreases rows@.len() - i,
    {
        let ghost t = rv.take(i + 1);
        assert(t.drop_last() =~= rv.take(i as int));
        match &rows[i] {
            MenuRow::Item(item) => {
                let n = item.label.as_str().unicode_len();
                assert(rv[i as int] is Item);
                if n > longest {
                    longest = n;
                }
            },
            MenuRow::Separator => {},
        }
        i = i + 1;
    }
    assert(rv.take(rows@.len() as int) =~= rv);
    let w = longest as u16 + 4;
    if w > MENU_WIDTH { w } else { MENU_WIDTH }
}

/// The right-click menu.
#[derive(Debug)]
pub struct ContextMenu {
    pub visible: bool,
    /// The row the menu was opened on.
    pub repo_id: Option<String>,
    /// File mode: the right-clicked file's repo-relative path.
    pub file_path: Option<String>,
    /// `(col, row)` of the click.
    pub position: (u16, u16),
    pub rows: Vec<MenuRow>,
    pub selected: Option<usize>,
    /// The terminal area of the last draw.
    pub last_rendered_area: Rect,
}

impl ContextMenu {
    /// A hidden, empty menu.
    pub fn new() -> (m: Self)
        ensures
            !m.visible,
            m.repo_id.is_none(),
            m.file_path.is_none(),
            m.position == (0u16, 0u16),
            m.rows@.len() == 0,
            m.selected.is_none(),
            m.last_rendered_area == Rect::default_spec(),
    {
        ContextMenu {
            visible: false,
            repo_id: None,
            file_path: None,
            position: (0, 0),
            rows: Vec::new(),
            selected: None,
            last_rendered_area: Rect { x: 0, y: 0, width: 0, height: 0 },
        }
    }

    /// Hides the menu.
    pub fn dismiss(&mut self)
        ensures
            *final(self) == (ContextMenu { visible: false, ..*old(self) }),
    {
        self.visible = false;
    }

    /// Opens the menu for a changed-file row at `(col, row)`: mutations the
    /// row supports (none for a submodule), then Open / Open folder / Copy
    /// path (and the graph and repository items for a submodule), the first
    /// item highlighted.
    pub fn show_file(&mut self, repo_id: String, col: u16, row: u16, ctx: FileMenuContext)
        ensures
            final(self).visible,
            final(self).repo_id == Some(repo_id),
            final(self).file_path == Some(ctx.path),
            final(self).position == (col, row),
            rows_v(final(self).rows@) == file_menu_rows(ctx),
            final(self).selected == first_item(file_menu_rows(ctx)),
            final(self).last_rendered_area == old(self).last_rendered_area,
    {
        let ghost c = ctx;
        let FileMenuContext { path, staged, unstaged, is_untracked, is_submodule } = ctx;
        self.visible = true;
        self.repo_id = Some(repo_id);
        self.file_path = Some(path);
        self.position = (col, row);

        let mut mutate: Vec<MenuItem> = Vec::new();
        if !is_submodule {
            if unstaged {
                push_item(&mut mutate, mk("Stage", MenuAction::StageFile));
            }
            if staged {
                push_item(&mut mutate, mk("Unstage", MenuAction::UnstageFile));
            }
            if staged || unstaged {
                let label = if is_untracked { "Delete file" } else { "Discard changes" };
                push_item(&mut mutate, mk(label, MenuAction::DiscardFile(is_untracked)));
            }
        }
        assert(items_v(mutate@) =~= file_mutations(c));
        let mut inspect: Vec<MenuItem> = Vec::new();
        push_item(&mut inspect, mk("Open", MenuAction::OpenFile));
        push_item(&mut inspect, mk("Open folder", MenuAction::RevealFile));
        push_item(&mut inspect, mk("Copy path", MenuAction::CopyFilePath));
        if is_submodule {
            push_item(&mut inspect, mk("Open in graph", MenuAction::OpenSubmoduleGraph));
            push_item(&mut inspect, mk("Add to repositories", MenuAction::AddSubmoduleAsRepo));
        }
        assert(items_v(inspect@) =~= file_inspect(c));

        self.rows = Vec::new();
        assert(rows_v(self.rows@) =~= Seq::<RowV>::empty());
        append_group(&mut self.rows, mutate);
        append_group(&mut self.rows, inspect);
        self.selected = first_item_index(&self.rows);
    }

    /// Opens the menu for a repository (or worktree) row at `(col, row)`:
    /// launch, housekeeping, sync and worktree groups, the first item
    /// highlighted.
    pub fn show(&mut self, repo_id: String, col: u16, row: u16, ctx: MenuContext)
        ensures
            final(self).visible,
            final(self).repo_id == Some(repo_id),
            final(self).file_path.is_none(),
            final(self).position == (col, row),
            rows_v(final(self).rows@) == repo_menu_rows(ctx),
            final(self).selected == first_item(repo_menu_rows(ctx)),
            final(self).last_rendered_area == old(self).last_rendered_area,
    {
        let ghost c = ctx;
        let MenuContext { ahead, behind, has_submodules, is_worktree, live_sessions, goto_placement, mux } = ctx;
        self.visible = true;
        self.repo_id = Some(repo_id);
        self.file_path = None;
        self.position = (col, row);

        let launch = launch_items(&live_sessions, &goto_placement, mux);
        let mut housekeeping: Vec<MenuItem> = Vec::new();
        push_item(&mut housekeeping, mk("Refresh", MenuAction::Refresh));
        push_item(&mut housekeeping, mk("Copy path", MenuAction::CopyPath));

        let sync = sync_items(ahead, behind, has_submodules);
        let mut worktree: Vec<MenuItem> = Vec::new();
        if is_worktree {
            push_item(&mut worktree, mk("Remove worktree", MenuAction::RemoveWorktree));
        } else {
            push_item(&mut worktree, mk("New worktree…", MenuAction::NewWorktree));
        }

        self.rows = Vec::new();
        assert(rows_v(self.rows@) =~= Seq::<RowV>::empty());
        append_group(&mut self.rows, launch);
        append_group(&mut self.rows, housekeeping);
        append_group(&mut self.rows, sync);
        append_group(&mut self.rows, worktree);
        assert(rows_v(self.rows@) == repo_menu_rows(c));
        self.selected = first_item_index(&self.rows);
    }

    /// Moves the highlight to the next item, skipping dividers.
    pub fn select_next(&mut self)
        ensures
            final(self).selected == (match next_item(rows_v(old(self).rows@), match old(self).selected { Some(c) => c as int, None => 0 }) {
                Some(n) => Some(n),
                None => old(self).selected,
            }),
            final(self).rows == old(self).rows,
            final(self).visible == old(self).visible,
            final(self).repo_id == old(self).repo_id,
            final(self).file_path == old(self).file_path,
            final(self).position == old(self).position,
            final(self).last_rendered_area == old(self).last_rendered_area,
    {
        let ghost rv = rows_v(self.rows@);
        let cur = match self.selected { Some(c) => c, None => 0 };
        let n = self.rows.len();
        if cur >= n {
            return;
        }
        let mut i = cur + 1;
        while i < n
            invariant
                cur < i <= n,
                cur == (match old(self).selected { Some(c) => c, None => 0 }),
                n == self.rows@.len(),
                *self == *old(self),
                rv == rows_v(self.rows@),
                first_item_from(rv, cur + 1) == first_item_from(rv, i as int),
            decreases n - i,
        {
            if let MenuRow::Item(_) = &self.rows[i] {
                assert(rv.len() == n);
                assert(rv[i as int] is Item);
                assert(first_item_from(rv, i as int) == Some(i));
                self.selected = Some(i);
                return;
            }
            i = i + 1;
        }
    }

    /// Moves the highlight to the previous item, skipping dividers.
    pub fn select_prev(&mut self)
        ensures
            final(self).selected == (match prev_item(rows_v(old(self).rows@), match old(self).selected { Some(c) => c as int, None => 0 }) {
                Some(n) => Some(n),
                None => old(self).selected,
            }),
            final(self).rows == old(self).rows,
            final(self).visible == old(self).visible,
            final(self).repo_id == old(self).repo_id,
            final(self).file_path == old(self).file_path,
            final(self).position == old(self).position,
            final(self).last_rendered_area == old(self).last_rendered_area,
    {
        let ghost rv = rows_v(self.rows@);
        let cur = match self.selected { Some(c) => c, None => 0 };
        let mut i = cur;
        while i > 0
            invariant
                i <= cur,
                cur == (match old(self).selected { Some(c) => c, None => 0 }),
                *self == *old(self),
                rv == rows_v(self.rows@),
                last_item_before(rv, cur as int) == last_item_before(rv, i as int),
            decreases i,
        {
            if i - 1 < self.rows.len() {
                if let MenuRow::Item(_) = &self.rows[i - 1] {
                    assert(rv[i - 1] is Item);
                    assert(last_item_before(rv, i as int) == Some((i - 1) as usize));
                    self.selected = Some(i - 1);
                    return;
                }
            }
            i = i - 1;
        }
    }

    /// Width that fits the longest label, at least `MENU_WIDTH`.
    pub fn menu_width(&self) -> (w: u16)
        requires
            labels_fit(rows_v(self.rows@)),
        ensures
            w == spec_menu_width(rows_v(self.rows@)),
    {
        label_width(&self.rows)
    }

    /// The menu's rectangle in `terminal_area`: as wide as `menu_width` and
    /// as tall as its rows plus borders, moved up/left to stay inside.
    pub fn menu_rect(&self, terminal_area: Rect) -> (r: Rect)
        requires
            labels_fit(rows_v(self.rows@)),
            self.rows@.len() + 2 <= u16::MAX,
        ensures
            (r.x as int, r.y as int, r.width as int, r.height as int) == spec_menu_rect(*self, terminal_area),
    {
        let mw = self.menu_width();
        let width = if mw < terminal_area.width { mw } else { terminal_area.width };
        let height = self.rows.len() as u16 + 2;
        let max_x = terminal_area.width.saturating_sub(width);
        let max_y = terminal_area.height.saturating_sub(height);
        let x = if self.position.0 < max_x { self.position.0 } else { max_x };
        let y = if self.position.1 < max_y { self.position.1 } else { max_y };
        Rect { x, y, width, height }
    }

    /// The row under a click, if it lands inside the menu's content.
    pub fn click_item_index(&self, col: u16, row: u16) -> (r: Option<usize>)
        requires
            labels_fit(rows_v(self.rows@)),
            self.rows@.len() + 2 <= u16::MAX,
        ensures
            r == spec_click_index(*self, col, row),
    {
        let rect = self.menu_rect(self.last_rendered_area);
        let content_x: u32 = rect.x as u32 + 1;
        let content_y: u32 = rect.y as u32 + 1;
        let content_right: u32 = rect.x as u32 + if rect.width >= 1 { rect.width as u32 - 1 } else { 0 };
        let content_bottom: u32 = content_y + self.rows.len() as u32;
        if col as u32 >= content_x && (col as u32) < content_right && row as u32 >= content_y
            && (row as u32) < content_bottom
        {
            Some((row as u32 - content_y) as usize)
        } else {
            None
        }
    }

    /// Runs the highlighted item: hides the menu and returns its command.
    /// Nothing happens when no item is highlighted, the menu has no row
    /// id, or a file item lacks its file.
    pub fn activate_selected(&mut self) -> (r: Option<MenuCommand>)
        ensures
            match old(self).selected {
                Some(idx) => match command_at(*old(self), idx as int) {
                    Some(c) => r is Some && cmd_v(r->0) == c && *final(self) == (ContextMenu { visible: false, ..*old(self) }),
                    None => r is None && *final(self) == *old(self),
                },
                None => r is None && *final(self) == *old(self),
            },
    {
        let idx = match self.selected {
            Some(i) => i,
            None => return None,
        };
        if idx >= self.rows.len() {
            return None;
        }
        let id = match &self.repo_id {
            Some(id) => id.clone(),
            None => return None,
        };
        let (action, session) = match &self.rows[idx] {
            MenuRow::Item(item) => (item.action, match &item.session { Some(s) => Some(s.clone()), None => None }),
            MenuRow::Separator => return None,
        };
        let arg = match action {
            MenuAction::OpenFile | MenuAction::RevealFile | MenuAction::CopyFilePath | MenuAction::OpenSubmoduleGraph
            | MenuAction::StageFile | MenuAction::UnstageFile | MenuAction::DiscardFile(_) => match &self.file_path {
                Some(p) => Some(p.clone()),
                None => return None,
            },
            MenuAction::AddSubmoduleAsRepo => match &self.file_path {
                Some(p) => Some(join_path(id.as_str(), p.as_str())),
                None => return None,
            },
            MenuAction::GotoSession => session,
            _ => None,
        };
        self.visible = false;
        Some(MenuCommand { action, repo_id: id, arg })
    }

    /// Routes a key: Esc closes, `j`/`k`/arrows move, Enter runs the item,
    /// any other key closes the menu and says so.
    pub fn handle_key_event(&mut self, key: Key) -> (e: MenuEvent)
        ensures
            !old(self).visible ==> e is Nothing && *final(self) == *old(self),
            old(self).visible ==> match key {
                Key::Esc => e is Nothing && *final(self) == (ContextMenu { visible: false, ..*old(self) }),
                Key::Char('j') | Key::Down => e is Nothing && final(self).selected == (match next_item(rows_v(old(self).rows@), match old(self).selected { Some(c) => c as int, None => 0 }) {
                    Some(n) => Some(n),
                    None => old(self).selected,
                }) && final(self).visible,
                Key::Char('k') | Key::Up => e is Nothing && final(self).selected == (match prev_item(rows_v(old(self).rows@), match old(self).selected { Some(c) => c as int, None => 0 }) {
                    Some(n) => Some(n),
                    None => old(self).selected,
                }) && final(self).visible,
                Key::Enter => match old(self).selected {
                    Some(idx) => match command_at(*old(self), idx as int) {
                        Some(c) => e is Command && cmd_v(e->Command_0) == c && !final(self).visible,
                        None => e is Nothing && *final(self) == *old(self),
                    },
                    None => e is Nothing && *final(self) == *old(self),
                },
                _ => e is Hidden && *final(self) == (ContextMenu { visible: false, ..*old(self) }),
            },
    {
        if !self.visible {
            return MenuEvent::Nothing;
        }
        match key {
            Key::Esc => {
                self.visible = false;
                MenuEvent::Nothing
            },
            Key::Char('j') | Key::Down => {
                self.select_next();
                MenuEvent::Nothing
            },
            Key::Char('k') | Key::Up => {
                self.select_prev();
                MenuEvent::Nothing
            },
            Key::Enter => match self.activate_selected() {
                Some(c) => MenuEvent::Command(c),
                None => MenuEvent::Nothing,
            },
            _ => {
                self.visible = false;
                MenuEvent::Hidden
            },
        }
    }

    /// Routes a mouse event: a left click on an item runs it, on a divider
    /// does nothing, outside the menu closes it; any other button closes it.
    pub fn handle_mouse_event(&mut self, mouse: Mouse) -> (e: MenuEvent)
        requires
            labels_fit(rows_v(old(self).rows@)),
            old(self).rows@.len() + 2 <= u16::MAX,
        ensures
            !old(self).visible ==> e is Nothing && *final(self) == *old(self),
            old(self).visible ==> match mouse.kind {
                MouseKind::LeftDown => match spec_click_index(*old(self), mouse.column, mouse.row) {
                    Some(idx) => if idx < old(self).rows@.len() && old(self).rows@[idx as int] is Item {
                        match command_at(*old(self), idx as int) {
                            Some(c) => e is Command && cmd_v(e->Command_0) == c && !final(self).visible
                                && final(self).selected == Some(idx),
                            None => e is Nothing && *final(self) == (ContextMenu { selected: Some(idx), ..*old(self) }),
                        }
                    } else {
                        e is Nothing && *final(self) == *old(self)
                    },
                    None => e is Nothing && *final(self) == (ContextMenu { visible: false, ..*old(self) }),
                },
                MouseKind::RightDown | MouseKind::OtherDown => e is Nothing
                    && *final(self) == (ContextMenu { visible: false, ..*old(self) }),
                _ => e is Nothing && *final(self) == *old(self),
            },
    {
        if !self.visible {
            return MenuEvent::Nothing;
        }
        match mouse.kind {
            MouseKind::LeftDown => {
                match self.click_item_index(mouse.column, mouse.row) {
                    Some(idx) => {
                        if idx < self.rows.len() {
                            if let MenuRow::Item(_) = &self.rows[idx] {
                                self.selected = Some(idx);
                                return match self.activate_selected() {
                                    Some(c) => MenuEvent::Command(c),
                                    None => MenuEvent::Nothing,
                                };
                            }
                        }
                        MenuEvent::Nothing
                    },
                    None => {
                        self.visible = false;
                        MenuEvent::Nothing
                    },
                }
            },
            MouseKind::RightDown | MouseKind::OtherDown => {
                self.visible = false;
                MenuEvent::Nothing
            },
            _ => MenuEvent::Nothing,
        }
    }
}


/// A submodule row never offers staging, unstaging or discarding: only the
/// inspect items.
pub proof fn law_submodule_rows_offer_no_mutations(c: FileMenuContext)
    requires
        c.is_submodule,
    ensures
        file_menu_rows(c) == file_inspect(c),
        forall|i: int| 0 <= i < file_menu_rows(c).len() ==> !(#[trigger] file_menu_rows(c)[i] matches RowV::Item { action, .. }
            && (action == MenuAction::StageFile || action == MenuAction::UnstageFile || action is DiscardFile)),
{
    assert(file_mutations(c).len() == 0);
    assert(add_group(Seq::empty(), file_mutations(c)) == Seq::<RowV>::empty());
    assert(file_inspect(c).len() > 0);
}


/// Running a file item hands over the right path. "Add to repositories" on
/// a submodule row adds the submodule's own directory: the repository path
/// joined with the row's repo-relative path (for a relative row path and a
/// repository path without a trailing `/`, exactly `<repo>/<path>`). Every
/// other file item carries the row's path as it is. The command always names
/// the menu's repository and the item's action.
pub proof fn law_file_commands_carry_the_right_path(m: ContextMenu, idx: int)
    requires
        0 <= idx < m.rows@.len(),
        m.rows@[idx] matches MenuRow::Item(item) && is_file_action(item.action),
        m.repo_id is Some,
        m.file_path is Some,
    ensures
        ({
            let item = m.rows@[idx]->Item_0;
            let id = m.repo_id->0@;
            let p = m.file_path->0@;
            let c = command_at(m, idx);
            let t = c->0;
            &&& c is Some
            &&& t.0 == item.action
            &&& t.1 == id
            &&& item.action == MenuAction::AddSubmoduleAsRepo ==> t.2 == Some(path_join(id, p))
            &&& item.action == MenuAction::AddSubmoduleAsRepo && id.len() > 0 && id.last() != '/'
                && (p.len() == 0 || p[0] != '/') ==> t.2 == Some(id + "/"@ + p)
            &&& item.action != MenuAction::AddSubmoduleAsRepo ==> t.2 == Some(p)
        }),
{
}


/// Whether some item of `rows` runs `a`.
pub open spec fn offers(rows: Seq<RowV>, a: MenuAction) -> bool {
    exists|i: int| 0 <= i < rows.len() && (#[trigger] rows[i] matches RowV::Item { action, .. } && action == a)
}

proof fn lemma_offers_concat(x: Seq<RowV>, y: Seq<RowV>, a: MenuAction)
    ensures
        offers(x + y, a) == (offers(x, a) || offers(y, a)),
{
    let z = x + y;
    if offers(z, a) {
        let i = choose|i: int| 0 <= i < z.len() && (#[trigger] z[i] matches RowV::Item { action, .. } && action == a);
        if i < x.len() {
            assert(z[i] == x[i]);
        } else {
            assert(z[i] == y[i - x.len()]);
        }
    }
    if offers(x, a) {
        let i = choose|i: int| 0 <= i < x.len() && (#[trigger] x[i] matches RowV::Item { action, .. } && action == a);
        assert(z[i] == x[i]);
    }
    if offers(y, a) {
        let i = choose|i: int| 0 <= i < y.len() && (#[trigger] y[i] matches RowV::Item { action, .. } && action == a);
        assert(z[i + x.len()] == y[i]);
    }
}

proof fn lemma_offers_one(r: RowV, a: MenuAction)
    ensures
        offers(seq![r], a) == (r matches RowV::Item { action, .. } && action == a),
{
    if r matches RowV::Item { action, .. } && action == a {
        assert(seq![r][0] == r);
    }
}

proof fn lemma_offers_group(rows: Seq<RowV>, group: Seq<RowV>, a: MenuAction)
    ensures
        offers(add_group(rows, group), a) == (offers(rows, a) || offers(group, a)),
{
    if group.len() > 0 && rows.len() > 0 {
        lemma_offers_concat(rows.push(RowV::Separator), group, a);
        assert(rows.push(RowV::Separator) =~= rows + seq![RowV::Separator]);
        lemma_offers_concat(rows, seq![RowV::Separator], a);
        lemma_offers_one(RowV::Separator, a);
    } else if group.len() == 0 {
        assert(!offers(group, a));
    } else {
        assert(!offers(rows, a));
    }
}

/// What a changed-file row's menu offers: a submodule row offers no
/// staging, unstaging or discarding, but offers to open it in the graph
/// and to add it to the repositories; any other row offers Stage exactly
/// when its worktree side changed, Unstage exactly when its index side did,
/// and Discard (a delete for an untracked file) when either did, and never
/// the submodule items. Open, Open folder and Copy path are always there.
pub proof fn law_file_menu_offers(c: FileMenuContext)
    ensures
        offers(file_menu_rows(c), MenuAction::StageFile) == (!c.is_submodule && c.unstaged),
        offers(file_menu_rows(c), MenuAction::UnstageFile) == (!c.is_submodule && c.staged),
        offers(file_menu_rows(c), MenuAction::DiscardFile(c.is_untracked)) == (!c.is_submodule && (c.staged || c.unstaged)),
        !offers(file_menu_rows(c), MenuAction::DiscardFile(!c.is_untracked)),
        offers(file_menu_rows(c), MenuAction::AddSubmoduleAsRepo) == c.is_submodule,
        offers(file_menu_rows(c), MenuAction::OpenSubmoduleGraph) == c.is_submodule,
        offers(file_menu_rows(c), MenuAction::OpenFile),
        offers(file_menu_rows(c), MenuAction::RevealFile),
        offers(file_menu_rows(c), MenuAction::CopyFilePath),
{
    let e = Seq::<RowV>::empty();
    let m = file_mutations(c);
    let n = file_inspect(c);
    let stage = if c.unstaged { seq![it("Stage"@, MenuAction::StageFile)] } else { e };
    let unstage = if c.staged { seq![it("Unstage"@, MenuAction::UnstageFile)] } else { e };
    let discard = if c.staged || c.unstaged {
        seq![it(if c.is_untracked { "Delete file"@ } else { "Discard changes"@ }, MenuAction::DiscardFile(c.is_untracked))]
    } else {
        e
    };
    let base = seq![
        it("Open"@, MenuAction::OpenFile),
        it("Open folder"@, MenuAction::RevealFile),
        it("Copy path"@, MenuAction::CopyFilePath),
    ];
    let subs = if c.is_submodule {
        seq![
            it("Open in graph"@, MenuAction::OpenSubmoduleGraph),
            it("Add to repositories"@, MenuAction::AddSubmoduleAsRepo),
        ]
    } else {
        e
    };
    assert(base =~= seq![it("Open"@, MenuAction::OpenFile)] + seq![it("Open folder"@, MenuAction::RevealFile)]
        + seq![it("Copy path"@, MenuAction::CopyFilePath)]);
    assert(seq![it("Open in graph"@, MenuAction::OpenSubmoduleGraph), it("Add to repositories"@, MenuAction::AddSubmoduleAsRepo)]
        =~= seq![it("Open in graph"@, MenuAction::OpenSubmoduleGraph)] + seq![it("Add to repositories"@, MenuAction::AddSubmoduleAsRepo)]);
    let acts = seq![
        MenuAction::StageFile, MenuAction::UnstageFile, MenuAction::DiscardFile(c.is_untracked),
        MenuAction::DiscardFile(!c.is_untracked), MenuAction::AddSubmoduleAsRepo, MenuAction::OpenSubmoduleGraph,
        MenuAction::OpenFile, MenuAction::RevealFile, MenuAction::CopyFilePath,
    ];
    assert forall|k: int| 0 <= k < acts.len() implies {
        let a = #[trigger] acts[k];
        &&& offers(file_menu_rows(c), a) == (offers(m, a) || offers(n, a))
        &&& offers(n, a) == (offers(base, a) || offers(subs, a))
        &&& offers(m, a) == (!c.is_submodule && (offers(stage, a) || offers(unstage, a) || offers(discard, a)))
        &&& offers(base, a) == (a == MenuAction::OpenFile || a == MenuAction::RevealFile || a == MenuAction::CopyFilePath)
        &&& offers(subs, a) == (c.is_submodule && (a == MenuAction::OpenSubmoduleGraph || a == MenuAction::AddSubmoduleAsRepo))
        &&& offers(stage, a) == (c.unstaged && a == MenuAction::StageFile)
        &&& offers(unstage, a) == (c.staged && a == MenuAction::UnstageFile)
        &&& offers(discard, a) == ((c.staged || c.unstaged) && a == MenuAction::DiscardFile(c.is_untracked))
    } by {
        let a = acts[k];
        lemma_offers_group(e, m, a);
        lemma_offers_group(add_group(e, m), n, a);
        assert(!offers(e, a));
        assert(n == base + subs);
        lemma_offers_concat(base, subs, a);
        lemma_offers_concat(seq![it("Open"@, MenuAction::OpenFile)] + seq![it("Open folder"@, MenuAction::RevealFile)], seq![it("Copy path"@, MenuAction::CopyFilePath)], a);
        lemma_offers_concat(seq![it("Open"@, MenuAction::OpenFile)], seq![it("Open folder"@, MenuAction::RevealFile)], a);
        lemma_offers_one(it("Open"@, MenuAction::OpenFile), a);
        lemma_offers_one(it("Open folder"@, MenuAction::RevealFile), a);
        lemma_offers_one(it("Copy path"@, MenuAction::CopyFilePath), a);
        if c.is_submodule {
            lemma_offers_concat(seq![it("Open in graph"@, MenuAction::OpenSubmoduleGraph)], seq![it("Add to repositories"@, MenuAction::AddSubmoduleAsRepo)], a);
            lemma_offers_one(it("Open in graph"@, MenuAction::OpenSubmoduleGraph), a);
            lemma_offers_one(it("Add to repositories"@, MenuAction::AddSubmoduleAsRepo), a);
            assert(m == e);
        } else {
            assert(!offers(subs, a));
            assert(m == stage + unstage + discard);
            lemma_offers_concat(stage + unstage, discard, a);
            lemma_offers_concat(stage, unstage, a);
        }
        if c.unstaged {
            lemma_offers_one(it("Stage"@, MenuAction::StageFile), a);
        } else {
            assert(!offers(stage, a));
        }
        if c.staged {
            lemma_offers_one(it("Unstage"@, MenuAction::UnstageFile), a);
        } else {
            assert(!offers(unstage, a));
        }
        if c.staged || c.unstaged {
            lemma_offers_one(it(if c.is_untracked { "Delete file"@ } else { "Discard changes"@ }, MenuAction::DiscardFile(c.is_untracked)), a);
        } else {
            assert(!offers(discard, a));
        }
    }
    assert(acts[0] == MenuAction::StageFile);
    assert(acts[1] == MenuAction::UnstageFile);
    assert(acts[2] == MenuAction::DiscardFile(c.is_untracked));
    assert(acts[3] == MenuAction::DiscardFile(!c.is_untracked));
    assert(acts[4] == MenuAction::AddSubmoduleAsRepo);
    assert(acts[5] == MenuAction::OpenSubmoduleGraph);
    assert(acts[6] == MenuAction::OpenFile);
    assert(acts[7] == MenuAction::RevealFile);
    assert(acts[8] == MenuAction::CopyFilePath);
}


proof fn lemma_offers_three(a: RowV, b: RowV, c: RowV, x: MenuAction)
    ensures
        offers(seq![a, b, c], x) == (offers(seq![a], x) || offers(seq![b], x) || offers(seq![c], x)),
{
    assert(seq![a, b, c] =~= seq![a] + seq![b] + seq![c]);
    lemma_offers_concat(seq![a] + seq![b], seq![c], x);
    lemma_offers_concat(seq![a], seq![b], x);
}

proof fn lemma_offers_two(a: RowV, b: RowV, x: MenuAction)
    ensures
        offers(seq![a, b], x) == (offers(seq![a], x) || offers(seq![b], x)),
{
    assert(seq![a, b] =~= seq![a] + seq![b]);
    lemma_offers_concat(seq![a], seq![b], x);
}

/// What a repository row's menu offers: Open, Review changes and Open git
/// graph, Refresh and Copy path, Push, Pull and Pull --rebase always; the
/// four submodule commands exactly when the repository has submodules;
/// going to the one live session when there is exactly one, the session
/// picker when there are several; Remove worktree on a worktree row and
/// New worktree on any other.
pub proof fn law_repo_menu_offers(c: MenuContext, a: MenuAction)
    ensures
        (a == MenuAction::Open || a == MenuAction::Review || a == MenuAction::OpenGraph || a == MenuAction::Refresh
            || a == MenuAction::CopyPath || a == MenuAction::Push || a == MenuAction::Pull || a == MenuAction::PullRebase)
            ==> offers(repo_menu_rows(c), a),
        (a == MenuAction::PullSubmodules || a == MenuAction::SubmoduleUpdate || a == MenuAction::SubmoduleSync
            || a == MenuAction::SubmoduleUpdateLatest) ==> offers(repo_menu_rows(c), a) == c.has_submodules,
        a == MenuAction::GotoSession ==> offers(repo_menu_rows(c), a) == (c.live_sessions@.len() == 1),
        a == MenuAction::GotoSessionPicker ==> offers(repo_menu_rows(c), a) == (c.live_sessions@.len() > 1),
        a == MenuAction::RemoveWorktree ==> offers(repo_menu_rows(c), a) == c.is_worktree,
        a == MenuAction::NewWorktree ==> offers(repo_menu_rows(c), a) == !c.is_worktree,
{
    let e = Seq::<RowV>::empty();
    let launch = repo_launch(c);
    let house = seq![it("Refresh"@, MenuAction::Refresh), it("Copy path"@, MenuAction::CopyPath)];
    let sync = repo_sync(c);
    let wt = if c.is_worktree {
        seq![it("Remove worktree"@, MenuAction::RemoveWorktree)]
    } else {
        seq![it("New worktree…"@, MenuAction::NewWorktree)]
    };
    let g1 = add_group(e, launch);
    let g2 = add_group(g1, house);
    let g3 = add_group(g2, sync);
    lemma_offers_group(e, launch, a);
    lemma_offers_group(g1, house, a);
    lemma_offers_group(g2, sync, a);
    lemma_offers_group(g3, wt, a);
    assert(!offers(e, a));
    // The launch group.
    let sessions = c.live_sessions@;
    let placement = match c.goto_placement { Some(p) => Some(p@), None => None };
    let suffix = where_suffix(c.mux, placement);
    let session_items = if sessions.len() == 0 {
        Seq::<RowV>::empty()
    } else if sessions.len() == 1 {
        seq![RowV::Item {
            label: "Open "@ + sessions[0]@ + " active "@ + live_kind(c.mux).0 + suffix,
            action: MenuAction::GotoSession,
            session: Some(sessions[0]@),
        }]
    } else {
        seq![it("Open active "@ + live_kind(c.mux).1 + "…"@ + suffix, MenuAction::GotoSessionPicker)]
    };
    let head = seq![it("Open"@, MenuAction::Open), it("Review changes"@, MenuAction::Review)];
    let tail = seq![it("Open git graph"@, MenuAction::OpenGraph)];
    assert(launch == head + session_items + tail);
    lemma_offers_concat(head + session_items, tail, a);
    lemma_offers_concat(head, session_items, a);
    lemma_offers_two(it("Open"@, MenuAction::Open), it("Review changes"@, MenuAction::Review), a);
    lemma_offers_one(it("Open"@, MenuAction::Open), a);
    lemma_offers_one(it("Review changes"@, MenuAction::Review), a);
    lemma_offers_one(it("Open git graph"@, MenuAction::OpenGraph), a);
    if sessions.len() == 0 {
        assert(!offers(session_items, a));
    } else if sessions.len() == 1 {
        lemma_offers_one(session_items[0], a);
        assert(session_items =~= seq![session_items[0]]);
    } else {
        lemma_offers_one(it("Open active "@ + live_kind(c.mux).1 + "…"@ + suffix, MenuAction::GotoSessionPicker), a);
    }
    // Housekeeping.
    lemma_offers_two(it("Refresh"@, MenuAction::Refresh), it("Copy path"@, MenuAction::CopyPath), a);
    lemma_offers_one(it("Refresh"@, MenuAction::Refresh), a);
    lemma_offers_one(it("Copy path"@, MenuAction::CopyPath), a);
    // Sync.
    let push = it(if c.ahead > 0 { "Push  ↑"@ + decimal(c.ahead as nat) } else { "Push"@ }, MenuAction::Push);
    let pull = it(if c.behind > 0 { "Pull  ↓"@ + decimal(c.behind as nat) } else { "Pull"@ }, MenuAction::Pull);
    let rebase = it("Pull --rebase"@, MenuAction::PullRebase);
    let subs = if c.has_submodules {
        seq![
            it("Pull --recurse-subs"@, MenuAction::PullSubmodules),
            it("Sub: update --init"@, MenuAction::SubmoduleUpdate),
            it("Sub: sync"@, MenuAction::SubmoduleSync),
            it("Sub: pull latest"@, MenuAction::SubmoduleUpdateLatest),
        ]
    } else {
        Seq::<RowV>::empty()
    };
    assert(sync == seq![push, pull, rebase] + subs);
    lemma_offers_concat(seq![push, pull, rebase], subs, a);
    lemma_offers_three(push, pull, rebase, a);
    lemma_offers_one(push, a);
    lemma_offers_one(pull, a);
    lemma_offers_one(rebase, a);
    if c.has_submodules {
        let s1 = it("Pull --recurse-subs"@, MenuAction::PullSubmodules);
        let s2 = it("Sub: update --init"@, MenuAction::SubmoduleUpdate);
        let s3 = it("Sub: sync"@, MenuAction::SubmoduleSync);
        let s4 = it("Sub: pull latest"@, MenuAction::SubmoduleUpdateLatest);
        assert(subs =~= seq![s1, s2] + seq![s3, s4]);
        lemma_offers_concat(seq![s1, s2], seq![s3, s4], a);
        lemma_offers_two(s1, s2, a);
        lemma_offers_two(s3, s4, a);
        lemma_offers_one(s1, a);
        lemma_offers_one(s2, a);
        lemma_offers_one(s3, a);
        lemma_offers_one(s4, a);
    } else {
        assert(!offers(subs, a));
    }
    // Worktree.
    if c.is_worktree {
        lemma_offers_one(it("Remove worktree"@, MenuAction::RemoveWorktree), a);
    } else {
        lemma_offers_one(it("New worktree…"@, MenuAction::NewWorktree), a);
    }
}

} // verus!
