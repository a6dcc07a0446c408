use gitpanes::input::{Key, Mouse, MouseKind};
use gitpanes::layout::Rect;
use gitpanes::file_list::FileList;
use gitpanes::graph_view::GitGraph;
use gitpanes::scroll::max_scroll_lines;
use gitpanes::routing::{route_key, FocusPanel, KeyContext, KeyRoute, MouseRoute, PanelLayout};

fn ctx(focus: FocusPanel) -> KeyContext {
    KeyContext {
        focus,
        confirm_visible: false,
        path_input_visible: false,
        theme_picker_visible: false,
        picker_visible: false,
        graph_search_visible: false,
        context_menu_visible: false,
        show_help: false,
        file_diff_open: false,
        graph_detail_open: false,
        github_detail_open: false,
        github_visible: false,
        worktree_selected: false,
        repo_selected: false,
        keybinding: None,
    }
}

fn key(c: &KeyContext, k: Key) -> KeyRoute {
    route_key(c, k, false, false)
}

#[test]
fn esc_walks_the_focus_back_and_quits_from_the_repo_list() {
    assert_eq!(key(&ctx(FocusPanel::GitHub), Key::Esc), KeyRoute::Focus(FocusPanel::Graph));
    assert_eq!(key(&ctx(FocusPanel::Graph), Key::Esc), KeyRoute::LeaveGraph);
    assert_eq!(key(&ctx(FocusPanel::Changes), Key::Esc), KeyRoute::Focus(FocusPanel::Repos));
    assert_eq!(key(&ctx(FocusPanel::Repos), Key::Esc), KeyRoute::Quit);
}

#[test]
fn esc_and_q_close_an_open_diff_before_anything_else() {
    let mut c = ctx(FocusPanel::Changes);
    c.file_diff_open = true;
    assert_eq!(key(&c, Key::Esc), KeyRoute::Panel(FocusPanel::Changes));
    assert_eq!(key(&c, Key::Char('q')), KeyRoute::Panel(FocusPanel::Changes));
    let mut g = ctx(FocusPanel::Graph);
    g.graph_detail_open = true;
    assert_eq!(key(&g, Key::Esc), KeyRoute::Panel(FocusPanel::Graph));
    assert_eq!(key(&g, Key::Char('q')), KeyRoute::Quit);
}

#[test]
fn tab_skips_the_hidden_github_panel() {
    let mut c = ctx(FocusPanel::Graph);
    assert_eq!(key(&c, Key::Tab), KeyRoute::Focus(FocusPanel::Repos));
    c.github_visible = true;
    assert_eq!(key(&c, Key::Tab), KeyRoute::Focus(FocusPanel::GitHub));
    let r = ctx(FocusPanel::Repos);
    assert_eq!(key(&r, Key::BackTab), KeyRoute::Focus(FocusPanel::Graph));
}

#[test]
fn overlays_take_every_key_but_ctrl_c() {
    let mut c = ctx(FocusPanel::Changes);
    c.confirm_visible = true;
    c.context_menu_visible = true;
    assert_eq!(key(&c, Key::Char('x')), KeyRoute::Confirm);
    assert_eq!(route_key(&c, Key::Char('c'), true, false), KeyRoute::Quit);
    c.confirm_visible = false;
    assert_eq!(key(&c, Key::Down), KeyRoute::ContextMenu);
    let mut g = ctx(FocusPanel::Graph);
    g.graph_search_visible = true;
    assert_eq!(key(&g, Key::Char('q')), KeyRoute::GraphSearch);
}

#[test]
fn help_toggles_and_any_other_key_dismisses_it() {
    let mut c = ctx(FocusPanel::Repos);
    assert_eq!(key(&c, Key::Char('?')), KeyRoute::ToggleHelp);
    c.show_help = true;
    assert_eq!(key(&c, Key::Char('?')), KeyRoute::ToggleHelp);
    assert_eq!(key(&c, Key::Char('r')), KeyRoute::DismissHelp);
}

#[test]
fn global_letters_and_keybindings() {
    let mut c = ctx(FocusPanel::Repos);
    assert_eq!(key(&c, Key::Char('r')), KeyRoute::RefreshAll);
    assert_eq!(key(&c, Key::Char('s')), KeyRoute::CycleSortOrder);
    assert_eq!(key(&c, Key::Char('d')), KeyRoute::Nothing);
    c.repo_selected = true;
    assert_eq!(key(&c, Key::Char('d')), KeyRoute::ConfirmRemoveRepo);
    c.worktree_selected = true;
    assert_eq!(key(&c, Key::Char('d')), KeyRoute::RemoveWorktree);
    c.keybinding = Some(2);
    assert_eq!(key(&c, Key::Char('z')), KeyRoute::RunKeybinding(2));
    assert_eq!(route_key(&c, Key::Char('z'), true, false), KeyRoute::Panel(FocusPanel::Repos));
    assert_eq!(key(&c, Key::Down), KeyRoute::Panel(FocusPanel::Repos));
}

fn layout() -> PanelLayout {
    PanelLayout {
        repo_area: Rect::new(0, 0, 30, 20),
        changes_area: Rect::new(30, 0, 30, 20),
        graph_area: Rect::new(60, 0, 40, 20),
        github_area: Rect::new(100, 0, 20, 20),
        horizontal_layout: true,
        github_visible: false,
        dragging_border: None,
        focus: FocusPanel::Repos,
    }
}

fn mouse(kind: MouseKind, column: u16, row: u16) -> Mouse {
    Mouse { kind, column, row }
}

#[test]
fn a_press_focuses_the_panel_under_it() {
    let mut l = layout();
    assert_eq!(l.route_mouse(mouse(MouseKind::LeftDown, 45, 5), false, false, false), MouseRoute::Panel(FocusPanel::Changes));
    assert_eq!(l.focus, FocusPanel::Changes);
    assert_eq!(l.dragging_border, None);
    assert_eq!(l.route_mouse(mouse(MouseKind::ScrollDown, 70, 5), false, false, false), MouseRoute::Panel(FocusPanel::Graph));
    assert_eq!(l.focus, FocusPanel::Changes);
}

#[test]
fn a_press_on_a_seam_grabs_the_nearest_border_until_release() {
    let mut l = layout();
    l.route_mouse(mouse(MouseKind::LeftDown, 60, 5), false, false, false);
    assert_eq!(l.dragging_border, Some(1));
    assert_eq!(l.route_mouse(mouse(MouseKind::LeftDrag, 64, 5), false, false, false), MouseRoute::DragBorder(1));
    assert_eq!(l.route_mouse(mouse(MouseKind::LeftUp, 64, 5), false, false, false), MouseRoute::Nothing);
    assert_eq!(l.dragging_border, None);
}

#[test]
fn overlays_swallow_or_take_the_mouse() {
    let mut l = layout();
    assert_eq!(l.route_mouse(mouse(MouseKind::LeftDown, 45, 5), true, true, false), MouseRoute::Swallow);
    assert_eq!(l.route_mouse(mouse(MouseKind::LeftDown, 45, 5), false, true, false), MouseRoute::ContextMenu);
    assert_eq!(l.focus, FocusPanel::Repos);
}

#[test]
fn the_hidden_github_panel_receives_nothing() {
    let mut l = layout();
    assert_eq!(l.route_mouse(mouse(MouseKind::LeftDown, 110, 5), false, false, false), MouseRoute::Nothing);
    l.github_visible = true;
    assert_eq!(l.route_mouse(mouse(MouseKind::LeftDown, 110, 5), false, false, false), MouseRoute::Panel(FocusPanel::GitHub));
    assert_eq!(l.focus, FocusPanel::GitHub);
}

#[test]
fn leaving_graph_with_escape_rejects_pending_commit_details() {
    let mut focus = FocusPanel::Graph;
    let mut graph = GitGraph::new();
    let generation = graph.current_detail_generation();
    match route_key(&ctx(focus), Key::Esc, false, false) {
        KeyRoute::LeaveGraph => {
            graph.close_detail();
            focus = FocusPanel::Changes;
        }
        other => panic!("Esc from the graph must leave it, got {other:?}"),
    }
    let _ = graph.commit_files_loaded(
        generation,
        "abc1234".into(),
        "late commit".into(),
        vec![("M".into(), "late.txt".into())],
    );
    assert!(!graph.has_detail());
    assert_eq!(focus, FocusPanel::Changes);
}

#[test]
fn a_scroll_indicator_press_outranks_the_panel_seam_next_to_it() {
    // The changes panel's diff pane ends two cells left of the changes|graph
    // seam, inside the seam's ±2-cell grab zone.
    let mut l = PanelLayout {
        repo_area: Rect::new(0, 0, 40, 39),
        changes_area: Rect::new(40, 0, 50, 39),
        graph_area: Rect::new(90, 0, 70, 39),
        github_area: Rect::new(0, 0, 0, 0),
        horizontal_layout: true,
        github_visible: false,
        dragging_border: None,
        focus: FocusPanel::Repos,
    };
    let mut files = FileList::new();
    let diff = (0..60).map(|i| format!("+line {i}")).collect::<Vec<_>>().join("\n");
    files.set_diff(diff.clone());
    files.file_list_area = Rect::new(40, 0, 0, 0);
    files.diff_area = l.changes_area;
    let max = max_scroll_lines(&diff, files.diff_area.height, files.diff_area.width);

    let seam = l.changes_area.x + l.changes_area.width;
    let column = seam - 2;
    let bottom = l.changes_area.y + l.changes_area.height - 2;
    let on = files.is_on_scroll_indicator(column, bottom);
    assert!(on, "the press lands on the diff's indicator");
    let press = l.route_mouse(mouse(MouseKind::LeftDown, column, bottom), false, false, on);
    assert!(l.dragging_border.is_none(), "the indicator must take the grab from the seam");
    assert_eq!(press, MouseRoute::Panel(FocusPanel::Changes), "the press must reach the panel");
    files.handle_mouse_event(mouse(MouseKind::LeftDown, column, bottom));
    assert_eq!(files.diff_scroll, max, "the press must scrub the diff to its end");

    // A drag scrubs the pane and resizes nothing.
    let drag = l.route_mouse(mouse(MouseKind::LeftDrag, column, l.changes_area.y + 1), false, false, false);
    assert_eq!(drag, MouseRoute::Panel(FocusPanel::Changes));
    files.handle_mouse_event(mouse(MouseKind::LeftDrag, column, l.changes_area.y + 1));
    assert!(files.diff_scroll < max, "the drag must scrub the diff away from its end");
    let up = l.route_mouse(mouse(MouseKind::LeftUp, column, bottom), false, false, false);
    assert_eq!(up, MouseRoute::Panel(FocusPanel::Changes));
    files.handle_mouse_event(mouse(MouseKind::LeftUp, column, bottom));
    assert!(l.dragging_border.is_none(), "a scrub must not resize panels");
    let scrolled = files.diff_scroll;
    files.handle_mouse_event(mouse(MouseKind::LeftDrag, column, bottom));
    assert_eq!(files.diff_scroll, scrolled, "a drag without a press must not scrub");

    // Off the indicator the same press arms the seam.
    l.route_mouse(mouse(MouseKind::LeftDown, column, bottom), false, false, false);
    assert_eq!(l.dragging_border, Some(1));
}
