use gitpanes::file_list::{FileList, FileListAction};
use gitpanes::input::{Key, Mouse, MouseKind};
use gitpanes::layout::Rect;
use gitpanes::status::{FileEntry, FileStatus, SubmoduleWarn};

fn entry_with(path: &str, status: FileStatus, staged: bool, unstaged: bool) -> FileEntry {
    FileEntry {
        path: path.to_string(),
        status,
        staged,
        unstaged,
        is_submodule: false,
        submodule_state: None,
        submodule_warn: SubmoduleWarn::default(),
        submodule_head: None,
    }
}

fn entry(path: &str) -> FileEntry {
    entry_with(path, FileStatus::Modified, false, true)
}

fn diff_path(action: Option<FileListAction>) -> Option<String> {
    match action {
        Some(FileListAction::ShowDiff { path, .. }) => Some(path),
        _ => None,
    }
}

#[test]
fn selected_menu_builds_a_file_context_menu_action() {
    let mut list = FileList::new();
    list.render_area = Rect::new(0, 0, 60, 24);
    list.set_files(
        vec![entry_with("a.rs", FileStatus::Modified, false, true), entry_with("b.rs", FileStatus::Untracked, false, true)],
        "repo",
        "/repo",
    );
    list.selected = Some(1);
    let menu = list.selected_menu().expect("menu for selected row");
    assert_eq!(menu.repo_id, "/repo");
    assert_eq!(menu.ctx.path, "b.rs");
    assert_eq!(menu.row, 2);
    assert_eq!(menu.col, 59);
    assert!(!menu.ctx.staged);
    assert!(menu.ctx.unstaged);
    assert!(menu.ctx.is_untracked);
    assert!(!menu.ctx.is_submodule);
}

#[test]
fn selected_menu_none_without_files() {
    let list = FileList::new();
    assert!(list.selected_menu().is_none());
}

#[test]
fn search_opens_match_without_navigation_and_handles_refresh() {
    let mut fl = FileList::new();
    fl.set_files(vec![entry("main.rs"), entry("lib.rs")], "r", "/r");
    fl.handle_key_event(Key::Char('/'));
    for c in "lib".chars() {
        fl.handle_key_event(Key::Char(c));
    }
    assert_eq!(diff_path(fl.handle_key_event(Key::Enter)).as_deref(), Some("lib.rs"));
    fl.set_files(vec![entry("main.rs")], "r", "/r");
    assert!(fl.handle_key_event(Key::Enter).is_none());
    fl.set_files(vec![entry("other.rs")], "other", "/other");
    assert!(!fl.search_active());
    assert_eq!(diff_path(fl.handle_key_event(Key::Enter)).as_deref(), Some("other.rs"));
}

#[test]
fn clicking_nonmatch_does_not_replace_the_search_selection() {
    let mut fl = FileList::new();
    fl.set_files(vec![entry("main.rs"), entry("lib.rs")], "r", "/r");
    fl.handle_key_event(Key::Char('/'));
    fl.handle_key_event(Key::Char('l'));
    // Where an 80x20 frame draws the list.
    fl.render_area = Rect::new(0, 0, 80, 20);
    fl.file_list_area = Rect::new(0, 0, 80, 20);
    for kind in [MouseKind::LeftDown, MouseKind::RightDown] {
        assert!(fl.handle_mouse_event(Mouse { kind, column: 2, row: 1 }).is_none());
    }
    assert_eq!(diff_path(fl.handle_key_event(Key::Enter)).as_deref(), Some("lib.rs"));
}

#[test]
fn filter_jumps_to_matching_file_and_opens_it() {
    let mut fl = FileList::new();
    fl.set_files(vec![entry("src/main.rs"), entry("src/lib.rs"), entry("tests/foo.rs")], "r", "/r");
    fl.handle_key_event(Key::Char('/'));
    for c in "lib".chars() {
        fl.handle_key_event(Key::Char(c));
    }
    assert_eq!(fl.filter.count(), 1);
    fl.select_next();
    assert_eq!(fl.selected, Some(1));
    let action = fl.try_show_diff();
    assert_eq!(diff_path(action).as_deref(), Some("src/lib.rs"));
}

#[test]
fn filter_with_no_matches_clears_selection_and_does_not_open_diff() {
    let mut fl = FileList::new();
    fl.set_files(vec![entry("a.txt")], "r", "/r");
    fl.handle_key_event(Key::Char('/'));
    for c in "zzz".chars() {
        fl.handle_key_event(Key::Char(c));
    }
    assert_eq!(fl.filter.count(), 0);
    fl.select_next();
    assert!(fl.selected_path().is_none());
    assert!(fl.handle_key_event(Key::Enter).is_none());
    fl.handle_key_event(Key::Esc);
    assert!(!fl.filter.is_active());
}

#[test]
fn the_filter_matches_paths_regardless_of_case() {
    let mut fl = FileList::new();
    fl.set_files(vec![entry("README.md"), entry("src/readme.rs"), entry("x.rs")], "r", "/r");
    fl.handle_key_event(Key::Char('/'));
    for c in "ReadMe".chars() {
        fl.handle_key_event(Key::Char(c));
    }
    assert_eq!(fl.filter.matches, vec![0, 1]);
    fl.select_next();
    assert_eq!(fl.selected, Some(1));
    fl.select_next();
    assert_eq!(fl.selected, Some(0), "stepping wraps among the matches");
    fl.select_prev();
    assert_eq!(fl.selected, Some(1));
}

#[test]
fn same_repo_refresh_keeps_the_highlight_and_the_diff() {
    let mut fl = FileList::new();
    fl.set_files(vec![entry("a"), entry("b"), entry("c")], "r", "/r");
    fl.selected = Some(2);
    fl.set_diff("diff".to_string());
    let generation = fl.diff_generation();
    fl.set_files(vec![entry("a"), entry("b"), entry("c")], "r", "/r");
    assert_eq!(fl.selected, Some(2));
    assert!(fl.viewing_diff());
    assert_eq!(fl.diff_generation(), generation);
    fl.set_files(vec![entry("a")], "r", "/r");
    assert_eq!(fl.selected, Some(0), "clamped to the shorter list");
    assert!(!fl.viewing_diff(), "changed files drop the diff");
    assert_eq!(fl.diff_generation(), generation + 1);
}

#[test]
fn the_diff_scrolls_within_its_content_and_closes_with_escape() {
    let mut fl = FileList::new();
    fl.set_files(vec![entry("a")], "r", "/r");
    fl.set_diff((0..60).map(|i| format!("+line {i}")).collect::<Vec<_>>().join("\n"));
    fl.diff_area = Rect::new(32, 0, 48, 20);
    for _ in 0..200 {
        fl.handle_key_event(Key::Char('j'));
    }
    assert_eq!(fl.diff_scroll, 60 - 18);
    for _ in 0..200 {
        fl.handle_key_event(Key::Char('k'));
    }
    assert_eq!(fl.diff_scroll, 0);
    fl.handle_key_event(Key::Esc);
    assert!(!fl.viewing_diff());
}

#[test]
fn a_right_click_on_a_conflicted_row_offers_staging() {
    let mut fl = FileList::new();
    fl.set_files(vec![entry_with("c.rs", FileStatus::Conflicted, false, false)], "r", "/r");
    fl.render_area = Rect::new(0, 0, 40, 10);
    match fl.handle_mouse_event(Mouse { kind: MouseKind::RightDown, column: 5, row: 1 }) {
        Some(FileListAction::ShowFileContextMenu(req)) => {
            assert!(req.ctx.unstaged);
            assert_eq!((req.col, req.row), (5, 1));
        },
        other => panic!("expected a menu, got {other:?}"),
    }
}
