use gitpanes::file_list::FileList;
use gitpanes::graph::GraphRow;
use gitpanes::graph_scrub::DetailPane;
use gitpanes::graph_view::{GitGraph, GraphAction};
use gitpanes::input::{Mouse, MouseKind};
use gitpanes::layout::Rect;
use gitpanes::scroll::max_scroll_lines;
use gitpanes::scroll_bar::ScrollGrab;
use gitpanes::status::{FileEntry, FileStatus, SubmoduleWarn};

fn lines(n: usize) -> String {
    (0..n).map(|i| format!("+line {i}")).collect::<Vec<_>>().join("\n")
}

/// A file list showing a diff of `n` rows beside its file list.
fn list_with_diff(n: usize) -> FileList {
    let mut fl = FileList::new();
    fl.set_diff(lines(n));
    fl.file_list_area = Rect::new(0, 0, 24, 20);
    fl.diff_area = Rect::new(24, 0, 56, 20);
    fl
}

fn mouse(fl: &mut FileList, kind: MouseKind, column: u16, row: u16) {
    let action = fl.handle_mouse_event(Mouse { kind, column, row });
    assert!(action.is_none());
}

fn diff_max(fl: &FileList) -> u16 {
    max_scroll_lines(fl.diff_content.as_deref().unwrap(), fl.diff_area.height, fl.diff_area.width)
}

fn entry(path: &str) -> FileEntry {
    FileEntry {
        path: path.to_string(),
        status: FileStatus::Modified,
        staged: false,
        unstaged: true,
        is_submodule: false,
        submodule_state: None,
        submodule_warn: SubmoduleWarn::default(),
        submodule_head: None,
    }
}

#[test]
fn clicking_and_dragging_the_diff_indicator_scrubs_the_pane() {
    let mut fl = list_with_diff(60);
    let pane = fl.diff_area;
    let bar = pane.x + pane.width - 2;
    let max = diff_max(&fl);

    mouse(&mut fl, MouseKind::LeftDown, bar, pane.y + pane.height / 2);
    let middle = fl.diff_scroll;
    assert!(middle > 0 && middle < max, "a click in the middle of the track must land in the middle: {middle} of {max}");

    mouse(&mut fl, MouseKind::LeftDown, bar, pane.y + pane.height - 2);
    assert_eq!(fl.diff_scroll, max);
    mouse(&mut fl, MouseKind::LeftDrag, bar, pane.y + 1);
    assert_eq!(fl.diff_scroll, 0);
    mouse(&mut fl, MouseKind::LeftDrag, pane.x + 2, pane.y + pane.height - 2);
    assert_eq!(fl.diff_scroll, max);

    mouse(&mut fl, MouseKind::LeftUp, bar, pane.y + 1);
    mouse(&mut fl, MouseKind::LeftDrag, bar, pane.y + 1);
    assert_eq!(fl.diff_scroll, max, "a drag without a press must not scrub");
}

#[test]
fn clicking_beside_the_diff_indicator_does_not_scrub() {
    let mut fl = list_with_diff(60);
    let pane = fl.diff_area;
    mouse(&mut fl, MouseKind::LeftDown, pane.x + pane.width - 3, pane.y + pane.height - 2);
    assert_eq!(fl.diff_scroll, 0);
    assert!(fl.dragging_scrollbar.is_none());
}

#[test]
fn a_file_row_click_at_the_indicator_column_still_selects_the_row() {
    let mut fl = FileList::new();
    fl.horizontal_layout = true;
    fl.set_files(vec![entry("a.rs"), entry("b.rs"), entry("c.rs")], "repo", "/repo");
    fl.set_diff(lines(60));
    fl.file_list_area = Rect::new(0, 0, 80, 8);
    fl.diff_area = Rect::new(0, 8, 80, 12);

    let diff = fl.diff_area;
    let row = fl.file_list_area.y + 2;
    let column = diff.x + diff.width - 2;
    assert!(fl.file_list_area.contains(column, row), "the row click has to be inside the list");
    mouse(&mut fl, MouseKind::LeftDown, column, row);
    assert_eq!(fl.selected, Some(1), "a click above the diff pane must select the file row");
    assert_eq!(fl.diff_scroll, 0, "and must not scrub the diff");
}

#[test]
fn a_cancelled_grab_stops_scrubbing_the_diff() {
    let mut fl = list_with_diff(60);
    let pane = fl.diff_area;
    let bar = pane.x + pane.width - 2;
    mouse(&mut fl, MouseKind::LeftDown, bar, pane.y + 1);
    assert!(fl.dragging_scrollbar.is_some(), "the press armed the grab");

    fl.cancel_drag();
    assert!(fl.dragging_scrollbar.is_none());
    fl.set_diff(lines(60));
    mouse(&mut fl, MouseKind::LeftDrag, bar, pane.y + pane.height - 2);
    assert_eq!(fl.diff_scroll, 0, "a cancelled grab must not scrub");
}

#[test]
fn diff_that_fits_shows_no_indicator() {
    let fl = list_with_diff(3);
    assert!(fl.diff_indicator().is_none());
    let pane = fl.diff_area;
    assert!(!fl.is_on_scroll_indicator(pane.x + pane.width - 2, pane.y + 1));
}

#[test]
fn scroll_indicator_track_maps_rows_to_offsets() {
    let grab = ScrollGrab { column: 10, top: 1, height: 18, max: 42 };
    assert_eq!(grab.row_offset(0), 0);
    assert_eq!(grab.row_offset(1), 0);
    assert_eq!(grab.row_offset(10), 22);
    assert_eq!(grab.row_offset(18), 42);
    assert_eq!(grab.row_offset(30), 42);
    assert_eq!(grab.press(10, 18), Some(42));
    assert_eq!(grab.press(9, 18), None);
    assert_eq!(grab.press(10, 19), None);
}

const MOCK_OID: &str = "aaaaaaaaaaaaaaaaaaaaaaaaaaaaaaaaaaaaaaaa";

fn mock_row() -> GraphRow {
    GraphRow {
        commit_col: 0,
        oid: MOCK_OID.to_string(),
        short_id: "abc1234".to_string(),
        message: "first".to_string(),
        author: "Alice".to_string(),
        time: 0,
        labels: Vec::new(),
        is_merge: false,
        parent_oids: Vec::new(),
        diff_stat: None,
        collapsed: None,
    }
}

fn graph_detail(files: usize, diff_lines: usize) -> GitGraph {
    let mut graph = GitGraph::new();
    graph.repo_path = Some("/repo".to_string());
    graph.set_rows(vec![mock_row()]);
    graph.graph_list_area = Rect::new(0, 0, 40, 10);
    graph.files_area = Rect::new(40, 0, 30, 10);
    graph.diff_area = Rect::new(70, 0, 30, 10);
    let changed = (0..files).map(|i| ("M".to_string(), format!("file{i}.rs"))).collect();
    let _ = graph.set_commit_files(MOCK_OID.to_string(), "first".to_string(), changed);
    graph.set_commit_diff(lines(diff_lines));
    if let Some(detail) = graph.commit_detail.as_mut() {
        detail.file_list_area = Rect::new(40, 0, 30, 10);
    }
    graph
}

fn press(graph: &mut GitGraph, kind: MouseKind, column: u16, row: u16) -> Option<GraphAction> {
    graph.handle_mouse_event(Mouse { kind, column, row })
}

#[test]
fn dragging_the_graph_diff_indicator_scrubs_the_whole_pane() {
    let mut graph = graph_detail(1, 50);
    let pane = graph.diff_area;
    let bar = pane.x + pane.width - 2;
    let max = max_scroll_lines(&lines(50), pane.height, pane.width);
    assert!(max > 0);
    assert!(graph.is_on_scroll_indicator(bar, pane.y + pane.height - 2));

    assert!(press(&mut graph, MouseKind::LeftDown, bar, pane.y + pane.height - 2).is_none());
    let detail = graph.commit_detail.as_ref().unwrap();
    assert_eq!(detail.diff_scroll, max);
    assert!(detail.diff_focused, "grabbing the diff's indicator hands it the keyboard");
    assert!(graph.dragging_detail_border.is_none());
    assert!(matches!(graph.scrubbing, Some((DetailPane::Diff, _))));

    assert!(press(&mut graph, MouseKind::LeftDrag, pane.x + 3, pane.y + 1).is_none());
    assert_eq!(graph.commit_detail.as_ref().unwrap().diff_scroll, 0);

    press(&mut graph, MouseKind::LeftUp, bar, pane.y + 1);
    assert!(graph.scrubbing.is_none());
    press(&mut graph, MouseKind::LeftDrag, bar, pane.y + pane.height - 2);
    assert_eq!(graph.commit_detail.as_ref().unwrap().diff_scroll, 0, "a drag without a press must not scrub");
}

#[test]
fn dragging_the_graph_files_indicator_walks_the_highlight_to_the_end() {
    let mut graph = graph_detail(20, 3);
    let pane = graph.files_area;
    let bar = pane.x + pane.width - 2;
    let action = press(&mut graph, MouseKind::LeftDown, bar, pane.y + pane.height - 2);
    assert!(matches!(action, Some(GraphAction::ScheduleCommitDiff { .. })), "the scrub must ask for the newly highlighted file's diff: {action:?}");
    let detail = graph.commit_detail.as_ref().unwrap();
    assert_eq!(detail.file_selected, Some(12));
    assert_eq!(detail.file_offset, 12);
    assert!(!detail.diff_focused);
}

#[test]
fn a_cancelled_graph_grab_stops_scrubbing() {
    let mut graph = graph_detail(1, 50);
    let pane = graph.diff_area;
    let bar = pane.x + pane.width - 2;
    press(&mut graph, MouseKind::LeftDown, bar, pane.y + 1);
    assert!(graph.scrubbing.is_some());
    graph.cancel_drag();
    assert!(graph.scrubbing.is_none());
    press(&mut graph, MouseKind::LeftDrag, bar, pane.y + pane.height - 2);
    assert_eq!(graph.commit_detail.as_ref().unwrap().diff_scroll, 0, "a cancelled grab must not scrub");
}
