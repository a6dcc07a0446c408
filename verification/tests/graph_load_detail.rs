use gitpanes::graph::{DiffStat, GraphRow};
use gitpanes::graph_cache::{cached_graph, graph_key, GraphCache};
use gitpanes::graph_scrub::DetailPane;
use gitpanes::graph_view::{GitGraph, GraphAction, GraphLoadEvent};
use gitpanes::input::{Key, Mouse, MouseKind};
use gitpanes::layout::Rect;

fn mock_row(short_id: &str, message: &str, author: &str) -> GraphRow {
    GraphRow {
        commit_col: 0,
        oid: MOCK_OID.to_string(),
        short_id: short_id.to_string(),
        message: message.to_string(),
        author: author.to_string(),
        time: 0,
        labels: Vec::new(),
        is_merge: false,
        parent_oids: Vec::new(),
        diff_stat: None,
        collapsed: None,
    }
}

/// A row whose oid is twenty bytes of `id`, in hex.
fn row(id: u8, message: &str) -> GraphRow {
    let mut r = mock_row("abcdef0", message, "Alice");
    r.oid = format!("{id:02x}").repeat(20);
    r
}

const MOCK_OID: &str = "aaaaaaaaaaaaaaaaaaaaaaaaaaaaaaaaaaaaaaaa";

fn graph_with_open_commit(files: &[&str]) -> GitGraph {
    let mut graph = GitGraph::new();
    graph.repo_path = Some("/repo".to_string());
    graph.set_rows(vec![mock_row("abc1234", "first", "Alice")]);
    graph.graph_list_area = Rect::new(0, 0, 40, 10);
    graph.diff_area = Rect::new(70, 0, 30, 10);
    let _ = graph.set_commit_files(
        MOCK_OID.to_string(),
        "first".to_string(),
        files.iter().map(|f| ("M".to_string(), (*f).to_string())).collect(),
    );
    if let Some(detail) = graph.commit_detail.as_mut() {
        detail.file_list_area = Rect::new(40, 0, 30, 10);
    }
    graph
}

const FILE_COL: u16 = 42;
const DIFF_COL: u16 = 72;

fn left_click(graph: &mut GitGraph, column: u16, row: u16) -> Option<GraphAction> {
    graph.handle_mouse_event(Mouse { kind: MouseKind::LeftDown, column, row })
}

fn deferred_generation(action: Option<GraphAction>) -> u64 {
    match action {
        Some(GraphAction::ScheduleCommitDiff { generation }) => generation,
        other => panic!("expected a deferred diff request, got {other:?}"),
    }
}

fn requested_file(action: Option<GraphAction>) -> String {
    match action {
        Some(GraphAction::ShowCommitDiff { file_path, .. }) => file_path,
        other => panic!("expected ShowCommitDiff, got {other:?}"),
    }
}

fn selected_file(graph: &GitGraph) -> Option<usize> {
    graph.commit_detail.as_ref().unwrap().file_selected
}

#[test]
fn right_clicking_a_graph_row_opens_its_context_menu() {
    let mut graph = GitGraph::new();
    graph.set_rows(vec![mock_row("abc1234", "first", "Alice")]);
    graph.graph_list_area = Rect::new(0, 0, 80, 4);
    let action = graph.handle_mouse_event(Mouse { kind: MouseKind::RightDown, column: 1, row: 1 });
    assert!(matches!(action, Some(GraphAction::OpenGraphContextMenu)));
    assert_eq!(graph.selected, Some(0));
}

#[test]
fn clicking_a_commit_row_opens_its_files() {
    let mut graph = GitGraph::new();
    graph.repo_path = Some("/repo".to_string());
    graph.set_rows(vec![mock_row("abc1234", "first", "Alice")]);
    graph.graph_list_area = Rect::new(0, 0, 80, 4);
    let action = left_click(&mut graph, 1, 1);
    assert!(matches!(action, Some(GraphAction::ShowCommitFiles { .. })));
    assert_eq!(graph.selected, Some(0));
}

#[test]
fn clicking_the_open_commit_again_keeps_the_chosen_file() {
    let mut graph = graph_with_open_commit(&["a.rs", "b.rs"]);
    let _ = graph.handle_key_event(Key::Down);
    assert_eq!(selected_file(&graph), Some(1));
    let action = left_click(&mut graph, 1, 1);
    assert!(action.is_none(), "re-clicking the open commit must do nothing");
    assert_eq!(selected_file(&graph), Some(1));
}

#[test]
fn opening_a_commit_asks_for_the_first_files_diff() {
    let mut graph = GitGraph::new();
    graph.repo_path = Some("/repo".to_string());
    graph.set_rows(vec![mock_row("abc1234", "first", "Alice")]);
    let action = graph.set_commit_files(
        MOCK_OID.to_string(),
        "first".to_string(),
        vec![("M".to_string(), "src/main.rs".to_string()), ("A".to_string(), "src/lib.rs".to_string())],
    );
    assert_eq!(requested_file(action), "src/main.rs");
}

#[test]
fn a_commit_that_changed_nothing_asks_for_no_diff() {
    let mut graph = GitGraph::new();
    graph.repo_path = Some("/repo".to_string());
    graph.set_rows(vec![mock_row("abc1234", "empty", "Alice")]);
    let action = graph.set_commit_files(MOCK_OID.to_string(), "empty".to_string(), Vec::new());
    assert!(action.is_none());
}

#[test]
fn moving_through_files_while_a_diff_shows_keeps_moving_files() {
    let mut graph = graph_with_open_commit(&["a.rs", "b.rs"]);
    graph.set_commit_diff("diff --git a/a.rs".to_string());
    let generation = deferred_generation(graph.handle_key_event(Key::Char('j')));
    assert_eq!(selected_file(&graph), Some(1));
    assert_eq!(requested_file(graph.commit_diff_settled(generation)), "b.rs");
}

#[test]
fn walking_past_a_file_drops_its_pending_diff() {
    let mut graph = graph_with_open_commit(&["a.rs", "b.rs", "c.rs"]);
    let passed = deferred_generation(graph.handle_key_event(Key::Down));
    let landed = deferred_generation(graph.handle_key_event(Key::Down));
    assert!(graph.commit_diff_settled(passed).is_none(), "the file the highlight passed through must not be diffed");
    assert_eq!(requested_file(graph.commit_diff_settled(landed)), "c.rs");
}

#[test]
fn focusing_the_diff_scrolls_it_instead_of_moving_files() {
    let mut graph = graph_with_open_commit(&["a.rs", "b.rs"]);
    graph.set_commit_diff("line\n".repeat(50));
    assert_eq!(requested_file(graph.handle_key_event(Key::Enter)), "a.rs");
    let action = graph.handle_key_event(Key::Char('j'));
    assert!(action.is_none());
    assert_eq!(selected_file(&graph), Some(0), "files must stay put");
    assert_eq!(graph.commit_detail.as_ref().unwrap().diff_scroll, 1);
}

#[test]
fn clicking_inside_the_diff_focuses_it() {
    let mut graph = graph_with_open_commit(&["a.rs", "b.rs"]);
    graph.set_commit_diff("line\n".repeat(50));
    assert!(left_click(&mut graph, DIFF_COL, 2).is_none());
    graph.handle_key_event(Key::Down);
    assert_eq!(graph.commit_detail.as_ref().unwrap().diff_scroll, 1);
    assert_eq!(selected_file(&graph), Some(0));
}

#[test]
fn esc_leaves_the_diff_before_closing_the_commit() {
    let mut graph = graph_with_open_commit(&["a.rs", "b.rs"]);
    graph.set_commit_diff("diff --git a/a.rs".to_string());
    let _ = graph.handle_key_event(Key::Enter);
    graph.handle_key_event(Key::Esc);
    assert!(graph.has_detail());
    let generation = deferred_generation(graph.handle_key_event(Key::Down));
    assert_eq!(selected_file(&graph), Some(1));
    assert_eq!(requested_file(graph.commit_diff_settled(generation)), "b.rs");
    graph.handle_key_event(Key::Esc);
    assert!(!graph.has_detail());
}

#[test]
fn clicking_a_file_row_asks_for_its_diff() {
    let mut graph = graph_with_open_commit(&["a.rs", "b.rs"]);
    let generation = deferred_generation(left_click(&mut graph, FILE_COL, 2));
    assert_eq!(selected_file(&graph), Some(1));
    assert_eq!(requested_file(graph.commit_diff_settled(generation)), "b.rs");
}

#[test]
fn scrolling_the_file_list_asks_for_the_settled_files_diff() {
    let mut graph = graph_with_open_commit(&["a.rs", "b.rs"]);
    let generation = deferred_generation(graph.handle_mouse_event(Mouse { kind: MouseKind::ScrollDown, column: FILE_COL, row: 2 }));
    assert_eq!(selected_file(&graph), Some(1));
    assert_eq!(requested_file(graph.commit_diff_settled(generation)), "b.rs");
}

#[test]
fn graph_cache_evicts_least_recently_used() {
    let mut cache = GraphCache::new(2);
    cache.insert(graph_key("/a"), cached_graph(vec![mock_row("1", "a", "A")]));
    cache.insert(graph_key("/b"), cached_graph(vec![mock_row("2", "b", "B")]));
    let _ = cache.get(&graph_key("/a"));
    cache.insert(graph_key("/c"), cached_graph(vec![mock_row("3", "c", "C")]));
    assert!(cache.get(&graph_key("/a")).is_some());
    assert!(cache.get(&graph_key("/b")).is_none());
    assert!(cache.get(&graph_key("/c")).is_some());
}

#[test]
fn graph_cache_invalidate_removes_all_signatures_for_path() {
    let mut cache = GraphCache::new(8);
    let mut key_b = graph_key("/a");
    key_b.first_parent = true;
    cache.insert(graph_key("/a"), cached_graph(vec![mock_row("1", "a", "A")]));
    cache.insert(key_b, cached_graph(vec![mock_row("2", "a1", "A")]));
    cache.invalidate("/a");
    assert!(cache.get(&graph_key("/a")).is_none());
    let mut key_b = graph_key("/a");
    key_b.first_parent = true;
    assert!(cache.get(&key_b).is_none());
    let mut cache2 = GraphCache::new(8);
    cache2.insert(graph_key("/a"), cached_graph(vec![mock_row("1", "a", "A")]));
    cache2.insert(graph_key("/b"), cached_graph(vec![mock_row("2", "b", "B")]));
    cache2.invalidate("/a");
    assert!(cache2.get(&graph_key("/b")).is_some());
}

#[test]
fn graph_cache_apply_stats_updates_cached_rows() {
    let mut cache = GraphCache::new(4);
    let row = mock_row("abc1234", "a", "A");
    let oid = row.oid.clone();
    cache.insert(graph_key("/a"), cached_graph(vec![row]));
    let stat_map = vec![(oid, DiffStat { additions: 1, deletions: 2 })];
    cache.apply_stats(&graph_key("/a"), &stat_map);
    let cached = cache.get(&graph_key("/a")).expect("still cached");
    let stat = cached.rows[0].diff_stat.as_ref().expect("stats folded in");
    assert_eq!(stat.additions, 1);
    assert_eq!(stat.deletions, 2);
}

fn graph_with_path(path: &str) -> GitGraph {
    let mut graph = GitGraph::new();
    graph.repo_path = Some(path.to_string());
    graph
}

#[test]
fn load_repo_restores_cached_rows_without_rebuilding() {
    let mut graph = graph_with_path("/tmp/cache-repo");
    graph.set_rows(vec![mock_row("abc1234", "cached message", "Alice")]);
    let key = graph.cache_key("/tmp/cache-repo");
    assert!(graph.graph_cache.get(&key).is_some());
    graph.load_repo("/tmp/other-repo", "other");
    assert!(graph.loading);
    assert!(graph.all_rows.is_empty());
    graph.load_repo("/tmp/cache-repo", "cache-repo");
    assert!(!graph.loading);
    assert_eq!(graph.all_rows.len(), 1);
    assert_eq!(graph.all_rows[0].message, "cached message");
    assert_eq!(graph.selected, Some(0));
}

#[test]
fn cache_hit_for_different_repo_resets_view_state() {
    let mut graph = graph_with_path("/tmp/a");
    graph.set_rows(vec![mock_row("1", "a", "X"), mock_row("2", "b", "Y")]);
    graph.selected = Some(1);
    graph.search.input = "query".to_string();
    graph.load_repo("/tmp/b", "b");
    graph.load_repo("/tmp/a", "a");
    assert!(graph.search.input.is_empty());
    assert_eq!(graph.selected, Some(0));
}

#[test]
fn invalidate_repo_forces_a_rebuild() {
    let mut graph = graph_with_path("/tmp/cache-repo");
    graph.set_rows(vec![mock_row("abc1234", "cached", "Alice")]);
    graph.invalidate_repo("/tmp/cache-repo");
    graph.load_repo("/tmp/other", "other");
    graph.load_repo("/tmp/cache-repo", "cache-repo");
    assert!(graph.loading);
    assert!(graph.all_rows.is_empty());
}

#[test]
fn force_reload_repo_bypasses_the_cache() {
    let mut graph = graph_with_path("/tmp/cache-repo");
    graph.set_rows(vec![mock_row("abc1234", "cached", "Alice")]);
    graph.load_repo("/tmp/other", "other");
    graph.force_reload_repo("/tmp/cache-repo", "cache-repo");
    assert!(graph.loading);
    assert!(graph.all_rows.is_empty());
}

#[test]
fn cache_is_keyed_by_graph_options() {
    let mut graph = graph_with_path("/tmp/cache-repo");
    graph.set_rows(vec![mock_row("abc1234", "cached", "Alice")]);
    graph.graph_options.first_parent = true;
    graph.load_repo("/tmp/other", "other");
    graph.load_repo("/tmp/cache-repo", "cache-repo");
    assert!(graph.loading);
    assert!(graph.all_rows.is_empty());
}

#[test]
fn diff_stats_are_folded_into_the_cached_snapshot() {
    let mut graph = graph_with_path("/tmp/stats-repo");
    graph.set_rows(vec![mock_row("abc1234", "msg", "A")]);
    let oid = graph.all_rows[0].oid.clone();
    graph.set_diff_stats(vec![(oid, DiffStat { additions: 3, deletions: 2 })]);
    let key = graph.cache_key("/tmp/stats-repo");
    let cached = graph.graph_cache.get(&key).expect("cached");
    let stat = cached.rows[0].diff_stat.as_ref().expect("stats cached");
    assert_eq!(stat.additions, 3);
    assert_eq!(stat.deletions, 2);
}

#[test]
fn cache_hit_restores_filter_values_not_present_in_rows() {
    let mut graph = graph_with_path("/tmp/cache-repo");
    assert!(graph.insert_filter_branch("hidden-branch".to_string()));
    graph.set_rows(vec![mock_row("abc1234", "cached", "Alice")]);
    graph.load_repo("/tmp/other", "other");
    graph.load_repo("/tmp/cache-repo", "cache-repo");
    assert!(graph.filter_branches.iter().any(|b| b == "hidden-branch"));
}

#[test]
fn switching_repositories_rejects_pending_commit_details() {
    let mut graph = GitGraph::new();
    graph.load_repo("/first", "first");
    graph.set_rows(vec![row(1, "first commit")]);
    assert!(graph.open_selected_commit_files().is_some());
    let pending_generation = graph.current_detail_generation();
    graph.load_repo("/second", "second");
    if pending_generation == graph.current_detail_generation() {
        let _ = graph.set_commit_files("abcdef0".into(), "first commit".into(), vec![]);
    }
    assert!(!graph.has_detail(), "old repository detail reopened after switching");
}

#[test]
fn closing_commit_details_rejects_pending_reopens() {
    let mut graph = GitGraph::new();
    graph.load_repo("/repo", "repo");
    graph.set_rows(vec![row(1, "first commit")]);
    let _ = graph.set_commit_files("abcdef0".into(), "first commit".into(), vec![]);
    assert!(graph.open_selected_commit_files().is_some());
    let pending_generation = graph.current_detail_generation();
    graph.handle_key_event(Key::Esc);
    if pending_generation == graph.current_detail_generation() {
        let _ = graph.set_commit_files("abcdef0".into(), "first commit".into(), vec![]);
    }
    assert!(!graph.has_detail(), "closed detail reopened from an older request");
}

fn selected_message(graph: &GitGraph) -> String {
    graph.display_rows()[graph.selected.unwrap()].message.clone()
}

#[test]
fn refreshing_search_keeps_the_matching_commit_selected() {
    let mut graph = GitGraph::new();
    graph.set_rows(vec![row(1, "old"), row(2, "needle")]);
    graph.open_search();
    for c in "needle".chars() {
        graph.handle_search_key(Key::Char(c));
    }
    graph.handle_search_key(Key::Enter);
    graph.set_rows(vec![row(3, "new"), row(1, "old"), row(2, "needle")]);
    assert_eq!(selected_message(&graph), "needle");
    graph.handle_key_event(Key::Char('n'));
    assert_eq!(selected_message(&graph), "needle");
}

#[test]
fn a_ready_app_gets_one_build_per_generation_and_stale_results_are_dropped() {
    let mut graph = GitGraph::new();
    graph.action_ready = true;
    graph.load_repo("/repo", "repo");
    let first = graph.take_load_request().expect("a build is asked for");
    assert_eq!(first.path, "/repo");
    assert!(graph.load_in_flight);
    // A refresh while the build runs is only remembered.
    graph.load_repo("/repo", "repo");
    assert!(graph.take_load_request().is_none());
    assert!(graph.needs_reload);
    // A result tagged with another generation changes nothing.
    graph.handle_load_event(GraphLoadEvent::Loaded { generation: first.generation + 7, rows: vec![row(9, "stale")] });
    assert!(graph.all_rows.is_empty());
    // The current result lands and the remembered refresh starts a new build.
    graph.handle_load_event(GraphLoadEvent::Loaded { generation: first.generation, rows: vec![row(1, "fresh")] });
    assert_eq!(graph.all_rows[0].message, "fresh");
    let second = graph.take_load_request().expect("the deferred reload runs");
    assert_eq!(second.generation, first.generation + 1);
    assert!(!graph.needs_reload);
}

#[test]
fn a_failed_build_shows_its_error_and_stops_loading() {
    let mut graph = GitGraph::new();
    graph.action_ready = true;
    graph.load_repo("/repo", "repo");
    let req = graph.take_load_request().unwrap();
    graph.handle_load_event(GraphLoadEvent::Failed { generation: req.generation, message: "Failed to load graph: boom".into() });
    assert_eq!(graph.error.as_deref(), Some("Failed to load graph: boom"));
    assert!(!graph.loading);
    assert!(!graph.load_in_flight);
}

#[test]
fn rebuilt_rows_keep_the_stats_of_the_previous_build() {
    let mut graph = GitGraph::new();
    graph.set_rows(vec![row(1, "one")]);
    graph.set_diff_stats(vec![(row(1, "").oid, DiffStat { additions: 5, deletions: 1 })]);
    graph.set_rows(vec![row(2, "two"), row(1, "one")]);
    assert!(graph.all_rows[0].diff_stat.is_none());
    assert_eq!(graph.all_rows[1].diff_stat, Some(DiffStat { additions: 5, deletions: 1 }));
}

#[test]
fn selected_text_copies_the_file_or_the_commit() {
    let mut graph = GitGraph::new();
    graph.set_rows(vec![mock_row("abc1234", "first", "Alice")]);
    assert_eq!(graph.selected_text().as_deref(), Some("abc1234 first"));
    let mut graph = graph_with_open_commit(&["a.rs", "b.rs"]);
    graph.handle_key_event(Key::Down);
    assert_eq!(graph.selected_text().as_deref(), Some("b.rs"));
}

#[test]
fn pressing_near_a_detail_border_grabs_it() {
    let mut graph = graph_with_open_commit(&["a.rs"]);
    let _ = left_click(&mut graph, 41, 5);
    assert_eq!(graph.dragging_detail_border, Some(0));
    graph.handle_mouse_event(Mouse { kind: MouseKind::LeftUp, column: 41, row: 5 });
    assert_eq!(graph.dragging_detail_border, None);
}

#[test]
fn commit_files_from_a_superseded_request_are_dropped() {
    let mut graph = GitGraph::new();
    graph.load_repo("/repo", "repo");
    graph.set_rows(vec![row(1, "first commit")]);
    assert!(graph.open_selected_commit_files().is_some());
    let stale = graph.current_detail_generation();
    assert!(graph.open_selected_commit_files().is_some());
    assert_ne!(stale, graph.current_detail_generation());
    assert!(graph.commit_files_loaded(stale, "abcdef0".into(), "first commit".into(), vec![]).is_none());
    assert!(!graph.has_detail());
    let current = graph.current_detail_generation();
    let action = graph.commit_files_loaded(current, "abcdef0".into(), "first commit".into(), vec![("M".into(), "a.txt".into())]);
    assert!(graph.has_detail());
    assert_eq!(requested_file(action), "a.txt");
}

#[test]
fn a_diff_for_an_older_detail_request_is_dropped() {
    let mut graph = graph_with_open_commit(&["a.txt"]);
    let generation = graph.current_detail_generation();
    graph.commit_diff_loaded(generation.wrapping_sub(1), "stale".into());
    assert_eq!(graph.commit_detail.as_ref().unwrap().diff_content, None);
    graph.commit_diff_loaded(generation, "+added".into());
    assert_eq!(graph.commit_detail.as_ref().unwrap().diff_content.as_deref(), Some("+added"));
}

fn commit_with_files() -> GitGraph {
    let mut graph = GitGraph::new();
    graph.repo_path = Some("/repo".into());
    assert!(graph
        .set_commit_files(
            "abc1234".into(),
            "subject".into(),
            ["main.rs", "lib.rs", "other.rs", "library.rs"].into_iter().map(|p| ("M".into(), p.into())).collect()
        )
        .is_some());
    graph
}

fn file_search(graph: &mut GitGraph, query: &str) {
    graph.handle_key_event(Key::Char('/'));
    for c in query.chars() {
        graph.handle_key_event(Key::Char(c));
    }
}

#[test]
fn commit_search_opens_matching_path_and_escape_keeps_detail() {
    let mut graph = commit_with_files();
    file_search(&mut graph, "lib");
    assert!(matches!(graph.handle_key_event(Key::Enter),
        Some(GraphAction::ShowCommitDiff { file_path, .. }) if file_path == "lib.rs"));
    graph.handle_key_event(Key::Esc);
    graph.handle_key_event(Key::Esc);
    assert!(graph.has_detail());
    assert!(!graph.file_search_active());
    graph.handle_key_event(Key::Esc);
    assert!(!graph.has_detail());
}

#[test]
fn no_match_cancels_debounce_and_enter_until_query_is_cleared() {
    let mut graph = commit_with_files();
    file_search(&mut graph, "lib");
    let action = graph.handle_key_event(Key::Down);
    let Some(GraphAction::ScheduleCommitDiff { generation }) = action else {
        panic!("expected scheduled diff")
    };
    graph.handle_key_event(Key::Char('z'));
    assert!(graph.commit_diff_settled(generation).is_none());
    assert!(graph.handle_key_event(Key::Enter).is_none());
    graph.handle_key_event(Key::Backspace);
    assert!(matches!(graph.handle_key_event(Key::Enter),
        Some(GraphAction::ShowCommitDiff { file_path, .. }) if file_path == "lib.rs"));
}

#[test]
fn wheel_moves_between_matching_commit_files() {
    let mut graph = commit_with_files();
    graph.horizontal_layout = true;
    file_search(&mut graph, "lib");
    // Where a 100x60 frame draws the file list of the open commit.
    let area = Rect::new(0, 30, 100, 14);
    graph.commit_detail.as_mut().unwrap().file_list_area = area;
    graph.handle_mouse_event(Mouse { kind: MouseKind::ScrollDown, column: area.x + 1, row: area.y + 1 });
    assert!(matches!(graph.handle_key_event(Key::Enter),
        Some(GraphAction::ShowCommitDiff { file_path, .. }) if file_path == "library.rs"));
}

#[test]
fn a_click_on_a_file_the_search_hides_does_nothing() {
    let mut graph = commit_with_files();
    file_search(&mut graph, "lib");
    let area = Rect::new(0, 0, 40, 10);
    graph.commit_detail.as_mut().unwrap().file_list_area = area;
    assert!(graph.handle_mouse_event(Mouse { kind: MouseKind::LeftDown, column: 1, row: 1 }).is_none());
    assert_eq!(graph.commit_detail.as_ref().unwrap().file_selected, Some(1));
    assert!(graph.handle_mouse_event(Mouse { kind: MouseKind::LeftDown, column: 1, row: 4 }).is_some());
    assert_eq!(graph.commit_detail.as_ref().unwrap().file_selected, Some(3));
}

#[test]
fn scrubbing_the_message_and_the_diff_jumps_to_the_offset() {
    let mut graph = commit_with_files();
    assert!(graph.scrub_to(DetailPane::Message, 7).is_none());
    assert_eq!(graph.commit_detail.as_ref().unwrap().msg_scroll, 7);
    assert!(graph.scrub_to(DetailPane::Diff, 3).is_none());
    let detail = graph.commit_detail.as_ref().unwrap();
    assert_eq!(detail.diff_scroll, 3);
    assert!(detail.diff_focused);
}

#[test]
fn scrubbing_the_file_list_walks_the_highlight_to_the_end() {
    let mut graph = commit_with_files();
    graph.commit_detail.as_mut().unwrap().diff_focused = true;
    assert!(matches!(graph.scrub_to(DetailPane::Files, 40), Some(GraphAction::ScheduleCommitDiff { .. })));
    let detail = graph.commit_detail.as_ref().unwrap();
    assert_eq!(detail.file_selected, Some(3));
    assert_eq!(detail.file_offset, 3);
    assert!(!detail.diff_focused);
}

#[test]
fn a_scrub_during_a_file_search_snaps_to_the_nearest_match() {
    let mut graph = commit_with_files();
    file_search(&mut graph, "lib");
    graph.scrub_to(DetailPane::Files, 2);
    assert_eq!(graph.commit_detail.as_ref().unwrap().file_selected, Some(1));
    graph.scrub_to(DetailPane::Files, 0);
    assert_eq!(graph.commit_detail.as_ref().unwrap().file_selected, Some(1));
    graph.handle_key_event(Key::Char('z'));
    graph.commit_detail.as_mut().unwrap().diff_focused = true;
    assert!(graph.scrub_to(DetailPane::Files, 2).is_none());
    assert!(!graph.commit_detail.as_ref().unwrap().diff_focused);
}

#[test]
fn a_scrub_on_the_highlighted_row_asks_again_only_without_a_diff() {
    let mut graph = commit_with_files();
    graph.commit_diff_loaded(graph.current_detail_generation(), "+x".into());
    assert!(graph.scrub_to(DetailPane::Files, 0).is_none());
    graph.commit_detail.as_mut().unwrap().diff_content = None;
    assert!(graph.scrub_to(DetailPane::Files, 0).is_some());
}

#[test]
fn evicting_drops_the_snapshot_used_longest_ago() {
    let mut cache = GraphCache::new(4);
    cache.insert(graph_key("/a"), cached_graph(vec![mock_row("1", "a", "A")]));
    cache.insert(graph_key("/b"), cached_graph(vec![mock_row("2", "b", "B")]));
    let _ = cache.get(&graph_key("/a"));
    cache.evict_lru();
    assert_eq!(cache.len(), 1);
    assert!(cache.contains(&graph_key("/a")));
    assert!(!cache.contains(&graph_key("/b")));
    cache.evict_lru();
    cache.evict_lru();
    assert_eq!(cache.len(), 0);
}

#[test]
fn filter_names_are_offered_once() {
    let mut graph = GitGraph::new();
    assert!(graph.insert_filter_branch("main".to_string()));
    assert!(graph.insert_filter_branch("dev".to_string()));
    assert!(!graph.insert_filter_branch("main".to_string()));
    assert_eq!(graph.filter_branches.len(), 2);
    assert!(graph.insert_filter_author("Alice".to_string()));
    assert!(!graph.insert_filter_author("Alice".to_string()));
    assert_eq!(graph.filter_authors.len(), 1);
}
