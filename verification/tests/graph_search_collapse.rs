use gitpanes::graph::{make_label, BranchLabel, GraphRow};
use gitpanes::graph_view::GitGraph;
use gitpanes::input::Key;

fn mock_row(short_id: &str, message: &str, author: &str) -> GraphRow {
    GraphRow {
        commit_col: 0,
        oid: "aaaaaaaaaaaaaaaaaaaaaaaaaaaaaaaaaaaaaaaa".to_string(),
        short_id: short_id.to_string(),
        message: message.to_string(),
        author: author.to_string(),
        time: 0,
        labels: Vec::new(),
        is_merge: false,
        parent_oids: Vec::new(),
        diff_stat: None,
        collapsed: None,
    }
}

const OID_M: &str = "1111111111111111111111111111111111111111";
const OID_A: &str = "aaaaaaaaaaaaaaaaaaaaaaaaaaaaaaaaaaaaaaaa";
const OID_B: &str = "bbbbbbbbbbbbbbbbbbbbbbbbbbbbbbbbbbbbbbbb";
const OID_C: &str = "cccccccccccccccccccccccccccccccccccccccc";

fn dag_row(oid: &str, short_id: &str, parent_oids: Vec<String>, col: usize, labels: Vec<BranchLabel>) -> GraphRow {
    GraphRow {
        commit_col: col,
        oid: oid.to_string(),
        short_id: short_id.to_string(),
        message: format!("msg-{short_id}"),
        author: "Author".to_string(),
        time: 0,
        labels,
        is_merge: parent_oids.len() > 1,
        parent_oids,
        diff_stat: None,
        collapsed: None,
    }
}

/// Row 0: main trunk; rows 1 and 2: a side branch (tip, base).
fn make_branch_rows(tip_labels: Vec<BranchLabel>) -> Vec<GraphRow> {
    vec![
        dag_row(OID_M, "m", vec![], 0, vec![make_label("main")]),
        dag_row(OID_A, "a", vec![OID_B.to_string()], 1, tip_labels),
        dag_row(OID_B, "b", vec![OID_M.to_string()], 1, vec![]),
    ]
}

fn collapsed(graph: &GitGraph, id: &str) -> bool {
    graph.collapsed_branches.iter().any(|c| c == id)
}

#[test]
fn git_graph_test_search_matches_message() {
    let mut graph = GitGraph::new();
    graph.set_rows(vec![
        mock_row("abc1234", "fix: resolve crash", "Alice"),
        mock_row("def5678", "feat: add login", "Bob"),
        mock_row("ghi9012", "chore: update deps", "Alice"),
    ]);
    graph.search.input = "login".to_string();
    graph.update_search_matches();
    assert_eq!(graph.search.matches, vec![1]);
}

#[test]
fn git_graph_test_search_matches_author() {
    let mut graph = GitGraph::new();
    graph.set_rows(vec![
        mock_row("abc1234", "first", "Alice"),
        mock_row("def5678", "second", "Bob"),
        mock_row("ghi9012", "third", "Alice"),
    ]);
    graph.search.input = "alice".to_string();
    graph.update_search_matches();
    assert_eq!(graph.search.matches, vec![0, 2]);
}

#[test]
fn git_graph_test_search_matches_short_id() {
    let mut graph = GitGraph::new();
    graph.set_rows(vec![mock_row("abc1234", "first", "Alice"), mock_row("def5678", "second", "Bob")]);
    graph.search.input = "def".to_string();
    graph.update_search_matches();
    assert_eq!(graph.search.matches, vec![1]);
}

#[test]
fn git_graph_test_search_case_insensitive() {
    let mut graph = GitGraph::new();
    graph.set_rows(vec![mock_row("abc1234", "Fix Bug", "Alice")]);
    graph.search.input = "fix bug".to_string();
    graph.update_search_matches();
    assert_eq!(graph.search.matches, vec![0]);
}

#[test]
fn git_graph_test_search_next_wraps_around() {
    let mut graph = GitGraph::new();
    graph.set_rows(vec![mock_row("a", "match", "X"), mock_row("b", "no", "Y"), mock_row("c", "match", "Z")]);
    graph.search.input = "match".to_string();
    graph.update_search_matches();
    assert_eq!(graph.search.current_match, Some(0));
    graph.search_next();
    assert_eq!(graph.search.current_match, Some(1));
    assert_eq!(graph.selected, Some(2));
    graph.search_next();
    assert_eq!(graph.search.current_match, Some(0));
    assert_eq!(graph.selected, Some(0));
}

#[test]
fn git_graph_test_search_prev_wraps_around() {
    let mut graph = GitGraph::new();
    graph.set_rows(vec![mock_row("a", "match", "X"), mock_row("b", "no", "Y"), mock_row("c", "match", "Z")]);
    graph.search.input = "match".to_string();
    graph.update_search_matches();
    graph.search_prev();
    assert_eq!(graph.search.current_match, Some(1));
    assert_eq!(graph.selected, Some(2));
}

#[test]
fn git_graph_test_search_empty_input_no_matches() {
    let mut graph = GitGraph::new();
    graph.set_rows(vec![mock_row("a", "hello", "X")]);
    graph.search.input.clear();
    graph.update_search_matches();
    assert!(graph.search.matches.is_empty());
    assert_eq!(graph.search.current_match, None);
}

#[test]
fn git_graph_test_search_no_results() {
    let mut graph = GitGraph::new();
    graph.set_rows(vec![mock_row("a", "hello", "Alice")]);
    graph.search.input = "zzzzz".to_string();
    graph.update_search_matches();
    assert!(graph.search.matches.is_empty());
    assert_eq!(graph.search.current_match, None);
}

#[test]
fn git_graph_test_collapse_labeled_branch() {
    let mut graph = GitGraph::new();
    graph.set_rows(make_branch_rows(vec![make_label("feature")]));
    graph.selected = Some(1);
    graph.toggle_collapse_selected();
    assert!(collapsed(&graph, OID_A));
    assert_eq!(graph.rows.len(), 2);
    let (_, count) = graph.rows[1].collapsed.as_ref().unwrap();
    assert_eq!(*count, 2);
    assert!(graph.rows[1].message.contains("feature"));
}

#[test]
fn git_graph_test_collapse_unlabeled_merge_lane() {
    let mut graph = GitGraph::new();
    graph.set_rows(make_branch_rows(vec![]));
    graph.selected = Some(2);
    graph.toggle_collapse_selected();
    assert!(collapsed(&graph, OID_A));
    assert_eq!(graph.rows.len(), 2);
    assert!(graph.rows[1].message.contains("a"));
}

#[test]
fn git_graph_test_expand_collapsed_group() {
    let mut graph = GitGraph::new();
    graph.set_rows(make_branch_rows(vec![make_label("feature")]));
    graph.selected = Some(1);
    graph.toggle_collapse_selected();
    assert_eq!(graph.rows.len(), 2);
    graph.selected = Some(1);
    graph.toggle_collapse_selected();
    assert!(graph.collapsed_branches.is_empty());
    assert_eq!(graph.display_rows().len(), 3);
}

#[test]
fn git_graph_test_collapse_from_middle_of_branch() {
    let mut graph = GitGraph::new();
    graph.set_rows(make_branch_rows(vec![make_label("feature")]));
    graph.selected = Some(2);
    graph.toggle_collapse_selected();
    assert!(collapsed(&graph, OID_A));
    assert_eq!(graph.rows.len(), 2);
    assert!(graph.rows[1].collapsed.is_some());
}

#[test]
fn git_graph_test_expand_all() {
    let mut graph = GitGraph::new();
    graph.set_rows(make_branch_rows(vec![make_label("feat-a")]));
    graph.selected = Some(1);
    graph.toggle_collapse_selected();
    assert!(!graph.collapsed_branches.is_empty());
    graph.expand_all_branches();
    assert!(graph.collapsed_branches.is_empty());
    assert_eq!(graph.display_rows().len(), 3);
}

#[test]
fn git_graph_test_main_trunk_not_collapsible() {
    let mut graph = GitGraph::new();
    graph.set_rows(make_branch_rows(vec![]));
    graph.selected = Some(0);
    graph.toggle_collapse_selected();
    assert!(graph.collapsed_branches.is_empty());
    assert_eq!(graph.display_rows().len(), 3);
}

#[test]
fn git_graph_test_interleaved_commits_collapse_together() {
    let mut graph = GitGraph::new();
    graph.set_rows(vec![
        dag_row(OID_M, "m0", vec![OID_C.to_string()], 0, vec![make_label("main")]),
        dag_row(OID_A, "a", vec![OID_B.to_string()], 1, vec![]),
        dag_row(OID_C, "c", vec![], 0, vec![]),
        dag_row(OID_B, "b", vec![OID_M.to_string()], 1, vec![]),
    ]);
    graph.selected = Some(1);
    graph.toggle_collapse_selected();
    assert!(collapsed(&graph, OID_A));
    assert_eq!(graph.rows.len(), 3);
    let (_, count) = graph.rows[1].collapsed.as_ref().unwrap();
    assert_eq!(*count, 2);
}

#[test]
fn git_graph_test_unlabeled_branch_collapsible() {
    let mut graph = GitGraph::new();
    graph.set_rows(make_branch_rows(vec![]));
    graph.selected = Some(1);
    graph.toggle_collapse_selected();
    assert!(!graph.collapsed_branches.is_empty());
    let placeholder = &graph.rows[1];
    assert!(placeholder.collapsed.is_some());
    assert!(placeholder.message.contains("a"));
}

#[test]
fn git_graph_test_abort_load_releases_latch() {
    let mut graph = GitGraph::new();
    graph.load_in_flight = true;
    graph.loading = true;
    graph.abort_load();
    assert!(!graph.load_in_flight, "latch must be released on abort");
    assert!(!graph.loading);
}

#[test]
fn git_graph_test_abort_load_consumes_pending_reload() {
    let mut graph = GitGraph::new();
    graph.load_in_flight = true;
    graph.needs_reload = true;
    graph.abort_load();
    assert!(!graph.load_in_flight);
    assert!(!graph.needs_reload, "pending reload flag must be consumed");
}

#[test]
fn tests_test_search_matches_message() {
    let mut graph = GitGraph::new();
    graph.set_rows(vec![
        mock_row("abc1234", "fix: resolve crash", "Alice"),
        mock_row("def5678", "feat: add login", "Bob"),
        mock_row("ghi9012", "chore: update deps", "Alice"),
    ]);
    graph.search.input = "login".to_string();
    graph.update_search_matches();
    assert_eq!(graph.search.matches, vec![1]);
}

#[test]
fn tests_test_search_matches_author() {
    let mut graph = GitGraph::new();
    graph.set_rows(vec![
        mock_row("abc1234", "first", "Alice"),
        mock_row("def5678", "second", "Bob"),
        mock_row("ghi9012", "third", "Alice"),
    ]);
    graph.search.input = "alice".to_string();
    graph.update_search_matches();
    assert_eq!(graph.search.matches, vec![0, 2]);
}

#[test]
fn tests_test_search_matches_short_id() {
    let mut graph = GitGraph::new();
    graph.set_rows(vec![mock_row("abc1234", "first", "Alice"), mock_row("def5678", "second", "Bob")]);
    graph.search.input = "def".to_string();
    graph.update_search_matches();
    assert_eq!(graph.search.matches, vec![1]);
}

#[test]
fn tests_test_search_case_insensitive() {
    let mut graph = GitGraph::new();
    graph.set_rows(vec![mock_row("abc1234", "Fix Bug", "Alice")]);
    graph.search.input = "fix bug".to_string();
    graph.update_search_matches();
    assert_eq!(graph.search.matches, vec![0]);
}

#[test]
fn tests_test_search_next_wraps_around() {
    let mut graph = GitGraph::new();
    graph.set_rows(vec![mock_row("a", "match", "X"), mock_row("b", "no", "Y"), mock_row("c", "match", "Z")]);
    graph.search.input = "match".to_string();
    graph.update_search_matches();
    assert_eq!(graph.search.current_match, Some(0));
    graph.search_next();
    assert_eq!(graph.search.current_match, Some(1));
    assert_eq!(graph.selected, Some(2));
    graph.search_next();
    assert_eq!(graph.search.current_match, Some(0));
    assert_eq!(graph.selected, Some(0));
}

#[test]
fn tests_test_search_prev_wraps_around() {
    let mut graph = GitGraph::new();
    graph.set_rows(vec![mock_row("a", "match", "X"), mock_row("b", "no", "Y"), mock_row("c", "match", "Z")]);
    graph.search.input = "match".to_string();
    graph.update_search_matches();
    graph.search_prev();
    assert_eq!(graph.search.current_match, Some(1));
    assert_eq!(graph.selected, Some(2));
}

#[test]
fn tests_test_search_empty_input_no_matches() {
    let mut graph = GitGraph::new();
    graph.set_rows(vec![mock_row("a", "hello", "X")]);
    graph.search.input.clear();
    graph.update_search_matches();
    assert!(graph.search.matches.is_empty());
    assert_eq!(graph.search.current_match, None);
}

#[test]
fn tests_test_search_no_results() {
    let mut graph = GitGraph::new();
    graph.set_rows(vec![mock_row("a", "hello", "Alice")]);
    graph.search.input = "zzzzz".to_string();
    graph.update_search_matches();
    assert!(graph.search.matches.is_empty());
    assert_eq!(graph.search.current_match, None);
}

#[test]
fn tests_test_collapse_labeled_branch() {
    let mut graph = GitGraph::new();
    graph.set_rows(make_branch_rows(vec![make_label("feature")]));
    graph.selected = Some(1);
    graph.toggle_collapse_selected();
    assert!(collapsed(&graph, OID_A));
    assert_eq!(graph.rows.len(), 2);
    let (_, count) = graph.rows[1].collapsed.as_ref().unwrap();
    assert_eq!(*count, 2);
    assert!(graph.rows[1].message.contains("feature"));
}

#[test]
fn tests_test_collapse_unlabeled_merge_lane() {
    let mut graph = GitGraph::new();
    graph.set_rows(make_branch_rows(vec![]));
    graph.selected = Some(2);
    graph.toggle_collapse_selected();
    assert!(collapsed(&graph, OID_A));
    assert_eq!(graph.rows.len(), 2);
    assert!(graph.rows[1].message.contains("a"));
}

#[test]
fn tests_test_expand_collapsed_group() {
    let mut graph = GitGraph::new();
    graph.set_rows(make_branch_rows(vec![make_label("feature")]));
    graph.selected = Some(1);
    graph.toggle_collapse_selected();
    assert_eq!(graph.rows.len(), 2);
    graph.selected = Some(1);
    graph.toggle_collapse_selected();
    assert!(graph.collapsed_branches.is_empty());
    assert_eq!(graph.display_rows().len(), 3);
}

#[test]
fn tests_test_collapse_from_middle_of_branch() {
    let mut graph = GitGraph::new();
    graph.set_rows(make_branch_rows(vec![make_label("feature")]));
    graph.selected = Some(2);
    graph.toggle_collapse_selected();
    assert!(collapsed(&graph, OID_A));
    assert_eq!(graph.rows.len(), 2);
    assert!(graph.rows[1].collapsed.is_some());
}

#[test]
fn tests_test_expand_all() {
    let mut graph = GitGraph::new();
    graph.set_rows(make_branch_rows(vec![make_label("feat-a")]));
    graph.selected = Some(1);
    graph.toggle_collapse_selected();
    assert!(!graph.collapsed_branches.is_empty());
    graph.expand_all_branches();
    assert!(graph.collapsed_branches.is_empty());
    assert_eq!(graph.display_rows().len(), 3);
}

#[test]
fn tests_test_main_trunk_not_collapsible() {
    let mut graph = GitGraph::new();
    graph.set_rows(make_branch_rows(vec![]));
    graph.selected = Some(0);
    graph.toggle_collapse_selected();
    assert!(graph.collapsed_branches.is_empty());
    assert_eq!(graph.display_rows().len(), 3);
}

#[test]
fn tests_test_interleaved_commits_collapse_together() {
    let mut graph = GitGraph::new();
    graph.set_rows(vec![
        dag_row(OID_M, "m0", vec![OID_C.to_string()], 0, vec![make_label("main")]),
        dag_row(OID_A, "a", vec![OID_B.to_string()], 1, vec![]),
        dag_row(OID_C, "c", vec![], 0, vec![]),
        dag_row(OID_B, "b", vec![OID_M.to_string()], 1, vec![]),
    ]);
    graph.selected = Some(1);
    graph.toggle_collapse_selected();
    assert!(collapsed(&graph, OID_A));
    assert_eq!(graph.rows.len(), 3);
    let (_, count) = graph.rows[1].collapsed.as_ref().unwrap();
    assert_eq!(*count, 2);
}

#[test]
fn tests_test_unlabeled_branch_collapsible() {
    let mut graph = GitGraph::new();
    graph.set_rows(make_branch_rows(vec![]));
    graph.selected = Some(1);
    graph.toggle_collapse_selected();
    assert!(!graph.collapsed_branches.is_empty());
    let placeholder = &graph.rows[1];
    assert!(placeholder.collapsed.is_some());
    assert!(placeholder.message.contains("a"));
}

#[test]
fn tests_test_abort_load_releases_latch() {
    let mut graph = GitGraph::new();
    graph.load_in_flight = true;
    graph.loading = true;
    graph.abort_load();
    assert!(!graph.load_in_flight, "latch must be released on abort");
    assert!(!graph.loading);
}

#[test]
fn tests_test_abort_load_consumes_pending_reload() {
    let mut graph = GitGraph::new();
    graph.load_in_flight = true;
    graph.needs_reload = true;
    graph.abort_load();
    assert!(!graph.load_in_flight);
    assert!(!graph.needs_reload, "pending reload flag must be consumed");
}

#[test]
fn test_abort_load_ignored_when_not_in_flight() {
    let mut graph = GitGraph::new();
    graph.load_in_flight = false;
    graph.needs_reload = true;
    graph.abort_load();
    assert!(graph.needs_reload, "stale abort must not consume a pending reload");
    assert!(graph.error.is_none(), "stale abort must not surface an error");
}

#[test]
fn test_abort_load_bounds_repeated_panics() {
    let mut graph = GitGraph::new();
    for _ in 0..=gitpanes::graph_view::MAX_CONSECUTIVE_ABORTS {
        graph.load_in_flight = true;
        graph.needs_reload = true;
        graph.abort_load();
    }
    assert!(graph.error.is_some(), "must surface an error once the retry budget is exhausted");
    assert!(!graph.needs_reload, "must stop replaying the coalesced reload after the budget");
}

#[test]
fn test_set_rows_resets_abort_counter() {
    let mut graph = GitGraph::new();
    graph.load_in_flight = true;
    graph.abort_load();
    assert_eq!(graph.consecutive_aborts, 1);
    graph.set_rows(vec![mock_row("abc1234", "ok", "Alice")]);
    assert_eq!(graph.consecutive_aborts, 0);
}

#[test]
fn placeholder_names_the_group_and_counts_its_commits() {
    let mut graph = GitGraph::new();
    graph.set_rows(make_branch_rows(vec![make_label("feature")]));
    graph.selected = Some(1);
    graph.toggle_collapse_selected();
    let placeholder = &graph.rows[1];
    assert_eq!(placeholder.message, "\u{25b6} feature (2 commits)");
    assert_eq!(placeholder.short_id, "");
    assert_eq!(placeholder.author, "");
    assert!(placeholder.labels.is_empty());
    assert_eq!(placeholder.oid, OID_A);
}

#[test]
fn segments_follow_first_parents_off_the_trunk() {
    let rows = vec![
        dag_row(OID_M, "m0", vec![OID_C.to_string()], 0, vec![make_label("main")]),
        dag_row(OID_A, "a", vec![OID_B.to_string()], 1, vec![make_label("topic")]),
        dag_row(OID_C, "c", vec![], 0, vec![]),
        dag_row(OID_B, "b", vec![OID_M.to_string()], 1, vec![]),
    ];
    let segs = gitpanes::segments::compute_branch_segments(&rows);
    assert_eq!(segs.len(), 1);
    assert_eq!(segs[0].id, OID_A);
    assert_eq!(segs[0].display_name, "topic");
    assert_eq!(segs[0].row_indices, vec![1, 3]);
}

#[test]
fn a_chain_that_loops_stops_at_its_own_rows() {
    // Duplicate oids make a row its own parent; the walk must end.
    let rows = vec![
        dag_row(OID_M, "m", vec![], 0, vec![]),
        dag_row(OID_A, "a", vec![OID_A.to_string()], 1, vec![]),
        dag_row(OID_B, "b", vec![OID_A.to_string()], 1, vec![]),
    ];
    let (segs, map) = gitpanes::segments::compute_segments(&rows);
    assert_eq!(segs.len(), 2);
    assert_eq!(segs[0].row_indices, vec![1]);
    assert_eq!(segs[1].row_indices, vec![2]);
    assert_eq!(map, vec![None, Some(0), Some(1)]);
}

#[test]
fn search_key_typing_backspace_and_enter() {
    let mut graph = GitGraph::new();
    graph.set_rows(vec![mock_row("a", "alpha", "X"), mock_row("b", "beta", "Y")]);
    graph.open_search();
    assert!(graph.search_visible());
    graph.handle_search_key(Key::Char('b'));
    graph.handle_search_key(Key::Char('x'));
    assert!(graph.search.matches.is_empty());
    graph.handle_search_key(Key::Backspace);
    assert_eq!(graph.search.input, "b");
    assert_eq!(graph.search.matches, vec![1]);
    graph.handle_search_key(Key::Enter);
    assert!(!graph.search_visible());
    assert_eq!(graph.selected, Some(1));
}

#[test]
fn stepping_to_the_next_match_and_back_returns_to_the_same_row() {
    let mut graph = GitGraph::new();
    graph.set_rows(vec![mock_row("a", "match", "X"), mock_row("b", "no", "Y"), mock_row("c", "match", "Z")]);
    graph.search.input = "match".to_string();
    graph.update_search_matches();
    for _ in 0..2 {
        let before = (graph.search.current_match, graph.selected);
        graph.search_next();
        graph.search_prev();
        assert_eq!((graph.search.current_match, graph.selected), before);
        graph.search_next();
    }
}
