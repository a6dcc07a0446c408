use gitpanes::refresh::{refresh_decision, RefreshDecision};
use gitpanes::status::{graph_status_changed, test_status, BranchFilter, StashEntry};

#[test]
fn app_refresh_decision_runs_without_previous_refresh() {
    let now = 5_000;
    assert_eq!(refresh_decision(None, now, 1000), RefreshDecision::Now);
}

#[test]
fn app_refresh_decision_delays_inside_cooldown() {
    let last = 5_000;
    let now = last + 250;
    assert_eq!(refresh_decision(Some(last), now, 1000), RefreshDecision::Later(750));
}

#[test]
fn app_refresh_decision_runs_after_cooldown() {
    let last = 5_000;
    let now = last + 1000;
    assert_eq!(refresh_decision(Some(last), now, 1000), RefreshDecision::Now);
}

#[test]
fn app_graph_status_changed_ignores_file_only_changes() {
    let previous = test_status("main", Some("aaa"));
    let next = test_status("main", Some("aaa"));
    assert!(!graph_status_changed(Some(&previous), &next, BranchFilter::All));
}

#[test]
fn app_graph_status_changed_detects_head_changes() {
    let previous = test_status("main", Some("aaa"));
    let next = test_status("main", Some("bbb"));
    assert!(graph_status_changed(Some(&previous), &next, BranchFilter::All));
}

#[test]
fn app_graph_status_changed_detects_stash_changes() {
    let previous = test_status("main", Some("aaa"));
    let mut next = test_status("main", Some("aaa"));
    next.stashes.push(StashEntry { index: 0, message: "WIP on main".to_string(), oid: "stash-oid".to_string() });
    assert!(graph_status_changed(Some(&previous), &next, BranchFilter::All));
}

#[test]
fn app_graph_status_changed_detects_commit_on_other_branch() {
    let previous = test_status("main", Some("aaa"));
    let mut next = test_status("main", Some("aaa"));
    next.refs.local = previous.refs.local ^ 0x9e37_79b9;
    assert!(graph_status_changed(Some(&previous), &next, BranchFilter::All));
    assert!(graph_status_changed(Some(&previous), &next, BranchFilter::Local));
}

#[test]
fn app_graph_status_changed_local_filter_ignores_remote_only_moves() {
    let previous = test_status("main", Some("aaa"));
    let mut next = test_status("main", Some("aaa"));
    next.refs.remote = previous.refs.remote ^ 0x1234_5678;
    assert!(!graph_status_changed(Some(&previous), &next, BranchFilter::Local));
    assert!(graph_status_changed(Some(&previous), &next, BranchFilter::All));
}

#[test]
fn tests_refresh_decision_runs_without_previous_refresh() {
    let now = 0;
    assert_eq!(refresh_decision(None, now, 1000), RefreshDecision::Now);
}

#[test]
fn tests_refresh_decision_delays_inside_cooldown() {
    let last = 123_456;
    let now = last + 250;
    assert_eq!(refresh_decision(Some(last), now, 1000), RefreshDecision::Later(750));
}

#[test]
fn tests_refresh_decision_runs_after_cooldown() {
    let last = 123_456;
    let now = last + 1000;
    assert_eq!(refresh_decision(Some(last), now, 1000), RefreshDecision::Now);
}

#[test]
fn tests_graph_status_changed_ignores_file_only_changes() {
    let previous = test_status("main", Some("aaa"));
    let next = test_status("main", Some("aaa"));
    assert!(!graph_status_changed(Some(&previous), &next, BranchFilter::All));
}

#[test]
fn tests_graph_status_changed_detects_head_changes() {
    let previous = test_status("main", Some("aaa"));
    let next = test_status("main", Some("bbb"));
    assert!(graph_status_changed(Some(&previous), &next, BranchFilter::All));
}

#[test]
fn tests_graph_status_changed_detects_stash_changes() {
    let previous = test_status("main", Some("aaa"));
    let mut next = test_status("main", Some("aaa"));
    next.stashes.push(StashEntry { index: 0, message: "WIP on main".to_string(), oid: "stash-oid".to_string() });
    assert!(graph_status_changed(Some(&previous), &next, BranchFilter::All));
}

#[test]
fn tests_graph_status_changed_detects_commit_on_other_branch() {
    let previous = test_status("main", Some("aaa"));
    let mut next = test_status("main", Some("aaa"));
    next.refs.local = previous.refs.local ^ 0x9e37_79b9;
    assert!(graph_status_changed(Some(&previous), &next, BranchFilter::All));
    assert!(graph_status_changed(Some(&previous), &next, BranchFilter::Local));
}

#[test]
fn tests_graph_status_changed_local_filter_ignores_remote_only_moves() {
    let previous = test_status("main", Some("aaa"));
    let mut next = test_status("main", Some("aaa"));
    next.refs.remote = previous.refs.remote ^ 0x1234_5678;
    assert!(!graph_status_changed(Some(&previous), &next, BranchFilter::Local));
    assert!(graph_status_changed(Some(&previous), &next, BranchFilter::All));
}

#[test]
fn refresh_decision_with_clock_behind_runs_later_for_the_full_cooldown() {
    assert_eq!(refresh_decision(Some(10_000), 9_000, 1000), RefreshDecision::Later(1000));
}

#[test]
fn graph_status_changed_without_previous_status_reloads() {
    let next = test_status("main", Some("aaa"));
    assert!(graph_status_changed(None, &next, BranchFilter::All));
}

#[test]
fn graph_status_changed_tag_moves_reload_graphs_that_draw_refs() {
    let previous = test_status("main", Some("aaa"));
    let mut next = test_status("main", Some("aaa"));
    next.refs.tags = 7;
    assert!(graph_status_changed(Some(&previous), &next, BranchFilter::All));
    assert!(graph_status_changed(Some(&previous), &next, BranchFilter::Local));
    assert!(!graph_status_changed(Some(&previous), &next, BranchFilter::NoRefs));
}
