use gitpanes::dashboard::{AppCommand, AppEvent, Dashboard, RepoItem};
use gitpanes::sorting::SortOrder;
use gitpanes::watcher_slot::WatcherSlot;

fn item(path: &str, name: &str) -> RepoItem {
    RepoItem { path: path.to_string(), name: name.to_string(), dirty: false }
}

fn strings(v: &[&str]) -> Vec<String> {
    v.iter().map(|s| s.to_string()).collect()
}

fn board(repos: Vec<RepoItem>, roots: &[&str], pinned: &[&str]) -> Dashboard {
    Dashboard::new(repos, strings(roots), Vec::new(), strings(pinned), 500)
}

#[test]
fn removing_a_pinned_submodule_leaves_excluded_repos_untouched() {
    let mut app = board(
        vec![item("/tmp/r/parent", "parent"), item("/tmp/r/parent/sub", "sub")],
        &["/tmp/r"],
        &["/tmp/r/parent/sub"],
    );
    let excluded_before = app.excluded.clone();
    app.handle_event(AppEvent::RemoveRepo("/tmp/r/parent/sub".to_string()), 0);
    assert!(app.repos.iter().all(|r| r.name != "sub"));
    assert_eq!(app.excluded, excluded_before, "pinned submodule removal must not exclude by name");
    assert!(app.pinned.is_empty(), "the removed repository is no longer pinned");
}

#[test]
fn removing_a_discovered_repo_still_excludes_it() {
    let mut app = board(vec![item("/tmp/r/walker", "walker")], &["/tmp/r"], &[]);
    let cmds = app.handle_event(AppEvent::RemoveRepo("/tmp/r/walker".to_string()), 0);
    assert!(app.repos.is_empty());
    assert!(app.excluded.contains(&"walker".to_string()));
    assert!(app.selected.is_none());
    assert!(matches!(cmds.last(), Some(AppCommand::ClearPanels)));
    assert!(cmds.iter().any(|c| matches!(c, AppCommand::SaveConfig)));
    assert!(cmds.iter().any(|c| matches!(c, AppCommand::InvalidateGraph(p) if p == "/tmp/r/walker")));
}

#[test]
fn removing_the_active_context_repo_clears_active_worktree() {
    let mut app = board(
        vec![item("/tmp/r/parent", "parent"), item("/tmp/r/parent/sub", "sub")],
        &["/tmp/r"],
        &["/tmp/r/parent/sub"],
    );
    app.active_worktree = Some("/tmp/r/parent/sub".to_string());
    app.handle_event(AppEvent::RemoveRepo("/tmp/r/parent/sub".to_string()), 0);
    assert!(app.active_worktree.is_none());
}

#[test]
fn removing_one_repository_preserves_namesakes_and_prefix_siblings() {
    let mut app = board(
        vec![item("/a/app", "app"), item("/b/app", "app"), item("/a/app-two", "app-two")],
        &[],
        &[],
    );
    app.active_worktree = Some("/a/app-two".to_string());
    app.selected = Some(0);
    let cmds = app.handle_event(AppEvent::RemoveRepo("/a/app".to_string()), 0);
    let paths: Vec<&str> = app.repos.iter().map(|r| r.path.as_str()).collect();
    assert_eq!(paths, vec!["/b/app", "/a/app-two"]);
    assert_eq!(app.active_worktree.as_deref(), Some("/a/app-two"), "a sibling sharing a prefix keeps its context");
    assert_eq!(app.selected, Some(0));
    assert!(matches!(cmds.last(), Some(AppCommand::SelectRepo(p)) if p == "/b/app"));
    assert!(app.excluded.is_empty(), "outside every root nothing is excluded");
}

#[test]
fn removing_the_last_row_selects_the_new_last_row() {
    let mut app = board(vec![item("/x/a", "a"), item("/x/b", "b")], &[], &[]);
    app.selected = Some(1);
    let cmds = app.handle_event(AppEvent::RemoveRepo("/x/b".to_string()), 0);
    assert_eq!(app.selected, Some(0));
    assert!(matches!(cmds.last(), Some(AppCommand::SelectRepo(p)) if p == "/x/a"));
}

#[test]
fn removing_an_unlisted_repository_changes_nothing() {
    let mut app = board(vec![item("/x/a", "a")], &["/x"], &[]);
    app.selected = Some(0);
    let cmds = app.handle_event(AppEvent::RemoveRepo("/x/zzz".to_string()), 0);
    assert!(cmds.is_empty());
    assert_eq!(app.repos.len(), 1);
    assert_eq!(app.selected, Some(0));
}

#[test]
fn selecting_a_repo_shows_it_and_drops_the_worktree_context() {
    let mut app = board(vec![item("/x/a", "a"), item("/x/b", "b")], &[], &[]);
    app.active_worktree = Some("/x/a/wt".to_string());
    let cmds = app.handle_event(AppEvent::SelectRepo("/x/b".to_string()), 0);
    assert_eq!(app.selected, Some(1));
    assert!(app.active_worktree.is_none());
    assert!(matches!(cmds.as_slice(), [AppCommand::HideContextMenu, AppCommand::ShowRepo(1)]));
}

#[test]
fn a_refresh_queries_at_once_and_marks_changes_during_the_query() {
    let mut app = board(vec![item("/x/a", "a")], &[], &[]);
    let first = app.handle_event(AppEvent::RefreshRepo("/x/a".to_string()), 1_000);
    assert!(matches!(first.as_slice(), [AppCommand::QueryStatus(p)] if p == "/x/a"));
    assert_eq!(app.pending_status, vec!["/x/a".to_string()]);

    let second = app.handle_event(AppEvent::RefreshRepo("/x/a".to_string()), 1_010);
    assert!(second.is_empty(), "no second query while one runs");
    assert_eq!(app.dirty_repos, vec!["/x/a".to_string()]);

    // The query ends: the change seen meanwhile waits out the cooldown.
    let done = app.handle_event(AppEvent::StatusUpdated("/x/a".to_string(), false), 1_100);
    assert!(matches!(done.as_slice(), [AppCommand::WakeAfter(p, 500)] if p == "/x/a"));
    assert!(app.pending_status.is_empty());
    assert!(app.dirty_repos.is_empty());
    assert_eq!(app.refresh_scheduled, vec!["/x/a".to_string()]);
    assert_eq!(app.last_refresh, vec![("/x/a".to_string(), 1_100)]);

    // Another change inside the cooldown schedules nothing twice.
    let again = app.handle_event(AppEvent::RefreshRepo("/x/a".to_string()), 1_200);
    assert!(again.is_empty());

    // The wake-up comes due after the cooldown: the query runs.
    let due = app.handle_event(AppEvent::RefreshRepoAfterCooldown("/x/a".to_string()), 1_700);
    assert!(matches!(due.as_slice(), [AppCommand::QueryStatus(p)] if p == "/x/a"));
    assert!(app.refresh_scheduled.is_empty());
}

#[test]
fn a_status_for_the_selected_repo_refreshes_its_panels() {
    let mut app = board(vec![item("/x/a", "a"), item("/x/b", "b")], &[], &[]);
    app.selected = Some(1);
    let cmds = app.handle_event(AppEvent::StatusUpdated("/x/b".to_string(), false), 10);
    assert!(matches!(cmds.as_slice(), [AppCommand::RefreshPanels(1)]));
    let other = app.handle_event(AppEvent::StatusUpdated("/x/a".to_string(), false), 10);
    assert!(other.is_empty());
    app.active_worktree = Some("/x/b/wt".to_string());
    let hidden = app.handle_event(AppEvent::StatusUpdated("/x/b".to_string(), false), 20);
    assert!(hidden.is_empty(), "a worktree's changes come from the worktree, not the parent");
}

#[test]
fn a_failed_query_requeues_a_changed_repo() {
    let mut app = board(vec![item("/x/a", "a")], &[], &[]);
    app.refresh_cooldown_ms = 0;
    app.handle_event(AppEvent::RefreshRepo("/x/a".to_string()), 5);
    app.handle_event(AppEvent::RefreshRepo("/x/a".to_string()), 6);
    let cmds = app.handle_event(AppEvent::StatusQueryDone("/x/a".to_string()), 7);
    assert!(matches!(cmds.as_slice(), [AppCommand::QueryStatus(p)] if p == "/x/a"));
    assert_eq!(app.pending_status, vec!["/x/a".to_string()]);
}

#[test]
fn a_wake_up_that_was_not_scheduled_does_nothing() {
    let mut app = board(vec![item("/x/a", "a")], &[], &[]);
    let cmds = app.handle_event(AppEvent::RefreshRepoAfterCooldown("/x/a".to_string()), 5);
    assert!(cmds.is_empty());
    assert!(app.pending_status.is_empty());
}

#[test]
fn quit_is_recorded() {
    let mut app = board(Vec::new(), &[], &[]);
    assert!(app.handle_event(AppEvent::Quit, 0).is_empty());
    assert!(app.should_quit);
}

#[test]
fn focusing_repo_details_shows_the_parent_without_moving_the_selection() {
    let mut app = board(vec![item("/x/a", "a"), item("/x/b", "b")], &[], &[]);
    app.selected = Some(0);
    app.active_worktree = Some("/x/b/wt".to_string());
    let cmds = app.handle_event(AppEvent::FocusRepoDetails("/x/b".to_string()), 0);
    assert_eq!(app.selected, Some(0));
    assert!(app.active_worktree.is_none());
    assert!(matches!(cmds.as_slice(), [AppCommand::HideContextMenu, AppCommand::ShowRepo(1)]));
}

#[test]
fn selecting_a_worktree_titles_it_after_repo_and_branch() {
    let mut app = board(vec![item("/x/a", "alpha")], &[], &[]);
    let cmds = app.handle_event(
        AppEvent::SelectWorktree("/x/a".to_string(), "/x/a-feature".to_string(), "feature".to_string()),
        0,
    );
    assert_eq!(app.active_worktree.as_deref(), Some("/x/a-feature"));
    match cmds.as_slice() {
        [AppCommand::HideContextMenu, AppCommand::ShowWorktree(repo, path, title)] => {
            assert_eq!(repo, "/x/a");
            assert_eq!(path, "/x/a-feature");
            assert_eq!(title, "alpha:feature");
        }
        other => panic!("unexpected commands: {other:?}"),
    }
    // Files for this worktree apply; files for another do not.
    assert!(matches!(
        app.handle_event(AppEvent::WorktreeFilesLoaded("/x/a-feature".to_string()), 0).as_slice(),
        [AppCommand::ApplyWorktreeFiles]
    ));
    assert!(app.handle_event(AppEvent::WorktreeFilesLoaded("/x/other".to_string()), 0).is_empty());
}

#[test]
fn a_rescan_forgets_the_tracking_and_the_exclusions() {
    let mut app = board(vec![item("/x/a", "a")], &[], &[]);
    app.excluded = vec!["old".to_string()];
    app.handle_event(AppEvent::RefreshRepo("/x/a".to_string()), 0);
    app.handle_event(AppEvent::RefreshRepo("/x/a".to_string()), 1);
    let cmds = app.handle_event(AppEvent::RescanRepos, 2);
    assert!(app.pending_status.is_empty() && app.dirty_repos.is_empty());
    assert!(app.refresh_scheduled.is_empty() && app.last_refresh.is_empty());
    assert!(app.excluded.is_empty());
    assert!(matches!(cmds.as_slice(), [AppCommand::InvalidateAllGraphs, AppCommand::SaveConfig, AppCommand::Rediscover]));
}

#[test]
fn cycling_the_sort_keeps_the_selected_repo() {
    let mut app = board(vec![item("/t/aaa", "aaa"), item("/t/zzz", "zzz")], &[], &[]);
    app.selected = Some(1);
    let cmds = app.handle_event(AppEvent::CycleSortOrder, 0);
    assert_eq!(app.sort_order, SortOrder::ReverseAlphabetical);
    let names: Vec<&str> = app.repos.iter().map(|r| r.name.as_str()).collect();
    assert_eq!(names, vec!["zzz", "aaa"]);
    assert_eq!(app.selected, Some(0), "zzz leads the Z-A order");
    assert!(matches!(cmds.as_slice(), [AppCommand::SortMessage(SortOrder::ReverseAlphabetical), AppCommand::ShowRepo(0)]));
}

#[test]
fn dirty_first_sorts_by_the_latest_statuses() {
    let mut app = board(vec![item("/t/a", "a"), item("/t/b", "B"), item("/t/c", "c")], &[], &[]);
    app.handle_event(AppEvent::StatusUpdated("/t/c".to_string(), true), 0);
    assert!(app.repos[2].dirty);
    app.handle_event(AppEvent::CycleSortOrder, 0);
    app.handle_event(AppEvent::CycleSortOrder, 0);
    assert_eq!(app.sort_order, SortOrder::DirtyFirst);
    let names: Vec<&str> = app.repos.iter().map(|r| r.name.as_str()).collect();
    assert_eq!(names, vec!["c", "a", "B"]);
    assert!(app.selected.is_none());
}

#[test]
fn older_watcher_completion_cannot_replace_newer_membership() {
    let mut slot: WatcherSlot<String> = WatcherSlot::new();
    let older = slot.request();
    let newer = slot.request();
    assert!(slot.install(newer, "new".to_string()));
    assert!(!slot.install(older, "old".to_string()));
    assert_eq!(slot.watcher.as_deref(), Some("new"));
    // In order, each build takes over.
    let latest = slot.request();
    assert!(slot.install(latest, "latest".to_string()));
    assert_eq!(slot.watcher.as_deref(), Some("latest"));
    // A ticket never handed out installs nothing.
    assert!(!slot.install(latest + 5, "bogus".to_string()));
}

#[test]
fn confirm_remove_repo_asks_before_removing() {
    let mut app = board(vec![item("/t/keeper", "keeper")], &["/t"], &[]);
    let cmds = app.handle_event(AppEvent::ConfirmRemoveRepo("/t/keeper".to_string()), 0);
    assert_eq!(app.repos.len(), 1);
    match cmds.as_slice() {
        [AppCommand::AskRemove(name, id)] => {
            assert_eq!(name, "keeper");
            assert_eq!(id, "/t/keeper");
        }
        other => panic!("unexpected commands: {other:?}"),
    }
}

#[test]
fn add_repo_focuses_the_repo_list_on_the_new_row() {
    let mut app = board(vec![item("/t/existing", "existing")], &[], &[]);
    let cmds = app.handle_event(AppEvent::AddRepo("/t/newcomer".to_string(), true), 0);
    let idx = app.repos.iter().position(|r| r.path == "/t/newcomer").expect("newcomer listed");
    assert_eq!(app.repos[idx].name, "newcomer");
    assert_eq!(app.pinned, vec!["/t/newcomer".to_string()]);
    match cmds.as_slice() {
        [AppCommand::HidePathInput, AppCommand::FocusRepos, AppCommand::SaveConfig, AppCommand::RefreshRepo(r), AppCommand::SelectRepo(s)] => {
            assert_eq!(r, "/t/newcomer");
            assert_eq!(s, "/t/newcomer");
        }
        other => panic!("unexpected commands: {other:?}"),
    }
    let select = app.handle_event(AppEvent::SelectRepo("/t/newcomer".to_string()), 0);
    assert_eq!(app.selected, Some(idx));
    assert!(matches!(select.as_slice(), [AppCommand::HideContextMenu, AppCommand::ShowRepo(i)] if *i == idx));
}

#[test]
fn adding_a_listed_repo_only_selects_it() {
    let mut app = board(vec![item("/t/existing", "existing")], &[], &[]);
    let cmds = app.handle_event(AppEvent::AddRepo("/t/existing".to_string(), true), 0);
    assert_eq!(app.repos.len(), 1);
    assert!(matches!(cmds.as_slice(), [AppCommand::HidePathInput, AppCommand::FocusRepos, AppCommand::AlreadyListed, AppCommand::SelectRepo(p)] if p == "/t/existing"));
}

#[test]
fn adding_a_path_that_is_no_repository_keeps_the_input_open() {
    let mut app = board(Vec::new(), &[], &[]);
    let cmds = app.handle_event(AppEvent::AddRepo("/t/plain".to_string(), false), 0);
    assert!(app.repos.is_empty());
    assert!(matches!(cmds.as_slice(), [AppCommand::PathInputError]));
}

#[test]
fn an_added_repo_sorts_into_the_list_and_keeps_the_selection() {
    let mut app = board(vec![item("/t/b", "b"), item("/t/d", "d")], &[], &[]);
    app.selected = Some(1);
    app.handle_event(AppEvent::AddRepo("/t/a".to_string(), true), 0);
    let names: Vec<&str> = app.repos.iter().map(|r| r.name.as_str()).collect();
    assert_eq!(names, vec!["a", "b", "d"]);
    assert_eq!(app.selected, Some(2), "the selection stays on d");
}
