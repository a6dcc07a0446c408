use gitpanes::power::{PaneAction, PaneEvent, PowerState, PowerTracker, QuitState};

#[test]
fn deep_sleep_drops_watcher_refreshes_and_wake_repaints() {
    let mut tracker = PowerTracker::new();
    assert!(tracker.step(PaneEvent::Power(PowerState::DeepSleep)).is_empty());
    assert!(tracker.step(PaneEvent::RepoChanged).is_empty(), "a hidden pane must not refresh on watcher events");
    let woke = tracker.step(PaneEvent::Power(PowerState::Awake));
    assert!(woke.iter().any(|a| *a == PaneAction::Render), "waking must repaint the stale frame");
}

#[test]
fn doze_still_refreshes_on_real_repo_changes() {
    let mut tracker = PowerTracker::new();
    tracker.step(PaneEvent::Power(PowerState::Doze));
    let actions = tracker.step(PaneEvent::RepoChanged);
    assert!(actions.iter().any(|a| *a == PaneAction::RefreshRepo), "a visible (dozing) pane must keep tracking real changes");
}

#[test]
fn root_change_while_deep_asleep_is_replayed_once_on_wake() {
    let mut tracker = PowerTracker::new();
    tracker.step(PaneEvent::Power(PowerState::DeepSleep));
    let mut during = tracker.step(PaneEvent::ReposRootChanged);
    during.extend(tracker.step(PaneEvent::ReposRootChanged));
    assert!(during.is_empty(), "no discovery walk while nobody can see the pane");
    let discoveries = tracker
        .step(PaneEvent::Power(PowerState::Awake))
        .iter()
        .filter(|a| **a == PaneAction::DiscoverNewRepos)
        .count();
    assert_eq!(discoveries, 1, "deferred root changes coalesce into one");
}

#[test]
fn doze_to_awake_does_not_replay_or_repaint() {
    let mut tracker = PowerTracker::new();
    let mut actions = tracker.step(PaneEvent::Power(PowerState::Doze));
    actions.extend(tracker.step(PaneEvent::Power(PowerState::Awake)));
    assert!(actions.is_empty());
}

#[test]
fn an_awake_pane_handles_root_changes_at_once() {
    let mut tracker = PowerTracker::new();
    assert_eq!(tracker.step(PaneEvent::ReposRootChanged), vec![PaneAction::RootChanged]);
    assert_eq!(tracker.step(PaneEvent::RepoChanged), vec![PaneAction::RefreshRepo]);
    tracker.step(PaneEvent::Power(PowerState::DeepSleep));
    assert_eq!(tracker.step(PaneEvent::Power(PowerState::Doze)), vec![PaneAction::Render]);
    assert!(!tracker.root_change_pending);
}

#[test]
fn quit_waits_for_mutating_git_ops_and_force_quits_on_second_request() {
    let mut quit = QuitState::new();
    assert!(!quit.ready_to_exit(0));

    // Quit with nothing in flight exits immediately.
    quit.request();
    assert!(quit.ready_to_exit(0));

    // An in-flight mutating op defers the exit...
    assert!(!quit.ready_to_exit(1));

    // ...unless the user insists with a second quit request.
    quit.request();
    assert!(quit.ready_to_exit(1));

    // Completion of the op re-enables the normal exit path.
    quit.force_quit = false;
    assert!(quit.ready_to_exit(0));
}
