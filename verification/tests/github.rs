use gitpanes::github::{panel_source, GhItem, GithubData, GithubState, GithubStateFilter, PanelSource, RequestIds};
use gitpanes::github_panel::{GithubPanel, ItemDetail, PanelEvent};
use gitpanes::input::Key;

fn data(title: &str, state: &str) -> GithubData {
    GithubData {
        issues: vec![GhItem {
            number: 1,
            title: title.into(),
            state: state.into(),
            is_draft: false,
            author: "alice".into(),
            updated_at: String::new(),
            url: "https://github.com/owner/repo/issues/1".into(),
            checks: None,
        }],
        prs: vec![],
    }
}

const NOW: u64 = 1_000_000;

/// The wall clock in milliseconds, as the cache stamps completed fetches.
fn now_ms() -> u64 {
    std::time::SystemTime::now().duration_since(std::time::UNIX_EPOCH).unwrap().as_millis() as u64
}

#[test]
fn filter_changes_load_independently_and_keep_out_of_order_responses_separate() {
    let mut ids = RequestIds::new();
    let mut cache = GithubState::new();
    let open = cache.begin_request(GithubStateFilter::Open, false, now_ms(), &mut ids).unwrap();
    let closed = cache.begin_request(GithubStateFilter::Closed, false, now_ms(), &mut ids).unwrap();
    cache.complete_request(closed, Ok(data("Closed issue", "CLOSED")));
    assert_eq!(cache.open_count(), 0);
    cache.complete_request(open, Ok(data("Open issue", "OPEN")));
    assert_eq!(cache.open_count(), 1);
    for (filter, title) in [(GithubStateFilter::Open, "Open issue"), (GithubStateFilter::Closed, "Closed issue")] {
        assert_eq!(cache.snapshot(filter).data.as_ref().unwrap().issues[0].title, title);
    }
}

#[test]
fn fresh_closed_results_do_not_suppress_loading_open_results() {
    let mut ids = RequestIds::new();
    let mut cache = GithubState::new();
    let request = cache.begin_request(GithubStateFilter::Closed, false, now_ms(), &mut ids).unwrap();
    cache.complete_request(request, Ok(data("Closed issue", "CLOSED")));
    let open = cache.begin_request(GithubStateFilter::Open, false, now_ms(), &mut ids).unwrap();
    cache.complete_request(open, Ok(data("Open issue", "OPEN")));
    assert_eq!(cache.open_count(), 1);
    assert!(cache.begin_request(GithubStateFilter::Open, false, now_ms(), &mut ids).is_none());
}

#[test]
fn readded_repository_rejects_response_from_its_previous_cache() {
    let mut ids = RequestIds::new();
    let mut previous = GithubState::new();
    let old_request = previous.begin_request(GithubStateFilter::Open, false, now_ms(), &mut ids).unwrap();
    let mut current = GithubState::new();
    let request = current.begin_request(GithubStateFilter::Open, false, now_ms(), &mut ids).unwrap();
    current.complete_request(old_request, Ok(data("Old result", "OPEN")));
    assert_eq!(current.open_count(), 0);
    current.complete_request(request, Ok(data("Current result", "OPEN")));
    assert_eq!(
        current.snapshot(GithubStateFilter::Open).data.as_ref().unwrap().issues[0].title,
        "Current result"
    );
}

#[test]
fn in_flight_request_blocks_a_second_one_even_when_forced() {
    let mut ids = RequestIds::new();
    let mut cache = GithubState::new();
    let first = cache.begin_request(GithubStateFilter::All, false, NOW, &mut ids);
    assert_eq!(first, Some(1));
    assert!(cache.begin_request(GithubStateFilter::All, true, NOW, &mut ids).is_none());
    assert_eq!(ids.next, 2);
}

#[test]
fn forced_request_ignores_the_cooldown_and_errors_keep_old_data() {
    let mut ids = RequestIds::new();
    let mut cache = GithubState::new();
    let first = cache.begin_request(GithubStateFilter::Open, false, NOW, &mut ids).unwrap();
    cache.complete_request_at(first, Ok(data("Open issue", "OPEN")), NOW);
    assert!(cache.begin_request(GithubStateFilter::Open, false, NOW + 1, &mut ids).is_none());
    let forced = cache.begin_request(GithubStateFilter::Open, true, NOW + 1, &mut ids).unwrap();
    cache.complete_request_at(forced, Err("gh: rate limited".to_string()), NOW + 2);
    let snap = cache.snapshot(GithubStateFilter::Open);
    assert_eq!(snap.error.as_deref(), Some("gh: rate limited"));
    assert_eq!(snap.data.as_ref().unwrap().issues[0].title, "Open issue");
    assert_eq!(snap.fetched_at, Some(NOW + 2));
}

#[test]
fn github_filter_cycles_and_labels() {
    let mut f = GithubStateFilter::default();
    let mut labels = Vec::new();
    for _ in 0..3 {
        labels.push((f.label(), f.gh_state()));
        f = f.next();
    }
    assert_eq!(labels, [("open", "open"), ("all", "all"), ("closed", "closed")]);
    assert_eq!(f, GithubStateFilter::Open);
}

fn item(n: u64) -> GhItem {
    GhItem {
        number: n,
        title: format!("title {n}"),
        state: "OPEN".into(),
        is_draft: false,
        author: "octocat".into(),
        updated_at: "2026-01-02T03:04:05Z".into(),
        url: format!("https://github.com/o/r/issues/{n}"),
        checks: None,
    }
}

fn panel() -> GithubPanel {
    GithubPanel::new()
}

#[test]
fn set_data_orders_issues_before_prs_and_counts_each() {
    let mut p = panel();
    p.set_data(vec![item(1), item(2)], vec![item(3)], "repo");
    assert_eq!(p.issue_count, 2);
    assert_eq!(p.pr_count, 1);
    assert_eq!(p.rows.len(), 3);
    assert!(!p.rows[0].is_pr);
    assert!(!p.rows[1].is_pr);
    assert!(p.rows[2].is_pr);
    assert_eq!(p.selected_url().as_deref(), Some("https://github.com/o/r/issues/1"));
}

#[test]
fn selection_persists_on_same_repo_and_resets_on_a_new_one() {
    let mut p = panel();
    p.set_data(vec![item(1), item(2), item(3)], vec![], "repo");
    p.selected = Some(2);
    p.set_data(vec![item(1), item(2), item(3)], vec![], "repo");
    assert_eq!(p.selected, Some(2), "same repo keeps selection");
    p.set_data(vec![item(9)], vec![], "other");
    assert_eq!(p.selected, Some(0), "new repo resets selection");
}

#[test]
fn empty_result_clears_selection_and_url() {
    let mut p = panel();
    p.set_data(vec![], vec![], "repo");
    assert_eq!(p.selected, None);
    assert!(p.selected_url().is_none());
}

#[test]
fn retargeting_to_a_new_repo_drops_stale_rows() {
    let mut p = panel();
    p.set_data(vec![item(1)], vec![item(2)], "repo");
    p.set_loading("other");
    assert!(p.rows.is_empty(), "loading a new repo clears old rows");
    assert_eq!(p.issue_count, 0);
    assert_eq!(p.pr_count, 0);
}

fn detail(n: u64) -> ItemDetail {
    ItemDetail { number: n, title: format!("title {n}"), author: "alice".into(), body: "body".into(), comments: vec![] }
}

#[test]
fn detail_opens_loads_and_discards_stale_results() {
    let mut p = panel();
    p.set_data(vec![item(1)], vec![], "repo");
    let request = p.open_selected_detail().expect("enter yields an action");
    assert!(!request.is_pr, "issue, not PR");
    let generation = request.generation;
    assert!(p.has_detail(), "pane is open (loading) once requested");
    p.set_detail(generation.wrapping_sub(1), Ok(detail(99)));
    assert!(p.detail.is_none(), "stale generation ignored");
    p.set_detail(generation, Ok(detail(1)));
    assert_eq!(p.detail.as_ref().unwrap().number, 1);
    p.close_detail();
    assert!(!p.has_detail(), "closing clears the pane");
}

#[test]
fn enter_on_the_list_asks_for_the_highlighted_items_detail() {
    let mut p = panel();
    p.set_data(vec![item(4)], vec![item(5)], "repo");
    p.handle_key_event(Key::Down);
    match p.handle_key_event(Key::Enter) {
        PanelEvent::ShowItem(req) => {
            assert!(req.is_pr);
            assert_eq!(req.url, "https://github.com/o/r/issues/5");
        },
        other => panic!("expected ShowItem, got {other:?}"),
    }
}

#[test]
fn closed_response_does_not_become_open_data_after_navigation() {
    let mut ids = RequestIds::new();
    let mut cache = GithubState::new();
    let request = cache.begin_request(GithubStateFilter::Closed, false, now_ms(), &mut ids).unwrap();
    cache.complete_request(request, Ok(data("Closed issue", "CLOSED")));
    assert_eq!(cache.open_count(), 0, "closed response changed the open count");
    assert_eq!(cache.snapshot(GithubStateFilter::Closed).data.as_ref().unwrap().issues[0].title, "Closed issue");
    assert_eq!(panel_source(Some(&cache), GithubStateFilter::Open, true), PanelSource::Loading);
    assert_eq!(panel_source(Some(&cache), GithubStateFilter::Closed, true), PanelSource::Cached);
}

#[test]
fn the_panel_source_follows_the_cache_of_the_filter() {
    let mut ids = RequestIds::new();
    assert_eq!(panel_source(None, GithubStateFilter::Open, true), PanelSource::Loading);
    assert_eq!(panel_source(None, GithubStateFilter::Open, false), PanelSource::GhMissing);
    let mut cache = GithubState::new();
    let request = cache.begin_request(GithubStateFilter::Open, false, NOW, &mut ids).unwrap();
    cache.complete_request_at(request, Err("boom".into()), NOW);
    assert_eq!(panel_source(Some(&cache), GithubStateFilter::Open, true), PanelSource::Failed);
    let mut plain = GithubState::new();
    plain.remote_checked_at = Some(NOW);
    assert_eq!(panel_source(Some(&plain), GithubStateFilter::All, true), PanelSource::NotGithub);
    plain.owner_repo = Some(("owner".into(), "repo".into()));
    assert_eq!(panel_source(Some(&plain), GithubStateFilter::All, true), PanelSource::Loading);
}

#[test]
fn request_ids_are_never_handed_out_twice_in_a_row() {
    let mut ids = RequestIds::new();
    let a = ids.take();
    let b = ids.take();
    let c = ids.take();
    assert!(a != b && b != c);
}

#[test]
fn request_ids_from_one_source_increase_across_caches() {
    let mut ids = RequestIds::new();
    let mut first = GithubState::new();
    let mut second = GithubState::new();
    let a = first.begin_request(GithubStateFilter::Open, false, 0, &mut ids).unwrap();
    let b = second.begin_request(GithubStateFilter::Open, false, 0, &mut ids).unwrap();
    let c = first.begin_request(GithubStateFilter::Closed, false, 0, &mut ids).unwrap();
    assert_eq!((a, b, c), (1, 2, 3));
    assert_eq!(ids.take(), 4);
}
