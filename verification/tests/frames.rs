use gitpanes::dialog::ConfirmDialog;
use gitpanes::file_list::FileList;
use gitpanes::graph::{make_label, GraphRow};
use gitpanes::github::{panel_visible, toggle_panel, GhItem, GithubState, PanelToggle};
use gitpanes::github_frame::{detail_lines, row_text, DetailBody, DetailLineKind, TagKind};
use gitpanes::github_panel::{GithubPanel, ItemComment, ItemDetail, PanelRow, PanelStatus};
use gitpanes::graph_frame::{detail_rects, diff_line_kind, diff_title, file_change_kind, files_title, message_title, DiffLineKind, FileChangeKind, GraphBody};
use gitpanes::text::split_lines;
use gitpanes::graph_view::GitGraph;
use gitpanes::layout::Rect;
use gitpanes::overlay::{clear_expired_messages, help_area, help_lines, help_title, toast_rect, HelpLine, UpdatePosition};
use gitpanes::repo_admin::{context_removed, exclude_on_removal, remove_prompt, selection_after_removal, sort_message};
use gitpanes::repo_sort::{position_after_sort, sorted_order, RepoKey};
use gitpanes::routing::{keybinding_index, FocusPanel, PanelLayout, Seam};
use gitpanes::sorting::SortOrder;
use gitpanes::status::{FileEntry, FileStatus, SubmoduleWarn};

fn key(name: &str, dirty: bool) -> RepoKey {
    RepoKey { name: name.to_string(), dirty }
}

fn names(keys: &[RepoKey], order: &[usize]) -> Vec<String> {
    order.iter().map(|&i| keys[i].name.clone()).collect()
}

#[test]
fn sort_repos_is_case_insensitive_in_both_directions() {
    let keys = vec![key("zzz", false), key("Presentations", false), key("aaa", false)];
    let az = sorted_order(&keys, SortOrder::Alphabetical);
    assert_eq!(names(&keys, &az), ["aaa", "Presentations", "zzz"]);
    let za = sorted_order(&keys, SortOrder::ReverseAlphabetical);
    assert_eq!(names(&keys, &za), ["zzz", "Presentations", "aaa"]);
}

#[test]
fn sort_repos_intermixes_pinned_repos() {
    // The pinned `zzz` was listed last; it keeps its place by name only.
    let keys = vec![key("zzz", false), key("aaa", false)];
    assert_eq!(names(&keys, &sorted_order(&keys, SortOrder::Alphabetical)), ["aaa", "zzz"]);
    assert_eq!(names(&keys, &sorted_order(&keys, SortOrder::ReverseAlphabetical)), ["zzz", "aaa"]);
}

#[test]
fn dirty_repositories_come_first_then_by_name() {
    let keys = vec![key("b", false), key("D", true), key("a", false), key("c", true)];
    assert_eq!(names(&keys, &sorted_order(&keys, SortOrder::DirtyFirst)), ["c", "D", "a", "b"]);
}

#[test]
fn equal_names_keep_their_order() {
    let keys = vec![key("Same", false), key("same", true), key("SAME", false)];
    assert_eq!(sorted_order(&keys, SortOrder::Alphabetical), vec![0, 1, 2]);
    assert_eq!(sorted_order(&keys, SortOrder::ReverseAlphabetical), vec![2, 1, 0]);
}

#[test]
fn sort_keeps_the_selected_repo() {
    let keys = vec![key("aaa", false), key("zzz", false)];
    let za = sorted_order(&keys, SortOrder::ReverseAlphabetical);
    assert_eq!(position_after_sort(&za, 1), Some(0));
    assert_eq!(position_after_sort(&za, 0), Some(1));
    assert_eq!(position_after_sort(&za, 5), None);
}

#[test]
fn exclusion_rule_excludes_a_discovered_repo() {
    let listed = vec!["/root/walker".to_string()];
    let roots = vec!["/root".to_string()];
    assert!(exclude_on_removal("/root/walker", "walker", &listed, &roots, &vec![]));
    assert!(!exclude_on_removal("/root/walker", "walker", &listed, &roots, &vec!["walker".to_string()]));
}

#[test]
fn exclusion_rule_spares_a_pinned_submodule() {
    let listed = vec!["/root/parent".to_string(), "/root/parent/sub".to_string()];
    let roots = vec!["/root".to_string()];
    assert!(!exclude_on_removal("/root/parent/sub", "sub", &listed, &roots, &vec![]), "pinned submodule removal must not exclude by name");
}

#[test]
fn removing_an_outside_or_namesake_repository() {
    let roots = vec!["/root".to_string()];
    assert!(!exclude_on_removal("/elsewhere/x", "x", &vec!["/elsewhere/x".to_string()], &roots, &vec![]));
    // A name that merely starts like a listed repository is no submodule.
    let siblings = vec!["/root/app".to_string(), "/root/app-two".to_string()];
    assert!(exclude_on_removal("/root/app-two", "app-two", &siblings, &roots, &vec![]));
}

#[test]
fn context_rule_drops_a_context_inside_the_removed_repo() {
    let entry_path = "/root/parent/sub";
    assert!(context_removed(entry_path, entry_path));
}

#[test]
fn removal_prompt_names_the_repository() {
    let listed = vec!["/root/keeper".to_string()];
    let mut dialog: ConfirmDialog<usize> = ConfirmDialog::new();
    dialog.show(remove_prompt("keeper"), 0);
    assert_eq!(listed.len(), 1);
    assert!(dialog.visible);
    assert_eq!(dialog.message, "Remove keeper?");
}

#[test]
fn app_opens_with_the_repo_list_already_sorted() {
    // Displays are breadcrumbs: the basename order (bravo, zulu) is the reverse.
    let keys = vec![key("zeta/bravo", false), key("alpha/zulu", false)];
    let at_startup = sorted_order(&keys, SortOrder::Alphabetical);
    assert_eq!(names(&keys, &at_startup), ["alpha/zulu", "zeta/bravo"]);
    let listed: Vec<RepoKey> = at_startup.iter().map(|&i| keys[i].clone()).collect();
    assert_eq!(sorted_order(&listed, SortOrder::Alphabetical), vec![0, 1], "first rescan reshuffled the list");
}

#[test]
fn removal_messages_and_selection() {
    assert!(context_removed("/root/parent/sub/wt", "/root/parent/sub"));
    assert!(!context_removed("/root/parent/subway", "/root/parent/sub"));
    assert_eq!(selection_after_removal(3, 3), Some(2));
    assert_eq!(selection_after_removal(1, 3), Some(1));
    assert_eq!(selection_after_removal(0, 0), None);
    assert_eq!(remove_prompt("keeper"), "Remove keeper?");
    assert_eq!(sort_message(SortOrder::DirtyFirst), "sort: Dirty");
}

fn help_text(lines: &[HelpLine]) -> Vec<String> {
    lines
        .iter()
        .map(|l| match l {
            HelpLine::Section(s) => format!("#{s}"),
            HelpLine::Binding(k, d) => format!("{k}={d}"),
            HelpLine::Blank => String::new(),
        })
        .collect()
}

#[test]
fn the_help_lists_global_keys_then_the_focused_panel() {
    let github = help_text(&help_lines(FocusPanel::GitHub));
    assert_eq!(github.len(), 19);
    assert_eq!(github[0], "#Global");
    assert_eq!(github[9], "p=Toggle GitHub panel");
    assert_eq!(github[12], "");
    assert_eq!(github[13], "#GitHub");
    assert_eq!(github[18], "p=Hide panel");
    assert_eq!(help_lines(FocusPanel::Graph).len(), 26);
    assert_eq!(help_lines(FocusPanel::Changes).len(), 17);
    assert_eq!(help_title(FocusPanel::Changes), " Keybindings \u{2014} Changes ");
}

#[test]
fn the_help_box_is_centered_and_shrinks_to_the_area() {
    assert_eq!(help_area(Rect::new(0, 0, 100, 40), 19), Rect::new(29, 9, 42, 21));
    assert_eq!(help_area(Rect::new(5, 2, 30, 10), 19), Rect::new(5, 2, 30, 10));
}

#[test]
fn the_update_notice_sits_in_its_corner_when_it_fits() {
    let area = Rect::new(0, 0, 80, 20);
    assert_eq!(toast_rect(area, 5, UpdatePosition::TopRight), Some(Rect::new(47, 0, 32, 3)));
    assert_eq!(toast_rect(area, 5, UpdatePosition::TopLeft), Some(Rect::new(1, 0, 32, 3)));
    assert_eq!(toast_rect(Rect::new(0, 0, 31, 20), 5, UpdatePosition::TopLeft), None);
    assert_eq!(toast_rect(Rect::new(0, 0, 80, 2), 5, UpdatePosition::TopLeft), None);
    assert_eq!(toast_rect(Rect::new(3, 0, 32, 5), 5, UpdatePosition::TopRight), Some(Rect::new(3, 0, 32, 3)));
}

#[test]
fn errors_stay_five_seconds_and_successes_three() {
    let mut error = Some(("boom".to_string(), 1_000));
    let mut success = Some(("done".to_string(), 1_000));
    assert!(!clear_expired_messages(&mut error, &mut success, 3_999));
    assert!(clear_expired_messages(&mut error, &mut success, 4_000));
    assert!(error.is_some() && success.is_none());
    assert!(clear_expired_messages(&mut error, &mut success, 6_000));
    assert!(error.is_none());
    assert!(!clear_expired_messages(&mut error, &mut success, 9_000));
}

fn graph_row(msg: &str) -> GraphRow {
    GraphRow {
        commit_col: 0,
        oid: "ab".repeat(20),
        short_id: "abababa".to_string(),
        message: msg.to_string(),
        author: "Alice".to_string(),
        time: 0,
        labels: vec![make_label("main")],
        is_merge: false,
        parent_oids: Vec::new(),
        diff_stat: None,
        collapsed: None,
    }
}

#[test]
fn the_graph_title_names_the_mode_the_collapsed_groups_and_the_filters() {
    let mut graph = GitGraph::new();
    graph.repo_name = "repo".to_string();
    assert_eq!(graph.list_title(), " Git Graph \u{2014} repo ");
    graph.graph_options.first_parent = true;
    graph.collapsed_branches = vec!["a".into(), "b".into()];
    assert_eq!(graph.list_title(), " Git Graph \u{2014} repo [1st-parent] (2 collapsed) ");
    graph.graph_options.filters.authors = Some(vec!["Alice".into()]);
    graph.filter_authors = vec!["Alice".into(), "Bob".into(), "Eve".into()];
    assert_eq!(graph.filter_summary().as_deref(), Some(" [authors 1/3]"));
    graph.graph_options.filters.branches = Some(vec![]);
    graph.filter_branches = vec!["main".into()];
    assert_eq!(graph.filter_summary().as_deref(), Some(" [branches 0/1, authors 1/3]"));
}

#[test]
fn the_graph_body_and_dimmed_rows() {
    let mut graph = GitGraph::new();
    graph.loading = true;
    assert_eq!(graph.list_body(), GraphBody::Loading);
    graph.loading = false;
    assert_eq!(graph.list_body(), GraphBody::Empty);
    graph.error = Some("broken".into());
    assert_eq!(graph.list_body(), GraphBody::Failed);
    graph.error = None;
    graph.set_rows(vec![graph_row("one"), graph_row("two")]);
    assert_eq!(graph.list_body(), GraphBody::Rows);
    assert!(!graph.row_dimmed(1));
    graph.search.input = "one".into();
    graph.search.matches = vec![0];
    assert!(!graph.row_dimmed(0));
    assert!(graph.row_dimmed(1));
    assert_eq!(message_title("abcdef0123"), " Message \u{2014} abcdef0 ");
    assert_eq!(message_title("abc"), " Message \u{2014} abc ");
}

fn entry(path: &str) -> FileEntry {
    FileEntry {
        path: path.to_string(),
        status: FileStatus::Modified,
        staged: false,
        unstaged: true,
        is_submodule: false,
        submodule_state: None,
        submodule_warn: SubmoduleWarn::default(),
        submodule_head: None,
    }
}

#[test]
fn the_changes_title_shows_the_search_input() {
    let mut list = FileList::new();
    assert_eq!(list.list_title(), " Changes ");
    assert_eq!(list.empty_note(), Some("Select a repository"));
    list.set_files(vec![], "repo", "/repo");
    assert_eq!(list.empty_note(), Some("No changes"));
    list.set_files(vec![entry("src/main.rs"), entry("README.md")], "repo", "/repo");
    assert_eq!(list.empty_note(), None);
    assert_eq!(list.list_title(), " Changes \u{2014} repo ");
    list.searching = true;
    assert_eq!(list.list_title(), " Changes \u{2014} repo  /\u{258f} ");
    assert_eq!(list.search_input_line().as_deref(), Some(" /\u{258f} "));
}

#[test]
fn seams_follow_the_layout() {
    let mut layout = PanelLayout {
        repo_area: Rect::new(0, 0, 30, 20),
        changes_area: Rect::new(30, 0, 30, 20),
        graph_area: Rect::new(60, 0, 40, 20),
        github_area: Rect::new(100, 0, 20, 20),
        horizontal_layout: true,
        github_visible: false,
        dragging_border: Some(1),
        focus: FocusPanel::Repos,
    };
    assert_eq!(
        layout.seams(),
        vec![
            Seam { border: 0, active: false, first: 29, second: 30 },
            Seam { border: 1, active: true, first: 59, second: 60 },
        ]
    );
    layout.horizontal_layout = false;
    layout.changes_area = Rect::new(0, 7, 30, 7);
    layout.graph_area = Rect::new(0, 14, 30, 6);
    assert_eq!(layout.seams(), vec![Seam { border: 1, active: true, first: 14, second: 14 }]);
    layout.dragging_border = None;
    assert_eq!(layout.seams(), vec![]);
}

fn item(number: u64, title: &str, draft: bool) -> GhItem {
    GhItem {
        number,
        title: title.to_string(),
        state: "OPEN".to_string(),
        is_draft: draft,
        author: "alice".to_string(),
        updated_at: "2024-05-06T07:08:09Z".to_string(),
        url: format!("https://github.com/o/r/issues/{number}"),
        checks: None,
    }
}

#[test]
fn github_rows_show_number_tag_title_author_and_date() {
    let t = row_text(&PanelRow { is_pr: true, item: item(42, "Fix it", true) });
    assert_eq!(t.number, "#42 ");
    assert_eq!(t.tag, "PR draft ");
    assert_eq!(t.tag_kind, TagKind::DraftPullRequest);
    assert_eq!(t.title, "Fix it");
    assert_eq!(t.meta, "  alice \u{00b7} 2024-05-06");
    let issue = row_text(&PanelRow { is_pr: false, item: GhItem { updated_at: "today".into(), ..item(7, "Bug", false) } });
    assert_eq!(issue.tag, "issue ");
    assert_eq!(issue.meta, "  alice \u{00b7} today");
    let pr = row_text(&PanelRow { is_pr: true, item: item(8, "Feature", false) });
    assert_eq!((pr.tag.as_str(), pr.tag_kind), ("PR ", TagKind::PullRequest));
}

#[test]
fn the_github_list_title_and_empty_text() {
    let mut panel = GithubPanel::new();
    assert_eq!(panel.list_title(), " GitHub ");
    panel.set_loading("repo");
    assert_eq!(panel.empty_text().as_deref(), Some("Loading\u{2026}"));
    panel.set_error("repo", "gh failed".into());
    assert_eq!(panel.empty_text().as_deref(), Some("gh failed"));
    panel.set_not_github("repo");
    assert_eq!(panel.empty_text().as_deref(), Some("No github.com remote"));
    panel.set_data(vec![], vec![], "repo");
    assert_eq!(panel.empty_text().as_deref(), Some("No open issues or PRs"));
    panel.set_data(vec![item(1, "a", false), item(2, "b", false)], vec![item(3, "c", false)], "repo");
    assert_eq!(panel.list_title(), " GitHub \u{2014} repo (2 issues, 1 PRs) ");
    assert_eq!(panel.empty_text(), None);
    assert!(matches!(panel.status, PanelStatus::Ready));
}

#[test]
fn the_detail_pane_shows_the_thread() {
    let detail = ItemDetail {
        number: 5,
        title: "Crash".into(),
        author: "bob".into(),
        body: "first\r\nsecond\n".into(),
        comments: vec![ItemComment { author: "carol".into(), created_at: "2024-01-02T03:04:05Z".into(), body: "me too".into() }],
    };
    let lines: Vec<(String, DetailLineKind)> = detail_lines(&detail).into_iter().map(|l| (l.text, l.kind)).collect();
    assert_eq!(
        lines,
        vec![
            ("@bob".to_string(), DetailLineKind::Author),
            (String::new(), DetailLineKind::Blank),
            ("first".to_string(), DetailLineKind::Text),
            ("second".to_string(), DetailLineKind::Text),
            (String::new(), DetailLineKind::Blank),
            ("\u{2500}\u{2500} @carol \u{00b7} 2024-01-02".to_string(), DetailLineKind::CommentHeader),
            ("me too".to_string(), DetailLineKind::Text),
        ]
    );
    let mut panel = GithubPanel::new();
    assert_eq!(panel.detail_title(), " GitHub item (Esc to close) ");
    assert!(matches!(panel.detail_body(), DetailBody::Nothing));
    panel.detail_loading = true;
    assert!(matches!(panel.detail_body(), DetailBody::Loading));
    panel.detail_loading = false;
    panel.detail = Some(detail);
    assert_eq!(panel.detail_title(), " #5 \u{2014} Crash (Esc to close) ");
    assert!(matches!(panel.detail_body(), DetailBody::Thread(ls) if ls.len() == 7));
    panel.detail_error = Some("oops".into());
    assert!(matches!(panel.detail_body(), DetailBody::Failed(e) if e == "oops"));
}

#[test]
fn lines_split_like_str_lines() {
    for text in ["", "a", "a\n", "a\nb", "a\r\nb\r\n", "\n\n", "x\ry\n\r", "\r"] {
        let expected: Vec<String> = text.lines().map(str::to_string).collect();
        assert_eq!(split_lines(text), expected, "{text:?}");
    }
}

#[test]
fn diff_lines_and_commit_files_are_classified_by_prefix() {
    assert_eq!(diff_line_kind("+added"), DiffLineKind::Added);
    assert_eq!(diff_line_kind("+++ b/file"), DiffLineKind::Context);
    assert_eq!(diff_line_kind("-gone"), DiffLineKind::Removed);
    assert_eq!(diff_line_kind("--- a/file"), DiffLineKind::Context);
    assert_eq!(diff_line_kind("@@ -1 +1 @@"), DiffLineKind::Hunk);
    assert_eq!(diff_line_kind("diff --git a b"), DiffLineKind::Meta);
    assert_eq!(diff_line_kind("index 123..456"), DiffLineKind::Meta);
    assert_eq!(diff_line_kind(" context"), DiffLineKind::Context);
    assert_eq!(file_change_kind("M"), FileChangeKind::Modified);
    assert_eq!(file_change_kind("R"), FileChangeKind::Renamed);
    assert_eq!(file_change_kind("MM"), FileChangeKind::Other);
    assert_eq!(file_change_kind("?"), FileChangeKind::Other);
    assert_eq!(files_title("abcdef0123"), " Files \u{2014} abcdef0 ");
    assert_eq!(diff_title(true), " Commit Diff (Esc to leave) ");
    assert_eq!(diff_title(false), " Commit Diff (Enter to scroll) ");
}

#[test]
fn the_detail_panes_are_cut_at_the_border_cells() {
    let area = Rect::new(2, 1, 30, 40);
    let r = detail_rects(area, [10, 20, 30], true, true);
    assert_eq!(r, [Rect::new(2, 1, 30, 10), Rect::new(2, 11, 30, 10), Rect::new(2, 21, 30, 10), Rect::new(2, 31, 30, 10)]);
    let r = detail_rects(area, [10, 20, 37], true, false);
    assert_eq!(r[2], Rect::new(2, 21, 30, 17));
    assert_eq!(r[3], Rect::new(0, 0, 0, 0));
    let wide = detail_rects(Rect::new(0, 0, 40, 5), [10, 20, 30], false, true);
    assert_eq!(wide[1], Rect::new(10, 0, 10, 5));
}

#[test]
fn the_search_line_counts_the_current_match() {
    let mut graph = GitGraph::new();
    graph.search.visible = true;
    assert_eq!(graph.search_overlay_text(), " /  ");
    graph.search.input = "fix".into();
    graph.search.matches = vec![1, 4, 6];
    assert_eq!(graph.search_overlay_text(), " / fix 0/3 ");
    graph.search.current_match = Some(1);
    assert_eq!(graph.search_overlay_text(), " / fix 2/3 ");
}

#[test]
fn the_github_panel_shows_by_override_or_open_items() {
    assert!(!panel_visible(false, Some(true), 3));
    assert!(panel_visible(true, None, 1));
    assert!(!panel_visible(true, None, 0));
    assert!(!panel_visible(true, Some(false), 5));
    assert_eq!(toggle_panel(false, None, 1), PanelToggle::Disabled);
    assert_eq!(toggle_panel(true, None, 1), PanelToggle::Force(false));
    assert_eq!(toggle_panel(true, None, 0), PanelToggle::Force(true));
    assert_eq!(toggle_panel(true, Some(true), 0), PanelToggle::Force(false));
}

#[test]
fn the_remote_is_probed_once_per_cooldown() {
    let mut state = GithubState::new();
    assert!(state.remote_probe_due(false, 1_000));
    state.record_remote(None, 1_000);
    assert!(!state.remote_probe_due(false, 60_999));
    assert!(state.remote_probe_due(true, 60_999));
    assert!(state.remote_probe_due(false, 61_000));
    state.record_remote(Some(("o".into(), "r".into())), 61_000);
    assert!(!state.remote_probe_due(true, 200_000));
}

#[test]
fn a_typed_character_runs_the_first_matching_single_key_binding() {
    let keys = vec!["gg".to_string(), "x".to_string(), "x".to_string()];
    assert_eq!(keybinding_index(&keys, 'x'), Some(1));
    assert_eq!(keybinding_index(&keys, 'g'), None);
    let mut list = FileList::new();
    list.set_files(vec![], "repo", "/repo");
    assert_eq!(list.diff_title(), " Diff \u{2014} repo (Esc/h to close) ");
}

/// The detail panes for fractional borders, the way the app turns its
/// stored split into cells before asking the library for the panes.
fn detail_chunks(area: Rect, split: [f64; 3], horizontal_layout: bool) -> [Rect; 4] {
    let axis = if horizontal_layout { area.height } else { area.width };
    let a = axis as f64;
    let desired = [(split[0] * a).round() as u16, (split[1] * a).round() as u16, (split[2] * a).round() as u16];
    let b = gitpanes::layout::detail_cell_bounds(axis, desired);
    detail_rects(area, b, horizontal_layout, true)
}

#[test]
fn detail_chunks_matches_default_split() {
    let area = Rect::new(0, 0, 60, 100);
    let [g, m, f, d] = detail_chunks(area, [0.40, 0.50, 0.65], true);
    assert_eq!(g.height, 40);
    assert_eq!(m.height, 10);
    assert_eq!(f.height, 15);
    assert_eq!(d.height, 35);
    assert!(g.y < m.y && m.y < f.y && f.y < d.y);
    assert_eq!((g.y, m.y, f.y, d.y), (0, 40, 50, 65));
}

#[test]
fn detail_chunks_horizontal_axis() {
    let area = Rect::new(5, 5, 100, 10);
    let [g, m, f, d] = detail_chunks(area, [0.5, 0.75, 0.9], false);
    assert_eq!(g.width, 50);
    assert_eq!(m.width, 25);
    assert_eq!(f.width, 15);
    assert_eq!(d.width, 10);
    assert_eq!((g.x, m.x, f.x, d.x), (5, 55, 80, 95));
}

#[test]
fn detail_chunks_clamps_min_block() {
    let area = Rect::new(0, 0, 40, 40);
    let [g, m, f, d] = detail_chunks(area, [0.01, 0.5, 0.99], true);
    assert!(g.height >= 3 && m.height >= 3 && f.height >= 3 && d.height >= 3);
    assert_eq!(g.height + m.height + f.height + d.height, 40);
    let [g2, m2, f2, d2] = detail_chunks(area, [0.99, 0.01, 0.01], true);
    assert!(g2.height >= 3 && m2.height >= 3 && f2.height >= 3 && d2.height >= 3);
}

#[test]
fn a_frame_lays_the_commit_detail_out_at_its_borders() {
    let mut graph = GitGraph::new();
    graph.lay_out(Rect::new(0, 0, 80, 40), [0, 0, 0]);
    assert_eq!(graph.graph_list_area, Rect::new(0, 0, 80, 40));
    assert_eq!(graph.diff_area, Rect::new(0, 0, 0, 0));
    graph.repo_path = Some("/repo".into());
    graph.horizontal_layout = true;
    let _ = graph.set_commit_files("abc1234".into(), "m".into(), vec![("M".into(), "a".into())]);
    graph.lay_out(Rect::new(0, 0, 80, 40), [16, 20, 37]);
    assert_eq!(graph.graph_list_area, Rect::new(0, 0, 80, 16));
    assert_eq!(graph.commit_detail.as_ref().unwrap().msg_area, Rect::new(0, 16, 80, 4));
    assert_eq!(graph.files_area, Rect::new(0, 20, 80, 17));
    assert_eq!(graph.commit_detail.as_ref().unwrap().file_list_area, Rect::new(0, 20, 80, 17));
    assert_eq!(graph.diff_area, Rect::new(0, 0, 0, 0));
    let generation = graph.current_detail_generation();
    graph.commit_diff_loaded(generation, "+a".into());
    graph.lay_out(Rect::new(0, 0, 80, 40), [16, 20, 30]);
    assert_eq!(graph.diff_area, Rect::new(0, 30, 80, 10));
}
