use gitpanes::menu::{ContextMenu, FileMenuContext, MenuRow};
use gitpanes::status::{SubmoduleHead, SubmoduleState, SubmoduleWarn};
use gitpanes::submodule_tag::submodule_tag_spans;

fn item_labels(menu: &ContextMenu) -> Vec<String> {
    menu.rows
        .iter()
        .filter_map(|r| match r {
            MenuRow::Item(i) => Some(i.label.clone()),
            MenuRow::Separator => None,
        })
        .collect()
}

fn show(staged: bool, unstaged: bool, is_untracked: bool, is_submodule: bool) -> ContextMenu {
    let mut menu = ContextMenu::new();
    menu.show_file(
        "/repo".to_string(),
        0,
        0,
        FileMenuContext { path: "a.txt".to_string(), staged, unstaged, is_untracked, is_submodule },
    );
    menu
}

#[test]
fn untracked_offers_stage_and_delete_but_not_unstage() {
    let labels = item_labels(&show(false, true, true, false));
    assert!(labels.contains(&"Stage".to_string()));
    assert!(labels.contains(&"Delete file".to_string()));
    assert!(!labels.iter().any(|l| l == "Unstage"));
    assert!(!labels.iter().any(|l| l == "Discard changes"));
    assert!(labels.contains(&"Open".to_string()));
    assert!(labels.contains(&"Open folder".to_string()));
}

#[test]
fn staged_only_offers_unstage_not_stage() {
    let labels = item_labels(&show(true, false, false, false));
    assert!(labels.contains(&"Unstage".to_string()));
    assert!(!labels.iter().any(|l| l == "Stage"));
    assert!(labels.contains(&"Discard changes".to_string()));
}

#[test]
fn staged_and_unstaged_offers_both_plus_discard() {
    let labels = item_labels(&show(true, true, false, false));
    assert!(labels.contains(&"Stage".to_string()));
    assert!(labels.contains(&"Unstage".to_string()));
    assert!(labels.contains(&"Discard changes".to_string()));
}

#[test]
fn submodule_row_offers_inspect_and_graph_no_mutations() {
    let labels = item_labels(&show(false, true, false, true));
    assert_eq!(
        labels,
        vec![
            "Open".to_string(),
            "Open folder".to_string(),
            "Copy path".to_string(),
            "Open in graph".to_string(),
            "Add to repositories".to_string(),
        ]
    );
}

fn rendered(state: Option<SubmoduleState>, head: Option<SubmoduleHead>, warn: SubmoduleWarn) -> String {
    submodule_tag_spans(&state, &head, &warn).iter().map(|s| s.text.as_str()).collect::<String>()
}

fn warn(unpushed_commits: u32, pointer_unreachable: bool, needs_merge_to_default: bool) -> SubmoduleWarn {
    SubmoduleWarn { unpushed_commits, pointer_unreachable, needs_merge_to_default }
}

#[test]
fn modified_clean() {
    assert_eq!(rendered(Some(SubmoduleState::Modified), None, SubmoduleWarn::default()), "[sub: +commit] ");
}

#[test]
fn modified_with_unpushed() {
    assert_eq!(rendered(Some(SubmoduleState::Modified), None, warn(3, false, false)), "[sub: +commit \u{2191}3] ");
}

#[test]
fn modified_with_unreachable_takes_precedence_over_unpushed() {
    assert_eq!(rendered(Some(SubmoduleState::Modified), None, warn(5, true, false)), "[sub: +commit \u{26a0}unreach] ");
}

#[test]
fn dirty_clean() {
    assert_eq!(rendered(Some(SubmoduleState::Dirty), None, SubmoduleWarn::default()), "[sub: ~dirty] ");
}

#[test]
fn dirty_with_unpushed() {
    assert_eq!(rendered(Some(SubmoduleState::Dirty), None, warn(1, false, false)), "[sub: ~dirty \u{2191}1] ");
}

#[test]
fn dirty_with_unreachable() {
    assert_eq!(rendered(Some(SubmoduleState::Dirty), None, warn(0, true, false)), "[sub: ~dirty \u{26a0}unreach] ");
}

#[test]
fn uninitialized_skips_warn() {
    assert_eq!(rendered(Some(SubmoduleState::Uninitialized), None, warn(7, true, false)), "[sub: -uninit] ");
}

#[test]
fn unreach_only_synthetic_row() {
    assert_eq!(rendered(None, None, warn(0, true, false)), "[sub: \u{26a0}unreach] ");
}

#[test]
fn unpushed_only_synthetic_row() {
    assert_eq!(rendered(None, None, warn(4, false, false)), "[sub: \u{2191}4] ");
}

#[test]
fn no_state_no_warn_falls_back_to_plain_tag() {
    assert_eq!(rendered(None, None, SubmoduleWarn::default()), "[submodule] ");
}

#[test]
fn modified_with_branch() {
    assert_eq!(
        rendered(Some(SubmoduleState::Modified), Some(SubmoduleHead::Branch("feature".to_string())), SubmoduleWarn::default()),
        "[sub: +commit @feature] "
    );
}

#[test]
fn dirty_detached() {
    assert_eq!(
        rendered(Some(SubmoduleState::Dirty), Some(SubmoduleHead::Detached), SubmoduleWarn::default()),
        "[sub: ~dirty @detached] "
    );
}

#[test]
fn modified_needs_merge_to_default() {
    assert_eq!(rendered(Some(SubmoduleState::Modified), None, warn(0, false, true)), "[sub: +commit \u{219b}main] ");
}

#[test]
fn composed_branch_unpushed_and_needs_merge() {
    assert_eq!(
        rendered(Some(SubmoduleState::Modified), Some(SubmoduleHead::Branch("feature".to_string())), warn(3, false, true)),
        "[sub: +commit @feature \u{2191}3 \u{219b}main] "
    );
}

#[test]
fn unreachable_dominates_needs_merge() {
    assert_eq!(rendered(Some(SubmoduleState::Modified), None, warn(0, true, true)), "[sub: +commit \u{26a0}unreach] ");
}

#[test]
fn uninitialized_suppresses_branch_and_merge() {
    assert_eq!(
        rendered(Some(SubmoduleState::Uninitialized), Some(SubmoduleHead::Branch("x".to_string())), warn(0, false, true)),
        "[sub: -uninit] "
    );
}

#[test]
fn join_path_joins_with_one_separator() {
    assert_eq!(gitpanes::menu::join_path("/repo", "a.txt"), "/repo/a.txt");
}
