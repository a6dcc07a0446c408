use gitpanes::git_ops::{
    dashed_branch_error, error_line, log_range, op_failed, op_succeeded, or_placeholder, remote_args,
    remove_worktree_prompt, submodule_args, submodule_diff_header, submodule_log_header, submodule_view,
    worktree_add_args, RemoteOp, SubmoduleOp, SubmoduleView,
};
use gitpanes::status::SubmoduleState;

fn strings(v: &[&str]) -> Vec<String> {
    v.iter().map(|s| s.to_string()).collect()
}

#[test]
fn push_and_pull_name_origin_and_the_checked_out_branch() {
    assert_eq!(remote_args(RemoteOp::Push, "main"), strings(&["push", "origin", "main"]));
    assert_eq!(remote_args(RemoteOp::PullRebase, "feat"), strings(&["pull", "--rebase", "origin", "feat"]));
    assert_eq!(remote_args(RemoteOp::Pull, ""), strings(&["pull"]));
    assert_eq!(remote_args(RemoteOp::PullSubmodules, "(no branch)"), strings(&["pull", "--recurse-submodules"]));
}

#[test]
fn submodule_commands() {
    assert_eq!(submodule_args(SubmoduleOp::Update), strings(&["submodule", "update", "--init", "--recursive"]));
    assert_eq!(submodule_args(SubmoduleOp::Sync), strings(&["submodule", "sync"]));
    assert_eq!(
        submodule_args(SubmoduleOp::UpdateLatest),
        strings(&["submodule", "foreach", "git", "pull", "origin", "HEAD"])
    );
}

#[test]
fn a_new_worktree_branch_cannot_look_like_an_option() {
    assert_eq!(worktree_add_args("-x", "/wt"), None);
    assert_eq!(dashed_branch_error(), "branch name cannot start with '-'");
    assert_eq!(
        worktree_add_args("feature", "/repo-feature"),
        Some(strings(&["worktree", "add", "-b", "feature", "--", "/repo-feature"]))
    );
    assert_eq!(remove_worktree_prompt("feature"), "Remove worktree 'feature'?");
}

#[test]
fn command_outcomes_name_the_command() {
    let args = strings(&["pull", "--rebase"]);
    assert_eq!(op_succeeded(&args), "git pull --rebase succeeded");
    assert_eq!(op_failed(&args, "conflict"), "git pull --rebase failed: conflict");
    assert_eq!(op_succeeded(&Vec::new()), "git  succeeded");
    assert_eq!(error_line("\n   \n  fatal: no upstream  \nhint: x\n"), "fatal: no upstream");
    assert_eq!(error_line(" \n\t\n"), "unknown error");
    assert_eq!(error_line(""), "unknown error");
}

#[test]
fn a_submodule_row_shows_its_diff_or_its_pointer_log() {
    assert_eq!(submodule_view(Some(SubmoduleState::Dirty), "aaa", "bbb"), SubmoduleView::Diff);
    assert_eq!(submodule_view(Some(SubmoduleState::Modified), "aaa", "bbb"), SubmoduleView::Log);
    assert_eq!(submodule_view(Some(SubmoduleState::Modified), "aaa", "aaa"), SubmoduleView::Diff);
    assert_eq!(submodule_view(None, "", "bbb"), SubmoduleView::Diff);
    let rule = "\u{2500}".repeat(40);
    assert_eq!(
        submodule_diff_header("libs/core", Some(SubmoduleState::Dirty)),
        format!("Submodule libs/core (uncommitted changes)\n{rule}\n")
    );
    assert_eq!(submodule_diff_header("x", None), format!("Submodule x (unpushed)\n{rule}\n"));
    assert_eq!(
        submodule_log_header("0123456789", "abc"),
        format!("Submodule 0123456 \u{2192} abc\n{rule}\n")
    );
    assert_eq!(log_range("0123", "4567"), "0123..4567");
    assert_eq!(or_placeholder(String::new(), "(no commits in range)"), "(no commits in range)");
    assert_eq!(or_placeholder("log".into(), "(no commits in range)"), "log");
}

#[test]
fn error_line_trims_unicode_whitespace() {
    assert_eq!(error_line("\u{a0}\u{3000}\n\u{2003}fatal: gone\u{85}\n"), "fatal: gone");
}
