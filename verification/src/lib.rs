use vstd::prelude::*;

pub mod refresh;
pub mod sorting;
pub mod dialog;
pub mod status;
pub mod text;
pub mod encoding;
pub mod clock;
pub mod github;
pub mod graph;
pub mod graph_cache;
pub mod segments;
pub mod layout;
pub mod scroll;
pub mod input;
pub mod menu;
pub mod submodule_tag;
pub mod github_panel;
pub mod graph_view;
pub mod filter;
pub mod file_list;
pub mod messages;
pub mod routing;
pub mod overlay;
pub mod graph_frame;
pub mod file_frame;
pub mod repo_admin;
pub mod repo_sort;
pub mod github_frame;
pub mod git_ops;
pub mod graph_scrub;
pub mod power;
pub mod scroll_bar;
pub mod dashboard;
pub mod watcher_slot;
