# gitpanes

The state and decisions of a terminal git dashboard, verified with Verus: a
repository list, a changes panel with a diff view, a commit graph with search,
collapsible branch groups and an open-commit detail (files, file search, diff),
a GitHub issues/PR panel, context menus, and the routing of keys and mouse
events between them.

`src/` is the verified library. Every public function states what it returns
or changes in its `ensures`; the laws of the library (what the graph cache
gives back after a write, that Tab cycles through the panels, that a sort
keeps every repository, that stale answers from background work are refused,
...) are public proof functions beside the code they speak of.

- `dashboard`: the application's own state (repository list, selection,
  status queries in flight, changes seen meanwhile, deferred refreshes) and
  what each event does to it, with the commands the loop carries out;
  `watcher_slot`: which finished watcher build may take over.
- `input`, `routing`, `scroll_bar`: keys and mouse events, which panel or
  overlay gets them, panel seams, and the scroll indicators a press can grab
  and a drag scrubs.
- `graph_view`, `graph_frame`, `graph_scrub`, `segments`, `graph_cache`,
  `graph`: the commit graph panel, its branch groups, its build cache and what
  a frame shows of it.
- `file_list`, `file_frame`, `filter`, `submodule_tag`, `status`: the changes
  panel and its `/` filter.
- `github`, `github_panel`, `github_frame`: the GitHub cache per repository and
  filter, and the panel.
- `menu`, `dialog`, `overlay`, `messages`: context menus, confirmations, the
  help, the update notice and status-bar messages.
- `repo_sort`, `repo_admin`, `sorting`, `refresh`, `git_ops`: repository list
  order, removal, refresh pacing and the git commands run for a repository.
- `power`: what the pane does while the terminal dozes or sleeps, and when
  it may quit.
- `layout`, `scroll`, `text`, `encoding`, `clock`: geometry, scrolling, string
  helpers, base64 for the clipboard, the wall clock.

`app/` is the unverified glue: crossterm events converted to the library's
input types, ratatui rectangles, the floating-point pane splits, drawing
with ratatui widgets, and the loop that feeds events to the library's state
and carries out the commands it returns.

`tests/` runs the library on concrete values.
