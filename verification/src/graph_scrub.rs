//! Scrubbing a commit-detail pane by its scroll indicator: the message and
//! the diff jump to the offset the pointer selects; the file list moves its
//! highlight there, snapping to the nearest file the search still matches.

use vstd::prelude::*;
use crate::filter::first_at_least;
use crate::graph_view::{after_file_moved, after_schedule, detail_room, file_visible, with_detail, CommitDetail, GitGraph, GraphAction};

verus! {

/// A pane of the open commit that has a scroll indicator.
#[derive(Debug, Clone, Copy, PartialEq, Eq, Structural)]
pub enum DetailPane {
    Message,
    Files,
    Diff,
}

/// The file row a scrub at `index` lands on: `index` when the search shows
/// it, else the closest matching row (the earlier one on a tie), none
/// without matches.
pub open spec fn spec_nearest_file(d: CommitDetail, index: usize) -> Option<usize> {
    if file_visible(d, index) {
        Some(index)
    } else {
        let m = d.file_filter->0.matches@;
        let a = first_at_least(m, index as int, m.len() as int);
        let after = if a >= 0 { a } else { m.len() as int };
        if after > 0 && after < m.len() {
            let b = m[after - 1];
            let c = m[after];
            Some(if index - b <= c - index { b } else { c })
        } else if after > 0 {
            Some(m[after - 1])
        } else if after < m.len() {
            Some(m[after])
        } else {
            None
        }
    }
}

fn first_at_least_in(m: &Vec<usize>, x: usize) -> (r: usize)
    ensures
        r as int == (if first_at_least(m@, x as int, m@.len() as int) >= 0 { first_at_least(m@, x as int, m@.len() as int) } else { m@.len() as int }),
        forall|q: int| 0 <= q < r ==> m@[q] < x,
        r <= m@.len(),
        r < m@.len() ==> m@[r as int] >= x,
{
    let mut k: usize = 0;
    while k < m.len()
        invariant
            k <= m@.len(),
            first_at_least(m@, x as int, k as int) == -1,
            forall|q: int| 0 <= q < k ==> m@[q] < x,
        decreases m@.len() - k,
    {
        if m[k] >= x {
            proof {
                lemma_first_at_least_from(m@, x as int, k as int, m@.len() as int);
            }
            return k;
        }
        k = k + 1;
    }
    m.len()
}

/// Once the first `k` entries hold none at least `x` and entry `k` does, the
/// first such entry among any longer prefix is `k`.
proof fn lemma_first_at_least_from(m: Seq<usize>, x: int, k: int, n: int)
    requires
        0 <= k < n <= m.len(),
        first_at_least(m, x, k) == -1,
        m[k] >= x,
    ensures
        first_at_least(m, x, n) == k,
    decreases n,
{
    if n > k + 1 {
        lemma_first_at_least_from(m, x, k, n - 1);
    }
}

/// The file row a scrub at `index` lands on (see `spec_nearest_file`).
fn nearest_file(d: &CommitDetail, index: usize) -> (r: Option<usize>)
    ensures
        r == spec_nearest_file(*d, index),
{
    let visible = match &d.file_filter {
        Some(f) => !f.is_active() || f.position_of(index).is_some(),
        None => true,
    };
    if visible {
        return Some(index);
    }
    match &d.file_filter {
        Some(f) => {
            let m = &f.matches;
            let after = first_at_least_in(m, index);
            if after > 0 && after < m.len() {
                let b = m[after - 1];
                let c = m[after];
                Some(if index - b <= c - index { b } else { c })
            } else if after > 0 {
                Some(m[after - 1])
            } else if after < m.len() {
                Some(m[after])
            } else {
                None
            }
        },
        None => None,
    }
}

/// What a scrub of the file list to `offset` does: the list takes the
/// keyboard back; with files, the highlight and the window's top move to
/// the nearest shown row to `offset` (at most the last row), and that file's
/// diff is scheduled, unless the highlight already sits there with a diff
/// shown.
pub open spec fn spec_scrub_files(g: GitGraph, offset: u16, h: GitGraph, r: Option<GraphAction>) -> bool {
    match g.commit_detail {
        None => r is None && h == g,
        Some(d) => {
            let d0 = CommitDetail { diff_focused: false, ..d };
            let n = d.files@.len();
            if n == 0 {
                r is None && h == with_detail(g, d0)
            } else {
                let want = (if (offset as int) < n - 1 { offset as int } else { n - 1 }) as usize;
                match spec_nearest_file(d, want) {
                    None => r is None && h == with_detail(g, d0),
                    Some(i) => if d.file_selected == Some(i) && d.file_offset == i && d.diff_content is Some {
                        r is None && h == with_detail(g, d0)
                    } else {
                        let m = with_detail(g, CommitDetail { file_selected: Some(i), file_offset: i, ..d0 });
                        r == Some(GraphAction::ScheduleCommitDiff { generation: (g.diff_debounce + 1) as u64 })
                            && h == after_schedule(after_file_moved(m))
                    },
                }
            }
        },
    }
}

/// What a scrub of `pane` to `offset` does (see `spec_scrub_files` for the
/// file list): the message scrolls there; the diff scrolls there and takes
/// the keyboard.
pub open spec fn spec_scrub(g: GitGraph, pane: DetailPane, offset: u16, h: GitGraph, r: Option<GraphAction>) -> bool {
    match pane {
        DetailPane::Message => r is None && h == match g.commit_detail {
            Some(d) => with_detail(g, CommitDetail { msg_scroll: offset, ..d }),
            None => g,
        },
        DetailPane::Diff => r is None && h == match g.commit_detail {
            Some(d) => with_detail(g, CommitDetail { diff_scroll: offset, diff_focused: true, ..d }),
            None => g,
        },
        DetailPane::Files => spec_scrub_files(g, offset, h, r),
    }
}

impl GitGraph {
    /// Moves `pane` to the `offset` its scroll indicator was scrubbed to (see
    /// `spec_scrub`).
    pub fn scrub_to(&mut self, pane: DetailPane, offset: u16) -> (r: Option<GraphAction>)
        requires
            detail_room(*old(self)),
        ensures
            spec_scrub(*old(self), pane, offset, *final(self), r),
    {
        match pane {
            DetailPane::Message => {
                match &mut self.commit_detail {
                    Some(d) => {
                        d.msg_scroll = offset;
                    },
                    None => {},
                }
                None
            },
            DetailPane::Diff => {
                match &mut self.commit_detail {
                    Some(d) => {
                        d.diff_scroll = offset;
                        d.diff_focused = true;
                    },
                    None => {},
                }
                None
            },
            DetailPane::Files => self.scrub_file_highlight(offset),
        }
    }

    fn scrub_file_highlight(&mut self, offset: u16) -> (r: Option<GraphAction>)
        requires
            detail_room(*old(self)),
        ensures
            spec_scrub_files(*old(self), offset, *final(self), r),
    {
        let mut go = false;
        match &mut self.commit_detail {
            Some(d) => {
                d.diff_focused = false;
                let n = d.files.len();
                if n > 0 {
                    let want = if (offset as usize) < n - 1 { offset as usize } else { n - 1 };
                    match nearest_file(d, want) {
                        Some(i) => {
                            let there = d.file_selected == Some(i) && d.file_offset == i;
                            if !(there && d.diff_content.is_some()) {
                                d.file_selected = Some(i);
                                d.file_offset = i;
                                go = true;
                            }
                        },
                        None => {},
                    }
                }
            },
            None => {},
        }
        if go {
            self.file_selection_changed()
        } else {
            None
        }
    }
}

} // verus!
