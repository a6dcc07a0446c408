//! Rows of the commit graph, as the graph builder produces them, and the
//! branch segments the view collapses.

use vstd::prelude::*;

verus! {

/// Lines added and removed by a commit.
#[derive(Debug, Clone, Copy, PartialEq, Eq, Structural)]
pub struct DiffStat {
    pub additions: usize,
    pub deletions: usize,
}

/// A ref label drawn next to a commit.
#[derive(Debug)]
pub struct BranchLabel {
    pub name: String,
    pub is_head: bool,
    pub is_remote: bool,
    pub is_worktree: bool,
    pub is_tag: bool,
    pub is_stash: bool,
}

/// The value of a label.
pub struct LabelView {
    pub name: Seq<char>,
    pub is_head: bool,
    pub is_remote: bool,
    pub is_worktree: bool,
    pub is_tag: bool,
    pub is_stash: bool,
}

impl View for BranchLabel {
    type V = LabelView;

    open spec fn view(&self) -> LabelView {
        LabelView {
            name: self.name@,
            is_head: self.is_head,
            is_remote: self.is_remote,
            is_worktree: self.is_worktree,
            is_tag: self.is_tag,
            is_stash: self.is_stash,
        }
    }
}

impl Clone for BranchLabel {
    fn clone(&self) -> (r: Self)
        ensures
            r@ == self@,
    {
        BranchLabel {
            name: self.name.clone(),
            is_head: self.is_head,
            is_remote: self.is_remote,
            is_worktree: self.is_worktree,
            is_tag: self.is_tag,
            is_stash: self.is_stash,
        }
    }
}

/// A plain local-branch label named `name`.
pub fn make_label(name: &str) -> (l: BranchLabel)
    ensures
        l.name@ == name@,
        !l.is_head && !l.is_remote && !l.is_worktree && !l.is_tag && !l.is_stash,
{
    BranchLabel {
        name: name.to_string(),
        is_head: false,
        is_remote: false,
        is_worktree: false,
        is_tag: false,
        is_stash: false,
    }
}

/// One commit row of the graph. `oid` is the full hex id; `collapsed` is set
/// on the placeholder row that stands for a collapsed segment (its id and
/// commit count).
#[derive(Debug)]
pub struct GraphRow {
    pub commit_col: usize,
    pub oid: String,
    pub short_id: String,
    pub message: String,
    pub author: String,
    pub time: i64,
    pub labels: Vec<BranchLabel>,
    pub is_merge: bool,
    pub parent_oids: Vec<String>,
    pub diff_stat: Option<DiffStat>,
    pub collapsed: Option<(String, usize)>,
}

/// The value of a row: every field by its view.
pub struct RowView {
    pub commit_col: usize,
    pub oid: Seq<char>,
    pub short_id: Seq<char>,
    pub message: Seq<char>,
    pub author: Seq<char>,
    pub time: i64,
    pub labels: Seq<LabelView>,
    pub is_merge: bool,
    pub parent_oids: Seq<Seq<char>>,
    pub diff_stat: Option<DiffStat>,
    pub collapsed: Option<(Seq<char>, usize)>,
}

/// The views of a sequence of labels.
pub open spec fn labels_view(s: Seq<BranchLabel>) -> Seq<LabelView> {
    s.map_values(|l: BranchLabel| l@)
}

/// The views of a sequence of strings.
pub open spec fn strings_view(s: Seq<String>) -> Seq<Seq<char>> {
    s.map_values(|x: String| x@)
}

/// The views of a sequence of rows.
pub open spec fn rows_view(s: Seq<GraphRow>) -> Seq<RowView> {
    s.map_values(|r: GraphRow| r@)
}

impl View for GraphRow {
    type V = RowView;

    open spec fn view(&self) -> RowView {
        RowView {
            commit_col: self.commit_col,
            oid: self.oid@,
            short_id: self.short_id@,
            message: self.message@,
            author: self.author@,
            time: self.time,
            labels: labels_view(self.labels@),
            is_merge: self.is_merge,
            parent_oids: strings_view(self.parent_oids@),
            diff_stat: self.diff_stat,
            collapsed: match self.collapsed {
                Some((id, n)) => Some((id@, n)),
                None => None,
            },
        }
    }
}

pub(crate) fn clone_strings(v: &Vec<String>) -> (r: Vec<String>)
    ensures
        strings_view(r@) == strings_view(v@),
{
    let mut r: Vec<String> = Vec::new();
    let mut i: usize = 0;
    while i < v.len()
        invariant
            i <= v@.len(),
            r@.len() == i,
            forall|j: int| 0 <= j < i ==> (#[trigger] r@[j])@ == v@[j]@,
        decreases v@.len() - i,
    {
        r.push(v[i].clone());
        i = i + 1;
    }
    assert(strings_view(r@) =~= strings_view(v@));
    r
}

fn clone_labels(v: &Vec<BranchLabel>) -> (r: Vec<BranchLabel>)
    ensures
        labels_view(r@) == labels_view(v@),
{
    let mut r: Vec<BranchLabel> = Vec::new();
    let mut i: usize = 0;
    while i < v.len()
        invariant
            i <= v@.len(),
            r@.len() == i,
            forall|j: int| 0 <= j < i ==> (#[trigger] r@[j])@ == v@[j]@,
        decreases v@.len() - i,
    {
        r.push(v[i].clone());
        i = i + 1;
    }
    assert(labels_view(r@) =~= labels_view(v@));
    r
}

impl Clone for GraphRow {
    fn clone(&self) -> (r: Self)
        ensures
            r@ == self@,
    {
        GraphRow {
            commit_col: self.commit_col,
            oid: self.oid.clone(),
            short_id: self.short_id.clone(),
            message: self.message.clone(),
            author: self.author.clone(),
            time: self.time,
            labels: clone_labels(&self.labels),
            is_merge: self.is_merge,
            parent_oids: clone_strings(&self.parent_oids),
            diff_stat: self.diff_stat,
            collapsed: match &self.collapsed {
                Some((id, n)) => Some((id.clone(), *n)),
                None => None,
            },
        }
    }
}

pub(crate) fn clone_rows(v: &Vec<GraphRow>) -> (r: Vec<GraphRow>)
    ensures
        rows_view(r@) == rows_view(v@),
{
    let mut r: Vec<GraphRow> = Vec::new();
    let mut i: usize = 0;
    while i < v.len()
        invariant
            i <= v@.len(),
            r@.len() == i,
            forall|j: int| 0 <= j < i ==> (#[trigger] r@[j])@ == v@[j]@,
        decreases v@.len() - i,
    {
        r.push(v[i].clone());
        i = i + 1;
    }
    assert(rows_view(r@) =~= rows_view(v@));
    r
}

/// A non-trunk group of commits that collapses as one: `id` is the tip's
/// oid, `display_name` its first label (or short id), `row_indices` the rows
/// of the group in display order, tip first.
#[derive(Debug)]
pub struct BranchSegment {
    pub id: String,
    pub display_name: String,
    pub row_indices: Vec<usize>,
}

} // verus!
