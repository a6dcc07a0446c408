//! Repository status as the status query reports it, and the decisions the
//! app takes from two consecutive reports.

use vstd::prelude::*;

verus! {

/// Which refs the commit graph draws; `NoRefs` draws only what HEAD reaches.
#[derive(Debug, Clone, Copy, PartialEq, Eq, Structural)]
pub enum BranchFilter {
    All,
    Local,
    Remote,
    NoRefs,
}

/// Change of a file in the working tree or index.
#[derive(Debug, Clone, Copy, PartialEq, Eq, Structural)]
pub enum FileStatus {
    Modified,
    Added,
    Deleted,
    Renamed,
    Untracked,
    Conflicted,
}

/// What changed inside a submodule, as the status query saw it.
#[derive(Debug, Clone, Copy, PartialEq, Eq, Structural)]
pub enum SubmoduleState {
    Modified,
    Uninitialized,
    Dirty,
}

/// Where a submodule's HEAD points.
#[derive(Debug, Clone)]
pub enum SubmoduleHead {
    Branch(String),
    Detached,
}

/// Push/merge warnings of a submodule pointer.
#[derive(Debug, Clone, Copy, PartialEq, Eq, Structural, Default)]
pub struct SubmoduleWarn {
    pub unpushed_commits: u32,
    pub pointer_unreachable: bool,
    pub needs_merge_to_default: bool,
}

/// One changed path of a repository.
#[derive(Debug, Clone)]
pub struct FileEntry {
    pub path: String,
    pub status: FileStatus,
    pub staged: bool,
    pub unstaged: bool,
    pub is_submodule: bool,
    pub submodule_state: Option<SubmoduleState>,
    pub submodule_warn: SubmoduleWarn,
    pub submodule_head: Option<SubmoduleHead>,
}

/// One stash entry.
#[derive(Debug, Clone)]
pub struct StashEntry {
    pub index: usize,
    pub message: String,
    pub oid: String,
}

/// Hashes of the local branch tips, remote-tracking tips and tags. Two
/// reports draw the same refs exactly when the matching bucket is equal.
#[derive(Debug, Clone, Copy, PartialEq, Eq, Structural, Default)]
pub struct RefsFingerprint {
    pub local: u64,
    pub remote: u64,
    pub tags: u64,
}

/// The status of one repository.
#[derive(Debug, Clone)]
pub struct RepoStatus {
    pub branch: String,
    pub head_oid: Option<String>,
    pub files: Vec<FileEntry>,
    pub ahead: usize,
    pub behind: usize,
    pub is_dirty: bool,
    pub has_submodules: bool,
    pub has_dirty_submodules: bool,
    pub has_unpushed_submodules: bool,
    pub fetch_failed: bool,
    pub stashes: Vec<StashEntry>,
    pub refs: RefsFingerprint,
}

/// The view of an optional string.
pub open spec fn opt_view(o: Option<String>) -> Option<Seq<char>> {
    match o {
        Some(s) => Some(s@),
        None => None,
    }
}

/// Whether a ref the graph draws under `filter` moved between the two
/// fingerprints.
pub open spec fn refs_changed(prev: RefsFingerprint, next: RefsFingerprint, filter: BranchFilter) -> bool {
    match filter {
        BranchFilter::All => prev != next,
        BranchFilter::Local => prev.local != next.local || prev.tags != next.tags,
        BranchFilter::Remote => prev.remote != next.remote || prev.tags != next.tags,
        BranchFilter::NoRefs => false,
    }
}

/// Whether the stash lists differ at a position both of them have.
pub open spec fn stash_oid_differs(prev: Seq<StashEntry>, next: Seq<StashEntry>) -> bool {
    exists|i: int| 0 <= i < prev.len() && i < next.len() && (#[trigger] prev[i]).oid@ != next[i].oid@
}

/// Whether `next` changes what the commit graph shows compared with
/// `previous`: a drawn ref, the branch, HEAD, ahead/behind or the stashes.
pub open spec fn spec_graph_status_changed(previous: Option<RepoStatus>, next: RepoStatus, filter: BranchFilter) -> bool {
    match previous {
        None => true,
        Some(p) => {
            ||| refs_changed(p.refs, next.refs, filter)
            ||| p.branch@ != next.branch@
            ||| opt_view(p.head_oid) != opt_view(next.head_oid)
            ||| p.ahead != next.ahead
            ||| p.behind != next.behind
            ||| p.stashes@.len() != next.stashes@.len()
            ||| stash_oid_differs(p.stashes@, next.stashes@)
        },
    }
}

fn opt_string_eq(a: &Option<String>, b: &Option<String>) -> (r: bool)
    ensures
        r == (opt_view(*a) == opt_view(*b)),
{
    match (a, b) {
        (Some(x), Some(y)) => *x == *y,
        (None, None) => true,
        _ => false,
    }
}

fn refs_changed_exec(prev: &RefsFingerprint, next: &RefsFingerprint, filter: BranchFilter) -> (r: bool)
    ensures
        r == refs_changed(*prev, *next, filter),
{
    match filter {
        BranchFilter::All => prev.local != next.local || prev.remote != next.remote || prev.tags != next.tags,
        BranchFilter::Local => prev.local != next.local || prev.tags != next.tags,
        BranchFilter::Remote => prev.remote != next.remote || prev.tags != next.tags,
        BranchFilter::NoRefs => false,
    }
}

/// Whether a status report should reload the commit graph.
pub fn graph_status_changed(previous: Option<&RepoStatus>, next: &RepoStatus, filter: BranchFilter) -> (r: bool)
    ensures
        r == spec_graph_status_changed(
            match previous {
                Some(p) => Some(*p),
                None => None,
            },
            *next,
            filter,
        ),
{
    let p = match previous {
        None => return true,
        Some(p) => p,
    };
    if refs_changed_exec(&p.refs, &next.refs, filter) || p.branch != next.branch
        || !opt_string_eq(&p.head_oid, &next.head_oid) || p.ahead != next.ahead
        || p.behind != next.behind || p.stashes.len() != next.stashes.len()
    {
        return true;
    }
    let n = p.stashes.len();
    let mut i: usize = 0;
    while i < n
        invariant
            n == p.stashes@.len(),
            n == next.stashes@.len(),
            previous == Some(p),
            i <= n,
            forall|j: int| 0 <= j < i ==> (#[trigger] p.stashes@[j]).oid@ == next.stashes@[j].oid@,
        decreases n - i,
    {
        if p.stashes[i].oid != next.stashes[i].oid {
            assert(p.stashes@[i as int].oid@ != next.stashes@[i as int].oid@);
            return true;
        }
        i = i + 1;
    }
    false
}

/// A clean status on `branch` with HEAD at `head_oid`: no files, no stashes,
/// zero ahead/behind and empty ref buckets.
pub fn test_status(branch: &str, head_oid: Option<&str>) -> (s: RepoStatus)
    ensures
        s.branch@ == branch@,
        opt_view(s.head_oid) == (match head_oid {
            Some(h) => Some(h@),
            None => None,
        }),
        s.files@.len() == 0,
        s.stashes@.len() == 0,
        s.ahead == 0,
        s.behind == 0,
        !s.is_dirty,
        !s.has_submodules,
        !s.has_dirty_submodules,
        !s.has_unpushed_submodules,
        !s.fetch_failed,
        s.refs == (RefsFingerprint { local: 0, remote: 0, tags: 0 }),
{
    RepoStatus {
        branch: branch.to_string(),
        head_oid: match head_oid {
            Some(h) => Some(h.to_string()),
            None => None,
        },
        files: Vec::new(),
        ahead: 0,
        behind: 0,
        is_dirty: false,
        has_submodules: false,
        has_dirty_submodules: false,
        has_unpushed_submodules: false,
        fetch_failed: false,
        stashes: Vec::new(),
        refs: RefsFingerprint { local: 0, remote: 0, tags: 0 },
    }
}


/// The graph reloads when a ref it draws moves, and only then as far as refs
/// go: a moved remote-tracking ref reloads the graph under the All and
/// Remote filters but not under Local; a moved local branch reloads it under
/// All and Local but not under Remote; a moved tag under every filter that
/// draws refs; no ref move reloads a graph drawn without refs. A new branch
/// name, HEAD, ahead/behind count or stash list reloads it under every
/// filter, and a first status always does.
pub proof fn law_graph_reloads_when_a_drawn_ref_moves(p: RepoStatus, n: RepoStatus, filter: BranchFilter)
    ensures
        spec_graph_status_changed(None, n, filter),
        p.refs.remote != n.refs.remote && (filter == BranchFilter::All || filter == BranchFilter::Remote)
            ==> spec_graph_status_changed(Some(p), n, filter),
        p.refs.local != n.refs.local && (filter == BranchFilter::All || filter == BranchFilter::Local)
            ==> spec_graph_status_changed(Some(p), n, filter),
        p.refs.tags != n.refs.tags && filter != BranchFilter::NoRefs
            ==> spec_graph_status_changed(Some(p), n, filter),
        p.branch@ != n.branch@ || opt_view(p.head_oid) != opt_view(n.head_oid) || p.ahead != n.ahead
            || p.behind != n.behind || p.stashes@.len() != n.stashes@.len()
            ==> spec_graph_status_changed(Some(p), n, filter),
        ({
            let same_rest = p.branch@ == n.branch@ && opt_view(p.head_oid) == opt_view(n.head_oid)
                && p.ahead == n.ahead && p.behind == n.behind && p.stashes@.len() == n.stashes@.len()
                && (forall|i: int| 0 <= i < p.stashes@.len() ==> (#[trigger] p.stashes@[i]).oid@ == n.stashes@[i].oid@);
            &&& same_rest && p.refs.local == n.refs.local && p.refs.tags == n.refs.tags && filter == BranchFilter::Local
                ==> !spec_graph_status_changed(Some(p), n, filter)
            &&& same_rest && p.refs.remote == n.refs.remote && p.refs.tags == n.refs.tags && filter == BranchFilter::Remote
                ==> !spec_graph_status_changed(Some(p), n, filter)
            &&& same_rest && filter == BranchFilter::NoRefs ==> !spec_graph_status_changed(Some(p), n, filter)
            &&& same_rest && p.refs.local == n.refs.local && p.refs.remote == n.refs.remote && p.refs.tags == n.refs.tags
                ==> !spec_graph_status_changed(Some(p), n, filter)
        }),
{
}

} // verus!
