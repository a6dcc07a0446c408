//! The git commands the app runs for a repository, and the text it shows of
//! their outcome: push and pull (with `origin <branch>` when a branch is
//! checked out), submodule maintenance, new worktrees, and what the changes
//! panel shows for a submodule row.

use vstd::prelude::*;
use crate::scroll::{is_ws, ws};
use vstd::string::*;
use crate::status::SubmoduleState;
use crate::text::{has_prefix, lines_of, push_char, push_str, split_lines, starts_with};

verus! {

/// A push or pull of the checked-out branch.
#[derive(Debug, Clone, Copy, PartialEq, Eq, Structural)]
pub enum RemoteOp {
    Push,
    Pull,
    PullRebase,
    PullSubmodules,
}

/// A submodule maintenance command.
#[derive(Debug, Clone, Copy, PartialEq, Eq, Structural)]
pub enum SubmoduleOp {
    Update,
    Sync,
    UpdateLatest,
}

/// The values of some strings.
pub open spec fn strs(v: Seq<String>) -> Seq<Seq<char>> {
    v.map_values(|s: String| s@)
}

/// The arguments of a remote operation before the branch.
pub open spec fn remote_base(op: RemoteOp) -> Seq<Seq<char>> {
    match op {
        RemoteOp::Push => seq!["push"@],
        RemoteOp::Pull => seq!["pull"@],
        RemoteOp::PullRebase => seq!["pull"@, "--rebase"@],
        RemoteOp::PullSubmodules => seq!["pull"@, "--recurse-submodules"@],
    }
}

/// `git` arguments of a remote operation: `origin <branch>` follow when a
/// branch is checked out (so it works without upstream configuration).
pub open spec fn spec_remote_args(op: RemoteOp, branch: Seq<char>) -> Seq<Seq<char>> {
    if branch.len() > 0 && branch != "(no branch)"@ {
        remote_base(op) + seq!["origin"@, branch]
    } else {
        remote_base(op)
    }
}

fn add_arg(v: &mut Vec<String>, a: &str)
    ensures
        strs(final(v)@) == strs(old(v)@).push(a@),
{
    let ghost before = v@;
    v.push(a.to_string());
    assert(strs(v@) =~= strs(before).push(a@));
}

fn str_equal(a: &str, b: &str) -> (r: bool)
    ensures
        r == (a@ == b@),
{
    let r = a.unicode_len() == b.unicode_len() && starts_with(a, b);
    proof {
        if a@.len() == b@.len() && has_prefix(a@, b@) {
            assert(a@.take(b@.len() as int) =~= a@);
        }
        if a@ == b@ {
            assert(a@.take(b@.len() as int) =~= b@);
        }
    }
    r
}

/// The `git` arguments of a remote operation (see `spec_remote_args`).
pub fn remote_args(op: RemoteOp, branch: &str) -> (r: Vec<String>)
    ensures
        strs(r@) == spec_remote_args(op, branch@),
{
    let mut v: Vec<String> = Vec::new();
    match op {
        RemoteOp::Push => add_arg(&mut v, "push"),
        RemoteOp::Pull => add_arg(&mut v, "pull"),
        RemoteOp::PullRebase => {
            add_arg(&mut v, "pull");
            add_arg(&mut v, "--rebase");
        },
        RemoteOp::PullSubmodules => {
            add_arg(&mut v, "pull");
            add_arg(&mut v, "--recurse-submodules");
        },
    }
    let ghost base = strs(v@);
    assert(base =~= remote_base(op));
    if branch.unicode_len() > 0 && !str_equal(branch, "(no branch)") {
        add_arg(&mut v, "origin");
        add_arg(&mut v, branch);
        assert(strs(v@) =~= remote_base(op) + seq!["origin"@, branch@]);
    }
    v
}

/// The `git` arguments of a submodule command.
pub open spec fn spec_submodule_args(op: SubmoduleOp) -> Seq<Seq<char>> {
    match op {
        SubmoduleOp::Update => seq!["submodule"@, "update"@, "--init"@, "--recursive"@],
        SubmoduleOp::Sync => seq!["submodule"@, "sync"@],
        SubmoduleOp::UpdateLatest => seq!["submodule"@, "foreach"@, "git"@, "pull"@, "origin"@, "HEAD"@],
    }
}

/// The `git` arguments of a submodule command (see `spec_submodule_args`).
pub fn submodule_args(op: SubmoduleOp) -> (r: Vec<String>)
    ensures
        strs(r@) == spec_submodule_args(op),
{
    let mut v: Vec<String> = Vec::new();
    add_arg(&mut v, "submodule");
    match op {
        SubmoduleOp::Update => {
            add_arg(&mut v, "update");
            add_arg(&mut v, "--init");
            add_arg(&mut v, "--recursive");
        },
        SubmoduleOp::Sync => add_arg(&mut v, "sync"),
        SubmoduleOp::UpdateLatest => {
            add_arg(&mut v, "foreach");
            add_arg(&mut v, "git");
            add_arg(&mut v, "pull");
            add_arg(&mut v, "origin");
            add_arg(&mut v, "HEAD");
        },
    }
    assert(strs(v@) =~= spec_submodule_args(op));
    v
}

/// The message shown when a new worktree's branch starts with `-` (git
/// would read it as an option).
pub fn dashed_branch_error() -> (r: &'static str)
    ensures
        r@ == "branch name cannot start with '-'"@,
{
    "branch name cannot start with '-'"
}

/// `git worktree add -b <branch> -- <path>`, or none for a branch that
/// starts with `-`.
pub fn worktree_add_args(branch: &str, path: &str) -> (r: Option<Vec<String>>)
    ensures
        match r {
            Some(v) => !has_prefix(branch@, "-"@)
                && strs(v@) == seq!["worktree"@, "add"@, "-b"@, branch@, "--"@, path@],
            None => has_prefix(branch@, "-"@),
        },
{
    if starts_with(branch, "-") {
        return None;
    }
    let mut v: Vec<String> = Vec::new();
    add_arg(&mut v, "worktree");
    add_arg(&mut v, "add");
    add_arg(&mut v, "-b");
    add_arg(&mut v, branch);
    add_arg(&mut v, "--");
    add_arg(&mut v, path);
    assert(strs(v@) =~= seq!["worktree"@, "add"@, "-b"@, branch@, "--"@, path@]);
    Some(v)
}

/// The question asked before removing the worktree of `branch`.
pub fn remove_worktree_prompt(branch: &str) -> (r: String)
    ensures
        r@ == "Remove worktree '"@ + branch@ + "'?"@,
{
    let mut s = String::new();
    push_str(&mut s, "Remove worktree '");
    push_str(&mut s, branch);
    push_str(&mut s, "'?");
    s
}

/// The arguments joined by single spaces.
pub open spec fn joined(args: Seq<Seq<char>>) -> Seq<char>
    decreases args.len(),
{
    if args.len() == 0 {
        Seq::empty()
    } else if args.len() == 1 {
        args[0]
    } else {
        joined(args.drop_last()) + " "@ + args.last()
    }
}

fn push_joined(s: &mut String, args: &Vec<String>)
    ensures
        final(s)@ == old(s)@ + joined(strs(args@)),
{
    let ghost head = s@;
    let mut i: usize = 0;
    while i < args.len()
        invariant
            i <= args@.len(),
            s@ == head + joined(strs(args@).take(i as int)),
        decreases args@.len() - i,
    {
        let ghost t = strs(args@).take(i + 1);
        assert(t.drop_last() =~= strs(args@).take(i as int));
        if i > 0 {
            push_str(s, " ");
        }
        push_str(s, args[i].as_str());
        proof {
            reveal_strlit(" ");
            if i == 0 {
                assert(joined(strs(args@).take(0)) =~= Seq::<char>::empty());
                assert(s@ =~= head + joined(t));
            } else {
                assert(s@ =~= head + joined(t));
            }
        }
        i = i + 1;
    }
    assert(strs(args@).take(args@.len() as int) =~= strs(args@));
}

/// `git <args> succeeded`.
pub fn op_succeeded(args: &Vec<String>) -> (r: String)
    ensures
        r@ == "git "@ + joined(strs(args@)) + " succeeded"@,
{
    let mut s = String::new();
    push_str(&mut s, "git ");
    push_joined(&mut s, args);
    push_str(&mut s, " succeeded");
    s
}

/// `git <args> failed: <detail>`.
pub fn op_failed(args: &Vec<String>, detail: &str) -> (r: String)
    ensures
        r@ == "git "@ + joined(strs(args@)) + " failed: "@ + detail@,
{
    let mut s = String::new();
    push_str(&mut s, "git ");
    push_joined(&mut s, args);
    push_str(&mut s, " failed: ");
    push_str(&mut s, detail);
    s
}

/// `s` without its leading whitespace.
pub open spec fn trimmed_start(s: Seq<char>) -> Seq<char>
    decreases s.len(),
{
    if s.len() > 0 && is_ws(s[0]) { trimmed_start(s.drop_first()) } else { s }
}

/// `s` without its trailing whitespace.
pub open spec fn trimmed_end(s: Seq<char>) -> Seq<char>
    decreases s.len(),
{
    if s.len() > 0 && is_ws(s.last()) { trimmed_end(s.drop_last()) } else { s }
}

/// `s` without its leading and trailing whitespace (Unicode `White_Space`).
pub open spec fn trimmed(s: Seq<char>) -> Seq<char> {
    trimmed_end(trimmed_start(s))
}

/// `s` without its leading and trailing whitespace (see `trimmed`).
fn trim(s: &str) -> (r: String)
    ensures
        r@ == trimmed(s@),
{
    let n = s.unicode_len();
    let mut a: usize = 0;
    assert(s@.subrange(0, n as int) =~= s@);
    while a < n && ws(s.get_char(a))
        invariant
            a <= n,
            n == s@.len(),
            trimmed_start(s@) == trimmed_start(s@.subrange(a as int, n as int)),
        decreases n - a,
    {
        let ghost u = s@.subrange(a as int, n as int);
        assert(u.drop_first() =~= s@.subrange(a + 1, n as int));
        a = a + 1;
    }
    proof {
        let u = s@.subrange(a as int, n as int);
        if a == n {
            assert(u.len() == 0);
        }
        assert(trimmed_start(u) == u);
    }
    let mut b: usize = n;
    while b > a && ws(s.get_char(b - 1))
        invariant
            a <= b <= n,
            n == s@.len(),
            trimmed_end(s@.subrange(a as int, n as int)) == trimmed_end(s@.subrange(a as int, b as int)),
        decreases b - a,
    {
        let ghost t = s@.subrange(a as int, b as int);
        assert(t.last() == s@[b - 1]);
        assert(t.drop_last() =~= s@.subrange(a as int, b - 1));
        b = b - 1;
    }
    proof {
        let t = s@.subrange(a as int, b as int);
        if b == a {
            assert(t.len() == 0);
        } else {
            assert(t.last() == s@[b - 1]);
        }
        assert(trimmed_end(t) == t);
    }
    String::from_str(s.substring_char(a, b))
}

/// The index of the first of `ls` whose trimmed text is not empty, or the
/// length.
pub open spec fn first_nonblank(ls: Seq<Seq<char>>, k: int) -> int
    decreases ls.len() - k,
{
    if k >= ls.len() || k < 0 {
        ls.len() as int
    } else if trimmed(ls[k]).len() > 0 {
        k
    } else {
        first_nonblank(ls, k + 1)
    }
}

/// What a failed command's error output says: its first line that is not
/// blank, trimmed, or `unknown error` when every line is blank.
pub open spec fn spec_error_line(stderr: Seq<char>) -> Seq<char> {
    let ls = lines_of(stderr);
    let i = first_nonblank(ls, 0);
    if i < ls.len() { trimmed(ls[i]) } else { "unknown error"@ }
}

/// The first informative line of a failed command's error output (see
/// `spec_error_line`).
pub fn error_line(stderr: &str) -> (r: String)
    ensures
        r@ == spec_error_line(stderr@),
{
    let lines = split_lines(stderr);
    let ghost ls = lines@.map_values(|l: String| l@);
    let mut i: usize = 0;
    while i < lines.len()
        invariant
            ls == lines@.map_values(|l: String| l@),
            ls == lines_of(stderr@),
            i <= ls.len(),
            first_nonblank(ls, 0) == first_nonblank(ls, i as int),
        decreases ls.len() - i,
    {
        let t = trim(lines[i].as_str());
        if t.as_str().unicode_len() > 0 {
            return t;
        }
        i = i + 1;
    }
    "unknown error".to_string()
}

/// How the changes panel shows a submodule row.
#[derive(Debug, Clone, Copy, PartialEq, Eq, Structural)]
pub enum SubmoduleView {
    /// Its working-tree diff, under a label of its state.
    Diff,
    /// The commits between the recorded and the checked-out pointer.
    Log,
}

/// A dirty submodule, or one whose pointer did not move (either commit id
/// unknown, or both equal), shows its diff; a moved pointer shows the log.
pub open spec fn spec_submodule_view(state: Option<SubmoduleState>, old_oid: Seq<char>, new_oid: Seq<char>) -> SubmoduleView {
    let moved = old_oid.len() > 0 && new_oid.len() > 0 && old_oid != new_oid;
    if state == Some(SubmoduleState::Dirty) || !moved { SubmoduleView::Diff } else { SubmoduleView::Log }
}

/// How a submodule row is shown (see `spec_submodule_view`).
pub fn submodule_view(state: Option<SubmoduleState>, old_oid: &str, new_oid: &str) -> (r: SubmoduleView)
    ensures
        r == spec_submodule_view(state, old_oid@, new_oid@),
{
    let moved = old_oid.unicode_len() > 0 && new_oid.unicode_len() > 0 && !str_equal(old_oid, new_oid);
    if state == Some(SubmoduleState::Dirty) || !moved { SubmoduleView::Diff } else { SubmoduleView::Log }
}

/// The label of a submodule's state in the diff header.
pub open spec fn state_label(state: Option<SubmoduleState>) -> Seq<char> {
    match state {
        Some(SubmoduleState::Dirty) => "uncommitted changes"@,
        Some(SubmoduleState::Uninitialized) => "not initialized"@,
        Some(SubmoduleState::Modified) => "modified"@,
        None => "unpushed"@,
    }
}

/// A rule of forty `─`.
pub open spec fn rule() -> Seq<char> {
    Seq::new(40, |i: int| '\u{2500}')
}

fn push_rule(s: &mut String)
    ensures
        final(s)@ == old(s)@ + rule(),
{
    let ghost head = s@;
    let mut i: usize = 0;
    while i < 40
        invariant
            i <= 40,
            s@ == head + Seq::new(i as nat, |j: int| '\u{2500}'),
        decreases 40 - i,
    {
        push_char(s, '\u{2500}');
        assert(Seq::new((i + 1) as nat, |j: int| '\u{2500}') =~= Seq::new(i as nat, |j: int| '\u{2500}').push('\u{2500}'));
        i = i + 1;
    }
}

/// The header over a submodule's diff: `Submodule <path> (<state>)`, then a
/// rule, each on its own line.
pub fn submodule_diff_header(path: &str, state: Option<SubmoduleState>) -> (r: String)
    ensures
        r@ == "Submodule "@ + path@ + " ("@ + state_label(state) + ")\n"@ + rule() + "\n"@,
{
    let mut s = String::new();
    push_str(&mut s, "Submodule ");
    push_str(&mut s, path);
    push_str(&mut s, " (");
    match state {
        Some(SubmoduleState::Dirty) => push_str(&mut s, "uncommitted changes"),
        Some(SubmoduleState::Uninitialized) => push_str(&mut s, "not initialized"),
        Some(SubmoduleState::Modified) => push_str(&mut s, "modified"),
        None => push_str(&mut s, "unpushed"),
    }
    push_str(&mut s, ")\n");
    push_rule(&mut s);
    push_str(&mut s, "\n");
    s
}

/// The first seven characters of a commit id (all of a shorter one).
pub open spec fn short_oid(oid: Seq<char>) -> Seq<char> {
    if oid.len() >= 7 { oid.take(7) } else { oid }
}

fn push_short(s: &mut String, oid: &str)
    ensures
        final(s)@ == old(s)@ + short_oid(oid@),
{
    let n = oid.unicode_len();
    let keep = if n >= 7 { 7 } else { n };
    let ghost head = s@;
    let mut i: usize = 0;
    while i < keep
        invariant
            keep <= n,
            n == oid@.len(),
            i <= keep,
            s@ == head + oid@.take(i as int),
        decreases keep - i,
    {
        push_char(s, oid.get_char(i));
        assert(oid@.take(i + 1) =~= oid@.take(i as int).push(oid@[i as int]));
        i = i + 1;
    }
    assert(n < 7 ==> oid@.take(n as int) =~= oid@);
}

/// The header over a submodule's pointer log: `Submodule <old> → <new>`
/// with both ids shortened, then a rule, each on its own line.
pub fn submodule_log_header(old_oid: &str, new_oid: &str) -> (r: String)
    ensures
        r@ == "Submodule "@ + short_oid(old_oid@) + " \u{2192} "@ + short_oid(new_oid@) + "\n"@ + rule() + "\n"@,
{
    let mut s = String::new();
    push_str(&mut s, "Submodule ");
    push_short(&mut s, old_oid);
    push_str(&mut s, " \u{2192} ");
    push_short(&mut s, new_oid);
    push_str(&mut s, "\n");
    push_rule(&mut s);
    push_str(&mut s, "\n");
    s
}

/// The `git log` range `<old>..<new>`.
pub fn log_range(old_oid: &str, new_oid: &str) -> (r: String)
    ensures
        r@ == old_oid@ + ".."@ + new_oid@,
{
    let mut s = String::new();
    push_str(&mut s, old_oid);
    push_str(&mut s, "..");
    push_str(&mut s, new_oid);
    s
}

/// `text`, or `placeholder` when the command printed nothing.
pub fn or_placeholder(text: String, placeholder: &str) -> (r: String)
    ensures
        r@ == (if text@.len() == 0 { placeholder@ } else { text@ }),
{
    if text.as_str().unicode_len() == 0 { placeholder.to_string() } else { text }
}


/// The arguments of a remote operation begin with the operation's own
/// words, whatever the branch: `push`; `pull`; `pull --rebase`;
/// `pull --recurse-submodules`. On a checked-out branch exactly
/// `origin <branch>` follows; on a detached HEAD (empty name or
/// `(no branch)`) nothing follows.
pub proof fn law_remote_args_start_with_the_operation(op: RemoteOp, branch: Seq<char>)
    ensures
        ({
            let r = spec_remote_args(op, branch);
            let base: Seq<Seq<char>> = match op {
                RemoteOp::Push => seq!["push"@],
                RemoteOp::Pull => seq!["pull"@],
                RemoteOp::PullRebase => seq!["pull"@, "--rebase"@],
                RemoteOp::PullSubmodules => seq!["pull"@, "--recurse-submodules"@],
            };
            let on_branch = branch.len() > 0 && branch != "(no branch)"@;
            &&& r.len() >= base.len()
            &&& r.take(base.len() as int) == base
            &&& on_branch ==> r.skip(base.len() as int) == seq!["origin"@, branch]
            &&& !on_branch ==> r.len() == base.len()
        }),
{
    let r = spec_remote_args(op, branch);
    let base: Seq<Seq<char>> = match op {
        RemoteOp::Push => seq!["push"@],
        RemoteOp::Pull => seq!["pull"@],
        RemoteOp::PullRebase => seq!["pull"@, "--rebase"@],
        RemoteOp::PullSubmodules => seq!["pull"@, "--recurse-submodules"@],
    };
    assert(remote_base(op) == base);
    if branch.len() > 0 && branch != "(no branch)"@ {
        assert(r.take(base.len() as int) =~= base);
        assert(r.skip(base.len() as int) =~= seq!["origin"@, branch]);
    } else {
        assert(r.take(base.len() as int) =~= base);
    }
}


/// Submodule commands all run `git submodule`: update initializes and
/// recurses (`submodule update --init --recursive`), sync is
/// `submodule sync`, and updating to the latest pulls `origin HEAD` in every
/// submodule (`submodule foreach git pull origin HEAD`).
pub proof fn law_submodule_commands(op: SubmoduleOp)
    ensures
        spec_submodule_args(op).len() >= 2,
        spec_submodule_args(op)[0] == "submodule"@,
        op == SubmoduleOp::Update ==> spec_submodule_args(op) == seq!["submodule"@, "update"@, "--init"@, "--recursive"@],
        op == SubmoduleOp::Sync ==> spec_submodule_args(op) == seq!["submodule"@, "sync"@],
        op == SubmoduleOp::UpdateLatest ==> spec_submodule_args(op)
            == seq!["submodule"@, "foreach"@, "git"@, "pull"@, "origin"@, "HEAD"@],
{
}

proof fn lemma_trim_start(s: Seq<char>) -> (a: int)
    ensures
        0 <= a <= s.len(),
        trimmed_start(s) == s.subrange(a, s.len() as int),
        forall|i: int| 0 <= i < a ==> is_ws(#[trigger] s[i]),
        a < s.len() ==> !is_ws(s[a]),
    decreases s.len(),
{
    if s.len() > 0 && is_ws(s[0]) {
        let a1 = lemma_trim_start(s.drop_first());
        assert(s.drop_first().subrange(a1, s.drop_first().len() as int) =~= s.subrange(a1 + 1, s.len() as int));
        assert forall|i: int| 0 <= i < a1 + 1 implies is_ws(#[trigger] s[i]) by {
            if i > 0 {
                assert(s[i] == s.drop_first()[i - 1]);
            }
        }
        a1 + 1
    } else {
        assert(s.subrange(0, s.len() as int) =~= s);
        0
    }
}

proof fn lemma_trim_end(s: Seq<char>) -> (b: int)
    ensures
        0 <= b <= s.len(),
        trimmed_end(s) == s.subrange(0, b),
        forall|i: int| b <= i < s.len() ==> is_ws(#[trigger] s[i]),
        b > 0 ==> !is_ws(s[b - 1]),
    decreases s.len(),
{
    if s.len() > 0 && is_ws(s.last()) {
        let b1 = lemma_trim_end(s.drop_last());
        assert(s.drop_last().subrange(0, b1) =~= s.subrange(0, b1));
        assert forall|i: int| b1 <= i < s.len() implies is_ws(#[trigger] s[i]) by {
            if i < s.len() - 1 {
                assert(s[i] == s.drop_last()[i]);
            }
        }
        b1
    } else {
        assert(s.subrange(0, s.len() as int) =~= s);
        s.len() as int
    }
}

/// Trimming cuts whitespace off both ends and nothing else: the result is
/// one stretch `s[a..b]` of `s`, everything before `a` and from `b` on is
/// Unicode whitespace, and a non-empty result starts and ends with a
/// character that is not.
pub proof fn law_trim_cuts_only_outer_whitespace(s: Seq<char>)
    ensures
        exists|a: int, b: int| {
            &&& 0 <= a <= b <= s.len()
            &&& trimmed(s) == s.subrange(a, b)
            &&& (forall|i: int| 0 <= i < a ==> is_ws(#[trigger] s[i]))
            &&& (forall|i: int| b <= i < s.len() ==> is_ws(#[trigger] s[i]))
            &&& (a < b ==> !is_ws(s[a]) && !is_ws(s[b - 1]))
        },
{
    let a = lemma_trim_start(s);
    let t = s.subrange(a, s.len() as int);
    let b = lemma_trim_end(t);
    assert(t.subrange(0, b) =~= s.subrange(a, a + b));
    assert forall|i: int| a + b <= i < s.len() implies is_ws(#[trigger] s[i]) by {
        assert(s[i] == t[i - a]);
    }
    if b > 0 {
        assert(s[a + b - 1] == t[b - 1]);
        assert(s[a] == t[0]);
    }
    assert(0 <= a <= a + b <= s.len());
}

} // verus!
