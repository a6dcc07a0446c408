//! Decisions of repository-list administration: whether removing a
//! repository also excludes it from discovery, where the selection lands
//! afterwards, and the messages shown on the way.

use vstd::prelude::*;
use crate::sorting::SortOrder;
use crate::text::push_str;

verus! {

/// Whether `base` is a prefix of `path` by whole components, as
/// `std::path::Path::starts_with` decides it.
pub uninterp spec fn path_prefix(path: Seq<char>, base: Seq<char>) -> bool;

/// Calls `std::path::Path::starts_with`: whether `base` is a prefix of
/// `path` by whole components (`/a/b` starts with `/a`, `/a/bc` does not
/// start with `/a/b`). Its result is named by `path_prefix`; nothing more
/// about it is claimed here.
#[verifier::external_body]
fn path_starts_with(path: &str, base: &str) -> (r: bool)
    ensures
        r == path_prefix(path@, base@),
{
    std::path::Path::new(path).starts_with(base)
}

/// The last component of `path`, as `std::path::Path::file_name` takes it
/// (none for a path ending in `..` or a root).
pub uninterp spec fn file_name_of(path: Seq<char>) -> Option<Seq<char>>;

/// Calls `std::path::Path::file_name` on `path`: its last component, if it
/// has one. The result is named by `file_name_of`; which component that is
/// is left to std. The component of a `&str` path is valid UTF-8, so the
/// conversion back to a string loses nothing.
#[verifier::external_body]
pub(crate) fn file_name(path: &str) -> (r: Option<String>)
    ensures
        match r {
            Some(n) => file_name_of(path@) == Some(n@),
            None => file_name_of(path@) is None,
        },
{
    std::path::Path::new(path).file_name().map(|n| n.to_string_lossy().to_string())
}

/// The name a repository added at `path` is listed under: its last
/// component, or the whole path when it has none.
pub open spec fn added_name(path: Seq<char>) -> Seq<char> {
    match file_name_of(path) {
        Some(n) => n,
        None => path,
    }
}

/// Whether removing the repository at `path` named `name` also puts its
/// name on the exclusion list: only a repository the root walk can find
/// again (under one of the `roots`, and not inside another `listed`
/// repository), and only once.
pub open spec fn spec_exclude_on_removal(path: Seq<char>, name: Seq<char>, listed: Seq<Seq<char>>, roots: Seq<Seq<char>>, excluded: Seq<Seq<char>>) -> bool {
    &&& exists|i: int| 0 <= i < roots.len() && path_prefix(path, #[trigger] roots[i])
    &&& !(exists|i: int| 0 <= i < listed.len() && #[trigger] listed[i] != path && path_prefix(path, listed[i]))
    &&& !excluded.contains(name)
}

/// The views of some strings.
pub open spec fn views(v: Seq<String>) -> Seq<Seq<char>> {
    v.map_values(|s: String| s@)
}

fn any_root(path: &str, roots: &Vec<String>) -> (r: bool)
    ensures
        r == exists|i: int| 0 <= i < views(roots@).len() && path_prefix(path@, #[trigger] views(roots@)[i]),
{
    let ghost rv = views(roots@);
    let mut i: usize = 0;
    while i < roots.len()
        invariant
            i <= roots@.len(),
            rv == views(roots@),
            forall|j: int| 0 <= j < i ==> !path_prefix(path@, #[trigger] rv[j]),
        decreases roots@.len() - i,
    {
        if path_starts_with(path, roots[i].as_str()) {
            assert(path_prefix(path@, rv[i as int]));
            return true;
        }
        i = i + 1;
    }
    false
}

fn inside_other(path: &str, listed: &Vec<String>) -> (r: bool)
    ensures
        r == exists|i: int| 0 <= i < views(listed@).len() && #[trigger] views(listed@)[i] != path@
            && path_prefix(path@, views(listed@)[i]),
{
    let ghost lv = views(listed@);
    let mut i: usize = 0;
    while i < listed.len()
        invariant
            i <= listed@.len(),
            lv == views(listed@),
            forall|j: int| 0 <= j < i ==> !(#[trigger] lv[j] != path@ && path_prefix(path@, lv[j])),
        decreases listed@.len() - i,
    {
        let other = listed[i].as_str();
        if !str_eq(other, path) && path_starts_with(path, other) {
            assert(lv[i as int] != path@ && path_prefix(path@, lv[i as int]));
            return true;
        }
        i = i + 1;
    }
    false
}

fn str_eq(a: &str, b: &str) -> (r: bool)
    ensures
        r == (a@ == b@),
{
    let n = a.unicode_len();
    if n != b.unicode_len() {
        return false;
    }
    let mut i: usize = 0;
    while i < n
        invariant
            n == a@.len(),
            n == b@.len(),
            i <= n,
            forall|j: int| 0 <= j < i ==> a@[j] == b@[j],
        decreases n - i,
    {
        if a.get_char(i) != b.get_char(i) {
            return false;
        }
        i = i + 1;
    }
    assert(a@ =~= b@);
    true
}

fn contains_string(v: &Vec<String>, s: &str) -> (r: bool)
    ensures
        r == views(v@).contains(s@),
{
    let ghost vv = views(v@);
    let mut i: usize = 0;
    while i < v.len()
        invariant
            i <= v@.len(),
            vv == views(v@),
            forall|j: int| 0 <= j < i ==> vv[j] != s@,
        decreases v@.len() - i,
    {
        if str_eq(v[i].as_str(), s) {
            assert(vv[i as int] == s@);
            return true;
        }
        i = i + 1;
    }
    false
}

/// Whether removing the repository at `path` named `name` adds `name` to
/// the exclusions (see `spec_exclude_on_removal`). `listed` are the paths
/// of all listed repositories, `roots` the canonical scan roots and
/// `excluded` the names already excluded.
pub fn exclude_on_removal(path: &str, name: &str, listed: &Vec<String>, roots: &Vec<String>, excluded: &Vec<String>) -> (r: bool)
    ensures
        r == spec_exclude_on_removal(path@, name@, views(listed@), views(roots@), views(excluded@)),
{
    any_root(path, roots) && !inside_other(path, listed) && !contains_string(excluded, name)
}

/// Whether the panels' context at `context` (an "Open in graph" path) goes
/// with the repository removed at `path`: it lies inside it.
pub fn context_removed(context: &str, path: &str) -> (r: bool)
    ensures
        r == path_prefix(context@, path@),
{
    path_starts_with(context, path)
}

/// The row selected after row `idx` was removed and `remaining` rows are
/// left: the same position, or the last row; none when the list is empty.
pub fn selection_after_removal(idx: usize, remaining: usize) -> (r: Option<usize>)
    ensures
        r == (if remaining == 0 { None } else if idx < remaining { Some(idx) } else { Some((remaining - 1) as usize) }),
{
    if remaining == 0 {
        None
    } else if idx < remaining {
        Some(idx)
    } else {
        Some(remaining - 1)
    }
}

/// The question asked before removing `name`: `Remove <name>?`.
pub fn remove_prompt(name: &str) -> (r: String)
    ensures
        r@ == "Remove "@ + name@ + "?"@,
{
    let mut s = String::new();
    push_str(&mut s, "Remove ");
    push_str(&mut s, name);
    push_str(&mut s, "?");
    s
}

/// The label of a sort order, as `SortOrder::label` gives it.
pub open spec fn order_label(o: SortOrder) -> Seq<char> {
    match o {
        SortOrder::Alphabetical => "A-Z"@,
        SortOrder::ReverseAlphabetical => "Z-A"@,
        SortOrder::DirtyFirst => "Dirty"@,
    }
}

/// The message shown after cycling to `order`: `sort: <label>`.
pub fn sort_message(order: SortOrder) -> (r: String)
    ensures
        r@ == "sort: "@ + order_label(order),
{
    let mut s = String::new();
    push_str(&mut s, "sort: ");
    push_str(&mut s, order.label());
    s
}


/// Removing a repository excludes it only when the scan could bring it
/// back: never one outside every scan root, never one nested inside another
/// listed repository (a pinned submodule), and never a name twice; a
/// repository directly under a root, inside no other listed repository and
/// not yet excluded, is excluded.
pub proof fn law_exclusion_only_for_rediscoverable_repos(path: Seq<char>, name: Seq<char>, listed: Seq<Seq<char>>, roots: Seq<Seq<char>>, excluded: Seq<Seq<char>>)
    ensures
        (forall|i: int| 0 <= i < roots.len() ==> !path_prefix(path, #[trigger] roots[i]))
            ==> !spec_exclude_on_removal(path, name, listed, roots, excluded),
        (exists|j: int| 0 <= j < listed.len() && #[trigger] listed[j] != path && path_prefix(path, listed[j]))
            ==> !spec_exclude_on_removal(path, name, listed, roots, excluded),
        excluded.contains(name) ==> !spec_exclude_on_removal(path, name, listed, roots, excluded),
        (exists|i: int| 0 <= i < roots.len() && path_prefix(path, #[trigger] roots[i]))
            && (forall|j: int| 0 <= j < listed.len() && #[trigger] listed[j] != path ==> !path_prefix(path, listed[j]))
            && !excluded.contains(name)
            ==> spec_exclude_on_removal(path, name, listed, roots, excluded),
{
}

} // verus!
