//! What the changes panel shows in a frame: its title, the note of an empty
//! list, which rows the filter makes bold, and the search input line.

use vstd::prelude::*;
use crate::file_list::FileList;
use crate::filter::position_in;
use crate::text::push_str;

verus! {

/// The search input line: ` /<query>▏ `.
pub open spec fn spec_search_line(q: Seq<char>) -> Seq<char> {
    " /"@ + q + "\u{258f} "@
}

/// Whether the search input shows: typing, or a query is set.
pub open spec fn spec_search_shown(f: FileList) -> bool {
    f.searching || f.filter.query@.len() > 0
}

/// The title: ` Changes ` with no repository, else ` Changes — <repo> `
/// followed by the search input while it shows.
pub open spec fn spec_changes_title(f: FileList) -> Seq<char> {
    if f.repo_name@.len() == 0 {
        " Changes "@
    } else {
        let t = " Changes \u{2014} "@ + f.repo_name@ + " "@;
        if spec_search_shown(f) { t + spec_search_line(f.filter.query@) } else { t }
    }
}

/// The note an empty list shows.
pub open spec fn spec_empty_note(f: FileList) -> Option<Seq<char>> {
    if f.files@.len() > 0 {
        None
    } else if f.repo_name@.len() == 0 {
        Some("Select a repository"@)
    } else {
        Some("No changes"@)
    }
}

fn search_line(q: &str) -> (r: String)
    ensures
        r@ == spec_search_line(q@),
{
    let mut s = String::new();
    push_str(&mut s, " /");
    push_str(&mut s, q);
    push_str(&mut s, "\u{258f} ");
    s
}

impl FileList {
    /// The search input line while it shows (see `spec_search_line`).
    pub fn search_input_line(&self) -> (r: Option<String>)
        ensures
            match r {
                Some(s) => spec_search_shown(*self) && s@ == spec_search_line(self.filter.query@),
                None => !spec_search_shown(*self),
            },
    {
        if self.searching || self.filter.is_active() {
            Some(search_line(self.filter.query.as_str()))
        } else {
            None
        }
    }

    /// The title of the changes panel (see `spec_changes_title`).
    pub fn list_title(&self) -> (r: String)
        ensures
            r@ == spec_changes_title(*self),
    {
        if self.repo_name.as_str().unicode_len() == 0 {
            return " Changes ".to_string();
        }
        let mut s = String::new();
        push_str(&mut s, " Changes \u{2014} ");
        push_str(&mut s, self.repo_name.as_str());
        push_str(&mut s, " ");
        if let Some(line) = self.search_input_line() {
            push_str(&mut s, line.as_str());
        }
        s
    }

    /// What an empty list says (see `spec_empty_note`).
    pub fn empty_note(&self) -> (r: Option<&'static str>)
        ensures
            match r {
                Some(s) => spec_empty_note(*self) == Some(s@),
                None => spec_empty_note(*self).is_none(),
            },
    {
        if self.files.len() > 0 {
            None
        } else if self.repo_name.as_str().unicode_len() == 0 {
            Some("Select a repository")
        } else {
            Some("No changes")
        }
    }

    /// The title of the diff pane: ` Diff — <repo> (Esc/h to close) `.
    pub fn diff_title(&self) -> (r: String)
        ensures
            r@ == " Diff \u{2014} "@ + self.repo_name@ + " (Esc/h to close) "@,
    {
        let mut s = String::new();
        push_str(&mut s, " Diff \u{2014} ");
        push_str(&mut s, self.repo_name.as_str());
        push_str(&mut s, " (Esc/h to close) ");
        s
    }

    /// Row `i` is bold while a query is set and the row matches it.
    pub fn row_bold(&self, i: usize) -> (r: bool)
        ensures
            r == (self.filter.query@.len() > 0
                && position_in(self.filter.matches@, i as int, self.filter.matches@.len() as int) >= 0),
    {
        self.filter.is_active() && self.filter.position_of(i).is_some()
    }

    /// Whether the `no matching files` note ends the list: a query is set
    /// and nothing matches.
    pub fn shows_no_match_note(&self) -> (r: bool)
        ensures
            r == (self.filter.query@.len() > 0 && self.filter.matches@.len() == 0),
    {
        self.filter.is_active() && self.filter.count() == 0
    }
}

} // verus!
