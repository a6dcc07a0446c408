//! What the GitHub panel shows in a frame: the list title, the text of each
//! row, what an empty list says, and the detail pane's title and lines.

use vstd::prelude::*;
use crate::github_panel::{GithubPanel, ItemComment, ItemDetail, PanelRow, PanelStatus};
use crate::text::{decimal, lines_of, push_char, push_decimal, push_str, split_lines};

verus! {

/// How a row's tag is colored.
#[derive(Debug, Clone, Copy, PartialEq, Eq, Structural)]
pub enum TagKind {
    Issue,
    PullRequest,
    DraftPullRequest,
}

/// The pieces of one list row: `#<n> `, the tag and a space, the title,
/// and `  <author> · <date>`.
#[derive(Debug)]
pub struct RowText {
    pub number: String,
    pub tag: String,
    pub tag_kind: TagKind,
    pub title: String,
    pub meta: String,
}

/// The date shown for a timestamp: its first ten characters (`YYYY-MM-DD`),
/// or all of it when shorter.
pub open spec fn date_part(stamp: Seq<char>) -> Seq<char> {
    if stamp.len() >= 10 { stamp.take(10) } else { stamp }
}

/// The tag of a row: `issue`, `PR`, or `PR draft`.
pub open spec fn tag_of(row: PanelRow) -> (Seq<char>, TagKind) {
    if !row.is_pr {
        ("issue"@, TagKind::Issue)
    } else if row.item.is_draft {
        ("PR draft"@, TagKind::DraftPullRequest)
    } else {
        ("PR"@, TagKind::PullRequest)
    }
}

/// The row text of `row`.
pub open spec fn row_text_ok(row: PanelRow, t: RowText) -> bool {
    &&& t.number@ == "#"@ + decimal(row.item.number as nat) + " "@
    &&& t.tag@ == tag_of(row).0 + " "@
    &&& t.tag_kind == tag_of(row).1
    &&& t.title@ == row.item.title@
    &&& t.meta@ == "  "@ + row.item.author@ + " \u{00b7} "@ + date_part(row.item.updated_at@)
}

fn push_date(s: &mut String, stamp: &str)
    ensures
        final(s)@ == old(s)@ + date_part(stamp@),
{
    let n = stamp.unicode_len();
    let keep = if n >= 10 { 10 } else { n };
    let ghost head = s@;
    let mut i: usize = 0;
    while i < keep
        invariant
            keep <= n,
            n == stamp@.len(),
            i <= keep,
            s@ == head + stamp@.take(i as int),
        decreases keep - i,
    {
        push_char(s, stamp.get_char(i));
        assert(stamp@.take(i + 1) =~= stamp@.take(i as int).push(stamp@[i as int]));
        i = i + 1;
    }
    assert(n < 10 ==> stamp@.take(n as int) =~= stamp@);
}

/// The pieces of a list row (see `row_text_ok`).
pub fn row_text(row: &PanelRow) -> (t: RowText)
    ensures
        row_text_ok(*row, t),
{
    let mut number = String::new();
    push_str(&mut number, "#");
    push_decimal(&mut number, row.item.number);
    push_str(&mut number, " ");
    let (tag_str, tag_kind) = if !row.is_pr {
        ("issue ", TagKind::Issue)
    } else if row.item.is_draft {
        ("PR draft ", TagKind::DraftPullRequest)
    } else {
        ("PR ", TagKind::PullRequest)
    };
    let mut meta = String::new();
    push_str(&mut meta, "  ");
    push_str(&mut meta, row.item.author.as_str());
    push_str(&mut meta, " \u{00b7} ");
    push_date(&mut meta, row.item.updated_at.as_str());
    proof {
        reveal_strlit("issue ");
        reveal_strlit("issue");
        reveal_strlit("PR draft ");
        reveal_strlit("PR draft");
        reveal_strlit("PR ");
        reveal_strlit("PR");
        reveal_strlit(" ");
        assert("issue "@ =~= "issue"@ + " "@);
        assert("PR draft "@ =~= "PR draft"@ + " "@);
        assert("PR "@ =~= "PR"@ + " "@);
    }
    RowText { number, tag: tag_str.to_string(), tag_kind, title: row.item.title.clone(), meta }
}

/// The list title: ` GitHub `, or with a repository
/// ` GitHub — <repo> (<n> issues, <m> PRs) `.
pub open spec fn spec_github_title(p: GithubPanel) -> Seq<char> {
    if p.repo_name@.len() == 0 {
        " GitHub "@
    } else {
        " GitHub \u{2014} "@ + p.repo_name@ + " ("@ + decimal(p.issue_count as nat) + " issues, "@
            + decimal(p.pr_count as nat) + " PRs) "@
    }
}

/// What a list without rows says, by the panel status.
pub open spec fn spec_empty_text(status: PanelStatus) -> Seq<char> {
    match status {
        PanelStatus::Loading => "Loading\u{2026}"@,
        PanelStatus::NotGithub => "No github.com remote"@,
        PanelStatus::Error(e) => e@,
        PanelStatus::Ready => "No open issues or PRs"@,
    }
}

/// The title of the detail pane: ` #<n> — <title> (Esc to close) `, or
/// ` GitHub item (Esc to close) ` before the item arrived.
pub open spec fn spec_detail_title(d: Option<ItemDetail>) -> Seq<char> {
    match d {
        Some(d) => " #"@ + decimal(d.number as nat) + " \u{2014} "@ + d.title@ + " (Esc to close) "@,
        None => " GitHub item (Esc to close) "@,
    }
}

/// How a line of the detail pane is colored.
#[derive(Debug, Clone, Copy, PartialEq, Eq, Structural)]
pub enum DetailLineKind {
    Author,
    Text,
    Blank,
    CommentHeader,
}

/// A line of the detail pane.
#[derive(Debug)]
pub struct DetailLine {
    pub text: String,
    pub kind: DetailLineKind,
}

/// The value of a detail line.
pub open spec fn dl_v(l: DetailLine) -> (Seq<char>, DetailLineKind) {
    (l.text@, l.kind)
}

/// The lines of a body, as text lines.
pub open spec fn text_lines(body: Seq<char>) -> Seq<(Seq<char>, DetailLineKind)> {
    lines_of(body).map_values(|l: Seq<char>| (l, DetailLineKind::Text))
}

/// The lines of one comment: a blank line, `── @<author> · <date>`, and
/// its body.
pub open spec fn comment_lines(c: ItemComment) -> Seq<(Seq<char>, DetailLineKind)> {
    seq![(Seq::empty(), DetailLineKind::Blank),
        ("\u{2500}\u{2500} @"@ + c.author@ + " \u{00b7} "@ + date_part(c.created_at@), DetailLineKind::CommentHeader)]
        + text_lines(c.body@)
}

/// The lines of the first `k` comments.
pub open spec fn comments_lines(cs: Seq<ItemComment>, k: int) -> Seq<(Seq<char>, DetailLineKind)>
    decreases k,
{
    if k <= 0 { Seq::empty() } else { comments_lines(cs, k - 1) + comment_lines(cs[k - 1]) }
}

/// The thread of an item: `@<author>`, a blank line, the body, then each
/// comment.
pub open spec fn spec_detail_lines(d: ItemDetail) -> Seq<(Seq<char>, DetailLineKind)> {
    seq![("@"@ + d.author@, DetailLineKind::Author), (Seq::empty(), DetailLineKind::Blank)]
        + text_lines(d.body@) + comments_lines(d.comments@, d.comments@.len() as int)
}

/// The values of some detail lines.
pub open spec fn dls_v(ls: Seq<DetailLine>) -> Seq<(Seq<char>, DetailLineKind)> {
    ls.map_values(|l: DetailLine| dl_v(l))
}

fn push_line(out: &mut Vec<DetailLine>, text: String, kind: DetailLineKind)
    ensures
        dls_v(final(out)@) == dls_v(old(out)@).push((text@, kind)),
{
    let ghost before = out@;
    out.push(DetailLine { text, kind });
    assert(dls_v(out@) =~= dls_v(before).push((text@, kind)));
}

fn push_body(out: &mut Vec<DetailLine>, body: &str)
    ensures
        dls_v(final(out)@) == dls_v(old(out)@) + text_lines(body@),
{
    let lines = split_lines(body);
    let ghost lv = lines@.map_values(|l: String| l@);
    let ghost start = dls_v(out@);
    let mut i: usize = 0;
    while i < lines.len()
        invariant
            lv == lines@.map_values(|l: String| l@),
            lv == lines_of(body@),
            i <= lines@.len(),
            dls_v(out@) == start + text_lines(body@).take(i as int),
        decreases lines@.len() - i,
    {
        push_line(out, lines[i].clone(), DetailLineKind::Text);
        assert(text_lines(body@).take(i + 1) =~= text_lines(body@).take(i as int).push((lv[i as int], DetailLineKind::Text)));
        i = i + 1;
    }
    assert(text_lines(body@).take(lines@.len() as int) =~= text_lines(body@));
}

/// The lines of an item's thread (see `spec_detail_lines`).
pub fn detail_lines(d: &ItemDetail) -> (r: Vec<DetailLine>)
    ensures
        dls_v(r@) == spec_detail_lines(*d),
{
    let mut out: Vec<DetailLine> = Vec::new();
    let mut author = String::new();
    push_str(&mut author, "@");
    push_str(&mut author, d.author.as_str());
    push_line(&mut out, author, DetailLineKind::Author);
    push_line(&mut out, String::new(), DetailLineKind::Blank);
    push_body(&mut out, d.body.as_str());
    let ghost head = dls_v(out@);
    let mut k: usize = 0;
    while k < d.comments.len()
        invariant
            k <= d.comments@.len(),
            dls_v(out@) == head + comments_lines(d.comments@, k as int),
        decreases d.comments@.len() - k,
    {
        let c = &d.comments[k];
        let ghost before = dls_v(out@);
        push_line(&mut out, String::new(), DetailLineKind::Blank);
        let mut header = String::new();
        push_str(&mut header, "\u{2500}\u{2500} @");
        push_str(&mut header, c.author.as_str());
        push_str(&mut header, " \u{00b7} ");
        push_date(&mut header, c.created_at.as_str());
        push_line(&mut out, header, DetailLineKind::CommentHeader);
        push_body(&mut out, c.body.as_str());
        assert(dls_v(out@) =~= before + comment_lines(d.comments@[k as int]));
        assert(comments_lines(d.comments@, k + 1) == comments_lines(d.comments@, k as int) + comment_lines(d.comments@[k as int]));
        k = k + 1;
    }
    proof {
        assert(dls_v(out@) =~= spec_detail_lines(*d));
    }
    out
}

/// What the detail pane holds.
#[derive(Debug)]
pub enum DetailBody {
    /// `Loading…`
    Loading,
    /// The load error.
    Failed(String),
    /// The item's thread.
    Thread(Vec<DetailLine>),
    /// Nothing to show.
    Nothing,
}

impl GithubPanel {
    /// The list title (see `spec_github_title`).
    pub fn list_title(&self) -> (r: String)
        ensures
            r@ == spec_github_title(*self),
    {
        if self.repo_name.as_str().unicode_len() == 0 {
            return " GitHub ".to_string();
        }
        let mut s = String::new();
        push_str(&mut s, " GitHub \u{2014} ");
        push_str(&mut s, self.repo_name.as_str());
        push_str(&mut s, " (");
        push_decimal(&mut s, self.issue_count as u64);
        push_str(&mut s, " issues, ");
        push_decimal(&mut s, self.pr_count as u64);
        push_str(&mut s, " PRs) ");
        s
    }

    /// What the list says in place of rows, when it has none.
    pub fn empty_text(&self) -> (r: Option<String>)
        ensures
            match r {
                Some(s) => self.rows@.len() == 0 && s@ == spec_empty_text(self.status),
                None => self.rows@.len() > 0,
            },
    {
        if self.rows.len() > 0 {
            return None;
        }
        Some(match &self.status {
            PanelStatus::Loading => "Loading\u{2026}".to_string(),
            PanelStatus::NotGithub => "No github.com remote".to_string(),
            PanelStatus::Error(e) => e.clone(),
            PanelStatus::Ready => "No open issues or PRs".to_string(),
        })
    }

    /// The detail pane's title (see `spec_detail_title`).
    pub fn detail_title(&self) -> (r: String)
        ensures
            r@ == spec_detail_title(self.detail),
    {
        match &self.detail {
            Some(d) => {
                let mut s = String::new();
                push_str(&mut s, " #");
                push_decimal(&mut s, d.number);
                push_str(&mut s, " \u{2014} ");
                push_str(&mut s, d.title.as_str());
                push_str(&mut s, " (Esc to close) ");
                s
            },
            None => " GitHub item (Esc to close) ".to_string(),
        }
    }

    /// The detail pane's content: loading first, then the error, then the
    /// thread.
    pub fn detail_body(&self) -> (r: DetailBody)
        ensures
            self.detail_loading ==> r is Loading,
            !self.detail_loading && self.detail_error.is_some() ==> r == DetailBody::Failed(self.detail_error.unwrap()),
            !self.detail_loading && self.detail_error.is_none() ==> match self.detail {
                Some(d) => r matches DetailBody::Thread(ls) && dls_v(ls@) == spec_detail_lines(d),
                None => r is Nothing,
            },
    {
        if self.detail_loading {
            DetailBody::Loading
        } else if let Some(e) = &self.detail_error {
            DetailBody::Failed(e.clone())
        } else if let Some(d) = &self.detail {
            DetailBody::Thread(detail_lines(d))
        } else {
            DetailBody::Nothing
        }
    }
}

} // verus!
