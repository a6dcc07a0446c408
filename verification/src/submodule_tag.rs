//! The `[sub: …]` tag of a submodule row in the changes list.

use vstd::prelude::*;
use crate::status::{SubmoduleHead, SubmoduleState, SubmoduleWarn};
use crate::text::{decimal, push_decimal, push_str};

verus! {

/// How a piece of the tag is colored.
#[derive(Debug, Clone, Copy, PartialEq, Eq, Structural)]
pub enum TagStyle {
    Bracket,
    Branch,
    Unpushed,
    Unreachable,
    NeedsMerge,
}

/// One styled piece of the tag.
#[derive(Debug)]
pub struct TagSpan {
    pub text: String,
    pub style: TagStyle,
}

/// The value of a piece.
pub open spec fn span_v(s: TagSpan) -> (Seq<char>, TagStyle) {
    (s.text@, s.style)
}

/// The values of some pieces.
pub open spec fn spans_v(s: Seq<TagSpan>) -> Seq<(Seq<char>, TagStyle)> {
    s.map_values(|x: TagSpan| span_v(x))
}

/// Appends a piece, after a separating space when pieces precede it.
pub open spec fn add_part(inner: Seq<(Seq<char>, TagStyle)>, part: (Seq<char>, TagStyle)) -> Seq<(Seq<char>, TagStyle)> {
    if inner.len() == 0 {
        seq![part]
    } else {
        inner.push((" "@, TagStyle::Bracket)).push(part)
    }
}

/// The pieces inside the brackets: the state (`+commit`, `-uninit`,
/// `~dirty`), then unless uninitialized the branch (`@name`, `@detached`)
/// and the warnings: `⚠unreach` alone, or `↑N` and `↛main` as they apply.
pub open spec fn tag_inner(state: Option<SubmoduleState>, head: Option<SubmoduleHead>, warn: SubmoduleWarn) -> Seq<(Seq<char>, TagStyle)> {
    let s0: Seq<(Seq<char>, TagStyle)> = match state {
        Some(SubmoduleState::Modified) => seq![("+commit"@, TagStyle::Bracket)],
        Some(SubmoduleState::Uninitialized) => seq![("-uninit"@, TagStyle::Bracket)],
        Some(SubmoduleState::Dirty) => seq![("~dirty"@, TagStyle::Bracket)],
        None => Seq::empty(),
    };
    if state == Some(SubmoduleState::Uninitialized) {
        s0
    } else {
        let s1 = match head {
            Some(SubmoduleHead::Branch(name)) => add_part(s0, ("@"@ + name@, TagStyle::Branch)),
            Some(SubmoduleHead::Detached) => add_part(s0, ("@detached"@, TagStyle::Branch)),
            None => s0,
        };
        if warn.pointer_unreachable {
            add_part(s1, ("\u{26a0}unreach"@, TagStyle::Unreachable))
        } else {
            let s2 = if warn.unpushed_commits > 0 {
                add_part(s1, ("\u{2191}"@ + decimal(warn.unpushed_commits as nat), TagStyle::Unpushed))
            } else {
                s1
            };
            if warn.needs_merge_to_default {
                add_part(s2, ("\u{219b}main"@, TagStyle::NeedsMerge))
            } else {
                s2
            }
        }
    }
}

/// The whole tag: `[submodule] ` when there is nothing to say, otherwise
/// `[sub: ` + the inner pieces + `] `.
pub open spec fn tag_spans(state: Option<SubmoduleState>, head: Option<SubmoduleHead>, warn: SubmoduleWarn) -> Seq<(Seq<char>, TagStyle)> {
    let inner = tag_inner(state, head, warn);
    if inner.len() == 0 {
        seq![("[submodule] "@, TagStyle::Bracket)]
    } else {
        seq![("[sub: "@, TagStyle::Bracket)] + inner + seq![("] "@, TagStyle::Bracket)]
    }
}

fn piece(text: &str, style: TagStyle) -> (s: TagSpan)
    ensures
        span_v(s) == (text@, style),
{
    TagSpan { text: text.to_string(), style }
}

fn push_part(inner: &mut Vec<TagSpan>, part: TagSpan)
    ensures
        spans_v(final(inner)@) == add_part(spans_v(old(inner)@), span_v(part)),
{
    let ghost pv = span_v(part);
    if inner.len() > 0 {
        inner.push(piece(" ", TagStyle::Bracket));
    }
    inner.push(part);
    assert(spans_v(inner@) =~= add_part(spans_v(old(inner)@), pv));
}

/// Builds the `[sub: …]` tag spans of a submodule row.
pub fn submodule_tag_spans(state: &Option<SubmoduleState>, head: &Option<SubmoduleHead>, warn: &SubmoduleWarn) -> (r: Vec<TagSpan>)
    ensures
        spans_v(r@) == tag_spans(*state, *head, *warn),
{
    let mut inner: Vec<TagSpan> = Vec::new();
    match state {
        Some(SubmoduleState::Modified) => inner.push(piece("+commit", TagStyle::Bracket)),
        Some(SubmoduleState::Uninitialized) => inner.push(piece("-uninit", TagStyle::Bracket)),
        Some(SubmoduleState::Dirty) => inner.push(piece("~dirty", TagStyle::Bracket)),
        None => {},
    }
    let suppress = match state {
        Some(SubmoduleState::Uninitialized) => true,
        _ => false,
    };
    if !suppress {
        match head {
            Some(SubmoduleHead::Branch(name)) => {
                let mut label = "@".to_string();
                push_str(&mut label, name.as_str());
                push_part(&mut inner, TagSpan { text: label, style: TagStyle::Branch });
            },
            Some(SubmoduleHead::Detached) => push_part(&mut inner, piece("@detached", TagStyle::Branch)),
            None => {},
        }
        if warn.pointer_unreachable {
            push_part(&mut inner, piece("\u{26a0}unreach", TagStyle::Unreachable));
        } else {
            if warn.unpushed_commits > 0 {
                let mut label = "\u{2191}".to_string();
                push_decimal(&mut label, warn.unpushed_commits as u64);
                push_part(&mut inner, TagSpan { text: label, style: TagStyle::Unpushed });
            }
            if warn.needs_merge_to_default {
                push_part(&mut inner, piece("\u{219b}main", TagStyle::NeedsMerge));
            }
        }
    }
    assert(spans_v(inner@) =~= tag_inner(*state, *head, *warn));
    if inner.len() == 0 {
        let mut out: Vec<TagSpan> = Vec::new();
        out.push(piece("[submodule] ", TagStyle::Bracket));
        assert(spans_v(out@) =~= tag_spans(*state, *head, *warn));
        return out;
    }
    let mut out: Vec<TagSpan> = Vec::new();
    out.push(piece("[sub: ", TagStyle::Bracket));
    let ghost iv = spans_v(inner@);
    let n = inner.len();
    let mut k: usize = 0;
    while k < n
        invariant
            n == iv.len(),
            k <= n,
            inner@.len() == n - k,
            forall|x: int| 0 <= x < n - k ==> span_v(#[trigger] inner@[x]) == iv[k + x],
            spans_v(out@) == seq![("[sub: "@, TagStyle::Bracket)] + iv.take(k as int),
        decreases n - k,
    {
        let p = inner.remove(0);
        let ghost before = out@;
        out.push(p);
        assert(spans_v(out@) =~= spans_v(before).push(iv[k as int]));
        assert(iv.take(k + 1) =~= iv.take(k as int).push(iv[k as int]));
        k = k + 1;
    }
    out.push(piece("] ", TagStyle::Bracket));
    assert(iv.take(n as int) =~= iv);
    assert(spans_v(out@) =~= tag_spans(*state, *head, *warn));
    out
}

} // verus!
