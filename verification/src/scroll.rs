//! How far wrapped text scrolls inside a bordered pane, and the `seen/total`
//! counter a pane title carries once its content outgrows it.

use vstd::prelude::*;
use vstd::string::*;
use crate::layout::Rect;

verus! {

/// The number of rows ratatui's word wrapper gives `text` at `width`
/// columns (a paragraph without block, `trim: false`).
pub uninterp spec fn wrapped_line_count(text: Seq<char>, width: u16) -> usize;

/// Calls ratatui's `Paragraph::line_count` on an unblocked, word-wrapped
/// (`trim: false`) paragraph of `text`. Its contract names the result and
/// states the one fact its source shows plainly: a width of zero counts no
/// rows. How the words wrap is left unsaid.
#[verifier::external_body]
fn paragraph_line_count(text: &str, width: u16) -> (n: usize)
    ensures
        n == wrapped_line_count(text@, width),
        width == 0 ==> n == 0,
{
    ratatui::widgets::Paragraph::new(text).wrap(ratatui::widgets::Wrap { trim: false }).line_count(width)
}

/// Largest scroll offset of `text` in a bordered pane of the given size:
/// its wrapped row count (taken to `u16`) at the inner width, less the inner
/// height; `0` when the pane has no inner area.
pub open spec fn spec_max_scroll(wrapped: usize, viewport_height: u16, viewport_width: u16) -> u16 {
    if viewport_height <= 2 || viewport_width <= 2 {
        0
    } else {
        let rows = wrapped as u16;
        if rows > viewport_height - 2 { (rows - (viewport_height - 2)) as u16 } else { 0 }
    }
}

/// Maximum scroll offset (rows) for a wrapping paragraph inside a bordered
/// block of `viewport_height` × `viewport_width` cells.
pub fn max_scroll_lines(text: &str, viewport_height: u16, viewport_width: u16) -> (m: u16)
    ensures
        m == spec_max_scroll(wrapped_line_count(text@, (viewport_width - 2) as u16), viewport_height, viewport_width),
{
    if viewport_height <= 2 || viewport_width <= 2 {
        return 0;
    }
    let inner = viewport_width - 2;
    let rows = paragraph_line_count(text, inner) as u16;
    rows.saturating_sub(viewport_height - 2)
}

/// The largest offset `text` scrolls to in the bordered pane `pane`.
pub open spec fn pane_max(text: Seq<char>, pane: Rect) -> u16 {
    spec_max_scroll(wrapped_line_count(text, (pane.width - 2) as u16), pane.height, pane.width)
}

/// `offset` held to the last screenful of `text` in the bordered `pane`.
pub fn clamp_scroll(text: &str, pane: Rect, offset: u16) -> (r: u16)
    ensures
        r == (if offset > pane_max(text@, pane) { pane_max(text@, pane) } else { offset }),
{
    let max = max_scroll_lines(text, pane.height, pane.width);
    if offset > max { max } else { offset }
}

/// Unicode `White_Space`, the set `char::is_whitespace` documents.
pub open spec fn is_ws(c: char) -> bool {
    ||| ('\u{9}' <= c && c <= '\u{d}')
    ||| c == ' '
    ||| c == '\u{85}'
    ||| c == '\u{a0}'
    ||| c == '\u{1680}'
    ||| ('\u{2000}' <= c && c <= '\u{200a}')
    ||| c == '\u{2028}'
    ||| c == '\u{2029}'
    ||| c == '\u{202f}'
    ||| c == '\u{205f}'
    ||| c == '\u{3000}'
}

pub(crate) fn ws(c: char) -> (r: bool)
    ensures
        r == is_ws(c),
{
    ('\u{9}' <= c && c <= '\u{d}') || c == ' ' || c == '\u{85}' || c == '\u{a0}' || c == '\u{1680}'
        || ('\u{2000}' <= c && c <= '\u{200a}') || c == '\u{2028}' || c == '\u{2029}' || c == '\u{202f}'
        || c == '\u{205f}' || c == '\u{3000}'
}

/// An ASCII digit.
pub open spec fn is_digit(c: char) -> bool {
    '0' <= c && c <= '9'
}

/// `digits/digits`, both sides non-empty.
pub open spec fn counter_token(t: Seq<char>) -> bool {
    exists|k: int|
        0 < k < t.len() - 1 && #[trigger] t[k] == '/'
        && (forall|x: int| 0 <= x < k ==> is_digit(#[trigger] t[x]))
        && (forall|x: int| k < x < t.len() ==> is_digit(#[trigger] t[x]))
}

/// `[a, b)` is a maximal run of non-whitespace characters of `s`.
pub open spec fn is_token(s: Seq<char>, a: int, b: int) -> bool {
    &&& 0 <= a < b <= s.len()
    &&& (a == 0 || is_ws(s[a - 1]))
    &&& (b == s.len() || is_ws(s[b]))
    &&& forall|x: int| a <= x < b ==> !is_ws(#[trigger] s[x])
}

/// Whether some whitespace-separated word of `row` is a `seen/total`
/// counter.
pub open spec fn spec_has_counter(row: Seq<char>) -> bool {
    exists|a: int, b: int| is_token(row, a, b) && counter_token(#[trigger] row.subrange(a, b))
}

fn is_counter(s: &str, a: usize, b: usize) -> (r: bool)
    requires
        a < b <= s@.len(),
    ensures
        r == counter_token(s@.subrange(a as int, b as int)),
{
    let ghost t = s@.subrange(a as int, b as int);
    let mut i = a;
    while i < b && s.get_char(i) != '/'
        invariant
            a <= i <= b,
            b <= s@.len(),
            t == s@.subrange(a as int, b as int),
            forall|x: int| a <= x < i ==> s@[x] != '/',
        decreases b - i,
    {
        i = i + 1;
    }
    if i == b || i == a || i + 1 == b {
        proof {
            if counter_token(t) {
                let k = choose|k: int|
                    0 < k < t.len() - 1 && #[trigger] t[k] == '/'
                    && (forall|x: int| 0 <= x < k ==> is_digit(#[trigger] t[x]))
                    && (forall|x: int| k < x < t.len() ==> is_digit(#[trigger] t[x]));
                assert(t[k] == s@[a + k]);
                if i == b {
                } else if i == a {
                    assert(t[0] == s@[a as int]);
                    assert(is_digit(t[0]));
                } else {
                    assert(t[(i - a) as int] == s@[i as int]);
                    assert(is_digit(t[(i - a) as int]));
                }
            }
        }
        return false;
    }
    let mut j = a;
    while j < b
        invariant
            a <= j <= b,
            b <= s@.len(),
            a < i < b - 1,
            t == s@.subrange(a as int, b as int),
            s@[i as int] == '/',
            forall|x: int| a <= x < j && x != i ==> is_digit(#[trigger] s@[x]),
        decreases b - j,
    {
        if j != i {
            let c = s.get_char(j);
            if !('0' <= c && c <= '9') {
                proof {
                    if counter_token(t) {
                        let k = choose|k: int|
                            0 < k < t.len() - 1 && #[trigger] t[k] == '/'
                            && (forall|x: int| 0 <= x < k ==> is_digit(#[trigger] t[x]))
                            && (forall|x: int| k < x < t.len() ==> is_digit(#[trigger] t[x]));
                        assert(t[k] == s@[a + k]);
                        assert(t[(i - a) as int] == s@[i as int]);
                        if k < i - a {
                            assert(is_digit(t[k]));
                        } else if k > i - a {
                            assert(is_digit(t[(i - a) as int]));
                        }
                        assert(t[(j - a) as int] == s@[j as int]);
                        assert(is_digit(t[(j - a) as int]));
                    }
                }
                return false;
            }
        }
        j = j + 1;
    }
    proof {
        let k = (i - a) as int;
        assert(t[k] == '/');
        assert forall|x: int| 0 <= x < k implies is_digit(#[trigger] t[x]) by {
            assert(t[x] == s@[a + x]);
        }
        assert forall|x: int| k < x < t.len() implies is_digit(#[trigger] t[x]) by {
            assert(t[x] == s@[a + x]);
        }
    }
    true
}

/// Whether some whitespace-separated word of `row` reads `seen/total`, both
/// made of ASCII digits.
pub fn has_counter(row: &str) -> (r: bool)
    ensures
        r == spec_has_counter(row@),
{
    let n = row.unicode_len();
    let ghost s = row@;
    let mut i: usize = 0;
    while i < n
        invariant
            n == s.len(),
            s == row@,
            i <= n,
            i == 0 || i == n || is_ws(s[i as int]),
            forall|a: int, b: int| is_token(s, a, b) && a < i ==> !counter_token(#[trigger] s.subrange(a, b)),
        decreases n - i,
    {
        let old_i = i;
        while i < n && ws(row.get_char(i))
            invariant
                n == s.len(),
                s == row@,
                old_i <= i <= n,
                forall|x: int| old_i <= x < i ==> is_ws(#[trigger] s[x]),
            decreases n - i,
        {
            i = i + 1;
        }
        if i == n {
            proof {
                assert forall|a: int, b: int| is_token(s, a, b) && a < i implies !counter_token(#[trigger] s.subrange(a, b)) by {
                    if a >= old_i {
                        assert(is_ws(s[a]));
                    }
                }
            }
            return false;
        }
        let a = i;
        while i < n && !ws(row.get_char(i))
            invariant
                n == s.len(),
                s == row@,
                a <= i <= n,
                forall|x: int| a <= x < i ==> !is_ws(#[trigger] s[x]),
            decreases n - i,
        {
            i = i + 1;
        }
        let b = i;
        proof {
            assert(a == 0 || is_ws(s[a - 1]));
        }
        if is_counter(row, a, b) {
            proof {
                assert(is_token(s, a as int, b as int));
            }
            return true;
        }
        proof {
            assert forall|a2: int, b2: int| is_token(s, a2, b2) && a2 < i implies !counter_token(#[trigger] s.subrange(a2, b2)) by {
                if a2 >= old_i && a2 < a {
                    assert(is_ws(s[a2]));
                } else if a2 > a && a2 < b {
                    assert(!is_ws(s[a2 - 1]));
                } else if a2 == a {
                    if b2 < b {
                        assert(!is_ws(s[b2]));
                    } else if b2 > b {
                        assert(!is_ws(s[b as int]));
                    }
                }
            }
        }
    }
    false
}


/// Scrolling stops at the last screenful: in a pane with an inner area, the
/// largest offset plus the inner height is the number of wrapped rows when
/// they overflow it, and the offset is zero when they fit; a pane without
/// an inner area never scrolls.
pub proof fn law_scroll_stops_at_the_last_screenful(wrapped: usize, height: u16, width: u16)
    requires
        wrapped <= u16::MAX,
    ensures
        height <= 2 || width <= 2 ==> spec_max_scroll(wrapped, height, width) == 0,
        height > 2 && width > 2 && wrapped > height - 2 ==> spec_max_scroll(wrapped, height, width) + (height - 2) == wrapped,
        height > 2 && width > 2 && wrapped <= height - 2 ==> spec_max_scroll(wrapped, height, width) == 0,
{
}

} // verus!
