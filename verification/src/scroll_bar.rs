//! A pane's scroll indicator as a pointer target: the column beside the
//! pane's right border, over the pane's inner rows, that appears once the
//! content outgrows the pane. A press on it jumps the pane to the offset the
//! row selects, and a drag keeps scrubbing by the row alone.

use vstd::prelude::*;
use crate::layout::Rect;
use crate::scroll::{clamp_scroll, pane_max};

verus! {

/// The geometry a press on a scroll indicator grabs: the indicator's column,
/// its first row and row count (the pane's inner rows), and the largest
/// offset the pane scrolls to.
#[derive(Debug, Clone, Copy, PartialEq, Eq, Structural)]
pub struct ScrollGrab {
    pub column: u16,
    pub top: u16,
    pub height: u16,
    pub max: u16,
}

/// The indicator of a bordered `pane` whose content scrolls up to `max`:
/// none while everything fits (`max == 0`) or the pane has no inner area.
pub open spec fn bar_for(pane: Rect, max: u16) -> Option<ScrollGrab> {
    if pane.width > 2 && pane.height > 2 && max > 0 {
        Some(ScrollGrab {
            column: (pane.x + pane.width - 2) as u16,
            top: (pane.y + 1) as u16,
            height: (pane.height - 2) as u16,
            max,
        })
    } else {
        None
    }
}

/// The indicator of wrapped `text` in the bordered `pane`.
pub open spec fn text_bar(text: Seq<char>, pane: Rect) -> Option<ScrollGrab> {
    bar_for(pane, pane_max(text, pane))
}

/// The largest offset of a list of `n` rows in the bordered `pane` (capped
/// at the largest `u16`).
pub open spec fn list_max(n: nat, pane: Rect) -> u16 {
    let visible: int = if pane.height > 2 { pane.height - 2 } else { 0 };
    if n <= visible {
        0
    } else if n - visible > u16::MAX {
        u16::MAX
    } else {
        (n - visible) as u16
    }
}

/// The indicator of a list of `n` rows in the bordered `pane`.
pub open spec fn list_bar(n: nat, pane: Rect) -> Option<ScrollGrab> {
    bar_for(pane, list_max(n, pane))
}

/// Whether cell `(column, row)` lies on the indicator.
pub open spec fn on_bar(l: ScrollGrab, column: u16, row: u16) -> bool {
    column == l.column && l.top <= row && row < l.top + l.height
}

/// The offset a pointer at `row` selects: the row is held to the track,
/// then its place from the first row (offset `0`) to the last (offset
/// `max`) is scaled to the offsets, rounded to the nearest.
pub open spec fn track_offset(l: ScrollGrab, row: u16) -> u16 {
    let rel: int = if row < l.top {
        0
    } else if row >= l.top + l.height {
        if l.height > 0 { l.height - 1 } else { 0 }
    } else {
        row - l.top
    };
    if l.height <= 1 {
        0
    } else {
        ((rel * l.max + (l.height - 1) / 2) / (l.height - 1)) as u16
    }
}

/// The offset a press at `(column, row)` selects, when it lies on the
/// indicator.
pub open spec fn press_offset(l: ScrollGrab, column: u16, row: u16) -> Option<u16> {
    if on_bar(l, column, row) { Some(track_offset(l, row)) } else { None }
}

fn bar(pane: Rect, max: u16) -> (r: Option<ScrollGrab>)
    requires
        pane.fits(),
    ensures
        r == bar_for(pane, max),
{
    if pane.width > 2 && pane.height > 2 && max > 0 {
        Some(ScrollGrab { column: pane.x + pane.width - 2, top: pane.y + 1, height: pane.height - 2, max })
    } else {
        None
    }
}

/// The scroll indicator of wrapped `text` in the bordered `pane`, if the
/// text outgrows it.
pub fn text_indicator(text: &str, pane: Rect) -> (r: Option<ScrollGrab>)
    requires
        pane.fits(),
    ensures
        r == text_bar(text@, pane),
{
    let max = clamp_scroll(text, pane, u16::MAX);
    bar(pane, max)
}

/// The scroll indicator of a list of `n` rows in the bordered `pane`, if
/// the list outgrows it.
pub fn list_indicator(n: usize, pane: Rect) -> (r: Option<ScrollGrab>)
    requires
        pane.fits(),
    ensures
        r == list_bar(n as nat, pane),
{
    let visible: usize = if pane.height > 2 { (pane.height - 2) as usize } else { 0 };
    let max: u16 = if n <= visible {
        0
    } else if n - visible > 65535 {
        u16::MAX
    } else {
        (n - visible) as u16
    };
    bar(pane, max)
}

impl ScrollGrab {
    /// The offset a pointer at `row` selects (see `track_offset`).
    pub fn row_offset(&self, row: u16) -> (r: u16)
        ensures
            r == track_offset(*self, row),
    {
        let rel: u64 = if row < self.top {
            0
        } else if (row as u64) >= (self.top as u64) + (self.height as u64) {
            if self.height > 0 { (self.height - 1) as u64 } else { 0 }
        } else {
            (row - self.top) as u64
        };
        if self.height <= 1 {
            return 0;
        }
        let span: u64 = (self.height - 1) as u64;
        assert(rel <= span);
        assert(rel * (self.max as u64) <= span * (self.max as u64)) by (nonlinear_arith)
            requires
                rel <= span,
        ;
        assert(span * (self.max as u64) <= 65535 * 65535) by (nonlinear_arith)
            requires
                span <= 65535,
                self.max <= 65535,
        ;
        let num: u64 = rel * (self.max as u64) + span / 2;
        let q: u64 = num / span;
        assert(q <= self.max) by (nonlinear_arith)
            requires
                q == num / span,
                num == rel * self.max + span / 2,
                rel <= span,
                span >= 1,
        {
            assert(num < (self.max + 1) * span);
        }
        q as u16
    }

    /// The offset a press at `(column, row)` selects, when it lies on the
    /// indicator.
    pub fn press(&self, column: u16, row: u16) -> (r: Option<u16>)
        ensures
            r == press_offset(*self, column, row),
    {
        if column == self.column && self.top <= row && (row as u32) < (self.top as u32) + (self.height as u32) {
            Some(self.row_offset(row))
        } else {
            None
        }
    }
}

/// The ends of the track reach the ends of the content: the first row
/// selects the top, the last row the last screenful, and a lower row never
/// selects an earlier offset than a higher one.
pub proof fn law_track_spans_the_content(l: ScrollGrab, a: u16, b: u16)
    requires
        l.height >= 2,
        l.top + l.height <= u16::MAX,
        a <= b,
    ensures
        track_offset(l, l.top) == 0,
        track_offset(l, (l.top + l.height - 1) as u16) == l.max,
        track_offset(l, a) <= track_offset(l, b),
        track_offset(l, a) <= l.max,
{
    let span: int = l.height - 1;
    let m: int = l.max as int;
    assert((0 * m + span / 2) / span == 0) by (nonlinear_arith)
        requires
            span >= 1,
    ;
    assert((span * m + span / 2) / span == m) by (nonlinear_arith)
        requires
            span >= 1,
            m >= 0,
    ;
    let ra: int = if a < l.top { 0 } else if a >= l.top + l.height { span } else { a - l.top };
    let rb: int = if b < l.top { 0 } else if b >= l.top + l.height { span } else { b - l.top };
    assert(ra <= rb);
    assert((ra * m + span / 2) / span <= (rb * m + span / 2) / span) by (nonlinear_arith)
        requires
            0 <= ra <= rb,
            m >= 0,
            span >= 1,
    ;
    assert((rb * m + span / 2) / span <= m) by (nonlinear_arith)
        requires
            0 <= rb <= span,
            m >= 0,
            span >= 1,
    ;
}

} // verus!
