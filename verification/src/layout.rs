//! Terminal geometry of the panes: rectangles, the commit-detail split, and
//! how far a pane can scroll.

use vstd::prelude::*;

verus! {

/// A rectangle of terminal cells.
#[derive(Debug, Clone, Copy, PartialEq, Eq, Structural, Default)]
pub struct Rect {
    pub x: u16,
    pub y: u16,
    pub width: u16,
    pub height: u16,
}

impl Rect {
    /// A rectangle at `(x, y)` of the given size.
    pub fn new(x: u16, y: u16, width: u16, height: u16) -> (r: Rect)
        ensures
            r == (Rect { x, y, width, height }),
    {
        Rect { x, y, width, height }
    }

    /// The empty rectangle at the origin.
    pub open spec fn default_spec() -> Rect {
        Rect { x: 0, y: 0, width: 0, height: 0 }
    }

    /// Whether the rectangle ends inside the coordinate range, as every
    /// rectangle a terminal lays out does.
    pub open spec fn fits(self) -> bool {
        self.x + self.width <= u16::MAX && self.y + self.height <= u16::MAX
    }

    /// Whether cell `(col, row)` lies inside.
    pub open spec fn spec_contains(self, col: u16, row: u16) -> bool {
        self.x <= col < self.x + self.width && self.y <= row < self.y + self.height
    }

    /// Whether cell `(col, row)` lies inside.
    pub fn contains(&self, col: u16, row: u16) -> (r: bool)
        ensures
            r == self.spec_contains(col, row),
    {
        col >= self.x && (col as u32) < self.x as u32 + self.width as u32 && row >= self.y
            && (row as u32) < self.y as u32 + self.height as u32
    }
}

/// ±2 cells hit zone for grabbing a commit-detail border.
pub const DETAIL_GRAB_ZONE: u16 = 2;

/// The minimum number of cells each detail pane keeps on the axis: three,
/// but never more than a quarter of the axis, so four panes always fit.
pub fn detail_min_cells(axis: u16) -> (m: u16)
    ensures
        m == (if axis / 4 < 3 { axis / 4 } else { 3 }),
        4 * m <= axis,
{
    if axis / 4 < 3 { axis / 4 } else { 3 }
}

/// `v` clamped into `[lo, hi]`.
pub open spec fn clamp(v: int, lo: int, hi: int) -> int {
    if v < lo { lo } else if v > hi { hi } else { v }
}

/// Feasible boundary cells for the three detail borders, from the desired
/// cells `desired` (graph|message, message|files, files|diff): clamped in
/// order so every pane keeps `detail_min_cells(axis)` cells.
pub open spec fn spec_cell_bounds(axis: u16, desired: [u16; 3]) -> [u16; 3] {
    if axis == 0 {
        [0, 0, 0]
    } else {
        let m = if axis / 4 < 3 { axis / 4 } else { 3 } as int;
        let b0 = clamp(desired[0] as int, m, axis - 3 * m);
        let b1 = clamp(desired[1] as int, b0 + m, axis - 2 * m);
        let b2 = clamp(desired[2] as int, b1 + m, axis - m);
        [b0 as u16, b1 as u16, b2 as u16]
    }
}

fn clamp_u16(v: u16, lo: u16, hi: u16) -> (r: u16)
    requires
        lo <= hi,
    ensures
        r == clamp(v as int, lo as int, hi as int),
{
    if v < lo { lo } else if v > hi { hi } else { v }
}

/// Feasible boundary cells of the commit-detail split on an axis of `axis`
/// cells: each boundary is clamped so that every one of the four panes keeps
/// at least `detail_min_cells(axis)` cells and the boundaries stay ordered.
pub fn detail_cell_bounds(axis: u16, desired: [u16; 3]) -> (b: [u16; 3])
    ensures
        b == spec_cell_bounds(axis, desired),
        axis > 0 ==> {
            let m = if axis / 4 < 3 { axis / 4 } else { 3 };
            &&& m <= b[0]
            &&& b[0] + m <= b[1]
            &&& b[1] + m <= b[2]
            &&& b[2] + m <= axis
        },
{
    if axis == 0 {
        return [0, 0, 0];
    }
    let m = detail_min_cells(axis);
    let b0 = clamp_u16(desired[0], m, axis - 3 * m);
    let b1 = clamp_u16(desired[1], b0 + m, axis - 2 * m);
    let b2 = clamp_u16(desired[2], b1 + m, axis - m);
    [b0, b1, b2]
}

/// Auto height of the commit message pane: its line count plus the borders,
/// capped at 40% of the axis, at least 3 cells.
pub open spec fn spec_msg_auto_cells(line_count: u16, axis: u16) -> int {
    let want = line_count + 2;
    let cap = axis * 40 / 100;
    let v = if want < cap { want } else { cap };
    if v < 3 { 3 } else { v }
}

/// Auto height (in cells) of the commit message pane: the message's line
/// count plus its two borders, capped at 40% of the axis, never below 3.
/// No step overflows, whatever the inputs.
pub fn msg_auto_cells(line_count: u16, axis: u16) -> (c: u16)
    ensures
        c == spec_msg_auto_cells(line_count, axis),
{
    let want: u32 = line_count as u32 + 2;
    let cap: u32 = axis as u32 * 40 / 100;
    let v = if want < cap { want } else { cap };
    if v < 3 { 3 } else { v as u16 }
}

/// Ordered borders on an axis of `axis` cells that leave every one of the
/// four panes at least `detail_min_cells(axis)` cells, as
/// `detail_cell_bounds` gives them.
pub open spec fn feasible_bounds(axis: u16, b: [u16; 3]) -> bool {
    let m = if axis / 4 < 3 { axis / 4 } else { 3 };
    &&& m <= b[0]
    &&& b[0] + m <= b[1]
    &&& b[1] + m <= b[2]
    &&& b[2] + m <= axis
}

/// The borders after `border` was dragged to cell `at`.
pub open spec fn spec_drag_border(axis: u16, b: [u16; 3], border: u8, at: u16) -> [u16; 3] {
    let m = if axis / 4 < 3 { axis / 4 } else { 3 } as int;
    if border == 0 {
        [clamp(at as int, m, b[1] - m) as u16, b[1], b[2]]
    } else if border == 1 {
        [b[0], clamp(at as int, b[0] + m, b[2] - m) as u16, b[2]]
    } else if border == 2 {
        [b[0], b[1], clamp(at as int, b[1] + m, axis - m) as u16]
    } else {
        b
    }
}

/// Drags the commit-detail border `border` (0: graph|message, 1:
/// message|files, 2: files|diff) to cell `at` of the axis: it stops where a
/// pane beside it would shrink below `detail_min_cells(axis)`; the other
/// borders stay. The result is again feasible.
pub fn drag_detail_border(axis: u16, b: [u16; 3], border: u8, at: u16) -> (r: [u16; 3])
    requires
        feasible_bounds(axis, b),
    ensures
        r == spec_drag_border(axis, b, border, at),
        feasible_bounds(axis, r),
{
    let m = detail_min_cells(axis);
    if border == 0 {
        [clamp_u16(at, m, b[1] - m), b[1], b[2]]
    } else if border == 1 {
        [b[0], clamp_u16(at, b[0] + m, b[2] - m), b[2]]
    } else if border == 2 {
        [b[0], b[1], clamp_u16(at, b[1] + m, axis - m)]
    } else {
        b
    }
}

/// The message|files border while the user has not dragged it: the message
/// pane gets `msg_auto_cells` cells below the graph border, clamped so the
/// message and file panes keep their minimum.
pub open spec fn spec_auto_message_border(axis: u16, b: [u16; 3], line_count: u16) -> u16 {
    let m = if axis / 4 < 3 { axis / 4 } else { 3 } as int;
    let want = b[0] + spec_msg_auto_cells(line_count, axis);
    let at = if want > u16::MAX { u16::MAX as int } else { want };
    clamp(at, b[0] + m, b[2] - m) as u16
}

/// The message|files border that follows the message's `line_count` (see
/// `spec_auto_message_border`).
pub fn auto_message_border(axis: u16, b: [u16; 3], line_count: u16) -> (r: u16)
    requires
        feasible_bounds(axis, b),
    ensures
        r == spec_auto_message_border(axis, b, line_count),
{
    let m = detail_min_cells(axis);
    let want = b[0].saturating_add(msg_auto_cells(line_count, axis));
    clamp_u16(want, b[0] + m, b[2] - m)
}

/// Auto height of the file list pane: one row per file plus the borders,
/// capped at 30% of the axis, at least 3 cells.
pub open spec fn spec_files_auto_cells(files: usize, axis: u16) -> int {
    let want = files + 2;
    let cap = axis * 30 / 100;
    let v = if want < cap { want } else { cap };
    if v < 3 { 3 } else { v }
}

/// Auto height (in cells) of the commit file list: one row per file plus
/// its two borders, capped at 30% of the axis, never below 3. No step
/// overflows, whatever the inputs.
pub fn files_auto_cells(files: usize, axis: u16) -> (c: u16)
    ensures
        c == spec_files_auto_cells(files, axis),
{
    let cap: u32 = axis as u32 * 30 / 100;
    let v: u32 = if files < cap as usize && files + 2 < cap as usize { (files + 2) as u32 } else { cap };
    if v < 3 { 3 } else { v as u16 }
}

/// The border of a live rectangle on the axis, `None` for an empty one.
pub open spec fn spec_end(r: Rect, vertical: bool) -> Option<u16> {
    if r.width > 0 && r.height > 0 {
        Some((if vertical { r.y + r.height } else { r.x + r.width }) as u16)
    } else {
        None
    }
}

fn end_of(r: Rect, vertical: bool) -> (e: Option<u16>)
    requires
        r.fits(),
    ensures
        e == spec_end(r, vertical),
{
    if r.width > 0 && r.height > 0 {
        Some(if vertical { r.y + r.height } else { r.x + r.width })
    } else {
        None
    }
}

/// Axis coordinates (row when `vertical`, column otherwise) of the
/// commit-detail borders: graph|message, message|files and files|diff. A
/// border is absent when the pane before it was not drawn; the files|diff
/// border also when no diff is drawn.
pub fn detail_border_positions(graph: Rect, message: Rect, files: Rect, diff: Rect, vertical: bool) -> (b: [Option<u16>; 3])
    requires
        graph.fits(),
        message.fits(),
        files.fits(),
    ensures
        b[0] == spec_end(graph, vertical),
        b[1] == spec_end(message, vertical),
        b[2] == (if diff.width > 0 && diff.height > 0 { spec_end(files, vertical) } else { None }),
{
    let has_diff = diff.width > 0 && diff.height > 0;
    [
        end_of(graph, vertical),
        end_of(message, vertical),
        if has_diff { end_of(files, vertical) } else { None },
    ]
}

/// Rows of a bordered pane that are not borders.
pub fn visible_rows(pane: Rect) -> (n: u16)
    requires
        pane.height >= 2,
    ensures
        n == pane.height - 2,
{
    pane.height - 2
}

/// Column of a bordered pane's scroll indicator: its last inner column.
pub fn bar_x(pane: Rect) -> (x: u16)
    requires
        pane.width >= 2,
        pane.x + pane.width <= u16::MAX,
    ensures
        x == pane.x + pane.width - 2,
{
    pane.x + pane.width - 2
}

} // verus!
