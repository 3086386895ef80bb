//! Placement inside the inline viewport: stacking components by their
//! height hints and keeping the terminal cursor on a visible cell.

use vstd::prelude::*;
use crate::layout::{Rect, Size};

verus! {

/// A terminal cell position.
#[derive(Clone, Copy, Debug, PartialEq, Eq, Structural)]
pub struct Position {
    pub x: u16,
    pub y: u16,
}

pub open spec fn min_int(a: int, b: int) -> int {
    if a < b { a } else { b }
}

pub open spec fn sat_add16(a: int, b: int) -> int {
    if a + b > u16::MAX { u16::MAX as int } else { a + b }
}

/// The cell of a rectangle-local cursor, clamped into a non-empty
/// rectangle; none for an empty one.
pub fn cursor_position_in_rect(rect: Rect, local_col: u16, local_row: u16) -> (p: Option<Position>)
    ensures
        (rect.width == 0 || rect.height == 0) <==> p is None,
        p matches Some(q) ==> q.x == sat_add16(rect.x as int, min_int(local_col as int, rect.width - 1))
            && q.y == sat_add16(rect.y as int, min_int(local_row as int, rect.height - 1)),
{
    if rect.width == 0 || rect.height == 0 {
        return None;
    }
    let max_col = rect.width - 1;
    let max_row = rect.height - 1;
    let col = if local_col < max_col { local_col } else { max_col };
    let row = if local_row < max_row { local_row } else { max_row };
    Some(Position { x: rect.x.saturating_add(col), y: rect.y.saturating_add(row) })
}

/// The cell of a modal cursor, only when its row exists in the rectangle
/// (the column is clamped, the row never is); none otherwise.
pub fn cursor_if_visible_in_rect(rect: Rect, local_col: u16, local_row: u16) -> (p: Option<Position>)
    ensures
        (rect.width == 0 || rect.height == 0 || local_row >= rect.height) <==> p is None,
        p matches Some(q) ==> q.x == sat_add16(rect.x as int, min_int(local_col as int, rect.width - 1))
            && q.y == sat_add16(rect.y as int, local_row as int),
{
    if rect.width == 0 || rect.height == 0 || local_row >= rect.height {
        return None;
    }
    let max_col = rect.width - 1;
    let col = if local_col < max_col { local_col } else { max_col };
    Some(Position { x: rect.x.saturating_add(col), y: rect.y.saturating_add(local_row) })
}

/// A cursor position clamped onto a non-empty screen; none for an empty
/// one.
pub fn clamp_cursor(position: Position, size: Size) -> (p: Option<Position>)
    ensures
        (size.width == 0 || size.height == 0) <==> p is None,
        p matches Some(q) ==> q.x == min_int(position.x as int, size.width - 1) && q.y == min_int(
            position.y as int,
            size.height - 1,
        ),
{
    if size.width == 0 || size.height == 0 {
        return None;
    }
    let max_x = size.width - 1;
    let max_y = size.height - 1;
    Some(
        Position {
            x: if position.x < max_x { position.x } else { max_x },
            y: if position.y < max_y { position.y } else { max_y },
        },
    )
}

/// The clamped cursor always lies on the screen.
pub proof fn clamped_cursor_is_on_screen(position: Position, size: Size, q: Position)
    requires
        size.width > 0,
        size.height > 0,
        q.x == min_int(position.x as int, size.width - 1),
        q.y == min_int(position.y as int, size.height - 1),
    ensures
        q.x < size.width,
        q.y < size.height,
{
}

/// Sum of component heights.
pub open spec fn heights_sum(h: Seq<u16>) -> int
    decreases h.len(),
{
    if h.len() == 0 {
        0
    } else {
        heights_sum(h.drop_last()) + h.last()
    }
}

/// The total height of the stacked components.
pub fn total_height(heights: &Vec<u16>) -> (t: u16)
    requires
        heights_sum(heights@) <= u16::MAX,
    ensures
        t == heights_sum(heights@),
{
    let mut t: u16 = 0;
    let mut i: usize = 0;
    while i < heights.len()
        invariant
            i <= heights@.len(),
            t == heights_sum(heights@.take(i as int)),
            heights_sum(heights@) <= u16::MAX,
        decreases heights@.len() - i,
    {
        proof {
            let s = heights@.take(i + 1);
            assert(s.drop_last() =~= heights@.take(i as int));
            heights_sum_prefix(heights@, i + 1);
        }
        t = t + heights[i];
        i = i + 1;
    }
    proof {
        assert(heights@.take(heights@.len() as int) =~= heights@);
    }
    t
}

proof fn heights_sum_prefix(h: Seq<u16>, k: int)
    requires
        0 <= k <= h.len(),
    ensures
        heights_sum(h.take(k)) <= heights_sum(h),
    decreases h.len() - k,
{
    if k < h.len() {
        heights_sum_prefix(h, k + 1);
        assert(h.take(k + 1).drop_last() =~= h.take(k));
    } else {
        assert(h.take(k) =~= h);
    }
}

/// Scanning the components top to bottom: the rows placed so far and the
/// next free row. Each component gets its height hint cut to the rows left
/// above the area's bottom; components that get no row are skipped.
pub open spec fn stack_scan(area: Rect, heights: Seq<u16>) -> (Seq<(int, Rect)>, int)
    decreases heights.len(),
{
    if heights.len() == 0 {
        (Seq::empty(), area.y as int)
    } else {
        let (placed, y) = stack_scan(area, heights.drop_last());
        let room = if area.bottom_spec() > u16::MAX {
            u16::MAX - y
        } else {
            area.bottom_spec() - y
        };
        let h = min_int(heights.last() as int, if room > 0 { room } else { 0 });
        if h > 0 {
            (
                placed.push(
                    (
                        heights.len() - 1,
                        Rect { x: area.x, y: y as u16, width: area.width, height: h as u16 },
                    ),
                ),
                sat_add16(y, h),
            )
        } else {
            (placed, y)
        }
    }
}

/// Stacks components with the given height hints inside `area`: the index
/// of each component that gets rows, and its rectangle.
pub fn stack_layout(area: Rect, heights: &Vec<u16>) -> (r: Vec<(usize, Rect)>)
    ensures
        r@.len() == stack_scan(area, heights@).0.len(),
        forall|i: int| 0 <= i < r@.len() ==> (#[trigger] r@[i]).0 == stack_scan(area, heights@).0[i].0
            && r@[i].1 == stack_scan(area, heights@).0[i].1,
{
    let bottom = area.y.saturating_add(area.height);
    let mut y = area.y;
    let mut out: Vec<(usize, Rect)> = Vec::new();
    let mut i: usize = 0;
    while i < heights.len()
        invariant
            i <= heights@.len(),
            bottom == sat_add16(area.y as int, area.height as int),
            (y as int) == stack_scan(area, heights@.take(i as int)).1,
            out@.len() == stack_scan(area, heights@.take(i as int)).0.len(),
            forall|t: int| 0 <= t < out@.len() ==> (#[trigger] out@[t]).0 == stack_scan(area, heights@.take(i as int)).0[t].0
                && out@[t].1 == stack_scan(area, heights@.take(i as int)).0[t].1,
            y <= bottom,
            area.y <= y,
        decreases heights@.len() - i,
    {
        let room = bottom - y;
        let hint = heights[i];
        let h = if hint < room { hint } else { room };
        proof {
            let t = heights@.take(i + 1);
            assert(t.drop_last() =~= heights@.take(i as int));
            assert(t.last() == hint);
        }
        if h > 0 {
            out.push((i, Rect { x: area.x, y, width: area.width, height: h }));
            y = y + h;
        }
        i = i + 1;
    }
    proof {
        assert(heights@.take(heights@.len() as int) =~= heights@);
    }
    out
}

} // verus!
