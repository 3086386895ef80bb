//! Final, bounded component rectangles for one full-frame render.
//!
//! Heights are handed out in a fixed priority order (composer row, status
//! row, required panel rows, composer padding, tips, preview, queue, optional
//! panel rows, extra composer rows, history) and the rectangles are then
//! stacked top to bottom in visual order.

use vstd::prelude::*;

verus! {

/// A screen rectangle in terminal cells.
#[derive(Clone, Copy, Debug, PartialEq, Eq)]
pub struct Rect {
    pub x: u16,
    pub y: u16,
    pub width: u16,
    pub height: u16,
}

/// Terminal dimensions in cells.
#[derive(Clone, Copy, Debug, PartialEq, Eq)]
pub struct Size {
    pub width: u16,
    pub height: u16,
}

impl Rect {
    pub fn new(x: u16, y: u16, width: u16, height: u16) -> (r: Rect)
        ensures
            r == (Rect { x, y, width, height }),
    {
        Rect { x, y, width, height }
    }

    /// One past the bottom row, as a mathematical integer.
    pub open spec fn bottom_spec(self) -> int {
        self.y + self.height
    }

    /// One past the rightmost column, as a mathematical integer.
    pub open spec fn right_spec(self) -> int {
        self.x + self.width
    }
}

/// Which side of the composer the bottom panel is drawn on.
#[derive(Clone, Copy, Debug, PartialEq, Eq)]
pub enum BottomPanelPlacement {
    AboveInput,
    BelowInput,
}

/// Natural heights requested by the frame's components.
#[derive(Clone, Copy, Debug, PartialEq, Eq)]
pub struct ComponentMetrics {
    pub preview: u16,
    pub queue: u16,
    pub tips: u16,
    pub panel_required: u16,
    pub panel_preferred: u16,
    pub composer: u16,
    /// When set, history takes at most this many rows instead of all the
    /// remaining space.
    pub history_cap: Option<u16>,
}

/// Heights granted to each component.
#[derive(Clone, Copy, Debug, PartialEq, Eq)]
pub struct AllocatedComponentHeights {
    pub history: u16,
    pub preview: u16,
    pub queue: u16,
    pub tips: u16,
    pub panel: u16,
    pub composer_top_pad: u16,
    pub composer: u16,
    pub composer_bottom_pad: u16,
    pub status: u16,
}

/// The rectangles of one frame; absent components have no rectangle.
#[derive(Clone, Copy, Debug, PartialEq, Eq)]
pub struct AppLayout {
    pub root: Rect,
    pub history: Option<Rect>,
    pub preview: Option<Rect>,
    pub queue: Option<Rect>,
    pub tips: Option<Rect>,
    pub panel: Option<Rect>,
    pub composer_top_pad: Option<Rect>,
    pub composer: Option<Rect>,
    pub composer_bottom_pad: Option<Rect>,
    pub status: Option<Rect>,
}

pub open spec fn min_int(a: int, b: int) -> int {
    if a <= b { a } else { b }
}

pub open spec fn sat_sub(a: int, b: int) -> int {
    if a >= b { a - b } else { 0 }
}

pub open spec fn flag(b: bool) -> int {
    if b { 1 } else { 0 }
}

/// Sum of every allocated height.
pub open spec fn allocated_total(h: AllocatedComponentHeights) -> int {
    h.history + h.preview + h.queue + h.tips + h.panel + h.composer_top_pad + h.composer
        + h.composer_bottom_pad + h.status
}

/// The heights handed out by the priority order: each request takes
/// `min(request, remaining)` and lowers what is left.
pub open spec fn allocation_spec(total: int, m: ComponentMetrics) -> AllocatedComponentHeights {
    let composer = min_int(flag(m.composer > 0), total);
    let r1 = total - composer;
    let status = min_int(1, r1);
    let r2 = r1 - status;
    let panel_required = min_int(min_int(m.panel_required as int, m.panel_preferred as int), r2);
    let r3 = r2 - panel_required;
    let top = min_int(flag(m.composer > 0), r3);
    let r4 = r3 - top;
    let bottom = min_int(flag(m.composer > 0), r4);
    let r5 = r4 - bottom;
    let tips = min_int(m.tips as int, r5);
    let r6 = r5 - tips;
    let preview = min_int(m.preview as int, r6);
    let r7 = r6 - preview;
    let queue = min_int(m.queue as int, r7);
    let r8 = r7 - queue;
    let panel_optional = min_int(sat_sub(m.panel_preferred as int, panel_required), r8);
    let r9 = r8 - panel_optional;
    let composer_extra = min_int(sat_sub(m.composer as int, composer), r9);
    let r10 = r9 - composer_extra;
    let history = match m.history_cap {
        Some(cap) => min_int(r10, cap as int),
        None => r10,
    };
    AllocatedComponentHeights {
        history: history as u16,
        preview: preview as u16,
        queue: queue as u16,
        tips: tips as u16,
        panel: (panel_required + panel_optional) as u16,
        composer_top_pad: top as u16,
        composer: (composer + composer_extra) as u16,
        composer_bottom_pad: bottom as u16,
        status: status as u16,
    }
}

/// Grants `wanted` rows, or whatever is left, and lowers `remaining`.
fn take_rows(remaining: &mut u16, wanted: u16) -> (granted: u16)
    ensures
        granted == min_int(wanted as int, *old(remaining) as int),
        *final(remaining) == *old(remaining) - granted,
{
    let granted = if wanted < *remaining { wanted } else { *remaining };
    *remaining = *remaining - granted;
    granted
}

/// Hands out the frame's rows in priority order.
pub fn allocate_heights(total: u16, metrics: ComponentMetrics) -> (h: AllocatedComponentHeights)
    ensures
        h == allocation_spec(total as int, metrics),
        allocated_total(h) <= total,
{
    let mut remaining = total;
    let composer_flag: u16 = if metrics.composer > 0 { 1 } else { 0 };
    let composer = take_rows(&mut remaining, composer_flag);
    let status = take_rows(&mut remaining, 1);
    let required_wanted = if metrics.panel_required < metrics.panel_preferred {
        metrics.panel_required
    } else {
        metrics.panel_preferred
    };
    let panel_required = take_rows(&mut remaining, required_wanted);
    let composer_top_pad = take_rows(&mut remaining, composer_flag);
    let composer_bottom_pad = take_rows(&mut remaining, composer_flag);
    let tips = take_rows(&mut remaining, metrics.tips);
    let preview = take_rows(&mut remaining, metrics.preview);
    let queue = take_rows(&mut remaining, metrics.queue);
    let optional_wanted = metrics.panel_preferred.saturating_sub(panel_required);
    let panel_optional = take_rows(&mut remaining, optional_wanted);
    let extra_wanted = metrics.composer.saturating_sub(composer);
    let composer_extra = take_rows(&mut remaining, extra_wanted);
    let history = match metrics.history_cap {
        Some(cap) => if remaining < cap { remaining } else { cap },
        None => remaining,
    };
    AllocatedComponentHeights {
        history,
        preview,
        queue,
        tips,
        panel: panel_required + panel_optional,
        composer_top_pad,
        composer: composer + composer_extra,
        composer_bottom_pad,
        status,
    }
}

/// The rectangle of a component of the given height placed at row `y`.
pub open spec fn band(width: u16, y: int, height: int) -> Option<Rect> {
    if height > 0 {
        Some(Rect { x: 0, y: y as u16, width, height: height as u16 })
    } else {
        None
    }
}

/// Visual order of the bands: the heights in the order they are stacked.
pub open spec fn stack_order(h: AllocatedComponentHeights, placement: BottomPanelPlacement) -> Seq<int> {
    match placement {
        BottomPanelPlacement::AboveInput => seq![
            h.history as int, h.preview as int, h.queue as int, h.tips as int, h.panel as int,
            h.composer_top_pad as int, h.composer as int, h.composer_bottom_pad as int,
            h.status as int,
        ],
        BottomPanelPlacement::BelowInput => seq![
            h.history as int, h.preview as int, h.queue as int, h.tips as int,
            h.composer_top_pad as int, h.composer as int, h.panel as int,
            h.composer_bottom_pad as int, h.status as int,
        ],
    }
}

/// Sum of the first `k` heights of a stack.
pub open spec fn prefix_sum(s: Seq<int>, k: int) -> int
    decreases k,
{
    if k <= 0 {
        0
    } else {
        prefix_sum(s, k - 1) + s[k - 1]
    }
}

/// The bands of a layout in the order they are stacked.
pub open spec fn layout_bands(l: AppLayout, placement: BottomPanelPlacement) -> Seq<Option<Rect>> {
    match placement {
        BottomPanelPlacement::AboveInput => seq![
            l.history, l.preview, l.queue, l.tips, l.panel, l.composer_top_pad, l.composer,
            l.composer_bottom_pad, l.status,
        ],
        BottomPanelPlacement::BelowInput => seq![
            l.history, l.preview, l.queue, l.tips, l.composer_top_pad, l.composer, l.panel,
            l.composer_bottom_pad, l.status,
        ],
    }
}

/// `l` is the stacking of the heights `h` on a screen of `size`.
pub open spec fn stacked(
    l: AppLayout,
    size: Size,
    h: AllocatedComponentHeights,
    placement: BottomPanelPlacement,
) -> bool {
    &&& l.root == (Rect { x: 0, y: 0, width: size.width, height: size.height })
    &&& forall|i: int|
        0 <= i < 9 ==> #[trigger] layout_bands(l, placement)[i] == band(
            size.width,
            prefix_sum(stack_order(h, placement), i),
            stack_order(h, placement)[i],
        )
}

/// Stacks one band at row `*y`, advancing `*y` past it.
fn take_band(y: &mut u16, width: u16, height: u16) -> (r: Option<Rect>)
    requires
        *old(y) + height <= u16::MAX,
    ensures
        r == band(width, *old(y) as int, height as int),
        *final(y) == *old(y) + height,
{
    if height > 0 {
        let rect = Rect::new(0, *y, width, height);
        *y = *y + height;
        Some(rect)
    } else {
        None
    }
}

/// Stacks the allocated heights top to bottom in visual order.
pub fn place_rects(
    size: Size,
    heights: AllocatedComponentHeights,
    placement: BottomPanelPlacement,
) -> (l: AppLayout)
    requires
        allocated_total(heights) <= size.height,
    ensures
        stacked(l, size, heights, placement),
{
    let root = Rect::new(0, 0, size.width, size.height);
    let mut y: u16 = 0;
    let w = size.width;
    let history = take_band(&mut y, w, heights.history);
    let preview = take_band(&mut y, w, heights.preview);
    let queue = take_band(&mut y, w, heights.queue);
    let tips = take_band(&mut y, w, heights.tips);
    let (panel, composer_top_pad, composer) = match placement {
        BottomPanelPlacement::AboveInput => {
            let panel = take_band(&mut y, w, heights.panel);
            let top = take_band(&mut y, w, heights.composer_top_pad);
            let composer = take_band(&mut y, w, heights.composer);
            (panel, top, composer)
        },
        BottomPanelPlacement::BelowInput => {
            let top = take_band(&mut y, w, heights.composer_top_pad);
            let composer = take_band(&mut y, w, heights.composer);
            let panel = take_band(&mut y, w, heights.panel);
            (panel, top, composer)
        },
    };
    let composer_bottom_pad = take_band(&mut y, w, heights.composer_bottom_pad);
    let status = take_band(&mut y, w, heights.status);
    let l = AppLayout {
        root,
        history,
        preview,
        queue,
        tips,
        panel,
        composer_top_pad,
        composer,
        composer_bottom_pad,
        status,
    };
    proof {
        let s = stack_order(heights, placement);
        reveal_with_fuel(prefix_sum, 10);
        assert(layout_bands(l, placement)[0] == band(w, prefix_sum(s, 0), s[0]));
    }
    l
}

/// Allocates the frame's rows and stacks the components.
pub fn compute_app_layout(
    size: Size,
    metrics: ComponentMetrics,
    placement: BottomPanelPlacement,
) -> (l: AppLayout)
    ensures
        stacked(l, size, allocation_spec(size.height as int, metrics), placement),
{
    let heights = allocate_heights(size.height, metrics);
    place_rects(size, heights, placement)
}

proof fn lemma_prefix_sum_monotone(s: Seq<int>, i: int, j: int)
    requires
        0 <= i <= j <= s.len(),
        forall|k: int| 0 <= k < s.len() ==> s[k] >= 0,
    ensures
        prefix_sum(s, i) <= prefix_sum(s, j),
        prefix_sum(s, i) >= 0,
    decreases j,
{
    if j > 0 {
        if i < j {
            lemma_prefix_sum_monotone(s, i, j - 1);
        } else {
            lemma_prefix_sum_monotone(s, i - 1, j - 1);
        }
    }
}

proof fn lemma_stack_total(h: AllocatedComponentHeights, placement: BottomPanelPlacement)
    ensures
        prefix_sum(stack_order(h, placement), 9) == allocated_total(h),
        stack_order(h, placement).len() == 9,
        forall|k: int| 0 <= k < 9 ==> stack_order(h, placement)[k] >= 0,
{
    reveal_with_fuel(prefix_sum, 10);
}

/// Every rectangle of a stacked layout lies inside the root rectangle, and
/// rectangles that appear later in visual order start at or below the end of
/// every earlier one, so no two components overlap.
pub proof fn stacked_layout_is_bounded_and_ordered(
    l: AppLayout,
    size: Size,
    h: AllocatedComponentHeights,
    placement: BottomPanelPlacement,
)
    requires
        stacked(l, size, h, placement),
        allocated_total(h) <= size.height,
    ensures
        forall|i: int|
            0 <= i < 9 && (#[trigger] layout_bands(l, placement)[i]) is Some ==> {
                let r = layout_bands(l, placement)[i]->0;
                &&& r.bottom_spec() <= l.root.bottom_spec()
                &&& r.right_spec() <= l.root.right_spec()
                &&& r.height > 0
            },
        forall|i: int, j: int|
            0 <= i < j < 9 && (#[trigger] layout_bands(l, placement)[i]) is Some
                && (#[trigger] layout_bands(l, placement)[j]) is Some ==> layout_bands(
                l,
                placement,
            )[i]->0.bottom_spec() <= layout_bands(l, placement)[j]->0.y,
{
    let s = stack_order(h, placement);
    lemma_stack_total(h, placement);
    assert forall|i: int|
        0 <= i < 9 && (#[trigger] layout_bands(l, placement)[i]) is Some implies {
            let r = layout_bands(l, placement)[i]->0;
            &&& r.bottom_spec() <= l.root.bottom_spec()
            &&& r.right_spec() <= l.root.right_spec()
            &&& r.height > 0
        } by {
        lemma_prefix_sum_monotone(s, i, i + 1);
        lemma_prefix_sum_monotone(s, i + 1, 9);
    }
    assert forall|i: int, j: int|
        0 <= i < j < 9 && (#[trigger] layout_bands(l, placement)[i]) is Some
            && (#[trigger] layout_bands(l, placement)[j]) is Some implies layout_bands(
            l,
            placement,
        )[i]->0.bottom_spec() <= layout_bands(l, placement)[j]->0.y by {
        lemma_prefix_sum_monotone(s, i, i + 1);
        lemma_prefix_sum_monotone(s, i + 1, j);
        lemma_prefix_sum_monotone(s, j, 9);
    }
}

/// A stacked layout tiles the allocated rows from the top without gaps: a
/// component has a rectangle exactly when it got rows; each rectangle spans
/// the full width, has the component's height and starts right below the
/// components before it in visual order; together they cover the allocated
/// total.
pub proof fn stacked_layout_has_no_gaps(
    l: AppLayout,
    size: Size,
    h: AllocatedComponentHeights,
    placement: BottomPanelPlacement,
)
    requires
        stacked(l, size, h, placement),
        allocated_total(h) <= size.height,
    ensures
        prefix_sum(stack_order(h, placement), 9) == allocated_total(h),
        forall|i: int|
            0 <= i < 9 ==> ((#[trigger] layout_bands(l, placement)[i]) is None <==> stack_order(h, placement)[i] == 0),
        forall|i: int|
            0 <= i < 9 && (#[trigger] layout_bands(l, placement)[i]) is Some ==> layout_bands(l, placement)[i]->0 == (Rect {
                x: 0,
                y: prefix_sum(stack_order(h, placement), i) as u16,
                width: size.width,
                height: stack_order(h, placement)[i] as u16,
            }),
        forall|i: int|
            0 <= i < 9 ==> #[trigger] prefix_sum(stack_order(h, placement), i) + stack_order(h, placement)[i] <= size.height,
{
    let s = stack_order(h, placement);
    lemma_stack_total(h, placement);
    assert forall|i: int| 0 <= i < 9 implies #[trigger] prefix_sum(s, i) + s[i] <= size.height by {
        lemma_prefix_sum_monotone(s, i + 1, 9);
    }
    assert forall|i: int|
        0 <= i < 9 implies ((#[trigger] layout_bands(l, placement)[i]) is None <==> s[i] == 0) by {
        assert(layout_bands(l, placement)[i] == band(size.width, prefix_sum(s, i), s[i]));
    }
}

/// The composer keeps its row and the status bar keeps its row ahead of every
/// optional component: with a non-empty composer, one terminal row goes to
/// the composer, a second row goes to the status bar, and no allocation ever
/// exceeds the terminal height.
pub proof fn allocation_priority(total: u16, metrics: ComponentMetrics)
    ensures
        allocated_total(allocation_spec(total as int, metrics)) <= total,
        metrics.composer > 0 && total >= 1 ==> allocation_spec(total as int, metrics).composer
            >= 1,
        metrics.composer > 0 && total == 1 ==> allocation_spec(total as int, metrics).status
            == 0,
        metrics.composer > 0 && total >= 2 ==> allocation_spec(total as int, metrics).status
            == 1,
        metrics.composer == 0 && total >= 1 ==> allocation_spec(total as int, metrics).status
            == 1,
{
}

} // verus!
