//! Planning one full frame: how many rows history may take, the budget of
//! the components below it, the panel's placement and the final layout;
//! then, once history is projected at its height, where the frame's history
//! starts, or that the frame must be planned again following the tail.

use vstd::prelude::*;
use crate::budget::{
    bottom_panel_placement, compress_layout, min_nat, plan_queue_preview, CompressedLayout, QueuePlan,
};
use crate::preview::{frame_history_scroll_bounds, FrameHistoryScrollBounds, FrameHistoryScrollOutcome};
use crate::layout::{
    allocation_priority, allocation_spec, compute_app_layout, layout_bands, stacked, stacked_layout_is_bounded_and_ordered,
    AppLayout, BottomPanelPlacement, ComponentMetrics, Size,
};

verus! {

/// Rows of the single-row components: tips, the two composer pads and the
/// status bar.
pub const FIXED_ROWS: u16 = 4;

/// What the frame plan reads of the interface state.
#[derive(Clone, Copy, Debug)]
pub struct FramePlanInput {
    pub screen: Size,
    /// Rows of the logo at the top of history.
    pub splash_rows: usize,
    /// Nothing was sent yet and no panel or approval is open.
    pub startup_mode: bool,
    /// An approval opened during startup.
    pub approval_startup: bool,
    /// An approval opened while history followed its tail.
    pub approval_follows_tail: bool,
    pub follows_tail: bool,
    pub panel_open: bool,
    pub approval_shown: bool,
    /// The credential input, the provider wizard or an approval is open:
    /// the panel needs rows of its own.
    pub panel_needs_rows: bool,
    /// History rows at the full screen height.
    pub natural_history_rows: usize,
    /// The composer's rows (already capped at the composer maximum).
    pub composer_natural: u16,
    /// The panel's rows without a limit.
    pub panel_natural: u16,
    pub steering_total: usize,
    pub queued_available: usize,
    pub followup_count: usize,
}

/// The plan of one frame.
#[derive(Clone, Copy, Debug)]
pub struct FramePlan {
    pub history_cap: Option<u16>,
    pub compressed: CompressedLayout,
    pub composer_height: u16,
    pub queue_height: u16,
    pub panel_height: u16,
    pub placement: BottomPanelPlacement,
    pub metrics: ComponentMetrics,
    pub layout: AppLayout,
}

/// Rows of the queued-input preview within `max_rows`.
pub open spec fn queue_rows(steering_total: int, available: int, followup_count: int, max_rows: int) -> int {
    if steering_total + followup_count == 0 || max_rows == 0 {
        0
    } else {
        let rows = min_nat(max_rows, 6);
        let budget = min_nat(rows - 1, 5);
        let if_full = min_nat(available, budget);
        let reserve = steering_total - if_full > 0;
        let entry_budget = if reserve && budget > 0 { budget - 1 } else if reserve { 0 } else { budget };
        let shown = min_nat(available, entry_budget);
        let hidden = if steering_total >= shown { steering_total - shown } else { 0 };
        let summary = hidden > 0;
        let left = if summary { budget - shown - 1 } else { budget - shown };
        let followup = followup_count > 0 && left > 0;
        1 + shown + (if summary { 1int } else { 0 }) + (if followup { 1int } else { 0 })
    }
}

/// History rows are capped in a natural flow (startup: the logo and a
/// spacer row) and while following the tail with no panel other than an
/// approval open (the logo and the whole history); otherwise history takes
/// what remains.
pub open spec fn history_cap_spec(inp: FramePlanInput) -> Option<u16> {
    let natural_flow = inp.startup_mode || inp.approval_startup;
    if natural_flow {
        Some(((inp.splash_rows + 1) % 65536) as u16)
    } else if (inp.follows_tail || inp.approval_follows_tail) && (!inp.panel_open || inp.approval_shown) {
        Some(min_nat(inp.splash_rows + inp.natural_history_rows, u16::MAX as int) as u16)
    } else {
        None
    }
}

/// The budget below history: what the screen leaves after the fixed rows.
pub open spec fn content_budget_spec(inp: FramePlanInput) -> int {
    if inp.screen.height >= FIXED_ROWS {
        inp.screen.height - FIXED_ROWS
    } else {
        0
    }
}

/// The component heights handed to the layout.
pub open spec fn metrics_spec(
    inp: FramePlanInput,
    composer: u16,
    queue: u16,
    panel: u16,
    cap: Option<u16>,
) -> ComponentMetrics {
    ComponentMetrics {
        preview: 1,
        queue,
        tips: 1,
        panel_required: if inp.panel_needs_rows { min_nat(panel as int, 4) as u16 } else { 0 },
        panel_preferred: panel,
        composer,
        history_cap: cap,
    }
}

fn queue_height(inp: &FramePlanInput, max_rows: u16) -> (h: u16)
    requires
        inp.steering_total + inp.followup_count <= usize::MAX,
    ensures
        h == queue_rows(inp.steering_total as int, inp.queued_available as int, inp.followup_count as int, max_rows as int),
{
    let plan: QueuePlan = plan_queue_preview(inp.steering_total, inp.queued_available, inp.followup_count, max_rows);
    plan.total_rows
}

/// Plans one frame. The composer keeps its rows up to its budget, the
/// queue preview is planned within its budget, the panel takes its natural
/// rows up to its budget, and the panel goes below the composer when the
/// fixed rows, the composer, the queue and the panel's natural rows fit the
/// screen.
pub fn plan_frame(inp: &FramePlanInput) -> (p: FramePlan)
    requires
        inp.steering_total + inp.followup_count <= usize::MAX,
    ensures
        p.history_cap == history_cap_spec(*inp),
        p.compressed.panel_max_height == min_nat(
            inp.panel_natural as int,
            content_budget_spec(*inp) - if inp.composer_natural > 0 && content_budget_spec(*inp) > 0 { 1int } else { 0 },
        ),
        p.compressed.input_max_height == min_nat(
            inp.composer_natural as int,
            content_budget_spec(*inp) - p.compressed.panel_max_height,
        ),
        p.compressed.queue_max_rows == min_nat(
            queue_rows(inp.steering_total as int, inp.queued_available as int, inp.followup_count as int, 6),
            content_budget_spec(*inp) - p.compressed.panel_max_height - p.compressed.input_max_height,
        ),
        p.composer_height == min_nat(inp.composer_natural as int, p.compressed.input_max_height as int),
        p.queue_height == queue_rows(
            inp.steering_total as int,
            inp.queued_available as int,
            inp.followup_count as int,
            p.compressed.queue_max_rows as int,
        ),
        p.panel_height == min_nat(inp.panel_natural as int, p.compressed.panel_max_height as int),
        p.placement == (if min_nat(
            FIXED_ROWS + p.composer_height + p.queue_height + inp.panel_natural,
            u16::MAX as int,
        ) <= inp.screen.height {
            BottomPanelPlacement::BelowInput
        } else {
            BottomPanelPlacement::AboveInput
        }),
        p.metrics == metrics_spec(*inp, p.composer_height, p.queue_height, p.panel_height, p.history_cap),
        stacked(p.layout, inp.screen, allocation_spec(inp.screen.height as int, p.metrics), p.placement),
        forall|i: int|
            0 <= i < 9 && (#[trigger] layout_bands(p.layout, p.placement)[i]) is Some ==> layout_bands(
                p.layout,
                p.placement,
            )[i]->0.bottom_spec() <= inp.screen.height && layout_bands(p.layout, p.placement)[i]->0.right_spec()
                <= inp.screen.width,
{
    let natural_flow = inp.startup_mode || inp.approval_startup;
    let history_cap = if natural_flow {
        let rows: usize = if inp.splash_rows == usize::MAX { 0 } else { (inp.splash_rows + 1) % 65536 };
        Some(rows as u16)
    } else if (inp.follows_tail || inp.approval_follows_tail) && (!inp.panel_open || inp.approval_shown) {
        let rows = inp.splash_rows.saturating_add(inp.natural_history_rows);
        Some(if rows > 65535 { 65535u16 } else { rows as u16 })
    } else {
        None
    };
    proof {
        if natural_flow && inp.splash_rows == usize::MAX {
            assert(usize::MAX == 0xffff_ffffint || usize::MAX == 0xffff_ffff_ffff_ffffint);
            assert((0xffff_ffffint + 1) % 65536 == 0);
            assert((0xffff_ffff_ffff_ffffint + 1) % 65536 == 0);
        }
    }
    let content_budget = inp.screen.height.saturating_sub(FIXED_ROWS);
    let queue_natural = queue_height(inp, 6);
    let compressed = compress_layout(content_budget, inp.panel_natural, inp.composer_natural, queue_natural);
    let composer_height = if inp.composer_natural < compressed.input_max_height {
        inp.composer_natural
    } else {
        compressed.input_max_height
    };
    let queue = queue_height(inp, compressed.queue_max_rows);
    let panel_height = if inp.panel_natural < compressed.panel_max_height {
        inp.panel_natural
    } else {
        compressed.panel_max_height
    };
    let base_height = FIXED_ROWS.saturating_add(composer_height).saturating_add(queue);
    let placement = bottom_panel_placement(inp.screen.height, base_height, inp.panel_natural);
    let metrics = ComponentMetrics {
        preview: 1,
        queue,
        tips: 1,
        panel_required: if inp.panel_needs_rows {
            if panel_height < 4 { panel_height } else { 4 }
        } else {
            0
        },
        panel_preferred: panel_height,
        composer: composer_height,
        history_cap,
    };
    let layout = compute_app_layout(inp.screen, metrics, placement);
    proof {
        allocation_priority(inp.screen.height, metrics);
        stacked_layout_is_bounded_and_ordered(
            layout,
            inp.screen,
            allocation_spec(inp.screen.height as int, metrics),
            placement,
        );
    }
    FramePlan { history_cap, compressed, composer_height, queue_height: queue, panel_height, placement, metrics, layout }
}

/// Where the frame's history starts, once history is projected at the
/// height the layout gave it.
#[derive(Clone, Copy, Debug, PartialEq, Eq)]
pub enum FrameHistoryStart {
    /// Anchored history that fits entirely: the view jumps to the end and
    /// the frame is planned again, following the tail.
    Replan,
    /// The first frame row of history (logo rows included), the clamped
    /// prefix anchor, and how many rows precede the transcript.
    Start { frame_start: usize, prefix_start: Option<usize>, prefix_rows: usize },
}

pub open spec fn sat_sub(a: int, b: int) -> int {
    if a >= b {
        a - b
    } else {
        0
    }
}

pub open spec fn sat_add_usize(a: int, b: int) -> int {
    min_nat(a + b, usize::MAX as int)
}

pub open spec fn frame_history_start_spec(
    follows_tail: bool,
    natural_flow: bool,
    splash_rows: int,
    total_rows: int,
    visible_start: int,
    history_height: int,
    prefix_start: Option<usize>,
) -> FrameHistoryStart {
    if !follows_tail && sat_add_usize(splash_rows, total_rows) <= history_height {
        FrameHistoryStart::Replan
    } else {
        let prefix = match prefix_start {
            Some(p) => Some(min_nat(p as int, sat_sub(splash_rows, 1)) as usize),
            None => None,
        };
        let natural = if total_rows == 0 {
            0
        } else if follows_tail {
            sat_sub(sat_add_usize(splash_rows, total_rows), history_height)
        } else {
            sat_add_usize(splash_rows, visible_start)
        };
        FrameHistoryStart::Start {
            frame_start: match prefix {
                Some(p) => p,
                None => natural as usize,
            },
            prefix_start: prefix,
            prefix_rows: sat_add_usize(splash_rows, if natural_flow { 1int } else { 0 }) as usize,
        }
    }
}

/// Decides where the frame's history starts (see
/// `frame_history_start_spec`): following the tail, the last rows that fit;
/// anchored, the projection's first visible row below the logo; a prefix
/// anchor, clamped to the logo, wins over both.
pub fn frame_history_start(
    follows_tail: bool,
    natural_flow: bool,
    splash_rows: usize,
    total_rows: usize,
    visible_start: usize,
    history_height: u16,
    prefix_start: Option<usize>,
) -> (r: FrameHistoryStart)
    ensures
        r == frame_history_start_spec(
            follows_tail,
            natural_flow,
            splash_rows as int,
            total_rows as int,
            visible_start as int,
            history_height as int,
            prefix_start,
        ),
{
    if !follows_tail && splash_rows.saturating_add(total_rows) <= history_height as usize {
        return FrameHistoryStart::Replan;
    }
    let prefix = match prefix_start {
        Some(p) => {
            let last = splash_rows.saturating_sub(1);
            Some(if p < last { p } else { last })
        },
        None => None,
    };
    let natural = if total_rows == 0 {
        0
    } else if follows_tail {
        splash_rows.saturating_add(total_rows).saturating_sub(history_height as usize)
    } else {
        splash_rows.saturating_add(visible_start)
    };
    let frame_start = match prefix {
        Some(p) => p,
        None => natural,
    };
    let spacer: usize = if natural_flow { 1 } else { 0 };
    FrameHistoryStart::Start { frame_start, prefix_start: prefix, prefix_rows: splash_rows.saturating_add(spacer) }
}

/// A frame planned again after jumping to the end follows the tail, so it
/// is never planned a third time.
pub proof fn replanning_happens_at_most_once(
    natural_flow: bool,
    splash_rows: int,
    total_rows: int,
    visible_start: int,
    history_height: int,
    prefix_start: Option<usize>,
)
    ensures
        frame_history_start_spec(
            true,
            natural_flow,
            splash_rows,
            total_rows,
            visible_start,
            history_height,
            prefix_start,
        ) is Start,
{
}

/// The frame-scroll bounds for a viewport of `height` rows (see
/// `frame_history_scroll_bounds`).
pub open spec fn scroll_bounds_spec(splash_rows: int, transcript_rows: int, last_start: int, height: int) -> FrameHistoryScrollBounds {
    let total = min_nat(splash_rows + transcript_rows, usize::MAX as int);
    let max_start = if total > height { total - height } else { 0 };
    FrameHistoryScrollBounds {
        current_start: (if last_start < max_start { last_start } else { max_start }) as usize,
        max_start: max_start as usize,
    }
}

/// One animation tick of a mouse selection: while a selection that started
/// in history is dragged against the top (`edge < 0`) or bottom edge of a
/// visible history viewport, history scrolls one row that way; otherwise
/// nothing scrolls (`None`).
pub fn selection_edge_tick(
    dragging: bool,
    edge: i8,
    has_history_anchor: bool,
    viewport_height: u16,
    splash_rows: usize,
    transcript_rows: usize,
    frame_start: usize,
) -> (r: Option<FrameHistoryScrollOutcome>)
    ensures
        !dragging || edge == 0 || !has_history_anchor || viewport_height == 0 ==> r is None,
        dragging && edge != 0 && has_history_anchor && viewport_height > 0 ==> r == Some({
            let b = scroll_bounds_spec(splash_rows as int, transcript_rows as int, frame_start as int, viewport_height as int);
            if edge < 0 {
                b.outcome_for_target_spec(if b.current_start >= 1 { (b.current_start - 1) as usize } else { 0 })
            } else {
                b.outcome_for_target_spec({
                    let t = min_nat(b.current_start + 1, usize::MAX as int);
                    if t < b.max_start { t as usize } else { b.max_start }
                })
            }
        }),
{
    if !dragging || edge == 0 || !has_history_anchor || viewport_height == 0 {
        return None;
    }
    let bounds = frame_history_scroll_bounds(splash_rows, transcript_rows, frame_start, viewport_height);
    if edge < 0 {
        Some(bounds.scroll_up(1))
    } else {
        Some(bounds.scroll_down(1))
    }
}

} // verus!
