//! Row budgets for the components stacked below the transcript: the bottom
//! panel, the composer and the queued-input preview.

use vstd::prelude::*;
use vstd::string::StringExecFns;
use crate::formatting::{decimal, push_decimal};
use crate::text::{approval_height_spec, approval_natural_height, normalize_single_line, single_line_spec, truncate_to_display_width, truncate_to_width_spec};

verus! {

/// At most this many bottom-panel items are listed at once.
pub const SLASH_MENU_MAX_VISIBLE: usize = 8;

/// Compressed layout budget for constrained terminal heights.
#[derive(Clone, Copy, Debug, PartialEq, Eq)]
pub struct CompressedLayout {
    pub panel_max_height: u16,
    pub queue_max_rows: u16,
    pub input_max_height: u16,
}

pub open spec fn min_nat(a: int, b: int) -> int {
    if a <= b { a } else { b }
}

/// Allocate the height remaining after fixed viewport components.
///
/// Priority: modal panels (approval/credential/slash) > composer (minimum one
/// row whenever the budget permits) > queue preview.
pub fn compress_layout(
    content_budget: u16,
    panel_natural: u16,
    composer_natural: u16,
    queue_natural: u16,
) -> (c: CompressedLayout)
    ensures
        ({
            let floor: int = if composer_natural > 0 && content_budget > 0 { 1 } else { 0 };
            let panel = min_nat(panel_natural as int, content_budget - floor);
            let after_panel = content_budget - panel;
            let input = min_nat(composer_natural as int, after_panel);
            let queue = min_nat(queue_natural as int, after_panel - input);
            &&& c.panel_max_height == panel
            &&& c.input_max_height == input
            &&& c.queue_max_rows == queue
        }),
        c.panel_max_height + c.input_max_height + c.queue_max_rows <= content_budget,
        c.panel_max_height <= panel_natural,
        c.input_max_height <= composer_natural,
        c.queue_max_rows <= queue_natural,
{
    let composer_floor: u16 = if composer_natural > 0 && content_budget > 0 { 1 } else { 0 };
    let room = content_budget - composer_floor;
    let panel_max_height = if panel_natural < room { panel_natural } else { room };
    let after_panel = content_budget - panel_max_height;
    let input_max_height = if composer_natural < after_panel { composer_natural } else { after_panel };
    let queue_room = after_panel - input_max_height;
    let queue_max_rows = if queue_natural < queue_room { queue_natural } else { queue_room };
    CompressedLayout { panel_max_height, queue_max_rows, input_max_height }
}

/// Where the bottom panel goes relative to the composer.
pub use crate::layout::BottomPanelPlacement;

/// Below the composer when everything fits on screen, otherwise above it.
pub fn bottom_panel_placement(screen_height: u16, base_height: u16, menu_height: u16) -> (p:
    BottomPanelPlacement)
    ensures
        p == (if min_nat(base_height + menu_height, u16::MAX as int) <= screen_height {
            BottomPanelPlacement::BelowInput
        } else {
            BottomPanelPlacement::AboveInput
        }),
{
    if base_height.saturating_add(menu_height) <= screen_height {
        BottomPanelPlacement::BelowInput
    } else {
        BottomPanelPlacement::AboveInput
    }
}

/// Rows of a bottom-panel list: `(visible items, separator shown, overflow
/// indicator shown)` for `total` matching items in `area_height` rows below
/// `header_rows` header rows.
pub fn bottom_panel_rows(total: usize, area_height: u16, header_rows: u16) -> (r: (
    usize,
    bool,
    bool,
))
    ensures
        ({
            let show_separator = area_height > header_rows;
            let capacity = if area_height >= header_rows + (if show_separator { 1int } else { 0 }) {
                area_height - header_rows - (if show_separator { 1int } else { 0 })
            } else {
                0
            };
            let initial = min_nat(min_nat(total as int, SLASH_MENU_MAX_VISIBLE as int), capacity);
            let show_indicator = total > initial && capacity >= 2;
            let visible = min_nat(
                min_nat(total as int, SLASH_MENU_MAX_VISIBLE as int),
                capacity - (if show_indicator { 1int } else { 0 }),
            );
            r == (visible as usize, show_separator, show_indicator)
        }),
        r.0 + (if r.1 { 1int } else { 0 }) + (if r.2 { 1int } else { 0 }) + header_rows
            <= area_height || area_height <= header_rows,
{
    let show_separator = area_height > header_rows;
    let sep: u16 = if show_separator { 1 } else { 0 };
    let reserved = header_rows.saturating_add(sep);
    let capacity = area_height.saturating_sub(reserved) as usize;
    let capped = if total < SLASH_MENU_MAX_VISIBLE { total } else { SLASH_MENU_MAX_VISIBLE };
    let initial = if capped < capacity { capped } else { capacity };
    let show_indicator = total > initial && capacity >= 2;
    let indicator: usize = if show_indicator { 1 } else { 0 };
    let room = capacity - indicator;
    let visible = if capped < room { capped } else { room };
    (visible, show_separator, show_indicator)
}

/// What the queued-input preview shows.
#[derive(Clone, Copy, Debug, PartialEq, Eq)]
pub struct QueuePlan {
    pub total_rows: u16,
    pub entries_to_show: usize,
    pub hidden_count: usize,
    pub show_summary: bool,
    pub show_followup: bool,
}

/// Plans the queued-input preview: a header row, up to five content rows
/// (queued entries, then a "+N more" summary when entries are hidden, then a
/// follow-up row when room remains), within `max_rows` (capped at six).
///
/// `steering_total` is the number of queued steering inputs, `available` the
/// number of entries the snapshot carries.
pub fn plan_queue_preview(
    steering_total: usize,
    available: usize,
    followup_count: usize,
    max_rows: u16,
) -> (p: QueuePlan)
    requires
        steering_total + followup_count <= usize::MAX,
    ensures
        (steering_total + followup_count == 0 || max_rows == 0) ==> p == (QueuePlan {
            total_rows: 0,
            entries_to_show: 0,
            hidden_count: 0,
            show_summary: false,
            show_followup: false,
        }),
        !(steering_total + followup_count == 0 || max_rows == 0) ==> ({
            let rows = min_nat(max_rows as int, 6);
            let budget = min_nat(rows - 1, 5);
            let if_full = min_nat(available as int, budget);
            let reserve = steering_total - if_full > 0;
            let entry_budget = if reserve && budget > 0 { budget - 1 } else if reserve { 0 } else { budget };
            let shown = min_nat(available as int, entry_budget);
            let hidden = if steering_total >= shown { steering_total - shown } else { 0 };
            let summary = hidden > 0;
            let left = if summary { budget - shown - 1 } else { budget - shown };
            let followup = followup_count > 0 && left > 0;
            &&& p.entries_to_show == shown
            &&& p.hidden_count == hidden
            &&& p.show_summary == summary
            &&& p.show_followup == followup
            &&& p.total_rows == 1 + shown + (if summary { 1int } else { 0 }) + (if followup {
                1int
            } else {
                0
            })
            &&& 1 <= p.total_rows
            &&& rows >= 2 ==> p.total_rows <= rows
        }),
{
    let total = steering_total + followup_count;
    if total == 0 || max_rows == 0 {
        return QueuePlan {
            total_rows: 0,
            entries_to_show: 0,
            hidden_count: 0,
            show_summary: false,
            show_followup: false,
        };
    }
    let rows = if max_rows < 6 { max_rows } else { 6 };
    let budget: usize = if ((rows - 1) as usize) < 5 { (rows - 1) as usize } else { 5 };
    let entries_if_full = if available < budget { available } else { budget };
    let would_hide = steering_total.saturating_sub(entries_if_full);
    let reserve_summary = would_hide > 0;
    let entry_budget = if reserve_summary { budget.saturating_sub(1) } else { budget };
    let entries_to_show = if available < entry_budget { available } else { entry_budget };
    let hidden_count = steering_total.saturating_sub(entries_to_show);
    let show_summary = hidden_count > 0;
    let summary_row: usize = if show_summary { 1 } else { 0 };
    let remaining = budget.saturating_sub(entries_to_show).saturating_sub(summary_row);
    let show_followup = followup_count > 0 && remaining > 0;
    let followup_row: u16 = if show_followup { 1 } else { 0 };
    let total_rows = 1 + entries_to_show as u16 + summary_row as u16 + followup_row;
    QueuePlan { total_rows, entries_to_show, hidden_count, show_summary, show_followup }
}

/// A queued steering input as the preview shows it.
#[derive(Clone, Debug, PartialEq, Eq)]
pub struct QueuedEntry {
    pub text: String,
    /// The queue shortened the text; the row ends with a warning mark.
    pub truncated: bool,
}

/// `" N queued input(s) (will send after current turn)"`.
pub open spec fn queue_header_text(total: nat) -> Seq<char> {
    " "@ + decimal(total) + " queued input"@ + (if total == 1 { Seq::<char>::empty() } else { "s"@ })
        + " (will send after current turn)"@
}

/// The text width of a preview row at a terminal width.
pub open spec fn queue_text_width(width: int) -> int {
    if width >= 5 { width - 4 } else { 1 }
}

/// A queued entry on one line, truncated to the text width (two columns
/// fewer when it carries the warning mark).
pub open spec fn queue_entry_text(e: QueuedEntry, max_width: int) -> Seq<char> {
    let budget = if e.truncated { if max_width >= 2 { max_width - 2 } else { 0 } } else { max_width };
    "  ↳ "@ + truncate_to_width_spec(single_line_spec(e.text@), budget) + (if e.truncated {
        " ⚠"@
    } else {
        Seq::<char>::empty()
    })
}

pub open spec fn queue_summary_text(hidden: nat) -> Seq<char> {
    "  +"@ + decimal(hidden) + " more…"@
}

pub open spec fn queue_followup_text(count: nat, max_width: int) -> Seq<char> {
    "  ↳ "@ + truncate_to_width_spec(
        if count == 1 { "followup"@ } else { "followup ×"@ + decimal(count) },
        max_width,
    )
}

/// The rows of the queued-input preview for a plan: none for an empty plan,
/// else the header, the first entries the plan shows, the "+N more"
/// summary and the follow-up row where the plan has them.
pub open spec fn queue_lines_spec(
    entries: Seq<QueuedEntry>,
    steering_total: nat,
    followup_count: nat,
    plan: QueuePlan,
    width: int,
) -> Seq<Seq<char>> {
    let mw = queue_text_width(width);
    let shown = min_nat(plan.entries_to_show as int, entries.len() as int);
    if plan.total_rows == 0 {
        Seq::empty()
    } else {
        seq![queue_header_text(steering_total + followup_count)] + Seq::new(
            shown as nat,
            |i: int| queue_entry_text(entries[i], mw),
        ) + (if plan.show_summary {
            seq![queue_summary_text(plan.hidden_count as nat)]
        } else {
            Seq::empty()
        }) + (if plan.show_followup {
            seq![queue_followup_text(followup_count, mw)]
        } else {
            Seq::empty()
        })
    }
}

/// The text of each row of the queued-input preview (see
/// `queue_lines_spec`).
pub fn queue_preview_lines(
    entries: &Vec<QueuedEntry>,
    steering_total: usize,
    followup_count: usize,
    plan: QueuePlan,
    width: u16,
) -> (lines: Vec<String>)
    requires
        steering_total + followup_count <= u64::MAX,
    ensures
        lines@.len() == queue_lines_spec(entries@, steering_total as nat, followup_count as nat, plan, width as int).len(),
        forall|i: int|
            0 <= i < lines@.len() ==> (#[trigger] lines@[i])@ == queue_lines_spec(
                entries@,
                steering_total as nat,
                followup_count as nat,
                plan,
                width as int,
            )[i],
{
    let ghost target = queue_lines_spec(entries@, steering_total as nat, followup_count as nat, plan, width as int);
    let mut lines: Vec<String> = Vec::new();
    if plan.total_rows == 0 {
        return lines;
    }
    let total = steering_total as u64 + followup_count as u64;
    let mut header = String::from_str(" ");
    push_decimal(&mut header, total);
    header.append(" queued input");
    if total != 1 {
        header.append("s");
    }
    header.append(" (will send after current turn)");
    proof {
        assert(header@ =~= queue_header_text(steering_total as nat + followup_count as nat));
    }
    lines.push(header);
    let mw: usize = if width >= 5 { (width - 4) as usize } else { 1 };
    let shown = if plan.entries_to_show < entries.len() { plan.entries_to_show } else { entries.len() };
    let mut i: usize = 0;
    while i < shown
        invariant
            i <= shown,
            shown <= entries@.len(),
            shown == min_nat(plan.entries_to_show as int, entries@.len() as int),
            mw == queue_text_width(width as int),
            lines@.len() == 1 + i,
            lines@[0]@ == queue_header_text(steering_total as nat + followup_count as nat),
            forall|t: int| 0 <= t < i ==> (#[trigger] lines@[1 + t])@ == queue_entry_text(entries@[t], mw as int),
        decreases shown - i,
    {
        let e = &entries[i];
        let normalized = normalize_single_line(e.text.as_str());
        let budget: usize = if e.truncated { if mw >= 2 { mw - 2 } else { 0 } } else { mw };
        let display = truncate_to_display_width(normalized.as_str(), budget);
        let mut line = String::from_str("  ↳ ");
        line.append(display.as_str());
        if e.truncated {
            line.append(" ⚠");
        }
        proof {
            assert(line@ =~= queue_entry_text(entries@[i as int], mw as int));
        }
        lines.push(line);
        i = i + 1;
    }
    if plan.show_summary {
        let mut line = String::from_str("  +");
        push_decimal(&mut line, plan.hidden_count as u64);
        line.append(" more…");
        proof {
            assert(line@ =~= queue_summary_text(plan.hidden_count as nat));
        }
        lines.push(line);
    }
    if plan.show_followup {
        let label = if followup_count == 1 {
            String::from_str("followup")
        } else {
            let mut l = String::from_str("followup ×");
            push_decimal(&mut l, followup_count as u64);
            l
        };
        let display = truncate_to_display_width(label.as_str(), mw);
        let mut line = String::from_str("  ↳ ");
        line.append(display.as_str());
        proof {
            assert(line@ =~= queue_followup_text(followup_count as nat, mw as int));
        }
        lines.push(line);
    }
    proof {
        let n = lines@.len();
        assert(n == target.len());
        assert forall|k: int| 0 <= k < n implies (#[trigger] lines@[k])@ == target[k] by {
            if k == 0 {
            } else if k < 1 + shown {
                assert(lines@[1 + (k - 1)]@ == queue_entry_text(entries@[k - 1], mw as int));
            }
        }
    }
    lines
}

/// Which bottom panel is open, as far as its height is concerned.
#[derive(Clone, Copy, Debug, PartialEq, Eq)]
pub enum PanelShape {
    Closed,
    /// A tool approval prompt.
    Approval,
    /// Credential entry; a connection without a known endpoint also asks
    /// for the base URL.
    Credential { connect_mode: bool, has_default_endpoint: bool },
    /// A filtered item list; the model and variant lists carry two more
    /// header rows.
    List { with_subheader: bool },
}

/// The height the bottom panel asks for, capped at `max_height`: nothing
/// when closed, the approval prompt's natural height, three or four rows of
/// credential entry, or a header, the sub-header, up to eight items and a
/// "more" row for a list (one row beside the headers when nothing matches).
pub open spec fn panel_height_spec(shape: PanelShape, arguments: Seq<char>, filtered: int, width: int, max_height: int) -> int {
    let natural = match shape {
        PanelShape::Closed => 0,
        PanelShape::Approval => approval_height_spec(width, arguments),
        PanelShape::Credential { connect_mode, has_default_endpoint } => if connect_mode && !has_default_endpoint {
            4
        } else {
            3
        },
        PanelShape::List { with_subheader } => {
            let extra = if with_subheader { 2int } else { 0 };
            if filtered == 0 {
                1 + extra
            } else {
                1 + extra + min_nat(filtered, SLASH_MENU_MAX_VISIBLE as int) + (if filtered > SLASH_MENU_MAX_VISIBLE {
                    1int
                } else {
                    0
                })
            }
        },
    };
    min_nat(natural, max_height)
}

/// The height the bottom panel asks for (see `panel_height_spec`);
/// `arguments` are the arguments of an approval prompt.
pub fn bottom_panel_height(shape: PanelShape, arguments: &str, filtered: usize, width: u16, max_height: u16) -> (h: u16)
    ensures
        h == panel_height_spec(shape, arguments@, filtered as int, width as int, max_height as int),
{
    let natural: u16 = match shape {
        PanelShape::Closed => 0,
        PanelShape::Approval => approval_natural_height(width, arguments),
        PanelShape::Credential { connect_mode, has_default_endpoint } => {
            if connect_mode && !has_default_endpoint {
                4
            } else {
                3
            }
        },
        PanelShape::List { with_subheader } => {
            let extra: u16 = if with_subheader { 2 } else { 0 };
            if filtered == 0 {
                1 + extra
            } else {
                let visible: u16 = if filtered < SLASH_MENU_MAX_VISIBLE { filtered as u16 } else { SLASH_MENU_MAX_VISIBLE as u16 };
                let indicator: u16 = if filtered > SLASH_MENU_MAX_VISIBLE { 1 } else { 0 };
                1 + extra + visible + indicator
            }
        },
    };
    if natural < max_height { natural } else { max_height }
}

} // verus!
