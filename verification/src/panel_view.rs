//! The rows of the bottom panel: the credential form, whose key is only
//! ever shown masked, and the filtered item lists (slash commands and
//! pickers) with their headers, separator, scrolled window of items and
//! overflow indicator.

use vstd::prelude::*;
use vstd::string::StringExecFns;
use crate::budget::{bottom_panel_rows, min_nat, SLASH_MENU_MAX_VISIBLE};
use crate::composer::{credential_display_spec, credential_display_text};
use crate::formatting::{decimal, push_decimal};
use crate::text::{trim, trim_spec, truncate_one_line, truncate_one_line_spec, wrap_text_spec, wrap_text_to_lines};
use crate::width::{str_width, str_width_spec};
use crate::chars::str_chars;
use crate::panel::{command_name, filtered_bounded, filtered_spec, find_position, position, position_bounds, PanelEntry, PanelList};

verus! {

/// How a piece of a panel row is styled.
#[derive(Debug, Clone, Copy, PartialEq, Eq, Structural)]
pub enum PanelRole {
    /// The bold panel title.
    Title,
    Dim,
    Primary,
    /// The selected item.
    Selected,
    /// A group header among the items.
    GroupHeader,
    /// The bold warning line naming the tool of an approval.
    WarningTitle,
    /// The tool arguments of an approval.
    Warning,
}

/// One styled piece of a panel row.
#[derive(Debug, Clone, PartialEq, Eq)]
pub struct PanelSegment {
    pub role: PanelRole,
    pub text: String,
}

/// The credential form as the panel shows it.
#[derive(Debug, Clone)]
pub struct CredentialPanel {
    pub provider: String,
    pub model_id: Option<String>,
    pub connect_mode: bool,
    pub has_default_endpoint: bool,
    pub base_url_field: bool,
    pub credential_buffer: String,
    pub base_url_buffer: String,
}

/// What a list item shows beside its label and description: whether it is
/// the current choice, and for a slash command its argument hint and
/// whether Enter runs it at once.
#[derive(Debug, Clone)]
pub struct PanelItemStyle {
    pub is_current: bool,
    pub arg_hint: Option<String>,
    pub direct_execution: bool,
}

/// The title rows above a picker's items.
#[derive(Debug, Clone)]
pub enum ListTitle {
    Plain,
    Variants { model_id: String, provider: String },
    Models { provider: String },
}

pub type SegView = (PanelRole, Seq<char>);

pub open spec fn seg_view(s: PanelSegment) -> SegView {
    (s.role, s.text@)
}

pub open spec fn row_view(row: Vec<PanelSegment>) -> Seq<SegView> {
    row@.map_values(|s: PanelSegment| seg_view(s))
}

pub open spec fn rows_view(rows: Seq<Vec<PanelSegment>>) -> Seq<Seq<SegView>> {
    rows.map_values(|r: Vec<PanelSegment>| row_view(r))
}

pub open spec fn opt_text(o: Option<String>) -> Option<Seq<char>> {
    match o {
        Some(s) => Some(s@),
        None => None,
    }
}

/// The credential form: the provider (and model) title, then the prompt
/// and the fields. The API key appears only as `credential_display_spec`
/// of the buffer; a custom `/connect` provider also shows its base URL
/// field, `(required)` while empty.
pub open spec fn credential_rows(p: CredentialPanel) -> Seq<Seq<SegView>> {
    let title = match p.model_id {
        Some(id) => " Provider: "@ + p.provider@ + "  Model: "@ + id@,
        None => " Provider: "@ + p.provider@,
    };
    let key = credential_display_spec(p.credential_buffer@);
    let key_role = if p.credential_buffer@.len() == 0 { PanelRole::Dim } else { PanelRole::Primary };
    let url = if p.base_url_buffer@.len() == 0 { "(required)"@ } else { p.base_url_buffer@ };
    seq![seq![(PanelRole::Title, title)]] + if !p.connect_mode || p.has_default_endpoint {
        seq![
            seq![(PanelRole::Dim, " Enter the API key for this provider and press Enter (Esc to cancel)."@)],
            seq![(key_role, " ▸ "@ + key)],
        ]
    } else if p.base_url_field {
        seq![
            seq![(PanelRole::Dim, " Base URL is required for custom providers. Enter to save (Esc to cancel)."@)],
            seq![(PanelRole::Dim, "   API key: "@ + key)],
            seq![(PanelRole::Primary, " ▸ "@ + url)],
        ]
    } else {
        seq![
            seq![(PanelRole::Dim, " Enter the API key, then Enter to continue to the required base URL (Esc to cancel)."@)],
            seq![(key_role, " ▸ "@ + key)],
            seq![(PanelRole::Dim, "   Base URL: "@ + url)],
        ]
    }
}

fn seg(role: PanelRole, text: String) -> (s: PanelSegment)
    ensures
        seg_view(s) == (role, text@),
{
    PanelSegment { role, text }
}

fn one(role: PanelRole, text: String) -> (row: Vec<PanelSegment>)
    ensures
        row_view(row) == seq![(role, text@)],
{
    let mut row: Vec<PanelSegment> = Vec::new();
    row.push(seg(role, text));
    proof {
        assert(row_view(row) =~= seq![(role, text@)]);
    }
    row
}

fn cat(a: &str, b: &str) -> (s: String)
    ensures
        s@ == a@ + b@,
{
    let mut s = String::from_str(a);
    s.append(b);
    s
}

fn push_row(rows: &mut Vec<Vec<PanelSegment>>, row: Vec<PanelSegment>)
    ensures
        rows_view(final(rows)@) == rows_view(old(rows)@).push(row_view(row)),
        final(rows)@.len() == old(rows)@.len() + 1,
{
    rows.push(row);
    proof {
        assert(rows_view(final(rows)@) =~= rows_view(old(rows)@).push(row_view(row)));
    }
}

/// The rows of the credential form (see `credential_rows`).
pub fn credential_panel_rows(p: &CredentialPanel) -> (rows: Vec<Vec<PanelSegment>>)
    ensures
        rows_view(rows@) == credential_rows(*p),
{
    let title = match &p.model_id {
        Some(id) => {
            let mut t = cat(" Provider: ", p.provider.as_str());
            t.append("  Model: ");
            t.append(id.as_str());
            t
        },
        None => cat(" Provider: ", p.provider.as_str()),
    };
    let key = credential_display_text(p.credential_buffer.as_str());
    let key_role = if p.credential_buffer.as_str().is_empty() { PanelRole::Dim } else { PanelRole::Primary };
    let url = if p.base_url_buffer.as_str().is_empty() { String::from_str("(required)") } else { p.base_url_buffer.clone() };
    let mut rows: Vec<Vec<PanelSegment>> = Vec::new();
    push_row(&mut rows, one(PanelRole::Title, title));
    if !p.connect_mode || p.has_default_endpoint {
        push_row(
            &mut rows,
            one(PanelRole::Dim, String::from_str(" Enter the API key for this provider and press Enter (Esc to cancel).")),
        );
        push_row(&mut rows, one(key_role, cat(" ▸ ", key.as_str())));
    } else if p.base_url_field {
        push_row(
            &mut rows,
            one(
                PanelRole::Dim,
                String::from_str(" Base URL is required for custom providers. Enter to save (Esc to cancel)."),
            ),
        );
        push_row(&mut rows, one(PanelRole::Dim, cat("   API key: ", key.as_str())));
        push_row(&mut rows, one(PanelRole::Primary, cat(" ▸ ", url.as_str())));
    } else {
        push_row(
            &mut rows,
            one(
                PanelRole::Dim,
                String::from_str(" Enter the API key, then Enter to continue to the required base URL (Esc to cancel)."),
            ),
        );
        push_row(&mut rows, one(key_role, cat(" ▸ ", key.as_str())));
        push_row(&mut rows, one(PanelRole::Dim, cat("   Base URL: ", url.as_str())));
    }
    proof {
        assert(rows_view(rows@) =~= credential_rows(*p));
    }
    rows
}

/// The rows of a list below `header` title rows within `height` rows:
/// `(visible items, separator shown, overflow indicator shown)`.
pub open spec fn rows_plan(total: int, height: int, header: int) -> (int, bool, bool) {
    let show_separator = height > header;
    let capacity = if height >= header + (if show_separator { 1int } else { 0 }) {
        height - header - (if show_separator { 1int } else { 0 })
    } else {
        0
    };
    let initial = min_nat(min_nat(total, SLASH_MENU_MAX_VISIBLE as int), capacity);
    let show_indicator = total > initial && capacity >= 2;
    let visible = min_nat(
        min_nat(total, SLASH_MENU_MAX_VISIBLE as int),
        capacity - (if show_indicator { 1int } else { 0 }),
    );
    (visible, show_separator, show_indicator)
}

/// The title rows of a picker.
pub open spec fn title_rows(t: ListTitle) -> Seq<Seq<SegView>> {
    match t {
        ListTitle::Plain => Seq::empty(),
        ListTitle::Variants { model_id, provider } => seq![
            seq![(PanelRole::Title, " Model: "@ + model_id@ + "   Provider: "@ + provider@)],
            seq![(PanelRole::Dim, " Select a variant (or press Esc to cancel)"@)],
        ],
        ListTitle::Models { provider } => seq![
            seq![(PanelRole::Title, " Provider: "@ + provider@)],
            seq![(PanelRole::Dim, " Select a model (or press Esc to cancel)"@)],
        ],
    }
}

/// One item row. A group header is `"  <label> ───"`. A slash command shows
/// `"  /<name>"` (with its argument hint) and what Enter does, then its
/// description; a picker item shows a `▶` marker (on the selection in a
/// titled picker, on the current choice otherwise), its label and its
/// description if any. The selection is highlighted.
pub open spec fn item_row(e: PanelEntry, st: PanelItemStyle, is_slash: bool, titled: bool, selected: bool) -> Seq<
    SegView,
> {
    if e.is_header {
        seq![(PanelRole::GroupHeader, "  "@ + e.label@ + " ───"@)]
    } else {
        let (name, desc) = if is_slash {
            let hint = match opt_text(st.arg_hint) {
                Some(h) => " "@ + h,
                None => Seq::empty(),
            };
            let mode = if st.direct_execution { "  —  Enter to run"@ } else { "  —  Enter to complete"@ };
            ("  /"@ + command_name(e.label@) + hint, mode + "; "@ + e.description@)
        } else {
            let marker = if titled {
                if selected { "▶ "@ } else { "  "@ }
            } else if st.is_current {
                "▶ "@
            } else {
                "  "@
            };
            (marker + e.label@, if e.description@.len() == 0 { Seq::empty() } else { "  —  "@ + e.description@ })
        };
        if selected {
            seq![(PanelRole::Selected, name), (PanelRole::Selected, desc)]
        } else {
            seq![(PanelRole::Primary, name), (PanelRole::Dim, desc)]
        }
    }
}

/// The first shown item: the window scrolls just far enough to show the
/// selection.
pub open spec fn scroll_offset(shown: Seq<usize>, selected: usize, visible: int) -> int {
    let p = position(shown, selected);
    let sp = if p < 0 { 0 } else { p };
    if sp >= visible { sp - visible + 1 } else { 0 }
}

/// The row of the `i`-th item of the scrolled window.
pub open spec fn window_row(
    list: PanelList,
    styles: Seq<PanelItemStyle>,
    shown: Seq<usize>,
    offset: int,
    titled: bool,
    i: int,
) -> Seq<SegView> {
    item_row(
        list.items@[shown[offset + i] as int],
        styles[shown[offset + i] as int],
        list.is_slash,
        titled,
        shown[offset + i] == list.selected_index,
    )
}

/// The rows of a filtered list: a no-match row, or the title rows, a
/// separator rule across the width, the scrolled window of items and an
/// `… <last shown>/<total>` indicator, as the height allows.
pub open spec fn list_rows(
    list: PanelList,
    styles: Seq<PanelItemStyle>,
    title: ListTitle,
    query: Seq<char>,
    width: int,
    height: int,
) -> Seq<Seq<SegView>> {
    shown_rows(list, styles, title, filtered_spec(list.items@, list.is_slash, query), width, height)
}

/// The rows of a list whose shown items are `shown`.
pub open spec fn shown_rows(
    list: PanelList,
    styles: Seq<PanelItemStyle>,
    title: ListTitle,
    shown: Seq<usize>,
    width: int,
    height: int,
) -> Seq<Seq<SegView>> {
    let total = shown.len() as int;
    if total == 0 {
        seq![seq![(PanelRole::Dim, if list.is_slash { " No matching commands"@ } else { " No matches"@ })]]
    } else {
        let titled = !(title is Plain);
        let (visible, sep, ind) = rows_plan(total, height, if titled { 2 } else { 0 });
        let offset = scroll_offset(shown, list.selected_index, visible);
        let count = min_nat(visible, total - offset);
        title_rows(title) + (if sep {
            seq![rule_row(width)]
        } else {
            Seq::empty()
        }) + window_rows(list, styles, shown, offset, titled, count) + (if ind {
            seq![seq![(PanelRole::Dim, "  … "@ + decimal((offset + visible) as nat) + "/"@ + decimal(total as nat))]]
        } else {
            Seq::empty()
        })
    }
}

/// `label` without one leading `/`.
fn strip_slash(label: &str) -> (s: String)
    ensures
        s@ == command_name(label@),
{
    let chars = str_chars(label);
    let start: usize = if chars.len() > 0 && chars[0] == '/' { 1 } else { 0 };
    let mut s = String::new();
    let mut k = start;
    while k < chars.len()
        invariant
            start <= k <= chars@.len(),
            s@ == chars@.subrange(start as int, k as int),
        decreases chars@.len() - k,
    {
        s.push(chars[k]);
        proof {
            assert(chars@.subrange(start as int, k + 1) =~= chars@.subrange(start as int, k as int).push(chars@[k as int]));
        }
        k = k + 1;
    }
    proof {
        assert(s@ =~= command_name(label@));
    }
    s
}

fn item_row_exec(e: &PanelEntry, st: &PanelItemStyle, is_slash: bool, titled: bool, selected: bool) -> (row: Vec<
    PanelSegment,
>)
    ensures
        row_view(row) == item_row(*e, *st, is_slash, titled, selected),
{
    if e.is_header {
        let mut t = cat("  ", e.label.as_str());
        t.append(" ───");
        let row = one(PanelRole::GroupHeader, t);
        proof {
            assert(row_view(row) =~= item_row(*e, *st, is_slash, titled, selected));
        }
        return row;
    }
    let (name, desc) = if is_slash {
        let mut name = String::from_str("  /");
        let cmd = strip_slash(e.label.as_str());
        name.append(cmd.as_str());
        match &st.arg_hint {
            Some(h) => {
                name.append(" ");
                name.append(h.as_str());
            },
            None => {},
        }
        let mut desc = if st.direct_execution {
            String::from_str("  —  Enter to run")
        } else {
            String::from_str("  —  Enter to complete")
        };
        desc.append("; ");
        desc.append(e.description.as_str());
        proof {
            let hint = match opt_text(st.arg_hint) {
                Some(h) => " "@ + h,
                None => Seq::<char>::empty(),
            };
            let mode = if st.direct_execution { "  —  Enter to run"@ } else { "  —  Enter to complete"@ };
            assert(name@ =~= "  /"@ + command_name(e.label@) + hint);
            assert(desc@ =~= mode + "; "@ + e.description@);
        }
        (name, desc)
    } else {
        let marker = if titled {
            if selected { "▶ " } else { "  " }
        } else if st.is_current {
            "▶ "
        } else {
            "  "
        };
        let name = cat(marker, e.label.as_str());
        let desc = if e.description.as_str().is_empty() { String::new() } else { cat("  —  ", e.description.as_str()) };
        proof {
            assert(desc@ =~= if e.description@.len() == 0 { Seq::<char>::empty() } else { "  —  "@ + e.description@ });
        }
        (name, desc)
    };
    let mut row: Vec<PanelSegment> = Vec::new();
    if selected {
        row.push(seg(PanelRole::Selected, name));
        row.push(seg(PanelRole::Selected, desc));
    } else {
        row.push(seg(PanelRole::Primary, name));
        row.push(seg(PanelRole::Dim, desc));
    }
    proof {
        assert(row_view(row) =~= item_row(*e, *st, is_slash, titled, selected));
    }
    row
}

fn title_rows_exec(rows: &mut Vec<Vec<PanelSegment>>, title: &ListTitle)
    ensures
        rows_view(final(rows)@) == rows_view(old(rows)@) + title_rows(*title),
{
    match title {
        ListTitle::Plain => {},
        ListTitle::Variants { model_id, provider } => {
            let mut t = cat(" Model: ", model_id.as_str());
            t.append("   Provider: ");
            t.append(provider.as_str());
            push_row(rows, one(PanelRole::Title, t));
            push_row(rows, one(PanelRole::Dim, String::from_str(" Select a variant (or press Esc to cancel)")));
        },
        ListTitle::Models { provider } => {
            push_row(rows, one(PanelRole::Title, cat(" Provider: ", provider.as_str())));
            push_row(rows, one(PanelRole::Dim, String::from_str(" Select a model (or press Esc to cancel)")));
        },
    }
    proof {
        assert(rows_view(final(rows)@) =~= rows_view(old(rows)@) + title_rows(*title));
    }
}

/// The window rows of a list.
pub open spec fn window_rows(
    list: PanelList,
    styles: Seq<PanelItemStyle>,
    shown: Seq<usize>,
    offset: int,
    titled: bool,
    count: int,
) -> Seq<Seq<SegView>> {
    Seq::new(count as nat, |k: int| window_row(list, styles, shown, offset, titled, k))
}

pub open spec fn rule_row(width: int) -> Seq<SegView> {
    seq![(PanelRole::Dim, " "@ + Seq::new((if width >= 1 { width - 1 } else { 0 }) as nat, |_i: int| '─'))]
}

fn rule_row_exec(width: u16) -> (row: Vec<PanelSegment>)
    ensures
        row_view(row) == rule_row(width as int),
{
    let mut rule = String::from_str(" ");
    let n = width.saturating_sub(1);
    let mut k: u16 = 0;
    while k < n
        invariant
            k <= n,
            rule@ == " "@ + Seq::new(k as nat, |_i: int| '─'),
        decreases n - k,
    {
        rule.push('─');
        proof {
            assert(rule@ =~= " "@ + Seq::new((k + 1) as nat, |_i: int| '─'));
        }
        k = k + 1;
    }
    proof {
        assert(Seq::new(n as nat, |_i: int| '─') =~= Seq::new((if width >= 1 { width - 1 } else { 0 }) as nat, |_i: int| '─'));
    }
    one(PanelRole::Dim, rule)
}

fn push_window(
    rows: &mut Vec<Vec<PanelSegment>>,
    list: &PanelList,
    styles: &Vec<PanelItemStyle>,
    shown: &Vec<usize>,
    offset: usize,
    visible: usize,
    titled: bool,
)
    requires
        offset <= shown@.len(),
        styles@.len() == list.items@.len(),
        forall|t: int| 0 <= t < shown@.len() ==> (#[trigger] shown@[t]) < list.items@.len(),
    ensures
        rows_view(final(rows)@) == rows_view(old(rows)@) + window_rows(
            *list,
            styles@,
            shown@,
            offset as int,
            titled,
            min_nat(visible as int, shown@.len() - offset),
        ),
{
    let total = shown.len();
    let ghost start = rows_view(rows@);
    let mut i: usize = 0;
    while i < visible
        invariant
            i <= visible,
            offset + i <= total,
            total == shown@.len(),
            styles@.len() == list.items@.len(),
            forall|t: int| 0 <= t < shown@.len() ==> (#[trigger] shown@[t]) < list.items@.len(),
            rows_view(rows@) == start + window_rows(*list, styles@, shown@, offset as int, titled, i as int),
        ensures
            i == min_nat(visible as int, total - offset),
            rows_view(rows@) == start + window_rows(*list, styles@, shown@, offset as int, titled, i as int),
        decreases visible - i,
    {
        let pos = offset + i;
        if pos >= total {
            break;
        }
        let raw = shown[pos];
        let row = item_row_exec(&list.items[raw], &styles[raw], list.is_slash, titled, raw == list.selected_index);
        push_row(rows, row);
        proof {
            let w = window_rows(*list, styles@, shown@, offset as int, titled, i + 1);
            assert(w =~= window_rows(*list, styles@, shown@, offset as int, titled, i as int).push(
                window_row(*list, styles@, shown@, offset as int, titled, i as int),
            ));
            assert(rows_view(rows@) =~= start + w);
        }
        i = i + 1;
    }
}

/// The rows of a filtered list (see `list_rows`); `styles` gives each item's
/// markers.
pub fn list_panel_rows(
    list: &PanelList,
    styles: &Vec<PanelItemStyle>,
    title: &ListTitle,
    query: &str,
    width: u16,
    height: u16,
) -> (rows: Vec<Vec<PanelSegment>>)
    requires
        styles@.len() == list.items@.len(),
    ensures
        rows_view(rows@) == list_rows(*list, styles@, *title, query@, width as int, height as int),
{
    let shown = list.filtered_indices(query);
    proof {
        filtered_bounded(list.items@, list.is_slash, query@);
    }
    rows_of_shown(list, styles, title, &shown, width, height)
}

#[verifier::rlimit(60)]
fn rows_of_shown(
    list: &PanelList,
    styles: &Vec<PanelItemStyle>,
    title: &ListTitle,
    shown: &Vec<usize>,
    width: u16,
    height: u16,
) -> (rows: Vec<Vec<PanelSegment>>)
    requires
        styles@.len() == list.items@.len(),
        forall|t: int| 0 <= t < shown@.len() ==> (#[trigger] shown@[t]) < list.items@.len(),
    ensures
        rows_view(rows@) == shown_rows(*list, styles@, *title, shown@, width as int, height as int),
{
    let total = shown.len();
    let mut rows: Vec<Vec<PanelSegment>> = Vec::new();
    if total == 0 {
        let text = if list.is_slash { " No matching commands" } else { " No matches" };
        push_row(&mut rows, one(PanelRole::Dim, String::from_str(text)));
        proof {
            assert(rows_view(rows@) =~= shown_rows(*list, styles@, *title, shown@, width as int, height as int));
        }
        return rows;
    }
    proof {
        position_bounds(shown@, list.selected_index);
    }
    let titled = match title {
        ListTitle::Plain => false,
        _ => true,
    };
    let (visible, show_separator, show_indicator) = bottom_panel_rows(total, height, if titled { 2 } else { 0 });
    let selected_pos = match find_position(shown, list.selected_index) {
        Some(p) => p,
        None => 0,
    };
    let offset = if selected_pos >= visible { selected_pos - visible + 1 } else { 0 };
    assert(offset == scroll_offset(shown@, list.selected_index, visible as int));
    let ghost r0 = rows_view(rows@);
    title_rows_exec(&mut rows, title);
    proof {
        assert(r0 + title_rows(*title) =~= title_rows(*title));
    }
    let ghost r1 = rows_view(rows@);
    let ghost sep_rows: Seq<Seq<SegView>> = if show_separator {
        seq![rule_row(width as int)]
    } else {
        Seq::empty()
    };
    if show_separator {
        push_row(&mut rows, rule_row_exec(width));
    }
    proof {
        assert(rows_view(rows@) =~= r1 + sep_rows);
    }
    push_window(&mut rows, list, styles, shown, offset, visible, titled);
    let ghost r3 = rows_view(rows@);
    let ghost ind_rows: Seq<Seq<SegView>> = if show_indicator {
        seq![seq![(PanelRole::Dim, "  … "@ + decimal((offset + visible) as nat) + "/"@ + decimal(total as nat))]]
    } else {
        Seq::empty()
    };
    if show_indicator {
        let mut t = String::from_str("  … ");
        push_decimal(&mut t, (offset + visible) as u64);
        t.append("/");
        push_decimal(&mut t, total as u64);
        push_row(&mut rows, one(PanelRole::Dim, t));
    }
    proof {
        assert(rows_view(rows@) =~= r3 + ind_rows);
    }
    rows
}

/// A tool approval as the panel shows it: the tool, its arguments and the
/// answer options.
#[derive(Debug, Clone)]
pub struct ApprovalPanel {
    pub tool_name: String,
    pub arguments: String,
    pub options: Vec<String>,
    pub selected_index: usize,
}

/// The tool line of an approval: on a wide panel (60 columns or more) the
/// tool and its arguments folded onto one line and truncated to the room
/// left; on a narrow one the tool only.
pub open spec fn approval_title(a: ApprovalPanel, width: int) -> Seq<char> {
    let prefix = "  ⚠ "@ + a.tool_name@ + ": "@;
    if width >= 60 {
        let used = (str_width_spec(prefix) as int) % 65536;
        let room = if width > used { width - used } else { 1 };
        prefix + truncate_one_line_spec(a.arguments@, room)
    } else {
        "  ⚠ "@ + a.tool_name@
    }
}

/// The argument rows of a narrow approval: the arguments wrapped at the
/// width less four columns, in at most two rows and the rows left after
/// the rule, the tool line and the options.
pub open spec fn approval_arg_rows(a: ApprovalPanel, width: int, height: int) -> Seq<Seq<SegView>> {
    let mandatory = 2 + a.options@.len();
    let budget = if height > mandatory { height - mandatory } else { 0 };
    if width < 60 && trim_spec(a.arguments@).len() > 0 && budget > 0 {
        let w = if width > 5 { width - 4 } else { 1 };
        let lines = wrap_text_spec(a.arguments@, w, min_nat(budget, 2));
        Seq::new(lines.len(), |i: int| seq![(PanelRole::Warning, "  "@ + lines[i])])
    } else {
        Seq::empty()
    }
}

/// An approval panel: the rule, the tool line, the arguments of a narrow
/// panel, the options (the selected one highlighted) and a navigation hint,
/// stopping at `height` rows.
pub open spec fn approval_rows(a: ApprovalPanel, width: int, height: int) -> Seq<Seq<SegView>> {
    let head = seq![rule_row(width), seq![(PanelRole::WarningTitle, approval_title(a, width))]] + approval_arg_rows(
        a,
        width,
        height,
    );
    let room = if height > head.len() { height - head.len() } else { 0 };
    let shown = min_nat(a.options@.len() as int, room);
    let options = Seq::new(
        shown as nat,
        |i: int|
            seq![(if i == a.selected_index { PanelRole::Selected } else { PanelRole::Dim }, "  "@ + a.options@[i]@)],
    );
    let rows = head + options;
    if rows.len() < height {
        rows.push(seq![(PanelRole::Dim, "  Up/Down to navigate, Enter to confirm"@)])
    } else {
        rows
    }
}

fn approval_title_exec(a: &ApprovalPanel, width: u16) -> (t: String)
    ensures
        t@ == approval_title(*a, width as int),
{
    let mut prefix = cat("  ⚠ ", a.tool_name.as_str());
    if width >= 60 {
        prefix.append(": ");
        let used = str_width(prefix.as_str());
        let used16: u16 = (used % 65536) as u16;
        let room: u16 = if width > used16 { width - used16 } else { 1 };
        let args = truncate_one_line(a.arguments.as_str(), room as usize);
        prefix.append(args.as_str());
        proof {
            assert(prefix@ =~= approval_title(*a, width as int));
        }
    }
    prefix
}

fn approval_option_rows(
    rows: &mut Vec<Vec<PanelSegment>>,
    a: &ApprovalPanel,
    height: u16,
)
    ensures
        ({
            let room = if height > old(rows)@.len() { height - old(rows)@.len() } else { 0 };
            let shown = min_nat(a.options@.len() as int, room);
            rows_view(final(rows)@) == rows_view(old(rows)@) + Seq::new(
                shown as nat,
                |i: int|
                    seq![(if i == a.selected_index { PanelRole::Selected } else { PanelRole::Dim }, "  "@ + a.options@[i]@)],
            )
        }),
{
    let ghost start = rows_view(rows@);
    let ghost n0 = rows@.len();
    let mut i: usize = 0;
    while i < a.options.len()
        invariant
            i <= a.options@.len(),
            rows@.len() == n0 + i,
            i == 0 || n0 + i <= height,
            rows_view(rows@) == start + Seq::new(
                i as nat,
                |k: int|
                    seq![(if k == a.selected_index { PanelRole::Selected } else { PanelRole::Dim }, "  "@ + a.options@[k]@)],
            ),
        ensures
            i == min_nat(a.options@.len() as int, if height > n0 { height - n0 } else { 0 }),
            rows_view(rows@) == start + Seq::new(
                i as nat,
                |k: int|
                    seq![(if k == a.selected_index { PanelRole::Selected } else { PanelRole::Dim }, "  "@ + a.options@[k]@)],
            ),
        decreases a.options@.len() - i,
    {
        if rows.len() >= height as usize {
            break;
        }
        let role = if i == a.selected_index { PanelRole::Selected } else { PanelRole::Dim };
        push_row(rows, one(role, cat("  ", a.options[i].as_str())));
        proof {
            let f = |k: int|
                seq![(if k == a.selected_index { PanelRole::Selected } else { PanelRole::Dim }, "  "@ + a.options@[k]@)];
            assert(Seq::new((i + 1) as nat, f) =~= Seq::new(i as nat, f).push(f(i as int)));
            assert(rows_view(rows@) =~= start + Seq::new((i + 1) as nat, f));
        }
        i = i + 1;
    }
}

/// The rows of an approval panel (see `approval_rows`).
pub fn approval_panel_rows(a: &ApprovalPanel, width: u16, height: u16) -> (rows: Vec<Vec<PanelSegment>>)
    ensures
        rows_view(rows@) == approval_rows(*a, width as int, height as int),
{
    let mut rows: Vec<Vec<PanelSegment>> = Vec::new();
    push_row(&mut rows, rule_row_exec(width));
    push_row(&mut rows, one(PanelRole::WarningTitle, approval_title_exec(a, width)));
    let ghost head0 = rows_view(rows@);
    let options_count = a.options.len();
    let mandatory = options_count.saturating_add(2);
    let budget: usize = if (height as usize) > mandatory { height as usize - mandatory } else { 0 };
    let trimmed = trim(a.arguments.as_str());
    if width < 60 && !trimmed.as_str().is_empty() && budget > 0 {
        let w: usize = if width > 5 { (width - 4) as usize } else { 1 };
        let max_lines: usize = if budget < 2 { budget } else { 2 };
        let wrapped = wrap_text_to_lines(a.arguments.as_str(), w, max_lines);
        let ghost lines = wrap_text_spec(a.arguments@, w as int, max_lines as int);
        let mut k: usize = 0;
        while k < wrapped.len()
            invariant
                k <= wrapped@.len(),
                wrapped@.len() == lines.len(),
                forall|t: int| 0 <= t < wrapped@.len() ==> (#[trigger] wrapped@[t])@ == lines[t],
                rows_view(rows@) == head0 + Seq::new(k as nat, |i: int| seq![(PanelRole::Warning, "  "@ + lines[i])]),
            decreases wrapped@.len() - k,
        {
            push_row(&mut rows, one(PanelRole::Warning, cat("  ", wrapped[k].as_str())));
            proof {
                let f = |i: int| seq![(PanelRole::Warning, "  "@ + lines[i])];
                assert(Seq::new((k + 1) as nat, f) =~= Seq::new(k as nat, f).push(f(k as int)));
                assert(rows_view(rows@) =~= head0 + Seq::new((k + 1) as nat, f));
            }
            k = k + 1;
        }
        proof {
            assert(rows_view(rows@) =~= head0 + approval_arg_rows(*a, width as int, height as int));
        }
    } else {
        proof {
            assert(rows_view(rows@) =~= head0 + approval_arg_rows(*a, width as int, height as int));
        }
    }
    approval_option_rows(&mut rows, a, height);
    if rows.len() < height as usize {
        push_row(&mut rows, one(PanelRole::Dim, String::from_str("  Up/Down to navigate, Enter to confirm")));
    }
    proof {
        assert(head0 =~= seq![rule_row(width as int), seq![(PanelRole::WarningTitle, approval_title(*a, width as int))]]);
        assert(rows_view(rows@) =~= approval_rows(*a, width as int, height as int));
    }
    rows
}

/// What the bottom panel holds, as far as its rows go.
#[derive(Debug, Clone)]
pub enum PanelContent {
    Closed,
    Approval(ApprovalPanel),
    Credential(CredentialPanel),
    List { list: PanelList, styles: Vec<PanelItemStyle>, title: ListTitle },
}

/// The panel's rows in an area of `height` rows: none when it is closed or
/// has no room, else the approval prompt, the credential form or the
/// filtered list.
pub open spec fn panel_rows_spec(panel: PanelContent, query: Seq<char>, width: int, height: int) -> Seq<
    Seq<SegView>,
> {
    if height == 0 {
        Seq::empty()
    } else {
        match panel {
            PanelContent::Closed => Seq::empty(),
            PanelContent::Approval(a) => approval_rows(a, width, height),
            PanelContent::Credential(p) => credential_rows(p),
            PanelContent::List { list, styles, title } => list_rows(list, styles@, title, query, width, height),
        }
    }
}

/// The rows of the bottom panel (see `panel_rows_spec`).
pub fn bottom_panel_lines(panel: &PanelContent, query: &str, width: u16, height: u16) -> (rows: Vec<
    Vec<PanelSegment>,
>)
    requires
        panel matches PanelContent::List { list, styles, .. } ==> styles@.len() == list.items@.len(),
    ensures
        rows_view(rows@) == panel_rows_spec(*panel, query@, width as int, height as int),
{
    if height == 0 {
        let rows: Vec<Vec<PanelSegment>> = Vec::new();
        proof {
            assert(rows_view(rows@) =~= Seq::<Seq<SegView>>::empty());
        }
        return rows;
    }
    match panel {
        PanelContent::Closed => {
            let rows: Vec<Vec<PanelSegment>> = Vec::new();
            proof {
                assert(rows_view(rows@) =~= Seq::<Seq<SegView>>::empty());
            }
            rows
        },
        PanelContent::Approval(a) => approval_panel_rows(a, width, height),
        PanelContent::Credential(p) => credential_panel_rows(p),
        PanelContent::List { list, styles, title } => list_panel_rows(list, styles, title, query, width, height),
    }
}

} // verus!
