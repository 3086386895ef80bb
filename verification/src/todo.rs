//! The read-only todo panel written into the transcript: a header with the
//! list's title, one row per item (identifier, status, priority, title and
//! optional detail) and an optional footer.

use vstd::prelude::*;
use vstd::string::StringExecFns;
use crate::preview::{status_display, status_display_spec};

verus! {

/// How a piece of the panel is coloured.
#[derive(Debug, Clone, Copy, PartialEq, Eq)]
pub enum TodoRole {
    Accent,
    Primary,
    Dim,
}

/// One coloured piece of a panel row.
#[derive(Debug, Clone, PartialEq, Eq)]
pub struct TodoSegment {
    pub role: TodoRole,
    pub bold: bool,
    pub text: String,
}

/// One todo item.
#[derive(Debug, Clone, PartialEq, Eq)]
pub struct TodoPanelRow {
    pub id: String,
    pub status: String,
    pub priority: String,
    pub title: String,
    pub detail: Option<String>,
}

/// What the panel shows.
#[derive(Debug, Clone, PartialEq, Eq)]
pub struct TodoPanelData {
    pub title: String,
    pub rows: Vec<TodoPanelRow>,
    pub footer: Option<String>,
}

pub type SegView = (TodoRole, bool, Seq<char>);

pub open spec fn seg_view(s: TodoSegment) -> SegView {
    (s.role, s.bold, s.text@)
}

pub open spec fn line_view(line: Vec<TodoSegment>) -> Seq<SegView> {
    line@.map_values(|s: TodoSegment| seg_view(s))
}

/// An item row: `"   <id> "`, the status as displayed, `"[<priority>] "`,
/// the title and, when there is one, `" — <detail>"`.
pub open spec fn item_line(r: TodoPanelRow) -> Seq<SegView> {
    seq![
        (TodoRole::Dim, false, "   "@ + r.id@ + " "@),
        (TodoRole::Accent, false, status_display_spec(r.status@)),
        (TodoRole::Dim, false, "["@ + r.priority@ + "] "@),
        (TodoRole::Primary, false, r.title@),
    ] + match r.detail {
        Some(d) => seq![(TodoRole::Dim, false, " — "@ + d@)],
        None => Seq::empty(),
    }
}

/// The panel: a bold `"   TODO "` header with the title, the item rows (or
/// a placeholder when there are none) and the footer when there is one.
pub open spec fn todo_lines(data: TodoPanelData) -> Seq<Seq<SegView>> {
    let header = seq![(TodoRole::Accent, true, "   TODO "@), (TodoRole::Primary, true, data.title@)];
    let body = if data.rows@.len() == 0 {
        seq![seq![(TodoRole::Dim, false, "      (no todo rows)"@)]]
    } else {
        data.rows@.map_values(|r: TodoPanelRow| item_line(r))
    };
    let footer = match data.footer {
        Some(f) => seq![seq![(TodoRole::Dim, false, "      "@ + f@)]],
        None => Seq::empty(),
    };
    seq![header] + body + footer
}

fn segment(role: TodoRole, bold: bool, text: String) -> (s: TodoSegment)
    ensures
        seg_view(s) == (role, bold, text@),
{
    TodoSegment { role, bold, text }
}

fn joined(a: &str, b: &str, c: &str) -> (s: String)
    ensures
        s@ == a@ + b@ + c@,
{
    let mut s = String::from_str(a);
    s.append(b);
    s.append(c);
    s
}

fn item(r: &TodoPanelRow) -> (line: Vec<TodoSegment>)
    ensures
        line_view(line) == item_line(*r),
{
    let mut line: Vec<TodoSegment> = Vec::new();
    line.push(segment(TodoRole::Dim, false, joined("   ", r.id.as_str(), " ")));
    line.push(segment(TodoRole::Accent, false, status_display(r.status.as_str())));
    line.push(segment(TodoRole::Dim, false, joined("[", r.priority.as_str(), "] ")));
    line.push(segment(TodoRole::Primary, false, r.title.clone()));
    match &r.detail {
        Some(d) => {
            let mut t = String::from_str(" — ");
            t.append(d.as_str());
            line.push(segment(TodoRole::Dim, false, t));
        },
        None => {},
    }
    proof {
        assert(line_view(line) =~= item_line(*r));
    }
    line
}

/// Builds the panel's rows (see `todo_lines`).
pub fn build_todo_panel_lines(data: &TodoPanelData) -> (lines: Vec<Vec<TodoSegment>>)
    ensures
        lines@.len() == todo_lines(*data).len(),
        forall|i: int| 0 <= i < lines@.len() ==> line_view(#[trigger] lines@[i]) == todo_lines(*data)[i],
{
    let ghost target = todo_lines(*data);
    let mut lines: Vec<Vec<TodoSegment>> = Vec::new();
    let header = vec![
        segment(TodoRole::Accent, true, String::from_str("   TODO ")),
        segment(TodoRole::Primary, true, data.title.clone()),
    ];
    proof {
        assert(line_view(header) =~= target[0]);
    }
    lines.push(header);
    if data.rows.len() == 0 {
        let empty = vec![segment(TodoRole::Dim, false, String::from_str("      (no todo rows)"))];
        proof {
            assert(line_view(empty) =~= target[1]);
        }
        lines.push(empty);
    } else {
        let mut i: usize = 0;
        while i < data.rows.len()
            invariant
                i <= data.rows@.len(),
                data.rows@.len() > 0,
                target == todo_lines(*data),
                lines@.len() == 1 + i,
                forall|t: int| 0 <= t < 1 + i ==> line_view(#[trigger] lines@[t]) == target[t],
            decreases data.rows@.len() - i,
        {
            let line = item(&data.rows[i]);
            proof {
                assert(target[1 + i] == item_line(data.rows@[i as int]));
            }
            lines.push(line);
            i = i + 1;
        }
    }
    let ghost body_end = lines@.len();
    match &data.footer {
        Some(f) => {
            let mut t = String::from_str("      ");
            t.append(f.as_str());
            let footer = vec![segment(TodoRole::Dim, false, t)];
            proof {
                assert(line_view(footer) =~= target[body_end as int]);
            }
            lines.push(footer);
        },
        None => {},
    }
    lines
}

} // verus!
