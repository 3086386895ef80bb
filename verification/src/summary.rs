//! The summary printed when a session ends: model, duration and turns, the
//! session identifier, token counts and the estimated cost, as rows of
//! segments tagged with the role that picks their colour.

use vstd::prelude::*;
use vstd::string::StringExecFns;
use crate::formatting::{decimal, duration_text, format_duration, push_decimal};

verus! {

/// What a summary segment shows, which decides its colour.
#[derive(Debug, Clone, Copy, PartialEq, Eq)]
pub enum SummaryRole {
    /// Blank rows.
    Plain,
    /// Headline text: the banner, the model and the cost.
    Accent,
    /// Measured values: the duration and the token counts.
    Value,
    /// Secondary text: turns, session and token total.
    Dim,
}

/// One coloured piece of a summary row.
#[derive(Debug, Clone, PartialEq, Eq)]
pub struct SummarySegment {
    pub role: SummaryRole,
    pub text: String,
}

/// What the summary reports. The token labels and the cost are formatted
/// by the caller (`"1.2k"`, `"0.01"`).
pub struct ExitSummaryInput {
    pub model_name: String,
    pub elapsed_secs: u64,
    pub stream_count: usize,
    pub session_id: Option<String>,
    pub input_tokens: u32,
    pub output_tokens: u32,
    pub input_label: String,
    pub output_label: String,
    pub total_label: String,
    pub has_input_price: bool,
    pub has_output_price: bool,
    pub cost_text: String,
}

/// A cost is estimated only for a session that used tokens and whose model
/// has both an input and an output price.
pub open spec fn cost_estimated(input_tokens: u32, output_tokens: u32, has_input_price: bool, has_output_price: bool) -> bool {
    (input_tokens > 0 || output_tokens > 0) && has_input_price && has_output_price
}

/// Whether a cost estimate is shown, and its label.
pub fn estimate_label(input_tokens: u32, output_tokens: u32, has_input_price: bool, has_output_price: bool) -> (l: Option<&'static str>)
    ensures
        cost_estimated(input_tokens, output_tokens, has_input_price, has_output_price) ==> (l matches Some(s) && s@ == "Est"@),
        !cost_estimated(input_tokens, output_tokens, has_input_price, has_output_price) ==> l is None,
{
    if input_tokens == 0 && output_tokens == 0 {
        return None;
    }
    if has_input_price && has_output_price {
        Some("Est")
    } else {
        None
    }
}

/// `n` copies of `c`.
pub open spec fn repeat(c: char, n: nat) -> Seq<char> {
    Seq::new(n, |_i: int| c)
}

pub open spec fn seg(role: SummaryRole, text: Seq<char>) -> (SummaryRole, Seq<char>) {
    (role, text)
}

pub open spec fn blank_row() -> Seq<(SummaryRole, Seq<char>)> {
    seq![seg(SummaryRole::Plain, Seq::empty())]
}

pub open spec fn head_rows(inp: ExitSummaryInput) -> Seq<Seq<(SummaryRole, Seq<char>)>> {
    let duration = seg(SummaryRole::Value, duration_text(inp.elapsed_secs as nat) + "  "@);
    let turns = seg(SummaryRole::Dim, decimal(inp.stream_count as nat) + " turns"@);
    seq![
        blank_row(),
        seq![seg(SummaryRole::Accent, "⬡ Talos session complete "@ + repeat('─', 32))],
        blank_row(),
        if inp.model_name@.len() > 0 {
            seq![seg(SummaryRole::Accent, "  "@ + inp.model_name@ + "  "@), duration, turns]
        } else {
            seq![duration, turns]
        },
    ]
}

pub open spec fn session_rows(inp: ExitSummaryInput) -> Seq<Seq<(SummaryRole, Seq<char>)>> {
    match inp.session_id {
        Some(id) => if id@.len() > 0 {
            seq![seq![seg(SummaryRole::Dim, "  session "@ + id@)]]
        } else {
            Seq::empty()
        },
        None => Seq::empty(),
    }
}

pub open spec fn token_rows(inp: ExitSummaryInput) -> Seq<Seq<(SummaryRole, Seq<char>)>> {
    if inp.input_tokens > 0 || inp.output_tokens > 0 {
        seq![
            blank_row(),
            seq![
                seg(SummaryRole::Value, "  "@ + inp.input_label@ + " tokens in"@),
                seg(SummaryRole::Value, "      "@ + inp.output_label@ + " tokens out"@),
            ],
            seq![seg(SummaryRole::Dim, "  "@ + inp.total_label@ + " tokens total"@)],
        ]
    } else {
        Seq::empty()
    }
}

pub open spec fn cost_rows(inp: ExitSummaryInput) -> Seq<Seq<(SummaryRole, Seq<char>)>> {
    if cost_estimated(inp.input_tokens, inp.output_tokens, inp.has_input_price, inp.has_output_price) {
        seq![blank_row(), seq![seg(SummaryRole::Accent, "  Est cost: $"@ + inp.cost_text@)]]
    } else {
        Seq::empty()
    }
}

/// The summary rows: a blank row, the banner, a blank row, the model (when
/// named) with the duration and the number of turns, the session (when
/// there is one), the token counts (when tokens were used), the estimated
/// cost (see `cost_estimated`) and a closing blank row.
pub open spec fn summary_rows(inp: ExitSummaryInput) -> Seq<Seq<(SummaryRole, Seq<char>)>> {
    head_rows(inp) + session_rows(inp) + token_rows(inp) + cost_rows(inp) + seq![blank_row()]
}

pub open spec fn rows_view(rows: Seq<Vec<SummarySegment>>) -> Seq<Seq<(SummaryRole, Seq<char>)>> {
    rows.map_values(|r: Vec<SummarySegment>| row_view(r))
}

proof fn lemma_rows_view_push(rows: Seq<Vec<SummarySegment>>, r: Vec<SummarySegment>)
    ensures
        rows_view(rows.push(r)) == rows_view(rows).push(row_view(r)),
{
    assert(rows_view(rows.push(r)) =~= rows_view(rows).push(row_view(r)));
}

/// The view of a built row.
pub open spec fn row_view(row: Vec<SummarySegment>) -> Seq<(SummaryRole, Seq<char>)> {
    row@.map_values(|s: SummarySegment| (s.role, s.text@))
}

fn segment(role: SummaryRole, text: String) -> (s: SummarySegment)
    ensures
        s.role == role,
        s.text@ == text@,
{
    SummarySegment { role, text }
}

fn blank() -> (row: Vec<SummarySegment>)
    ensures
        row_view(row) == blank_row(),
{
    let row = vec![segment(SummaryRole::Plain, String::new())];
    proof {
        assert(row_view(row) =~= blank_row());
    }
    row
}

fn text_of(prefix: &str, middle: &str, suffix: &str) -> (s: String)
    ensures
        s@ == prefix@ + middle@ + suffix@,
{
    let mut s = String::from_str(prefix);
    s.append(middle);
    s.append(suffix);
    s
}

/// Builds the summary rows (see `summary_rows`).
pub fn build_exit_summary_lines(inp: &ExitSummaryInput) -> (rows: Vec<Vec<SummarySegment>>)
    ensures
        rows@.len() == summary_rows(*inp).len(),
        forall|i: int| 0 <= i < rows@.len() ==> row_view(#[trigger] rows@[i]) == summary_rows(*inp)[i],
{
    let mut rows: Vec<Vec<SummarySegment>> = Vec::new();
    let r0 = blank();
    rows.push(r0);
    let mut banner = String::from_str("⬡ Talos session complete ");
    let mut k: usize = 0;
    while k < 32
        invariant
            k <= 32,
            banner@ == "⬡ Talos session complete "@ + repeat('─', k as nat),
        decreases 32 - k,
    {
        banner.push('─');
        proof {
            assert(repeat('─', (k + 1) as nat) =~= repeat('─', k as nat).push('─'));
        }
        k = k + 1;
    }
    let banner_row = vec![segment(SummaryRole::Accent, banner)];
    proof {
        assert(row_view(banner_row) =~= seq![seg(SummaryRole::Accent, "⬡ Talos session complete "@ + repeat('─', 32))]);
    }
    rows.push(banner_row);
    rows.push(blank());
    let mut duration = format_duration(inp.elapsed_secs);
    duration.append("  ");
    let mut turns = String::new();
    push_decimal(&mut turns, inp.stream_count as u64);
    turns.append(" turns");
    proof {
        assert(turns@ =~= decimal(inp.stream_count as nat) + " turns"@);
    }
    let model_row = if inp.model_name.as_str().is_empty() {
        let r = vec![segment(SummaryRole::Value, duration), segment(SummaryRole::Dim, turns)];
        proof {
            assert(row_view(r) =~= head_rows(*inp)[3]);
        }
        r
    } else {
        let model = text_of("  ", inp.model_name.as_str(), "  ");
        let r = vec![segment(SummaryRole::Accent, model), segment(SummaryRole::Value, duration), segment(SummaryRole::Dim, turns)];
        proof {
            assert(row_view(r) =~= head_rows(*inp)[3]);
        }
        r
    };
    rows.push(model_row);
    proof {
        assert(rows_view(rows@) =~= head_rows(*inp));
    }
    match &inp.session_id {
        Some(id) => {
            if !id.as_str().is_empty() {
                let mut t = String::from_str("  session ");
                t.append(id.as_str());
                let row = vec![segment(SummaryRole::Dim, t)];
                proof {
                    assert(row_view(row) =~= session_rows(*inp)[0]);
                    lemma_rows_view_push(rows@, row);
                }
                rows.push(row);
            }
        },
        None => {},
    }
    proof {
        assert(rows_view(rows@) =~= head_rows(*inp) + session_rows(*inp));
    }
    let ghost before_tokens = rows_view(rows@);
    if inp.input_tokens > 0 || inp.output_tokens > 0 {
        let b = blank();
        proof {
            lemma_rows_view_push(rows@, b);
        }
        rows.push(b);
        let token_row = vec![
            segment(SummaryRole::Value, text_of("  ", inp.input_label.as_str(), " tokens in")),
            segment(SummaryRole::Value, text_of("      ", inp.output_label.as_str(), " tokens out")),
        ];
        proof {
            assert(row_view(token_row) =~= token_rows(*inp)[1]);
            lemma_rows_view_push(rows@, token_row);
        }
        rows.push(token_row);
        let total_row = vec![segment(SummaryRole::Dim, text_of("  ", inp.total_label.as_str(), " tokens total"))];
        proof {
            assert(row_view(total_row) =~= token_rows(*inp)[2]);
            lemma_rows_view_push(rows@, total_row);
        }
        rows.push(total_row);
    }
    proof {
        assert(rows_view(rows@) =~= before_tokens + token_rows(*inp));
    }
    let ghost before_cost = rows_view(rows@);
    match estimate_label(inp.input_tokens, inp.output_tokens, inp.has_input_price, inp.has_output_price) {
        Some(label) => {
            let b = blank();
            proof {
                lemma_rows_view_push(rows@, b);
            }
            rows.push(b);
            let mut cost = text_of("  ", label, " cost: $");
            cost.append(inp.cost_text.as_str());
            let cost_row = vec![segment(SummaryRole::Accent, cost)];
            proof {
                reveal_strlit("  ");
                reveal_strlit("Est");
                reveal_strlit(" cost: $");
                reveal_strlit("  Est cost: $");
                assert(cost@ =~= "  Est cost: $"@ + inp.cost_text@);
                assert(row_view(cost_row) =~= cost_rows(*inp)[1]);
                lemma_rows_view_push(rows@, cost_row);
            }
            rows.push(cost_row);
        },
        None => {},
    }
    proof {
        assert(rows_view(rows@) =~= before_cost + cost_rows(*inp));
    }
    let b = blank();
    proof {
        lemma_rows_view_push(rows@, b);
    }
    rows.push(b);
    proof {
        assert(rows_view(rows@) =~= summary_rows(*inp));
        assert forall|i: int| 0 <= i < rows@.len() implies row_view(#[trigger] rows@[i]) == summary_rows(*inp)[i] by {
            assert(rows_view(rows@)[i] == row_view(rows@[i]));
        }
    }
    rows
}

} // verus!
