//! The status bar: model, provider, workspace, git and platform details on
//! the left, token and queue metrics on the right, each dropped or
//! truncated as the terminal narrows.

use vstd::prelude::*;
use vstd::string::StringExecFns;
use crate::chars::{chars_eq_str, chars_start_with, str_chars};
use crate::formatting::{decimal, push_decimal};
use crate::preview::TurnPhase;
use crate::text::{truncate_end_spec, truncate_end_to_width, truncate_str, truncate_str_spec};
use crate::width::{str_width, str_width_spec};

verus! {

/// `provider` unless it is empty or the model name already starts with
/// `provider/`.
pub open spec fn provider_display_spec(model: Seq<char>, provider: Seq<char>) -> Seq<char> {
    let prefix = provider.push('/');
    if provider.len() == 0 || (prefix.len() <= model.len() && model.take(prefix.len() as int) == prefix) {
        Seq::empty()
    } else {
        provider
    }
}

/// The provider shown next to the model (see `provider_display_spec`).
pub fn status_provider_for_display(model_name: &str, provider: &str) -> (r: String)
    ensures
        r@ == provider_display_spec(model_name@, provider@),
{
    let m = str_chars(model_name);
    let mut prefix = str_chars(provider);
    let provider_empty = prefix.len() == 0;
    prefix.push('/');
    let prefixed = chars_start_with(&m, &prefix);
    if provider_empty || prefixed {
        String::new()
    } else {
        String::from_str(provider)
    }
}

/// The status-bar label of a turn phase, for the phases it shows.
pub open spec fn phase_label_spec(phase: Option<TurnPhase>) -> Option<Seq<char>> {
    match phase {
        Some(TurnPhase::TimedOut) => Some("timed out"@),
        Some(TurnPhase::Failed) => Some("failed"@),
        Some(TurnPhase::Cancelled) => Some("cancelled"@),
        Some(TurnPhase::RunningTool { name }) => Some("tool: "@ + name@),
        _ => None,
    }
}

/// The status-bar label of a turn phase (see `phase_label_spec`).
pub fn phase_status_label(phase: &Option<TurnPhase>) -> (r: Option<String>)
    ensures
        match r {
            Some(s) => phase_label_spec(*phase) == Some(s@),
            None => phase_label_spec(*phase) is None,
        },
{
    match phase {
        Some(TurnPhase::TimedOut) => Some(String::from_str("timed out")),
        Some(TurnPhase::Failed) => Some(String::from_str("failed")),
        Some(TurnPhase::Cancelled) => Some(String::from_str("cancelled")),
        Some(TurnPhase::RunningTool { name }) => {
            let mut s = String::from_str("tool: ");
            s.append(name.as_str());
            Some(s)
        },
        _ => None,
    }
}

/// The context window: whole millions as `"NM ctx"`, whole thousands as
/// `"Nk ctx"`, else the token count; nothing without a limit.
pub open spec fn context_limit_spec(limit: Option<u32>) -> Seq<char> {
    match limit {
        Some(t) => if t >= 1_000_000 {
            decimal((t / 1_000_000) as nat) + "M ctx"@
        } else if t >= 1000 {
            decimal((t / 1000) as nat) + "k ctx"@
        } else {
            decimal(t as nat) + " ctx"@
        },
        None => Seq::empty(),
    }
}

/// Formats the context window (see `context_limit_spec`).
pub fn format_context_limit(limit: Option<u32>) -> (s: String)
    ensures
        s@ == context_limit_spec(limit),
{
    match limit {
        Some(tokens) => {
            let mut s = String::new();
            if tokens >= 1_000_000 {
                push_decimal(&mut s, (tokens / 1_000_000) as u64);
                s.append("M ctx");
            } else if tokens >= 1000 {
                push_decimal(&mut s, (tokens / 1000) as u64);
                s.append("k ctx");
            } else {
                push_decimal(&mut s, tokens as u64);
                s.append(" ctx");
            }
            s
        },
        None => String::new(),
    }
}

/// The share of the context window used, rounded to the nearest percent
/// (`total * 100` saturating); none without a non-zero limit.
pub open spec fn usage_percent_spec(limit: Option<u32>, total: u64) -> Option<nat> {
    match limit {
        Some(l) => if l == 0 {
            None
        } else {
            let scaled: int = if total * 100 > u64::MAX { u64::MAX as int } else { total * 100 };
            Some(((scaled + l / 2) / (l as int)) as nat)
        },
        None => None,
    }
}

/// The rounding sum `total * 100 + limit / 2` fits in a `u64` (beyond it
/// the computation overflows).
pub open spec fn usage_fits(limit: Option<u32>, total: u64) -> bool {
    match limit {
        Some(l) => (if total * 100 > u64::MAX { u64::MAX as int } else { total * 100 }) + l / 2 <= u64::MAX,
        None => true,
    }
}

/// The rounded context usage in percent (see `usage_percent_spec`).
pub fn context_usage_percent(limit: Option<u32>, total_tokens: u64) -> (r: Option<u64>)
    requires
        usage_fits(limit, total_tokens),
    ensures
        match r {
            Some(p) => usage_percent_spec(limit, total_tokens) == Some(p as nat),
            None => usage_percent_spec(limit, total_tokens) is None,
        },
{
    match limit {
        Some(l) => {
            if l == 0 {
                return None;
            }
            let limit = l as u64;
            let scaled: u64 = if total_tokens > u64::MAX / 100 { u64::MAX } else { total_tokens * 100 };
            Some((scaled + limit / 2) / limit)
        },
        None => None,
    }
}

/// The context label: the window, followed by the usage when known.
pub open spec fn context_label_spec(limit: Option<u32>, total: u64) -> Seq<char> {
    let l = context_limit_spec(limit);
    if l.len() == 0 {
        l
    } else {
        match usage_percent_spec(limit, total) {
            Some(p) => l + " · "@ + decimal(p) + "%"@,
            None => l,
        }
    }
}

/// Formats the context label (see `context_label_spec`).
pub fn format_context_label(limit: Option<u32>, total_tokens: u64) -> (s: String)
    requires
        usage_fits(limit, total_tokens),
    ensures
        s@ == context_label_spec(limit, total_tokens),
{
    let mut label = format_context_limit(limit);
    if label.as_str().is_empty() {
        return label;
    }
    match context_usage_percent(limit, total_tokens) {
        Some(percent) => {
            label.append(" · ");
            push_decimal(&mut label, percent);
            label.append("%");
            label
        },
        None => label,
    }
}

/// The output usage: `"<out> out"`, with `" (<thinking> thinking)"` when
/// reasoning tokens were spent; the counts come already formatted.
pub fn format_output_usage(output_label: &str, thinking_label: Option<&str>) -> (s: String)
    ensures
        s@ == (match thinking_label {
            Some(t) => output_label@ + " out ("@ + t@ + " thinking)"@,
            None => output_label@ + " out"@,
        }),
{
    let mut s = String::from_str(output_label);
    match thinking_label {
        Some(t) => {
            s.append(" out (");
            s.append(t);
            s.append(" thinking)");
        },
        None => {
            s.append(" out");
        },
    }
    s
}

/// The platform name shown on wide terminals.
pub open spec fn os_label_spec(os: Seq<char>) -> Seq<char> {
    if os == "macos"@ {
        "macOS"@
    } else if os == "linux"@ {
        "Linux"@
    } else if os == "windows"@ {
        "Windows"@
    } else {
        os
    }
}

fn os_label(os: &str) -> (s: String)
    ensures
        s@ == os_label_spec(os@),
{
    let c = str_chars(os);
    if chars_eq_str(&c, "macos") {
        String::from_str("macOS")
    } else if chars_eq_str(&c, "linux") {
        String::from_str("Linux")
    } else if chars_eq_str(&c, "windows") {
        String::from_str("Windows")
    } else {
        String::from_str(os)
    }
}

/// The git state of the workspace.
#[derive(Debug, Clone, PartialEq, Eq)]
pub struct GitStatusSummary {
    pub branch: Option<String>,
    pub dirty: bool,
}

/// The git part: nothing without a summary, or when it has neither branch
/// nor changes; `" · *"` for changes without a branch; else the branch
/// (and `*` when dirty).
pub open spec fn git_part_spec(git: Option<GitStatusSummary>) -> Seq<char> {
    match git {
        None => Seq::empty(),
        Some(g) => {
            let branch = match g.branch {
                Some(b) => b@,
                None => Seq::empty(),
            };
            let dirty: Seq<char> = if g.dirty { seq!['*'] } else { Seq::empty() };
            if branch.len() == 0 && dirty.len() == 0 {
                Seq::empty()
            } else if branch.len() == 0 {
                " · "@ + dirty
            } else {
                " · ⎇ "@ + branch + dirty
            }
        },
    }
}

fn git_part(git: &Option<GitStatusSummary>) -> (s: String)
    ensures
        s@ == git_part_spec(*git),
{
    match git {
        None => String::new(),
        Some(g) => {
            let branch_empty = match &g.branch {
                Some(b) => b.as_str().is_empty(),
                None => true,
            };
            if branch_empty && !g.dirty {
                String::new()
            } else if branch_empty {
                let mut s = String::from_str(" · ");
                s.push('*');
                proof {
                    assert(s@ =~= " · "@ + seq!['*']);
                }
                s
            } else {
                let mut s = String::from_str(" · ⎇ ");
                match &g.branch {
                    Some(b) => s.append(b.as_str()),
                    None => {},
                }
                let ghost before = s@;
                if g.dirty {
                    s.push('*');
                }
                proof {
                    if g.dirty {
                        assert(s@ =~= before + seq!['*']);
                    } else {
                        assert(s@ =~= before + Seq::<char>::empty());
                    }
                }
                s
            }
        },
    }
}

/// What the status bar shows.
#[derive(Debug, Clone, PartialEq, Eq)]
pub struct StatusFields {
    pub model_name: String,
    pub provider: String,
    pub workspace_path: String,
    pub variant: Option<String>,
    pub input_tokens: u32,
    pub output_tokens: u32,
    pub context_limit: Option<u32>,
    pub steering_count: usize,
    pub followup_count: usize,
    pub attachment_count: usize,
    pub phase: Option<TurnPhase>,
}

/// A status update: the new fields, except that an empty workspace path
/// keeps the one already shown.
pub open spec fn merged_status(current: StatusFields, snapshot: StatusFields) -> StatusFields {
    if snapshot.workspace_path@.len() == 0 {
        StatusFields { workspace_path: current.workspace_path, ..snapshot }
    } else {
        snapshot
    }
}

/// Stores a status snapshot (see `merged_status`).
pub fn merge_status(current: &mut StatusFields, snapshot: StatusFields)
    ensures
        *final(current) == merged_status(*old(current), snapshot),
{
    if snapshot.workspace_path.as_str().is_empty() {
        let path = current.workspace_path.clone();
        *current = snapshot;
        current.workspace_path = path;
    } else {
        *current = snapshot;
    }
}

/// The color role of a status-bar segment.
#[derive(Debug, Clone, Copy, PartialEq, Eq, Structural)]
pub enum StatusStyle {
    Dim,
    Accent,
    Value,
}

pub open spec fn clamp_int(x: int, lo: int, hi: int) -> int {
    if x < lo { lo } else if x > hi { hi } else { x }
}

pub open spec fn sub_sat(a: int, b: int) -> int {
    if a > b { a - b } else { 0 }
}

/// The right-hand metrics: output usage, attachments, queued inputs and
/// the phase.
pub open spec fn metrics_spec(f: StatusFields, output_usage: Seq<char>) -> Seq<char> {
    let attachments = if f.attachment_count > 0 {
        " · "@ + decimal(f.attachment_count as nat) + " image"@ + (if f.attachment_count == 1 {
            Seq::<char>::empty()
        } else {
            seq!['s']
        })
    } else {
        Seq::empty()
    };
    let queued = f.steering_count + f.followup_count;
    let q = if queued > 0 {
        " · ⬡ "@ + decimal(queued as nat) + " queued"@
    } else {
        Seq::empty()
    };
    let p = match phase_label_spec(f.phase) {
        Some(l) => " · "@ + l,
        None => Seq::empty(),
    };
    output_usage + attachments + q + p
}

/// The model and workspace budgets `(model, workspace)` from the columns
/// the fixed parts leave and the provider's share.
pub open spec fn limits_spec(available: int, provider_budget: int, workspace_empty: bool) -> (int, int) {
    let model_limit = if workspace_empty {
        clamp_int(sub_sat(available, provider_budget), 10, 40)
    } else {
        clamp_int(sub_sat(available / 2, provider_budget / 2), 10, 36)
    };
    (model_limit, clamp_int(sub_sat(sub_sat(available, model_limit), provider_budget), 12, 48))
}

/// The columns a displayed provider takes (none when hidden).
pub open spec fn provider_budget_spec(provider: Seq<char>, narrow: bool) -> int {
    if provider.len() == 0 || !narrow {
        0
    } else {
        (if str_width_spec(provider) < 18 { str_width_spec(provider) as int } else { 18 }) + 3
    }
}

/// The variant part, on terminals of at least 60 columns.
pub open spec fn variant_spec(variant: Option<String>, narrow: bool) -> Seq<char> {
    match variant {
        Some(v) => if narrow { " · "@ + v@ } else { Seq::empty() },
        None => Seq::empty(),
    }
}

/// The columns reserved for everything but the model, provider and
/// workspace.
pub open spec fn reserved_spec(
    right: Seq<char>,
    ctx: Seq<char>,
    platform: Seq<char>,
    git_p: Seq<char>,
    variant: Seq<char>,
) -> int {
    let ctx_len: int = if ctx.len() == 0 { 0 } else { str_width_spec(ctx) as int + 2 };
    1 + str_width_spec(right) + 5 + ctx_len + str_width_spec(platform) + str_width_spec(git_p)
        + str_width_spec(variant)
}

/// The model part: the truncated model name and its context label, then the
/// provider in parentheses when shown.
pub open spec fn model_part_spec(
    model: Seq<char>,
    model_limit: int,
    ctx: Seq<char>,
    provider: Seq<char>,
    narrow: bool,
) -> Seq<char> {
    let ctx_part = if ctx.len() == 0 { Seq::empty() } else { " ("@ + ctx + ")"@ };
    let provider_part = if narrow && provider.len() > 0 {
        " ("@ + truncate_str_spec(provider, 18) + ")"@
    } else {
        Seq::empty()
    };
    "⬡ "@ + truncate_str_spec(model, model_limit) + ctx_part + provider_part
}

/// The whole status line as styled segments at `width` columns: from 100
/// columns on the platform is shown, from 80 the git state, from 60 the
/// provider, variant and metrics; the model name and the workspace share
/// what the fixed parts leave.
pub open spec fn status_line_spec(
    f: StatusFields,
    width: int,
    output_usage: Seq<char>,
    os: Seq<char>,
    git: Option<GitStatusSummary>,
) -> Seq<(StatusStyle, Seq<char>)> {
    let expanded = width >= 100;
    let standard = width >= 80;
    let narrow = width >= 60;
    let provider = provider_display_spec(f.model_name@, f.provider@);
    let workspace = f.workspace_path@;
    let ctx = context_label_spec(f.context_limit, (f.input_tokens + f.output_tokens) as u64);
    let platform = if expanded { " · "@ + os_label_spec(os) } else { Seq::empty() };
    let git_p = if standard && workspace.len() > 0 { git_part_spec(git) } else { Seq::empty() };
    let variant = variant_spec(f.variant, narrow);
    let right = if narrow { metrics_spec(f, output_usage) } else { Seq::empty() };
    let available = sub_sat(width, reserved_spec(right, ctx, platform, git_p, variant));
    let (model_limit, workspace_limit) = limits_spec(
        available,
        provider_budget_spec(provider, narrow),
        workspace.len() == 0,
    );
    let workspace_part = if workspace.len() == 0 {
        Seq::empty()
    } else {
        " ▸ "@ + truncate_end_spec(workspace, workspace_limit)
    };
    let left = seq![
        (StatusStyle::Dim, " "@),
        (StatusStyle::Accent, model_part_spec(f.model_name@, model_limit, ctx, provider, narrow)),
        (StatusStyle::Value, workspace_part),
        (StatusStyle::Dim, git_p),
        (StatusStyle::Dim, platform),
        (StatusStyle::Accent, variant),
    ];
    if narrow {
        left + seq![(StatusStyle::Dim, "     "@), (StatusStyle::Value, right)]
    } else {
        left
    }
}

fn clamp_u128(x: u128, lo: u128, hi: u128) -> (r: u128)
    requires
        lo <= hi,
    ensures
        r == clamp_int(x as int, lo as int, hi as int),
{
    if x < lo {
        lo
    } else if x > hi {
        hi
    } else {
        x
    }
}

fn status_limits(available: u128, provider_budget: u128, workspace_empty: bool) -> (r: (u128, u128))
    ensures
        (r.0 as int, r.1 as int) == limits_spec(available as int, provider_budget as int, workspace_empty),
{
    let model_limit: u128 = if workspace_empty {
        clamp_u128(if available > provider_budget { available - provider_budget } else { 0 }, 10, 40)
    } else {
        let half = available / 2;
        let half_budget = provider_budget / 2;
        clamp_u128(if half > half_budget { half - half_budget } else { 0 }, 10, 36)
    };
    let after_model: u128 = if available > model_limit { available - model_limit } else { 0 };
    let workspace_limit: u128 = clamp_u128(
        if after_model > provider_budget { after_model - provider_budget } else { 0 },
        12,
        48,
    );
    (model_limit, workspace_limit)
}

fn status_metrics(f: &StatusFields, output_usage: &str) -> (s: String)
    requires
        f.steering_count + f.followup_count <= usize::MAX,
    ensures
        s@ == metrics_spec(*f, output_usage@),
{
    let mut s = String::from_str(output_usage);
    let ghost base = s@;
    if f.attachment_count > 0 {
        s.append(" · ");
        push_decimal(&mut s, f.attachment_count as u64);
        s.append(" image");
        if f.attachment_count != 1 {
            s.push('s');
        }
    }
    let ghost with_attachments = s@;
    let queued = f.steering_count + f.followup_count;
    if queued > 0 {
        s.append(" · ⬡ ");
        push_decimal(&mut s, queued as u64);
        s.append(" queued");
    }
    let ghost with_queue = s@;
    match phase_status_label(&f.phase) {
        Some(l) => {
            s.append(" · ");
            s.append(l.as_str());
        },
        None => {},
    }
    proof {
        let attachments = if f.attachment_count > 0 {
            " · "@ + decimal(f.attachment_count as nat) + " image"@ + (if f.attachment_count == 1 {
                Seq::<char>::empty()
            } else {
                seq!['s']
            })
        } else {
            Seq::empty()
        };
        assert(with_attachments =~= output_usage@ + attachments);
        let q = if queued > 0 {
            " · ⬡ "@ + decimal(queued as nat) + " queued"@
        } else {
            Seq::empty()
        };
        assert(with_queue =~= output_usage@ + attachments + q);
        let p = match phase_label_spec(f.phase) {
            Some(l) => " · "@ + l,
            None => Seq::empty(),
        };
        assert(s@ =~= output_usage@ + attachments + q + p);
    }
    s
}

fn status_model_part(
    model: &str,
    model_limit: usize,
    ctx: &String,
    provider: &String,
    narrow: bool,
) -> (s: String)
    ensures
        s@ == model_part_spec(model@, model_limit as int, ctx@, provider@, narrow),
{
    let mut s = String::from_str("⬡ ");
    s.append(truncate_str(model, model_limit).as_str());
    let ghost with_model = s@;
    if !ctx.as_str().is_empty() {
        s.append(" (");
        s.append(ctx.as_str());
        s.append(")");
    }
    let ghost with_ctx = s@;
    if narrow && !provider.as_str().is_empty() {
        s.append(" (");
        s.append(truncate_str(provider.as_str(), 18).as_str());
        s.append(")");
    }
    proof {
        let ctx_part = if ctx@.len() == 0 { Seq::empty() } else { " ("@ + ctx@ + ")"@ };
        assert(with_ctx =~= with_model + ctx_part);
        let provider_part = if narrow && provider@.len() > 0 {
            " ("@ + truncate_str_spec(provider@, 18) + ")"@
        } else {
            Seq::empty()
        };
        assert(s@ =~= with_ctx + provider_part);
    }
    s
}

fn prefixed(prefix: &str, text: &str) -> (s: String)
    ensures
        s@ == prefix@ + text@,
{
    let mut s = String::from_str(prefix);
    s.append(text);
    s
}

/// Builds the status line (see `status_line_spec`). `output_usage` is the
/// formatted output usage, `os` the platform identifier and `git` the
/// workspace's git state.
#[verifier::rlimit(50)]
pub fn build_status_text(
    f: &StatusFields,
    width: u16,
    output_usage: &str,
    os: &str,
    git: &Option<GitStatusSummary>,
) -> (r: Vec<(StatusStyle, String)>)
    requires
        f.input_tokens + f.output_tokens <= u32::MAX,
        f.steering_count + f.followup_count <= usize::MAX,
    ensures
        r@.len() == status_line_spec(*f, width as int, output_usage@, os@, *git).len(),
        forall|i: int|
            0 <= i < r@.len() ==> (#[trigger] r@[i]).0 == status_line_spec(*f, width as int, output_usage@, os@, *git)[i].0
                && r@[i].1@ == status_line_spec(*f, width as int, output_usage@, os@, *git)[i].1,
{
    let expanded = width >= 100;
    let standard = width >= 80;
    let narrow = width >= 60;
    let provider = status_provider_for_display(f.model_name.as_str(), f.provider.as_str());
    let workspace_empty = f.workspace_path.as_str().is_empty();
    let total_tokens = (f.input_tokens + f.output_tokens) as u64;
    let ctx = format_context_label(f.context_limit, total_tokens);
    let platform = if expanded { prefixed(" · ", os_label(os).as_str()) } else { String::new() };
    let git_p = if standard && !workspace_empty { git_part(git) } else { String::new() };
    let variant = match &f.variant {
        Some(v) => if narrow { prefixed(" · ", v.as_str()) } else { String::new() },
        None => String::new(),
    };
    let right = if narrow { status_metrics(f, output_usage) } else { String::new() };
    let ctx_len: u128 = if ctx.as_str().is_empty() { 0 } else { str_width(ctx.as_str()) as u128 + 2 };
    let reserved: u128 = 1 + str_width(right.as_str()) as u128 + 5 + ctx_len + str_width(platform.as_str()) as u128
        + str_width(git_p.as_str()) as u128 + str_width(variant.as_str()) as u128;
    let w = width as u128;
    let available: u128 = if w > reserved { w - reserved } else { 0 };
    let provider_budget: u128 = if provider.as_str().is_empty() || !narrow {
        0
    } else {
        let pw = str_width(provider.as_str()) as u128;
        (if pw < 18 { pw } else { 18 }) + 3
    };
    let (model_limit, workspace_limit) = status_limits(available, provider_budget, workspace_empty);
    let model_part = status_model_part(f.model_name.as_str(), model_limit as usize, &ctx, &provider, narrow);
    let workspace_part = if workspace_empty {
        String::new()
    } else {
        prefixed(" ▸ ", truncate_end_to_width(f.workspace_path.as_str(), workspace_limit as u16).as_str())
    };
    let mut line: Vec<(StatusStyle, String)> = Vec::new();
    line.push((StatusStyle::Dim, String::from_str(" ")));
    line.push((StatusStyle::Accent, model_part));
    line.push((StatusStyle::Value, workspace_part));
    line.push((StatusStyle::Dim, git_p));
    line.push((StatusStyle::Dim, platform));
    line.push((StatusStyle::Accent, variant));
    if narrow {
        line.push((StatusStyle::Dim, String::from_str("     ")));
        line.push((StatusStyle::Value, right));
    }
    proof {
        let spec = status_line_spec(*f, width as int, output_usage@, os@, *git);
        assert(reserved as int == reserved_spec(right@, ctx@, platform@, git_p@, variant@));
        assert(line@.len() == spec.len());
        assert forall|i: int| 0 <= i < line@.len() implies (#[trigger] line@[i]).0 == spec[i].0 && line@[i].1@
            == spec[i].1 by {
        }
    }
    line
}

/// The queue marker for `n` queued inputs.
pub open spec fn queue_marker(n: nat) -> Seq<char> {
    " · ⬡ "@ + decimal(n) + " queued"@
}

/// On a status line of 60 columns or more, the metrics (the last segment)
/// show `· ⬡ N queued` with N the queued steering inputs plus the queued
/// follow-ups whenever N is positive; with nothing queued, no attachment and
/// no phase, the metrics are the output usage alone.
pub proof fn queued_inputs_are_counted_together(
    f: StatusFields,
    width: int,
    output_usage: Seq<char>,
    os: Seq<char>,
    git: Option<GitStatusSummary>,
)
    requires
        width >= 60,
    ensures
        ({
            let line = status_line_spec(f, width, output_usage, os, git);
            let right = line[7].1;
            let n = f.steering_count + f.followup_count;
            &&& line.len() == 8
            &&& n > 0 ==> exists|k: int|
                0 <= k && k + queue_marker(n as nat).len() <= right.len() && #[trigger] right.subrange(
                    k,
                    k + queue_marker(n as nat).len(),
                ) == queue_marker(n as nat)
            &&& n == 0 && f.attachment_count == 0 && f.phase is None ==> right == output_usage
        }),
{
    let line = status_line_spec(f, width, output_usage, os, git);
    let right = line[7].1;
    let n = f.steering_count + f.followup_count;
    let attachments = if f.attachment_count > 0 {
        " · "@ + decimal(f.attachment_count as nat) + " image"@ + (if f.attachment_count == 1 {
            Seq::<char>::empty()
        } else {
            seq!['s']
        })
    } else {
        Seq::empty()
    };
    let p = match phase_label_spec(f.phase) {
        Some(l) => " · "@ + l,
        None => Seq::empty(),
    };
    assert(right == metrics_spec(f, output_usage));
    if n > 0 {
        let q = queue_marker(n as nat);
        let k: int = (output_usage.len() + attachments.len()) as int;
        assert(right == output_usage + attachments + q + p);
        assert(right.subrange(k, k + q.len()) =~= q);
    } else if f.attachment_count == 0 && f.phase is None {
        assert(right =~= output_usage);
    }
}

/// The status line depends on the queued steering inputs and follow-ups
/// only through their total: moving inputs between the two queues changes
/// nothing shown.
pub proof fn status_line_depends_on_the_queue_total(
    f: StatusFields,
    steering: usize,
    followups: usize,
    width: int,
    output_usage: Seq<char>,
    os: Seq<char>,
    git: Option<GitStatusSummary>,
)
    requires
        steering + followups == f.steering_count + f.followup_count,
    ensures
        status_line_spec(StatusFields { steering_count: steering, followup_count: followups, ..f }, width, output_usage, os, git)
            == status_line_spec(f, width, output_usage, os, git),
{
    let g = StatusFields { steering_count: steering, followup_count: followups, ..f };
    assert(metrics_spec(g, output_usage) == metrics_spec(f, output_usage));
}

/// Whether a remembered git status may be reused: same workspace and
/// younger than half a second.
pub fn git_status_cache_fresh(same_workspace: bool, age_ms: u64) -> (b: bool)
    ensures
        b == (same_workspace && age_ms < 500),
{
    same_workspace && age_ms < 500
}

} // verus!
