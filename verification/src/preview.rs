//! The one-line preview above the composer (what the turn is doing right
//! now), the processing animation that drives it, and the small frame
//! helpers around it: tip lifetimes, todo status glyphs and the frame-level
//! history scroll decision.

use vstd::prelude::*;
use vstd::string::StringExecFns;
use crate::formatting::{decimal, push_decimal};
use crate::composer::last_line;
use crate::text::{truncate_end_spec, truncate_end_to_width};

verus! {

/// The braille spinner shown while a turn is processing.
pub const SPINNER_FRAMES: [char; 10] = ['⠋', '⠙', '⠹', '⠸', '⠼', '⠴', '⠦', '⠧', '⠇', '⠏'];

/// The spinner frame at `i` (`0 <= i < 10`).
pub open spec fn spinner_frame(i: int) -> char {
    if i == 0 {
        '⠋'
    } else if i == 1 {
        '⠙'
    } else if i == 2 {
        '⠹'
    } else if i == 3 {
        '⠸'
    } else if i == 4 {
        '⠼'
    } else if i == 5 {
        '⠴'
    } else if i == 6 {
        '⠦'
    } else if i == 7 {
        '⠧'
    } else if i == 8 {
        '⠇'
    } else {
        '⠏'
    }
}

/// The animation advances by one (wrapping) on each timer tick while a turn
/// is processing, and rests at zero otherwise.
pub fn next_processing_frame(is_processing: bool, processing_frame: usize) -> (next: usize)
    ensures
        next == (if is_processing {
            if processing_frame == usize::MAX { 0 } else { processing_frame + 1 }
        } else {
            0
        }),
{
    if is_processing {
        processing_frame.wrapping_add(1)
    } else {
        0
    }
}

/// The number of dots of the ellipsis at `frame`: the dot count steps every
/// two frames through zero, one, two and three.
pub open spec fn dot_count(frame: nat) -> nat {
    (frame / 2) % 4
}

/// `n` dots.
pub open spec fn dots(n: nat) -> Seq<char> {
    Seq::new(n, |_i: int| '.')
}

/// The animated ellipsis shown while a turn is processing with nothing to
/// preview yet.
pub fn idle_processing_preview_text(frame: usize) -> (s: &'static str)
    ensures
        s@ == dots(dot_count(frame as nat)),
{
    proof {
        reveal_strlit("");
        reveal_strlit(".");
        reveal_strlit("..");
        reveal_strlit("...");
        assert(dots(0) =~= ""@);
        assert(dots(1) =~= "."@);
        assert(dots(2) =~= ".."@);
        assert(dots(3) =~= "..."@);
    }
    match (frame / 2) % 4 {
        0 => "",
        1 => ".",
        2 => "..",
        _ => "...",
    }
}

/// The spinner cell of the preview (`" ⠋ "`, one glyph between two spaces)
/// and the spinner frame it shows.
pub fn preview_spinner_padding(processing_frame: usize) -> (r: (String, usize))
    ensures
        r.1 == processing_frame % 10,
        r.0@ == seq![' ', spinner_frame(r.1 as int), ' '],
{
    let frame_idx = processing_frame % 10;
    let mut s = String::new();
    s.push(' ');
    s.push(SPINNER_FRAMES[frame_idx]);
    s.push(' ');
    proof {
        assert(SPINNER_FRAMES@[frame_idx as int] == spinner_frame(frame_idx as int));
    }
    (s, frame_idx)
}

/// The kind of markdown block whose rendering is being held back.
#[derive(Debug, Clone, Copy, PartialEq, Eq, Structural)]
pub enum MarkdownBlockKind {
    CodeFence,
    Table,
    List,
    Quote,
}

/// A markdown block held back until it is complete.
#[derive(Debug, Clone, Copy, PartialEq, Eq, Structural)]
pub struct HoldStatus {
    pub kind: MarkdownBlockKind,
}

/// The preview of a held block.
pub open spec fn hold_text(kind: MarkdownBlockKind) -> Seq<char> {
    match kind {
        MarkdownBlockKind::CodeFence => "receiving code block..."@,
        MarkdownBlockKind::Table => "rendering table..."@,
        MarkdownBlockKind::List => "formatting list..."@,
        MarkdownBlockKind::Quote => "formatting quote..."@,
    }
}

/// The preview text of a held block.
pub fn hold_preview_text(status: &HoldStatus) -> (s: &'static str)
    ensures
        s@ == hold_text(status.kind),
{
    match status.kind {
        MarkdownBlockKind::CodeFence => "receiving code block...",
        MarkdownBlockKind::Table => "rendering table...",
        MarkdownBlockKind::List => "formatting list...",
        MarkdownBlockKind::Quote => "formatting quote...",
    }
}

/// `s` without its trailing dots.
pub open spec fn trim_trailing_dots(s: Seq<char>) -> Seq<char>
    decreases s.len(),
{
    if s.len() > 0 && s.last() == '.' {
        trim_trailing_dots(s.drop_last())
    } else {
        s
    }
}

/// Appends the characters of `s` to `out`.
fn push_chars(out: &mut String, s: &Vec<char>, end: usize)
    requires
        end <= s@.len(),
    ensures
        final(out)@ == old(out)@ + s@.take(end as int),
{
    let mut k: usize = 0;
    while k < end
        invariant
            k <= end,
            end <= s@.len(),
            out@ == old(out)@ + s@.take(k as int),
        decreases end - k,
    {
        out.push(s[k]);
        proof {
            assert(s@.take(k + 1) =~= s@.take(k as int).push(s@[k as int]));
        }
        k = k + 1;
    }
}

/// A held block's preview with its own trailing dots replaced by the
/// animated ellipsis.
pub fn animated_hold_preview_text(status: &HoldStatus, frame: usize) -> (s: String)
    ensures
        s@ == trim_trailing_dots(hold_text(status.kind)) + dots(dot_count(frame as nat)),
{
    let base = crate::chars::str_chars(hold_preview_text(status));
    let mut end = base.len();
    proof {
        assert(base@.take(end as int) =~= base@);
    }
    while end > 0 && base[end - 1] == '.'
        invariant
            end <= base@.len(),
            trim_trailing_dots(base@) == trim_trailing_dots(base@.take(end as int)),
        decreases end,
    {
        proof {
            assert(base@.take(end as int).drop_last() =~= base@.take(end - 1));
        }
        end = end - 1;
    }
    let mut out = String::new();
    push_chars(&mut out, &base, end);
    let d = idle_processing_preview_text(frame);
    out.append(d);
    proof {
        let t = base@.take(end as int);
        if end > 0 {
            assert(t.last() == base@[end - 1]);
        }
        assert(trim_trailing_dots(t) == t);
    }
    out
}

/// The phase of the running turn, as far as the preview tells them apart.
#[derive(Debug, Clone, PartialEq, Eq)]
pub enum TurnPhase {
    Connecting,
    Retrying { attempt: u32 },
    Reconnecting { attempt: u32, max_attempts: u32 },
    RunningTool { name: String },
    TimedOut,
    Failed,
    Cancelled,
    /// Any phase the preview does not single out.
    Other,
}

/// The preview line for the current state of the turn, by precedence: a
/// held markdown block; a terminal phase (timed out, failed, cancelled) of
/// a processing turn; a retry; a reconnect or running tool of a processing
/// turn; the thinking preview of a processing turn; connecting; the idle
/// ellipsis of a processing turn with no streamed text; else the stream
/// preview itself.
pub open spec fn preview_spec(
    hold: Option<HoldStatus>,
    phase: Option<TurnPhase>,
    thinking: Option<Seq<char>>,
    is_processing: bool,
    stream_preview: Seq<char>,
    frame: nat,
) -> Seq<char> {
    if hold is Some {
        trim_trailing_dots(hold_text(hold->0.kind)) + dots(dot_count(frame))
    } else if is_processing && phase == Some(TurnPhase::TimedOut) {
        "⏱ timed out"@
    } else if is_processing && phase == Some(TurnPhase::Failed) {
        "✗ failed"@
    } else if is_processing && phase == Some(TurnPhase::Cancelled) {
        "cancelled"@
    } else {
        match phase {
            Some(TurnPhase::Retrying { attempt }) => "retrying (attempt "@ + decimal(attempt as nat) + ")..."@,
            _ => if is_processing {
                processing_preview(phase, thinking, stream_preview, frame)
            } else {
                stream_preview
            },
        }
    }
}

/// The preview of a processing turn once the held blocks, terminal phases
/// and retries are ruled out.
pub open spec fn processing_preview(
    phase: Option<TurnPhase>,
    thinking: Option<Seq<char>>,
    stream_preview: Seq<char>,
    frame: nat,
) -> Seq<char> {
    match phase {
        Some(TurnPhase::Reconnecting { attempt, max_attempts }) => "Reconnecting... (attempt "@ + decimal(
            attempt as nat,
        ) + "/"@ + decimal(max_attempts as nat) + ")"@,
        Some(TurnPhase::RunningTool { name }) => "running tool: "@ + name@ + "..."@,
        _ => if thinking is Some {
            "thinking: "@ + thinking->0
        } else if phase == Some(TurnPhase::Connecting) {
            "connecting..."@
        } else if stream_preview.len() == 0 {
            dots(dot_count(frame))
        } else {
            stream_preview
        },
    }
}

/// Builds the preview line (see `preview_spec`).
pub fn preview_text_for_state(
    hold_status: Option<&HoldStatus>,
    phase: Option<&TurnPhase>,
    thinking_preview: Option<&str>,
    is_processing: bool,
    stream_preview: &str,
    processing_frame: usize,
) -> (s: String)
    ensures
        s@ == preview_spec(
            match hold_status {
                Some(h) => Some(*h),
                None => None,
            },
            match phase {
                Some(p) => Some(*p),
                None => None,
            },
            match thinking_preview {
                Some(t) => Some(t@),
                None => None,
            },
            is_processing,
            stream_preview@,
            processing_frame as nat,
        ),
{
    if let Some(status) = hold_status {
        return animated_hold_preview_text(status, processing_frame);
    }
    let timed_out = match phase {
        Some(TurnPhase::TimedOut) => true,
        _ => false,
    };
    let failed = match phase {
        Some(TurnPhase::Failed) => true,
        _ => false,
    };
    let cancelled = match phase {
        Some(TurnPhase::Cancelled) => true,
        _ => false,
    };
    if is_processing && timed_out {
        return String::from_str("⏱ timed out");
    }
    if is_processing && failed {
        return String::from_str("✗ failed");
    }
    if is_processing && cancelled {
        return String::from_str("cancelled");
    }
    if let Some(TurnPhase::Retrying { attempt }) = phase {
        let mut s = String::from_str("retrying (attempt ");
        push_decimal(&mut s, *attempt as u64);
        s.append(")...");
        return s;
    }
    if is_processing {
        if let Some(TurnPhase::Reconnecting { attempt, max_attempts }) = phase {
            let mut s = String::from_str("Reconnecting... (attempt ");
            push_decimal(&mut s, *attempt as u64);
            s.append("/");
            push_decimal(&mut s, *max_attempts as u64);
            s.append(")");
            return s;
        }
        if let Some(TurnPhase::RunningTool { name }) = phase {
            let mut s = String::from_str("running tool: ");
            s.append(name.as_str());
            s.append("...");
            return s;
        }
        if let Some(thinking) = thinking_preview {
            let mut s = String::from_str("thinking: ");
            s.append(thinking);
            return s;
        }
        let connecting = match phase {
            Some(TurnPhase::Connecting) => true,
            _ => false,
        };
        if connecting {
            return String::from_str("connecting...");
        }
        if stream_preview.is_empty() {
            return String::from_str(idle_processing_preview_text(processing_frame));
        }
    }
    String::from_str(stream_preview)
}

/// A todo row status as displayed: the known checkbox glyphs (`[ ]`, `[~]`,
/// `[x]`, `[!]`) as they are, anything else wrapped in brackets.
pub open spec fn status_display_spec(status: Seq<char>) -> Seq<char> {
    if status == "[ ]"@ || status == "[~]"@ || status == "[x]"@ || status == "[!]"@ {
        status
    } else {
        "["@ + status + "]"@
    }
}

/// Maps a todo row status to its display form (see `status_display_spec`).
pub fn status_display(status: &str) -> (s: String)
    ensures
        s@ == status_display_spec(status@),
{
    let chars = crate::chars::str_chars(status);
    let known = chars.len() == 3 && chars[0] == '[' && chars[2] == ']' && (chars[1] == ' '
        || chars[1] == '~' || chars[1] == 'x' || chars[1] == '!');
    proof {
        reveal_strlit("[ ]");
        reveal_strlit("[~]");
        reveal_strlit("[x]");
        reveal_strlit("[!]");
        if known {
            if chars@[1] == ' ' {
                assert(status@ =~= "[ ]"@);
            } else if chars@[1] == '~' {
                assert(status@ =~= "[~]"@);
            } else if chars@[1] == 'x' {
                assert(status@ =~= "[x]"@);
            } else {
                assert(status@ =~= "[!]"@);
            }
        } else {
            assert(status@ != "[ ]"@);
            assert(status@ != "[~]"@);
            assert(status@ != "[x]"@);
            assert(status@ != "[!]"@);
        }
    }
    if known {
        String::from_str(status)
    } else {
        let mut s = String::from_str("[");
        s.append(status);
        s.append("]");
        s
    }
}

/// The kind of a transient tip.
#[derive(Debug, Clone, Copy, PartialEq, Eq, Structural)]
pub enum TipKind {
    Info,
    Error,
    ApprovalResult,
    ExitHint,
}

/// How long a tip stays visible, in seconds: informational tips eight,
/// errors five, everything else three.
pub fn tip_ttl_secs(kind: &TipKind) -> (secs: u64)
    ensures
        secs == (match *kind {
            TipKind::Info => 8u64,
            TipKind::Error => 5u64,
            _ => 3u64,
        }),
{
    match kind {
        TipKind::Info => 8,
        TipKind::Error => 5,
        _ => 3,
    }
}

/// The frame-level history viewport: where it starts now and the furthest
/// start that still fills it.
#[derive(Debug, Clone, Copy, PartialEq, Eq, Structural)]
pub struct FrameHistoryScrollBounds {
    pub current_start: usize,
    pub max_start: usize,
}

/// What a frame-level history scroll does.
#[derive(Debug, Clone, Copy, PartialEq, Eq, Structural)]
pub enum FrameHistoryScrollOutcome {
    Noop,
    Anchored { start: usize },
    FollowTail,
}

/// The bounds for a frame of `height` rows over the splash rows followed by
/// the transcript rows; the remembered start is clamped to the furthest
/// start.
pub fn frame_history_scroll_bounds(
    splash_rows: usize,
    transcript_rows: usize,
    last_start: usize,
    height: u16,
) -> (b: FrameHistoryScrollBounds)
    ensures
        b.max_start == {
            let total = if splash_rows + transcript_rows > usize::MAX {
                usize::MAX as int
            } else {
                splash_rows + transcript_rows
            };
            if total > height { total - height } else { 0 }
        },
        b.current_start == (if last_start < b.max_start { last_start } else { b.max_start }),
{
    let total_rows = splash_rows.saturating_add(transcript_rows);
    let max_start = total_rows.saturating_sub(height as usize);
    FrameHistoryScrollBounds {
        current_start: if last_start < max_start { last_start } else { max_start },
        max_start,
    }
}

impl FrameHistoryScrollBounds {
    /// Scrolling to the current start does nothing; to the furthest start
    /// follows the tail; anywhere else anchors there.
    pub fn outcome_for_target(self, target: usize) -> (o: FrameHistoryScrollOutcome)
        ensures
            o == (if target == self.current_start {
                FrameHistoryScrollOutcome::Noop
            } else if target == self.max_start {
                FrameHistoryScrollOutcome::FollowTail
            } else {
                FrameHistoryScrollOutcome::Anchored { start: target }
            }),
    {
        if target == self.current_start {
            FrameHistoryScrollOutcome::Noop
        } else if target == self.max_start {
            FrameHistoryScrollOutcome::FollowTail
        } else {
            FrameHistoryScrollOutcome::Anchored { start: target }
        }
    }

    /// Scrolls `rows` towards the top, stopping at the first row.
    pub fn scroll_up(self, rows: usize) -> (o: FrameHistoryScrollOutcome)
        ensures
            o == self.outcome_for_target_spec(if self.current_start >= rows {
                (self.current_start - rows) as usize
            } else {
                0
            }),
    {
        self.outcome_for_target(self.current_start.saturating_sub(rows))
    }

    /// Scrolls `rows` towards the tail, stopping at the furthest start.
    pub fn scroll_down(self, rows: usize) -> (o: FrameHistoryScrollOutcome)
        ensures
            o == self.outcome_for_target_spec({
                let t = if self.current_start + rows > usize::MAX {
                    usize::MAX as int
                } else {
                    self.current_start + rows
                };
                if t < self.max_start { t as usize } else { self.max_start }
            }),
    {
        let sum = self.current_start.saturating_add(rows);
        let target = if sum < self.max_start { sum } else { self.max_start };
        self.outcome_for_target(target)
    }

    pub open spec fn outcome_for_target_spec(self, target: usize) -> FrameHistoryScrollOutcome {
        if target == self.current_start {
            FrameHistoryScrollOutcome::Noop
        } else if target == self.max_start {
            FrameHistoryScrollOutcome::FollowTail
        } else {
            FrameHistoryScrollOutcome::Anchored { start: target }
        }
    }
}

/// Scrolling down from a bounded viewport never anchors past the furthest
/// start, and a scroll that reaches the furthest start follows the tail
/// (unless the viewport is already there).
pub proof fn scroll_down_never_passes_the_tail(b: FrameHistoryScrollBounds, rows: usize)
    requires
        b.current_start <= b.max_start,
    ensures
        ({
            let t = if b.current_start + rows > usize::MAX {
                usize::MAX as int
            } else {
                b.current_start + rows
            };
            let target = if t < b.max_start { t as usize } else { b.max_start };
            &&& (b.outcome_for_target_spec(target) matches FrameHistoryScrollOutcome::Anchored { start } ==> start < b.max_start)
            &&& (t >= b.max_start && b.current_start != b.max_start ==> b.outcome_for_target_spec(target) == FrameHistoryScrollOutcome::FollowTail)
        }),
{
}

/// The label that ripples while the model is thinking.
pub open spec fn thinking_label() -> Seq<char> {
    seq!['t', 'h', 'i', 'n', 'k', 'i', 'n', 'g']
}

/// The width of the bright middle of the ripple at `frame`: 2, 4, 6, 4,
/// repeating.
pub open spec fn ripple_width(frame: nat) -> int {
    let k = frame % 4;
    if k == 0 { 2 } else if k == 1 { 4 } else if k == 2 { 6 } else { 4 }
}

/// The ripple splits the label into a dim left edge, a bright middle of
/// `ripple_width` letters centred in the label, and a dim right edge:
/// `(start of the middle, end of the middle)`.
pub open spec fn ripple_split(frame: nat) -> (int, int) {
    let left = (8 - ripple_width(frame)) / 2;
    (left, left + ripple_width(frame))
}

/// Where the ripple's bright middle starts and ends (see `ripple_split`).
pub fn thinking_ripple_split(frame: usize) -> (r: (usize, usize))
    ensures
        r.0 == ripple_split(frame as nat).0,
        r.1 == ripple_split(frame as nat).1,
        r.0 <= r.1 <= 8,
{
    let active: usize = match frame % 4 {
        0 => 2,
        1 => 4,
        2 => 6,
        _ => 4,
    };
    let left = (8 - active) / 2;
    (left, left + active)
}

/// How a piece of the preview line is coloured.
#[derive(Debug, Clone, Copy, PartialEq, Eq, Structural)]
pub enum PreviewPart {
    /// The spinner padding.
    Padding,
    /// The dim edges of the thinking ripple.
    RippleEdge,
    /// The bright middle of the thinking ripple.
    RippleCenter,
    /// Everything else.
    Text,
}

/// The pieces of the preview line: the padding (when there is any), then
/// either the rippling `thinking` label followed by the rest of the text
/// (when a ripple frame is given and the text starts with `thinking`) or
/// the whole text.
pub open spec fn preview_parts_spec(pad: Seq<char>, text: Seq<char>, frame: Option<usize>) -> Seq<(PreviewPart, Seq<char>)> {
    let padding = if pad.len() > 0 { seq![(PreviewPart::Padding, pad)] } else { Seq::empty() };
    let rippling = frame is Some && text.len() >= 8 && text.take(8) == thinking_label();
    padding + if rippling {
        let (l, r) = ripple_split(frame->0 as nat);
        let label = thinking_label();
        let rest = text.skip(8);
        seq![
            (PreviewPart::RippleEdge, label.take(l)),
            (PreviewPart::RippleCenter, label.subrange(l, r)),
            (PreviewPart::RippleEdge, label.skip(r)),
        ] + if rest.len() > 0 { seq![(PreviewPart::Text, rest)] } else { Seq::empty() }
    } else {
        seq![(PreviewPart::Text, text)]
    }
}

fn push_char_range(out: &mut String, chars: &Vec<char>, from: usize, to: usize)
    requires
        from <= to <= chars@.len(),
    ensures
        final(out)@ == old(out)@ + chars@.subrange(from as int, to as int),
{
    let mut k = from;
    while k < to
        invariant
            from <= k <= to,
            to <= chars@.len(),
            out@ == old(out)@ + chars@.subrange(from as int, k as int),
        decreases to - k,
    {
        out.push(chars[k]);
        proof {
            assert(chars@.subrange(from as int, k + 1) =~= chars@.subrange(from as int, k as int).push(chars@[k as int]));
        }
        k = k + 1;
    }
}

/// The pieces of the preview line (see `preview_parts_spec`).
pub fn preview_line_parts(pad: &str, text: &str, thinking_frame: Option<usize>) -> (parts: Vec<(PreviewPart, String)>)
    ensures
        parts@.len() == preview_parts_spec(pad@, text@, thinking_frame).len(),
        forall|i: int|
            0 <= i < parts@.len() ==> (#[trigger] parts@[i]).0 == preview_parts_spec(pad@, text@, thinking_frame)[i].0
                && parts@[i].1@ == preview_parts_spec(pad@, text@, thinking_frame)[i].1,
{
    let mut parts: Vec<(PreviewPart, String)> = Vec::new();
    let ghost target = preview_parts_spec(pad@, text@, thinking_frame);
    let pad_chars = crate::chars::str_chars(pad);
    if pad_chars.len() > 0 {
        parts.push((PreviewPart::Padding, String::from_str(pad)));
    }
    let ghost n0 = parts@.len();
    let chars = crate::chars::str_chars(text);
    let label: Vec<char> = vec!['t', 'h', 'i', 'n', 'k', 'i', 'n', 'g'];
    proof {
        assert(label@ =~= thinking_label());
    }
    let starts = crate::chars::chars_start_with(&chars, &label);
    match thinking_frame {
        Some(frame) => {
            if starts {
                let (l, r) = thinking_ripple_split(frame);
                let mut left = String::new();
                push_char_range(&mut left, &label, 0, l);
                let mut middle = String::new();
                push_char_range(&mut middle, &label, l, r);
                let mut right = String::new();
                push_char_range(&mut right, &label, r, 8);
                parts.push((PreviewPart::RippleEdge, left));
                parts.push((PreviewPart::RippleCenter, middle));
                parts.push((PreviewPart::RippleEdge, right));
                if chars.len() > 8 {
                    let mut rest = String::new();
                    push_char_range(&mut rest, &chars, 8, chars.len());
                    parts.push((PreviewPart::Text, rest));
                }
                proof {
                    assert(label@.subrange(0, l as int) =~= thinking_label().take(l as int));
                    assert(label@.subrange(r as int, 8) =~= thinking_label().skip(r as int));
                    assert(chars@.subrange(8, chars@.len() as int) =~= text@.skip(8));
                }
                return parts;
            }
        },
        None => {},
    }
    parts.push((PreviewPart::Text, String::from_str(text)));
    parts
}

/// The pieces of the preview row at a terminal width: the last line of the
/// text after the padding, cut from the left to the width; with a spinner
/// the padding keeps its own piece, otherwise the row is one text (see
/// `preview_parts_spec`).
pub open spec fn preview_row_spec(pad: Seq<char>, text: Seq<char>, width: int, spinner: bool, frame: Option<usize>) -> Seq<(PreviewPart, Seq<char>)> {
    let display = truncate_end_spec(pad + last_line(text), width);
    if spinner {
        let n = if pad.len() < display.len() { pad.len() as int } else { display.len() as int };
        preview_parts_spec(display.take(n), display.skip(n), frame)
    } else {
        preview_parts_spec(Seq::empty(), display, frame)
    }
}

/// The pieces of the preview row (see `preview_row_spec`).
pub fn preview_row_parts(pad: &str, text: &str, width: u16, spinner: bool, thinking_frame: Option<usize>) -> (parts: Vec<(PreviewPart, String)>)
    ensures
        parts@.len() == preview_row_spec(pad@, text@, width as int, spinner, thinking_frame).len(),
        forall|i: int|
            0 <= i < parts@.len() ==> (#[trigger] parts@[i]).0 == preview_row_spec(pad@, text@, width as int, spinner, thinking_frame)[i].0
                && parts@[i].1@ == preview_row_spec(pad@, text@, width as int, spinner, thinking_frame)[i].1,
{
    let chars = crate::chars::str_chars(text);
    let mut line = String::new();
    let mut i: usize = 0;
    while i < chars.len()
        invariant
            chars@ == text@,
            i <= chars@.len(),
            line@ == last_line(chars@.take(i as int)),
        decreases chars@.len() - i,
    {
        let ch = chars[i];
        proof {
            let t = chars@.take(i + 1);
            assert(t.drop_last() =~= chars@.take(i as int));
            assert(t.last() == ch);
        }
        if ch == '\n' {
            line = String::new();
        } else {
            line.push(ch);
        }
        i = i + 1;
    }
    proof {
        assert(chars@.take(i as int) =~= text@);
    }
    let mut full = String::from_str(pad);
    full.append(line.as_str());
    let display = truncate_end_to_width(full.as_str(), width);
    if spinner {
        let d = crate::chars::str_chars(display.as_str());
        let pad_len = crate::chars::char_count(pad);
        let n = if pad_len < d.len() { pad_len } else { d.len() };
        let mut head = String::new();
        push_char_range(&mut head, &d, 0, n);
        let mut tail = String::new();
        push_char_range(&mut tail, &d, n, d.len());
        proof {
            assert(d@.subrange(0, n as int) =~= d@.take(n as int));
            assert(d@.subrange(n as int, d@.len() as int) =~= d@.skip(n as int));
        }
        preview_line_parts(head.as_str(), tail.as_str(), thinking_frame)
    } else {
        proof {
            reveal_strlit("");
        }
        preview_line_parts("", display.as_str(), thinking_frame)
    }
}

} // verus!
