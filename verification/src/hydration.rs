//! Replaying a saved conversation into transcript blocks: messages become
//! content blocks, tool calls become call blocks, and each tool result is
//! paired, first in first out, with the names of the tool calls of the
//! assistant message before it.

use vstd::prelude::*;
use crate::activity::{summary_fields_for, summary_fields_spec};
use crate::formatting::{decimal, push_decimal};
use crate::text::{llm_hint, strip_llm_hints, trim_end_matches_spec};

verus! {

/// Who a content block comes from.
#[derive(Clone, Copy, Debug, PartialEq, Eq, Structural)]
pub enum MessageSource {
    User,
    Assistant,
    System,
    Reasoning,
}

/// A tool call of a saved assistant message: the tool's name and its
/// arguments as JSON text.
#[derive(Clone, Debug)]
pub struct HistoryToolCall {
    pub name: String,
    pub input: String,
}

/// A part of a multimodal message. An image is described by its file name
/// (the last component of its path, when it has one), its MIME type and
/// its size; its path and bytes never reach the transcript.
#[derive(Clone, Debug)]
pub enum ContentPart {
    Text { text: String },
    Image { file_name: Option<String>, mime: String, byte_count: u64 },
}

/// A saved conversation message. An assistant message carries, beside its
/// structured tool calls, the tool calls written in its text and the text
/// with that tool syntax removed, and the displayable part of its
/// reasoning, if any.
#[derive(Clone, Debug)]
pub enum HistoryMessage {
    User { content: String },
    Assistant {
        cleaned: String,
        tool_calls: Vec<HistoryToolCall>,
        text_tool_calls: Vec<HistoryToolCall>,
        reasoning: Option<String>,
    },
    Tool { tool_use_id: String, content: String, is_error: bool },
    System { content: String },
    Context { content: String },
    Multimodal { parts: Vec<ContentPart> },
}

/// A block of the transcript.
#[derive(Clone, Debug)]
pub enum TranscriptBlock {
    Content { source: MessageSource, text: String },
    ToolCall { tool_name: String, arguments: String, summary_fields: Vec<String> },
    ToolResult { tool_name: String, is_error: bool, content: String },
}

/// A transcript block as plain values.
pub enum BlockView {
    Content { source: MessageSource, text: Seq<char> },
    ToolCall { tool_name: Seq<char>, arguments: Seq<char>, summary_fields: Seq<Seq<char>> },
    ToolResult { tool_name: Seq<char>, is_error: bool, content: Seq<char> },
}

pub open spec fn strings_view(v: Seq<String>) -> Seq<Seq<char>> {
    v.map_values(|s: String| s@)
}

impl TranscriptBlock {
    pub open spec fn view(&self) -> BlockView {
        match self {
            TranscriptBlock::Content { source, text } => BlockView::Content { source: *source, text: text@ },
            TranscriptBlock::ToolCall { tool_name, arguments, summary_fields } => BlockView::ToolCall {
                tool_name: tool_name@,
                arguments: arguments@,
                summary_fields: strings_view(summary_fields@),
            },
            TranscriptBlock::ToolResult { tool_name, is_error, content } => BlockView::ToolResult {
                tool_name: tool_name@,
                is_error: *is_error,
                content: content@,
            },
        }
    }
}

pub open spec fn blocks_view(b: Seq<TranscriptBlock>) -> Seq<BlockView> {
    b.map_values(|x: TranscriptBlock| x@)
}

/// The names of some tool calls, in order.
pub open spec fn call_names(calls: Seq<HistoryToolCall>) -> Seq<Seq<char>> {
    calls.map_values(|c: HistoryToolCall| c.name@)
}

/// The call blocks of some tool calls, in order.
pub open spec fn call_blocks(calls: Seq<HistoryToolCall>) -> Seq<BlockView> {
    calls.map_values(
        |c: HistoryToolCall|
            BlockView::ToolCall { tool_name: c.name@, arguments: c.input@, summary_fields: summary_fields_spec(c.name@) },
    )
}

/// The result block of a tool result, named by the oldest pending call name
/// or, when none is pending, by the result's call id; and the names still
/// pending after it.
pub open spec fn result_step(pending: Seq<Seq<char>>, id: Seq<char>, content: Seq<char>, is_error: bool) -> (
    Seq<Seq<char>>,
    Seq<BlockView>,
) {
    let name = if pending.len() > 0 { pending[0] } else { id };
    (
        if pending.len() > 0 { pending.skip(1) } else { pending },
        seq![BlockView::ToolResult { tool_name: name, is_error, content: trim_end_matches_spec(content, llm_hint()) }],
    )
}

/// The blocks of an assistant message after its reasoning: its cleaned text
/// only when it makes no tool call at all, then its structured calls, or
/// when it has none the calls written in its text. The pending names become
/// the names of the calls shown.
pub open spec fn assistant_step(
    cleaned: Seq<char>,
    tool_calls: Seq<HistoryToolCall>,
    text_tool_calls: Seq<HistoryToolCall>,
) -> (Seq<Seq<char>>, Seq<BlockView>) {
    let shown = if tool_calls.len() > 0 { tool_calls } else { text_tool_calls };
    let text = if shown.len() == 0 && cleaned.len() > 0 {
        seq![BlockView::Content { source: MessageSource::Assistant, text: cleaned }]
    } else {
        Seq::empty()
    };
    (call_names(shown), text + call_blocks(shown))
}

/// The reasoning block of an assistant message: `Thinking: <text>` and a
/// line break.
pub open spec fn reasoning_blocks(reasoning: Option<String>) -> Seq<BlockView> {
    match reasoning {
        Some(t) => seq![BlockView::Content { source: MessageSource::Reasoning, text: "Thinking: "@ + t@ + "\n"@ }],
        None => Seq::empty(),
    }
}

/// One message of a replay into the live transcript.
pub open spec fn hydrate_step(pending: Seq<Seq<char>>, m: HistoryMessage) -> (Seq<Seq<char>>, Seq<BlockView>) {
    match m {
        HistoryMessage::Tool { tool_use_id, content, is_error } => result_step(
            pending,
            tool_use_id@,
            content@,
            is_error,
        ),
        HistoryMessage::Assistant { cleaned, tool_calls, text_tool_calls, reasoning } => {
            let (p, b) = assistant_step(cleaned@, tool_calls@, text_tool_calls@);
            (p, reasoning_blocks(reasoning) + b)
        },
        HistoryMessage::User { content } => (
            pending,
            seq![BlockView::Content { source: MessageSource::User, text: content@ }],
        ),
        HistoryMessage::System { content } => (pending, system_block(content@)),
        HistoryMessage::Context { content } => (pending, system_block(content@)),
        HistoryMessage::Multimodal { .. } => (pending, Seq::empty()),
    }
}

/// A system block of non-empty text.
pub open spec fn system_block(text: Seq<char>) -> Seq<BlockView> {
    if text.len() > 0 {
        seq![BlockView::Content { source: MessageSource::System, text }]
    } else {
        Seq::empty()
    }
}

/// The names pending and the blocks produced after replaying `h` with the
/// step `live` (the live transcript) or the scrollback step otherwise.
pub open spec fn replay(h: Seq<HistoryMessage>, live: bool) -> (Seq<Seq<char>>, Seq<BlockView>)
    decreases h.len(),
{
    if h.len() == 0 {
        (Seq::empty(), Seq::empty())
    } else {
        let (p, b) = replay(h.drop_last(), live);
        let (p2, b2) = if live {
            hydrate_step(p, h.last())
        } else {
            scrollback_step(p, h.last())
        };
        (p2, b + b2)
    }
}

/// The blocks of a replay into the live transcript.
pub open spec fn hydrate_spec(h: Seq<HistoryMessage>) -> Seq<BlockView> {
    replay(h, true).1
}

/// The block of the `i`-th of a run of tool results replayed with the
/// call names `pending`: named after the `i`-th pending name, or after the
/// result's own call id once the names ran out.
pub open spec fn fifo_result_block(pending: Seq<Seq<char>>, i: int, m: HistoryMessage) -> BlockView {
    match m {
        HistoryMessage::Tool { tool_use_id, content, is_error } => BlockView::ToolResult {
            tool_name: if i < pending.len() { pending[i] } else { tool_use_id@ },
            is_error,
            content: trim_end_matches_spec(content@, llm_hint()),
        },
        _ => BlockView::ToolResult { tool_name: Seq::empty(), is_error: false, content: Seq::empty() },
    }
}

/// Tool results replayed one after another take the pending call names
/// first in first out: the `i`-th result is named after the `i`-th pending
/// name, or after its own call id once the names ran out; it keeps its
/// error flag and its content without the tool-error hint; each result adds
/// exactly its block, and the names not yet used stay pending, in order.
pub proof fn tool_results_take_names_in_order(h: Seq<HistoryMessage>, tools: Seq<HistoryMessage>, live: bool)
    requires
        forall|i: int| 0 <= i < tools.len() ==> (#[trigger] tools[i]) is Tool,
    ensures
        replay(h + tools, live).0 == if tools.len() <= replay(h, live).0.len() {
            replay(h, live).0.skip(tools.len() as int)
        } else {
            Seq::empty()
        },
        replay(h + tools, live).1.len() == replay(h, live).1.len() + tools.len(),
        replay(h + tools, live).1.take(replay(h, live).1.len() as int) == replay(h, live).1,
        forall|i: int|
            0 <= i < tools.len() ==> #[trigger] replay(h + tools, live).1[replay(h, live).1.len() + i]
                == fifo_result_block(replay(h, live).0, i, tools[i]),
    decreases tools.len(),
{
    let (p, b) = replay(h, live);
    if tools.len() == 0 {
        assert(h + tools =~= h);
        assert(p.skip(0) =~= p);
        assert(b.take(b.len() as int) =~= b);
    } else {
        let t0 = tools.drop_last();
        assert forall|i: int| 0 <= i < t0.len() implies (#[trigger] t0[i]) is Tool by {
            assert(t0[i] == tools[i]);
        }
        tool_results_take_names_in_order(h, t0, live);
        let x = h + tools;
        assert(x.drop_last() =~= h + t0);
        assert(x.last() == tools.last());
        let (p1, b1) = replay(h + t0, live);
        let n = t0.len() as int;
        assert(tools[n] == tools.last());
        if n < p.len() {
            assert(p1.len() > 0);
            assert(p1[0] == p[n]);
            assert(p1.skip(1) =~= p.skip(n + 1));
        } else if n == p.len() {
            assert(p1 =~= Seq::<Seq<char>>::empty());
        }
        let (p2, b2) = replay(x, live);
        if let HistoryMessage::Tool { tool_use_id, content, is_error } = tools.last() {
            assert(b2 == b1 + result_step(p1, tool_use_id@, content@, is_error).1);
        }
        assert(b2.take(b.len() as int) =~= b) by {
            assert(b1.take(b.len() as int) == b);
        }
        assert forall|i: int| 0 <= i < tools.len() implies #[trigger] b2[b.len() + i] == fifo_result_block(p, i, tools[i]) by {
            if i < n {
                assert(b2[b.len() + i] == b1[b.len() + i]);
                assert(t0[i] == tools[i]);
            }
        }
    }
}

/// The tool calls an assistant message shows: its structured calls, or
/// the calls written in its text when it has none.
pub open spec fn shown_calls(m: HistoryMessage) -> Seq<HistoryToolCall> {
    match m {
        HistoryMessage::Assistant { tool_calls, text_tool_calls, .. } => if tool_calls@.len() > 0 {
            tool_calls@
        } else {
            text_tool_calls@
        },
        _ => Seq::empty(),
    }
}

/// Replaying an assistant message after `h` adds, to scrollback and (after
/// its reasoning) to the live transcript alike: when it makes a tool call,
/// structured or written in its text, exactly one call block per shown call
/// and no text; otherwise only its cleaned text, when there is any. The
/// names of the shown calls become the pending names.
pub proof fn assistant_replay_shows_calls_or_text(h: Seq<HistoryMessage>, m: HistoryMessage, live: bool)
    requires
        m is Assistant,
    ensures
        ({
            let before = replay(h, live).1;
            let after = replay(h.push(m), live).1;
            let calls = shown_calls(m);
            let lead = if live {
                match m {
                    HistoryMessage::Assistant { reasoning, .. } => reasoning_blocks(reasoning),
                    _ => Seq::empty(),
                }
            } else {
                Seq::empty()
            };
            let start: int = (before.len() + lead.len()) as int;
            &&& after.take(start) == before + lead
            &&& calls.len() > 0 ==> {
                &&& after.len() == start + calls.len()
                &&& forall|i: int|
                    0 <= i < calls.len() ==> #[trigger] after[start + i] == BlockView::ToolCall {
                        tool_name: calls[i].name@,
                        arguments: calls[i].input@,
                        summary_fields: summary_fields_spec(calls[i].name@),
                    }
            }
            &&& calls.len() == 0 ==> match m {
                HistoryMessage::Assistant { cleaned, .. } => if cleaned@.len() > 0 {
                    after.len() == start + 1 && after[start] == BlockView::Content {
                        source: MessageSource::Assistant,
                        text: cleaned@,
                    }
                } else {
                    after.len() == start
                },
                _ => true,
            }
            &&& replay(h.push(m), live).0 == calls.map_values(|c: HistoryToolCall| c.name@)
        }),
{
    assert(h.push(m).drop_last() =~= h);
    assert(h.push(m).last() == m);
    let before = replay(h, live).1;
    let after = replay(h.push(m), live).1;
    if let HistoryMessage::Assistant { cleaned, tool_calls, text_tool_calls, reasoning } = m {
        let lead = if live { reasoning_blocks(reasoning) } else { Seq::<BlockView>::empty() };
        let (p, b) = assistant_step(cleaned@, tool_calls@, text_tool_calls@);
        assert(after =~= before + lead + b);
        assert(after.take((before.len() + lead.len()) as int) =~= before + lead);
    }
}

/// A content block of non-empty text.
pub open spec fn content_block(source: MessageSource, text: Seq<char>) -> Seq<BlockView> {
    if text.len() > 0 {
        seq![BlockView::Content { source, text }]
    } else {
        Seq::empty()
    }
}

/// How an image appears in text: `[Image: <name> (<n> bytes, <mime>)]`,
/// with `(unknown)` for an image without a file name.
pub open spec fn image_marker(file_name: Option<String>, mime: Seq<char>, byte_count: u64) -> Seq<char> {
    let name = match file_name {
        Some(n) => n@,
        None => "(unknown)"@,
    };
    "[Image: "@ + name + " ("@ + decimal(byte_count as nat) + " bytes, "@ + mime + ")]"@
}

pub open spec fn part_text(p: ContentPart) -> Seq<char> {
    match p {
        ContentPart::Text { text } => text@,
        ContentPart::Image { file_name, mime, byte_count } => image_marker(file_name, mime@, byte_count),
    }
}

/// The text summary of a multimodal message: the text of each part, in
/// order, separated by line breaks once the summary is not empty.
pub open spec fn multimodal_summary(parts: Seq<ContentPart>) -> Seq<char>
    decreases parts.len(),
{
    if parts.len() == 0 {
        Seq::empty()
    } else {
        let acc = multimodal_summary(parts.drop_last());
        (if acc.len() > 0 { acc.push('\n') } else { acc }) + part_text(parts.last())
    }
}

/// One message of a replay into scrollback: tool results and assistant
/// messages as in the live transcript (without reasoning), every other
/// message as a content block when its text is not empty, a multimodal
/// message by its summary, as the user's.
pub open spec fn scrollback_step(pending: Seq<Seq<char>>, m: HistoryMessage) -> (Seq<Seq<char>>, Seq<BlockView>) {
    match m {
        HistoryMessage::Tool { tool_use_id, content, is_error } => result_step(
            pending,
            tool_use_id@,
            content@,
            is_error,
        ),
        HistoryMessage::Assistant { cleaned, tool_calls, text_tool_calls, .. } => assistant_step(
            cleaned@,
            tool_calls@,
            text_tool_calls@,
        ),
        HistoryMessage::User { content } => (pending, content_block(MessageSource::User, content@)),
        HistoryMessage::System { content } => (pending, content_block(MessageSource::System, content@)),
        HistoryMessage::Context { content } => (pending, content_block(MessageSource::System, content@)),
        HistoryMessage::Multimodal { parts } => (pending, content_block(MessageSource::User, multimodal_summary(parts@))),
    }
}

/// The blocks of a replay into scrollback.
pub open spec fn scrollback_spec(h: Seq<HistoryMessage>) -> Seq<BlockView> {
    replay(h, false).1
}

/// How many content blocks, each rendered as a stream of its own.
pub open spec fn content_count(b: Seq<BlockView>) -> nat
    decreases b.len(),
{
    if b.len() == 0 {
        0
    } else {
        content_count(b.drop_last()) + if b.last() is Content {
            1nat
        } else {
            0nat
        }
    }
}

pub(crate) proof fn lemma_content_count_add(a: Seq<BlockView>, b: Seq<BlockView>)
    ensures
        content_count(a + b) == content_count(a) + content_count(b),
    decreases b.len(),
{
    if b.len() == 0 {
        assert(a + b =~= a);
    } else {
        lemma_content_count_add(a, b.drop_last());
        assert((a + b).drop_last() =~= a + b.drop_last());
    }
}

fn push_block(out: &mut Vec<TranscriptBlock>, block: TranscriptBlock)
    ensures
        blocks_view(final(out)@) == blocks_view(old(out)@) + seq![block@],
{
    out.push(block);
    proof {
        assert(blocks_view(final(out)@) =~= blocks_view(old(out)@) + seq![block@]);
    }
}

/// Pairs a tool result with the oldest pending call name.
fn push_result(
    pending: &mut Vec<String>,
    out: &mut Vec<TranscriptBlock>,
    tool_use_id: &String,
    content: &String,
    is_error: bool,
)
    ensures
        ({
            let (p, b) = result_step(strings_view(old(pending)@), tool_use_id@, content@, is_error);
            strings_view(final(pending)@) == p && blocks_view(final(out)@) == blocks_view(old(out)@) + b
        }),
{
    let tool_name = if pending.len() > 0 {
        let name = pending.remove(0);
        proof {
            assert(strings_view(pending@) =~= strings_view(old(pending)@).skip(1));
        }
        name
    } else {
        tool_use_id.clone()
    };
    let stripped = strip_llm_hints(content.as_str());
    push_block(out, TranscriptBlock::ToolResult { tool_name, is_error, content: stripped });
}

/// The call blocks of `calls`, appended in order.
fn push_call_blocks(out: &mut Vec<TranscriptBlock>, calls: &Vec<HistoryToolCall>)
    ensures
        blocks_view(final(out)@) == blocks_view(old(out)@) + call_blocks(calls@),
{
    let mut i: usize = 0;
    while i < calls.len()
        invariant
            i <= calls@.len(),
            blocks_view(out@) == blocks_view(old(out)@) + call_blocks(calls@.take(i as int)),
        decreases calls@.len() - i,
    {
        let call = &calls[i];
        let fields = summary_fields_for(call.name.as_str());
        proof {
            assert(strings_view(fields@) =~= summary_fields_spec(call.name@));
        }
        push_block(
            out,
            TranscriptBlock::ToolCall { tool_name: call.name.clone(), arguments: call.input.clone(), summary_fields: fields },
        );
        proof {
            assert(call_blocks(calls@.take(i + 1)) =~= call_blocks(calls@.take(i as int)).push(
                call_blocks(calls@)[i as int],
            ));
        }
        i = i + 1;
    }
    proof {
        assert(calls@.take(calls@.len() as int) =~= calls@);
    }
}

/// The names of `calls`, in order.
fn names_of(calls: &Vec<HistoryToolCall>) -> (names: Vec<String>)
    ensures
        strings_view(names@) == call_names(calls@),
{
    let mut names: Vec<String> = Vec::new();
    let mut i: usize = 0;
    while i < calls.len()
        invariant
            i <= calls@.len(),
            strings_view(names@) == call_names(calls@.take(i as int)),
        decreases calls@.len() - i,
    {
        let name = calls[i].name.clone();
        let ghost prev = names@;
        names.push(name);
        proof {
            assert(name@ == calls@[i as int].name@);
            assert(calls@.take(i + 1).drop_last() =~= calls@.take(i as int));
            assert(names@.drop_last() =~= prev);
            assert(strings_view(names@) =~= strings_view(prev).push(name@));
            assert(call_names(calls@.take(i + 1)) =~= call_names(calls@.take(i as int)).push(calls@[i as int].name@));
        }
        i = i + 1;
    }
    proof {
        assert(calls@.take(calls@.len() as int) =~= calls@);
    }
    names
}

/// The blocks of an assistant message after its reasoning, and the names
/// its tool results will be paired with.
fn push_assistant(
    pending: &mut Vec<String>,
    out: &mut Vec<TranscriptBlock>,
    cleaned: &String,
    tool_calls: &Vec<HistoryToolCall>,
    text_tool_calls: &Vec<HistoryToolCall>,
) -> (text_shown: bool)
    ensures
        ({
            let (p, b) = assistant_step(cleaned@, tool_calls@, text_tool_calls@);
            strings_view(final(pending)@) == p && blocks_view(final(out)@) == blocks_view(old(out)@) + b
                && content_count(b) == if text_shown { 1nat } else { 0nat }
        }),
{
    let shown = if tool_calls.len() > 0 { tool_calls } else { text_tool_calls };
    let ghost before = blocks_view(out@);
    let text_shown = shown.len() == 0 && !cleaned.as_str().is_empty();
    if text_shown {
        push_block(out, TranscriptBlock::Content { source: MessageSource::Assistant, text: cleaned.clone() });
    }
    let ghost mid = blocks_view(out@);
    push_call_blocks(out, shown);
    *pending = names_of(shown);
    proof {
        let (p, b) = assistant_step(cleaned@, tool_calls@, text_tool_calls@);
        let text = if text_shown {
            seq![BlockView::Content { source: MessageSource::Assistant, text: cleaned@ }]
        } else {
            Seq::<BlockView>::empty()
        };
        assert(mid =~= before + text);
        assert(b == text + call_blocks(shown@));
        assert(blocks_view(out@) =~= before + b);
        lemma_content_count_add(text, call_blocks(shown@));
        lemma_no_content(shown@);
        if text_shown {
            assert(text.drop_last() =~= Seq::<BlockView>::empty());
            reveal_with_fuel(content_count, 2);
            assert(content_count(text) == 1);
        } else {
            assert(content_count(text) == 0);
        }
        assert(strings_view(pending@) == p);
    }
    text_shown
}

proof fn lemma_no_content(calls: Seq<HistoryToolCall>)
    ensures
        content_count(call_blocks(calls)) == 0,
    decreases calls.len(),
{
    if calls.len() > 0 {
        lemma_no_content(calls.drop_last());
        assert(call_blocks(calls).drop_last() =~= call_blocks(calls.drop_last()));
    }
}

/// Appends the marker of one image.
fn push_image_marker(out: &mut String, file_name: &Option<String>, mime: &String, byte_count: u64)
    ensures
        final(out)@ == old(out)@ + image_marker(*file_name, mime@, byte_count),
{
    out.append("[Image: ");
    match file_name {
        Some(n) => out.append(n.as_str()),
        None => out.append("(unknown)"),
    }
    out.append(" (");
    push_decimal(out, byte_count);
    out.append(" bytes, ");
    out.append(mime.as_str());
    out.append(")]");
    proof {
        assert(final(out)@ =~= old(out)@ + image_marker(*file_name, mime@, byte_count));
    }
}

/// The text summary of a multimodal message (see `multimodal_summary`).
pub fn summarize_parts(parts: &Vec<ContentPart>) -> (s: String)
    ensures
        s@ == multimodal_summary(parts@),
{
    let mut summary = String::new();
    let mut i: usize = 0;
    proof {
        assert(parts@.take(0) =~= Seq::<ContentPart>::empty());
    }
    while i < parts.len()
        invariant
            i <= parts@.len(),
            summary@ == multimodal_summary(parts@.take(i as int)),
        decreases parts@.len() - i,
    {
        let ghost acc = summary@;
        if !summary.as_str().is_empty() {
            summary.push('\n');
        }
        let ghost sep = summary@;
        match &parts[i] {
            ContentPart::Text { text } => summary.append(text.as_str()),
            ContentPart::Image { file_name, mime, byte_count } => push_image_marker(
                &mut summary,
                file_name,
                mime,
                *byte_count,
            ),
        }
        proof {
            let t = parts@.take(i + 1);
            assert(t.drop_last() =~= parts@.take(i as int));
            assert(t.last() == parts@[i as int]);
            assert(sep == if acc.len() > 0 { acc.push('\n') } else { acc });
            assert(summary@ =~= sep + part_text(parts@[i as int]));
        }
        i = i + 1;
    }
    proof {
        assert(parts@.take(parts@.len() as int) =~= parts@);
    }
    summary
}

/// Replays a saved conversation into the live transcript (see
/// `hydrate_step`): each tool result is named after the oldest call of the
/// assistant message before it that is still unanswered, or after its own
/// call id when none is.
pub fn hydrate_blocks(history: &[HistoryMessage]) -> (blocks: Vec<TranscriptBlock>)
    ensures
        blocks_view(blocks@) == hydrate_spec(history@),
{
    let mut pending: Vec<String> = Vec::new();
    let mut out: Vec<TranscriptBlock> = Vec::new();
    let mut i: usize = 0;
    proof {
        assert(history@.take(0) =~= Seq::<HistoryMessage>::empty());
        assert(strings_view(pending@) =~= Seq::<Seq<char>>::empty());
        assert(blocks_view(out@) =~= Seq::<BlockView>::empty());
    }
    while i < history.len()
        invariant
            i <= history@.len(),
            (strings_view(pending@), blocks_view(out@)) == replay(history@.take(i as int), true),
        decreases history@.len() - i,
    {
        let ghost p0 = strings_view(pending@);
        let ghost b0 = blocks_view(out@);
        match &history[i] {
            HistoryMessage::Tool { tool_use_id, content, is_error } => {
                push_result(&mut pending, &mut out, tool_use_id, content, *is_error);
            },
            HistoryMessage::Assistant { cleaned, tool_calls, text_tool_calls, reasoning } => {
                match reasoning {
                    Some(t) => {
                        let mut text = String::from_str("Thinking: ");
                        text.append(t.as_str());
                        text.push('\n');
                        proof {
                            reveal_strlit("\n");
                            assert(text@ =~= "Thinking: "@ + t@ + "\n"@);
                        }
                        push_block(&mut out, TranscriptBlock::Content { source: MessageSource::Reasoning, text });
                    },
                    None => {},
                }
                let ghost b1 = blocks_view(out@);
                push_assistant(&mut pending, &mut out, cleaned, tool_calls, text_tool_calls);
                proof {
                    assert(b1 == b0 + reasoning_blocks(*reasoning));
                    let (p, b) = assistant_step(cleaned@, tool_calls@, text_tool_calls@);
                    assert(blocks_view(out@) =~= b0 + (reasoning_blocks(*reasoning) + b));
                }
            },
            HistoryMessage::User { content } => {
                push_block(&mut out, TranscriptBlock::Content { source: MessageSource::User, text: content.clone() });
            },
            HistoryMessage::System { content } => {
                if !content.as_str().is_empty() {
                    push_block(&mut out, TranscriptBlock::Content { source: MessageSource::System, text: content.clone() });
                }
                proof {
                    assert(blocks_view(out@) =~= b0 + system_block(content@));
                }
            },
            HistoryMessage::Context { content } => {
                if !content.as_str().is_empty() {
                    push_block(&mut out, TranscriptBlock::Content { source: MessageSource::System, text: content.clone() });
                }
                proof {
                    assert(blocks_view(out@) =~= b0 + system_block(content@));
                }
            },
            HistoryMessage::Multimodal { .. } => {
                proof {
                    assert(blocks_view(out@) =~= b0 + Seq::<BlockView>::empty());
                }
            },
        }
        proof {
            let t = history@.take(i + 1);
            assert(t.drop_last() =~= history@.take(i as int));
            assert(t.last() == history@[i as int]);
            let (p2, b2) = hydrate_step(p0, history@[i as int]);
            assert(blocks_view(out@) == b0 + b2);
        }
        i = i + 1;
    }
    proof {
        assert(history@.take(history@.len() as int) =~= history@);
    }
    out
}

fn push_content(out: &mut Vec<TranscriptBlock>, source: MessageSource, text: String) -> (shown: bool)
    ensures
        blocks_view(final(out)@) == blocks_view(old(out)@) + content_block(source, text@),
        content_count(content_block(source, text@)) == if shown { 1nat } else { 0nat },
        shown == (text@.len() > 0),
{
    reveal_with_fuel(content_count, 2);
    if text.as_str().is_empty() {
        proof {
            assert(blocks_view(out@) =~= blocks_view(old(out)@) + content_block(source, text@));
        }
        false
    } else {
        let ghost t = text@;
        push_block(out, TranscriptBlock::Content { source, text });
        proof {
            assert(content_block(source, t).drop_last() =~= Seq::<BlockView>::empty());
        }
        true
    }
}

/// Replays a saved conversation into scrollback blocks (see
/// `scrollback_step`); each message yields at most one content block.
pub fn scrollback_blocks(history: &[HistoryMessage]) -> (blocks: Vec<TranscriptBlock>)
    ensures
        blocks_view(blocks@) == scrollback_spec(history@),
        content_count(scrollback_spec(history@)) <= history@.len(),
{
    let mut pending: Vec<String> = Vec::new();
    let mut out: Vec<TranscriptBlock> = Vec::new();
    let mut i: usize = 0;
    proof {
        assert(history@.take(0) =~= Seq::<HistoryMessage>::empty());
        assert(strings_view(pending@) =~= Seq::<Seq<char>>::empty());
        assert(blocks_view(out@) =~= Seq::<BlockView>::empty());
    }
    while i < history.len()
        invariant
            i <= history@.len(),
            (strings_view(pending@), blocks_view(out@)) == replay(history@.take(i as int), false),
            content_count(blocks_view(out@)) <= i,
        decreases history@.len() - i,
    {
        let ghost p0 = strings_view(pending@);
        let ghost b0 = blocks_view(out@);
        let shown = match &history[i] {
            HistoryMessage::Tool { tool_use_id, content, is_error } => {
                push_result(&mut pending, &mut out, tool_use_id, content, *is_error);
                proof {
                    let (p, b) = result_step(p0, tool_use_id@, content@, *is_error);
                    reveal_with_fuel(content_count, 2);
                    assert(b.drop_last() =~= Seq::<BlockView>::empty());
                    assert(content_count(b) == 0);
                }
                false
            },
            HistoryMessage::Assistant { cleaned, tool_calls, text_tool_calls, .. } => {
                push_assistant(&mut pending, &mut out, cleaned, tool_calls, text_tool_calls)
            },
            HistoryMessage::User { content } => push_content(&mut out, MessageSource::User, content.clone()),
            HistoryMessage::System { content } => push_content(&mut out, MessageSource::System, content.clone()),
            HistoryMessage::Context { content } => push_content(&mut out, MessageSource::System, content.clone()),
            HistoryMessage::Multimodal { parts } => push_content(&mut out, MessageSource::User, summarize_parts(parts)),
        };
        proof {
            let t = history@.take(i + 1);
            assert(t.drop_last() =~= history@.take(i as int));
            assert(t.last() == history@[i as int]);
            let (p2, b2) = scrollback_step(p0, history@[i as int]);
            assert(blocks_view(out@) == b0 + b2);
            lemma_content_count_add(b0, b2);
            assert(content_count(b2) == if shown { 1nat } else { 0nat });
        }
        i = i + 1;
    }
    proof {
        assert(history@.take(history@.len() as int) =~= history@);
    }
    out
}

fn clone_strings(v: &Vec<String>) -> (r: Vec<String>)
    ensures
        strings_view(r@) == strings_view(v@),
{
    let mut r: Vec<String> = Vec::new();
    let mut i: usize = 0;
    while i < v.len()
        invariant
            i <= v@.len(),
            strings_view(r@) == strings_view(v@.take(i as int)),
        decreases v@.len() - i,
    {
        let ghost prev = r@;
        let s = v[i].clone();
        r.push(s);
        proof {
            assert(strings_view(r@) =~= strings_view(prev).push(s@));
            assert(strings_view(v@.take(i + 1)) =~= strings_view(v@.take(i as int)).push(v@[i as int]@));
        }
        i = i + 1;
    }
    proof {
        assert(v@.take(v@.len() as int) =~= v@);
    }
    r
}

impl TranscriptBlock {
    /// A copy of the block.
    pub fn clone_block(&self) -> (b: TranscriptBlock)
        ensures
            b@ == self@,
    {
        match self {
            TranscriptBlock::Content { source, text } => TranscriptBlock::Content { source: *source, text: text.clone() },
            TranscriptBlock::ToolCall { tool_name, arguments, summary_fields } => TranscriptBlock::ToolCall {
                tool_name: tool_name.clone(),
                arguments: arguments.clone(),
                summary_fields: clone_strings(summary_fields),
            },
            TranscriptBlock::ToolResult { tool_name, is_error, content } => TranscriptBlock::ToolResult {
                tool_name: tool_name.clone(),
                is_error: *is_error,
                content: content.clone(),
            },
        }
    }
}

/// The content blocks among the first `k` blocks are no more than among
/// all of them.
pub(crate) proof fn lemma_content_count_prefix(b: Seq<BlockView>, k: int)
    requires
        0 <= k <= b.len(),
    ensures
        content_count(b.take(k)) <= content_count(b),
{
    lemma_content_count_add(b.take(k), b.skip(k));
    assert(b.take(k) + b.skip(k) =~= b);
}

} // verus!
