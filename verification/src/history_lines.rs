//! Replayed messages as scrollback lines. Each content block is a stream of
//! its own: after the first stream a blank line sets it off, a user stream
//! sits on the input background between blank padding rows, and each line
//! of the text carries the stream prefix — the source's marker (` > `,
//! ` ● `, ` # `, ` ◇ `) on the first line and three spaces on the lines
//! after it. Styling a line's body (markdown) is left to the renderer; tool
//! calls and results stay blocks for the tool display.

use vstd::prelude::*;
use vstd::string::StringExecFns;
use crate::chars::str_chars;
use crate::hydration::{
    blocks_view, content_count, lemma_content_count_prefix, scrollback_blocks, scrollback_spec, BlockView, HistoryMessage, MessageSource,
    TranscriptBlock,
};
use crate::text::{chars_to_string, split_lines, split_lines_nonempty, split_text};

verus! {

/// One prefixed line of a stream: the prefix, the line's text, whether it
/// sits on the input background (user streams), and the source whose
/// marker it opens with (the first line of a stream; `None` for the other
/// lines and the blank rows).
#[derive(Clone, Debug, PartialEq, Eq)]
pub struct HistoryLine {
    pub prefix: String,
    pub body: String,
    pub input_bg: bool,
    pub marker: Option<MessageSource>,
}

/// A row of replayed scrollback: a stream line, or a tool block.
#[derive(Clone, Debug)]
pub enum HistoryRow {
    Line(HistoryLine),
    Block(TranscriptBlock),
}

pub type LineView = (Seq<char>, Seq<char>, bool, Option<MessageSource>);

pub enum RowView {
    Line(LineView),
    Block(BlockView),
}

pub open spec fn line_view(l: HistoryLine) -> LineView {
    (l.prefix@, l.body@, l.input_bg, l.marker)
}

pub open spec fn row_view(r: HistoryRow) -> RowView {
    match r {
        HistoryRow::Line(l) => RowView::Line(line_view(l)),
        HistoryRow::Block(b) => RowView::Block(b@),
    }
}

pub open spec fn rows_view(rows: Seq<HistoryRow>) -> Seq<RowView> {
    rows.map_values(|r: HistoryRow| row_view(r))
}

/// The prefix of line `i` of a stream from `source`.
pub open spec fn stream_prefix(source: MessageSource, i: int) -> Seq<char> {
    if i > 0 {
        "   "@
    } else {
        match source {
            MessageSource::User => " > "@,
            MessageSource::Assistant => " ● "@,
            MessageSource::System => " # "@,
            MessageSource::Reasoning => " ◇ "@,
        }
    }
}

/// The lines of a message's text: split at each newline, a final newline
/// ending the last line rather than opening an empty one.
pub open spec fn body_lines(text: Seq<char>) -> Seq<Seq<char>> {
    if text.len() > 0 && text.last() == '\n' {
        split_lines(text).drop_last()
    } else {
        split_lines(text)
    }
}

pub open spec fn blank(input_bg: bool) -> RowView {
    RowView::Line((Seq::empty(), Seq::empty(), input_bg, None))
}

/// The rows of a message rendered as stream number `index`: a blank line
/// when a stream came before, an input-background blank row opening and
/// closing a user stream, and between them each line of the text with its
/// prefix.
pub open spec fn message_rows(index: int, source: MessageSource, text: Seq<char>) -> Seq<RowView> {
    let user = source == MessageSource::User;
    let lines = body_lines(text);
    (if index > 0 { seq![blank(false)] } else { Seq::empty() }) + (if user { seq![blank(true)] } else { Seq::empty() })
        + Seq::new(
        lines.len(),
        |i: int|
            RowView::Line(
                (stream_prefix(source, i), lines[i], user, if i == 0 { Some(source) } else { None }),
            ),
    ) + (if user { seq![blank(true)] } else { Seq::empty() })
}

/// The rows of replayed blocks whose first stream is number `first`.
pub open spec fn block_rows(blocks: Seq<BlockView>, first: int) -> Seq<RowView>
    decreases blocks.len(),
{
    if blocks.len() == 0 {
        Seq::empty()
    } else {
        let prev = blocks.drop_last();
        block_rows(prev, first) + match blocks.last() {
            BlockView::Content { source, text } => message_rows(first + content_count(prev), source, text),
            b => seq![RowView::Block(b)],
        }
    }
}

fn push_row(rows: &mut Vec<HistoryRow>, r: HistoryRow)
    ensures
        rows_view(final(rows)@) == rows_view(old(rows)@).push(row_view(r)),
{
    rows.push(r);
    proof {
        assert(rows_view(final(rows)@) =~= rows_view(old(rows)@).push(row_view(r)));
    }
}

fn push_blank(rows: &mut Vec<HistoryRow>, input_bg: bool)
    ensures
        rows_view(final(rows)@) == rows_view(old(rows)@).push(blank(input_bg)),
{
    let line = HistoryLine { prefix: String::new(), body: String::new(), input_bg, marker: None };
    proof {
        assert(line.prefix@ =~= Seq::<char>::empty());
        assert(line.body@ =~= Seq::<char>::empty());
    }
    push_row(rows, HistoryRow::Line(line));
}

fn prefix_for(source: MessageSource, i: usize) -> (p: &'static str)
    ensures
        p@ == stream_prefix(source, i as int),
{
    if i > 0 {
        "   "
    } else {
        match source {
            MessageSource::User => " > ",
            MessageSource::Assistant => " ● ",
            MessageSource::System => " # ",
            MessageSource::Reasoning => " ◇ ",
        }
    }
}

/// Renders one message as stream number `*stream_count` (see
/// `message_rows`) and counts the stream.
pub fn render_history_message(stream_count: &mut usize, source: MessageSource, text: &str) -> (rows: Vec<
    HistoryRow,
>)
    requires
        *old(stream_count) < usize::MAX,
    ensures
        rows_view(rows@) == message_rows(*old(stream_count) as int, source, text@),
        *final(stream_count) == *old(stream_count) + 1,
{
    let mut rows: Vec<HistoryRow> = Vec::new();
    append_message(&mut rows, *stream_count, source, text);
    proof {
        assert(rows_view(rows@) =~= message_rows(*old(stream_count) as int, source, text@));
    }
    *stream_count = *stream_count + 1;
    rows
}

fn append_message(rows: &mut Vec<HistoryRow>, index: usize, source: MessageSource, text: &str)
    ensures
        rows_view(final(rows)@) == rows_view(old(rows)@) + message_rows(index as int, source, text@),
{
    let ghost r0 = rows_view(rows@);
    let user = match source {
        MessageSource::User => true,
        _ => false,
    };
    if index > 0 {
        push_blank(rows, false);
    }
    if user {
        push_blank(rows, true);
    }
    let ghost r1 = rows_view(rows@);
    let chars = str_chars(text);
    let parts = split_text(&chars);
    proof {
        split_lines_nonempty(text@);
    }
    let n = if chars.len() > 0 && chars[chars.len() - 1] == '\n' { parts.len() - 1 } else { parts.len() };
    let ghost lines = body_lines(text@);
    proof {
        assert(n == lines.len());
    }
    let mut i: usize = 0;
    while i < n
        invariant
            i <= n,
            n == lines.len(),
            n <= parts@.len(),
            lines == body_lines(text@),
            user == (source == MessageSource::User),
            forall|t: int| 0 <= t < parts@.len() ==> (#[trigger] parts@[t])@ == split_lines(chars@)[t],
            chars@ == text@,
            rows_view(rows@) == r1 + Seq::new(
                i as nat,
                |k: int| RowView::Line((stream_prefix(source, k), lines[k], user, if k == 0 { Some(source) } else { None })),
            ),
        decreases n - i,
    {
        let body = chars_to_string(&parts[i]);
        let marker = if i == 0 { Some(source) } else { None };
        push_row(rows, HistoryRow::Line(HistoryLine { prefix: String::from_str(prefix_for(source, i)), body, input_bg: user, marker }));
        proof {
            let g = |k: int| RowView::Line((stream_prefix(source, k), lines[k], user, if k == 0 { Some(source) } else { None }));
            assert(lines[i as int] == split_lines(chars@)[i as int]);
            assert(Seq::new((i + 1) as nat, g) =~= Seq::new(i as nat, g).push(g(i as int)));
            assert(rows_view(rows@) =~= r1 + Seq::new((i + 1) as nat, g));
        }
        i = i + 1;
    }
    if user {
        push_blank(rows, true);
    }
    proof {
        assert(rows_view(rows@) =~= r0 + message_rows(index as int, source, text@));
    }
}

/// Replays a saved conversation into scrollback rows (see `scrollback_spec`
/// and `block_rows`): every content block becomes a stream, numbered on
/// from `*stream_count`, which counts them.
pub fn render_history_messages(stream_count: &mut usize, history: &[HistoryMessage]) -> (rows: Vec<HistoryRow>)
    requires
        *old(stream_count) + history@.len() <= usize::MAX,
    ensures
        rows_view(rows@) == block_rows(scrollback_spec(history@), *old(stream_count) as int),
        *final(stream_count) == *old(stream_count) + content_count(scrollback_spec(history@)),
{
    let blocks = scrollback_blocks(history);
    let ghost bv = blocks_view(blocks@);
    let ghost start = *stream_count;
    let mut rows: Vec<HistoryRow> = Vec::new();
    let mut i: usize = 0;
    proof {
        assert(bv.take(0) =~= Seq::<BlockView>::empty());
        assert(rows_view(rows@) =~= Seq::<RowView>::empty());
    }
    while i < blocks.len()
        invariant
            i <= blocks@.len(),
            bv == blocks_view(blocks@),
            bv == scrollback_spec(history@),
            content_count(bv) <= history@.len(),
            start + history@.len() <= usize::MAX,
            *stream_count == start + content_count(bv.take(i as int)),
            rows_view(rows@) == block_rows(bv.take(i as int), start as int),
        decreases blocks@.len() - i,
    {
        let ghost prev = bv.take(i as int);
        proof {
            let t = bv.take(i + 1);
            assert(t.drop_last() =~= prev);
            assert(t.last() == bv[i as int]);
            lemma_content_count_prefix(bv, i + 1);
        }
        match &blocks[i] {
            TranscriptBlock::Content { source, text } => {
                append_message(&mut rows, *stream_count, *source, text.as_str());
                *stream_count = *stream_count + 1;
            },
            other => {
                push_row(&mut rows, HistoryRow::Block(other.clone_block()));
            },
        }
        i = i + 1;
    }
    proof {
        assert(bv.take(bv.len() as int) =~= bv);
    }
    rows
}

} // verus!
