//! The transcript's rows at the current width, the scroll window over them,
//! and selections that refer to logical content rather than screen cells.

use vstd::prelude::*;
use crate::composer::sat16;
use crate::width::{cells, char_cells};
use crate::chars::str_chars;
use crate::projection::{RowSpan, StyledChar, base_spans, flatten, row_spans, row_spans_tile_the_line, tiles, ProjectedLineChunk, RowView, chunk_view, line_rows, project_line_chunks};
use crate::style::{HistorySegment, ScrollbackLine, SegStyle, TermColor, segs_text};

verus! {

/// A position in logical content: an entry, one of its logical lines, and a
/// scalar offset in that line.
#[derive(Clone, Copy, Debug, PartialEq, Eq, Structural)]
pub struct LogicalContentAnchor {
    pub entry_id: u64,
    pub logical_line: usize,
    pub scalar_offset: usize,
}

/// One transcript entry, already laid out as logical lines.
#[derive(Clone, Debug)]
pub struct TranscriptEntryLines {
    pub id: u64,
    pub lines: Vec<ScrollbackLine>,
}

/// A projected row of history.
#[derive(Clone, Debug, PartialEq, Eq)]
pub struct RenderedHistoryRow {
    pub start_anchor: LogicalContentAnchor,
    pub end_anchor: LogicalContentAnchor,
    pub is_last_row_of_logical_line: bool,
    pub is_empty_logical_line: bool,
    pub line: ScrollbackLine,
}

/// What a history row stands for: `(entry, logical line, start, end, last
/// row of its line, line empty, row view)`.
pub type HistRowView = (u64, int, int, int, bool, bool, RowView);

/// The view of a rendered row.
pub open spec fn hist_row_view(r: RenderedHistoryRow) -> HistRowView {
    (
        r.start_anchor.entry_id,
        r.start_anchor.logical_line as int,
        r.start_anchor.scalar_offset as int,
        r.end_anchor.scalar_offset as int,
        r.is_last_row_of_logical_line,
        r.is_empty_logical_line,
        (r.start_anchor.scalar_offset as int, r.end_anchor.scalar_offset as int,
            crate::projection::segs_view(r.line.segments@), r.line.bg, r.line.fill),
    )
}

/// A rendered row is well formed: both anchors lie in one logical line and
/// the row's text is the concatenation of its segments.
pub open spec fn row_wf(r: RenderedHistoryRow) -> bool {
    &&& r.end_anchor.entry_id == r.start_anchor.entry_id
    &&& r.end_anchor.logical_line == r.start_anchor.logical_line
    &&& r.line.wf()
}

/// The rows of logical line `li` of entry `id`.
pub open spec fn logical_line_rows(id: u64, li: int, line: ScrollbackLine, width: int) -> Seq<HistRowView> {
    let r = line_rows(line, width);
    Seq::new(
        r.len(),
        |i: int| (id, li, r[i].0, r[i].1, i == r.len() - 1, line.text@.len() == 0, r[i]),
    )
}

/// The rows of the first `k` logical lines of an entry.
pub open spec fn entry_rows(id: u64, lines: Seq<ScrollbackLine>, k: int, width: int) -> Seq<HistRowView>
    decreases k,
{
    if k <= 0 {
        Seq::empty()
    } else {
        entry_rows(id, lines, k - 1, width) + logical_line_rows(id, k - 1, lines[k - 1], width)
    }
}

/// The rows of the first `k` entries of a transcript.
pub open spec fn history_rows(entries: Seq<TranscriptEntryLines>, k: int, width: int) -> Seq<HistRowView>
    decreases k,
{
    if k <= 0 {
        Seq::empty()
    } else {
        history_rows(entries, k - 1, width) + entry_rows(
            entries[k - 1].id,
            entries[k - 1].lines@,
            entries[k - 1].lines@.len() as int,
            width,
        )
    }
}

/// The logical lines of the first `k` logical lines of an entry, as
/// `(entry, line index, text)`.
pub open spec fn entry_texts(id: u64, lines: Seq<ScrollbackLine>, k: int) -> Seq<(u64, int, Seq<char>)>
    decreases k,
{
    if k <= 0 {
        Seq::empty()
    } else {
        entry_texts(id, lines, k - 1).push((id, k - 1, lines[k - 1].text@))
    }
}

/// The logical lines of the first `k` entries.
pub open spec fn history_texts(entries: Seq<TranscriptEntryLines>, k: int) -> Seq<(u64, int, Seq<char>)>
    decreases k,
{
    if k <= 0 {
        Seq::empty()
    } else {
        history_texts(entries, k - 1) + entry_texts(
            entries[k - 1].id,
            entries[k - 1].lines@,
            entries[k - 1].lines@.len() as int,
        )
    }
}

/// Every logical line of every entry is well formed.
pub open spec fn entries_wf(entries: Seq<TranscriptEntryLines>) -> bool {
    forall|e: int, l: int|
        0 <= e < entries.len() && 0 <= l < entries[e].lines@.len() ==> (#[trigger] entries[e].lines@[l]).wf()
}

/// The view of a logical-line record.
pub open spec fn text_view(t: (u64, usize, String)) -> (u64, int, Seq<char>) {
    (t.0, t.1 as int, t.2@)
}

/// The views of a row list.
pub open spec fn rows_view(rows: Seq<RenderedHistoryRow>) -> Seq<HistRowView> {
    rows.map_values(|row: RenderedHistoryRow| hist_row_view(row))
}

/// The views of a logical-line list.
pub open spec fn texts_view(texts: Seq<(u64, usize, String)>) -> Seq<(u64, int, Seq<char>)> {
    texts.map_values(|t: (u64, usize, String)| text_view(t))
}

proof fn lemma_rows_view_push(rows: Seq<RenderedHistoryRow>, x: RenderedHistoryRow)
    ensures
        rows_view(rows.push(x)) == rows_view(rows).push(hist_row_view(x)),
{
    assert(rows_view(rows.push(x)) =~= rows_view(rows).push(hist_row_view(x)));
}

proof fn lemma_texts_view_push(texts: Seq<(u64, usize, String)>, x: (u64, usize, String))
    ensures
        texts_view(texts.push(x)) == texts_view(texts).push(text_view(x)),
{
    assert(texts_view(texts.push(x)) =~= texts_view(texts).push(text_view(x)));
}

/// Projects every logical line of the transcript at `width` cells.
pub fn project_all_history(entries: &Vec<TranscriptEntryLines>, width: u16) -> (r: (
    Vec<RenderedHistoryRow>,
    Vec<(u64, usize, String)>,
))
    requires
        entries_wf(entries@),
    ensures
        rows_view(r.0@) == history_rows(
            entries@,
            entries@.len() as int,
            width as int,
        ),
        forall|i: int| 0 <= i < r.0@.len() ==> row_wf(#[trigger] r.0@[i]),
        texts_view(r.1@) == history_texts(
            entries@,
            entries@.len() as int,
        ),
{
    let mut all: Vec<RenderedHistoryRow> = Vec::new();
    let mut texts: Vec<(u64, usize, String)> = Vec::new();
    let mut e: usize = 0;
    while e < entries.len()
        invariant
            e <= entries@.len(),
            entries_wf(entries@),
            rows_view(all@) == history_rows(
                entries@,
                e as int,
                width as int,
            ),
            forall|i: int| 0 <= i < all@.len() ==> row_wf(#[trigger] all@[i]),
            texts_view(texts@) == history_texts(entries@, e as int),
        decreases entries@.len() - e,
    {
        let entry = &entries[e];
        let ghost base_rows = rows_view(all@);
        let ghost base_texts = texts_view(texts@);
        let mut l: usize = 0;
        while l < entry.lines.len()
            invariant
                e < entries@.len(),
                *entry == entries@[e as int],
                l <= entry.lines@.len(),
                entries_wf(entries@),
                rows_view(all@) == base_rows + entry_rows(
                    entry.id,
                    entry.lines@,
                    l as int,
                    width as int,
                ),
                forall|i: int| 0 <= i < all@.len() ==> row_wf(#[trigger] all@[i]),
                texts_view(texts@) == base_texts + entry_texts(
                    entry.id,
                    entry.lines@,
                    l as int,
                ),
            decreases entry.lines@.len() - l,
        {
            let line = &entry.lines[l];
            proof {
                assert(entries@[e as int].lines@[l as int].wf());
            }
            let chunks = project_line_chunks(line, width);
            let ghost before = rows_view(all@);
            let ghost lr = logical_line_rows(entry.id, l as int, *line, width as int);
            let empty = line.text.as_str().is_empty();
            let count = chunks.len();
            let mut j: usize = 0;
            while j < count
                invariant
                    count == chunks@.len(),
                    j <= count,
                    chunks@.map_values(|c: ProjectedLineChunk| chunk_view(c)) == line_rows(*line, width as int),
                    forall|i: int| 0 <= i < chunks@.len() ==> (#[trigger] chunks@[i]).line.wf(),
                    lr == logical_line_rows(entry.id, l as int, *line, width as int),
                    empty == (line.text@.len() == 0),
                    rows_view(all@) == before + lr.take(j as int),
                    forall|i: int| 0 <= i < all@.len() ==> row_wf(#[trigger] all@[i]),
                decreases count - j,
            {
                let chunk = &chunks[j];
                let ghost prev = all@;
                all.push(RenderedHistoryRow {
                    start_anchor: LogicalContentAnchor {
                        entry_id: entry.id,
                        logical_line: l,
                        scalar_offset: chunk.logical_start,
                    },
                    end_anchor: LogicalContentAnchor {
                        entry_id: entry.id,
                        logical_line: l,
                        scalar_offset: chunk.logical_end,
                    },
                    is_last_row_of_logical_line: j + 1 == count,
                    is_empty_logical_line: empty,
                    line: crate::style::copy_line(&chunk.line),
                });
                proof {
                    assert(chunk_view(chunks@[j as int]) == line_rows(*line, width as int)[j as int]);
                    assert(line_rows(*line, width as int).len() == count);
                    assert(all@.last() == all@[all@.len() - 1]);
                    assert(hist_row_view(all@[all@.len() - 1]) == lr[j as int]);
                    assert(all@ == prev.push(all@[all@.len() - 1]));
                    lemma_rows_view_push(prev, all@[all@.len() - 1]);
                    assert(lr.take(j + 1) =~= lr.take(j as int).push(lr[j as int]));
                    assert(rows_view(all@) =~= before + lr.take(j + 1));
                    assert forall|i: int| 0 <= i < all@.len() implies row_wf(#[trigger] all@[i]) by {
                        if i < prev.len() {
                            assert(all@[i] == prev[i]);
                        }
                    }
                }
                j = j + 1;
            }
            let ghost tprev = texts@;
            texts.push((entry.id, l, line.text.clone()));
            proof {
                assert(texts@ == tprev.push((entry.id, l, line.text)));
                lemma_texts_view_push(tprev, (entry.id, l, line.text));
                assert(text_view((entry.id, l, line.text)) == (entry.id, l as int, entry.lines@[l as int].text@));
                assert(lr.take(count as int) =~= lr);
                assert(entry_rows(entry.id, entry.lines@, l + 1, width as int) == entry_rows(
                    entry.id,
                    entry.lines@,
                    l as int,
                    width as int,
                ) + lr);
                assert(rows_view(all@) =~= base_rows
                    + entry_rows(entry.id, entry.lines@, l + 1, width as int));
                assert(texts_view(texts@) =~= base_texts
                    + entry_texts(entry.id, entry.lines@, l + 1));
            }
            l = l + 1;
        }
        proof {
            assert(rows_view(all@) =~= history_rows(
                entries@,
                e + 1,
                width as int,
            ));
            assert(texts_view(texts@) =~= history_texts(entries@, e + 1));
        }
        e = e + 1;
    }
    (all, texts)
}

/// Does the row hold the anchor? An empty logical line is held by its only
/// row; otherwise a row holds the offsets from its start up to (not
/// including) its end, and the last row of a line also holds the line's end.
pub open spec fn view_contains_anchor(v: HistRowView, a: LogicalContentAnchor) -> bool {
    let (id, li, start, end, is_last, is_empty, _rv) = v;
    if id != a.entry_id || li != a.logical_line {
        false
    } else if start == end {
        is_empty && a.scalar_offset == start
    } else {
        start <= a.scalar_offset && (a.scalar_offset < end || (is_last && a.scalar_offset == end))
    }
}

pub fn row_contains_anchor(row: &RenderedHistoryRow, anchor: LogicalContentAnchor) -> (b: bool)
    ensures
        b == view_contains_anchor(hist_row_view(*row), anchor),
{
    if row.start_anchor.entry_id != anchor.entry_id || row.start_anchor.logical_line != anchor.logical_line {
        return false;
    }
    let start = row.start_anchor.scalar_offset;
    let end = row.end_anchor.scalar_offset;
    if start == end {
        return row.is_empty_logical_line && anchor.scalar_offset == start;
    }
    start <= anchor.scalar_offset && (anchor.scalar_offset < end || (row.is_last_row_of_logical_line
        && anchor.scalar_offset == end))
}

/// How the history window is positioned.
#[derive(Clone, Copy, Debug, PartialEq, Eq, Structural)]
pub enum HistoryScrollMode {
    /// The newest rows are shown.
    FollowTail,
    /// The row holding `anchor` is kept on `screen_row`.
    Anchored { anchor: LogicalContentAnchor, screen_row: u16 },
}

#[derive(Clone, Copy, Debug, PartialEq, Eq, Structural)]
pub struct HistoryScrollState {
    pub mode: HistoryScrollMode,
}

impl HistoryScrollState {
    pub fn follow_tail() -> (s: Self)
        ensures
            s.mode == HistoryScrollMode::FollowTail,
    {
        HistoryScrollState { mode: HistoryScrollMode::FollowTail }
    }

    pub fn anchor(&mut self, anchor: LogicalContentAnchor, screen_row: u16)
        ensures
            final(self).mode == (HistoryScrollMode::Anchored { anchor, screen_row }),
    {
        self.mode = HistoryScrollMode::Anchored { anchor, screen_row };
    }

    pub fn jump_to_end(&mut self)
        ensures
            final(self).mode == HistoryScrollMode::FollowTail,
    {
        *self = Self::follow_tail();
    }
}

/// The first index at or after `i` whose row holds the anchor, or the length.
pub open spec fn first_holding(rows: Seq<HistRowView>, a: LogicalContentAnchor, i: int) -> int
    decreases rows.len() - i,
{
    if i >= rows.len() {
        rows.len() as int
    } else if view_contains_anchor(rows[i], a) {
        i
    } else {
        first_holding(rows, a, i + 1)
    }
}

/// The first index at or after `i` whose row belongs to an entry at or after
/// the anchor's entry, or the length.
pub open spec fn first_entry_at_or_after(rows: Seq<HistRowView>, id: u64, i: int) -> int
    decreases rows.len() - i,
{
    if i >= rows.len() {
        rows.len() as int
    } else if rows[i].0 >= id {
        i
    } else {
        first_entry_at_or_after(rows, id, i + 1)
    }
}

/// The row the window starts at. Following the tail shows the last `height`
/// rows; an anchor keeps its row on `screen_row`, and a vanished anchor falls
/// forward to the first row of the same or a later entry (or the end).
pub open spec fn window_start(rows: Seq<HistRowView>, height: int, mode: HistoryScrollMode) -> int {
    let total = rows.len() as int;
    match mode {
        HistoryScrollMode::FollowTail => if total >= height { total - height } else { 0 },
        HistoryScrollMode::Anchored { anchor, screen_row } => {
            let held = first_holding(rows, anchor, 0);
            let index = if held < total { held } else { first_entry_at_or_after(rows, anchor.entry_id, 0) };
            if index >= screen_row { index - screen_row } else { 0 }
        },
    }
}

proof fn lemma_first_holding(rows: Seq<HistRowView>, a: LogicalContentAnchor, i: int)
    requires
        0 <= i <= rows.len(),
    ensures
        i <= first_holding(rows, a, i) <= rows.len(),
        first_holding(rows, a, i) < rows.len() ==> view_contains_anchor(rows[first_holding(rows, a, i)], a),
        forall|k: int| i <= k < first_holding(rows, a, i) ==> !view_contains_anchor(#[trigger] rows[k], a),
    decreases rows.len() - i,
{
    if i < rows.len() && !view_contains_anchor(rows[i], a) {
        lemma_first_holding(rows, a, i + 1);
    }
}

proof fn lemma_first_entry(rows: Seq<HistRowView>, id: u64, i: int)
    requires
        0 <= i <= rows.len(),
    ensures
        i <= first_entry_at_or_after(rows, id, i) <= rows.len(),
        first_entry_at_or_after(rows, id, i) < rows.len() ==> rows[first_entry_at_or_after(rows, id, i)].0 >= id,
        forall|k: int| i <= k < first_entry_at_or_after(rows, id, i) ==> (#[trigger] rows[k]).0 < id,
    decreases rows.len() - i,
{
    if i < rows.len() && rows[i].0 < id {
        lemma_first_entry(rows, id, i + 1);
    }
}

/// The rows visible at the current scroll position, over all projected rows.
#[derive(Clone, Debug, PartialEq, Eq)]
pub struct HistoryProjection {
    pub rows: Vec<RenderedHistoryRow>,
    pub total_rows: usize,
    pub visible_start: usize,
    pub all_rows: Vec<RenderedHistoryRow>,
    pub logical_lines: Vec<(u64, usize, String)>,
}

/// A copy of a rendered row.
pub fn copy_row(r: &RenderedHistoryRow) -> (c: RenderedHistoryRow)
    ensures
        hist_row_view(c) == hist_row_view(*r),
        row_wf(*r) ==> row_wf(c),
        c.start_anchor == r.start_anchor,
        c.end_anchor == r.end_anchor,
        c.line.text@ == r.line.text@,
{
    RenderedHistoryRow {
        start_anchor: r.start_anchor,
        end_anchor: r.end_anchor,
        is_last_row_of_logical_line: r.is_last_row_of_logical_line,
        is_empty_logical_line: r.is_empty_logical_line,
        line: crate::style::copy_line(&r.line),
    }
}

impl HistoryProjection {
    /// All projected rows.
    pub open spec fn all_view(&self) -> Seq<HistRowView> {
        rows_view(self.all_rows@)
    }

    /// All logical lines.
    pub open spec fn lines_view(&self) -> Seq<(u64, int, Seq<char>)> {
        texts_view(self.logical_lines@)
    }

    /// The projection is consistent: the visible rows are the window of all
    /// rows that starts at `visible_start`.
    pub open spec fn wf(&self) -> bool {
        &&& self.total_rows == self.all_rows@.len()
        &&& self.visible_start <= self.total_rows
        &&& self.visible_start + self.rows@.len() <= self.total_rows
        &&& rows_view(self.rows@) == self.all_view().subrange(
            self.visible_start as int,
            self.visible_start + self.rows@.len(),
        )
        &&& forall|i: int| 0 <= i < self.all_rows@.len() ==> row_wf(#[trigger] self.all_rows@[i])
    }

    /// An empty projection (nothing to show).
    pub fn empty() -> (p: Self)
        ensures
            p.wf(),
            p.rows@.len() == 0,
            p.total_rows == 0,
            p.visible_start == 0,
            p.all_view().len() == 0,
            p.lines_view().len() == 0,
    {
        let p = HistoryProjection {
            rows: Vec::new(),
            total_rows: 0,
            visible_start: 0,
            all_rows: Vec::new(),
            logical_lines: Vec::new(),
        };
        proof {
            assert(rows_view(p.rows@) =~= p.all_view().subrange(0, 0));
        }
        p
    }
}

/// Cuts the visible window out of all projected rows.
pub fn project_viewport(
    all: Vec<RenderedHistoryRow>,
    logical_lines: Vec<(u64, usize, String)>,
    height: u16,
    scroll: &HistoryScrollState,
) -> (p: HistoryProjection)
    requires
        forall|i: int| 0 <= i < all@.len() ==> row_wf(#[trigger] all@[i]),
    ensures
        p.wf(),
        p.all_view() == rows_view(all@),
        p.lines_view() == texts_view(logical_lines@),
        p.visible_start == window_start(rows_view(all@), height as int, scroll.mode),
        p.rows@.len() == (if p.total_rows - p.visible_start >= height {
            height as int
        } else {
            p.total_rows - p.visible_start
        }),
{
    let total_rows = all.len();
    let ghost rv = rows_view(all@);
    let start = match scroll.mode {
        HistoryScrollMode::FollowTail => total_rows.saturating_sub(height as usize),
        HistoryScrollMode::Anchored { anchor, screen_row } => {
            let mut index: usize = 0;
            let mut found = false;
            while index < total_rows && !found
                invariant
                    total_rows == all@.len(),
                    rv == rows_view(all@),
                    index <= total_rows,
                    found ==> index < total_rows && first_holding(rv, anchor, 0) == index,
                    !found ==> first_holding(rv, anchor, 0) == first_holding(rv, anchor, index as int),
                decreases total_rows - index + (if found { 0int } else { 1 }),
            {
                proof {
                    assert(rv[index as int] == hist_row_view(all@[index as int]));
                }
                if row_contains_anchor(&all[index], anchor) {
                    found = true;
                } else {
                    index = index + 1;
                }
            }
            if !found {
                index = 0;
                let mut hit = false;
                while index < total_rows && !hit
                    invariant
                        total_rows == all@.len(),
                        rv == rows_view(all@),
                        index <= total_rows,
                        first_holding(rv, anchor, 0) == total_rows,
                        hit ==> index < total_rows && first_entry_at_or_after(rv, anchor.entry_id, 0) == index,
                        !hit ==> first_entry_at_or_after(rv, anchor.entry_id, 0) == first_entry_at_or_after(
                            rv,
                            anchor.entry_id,
                            index as int,
                        ),
                    decreases total_rows - index + (if hit { 0int } else { 1 }),
                {
                    proof {
                        assert(rv[index as int] == hist_row_view(all@[index as int]));
                    }
                    if all[index].start_anchor.entry_id >= anchor.entry_id {
                        hit = true;
                    } else {
                        index = index + 1;
                    }
                }
            }
            index.saturating_sub(screen_row as usize)
        },
    };
    let end = if total_rows - start < height as usize { total_rows } else { start + height as usize };
    let mut rows: Vec<RenderedHistoryRow> = Vec::new();
    let mut i = start;
    while i < end
        invariant
            start <= i <= end <= total_rows,
            total_rows == all@.len(),
            rv == rows_view(all@),
            rows_view(rows@) == rv.subrange(start as int, i as int),
        decreases end - i,
    {
        let ghost prev = rows@;
        rows.push(copy_row(&all[i]));
        proof {
            lemma_rows_view_push(prev, rows@.last());
            assert(rows@ == prev.push(rows@.last()));
            assert(rv.subrange(start as int, i + 1) =~= rv.subrange(start as int, i as int).push(rv[i as int]));
        }
        i = i + 1;
    }
    HistoryProjection { rows, total_rows, visible_start: start, all_rows: all, logical_lines }
}

/// Keeps the full projection for one transcript revision and width, so that
/// scrolling and viewport changes only cut a new window.
#[derive(Debug)]
pub struct HistoryProjectionCache {
    pub transcript_revision: Option<u64>,
    pub width: u16,
    pub all_rows: Vec<RenderedHistoryRow>,
    pub logical_lines: Vec<(u64, usize, String)>,
    pub rebuilds: usize,
}

impl HistoryProjectionCache {
    /// A cache that holds nothing yet.
    pub fn new() -> (c: Self)
        ensures
            c.transcript_revision.is_none(),
            c.width == 0,
            c.rebuilds == 0,
            c.all_rows@.len() == 0,
            c.logical_lines@.len() == 0,
    {
        HistoryProjectionCache {
            transcript_revision: None,
            width: 0,
            all_rows: Vec::new(),
            logical_lines: Vec::new(),
            rebuilds: 0,
        }
    }

    /// The cache holds the projection of `entries` at its width.
    pub open spec fn holds(&self, entries: Seq<TranscriptEntryLines>) -> bool {
        &&& rows_view(self.all_rows@) == history_rows(entries, entries.len() as int, self.width as int)
        &&& texts_view(self.logical_lines@) == history_texts(entries, entries.len() as int)
        &&& forall|i: int| 0 <= i < self.all_rows@.len() ==> row_wf(#[trigger] self.all_rows@[i])
    }

    /// Projects the transcript (at `revision`) onto a `width` x `height`
    /// window, rebuilding the full projection only when the revision or the
    /// width changed.
    pub fn project(
        &mut self,
        revision: u64,
        entries: &Vec<TranscriptEntryLines>,
        width: u16,
        height: u16,
        scroll: &HistoryScrollState,
    ) -> (p: HistoryProjection)
        requires
            entries_wf(entries@),
            old(self).transcript_revision == Some(revision) && old(self).width == width ==> old(self).holds(entries@),
        ensures
            width == 0 || height == 0 ==> p.rows@.len() == 0 && p.total_rows == 0 && p.visible_start == 0
                && p.all_view().len() == 0 && *final(self) == *old(self),
            width > 0 && height > 0 ==> {
                &&& p.wf()
                &&& p.all_view() == history_rows(entries@, entries@.len() as int, width as int)
                &&& p.lines_view() == history_texts(entries@, entries@.len() as int)
                &&& p.visible_start == window_start(p.all_view(), height as int, scroll.mode)
                &&& final(self).transcript_revision == Some(revision)
                &&& final(self).width == width
                &&& final(self).holds(entries@)
                &&& final(self).rebuilds == (if old(self).transcript_revision == Some(revision)
                    && old(self).width == width {
                    old(self).rebuilds as int
                } else if old(self).rebuilds == usize::MAX {
                    usize::MAX as int
                } else {
                    old(self).rebuilds + 1
                })
            },
    {
        if width == 0 || height == 0 {
            return HistoryProjection::empty();
        }
        let stale = match self.transcript_revision {
            Some(r) => r != revision || self.width != width,
            None => true,
        };
        if stale {
            let (all_rows, logical_lines) = project_all_history(entries, width);
            self.transcript_revision = Some(revision);
            self.width = width;
            self.all_rows = all_rows;
            self.logical_lines = logical_lines;
            self.rebuilds = self.rebuilds.saturating_add(1);
        }
        let mut rows: Vec<RenderedHistoryRow> = Vec::new();
        let mut i: usize = 0;
        while i < self.all_rows.len()
            invariant
                i <= self.all_rows@.len(),
                rows_view(rows@) == rows_view(self.all_rows@.take(i as int)),
                forall|k: int| 0 <= k < rows@.len() ==> row_wf(#[trigger] rows@[k]),
                forall|k: int| 0 <= k < self.all_rows@.len() ==> row_wf(#[trigger] self.all_rows@[k]),
            decreases self.all_rows@.len() - i,
        {
            let ghost prev = rows@;
            rows.push(copy_row(&self.all_rows[i]));
            proof {
                lemma_rows_view_push(prev, rows@.last());
                assert(rows@ == prev.push(rows@.last()));
                assert(rows_view(self.all_rows@.take(i + 1)) =~= rows_view(self.all_rows@.take(i as int)).push(
                    hist_row_view(self.all_rows@[i as int]),
                ));
            }
            i = i + 1;
        }
        let mut lines: Vec<(u64, usize, String)> = Vec::new();
        let mut j: usize = 0;
        while j < self.logical_lines.len()
            invariant
                j <= self.logical_lines@.len(),
                texts_view(lines@) == texts_view(self.logical_lines@.take(j as int)),
            decreases self.logical_lines@.len() - j,
        {
            let (id, li, text) = &self.logical_lines[j];
            let ghost prev = lines@;
            lines.push((*id, *li, text.clone()));
            proof {
                lemma_texts_view_push(prev, lines@.last());
                assert(lines@ == prev.push(lines@.last()));
                assert(texts_view(self.logical_lines@.take(j + 1)) =~= texts_view(self.logical_lines@.take(j as int)).push(
                    text_view(self.logical_lines@[j as int]),
                ));
            }
            j = j + 1;
        }
        proof {
            assert(self.all_rows@.take(i as int) == self.all_rows@);
            assert(self.logical_lines@.take(j as int) == self.logical_lines@);
        }
        project_viewport(rows, lines, height, scroll)
    }
}

/// The page step for `height` rows: one row of overlap, at least one row.
pub open spec fn page_step(height: int) -> int {
    if height >= 2 { height - 1 } else { 1 }
}

impl HistoryProjection {
    /// The anchor at the start of all history.
    pub fn first_anchor(&self) -> (a: Option<LogicalContentAnchor>)
        ensures
            self.all_rows@.len() == 0 ==> a.is_none(),
            self.all_rows@.len() > 0 ==> a == Some(self.all_rows@[0].start_anchor),
    {
        if self.all_rows.len() == 0 {
            None
        } else {
            Some(self.all_rows[0].start_anchor)
        }
    }

    /// The anchor at the start of row `index`.
    pub fn anchor_at(&self, index: usize) -> (a: Option<LogicalContentAnchor>)
        ensures
            index >= self.all_rows@.len() ==> a.is_none(),
            index < self.all_rows@.len() ==> a == Some(self.all_rows@[index as int].start_anchor),
    {
        if index < self.all_rows.len() {
            Some(self.all_rows[index].start_anchor)
        } else {
            None
        }
    }

    /// The anchor one page above the window's top row.
    pub fn page_up(&self, height: u16) -> (a: Option<LogicalContentAnchor>)
        ensures
            ({
                let target = if self.visible_start >= page_step(height as int) {
                    self.visible_start - page_step(height as int)
                } else {
                    0
                };
                &&& target < self.all_rows@.len() ==> a == Some(self.all_rows@[target].start_anchor)
                &&& target >= self.all_rows@.len() ==> a.is_none()
            }),
    {
        let page: usize = if height >= 2 { (height - 1) as usize } else { 1 };
        let target = self.visible_start.saturating_sub(page);
        self.anchor_at(target)
    }

    /// The anchor one page below the window's top row, never past the last
    /// full window.
    pub fn page_down(&self, height: u16) -> (a: Option<LogicalContentAnchor>)
        ensures
            ({
                let max_start = if self.total_rows >= height { self.total_rows - height } else { 0 };
                let next = self.visible_start + page_step(height as int);
                let target = if next <= max_start { next } else { max_start };
                &&& target < self.all_rows@.len() ==> a == Some(self.all_rows@[target].start_anchor)
                &&& target >= self.all_rows@.len() ==> a.is_none()
            }),
    {
        let page: usize = if height >= 2 { (height - 1) as usize } else { 1 };
        let max_start = self.total_rows.saturating_sub(height as usize);
        let target = if max_start >= page && self.visible_start <= max_start - page {
            self.visible_start + page
        } else {
            max_start
        };
        self.anchor_at(target)
    }

    /// Whether paging down reaches the last full window.
    pub fn page_down_reaches_tail(&self, height: u16) -> (b: bool)
        ensures
            b == (if self.visible_start + page_step(height as int) > usize::MAX {
                usize::MAX as int
            } else {
                self.visible_start + page_step(height as int)
            } >= (if self.total_rows >= height { self.total_rows - height } else { 0 })),
    {
        let page: usize = if height >= 2 { (height - 1) as usize } else { 1 };
        self.visible_start.saturating_add(page) >= self.total_rows.saturating_sub(height as usize)
    }
}

/// Display column reached after the first `i` characters (saturating at
/// `u16::MAX`).
pub open spec fn col_before(chars: Seq<char>, i: int) -> int
    decreases i,
{
    if i <= 0 {
        0
    } else {
        sat16(col_before(chars, i - 1) + cells(chars[i - 1]))
    }
}

/// Does character `i` cover display cell `target`?
pub open spec fn covers_cell(chars: Seq<char>, i: int, target: int) -> bool {
    cells(chars[i]) > 0 && target < sat16(col_before(chars, i) + cells(chars[i]))
}

/// The first character at or after `i` that covers `target`, or the length.
pub open spec fn first_cover(chars: Seq<char>, target: int, i: int) -> int
    decreases chars.len() - i,
{
    if i >= chars.len() {
        chars.len() as int
    } else if covers_cell(chars, i, target) {
        i
    } else {
        first_cover(chars, target, i + 1)
    }
}

/// The first character at or after `i` with a non-zero width, or the length.
pub open spec fn next_visible(chars: Seq<char>, i: int) -> int
    decreases chars.len() - i,
{
    if i >= chars.len() {
        chars.len() as int
    } else if cells(chars[i]) != 0 {
        i
    } else {
        next_visible(chars, i + 1)
    }
}

/// The scalars under display cell `target`: the covering scalar together
/// with the zero-width scalars (such as combining marks) that follow it.
pub open spec fn span_at_cell(chars: Seq<char>, target: int) -> (int, int) {
    let i = first_cover(chars, target, 0);
    if i >= chars.len() {
        (chars.len() as int, chars.len() as int)
    } else {
        (i, next_visible(chars, i + 1))
    }
}

pub fn scalar_span_at_display_cell(text: &str, target: u16) -> (r: (usize, usize))
    ensures
        (r.0 as int, r.1 as int) == span_at_cell(text@, target as int),
{
    let chars = str_chars(text);
    let ghost cs = chars@;
    let mut column: u16 = 0;
    let mut index: usize = 0;
    while index < chars.len()
        invariant
            cs == chars@,
            cs == text@,
            index <= cs.len(),
            column == col_before(cs, index as int),
            first_cover(cs, target as int, 0) == first_cover(cs, target as int, index as int),
        decreases cs.len() - index,
    {
        let w = char_cells(chars[index]) as u16;
        if w != 0 && target < column.saturating_add(w) {
            let mut end = index + 1;
            while end < chars.len() && char_cells(chars[end]) == 0
                invariant
                    cs == chars@,
                    index < end <= cs.len(),
                    next_visible(cs, index + 1) == next_visible(cs, end as int),
                decreases cs.len() - end,
            {
                end = end + 1;
            }
            return (index, end);
        }
        column = column.saturating_add(w);
        index = index + 1;
    }
    (chars.len(), chars.len())
}

/// Display width of the first `scalar` characters, saturating at the
/// largest `usize`.
pub open spec fn cells_prefix(chars: Seq<char>, k: int) -> int
    decreases k,
{
    if k <= 0 {
        0
    } else {
        let c = cells_prefix(chars, k - 1) + cells(chars[k - 1]);
        if c > usize::MAX { usize::MAX as int } else { c }
    }
}

pub fn display_column_for_scalar(text: &str, scalar: usize) -> (c: usize)
    ensures
        c == cells_prefix(text@, if scalar < text@.len() { scalar as int } else { text@.len() as int }),
{
    let chars = str_chars(text);
    let limit = if scalar < chars.len() { scalar } else { chars.len() };
    let mut column: usize = 0;
    let mut i: usize = 0;
    while i < limit
        invariant
            chars@ == text@,
            limit <= chars@.len(),
            i <= limit,
            column == cells_prefix(chars@, i as int),
        decreases limit - i,
    {
        column = column.saturating_add(char_cells(chars[i]));
        i = i + 1;
    }
    column
}

/// The characters with index in `[first, end)`.
pub open spec fn scalar_range(chars: Seq<char>, first: int, end: int) -> Seq<char> {
    let lo = if first < chars.len() { first } else { chars.len() as int };
    let hi = if end < chars.len() { end } else { chars.len() as int };
    if lo < hi {
        chars.subrange(lo, hi)
    } else {
        Seq::empty()
    }
}

pub fn select_scalar_range(text: &str, first: usize, end: usize) -> (s: String)
    ensures
        s@ == scalar_range(text@, first as int, end as int),
{
    let chars = str_chars(text);
    let lo = if first < chars.len() { first } else { chars.len() };
    let hi = if end < chars.len() { end } else { chars.len() };
    let mut out = String::new();
    let mut i = lo;
    while i < hi
        invariant
            chars@ == text@,
            lo <= i,
            i <= hi || hi < lo,
            hi <= chars@.len(),
            out@ == chars@.subrange(lo as int, if i <= hi { i as int } else { lo as int }),
        decreases hi - i,
    {
        out.push(chars[i]);
        i = i + 1;
        proof {
            assert(out@ =~= chars@.subrange(lo as int, i as int));
        }
    }
    proof {
        if lo < hi {
            assert(out@ =~= chars@.subrange(lo as int, hi as int));
        } else {
            assert(out@ =~= Seq::<char>::empty());
        }
    }
    out
}

/// A selection endpoint: a logical anchor and the end of the scalar span
/// under the pointer.
#[derive(Clone, Copy, Debug, PartialEq, Eq, Structural)]
pub struct HistorySelectionPoint {
    pub anchor: LogicalContentAnchor,
    pub scalar_end: usize,
}

/// Lexicographic order on `(entry, logical line, offset)` keys.
pub open spec fn key_le(a: (u64, usize, usize), b: (u64, usize, usize)) -> bool {
    a.0 < b.0 || (a.0 == b.0 && (a.1 < b.1 || (a.1 == b.1 && a.2 <= b.2)))
}

/// Lexicographic order on `(entry, logical line)` keys.
pub open spec fn line_key_lt(a: (u64, int), b: (u64, int)) -> bool {
    a.0 < b.0 || (a.0 == b.0 && a.1 < b.1)
}

impl HistorySelectionPoint {
    pub open spec fn key(self) -> (u64, usize, usize) {
        (self.anchor.entry_id, self.anchor.logical_line, self.anchor.scalar_offset)
    }

    pub open spec fn line_key(self) -> (u64, int) {
        (self.anchor.entry_id, self.anchor.logical_line as int)
    }

    pub fn order_key(self) -> (k: (u64, usize, usize))
        ensures
            k == self.key(),
    {
        (self.anchor.entry_id, self.anchor.logical_line, self.anchor.scalar_offset)
    }
}

fn key_le_exec(a: (u64, usize, usize), b: (u64, usize, usize)) -> (r: bool)
    ensures
        r == key_le(a, b),
{
    a.0 < b.0 || (a.0 == b.0 && (a.1 < b.1 || (a.1 == b.1 && a.2 <= b.2)))
}

fn line_key_lt_exec(a: (u64, usize), b: (u64, usize)) -> (r: bool)
    ensures
        r == line_key_lt((a.0, a.1 as int), (b.0, b.1 as int)),
{
    a.0 < b.0 || (a.0 == b.0 && a.1 < b.1)
}

/// The endpoints in document order.
pub open spec fn ordered(s: HistorySelectionPoint, e: HistorySelectionPoint) -> (HistorySelectionPoint, HistorySelectionPoint) {
    if key_le(s.key(), e.key()) { (s, e) } else { (e, s) }
}

/// The selected part of each logical line between the two ordered endpoints.
pub open spec fn selection_lines(
    texts: Seq<(u64, int, Seq<char>)>,
    s: HistorySelectionPoint,
    e: HistorySelectionPoint,
) -> Seq<Seq<char>>
    decreases texts.len(),
{
    if texts.len() == 0 {
        Seq::empty()
    } else {
        let prev = selection_lines(texts.drop_last(), s, e);
        let (id, li, text) = texts.last();
        let key = (id, li);
        if line_key_lt(key, s.line_key()) || line_key_lt(e.line_key(), key) {
            prev
        } else {
            let first = if key == s.line_key() { s.anchor.scalar_offset as int } else { 0 };
            let last = if key == e.line_key() { e.scalar_end as int } else { text.len() as int };
            prev.push(scalar_range(text, first, last))
        }
    }
}

/// Lines joined with newlines.
pub open spec fn join_lines(lines: Seq<Seq<char>>) -> Seq<char>
    decreases lines.len(),
{
    if lines.len() == 0 {
        Seq::empty()
    } else if lines.len() == 1 {
        lines[0]
    } else {
        join_lines(lines.drop_last()) + seq!['\n'] + lines.last()
    }
}

impl HistoryProjection {
    /// The logical point under display cell `column` of row `row_index`, if
    /// that cell shows content of the row's logical span.
    pub fn selection_point(&self, row_index: usize, column: u16) -> (p: Option<HistorySelectionPoint>)
        ensures
            row_index >= self.all_rows@.len() ==> p.is_none(),
            row_index < self.all_rows@.len() ==> ({
                let row = self.all_rows@[row_index as int];
                let (s0, s1) = span_at_cell(segs_text(row.line.segments@), column as int);
                let len = if row.end_anchor.scalar_offset >= row.start_anchor.scalar_offset {
                    row.end_anchor.scalar_offset - row.start_anchor.scalar_offset
                } else {
                    0
                };
                let base = row.start_anchor.scalar_offset as int;
                &&& (s0 > len || s1 > len) ==> p.is_none()
                &&& !(s0 > len || s1 > len) ==> p == Some(HistorySelectionPoint {
                    anchor: LogicalContentAnchor {
                        entry_id: row.start_anchor.entry_id,
                        logical_line: row.start_anchor.logical_line,
                        scalar_offset: (if base + s0 > usize::MAX {
                            usize::MAX as int
                        } else {
                            base + s0
                        }) as usize,
                    },
                    scalar_end: (if base + s1 > usize::MAX { usize::MAX as int } else { base + s1 }) as usize,
                })
            }),
    {
        if row_index >= self.all_rows.len() {
            return None;
        }
        let row = &self.all_rows[row_index];
        let rendered = crate::style::concat_segments(&row.line.segments);
        let (scalar_start, scalar_end) = scalar_span_at_display_cell(rendered.as_str(), column);
        let semantic_len = row.end_anchor.scalar_offset.saturating_sub(row.start_anchor.scalar_offset);
        if scalar_start > semantic_len || scalar_end > semantic_len {
            return None;
        }
        Some(HistorySelectionPoint {
            anchor: LogicalContentAnchor {
                entry_id: row.start_anchor.entry_id,
                logical_line: row.start_anchor.logical_line,
                scalar_offset: row.start_anchor.scalar_offset.saturating_add(scalar_start),
            },
            scalar_end: row.start_anchor.scalar_offset.saturating_add(scalar_end),
        })
    }

    /// The logical text between two selection points, one line per logical
    /// line, regardless of wrapping or scrolling.
    pub fn selected_text(&self, start: HistorySelectionPoint, end: HistorySelectionPoint) -> (t: String)
        ensures
            t@ == join_lines(selection_lines(self.lines_view(), ordered(start, end).0, ordered(start, end).1)),
    {
        let (s, e) = if key_le_exec(start.order_key(), end.order_key()) { (start, end) } else { (end, start) };
        let ghost tv = self.lines_view();
        let mut out = String::new();
        let mut count: usize = 0;
        let mut i: usize = 0;
        while i < self.logical_lines.len()
            invariant
                i <= self.logical_lines@.len(),
                tv == self.lines_view(),
                (s, e) == ordered(start, end),
                count == selection_lines(tv.take(i as int), s, e).len(),
                out@ == join_lines(selection_lines(tv.take(i as int), s, e)),
                count <= i,
            decreases self.logical_lines@.len() - i,
        {
            let (id, li, text) = &self.logical_lines[i];
            let ghost prefix = tv.take(i as int);
            proof {
                assert(tv.take(i + 1).drop_last() == prefix);
                assert(tv.take(i + 1).last() == text_view(self.logical_lines@[i as int]));
            }
            let key = (*id, *li);
            let start_key = (s.anchor.entry_id, s.anchor.logical_line);
            let end_key = (e.anchor.entry_id, e.anchor.logical_line);
            if !(line_key_lt_exec(key, start_key) || line_key_lt_exec(end_key, key)) {
                let first = if key.0 == start_key.0 && key.1 == start_key.1 { s.anchor.scalar_offset } else { 0 };
                let last = if key.0 == end_key.0 && key.1 == end_key.1 {
                    e.scalar_end
                } else {
                    crate::chars::char_count(text.as_str())
                };
                let piece = select_scalar_range(text.as_str(), first, last);
                let ghost lines_before = selection_lines(prefix, s, e);
                if count > 0 {
                    out.push('\n');
                }
                out.append(piece.as_str());
                proof {
                    let lines_after = lines_before.push(piece@);
                    assert(lines_after.drop_last() == lines_before);
                    if lines_before.len() == 0 {
                        assert(out@ =~= piece@);
                    } else {
                        assert(out@ =~= join_lines(lines_before) + seq!['\n'] + piece@);
                    }
                }
                count = count + 1;
            }
            i = i + 1;
        }
        proof {
            assert(tv.take(i as int) == tv);
        }
        out
    }
}

pub open spec fn sat_usize(x: int) -> int {
    if x > usize::MAX { usize::MAX as int } else { x }
}

pub open spec fn sat_sub_int(a: int, b: int) -> int {
    if a >= b { a - b } else { 0 }
}

pub open spec fn min_of(a: int, b: int) -> int {
    if a <= b { a } else { b }
}

/// The selected columns of row `index`, if the selection touches it:
/// `(row number including prefix rows, first column, last column)`.
pub open spec fn sel_row(
    row: RenderedHistoryRow,
    index: int,
    s: HistorySelectionPoint,
    e: HistorySelectionPoint,
    prefix_rows: int,
    width: int,
) -> Option<(int, int, int)> {
    let key = (row.start_anchor.entry_id, row.start_anchor.logical_line as int);
    let row_start = row.start_anchor.scalar_offset as int;
    let row_end = row.end_anchor.scalar_offset as int;
    let text = segs_text(row.line.segments@);
    let sel_start = if key == s.line_key() { (if s.anchor.scalar_offset >= row_start { s.anchor.scalar_offset as int } else { row_start }) } else { row_start };
    let sel_end = if key == e.line_key() { min_of(e.scalar_end as int, row_end) } else { row_end };
    if line_key_lt(key, s.line_key()) || line_key_lt(e.line_key(), key) || sel_start >= sel_end {
        None
    } else {
        let start_col = if key == s.line_key() {
            cells_prefix(text, min_of(sel_start - row_start, text.len() as int))
        } else {
            0
        };
        let end_col = if key == e.line_key() {
            sat_sub_int(cells_prefix(text, min_of(sel_end - row_start, text.len() as int)), 1)
        } else {
            sat_sub_int(width, 1)
        };
        Some((sat_usize(prefix_rows + index), start_col, end_col))
    }
}

/// The selected rows among the first `k` rows, in order.
pub open spec fn sel_rows(
    rows: Seq<RenderedHistoryRow>,
    k: int,
    s: HistorySelectionPoint,
    e: HistorySelectionPoint,
    prefix_rows: int,
    width: int,
) -> Seq<(int, int, int)>
    decreases k,
{
    if k <= 0 {
        Seq::empty()
    } else {
        let prev = sel_rows(rows, k - 1, s, e, prefix_rows, width);
        match sel_row(rows[k - 1], k - 1, s, e, prefix_rows, width) {
            Some(r) => prev.push(r),
            None => prev,
        }
    }
}

/// The rows of `sel` whose row number lies in `[lo, hi)`.
pub open spec fn rows_in(sel: Seq<(int, int, int)>, lo: int, hi: int) -> Seq<(int, int, int)> {
    sel.filter(|r: (int, int, int)| lo <= r.0 && r.0 < hi)
}

/// The on-screen highlight of a selection: the first and last selected
/// cells that are inside the window starting at row `frame_start`. A row cut
/// off by the window edge is highlighted to its edge.
pub open spec fn visible_selection_spec(
    all: Seq<RenderedHistoryRow>,
    start: HistorySelectionPoint,
    end: HistorySelectionPoint,
    frame_start: int,
    prefix_rows: int,
    area: crate::layout::Rect,
) -> Option<((u16, u16), (u16, u16))> {
    let (s, e) = ordered(start, end);
    let sel = sel_rows(all, all.len() as int, s, e, prefix_rows, area.width as int);
    let vis = rows_in(sel, frame_start, sat_usize(frame_start + area.height));
    if area.width == 0 || area.height == 0 || sel.len() == 0 || vis.len() == 0 {
        None
    } else {
        let first = vis[0];
        let last = vis.last();
        let start_col = if first.0 == sel[0].0 { first.1 } else { 0 };
        let end_col = if last.0 == sel.last().0 { last.2 } else { area.width - 1 };
        let to_col = |col: int| sat16(area.x + min_of(col, area.width - 1)) as u16;
        let to_row = |row: int| sat16(area.y + (row - frame_start)) as u16;
        Some(((to_col(start_col), to_row(first.0)), (to_col(end_col), to_row(last.0))))
    }
}

impl HistoryProjection {
    /// Projects a logical selection onto the currently rendered frame.
    ///
    /// Logical anchors outlive wrapping and scrolling, so the highlight is
    /// derived from the current row projection. Rows outside the viewport are
    /// clipped while preserving the full-row span between the endpoints.
    pub fn visible_selection(
        &self,
        start: HistorySelectionPoint,
        end: HistorySelectionPoint,
        frame_start: usize,
        prefix_rows: usize,
        area: crate::layout::Rect,
    ) -> (r: Option<((u16, u16), (u16, u16))>)
        ensures
            r == visible_selection_spec(self.all_rows@, start, end, frame_start as int, prefix_rows as int, area),
    {
        if area.width == 0 || area.height == 0 {
            return None;
        }
        let (s, e) = if key_le_exec(start.order_key(), end.order_key()) { (start, end) } else { (end, start) };
        let ghost all = self.all_rows@;
        let start_key = (s.anchor.entry_id, s.anchor.logical_line);
        let end_key = (e.anchor.entry_id, e.anchor.logical_line);
        let mut selected: Vec<(usize, usize, usize)> = Vec::new();
        let mut i: usize = 0;
        while i < self.all_rows.len()
            invariant
                all == self.all_rows@,
                i <= all.len(),
                area.width > 0,
                (s, e) == ordered(start, end),
                start_key == (s.anchor.entry_id, s.anchor.logical_line),
                end_key == (e.anchor.entry_id, e.anchor.logical_line),
                selected@.map_values(|t: (usize, usize, usize)| (t.0 as int, t.1 as int, t.2 as int))
                    == sel_rows(all, i as int, s, e, prefix_rows as int, area.width as int),
            decreases all.len() - i,
        {
            let row = &self.all_rows[i];
            let key = (row.start_anchor.entry_id, row.start_anchor.logical_line);
            let ghost prev = selected@;
            if !(line_key_lt_exec(key, start_key) || line_key_lt_exec(end_key, key)) {
                let row_start = row.start_anchor.scalar_offset;
                let row_end = row.end_anchor.scalar_offset;
                let is_start = key.0 == start_key.0 && key.1 == start_key.1;
                let is_end = key.0 == end_key.0 && key.1 == end_key.1;
                let selected_start = if is_start && s.anchor.scalar_offset >= row_start { s.anchor.scalar_offset } else { row_start };
                let selected_end = if is_end && e.scalar_end < row_end { e.scalar_end } else { row_end };
                if selected_start < selected_end {
                    let rendered = crate::style::concat_segments(&row.line.segments);
                    let start_col = if is_start {
                        display_column_for_scalar(rendered.as_str(), selected_start - row_start)
                    } else {
                        0
                    };
                    let end_col = if is_end {
                        display_column_for_scalar(rendered.as_str(), selected_end - row_start).saturating_sub(1)
                    } else {
                        (area.width - 1) as usize
                    };
                    selected.push((prefix_rows.saturating_add(i), start_col, end_col));
                    proof {
                        assert(selected@.map_values(|t: (usize, usize, usize)| (t.0 as int, t.1 as int, t.2 as int))
                            =~= prev.map_values(|t: (usize, usize, usize)| (t.0 as int, t.1 as int, t.2 as int)).push(
                            sel_row(all[i as int], i as int, s, e, prefix_rows as int, area.width as int)->0,
                        ));
                    }
                }
            }
            i = i + 1;
        }
        let ghost sel = sel_rows(all, all.len() as int, s, e, prefix_rows as int, area.width as int);
        proof {
            assert(all.take(all.len() as int) == all);
        }
        if selected.len() == 0 {
            return None;
        }
        let first_selected = selected[0].0;
        let last_selected = selected[selected.len() - 1].0;
        let visible_end = frame_start.saturating_add(area.height as usize);
        let mut visible: Vec<(usize, usize, usize)> = Vec::new();
        let mut j: usize = 0;
        while j < selected.len()
            invariant
                j <= selected@.len(),
                selected@.map_values(|t: (usize, usize, usize)| (t.0 as int, t.1 as int, t.2 as int)) == sel,
                visible_end == sat_usize(frame_start + area.height),
                forall|k: int| 0 <= k < visible@.len() ==> frame_start <= (#[trigger] visible@[k]).0 < visible_end,
                visible@.map_values(|t: (usize, usize, usize)| (t.0 as int, t.1 as int, t.2 as int)) == rows_in(
                    sel.take(j as int),
                    frame_start as int,
                    visible_end as int,
                ),
            decreases selected@.len() - j,
        {
            let item = selected[j];
            let ghost prev = visible@;
            proof {
                assert(sel.take(j + 1).drop_last() == sel.take(j as int));
                assert(sel.take(j + 1).last() == (item.0 as int, item.1 as int, item.2 as int));
                reveal(Seq::filter);
            }
            if item.0 >= frame_start && item.0 < visible_end {
                visible.push(item);
                proof {
                    assert(visible@.map_values(|t: (usize, usize, usize)| (t.0 as int, t.1 as int, t.2 as int))
                        =~= prev.map_values(|t: (usize, usize, usize)| (t.0 as int, t.1 as int, t.2 as int)).push(
                        (item.0 as int, item.1 as int, item.2 as int),
                    ));
                }
            }
            j = j + 1;
        }
        proof {
            assert(sel.take(j as int) == sel);
        }
        if visible.len() == 0 {
            return None;
        }
        let first = visible[0];
        let last = visible[visible.len() - 1];
        let start_col = if first.0 == first_selected { first.1 } else { 0 };
        let end_col = if last.0 == last_selected { last.2 } else { (area.width - 1) as usize };
        let max_col = (area.width - 1) as usize;
        let sc = if start_col < max_col { start_col } else { max_col };
        let ec = if end_col < max_col { end_col } else { max_col };
        let first_row = (first.0 - frame_start) as u16;
        let last_row = (last.0 - frame_start) as u16;
        Some((
            (area.x.saturating_add(sc as u16), area.y.saturating_add(first_row)),
            (area.x.saturating_add(ec as u16), area.y.saturating_add(last_row)),
        ))
    }
}

proof fn lemma_first_holding_prefix(a: Seq<HistRowView>, b: Seq<HistRowView>, x: LogicalContentAnchor, i: int)
    requires
        0 <= i <= a.len(),
        first_holding(a, x, i) < a.len(),
    ensures
        first_holding(a + b, x, i) == first_holding(a, x, i),
    decreases a.len() - i,
{
    assert((a + b)[i] == a[i]);
    if !view_contains_anchor(a[i], x) {
        lemma_first_holding_prefix(a, b, x, i + 1);
    }
}

/// Content appended after an anchored position does not move the window:
/// when the anchor is held by one of the existing rows, adding rows after
/// them leaves the window's first row unchanged.
pub proof fn appended_rows_keep_anchored_window(
    rows: Seq<HistRowView>,
    appended: Seq<HistRowView>,
    height: u16,
    anchor: LogicalContentAnchor,
    screen_row: u16,
)
    requires
        first_holding(rows, anchor, 0) < rows.len(),
    ensures
        window_start(rows + appended, height as int, HistoryScrollMode::Anchored { anchor, screen_row })
            == window_start(rows, height as int, HistoryScrollMode::Anchored { anchor, screen_row }),
{
    lemma_first_holding_prefix(rows, appended, anchor, 0);
}

/// An anchored window keeps the anchor on its screen row: when a row holds
/// the anchor and there are at least `screen_row` rows above it, that row is
/// shown exactly `screen_row` rows below the window's top.
pub proof fn anchored_window_shows_anchor_on_its_row(
    rows: Seq<HistRowView>,
    height: u16,
    anchor: LogicalContentAnchor,
    screen_row: u16,
)
    requires
        first_holding(rows, anchor, 0) < rows.len(),
        first_holding(rows, anchor, 0) >= screen_row,
    ensures
        ({
            let start = window_start(rows, height as int, HistoryScrollMode::Anchored { anchor, screen_row });
            &&& start + screen_row < rows.len()
            &&& view_contains_anchor(rows[start + screen_row], anchor)
            &&& forall|k: int| 0 <= k < start + screen_row ==> !view_contains_anchor(#[trigger] rows[k], anchor)
        }),
{
    lemma_first_holding(rows, anchor, 0);
}

/// Following the tail shows the last `height` rows (or all of them).
pub proof fn follow_tail_shows_the_newest_rows(rows: Seq<HistRowView>, height: u16)
    ensures
        window_start(rows, height as int, HistoryScrollMode::FollowTail) + min_of(height as int, rows.len() as int)
            == rows.len(),
{
}

proof fn lemma_tiles_ordered(rows: Seq<RowSpan>, end: int, f: Seq<StyledChar>, cap: int, i: int, j: int)
    requires
        tiles(rows, end, f, cap),
        0 <= i < j < rows.len(),
    ensures
        rows[i].1 <= rows[j].0,
    decreases j - i,
{
    if j > i + 1 {
        lemma_tiles_ordered(rows, end, f, cap, i, j - 1);
        assert(rows[j - 1].1 == rows[j].0);
        assert(rows[j - 1].0 < rows[j - 1].1);
    } else {
        assert(rows[i].1 == rows[i + 1].0);
    }
}

proof fn lemma_tiles_find(rows: Seq<RowSpan>, end: int, f: Seq<StyledChar>, cap: int, o: int, k: int) -> (r: int)
    requires
        tiles(rows, end, f, cap),
        0 <= k < rows.len(),
        rows[k].0 <= o < end,
    ensures
        k <= r < rows.len(),
        rows[r].0 <= o < rows[r].1,
    decreases rows.len() - k,
{
    if o < rows[k].1 {
        k
    } else {
        if k == rows.len() - 1 {
            assert(rows.last().1 == end);
            assert(false);
        }
        assert(rows[k].1 == rows[k + 1].0);
        lemma_tiles_find(rows, end, f, cap, o, k + 1)
    }
}

proof fn lemma_flatten_len(segs: Seq<HistorySegment>)
    ensures
        flatten(segs).len() == segs_text(segs).len(),
    decreases segs.len(),
{
    if segs.len() > 0 {
        lemma_flatten_len(segs.drop_last());
    }
}

/// Every scalar offset of a logical line, from its start to its end, is held
/// by exactly one of the line's rows at any width. This is what lets a
/// logical scroll anchor or selection endpoint survive resizing: at every
/// width there is one row to resolve it to.
pub proof fn every_offset_is_held_by_exactly_one_row(
    id: u64,
    li: usize,
    line: ScrollbackLine,
    width: u16,
    offset: usize,
)
    requires
        line.wf(),
        offset <= line.text@.len(),
    ensures
        ({
            let rows = logical_line_rows(id, li as int, line, width as int);
            let a = LogicalContentAnchor { entry_id: id, logical_line: li, scalar_offset: offset };
            &&& exists|k: int| 0 <= k < rows.len() && view_contains_anchor(#[trigger] rows[k], a)
            &&& forall|k1: int, k2: int|
                0 <= k1 < rows.len() && 0 <= k2 < rows.len() && view_contains_anchor(#[trigger] rows[k1], a)
                    && view_contains_anchor(#[trigger] rows[k2], a) ==> k1 == k2
        }),
{
    let f = flatten(line.segments@);
    let n = f.len() as int;
    let cap = width as int;
    lemma_flatten_len(line.segments@);
    let spans = row_spans(f, cap);
    row_spans_tile_the_line(line, width);
    let rows = logical_line_rows(id, li as int, line, cap);
    let a = LogicalContentAnchor { entry_id: id, logical_line: li, scalar_offset: offset };
    let lr = line_rows(line, cap);
    if spans.len() == 0 {
        assert(n == 0);
        if line.fill.is_none() {
            assert(rows.len() == 1);
            assert(view_contains_anchor(rows[0], a));
        } else {
            assert(base_spans(f, cap) == seq![(0int, 0int, false)]);
            assert(rows.len() == 1);
            assert(view_contains_anchor(rows[0], a));
        }
    } else {
        assert(base_spans(f, cap) == spans);
        assert(rows.len() == spans.len());
        assert forall|k: int| 0 <= k < rows.len() implies (#[trigger] rows[k]).2 == spans[k].0 && rows[k].3
            == spans[k].1 && rows[k].4 == (k == rows.len() - 1) && !rows[k].5 by {
        }
        if offset < n {
            let k = lemma_tiles_find(spans, n, f, cap, offset as int, 0);
            assert(view_contains_anchor(rows[k], a));
        } else {
            let k = rows.len() - 1;
            assert(spans.last().1 == n);
            assert(view_contains_anchor(rows[k], a));
        }
        assert forall|k1: int, k2: int|
            0 <= k1 < rows.len() && 0 <= k2 < rows.len() && view_contains_anchor(#[trigger] rows[k1], a)
                && view_contains_anchor(#[trigger] rows[k2], a) implies k1 == k2 by {
            if k1 < k2 {
                lemma_tiles_ordered(spans, n, f, cap, k1, k2);
            } else if k2 < k1 {
                lemma_tiles_ordered(spans, n, f, cap, k2, k1);
            }
        }
    }
}

/// Ordering two selection endpoints puts them in document order and keeps
/// both: the first is at or before the second, and the pair is the two
/// endpoints given, in one order or the other.
pub proof fn ordered_endpoints_are_in_document_order(a: HistorySelectionPoint, b: HistorySelectionPoint)
    ensures
        key_le(ordered(a, b).0.key(), ordered(a, b).1.key()),
        ordered(a, b) == (a, b) || ordered(a, b) == (b, a),
        key_le(a.key(), b.key()) ==> ordered(a, b) == (a, b),
{
}

/// The copied text of a selection does not depend on the direction of the
/// drag: swapping the endpoints gives the same text. (Two distinct
/// endpoints at the same position, differing only in where their scalar
/// span ends, are taken in the order given.)
pub proof fn selected_text_ignores_drag_direction(
    texts: Seq<(u64, int, Seq<char>)>,
    a: HistorySelectionPoint,
    b: HistorySelectionPoint,
)
    requires
        a.key() != b.key() || a == b,
    ensures
        join_lines(selection_lines(texts, ordered(a, b).0, ordered(a, b).1)) == join_lines(
            selection_lines(texts, ordered(b, a).0, ordered(b, a).1),
        ),
{
    assert(ordered(a, b) == ordered(b, a));
}

/// The highlighted cells of a selection do not depend on the direction of
/// the drag either.
pub proof fn visible_selection_ignores_drag_direction(
    all: Seq<RenderedHistoryRow>,
    a: HistorySelectionPoint,
    b: HistorySelectionPoint,
    frame_start: int,
    prefix_rows: int,
    area: crate::layout::Rect,
)
    requires
        a.key() != b.key() || a == b,
    ensures
        visible_selection_spec(all, a, b, frame_start, prefix_rows, area) == visible_selection_spec(
            all,
            b,
            a,
            frame_start,
            prefix_rows,
            area,
        ),
{
    assert(ordered(a, b) == ordered(b, a));
}

} // verus!
