//! Width-dependent projection of transcript lines onto terminal rows.
//!
//! Logical lines are never changed: wrapping at the current width produces
//! rows that each remember the scalar range `[logical_start, logical_end)` of
//! the logical line they show, so scroll anchors and selections survive
//! resizing.

use vstd::prelude::*;
use crate::style::{HistoryAttrs, HistorySegment, ScrollbackLine, SegStyle, TermColor, same_line, seg_view, segs_text};
use crate::width::{cells, char_cells, seq_cells, str_width_spec};

verus! {

/// A character together with the style of the segment it came from.
pub type StyledChar = (char, SegStyle);

/// The characters of a segment list, each tagged with its segment's style.
pub open spec fn flatten(segs: Seq<HistorySegment>) -> Seq<StyledChar>
    decreases segs.len(),
{
    if segs.len() == 0 {
        Seq::empty()
    } else {
        let last = segs.last();
        flatten(segs.drop_last()) + last.text@.map_values(|c: char| (c, last.style()))
    }
}

/// Maximal runs of equally styled characters, in order.
pub open spec fn merge_runs(s: Seq<StyledChar>) -> Seq<(Seq<char>, SegStyle)>
    decreases s.len(),
{
    if s.len() == 0 {
        Seq::empty()
    } else {
        let m = merge_runs(s.drop_last());
        let (c, st) = s.last();
        if m.len() > 0 && m.last().1 == st {
            m.update(m.len() - 1, (m.last().0.push(c), st))
        } else {
            m.push((seq![c], st))
        }
    }
}

/// A row boundary: `(start, end, is_ellipsis)` over scalar offsets.
pub type RowSpan = (int, int, bool);

/// Greedy row breaking: `(closed rows, start of the open row, cells used by
/// the open row)` after scanning `f` at `cap` cells per row. A scalar wider
/// than a whole row is shown as a one-cell `…` row of its own.
pub open spec fn chunk_scan(f: Seq<StyledChar>, cap: int) -> (Seq<RowSpan>, int, int)
    decreases f.len(),
{
    if f.len() == 0 {
        (Seq::empty(), 0, 0)
    } else {
        let (rows, start, used) = chunk_scan(f.drop_last(), cap);
        let k = f.len() - 1;
        let cw = cells(f.last().0) as int;
        if cw > cap {
            let closed = if start < k { rows.push((start, k, false)) } else { rows };
            (closed.push((k, k + 1, true)), k + 1, 0)
        } else if used > 0 && used + cw > cap {
            (rows.push((start, k, false)), k, cw)
        } else {
            (rows, start, used + cw)
        }
    }
}

/// All rows of a logical line of styled characters at `cap` cells per row.
pub open spec fn row_spans(f: Seq<StyledChar>, cap: int) -> Seq<RowSpan> {
    let (rows, start, _used) = chunk_scan(f, cap);
    if start < f.len() {
        rows.push((start, f.len() as int, false))
    } else {
        rows
    }
}

/// One projected row and the logical scalar range it shows.
#[derive(Clone, Debug, PartialEq, Eq)]
pub struct ProjectedLineChunk {
    pub line: ScrollbackLine,
    pub logical_start: usize,
    pub logical_end: usize,
}

/// The view of a segment list: runs of characters with their styles.
pub open spec fn segs_view(segs: Seq<HistorySegment>) -> Seq<(Seq<char>, SegStyle)> {
    segs.map_values(|s: HistorySegment| seg_view(s))
}

/// The row a span stands for: the merged runs of its characters, or an
/// ellipsis for a scalar too wide for the row.
pub open spec fn span_line_ok(
    line: ScrollbackLine,
    span: RowSpan,
    f: Seq<StyledChar>,
    bg: Option<TermColor>,
) -> bool {
    &&& line.wf()
    &&& line.bg == bg
    &&& line.fill.is_none()
    &&& if span.2 {
        &&& line.text@ == "…"@
        &&& segs_view(line.segments@) == seq![("…"@, (None::<TermColor>, HistoryAttrs::plain_spec()))]
    } else {
        segs_view(line.segments@) == merge_runs(f.subrange(span.0, span.1))
    }
}

/// The chunks show exactly the spans, each with its row content.
pub open spec fn chunks_match(
    chunks: Seq<ProjectedLineChunk>,
    spans: Seq<RowSpan>,
    f: Seq<StyledChar>,
    bg: Option<TermColor>,
) -> bool {
    &&& chunks.len() == spans.len()
    &&& forall|i: int|
        0 <= i < chunks.len() ==> {
            &&& (#[trigger] chunks[i]).logical_start == spans[i].0
            &&& chunks[i].logical_end == spans[i].1
            &&& span_line_ok(chunks[i].line, spans[i], f, bg)
        }
}

/// Collects the styled characters of a segment list.
pub fn flatten_segments(segs: &Vec<HistorySegment>) -> (f: Vec<(char, Option<TermColor>, HistoryAttrs)>)
    ensures
        f@.map_values(|t: (char, Option<TermColor>, HistoryAttrs)| (t.0, (t.1, t.2)))
            == flatten(segs@),
{
    let mut out: Vec<(char, Option<TermColor>, HistoryAttrs)> = Vec::new();
    let mut i: usize = 0;
    while i < segs.len()
        invariant
            i <= segs@.len(),
            out@.map_values(|t: (char, Option<TermColor>, HistoryAttrs)| (t.0, (t.1, t.2)))
                == flatten(segs@.take(i as int)),
        decreases segs@.len() - i,
    {
        let seg = &segs[i];
        let chars = crate::chars::str_chars(seg.text.as_str());
        let ghost before = out@;
        let mut j: usize = 0;
        while j < chars.len()
            invariant
                j <= chars@.len(),
                chars@ == seg.text@,
                out@.len() == before.len() + j,
                forall|k: int| 0 <= k < before.len() ==> out@[k] == before[k],
                forall|k: int|
                    0 <= k < j ==> out@[before.len() + k] == (chars@[k], seg.fg, seg.attrs),
            decreases chars@.len() - j,
        {
            out.push((chars[j], seg.fg, seg.attrs));
            j = j + 1;
        }
        proof {
            assert(segs@.take(i + 1).drop_last() == segs@.take(i as int));
            assert(out@.map_values(|t: (char, Option<TermColor>, HistoryAttrs)| (t.0, (t.1, t.2)))
                =~= flatten(segs@.take(i as int)) + seg.text@.map_values(
                |c: char| (c, seg.style()),
            ));
        }
        i = i + 1;
    }
    proof {
        assert(segs@.take(i as int) == segs@);
    }
    out
}

/// One merge step: the run view after appending `(c, st)`.
pub open spec fn merge_step(m: Seq<(Seq<char>, SegStyle)>, c: char, st: SegStyle) -> Seq<(Seq<char>, SegStyle)> {
    if m.len() > 0 && m.last().1 == st {
        m.update(m.len() - 1, (m.last().0.push(c), st))
    } else {
        m.push((seq![c], st))
    }
}

/// Appends a character to a run list, extending the last run when the
/// style matches.
pub(crate) fn push_styled_char(
    current: &mut Vec<HistorySegment>,
    ch: char,
    fg: Option<TermColor>,
    attrs: HistoryAttrs,
)
    ensures
        segs_view(final(current)@) == merge_step(segs_view(old(current)@), ch, (fg, attrs)),
{
    let n = current.len();
    if n > 0 && current[n - 1].fg == fg && current[n - 1].attrs == attrs {
        let mut last = current.pop().unwrap();
        last.text.push(ch);
        current.push(last);
        proof {
            assert(segs_view(current@) =~= merge_step(segs_view(old(current)@), ch, (fg, attrs)));
        }
    } else {
        let mut text = String::new();
        text.push(ch);
        current.push(HistorySegment { text, fg, attrs });
        proof {
            assert(seq![ch] == Seq::<char>::empty().push(ch));
            assert(segs_view(current@) =~= merge_step(segs_view(old(current)@), ch, (fg, attrs)));
        }
    }
}

pub(crate) proof fn lemma_merge_runs_push(s: Seq<StyledChar>, x: StyledChar)
    ensures
        merge_runs(s.push(x)) == merge_step(merge_runs(s), x.0, x.1),
        merge_runs(s).len() == 0 <==> s.len() == 0,
{
    assert(s.push(x).drop_last() == s);
    if s.len() > 0 {
        assert(merge_runs(s).len() > 0);
    }
}

proof fn lemma_flat_view(f: Seq<(char, Option<TermColor>, HistoryAttrs)>, i: int)
    requires
        0 <= i < f.len(),
    ensures
        f.map_values(|t: (char, Option<TermColor>, HistoryAttrs)| (t.0, (t.1, t.2)))[i] == (
            f[i].0,
            (f[i].1, f[i].2),
        ),
{
}

/// Wraps one logical line into rows of at most `width` cells (without its
/// fill token).
pub fn project_row_chunks(line: &ScrollbackLine, width: u16) -> (chunks: Vec<ProjectedLineChunk>)
    ensures
        chunks_match(chunks@, row_spans(flatten(line.segments@), width as int), flatten(line.segments@), line.bg),
{
    let cap = width as usize;
    let f = flatten_segments(&line.segments);
    let ghost ff = flatten(line.segments@);
    let mut rows: Vec<ProjectedLineChunk> = Vec::new();
    let mut current: Vec<HistorySegment> = Vec::new();
    let mut used: usize = 0;
    let mut row_start: usize = 0;
    let mut k: usize = 0;
    proof {
        assert(ff.take(0) =~= Seq::<StyledChar>::empty());
        assert(ff.subrange(0, 0) =~= Seq::<StyledChar>::empty());
    }
    while k < f.len()
        invariant
            f@.map_values(|t: (char, Option<TermColor>, HistoryAttrs)| (t.0, (t.1, t.2))) == ff,
            ff.len() == f@.len(),
            k <= f@.len(),
            cap == width,
            row_start <= k,
            chunk_scan(ff.take(k as int), cap as int).1 == row_start,
            chunk_scan(ff.take(k as int), cap as int).2 == used,
            chunks_match(rows@, chunk_scan(ff.take(k as int), cap as int).0, ff, line.bg),
            segs_view(current@) == merge_runs(ff.subrange(row_start as int, k as int)),
            row_start == k ==> used == 0,
            used <= cap + 3,
        decreases f@.len() - k,
    {
        let ch = f[k].0;
        let fg = f[k].1;
        let attrs = f[k].2;
        let cw = char_cells(ch);
        let ghost prev_rows = rows@;
        proof {
            lemma_flat_view(f@, k as int);
            assert(ff.take(k + 1).drop_last() == ff.take(k as int));
            assert(ff.take(k + 1).last() == ff[k as int]);
            assert(ff[k as int] == (ch, (fg, attrs)));
            lemma_merge_runs_push(ff.subrange(row_start as int, k as int), ff[k as int]);
            assert(ff.subrange(row_start as int, k + 1) == ff.subrange(row_start as int, k as int).push(ff[k as int]));
        }
        if cw > cap {
            if current.len() > 0 {
                let mut segs: Vec<HistorySegment> = Vec::new();
                std::mem::swap(&mut segs, &mut current);
                rows.push(ProjectedLineChunk {
                    line: ScrollbackLine::styled(segs, line.bg),
                    logical_start: row_start,
                    logical_end: k,
                });
                used = 0;
            }
            let ghost mid_rows = rows@;
            rows.push(ProjectedLineChunk {
                line: ScrollbackLine::plain("…", line.bg),
                logical_start: k,
                logical_end: k + 1,
            });
            proof {
                let sc = chunk_scan(ff.take(k as int), cap as int);
                let closed = if sc.1 < k { sc.0.push((sc.1, k as int, false)) } else { sc.0 };
                let want = closed.push((k as int, k + 1, true));
                assert(chunk_scan(ff.take(k + 1), cap as int) == (want, k + 1, 0int));
                assert(rows@.len() == want.len());
                assert forall|i: int| 0 <= i < rows@.len() implies {
                    &&& (#[trigger] rows@[i]).logical_start == want[i].0
                    &&& rows@[i].logical_end == want[i].1
                    &&& span_line_ok(rows@[i].line, want[i], ff, line.bg)
                } by {
                    if i < prev_rows.len() {
                        assert(rows@[i] == prev_rows[i]);
                    } else if i == rows@.len() - 1 {
                        reveal_strlit("…");
                        assert(segs_view(rows@[i].line.segments@) =~= seq![("…"@, (None::<TermColor>, HistoryAttrs::plain_spec()))]);
                    }
                }
            }
            current = Vec::new();
            row_start = k + 1;
            used = 0;
            k = k + 1;
            proof {
                assert(ff.subrange(row_start as int, k as int) =~= Seq::<StyledChar>::empty());
            }
        } else {
            if used > 0 && used + cw > cap {
                let mut segs: Vec<HistorySegment> = Vec::new();
                std::mem::swap(&mut segs, &mut current);
                rows.push(ProjectedLineChunk {
                    line: ScrollbackLine::styled(segs, line.bg),
                    logical_start: row_start,
                    logical_end: k,
                });
                used = 0;
                row_start = k;
                proof {
                    assert(ff.subrange(row_start as int, k as int) =~= Seq::<StyledChar>::empty());
                    lemma_merge_runs_push(ff.subrange(row_start as int, k as int), ff[k as int]);
                    assert(ff.subrange(row_start as int, k + 1) == ff.subrange(row_start as int, k as int).push(ff[k as int]));
                }
            }
            push_styled_char(&mut current, ch, fg, attrs);
            used = used + cw;
            proof {
                let sc = chunk_scan(ff.take(k as int), cap as int);
                assert(chunk_scan(ff.take(k + 1), cap as int).1 == row_start);
                assert(chunk_scan(ff.take(k + 1), cap as int).2 == used);
                let want = chunk_scan(ff.take(k + 1), cap as int).0;
                assert(rows@.len() == want.len());
                assert forall|i: int| 0 <= i < rows@.len() implies {
                    &&& (#[trigger] rows@[i]).logical_start == want[i].0
                    &&& rows@[i].logical_end == want[i].1
                    &&& span_line_ok(rows@[i].line, want[i], ff, line.bg)
                } by {
                    if i < prev_rows.len() {
                        assert(rows@[i] == prev_rows[i]);
                    }
                }
            }
            k = k + 1;
        }
    }
    let ghost prev_rows = rows@;
    if current.len() > 0 {
        rows.push(ProjectedLineChunk {
            line: ScrollbackLine::styled(current, line.bg),
            logical_start: row_start,
            logical_end: k,
        });
    }
    proof {
        assert(ff.take(k as int) == ff);
        let sc = chunk_scan(ff, cap as int);
        if row_start < k {
            assert(merge_runs(ff.subrange(row_start as int, k as int)).len() > 0) by {
                lemma_merge_runs_push(ff.subrange(row_start as int, k - 1), ff[k - 1]);
                assert(ff.subrange(row_start as int, k as int) == ff.subrange(row_start as int, k - 1).push(ff[k - 1]));
            }
            let want = row_spans(ff, cap as int);
            assert forall|i: int| 0 <= i < rows@.len() implies {
                &&& (#[trigger] rows@[i]).logical_start == want[i].0
                &&& rows@[i].logical_end == want[i].1
                &&& span_line_ok(rows@[i].line, want[i], ff, line.bg)
            } by {
                if i < prev_rows.len() {
                    assert(rows@[i] == prev_rows[i]);
                }
            }
        } else {
            assert(segs_view(current@).len() == 0);
        }
    }
    rows
}

/// One pass over the fill token's scalars starting with `used` cells taken:
/// every scalar that still fits is appended, and the pass stops as soon as
/// the available cells are exactly used up. Returns the appended scalars and
/// the cells used afterwards.
pub open spec fn fill_pass(sc: Seq<char>, used: int, avail: int) -> (Seq<char>, int)
    decreases sc.len(),
{
    if sc.len() == 0 {
        (Seq::empty(), used)
    } else {
        let c = sc[0];
        let w = cells(c) as int;
        if w == 0 || used + w > avail {
            fill_pass(sc.drop_first(), used, avail)
        } else if used + w == avail {
            (seq![c], used + w)
        } else {
            let (t, u) = fill_pass(sc.drop_first(), used + w, avail);
            (seq![c] + t, u)
        }
    }
}

/// Passes repeat until the cells are used up or a pass adds nothing.
pub open spec fn fill_text(sc: Seq<char>, used: int, avail: int) -> Seq<char>
    decreases avail - used,
{
    if used >= avail {
        Seq::empty()
    } else {
        let (t, u) = fill_pass(sc, used, avail);
        if u <= used || u > avail {
            Seq::empty()
        } else {
            t + fill_text(sc, u, avail)
        }
    }
}

/// The fill scalars drawn into `avail` free cells.
pub open spec fn fill_spec(token: Seq<char>, avail: int) -> Seq<char> {
    if avail == 0 || token.len() == 0 {
        Seq::empty()
    } else {
        fill_text(token, 0, avail)
    }
}

proof fn lemma_fill_pass(sc: Seq<char>, used: int, avail: int)
    requires
        0 <= used <= avail,
    ensures
        used <= fill_pass(sc, used, avail).1 <= avail,
        (fill_pass(sc, used, avail).0.len() == 0) <==> (fill_pass(sc, used, avail).1 == used),
    decreases sc.len(),
{
    if sc.len() > 0 {
        let w = cells(sc[0]) as int;
        if w == 0 || used + w > avail {
            lemma_fill_pass(sc.drop_first(), used, avail);
        } else if used + w == avail {
        } else {
            lemma_fill_pass(sc.drop_first(), used + w, avail);
        }
    }
}

/// Repeats a fill token only up to the available display cells; no scalar is
/// split, so a multi-cell token may leave the last cell empty.
pub fn project_fill_segment(fill: &HistorySegment, available_cells: usize) -> (r: Option<HistorySegment>)
    ensures
        ({
            let t = fill_spec(fill.text@, available_cells as int);
            &&& t.len() == 0 ==> r.is_none()
            &&& t.len() > 0 ==> (r matches Some(seg) && seg.text@ == t && seg.fg == fill.fg
                && seg.attrs == fill.attrs)
        }),
{
    let scalars = crate::chars::str_chars(fill.text.as_str());
    if available_cells == 0 || scalars.len() == 0 {
        return None;
    }
    let ghost sc = scalars@;
    let avail = available_cells;
    let mut text = String::new();
    let mut used: usize = 0;
    while used < avail
        invariant
            sc == scalars@,
            sc == fill.text@,
            avail == available_cells,
            used <= avail,
            fill_text(sc, 0, avail as int) == text@ + fill_text(sc, used as int, avail as int),
        ensures
            fill_text(sc, 0, avail as int) == text@,
        decreases avail - used,
    {
        let ghost pass_used = used as int;
        let ghost pass_text = text@;
        let mut progressed = false;
        let mut j: usize = 0;
        let mut finished = false;
        proof {
            assert(sc.skip(0) =~= sc);
            assert(text@.skip(pass_text.len() as int) =~= Seq::<char>::empty());
            assert(text@.subrange(0, pass_text.len() as int) =~= pass_text);
        }
        while j < scalars.len() && !finished
            invariant
                sc == scalars@,
                avail == available_cells,
                pass_used <= used <= avail,
                j <= scalars@.len(),
                progressed == (used > pass_used),
                text@.len() >= pass_text.len(),
                text@.subrange(0, pass_text.len() as int) == pass_text,
                finished ==> used == avail,
                !finished ==> ({
                    let (t0, u0) = fill_pass(sc, pass_used, avail as int);
                    let (tr, ur) = fill_pass(sc.skip(j as int), used as int, avail as int);
                    &&& t0 == text@.skip(pass_text.len() as int) + tr
                    &&& u0 == ur
                }),
                finished ==> ({
                    let (t0, u0) = fill_pass(sc, pass_used, avail as int);
                    &&& t0 == text@.skip(pass_text.len() as int)
                    &&& u0 == used
                }),
            decreases (if finished { 0int } else { 1int }) + scalars@.len() - j,
        {
            let ch = scalars[j];
            let w = char_cells(ch);
            proof {
                assert(sc.skip(j as int).drop_first() == sc.skip(j + 1));
                assert(sc.skip(j as int)[0] == ch);
            }
            if w == 0 || w > avail - used {
                j = j + 1;
            } else {
                let ghost before = text@;
                text.push(ch);
                used = used + w;
                progressed = true;
                proof {
                    assert(text@.subrange(0, pass_text.len() as int) =~= pass_text);
                    assert(text@.skip(pass_text.len() as int) =~= before.skip(pass_text.len() as int) + seq![ch]);
                }
                if used == avail {
                    finished = true;
                } else {
                    j = j + 1;
                }
            }
        }
        proof {
            lemma_fill_pass(sc, pass_used, avail as int);
            if !finished {
                assert(sc.skip(j as int) =~= Seq::<char>::empty());
            }
            let (t0, u0) = fill_pass(sc, pass_used, avail as int);
            assert(text@ =~= pass_text + t0);
        }
        if !progressed {
            proof {
                assert(fill_text(sc, used as int, avail as int) =~= Seq::<char>::empty());
                assert(text@ + Seq::<char>::empty() =~= text@);
            }
            break;
        }
        proof {
            assert(fill_text(sc, pass_used, avail as int) == fill_pass(sc, pass_used, avail as int).0
                + fill_text(sc, used as int, avail as int));
            assert(text@ + fill_text(sc, used as int, avail as int) =~= pass_text + (fill_pass(sc, pass_used, avail as int).0
                + fill_text(sc, used as int, avail as int)));
        }
    }
    proof {
        assert(text@.len() == 0 <==> fill_spec(fill.text@, available_cells as int).len() == 0);
    }
    if text.as_str().is_empty() {
        None
    } else {
        Some(HistorySegment { text, fg: fill.fg, attrs: fill.attrs })
    }
}

/// The runs a span shows.
pub open spec fn span_view(span: RowSpan, f: Seq<StyledChar>) -> Seq<(Seq<char>, SegStyle)> {
    if span.2 {
        seq![("…"@, (None::<TermColor>, HistoryAttrs::plain_spec()))]
    } else {
        merge_runs(f.subrange(span.0, span.1))
    }
}

/// The concatenated characters of a run list.
pub open spec fn run_texts(runs: Seq<(Seq<char>, SegStyle)>) -> Seq<char>
    decreases runs.len(),
{
    if runs.len() == 0 {
        Seq::empty()
    } else {
        run_texts(runs.drop_last()) + runs.last().0
    }
}

/// Rows of a line; a line without characters still takes one row.
pub open spec fn base_spans(f: Seq<StyledChar>, cap: int) -> Seq<RowSpan> {
    let s = row_spans(f, cap);
    if s.len() == 0 {
        seq![(0int, 0int, false)]
    } else {
        s
    }
}

/// The fill run appended to the last row of a line with a fill token.
pub open spec fn fill_run(
    fill: Option<HistorySegment>,
    last_text: Seq<char>,
    cap: int,
) -> Seq<(Seq<char>, SegStyle)> {
    match fill {
        None => Seq::empty(),
        Some(fl) => {
            let used = str_width_spec(last_text) as int;
            let avail = if cap >= used { cap - used } else { 0 };
            let t = fill_spec(fl.text@, avail);
            if t.len() == 0 {
                Seq::empty()
            } else {
                seq![(t, fl.style())]
            }
        },
    }
}

/// What a projected row shows: its scalar range, its runs, its background
/// and its fill token.
pub type RowView = (int, int, Seq<(Seq<char>, SegStyle)>, Option<TermColor>, Option<HistorySegment>);

/// The view of a projected chunk.
pub open spec fn chunk_view(c: ProjectedLineChunk) -> RowView {
    (c.logical_start as int, c.logical_end as int, segs_view(c.line.segments@), c.line.bg, c.line.fill)
}

/// The rows of a logical line at `width` cells. A line without characters
/// or fill is kept as it is; otherwise each span becomes one row, and the
/// fill token is drawn into the cells left on the last row.
pub open spec fn line_rows(line: ScrollbackLine, width: int) -> Seq<RowView> {
    let f = flatten(line.segments@);
    if row_spans(f, width).len() == 0 && line.fill.is_none() {
        seq![(0int, 0int, segs_view(line.segments@), line.bg, None::<HistorySegment>)]
    } else {
        let spans = base_spans(f, width);
        let n = spans.len();
        Seq::new(
            n,
            |i: int|
                (
                    spans[i].0,
                    spans[i].1,
                    if i == n - 1 {
                        span_view(spans[i], f) + fill_run(line.fill, run_texts(span_view(spans[i], f)), width)
                    } else {
                        span_view(spans[i], f)
                    },
                    line.bg,
                    None::<HistorySegment>,
                ),
        )
    }
}

/// The projection of a whole logical line at `width` cells.
pub open spec fn line_chunks_ok(chunks: Seq<ProjectedLineChunk>, line: ScrollbackLine, width: int) -> bool {
    &&& chunks.map_values(|c: ProjectedLineChunk| chunk_view(c)) == line_rows(line, width)
    &&& forall|i: int| 0 <= i < chunks.len() ==> (#[trigger] chunks[i]).line.wf()
}

proof fn lemma_chunk_scan_start(f: Seq<StyledChar>, cap: int)
    ensures
        0 <= chunk_scan(f, cap).1 <= f.len(),
        chunk_scan(f, cap).1 > 0 ==> chunk_scan(f, cap).0.len() > 0,
    decreases f.len(),
{
    if f.len() > 0 {
        lemma_chunk_scan_start(f.drop_last(), cap);
    }
}

proof fn lemma_segs_text_runs(segs: Seq<HistorySegment>)
    ensures
        segs_text(segs) == run_texts(segs_view(segs)),
    decreases segs.len(),
{
    if segs.len() > 0 {
        lemma_segs_text_runs(segs.drop_last());
        assert(segs_view(segs.drop_last()) == segs_view(segs).drop_last());
    }
}

/// Projects one logical line onto rows of `width` cells, drawing its fill
/// token into the cells left on the last row.
pub fn project_line_chunks(line: &ScrollbackLine, width: u16) -> (chunks: Vec<ProjectedLineChunk>)
    requires
        line.wf(),
    ensures
        line_chunks_ok(chunks@, *line, width as int),
{
    let ghost f = flatten(line.segments@);
    let mut rows = project_row_chunks(line, width);
    proof {
        lemma_chunk_scan_start(f, width as int);
    }
    if rows.len() == 0 && line.fill.is_none() {
        let mut out: Vec<ProjectedLineChunk> = Vec::new();
        out.push(ProjectedLineChunk { line: crate::style::copy_line(line), logical_start: 0, logical_end: 0 });
        proof {
            assert(out@.map_values(|c: ProjectedLineChunk| chunk_view(c)) =~= line_rows(*line, width as int));
        }
        return out;
    }
    if rows.len() == 0 {
        rows.push(ProjectedLineChunk {
            line: ScrollbackLine::styled(Vec::new(), line.bg),
            logical_start: 0,
            logical_end: 0,
        });
        proof {
            assert(f.subrange(0, 0) =~= Seq::<StyledChar>::empty());
            assert(segs_view(rows@[0].line.segments@) =~= Seq::<(Seq<char>, SegStyle)>::empty());
        }
    }
    let ghost spans = base_spans(f, width as int);
    let ghost n = spans.len();
    proof {
        assert(rows@.len() == n);
        assert forall|i: int| 0 <= i < n implies segs_view(#[trigger] rows@[i].line.segments@) == span_view(spans[i], f) by {
            if spans[i].2 {
                assert(segs_view(rows@[i].line.segments@) == seq![("…"@, (None::<TermColor>, HistoryAttrs::plain_spec()))]);
            }
        }
    }
    match &line.fill {
        None => {
            proof {
                assert forall|i: int| 0 <= i < n implies #[trigger] chunk_view(rows@[i]) == line_rows(*line, width as int)[i] by {
                    assert(span_view(spans[i], f) + Seq::<(Seq<char>, SegStyle)>::empty() =~= span_view(spans[i], f));
                }
                assert(rows@.map_values(|c: ProjectedLineChunk| chunk_view(c)) =~= line_rows(*line, width as int));
            }
            rows
        },
        Some(fill) => {
            let ghost before = rows@;
            let mut last = rows.pop().unwrap();
            let used = crate::width::str_width(last.line.text.as_str());
            let avail = (width as usize).saturating_sub(used);
            proof {
                lemma_segs_text_runs(last.line.segments@);
            }
            let ghost base_view = segs_view(last.line.segments@);
            match project_fill_segment(fill, avail) {
                Some(seg) => {
                    last.line.segments.push(seg);
                    last.line.text = crate::style::concat_segments(&last.line.segments);
                    proof {
                        assert(segs_view(last.line.segments@) =~= base_view + segs_view(seq![seg]));
                    }
                },
                None => {
                    proof {
                        assert(base_view + Seq::<(Seq<char>, SegStyle)>::empty() =~= base_view);
                    }
                },
            }
            rows.push(last);
            proof {
                assert forall|i: int| 0 <= i < n implies #[trigger] chunk_view(rows@[i]) == line_rows(*line, width as int)[i] by {
                    if i < n - 1 {
                        assert(rows@[i] == before[i]);
                    }
                }
                assert(rows@.map_values(|c: ProjectedLineChunk| chunk_view(c)) =~= line_rows(*line, width as int));
            }
            rows
        },
    }
}

/// Cells taken by the characters `f[s..e]`.
pub open spec fn span_cells(f: Seq<StyledChar>, s: int, e: int) -> nat {
    crate::width::seq_cells(f.subrange(s, e).map_values(|x: StyledChar| x.0))
}

/// Row spans that tile `[0, end)` without gaps or overlaps, each non-empty;
/// regular rows fit in `cap` cells, and an ellipsis row stands for exactly
/// one scalar wider than `cap`.
pub open spec fn tiles(rows: Seq<RowSpan>, end: int, f: Seq<StyledChar>, cap: int) -> bool {
    &&& rows.len() == 0 ==> end == 0
    &&& rows.len() > 0 ==> rows[0].0 == 0 && rows.last().1 == end
    &&& forall|i: int| 0 <= i < rows.len() - 1 ==> (#[trigger] rows[i]).1 == rows[i + 1].0
    &&& forall|i: int|
        0 <= i < rows.len() ==> {
            let r = #[trigger] rows[i];
            &&& 0 <= r.0 < r.1 <= f.len()
            &&& r.2 ==> r.1 == r.0 + 1 && cells(f[r.0].0) > cap
            &&& !r.2 ==> span_cells(f, r.0, r.1) <= cap
        }
}

proof fn lemma_span_cells_push(f: Seq<StyledChar>, s: int, e: int)
    requires
        0 <= s <= e < f.len(),
    ensures
        span_cells(f, s, e + 1) == span_cells(f, s, e) + cells(f[e].0),
        span_cells(f, e, e) == 0,
{
    let m = f.subrange(s, e + 1).map_values(|x: StyledChar| x.0);
    assert(m.drop_last() =~= f.subrange(s, e).map_values(|x: StyledChar| x.0));
    assert(f.subrange(e, e).map_values(|x: StyledChar| x.0) =~= Seq::<char>::empty());
}

proof fn lemma_span_cells_prefix(f: Seq<StyledChar>, g: Seq<StyledChar>, s: int, e: int)
    requires
        0 <= s <= e <= f.len(),
        f.len() <= g.len(),
        forall|k: int| 0 <= k < f.len() ==> f[k] == g[k],
    ensures
        span_cells(f, s, e) == span_cells(g, s, e),
{
    assert(f.subrange(s, e) =~= g.subrange(s, e));
}

#[verifier::spinoff_prover]
#[verifier::rlimit(50)]
proof fn lemma_chunk_scan_tiles(f: Seq<StyledChar>, cap: int)
    requires
        cap >= 0,
    ensures
        ({
            let (rows, start, used) = chunk_scan(f, cap);
            &&& tiles(rows, start, f, cap)
            &&& 0 <= start <= f.len()
            &&& used == span_cells(f, start, f.len() as int)
            &&& used <= cap || (start + 1 == f.len() && used == cells(f[start].0) && used <= cap)
        }),
    decreases f.len(),
{
    if f.len() == 0 {
        assert(f.subrange(0, 0).map_values(|x: StyledChar| x.0) =~= Seq::<char>::empty());
    } else {
        let g = f.drop_last();
        lemma_chunk_scan_tiles(g, cap);
        let (rows, start, used) = chunk_scan(g, cap);
        let k = f.len() - 1;
        let cw = cells(f.last().0) as int;
        assert forall|i: int| 0 <= i < rows.len() implies {
            let r = #[trigger] rows[i];
            !r.2 ==> span_cells(f, r.0, r.1) == span_cells(g, r.0, r.1)
        } by {
            let r = rows[i];
            if !r.2 {
                lemma_span_cells_prefix(g, f, r.0, r.1);
            }
        }
        assert(f[k] == f.last());
        lemma_span_cells_prefix(g, f, start, k);
        if cw > cap {
            lemma_span_cells_push(f, k, k);
            assert(span_cells(f, k + 1, k + 1) == 0) by {
                assert(f.subrange(k + 1, k + 1).map_values(|x: StyledChar| x.0) =~= Seq::<char>::empty());
            }
            let closed = if start < k { rows.push((start, k, false)) } else { rows };
            let out = closed.push((k, k + 1, true));
            assert(tiles(out, k + 1, f, cap)) by {
                assert forall|i: int| 0 <= i < out.len() - 1 implies (#[trigger] out[i]).1 == out[i + 1].0 by {
                    if i < rows.len() - 1 {
                        assert(out[i] == rows[i] && out[i + 1] == rows[i + 1]);
                    }
                }
                assert forall|i: int| 0 <= i < out.len() implies {
                    let r = #[trigger] out[i];
                    &&& 0 <= r.0 < r.1 <= f.len()
                    &&& r.2 ==> r.1 == r.0 + 1 && cells(f[r.0].0) > cap
                    &&& !r.2 ==> span_cells(f, r.0, r.1) <= cap
                } by {
                    if i < rows.len() {
                        assert(out[i] == rows[i]);
                    }
                }
            }
        } else if used > 0 && used + cw > cap {
            let out = rows.push((start, k, false));
            lemma_span_cells_push(f, k, k);
            assert(start < k) by {
                if start == k {
                    assert(f.subrange(k, k).map_values(|x: StyledChar| x.0) =~= Seq::<char>::empty());
                }
            }
            assert(tiles(out, k, f, cap)) by {
                assert forall|i: int| 0 <= i < out.len() - 1 implies (#[trigger] out[i]).1 == out[i + 1].0 by {
                    if i < rows.len() - 1 {
                        assert(out[i] == rows[i] && out[i + 1] == rows[i + 1]);
                    }
                }
                assert forall|i: int| 0 <= i < out.len() implies {
                    let r = #[trigger] out[i];
                    &&& 0 <= r.0 < r.1 <= f.len()
                    &&& r.2 ==> r.1 == r.0 + 1 && cells(f[r.0].0) > cap
                    &&& !r.2 ==> span_cells(f, r.0, r.1) <= cap
                } by {
                    if i < rows.len() {
                        assert(out[i] == rows[i]);
                    }
                }
            }
        } else {
            lemma_span_cells_push(f, start, k);
        }
    }
}

/// The rows of a projected logical line tile its scalars in order: the
/// first row starts at offset 0, each row starts where the previous one
/// ended, the last row ends at the line's length, and no row is empty. A
/// regular row never takes more than `width` cells; an ellipsis row stands
/// for exactly one scalar that is wider than the row. So no scalar is lost,
/// repeated or split by wrapping at any width.
pub proof fn row_spans_tile_the_line(line: ScrollbackLine, width: u16)
    ensures
        tiles(row_spans(flatten(line.segments@), width as int), flatten(line.segments@).len() as int,
            flatten(line.segments@), width as int),
{
    let f = flatten(line.segments@);
    let cap = width as int;
    lemma_chunk_scan_tiles(f, cap);
    let (rows, start, used) = chunk_scan(f, cap);
    if start < f.len() {
        let out = rows.push((start, f.len() as int, false));
        assert(tiles(out, f.len() as int, f, cap)) by {
            assert forall|i: int| 0 <= i < out.len() - 1 implies (#[trigger] out[i]).1 == out[i + 1].0 by {
                if i < rows.len() - 1 {
                    assert(out[i] == rows[i] && out[i + 1] == rows[i + 1]);
                }
            }
            assert forall|i: int| 0 <= i < out.len() implies {
                let r = #[trigger] out[i];
                &&& 0 <= r.0 < r.1 <= f.len()
                &&& r.2 ==> r.1 == r.0 + 1 && cells(f[r.0].0) > cap
                &&& !r.2 ==> span_cells(f, r.0, r.1) <= cap
            } by {
                if i < rows.len() {
                    assert(out[i] == rows[i]);
                }
            }
        }
    }
}

pub(crate) proof fn lemma_merge_runs_text(s: Seq<StyledChar>)
    ensures
        run_texts(merge_runs(s)) == s.map_values(|x: StyledChar| x.0),
    decreases s.len(),
{
    if s.len() > 0 {
        let p = s.drop_last();
        lemma_merge_runs_text(p);
        let m = merge_runs(p);
        let (c, st) = s.last();
        assert(s.map_values(|x: StyledChar| x.0) =~= p.map_values(|x: StyledChar| x.0).push(c));
        if m.len() > 0 && m.last().1 == st {
            let m2 = m.update(m.len() - 1, (m.last().0.push(c), st));
            assert(m2.drop_last() == m.drop_last());
            assert(run_texts(m) == run_texts(m.drop_last()) + m.last().0);
            assert(run_texts(m2) =~= run_texts(m).push(c));
        } else {
            let m2 = m.push((seq![c], st));
            assert(m2.drop_last() == m);
            assert(run_texts(m2) =~= run_texts(m).push(c));
        }
    }
}

/// A regular row shows exactly the characters of its span, in order and
/// with their original styles merged into maximal runs.
pub proof fn regular_row_shows_its_span(f: Seq<StyledChar>, s: int, e: int)
    requires
        0 <= s <= e <= f.len(),
    ensures
        run_texts(span_view((s, e, false), f)) == f.subrange(s, e).map_values(|x: StyledChar| x.0),
{
    lemma_merge_runs_text(f.subrange(s, e));
}

/// What a line shows of its scalars at `cap` cells per row: each scalar,
/// except that one wider than a row is shown as `…`.
pub open spec fn ellipsized(f: Seq<StyledChar>, cap: int) -> Seq<char> {
    f.map_values(|x: StyledChar| if cells(x.0) > cap { '…' } else { x.0 })
}

/// The characters shown by some rows, in order.
pub open spec fn rows_text(rows: Seq<RowSpan>, f: Seq<StyledChar>) -> Seq<char>
    decreases rows.len(),
{
    if rows.len() == 0 {
        Seq::empty()
    } else {
        rows_text(rows.drop_last(), f) + run_texts(span_view(rows.last(), f))
    }
}

proof fn lemma_seq_cells_bound(s: Seq<char>, i: int)
    requires
        0 <= i < s.len(),
    ensures
        cells(s[i]) <= seq_cells(s),
    decreases s.len(),
{
    if i < s.len() - 1 {
        lemma_seq_cells_bound(s.drop_last(), i);
    }
}

proof fn lemma_tiles_prefix(rows: Seq<RowSpan>, end: int, f: Seq<StyledChar>, cap: int)
    requires
        tiles(rows, end, f, cap),
        rows.len() > 0,
    ensures
        tiles(rows.drop_last(), rows.last().0, f, cap),
{
    let p = rows.drop_last();
    assert forall|i: int| 0 <= i < p.len() - 1 implies (#[trigger] p[i]).1 == p[i + 1].0 by {
        assert(p[i] == rows[i] && p[i + 1] == rows[i + 1]);
    }
    if p.len() > 0 {
        assert(p.last() == rows[rows.len() - 2]);
    }
}

proof fn lemma_span_text(r: RowSpan, f: Seq<StyledChar>, cap: int)
    requires
        0 <= r.0 < r.1 <= f.len(),
        r.2 ==> r.1 == r.0 + 1 && cells(f[r.0].0) > cap,
        !r.2 ==> span_cells(f, r.0, r.1) <= cap,
    ensures
        run_texts(span_view(r, f)) == ellipsized(f.subrange(r.0, r.1), cap),
{
    if r.2 {
        reveal_with_fuel(run_texts, 2);
        reveal_strlit("…");
        assert(run_texts(span_view(r, f)).drop_last() =~= Seq::<char>::empty());
        assert(run_texts(span_view(r, f)) =~= seq!['…']);
        assert(ellipsized(f.subrange(r.0, r.1), cap) =~= seq!['…']);
    } else {
        regular_row_shows_its_span(f, r.0, r.1);
        let chars = f.subrange(r.0, r.1).map_values(|x: StyledChar| x.0);
        assert forall|k: int| 0 <= k < chars.len() implies cells(#[trigger] chars[k]) <= cap by {
            lemma_seq_cells_bound(chars, k);
        }
        assert(ellipsized(f.subrange(r.0, r.1), cap) =~= chars);
    }
}

proof fn lemma_ellipsized_split(f: Seq<StyledChar>, a: int, b: int, c: int, cap: int)
    requires
        0 <= a <= b <= c <= f.len(),
    ensures
        ellipsized(f.subrange(a, c), cap) == ellipsized(f.subrange(a, b), cap) + ellipsized(f.subrange(b, c), cap),
{
    assert(ellipsized(f.subrange(a, c), cap) =~= ellipsized(f.subrange(a, b), cap) + ellipsized(f.subrange(b, c), cap));
}

proof fn lemma_rows_text(rows: Seq<RowSpan>, end: int, f: Seq<StyledChar>, cap: int)
    requires
        tiles(rows, end, f, cap),
        0 <= end <= f.len(),
    ensures
        rows_text(rows, f) == ellipsized(f.subrange(0, end), cap),
    decreases rows.len(),
{
    if rows.len() == 0 {
        assert(ellipsized(f.subrange(0, end), cap) =~= Seq::<char>::empty());
    } else {
        let r = rows.last();
        assert(r == rows[rows.len() - 1]);
        lemma_tiles_prefix(rows, end, f, cap);
        lemma_rows_text(rows.drop_last(), r.0, f, cap);
        lemma_span_text(r, f, cap);
        lemma_ellipsized_split(f, 0, r.0, end, cap);
    }
}

/// Read in order, the rows of a logical line show every scalar of it once,
/// and show a scalar wider than a row as `…`; every row fits the width
/// (see `row_spans_tile_the_line`).
pub proof fn rows_show_the_line_with_wide_scalars_elided(line: ScrollbackLine, width: u16)
    ensures
        rows_text(row_spans(flatten(line.segments@), width as int), flatten(line.segments@)) == ellipsized(
            flatten(line.segments@),
            width as int,
        ),
{
    let f = flatten(line.segments@);
    row_spans_tile_the_line(line, width);
    lemma_rows_text(row_spans(f, width as int), f.len() as int, f, width as int);
    assert(f.subrange(0, f.len() as int) =~= f);
}

} // verus!
