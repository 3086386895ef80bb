//! Committing finished transcript lines to the terminal's scrollback one
//! physical row at a time: each line is wrapped at the viewport width, lines
//! the width cannot show are held back together with everything after them,
//! and when the terminal fails mid-way exactly the rows that were not
//! committed are handed back.

use vstd::prelude::*;
use vstd::string::StringExecFns;
use crate::projection::{StyledChar, flatten, flatten_segments, lemma_merge_runs_push, merge_runs, push_styled_char, segs_view};
use crate::style::{HistoryAttrs, HistorySegment, ScrollbackLine, TermColor, copy_line, same_line};
use crate::width::{cells, char_cells, str_width, str_width_spec};

verus! {

/// Some scalar of the line is wider than a row of `width` cells (at width
/// zero every line is).
pub open spec fn unrenderable(f: Seq<StyledChar>, width: int) -> bool {
    width == 0 || exists|k: int| 0 <= k < f.len() && cells(#[trigger] f[k].0) > width
}

/// Whether a line has a scalar no row of `viewport_width` cells can show.
pub fn line_has_unrenderable_scalar(line: &ScrollbackLine, viewport_width: u16) -> (b: bool)
    ensures
        b == unrenderable(flatten(line.segments@), viewport_width as int),
{
    if viewport_width == 0 {
        return true;
    }
    let f = flatten_segments(&line.segments);
    let ghost fv = flatten(line.segments@);
    proof {
        lemma_flat_len(f@, fv);
    }
    let mut k: usize = 0;
    while k < f.len()
        invariant
            k <= f@.len(),
            fv == flatten(line.segments@),
            f@.len() == fv.len(),
            forall|t: int| 0 <= t < f@.len() ==> (#[trigger] f@[t]).0 == fv[t].0,
            forall|t: int| 0 <= t < k ==> cells(#[trigger] fv[t].0) <= viewport_width,
        decreases f@.len() - k,
    {
        let c = f[k].0;
        if char_cells(c) > viewport_width as usize {
            proof {
                assert(f@[k as int].0 == fv[k as int].0);
                assert(c == fv[k as int].0);
                assert(cells(fv[k as int].0) > viewport_width);
                assert(0 <= k < fv.len() && cells(fv[k as int].0) > viewport_width);
                assert(unrenderable(fv, viewport_width as int));
            }
            return true;
        }
        k = k + 1;
    }
    false
}

/// `n` blanks.
pub open spec fn spaces(n: nat) -> Seq<char> {
    Seq::new(n, |_i: int| ' ')
}

/// The blank prefix that continuation rows start with: as wide as a short
/// first segment (one to three cells, narrower than the row) of a line of
/// several segments, in that segment's colour.
pub open spec fn continuation(segs: Seq<HistorySegment>, width: int) -> Option<(nat, Option<TermColor>)> {
    if segs.len() > 1 {
        let pw = str_width_spec(segs[0].text@);
        if 0 < pw && pw <= 3 && pw < width {
            Some((pw, segs[0].fg))
        } else {
            None
        }
    } else {
        None
    }
}

/// The styled blanks of a continuation prefix.
pub open spec fn prefix_chars(pw: nat, fg: Option<TermColor>) -> Seq<StyledChar> {
    Seq::new(pw, |_i: int| (' ', (fg, HistoryAttrs::plain_spec())))
}

/// Greedy wrapping of styled characters at `cap` cells: `(closed rows, open
/// row, cells the open row uses)`. A character that does not fit after
/// some used cells opens a new row, which starts with the continuation
/// prefix when the prefix and the character fit together.
pub open spec fn wrap_scan(
    f: Seq<StyledChar>,
    cap: int,
    pre: Option<(nat, Option<TermColor>)>,
) -> (Seq<Seq<StyledChar>>, Seq<StyledChar>, int)
    decreases f.len(),
{
    if f.len() == 0 {
        (Seq::empty(), Seq::empty(), 0)
    } else {
        let (rows, cur, used) = wrap_scan(f.drop_last(), cap, pre);
        let x = f.last();
        let cw = cells(x.0) as int;
        if used > 0 && used + cw > cap {
            let (start, start_used) = match pre {
                Some((pw, fg)) => {
                    let pfw = str_width_spec(spaces(pw)) as int;
                    if pfw + cw <= cap {
                        (prefix_chars(pw, fg), pfw)
                    } else {
                        (Seq::empty(), 0)
                    }
                },
                None => (Seq::empty(), 0),
            };
            (rows.push(cur), start.push(x), start_used + cw)
        } else {
            (rows, cur.push(x), used + cw)
        }
    }
}

/// The rows of styled characters a line wraps into.
pub open spec fn wrap_rows(f: Seq<StyledChar>, cap: int, pre: Option<(nat, Option<TermColor>)>) -> Seq<Seq<StyledChar>> {
    let (rows, cur, _used) = wrap_scan(f, cap, pre);
    if cur.len() > 0 {
        rows.push(cur)
    } else {
        rows
    }
}

/// A physical row showing `chars` with the background `bg`.
pub open spec fn row_shows(row: ScrollbackLine, chars: Seq<StyledChar>, bg: Option<TermColor>) -> bool {
    &&& row.wf()
    &&& segs_view(row.segments@) == merge_runs(chars)
    &&& row.bg == bg
    &&& row.fill is None
}

/// A line that fits the width is kept as it is; a longer one becomes the
/// rows of `wrap_rows`, each with the line's background.
pub open spec fn wrapped_as(out: Seq<ScrollbackLine>, line: ScrollbackLine, width: int) -> bool {
    if str_width_spec(line.text@) <= width {
        out.len() == 1 && same_line(out[0], line)
    } else {
        let rows = wrap_rows(flatten(line.segments@), width, continuation(line.segments@, width));
        &&& out.len() == rows.len()
        &&& forall|i: int| 0 <= i < out.len() ==> row_shows(#[trigger] out[i], rows[i], line.bg)
    }
}

proof fn lemma_flat_len(f: Seq<(char, Option<TermColor>, HistoryAttrs)>, fv: Seq<StyledChar>)
    requires
        f.map_values(|t: (char, Option<TermColor>, HistoryAttrs)| (t.0, (t.1, t.2))) == fv,
    ensures
        f.len() == fv.len(),
        forall|t: int| 0 <= t < f.len() ==> (f[t].0, (f[t].1, f[t].2)) == #[trigger] fv[t],
{
    assert forall|t: int| 0 <= t < f.len() implies (f[t].0, (f[t].1, f[t].2)) == #[trigger] fv[t] by {
        assert(f.map_values(|tt: (char, Option<TermColor>, HistoryAttrs)| (tt.0, (tt.1, tt.2)))[t] == (f[t].0, (f[t].1, f[t].2)));
    }
}

proof fn lemma_prefix_runs(pw: nat, fg: Option<TermColor>)
    requires
        pw > 0,
    ensures
        merge_runs(prefix_chars(pw, fg)) == seq![(spaces(pw), (fg, HistoryAttrs::plain_spec()))],
    decreases pw,
{
    let s = prefix_chars(pw, fg);
    let st = (fg, HistoryAttrs::plain_spec());
    assert(s.drop_last() =~= prefix_chars((pw - 1) as nat, fg));
    assert(s.last() == (' ', st));
    lemma_merge_runs_push(s.drop_last(), s.last());
    assert(s.drop_last().push(s.last()) =~= s);
    if pw == 1 {
        assert(prefix_chars(0, fg) =~= Seq::<StyledChar>::empty());
        assert(spaces(1) =~= seq![' ']);
    } else {
        lemma_prefix_runs((pw - 1) as nat, fg);
        assert(spaces(pw) =~= spaces((pw - 1) as nat).push(' '));
    }
}

proof fn lemma_merge_runs_empty(s: Seq<StyledChar>)
    ensures
        merge_runs(s).len() == 0 <==> s.len() == 0,
{
    if s.len() > 0 {
        lemma_merge_runs_push(s.drop_last(), s.last());
        assert(s.drop_last().push(s.last()) == s);
    }
}

/// Wraps one finished line to the viewport width (see `wrapped_as`).
pub fn wrap_scrollback_line(line: ScrollbackLine, width: u16) -> (out: Vec<ScrollbackLine>)
    ensures
        wrapped_as(out@, line, width as int),
{
    if str_width(line.text.as_str()) <= width as usize {
        return vec![line];
    }
    let ghost pre = continuation(line.segments@, width as int);
    let mut prefix: Option<(usize, Option<TermColor>)> = None;
    if line.segments.len() > 1 {
        let pw = str_width(line.segments[0].text.as_str());
        if pw > 0 && pw <= 3 && pw < width as usize {
            prefix = Some((pw, line.segments[0].fg));
        }
    }
    let f = flatten_segments(&line.segments);
    let ghost fv = flatten(line.segments@);
    proof {
        lemma_flat_len(f@, fv);
    }
    let cap = width as usize;
    let mut rows: Vec<ScrollbackLine> = Vec::new();
    let mut current: Vec<HistorySegment> = Vec::new();
    let mut used: usize = 0;
    let mut i: usize = 0;
    proof {
        assert(fv.take(0) =~= Seq::<StyledChar>::empty());
    }
    while i < f.len()
        invariant
            i <= f@.len(),
            fv == flatten(line.segments@),
            f@.len() == fv.len(),
            forall|t: int| 0 <= t < f@.len() ==> (f@[t].0, (f@[t].1, f@[t].2)) == #[trigger] fv[t],
            cap == width,
            pre == continuation(line.segments@, width as int),
            match prefix {
                Some((pw, fg)) => pre == Some((pw as nat, fg)),
                None => pre is None,
            },
            ({
                let (srows, scur, sused) = wrap_scan(fv.take(i as int), cap as int, pre);
                &&& rows@.len() == srows.len()
                &&& forall|t: int| 0 <= t < rows@.len() ==> row_shows(#[trigger] rows@[t], srows[t], line.bg)
                &&& segs_view(current@) == merge_runs(scur)
                &&& used == sused
            }),
            used <= (if cap > 3 { cap } else { 3 }),
        decreases f@.len() - i,
    {
        let (ch, fg, attrs) = f[i];
        let cw = char_cells(ch);
        let ghost before = wrap_scan(fv.take(i as int), cap as int, pre);
        let ghost after = wrap_scan(fv.take(i + 1), cap as int, pre);
        let ghost x = fv[i as int];
        proof {
            assert(fv.take(i + 1).drop_last() =~= fv.take(i as int));
            assert(fv.take(i + 1).last() == fv[i as int]);
            assert(x == (ch, (fg, attrs)));
            assert(cells(x.0) == cw);
        }
        if used > 0 && used + cw > cap {
            let finished = current;
            current = Vec::new();
            let row = ScrollbackLine::styled(finished, line.bg);
            rows.push(row);
            used = 0;
            proof {
                assert(segs_view(current@) =~= merge_runs(Seq::<StyledChar>::empty()));
            }
            match &prefix {
                Some((pw, pfg)) => {
                    let mut blanks = String::new();
                    let mut k: usize = 0;
                    while k < *pw
                        invariant
                            k <= *pw,
                            blanks@ == spaces(k as nat),
                        decreases *pw - k,
                    {
                        blanks.push(' ');
                        proof {
                            assert(spaces((k + 1) as nat) =~= spaces(k as nat).push(' '));
                        }
                        k = k + 1;
                    }
                    let pfw = str_width(blanks.as_str());
                    if pfw.saturating_add(cw) <= cap {
                        used = pfw;
                        let seg = HistorySegment { text: blanks, fg: *pfg, attrs: HistoryAttrs::plain() };
                        current.push(seg);
                        proof {
                            lemma_prefix_runs(*pw as nat, *pfg);
                            assert(segs_view(current@) =~= merge_runs(prefix_chars(*pw as nat, *pfg)));
                            assert(prefix_chars(*pw as nat, *pfg).push(x).drop_last() =~= prefix_chars(*pw as nat, *pfg));
                        }
                    } else {
                        proof {
                            assert(Seq::<StyledChar>::empty().push(x).drop_last() =~= Seq::<StyledChar>::empty());
                        }
                    }
                },
                None => {
                    proof {
                        assert(Seq::<StyledChar>::empty().push(x).drop_last() =~= Seq::<StyledChar>::empty());
                    }
                },
            }
            proof {
                assert(segs_view(current@) == merge_runs(after.1.drop_last()));
                assert(used + cw == after.2);
                assert(rows@.len() == after.0.len());
                assert(after.0 == before.0.push(before.1));
            }
        } else {
            proof {
                assert(before.1.push(x).drop_last() =~= before.1);
                assert(segs_view(current@) == merge_runs(after.1.drop_last()));
            }
        }
        proof {
            lemma_merge_runs_push(after.1.drop_last(), x);
            assert(after.1.drop_last().push(x) =~= after.1);
        }
        push_styled_char(&mut current, ch, fg, attrs);
        used = used + cw;
        i = i + 1;
    }
    proof {
        assert(fv.take(f@.len() as int) =~= fv);
    }
    proof {
        let (srows, scur, sused) = wrap_scan(fv, cap as int, pre);
        lemma_merge_runs_empty(scur);
        assert(segs_view(current@).len() == current@.len());
    }
    if current.len() > 0 {
        rows.push(ScrollbackLine::styled(current, line.bg));
    }
    rows
}

/// A line is held back when one of its scalars is wider than the viewport,
/// or when it carries a fill token and does not fit the viewport.
pub open spec fn blocks(line: ScrollbackLine, width: int) -> bool {
    unrenderable(flatten(line.segments@), width) || (line.fill is Some && str_width_spec(line.text@) > width)
}

/// A logical line ready for the terminal, with the physical rows it takes.
pub struct PreparedLogicalLine {
    pub original: ScrollbackLine,
    pub physical_rows: Vec<ScrollbackLine>,
}

/// The lines ready to be committed, in order, and the held-back rest.
pub struct HistoryPreparation {
    pub ready_prefix: Vec<PreparedLogicalLine>,
    pub deferred_suffix: Vec<ScrollbackLine>,
}

/// `p` prepares `line`: a line with a fill token keeps its one row, any
/// other is wrapped (see `wrapped_as`).
pub open spec fn prepared_ok(p: PreparedLogicalLine, line: ScrollbackLine, width: int) -> bool {
    &&& same_line(p.original, line)
    &&& if line.fill is Some {
        p.physical_rows@.len() == 1 && same_line(p.physical_rows@[0], line)
    } else {
        wrapped_as(p.physical_rows@, line, width)
    }
}

/// A line that is not held back, prepared as `p`.
pub open spec fn ready_line(p: PreparedLogicalLine, line: ScrollbackLine, width: int) -> bool {
    !blocks(line, width) && prepared_ok(p, line, width)
}

/// `prep` is the preparation of `lines`: the longest prefix of lines that
/// are not held back, each prepared, and every line from the first held-back
/// one on, unchanged.
pub open spec fn prepared_as(prep: HistoryPreparation, lines: Seq<ScrollbackLine>, width: int) -> bool {
    let k = prep.ready_prefix@.len() as int;
    &&& k <= lines.len()
    &&& forall|i: int| 0 <= i < k ==> ready_line(#[trigger] prep.ready_prefix@[i], lines[i], width)
    &&& k < lines.len() ==> blocks(lines[k], width)
    &&& prep.deferred_suffix@.len() == lines.len() - k
    &&& forall|j: int| 0 <= j < prep.deferred_suffix@.len() ==> same_line(#[trigger] prep.deferred_suffix@[j], lines[k + j])
}

proof fn lemma_wrapped_as_same(out: Seq<ScrollbackLine>, a: ScrollbackLine, b: ScrollbackLine, width: int)
    requires
        wrapped_as(out, a, width),
        same_line(a, b),
    ensures
        wrapped_as(out, b, width),
{
}

/// Splits finished lines into rows ready for a viewport of the given width
/// and the held-back rest (see `prepared_as`).
pub fn prepare_history_rows(lines: Vec<ScrollbackLine>, viewport_width: u16) -> (prep: HistoryPreparation)
    ensures
        prepared_as(prep, lines@, viewport_width as int),
{
    let mut ready: Vec<PreparedLogicalLine> = Vec::new();
    let mut deferred: Vec<ScrollbackLine> = Vec::new();
    let mut blocked = false;
    let mut i: usize = 0;
    while i < lines.len()
        invariant
            i <= lines@.len(),
            blocked ==> ready@.len() < i,
            !blocked ==> ready@.len() == i && deferred@.len() == 0,
            ready@.len() <= i,
            forall|t: int| 0 <= t < ready@.len() ==> ready_line(#[trigger] ready@[t], lines@[t], viewport_width as int),
            blocked ==> blocks(lines@[ready@.len() as int], viewport_width as int),
            deferred@.len() == i - ready@.len(),
            forall|j: int| 0 <= j < deferred@.len() ==> same_line(#[trigger] deferred@[j], lines@[ready@.len() + j]),
        decreases lines@.len() - i,
    {
        let line = &lines[i];
        let holds_back = blocked || line_has_unrenderable_scalar(line, viewport_width) || (match &line.fill {
            Some(_) => str_width(line.text.as_str()) > viewport_width as usize,
            None => false,
        });
        if holds_back {
            proof {
                if !blocked {
                    assert(blocks(lines@[i as int], viewport_width as int));
                }
            }
            blocked = true;
            deferred.push(copy_line(line));
        } else {
            let original = copy_line(line);
            let physical_rows = match &line.fill {
                Some(_) => {
                    let v = vec![copy_line(line)];
                    v
                },
                None => {
                    let copy = copy_line(line);
                    let ghost cv = copy;
                    let rows = wrap_scrollback_line(copy, viewport_width);
                    proof {
                        lemma_wrapped_as_same(rows@, cv, *line, viewport_width as int);
                    }
                    rows
                },
            };
            let ghost item = PreparedLogicalLine { original, physical_rows };
            ready.push(PreparedLogicalLine { original, physical_rows });
            proof {
                assert(!blocks(lines@[i as int], viewport_width as int));
                assert(ready@[i as int] == item);
                assert(prepared_ok(item, lines@[i as int], viewport_width as int));
                assert(ready_line(ready@[i as int], lines@[i as int], viewport_width as int));
            }
        }
        i = i + 1;
    }
    HistoryPreparation { ready_prefix: ready, deferred_suffix: deferred }
}

/// The rows read one after the other.
pub open spec fn concat_rows(rows: Seq<Seq<StyledChar>>) -> Seq<StyledChar>
    decreases rows.len(),
{
    if rows.len() == 0 {
        Seq::empty()
    } else {
        concat_rows(rows.drop_last()) + rows.last()
    }
}

/// The cells a row of styled characters occupies.
pub open spec fn row_cells(s: Seq<StyledChar>) -> int
    decreases s.len(),
{
    if s.len() == 0 {
        0
    } else {
        row_cells(s.drop_last()) + cells(s.last().0)
    }
}

proof fn lemma_wrap_scan_plain(f: Seq<StyledChar>, cap: int)
    ensures
        concat_rows(wrap_scan(f, cap, None).0) + wrap_scan(f, cap, None).1 == f,
        wrap_scan(f, cap, None).2 == row_cells(wrap_scan(f, cap, None).1),
        cap >= 0 && !unrenderable(f, cap) ==> {
            &&& wrap_scan(f, cap, None).2 <= cap
            &&& forall|k: int| 0 <= k < wrap_scan(f, cap, None).0.len() ==> row_cells(#[trigger] wrap_scan(f, cap, None).0[k]) <= cap
        },
    decreases f.len(),
{
    if f.len() > 0 {
        let p = f.drop_last();
        lemma_wrap_scan_plain(p, cap);
        let (rows, cur, used) = wrap_scan(p, cap, None);
        let x = f.last();
        let cw = cells(x.0) as int;
        assert(p.push(x) =~= f);
        if !unrenderable(f, cap) {
            assert(!unrenderable(p, cap)) by {
                if unrenderable(p, cap) && cap != 0 {
                    let k = choose|k: int| 0 <= k < p.len() && cells(#[trigger] p[k].0) > cap;
                    assert(f[k] == p[k]);
                }
            }
            assert(cells(f[f.len() - 1].0) <= cap);
        }
        if used > 0 && used + cw > cap {
            let nc = Seq::<StyledChar>::empty().push(x);
            assert(rows.push(cur).drop_last() =~= rows);
            assert(nc.drop_last() =~= Seq::<StyledChar>::empty());
            assert(nc.last() == x);
            assert(row_cells(Seq::<StyledChar>::empty()) == 0);
            assert(row_cells(nc) == cw);
            assert(concat_rows(rows.push(cur)) + nc =~= (concat_rows(rows) + cur).push(x));
            if !unrenderable(f, cap) {
                assert forall|k: int| 0 <= k < rows.push(cur).len() implies row_cells(#[trigger] rows.push(cur)[k]) <= cap by {
                    if k < rows.len() {
                        assert(rows.push(cur)[k] == rows[k]);
                    }
                }
            }
        } else {
            assert(cur.push(x).drop_last() =~= cur);
            assert(cur.push(x).last() == x);
            assert(row_cells(cur.push(x)) == row_cells(cur) + cw);
            assert(concat_rows(rows) + cur.push(x) =~= (concat_rows(rows) + cur).push(x));
        }
    }
}

/// Wrapping loses and repeats nothing: a line without a continuation
/// prefix, read row after row, is the line's characters.
pub proof fn wrapping_keeps_every_character(f: Seq<StyledChar>, width: u16)
    ensures
        concat_rows(wrap_rows(f, width as int, None)) == f,
{
    lemma_wrap_scan_plain(f, width as int);
    let (rows, cur, used) = wrap_scan(f, width as int, None);
    if cur.len() > 0 {
        assert(rows.push(cur).drop_last() =~= rows);
    } else {
        assert(concat_rows(rows) + cur =~= concat_rows(rows));
    }
}

/// Every row fits: when no character is wider than the viewport, each row
/// of a line without a continuation prefix occupies at most `width` cells.
pub proof fn wrapped_rows_fit_the_width(f: Seq<StyledChar>, width: u16)
    requires
        !unrenderable(f, width as int),
    ensures
        forall|k: int|
            0 <= k < wrap_rows(f, width as int, None).len() ==> row_cells(#[trigger] wrap_rows(f, width as int, None)[k])
                <= width,
{
    lemma_wrap_scan_plain(f, width as int);
    let (rows, cur, used) = wrap_scan(f, width as int, None);
    if cur.len() > 0 {
        assert forall|k: int| 0 <= k < rows.push(cur).len() implies row_cells(#[trigger] rows.push(cur)[k]) <= width by {
            if k < rows.len() {
                assert(rows.push(cur)[k] == rows[k]);
            }
        }
    }
}

/// Where committed rows go: the terminal's scrollback. A row with plain
/// segments only is inserted as text, any other with its segments.
pub trait HistoryWriter {
    type Error;

    fn insert_plain(&mut self, text: &str, bg: Option<TermColor>) -> Result<(), Self::Error>;

    fn insert_styled(&mut self, segments: &[HistorySegment], bg: Option<TermColor>) -> Result<(), Self::Error>;
}

/// A writer together with every insertion asked of it (each row with
/// whether it went as plain text) and the rows it accepted so far, which the
/// contracts speak about.
pub struct TracedWriter<W> {
    pub writer: W,
    pub requests: Ghost<Seq<(bool, ScrollbackLine)>>,
    pub committed: Ghost<Seq<ScrollbackLine>>,
}

/// No fill token, no colour and no attributes.
pub open spec fn plain_only(row: ScrollbackLine) -> bool {
    &&& row.fill is None
    &&& forall|k: int| 0 <= k < row.segments@.len() ==> (#[trigger] row.segments@[k]).fg is None && row.segments@[k].attrs
        == HistoryAttrs::plain_spec()
}

/// Whether a row can be inserted as plain text.
pub fn has_plain_segments_only(row: &ScrollbackLine) -> (b: bool)
    ensures
        b == plain_only(*row),
{
    if row.fill.is_some() {
        return false;
    }
    let mut k: usize = 0;
    while k < row.segments.len()
        invariant
            k <= row.segments@.len(),
            row.fill is None,
            forall|t: int| 0 <= t < k ==> (#[trigger] row.segments@[t]).fg is None && row.segments@[t].attrs
                == HistoryAttrs::plain_spec(),
        decreases row.segments@.len() - k,
    {
        let seg = &row.segments[k];
        let plain = seg.fg.is_none() && !seg.attrs.bold && !seg.attrs.italic && !seg.attrs.underlined && !seg.attrs.dim;
        if !plain {
            return false;
        }
        k = k + 1;
    }
    true
}

impl<W: HistoryWriter> TracedWriter<W> {
    /// Starts tracing `writer` with nothing asked and nothing committed.
    pub fn new(writer: W) -> (t: Self)
        ensures
            t.requests@ == Seq::<(bool, ScrollbackLine)>::empty(),
            t.committed@ == Seq::<ScrollbackLine>::empty(),
    {
        TracedWriter { writer, requests: Ghost(Seq::empty()), committed: Ghost(Seq::empty()) }
    }

    /// Asks the writer to insert one physical row: as plain text when it has
    /// plain segments only (see `plain_only`), with its segments otherwise.
    /// The row counts as committed when the writer accepts it.
    pub fn insert_row(&mut self, row: &ScrollbackLine) -> (r: Result<(), W::Error>)
        ensures
            final(self).requests@ == old(self).requests@.push((plain_only(*row), *row)),
            r is Ok ==> final(self).committed@ == old(self).committed@.push(*row),
            r is Err ==> final(self).committed@ == old(self).committed@,
    {
        let plain = has_plain_segments_only(row);
        let r = if plain {
            self.writer.insert_plain(row.text.as_str(), row.bg)
        } else {
            self.writer.insert_styled(row.segments.as_slice(), row.bg)
        };
        self.requests = Ghost(self.requests@.push((plain, *row)));
        if r.is_ok() {
            self.committed = Ghost(self.committed@.push(*row));
        }
        r
    }
}

/// The physical rows of prepared lines, in order.
pub open spec fn all_rows(ready: Seq<PreparedLogicalLine>) -> Seq<ScrollbackLine>
    decreases ready.len(),
{
    if ready.len() == 0 {
        Seq::empty()
    } else {
        all_rows(ready.drop_last()) + ready.last().physical_rows@
    }
}

/// The original lines of prepared lines.
pub open spec fn originals(ready: Seq<PreparedLogicalLine>) -> Seq<ScrollbackLine> {
    ready.map_values(|p: PreparedLogicalLine| p.original)
}

/// What is handed back after physical row `c` of ready line `i` failed:
/// the rows of that line not yet committed (the whole original line when
/// none was), the later ready lines and the held-back lines, in order.
pub open spec fn handed_back(prep: HistoryPreparation, i: int, c: int) -> Seq<ScrollbackLine> {
    let ready = prep.ready_prefix@;
    (if c > 0 {
        ready[i].physical_rows@.skip(c)
    } else {
        seq![ready[i].original]
    }) + originals(ready.skip(i + 1)) + prep.deferred_suffix@
}

/// Two lists of lines hold the same values.
pub open spec fn lines_same(a: Seq<ScrollbackLine>, b: Seq<ScrollbackLine>) -> bool {
    a.len() == b.len() && forall|k: int| 0 <= k < a.len() ==> same_line(#[trigger] a[k], b[k])
}

fn append_copies(out: &mut Vec<ScrollbackLine>, src: &Vec<ScrollbackLine>, from: usize)
    requires
        from <= src@.len(),
    ensures
        lines_same(final(out)@, old(out)@ + src@.skip(from as int)),
{
    let ghost start = old(out)@;
    let mut j: usize = from;
    proof {
        assert forall|k: int| 0 <= k < out@.len() implies same_line(#[trigger] out@[k], (start + src@.subrange(from as int, j as int))[k]) by {}
    }
    while j < src.len()
        invariant
            from <= j <= src@.len(),
            lines_same(out@, start + src@.subrange(from as int, j as int)),
        decreases src@.len() - j,
    {
        out.push(copy_line(&src[j]));
        proof {
            assert(start + src@.subrange(from as int, j + 1) =~= (start + src@.subrange(from as int, j as int)).push(src@[j as int]));
        }
        j = j + 1;
    }
    proof {
        assert(src@.subrange(from as int, src@.len() as int) =~= src@.skip(from as int));
    }
}

fn append_originals(out: &mut Vec<ScrollbackLine>, ready: &Vec<PreparedLogicalLine>, from: usize)
    requires
        from <= ready@.len(),
    ensures
        lines_same(final(out)@, old(out)@ + originals(ready@.skip(from as int))),
{
    let ghost start = old(out)@;
    let ghost orig = originals(ready@);
    let mut j: usize = from;
    proof {
        assert forall|k: int| 0 <= k < out@.len() implies same_line(#[trigger] out@[k], (start + orig.subrange(from as int, j as int))[k]) by {}
    }
    while j < ready.len()
        invariant
            from <= j <= ready@.len(),
            orig == originals(ready@),
            lines_same(out@, start + orig.subrange(from as int, j as int)),
        decreases ready@.len() - j,
    {
        out.push(copy_line(&ready[j].original));
        proof {
            assert(start + orig.subrange(from as int, j + 1) =~= (start + orig.subrange(from as int, j as int)).push(orig[j as int]));
        }
        j = j + 1;
    }
    proof {
        assert(orig.subrange(from as int, ready@.len() as int) =~= originals(ready@.skip(from as int)));
    }
}

proof fn lemma_all_rows_push(ready: Seq<PreparedLogicalLine>, i: int)
    requires
        0 <= i < ready.len(),
    ensures
        all_rows(ready.take(i + 1)) == all_rows(ready.take(i)) + ready[i].physical_rows@,
{
    assert(ready.take(i + 1).drop_last() =~= ready.take(i));
}

/// Commits the ready lines row by row. When every row is accepted nothing
/// is handed back; when the writer fails, the rows accepted so far stay
/// committed and exactly the rest is handed back, in order (see
/// `handed_back`), so a retry commits every row once.
pub fn flush_prepared_with_writer<W: HistoryWriter>(
    prepared: HistoryPreparation,
    writer: &mut TracedWriter<W>,
) -> (r: (Vec<ScrollbackLine>, Result<(), W::Error>))
    ensures
        r.1 is Ok ==> r.0@.len() == 0 && final(writer).committed@ == old(writer).committed@ + all_rows(
            prepared.ready_prefix@,
        ),
        r.1 is Err ==> exists|i: int, c: int|
            0 <= i < prepared.ready_prefix@.len() && 0 <= c < prepared.ready_prefix@[i].physical_rows@.len()
                && final(writer).committed@ == old(writer).committed@ + all_rows(prepared.ready_prefix@.take(i))
                + prepared.ready_prefix@[i].physical_rows@.take(c) && lines_same(r.0@, #[trigger] handed_back(prepared, i, c)),
{
    let ready = &prepared.ready_prefix;
    let len = ready.len();
    let ghost start = writer.committed@;
    let mut i: usize = 0;
    proof {
        assert(ready@.take(0) =~= Seq::<PreparedLogicalLine>::empty());
    }
    while i < ready.len()
        invariant
            i <= ready@.len(),
            len == ready@.len(),
            ready == &prepared.ready_prefix,
            start == old(writer).committed@,
            writer.committed@ == start + all_rows(ready@.take(i as int)),
        decreases ready@.len() - i,
    {
        let rows = &ready[i].physical_rows;
        let ghost before = writer.committed@;
        let mut c: usize = 0;
        while c < rows.len()
            invariant
                c <= rows@.len(),
                i < ready@.len(),
                len == ready@.len(),
                start == old(writer).committed@,
                ready == &prepared.ready_prefix,
                rows == &ready@[i as int].physical_rows,
                before == start + all_rows(ready@.take(i as int)),
                writer.committed@ == before + rows@.take(c as int),
            decreases rows@.len() - c,
        {
            match writer.insert_row(&rows[c]) {
                Ok(()) => {
                    proof {
                        assert(rows@.take(c + 1) =~= rows@.take(c as int).push(rows@[c as int]));
                    }
                },
                Err(e) => {
                    let mut restored: Vec<ScrollbackLine> = Vec::new();
                    if c > 0 {
                        append_copies(&mut restored, rows, c);
                    } else {
                        restored.push(copy_line(&ready[i].original));
                    }
                    let ghost first = restored@;
                    append_originals(&mut restored, ready, i + 1);
                    let ghost second = restored@;
                    append_copies(&mut restored, &prepared.deferred_suffix, 0);
                    proof {
                        let hb = handed_back(prepared, i as int, c as int);
                        let part1 = if c > 0 { rows@.skip(c as int) } else { seq![ready@[i as int].original] };
                        assert(lines_same(first, part1)) by {
                            if c > 0 {
                                assert(Seq::<ScrollbackLine>::empty() + rows@.skip(c as int) =~= rows@.skip(c as int));
                            }
                        }
                        assert(prepared.deferred_suffix@.skip(0) =~= prepared.deferred_suffix@);
                        assert(hb =~= part1 + originals(ready@.skip(i + 1)) + prepared.deferred_suffix@);
                        assert(lines_same(restored@, hb)) by {
                            assert forall|k: int| 0 <= k < restored@.len() implies same_line(#[trigger] restored@[k], hb[k]) by {
                                if k < first.len() {
                                    assert(same_line(second[k], (first + originals(ready@.skip(i + 1)))[k]));
                                    assert(same_line(first[k], part1[k]));
                                } else if k < second.len() {
                                    assert(same_line(second[k], (first + originals(ready@.skip(i + 1)))[k]));
                                }
                            }
                        }
                        assert(0 <= c < ready@[i as int].physical_rows@.len());
                        assert(writer.committed@ == old(writer).committed@ + all_rows(prepared.ready_prefix@.take(i as int))
                            + prepared.ready_prefix@[i as int].physical_rows@.take(c as int));
                    }
                    return (restored, Err(e));
                },
            }
            c = c + 1;
        }
        proof {
            assert(rows@.take(rows@.len() as int) =~= rows@);
            lemma_all_rows_push(ready@, i as int);
            assert(rows@ == ready@[i as int].physical_rows@);
            assert((start + all_rows(ready@.take(i as int))) + rows@ =~= start + (all_rows(ready@.take(i as int)) + rows@));
            assert(writer.committed@ == start + all_rows(ready@.take(i + 1)));
        }
        i = i + 1;
    }
    proof {
        assert(ready@.take(ready@.len() as int) =~= ready@);
    }
    (Vec::new(), Ok(()))
}

} // verus!
