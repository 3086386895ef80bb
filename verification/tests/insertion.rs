use std::io;
use talos_tui::insertion::{
    flush_prepared_with_writer, line_has_unrenderable_scalar, prepare_history_rows, wrap_scrollback_line,
    HistoryPreparation, HistoryWriter, PreparedLogicalLine, TracedWriter,
};
use talos_tui::style::{HistoryAttrs, HistorySegment, ScrollbackLine, TermColor};

fn styled_line(text: &str) -> ScrollbackLine {
    ScrollbackLine::styled(vec![HistorySegment::raw(text)], None)
}

fn line_with_prefix(prefix: &str, body: &str) -> ScrollbackLine {
    ScrollbackLine::styled(vec![HistorySegment::raw(prefix), HistorySegment::raw(body)], None)
}

fn width_of(s: &str) -> usize {
    unicode_width::UnicodeWidthStr::width(s)
}

fn ready_texts(prep: &HistoryPreparation) -> Vec<String> {
    prep.ready_prefix.iter().flat_map(|l| l.physical_rows.iter()).map(|r| r.text.clone()).collect()
}

fn deferred_texts(prep: &HistoryPreparation) -> Vec<String> {
    prep.deferred_suffix.iter().map(|l| l.text.clone()).collect()
}

#[test]
fn width_zero_defers_all_lines() {
    let lines = vec![styled_line(&"x".repeat(50)), styled_line("hello")];
    let prep = prepare_history_rows(lines.clone(), 0);
    assert!(prep.ready_prefix.is_empty(), "width 0 must defer everything");
    assert_eq!(prep.deferred_suffix.len(), 2);
    assert_eq!(prep.deferred_suffix[0].text, lines[0].text);
    assert_eq!(prep.deferred_suffix[1].text, lines[1].text);
}

#[test]
fn repeated_unrenderable_flush_does_not_duplicate_or_drop() {
    let original = vec![styled_line("hello"), styled_line("你好")];
    for _ in 0..5 {
        let prep = prepare_history_rows(original.clone(), 0);
        assert_eq!(prep.deferred_suffix.len(), 2);
        assert_eq!(prep.ready_prefix.len(), 0);
        assert_eq!(prep.deferred_suffix[0].text, "hello");
        assert_eq!(prep.deferred_suffix[1].text, "你好");
    }
}

#[test]
fn unrenderable_middle_line_defers_entire_suffix() {
    let lines = vec![styled_line("AAA"), styled_line("你好"), styled_line("CCC")];
    let prep = prepare_history_rows(lines, 1);
    let rt = ready_texts(&prep);
    assert!(!rt.is_empty(), "ready prefix exists");
    assert!(rt.iter().all(|s| s == "A"), "AAA wrapped at width 1 into single-cell rows");
    let dt = deferred_texts(&prep);
    assert_eq!(dt, vec!["你好", "CCC"], "the unrenderable line and everything after it is deferred");
}

#[test]
fn unrenderable_first_line_blocks_later_lines() {
    let lines = vec![styled_line("你好"), styled_line("CCC")];
    let prep = prepare_history_rows(lines, 1);
    assert!(prep.ready_prefix.is_empty(), "nothing ready when first line blocks");
    let dt = deferred_texts(&prep);
    assert_eq!(dt, vec!["你好", "CCC"]);
}

#[test]
fn repeated_defer_restore_preserves_fifo_exactly_once() {
    let lines = vec![styled_line("A"), styled_line("你好"), styled_line("C"), styled_line("世界"), styled_line("E")];
    let mut pending = lines.clone();
    let mut inserted: Vec<String> = Vec::new();

    for w in [1u16, 2, 1, 80] {
        let prep = prepare_history_rows(pending.clone(), w);
        inserted.extend(ready_texts(&prep));
        pending = prep.deferred_suffix;
    }
    let joined = inserted.join("");
    assert!(joined.starts_with("A"), "starts with A");
    assert!(joined.contains("你好"), "CJK pair 1 preserved");
    assert!(joined.contains("C"), "C preserved");
    assert!(joined.contains("世界"), "CJK pair 2 preserved");
    assert!(joined.ends_with("E"), "ends with E");
    assert_eq!(joined.chars().filter(|c| *c == 'A').count(), 1, "A exactly once");
    assert_eq!(joined.chars().filter(|c| *c == 'C').count(), 1, "C exactly once");
    assert_eq!(joined.chars().filter(|c| *c == 'E').count(), 1, "E exactly once");
    assert!(pending.is_empty(), "pending drained after width 80");
}

#[test]
fn narrow_ascii_widths_split_into_rows_within_viewport() {
    let line = styled_line(&"x".repeat(50));
    for w in [1u16, 2, 3] {
        let prep = prepare_history_rows(vec![line.clone()], w);
        assert!(prep.deferred_suffix.is_empty(), "ASCII width {w} not deferred");
        let rt = ready_texts(&prep);
        assert!(!rt.is_empty(), "width {w} produces rows");
        for (i, t) in rt.iter().enumerate() {
            assert!(width_of(t) <= w as usize, "width {w} row {i} is {} cells", width_of(t));
        }
    }
}

#[test]
fn cjk_at_width_one_is_deferred_without_substitution() {
    let cjk = styled_line("你好");
    let prep = prepare_history_rows(vec![cjk.clone()], 1);
    assert!(prep.ready_prefix.is_empty(), "CJK at width 1 must defer");
    assert_eq!(prep.deferred_suffix.len(), 1);
    assert_eq!(prep.deferred_suffix[0].text, "你好");
    assert!(
        !prep.deferred_suffix[0].text.contains('.') && !prep.deferred_suffix[0].text.contains('\u{fffd}'),
        "no substitution markers"
    );
}

#[test]
fn cjk_at_width_two_wraps_losslessly() {
    let cjk = styled_line(&"你好".repeat(20));
    let prep = prepare_history_rows(vec![cjk.clone()], 2);
    assert!(prep.deferred_suffix.is_empty());
    let rt = ready_texts(&prep);
    assert!(!rt.is_empty());
    for t in &rt {
        assert!(width_of(t) <= 2, "width 2 row within viewport");
    }
    let joined: String = rt.join("");
    assert!(joined.contains('你') && joined.contains('好'));
}

#[test]
fn mixed_ascii_cjk_at_width_one_defers_preserving_content() {
    let mixed = styled_line("abc你好xyz");
    let prep = prepare_history_rows(vec![mixed.clone()], 1);
    assert!(prep.ready_prefix.is_empty());
    assert_eq!(prep.deferred_suffix[0].text, "abc你好xyz");
}

#[test]
fn mixed_ascii_cjk_at_width_two_wraps_losslessly() {
    let mixed = styled_line("abc你好xyz");
    let prep = prepare_history_rows(vec![mixed.clone()], 2);
    assert!(prep.deferred_suffix.is_empty());
    let joined: String = ready_texts(&prep).join("");
    assert!(joined.contains("abc") && joined.contains("你好") && joined.contains("xyz"));
}

#[test]
fn width_four_wraps_with_bounded_rows() {
    let line = styled_line(&"a".repeat(200));
    let prep = prepare_history_rows(vec![line], 4);
    assert!(prep.deferred_suffix.is_empty());
    let rt = ready_texts(&prep);
    assert!(rt.len() <= 200);
    for t in &rt {
        assert!(width_of(t) <= 4);
    }
}

#[test]
fn three_cell_prefix_continuation_at_width_4() {
    let line = line_with_prefix(" → ", &"a".repeat(40));
    let out = wrap_scrollback_line(line, 4);
    assert!(out.len() > 1);
    for row in &out {
        assert!(width_of(&row.text) <= 4);
    }
}

#[test]
fn empty_line_safe_at_all_widths() {
    let empty = styled_line("");
    for w in [1u16, 2, 3, 4, 80] {
        let out = wrap_scrollback_line(empty.clone(), w);
        assert_eq!(out.len(), 1);
        assert!(out[0].text.is_empty());
    }
    let prep = prepare_history_rows(vec![empty], 0);
    assert!(prep.ready_prefix.is_empty());
    assert_eq!(prep.deferred_suffix.len(), 1);
}

#[test]
fn long_ascii_at_width_2_splits() {
    let long = styled_line(&"z".repeat(500));
    let prep = prepare_history_rows(vec![long], 2);
    assert!(prep.deferred_suffix.is_empty());
    let rt = ready_texts(&prep);
    assert!(rt.len() > 1);
    for t in &rt {
        assert!(width_of(t) <= 2);
    }
}

#[test]
fn fill_bearing_fits_passes_through() {
    let line =
        ScrollbackLine::styled_with_fill(vec![HistorySegment::raw("hi")], None, Some(HistorySegment::raw(" ")));
    let prep = prepare_history_rows(vec![line], 80);
    assert!(prep.deferred_suffix.is_empty());
    assert_eq!(prep.ready_prefix.len(), 1);
    assert!(prep.ready_prefix[0].physical_rows[0].fill.is_some());
}

#[test]
fn fill_bearing_overflow_defers() {
    let line = ScrollbackLine::styled_with_fill(
        vec![HistorySegment::raw(&"x".repeat(100))],
        None,
        Some(HistorySegment::raw(" ")),
    );
    let prep = prepare_history_rows(vec![line], 40);
    assert!(prep.ready_prefix.is_empty());
    assert_eq!(prep.deferred_suffix.len(), 1);
    assert!(prep.deferred_suffix[0].fill.is_some());
}

#[test]
fn normal_width_wrapping_still_works() {
    let line = styled_line(&"a".repeat(40));
    let out = wrap_scrollback_line(line, 20);
    assert!(out.len() > 1);
    for row in &out {
        assert!(width_of(row.text.trim()) <= 20);
    }
}

#[test]
fn no_prefix_only_continuation_rows() {
    let line = line_with_prefix(" → ", &"a".repeat(40));
    let out = wrap_scrollback_line(line, 4);
    for (i, row) in out.iter().enumerate() {
        assert!(!row.text.trim().is_empty(), "row {i} is prefix-only");
    }
}

#[test]
fn deferred_line_preserves_segments_and_style() {
    let line = ScrollbackLine::styled(
        vec![HistorySegment::styled(" → ", None, HistoryAttrs::plain()), HistorySegment::raw("你好")],
        None,
    );
    let prep = prepare_history_rows(vec![line.clone()], 1);
    assert_eq!(prep.deferred_suffix.len(), 1);
    let d = &prep.deferred_suffix[0];
    assert_eq!(d.text, line.text);
    assert_eq!(d.segments.len(), line.segments.len());
    assert_eq!(d.bg, line.bg);
}

#[test]
fn wrapped_rows_keep_segment_styles_and_repeat_the_prefix() {
    let line = ScrollbackLine::styled(
        vec![
            HistorySegment::styled(" > ", Some(TermColor::Cyan), HistoryAttrs::plain()),
            HistorySegment::styled("abcdef", Some(TermColor::Red), HistoryAttrs::plain()),
        ],
        Some(TermColor::Blue),
    );
    let out = wrap_scrollback_line(line, 6);
    let texts: Vec<&str> = out.iter().map(|r| r.text.as_str()).collect();
    assert_eq!(texts, vec![" > abc", "   def"]);
    assert_eq!(out[1].segments.len(), 2);
    assert_eq!(out[1].segments[0].fg, Some(TermColor::Cyan));
    assert_eq!(out[1].segments[1].text, "def");
    assert_eq!(out[1].segments[1].fg, Some(TermColor::Red));
    assert!(out.iter().all(|r| r.bg == Some(TermColor::Blue) && r.fill.is_none()));
    assert!(!line_has_unrenderable_scalar(&styled_line("abc"), 1));
    assert!(line_has_unrenderable_scalar(&styled_line(""), 0));
}

// --- Failure recovery through flush_prepared_with_writer ---

struct MockWriter {
    inserted: Vec<String>,
    fail_on_nth: Option<usize>,
    call_count: usize,
}

impl MockWriter {
    fn new() -> Self {
        Self { inserted: Vec::new(), fail_on_nth: None, call_count: 0 }
    }
    fn fail_on(mut self, n: usize) -> Self {
        self.fail_on_nth = Some(n);
        self
    }
}

impl HistoryWriter for MockWriter {
    type Error = io::Error;

    fn insert_plain(&mut self, text: &str, _bg: Option<TermColor>) -> io::Result<()> {
        self.call_count += 1;
        if self.fail_on_nth == Some(self.call_count) {
            return Err(io::Error::other("mock failure"));
        }
        self.inserted.push(text.to_string());
        Ok(())
    }

    fn insert_styled(&mut self, segments: &[HistorySegment], _bg: Option<TermColor>) -> io::Result<()> {
        self.call_count += 1;
        if self.fail_on_nth == Some(self.call_count) {
            return Err(io::Error::other("mock failure"));
        }
        let text: String = segments.iter().map(|s| s.text.as_str()).collect();
        self.inserted.push(text);
        Ok(())
    }
}

fn flush(prepared: HistoryPreparation, writer: MockWriter) -> (Vec<ScrollbackLine>, io::Result<()>, MockWriter) {
    let mut traced = TracedWriter::new(writer);
    let (restored, result) = flush_prepared_with_writer(prepared, &mut traced);
    (restored, result, traced.writer)
}

#[test]
fn plain_insert_failure_restores_uncommitted_suffix() {
    let lines = vec![styled_line("A"), styled_line("B"), styled_line("C")];
    let prep = prepare_history_rows(lines, 80);
    assert!(prep.deferred_suffix.is_empty());

    let (restored, result, writer) = flush(prep, MockWriter::new().fail_on(2));

    assert!(result.is_err());
    assert_eq!(writer.inserted, vec!["A"], "A was committed, B failed");
    assert_eq!(
        restored.iter().map(|l| l.text.clone()).collect::<Vec<_>>(),
        vec!["B", "C"],
        "B (failed) and C (uncommitted) restored in FIFO order"
    );
}

#[test]
fn styled_insert_failure_restores_uncommitted_suffix() {
    let styled = ScrollbackLine::styled(
        vec![HistorySegment::styled("cmd", Some(TermColor::Green), HistoryAttrs::plain())],
        None,
    );
    let plain = styled_line("plain_line");
    let prep = prepare_history_rows(vec![styled, plain], 80);

    let (restored, result, writer) = flush(prep, MockWriter::new().fail_on(1));

    assert!(result.is_err());
    assert!(writer.inserted.is_empty(), "nothing committed");
    assert_eq!(restored.len(), 2, "both logical lines restored");
    assert_eq!(restored[0].text, "cmd");
    assert_eq!(restored[1].text, "plain_line");
}

#[test]
fn retry_after_failure_is_exactly_once() {
    let lines = vec![styled_line("A"), styled_line("B"), styled_line("C")];
    let prep1 = prepare_history_rows(lines.clone(), 80);

    let (pending, result1, writer1) = flush(prep1, MockWriter::new().fail_on(2));
    assert!(result1.is_err());
    assert_eq!(writer1.inserted, vec!["A"]);

    let prep2 = prepare_history_rows(pending.clone(), 80);
    let (pending2, result2, writer2) = flush(prep2, MockWriter::new());
    assert!(result2.is_ok());
    assert_eq!(writer2.inserted, vec!["B", "C"], "B and C inserted on retry");
    assert!(pending2.is_empty(), "nothing left");

    let prep3 = prepare_history_rows(pending2, 80);
    let (_, result3, writer3) = flush(prep3, MockWriter::new());
    assert!(result3.is_ok());
    assert!(writer3.inserted.is_empty(), "third flush: nothing to insert");

    let mut all = writer1.inserted.clone();
    all.extend(writer2.inserted.iter().cloned());
    assert_eq!(all, vec!["A", "B", "C"], "total: each line exactly once across retries");
}

#[test]
fn partial_physical_row_failure_does_not_duplicate_committed_rows() {
    let long_text = "a".repeat(200);
    let long = styled_line(&long_text);
    let next = styled_line("after");
    let prep = prepare_history_rows(vec![long.clone(), next.clone()], 4);

    assert!(!prep.ready_prefix.is_empty());
    let physical_count_0 = prep.ready_prefix[0].physical_rows.len();
    assert!(physical_count_0 >= 2, "long line wraps to many physical rows at width 4");

    let (restored, result, writer) =
        flush(prepare_history_rows(vec![long.clone(), next.clone()], 4), MockWriter::new().fail_on(2));

    assert!(result.is_err());
    assert_eq!(writer.inserted.len(), 1, "exactly one physical row committed before failure");

    let committed_text = &writer.inserted[0];
    for r in &restored {
        assert!(
            !r.text.contains(committed_text.as_str()) || r.text == committed_text.as_str() || r.text == "after",
            "restored row should not contain committed text as a prefix"
        );
    }
    let restored_texts: Vec<String> = restored.iter().map(|l| l.text.clone()).collect();
    assert!(restored_texts.iter().any(|t| t == "after"), "uncommitted logical line restored");
    let committed_a_count = writer.inserted.iter().map(|t| t.matches('a').count()).sum::<usize>();
    let restored_a_count =
        restored_texts.iter().filter(|t| *t != "after").map(|t| t.matches('a').count()).sum::<usize>();
    assert_eq!(
        committed_a_count + restored_a_count,
        long_text.matches('a').count(),
        "total 'a' count across committed + restored equals original"
    );
}

#[test]
fn empty_physical_row_is_preserved_on_failure_recovery() {
    let logical = PreparedLogicalLine {
        original: styled_line("ABC"),
        physical_rows: vec![styled_line("A"), styled_line(""), styled_line("B")],
    };
    let prepared = HistoryPreparation { ready_prefix: vec![logical], deferred_suffix: vec![] };
    let (restored, result, writer) = flush(prepared, MockWriter::new().fail_on(2));
    assert!(result.is_err());
    assert_eq!(writer.inserted, vec!["A"]);
    assert_eq!(
        restored.iter().map(|l| l.text.clone()).collect::<Vec<_>>(),
        vec!["", "B"],
        "empty physical row must be preserved without filtering"
    );
}

#[test]
fn fill_only_row_is_preserved_on_failure_recovery() {
    let fill_line = ScrollbackLine::styled_with_fill(
        vec![HistorySegment::raw("")],
        Some(TermColor::Blue),
        Some(HistorySegment::raw("─")),
    );
    let logical = PreparedLogicalLine {
        original: fill_line.clone(),
        physical_rows: vec![styled_line("first"), fill_line.clone()],
    };
    let prepared = HistoryPreparation { ready_prefix: vec![logical], deferred_suffix: vec![] };
    let (restored, result, writer) = flush(prepared, MockWriter::new().fail_on(2));
    assert!(result.is_err());
    assert_eq!(writer.inserted.len(), 1);
    assert_eq!(restored.len(), 1, "fill-only row preserved");
    assert_eq!(restored[0].text, "");
    assert_eq!(restored[0].fill.as_ref().unwrap().text, "─");
    assert_eq!(restored[0].bg, Some(TermColor::Blue));
}

#[test]
fn styled_empty_row_is_preserved_on_failure_recovery() {
    let styled_empty = ScrollbackLine::styled(
        vec![HistorySegment::styled("", Some(TermColor::Red), HistoryAttrs { bold: true, ..HistoryAttrs::plain() })],
        Some(TermColor::Green),
    );
    let logical = PreparedLogicalLine { original: styled_empty.clone(), physical_rows: vec![styled_empty] };
    let prepared = HistoryPreparation { ready_prefix: vec![logical], deferred_suffix: vec![] };
    let (restored, result, _) = flush(prepared, MockWriter::new().fail_on(1));
    assert!(result.is_err());
    assert_eq!(restored.len(), 1, "styled-empty row not filtered");
    assert_eq!(restored[0].text, "");
    assert_eq!(restored[0].bg, Some(TermColor::Green));
    assert_eq!(restored[0].segments.len(), 1);
    assert!(restored[0].segments[0].fg == Some(TermColor::Red));
    assert!(restored[0].segments[0].attrs.bold);
}

#[test]
fn retry_with_empty_semantic_row_is_exactly_once() {
    let logical = PreparedLogicalLine {
        original: styled_line("A__B"),
        physical_rows: vec![styled_line("A"), styled_line(""), styled_line("B")],
    };
    let prepared1 = HistoryPreparation { ready_prefix: vec![logical], deferred_suffix: vec![] };
    let (pending, r1, w1) = flush(prepared1, MockWriter::new().fail_on(2));
    assert!(r1.is_err());
    assert_eq!(w1.inserted, vec!["A"]);

    let prepared2 = prepare_history_rows(pending.clone(), 80);
    let (pending2, r2, w2) = flush(prepared2, MockWriter::new());
    assert!(r2.is_ok());

    let prepared3 = prepare_history_rows(pending2, 80);
    let (_, r3, w3) = flush(prepared3, MockWriter::new());
    assert!(r3.is_ok());
    assert!(w3.inserted.is_empty(), "third flush: nothing");

    let mut all = w1.inserted.clone();
    all.extend(w2.inserted.iter().cloned());
    assert_eq!(all, vec!["A", "", "B"], "exact FIFO order, empty row preserved, each once");
}

#[test]
fn recovered_physical_suffix_can_rewrap_at_narrower_width() {
    let long = styled_line(&"a".repeat(40));
    let prep = prepare_history_rows(vec![long], 4);
    let physical_count = prep.ready_prefix[0].physical_rows.len();
    assert!(physical_count >= 2);

    let (restored, r1, w1) =
        flush(prepare_history_rows(vec![styled_line(&"a".repeat(40))], 4), MockWriter::new().fail_on(2));
    assert!(r1.is_err());
    assert_eq!(w1.inserted.len(), 1, "one row committed");

    let prep2 = prepare_history_rows(restored, 2);
    let (_restored2, r2, w2) = flush(prep2, MockWriter::new());
    assert!(r2.is_ok());

    let committed = w1.inserted.iter().map(|s| s.chars().count()).sum::<usize>();
    let retry_committed = w2.inserted.iter().map(|s| s.chars().count()).sum::<usize>();
    assert_eq!(committed + retry_committed, 40, "total 'a' count across original commit + retry = original");
    for t in &w2.inserted {
        assert!(width_of(t) <= 2, "rewrapped row within width 2");
    }
}
