use talos_tui::history::{
    display_column_for_scalar, project_all_history, row_contains_anchor, scalar_span_at_display_cell,
    select_scalar_range, HistoryProjection, HistoryProjectionCache, HistoryScrollState,
    LogicalContentAnchor, TranscriptEntryLines,
};
use talos_tui::layout::Rect;
use talos_tui::projection::{project_fill_segment, project_line_chunks};
use talos_tui::style::{HistoryAttrs, HistorySegment, ScrollbackLine, TermColor};
use unicode_width::{UnicodeWidthChar, UnicodeWidthStr};

fn entries(texts: &[&str]) -> Vec<TranscriptEntryLines> {
    texts
        .iter()
        .enumerate()
        .map(|(index, text)| TranscriptEntryLines {
            id: index as u64,
            lines: vec![ScrollbackLine::plain(text, None)],
        })
        .collect()
}

fn project(
    transcript: &Vec<TranscriptEntryLines>,
    width: u16,
    height: u16,
    scroll: &HistoryScrollState,
) -> HistoryProjection {
    HistoryProjectionCache::new().project(0, transcript, width, height, scroll)
}

#[test]
fn cache_reuses_full_projection_for_stable_transcript_and_width() {
    let texts: Vec<String> = (0..1_000).map(|index| format!("history row {index:04}")).collect();
    let transcript = entries(&texts.iter().map(String::as_str).collect::<Vec<_>>());
    let mut cache = HistoryProjectionCache::new();
    let scroll = HistoryScrollState::follow_tail();

    let first = cache.project(7, &transcript, 80, 24, &scroll);
    let second = cache.project(7, &transcript, 80, 24, &scroll);

    assert_eq!(cache.rebuilds, 1);
    assert_eq!(second, first);
}

#[test]
fn viewport_changes_do_not_rebuild_full_projection() {
    let texts: Vec<String> = (0..100).map(|index| format!("history row {index:03}")).collect();
    let transcript = entries(&texts.iter().map(String::as_str).collect::<Vec<_>>());
    let mut cache = HistoryProjectionCache::new();
    let tail = cache.project(1, &transcript, 80, 10, &HistoryScrollState::follow_tail());
    let anchor = tail.rows[2].start_anchor;
    let mut anchored = HistoryScrollState::follow_tail();
    anchored.anchor(anchor, 2);

    let shorter = cache.project(1, &transcript, 80, 5, &anchored);

    assert_eq!(cache.rebuilds, 1);
    assert_eq!(shorter.rows.len(), 5);
    assert_eq!(shorter.rows[2].start_anchor, anchor);
}

#[test]
fn transcript_append_and_width_change_invalidate_full_projection() {
    let mut transcript = entries(&["first history row"]);
    let mut cache = HistoryProjectionCache::new();
    let scroll = HistoryScrollState::follow_tail();

    cache.project(1, &transcript, 80, 24, &scroll);
    transcript.push(TranscriptEntryLines {
        id: 1,
        lines: vec![ScrollbackLine::plain("second history row", None)],
    });
    let appended = cache.project(2, &transcript, 80, 24, &scroll);
    let resized = cache.project(2, &transcript, 40, 24, &scroll);

    assert_eq!(cache.rebuilds, 3);
    assert_eq!(appended.total_rows, 2);
    assert_eq!(resized.total_rows, 2);
}

#[test]
fn width_one_degrades_without_mutating_cjk() {
    let transcript = entries(&["你"]);
    let scroll = HistoryScrollState::follow_tail();
    assert_eq!(project(&transcript, 1, 1, &scroll).rows[0].line.text, "…");
    assert_eq!(transcript[0].lines[0].text, "你");
    assert_eq!(project(&transcript, 2, 1, &scroll).rows[0].line.text, "你");
}

#[test]
fn new_content_does_not_move_anchored_history() {
    let texts: Vec<String> = (0..100).map(|index| index.to_string()).collect();
    let mut transcript = entries(&texts.iter().map(String::as_str).collect::<Vec<_>>());
    let tail = project(&transcript, 80, 10, &HistoryScrollState::follow_tail());
    let anchor = tail.rows[3].start_anchor;
    let mut scroll = HistoryScrollState::follow_tail();
    scroll.anchor(anchor, 3);
    let before = project(&transcript, 80, 10, &scroll);
    transcript.push(TranscriptEntryLines { id: 100, lines: vec![ScrollbackLine::plain("new", None)] });
    let after = project(&transcript, 80, 10, &scroll);
    assert_eq!(before.rows[3].start_anchor, anchor);
    assert_eq!(after.rows[3].start_anchor, anchor);
}

#[test]
fn follow_tail_shows_the_newest_rows() {
    let transcript = entries(&["one", "two", "three", "four"]);
    let projection = project(&transcript, 20, 2, &HistoryScrollState::follow_tail());
    assert_eq!(projection.total_rows, 4);
    assert_eq!(projection.visible_start, 2);
    assert_eq!(projection.rows[0].line.text, "three");
    assert_eq!(projection.rows[1].line.text, "four");
    assert!(projection.page_down_reaches_tail(2));
}

#[test]
fn wrapped_rows_tile_their_logical_line() {
    let transcript = entries(&["abcdefghij"]);
    let (rows, lines) = project_all_history(&transcript, 4);
    let texts: Vec<&str> = rows.iter().map(|row| row.line.text.as_str()).collect();
    assert_eq!(texts, vec!["abcd", "efgh", "ij"]);
    assert_eq!(rows[1].start_anchor.scalar_offset, 4);
    assert_eq!(rows[1].end_anchor.scalar_offset, 8);
    assert!(rows[2].is_last_row_of_logical_line);
    assert_eq!(lines.len(), 1);
}

#[test]
fn selected_text_spans_rows_outside_the_visible_window() {
    let transcript = entries(&["alpha", "中文🙂", "omega"]);
    let projection = project(&transcript, 20, 1, &HistoryScrollState::follow_tail());
    let start = projection.selection_point(0, 2).expect("first row point");
    let end = projection.selection_point(2, 2).expect("last row point");

    assert_eq!(projection.selected_text(start, end), "pha\n中文🙂\nome");
}

#[test]
fn logical_selection_payload_survives_reflow() {
    let transcript = entries(&["abcdefghij"]);
    let narrow = project(&transcript, 4, 10, &HistoryScrollState::follow_tail());
    let start = narrow.selection_point(0, 1).expect("b point");
    let end = narrow.selection_point(1, 3).expect("h point");
    assert_eq!(narrow.selected_text(start, end), "bcdefgh");

    let wide = project(&transcript, 10, 10, &HistoryScrollState::follow_tail());
    assert_eq!(wide.selected_text(start, end), "bcdefgh");
}

#[test]
fn visible_selection_reprojects_after_scroll() {
    let transcript = entries(&["alpha", "bravo", "charlie"]);
    let projection = project(&transcript, 20, 3, &HistoryScrollState::follow_tail());
    let start = projection.selection_point(0, 0).expect("start");
    let end = projection.selection_point(2, 6).expect("end");
    let area = Rect::new(0, 0, 20, 3);

    assert_eq!(projection.visible_selection(start, end, 1, 1, area), Some(((0, 0), (6, 2))));
    assert_eq!(projection.visible_selection(start, end, 2, 1, area), Some(((0, 0), (6, 1))));
}

#[test]
fn visible_selection_limits_a_click_to_its_wrapped_row() {
    let transcript = entries(&["abcdefghijklmnopqrstuvwxyz"]);
    let projection = project(&transcript, 10, 3, &HistoryScrollState::follow_tail());
    let point = projection.selection_point(1, 3).expect("wrapped point");
    let area = Rect::new(0, 0, 10, 3);

    assert_eq!(projection.visible_selection(point, point, 0, 0, area), Some(((3, 1), (3, 1))));
}

#[test]
fn logical_selection_preserves_selected_trailing_spaces() {
    let transcript = entries(&["alpha  "]);
    let projection = project(&transcript, 20, 10, &HistoryScrollState::follow_tail());
    let start = projection.selection_point(0, 0).expect("start");
    let end = projection.selection_point(0, 6).expect("second trailing space");
    assert_eq!(projection.selected_text(start, end), "alpha  ");
}

#[test]
fn logical_selection_payload_survives_appended_redraw_content() {
    let mut transcript = entries(&["selected text"]);
    let initial = project(&transcript, 20, 10, &HistoryScrollState::follow_tail());
    let start = initial.selection_point(0, 0).expect("start");
    let end = initial.selection_point(0, 7).expect("end");

    transcript.push(TranscriptEntryLines {
        id: 1,
        lines: vec![ScrollbackLine::plain("later stream output", None)],
    });
    let redrawn = project(&transcript, 20, 10, &HistoryScrollState::follow_tail());
    assert_eq!(redrawn.selected_text(start, end), "selected");
}

#[test]
fn display_cell_selection_keeps_combining_marks_with_their_base() {
    let transcript = entries(&["a\u{301}bc"]);
    let projection = project(&transcript, 10, 10, &HistoryScrollState::follow_tail());
    let first = projection.selection_point(0, 0).expect("combined point");
    let second = projection.selection_point(0, 1).expect("second point");

    assert_eq!(projection.selected_text(first, first), "a\u{301}");
    assert_eq!(projection.selected_text(second, second), "b");
}

#[test]
fn scalar_and_display_cell_helpers() {
    assert_eq!(scalar_span_at_display_cell("a你b", 2), (1, 2));
    assert_eq!(display_column_for_scalar("a你b", 2), 3);
    assert_eq!(select_scalar_range("a你b", 1, 3), "你b");
}

fn line_entries(lines: Vec<ScrollbackLine>) -> Vec<TranscriptEntryLines> {
    lines
        .into_iter()
        .enumerate()
        .map(|(index, line)| TranscriptEntryLines { id: index as u64, lines: vec![line] })
        .collect()
}

#[test]
fn repeated_resize_projection_is_reversible() {
    let transcript = entries(&["abc你好xyz", ""]);
    let scroll = HistoryScrollState::follow_tail();
    let initial = project(&transcript, 160, 100, &scroll);
    for width in [120, 80, 40, 3, 2, 1, 40, 160] {
        let projection = project(&transcript, width, 100, &scroll);
        assert!(projection.rows.iter().all(|row| {
            row.line.text.chars().all(|ch| UnicodeWidthChar::width(ch).unwrap_or(0) <= usize::from(width))
        }));
    }
    assert_eq!(project(&transcript, 160, 100, &scroll), initial);
}

#[test]
fn resize_preserves_logical_scroll_anchor() {
    let transcript = entries(&["anchor content with enough words to wrap on narrow width"]);
    let wide = project(&transcript, 80, 8, &HistoryScrollState::follow_tail());
    let anchor = wide.rows[0].start_anchor;
    let mut scroll = HistoryScrollState::follow_tail();
    scroll.anchor(anchor, 0);
    assert_eq!(project(&transcript, 40, 8, &scroll).rows[0].start_anchor.entry_id, anchor.entry_id);
    assert_eq!(project(&transcript, 120, 8, &scroll).rows[0].start_anchor.entry_id, anchor.entry_id);
}

#[test]
fn resize_preserves_anchor_inside_multiline_entry() {
    let transcript = entries(&["0123456789abcdefghijklmnopqrstuvwxyz你好世界"]);
    let wide = project(&transcript, 10, 20, &HistoryScrollState::follow_tail());
    let anchor = wide.rows[2].start_anchor;
    assert!(anchor.scalar_offset > 0);
    let mut scroll = HistoryScrollState::follow_tail();
    scroll.anchor(anchor, 0);
    for width in [40, 1, 80] {
        let projection = project(&transcript, width, 20, &scroll);
        let row = &projection.rows[0];
        assert!(row_contains_anchor(row, anchor));
    }
}

#[test]
fn anchor_at_wrapped_row_start_resolves_to_that_row() {
    let transcript = entries(&["0123456789abcdefghijABCDEFGHIJ"]);
    let projection = project(&transcript, 10, 10, &HistoryScrollState::follow_tail());
    let second_row_anchor = projection.rows[1].start_anchor;
    let mut scroll = HistoryScrollState::follow_tail();
    scroll.anchor(second_row_anchor, 0);
    let anchored = project(&transcript, 10, 10, &scroll);
    assert_eq!(anchored.visible_start, 1);
    assert_eq!(anchored.rows[0].start_anchor, second_row_anchor);
}

#[test]
fn anchor_at_logical_line_end_resolves_last_row() {
    let transcript = entries(&["0123456789abcdefghij"]);
    let eof = LogicalContentAnchor { entry_id: 0, logical_line: 0, scalar_offset: 20 };
    let mut scroll = HistoryScrollState::follow_tail();
    scroll.anchor(eof, 0);
    let projection = project(&transcript, 10, 10, &scroll);
    assert_eq!(projection.visible_start, 1);
    assert_eq!(projection.rows[0].end_anchor, eof);
}

#[test]
fn empty_line_anchor_resolves_deterministically() {
    let transcript = entries(&["", ""]);
    let anchor = LogicalContentAnchor { entry_id: 0, logical_line: 0, scalar_offset: 0 };
    let mut scroll = HistoryScrollState::follow_tail();
    scroll.anchor(anchor, 0);
    let projection = project(&transcript, 10, 2, &scroll);
    assert_eq!(projection.rows[0].start_anchor, anchor);
}

#[test]
fn fill_only_line_anchor_is_independent_of_projected_fill_length() {
    for width in [1, 3, 40] {
        let transcript = line_entries(vec![ScrollbackLine::styled_with_fill(
            Vec::new(),
            None,
            Some(HistorySegment::raw("─")),
        )]);
        let projection = project(&transcript, width, 2, &HistoryScrollState::follow_tail());
        assert_eq!(
            projection.rows[0].start_anchor,
            LogicalContentAnchor { entry_id: 0, logical_line: 0, scalar_offset: 0 }
        );
        assert_eq!(projection.rows[0].end_anchor.scalar_offset, 0);
    }
}

#[test]
fn fill_only_line_projects_to_current_width() {
    let line = ScrollbackLine::styled_with_fill(
        Vec::new(),
        Some(TermColor::Blue),
        Some(HistorySegment::styled("─", Some(TermColor::Cyan), HistoryAttrs::plain())),
    );
    for width in [1, 2, 3, 40] {
        let rows = project_line_chunks(&line, width);
        assert_eq!(rows.len(), 1);
        assert!(!rows[0].line.text.is_empty());
        assert!(UnicodeWidthStr::width(rows[0].line.text.as_str()) <= usize::from(width));
        assert_eq!(rows[0].line.bg, line.bg);
        assert_eq!(rows[0].line.segments[0].fg, Some(TermColor::Cyan));
    }
}

#[test]
fn multi_cell_fill_never_exceeds_viewport() {
    let fill = HistorySegment::raw("你好");
    for width in [1_u16, 2, 3, 4, 5, 40] {
        let projected = project_fill_segment(&fill, usize::from(width));
        assert!(projected
            .as_ref()
            .is_none_or(|segment| UnicodeWidthStr::width(segment.text.as_str()) <= usize::from(width)));
    }
}

#[test]
fn fill_reprojects_reversibly_without_splitting_scalars() {
    let line = ScrollbackLine::styled_with_fill(Vec::new(), None, Some(HistorySegment::raw("你好")));
    let initial = project_line_chunks(&line, 40);
    for width in [1, 2, 3, 40] {
        for row in project_line_chunks(&line, width) {
            assert!(UnicodeWidthStr::width(row.line.text.as_str()) <= usize::from(width));
            assert!(!row.line.text.contains('\u{fffd}'));
        }
    }
    assert_eq!(project_line_chunks(&line, 40), initial);
}

#[test]
fn missing_anchor_degrades_to_nearest_valid_position() {
    let transcript = entries(&["a", "b"]);
    let mut scroll = HistoryScrollState::follow_tail();
    scroll.anchor(LogicalContentAnchor { entry_id: 1, logical_line: 0, scalar_offset: 99 }, 0);
    let projection = project(&transcript, 80, 2, &scroll);
    assert_eq!(projection.rows[0].start_anchor.entry_id, 1);
}
