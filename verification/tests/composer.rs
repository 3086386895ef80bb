use talos_tui::composer::{
    composer_height, composer_scroll_offset, composer_window, cursor_line_col, cursor_line_col_with_width,
    input_line_count, input_line_count_with_width, input_prefix_for_line, MAX_COMPOSER_LINES,
};

#[test]
fn input_line_count_with_width_counts_content_rows() {
    assert_eq!(input_line_count_with_width(&"a".repeat(80), 20), 4);
    assert_eq!(input_line_count_with_width("你好你好你好你好你好", 5), 5);
    assert_eq!(input_line_count_with_width("aaaa\nbbbbbbbb", 4), 3);
    assert_eq!(input_line_count_with_width("", 20), 1);
    assert_eq!(input_line_count_with_width("abc", 0), 1);
    assert_eq!(input_line_count_with_width(&"a".repeat(20), 20), 1);
}

#[test]
fn cursor_line_col_with_width_tracks_wrapped_cursor_position() {
    assert_eq!(cursor_line_col_with_width("abc", 80), (0, 3));
    assert_eq!(cursor_line_col_with_width(&"a".repeat(25), 20), (1, 5));
    assert_eq!(cursor_line_col_with_width(&"a".repeat(20), 20), (1, 0));
    assert_eq!(cursor_line_col_with_width("你好你", 4), (1, 2));
    assert_eq!(cursor_line_col_with_width("你好你好", 4), (2, 0));
    assert_eq!(cursor_line_col_with_width("aaaa\nbbbbb", 4), (2, 1));
    assert_eq!(cursor_line_col_with_width("", 20), (0, 0));
    assert_eq!(cursor_line_col_with_width("abc", 0), (0, 0));
}

#[test]
fn line_counts_and_cursor_follow_wrapping_and_newlines() {
    assert_eq!(input_line_count_with_width("abcdefghij", 4), 3);
    assert_eq!(input_line_count_with_width("ab\ncd", 4), 2);
    assert_eq!(input_line_count("a\nb\n"), 3);
    assert_eq!(cursor_line_col_with_width("abcde", 4), (1, 1));
    assert_eq!(cursor_line_col("ab\n你"), (1, 2));
    assert_eq!(cursor_line_col(""), (0, 0));
}

#[test]
fn composer_window_shows_the_cursor_rows_with_prompts() {
    let rows = composer_window("line1\nline2\nline3", "line1\nline2\nline3", 10, 2);
    assert_eq!(rows, vec![("   ", "line2".to_string()), ("   ", "line3".to_string())]);

    let rows = composer_window("abcdefgh", "ab", 4, 5);
    assert_eq!(rows, vec![(" > ", "abcd".to_string()), ("   ", "efgh".to_string())]);

    let rows = composer_window("abcd", "abcd", 4, 5);
    assert_eq!(rows, vec![(" > ", "abcd".to_string()), ("   ", String::new())]);
    assert_eq!(input_prefix_for_line(0), " > ");
    assert_eq!(input_prefix_for_line(3), "   ");
}

fn rendered(rows: &[(&str, String)]) -> Vec<String> {
    rows.iter().map(|(prefix, text)| format!("{prefix}{text}")).collect()
}

#[test]
fn height_hint_cap_uses_wrapped_content_and_cursor_spill_row() {
    let buffer = "one\ntwo\nthree";
    assert_eq!(composer_height(buffer, buffer, 80, MAX_COMPOSER_LINES), 3);

    let buffer = std::iter::repeat_n("line", 25).collect::<Vec<_>>().join("\n");
    assert_eq!(composer_height(&buffer, &buffer, 80, MAX_COMPOSER_LINES), 10);

    let buffer = "a".repeat(20);
    assert_eq!(composer_height(&buffer, &buffer, 23, MAX_COMPOSER_LINES), 2);
}

#[test]
fn build_input_text_wraps_long_buffer_at_content_width() {
    let buffer = "a".repeat(200);
    let rows = composer_window(&buffer, &buffer, 77, MAX_COMPOSER_LINES);

    assert_eq!(rows.len(), 3);
    assert_eq!(cursor_line_col_with_width(&buffer, 77), (2, 46));
}

#[test]
fn build_input_text_shows_last_ten_visual_lines() {
    let buffer = (0..25).map(|line| format!("line-{line}")).collect::<Vec<_>>().join("\n");
    let rows = rendered(&composer_window(&buffer, &buffer, 77, MAX_COMPOSER_LINES));

    assert_eq!(rows.len(), 10);
    assert_eq!(rows[0], "   line-15");
    assert_eq!(rows[9], "   line-24");
}

#[test]
fn build_input_text_respects_compressed_composer_height() {
    let buffer = (0..5).map(|line| format!("line-{line}")).collect::<Vec<_>>().join("\n");
    let rows = rendered(&composer_window(&buffer, &buffer, 77, 2));

    assert_eq!(rows.len(), 2);
    assert_eq!(rows[0], "   line-3");
    assert_eq!(rows[1], "   line-4");
    assert_eq!(composer_scroll_offset(&buffer, &buffer, 77, 2), 3);
}

#[test]
fn build_input_text_keeps_short_buffer_on_one_line() {
    let buffer = "abcdefghij";
    let rows = rendered(&composer_window(buffer, buffer, 77, MAX_COMPOSER_LINES));

    assert_eq!(rows.len(), 1);
    assert_eq!(rows[0], " > abcdefghij");
    assert_eq!(composer_scroll_offset(buffer, buffer, 77, 10), 0);
}

#[test]
fn cursor_placement_wrap_and_scroll_math_stays_in_visible_window() {
    let wrapped = "a".repeat(25);
    assert_eq!(cursor_line_col_with_width(&wrapped, 20), (1, 5));
    assert_eq!(composer_scroll_offset(&wrapped, &wrapped, 20, 10), 0);

    let scrolled = std::iter::repeat_n("line", 30).collect::<Vec<_>>().join("\n");
    let (cursor_row, _) = cursor_line_col_with_width(&scrolled, 20);
    let offset = composer_scroll_offset(&scrolled, &scrolled, 20, 10);
    assert_eq!(offset, 20);
    assert_eq!(cursor_row.saturating_sub(offset), 9);
}
