use talos_tui::budget::compress_layout;
use talos_tui::composer::{composer_content_width, composer_scroll_offset};
use talos_tui::text::normalize_single_line;

#[test]
fn composer_content_width_reserves_prefix_columns() {
    assert_eq!(composer_content_width(80), 76);
    assert_eq!(composer_content_width(3), 1);
    assert_eq!(composer_content_width(0), 1);
}

#[test]
fn composer_scroll_offset_keeps_cursor_in_capped_window() {
    let buffer = std::iter::repeat_n("line", 25)
        .collect::<Vec<_>>()
        .join("\n");
    assert_eq!(composer_scroll_offset(&buffer, &buffer, 80, 10), 15);

    let short_buffer = std::iter::repeat_n("line", 5)
        .collect::<Vec<_>>()
        .join("\n");
    assert_eq!(
        composer_scroll_offset(&short_buffer, &short_buffer, 80, 10),
        0
    );

    let cursor_at_row_three = "line\n".repeat(3);
    assert_eq!(
        composer_scroll_offset(&cursor_at_row_three, &buffer, 80, 10),
        3
    );

    let boundary = "a".repeat(20);
    assert_eq!(composer_scroll_offset(&boundary, &boundary, 20, 10), 0);

    let max_boundary = "a".repeat(200);
    assert_eq!(
        composer_scroll_offset(&max_boundary, &max_boundary, 20, 10),
        1
    );
}

#[test]
fn normalize_single_line_replaces_newlines() {
    assert_eq!(normalize_single_line("hello\nworld"), "hello ⏎ world");
    assert_eq!(normalize_single_line("a\rb\r\nc"), "ab ⏎ c");
}

#[test]
fn compress_layout_no_compression_when_fits() {
    let r = compress_layout(24, 5, 3, 4);
    assert_eq!(r.panel_max_height, 5);
    assert_eq!(r.queue_max_rows, 4);
    assert_eq!(r.input_max_height, 3);
}

#[test]
fn compress_layout_preserves_panel_then_composer_then_queue() {
    // Content budget 10: panel=5 and composer=3 are preserved; queue gets 2.
    let r = compress_layout(10, 5, 3, 6);
    assert_eq!(r.panel_max_height, 5);
    assert_eq!(r.input_max_height, 3);
    assert_eq!(r.queue_max_rows, 2);
}

#[test]
fn compress_layout_queue_zeroed_before_composer_is_reduced() {
    // Content budget 8: panel=5, composer=3, queue=0.
    let r = compress_layout(8, 5, 5, 6);
    assert_eq!(r.panel_max_height, 5);
    assert_eq!(r.queue_max_rows, 0);
    assert_eq!(r.input_max_height, 3);
}

#[test]
fn compress_layout_composer_never_below_one() {
    // Content budget 7: panel=5, queue=0, composer retains 2 rows.
    let r = compress_layout(7, 5, 10, 6);
    assert_eq!(r.panel_max_height, 5);
    assert_eq!(r.queue_max_rows, 0);
    assert_eq!(r.input_max_height, 2, "composer must not disappear");
}

#[test]
fn compress_layout_compresses_panel_only_after_reserving_composer() {
    // Content budget 1: no queue and no panel rows, but composer retains one row.
    let r = compress_layout(6, 5, 10, 6);
    assert_eq!(r.panel_max_height, 5);
    assert_eq!(r.queue_max_rows, 0);
    assert_eq!(r.input_max_height, 1);

    let r = compress_layout(1, 5, 10, 6);
    assert_eq!(r.panel_max_height, 0);
    assert_eq!(r.queue_max_rows, 0);
    assert_eq!(r.input_max_height, 1);
}

#[test]
fn compress_layout_zero_queue_natural() {
    let r = compress_layout(10, 5, 3, 0);
    assert_eq!(r.panel_max_height, 5);
    assert_eq!(r.queue_max_rows, 0);
    assert_eq!(r.input_max_height, 3);
}
