use talos_tui::budget::{bottom_panel_height, PanelShape, bottom_panel_placement, bottom_panel_rows, plan_queue_preview, queue_preview_lines, QueuedEntry};
use talos_tui::layout::{compute_app_layout, AppLayout, BottomPanelPlacement, ComponentMetrics, Rect, Size};

fn metrics() -> ComponentMetrics {
    ComponentMetrics {
        preview: 1,
        queue: 2,
        tips: 1,
        panel_required: 2,
        panel_preferred: 4,
        composer: 3,
        history_cap: None,
    }
}

fn bottom(rect: Rect) -> u16 {
    rect.y + rect.height
}

fn assert_bounded_and_ordered(layout: AppLayout) {
    let rects = [
        layout.history,
        layout.preview,
        layout.queue,
        layout.tips,
        layout.panel,
        layout.composer_top_pad,
        layout.composer,
        layout.composer_bottom_pad,
        layout.status,
    ];
    let mut visible = rects.into_iter().flatten().collect::<Vec<_>>();
    visible.sort_by_key(|rect| rect.y);
    for rect in &visible {
        assert!(rect.x + rect.width <= layout.root.x + layout.root.width);
        assert!(bottom(*rect) <= bottom(layout.root));
    }
    for pair in visible.windows(2) {
        assert!(bottom(pair[0]) <= pair[1].y);
    }
}

#[test]
fn visual_order_above_input_is_correct() {
    let layout = compute_app_layout(Size { width: 80, height: 24 }, metrics(), BottomPanelPlacement::AboveInput);
    assert_eq!(bottom(layout.panel.unwrap()), layout.composer_top_pad.unwrap().y);
    assert_eq!(bottom(layout.composer_top_pad.unwrap()), layout.composer.unwrap().y);
    assert_eq!(bottom(layout.composer.unwrap()), layout.composer_bottom_pad.unwrap().y);
    assert_eq!(bottom(layout.composer_bottom_pad.unwrap()), layout.status.unwrap().y);
    assert_bounded_and_ordered(layout);
}

#[test]
fn visual_order_below_input_is_correct() {
    let layout = compute_app_layout(Size { width: 80, height: 24 }, metrics(), BottomPanelPlacement::BelowInput);
    assert_eq!(bottom(layout.composer_top_pad.unwrap()), layout.composer.unwrap().y);
    assert_eq!(bottom(layout.composer.unwrap()), layout.panel.unwrap().y);
    assert_eq!(bottom(layout.panel.unwrap()), layout.composer_bottom_pad.unwrap().y);
    assert_eq!(bottom(layout.composer_bottom_pad.unwrap()), layout.status.unwrap().y);
    assert_bounded_and_ordered(layout);
}

#[test]
fn app_layout_extreme_sizes_preserve_required_priority() {
    for (width, height) in [
        (0, 0), (1, 1), (1, 2), (2, 1), (2, 2), (3, 2), (3, 3), (5, 2), (10, 3), (20, 5), (80, 24),
    ] {
        let layout = compute_app_layout(Size { width, height }, metrics(), BottomPanelPlacement::AboveInput);
        assert_bounded_and_ordered(layout);
        if height == 1 {
            assert_eq!(layout.composer.map(|rect| rect.height), Some(1));
            assert!(layout.status.is_none());
        }
        if height >= 2 {
            assert!(layout.composer.is_some());
            assert!(layout.status.is_some());
        }
    }
}

#[test]
fn panel_goes_below_the_composer_only_when_it_fits() {
    assert_eq!(bottom_panel_placement(24, 5, 6), BottomPanelPlacement::BelowInput);
    assert_eq!(bottom_panel_placement(10, 5, 6), BottomPanelPlacement::AboveInput);
    assert_eq!(bottom_panel_rows(20, 5, 1), (2, true, true));
    assert_eq!(bottom_panel_rows(3, 10, 1), (3, true, false));
    assert_eq!(bottom_panel_rows(3, 1, 1), (0, false, false));
}

#[test]
fn queue_preview_height_zero_when_empty() {
    assert_eq!(plan_queue_preview(0, 0, 0, 6).total_rows, 0);
}

#[test]
fn queue_preview_height_shows_hidden_count_for_8_entries() {
    // 1 header + 4 entries + 1 summary (+4 more) = 6
    let plan = plan_queue_preview(8, 8, 0, 6);
    assert_eq!(plan.total_rows, 6);
    assert_eq!(plan.entries_to_show, 4);
    assert_eq!(plan.hidden_count, 4);
    assert!(plan.show_summary);
}

#[test]
fn queue_preview_height_compresses_on_narrow_max_rows() {
    let plan = plan_queue_preview(8, 8, 0, 3);
    assert!(plan.total_rows <= 3);
}

#[test]
fn queue_preview_no_summary_when_all_fit() {
    let plan = plan_queue_preview(2, 2, 0, 6);
    assert_eq!(plan.entries_to_show, 2);
    assert_eq!(plan.hidden_count, 0);
    assert!(!plan.show_summary);
    assert_eq!(plan.total_rows, 3);
    let with_followup = plan_queue_preview(2, 2, 1, 6);
    assert!(with_followup.show_followup);
    assert_eq!(with_followup.total_rows, 4);
}

#[test]
fn queue_preview_height_respects_six_row_cap() {
    let h = plan_queue_preview(8, 8, 0, 6).total_rows;
    assert!(h <= 6, "height_hint must be <= 6, got {h}");
}

#[test]
fn queue_preview_hidden_count_covers_unrendered_entries() {
    let plan = plan_queue_preview(8, 8, 0, 6);
    assert_eq!(plan.entries_to_show, 4, "should show 4 entries (reserving 1 for summary)");
    assert_eq!(plan.hidden_count, 4, "8 total - 4 shown = 4 hidden");
    assert!(plan.show_summary, "must show +4 more summary");
}

fn snap(entries: &[&str]) -> Vec<QueuedEntry> {
    entries.iter().map(|t| QueuedEntry { text: t.to_string(), truncated: false }).collect()
}

/// The preview's rows and its height, for `total` queued inputs.
fn render_queue(entries: &[QueuedEntry], total: usize, followup: usize, max_rows: u16, width: u16) -> (Vec<String>, u16) {
    let plan = plan_queue_preview(total, entries.len(), followup, max_rows);
    let lines = queue_preview_lines(&entries.to_vec(), total, followup, plan, width);
    assert_eq!(lines.len(), plan.total_rows as usize, "render line count must match height_hint");
    (lines, plan.total_rows)
}

#[test]
fn render_8_entries_produces_header_4_entries_summary_total_6_rows() {
    let entries: Vec<String> = (0..8).map(|i| format!("msg{i}")).collect();
    let refs: Vec<&str> = entries.iter().map(|s| s.as_str()).collect();
    let (lines, h) = render_queue(&snap(&refs), 8, 0, 6, 80);

    assert_eq!(h, 6);
    assert!(lines[0].contains("8 queued inputs"));
    for i in 0..4 {
        assert!(lines[i + 1].contains(&format!("msg{i}")), "row {} should contain msg{}", i + 1, i);
    }
    assert!(lines[5].contains("+4 more"), "row 5 should show +4 more");
}

#[test]
fn render_truncated_entry_with_narrow_width_no_overflow() {
    let entries = vec![QueuedEntry { text: "x".repeat(100), truncated: true }];
    let width = 20u16;
    let (lines, h) = render_queue(&entries, 1, 0, 6, width);
    assert_eq!(h, 2); // header + 1 entry

    let entry_line = lines[1].trim_end();
    let display_width = unicode_width::UnicodeWidthStr::width(entry_line);
    assert!(
        display_width <= width as usize,
        "entry line display width {display_width} must be <= area width {width}"
    );
    assert!(entry_line.contains("⚠"), "truncated entry must show warning marker");
}

#[test]
fn render_cjk_entry_uses_display_width_not_byte_count() {
    let (lines, h) = render_queue(&snap(&["你好世界你好世界"]), 1, 0, 6, 15);
    assert_eq!(h, 2); // header + 1 entry
    assert!(lines[1].contains('…'), "CJK text exceeding budget must be truncated with ellipsis, got: {}", lines[1]);
}

#[test]
fn render_multiline_entry_normalized_to_single_line() {
    let (lines, h) = render_queue(&snap(&["line one\nline two"]), 1, 0, 6, 80);
    assert_eq!(h, 2); // header + 1 entry (not 3)
    assert!(lines[1].contains("⏎"), "newline should be normalized to visible indicator");
    assert!(!lines[1].contains('\n'), "no raw newline in rendered line");
}

#[test]
fn render_empty_snapshot_when_total_zero() {
    let (_, h) = render_queue(&snap(&[]), 0, 0, 6, 80);
    assert_eq!(h, 0, "empty snapshot must produce 0 rows");
}

#[test]
fn render_narrow_terminal_compresses_queue_max_rows() {
    let entries: Vec<String> = (0..8).map(|i| format!("msg{i}")).collect();
    let refs: Vec<&str> = entries.iter().map(|s| s.as_str()).collect();
    let (_, h) = render_queue(&snap(&refs), 8, 0, 2, 80);
    assert!(h <= 2, "max_rows=2 must cap at 2, got {h}");
}

#[test]
fn queue_rows_show_header_entries_and_followup() {
    let (lines, _) = render_queue(&snap(&["a"]), 1, 2, 6, 80);
    assert_eq!(
        lines,
        vec![
            " 3 queued inputs (will send after current turn)".to_string(),
            "  ↳ a".to_string(),
            "  ↳ followup ×2".to_string(),
        ]
    );
    let (single, _) = render_queue(&snap(&[]), 0, 1, 6, 80);
    assert_eq!(single, vec![" 1 queued input (will send after current turn)".to_string(), "  ↳ followup".to_string()]);
}

#[test]
fn bottom_panel_height_follows_the_open_panel() {
    assert_eq!(bottom_panel_height(PanelShape::Closed, "", 5, 80, 20), 0);
    assert_eq!(bottom_panel_height(PanelShape::Approval, "ls -la", 0, 80, 20), 6);
    assert_eq!(bottom_panel_height(PanelShape::Approval, "ls -la", 0, 80, 4), 4);
    let connect = PanelShape::Credential { connect_mode: true, has_default_endpoint: false };
    assert_eq!(bottom_panel_height(connect, "", 0, 80, 20), 4);
    let key_only = PanelShape::Credential { connect_mode: true, has_default_endpoint: true };
    assert_eq!(bottom_panel_height(key_only, "", 0, 80, 20), 3);
    let list = PanelShape::List { with_subheader: false };
    assert_eq!(bottom_panel_height(list, "", 0, 80, 20), 1);
    assert_eq!(bottom_panel_height(list, "", 3, 80, 20), 4);
    assert_eq!(bottom_panel_height(list, "", 12, 80, 20), 10);
    let models = PanelShape::List { with_subheader: true };
    assert_eq!(bottom_panel_height(models, "", 12, 80, 20), 12);
    assert_eq!(bottom_panel_height(models, "", 12, 80, 5), 5);
}
