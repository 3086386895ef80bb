use talos_tui::splash::{badge_labels, viewport_splash_text, wordmark_gradient_indices, SUBTITLE, 
    select_render_mode, talos_wordmark, talos_wordmark_compact, LogoRenderMode, INDENT,
};

#[test]
fn select_render_mode_canvas_at_80_cols() {
    assert_eq!(select_render_mode(80), LogoRenderMode::Canvas);
}

#[test]
fn select_render_mode_canvas_at_wide_terminal() {
    assert_eq!(select_render_mode(120), LogoRenderMode::Canvas);
    assert_eq!(select_render_mode(200), LogoRenderMode::Canvas);
}

#[test]
fn select_render_mode_unicode_block_at_79_cols() {
    assert_eq!(select_render_mode(79), LogoRenderMode::UnicodeBlock);
}

#[test]
fn select_render_mode_unicode_block_at_narrow_terminal() {
    assert_eq!(select_render_mode(40), LogoRenderMode::UnicodeBlock);
    assert_eq!(select_render_mode(10), LogoRenderMode::UnicodeBlock);
}

#[test]
fn select_render_mode_boundary_exact() {
    assert_eq!(select_render_mode(79), LogoRenderMode::UnicodeBlock);
    assert_eq!(select_render_mode(80), LogoRenderMode::Canvas);
}

#[test]
fn full_wordmark_rows_are_equal_width() {
    let rows = talos_wordmark();
    let width = rows[0].chars().count();
    assert_eq!(width, 42, "ANSI Shadow TALOS rows should be 42 columns");
    for row in rows {
        assert_eq!(
            row.chars().count(),
            width,
            "wordmark row '{row}' is misaligned"
        );
    }
}

#[test]
fn full_wordmark_fits_in_eighty_columns() {
    let width = talos_wordmark()[0].chars().count() + INDENT.len();
    assert!(width <= 80, "wide wordmark width {width} exceeds 80 cols");
}

#[test]
fn compact_wordmark_fits_narrow_terminal() {
    let max = talos_wordmark_compact()
        .iter()
        .map(|r| r.chars().count())
        .max()
        .unwrap_or(0)
        + INDENT.len();
    assert!(
        max < 80,
        "compact wordmark width {max} should fit < 80 cols"
    );
}

#[test]
fn full_wordmark_has_six_rows() {
    assert_eq!(talos_wordmark().len(), 6);
}

#[test]
fn compact_wordmark_has_four_rows() {
    assert_eq!(talos_wordmark_compact().len(), 4);
}

#[test]
fn wordmark_uses_block_or_box_characters() {
    let joined: String = talos_wordmark().concat();
    assert!(joined.contains('\u{2588}'), "wordmark should use █ blocks");
}

#[test]
fn wordmark_rows_start_and_compact_rows_stay_short() {
    assert!(talos_wordmark()[0].starts_with('\u{2588}'));
    for row in talos_wordmark_compact() {
        assert!(row.chars().count() <= 26);
    }
}

#[test]
fn gradient_handles_single_row() {
    assert_eq!(wordmark_gradient_indices(1, 4).len(), 1);
    assert_eq!(wordmark_gradient_indices(1, 4), vec![1]);
}

#[test]
fn gradient_matches_row_count() {
    assert_eq!(wordmark_gradient_indices(talos_wordmark().len(), 4).len(), 6);
    assert_eq!(wordmark_gradient_indices(talos_wordmark_compact().len(), 4).len(), 4);
}

#[test]
fn gradient_spreads_rows_over_the_ramp() {
    assert_eq!(wordmark_gradient_indices(6, 4), vec![0, 0, 1, 1, 2, 3]);
    assert_eq!(wordmark_gradient_indices(4, 4), vec![0, 1, 2, 3]);
}

#[test]
fn splash_does_not_use_reserved_todo_symbols() {
    let mut all = String::new();
    all.push_str(&talos_wordmark().concat());
    all.push_str(&talos_wordmark_compact().concat());
    all.push_str(SUBTITLE);
    for label in badge_labels() {
        all.push_str(label);
    }
    assert!(!all.contains('\u{25cb}'), "splash must not use ○ (todo)");
    assert!(!all.contains('\u{25c9}'), "splash must not use ◉ (todo)");
}

#[test]
fn alternate_screen_splash_lines_contain_wordmark_and_subtitle() {
    let rendered = viewport_splash_text(80, "v0.1.0").join("\n");

    assert!(rendered.contains("████████"));
    assert!(rendered.contains(SUBTITLE));
}

#[test]
fn alternate_screen_splash_leaves_one_blank_row_above_logo() {
    let rendered = viewport_splash_text(80, "v0.1.0");

    assert_eq!(rendered.first().map(String::as_str), Some(""));
    assert!(
        rendered.get(1).is_some_and(|line| line.contains("████████")),
        "the wide wordmark should start immediately after the top spacer"
    );
}

#[test]
fn alternate_screen_splash_uses_compact_wordmark_when_narrow() {
    let rendered = viewport_splash_text(40, "v0.1.0").join("\n");

    assert!(rendered.contains("_____"));
    assert!(!rendered.contains("████████"));
}

#[test]
fn splash_rows_right_align_the_version_under_the_wordmark() {
    let rendered = viewport_splash_text(80, "v1.2.3");
    assert_eq!(rendered.len(), 11);
    assert_eq!(rendered[7], format!("  {}v1.2.3", " ".repeat(36)));
    assert_eq!(rendered[8], "  ⬡ The watchman never sleeps");
    assert_eq!(rendered[9], "  Precision  ·  Safety  ·  Reliability");
    assert_eq!(rendered[10], "");
    let narrow = viewport_splash_text(40, "v1.2.3");
    assert_eq!(narrow.len(), 9);
    assert_eq!(narrow[1], "   _____ _    _    ___  ___");
}
