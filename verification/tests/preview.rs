use talos_tui::composer::{credential_cursor_col, credential_display_text};
use talos_tui::preview::{preview_row_parts, preview_line_parts, thinking_ripple_split, PreviewPart, 
    animated_hold_preview_text, frame_history_scroll_bounds, idle_processing_preview_text,
    next_processing_frame, preview_spinner_padding, preview_text_for_state, status_display,
    tip_ttl_secs, FrameHistoryScrollBounds, FrameHistoryScrollOutcome, HoldStatus,
    MarkdownBlockKind, TipKind, TurnPhase, SPINNER_FRAMES,
};

#[test]
fn credential_display_never_reveals_secret_suffix() {
    let display = credential_display_text("sk-test-Ewqw");

    assert_eq!(display, "••••••••••••");
    assert!(!display.contains("Ewqw"));
    assert!(!display.contains("sk-test"));
}

#[test]
fn credential_cursor_tracks_masked_buffer() {
    assert_eq!(credential_cursor_col("abcd"), 7);
}

#[test]
fn idle_processing_preview_animates_ellipsis() {
    assert_eq!(idle_processing_preview_text(0), "");
    assert_eq!(idle_processing_preview_text(2), ".");
    assert_eq!(idle_processing_preview_text(4), "..");
    assert_eq!(idle_processing_preview_text(6), "...");
}

#[test]
fn preview_spinner_uses_single_block() {
    let n = SPINNER_FRAMES.len();

    let (p0, c0) = preview_spinner_padding(0);
    let (p1, c1) = preview_spinner_padding(1);

    assert_eq!(p0, format!(" {} ", SPINNER_FRAMES[0]));
    assert_eq!(c0, 0);
    assert_eq!(p0.chars().count(), 3);

    assert_eq!(p1, format!(" {} ", SPINNER_FRAMES[1]));
    assert_eq!(c1, 1);
    assert_eq!(p1.chars().count(), 3);

    assert_ne!(SPINNER_FRAMES[0], SPINNER_FRAMES[1 % n]);
}

#[test]
fn processing_frames_advance_only_on_timer_ticks() {
    let frame = 7;
    assert_eq!(frame, 7, "redraw-only work must not mutate animation state");
    assert_eq!(next_processing_frame(true, frame), 8);
    assert_eq!(next_processing_frame(false, frame), 0);
}

#[test]
fn processing_frame_wraps_at_the_top() {
    assert_eq!(next_processing_frame(true, usize::MAX), 0);
    let (pad, idx) = preview_spinner_padding(13);
    assert_eq!(idx, 3);
    assert_eq!(pad, " ⠸ ");
}

#[test]
fn hold_preview_replaces_its_dots_with_the_animation() {
    let status = HoldStatus { kind: MarkdownBlockKind::CodeFence };
    assert_eq!(animated_hold_preview_text(&status, 0), "receiving code block");
    assert_eq!(animated_hold_preview_text(&status, 3), "receiving code block.");
    assert_eq!(animated_hold_preview_text(&status, 7), "receiving code block...");
    let table = HoldStatus { kind: MarkdownBlockKind::Table };
    assert_eq!(animated_hold_preview_text(&table, 4), "rendering table..");
}

#[test]
fn preview_precedence_follows_the_turn_state() {
    let hold = HoldStatus { kind: MarkdownBlockKind::List };
    assert_eq!(
        preview_text_for_state(Some(&hold), Some(&TurnPhase::Failed), None, true, "x", 2),
        "formatting list."
    );
    assert_eq!(
        preview_text_for_state(None, Some(&TurnPhase::TimedOut), None, true, "stream", 0),
        "⏱ timed out"
    );
    assert_eq!(
        preview_text_for_state(None, Some(&TurnPhase::Failed), None, true, "stream", 0),
        "✗ failed"
    );
    assert_eq!(
        preview_text_for_state(None, Some(&TurnPhase::Cancelled), None, true, "stream", 0),
        "cancelled"
    );
    assert_eq!(
        preview_text_for_state(None, Some(&TurnPhase::Cancelled), None, false, "stream", 0),
        "stream"
    );
    assert_eq!(
        preview_text_for_state(None, Some(&TurnPhase::Retrying { attempt: 2 }), None, false, "", 0),
        "retrying (attempt 2)..."
    );
    assert_eq!(
        preview_text_for_state(
            None,
            Some(&TurnPhase::Reconnecting { attempt: 1, max_attempts: 5 }),
            None,
            true,
            "",
            0
        ),
        "Reconnecting... (attempt 1/5)"
    );
    assert_eq!(
        preview_text_for_state(
            None,
            Some(&TurnPhase::RunningTool { name: "bash".to_string() }),
            Some("ignored"),
            true,
            "",
            0
        ),
        "running tool: bash..."
    );
    assert_eq!(
        preview_text_for_state(None, Some(&TurnPhase::Other), Some("plan"), true, "", 0),
        "thinking: plan"
    );
    assert_eq!(
        preview_text_for_state(None, Some(&TurnPhase::Connecting), None, true, "", 0),
        "connecting..."
    );
    assert_eq!(preview_text_for_state(None, None, None, true, "", 5), "..");
    assert_eq!(preview_text_for_state(None, None, None, true, "partial", 5), "partial");
    assert_eq!(preview_text_for_state(None, None, Some("t"), false, "done", 5), "done");
}

#[test]
fn status_display_passes_known_glyphs_through() {
    assert_eq!(status_display("[ ]"), "[ ]");
    assert_eq!(status_display("[~]"), "[~]");
    assert_eq!(status_display("[x]"), "[x]");
    assert_eq!(status_display("[!]"), "[!]");
    assert_eq!(status_display("done"), "[done]");
    assert_eq!(status_display(""), "[]");
}

#[test]
fn dashboard_tip_ttls_are_visible_but_bounded() {
    assert_eq!(tip_ttl_secs(&TipKind::Info), 8);
    assert_eq!(tip_ttl_secs(&TipKind::Error), 5);
    assert_eq!(tip_ttl_secs(&TipKind::ApprovalResult), 3);
    assert_eq!(tip_ttl_secs(&TipKind::ExitHint), 3);
}

#[test]
fn frame_history_scroll_clamps_and_follows_the_tail() {
    let bounds = frame_history_scroll_bounds(3, 40, 50, 10);
    assert_eq!(bounds, FrameHistoryScrollBounds { current_start: 33, max_start: 33 });
    assert_eq!(bounds.scroll_down(5), FrameHistoryScrollOutcome::Noop);
    assert_eq!(bounds.scroll_up(5), FrameHistoryScrollOutcome::Anchored { start: 28 });

    let middle = FrameHistoryScrollBounds { current_start: 10, max_start: 33 };
    assert_eq!(middle.scroll_down(30), FrameHistoryScrollOutcome::FollowTail);
    assert_eq!(middle.scroll_down(3), FrameHistoryScrollOutcome::Anchored { start: 13 });
    assert_eq!(middle.scroll_up(50), FrameHistoryScrollOutcome::Anchored { start: 0 });

    let short = frame_history_scroll_bounds(0, 4, 0, 10);
    assert_eq!(short, FrameHistoryScrollBounds { current_start: 0, max_start: 0 });
}

#[test]
fn markdown_hold_preview_animates_text_and_color() {
    // The text half of the animation; its colour comes from the theme.
    let status = HoldStatus { kind: MarkdownBlockKind::Table };
    assert_eq!(animated_hold_preview_text(&status, 0), "rendering table");
    assert_eq!(animated_hold_preview_text(&status, 2), "rendering table.");
    assert_eq!(animated_hold_preview_text(&status, 4), "rendering table..");
    assert_eq!(animated_hold_preview_text(&status, 6), "rendering table...");
}

#[test]
fn preview_text_prefers_thinking_then_idle_then_stream_preview() {
    assert_eq!(preview_text_for_state(None, None, Some("draft"), true, "", 0), "thinking: draft");
    assert_eq!(preview_text_for_state(None, None, None, true, "", 6), "...");
    assert_eq!(preview_text_for_state(None, None, None, false, "generated", 0), "generated");
}

#[test]
fn preview_text_ignores_stream_preview_when_not_processing() {
    let stale_preview = "stale stream preview from previous turn";
    let result = preview_text_for_state(None, None, None, false, stale_preview, 0);
    assert_eq!(result, stale_preview, "stale preview would display unless cleared before submit");
}

#[test]
fn thinking_preview_uses_two_color_three_segment_ripple() {
    let spans = preview_line_parts("", "thinking: draft", Some(0));

    assert_eq!(spans.len(), 4);
    let label: String = spans[..3].iter().map(|(_, text)| text.as_str()).collect();
    assert_eq!(label, "thinking");
    assert_eq!(spans[0].0, PreviewPart::RippleEdge);
    assert_eq!(spans[1].0, PreviewPart::RippleCenter);
    assert_eq!(spans[2].0, PreviewPart::RippleEdge);
    assert_eq!(spans[1].1, "nk");
    assert_eq!(spans[3].1, ": draft");
    assert_eq!(spans[3].0, PreviewPart::Text);

    let expanded = preview_line_parts("", "thinking: draft", Some(2));
    assert_eq!(expanded.len(), 4);
    assert_eq!(expanded[1].1, "hinkin");
    assert_eq!(expanded[0].0, PreviewPart::RippleEdge);
    assert_eq!(expanded[1].0, PreviewPart::RippleCenter);
    assert_eq!(expanded[2].0, PreviewPart::RippleEdge);
}

#[test]
fn preview_parts_keep_padding_and_plain_text() {
    let parts = preview_line_parts(" ⠋ ", "working", Some(1));
    assert_eq!(parts, vec![(PreviewPart::Padding, " ⠋ ".to_string()), (PreviewPart::Text, "working".to_string())]);
    let parts = preview_line_parts("", "thinking", None);
    assert_eq!(parts, vec![(PreviewPart::Text, "thinking".to_string())]);
    let parts = preview_line_parts("", "thinking", Some(3));
    assert_eq!(
        parts,
        vec![
            (PreviewPart::RippleEdge, "th".to_string()),
            (PreviewPart::RippleCenter, "inki".to_string()),
            (PreviewPart::RippleEdge, "ng".to_string()),
        ]
    );
    assert_eq!(thinking_ripple_split(1), (2, 6));
}

#[test]
fn preview_row_shows_the_last_line_cut_to_the_width() {
    let parts = preview_row_parts(" ⠋ ", "first\nthinking: plan", 80, true, Some(0));
    let texts: Vec<&str> = parts.iter().map(|(_, t)| t.as_str()).collect();
    assert_eq!(texts, vec![" ⠋ ", "thi", "nk", "ing", ": plan"]);
    assert_eq!(parts[0].0, PreviewPart::Padding);

    let cut = preview_row_parts("", "abcdefgh", 4, false, None);
    assert_eq!(cut, vec![(PreviewPart::Text, "efgh".to_string())]);

    let narrow = preview_row_parts(" ⠋ ", "done", 2, true, None);
    assert_eq!(narrow, vec![(PreviewPart::Padding, "ne".to_string()), (PreviewPart::Text, String::new())]);
}

#[test]
fn preview_text_uses_phase_priority_states() {
    assert_eq!(preview_text_for_state(None, Some(&TurnPhase::TimedOut), None, true, "stream", 0), "⏱ timed out");
    assert_eq!(preview_text_for_state(None, Some(&TurnPhase::Failed), None, true, "stream", 0), "✗ failed");
    assert_eq!(preview_text_for_state(None, Some(&TurnPhase::Cancelled), None, true, "stream", 0), "cancelled");
    assert_eq!(
        preview_text_for_state(None, Some(&TurnPhase::Retrying { attempt: 2 }), None, true, "stream", 0),
        "retrying (attempt 2)..."
    );
    assert_eq!(preview_text_for_state(None, Some(&TurnPhase::Connecting), None, true, "", 0), "connecting...");
    assert_eq!(
        preview_text_for_state(None, Some(&TurnPhase::RunningTool { name: "bash".to_string() }), None, true, "", 0),
        "running tool: bash..."
    );
}

#[test]
fn preview_text_clears_terminal_phase_after_turn_ends() {
    for phase in [TurnPhase::TimedOut, TurnPhase::Failed, TurnPhase::Cancelled] {
        assert!(
            preview_text_for_state(None, Some(&phase), None, false, "", 0).is_empty(),
            "terminal phase {phase:?} must not persist in the inactive preview"
        );
    }
}
