use talos_tui::editor::{handle_ctrl_c, tip_expired, CtrlCState, InputState};

fn typed(text: &str) -> InputState {
    let mut state = InputState::new();
    state.input_append_str(text);
    state
}

#[test]
fn input_append_char_newline_inserts_multiline_buffer() {
    let mut state = InputState::new();
    for ch in ['h', 'i', '\n', 't', 'h', 'e', 'r', 'e'] {
        state.input_append_char(ch);
    }
    assert_eq!(state.text(), "hi\nthere");
    assert_eq!(state.cursor_pos, 8);
}

#[test]
fn input_append_char_newline_at_cursor_mid_buffer() {
    let mut state = typed("hello");
    state.cursor_pos = 2;
    state.input_append_char('\n');
    assert_eq!(state.text(), "he\nllo");
    assert_eq!(state.cursor_pos, 3);
}

#[test]
fn backspace_undoes_typing_a_character() {
    let mut state = typed("héllo");
    state.cursor_pos = 3;
    state.input_append_char('ß');
    assert_eq!(state.text(), "hélßlo");
    state.input_backspace();
    assert_eq!(state.text(), "héllo");
    assert_eq!(state.cursor_pos, 3);
    let mut empty = InputState::new();
    empty.input_backspace();
    assert_eq!(empty.text(), "");
}

#[test]
fn cursor_moves_stay_inside_the_buffer() {
    let mut state = typed("ab\ncde\nf");
    state.input_cursor_right();
    assert_eq!(state.cursor_pos, 8);
    state.cursor_pos = 5;
    state.input_cursor_to_line_start();
    assert_eq!(state.cursor_pos, 3);
    state.input_cursor_to_line_end();
    assert_eq!(state.cursor_pos, 6);
    state.cursor_pos = 0;
    state.input_cursor_left();
    assert_eq!(state.cursor_pos, 0);
    state.input_cursor_to_line_start();
    assert_eq!(state.cursor_pos, 0);
}

#[test]
fn insert_command_replaces_the_buffer() {
    let mut state = typed("draft");
    state.input_insert_command("/model ");
    assert_eq!(state.text(), "/model ");
    assert_eq!(state.cursor_pos, 7);
    state.input_clear();
    assert_eq!(state.text(), "");
    assert_eq!(state.cursor_pos, 0);
}

#[test]
fn cursor_byte_pos_counts_utf8_bytes() {
    let mut state = typed("aé中😀z");
    assert_eq!(state.cursor_byte_pos(), "aé中😀z".len());
    state.cursor_pos = 3;
    assert_eq!(state.cursor_byte_pos(), 6);
}

#[test]
fn history_prev_navigates_to_newest_then_oldest() {
    let mut state = InputState::new();
    state.input_submit();
    state.input_append_str("hello");
    state.input_submit();
    state.input_append_str("world");
    state.input_submit();

    assert_eq!(state.input_history, vec!["hello", "world"]);

    state.history_prev();
    assert_eq!(state.text(), "world");
    assert_eq!(state.history_cursor, Some(1));

    state.history_prev();
    assert_eq!(state.text(), "hello");
    assert_eq!(state.history_cursor, Some(0));

    state.history_prev();
    assert_eq!(state.text(), "hello");
    assert_eq!(state.history_cursor, Some(0));
}

#[test]
fn history_next_restores_exact_draft() {
    let mut state = typed("first");
    state.input_submit();
    state.input_append_str("my draft");
    state.history_prev();
    assert_eq!(state.text(), "first");
    assert_eq!(state.draft_text(), "my draft");

    state.history_next();
    assert_eq!(state.text(), "my draft");
    assert!(state.history_cursor.is_none());
    assert!(state.draft_text().is_empty());
}

#[test]
fn history_dedup_consecutive_duplicates() {
    let mut state = InputState::new();
    for input in ["same", "same", "different", "different", "same"] {
        state.input_append_str(input);
        state.input_submit();
    }
    assert_eq!(state.input_history, vec!["same", "different", "same"]);
}

#[test]
fn history_navigation_roundtrip_preserves_draft() {
    let mut state = InputState::new();
    for input in ["a", "b", "c"] {
        state.input_append_str(input);
        assert_eq!(state.input_submit(), input);
    }
    state.input_append_str("line one\nline two");
    state.history_prev();
    state.history_prev();
    state.history_prev();
    assert_eq!(state.text(), "a");
    state.history_next();
    state.history_next();
    assert_eq!(state.text(), "c");
    state.history_next();
    assert_eq!(state.text(), "line one\nline two");
    assert_eq!(state.cursor_pos, 17);
    assert!(state.history_cursor.is_none());
    state.history_next();
    assert_eq!(state.text(), "line one\nline two");
}

#[test]
fn ctrl_c_twice_within_the_window_exits() {
    let first = handle_ctrl_c(CtrlCState::Idle, 1_000, false);
    assert!(!first.exit);
    assert_eq!(first.state, CtrlCState::Waiting(1_000));
    assert_eq!(first.hint.as_deref(), Some("Press Ctrl+C again within 2 seconds to exit."));

    let second = handle_ctrl_c(first.state, 2_999, false);
    assert!(second.exit);
    assert!(second.hint.is_none());

    let late = handle_ctrl_c(first.state, 3_000, false);
    assert!(!late.exit);
    assert_eq!(late.state, CtrlCState::Waiting(3_000));

    let busy = handle_ctrl_c(CtrlCState::Idle, 5, true);
    assert_eq!(busy.hint.as_deref(), Some("Turn cancelled. Press Ctrl+C again to exit."));
}

#[test]
fn tips_expire_after_their_lifetime() {
    assert!(!tip_expired(1_000, 2_000, 2_999));
    assert!(tip_expired(1_000, 2_000, 3_000));
    assert!(!tip_expired(1_000, 0, 999));
}

#[test]
fn history_next_at_draft_does_nothing() {
    let mut state = InputState::new();
    state.input_append_str("entry");
    state.input_submit();
    state.history_next(); // no-op when already at draft
    assert!(state.history_cursor.is_none());
}

#[test]
fn history_prev_empty_history_does_nothing() {
    let mut state = InputState::new();
    state.history_prev();
    assert!(state.text().is_empty());
    assert!(state.history_cursor.is_none());
}

#[test]
fn history_submit_resets_cursor() {
    let mut state = InputState::new();
    state.input_append_str("entry");
    state.input_submit();

    state.history_prev();
    assert!(state.history_cursor.is_some());
    state.input_submit();
    assert!(state.history_cursor.is_none());
    assert!(state.draft_input.is_empty());
}

#[test]
fn history_non_consecutive_duplicates_kept() {
    let mut state = InputState::new();
    state.input_append_str("x");
    state.input_submit();
    state.input_append_str("y");
    state.input_submit();
    state.input_append_str("x");
    state.input_submit();

    assert_eq!(state.input_history, vec!["x", "y", "x"]);
}

#[test]
fn history_load_sets_cursor_to_end() {
    let mut state = InputState::new();
    state.input_append_str("hello world");
    state.input_submit();

    state.history_prev();
    assert_eq!(state.cursor_pos, "hello world".chars().count());
}
