use talos_tui::editor::CtrlCState;
use talos_tui::keys::{route_key, session_effects, InputContext, KeyCode, KeyInput};

fn ctx(processing: bool, buffer_empty: bool) -> InputContext {
    InputContext {
        approval_visible: false,
        credential_open: false,
        wizard_open: false,
        panel_open: false,
        buffer_empty,
        processing,
        within_ime_window: false,
    }
}

fn press(code: KeyCode, ctrl: bool) -> KeyInput {
    KeyInput { code, ctrl, shift: false, press: true }
}

#[test]
fn repeated_esc_does_not_corrupt_cancellation_state() {
    let mut ctrl_c = CtrlCState::Idle;
    let mut cancels = 0;
    for now in 0..3u64 {
        let e = session_effects(route_key(ctx(true, true), press(KeyCode::Esc, false)), ctrl_c, now, true);
        assert!(!e.exit, "repeated Esc must not exit");
        if e.cancel_turn {
            cancels += 1;
        }
        ctrl_c = e.ctrl_c;
    }
    assert_eq!(cancels, 3);
    assert_eq!(ctrl_c, CtrlCState::Idle);
    let e = session_effects(route_key(ctx(true, true), press(KeyCode::Esc, false)), ctrl_c, 10, true);
    assert!(!e.exit);
    assert!(e.cancel_turn);
    assert_eq!(e.hint.as_deref(), Some("Turn cancellation requested."));
}

#[test]
fn esc_when_idle_cancels_nothing() {
    let e = session_effects(route_key(ctx(false, true), press(KeyCode::Esc, false)), CtrlCState::Waiting(5), 6, false);
    assert!(!e.cancel_turn && !e.exit);
    assert_eq!(e.ctrl_c, CtrlCState::Idle);
    assert_eq!(e.hint, None);
}

#[test]
fn double_ctrl_c_exits_only_within_the_window() {
    let first = session_effects(route_key(ctx(false, true), press(KeyCode::Char('c'), true)), CtrlCState::Idle, 1000, false);
    assert!(!first.exit);
    assert_eq!(first.ctrl_c, CtrlCState::Waiting(1000));
    assert_eq!(first.hint.as_deref(), Some("Press Ctrl+C again within 2 seconds to exit."));
    let second = session_effects(route_key(ctx(false, true), press(KeyCode::Char('c'), true)), first.ctrl_c, 2500, false);
    assert!(second.exit);
    let late = session_effects(route_key(ctx(false, true), press(KeyCode::Char('c'), true)), first.ctrl_c, 3500, false);
    assert!(!late.exit);
}

#[test]
fn ctrl_c_with_a_draft_clears_it_with_a_hint() {
    let e = session_effects(route_key(ctx(false, false), press(KeyCode::Char('c'), true)), CtrlCState::Waiting(1), 2, false);
    assert!(!e.exit);
    assert_eq!(e.ctrl_c, CtrlCState::Idle);
    assert_eq!(e.hint.as_deref(), Some("Input cleared. Press Ctrl+C twice to exit."));
    let busy = session_effects(route_key(ctx(true, true), press(KeyCode::Char('c'), true)), CtrlCState::Idle, 2, true);
    assert_eq!(busy.hint.as_deref(), Some("Press Esc to interrupt the current turn."));
    assert!(!busy.cancel_turn);
}
