use std::io;
use talos_tui::lifecycle::{
    initialize_lifecycle, keyboard_enhancement_requested, restore_lifecycle, TerminalAction,
    TerminalBackend, TerminalLifecycleState, TracedTerminal,
};

/// Records what the lifecycle asks of the terminal; optionally fails one
/// action.
struct Recorder {
    actions: Vec<TerminalAction>,
    raw_mode_enabled: bool,
    probe_answer: bool,
    probes: usize,
    fail_on: Option<TerminalAction>,
}

impl Recorder {
    fn new(probe_answer: bool, fail_on: Option<TerminalAction>) -> Self {
        Recorder { actions: Vec::new(), raw_mode_enabled: false, probe_answer, probes: 0, fail_on }
    }
}

impl TerminalBackend for Recorder {
    type Error = io::Error;

    fn keyboard_enhancement_requested(&mut self) -> bool {
        assert!(self.raw_mode_enabled);
        self.probes += 1;
        self.probe_answer
    }

    fn run(&mut self, action: TerminalAction) -> Result<(), io::Error> {
        self.actions.push(action);
        if self.fail_on == Some(action) {
            return Err(io::Error::other("action failed"));
        }
        if action == TerminalAction::EnableRawMode {
            self.raw_mode_enabled = true;
        }
        Ok(())
    }
}

#[test]
fn keyboard_probe_requests_best_effort_enablement_after_an_error() {
    assert!(keyboard_enhancement_requested(Ok(true)));
    assert!(!keyboard_enhancement_requested(Ok(false)));
    assert!(keyboard_enhancement_requested(Err(io::Error::other(
        "probe failed"
    ))));
}

#[test]
fn keyboard_probe_runs_after_raw_mode_is_enabled() {
    let mut terminal = TracedTerminal::new(Recorder::new(false, None));
    initialize_lifecycle(&mut terminal).expect("terminal initialization succeeds");

    assert_eq!(terminal.backend.actions[0], TerminalAction::EnableRawMode);
    assert_eq!(terminal.backend.probes, 1);
}

#[test]
fn leave_alternate_screen_runs_only_if_enter_succeeded() {
    let mut lifecycle = TerminalLifecycleState { raw_mode: true, ..TerminalLifecycleState::new() };
    let mut terminal = TracedTerminal::new(Recorder::new(false, None));
    restore_lifecycle(&mut lifecycle, &mut terminal).expect("restore succeeds");
    assert_eq!(terminal.backend.actions, vec![TerminalAction::DisableRawMode]);
}

#[test]
fn successful_setup_enters_every_mode_in_order() {
    let mut terminal = TracedTerminal::new(Recorder::new(true, None));
    let lifecycle = initialize_lifecycle(&mut terminal).expect("setup succeeds");
    assert_eq!(
        terminal.backend.actions,
        vec![
            TerminalAction::EnableRawMode,
            TerminalAction::EnterAlternateScreen,
            TerminalAction::PushKeyboardEnhancement,
            TerminalAction::HideCursor,
            TerminalAction::EnableBracketedPaste,
            TerminalAction::EnableMouseCapture,
            TerminalAction::ClearFrame,
        ]
    );
    assert!(lifecycle.raw_mode && lifecycle.alternate_screen && lifecycle.keyboard_enhancement);
    assert!(lifecycle.cursor_hidden && lifecycle.bracketed_paste && lifecycle.mouse_capture);
}

#[test]
fn failed_setup_rolls_back_exactly_the_entered_modes() {
    let mut terminal = TracedTerminal::new(Recorder::new(false, Some(TerminalAction::EnableBracketedPaste)));
    let failure = initialize_lifecycle(&mut terminal).expect_err("setup fails");
    assert!(failure.rollback.is_none());
    assert_eq!(failure.setup.to_string(), "action failed");
    assert_eq!(
        terminal.backend.actions,
        vec![
            TerminalAction::EnableRawMode,
            TerminalAction::EnterAlternateScreen,
            TerminalAction::HideCursor,
            TerminalAction::EnableBracketedPaste,
            TerminalAction::ShowCursor,
            TerminalAction::LeaveAlternateScreen,
            TerminalAction::DisableRawMode,
        ]
    );
}

#[test]
fn failed_restore_keeps_the_failing_mode_for_a_retry() {
    let mut lifecycle = TerminalLifecycleState {
        raw_mode: true,
        alternate_screen: true,
        cursor_hidden: true,
        ..TerminalLifecycleState::new()
    };
    let mut terminal = TracedTerminal::new(Recorder::new(false, Some(TerminalAction::ShowCursor)));
    assert!(restore_lifecycle(&mut lifecycle, &mut terminal).is_err());
    assert_eq!(
        terminal.backend.actions,
        vec![
            TerminalAction::ShowCursor,
            TerminalAction::LeaveAlternateScreen,
            TerminalAction::DisableRawMode,
        ]
    );
    assert!(lifecycle.cursor_hidden);
    assert!(!lifecycle.alternate_screen && !lifecycle.raw_mode);

    let mut retry = TracedTerminal::new(Recorder::new(false, None));
    restore_lifecycle(&mut lifecycle, &mut retry).expect("retry succeeds");
    assert_eq!(retry.backend.actions, vec![TerminalAction::ShowCursor]);
    assert_eq!(lifecycle, TerminalLifecycleState::new());
}

fn initialize_with_failure(fail_at: TerminalAction) -> (bool, Vec<TerminalAction>) {
    let mut terminal = TracedTerminal::new(Recorder::new(false, Some(fail_at)));
    let result = initialize_lifecycle(&mut terminal);
    (result.is_err(), terminal.backend.actions)
}

fn recorder() -> TracedTerminal<Recorder> {
    TracedTerminal::new(Recorder::new(false, None))
}

#[test]
fn best_effort_keyboard_enablement_is_paired_with_restore() {
    let mut terminal = TracedTerminal::new(Recorder::new(true, None));
    let mut lifecycle =
        initialize_lifecycle(&mut terminal).expect("best-effort keyboard initialization succeeds");

    assert!(lifecycle.keyboard_enhancement);
    assert_eq!(
        terminal.backend.actions[0..3],
        [
            TerminalAction::EnableRawMode,
            TerminalAction::EnterAlternateScreen,
            TerminalAction::PushKeyboardEnhancement
        ]
    );

    restore_lifecycle(&mut lifecycle, &mut terminal).expect("keyboard restore succeeds");
    let actions = &terminal.backend.actions;
    let pop_index = actions
        .iter()
        .position(|action| *action == TerminalAction::PopKeyboardEnhancement)
        .expect("keyboard mode is popped");
    let leave_index = actions
        .iter()
        .position(|action| *action == TerminalAction::LeaveAlternateScreen)
        .expect("alternate screen is left");
    assert!(pop_index < leave_index);
}

#[test]
fn alternate_screen_entry_failure_aborts_terminal_session() {
    let (failed, actions) = initialize_with_failure(TerminalAction::EnterAlternateScreen);
    assert!(failed);
    assert_eq!(
        actions,
        vec![
            TerminalAction::EnableRawMode,
            TerminalAction::EnterAlternateScreen,
            TerminalAction::DisableRawMode,
        ]
    );
}

#[test]
fn successful_initialization_enables_mouse_capture() {
    let mut terminal = recorder();
    let lifecycle = initialize_lifecycle(&mut terminal).expect("terminal initialization succeeds");

    assert!(lifecycle.mouse_capture);
    assert_eq!(
        terminal.backend.actions,
        vec![
            TerminalAction::EnableRawMode,
            TerminalAction::EnterAlternateScreen,
            TerminalAction::HideCursor,
            TerminalAction::EnableBracketedPaste,
            TerminalAction::EnableMouseCapture,
            TerminalAction::ClearFrame,
        ]
    );
}

#[test]
fn bracketed_paste_enable_failure_rolls_back_entered_states() {
    let (failed, actions) = initialize_with_failure(TerminalAction::EnableBracketedPaste);
    assert!(failed);
    assert_eq!(
        actions,
        vec![
            TerminalAction::EnableRawMode,
            TerminalAction::EnterAlternateScreen,
            TerminalAction::HideCursor,
            TerminalAction::EnableBracketedPaste,
            TerminalAction::ShowCursor,
            TerminalAction::LeaveAlternateScreen,
            TerminalAction::DisableRawMode,
        ]
    );
}

#[test]
fn mouse_capture_failure_rolls_back_preceding_terminal_states() {
    let (failed, actions) = initialize_with_failure(TerminalAction::EnableMouseCapture);
    assert!(failed);
    assert_eq!(
        actions,
        vec![
            TerminalAction::EnableRawMode,
            TerminalAction::EnterAlternateScreen,
            TerminalAction::HideCursor,
            TerminalAction::EnableBracketedPaste,
            TerminalAction::EnableMouseCapture,
            TerminalAction::DisableBracketedPaste,
            TerminalAction::ShowCursor,
            TerminalAction::LeaveAlternateScreen,
            TerminalAction::DisableRawMode,
        ]
    );
}

#[test]
fn cursor_hide_failure_rolls_back_alternate_screen() {
    let (failed, actions) = initialize_with_failure(TerminalAction::HideCursor);
    assert!(failed);
    assert_eq!(
        actions,
        vec![
            TerminalAction::EnableRawMode,
            TerminalAction::EnterAlternateScreen,
            TerminalAction::HideCursor,
            TerminalAction::LeaveAlternateScreen,
            TerminalAction::DisableRawMode,
        ]
    );
}

#[test]
fn restore_is_idempotent_after_partial_initialization() {
    let mut lifecycle =
        TerminalLifecycleState { raw_mode: true, alternate_screen: true, ..TerminalLifecycleState::new() };
    let mut terminal = recorder();
    restore_lifecycle(&mut lifecycle, &mut terminal).expect("restore succeeds");
    restore_lifecycle(&mut lifecycle, &mut terminal).expect("second restore succeeds");
    assert_eq!(
        terminal.backend.actions,
        vec![TerminalAction::LeaveAlternateScreen, TerminalAction::DisableRawMode]
    );
}

#[test]
fn drop_restore_only_targets_enabled_terminal_states() {
    let mut lifecycle = TerminalLifecycleState {
        mouse_capture: true,
        bracketed_paste: true,
        cursor_hidden: true,
        ..TerminalLifecycleState::new()
    };
    let mut terminal = recorder();
    restore_lifecycle(&mut lifecycle, &mut terminal).expect("restore succeeds");
    assert_eq!(
        terminal.backend.actions,
        vec![
            TerminalAction::DisableMouseCapture,
            TerminalAction::DisableBracketedPaste,
            TerminalAction::ShowCursor
        ]
    );
}

#[test]
fn restore_attempts_all_enabled_states_and_retries_only_failures() {
    let mut lifecycle = TerminalLifecycleState {
        raw_mode: true,
        alternate_screen: true,
        cursor_hidden: true,
        bracketed_paste: true,
        mouse_capture: true,
        keyboard_enhancement: true,
    };
    let mut first = TracedTerminal::new(Recorder::new(false, Some(TerminalAction::DisableBracketedPaste)));
    assert!(restore_lifecycle(&mut lifecycle, &mut first).is_err());
    assert_eq!(first.backend.actions.len(), 6);
    assert!(lifecycle.bracketed_paste);
    assert!(!lifecycle.mouse_capture && !lifecycle.cursor_hidden && !lifecycle.alternate_screen);
    let mut retry = recorder();
    restore_lifecycle(&mut lifecycle, &mut retry).expect("retry succeeds");
    assert_eq!(retry.backend.actions, vec![TerminalAction::DisableBracketedPaste]);
}

#[test]
fn failed_mouse_capture_restore_remains_retryable() {
    let mut lifecycle = TerminalLifecycleState { mouse_capture: true, ..TerminalLifecycleState::new() };
    let mut first = TracedTerminal::new(Recorder::new(false, Some(TerminalAction::DisableMouseCapture)));
    assert!(restore_lifecycle(&mut lifecycle, &mut first).is_err());
    assert_eq!(first.backend.actions, vec![TerminalAction::DisableMouseCapture]);
    assert!(lifecycle.mouse_capture);

    let mut retry = recorder();
    restore_lifecycle(&mut lifecycle, &mut retry).expect("mouse restore retry succeeds");
    assert_eq!(retry.backend.actions, vec![TerminalAction::DisableMouseCapture]);
    assert!(!lifecycle.mouse_capture);
}
