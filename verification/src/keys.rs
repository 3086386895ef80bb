//! Routing of key presses to what the application does with them, given
//! which overlay is open; approval shortcuts; and the mouse-selection
//! geometry.

use vstd::prelude::*;
use vstd::string::StringExecFns;
use crate::layout::Rect;
use crate::editor::{ctrl_c_step, first_press_hint, handle_ctrl_c, CtrlCState};

verus! {

/// A key, as far as routing tells keys apart.
#[derive(Debug, Clone, Copy, PartialEq, Eq, Structural)]
pub enum KeyCode {
    Char(char),
    Enter,
    Esc,
    Backspace,
    Left,
    Right,
    Up,
    Down,
    Tab,
    PageUp,
    PageDown,
    Home,
    End,
    Other,
}

/// A key event: the key, its modifiers, and whether it is a press (as
/// opposed to a repeat or release report).
#[derive(Debug, Clone, Copy, PartialEq, Eq, Structural)]
pub struct KeyInput {
    pub code: KeyCode,
    pub ctrl: bool,
    pub shift: bool,
    pub press: bool,
}

/// What is on screen when a key arrives.
#[derive(Debug, Clone, Copy, PartialEq, Eq, Structural)]
pub struct InputContext {
    pub approval_visible: bool,
    pub credential_open: bool,
    pub wizard_open: bool,
    pub panel_open: bool,
    pub buffer_empty: bool,
    pub processing: bool,
    /// The last typed character came within the input-method window, so an
    /// Enter belongs to the composition rather than to the application.
    pub within_ime_window: bool,
}

/// A key of the approval overlay.
#[derive(Debug, Clone, Copy, PartialEq, Eq, Structural)]
pub enum ApprovalKey {
    SelectPrev,
    SelectNext,
    ConfirmSelected,
    Deny,
    Shortcut(char),
}

/// What the application does with a key.
#[derive(Debug, Clone, Copy, PartialEq, Eq, Structural)]
pub enum KeyCommand {
    Ignore,
    HistoryPageUp,
    HistoryPageDown,
    HistoryTop,
    HistoryBottom,
    DenyApproval,
    CancelCredential,
    CancelWizard,
    ClosePanelAndClear,
    ClearInputWithHint,
    InterruptHint,
    CtrlCPress,
    Approval(ApprovalKey),
    CredentialSubmit,
    CredentialBackspace,
    CredentialChar(char),
    WizardAdvance,
    WizardBackspace,
    WizardCycleProtocol,
    WizardChar(char),
    LineStart,
    LineEnd,
    ToggleEvolution,
    PanelPrev,
    PanelNext,
    HistoryPrev,
    HistoryNext,
    PanelComplete,
    PanelAccept,
    PanelClose,
    NewLine,
    OpenSlashMenu,
    PanelQueryChar(char),
    InputChar(char),
    PanelQueryBackspace,
    InputBackspace,
    CursorLeft,
    CursorRight,
    Submit,
    CancelTurn,
}

/// A routed key: the command, whether the pending Ctrl+C confirmation is
/// dropped, and whether the key counts as a typed character for the
/// input-method window.
#[derive(Debug, Clone, Copy, PartialEq, Eq, Structural)]
pub struct KeyRoute {
    pub command: KeyCommand,
    pub reset_ctrl_c: bool,
    pub typed_char: bool,
}

pub open spec fn plain(command: KeyCommand) -> KeyRoute {
    KeyRoute { command, reset_ctrl_c: false, typed_char: false }
}

pub open spec fn resetting(command: KeyCommand) -> KeyRoute {
    KeyRoute { command, reset_ctrl_c: true, typed_char: false }
}

/// Ctrl+C, by what it interrupts first: an approval (denied), the
/// credential entry, the provider wizard, an open panel, a non-empty
/// composer, a running turn (only a hint); only otherwise the exit
/// confirmation.
pub open spec fn ctrl_c_route(ctx: InputContext) -> KeyRoute {
    if ctx.approval_visible {
        plain(KeyCommand::DenyApproval)
    } else if ctx.credential_open {
        plain(KeyCommand::CancelCredential)
    } else if ctx.wizard_open {
        plain(KeyCommand::CancelWizard)
    } else if ctx.panel_open {
        resetting(KeyCommand::ClosePanelAndClear)
    } else if !ctx.buffer_empty {
        resetting(KeyCommand::ClearInputWithHint)
    } else if ctx.processing {
        resetting(KeyCommand::InterruptHint)
    } else {
        plain(KeyCommand::CtrlCPress)
    }
}

/// The composer's keys when no overlay captures input.
pub open spec fn composer_route(ctx: InputContext, key: KeyInput) -> KeyRoute {
    match key.code {
        KeyCode::Char(c) => if key.ctrl && c == 'a' {
            resetting(KeyCommand::LineStart)
        } else if key.ctrl && c == 'e' {
            resetting(KeyCommand::LineEnd)
        } else if key.ctrl && c == 'g' {
            resetting(KeyCommand::ToggleEvolution)
        } else if key.ctrl && c == 'j' && !ctx.panel_open {
            resetting(KeyCommand::NewLine)
        } else if c == '/' && ctx.buffer_empty {
            resetting(KeyCommand::OpenSlashMenu)
        } else if ctx.panel_open {
            KeyRoute { command: KeyCommand::PanelQueryChar(c), reset_ctrl_c: true, typed_char: true }
        } else {
            KeyRoute { command: KeyCommand::InputChar(c), reset_ctrl_c: true, typed_char: true }
        },
        KeyCode::Up => if ctx.panel_open {
            plain(KeyCommand::PanelPrev)
        } else {
            resetting(KeyCommand::HistoryPrev)
        },
        KeyCode::Down => if ctx.panel_open {
            plain(KeyCommand::PanelNext)
        } else {
            resetting(KeyCommand::HistoryNext)
        },
        KeyCode::Tab => if ctx.panel_open {
            plain(KeyCommand::PanelComplete)
        } else {
            plain(KeyCommand::Ignore)
        },
        KeyCode::Enter => if ctx.panel_open {
            if ctx.within_ime_window {
                plain(KeyCommand::Ignore)
            } else {
                plain(KeyCommand::PanelAccept)
            }
        } else if key.shift {
            resetting(KeyCommand::NewLine)
        } else {
            resetting(KeyCommand::Submit)
        },
        KeyCode::Esc => if ctx.panel_open {
            plain(KeyCommand::PanelClose)
        } else if ctx.processing {
            resetting(KeyCommand::CancelTurn)
        } else {
            resetting(KeyCommand::Ignore)
        },
        KeyCode::Backspace => if ctx.panel_open {
            resetting(KeyCommand::PanelQueryBackspace)
        } else {
            resetting(KeyCommand::InputBackspace)
        },
        KeyCode::Left => resetting(KeyCommand::CursorLeft),
        KeyCode::Right => resetting(KeyCommand::CursorRight),
        _ => plain(KeyCommand::Ignore),
    }
}

/// The route of a key event: releases and repeats do nothing; history
/// paging keys always page; then Ctrl+C; then the approval overlay, the
/// credential entry and the provider wizard each capture every key; then
/// the composer and its panel.
pub open spec fn route_spec(ctx: InputContext, key: KeyInput) -> KeyRoute {
    if !key.press {
        plain(KeyCommand::Ignore)
    } else if key.code == KeyCode::PageUp {
        plain(KeyCommand::HistoryPageUp)
    } else if key.code == KeyCode::PageDown {
        plain(KeyCommand::HistoryPageDown)
    } else if key.code == KeyCode::Home && key.ctrl {
        plain(KeyCommand::HistoryTop)
    } else if key.code == KeyCode::End && key.ctrl {
        plain(KeyCommand::HistoryBottom)
    } else if key.code == KeyCode::Char('c') && key.ctrl {
        ctrl_c_route(ctx)
    } else if ctx.approval_visible {
        plain(
            match key.code {
                KeyCode::Up => KeyCommand::Approval(ApprovalKey::SelectPrev),
                KeyCode::Down => KeyCommand::Approval(ApprovalKey::SelectNext),
                KeyCode::Enter => KeyCommand::Approval(ApprovalKey::ConfirmSelected),
                KeyCode::Esc => KeyCommand::Approval(ApprovalKey::Deny),
                KeyCode::Char(c) => KeyCommand::Approval(ApprovalKey::Shortcut(c)),
                _ => KeyCommand::Ignore,
            },
        )
    } else if ctx.credential_open {
        match key.code {
            KeyCode::Enter => if ctx.within_ime_window {
                plain(KeyCommand::Ignore)
            } else {
                plain(KeyCommand::CredentialSubmit)
            },
            KeyCode::Esc => plain(KeyCommand::CancelCredential),
            KeyCode::Backspace => plain(KeyCommand::CredentialBackspace),
            KeyCode::Char(c) => KeyRoute {
                command: KeyCommand::CredentialChar(c),
                reset_ctrl_c: false,
                typed_char: true,
            },
            _ => plain(KeyCommand::Ignore),
        }
    } else if ctx.wizard_open {
        match key.code {
            KeyCode::Enter => if ctx.within_ime_window {
                plain(KeyCommand::Ignore)
            } else {
                plain(KeyCommand::WizardAdvance)
            },
            KeyCode::Esc => plain(KeyCommand::CancelWizard),
            KeyCode::Backspace => plain(KeyCommand::WizardBackspace),
            KeyCode::Up => plain(KeyCommand::WizardCycleProtocol),
            KeyCode::Down => plain(KeyCommand::WizardCycleProtocol),
            KeyCode::Char(c) => KeyRoute { command: KeyCommand::WizardChar(c), reset_ctrl_c: false, typed_char: true },
            _ => plain(KeyCommand::Ignore),
        }
    } else {
        composer_route(ctx, key)
    }
}

fn ctrl_c(ctx: InputContext) -> (r: KeyRoute)
    ensures
        r == ctrl_c_route(ctx),
{
    if ctx.approval_visible {
        KeyRoute { command: KeyCommand::DenyApproval, reset_ctrl_c: false, typed_char: false }
    } else if ctx.credential_open {
        KeyRoute { command: KeyCommand::CancelCredential, reset_ctrl_c: false, typed_char: false }
    } else if ctx.wizard_open {
        KeyRoute { command: KeyCommand::CancelWizard, reset_ctrl_c: false, typed_char: false }
    } else if ctx.panel_open {
        KeyRoute { command: KeyCommand::ClosePanelAndClear, reset_ctrl_c: true, typed_char: false }
    } else if !ctx.buffer_empty {
        KeyRoute { command: KeyCommand::ClearInputWithHint, reset_ctrl_c: true, typed_char: false }
    } else if ctx.processing {
        KeyRoute { command: KeyCommand::InterruptHint, reset_ctrl_c: true, typed_char: false }
    } else {
        KeyRoute { command: KeyCommand::CtrlCPress, reset_ctrl_c: false, typed_char: false }
    }
}

fn composer_key(ctx: InputContext, key: KeyInput) -> (r: KeyRoute)
    ensures
        r == composer_route(ctx, key),
{
    let reset = |command: KeyCommand| -> (r: KeyRoute)
        ensures
            r == resetting(command),
        { KeyRoute { command, reset_ctrl_c: true, typed_char: false } };
    let keep = |command: KeyCommand| -> (r: KeyRoute)
        ensures
            r == plain(command),
        { KeyRoute { command, reset_ctrl_c: false, typed_char: false } };
    match key.code {
        KeyCode::Char(c) => {
            if key.ctrl && c == 'a' {
                reset(KeyCommand::LineStart)
            } else if key.ctrl && c == 'e' {
                reset(KeyCommand::LineEnd)
            } else if key.ctrl && c == 'g' {
                reset(KeyCommand::ToggleEvolution)
            } else if key.ctrl && c == 'j' && !ctx.panel_open {
                reset(KeyCommand::NewLine)
            } else if c == '/' && ctx.buffer_empty {
                reset(KeyCommand::OpenSlashMenu)
            } else if ctx.panel_open {
                KeyRoute { command: KeyCommand::PanelQueryChar(c), reset_ctrl_c: true, typed_char: true }
            } else {
                KeyRoute { command: KeyCommand::InputChar(c), reset_ctrl_c: true, typed_char: true }
            }
        },
        KeyCode::Up => if ctx.panel_open {
            keep(KeyCommand::PanelPrev)
        } else {
            reset(KeyCommand::HistoryPrev)
        },
        KeyCode::Down => if ctx.panel_open {
            keep(KeyCommand::PanelNext)
        } else {
            reset(KeyCommand::HistoryNext)
        },
        KeyCode::Tab => if ctx.panel_open {
            keep(KeyCommand::PanelComplete)
        } else {
            keep(KeyCommand::Ignore)
        },
        KeyCode::Enter => if ctx.panel_open {
            if ctx.within_ime_window {
                keep(KeyCommand::Ignore)
            } else {
                keep(KeyCommand::PanelAccept)
            }
        } else if key.shift {
            reset(KeyCommand::NewLine)
        } else {
            reset(KeyCommand::Submit)
        },
        KeyCode::Esc => if ctx.panel_open {
            keep(KeyCommand::PanelClose)
        } else if ctx.processing {
            reset(KeyCommand::CancelTurn)
        } else {
            reset(KeyCommand::Ignore)
        },
        KeyCode::Backspace => if ctx.panel_open {
            reset(KeyCommand::PanelQueryBackspace)
        } else {
            reset(KeyCommand::InputBackspace)
        },
        KeyCode::Left => reset(KeyCommand::CursorLeft),
        KeyCode::Right => reset(KeyCommand::CursorRight),
        _ => keep(KeyCommand::Ignore),
    }
}

/// Routes a key event (see `route_spec`).
pub fn route_key(ctx: InputContext, key: KeyInput) -> (r: KeyRoute)
    ensures
        r == route_spec(ctx, key),
{
    let keep = |command: KeyCommand| -> (r: KeyRoute)
        ensures
            r == plain(command),
        { KeyRoute { command, reset_ctrl_c: false, typed_char: false } };
    if !key.press {
        return keep(KeyCommand::Ignore);
    }
    match key.code {
        KeyCode::PageUp => return keep(KeyCommand::HistoryPageUp),
        KeyCode::PageDown => return keep(KeyCommand::HistoryPageDown),
        KeyCode::Home => if key.ctrl {
            return keep(KeyCommand::HistoryTop);
        },
        KeyCode::End => if key.ctrl {
            return keep(KeyCommand::HistoryBottom);
        },
        KeyCode::Char(c) => if c == 'c' && key.ctrl {
            return ctrl_c(ctx);
        },
        _ => {},
    }
    if ctx.approval_visible {
        let command = match key.code {
            KeyCode::Up => KeyCommand::Approval(ApprovalKey::SelectPrev),
            KeyCode::Down => KeyCommand::Approval(ApprovalKey::SelectNext),
            KeyCode::Enter => KeyCommand::Approval(ApprovalKey::ConfirmSelected),
            KeyCode::Esc => KeyCommand::Approval(ApprovalKey::Deny),
            KeyCode::Char(c) => KeyCommand::Approval(ApprovalKey::Shortcut(c)),
            _ => KeyCommand::Ignore,
        };
        return keep(command);
    }
    if ctx.credential_open {
        return match key.code {
            KeyCode::Enter => if ctx.within_ime_window {
                keep(KeyCommand::Ignore)
            } else {
                keep(KeyCommand::CredentialSubmit)
            },
            KeyCode::Esc => keep(KeyCommand::CancelCredential),
            KeyCode::Backspace => keep(KeyCommand::CredentialBackspace),
            KeyCode::Char(c) => KeyRoute { command: KeyCommand::CredentialChar(c), reset_ctrl_c: false, typed_char: true },
            _ => keep(KeyCommand::Ignore),
        };
    }
    if ctx.wizard_open {
        return match key.code {
            KeyCode::Enter => if ctx.within_ime_window {
                keep(KeyCommand::Ignore)
            } else {
                keep(KeyCommand::WizardAdvance)
            },
            KeyCode::Esc => keep(KeyCommand::CancelWizard),
            KeyCode::Backspace => keep(KeyCommand::WizardBackspace),
            KeyCode::Up => keep(KeyCommand::WizardCycleProtocol),
            KeyCode::Down => keep(KeyCommand::WizardCycleProtocol),
            KeyCode::Char(c) => KeyRoute { command: KeyCommand::WizardChar(c), reset_ctrl_c: false, typed_char: true },
            _ => keep(KeyCommand::Ignore),
        };
    }
    composer_key(ctx, key)
}

/// Ctrl+C only reaches the exit confirmation when nothing else is pending:
/// no approval, credential entry, wizard or panel, an empty composer and no
/// running turn.
pub proof fn ctrl_c_exits_only_when_idle(ctx: InputContext, key: KeyInput)
    requires
        key.press,
        key.code == KeyCode::Char('c'),
        key.ctrl,
    ensures
        route_spec(ctx, key).command == KeyCommand::CtrlCPress <==> (!ctx.approval_visible
            && !ctx.credential_open && !ctx.wizard_open && !ctx.panel_open && ctx.buffer_empty
            && !ctx.processing),
{
}

/// While an approval is visible, every key except history paging goes to
/// the approval (Ctrl+C denies it).
pub proof fn approval_captures_keys(ctx: InputContext, key: KeyInput)
    requires
        ctx.approval_visible,
        key.press,
    ensures
        route_spec(ctx, key).command is Approval || route_spec(ctx, key).command == KeyCommand::Ignore
            || route_spec(ctx, key).command == KeyCommand::DenyApproval || route_spec(ctx, key).command
            == KeyCommand::HistoryPageUp || route_spec(ctx, key).command == KeyCommand::HistoryPageDown
            || route_spec(ctx, key).command == KeyCommand::HistoryTop || route_spec(ctx, key).command
            == KeyCommand::HistoryBottom,
{
}

/// An Enter inside the input-method window never submits, accepts a panel
/// item, submits credentials or advances the wizard.
pub proof fn ime_enter_never_commits(ctx: InputContext, key: KeyInput)
    requires
        ctx.within_ime_window,
        key.code == KeyCode::Enter,
        !ctx.approval_visible,
        ctx.credential_open || ctx.wizard_open || ctx.panel_open,
    ensures
        route_spec(ctx, key).command == KeyCommand::Ignore,
{
}

/// With no overlay capturing keys, a pressed Left key moves the composer
/// cursor left and a pressed Right key moves it right, whatever else holds
/// (an open panel, a draft, a running turn, modifiers).
pub proof fn arrows_move_the_cursor_their_way(ctx: InputContext, key: KeyInput)
    requires
        key.press,
        !ctx.approval_visible && !ctx.credential_open && !ctx.wizard_open,
    ensures
        key.code == KeyCode::Left ==> route_spec(ctx, key).command == KeyCommand::CursorLeft,
        key.code == KeyCode::Right ==> route_spec(ctx, key).command == KeyCommand::CursorRight,
{
}

/// Releases and repeats never do anything.
pub proof fn only_presses_act(ctx: InputContext, key: KeyInput)
    requires
        !key.press,
    ensures
        route_spec(ctx, key) == plain(KeyCommand::Ignore),
{
}

/// What a routed key does to the session beside editing the composer and
/// panels: whether the running turn is asked to cancel, whether the
/// application exits, the Ctrl+C confirmation state afterwards and the hint
/// shown, if any.
#[derive(Debug, Clone, PartialEq, Eq)]
pub struct SessionEffects {
    pub cancel_turn: bool,
    pub exit: bool,
    pub ctrl_c: CtrlCState,
    pub hint: Option<String>,
}

pub open spec fn hint_view(h: Option<String>) -> Option<Seq<char>> {
    match h {
        Some(s) => Some(s@),
        None => None,
    }
}

/// The session effects of `route` with the confirmation state `ctrl_c`, at
/// `now` (milliseconds): Esc during a turn cancels it; the Ctrl+C hints
/// clear the confirmation; a Ctrl+C press steps the confirmation (a second
/// press within the window exits); any other key clears the confirmation
/// when its route says so.
pub open spec fn session_effects_spec(route: KeyRoute, ctrl_c: CtrlCState, now: u64, processing: bool) -> (
    bool,
    bool,
    CtrlCState,
    Option<Seq<char>>,
) {
    match route.command {
        KeyCommand::CancelTurn => (true, false, CtrlCState::Idle, Some("Turn cancellation requested."@)),
        KeyCommand::InterruptHint => (false, false, CtrlCState::Idle, Some("Press Esc to interrupt the current turn."@)),
        KeyCommand::ClearInputWithHint => (
            false,
            false,
            CtrlCState::Idle,
            Some("Input cleared. Press Ctrl+C twice to exit."@),
        ),
        KeyCommand::CtrlCPress => {
            let (st, exit) = ctrl_c_step(ctrl_c, now);
            (
                false,
                exit,
                st,
                if exit { None } else { Some(first_press_hint(processing && ctrl_c == CtrlCState::Idle)) },
            )
        },
        _ => (false, false, if route.reset_ctrl_c { CtrlCState::Idle } else { ctrl_c }, None),
    }
}

/// Applies the session effects of a routed key (see
/// `session_effects_spec`).
pub fn session_effects(route: KeyRoute, ctrl_c: CtrlCState, now: u64, processing: bool) -> (e: SessionEffects)
    ensures
        (e.cancel_turn, e.exit, e.ctrl_c, hint_view(e.hint)) == session_effects_spec(route, ctrl_c, now, processing),
{
    match route.command {
        KeyCommand::CancelTurn => SessionEffects {
            cancel_turn: true,
            exit: false,
            ctrl_c: CtrlCState::Idle,
            hint: Some(String::from_str("Turn cancellation requested.")),
        },
        KeyCommand::InterruptHint => SessionEffects {
            cancel_turn: false,
            exit: false,
            ctrl_c: CtrlCState::Idle,
            hint: Some(String::from_str("Press Esc to interrupt the current turn.")),
        },
        KeyCommand::ClearInputWithHint => SessionEffects {
            cancel_turn: false,
            exit: false,
            ctrl_c: CtrlCState::Idle,
            hint: Some(String::from_str("Input cleared. Press Ctrl+C twice to exit.")),
        },
        KeyCommand::CtrlCPress => {
            let o = handle_ctrl_c(ctrl_c, now, processing);
            SessionEffects { cancel_turn: false, exit: o.exit, ctrl_c: o.state, hint: o.hint }
        },
        _ => SessionEffects {
            cancel_turn: false,
            exit: false,
            ctrl_c: if route.reset_ctrl_c { CtrlCState::Idle } else { ctrl_c },
            hint: None,
        },
    }
}

/// Every Esc press during a turn, with no overlay or panel open, asks the
/// turn to cancel exactly once, never exits, and leaves the Ctrl+C
/// confirmation idle, whatever state it was in.
pub proof fn esc_during_a_turn_cancels_it(ctx: InputContext, key: KeyInput, ctrl_c: CtrlCState, now: u64)
    requires
        key.press,
        key.code == KeyCode::Esc,
        ctx.processing,
        !ctx.approval_visible && !ctx.credential_open && !ctx.wizard_open && !ctx.panel_open,
    ensures
        ({
            let (cancel, exit, st, _hint) = session_effects_spec(route_spec(ctx, key), ctrl_c, now, ctx.processing);
            cancel && !exit && st == CtrlCState::Idle
        }),
{
}

/// Only a Ctrl+C press with nothing pending can exit, and only as the
/// second press within the confirmation window.
pub proof fn only_a_confirmed_ctrl_c_exits(ctx: InputContext, key: KeyInput, ctrl_c: CtrlCState, now: u64)
    ensures
        session_effects_spec(route_spec(ctx, key), ctrl_c, now, ctx.processing).1 ==> route_spec(ctx, key).command
            == KeyCommand::CtrlCPress && ctrl_c_step(ctrl_c, now).1,
{
}

/// A tool-call approval decision.
#[derive(Debug, Clone, Copy, PartialEq, Eq, Structural)]
pub enum ApprovalChoice {
    ApproveOnce,
    AlwaysApprove,
    Deny,
}

/// The approval shortcut keys: `y` approves once, `a` always, `n` denies.
pub fn approval_choice_for_key(key: char) -> (c: Option<ApprovalChoice>)
    ensures
        c == (if key == 'y' {
            Some(ApprovalChoice::ApproveOnce)
        } else if key == 'a' {
            Some(ApprovalChoice::AlwaysApprove)
        } else if key == 'n' {
            Some(ApprovalChoice::Deny)
        } else {
            None
        }),
{
    if key == 'y' {
        Some(ApprovalChoice::ApproveOnce)
    } else if key == 'a' {
        Some(ApprovalChoice::AlwaysApprove)
    } else if key == 'n' {
        Some(ApprovalChoice::Deny)
    } else {
        None
    }
}

/// The choice of the approval panel row selected by Enter: the first row
/// approves once, the second always, any other denies.
pub fn approval_choice_at(index: usize) -> (c: ApprovalChoice)
    ensures
        c == (if index == 0 {
            ApprovalChoice::ApproveOnce
        } else if index == 1 {
            ApprovalChoice::AlwaysApprove
        } else {
            ApprovalChoice::Deny
        }),
{
    if index == 0 {
        ApprovalChoice::ApproveOnce
    } else if index == 1 {
        ApprovalChoice::AlwaysApprove
    } else {
        ApprovalChoice::Deny
    }
}

/// The two ends of a screen selection in reading order (by row, then
/// column); points are `(column, row)`.
pub fn selection_points(anchor: (u16, u16), focus: (u16, u16)) -> (r: ((u16, u16), (u16, u16)))
    ensures
        r == (if anchor.1 < focus.1 || (anchor.1 == focus.1 && anchor.0 <= focus.0) {
            (anchor, focus)
        } else {
            (focus, anchor)
        }),
{
    if anchor.1 < focus.1 || (anchor.1 == focus.1 && anchor.0 <= focus.0) {
        (anchor, focus)
    } else {
        (focus, anchor)
    }
}

/// Which edge of the history area a drag is at: `-1` on its first two rows
/// (scroll up), `1` from two rows above its bottom to two rows below it
/// (scroll down), else `0`.
pub fn drag_edge(area: Rect, row: u16) -> (e: i8)
    ensures
        e == (if row as int <= (if area.y as int + 1 > u16::MAX { u16::MAX as int } else { area.y + 1 }) {
            -1i8
        } else {
            let bottom: int = if area.bottom_spec() > u16::MAX { u16::MAX as int } else { area.bottom_spec() };
            let near: int = if bottom >= 2 { bottom - 2 } else { 0 };
            let below: int = if bottom + 2 > u16::MAX { u16::MAX as int } else { bottom + 2 };
            if row >= near && row < below { 1i8 } else { 0i8 }
        }),
{
    if row <= area.y.saturating_add(1) {
        -1
    } else {
        let bottom = area.y.saturating_add(area.height);
        if row >= bottom.saturating_sub(2) && row < bottom.saturating_add(2) {
            1
        } else {
            0
        }
    }
}

/// A selection point clamped onto a resized screen.
pub fn clamp_point(point: (u16, u16), width: u16, height: u16) -> (p: (u16, u16))
    ensures
        p.0 == (if width == 0 { 0 } else if point.0 < width - 1 { point.0 as int } else { width - 1 }),
        p.1 == (if height == 0 { 0 } else if point.1 < height - 1 { point.1 as int } else { height - 1 }),
{
    let max_x = width.saturating_sub(1);
    let max_y = height.saturating_sub(1);
    (if point.0 < max_x { point.0 } else { max_x }, if point.1 < max_y { point.1 } else { max_y })
}

/// The word a decision is reported with.
pub open spec fn decision_word(c: ApprovalChoice) -> Seq<char> {
    match c {
        ApprovalChoice::ApproveOnce => "approved"@,
        ApprovalChoice::AlwaysApprove => "always approved"@,
        ApprovalChoice::Deny => "denied"@,
    }
}

/// How a decision is reported: the transcript row (a check mark or a cross
/// and the word), the tip (`"Tool call <word>"`), and whether it reads as
/// an error (a denial).
#[derive(Debug, Clone, PartialEq, Eq)]
pub struct ApprovalReport {
    pub line: String,
    pub tip: String,
    pub is_error: bool,
}

/// Reports an approval decision (see `ApprovalReport`).
pub fn approval_report(choice: ApprovalChoice) -> (r: ApprovalReport)
    ensures
        r.line@ == "   "@ + (if choice == ApprovalChoice::Deny { "\u{2717}"@ } else { "\u{2713}"@ }) + " "@
            + decision_word(choice),
        r.tip@ == "Tool call "@ + decision_word(choice),
        r.is_error == (choice == ApprovalChoice::Deny),
{
    let (icon, word, is_error) = match choice {
        ApprovalChoice::ApproveOnce => ("\u{2713}", "approved", false),
        ApprovalChoice::AlwaysApprove => ("\u{2713}", "always approved", false),
        ApprovalChoice::Deny => ("\u{2717}", "denied", true),
    };
    let mut line = String::from_str("   ");
    line.append(icon);
    line.append(" ");
    line.append(word);
    let mut tip = String::from_str("Tool call ");
    tip.append(word);
    ApprovalReport { line, tip, is_error }
}

} // verus!
