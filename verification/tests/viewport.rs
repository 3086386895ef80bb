use talos_tui::keys::{approval_report, 
    approval_choice_at, approval_choice_for_key, clamp_point, drag_edge, route_key,
    selection_points, ApprovalChoice, ApprovalKey, InputContext, KeyCode, KeyCommand, KeyInput,
};
use talos_tui::budget::compress_layout;
use talos_tui::layout::{Rect, Size};
use talos_tui::viewport::{
    clamp_cursor, cursor_if_visible_in_rect, cursor_position_in_rect, stack_layout, total_height,
    Position,
};

#[test]
fn cursor_is_clamped_into_its_rectangle() {
    let rect = Rect::new(2, 5, 10, 3);
    assert_eq!(cursor_position_in_rect(rect, 4, 1), Some(Position { x: 6, y: 6 }));
    assert_eq!(cursor_position_in_rect(rect, 40, 9), Some(Position { x: 11, y: 7 }));
    assert_eq!(cursor_position_in_rect(Rect::new(0, 0, 0, 3), 0, 0), None);
    assert_eq!(cursor_if_visible_in_rect(rect, 40, 2), Some(Position { x: 11, y: 7 }));
    assert_eq!(cursor_if_visible_in_rect(rect, 0, 3), None);
    assert_eq!(clamp_cursor(Position { x: 100, y: 1 }, Size { width: 80, height: 24 }), Some(Position { x: 79, y: 1 }));
    assert_eq!(clamp_cursor(Position { x: 1, y: 1 }, Size { width: 0, height: 24 }), None);
}

#[test]
fn stack_total_height_matches_sum_of_components() {
    assert_eq!(total_height(&vec![3, 5, 2]), 10);
    assert_eq!(total_height(&vec![]), 0);
}

#[test]
fn stack_total_height_with_zero_height_component() {
    // total_height sums every component, the empty one included.
    assert_eq!(total_height(&vec![3, 0, 2]), 5);
    // The layout skips zero-height components.
    let layout = stack_layout(Rect::new(0, 0, 80, 24), &vec![3, 0, 2]);
    assert_eq!(layout.len(), 2, "0-height component should be skipped in layout");
}

#[test]
fn stack_layout_compressed_queue_and_composer_fit_screen() {
    // Screen=9, fixed=5, so the content budget is 4.
    let compressed = compress_layout(4, 0, 5, 4);
    assert_eq!(compressed.queue_max_rows, 0);
    assert_eq!(compressed.input_max_height, 4);

    let total = total_height(&vec![0, 5, 4, 0]);
    assert!(total <= 9, "compressed stack total {} must fit screen height 9", total);
}

#[test]
fn stack_layout_composer_always_at_least_one() {
    // Screen=7, fixed=5, so the content budget is 2.
    let compressed = compress_layout(2, 0, 10, 6);
    let composer_h = compressed.input_max_height;
    assert!(composer_h >= 1, "composer must be at least 1 row, got {}", composer_h);

    let total = total_height(&vec![5, composer_h, compressed.queue_max_rows]);
    assert!(total <= 7, "stack total {} must fit screen height 7", total);
}

#[test]
fn cursor_is_clamped_to_terminal_bounds() {
    assert_eq!(
        clamp_cursor(Position { x: 9, y: 9 }, Size { width: 2, height: 3 }),
        Some(Position { x: 1, y: 2 })
    );
    assert_eq!(clamp_cursor(Position { x: 0, y: 0 }, Size { width: 0, height: 1 }), None);
    assert_eq!(clamp_cursor(Position { x: 0, y: 0 }, Size { width: 1, height: 0 }), None);
}

#[test]
fn cursor_in_rect_clamps_to_final_component_bounds() {
    let rect = Rect::new(5, 7, 3, 2);
    assert_eq!(cursor_position_in_rect(rect, 99, 99), Some(Position { x: 7, y: 8 }));
    assert_eq!(cursor_position_in_rect(Rect::new(0, 0, 0, 2), 0, 0), None);
}

#[test]
fn modal_cursor_hides_instead_of_clamping_a_clipped_row() {
    let panel = Rect::new(4, 5, 3, 2);
    // A row below the panel hides the cursor.
    assert_eq!(cursor_if_visible_in_rect(panel, 99, 2), None);
    // A visible row clamps the column into the panel.
    assert_eq!(cursor_if_visible_in_rect(panel, 99, 1), Some(Position { x: 6, y: 6 }));
}

#[test]
fn stacked_components_are_cut_at_the_bottom() {
    let area = Rect::new(1, 10, 30, 5);
    let placed = stack_layout(area, &vec![2, 0, 4, 1]);
    assert_eq!(placed, vec![(0, Rect::new(1, 10, 30, 2)), (2, Rect::new(1, 12, 30, 3))]);
}

fn ctx() -> InputContext {
    InputContext {
        approval_visible: false,
        credential_open: false,
        wizard_open: false,
        panel_open: false,
        buffer_empty: true,
        processing: false,
        within_ime_window: false,
    }
}

fn key(code: KeyCode) -> KeyInput {
    KeyInput { code, ctrl: false, shift: false, press: true }
}

fn ctrl(c: char) -> KeyInput {
    KeyInput { code: KeyCode::Char(c), ctrl: true, shift: false, press: true }
}

#[test]
fn ctrl_c_interrupts_the_innermost_thing_first() {
    assert_eq!(route_key(ctx(), ctrl('c')).command, KeyCommand::CtrlCPress);
    let typed = InputContext { buffer_empty: false, ..ctx() };
    assert_eq!(route_key(typed, ctrl('c')).command, KeyCommand::ClearInputWithHint);
    let busy = InputContext { processing: true, ..ctx() };
    assert_eq!(route_key(busy, ctrl('c')).command, KeyCommand::InterruptHint);
    let approval = InputContext { approval_visible: true, ..busy };
    assert_eq!(route_key(approval, ctrl('c')).command, KeyCommand::DenyApproval);
}

#[test]
fn overlays_capture_keys() {
    let approval = InputContext { approval_visible: true, ..ctx() };
    assert_eq!(
        route_key(approval, key(KeyCode::Char('y'))).command,
        KeyCommand::Approval(ApprovalKey::Shortcut('y'))
    );
    assert_eq!(route_key(approval, key(KeyCode::PageUp)).command, KeyCommand::HistoryPageUp);
    let credential = InputContext { credential_open: true, ..ctx() };
    let typed = route_key(credential, key(KeyCode::Char('k')));
    assert_eq!(typed.command, KeyCommand::CredentialChar('k'));
    assert!(typed.typed_char);
    let composing = InputContext { within_ime_window: true, ..credential };
    assert_eq!(route_key(composing, key(KeyCode::Enter)).command, KeyCommand::Ignore);
    let wizard = InputContext { wizard_open: true, ..ctx() };
    assert_eq!(route_key(wizard, key(KeyCode::Down)).command, KeyCommand::WizardCycleProtocol);
}

#[test]
fn composer_keys_route_by_panel_state() {
    assert_eq!(route_key(ctx(), key(KeyCode::Char('/'))).command, KeyCommand::OpenSlashMenu);
    let typed = InputContext { buffer_empty: false, ..ctx() };
    assert_eq!(route_key(typed, key(KeyCode::Char('/'))).command, KeyCommand::InputChar('/'));
    let panel = InputContext { panel_open: true, ..typed };
    assert_eq!(route_key(panel, key(KeyCode::Char('m'))).command, KeyCommand::PanelQueryChar('m'));
    assert_eq!(route_key(panel, key(KeyCode::Up)).command, KeyCommand::PanelPrev);
    assert_eq!(route_key(typed, key(KeyCode::Up)).command, KeyCommand::HistoryPrev);
    let shift_enter = KeyInput { shift: true, ..key(KeyCode::Enter) };
    assert_eq!(route_key(typed, shift_enter).command, KeyCommand::NewLine);
    assert_eq!(route_key(typed, key(KeyCode::Enter)).command, KeyCommand::Submit);
    let busy = InputContext { processing: true, ..ctx() };
    assert_eq!(route_key(busy, key(KeyCode::Esc)).command, KeyCommand::CancelTurn);
    let release = KeyInput { press: false, ..key(KeyCode::Enter) };
    assert_eq!(route_key(typed, release).command, KeyCommand::Ignore);
    assert_eq!(route_key(typed, ctrl('a')).command, KeyCommand::LineStart);
    assert_eq!(route_key(typed, key(KeyCode::Home)).command, KeyCommand::Ignore);
    assert_eq!(route_key(typed, KeyInput { ctrl: true, ..key(KeyCode::Home) }).command, KeyCommand::HistoryTop);
}

#[test]
fn approval_choices() {
    assert_eq!(approval_choice_for_key('y'), Some(ApprovalChoice::ApproveOnce));
    assert_eq!(approval_choice_for_key('a'), Some(ApprovalChoice::AlwaysApprove));
    assert_eq!(approval_choice_for_key('n'), Some(ApprovalChoice::Deny));
    assert_eq!(approval_choice_for_key('x'), None);
    assert_eq!(approval_choice_at(0), ApprovalChoice::ApproveOnce);
    assert_eq!(approval_choice_at(1), ApprovalChoice::AlwaysApprove);
    assert_eq!(approval_choice_at(7), ApprovalChoice::Deny);
}

#[test]
fn selection_geometry() {
    assert_eq!(selection_points((5, 2), (1, 3)), ((5, 2), (1, 3)));
    assert_eq!(selection_points((5, 3), (1, 3)), ((1, 3), (5, 3)));
    let area = Rect::new(0, 4, 80, 10);
    assert_eq!(drag_edge(area, 5), -1);
    assert_eq!(drag_edge(area, 9), 0);
    assert_eq!(drag_edge(area, 12), 1);
    assert_eq!(drag_edge(area, 16), 0);
    assert_eq!(clamp_point((100, 3), 80, 24), (79, 3));
    assert_eq!(clamp_point((5, 5), 0, 0), (0, 0));
}

#[test]
fn approval_decisions_are_reported_with_mark_and_tip() {
    let once = approval_report(ApprovalChoice::ApproveOnce);
    assert_eq!(once.line, "   ✓ approved");
    assert_eq!(once.tip, "Tool call approved");
    assert!(!once.is_error);
    let always = approval_report(ApprovalChoice::AlwaysApprove);
    assert_eq!(always.line, "   ✓ always approved");
    let deny = approval_report(ApprovalChoice::Deny);
    assert_eq!(deny.line, "   ✗ denied");
    assert_eq!(deny.tip, "Tool call denied");
    assert!(deny.is_error);
}
