use talos_tui::panel::{PanelEntry, PanelList};
use talos_tui::panel_view::{
    bottom_panel_lines, ApprovalPanel, CredentialPanel, ListTitle, PanelContent, PanelItemStyle, PanelRole, PanelSegment,
};

fn texts(rows: &[Vec<PanelSegment>]) -> Vec<String> {
    rows.iter().map(|row| row.iter().map(|s| s.text.as_str()).collect::<Vec<_>>().join("|")).collect()
}

fn entry(label: &str, description: &str) -> PanelEntry {
    PanelEntry { label: label.to_string(), description: description.to_string(), is_header: false }
}

fn plain() -> PanelItemStyle {
    PanelItemStyle { is_current: false, arg_hint: None, direct_execution: false }
}

fn credential(connect_mode: bool, has_default_endpoint: bool, base_url_field: bool, key: &str, url: &str) -> PanelContent {
    PanelContent::Credential(CredentialPanel {
        provider: "acme".to_string(),
        model_id: Some("m1".to_string()),
        connect_mode,
        has_default_endpoint,
        base_url_field,
        credential_buffer: key.to_string(),
        base_url_buffer: url.to_string(),
    })
}

#[test]
fn credential_rows_mask_the_key() {
    let rows = bottom_panel_lines(&credential(false, false, false, "sk-secret", ""), "", 80, 5);
    assert_eq!(
        texts(&rows),
        vec![
            " Provider: acme  Model: m1",
            " Enter the API key for this provider and press Enter (Esc to cancel).",
            " ▸ •••••••••",
        ]
    );
    assert!(!texts(&rows).iter().any(|t| t.contains("secret")));
    assert_eq!(rows[0][0].role, PanelRole::Title);
    assert_eq!(rows[2][0].role, PanelRole::Primary);
}

#[test]
fn empty_credential_shows_placeholder_dimmed() {
    let rows = bottom_panel_lines(&credential(true, true, false, "", ""), "", 80, 5);
    assert_eq!(texts(&rows)[2], " ▸ Enter API key…");
    assert_eq!(rows[2][0].role, PanelRole::Dim);
}

#[test]
fn custom_connect_provider_shows_both_fields() {
    let on_key = bottom_panel_lines(&credential(true, false, false, "ab", ""), "", 80, 5);
    assert_eq!(
        texts(&on_key)[1..].to_vec(),
        vec![
            " Enter the API key, then Enter to continue to the required base URL (Esc to cancel).",
            " ▸ ••",
            "   Base URL: (required)",
        ]
    );
    let on_url = bottom_panel_lines(&credential(true, false, true, "ab", "http://h"), "", 80, 5);
    assert_eq!(
        texts(&on_url)[1..].to_vec(),
        vec![
            " Base URL is required for custom providers. Enter to save (Esc to cancel).",
            "   API key: ••",
            " ▸ http://h",
        ]
    );
}

#[test]
fn closed_panel_or_no_room_has_no_rows() {
    assert!(bottom_panel_lines(&PanelContent::Closed, "", 80, 5).is_empty());
    assert!(bottom_panel_lines(&credential(false, false, false, "k", ""), "", 80, 0).is_empty());
}

#[test]
fn slash_menu_rows_show_commands_and_what_enter_does() {
    let list = PanelList {
        is_slash: true,
        items: vec![entry("/help", "Show help"), entry("/model", "Pick a model")],
        selected_index: 1,
    };
    let styles = vec![
        PanelItemStyle { is_current: false, arg_hint: None, direct_execution: true },
        PanelItemStyle { is_current: false, arg_hint: Some("<name>".to_string()), direct_execution: false },
    ];
    let rows = bottom_panel_lines(&PanelContent::List { list, styles, title: ListTitle::Plain }, "", 6, 10);
    assert_eq!(
        texts(&rows),
        vec![
            " ─────",
            "  /help|  —  Enter to run; Show help",
            "  /model <name>|  —  Enter to complete; Pick a model",
        ]
    );
    assert_eq!(rows[1][0].role, PanelRole::Primary);
    assert_eq!(rows[1][1].role, PanelRole::Dim);
    assert_eq!(rows[2][0].role, PanelRole::Selected);
}

#[test]
fn no_match_rows_depend_on_the_menu() {
    let slash = PanelList { is_slash: true, items: vec![entry("/help", "Show help")], selected_index: 0 };
    let rows = bottom_panel_lines(&PanelContent::List { list: slash, styles: vec![plain()], title: ListTitle::Plain }, "zzz", 40, 5);
    assert_eq!(texts(&rows), vec![" No matching commands"]);
    let picker = PanelList { is_slash: false, items: vec![entry("alpha", "")], selected_index: 0 };
    let rows = bottom_panel_lines(&PanelContent::List { list: picker, styles: vec![plain()], title: ListTitle::Plain }, "zzz", 40, 5);
    assert_eq!(texts(&rows), vec![" No matches"]);
}

#[test]
fn long_lists_scroll_to_the_selection_and_show_an_indicator() {
    let items: Vec<PanelEntry> = (0..12).map(|i| entry(&format!("item{i}"), "")).collect();
    let styles: Vec<PanelItemStyle> = (0..12).map(|_| plain()).collect();
    let list = PanelList { is_slash: false, items, selected_index: 9 };
    let rows = bottom_panel_lines(
        &PanelContent::List { list, styles, title: ListTitle::Models { provider: "acme".to_string() } },
        "",
        10,
        8,
    );
    // two title rows, a rule, four items (one row kept for the indicator), the indicator
    assert_eq!(
        texts(&rows),
        vec![
            " Provider: acme",
            " Select a model (or press Esc to cancel)",
            " ─────────",
            "  item6|",
            "  item7|",
            "  item8|",
            "▶ item9|",
            "  … 10/12",
        ]
    );
    assert_eq!(rows[6][0].role, PanelRole::Selected);
}

#[test]
fn untitled_pickers_mark_the_current_choice() {
    let list = PanelList { is_slash: false, items: vec![entry("a", "first"), entry("b", "")], selected_index: 0 };
    let styles = vec![plain(), PanelItemStyle { is_current: true, arg_hint: None, direct_execution: false }];
    // one row leaves room for the rule only
    let rows = bottom_panel_lines(&PanelContent::List { list, styles, title: ListTitle::Plain }, "", 3, 1);
    assert_eq!(texts(&rows), vec![" ──"]);
    let list = PanelList { is_slash: false, items: vec![entry("a", "first"), entry("b", "")], selected_index: 0 };
    let styles = vec![plain(), PanelItemStyle { is_current: true, arg_hint: None, direct_execution: false }];
    let rows = bottom_panel_lines(&PanelContent::List { list, styles, title: ListTitle::Plain }, "", 3, 5);
    assert_eq!(texts(&rows), vec![" ──", "  a|  —  first", "▶ b|"]);
}

fn approval(args: &str, selected: usize) -> PanelContent {
    PanelContent::Approval(ApprovalPanel {
        tool_name: "bash".to_string(),
        arguments: args.to_string(),
        options: vec!["Yes".to_string(), "No".to_string()],
        selected_index: selected,
    })
}

#[test]
fn wide_approval_shows_arguments_on_the_tool_line() {
    let rows = bottom_panel_lines(&approval("ls -la", 0), "", 60, 6);
    let t = texts(&rows);
    assert_eq!(t.len(), 5);
    assert_eq!(t[0], format!(" {}", "─".repeat(59)));
    assert_eq!(t[1], "  ⚠ bash: ls -la");
    assert_eq!(t[2..].to_vec(), vec!["  Yes", "  No", "  Up/Down to navigate, Enter to confirm"]);
    assert_eq!(rows[1][0].role, PanelRole::WarningTitle);
    assert_eq!(rows[2][0].role, PanelRole::Selected);
    assert_eq!(rows[3][0].role, PanelRole::Dim);
}

#[test]
fn narrow_approval_wraps_arguments_below_the_tool() {
    let rows = bottom_panel_lines(&approval("echo hello world again", 1), "", 20, 8);
    assert_eq!(
        texts(&rows)[1..].to_vec(),
        vec!["  ⚠ bash", "  echo hello world", "   again", "  Yes", "  No", "  Up/Down to navigate, Enter to confirm"]
    );
    assert_eq!(rows[2][0].role, PanelRole::Warning);
    assert_eq!(rows[5][0].role, PanelRole::Selected);
}

#[test]
fn short_approval_stops_at_the_height() {
    let rows = bottom_panel_lines(&approval("", 0), "", 20, 3);
    assert_eq!(texts(&rows)[1..].to_vec(), vec!["  ⚠ bash", "  Yes"]);
}
