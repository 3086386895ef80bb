use talos_tui::todo::{build_todo_panel_lines, TodoPanelData, TodoPanelRow, TodoRole, TodoSegment};

fn text(line: &[TodoSegment]) -> String {
    line.iter().map(|s| s.text.as_str()).collect()
}

#[test]
fn todo_panel_renders_read_only_history_lines() {
    let lines = build_todo_panel_lines(&TodoPanelData {
        title: "Session Todos".to_string(),
        rows: vec![TodoPanelRow {
            id: "abc12345".to_string(),
            status: "[~]".to_string(),
            priority: "high".to_string(),
            title: "Wire slash view".to_string(),
            detail: Some("read-only".to_string()),
        }],
        footer: Some("1 item".to_string()),
    });

    assert_eq!(text(&lines[0]), "   TODO Session Todos");
    assert!(text(&lines[1]).contains("abc12345"));
    assert!(text(&lines[1]).contains("[~]"));
    assert!(text(&lines[1]).contains("Wire slash view"));
    assert_eq!(text(&lines[2]), "      1 item");
}

#[test]
fn todo_panel_unknown_status_uses_bracket_fallback() {
    let lines = build_todo_panel_lines(&TodoPanelData {
        title: "Session Todos".to_string(),
        rows: vec![TodoPanelRow {
            id: "abc12345".to_string(),
            status: "custom".to_string(),
            priority: "medium".to_string(),
            title: "Fallback test".to_string(),
            detail: None,
        }],
        footer: Some("1 item".to_string()),
    });
    assert!(text(&lines[1]).contains("[custom]"));
    let lines2 = build_todo_panel_lines(&TodoPanelData {
        title: "Session Todos".to_string(),
        rows: vec![TodoPanelRow {
            id: "def67890".to_string(),
            status: "[x]".to_string(),
            priority: "low".to_string(),
            title: "Completed item".to_string(),
            detail: None,
        }],
        footer: Some("1 item".to_string()),
    });
    assert!(text(&lines2[1]).contains("[x]"));
}

#[test]
fn todo_panel_rows_are_laid_out_with_roles() {
    let lines = build_todo_panel_lines(&TodoPanelData {
        title: "T".to_string(),
        rows: vec![TodoPanelRow {
            id: "1".to_string(),
            status: "[ ]".to_string(),
            priority: "low".to_string(),
            title: "Write".to_string(),
            detail: Some("soon".to_string()),
        }],
        footer: None,
    });
    assert_eq!(lines.len(), 2);
    assert_eq!(text(&lines[1]), "   1 [ ][low] Write — soon");
    assert!(lines[0][0].bold && lines[0][0].role == TodoRole::Accent);
    assert_eq!(lines[1][1].role, TodoRole::Accent);
    assert_eq!(lines[1][3].role, TodoRole::Primary);

    let empty = build_todo_panel_lines(&TodoPanelData { title: "T".to_string(), rows: vec![], footer: None });
    assert_eq!(empty.len(), 2);
    assert_eq!(text(&empty[1]), "      (no todo rows)");
}
