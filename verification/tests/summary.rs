use talos_tui::summary::{build_exit_summary_lines, estimate_label, ExitSummaryInput, SummaryRole, SummarySegment};

fn input(model: &str, input_tokens: u32, output_tokens: u32, prices: (bool, bool)) -> ExitSummaryInput {
    ExitSummaryInput {
        model_name: model.to_string(),
        elapsed_secs: 3725,
        stream_count: 4,
        session_id: Some("abc123".to_string()),
        input_tokens,
        output_tokens,
        input_label: "1.0k".to_string(),
        output_label: "500".to_string(),
        total_label: "1.5k".to_string(),
        has_input_price: prices.0,
        has_output_price: prices.1,
        cost_text: "0.01".to_string(),
    }
}

fn texts(rows: &[Vec<SummarySegment>]) -> Vec<String> {
    rows.iter().map(|row| row.iter().map(|s| s.text.as_str()).collect::<String>()).collect()
}

#[test]
fn estimate_cost_with_pricing_returns_value() {
    let label = estimate_label(1000, 500, true, true);
    assert!(label.is_some());
    assert_eq!(label, Some("Est"));
}

#[test]
fn estimate_cost_without_pricing_returns_none() {
    assert_eq!(estimate_label(1000, 500, false, false), None);
}

#[test]
fn estimate_cost_zero_tokens_returns_none() {
    assert_eq!(estimate_label(0, 0, true, true), None);
}

#[test]
fn estimate_cost_partial_pricing_returns_none() {
    assert_eq!(estimate_label(1000, 500, true, false), None);
}

#[test]
fn exit_summary_lists_model_session_tokens_and_cost() {
    let rows = build_exit_summary_lines(&input("gpt-4o", 1000, 500, (true, true)));
    assert_eq!(
        texts(&rows),
        vec![
            "".to_string(),
            format!("⬡ Talos session complete {}", "─".repeat(32)),
            "".to_string(),
            "  gpt-4o  1h 2m 5s  4 turns".to_string(),
            "  session abc123".to_string(),
            "".to_string(),
            "  1.0k tokens in      500 tokens out".to_string(),
            "  1.5k tokens total".to_string(),
            "".to_string(),
            "  Est cost: $0.01".to_string(),
            "".to_string(),
        ]
    );
    assert_eq!(rows[3][0].role, SummaryRole::Accent);
    assert_eq!(rows[3][1].role, SummaryRole::Value);
    assert_eq!(rows[3][2].role, SummaryRole::Dim);
    assert_eq!(rows[7][0].role, SummaryRole::Dim);
}

#[test]
fn exit_summary_leaves_out_what_is_unknown() {
    let mut inp = input("", 0, 0, (true, true));
    inp.session_id = Some(String::new());
    let rows = build_exit_summary_lines(&inp);
    assert_eq!(texts(&rows).len(), 5);
    assert_eq!(texts(&rows)[3], "1h 2m 5s  4 turns");
    inp.session_id = None;
    inp.input_tokens = 7;
    inp.has_output_price = false;
    let rows = build_exit_summary_lines(&inp);
    assert_eq!(texts(&rows).len(), 8);
    assert!(!texts(&rows).iter().any(|t| t.contains("cost")));
}
