use talos_tui::hydration::MessageSource;
use talos_tui::output::{OutputEffect, OutputState, UiEvent};
use talos_tui::preview::TurnPhase;
use talos_tui::status::StatusFields;

fn describe(e: &OutputEffect) -> String {
    match e {
        OutputEffect::StartStream { source } => format!("start {:?}", source),
        OutputEffect::OpenStream { separated } => format!("open {}", separated),
        OutputEffect::Text { text } => format!("text {}", text),
        OutputEffect::FinishStream { shown } => format!("finish {}", shown),
        OutputEffect::Block { source, text, separated } => format!("block {:?} {} {}", source, text, separated),
        OutputEffect::ToolCall => "tool call".to_string(),
        OutputEffect::ToolResult => "tool result".to_string(),
        OutputEffect::Hydrate => "hydrate".to_string(),
    }
}

fn run(state: &mut OutputState, events: Vec<UiEvent>) -> (Vec<String>, bool) {
    let mut effects = Vec::new();
    let mut exit = false;
    for e in events {
        exit = state.apply_ui_event(e, &mut effects) || exit;
    }
    (effects.iter().map(describe).collect(), exit)
}

fn fields(workspace: &str) -> StatusFields {
    StatusFields {
        model_name: String::new(),
        provider: String::new(),
        workspace_path: workspace.to_string(),
        variant: None,
        input_tokens: 0,
        output_tokens: 0,
        context_limit: None,
        steering_count: 0,
        followup_count: 0,
        attachment_count: 0,
        phase: None,
    }
}

fn delta(text: &str) -> UiEvent {
    UiEvent::ContentDelta { text: text.to_string(), tool_call_started: false }
}

#[test]
fn streamed_content_opens_on_first_text_and_finishes() {
    let mut state = OutputState::new(fields(""));
    let (effects, exit) = run(
        &mut state,
        vec![UiEvent::ContentStart { source: MessageSource::Assistant }, delta("hello\n"), UiEvent::ContentEnd],
    );
    assert_eq!(effects, vec!["start Assistant", "open false", "text hello\n", "finish true"]);
    assert!(!exit);
    assert_eq!(state.stream_count, 1);
    assert!(!state.ordered_content_open);
}

#[test]
fn confirmed_tool_call_drops_the_placeholder_and_its_stream() {
    let mut state = OutputState::new(fields(""));
    let (effects, _) = run(
        &mut state,
        vec![
            UiEvent::ContentStart { source: MessageSource::Assistant },
            delta("Calling tools...\n"),
            UiEvent::ContentEnd,
            UiEvent::ToolCall,
        ],
    );
    assert_eq!(effects, vec!["start Assistant", "finish false", "tool call"]);
    assert_eq!(state.stream_count, 0);
}

#[test]
fn unconfirmed_placeholder_is_released_when_the_turn_ends() {
    let mut state = OutputState::new(fields(""));
    let (effects, _) = run(
        &mut state,
        vec![
            UiEvent::ContentStart { source: MessageSource::Assistant },
            delta("Calling tools...\n"),
            UiEvent::ContentEnd,
            UiEvent::Status { snapshot: fields(""), is_processing: false },
        ],
    );
    assert_eq!(effects, vec!["start Assistant", "open false", "text Calling tools...\n", "finish true"]);
}

#[test]
fn later_streams_and_blocks_are_set_off() {
    let mut state = OutputState::new(fields(""));
    let (effects, _) = run(
        &mut state,
        vec![
            UiEvent::ContentBlock { source: MessageSource::User, text: "hi".to_string() },
            UiEvent::ContentStart { source: MessageSource::User },
            delta("again"),
            UiEvent::Reasoning { text: "hmm".to_string() },
        ],
    );
    assert_eq!(
        effects,
        vec!["block User hi false", "start User", "open true", "text again", "block Reasoning hmm true"]
    );
    // the reasoning block leaves the ordered content open
    assert!(state.ordered_content_open);
    assert_eq!(state.stream_count, 3);
}

#[test]
fn deltas_outside_ordered_content_are_ignored() {
    let mut state = OutputState::new(fields(""));
    let (effects, _) = run(&mut state, vec![delta("stray")]);
    assert!(effects.is_empty());
}

#[test]
fn raw_stream_without_text_drops_its_opening() {
    let mut state = OutputState::new(fields(""));
    let (effects, _) = run(
        &mut state,
        vec![UiEvent::StreamStart { source: MessageSource::Assistant }, UiEvent::ToolCallStarted],
    );
    assert_eq!(effects, vec!["start Assistant", "finish false"]);
    assert!(!state.active_stream);
}

#[test]
fn exit_finishes_content_and_reports_exit() {
    let mut state = OutputState::new(fields(""));
    let (effects, exit) = run(
        &mut state,
        vec![UiEvent::ContentStart { source: MessageSource::System }, delta("bye"), UiEvent::Exit],
    );
    assert_eq!(effects, vec!["start System", "open false", "text bye", "finish true"]);
    assert!(exit);
    assert!(state.should_exit);
}

#[test]
fn thinking_preview_and_results_are_recorded() {
    let mut state = OutputState::new(fields(""));
    let (effects, _) = run(
        &mut state,
        vec![UiEvent::ThinkingPreview { text: Some("plan".to_string()) }, UiEvent::ToolResult, UiEvent::HydrateHistory],
    );
    assert_eq!(effects, vec!["tool result", "finish true", "hydrate"]);
    assert_eq!(state.thinking_preview.as_deref(), Some("plan"));
}

fn shown_text(effects: &[String]) -> String {
    effects.iter().filter_map(|e| e.strip_prefix("text ")).collect::<Vec<_>>().join("")
}

fn assistant_turn(state: &mut OutputState, deltas: &[&str]) -> Vec<String> {
    let mut events = vec![UiEvent::ContentStart { source: MessageSource::Assistant }];
    for d in deltas {
        events.push(delta(d));
    }
    events.push(UiEvent::ContentEnd);
    run(state, events).0
}

#[test]
fn structured_tool_call_suppresses_split_marker_without_blank_row() {
    let mut state = OutputState::new(fields(""));
    let mut effects = assistant_turn(&mut state, &["Calling ", "tools…\n"]);
    effects.extend(run(&mut state, vec![UiEvent::ToolCall]).0);
    assert_eq!(shown_text(&effects), "");
    assert!(!effects.iter().any(|e| e.starts_with("open")));
    assert_eq!(effects.iter().filter(|e| *e == "tool call").count(), 1);
    assert!(!state.ordered_content_open);
}

#[test]
fn tool_call_started_without_confirmed_call_does_not_suppress_marker() {
    let mut state = OutputState::new(fields(""));
    let mut effects = assistant_turn(&mut state, &["Calling tools…"]);
    effects.extend(run(&mut state, vec![UiEvent::ToolCallStarted, UiEvent::Status { snapshot: fields(""), is_processing: false }]).0);
    assert!(shown_text(&effects).contains("Calling tools…"));
    assert!(!state.ordered_content_open);
}

#[test]
fn terminal_completion_flushes_standalone_marker() {
    let mut state = OutputState::new(fields(""));
    let mut effects = assistant_turn(&mut state, &["Calling tools..."]);
    effects.extend(run(&mut state, vec![UiEvent::Status { snapshot: fields(""), is_processing: false }]).0);
    assert!(shown_text(&effects).contains("Calling tools..."));
}

#[test]
fn larger_sentence_is_visible_before_later_tool_call() {
    let mut state = OutputState::new(fields(""));
    let mut effects = assistant_turn(&mut state, &["Calling tools... can take a moment.\n"]);
    effects.extend(run(&mut state, vec![UiEvent::ToolCall]).0);
    assert!(shown_text(&effects).contains("Calling tools... can take a moment."));
    assert_eq!(effects.last().map(String::as_str), Some("tool call"));
}

#[test]
fn leading_whitespace_three_dot_marker_is_suppressed_for_multiple_tools() {
    let mut state = OutputState::new(fields(""));
    let mut effects = assistant_turn(&mut state, &["  Calling tools...  \n"]);
    effects.extend(run(&mut state, vec![UiEvent::ToolCall, UiEvent::ToolCall]).0);
    assert_eq!(shown_text(&effects), "");
    assert_eq!(effects.iter().filter(|e| *e == "tool call").count(), 2);
}

#[test]
fn tool_result_without_confirmed_call_flushes_marker() {
    let mut state = OutputState::new(fields(""));
    let mut effects = assistant_turn(&mut state, &["Calling tools…"]);
    effects.extend(run(&mut state, vec![UiEvent::ToolResult]).0);
    assert!(shown_text(&effects).contains("Calling tools…"));
    assert_eq!(effects.last().map(String::as_str), Some("tool result"));
}

#[test]
fn approval_wait_keeps_marker_pending_until_call_is_confirmed() {
    let mut state = OutputState::new(fields(""));
    let mut effects = assistant_turn(&mut state, &["Calling tools..."]);
    // an approval request leaves the streams alone
    effects.extend(run(&mut state, vec![UiEvent::Other]).0);
    assert!(!shown_text(&effects).contains("Calling tools..."));
    assert!(state.gate.is_pending());
    effects.extend(run(&mut state, vec![UiEvent::ToolCall]).0);
    assert!(!shown_text(&effects).contains("Calling tools..."));
    assert_eq!(effects.last().map(String::as_str), Some("tool call"));
}

#[test]
fn approval_without_confirmed_call_flushes_marker_on_direct_result() {
    let mut state = OutputState::new(fields(""));
    let mut effects = assistant_turn(&mut state, &["Calling tools..."]);
    effects.extend(run(&mut state, vec![UiEvent::Other, UiEvent::ToolResult]).0);
    assert!(shown_text(&effects).contains("Calling tools..."));
    assert_eq!(effects.last().map(String::as_str), Some("tool result"));
}

#[test]
fn terminal_processing_clear_status_reaches_tui_state() {
    let mut state = OutputState::new(fields(""));
    let mut status = fields("");
    status.phase = Some(TurnPhase::Failed);
    run(&mut state, vec![UiEvent::Status { snapshot: status.clone(), is_processing: false }]);
    assert_eq!(state.status, status);
    assert!(!state.is_processing);
}

#[test]
fn status_snapshot_without_workspace_keeps_the_shown_one() {
    let mut state = OutputState::new(fields("/work"));
    let mut status = fields("");
    status.input_tokens = 7;
    run(&mut state, vec![UiEvent::Status { snapshot: status, is_processing: true }]);
    assert_eq!(state.status.workspace_path, "/work");
    assert_eq!(state.status.input_tokens, 7);
    assert!(state.is_processing);
    run(&mut state, vec![UiEvent::Status { snapshot: fields("/other"), is_processing: false }]);
    assert_eq!(state.status.workspace_path, "/other");
}
