use talos_tui::hydration::{
    hydrate_blocks, scrollback_blocks, summarize_parts, ContentPart, HistoryMessage, HistoryToolCall,
    MessageSource, TranscriptBlock,
};

fn describe(block: &TranscriptBlock) -> String {
    match block {
        TranscriptBlock::Content { source, text } => format!("content {:?}: {}", source, text),
        TranscriptBlock::ToolCall { tool_name, arguments, summary_fields } => {
            format!("call {} {} {:?}", tool_name, arguments, summary_fields)
        }
        TranscriptBlock::ToolResult { tool_name, is_error, content } => {
            format!("result {} {} {}", tool_name, is_error, content)
        }
    }
}

fn call(name: &str, input: &str) -> HistoryToolCall {
    HistoryToolCall { name: name.to_string(), input: input.to_string() }
}

fn assistant(cleaned: &str, tool_calls: Vec<HistoryToolCall>, text_tool_calls: Vec<HistoryToolCall>) -> HistoryMessage {
    HistoryMessage::Assistant { cleaned: cleaned.to_string(), tool_calls, text_tool_calls, reasoning: None }
}

fn tool(id: &str, content: &str, is_error: bool) -> HistoryMessage {
    HistoryMessage::Tool { tool_use_id: id.to_string(), content: content.to_string(), is_error }
}

fn image(name: Option<&str>, mime: &str, bytes: u64) -> ContentPart {
    ContentPart::Image { file_name: name.map(|n| n.to_string()), mime: mime.to_string(), byte_count: bytes }
}

#[test]
fn replay_into_scrollback_blocks() {
    let blocks = scrollback_blocks(&[
        HistoryMessage::User { content: "first\nsecond".to_string() },
        assistant("reply", vec![], vec![]),
    ]);
    let texts: Vec<String> = blocks.iter().map(describe).collect();
    assert_eq!(texts, vec!["content User: first\nsecond", "content Assistant: reply"]);
}

#[test]
fn tool_results_take_call_names_first_in_first_out() {
    let history = [
        assistant("ignored", vec![call("read", "{\"path\":\"a\"}"), call("bash", "{}")], vec![]),
        tool("id-1", "one", false),
        tool("id-2", "two\n\n[Analyze the error above and try a different approach.]", true),
        tool("id-3", "three", false),
    ];
    let texts: Vec<String> = hydrate_blocks(&history).iter().map(describe).collect();
    assert_eq!(
        texts,
        vec![
            "call read {\"path\":\"a\"} [\"path\"]",
            "call bash {} [\"command\"]",
            "result read false one",
            "result bash true two",
            "result id-3 false three",
        ]
    );
}

#[test]
fn text_tool_calls_are_used_without_structured_calls() {
    let history = [assistant("", vec![], vec![call("grep", "{}")]), tool("id", "hit", false)];
    let texts: Vec<String> = hydrate_blocks(&history).iter().map(describe).collect();
    assert_eq!(texts, vec!["call grep {} [\"pattern\"]", "result grep false hit"]);
}

#[test]
fn a_new_assistant_message_replaces_pending_names() {
    let history = [
        assistant("", vec![call("read", "{}"), call("ls", "{}")], vec![]),
        tool("a", "x", false),
        assistant("plain answer", vec![], vec![]),
        tool("b", "y", false),
    ];
    let texts: Vec<String> = hydrate_blocks(&history).iter().map(describe).collect();
    assert_eq!(
        texts,
        vec![
            "call read {} [\"path\"]",
            "call ls {} [\"path\"]",
            "result read false x",
            "content Assistant: plain answer",
            "result b false y",
        ]
    );
}

#[test]
fn hydration_shows_reasoning_and_skips_empty_system_text() {
    let history = [
        HistoryMessage::Assistant {
            cleaned: "answer".to_string(),
            tool_calls: vec![],
            text_tool_calls: vec![],
            reasoning: Some("plan".to_string()),
        },
        HistoryMessage::System { content: String::new() },
        HistoryMessage::Context { content: "ctx".to_string() },
        HistoryMessage::User { content: String::new() },
        HistoryMessage::Multimodal { parts: vec![ContentPart::Text { text: "ignored".to_string() }] },
    ];
    let blocks = hydrate_blocks(&history);
    let texts: Vec<String> = blocks.iter().map(describe).collect();
    assert_eq!(
        texts,
        vec!["content Reasoning: Thinking: plan\n", "content Assistant: answer", "content System: ctx", "content User: "]
    );
    assert!(matches!(blocks[2], TranscriptBlock::Content { source: MessageSource::System, .. }));
}

#[test]
fn scrollback_skips_empty_messages() {
    let blocks = scrollback_blocks(
        &[
            HistoryMessage::User { content: String::new() },
            HistoryMessage::System { content: "sys".to_string() },
            assistant("", vec![], vec![]),
            tool("t", "out", false),
        ],
    );
    let texts: Vec<String> = blocks.iter().map(describe).collect();
    assert_eq!(texts, vec!["content System: sys", "result t false out"]);
}

#[test]
fn multimodal_message_produces_safe_summary_instead_of_none() {
    let blocks = scrollback_blocks(
        &[HistoryMessage::Multimodal {
            parts: vec![
                ContentPart::Text { text: "describe these".to_string() },
                image(Some("a.png"), "image/png", 100),
                image(Some("b.jpg"), "image/jpeg", 200),
            ],
        }],
    );
    assert_eq!(blocks.len(), 1);
    match &blocks[0] {
        TranscriptBlock::Content { source, text } => {
            assert_eq!(*source, MessageSource::User);
            assert!(text.contains("describe these"));
            assert!(text.contains("[Image: a.png (100 bytes, image/png)]"));
            assert!(text.contains("[Image: b.jpg (200 bytes, image/jpeg)]"));
            assert!(!text.contains("/tmp/"), "summary must not expose the full canonical path, got: {text}");
        }
        other => panic!("unexpected block {}", describe(other)),
    }
}

#[test]
fn image_only_multimodal_produces_summary() {
    let summary = summarize_parts(&vec![image(Some("shot.png"), "image/png", 4096)]);
    assert_eq!(summary, "[Image: shot.png (4096 bytes, image/png)]");
}

#[test]
fn empty_multimodal_returns_none() {
    let blocks = scrollback_blocks(&[HistoryMessage::Multimodal { parts: vec![] }]);
    assert!(blocks.is_empty());
}

#[test]
fn multimodal_summary_separates_parts_by_line_breaks() {
    let summary = summarize_parts(&vec![
        ContentPart::Text { text: String::new() },
        image(None, "image/gif", 7),
        ContentPart::Text { text: "after".to_string() },
    ]);
    assert_eq!(summary, "[Image: (unknown) (7 bytes, image/gif)]\nafter");
}

#[test]
fn plain_user_message_round_trips() {
    let blocks = scrollback_blocks(&[HistoryMessage::User { content: "hello".to_string() }]);
    assert_eq!(blocks.len(), 1);
    match &blocks[0] {
        TranscriptBlock::Content { source, text } => {
            assert_eq!(*source, MessageSource::User);
            assert_eq!(text, "hello");
        }
        other => panic!("unexpected block {}", describe(other)),
    }
}
