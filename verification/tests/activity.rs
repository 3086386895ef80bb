use talos_tui::activity::{summary_fields_for, ToolActivities, ToolActivity};

fn requested(id: &str, name: &str) -> ToolActivity {
    ToolActivity::Requested { call_id: id.to_string(), name: name.to_string(), body: String::new() }
}

fn finished(id: &str, is_error: bool, body: &str) -> ToolActivity {
    ToolActivity::Finished { call_id: id.to_string(), is_error, body: body.to_string() }
}

#[test]
fn calls_are_tracked_once_and_finish_once() {
    let mut calls = ToolActivities::new();
    assert!(!calls.has_activity());
    calls.update(requested("a", "bash"));
    calls.update(requested("a", "bash"));
    calls.update(requested("b", "read"));
    assert_eq!(calls.calls.len(), 2);
    assert_eq!(calls.label(0), "bash #1 · requested");

    calls.update(finished(
        "a",
        true,
        "boom\n\n[Analyze the error above and try a different approach.]",
    ));
    assert_eq!(calls.calls[0].body, "boom");
    assert_eq!(calls.label(0), "bash #1 · failed");

    calls.update(finished("a", false, "later"));
    assert_eq!(calls.label(0), "bash #1 · failed");
    assert_eq!(calls.calls[0].body, "boom");

    calls.update(finished("b", false, "ok"));
    assert_eq!(calls.label(1), "read #2 · succeeded");

    calls.update(finished("zzz", false, "unknown"));
    assert_eq!(calls.calls.len(), 2);

    calls.update(ToolActivity::ResponseStarted);
    assert!(!calls.has_activity());
}

#[test]
fn summary_fields_by_tool() {
    assert_eq!(summary_fields_for("read"), vec!["path"]);
    assert_eq!(summary_fields_for("stat"), vec!["path"]);
    assert_eq!(summary_fields_for("bash"), vec!["command"]);
    assert_eq!(summary_fields_for("glob"), vec!["pattern"]);
    assert_eq!(summary_fields_for("fetch_url"), vec!["url", "mode"]);
    assert_eq!(summary_fields_for("http_request"), vec!["method", "url"]);
    assert_eq!(summary_fields_for("save_url"), vec!["url", "destination"]);
    assert_eq!(summary_fields_for("web_search"), vec!["query"]);
    assert_eq!(summary_fields_for("git_checkout"), vec!["path"]);
    assert!(summary_fields_for("unknown").is_empty());
    assert!(summary_fields_for("Read").is_empty());
}

fn preview(calls: &ToolActivities) -> Option<String> {
    if !calls.has_activity() {
        return None;
    }
    Some((0..calls.calls.len()).map(|i| calls.label(i)).collect::<Vec<_>>().join("\n"))
}

#[test]
fn response_boundary_allows_reused_provider_call_ids() {
    let mut calls = ToolActivities::new();
    for body in ["first response", "second response"] {
        calls.update(ToolActivity::ResponseStarted);
        calls.update(ToolActivity::Requested {
            call_id: "call_0".into(),
            name: "bash".into(),
            body: body.into(),
        });
        assert_eq!(calls.calls.len(), 1);
        assert_eq!(calls.calls[0].body, body);
        assert_eq!(calls.calls[0].result, None);
        calls.update(ToolActivity::Finished {
            call_id: "call_0".into(),
            is_error: false,
            body: format!("result {body}"),
        });
        assert_eq!(calls.calls[0].body, format!("result {body}"));
    }
}

#[test]
fn same_name_results_are_correlated_only_by_identity() {
    let mut calls = ToolActivities::new();
    for id in ["a", "b"] {
        calls.update(ToolActivity::Requested { call_id: id.into(), name: "bash".into(), body: "{}".into() });
    }
    calls.update(ToolActivity::Finished { call_id: "unknown".into(), body: "ignored".into(), is_error: true });
    calls.update(ToolActivity::Finished { call_id: "b".into(), body: "failed".into(), is_error: true });
    assert_eq!(preview(&calls).as_deref(), Some("bash #1 · requested\nbash #2 · failed"));
    calls.update(ToolActivity::Requested { call_id: "b".into(), name: "bash".into(), body: "{}".into() });
    calls.update(ToolActivity::Finished { call_id: "a".into(), body: "ok".into(), is_error: false });
    assert_eq!(preview(&calls).as_deref(), Some("bash #1 · succeeded\nbash #2 · failed"));
    calls.clear();
    assert!(preview(&calls).is_none());
}
