use talos_tui::credential::{CredentialField, CredentialForm};

#[test]
fn credential_input_collects_pasted_text_and_submits() {
    let mut form = CredentialForm::open_credential_input("openai", None, false, None);
    form.credential_append_str("sk-test-key\n");

    let response = form.credential_submit().expect("credential response");
    assert_eq!(response.provider, "openai");
    assert_eq!(response.api_key, "sk-test-key");
    assert_eq!(response.model_id, None);
    assert!(!response.connect_mode);
    assert!(response.base_url.is_none());
    assert!(form.request.is_none());
}

#[test]
fn empty_credential_submit_closes_without_response() {
    let mut form = CredentialForm::open_credential_input("openai", Some("gpt-4.1"), false, None);
    assert!(form.credential_submit().is_none());
    assert!(form.request.is_none());
}

#[test]
fn connect_mode_standard_provider_submits_without_base_url_field() {
    let mut form = CredentialForm::open_credential_input(
        "groq",
        None,
        true,
        Some("https://api.groq.com/openai/v1".to_string()),
    );
    form.credential_append_str("gsk-test-key");
    let response = form.credential_submit().expect("standard provider submits");
    assert_eq!(response.provider, "groq");
    assert_eq!(response.api_key, "gsk-test-key");
    assert_eq!(response.base_url.as_deref(), Some("https://api.groq.com/openai/v1"));
    assert!(form.request.is_none());
}

#[test]
fn connect_mode_custom_provider_needs_a_base_url() {
    let mut form = CredentialForm::open_credential_input("custom-gw", None, true, None);
    form.credential_append_str("custom-key");
    assert!(form.credential_submit().is_none());
    assert!(form.request.is_some());
    assert_eq!(form.field, CredentialField::BaseUrl);
    assert_eq!(form.credential_buffer, "custom-key");

    assert!(form.credential_submit().is_none(), "an empty URL keeps the panel open");
    assert!(form.request.is_some());

    form.credential_append_str("  https://custom.example/v1 ");
    let response = form.credential_submit().expect("second submit returns");
    assert_eq!(response.api_key, "custom-key");
    assert!(response.connect_mode);
    assert_eq!(response.base_url.as_deref(), Some("https://custom.example/v1"));
    assert!(form.request.is_none());
}

#[test]
fn credential_append_and_backspace_route_to_active_field() {
    let mut form = CredentialForm::open_credential_input("groq", None, true, None);
    form.credential_append_str("abc");
    form.credential_backspace();
    assert_eq!(form.credential_buffer, "ab");
    assert!(form.base_url_buffer.is_empty());

    form.credential_append_char('x');
    form.credential_submit();
    form.credential_append_str("https://x.example");
    form.credential_backspace();
    assert_eq!(form.credential_buffer, "abx");
    assert_eq!(form.base_url_buffer, "https://x.exampl");

    form.credential_cancel();
    assert!(form.request.is_none());
    assert!(form.credential_buffer.is_empty() && form.base_url_buffer.is_empty());

    let mut closed = CredentialForm::closed();
    closed.credential_append_str("ignored");
    assert!(closed.credential_buffer.is_empty());
    assert!(closed.credential_submit().is_none());
}

#[test]
fn connect_mode_custom_provider_first_submit_advances_to_base_url_field() {
    let mut form = CredentialForm::open_credential_input("custom-gw", None, true, None);

    form.credential_append_str("custom-key");
    let response = form.credential_submit();

    assert!(response.is_none(), "custom provider must collect base URL before submit");
    assert!(form.request.is_some(), "panel must stay open for base_url");
    assert_eq!(form.field, CredentialField::BaseUrl);
    assert_eq!(form.credential_buffer, "custom-key");
}

#[test]
fn connect_mode_custom_provider_second_submit_returns_typed_base_url() {
    let mut form = CredentialForm::open_credential_input("custom-gw", None, true, None);

    form.credential_append_str("custom-key");
    form.credential_submit();
    form.credential_append_str("https://custom.example/v1");
    let response = form.credential_submit().expect("second submit must return response");

    assert_eq!(response.provider, "custom-gw");
    assert_eq!(response.api_key, "custom-key");
    assert!(response.connect_mode);
    assert_eq!(response.base_url.as_deref(), Some("https://custom.example/v1"));
    assert!(form.request.is_none());
}

#[test]
fn connect_mode_custom_provider_empty_base_url_stays_open() {
    let mut form = CredentialForm::open_credential_input("custom-gw", None, true, None);

    form.credential_append_str("custom-key");
    form.credential_submit();
    let response = form.credential_submit();

    assert!(response.is_none());
    assert!(form.request.is_some());
    assert_eq!(form.field, CredentialField::BaseUrl);
}

#[test]
fn connect_mode_empty_api_key_cancels_without_advancing() {
    let mut form = CredentialForm::open_credential_input("groq", None, true, None);

    let response = form.credential_submit();

    assert!(response.is_none());
    assert!(form.request.is_none(), "empty API key in connect_mode must cancel, not advance");
}

#[test]
fn non_connect_mode_ignores_base_url_and_submits_single_phase() {
    let mut form = CredentialForm::open_credential_input("anthropic", None, false, None);

    form.credential_append_str("sk-ant-test");
    let response = form.credential_submit().expect("non-connect mode must submit on first Enter");

    assert_eq!(response.api_key, "sk-ant-test");
    assert!(response.base_url.is_none());
    assert!(!response.connect_mode);
}
