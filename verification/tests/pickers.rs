use talos_tui::editor::InputState;
use talos_tui::panel::{panel_query, paste_target, PanelList, PanelMode, PasteTarget};
use talos_tui::pickers::{
    accept_selected_item, accept_slash_command, open_approval, open_connect_picker, open_model_list,
    open_model_picker, open_session_picker, open_variant_picker, picker_list, AvailableProvider,
    ConnectPickerData, ConnectedProvider, ModelPickerData, ModelPickerItem, ModelPickerVariantItem,
    PanelAcceptMode, PanelOutcome, PickerAction, PickerItem, RecentModel, SessionPickerItem,
    SetupProvider, SlashAccept,
};

fn model_item(id: &str, provider: &str, is_current: bool) -> ModelPickerItem {
    ModelPickerItem {
        label: format!("{id} {provider}"),
        provider: provider.to_string(),
        model_id: id.to_string(),
        variants: vec![],
        pricing: None,
        is_current,
    }
}

fn sample_model_picker_data() -> ModelPickerData {
    ModelPickerData {
        recent: vec![],
        ready_models: vec![
            model_item("sonnet-4-5", "anthropic", true),
            model_item("opus-4-1", "anthropic", false),
            model_item("gpt-4o", "openai", false),
            model_item("o3", "openai", false),
        ],
        setup_providers: vec![],
    }
}

fn connected(provider: &str, name: &str, has_credential: bool) -> ConnectedProvider {
    ConnectedProvider {
        name: name.to_string(),
        provider: provider.to_string(),
        model_count: 3,
        has_credential,
        api_base_url: None,
    }
}

fn available(provider: &str, name: &str) -> AvailableProvider {
    AvailableProvider { name: name.to_string(), provider: provider.to_string(), model_count: 3, api_base_url: None }
}

fn sample_connect_picker_data() -> ConnectPickerData {
    ConnectPickerData {
        connected: vec![connected("anthropic", "Anthropic", true)],
        available: vec![available("openai", "OpenAI"), available("groq", "Groq")],
    }
}

fn model_picker_menu(data: &ModelPickerData) -> (Vec<PickerItem>, PanelList) {
    let (items, selected) = open_model_picker(data);
    let menu = picker_list(&items, selected);
    (items, menu)
}

fn model_list_menu(provider: &str, data: &ModelPickerData) -> (Vec<PickerItem>, PanelList) {
    let (items, selected) = open_model_list(provider, data);
    let menu = picker_list(&items, selected);
    (items, menu)
}

fn is_header(items: &[PickerItem], i: usize) -> bool {
    items[i].action == PickerAction::Header
}

#[test]
fn model_picker_level1_search_matches_provider_names() {
    let data = sample_model_picker_data();
    let (items, menu) = model_picker_menu(&data);

    let indices = menu.filtered_indices("openai");
    let visible_labels: Vec<&str> = indices.iter().map(|&i| items[i].label.as_str()).collect();

    assert!(
        visible_labels.contains(&"openai"),
        "openai provider row must be visible when querying 'openai': {visible_labels:?}"
    );
    assert!(
        !visible_labels.contains(&"anthropic"),
        "non-matching anthropic provider must be hidden: {visible_labels:?}"
    );
}

#[test]
fn model_picker_level2_navigation_skips_headers_and_filtered_items() {
    let data = sample_model_picker_data();
    let (items, mut menu) = model_list_menu("openai", &data);

    let navigable: Vec<usize> =
        menu.filtered_indices("").into_iter().filter(|&i| !is_header(&items, i)).collect();
    assert_eq!(navigable.len(), 2, "openai should have 2 models");

    menu.selected_index = navigable[0];
    menu.select_next("");
    assert!(!is_header(&items, menu.selected_index), "select_next must never land on a Header");
    assert_ne!(menu.selected_index, navigable[0], "select_next must move to the next model");

    menu.select_next("");
    assert!(
        items[menu.selected_index].label.contains("gpt-4o") || items[menu.selected_index].label.contains("o3"),
        "wrapped selection must stay within openai models, got {:?}",
        items[menu.selected_index].label
    );
}

#[test]
fn model_picker_search_no_match_hides_all_groups() {
    let data = sample_model_picker_data();
    let (_, menu) = model_picker_menu(&data);

    let indices = menu.filtered_indices("zzz-nonexistent");
    assert!(indices.is_empty(), "no groups should match: {indices:?}");
}

#[test]
fn model_picker_empty_query_shows_everything() {
    let data = sample_model_picker_data();
    let (items, menu) = model_picker_menu(&data);

    let indices = menu.filtered_indices("");
    assert_eq!(indices.len(), items.len());
}

#[test]
fn model_picker_level2_navigation_within_filtered_set() {
    let data = sample_model_picker_data();
    let (items, mut menu) = model_list_menu("openai", &data);

    menu.selected_index =
        menu.filtered_indices("openai").into_iter().find(|&i| !is_header(&items, i)).unwrap_or(0);

    let first_selection = menu.selected_index;
    assert!(!is_header(&items, first_selection));

    menu.select_next("openai");
    assert!(!is_header(&items, menu.selected_index), "select_next must never land on a Header");
    assert_ne!(menu.selected_index, first_selection, "select_next must move within the filtered openai model set");

    menu.select_next("openai");
    let after_wrap = menu.selected_index;
    assert!(
        items[after_wrap].label.contains("gpt-4o") || items[after_wrap].label.contains("o3"),
        "wrapped selection must stay within openai models, got {:?}",
        items[after_wrap].label
    );
}

#[test]
fn model_picker_select_next_prev_never_select_header() {
    let data = sample_model_picker_data();
    let (items, mut menu) = model_picker_menu(&data);

    for _ in 0..(items.len() * 2) {
        menu.select_next("");
        assert!(!is_header(&items, menu.selected_index));
    }
    for _ in 0..(items.len() * 2) {
        menu.select_prev("");
        assert!(!is_header(&items, menu.selected_index));
    }
}

#[test]
fn model_picker_level1_lists_providers_not_models() {
    let data = sample_model_picker_data();
    let (items, _) = model_picker_menu(&data);

    let open_model_list_count = items
        .iter()
        .filter(|i| matches!(&i.action, PickerAction::OpenModelList { .. } | PickerAction::SwitchModel { .. }))
        .count();
    assert!(open_model_list_count > 0, "Level 1 must contain provider or recent rows");

    let providers: Vec<&str> = items
        .iter()
        .filter_map(|i| match &i.action {
            PickerAction::OpenModelList { provider } => Some(provider.as_str()),
            _ => None,
        })
        .collect();
    assert!(providers.contains(&"openai"), "openai provider must appear");
    assert!(providers.contains(&"anthropic"), "anthropic provider must appear");
}

#[test]
fn connect_picker_search_matches_provider_group() {
    let data = sample_connect_picker_data();
    let (items, selected) = open_connect_picker(&data);
    let menu = picker_list(&items, selected);

    let indices = menu.filtered_indices("groq");
    let labels: Vec<&str> = indices.iter().map(|&i| items[i].label.as_str()).collect();

    assert!(labels.contains(&"Available"), "matching group header must show: {labels:?}");
    assert!(labels.iter().any(|l| l.contains("Groq")), "{labels:?}");
    assert!(!labels.iter().any(|l| l.contains("OpenAI")), "non-matching sibling in same group must be hidden: {labels:?}");
    assert!(!labels.contains(&"Connected"), "non-matching Connected group must be hidden entirely: {labels:?}");
}

#[test]
fn connect_picker_is_picker_and_supports_filtering() {
    let data = sample_connect_picker_data();
    let (items, selected) = open_connect_picker(&data);
    let menu = picker_list(&items, selected);
    assert!(!menu.is_slash);
}

#[test]
fn reset_selection_for_query_lands_on_first_navigable_match() {
    let data = sample_model_picker_data();
    let (items, mut menu) = model_list_menu("openai", &data);

    menu.reset_selection_for_query("openai");
    assert!(!is_header(&items, menu.selected_index));
    assert!(items[menu.selected_index].label.contains("gpt-4o") || items[menu.selected_index].label.contains("o3"));
}

#[test]
fn reset_selection_for_query_falls_back_to_zero_when_nothing_matches() {
    let data = sample_model_picker_data();
    let (_, mut menu) = model_picker_menu(&data);

    menu.reset_selection_for_query("zzz-nonexistent");
    assert_eq!(menu.selected_index, 0);
}

#[test]
fn tuistate_panel_query_uses_raw_buffer_for_pickers() {
    let mut state = InputState::new();
    state.input_append_char('g');
    state.input_append_char('p');
    state.input_append_char('t');

    assert_eq!(panel_query(PanelMode::Picker, &state.text()), "gpt");
}

#[test]
fn panel_query_strips_the_slash_for_the_slash_menu_only() {
    assert_eq!(panel_query(PanelMode::SlashMenu, "/mo"), "mo");
    assert_eq!(panel_query(PanelMode::SlashMenu, "mo"), "");
    assert_eq!(panel_query(PanelMode::Picker, "/mo"), "/mo");
    assert_eq!(panel_query(PanelMode::CredentialInput, "abc"), "");
    assert_eq!(panel_query(PanelMode::Closed, "abc"), "");
}

fn paste(state: &mut InputState, approval_visible: bool, mode: PanelMode, text: &str) -> PasteTarget {
    let target = paste_target(approval_visible, mode);
    match target {
        PasteTarget::Composer | PasteTarget::PanelFilter => state.input_append_str(text),
        PasteTarget::Ignored | PasteTarget::Credential => {}
    }
    target
}

#[test]
fn paste_is_ignored_while_approval_is_visible() {
    let mut state = InputState::new();
    assert_eq!(paste(&mut state, true, PanelMode::Closed, "secret"), PasteTarget::Ignored);
    assert_eq!(state.text(), "");
}

#[test]
fn paste_updates_filter_when_picker_is_visible() {
    let mut state = InputState::new();
    assert_eq!(paste(&mut state, false, PanelMode::Picker, "filter_text"), PasteTarget::PanelFilter);
    assert_eq!(state.text(), "filter_text");
}

#[test]
fn paste_routes_by_panel() {
    assert_eq!(paste_target(false, PanelMode::CredentialInput), PasteTarget::Credential);
    assert_eq!(paste_target(false, PanelMode::Closed), PasteTarget::Composer);
    assert_eq!(paste_target(false, PanelMode::SlashMenu), PasteTarget::PanelFilter);
    assert_eq!(paste_target(true, PanelMode::CredentialInput), PasteTarget::Ignored);
}

#[test]
fn model_picker_groups_recent_providers_and_setup() {
    let data = ModelPickerData {
        recent: vec![RecentModel {
            label: "GPT-4o".to_string(),
            provider: "openai".to_string(),
            model_id: "gpt-4o".to_string(),
            variant: Some("fast".to_string()),
        }],
        ready_models: vec![
            model_item("o3", "openai", false),
            model_item("sonnet", "anthropic", false),
            model_item("gpt-4o", "openai", true),
        ],
        setup_providers: vec![SetupProvider { provider: "groq".to_string(), model_count: 1 }],
    };
    let (items, selected) = open_model_picker(&data);
    let labels: Vec<&str> = items.iter().map(|i| i.label.as_str()).collect();
    assert_eq!(
        labels,
        vec!["Recent", "GPT-4o", "Providers", "anthropic", "openai", "Setup required", "groq   (1 model)"]
    );
    let descriptions: Vec<&str> = items.iter().map(|i| i.description.as_str()).collect();
    assert_eq!(descriptions, vec!["", "openai", "", "1 model", "2 models", "", "Use /connect to set up"]);
    assert_eq!(selected, 1);
    assert_eq!(
        items[1].action,
        PickerAction::SwitchModel {
            provider: "openai".to_string(),
            model_id: "gpt-4o".to_string(),
            variant: Some("fast".to_string()),
        }
    );
    assert_eq!(items[6].action, PickerAction::ProviderSetup { provider: "groq".to_string() });

    let empty = ModelPickerData { recent: vec![], ready_models: vec![], setup_providers: vec![] };
    assert_eq!(open_model_picker(&empty), (vec![], 0));
}

#[test]
fn model_list_selects_the_first_model_that_is_not_current() {
    let mut data = sample_model_picker_data();
    data.ready_models[0].pricing = Some("$3 / $15".to_string());
    data.ready_models[0].variants = vec![ModelPickerVariantItem {
        label: "Thinking".to_string(),
        variant_id: "thinking".to_string(),
    }];
    let (items, selected) = open_model_list("anthropic", &data);
    assert_eq!(items.len(), 2);
    assert_eq!(selected, 1);
    assert_eq!(items[0].description, "$3 / $15");
    assert!(items[0].is_current);
    assert_eq!(
        items[0].action,
        PickerAction::OpenVariantPicker {
            provider: "anthropic".to_string(),
            model_id: "sonnet-4-5".to_string(),
            variants: data.ready_models[0].variants.clone(),
        }
    );
    assert_eq!(
        items[1].action,
        PickerAction::SwitchModel {
            provider: "anthropic".to_string(),
            model_id: "opus-4-1".to_string(),
            variant: None,
        }
    );
    assert_eq!(open_model_list("nobody", &data), (vec![], 0));
}

#[test]
fn variant_picker_switches_with_the_chosen_variant() {
    let variants = vec![
        ModelPickerVariantItem { label: "Fast".to_string(), variant_id: "fast".to_string() },
        ModelPickerVariantItem { label: "Deep".to_string(), variant_id: "deep".to_string() },
    ];
    let items = open_variant_picker("openai", "o3", &variants);
    assert_eq!(items.len(), 2);
    assert_eq!(items[1].label, "Deep");
    assert_eq!(items[1].description, "deep");
    assert_eq!(
        items[1].action,
        PickerAction::SwitchModel {
            provider: "openai".to_string(),
            model_id: "o3".to_string(),
            variant: Some("deep".to_string()),
        }
    );
}

#[test]
fn connect_picker_rows_describe_each_provider() {
    let data = ConnectPickerData {
        connected: vec![
            ConnectedProvider {
                name: "Acme".to_string(),
                provider: "acme".to_string(),
                model_count: 2,
                has_credential: true,
                api_base_url: Some("https://acme.example".to_string()),
            },
            ConnectedProvider {
                name: "Bare".to_string(),
                provider: "bare".to_string(),
                model_count: 1,
                has_credential: false,
                api_base_url: None,
            },
            ConnectedProvider {
                name: "Url".to_string(),
                provider: "url".to_string(),
                model_count: 4,
                has_credential: false,
                api_base_url: Some("https://u.example".to_string()),
            },
        ],
        available: vec![available("groq", "Groq")],
    };
    let (items, selected) = open_connect_picker(&data);
    assert_eq!(selected, 0);
    assert_eq!(items[0].label, "Add custom provider");
    assert_eq!(items[0].action, PickerAction::OpenWizard);
    assert_eq!(items[1].label, "Connected");
    assert_eq!(items[2].label, "Acme   acme");
    assert_eq!(items[2].description, "2 models   credential present   https://acme.example");
    assert_eq!(items[3].description, "1 models");
    assert_eq!(items[4].description, "4 models      https://u.example");
    assert_eq!(items[5].label, "Available");
    assert_eq!(items[6].description, "3 models   —");
    assert_eq!(items[6].action, PickerAction::ConnectSelect { provider: "groq".to_string() });

    let only_wizard = ConnectPickerData { connected: vec![], available: vec![] };
    assert_eq!(open_connect_picker(&only_wizard).0.len(), 1);
}

#[test]
fn session_picker_rows_resume_by_ordinal() {
    let sessions = vec![
        SessionPickerItem {
            ordinal: 1,
            timestamp: "2024-05-01 10:00".to_string(),
            message_count: 12,
            preview: "fix the build".to_string(),
            command: String::new(),
        },
        SessionPickerItem {
            ordinal: 2,
            timestamp: "2024-05-02 11:30".to_string(),
            message_count: 0,
            preview: String::new(),
            command: "/load".to_string(),
        },
    ];
    let items = open_session_picker(&sessions);
    assert_eq!(items[0].label, "1. 2024-05-01 10:00 — 12 messages");
    assert_eq!(items[0].description, "\"fix the build\"");
    assert_eq!(
        items[0].action,
        PickerAction::Select { command: "/resume".to_string(), value: "1".to_string() }
    );
    assert_eq!(items[1].description, "(empty)");
    assert_eq!(items[1].action, PickerAction::Select { command: "/load".to_string(), value: "2".to_string() });
}

#[test]
fn approval_choices_send_their_values() {
    let items = open_approval();
    let labels: Vec<&str> = items.iter().map(|i| i.label.as_str()).collect();
    assert_eq!(labels, vec!["[y] approve", "[a] always approve", "[n] deny"]);
    assert_eq!(accept_selected_item(&items, 1), PanelOutcome::SendMessage(" always".to_string()));
}

#[test]
fn accepting_an_item_carries_its_action_over() {
    let data = sample_model_picker_data();
    let (items, _) = open_model_picker(&data);
    assert_eq!(accept_selected_item(&items, 0), PanelOutcome::Nothing);
    assert_eq!(accept_selected_item(&items, 1), PanelOutcome::OpenModelList("anthropic".to_string()));
    assert_eq!(accept_selected_item(&items, 99), PanelOutcome::Nothing);

    let sessions = vec![SessionPickerItem {
        ordinal: 3,
        timestamp: "t".to_string(),
        message_count: 1,
        preview: "p".to_string(),
        command: String::new(),
    }];
    let rows = open_session_picker(&sessions);
    assert_eq!(accept_selected_item(&rows, 0), PanelOutcome::SendMessage("/resume 3".to_string()));

    let (connect, _) = open_connect_picker(&sample_connect_picker_data());
    assert_eq!(accept_selected_item(&connect, 0), PanelOutcome::OpenWizard);
    assert_eq!(accept_selected_item(&connect, 2), PanelOutcome::ConnectSelect("anthropic".to_string()));
}

#[test]
fn slash_commands_run_on_enter_or_fill_the_composer() {
    assert_eq!(
        accept_slash_command("/model", false, true, PanelAcceptMode::Enter),
        SlashAccept::Send("/model".to_string())
    );
    assert_eq!(
        accept_slash_command("/model", false, true, PanelAcceptMode::Complete),
        SlashAccept::Insert("/model".to_string())
    );
    assert_eq!(
        accept_slash_command("/resume", true, false, PanelAcceptMode::Enter),
        SlashAccept::Insert("/resume ".to_string())
    );
}
