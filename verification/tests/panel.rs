use talos_tui::panel::{PanelEntry, PanelList};

fn entry(label: &str, description: &str) -> PanelEntry {
    PanelEntry { label: label.to_string(), description: description.to_string(), is_header: false }
}

fn header(label: &str) -> PanelEntry {
    PanelEntry { label: label.to_string(), description: String::new(), is_header: true }
}

fn slash_menu() -> PanelList {
    PanelList {
        is_slash: true,
        items: vec![
            entry("/help", "Show help"),
            entry("/model", "Switch the model"),
            entry("/clear", "Clear the MODEL context"),
            entry("/modes", "List modes"),
        ],
        selected_index: 0,
    }
}

fn picker() -> PanelList {
    PanelList {
        is_slash: false,
        items: vec![
            header("Recent"),
            entry("gpt-4.1", "openai"),
            header("Acme"),
            entry("falcon-large", "acme"),
            entry("falcon-small", "acme"),
            header("Empty"),
        ],
        selected_index: 1,
    }
}

#[test]
fn slash_menu_lists_prefix_matches_first() {
    let menu = slash_menu();
    assert_eq!(menu.filtered_indices(""), vec![0, 1, 2, 3]);
    assert_eq!(menu.filtered_indices("MOD"), vec![1, 3, 2]);
    assert_eq!(menu.filtered_indices("zzz"), Vec::<usize>::new());
}

#[test]
fn picker_keeps_headers_of_matching_groups_only() {
    let list = picker();
    assert_eq!(list.filtered_indices("falcon"), vec![2, 3, 4]);
    assert_eq!(list.filtered_indices("ACME"), vec![2, 3, 4]);
    assert_eq!(list.filtered_indices("o"), vec![0, 1, 2, 3, 4]);
    assert_eq!(list.navigable_indices("o"), vec![1, 3, 4]);
    assert_eq!(list.filtered_indices("nothing"), Vec::<usize>::new());
}

#[test]
fn picker_navigation_skips_headers_and_wraps() {
    let mut list = picker();
    list.select_next("");
    assert_eq!(list.selected_index, 3);
    list.select_next("");
    assert_eq!(list.selected_index, 4);
    list.select_next("");
    assert_eq!(list.selected_index, 1);
    list.select_prev("");
    assert_eq!(list.selected_index, 4);

    list.selected_index = 0;
    list.select_prev("");
    assert_eq!(list.selected_index, 1, "a non-navigable selection restarts at the first item");
}

#[test]
fn reset_selection_lands_on_the_first_navigable_match() {
    let mut list = picker();
    list.reset_selection_for_query("small");
    assert_eq!(list.selected_index, 4);
    list.reset_selection_for_query("nothing");
    assert_eq!(list.selected_index, 0);
    let before = list.selected_index;
    list.select_next("nothing");
    assert_eq!(list.selected_index, before);
}
