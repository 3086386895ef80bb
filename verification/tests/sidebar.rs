use talos_tui::sidebar::{SkillInfo, SkillSidebar};

fn skill(name: &str, active: bool) -> SkillInfo {
    SkillInfo { name: name.to_string(), description: format!("{name} skill"), active }
}

#[test]
fn sidebar_starts_hidden_and_toggles() {
    let mut sidebar = SkillSidebar::new();
    assert!(!sidebar.visible);
    assert!(sidebar.skills.is_empty());
    assert_eq!(sidebar.width, SkillSidebar::DEFAULT_WIDTH);
    sidebar.toggle();
    assert!(sidebar.visible);
    sidebar.toggle();
    assert!(!sidebar.visible);
    assert!(!SkillSidebar::default().visible);
}

#[test]
fn collapsed_label_counts_skills() {
    let mut sidebar = SkillSidebar::new();
    assert_eq!(sidebar.collapsed_label(), "⚡");
    sidebar.update_skills(vec![skill("a", true), skill("b", false), skill("c", true)]);
    assert_eq!(sidebar.collapsed_label(), "⚡3");
    assert_eq!(sidebar.active_count(), 2);
    assert!(!sidebar.is_collapsed());
    sidebar.width = SkillSidebar::COLLAPSE_THRESHOLD - 1;
    assert!(sidebar.is_collapsed());
}
