use geswm::config::{WindowProperties, WindowRule};

fn props(app_id: Option<&str>, title: Option<&str>) -> WindowProperties {
    WindowProperties {
        app_id: app_id.map(|s| s.to_string()),
        title: title.map(|s| s.to_string()),
        ..WindowProperties::default()
    }
}

#[test]
fn empty_rule_matches_everything() {
    let rule = WindowRule::new();
    assert!(rule.matches(&props(None, None)));
    assert!(rule.matches(&props(Some("firefox"), Some("Mozilla"))));
    assert_eq!(rule.floating_action(), None);
}

#[test]
fn app_id_rule_matches_that_app_only() {
    let rule = WindowRule::new().app_id("pavucontrol").floating(true);
    assert!(rule.matches(&props(Some("pavucontrol"), Some("Volume"))));
    assert!(!rule.matches(&props(Some("firefox"), None)));
    assert!(!rule.matches(&props(None, None)));
    assert_eq!(rule.floating_action(), Some(true));
}

#[test]
fn app_id_and_title_must_both_match() {
    let rule = WindowRule::new().app_id("foot").title("scratch");
    assert!(rule.matches(&props(Some("foot"), Some("scratch"))));
    assert!(!rule.matches(&props(Some("foot"), Some("other"))));
    assert!(!rule.matches(&props(Some("foot"), None)));
    assert_eq!(rule.floating_action(), None);
}
