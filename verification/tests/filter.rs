use notification_forwarder::config::{AppConfig, FilterMode};
use notification_forwarder::filter::AppFilter;
use notification_forwarder::tables::NameSet;

fn selected(names: &[&str]) -> AppFilter {
    let config = AppConfig {
        filter_mode: FilterMode::Selected,
        allowed_apps: NameSet::from_names(names.iter().map(|n| n.to_string()).collect()),
        ..Default::default()
    };
    AppFilter::from_config(&config)
}

#[test]
fn all_mode_forwards_everything() {
    let f = AppFilter::allow_all();
    assert!(f.allows("WhatsApp"));
    assert!(f.allows("Slack"));
}

#[test]
fn selected_mode_filters() {
    let config = AppConfig {
        filter_mode: FilterMode::Selected,
        allowed_apps: NameSet::from_names(vec!["WhatsApp".to_string(), "Messages".to_string()]),
        ..Default::default()
    };
    let f = AppFilter::from_config(&config);
    assert!(f.allows("WhatsApp"));
    assert!(f.allows("whatsapp")); // case-insensitive
    assert!(!f.allows("Slack"));
}

#[test]
fn all_mode_ignores_the_names() {
    let config = AppConfig {
        filter_mode: FilterMode::All,
        allowed_apps: NameSet::from_names(vec!["WhatsApp".to_string()]),
        ..Default::default()
    };
    assert!(AppFilter::from_config(&config).allows("Slack"));
}

#[test]
fn selected_mode_without_names_forwards_nothing() {
    let f = selected(&[]);
    assert!(!f.allows("WhatsApp"));
    assert!(!f.allows(""));
}

#[test]
fn case_is_ignored_beyond_ascii() {
    let f = selected(&["ÄPFEL", "ΣΑΣ"]);
    assert!(f.allows("äpfel"));
    assert!(f.allows("Äpfel"));
    assert!(f.allows("ΣΑΣ"));
    assert!(f.allows("σας"));
    assert!(!f.allows("apfel"));
}

#[test]
fn names_are_matched_whole() {
    let f = selected(&["Mail"]);
    assert!(!f.allows("Gmail"));
    assert!(!f.allows("Mail "));
}

#[test]
fn a_copy_of_a_filter_lets_the_same_through() {
    let copy = selected(&["Mail"]).clone();
    assert!(copy.allows("MAIL"));
    assert!(!copy.allows("Slack"));
    assert!(AppFilter::allow_all().clone().allows("Slack"));
}
