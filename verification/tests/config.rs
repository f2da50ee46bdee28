use notification_forwarder::config::{
    default_debounce_ms, default_dedup_capacity, default_dedup_ttl_secs, default_max_attempts,
    default_true, sanitize_url_for_logging, AppConfig, FilterMode,
};
use notification_forwarder::tables::{comes_before, HeaderTable, NameSet};

fn pair(name: &str, value: &str) -> (String, String) {
    (name.to_string(), value.to_string())
}

#[test]
fn defaults_require_custom_webhook() {
    let cfg = AppConfig::default();
    assert!(cfg.webhook_url.is_empty());
    assert_eq!(cfg.max_attempts, 3);
    assert!((300..=1800).contains(&cfg.dedup_ttl_secs));
    assert!(cfg.forwarding_enabled);
}

#[test]
fn secret_redaction() {
    let out = sanitize_url_for_logging("https://api.example.com/webhook?token=abc123&foo=bar");
    assert!(out.contains("token=********"));
    assert!(out.contains("foo=bar"));
    assert!(!out.contains("abc123"));
}

#[test]
fn redaction_keeps_everything_else() {
    assert_eq!(
        sanitize_url_for_logging("https://api.example.com/webhook?token=abc123&foo=bar"),
        "https://api.example.com/webhook?token=********&foo=bar"
    );
    assert_eq!(sanitize_url_for_logging("https://h/p"), "https://h/p");
    assert_eq!(sanitize_url_for_logging("https://h/p?"), "https://h/p?");
    assert_eq!(sanitize_url_for_logging(""), "");
}

#[test]
fn every_secret_key_is_redacted_in_any_case() {
    for key in [
        "token", "SECRET", "api_Key", "AUTH", "password", "x-signature", "Authorization",
    ] {
        let url = format!("https://h/p?{key}=hidden&n=1");
        assert_eq!(
            sanitize_url_for_logging(&url),
            format!("https://h/p?{key}=********&n=1")
        );
    }
}

#[test]
fn a_secret_key_without_a_value_is_redacted_too() {
    assert_eq!(
        sanitize_url_for_logging("https://h/p?token&x=1=2"),
        "https://h/p?token=********&x=1=2"
    );
}

#[test]
fn only_the_first_question_mark_starts_the_query() {
    assert_eq!(
        sanitize_url_for_logging("https://h/p?a=b?c&token=d?e"),
        "https://h/p?a=b?c&token=********"
    );
}

#[test]
fn sanitizing_twice_changes_nothing() {
    let once = sanitize_url_for_logging("https://h/?key=1&b=2&&secret");
    assert_eq!(once, "https://h/?key=********&b=2&&secret=********");
    assert_eq!(sanitize_url_for_logging(&once), once);
}

#[test]
fn secret_values_do_not_show() {
    assert_eq!(
        sanitize_url_for_logging("https://h/?a=1&token=one"),
        sanitize_url_for_logging("https://h/?a=1&token=two")
    );
}

#[test]
fn defaults_in_full() {
    let cfg = AppConfig::default();
    assert_eq!(cfg.webhook_headers.len(), 0);
    assert!(!cfg.diagnostic_logging);
    assert!(!cfg.start_at_login);
    assert_eq!(cfg.filter_mode, FilterMode::All);
    assert_eq!(FilterMode::default(), FilterMode::All);
    assert_eq!(cfg.allowed_apps.len(), 0);
    assert_eq!(cfg.dedup_ttl_secs, 900);
    assert_eq!(cfg.dedup_capacity, 2000);
    assert_eq!(cfg.debounce_ms, 250);
    assert!(default_true());
    assert_eq!(default_dedup_ttl_secs(), 900);
    assert_eq!(default_dedup_capacity(), 2000);
    assert_eq!(default_debounce_ms(), 250);
    assert_eq!(default_max_attempts(), 3);
}

#[test]
fn the_override_decides_where_the_file_lies() {
    assert_eq!(
        AppConfig::config_path(
            Some("/etc/nf.json".to_string()),
            Some("/Users/a".to_string()),
            false,
            true
        ),
        "/etc/nf.json"
    );
    assert_eq!(AppConfig::config_path(Some(String::new()), None, true, true), "");
}

#[test]
fn the_file_lies_below_the_home_directory() {
    let below = |home: &str| AppConfig::config_path(None, Some(home.to_string()), true, true);
    let path = "Library/Application Support/NotificationForwarder/config.json";
    assert_eq!(below("/Users/a"), format!("/Users/a/{path}"));
    assert_eq!(below("/Users/a/"), format!("/Users/a/{path}"));
    assert_eq!(below(""), path);
    assert_eq!(
        AppConfig::config_path(None, None, true, true),
        "/tmp/notification-forwarder-config.json"
    );
}

#[test]
fn the_file_lies_in_the_other_directory_where_only_that_exists() {
    let path = |library: bool, fallback: bool| {
        AppConfig::config_path(None, Some("/Users/a".to_string()), library, fallback)
    };
    let preferred = format!("{}/config.json", AppConfig::library_directory("/Users/a"));
    assert_eq!(path(true, true), preferred);
    assert_eq!(path(true, false), preferred);
    assert_eq!(path(false, false), preferred);
    assert_eq!(path(false, true), "/Users/a/.config/notification-forwarder/config.json");
    assert_eq!(
        AppConfig::fallback_directory("/Users/a/"),
        "/Users/a/.config/notification-forwarder"
    );
}

#[test]
fn what_was_read_is_used_else_the_defaults() {
    let read = AppConfig { max_attempts: 5, ..Default::default() };
    assert_eq!(AppConfig::or_default(Some(read)).max_attempts, 5);
    assert_eq!(AppConfig::or_default(None).max_attempts, 3);
}

#[test]
fn a_copy_holds_the_same_settings() {
    let cfg = AppConfig {
        webhook_url: "https://h".to_string(),
        webhook_headers: HeaderTable::from_pairs(vec![pair("B", "2"), pair("A", "1")]),
        forwarding_enabled: false,
        filter_mode: FilterMode::Selected,
        allowed_apps: NameSet::from_names(vec!["X".to_string()]),
        ..Default::default()
    };
    let copy = cfg.clone();
    assert_eq!(copy.webhook_url, "https://h");
    assert_eq!(copy.webhook_headers.entries(), cfg.webhook_headers.entries());
    assert!(!copy.forwarding_enabled);
    assert_eq!(copy.filter_mode, FilterMode::Selected);
    assert!(copy.allowed_apps.contains("X"));
}

#[test]
fn tables_keep_names_once_and_in_order() {
    let table = HeaderTable::from_pairs(vec![
        pair("b", "1"),
        pair("a", "2"),
        pair("b", "3"),
        pair("B", "4"),
        pair("aa", "5"),
    ]);
    assert_eq!(
        table.entries(),
        &vec![pair("B", "4"), pair("a", "2"), pair("aa", "5"), pair("b", "3")]
    );
    assert_eq!(table.len(), 4);
}

#[test]
fn tables_survive_being_listed() {
    let table = HeaderTable::from_pairs(vec![pair("z", "1"), pair("é", "2"), pair("A", "3")]);
    let again = HeaderTable::from_pairs(table.entries().clone());
    assert_eq!(again.entries(), table.entries());
}

#[test]
fn name_sets_hold_a_name_once() {
    let mut set = NameSet::new();
    assert!(set.insert("a".to_string()));
    assert!(!set.insert("a".to_string()));
    assert!(set.insert("A".to_string()));
    assert_eq!(set.len(), 2);
    assert!(set.contains("A"));
    assert!(!set.contains("b"));
    assert_eq!(set.names(), &vec!["a".to_string(), "A".to_string()]);
}

#[test]
fn texts_are_ordered_by_their_characters() {
    assert!(comes_before("", "a"));
    assert!(comes_before("a", "ab"));
    assert!(comes_before("Z", "a"));
    assert!(comes_before("z", "é"));
    assert!(!comes_before("a", "a"));
    assert!(!comes_before("b", "ab"));
}
