use notification_forwarder::args::{default_log_filter, parse_args, Command};
use notification_forwarder::client::WebhookError;
use notification_forwarder::commands::{
    detection_lines, dump_lines, once_result, once_step, once_step_at, test_intro, test_result,
    OnceStep,
};
use notification_forwarder::config::{AppConfig, FilterMode};
use notification_forwarder::element::AxElement;
use notification_forwarder::filter::AppFilter;
use notification_forwarder::model::Notification;
use notification_forwarder::scanner::BannerSnapshot;
use notification_forwarder::status::StatusSnapshot;
use notification_forwarder::tables::NameSet;
use notification_forwarder::time::Timestamp;

fn words(list: &[&str]) -> Vec<String> {
    list.iter().map(|w| w.to_string()).collect()
}

fn banner(app: &str, texts: &[&str]) -> BannerSnapshot {
    BannerSnapshot {
        ax_id: None,
        app_name_hint: Some(app.to_string()),
        title_attr: None,
        description_attr: None,
        static_texts: words(texts),
    }
}

fn only_mail() -> AppFilter {
    AppFilter::from_config(&AppConfig {
        filter_mode: FilterMode::Selected,
        allowed_apps: NameSet::from_names(words(&["Mail"])),
        ..Default::default()
    })
}

#[test]
fn options_with_values() {
    let args = parse_args(&words(&["nf", "--config", "a.json", "--webhook-url=http://h?x=1"]));
    assert_eq!(args.config, Some("a.json".to_string()));
    assert_eq!(args.webhook_url, Some("http://h?x=1".to_string()));
    let args = parse_args(&words(&["nf", "--config=a", "--webhook-url", "--once", "--config=b"]));
    assert_eq!(args.config, Some("b".to_string()));
    assert_eq!(args.webhook_url, Some("--once".to_string()));
    assert!(!args.once);
}

#[test]
fn an_option_at_the_end_has_no_value() {
    let args = parse_args(&words(&["nf", "--config=a", "--config"]));
    assert_eq!(args.config, None);
    let args = parse_args(&words(&["nf", "--config="]));
    assert_eq!(args.config, Some(String::new()));
}

#[test]
fn flags() {
    let args = parse_args(&words(&[
        "nf", "--test-webhook", "--dump-tree", "--test-detection", "--once", "--status", "--menu",
        "--no-gui", "--verbose", "--help", "--unknown",
    ]));
    assert!(args.test_webhook && args.dump_tree && args.test_detection && args.once);
    assert!(args.status && args.menu && args.no_gui && args.verbose && args.help);
    let args = parse_args(&words(&["nf", "-v", "-h"]));
    assert!(args.verbose && args.help && !args.once);
}

#[test]
fn the_name_of_the_program_is_no_option() {
    let args = parse_args(&words(&["--help"]));
    assert!(!args.help);
    assert_eq!(parse_args(&vec![]).config, None);
}

#[test]
fn which_command_runs() {
    let command = |list: &[&str], trusted: bool| parse_args(&words(list)).command(trusted);
    assert_eq!(command(&["nf"], true), Command::Gui);
    assert_eq!(command(&["nf"], false), Command::Gui);
    assert_eq!(command(&["nf", "--no-gui"], true), Command::Monitor);
    assert_eq!(command(&["nf", "--no-gui"], false), Command::AskPermission);
    assert_eq!(command(&["nf", "--once", "--no-gui"], true), Command::Once);
    assert_eq!(command(&["nf", "--once"], false), Command::AskPermission);
    assert_eq!(command(&["nf", "--status", "--menu"], false), Command::Status { menu: true });
    assert_eq!(command(&["nf", "--test-webhook", "--status"], true), Command::Status { menu: false });
    assert_eq!(command(&["nf", "--once", "--test-webhook"], false), Command::TestWebhook);
    assert_eq!(command(&["nf", "--test-detection", "--status"], true), Command::TestDetection);
    assert_eq!(command(&["nf", "--test-detection", "--dump-tree"], true), Command::DumpTree);
    assert_eq!(command(&["nf", "--dump-tree", "-h"], true), Command::Help);
    assert_eq!(parse_args(&words(&["nf", "--once"])).early_command(), None);
}

#[test]
fn what_is_logged() {
    let info = "notification_forwarder=info,nf_accessibility=info,nf_webhook=info";
    let debug = "notification_forwarder=debug,nf_accessibility=debug,nf_webhook=debug";
    assert_eq!(default_log_filter(false, false), info);
    assert_eq!(default_log_filter(true, false), debug);
    assert_eq!(default_log_filter(false, true), debug);
}

#[test]
fn the_tree_or_what_is_in_its_way() {
    let app = Some(AxElement {
        attributes: vec![("AXRole".to_string(), "AXApplication".to_string())],
        children: Some(vec![AxElement { attributes: vec![], children: None }]),
    });
    assert_eq!(dump_lines(false, None, &None), vec!["❌ Accessibility permission not granted."]);
    assert_eq!(dump_lines(true, None, &app), vec!["❌ Notification Center process not found."]);
    assert_eq!(dump_lines(true, Some(9), &None), vec!["❌ Failed to create AXUIElement."]);
    assert_eq!(
        dump_lines(true, Some(-9), &app),
        vec!["AX tree (pid -9):", "AXApplication", "└── ?"]
    );
}

#[test]
fn detection_says_what_would_happen() {
    let filter = only_mail();
    let scan = Ok(vec![banner("Mail", &["Bob", "hi"]), banner("Slack", &["x"]), banner("A", &[])]);
    assert_eq!(
        detection_lines(&filter, &scan),
        vec![
            "🔔 Mail — Bob [would forward]",
            "🔔 Slack — x [would filter]",
            "(empty banner ignored)",
        ]
    );
    assert_eq!(
        detection_lines(&filter, &Ok(vec![])),
        vec!["No banners visible. Send a notification, keep it on screen, and retry."]
    );
    assert_eq!(
        detection_lines(&filter, &Err("no".to_string())),
        vec!["❌ Scan failed: no"]
    );
}

#[test]
fn a_single_scan_forwards_what_is_allowed() {
    let filter = only_mail();
    let stamp = Timestamp::new(1_788_895_800, 0, 7 * 3600).unwrap();
    match once_step_at(&filter, &banner("Mail", &["Bob", "hi"]), stamp) {
        OnceStep::Send { line, payload } => {
            assert_eq!(line, "🔔 Mail — Bob: hi");
            assert_eq!(payload.message, "hi");
            assert_eq!(payload.timestamp, "2026-09-09T02:30:00+07:00");
        }
        _ => panic!("not sent"),
    }
    match once_step(&filter, &banner("Slack", &["Bob"])) {
        OnceStep::Filtered { line, note } => {
            assert_eq!(line, "🔔 Slack — Bob: ");
            assert_eq!(note, "   (filtered)");
        }
        _ => panic!("not filtered"),
    }
    assert!(matches!(once_step(&filter, &banner("Mail", &[])), OnceStep::Skip));
}

#[test]
fn results_of_posts() {
    assert_eq!(once_result(&Ok(204)), "   → webhook 204");
    assert_eq!(
        once_result(&Err(WebhookError::Status(500))),
        "   → webhook failed: unexpected status: 500"
    );
    assert_eq!(test_result(&Ok(200)), "✅ Webhook connected (status 200)");
    assert_eq!(
        test_result(&Err(WebhookError::Configuration("x".to_string()))),
        "❌ Webhook failed: invalid webhook configuration: x"
    );
    assert_eq!(test_intro("https://h?token=1"), "POST https://h?token=********");
}

#[test]
fn the_status_screen() {
    let config = AppConfig { webhook_url: "https://h?key=1".to_string(), ..Default::default() };
    let snapshot = StatusSnapshot::idle(&config, true, Some(9));
    assert!(snapshot.monitoring);
    assert_eq!(
        snapshot.print_out(true, Some(9)),
        "Notification Forwarder\n● Monitoring\nAccessibility     ✓ Enabled\nNotification      ✓ Connected\nWebhook           Not tested (run --test-webhook)\n\nNotifications today\n0\n(forwarded 0, duplicates 0, filtered 0)\n\nRecent\n\n--- menu ---\nNotification Forwarder\n\n● Monitoring\n\nNotifications: 0\nWebhook: Not tested (run --test-webhook)\n\nOpen\nSettings\nLogs\n\nQuit\n\nWebhook URL: https://h?key=********\nNotification Center PID: 9\n"
    );
    let snapshot = StatusSnapshot::idle(&config, false, None);
    assert!(!snapshot.monitoring);
    assert_eq!(
        snapshot.print_out(false, None),
        "Notification Forwarder\n○ Paused\nAccessibility     ✗ Missing\nNotification      ✗ Not found\nWebhook           Not tested (run --test-webhook)\n\nNotifications today\n0\n(forwarded 0, duplicates 0, filtered 0)\n\nRecent\n\nWebhook URL: https://h?key=********\n"
    );
    assert!(!StatusSnapshot::idle(&config, true, None).monitoring);
}

#[test]
fn the_status_screen_shows_five_notifications() {
    let snapshot = StatusSnapshot {
        notifications_today: 12,
        forwarded: 7,
        duplicates: 3,
        filtered: 2,
        recent: (0..6).map(|i| Notification::new("A", &i.to_string(), "M")).collect(),
        ..Default::default()
    };
    let text = snapshot.render_text();
    assert!(text.contains("\nNotifications today\n12\n(forwarded 7, duplicates 3, filtered 2)\n"));
    assert!(text.ends_with("\nRecent\n\nA\n0\nM\n\nA\n1\nM\n\nA\n2\nM\n\nA\n3\nM\n\nA\n4\nM\n"));
    assert_eq!(snapshot.render_line(), "○ Monitoring · 12 today (7 forwarded)");
    assert!(snapshot.render_menu().starts_with("Notification Forwarder\n\n○ Monitoring\n\nNotifications: 12\nWebhook: \n"));
}

#[test]
fn a_copy_of_a_status_shows_the_same() {
    let snapshot = StatusSnapshot {
        notifications_today: 3,
        forwarded: 1,
        recent: vec![Notification::new("A", "T", "M")],
        ..StatusSnapshot::idle(&AppConfig::default(), true, Some(9))
    };
    let copy = snapshot.clone();
    assert_eq!(copy.print_out(true, Some(9)), snapshot.print_out(true, Some(9)));
    assert_eq!(copy.render_line(), snapshot.render_line());
    assert_eq!(copy.recent, snapshot.recent);
}
