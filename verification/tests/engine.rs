use notification_forwarder::client::WebhookError;
use notification_forwarder::config::{AppConfig, FilterMode};
use notification_forwarder::engine::{
    after_test, wait_step, ActionEffects, ActionStep, Changed, Engine, Next,
};
use notification_forwarder::gui::GuiAction;
use notification_forwarder::observer::MonitorEvent;
use notification_forwarder::scanner::BannerSnapshot;
use notification_forwarder::session::{
    first_stage, next_stage, show_between, show_first, Input, Shown, Stage,
};
use notification_forwarder::tables::{HeaderTable, NameSet};
use notification_forwarder::tally::{Counts, Verdict};
use notification_forwarder::time::Timestamp;

fn banner(app: &str, texts: &[&str]) -> BannerSnapshot {
    BannerSnapshot {
        ax_id: Some("ABC".to_string()),
        app_name_hint: Some(app.to_string()),
        title_attr: None,
        description_attr: None,
        static_texts: texts.iter().map(|t| t.to_string()).collect(),
    }
}

fn stamp() -> Timestamp {
    Timestamp::new(1_788_895_800, 0, 7 * 3600).unwrap()
}

fn only_whatsapp() -> AppConfig {
    AppConfig {
        filter_mode: FilterMode::Selected,
        allowed_apps: NameSet::from_names(vec!["WhatsApp".to_string()]),
        ..Default::default()
    }
}

fn done(step: ActionStep) -> ActionEffects {
    match step {
        ActionStep::Done(effects) => effects,
        _ => panic!("not done"),
    }
}

fn webhook(url: &str, headers: &[(&str, &str)]) -> GuiAction {
    GuiAction::SetWebhookConfig {
        url: url.to_string(),
        headers: headers.iter().map(|(n, v)| (n.to_string(), v.to_string())).collect(),
    }
}

#[test]
fn a_new_notification_is_forwarded() {
    let mut engine = Engine::new(only_whatsapp());
    let out = engine.process_banner_at(&banner("WhatsApp", &["Niles", "AAA"]), stamp(), 0);
    assert_eq!(out.verdict, Verdict::Forwarded);
    assert_eq!(out.lines, vec!["🔔 WhatsApp — Niles"]);
    let payload = out.payload.unwrap();
    assert_eq!(payload.app_name, "WhatsApp");
    assert_eq!(payload.title, "Niles");
    assert_eq!(payload.message, "AAA");
    assert_eq!(payload.notification_id, Some("ABC".to_string()));
    assert_eq!(payload.timestamp, "2026-09-09T02:30:00+07:00");
    assert_eq!(engine.counts(), Counts { today: 1, forwarded: 1, duplicates: 0, filtered: 0 });
}

#[test]
fn a_visible_banner_is_forwarded_once() {
    let mut engine = Engine::new(AppConfig::default());
    let b = banner("WhatsApp", &["Niles", "AAA"]);
    let ttl = 900_000_000_000;
    assert_eq!(engine.process_banner_at(&b, stamp(), 5).verdict, Verdict::Forwarded);
    let again = engine.process_banner_at(&b, stamp(), 4 + ttl);
    assert_eq!(again.verdict, Verdict::Duplicate);
    assert_eq!(again.lines, vec!["🔔 WhatsApp — Niles", "  duplicate ignored"]);
    assert!(again.payload.is_none());
    assert_eq!(engine.process_banner_at(&b, stamp(), 5 + ttl).verdict, Verdict::Forwarded);
    assert_eq!(engine.counts(), Counts { today: 3, forwarded: 2, duplicates: 1, filtered: 0 });
}

#[test]
fn changed_content_in_the_same_element_is_new() {
    let mut engine = Engine::new(AppConfig::default());
    for text in ["AAA", "BBB", "CCC"] {
        let out = engine.process_banner_at(&banner("WhatsApp", &["Niles", text]), stamp(), 0);
        assert_eq!(out.verdict, Verdict::Forwarded);
    }
}

#[test]
fn what_is_not_allowed_is_filtered_and_not_recorded() {
    let mut engine = Engine::new(only_whatsapp());
    let b = banner("Slack", &["Bob", "hi"]);
    for _ in 0..2 {
        let out = engine.process_banner_at(&b, stamp(), 0);
        assert_eq!(out.verdict, Verdict::Filtered);
        assert_eq!(out.lines, vec!["🔔 Slack — Bob", "  filtered (app not allowed): Slack"]);
        assert!(out.payload.is_none());
    }
    assert_eq!(engine.counts(), Counts { today: 2, forwarded: 0, duplicates: 0, filtered: 2 });
}

#[test]
fn an_empty_banner_leaves_no_trace() {
    let mut engine = Engine::new(AppConfig::default());
    let out = engine.process_banner_at(&banner("Mail", &[" "]), stamp(), 0);
    assert_eq!(out.verdict, Verdict::Empty);
    assert!(out.record.is_none());
    assert!(out.lines.is_empty());
    assert!(out.payload.is_none());
    assert_eq!(engine.counts(), Counts::default());
}

#[test]
fn without_forwarding_nothing_is_for_the_webhook() {
    let config = AppConfig { forwarding_enabled: false, ..Default::default() };
    let mut engine = Engine::new(config);
    let out = engine.process_banner_at(&banner("Mail", &["T"]), stamp(), 0);
    assert_eq!(out.verdict, Verdict::Forwarded);
    assert!(out.payload.is_none());
    assert_eq!(engine.counts().forwarded, 1);
}

#[test]
fn the_log_says_more_only_for_diagnosis() {
    let mut engine = Engine::new(AppConfig::default());
    let record = engine.process_banner_at(&banner("Mail", &["T", "M"]), stamp(), 0).record.unwrap();
    assert_eq!(record.app_name, "Mail");
    assert_eq!(record.title, None);
    assert_eq!(record.ax_id, None);
    let config = AppConfig { diagnostic_logging: true, ..Default::default() };
    let mut engine = Engine::new(config);
    let record = engine.process_banner_at(&banner("Mail", &["T", "M"]), stamp(), 0).record.unwrap();
    assert_eq!(record.title, Some("T".to_string()));
    assert_eq!(record.ax_id, Some("ABC".to_string()));
}

#[test]
fn a_scan_is_handled_in_order() {
    let mut engine = Engine::new(only_whatsapp());
    let banners = vec![
        banner("WhatsApp", &["A"]),
        banner("Slack", &["B"]),
        banner("WhatsApp", &["A"]),
        banner("WhatsApp", &[]),
    ];
    let readings = vec![(stamp(), 1), (stamp(), 2), (stamp(), 3), (stamp(), 4)];
    let verdicts: Vec<Verdict> =
        engine.process_banners_at(&banners, &readings).iter().map(|o| o.verdict).collect();
    assert_eq!(
        verdicts,
        vec![Verdict::Forwarded, Verdict::Filtered, Verdict::Duplicate, Verdict::Empty]
    );
    assert_eq!(engine.counts(), Counts { today: 3, forwarded: 1, duplicates: 1, filtered: 1 });
    let outcomes = engine.process_banners(&vec![banner("WhatsApp", &["C"])]);
    assert_eq!(outcomes[0].verdict, Verdict::Forwarded);
}

#[test]
fn the_status_in_full() {
    let config = AppConfig {
        webhook_headers: HeaderTable::from_pairs(vec![("A".to_string(), "1".to_string())]),
        ..only_whatsapp()
    };
    let mut engine = Engine::new(config);
    for i in 0..22u32 {
        let text = i.to_string();
        engine.process_banner_at(&banner("WhatsApp", &["T", &text]), stamp(), 0);
    }
    engine.process_banner_at(&banner("WhatsApp", &["T", "0"]), stamp(), 0);
    engine.process_banner_at(&banner("Slack", &["T"]), stamp(), 0);
    let s = engine.status(true, false, Some(9), false);
    assert!(s.monitoring);
    assert_eq!((s.today, s.forwarded, s.duplicates, s.filtered), (24, 22, 1, 1));
    assert_eq!(s.accessibility, "✓ Enabled");
    assert!(!s.needs_permission);
    assert_eq!(s.notification_center, "✓ Connected (pid 9)");
    assert_eq!(s.webhook, "Ready · 1 custom header");
    let recent: Vec<&str> = s.recent.iter().map(|r| r.message.as_str()).collect();
    assert_eq!(recent, vec!["21", "20", "19", "18", "17", "16", "15", "14"]);
    assert_eq!(s.recent[0].app, "WhatsApp");
    assert_eq!(s.recent[0].title, "T");
    assert_eq!(s.filter_mode, FilterMode::Selected);
    assert!(!s.exiting);
}

#[test]
fn the_status_of_an_idle_engine() {
    let engine = Engine::new(AppConfig::default());
    let s = engine.status(false, false, None, true);
    assert!(!s.monitoring);
    assert_eq!(s.accessibility, "✗ Permission required");
    assert!(s.needs_permission);
    assert_eq!(s.notification_center, "✗ Not found");
    assert_eq!(s.webhook, "Ready · 0 custom headers");
    assert!(s.recent.is_empty());
    assert!(s.exiting);
    assert!(!engine.status(true, true, None, false).monitoring);
}

#[test]
fn banners_are_passed_over_while_paused() {
    let mut engine = Engine::new(AppConfig::default());
    let effects = engine.on_event(MonitorEvent::Banners(vec![banner("A", &["T"])]), true, true);
    assert!(effects.outcomes.is_empty());
    assert!(!effects.show_status);
    assert_eq!(engine.counts(), Counts::default());
}

#[test]
fn banners_of_an_event_are_handled() {
    let mut engine = Engine::new(AppConfig::default());
    let effects = engine.on_event(MonitorEvent::Banners(vec![banner("A", &["T"])]), true, false);
    assert_eq!(effects.outcomes.len(), 1);
    assert!(effects.show_status);
    assert_eq!(effects.next, Next::Continue);
    let effects = engine.on_event(MonitorEvent::Banners(vec![banner("A", &[])]), true, false);
    assert!(!effects.show_status);
}

#[test]
fn other_events() {
    let mut engine = Engine::new(AppConfig::default());
    let effects = engine.on_event(MonitorEvent::Reconnected { pid: -1 }, false, false);
    assert_eq!(effects.lines, vec!["↻ Notification Center reconnected."]);
    assert!(effects.show_status);
    assert_eq!(effects.next, Next::Continue);
    let effects = engine.on_event(MonitorEvent::PermissionRevoked, true, false);
    assert_eq!(effects.lines, vec!["⚠️ Accessibility permission revoked."]);
    assert!(!effects.show_status);
    assert_eq!(effects.next, Next::WaitForPermission);
    let effects = engine.on_event(MonitorEvent::PermissionRevoked, false, false);
    assert_eq!(effects.next, Next::Quit);
}

#[test]
fn waiting_for_the_permission() {
    let step = wait_step(true, true);
    assert!(step.ready && !step.show_status && step.lines.is_empty());
    let step = wait_step(true, false);
    assert!(!step.ready && step.show_status);
    assert_eq!(
        step.lines,
        vec!["⚠️ Accessibility permission required. System Settings → Privacy & Security → Accessibility."]
    );
    let step = wait_step(false, false);
    assert!(!step.ready && !step.show_status && step.lines.is_empty());
    let step = wait_step(false, true);
    assert!(step.ready && step.show_status);
    assert_eq!(step.lines, vec!["✓ Accessibility permission granted."]);
}

#[test]
fn pausing_and_resuming() {
    let mut engine = Engine::new(AppConfig::default());
    let effects = done(engine.begin_action(GuiAction::TogglePause, false));
    assert_eq!(effects.paused, Some(true));
    assert_eq!(effects.lines, vec!["○ Monitoring paused."]);
    assert!(effects.show_status && !effects.quit);
    let effects = done(engine.begin_action(GuiAction::TogglePause, true));
    assert_eq!(effects.paused, Some(false));
    assert_eq!(effects.lines, vec!["● Monitoring resumed."]);
}

#[test]
fn quitting() {
    let mut engine = Engine::new(AppConfig::default());
    let effects = done(engine.begin_action(GuiAction::Quit, false));
    assert!(effects.quit && !effects.show_status && effects.lines.is_empty());
}

#[test]
fn actions_that_look_outside() {
    let mut engine = Engine::new(AppConfig::default());
    assert!(matches!(engine.begin_action(GuiAction::DumpTree, false), ActionStep::DumpTree));
    assert!(matches!(
        engine.begin_action(GuiAction::TestDetection, false),
        ActionStep::TestDetection
    ));
    match engine.begin_action(GuiAction::TestWebhook, false) {
        ActionStep::SendTest { line, payload } => {
            assert_eq!(line, "Testing webhook…");
            assert_eq!(payload.title, "Test");
            assert_eq!(payload.app_name, "Notification Forwarder");
        }
        _ => panic!("no test"),
    }
    assert_eq!(after_test(&Ok(204)).lines, vec!["✅ Webhook OK (status 204)"]);
    let effects = after_test(&Err(WebhookError::Status(404)));
    assert_eq!(effects.lines, vec!["❌ Webhook failed: unexpected status: 404"]);
    assert!(effects.show_status && !effects.quit);
}

#[test]
fn webhook_settings_are_checked() {
    let mut engine = Engine::new(AppConfig::default());
    let effects = done(engine.begin_action(webhook("  ", &[]), false));
    assert_eq!(effects.lines, vec!["❌ Webhook URL is empty; not saved."]);
    let effects = done(engine.begin_action(webhook("https://h", &[("a b", "1")]), false));
    assert_eq!(effects.lines, vec!["❌ Headers not saved: invalid header name `a b`"]);
    assert_eq!(engine.configuration().webhook_url, "");
    assert_eq!(engine.configuration().webhook_headers.len(), 0);
}

#[test]
fn webhook_settings_come_into_force_once_saved() {
    let mut engine = Engine::new(AppConfig::default());
    let action = webhook(" https://h ", &[("X-B", "1"), ("X-A", "2"), ("X-B", "3")]);
    assert!(matches!(engine.begin_action(action, false), ActionStep::Save(Changed::Webhook)));
    assert_eq!(engine.configuration().webhook_url, "https://h");
    assert_eq!(engine.webhook().url(), "");
    let effects = engine.after_save(Changed::Webhook, Ok(()));
    assert_eq!(effects.lines, vec!["Webhook settings saved (2 custom headers)."]);
    assert!(effects.show_status);
    assert_eq!(engine.webhook().url(), "https://h");
    assert_eq!(engine.webhook().headers().get("x-b").unwrap(), "3");
    let action = webhook("https://h", &[("X-A", "2")]);
    engine.begin_action(action, false);
    let effects = engine.after_save(Changed::Webhook, Ok(()));
    assert_eq!(effects.lines, vec!["Webhook settings saved (1 custom header)."]);
}

#[test]
fn a_filter_comes_into_force_even_if_it_cannot_be_saved() {
    let mut engine = Engine::new(AppConfig::default());
    assert!(engine.app_filter().allows("Slack"));
    let action = GuiAction::SetFilter {
        mode: FilterMode::Selected,
        allowed: vec!["Mail".to_string(), "Mail".to_string()],
    };
    assert!(matches!(engine.begin_action(action, false), ActionStep::Save(Changed::Filter)));
    assert!(engine.app_filter().allows("Slack"));
    let effects = engine.after_save(Changed::Filter, Err("disk full".to_string()));
    assert_eq!(effects.lines, vec!["❌ Save failed: disk full"]);
    assert!(!engine.app_filter().allows("Slack"));
    assert!(engine.app_filter().allows("mail"));
    assert_eq!(engine.configuration().allowed_apps.len(), 1);
    assert_eq!(
        engine.after_save(Changed::Filter, Ok(())).lines,
        vec!["Application filter saved."]
    );
}

#[test]
fn a_change_of_settings_keeps_what_was_seen() {
    let mut engine = Engine::new(AppConfig::default());
    let b = banner("WhatsApp", &["Niles", "AAA"]);
    engine.process_banner_at(&b, stamp(), 0);
    engine.rebuild();
    assert_eq!(engine.process_banner_at(&b, stamp(), 1).verdict, Verdict::Duplicate);
    assert_eq!(engine.counts().today, 2);
    assert!(engine.has_room(10));
}

/// The stages of a session with these inputs.
fn session(inputs: &[Input]) -> Vec<Stage> {
    let mut stages = vec![first_stage()];
    for input in inputs {
        stages.push(next_stage(*stages.last().unwrap(), *input));
    }
    stages
}

#[test]
fn a_session_from_start_to_end() {
    assert_eq!(
        session(&[
            Input::Trusted(true),
            Input::Started,
            Input::Observed(Next::Continue),
            Input::Acted { quit: false },
            Input::Acted { quit: true },
            Input::Elapsed,
        ]),
        vec![
            Stage::Look { first: true },
            Stage::Start,
            Stage::Listen,
            Stage::Listen,
            Stage::Listen,
            Stage::End,
            Stage::End,
        ]
    );
}

#[test]
fn a_session_waits_for_the_permission() {
    assert_eq!(
        session(&[
            Input::Trusted(false),
            Input::Trusted(false),
            Input::Elapsed,
            Input::Trusted(false),
            Input::Acted { quit: false },
            Input::Trusted(true),
            Input::Started,
            Input::Observed(Next::WaitForPermission),
        ]),
        vec![
            Stage::Look { first: true },
            Stage::Look { first: false },
            Stage::Idle,
            Stage::Look { first: false },
            Stage::Idle,
            Stage::Look { first: false },
            Stage::Start,
            Stage::Listen,
            Stage::Look { first: true },
        ]
    );
}

#[test]
fn what_ends_a_session() {
    assert_eq!(next_stage(Stage::Listen, Input::Observed(Next::Quit)), Stage::End);
    assert_eq!(next_stage(Stage::Listen, Input::WindowGone), Stage::End);
    assert_eq!(next_stage(Stage::Idle, Input::WindowGone), Stage::End);
    assert_eq!(next_stage(Stage::Idle, Input::Acted { quit: true }), Stage::End);
    assert_eq!(next_stage(Stage::Listen, Input::ObserverGone), Stage::Look { first: true });
}

/// What is shown, in words.
fn words(row: Vec<Shown>) -> Vec<String> {
    row.into_iter()
        .map(|one| match one {
            Shown::Line(line) => line,
            Shown::Status { exiting } => format!("<status {exiting}>"),
            Shown::PermissionScreen => "<permission>".to_string(),
        })
        .collect()
}

#[test]
fn what_a_session_shows() {
    let shown = |stage: Stage, input: Input| words(show_between(stage, input));
    let nothing: Vec<String> = vec![];
    assert_eq!(words(show_first()), vec!["<status false>"]);
    assert_eq!(
        shown(Stage::Look { first: true }, Input::Trusted(true)),
        vec!["Monitoring started.", "<status false>"]
    );
    assert_eq!(
        shown(Stage::Look { first: true }, Input::Trusted(false)),
        vec![
            "⚠️ Accessibility permission required. System Settings → Privacy & Security → Accessibility.",
            "<status false>",
        ]
    );
    assert_eq!(
        shown(Stage::Look { first: false }, Input::Trusted(true)),
        vec![
            "✓ Accessibility permission granted.",
            "<status false>",
            "Monitoring started.",
            "<status false>",
        ]
    );
    assert_eq!(shown(Stage::Look { first: false }, Input::Trusted(false)), nothing);
    assert_eq!(shown(Stage::Idle, Input::Elapsed), vec!["<status false>"]);
    assert_eq!(shown(Stage::Idle, Input::Acted { quit: false }), nothing);
    assert_eq!(shown(Stage::Start, Input::Started), nothing);
    assert_eq!(shown(Stage::Listen, Input::Observed(Next::Continue)), nothing);
    assert_eq!(shown(Stage::Listen, Input::ObserverGone), nothing);
}

#[test]
fn what_a_session_shows_at_its_end() {
    let shown = |stage: Stage, input: Input| words(show_between(stage, input));
    assert_eq!(
        shown(Stage::Listen, Input::Observed(Next::Quit)),
        vec!["<permission>", "<status true>"]
    );
    assert_eq!(shown(Stage::Listen, Input::WindowGone), vec!["<status true>"]);
    assert_eq!(shown(Stage::Idle, Input::Acted { quit: true }), vec!["<status true>"]);
    assert_eq!(shown(Stage::End, Input::WindowGone), Vec::<String>::new());
}
