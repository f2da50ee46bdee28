use notification_forwarder::config::FilterMode;
use notification_forwarder::gui::{
    allowed_apps_text, filter_request, header_editor_text, parse_allowed_apps, parse_header_lines,
    webhook_request, GuiAction, GuiEvent, GuiStatus, RecentItem,
};
use notification_forwarder::tables::{HeaderTable, NameSet};
use notification_forwarder::window::{hidden_tabs, ControllerState, Drained, Tint};

fn pair(name: &str, value: &str) -> (String, String) {
    (name.to_string(), value.to_string())
}

fn status(monitoring: bool) -> GuiStatus {
    GuiStatus {
        monitoring,
        today: 12,
        forwarded: 7,
        duplicates: 3,
        filtered: 2,
        accessibility: "✓ Enabled".to_string(),
        needs_permission: false,
        notification_center: "✓ Connected (pid 9)".to_string(),
        webhook: "Ready · 0 custom headers".to_string(),
        recent: vec![],
        filter_mode: FilterMode::Selected,
        exiting: false,
    }
}

fn item(app: &str, title: &str, message: &str) -> RecentItem {
    RecentItem { app: app.to_string(), title: title.to_string(), message: message.to_string() }
}

fn log(line: &str) -> GuiEvent {
    GuiEvent::Log(line.to_string())
}

#[test]
fn parses_header_editor_lines() {
    let headers =
        parse_header_lines("Authorization: Bearer secret\nX-Source: Notification Forwarder\n\n")
            .unwrap();
    assert_eq!(headers.len(), 2);
    assert_eq!(headers[0].0, "Authorization");
    assert_eq!(headers[0].1, "Bearer secret");
}

#[test]
fn rejects_header_line_without_colon() {
    let error = parse_header_lines("Authorization Bearer secret").unwrap_err();
    assert!(error.contains("Line 1"));
}

#[test]
fn faults_in_the_header_editor() {
    assert_eq!(
        parse_header_lines("A: 1\n\nB 2\n: 3").unwrap_err(),
        "Line 3 needs a colon between name and value."
    );
    assert_eq!(
        parse_header_lines("\n\n\n\n\n\n\n\n\n : 3\nB 2").unwrap_err(),
        "Line 10 has an empty header name."
    );
}

#[test]
fn lines_of_the_header_editor_are_trimmed() {
    assert_eq!(
        parse_header_lines("  A :  b:c \r\n\t\r\nE:").unwrap(),
        vec![pair("A", "b:c"), pair("E", "")]
    );
    assert_eq!(parse_header_lines("").unwrap(), vec![]);
}

#[test]
fn the_header_editor_shows_what_it_reads() {
    let table = HeaderTable::from_pairs(vec![
        pair("X-Source", "a: b"),
        pair("Authorization", "Bearer x"),
        pair("X-Empty", ""),
    ]);
    let text = header_editor_text(&table);
    assert_eq!(text, "Authorization: Bearer x\nX-Empty: \nX-Source: a: b");
    assert_eq!(&parse_header_lines(&text).unwrap(), table.entries());
    assert_eq!(header_editor_text(&HeaderTable::new()), "");
}

#[test]
fn allowed_apps_are_read_between_commas() {
    assert_eq!(parse_allowed_apps(" WhatsApp, ,Messages,,Slack "), vec!["WhatsApp", "Messages", "Slack"]);
    assert_eq!(parse_allowed_apps(""), Vec::<String>::new());
}

#[test]
fn the_field_of_allowed_apps_shows_what_it_reads() {
    let names = vec!["WhatsApp".to_string(), "Notes app".to_string()];
    let text = allowed_apps_text(&NameSet::from_names(names.clone()));
    assert_eq!(text, "WhatsApp, Notes app");
    assert_eq!(parse_allowed_apps(&text), names);
}

#[test]
fn requests_of_the_fields() {
    match filter_request(FilterMode::Selected, "a, b") {
        GuiAction::SetFilter { mode, allowed } => {
            assert_eq!(mode, FilterMode::Selected);
            assert_eq!(allowed, vec!["a", "b"]);
        }
        other => panic!("{other:?}"),
    }
    match webhook_request(" https://h ", "A: 1").unwrap() {
        GuiAction::SetWebhookConfig { url, headers } => {
            assert_eq!(url, " https://h ");
            assert_eq!(headers, vec![pair("A", "1")]);
        }
        other => panic!("{other:?}"),
    }
    assert_eq!(
        webhook_request("https://h", "A").unwrap_err(),
        "Line 1 needs a colon between name and value."
    );
}

#[test]
fn the_console_keeps_the_newest_lines() {
    let mut state = ControllerState::new();
    assert_eq!(state.console_text(), "");
    let events: Vec<GuiEvent> = (0..405).map(|i| log(&i.to_string())).collect();
    assert_eq!(
        state.drain_events(&events),
        Drained::Refresh { log_changed: true, status_changed: false }
    );
    let text = state.console_text();
    let lines: Vec<&str> = text.lines().collect();
    assert_eq!(lines.len(), 400);
    assert_eq!(lines[0], "5");
    assert_eq!(lines[399], "404");
}

#[test]
fn events_change_what_they_are_about() {
    let mut state = ControllerState::new();
    assert_eq!(
        state.drain_events(&vec![]),
        Drained::Refresh { log_changed: false, status_changed: false }
    );
    assert_eq!(state.current_mode(), FilterMode::All);
    assert_eq!(
        state.drain_events(&vec![GuiEvent::Status(status(true))]),
        Drained::Refresh { log_changed: false, status_changed: true }
    );
    assert_eq!(state.current_mode(), FilterMode::Selected);
}

#[test]
fn nothing_is_taken_in_behind_the_end() {
    let mut state = ControllerState::new();
    let end = GuiStatus { exiting: true, filter_mode: FilterMode::Selected, ..status(true) };
    let events = vec![log("a"), GuiEvent::Status(end), log("b")];
    assert_eq!(state.drain_events(&events), Drained::Exit);
    assert_eq!(state.console_text(), "a");
    assert_eq!(state.current_mode(), FilterMode::All);
}

#[test]
fn the_permission_is_asked_for_once() {
    let mut state = ControllerState::new();
    assert!(state.take_prompt(false));
    assert!(!state.take_prompt(false));
    let mut state = ControllerState::new();
    assert!(!state.take_prompt(true));
    assert!(!state.take_prompt(false));
}

#[test]
fn launching_ends_once() {
    let mut state = ControllerState::new();
    assert!(!state.launched());
    state.finish_launch();
    assert!(state.launched());
}

#[test]
fn the_window_without_the_permission() {
    let view = ControllerState::new().window_view(false);
    assert!(!view.settings_hidden);
    assert!(view.pause_hidden);
    assert_eq!(view.badge, "⚠️ Permission Required");
    assert_eq!(view.tint, Tint::Red);
    assert_eq!(
        view.status_line,
        "Notification Forwarder needs Accessibility permission to observe notifications."
    );
    assert_eq!(
        view.sub_line,
        "System Settings → Privacy & Security → Accessibility → enable NotificationForwarder"
    );
    assert_eq!(view.tray_status, "⚠ Permission required");
    assert_eq!(view.tooltip, "Notification Forwarder — Accessibility permission required");
    assert!(view.pause_titles.is_none());
    assert!(view.details.is_none());
}

#[test]
fn the_window_before_the_first_status() {
    let view = ControllerState::new().window_view(true);
    assert!(view.settings_hidden);
    assert!(!view.pause_hidden);
    assert_eq!(view.badge, "● Monitoring Active");
    assert_eq!(view.tint, Tint::Green);
    assert_eq!(view.status_line, "Forwarding incoming notifications to webhook endpoint");
    assert_eq!(view.sub_line, "AX ✓ Enabled · NC Connecting… · Webhook Ready");
    assert_eq!(view.tray_status, "● Monitoring");
    assert_eq!(view.tooltip, "Notification Forwarder — Monitoring Active");
    assert_eq!(view.pause_titles, Some(pair("Pause", "Pause Monitoring")));
    assert!(view.details.is_none());
}

#[test]
fn the_window_while_monitoring() {
    let mut state = ControllerState::new();
    let mut s = status(true);
    s.recent = vec![item("Mail", "Bob", ""), item("WhatsApp", "Niles", "AAA")];
    state.drain_events(&vec![GuiEvent::Status(s)]);
    let view = state.window_view(true);
    assert_eq!(view.badge, "● Monitoring Active");
    assert_eq!(
        view.sub_line,
        "AX ✓ Enabled · NC ✓ Connected (pid 9) · Webhook Ready · 0 custom headers"
    );
    assert_eq!(view.tray_status, "● Monitoring · 12 today");
    let details = view.details.unwrap();
    assert_eq!(details.forwarded, "7");
    assert_eq!(details.today, "12");
    assert_eq!(details.duplicates, "3");
    assert_eq!(details.filtered, "2");
    assert_eq!(details.mode_line, "Mode: selected only");
    assert_eq!(details.webhook_result, "Ready · 0 custom headers");
    assert_eq!(details.recent, "• Mail — Bob\n\n• WhatsApp — Niles\n  AAA");
}

#[test]
fn the_window_while_paused() {
    let mut state = ControllerState::new();
    let s = GuiStatus { filter_mode: FilterMode::All, ..status(false) };
    state.drain_events(&vec![GuiEvent::Status(s)]);
    let view = state.window_view(true);
    assert_eq!(view.badge, "○ Monitoring Paused");
    assert_eq!(view.tint, Tint::Orange);
    assert_eq!(view.status_line, "Notification monitoring is temporarily paused");
    assert_eq!(view.tray_status, "○ Paused · 12 today");
    assert_eq!(view.tooltip, "Notification Forwarder — Monitoring Paused");
    assert_eq!(view.pause_titles, Some(pair("Resume", "Resume Monitoring")));
    let details = view.details.unwrap();
    assert_eq!(details.mode_line, "Mode: all applications");
    assert_eq!(
        details.recent,
        "No notifications detected yet.\n\nWhen apps (e.g. WhatsApp, Messages) receive notifications, they will appear here."
    );
}

#[test]
fn one_tab_is_shown() {
    assert_eq!(hidden_tabs(0), (false, true, true));
    assert_eq!(hidden_tabs(1), (true, false, true));
    assert_eq!(hidden_tabs(2), (true, true, false));
    assert_eq!(hidden_tabs(-1), (true, true, true));
}
