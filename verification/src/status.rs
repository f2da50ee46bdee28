//! The status of the program as text.

use crate::config;
use crate::config::{sanitize_url_for_logging, AppConfig};
use crate::model;
use crate::model::{Notification, NotificationView};
use crate::rows;
use crate::text;
use crate::text::{decimal_text, signed_decimal_text};
use vstd::prelude::*;
use vstd::string::*;

verus! {

/// The status at a point in time.
#[derive(Debug)]
pub struct StatusSnapshot {
    pub monitoring: bool,
    pub accessibility: &'static str,
    pub notification_center: &'static str,
    pub webhook: &'static str,
    pub notifications_today: u64,
    pub forwarded: u64,
    pub duplicates: u64,
    pub filtered: u64,
    pub recent: Vec<Notification>,
    pub webhook_url_redacted: String,
}

impl Default for StatusSnapshot {
    fn default() -> (r: StatusSnapshot)
        ensures
            !r.monitoring,
            r.accessibility@ == ""@,
            r.notification_center@ == ""@,
            r.webhook@ == ""@,
            r.notifications_today == 0,
            r.forwarded == 0,
            r.duplicates == 0,
            r.filtered == 0,
            r.recent@ == Seq::<Notification>::empty(),
            r.webhook_url_redacted@ == Seq::<char>::empty(),
    {
        StatusSnapshot {
            monitoring: false,
            accessibility: "",
            notification_center: "",
            webhook: "",
            notifications_today: 0,
            forwarded: 0,
            duplicates: 0,
            filtered: 0,
            recent: Vec::new(),
            webhook_url_redacted: String::new(),
        }
    }
}

impl Clone for StatusSnapshot {
    fn clone(&self) -> (r: StatusSnapshot)
        ensures
            r.monitoring == self.monitoring,
            r.accessibility@ == self.accessibility@,
            r.notification_center@ == self.notification_center@,
            r.webhook@ == self.webhook@,
            r.notifications_today == self.notifications_today,
            r.forwarded == self.forwarded,
            r.duplicates == self.duplicates,
            r.filtered == self.filtered,
            model::notification_views(r.recent@) == model::notification_views(self.recent@),
            forall|i: int|
                0 <= i < self.recent@.len() ==> (#[trigger] r.recent@[i]).timestamp
                    == self.recent@[i].timestamp,
            r.webhook_url_redacted@ == self.webhook_url_redacted@,
    {
        let ghost all = model::notification_views(self.recent@);
        let mut recent: Vec<Notification> = Vec::new();
        for i in 0..self.recent.len()
            invariant
                all == model::notification_views(self.recent@),
                recent@.len() == i,
                model::notification_views(recent@) == all.take(i as int),
                forall|k: int|
                    0 <= k < i ==> (#[trigger] recent@[k]).timestamp == self.recent@[k].timestamp,
        {
            let ghost before = model::notification_views(recent@);
            let one = self.recent[i].clone();
            recent.push(one);
            assert(model::notification_views(recent@) =~= before.push(one@));
            assert(all.take(i + 1) =~= all.take(i as int).push(all[i as int]));
        }
        assert(all.take(self.recent@.len() as int) =~= all);
        StatusSnapshot {
            monitoring: self.monitoring,
            accessibility: self.accessibility,
            notification_center: self.notification_center,
            webhook: self.webhook,
            notifications_today: self.notifications_today,
            forwarded: self.forwarded,
            duplicates: self.duplicates,
            filtered: self.filtered,
            recent,
            webhook_url_redacted: self.webhook_url_redacted.clone(),
        }
    }
}

// ---------------------------------------------------------------------------
// The status screen
// ---------------------------------------------------------------------------

/// What the status screen shows of a notification.
pub open spec fn recent_entry(n: NotificationView) -> Seq<char> {
    "\n"@ + n.app_name + "\n"@ + n.title + "\n"@ + n.message + "\n"@
}

/// What the status screen shows of a list of notifications.
pub open spec fn recent_entries(list: Seq<NotificationView>) -> Seq<char>
    decreases list.len(),
{
    if list.len() == 0 {
        Seq::empty()
    } else {
        recent_entries(list.drop_last()) + recent_entry(list.last())
    }
}

/// Whether this is the status of a program that is not running its monitor.
pub open spec fn idle_status(
    s: StatusSnapshot,
    config: AppConfig,
    trusted: bool,
    pid: Option<i32>,
) -> bool {
    &&& s.monitoring == (trusted && pid is Some)
    &&& s.accessibility@ == (if trusted {
        "✓ Enabled"@
    } else {
        "✗ Missing"@
    })
    &&& s.notification_center@ == (if pid is Some {
        "✓ Connected"@
    } else {
        "✗ Not found"@
    })
    &&& s.webhook@ == "Not tested (run --test-webhook)"@
    &&& s.notifications_today == 0
    &&& s.forwarded == 0
    &&& s.duplicates == 0
    &&& s.filtered == 0
    &&& s.recent@ == Seq::<Notification>::empty()
    &&& s.webhook_url_redacted@ == config::sanitized(config.webhook_url@)
}

impl StatusSnapshot {
    /// The part of the status screen about the connections.
    pub open spec fn connections_text(&self) -> Seq<char> {
        let title = "Notification Forwarder\n"@;
        let state = if self.monitoring {
            "● Monitoring\n"@
        } else {
            "○ Paused\n"@
        };
        title + state + "Accessibility     "@ + self.accessibility@ + "\nNotification      "@
            + self.notification_center@ + "\nWebhook           "@ + self.webhook@ + "\n"@
    }

    /// The part of the status screen about the counts.
    pub open spec fn counts_text(&self) -> Seq<char> {
        "\nNotifications today\n"@ + text::decimal(self.notifications_today as nat)
            + "\n(forwarded "@ + text::decimal(self.forwarded as nat) + ", duplicates "@
            + text::decimal(self.duplicates as nat) + ", filtered "@ + text::decimal(
            self.filtered as nat,
        ) + ")\n"@
    }

    /// The status screen.
    pub open spec fn screen_text(&self) -> Seq<char> {
        self.connections_text() + self.counts_text() + "\nRecent\n"@ + recent_entries(
            rows::first(model::notification_views(self.recent@), 5),
        )
    }

    /// The text of the menu.
    pub open spec fn menu_text(&self) -> Seq<char> {
        let state = if self.monitoring {
            "Notification Forwarder\n\n● Monitoring\n\nNotifications: "@
        } else {
            "Notification Forwarder\n\n○ Monitoring\n\nNotifications: "@
        };
        state + text::decimal(self.notifications_today as nat) + "\nWebhook: "@ + self.webhook@
            + "\n\nOpen\nSettings\nLogs\n\nQuit\n"@
    }

    /// The status in one line.
    pub open spec fn line_text(&self) -> Seq<char> {
        let state = if self.monitoring {
            "● Monitoring · "@
        } else {
            "○ Monitoring · "@
        };
        state + text::decimal(self.notifications_today as nat) + " today ("@ + text::decimal(
            self.forwarded as nat,
        ) + " forwarded)"@
    }

    fn render_connections(&self) -> (r: String)
        ensures
            r@ == self.connections_text(),
    {
        let mut out = "Notification Forwarder\n".to_string();
        if self.monitoring {
            out.append("● Monitoring\n");
        } else {
            out.append("○ Paused\n");
        }
        out.append("Accessibility     ");
        out.append(self.accessibility);
        out.append("\nNotification      ");
        out.append(self.notification_center);
        out.append("\nWebhook           ");
        out.append(self.webhook);
        out.append("\n");
        out
    }

    fn render_counts(&self) -> (r: String)
        ensures
            r@ == self.counts_text(),
    {
        let mut out = "\nNotifications today\n".to_string();
        let today = decimal_text(self.notifications_today);
        let forwarded = decimal_text(self.forwarded);
        let duplicates = decimal_text(self.duplicates);
        let filtered = decimal_text(self.filtered);
        out.append(today.as_str());
        out.append("\n(forwarded ");
        out.append(forwarded.as_str());
        out.append(", duplicates ");
        out.append(duplicates.as_str());
        out.append(", filtered ");
        out.append(filtered.as_str());
        out.append(")\n");
        out
    }

    fn render_recent(&self) -> (r: String)
        ensures
            r@ == recent_entries(rows::first(model::notification_views(self.recent@), 5)),
    {
        let count: usize = if self.recent.len() < 5 {
            self.recent.len()
        } else {
            5
        };
        let ghost all = rows::first(model::notification_views(self.recent@), 5);
        let mut out = String::new();
        for i in 0..count
            invariant
                count == all.len(),
                count <= self.recent@.len(),
                all == rows::first(model::notification_views(self.recent@), 5),
                out@ == recent_entries(all.take(i as int)),
        {
            let n = &self.recent[i];
            let mut entry = "\n".to_string();
            entry.append(n.app_name.as_str());
            entry.append("\n");
            entry.append(n.title.as_str());
            entry.append("\n");
            entry.append(n.message.as_str());
            entry.append("\n");
            assert(all[i as int] == n@);
            assert(entry@ == recent_entry(n@));
            assert(all.take(i + 1).drop_last() =~= all.take(i as int));
            out.append(entry.as_str());
        }
        assert(all.take(count as int) =~= all);
        out
    }

    /// The status screen, with the first five recent notifications.
    pub fn render_text(&self) -> (r: String)
        ensures
            r@ == self.screen_text(),
    {
        let mut out = self.render_connections();
        let counts = self.render_counts();
        out.append(counts.as_str());
        out.append("\nRecent\n");
        let recent = self.render_recent();
        out.append(recent.as_str());
        out
    }

    /// The text of the menu.
    pub fn render_menu(&self) -> (r: String)
        ensures
            r@ == self.menu_text(),
    {
        let mut out = if self.monitoring {
            "Notification Forwarder\n\n● Monitoring\n\nNotifications: ".to_string()
        } else {
            "Notification Forwarder\n\n○ Monitoring\n\nNotifications: ".to_string()
        };
        let today = decimal_text(self.notifications_today);
        out.append(today.as_str());
        out.append("\nWebhook: ");
        out.append(self.webhook);
        out.append("\n\nOpen\nSettings\nLogs\n\nQuit\n");
        out
    }

    /// The status in one line.
    pub fn render_line(&self) -> (r: String)
        ensures
            r@ == self.line_text(),
    {
        let mut out = if self.monitoring {
            "● Monitoring · ".to_string()
        } else {
            "○ Monitoring · ".to_string()
        };
        let today = decimal_text(self.notifications_today);
        out.append(today.as_str());
        out.append(" today (");
        let forwarded = decimal_text(self.forwarded);
        out.append(forwarded.as_str());
        out.append(" forwarded)");
        out
    }

    /// The status of a program that is not running its monitor: whether it
    /// could, and where it would forward to. The webhook is not tried.
    pub fn idle(config: &AppConfig, trusted: bool, pid: Option<i32>) -> (r: StatusSnapshot)
        ensures
            idle_status(r, *config, trusted, pid),
    {
        StatusSnapshot {
            monitoring: trusted && pid.is_some(),
            accessibility: if trusted {
                "✓ Enabled"
            } else {
                "✗ Missing"
            },
            notification_center: if pid.is_some() {
                "✓ Connected"
            } else {
                "✗ Not found"
            },
            webhook: "Not tested (run --test-webhook)",
            notifications_today: 0,
            forwarded: 0,
            duplicates: 0,
            filtered: 0,
            recent: Vec::new(),
            webhook_url_redacted: sanitize_url_for_logging(config.webhook_url.as_str()),
        }
    }

    /// What the status command prints.
    pub open spec fn printed(&self, menu: bool, pid: Option<i32>) -> Seq<char> {
        let with_menu = if menu {
            self.screen_text() + "\n--- menu ---\n"@ + self.menu_text() + "\n"@
        } else {
            self.screen_text() + "\n"@
        };
        let with_url = with_menu + "Webhook URL: "@ + self.webhook_url_redacted@ + "\n"@;
        match pid {
            Some(pid) => with_url + "Notification Center PID: "@ + text::signed_decimal(pid as int)
                + "\n"@,
            None => with_url,
        }
    }

    /// What the status command prints.
    pub fn print_out(&self, menu: bool, pid: Option<i32>) -> (r: String)
        ensures
            r@ == self.printed(menu, pid),
    {
        let mut out = self.render_text();
        if menu {
            out.append("\n--- menu ---\n");
            let text = self.render_menu();
            out.append(text.as_str());
        }
        out.append("\n");
        out.append("Webhook URL: ");
        out.append(self.webhook_url_redacted.as_str());
        out.append("\n");
        if let Some(pid) = pid {
            let number = signed_decimal_text(pid);
            out.append("Notification Center PID: ");
            out.append(number.as_str());
            out.append("\n");
        }
        out
    }
}

// ---------------------------------------------------------------------------
// Laws
// ---------------------------------------------------------------------------

/// The status screen tells the state, the three connections and the four
/// counters, each behind its own label.
pub proof fn law_screen_tells_every_field(s: StatusSnapshot)
    ensures
        s.connections_text() == "Notification Forwarder\n"@ + (if s.monitoring {
            "● Monitoring\n"@
        } else {
            "○ Paused\n"@
        }) + "Accessibility     "@ + s.accessibility@ + "\nNotification      "@
            + s.notification_center@ + "\nWebhook           "@ + s.webhook@ + "\n"@,
        s.counts_text() == "\nNotifications today\n"@ + text::decimal(
            s.notifications_today as nat,
        ) + "\n(forwarded "@ + text::decimal(s.forwarded as nat) + ", duplicates "@
            + text::decimal(s.duplicates as nat) + ", filtered "@ + text::decimal(
            s.filtered as nat,
        ) + ")\n"@,
        text::begins_with(s.screen_text(), s.connections_text() + s.counts_text() + "\nRecent\n"@),
{
    let start = s.connections_text() + s.counts_text() + "\nRecent\n"@;
    text::law_found_text_is_surrounded(
        Seq::empty(),
        start,
        recent_entries(rows::first(model::notification_views(s.recent@), 5)),
    );
}

/// The screen shows the first five notifications, in their order, and nothing of
/// those behind them: application, title and body, a line each.
pub proof fn law_screen_shows_five_notifications(s: StatusSnapshot, list: Seq<NotificationView>)
    requires
        list == model::notification_views(s.recent@),
    ensures
        list.len() <= 5 ==> s.screen_text() == s.connections_text() + s.counts_text()
            + "\nRecent\n"@ + recent_entries(list),
        list.len() > 5 ==> s.screen_text() == s.connections_text() + s.counts_text()
            + "\nRecent\n"@ + recent_entries(list.take(5)),
{
}

/// What the screen shows of a list grows by one entry for each notification.
pub proof fn law_entries_follow_one_another(list: Seq<NotificationView>, n: NotificationView)
    ensures
        recent_entries(Seq::empty()) == Seq::<char>::empty(),
        recent_entries(list.push(n)) == recent_entries(list) + ("\n"@ + n.app_name + "\n"@ + n.title
            + "\n"@ + n.message + "\n"@),
{
    assert(list.push(n).drop_last() =~= list);
}

/// Menu and line tell whether anything is monitored and how much came today.
/// The line tells how much of it was forwarded, the menu how the webhook does.
pub proof fn law_menu_and_line_tell_the_state(s: StatusSnapshot)
    ensures
        s.menu_text() == (if s.monitoring {
            "Notification Forwarder\n\n● Monitoring\n\nNotifications: "@
        } else {
            "Notification Forwarder\n\n○ Monitoring\n\nNotifications: "@
        }) + text::decimal(s.notifications_today as nat) + "\nWebhook: "@ + s.webhook@
            + "\n\nOpen\nSettings\nLogs\n\nQuit\n"@,
        s.line_text() == (if s.monitoring {
            "● Monitoring · "@
        } else {
            "○ Monitoring · "@
        }) + text::decimal(s.notifications_today as nat) + " today ("@ + text::decimal(
            s.forwarded as nat,
        ) + " forwarded)"@,
{
}

/// The status command prints the screen first, the menu only where it was asked
/// for, then the address of the webhook without its secrets, and the process
/// only where there is one.
pub proof fn law_status_command_prints_what_was_asked_for(s: StatusSnapshot, pid: i32)
    ensures
        s.printed(false, None) == s.screen_text() + "\n"@ + "Webhook URL: "@
            + s.webhook_url_redacted@ + "\n"@,
        s.printed(true, None) == s.screen_text() + "\n--- menu ---\n"@ + s.menu_text() + "\n"@
            + "Webhook URL: "@ + s.webhook_url_redacted@ + "\n"@,
        s.printed(false, Some(pid)) == s.printed(false, None) + "Notification Center PID: "@
            + text::signed_decimal(pid as int) + "\n"@,
        s.printed(true, Some(pid)) == s.printed(true, None) + "Notification Center PID: "@
            + text::signed_decimal(pid as int) + "\n"@,
{
}

/// A program that is not running its monitor could where the permission is there
/// and Notification Center was found. It has counted nothing, and the address of
/// its webhook shows no secret.
pub proof fn law_idle_status_tells_what_is_there(
    s: StatusSnapshot,
    config: AppConfig,
    trusted: bool,
    pid: Option<i32>,
)
    requires
        idle_status(s, config, trusted, pid),
    ensures
        s.monitoring <==> trusted && pid is Some,
        trusted ==> s.accessibility@ == "✓ Enabled"@,
        !trusted ==> s.accessibility@ == "✗ Missing"@,
        pid is Some ==> s.notification_center@ == "✓ Connected"@,
        pid is None ==> s.notification_center@ == "✗ Not found"@,
        s.webhook@ == "Not tested (run --test-webhook)"@,
        (s.notifications_today, s.forwarded, s.duplicates, s.filtered) == (0u64, 0u64, 0u64, 0u64),
        s.recent@.len() == 0,
        s.webhook_url_redacted@ == config::sanitized(config.webhook_url@),
{
}

} // verus!
