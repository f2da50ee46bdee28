//! What the window shows, and what it keeps between two events.

use crate::config::FilterMode;
use crate::gui;
use crate::gui::{GuiEvent, GuiStatus, GuiStatusView, RecentItem, RecentItemView};
use crate::rows;
use crate::text;
use crate::text::{decimal_text, join};
use std::collections::VecDeque;
use vstd::prelude::*;
use vstd::string::*;

verus! {

/// How many lines the console keeps.
pub const MAX_LOG_LINES: usize = 400;

// ---------------------------------------------------------------------------
// State
// ---------------------------------------------------------------------------

/// What the window keeps.
#[verifier::ext_equal]
pub struct ControllerModel {
    pub last_status: Option<GuiStatusView>,
    pub log: Seq<Seq<char>>,
    pub ax_prompted: bool,
    pub launch_complete: bool,
}

/// Whether an event ends the program.
pub open spec fn ends(event: GuiEvent) -> bool {
    event matches GuiEvent::Status(status) && status.exiting
}

/// What the window keeps after an event that does not end the program.
pub open spec fn after_event(model: ControllerModel, event: GuiEvent) -> ControllerModel {
    match event {
        GuiEvent::Log(line) => ControllerModel {
            log: rows::last_of(model.log.push(line@), MAX_LOG_LINES as nat),
            ..model
        },
        GuiEvent::Status(status) => ControllerModel { last_status: Some(status@), ..model },
    }
}

/// What the window keeps after a row of such events.
pub open spec fn after_events(model: ControllerModel, events: Seq<GuiEvent>) -> ControllerModel
    decreases events.len(),
{
    if events.len() == 0 {
        model
    } else {
        after_event(after_events(model, events.drop_last()), events.last())
    }
}

/// How many events come before the first one that ends the program.
pub open spec fn before_end(events: Seq<GuiEvent>) -> int
    decreases events.len(),
{
    if events.len() == 0 || ends(events[0]) {
        0
    } else {
        1 + before_end(events.drop_first())
    }
}

proof fn lemma_before_end_is(events: Seq<GuiEvent>, k: int)
    requires
        0 <= k <= events.len(),
        forall|i: int| 0 <= i < k ==> !ends(#[trigger] events[i]),
        k < events.len() ==> ends(events[k]),
    ensures
        before_end(events) == k,
    decreases events.len(),
{
    if k > 0 {
        assert(!ends(events[0]));
        let rest = events.drop_first();
        assert forall|i: int| 0 <= i < k - 1 implies !ends(#[trigger] rest[i]) by {
            assert(rest[i] == events[i + 1]);
        }
        lemma_before_end_is(rest, k - 1);
    }
}

/// What a row of events calls for.
#[derive(Debug, Clone, Copy, PartialEq, Eq, Structural)]
pub enum Drained {
    /// End the program.
    Exit,
    /// Show anew what has changed.
    Refresh { log_changed: bool, status_changed: bool },
}

/// What a row of events calls for.
pub open spec fn called_for(events: Seq<GuiEvent>) -> Drained {
    if before_end(events) < events.len() {
        Drained::Exit
    } else {
        Drained::Refresh {
            log_changed: exists|i: int| 0 <= i < events.len() && #[trigger] events[i] is Log,
            status_changed: exists|i: int| 0 <= i < events.len() && #[trigger] events[i] is Status,
        }
    }
}

/// Whether the question for the permission was taken up like this: it is put
/// once at most, and only where the permission is missing.
pub open spec fn prompt_taken(
    pre: ControllerModel,
    post: ControllerModel,
    trusted: bool,
    ask: bool,
) -> bool {
    &&& ask == (!pre.ax_prompted && !trusted)
    &&& post == (ControllerModel { ax_prompted: true, ..pre })
}

/// What the window keeps between two events.
pub struct ControllerState {
    last_status: Option<GuiStatus>,
    log: VecDeque<String>,
    ax_prompted: bool,
    launch_complete: bool,
}

impl ControllerState {
    #[verifier::type_invariant]
    spec fn valid(self) -> bool {
        self.log@.len() <= MAX_LOG_LINES
    }

    /// What the window keeps.
    pub closed spec fn view(&self) -> ControllerModel {
        ControllerModel {
            last_status: match self.last_status {
                Some(status) => Some(status@),
                None => None,
            },
            log: text::texts(self.log@),
            ax_prompted: self.ax_prompted,
            launch_complete: self.launch_complete,
        }
    }

    /// The state before the first event.
    pub fn new() -> (r: ControllerState)
        ensures
            r@ == (ControllerModel {
                last_status: None,
                log: Seq::<Seq<char>>::empty(),
                ax_prompted: false,
                launch_complete: false,
            }),
    {
        ControllerState {
            last_status: None,
            log: VecDeque::new(),
            ax_prompted: false,
            launch_complete: false,
        }
    }

    /// The program has finished launching.
    pub fn finish_launch(&mut self)
        ensures
            final(self)@ == (ControllerModel { launch_complete: true, ..old(self)@ }),
    {
        proof {
            use_type_invariant(&*self);
        }
        self.launch_complete = true;
    }

    /// Whether the program has finished launching.
    pub fn launched(&self) -> (r: bool)
        ensures
            r == self@.launch_complete,
    {
        self.launch_complete
    }

    /// Whether to ask for the permission now: once at most, and only where it
    /// is missing.
    pub fn take_prompt(&mut self, trusted: bool) -> (r: bool)
        ensures
            prompt_taken(old(self)@, final(self)@, trusted, r),
    {
        proof {
            use_type_invariant(&*self);
        }
        if self.ax_prompted {
            return false;
        }
        self.ax_prompted = true;
        !trusted
    }

    /// The filter mode that the engine last told of, or the one for all
    /// applications.
    pub fn current_mode(&self) -> (r: FilterMode)
        ensures
            r == (match self@.last_status {
                Some(status) => status.filter_mode,
                None => FilterMode::All,
            }),
    {
        match &self.last_status {
            Some(status) => status.filter_mode,
            None => FilterMode::All,
        }
    }

    fn push_line(&mut self, line: &String)
        ensures
            final(self)@ == (ControllerModel {
                log: rows::last_of(old(self)@.log.push(line@), MAX_LOG_LINES as nat),
                ..old(self)@
            }),
    {
        proof {
            use_type_invariant(&*self);
        }
        let ghost before = text::texts(self.log@);
        let mut log: VecDeque<String> = VecDeque::new();
        std::mem::swap(&mut log, &mut self.log);
        let copy = line.clone();
        log.push_back(copy);
        assert(text::texts(log@) =~= before.push(line@));
        if log.len() > MAX_LOG_LINES {
            let _ = log.pop_front();
        }
        self.log = log;
        assert(self@.log =~= rows::last_of(before.push(line@), MAX_LOG_LINES as nat));
    }

    /// Takes in the events that have come, up to one that ends the program.
    pub fn drain_events(&mut self, events: &Vec<GuiEvent>) -> (r: Drained)
        ensures
            final(self)@ == after_events(old(self)@, events@.take(before_end(events@))),
            r == called_for(events@),
    {
        let mut log_changed = false;
        let mut status_changed = false;
        let mut i: usize = 0;
        assert(events@.take(0) =~= Seq::empty());
        while i < events.len()
            invariant
                i <= events@.len(),
                self@ == after_events(old(self)@, events@.take(i as int)),
                forall|j: int| 0 <= j < i ==> !ends(#[trigger] events@[j]),
                log_changed == (exists|j: int| 0 <= j < i && #[trigger] events@[j] is Log),
                status_changed == (exists|j: int| 0 <= j < i && #[trigger] events@[j] is Status),
            decreases events@.len() - i,
        {
            assert(events@.take(i + 1).drop_last() =~= events@.take(i as int));
            let ghost current = events@[i as int];
            match &events[i] {
                GuiEvent::Log(line) => {
                    self.push_line(line);
                    log_changed = true;
                    assert(events@[i as int] is Log);
                },
                GuiEvent::Status(status) => {
                    if status.exiting {
                        proof {
                            lemma_before_end_is(events@, i as int);
                        }
                        return Drained::Exit;
                    }
                    proof {
                        use_type_invariant(&*self);
                    }
                    self.last_status = Some(status.clone());
                    status_changed = true;
                    assert(events@[i as int] is Status);
                },
            }
            assert(self@ =~= after_event(
                after_events(old(self)@, events@.take(i as int)),
                current,
            ));
            i = i + 1;
        }
        proof {
            lemma_before_end_is(events@, events@.len() as int);
        }
        Drained::Refresh { log_changed, status_changed }
    }

    /// What the console shows.
    pub fn console_text(&self) -> (r: String)
        ensures
            r@ == text::joined(self@.log, "\n"@),
    {
        let mut rows: Vec<String> = Vec::new();
        let ghost all = text::texts(self.log@);
        for i in 0..self.log.len()
            invariant
                all == text::texts(self.log@),
                text::texts(rows@) == all.take(i as int),
        {
            let ghost before = text::texts(rows@);
            let row = self.log[i].clone();
            rows.push(row);
            assert(text::texts(rows@) =~= before.push(row@));
            assert(all.take(i + 1) =~= all.take(i as int).push(all[i as int]));
        }
        assert(all.take(self.log@.len() as int) =~= all);
        join(&rows, "\n")
    }
}

/// The console never keeps more lines than its limit, and the newest line is
/// among them.
pub proof fn law_console_keeps_newest_lines(model: ControllerModel, event: GuiEvent)
    requires
        model.log.len() <= MAX_LOG_LINES,
    ensures
        after_event(model, event).log.len() <= MAX_LOG_LINES,
        event matches GuiEvent::Log(line) ==> after_event(model, event).log.last() == line@,
{
}

// ---------------------------------------------------------------------------
// What is shown
// ---------------------------------------------------------------------------

/// The colour of the badge.
#[derive(Debug, Clone, Copy, PartialEq, Eq, Structural)]
pub enum Tint {
    Red,
    Green,
    Orange,
}

/// The labels that show what the engine told of itself.
#[derive(Debug)]
pub struct Details {
    pub forwarded: String,
    pub today: String,
    pub duplicates: String,
    pub filtered: String,
    pub mode_line: String,
    pub webhook_result: String,
    pub recent: String,
}

/// What these labels say.
#[verifier::ext_equal]
pub struct DetailsModel {
    pub forwarded: Seq<char>,
    pub today: Seq<char>,
    pub duplicates: Seq<char>,
    pub filtered: Seq<char>,
    pub mode_line: Seq<char>,
    pub webhook_result: Seq<char>,
    pub recent: Seq<char>,
}

impl View for Details {
    type V = DetailsModel;

    open spec fn view(&self) -> DetailsModel {
        DetailsModel {
            forwarded: self.forwarded@,
            today: self.today@,
            duplicates: self.duplicates@,
            filtered: self.filtered@,
            mode_line: self.mode_line@,
            webhook_result: self.webhook_result@,
            recent: self.recent@,
        }
    }
}

/// What the window and the menu show. Labels for which there is nothing new
/// are `None` and keep what they show.
#[derive(Debug)]
pub struct WindowView {
    /// Whether the buttons that open the system settings are hidden.
    pub settings_hidden: bool,
    /// Whether the button that pauses is hidden.
    pub pause_hidden: bool,
    pub badge: String,
    pub tint: Tint,
    pub status_line: String,
    pub sub_line: String,
    pub tray_status: String,
    pub tooltip: String,
    /// The title of the button that pauses, and of the menu item that does.
    pub pause_titles: Option<(String, String)>,
    pub details: Option<Details>,
}

/// What the labels say.
#[verifier::ext_equal]
pub struct WindowModel {
    pub settings_hidden: bool,
    pub pause_hidden: bool,
    pub badge: Seq<char>,
    pub tint: Tint,
    pub status_line: Seq<char>,
    pub sub_line: Seq<char>,
    pub tray_status: Seq<char>,
    pub tooltip: Seq<char>,
    pub pause_titles: Option<(Seq<char>, Seq<char>)>,
    pub details: Option<DetailsModel>,
}

impl View for WindowView {
    type V = WindowModel;

    open spec fn view(&self) -> WindowModel {
        WindowModel {
            settings_hidden: self.settings_hidden,
            pause_hidden: self.pause_hidden,
            badge: self.badge@,
            tint: self.tint,
            status_line: self.status_line@,
            sub_line: self.sub_line@,
            tray_status: self.tray_status@,
            tooltip: self.tooltip@,
            pause_titles: match self.pause_titles {
                Some((button, item)) => Some((button@, item@)),
                None => None,
            },
            details: match self.details {
                Some(details) => Some(details@),
                None => None,
            },
        }
    }
}

/// What the history shows of a notification.
pub open spec fn recent_text(item: RecentItemView) -> Seq<char> {
    if item.message.len() == 0 {
        "• "@ + item.app + " — "@ + item.title
    } else {
        "• "@ + item.app + " — "@ + item.title + "\n  "@ + item.message
    }
}

/// What the history shows.
pub open spec fn history_text(items: Seq<RecentItemView>) -> Seq<char> {
    if items.len() == 0 {
        "No notifications detected yet.\n\nWhen apps (e.g. WhatsApp, Messages) receive notifications, they will appear here."@
    } else {
        text::joined(items.map_values(|item: RecentItemView| recent_text(item)), "\n\n"@)
    }
}

/// The labels that show what the engine told of itself.
pub open spec fn details_model(status: GuiStatusView) -> DetailsModel {
    DetailsModel {
        forwarded: text::decimal(status.forwarded as nat),
        today: text::decimal(status.today as nat),
        duplicates: text::decimal(status.duplicates as nat),
        filtered: text::decimal(status.filtered as nat),
        mode_line: match status.filter_mode {
            FilterMode::All => "Mode: all applications"@,
            FilterMode::Selected => "Mode: selected only"@,
        },
        webhook_result: status.webhook,
        recent: history_text(status.recent),
    }
}

/// What is shown where the permission is missing.
pub open spec fn denied_model() -> WindowModel {
    WindowModel {
        settings_hidden: false,
        pause_hidden: true,
        badge: "⚠️ Permission Required"@,
        tint: Tint::Red,
        status_line: "Notification Forwarder needs Accessibility permission to observe notifications."@,
        sub_line: "System Settings → Privacy & Security → Accessibility → enable NotificationForwarder"@,
        tray_status: "⚠ Permission required"@,
        tooltip: "Notification Forwarder — Accessibility permission required"@,
        pause_titles: None,
        details: None,
    }
}

/// What is shown where the permission is there.
pub open spec fn active_model(last: Option<GuiStatusView>) -> WindowModel {
    let paused = last matches Some(status) && !status.monitoring;
    WindowModel {
        settings_hidden: true,
        pause_hidden: false,
        badge: if paused {
            "○ Monitoring Paused"@
        } else {
            "● Monitoring Active"@
        },
        tint: if paused {
            Tint::Orange
        } else {
            Tint::Green
        },
        status_line: if paused {
            "Notification monitoring is temporarily paused"@
        } else {
            "Forwarding incoming notifications to webhook endpoint"@
        },
        sub_line: match last {
            Some(status) => "AX "@ + status.accessibility + " · NC "@ + status.notification_center
                + " · Webhook "@ + status.webhook,
            None => "AX ✓ Enabled · NC Connecting… · Webhook Ready"@,
        },
        tray_status: match last {
            Some(status) => if status.monitoring {
                "● Monitoring · "@ + text::decimal(status.today as nat) + " today"@
            } else {
                "○ Paused · "@ + text::decimal(status.today as nat) + " today"@
            },
            None => "● Monitoring"@,
        },
        tooltip: if paused {
            "Notification Forwarder — Monitoring Paused"@
        } else {
            "Notification Forwarder — Monitoring Active"@
        },
        pause_titles: if paused {
            Some(("Resume"@, "Resume Monitoring"@))
        } else {
            Some(("Pause"@, "Pause Monitoring"@))
        },
        details: match last {
            Some(status) => Some(details_model(status)),
            None => None,
        },
    }
}

/// What the window and the menu show.
pub open spec fn window_model(last: Option<GuiStatusView>, trusted: bool) -> WindowModel {
    if trusted {
        active_model(last)
    } else {
        denied_model()
    }
}

fn describe_recent(item: &RecentItem) -> (r: String)
    ensures
        r@ == recent_text(item@),
{
    let mut out = "• ".to_string();
    out.append(item.app.as_str());
    out.append(" — ");
    out.append(item.title.as_str());
    if !item.message.as_str().is_empty() {
        out.append("\n  ");
        out.append(item.message.as_str());
    }
    out
}

fn describe_history(items: &Vec<RecentItem>) -> (r: String)
    ensures
        r@ == history_text(gui::recent_views(items@)),
{
    if items.len() == 0 {
        return
            "No notifications detected yet.\n\nWhen apps (e.g. WhatsApp, Messages) receive notifications, they will appear here.".to_string();
    }
    let ghost all = gui::recent_views(items@).map_values(|item: RecentItemView| recent_text(item));
    let mut rows: Vec<String> = Vec::new();
    for i in 0..items.len()
        invariant
            all == gui::recent_views(items@).map_values(|item: RecentItemView| recent_text(item)),
            text::texts(rows@) == all.take(i as int),
    {
        let ghost before = text::texts(rows@);
        let row = describe_recent(&items[i]);
        rows.push(row);
        assert(text::texts(rows@) =~= before.push(row@));
        assert(all.take(i + 1) =~= all.take(i as int).push(all[i as int]));
    }
    assert(all.take(items@.len() as int) =~= all);
    join(&rows, "\n\n")
}

fn describe_details(status: &GuiStatus) -> (r: Details)
    ensures
        r@ == details_model(status@),
{
    Details {
        forwarded: decimal_text(status.forwarded),
        today: decimal_text(status.today),
        duplicates: decimal_text(status.duplicates),
        filtered: decimal_text(status.filtered),
        mode_line: match status.filter_mode {
            FilterMode::All => "Mode: all applications".to_string(),
            FilterMode::Selected => "Mode: selected only".to_string(),
        },
        webhook_result: status.webhook.clone(),
        recent: describe_history(&status.recent),
    }
}

fn describe_tray(status: &GuiStatus) -> (r: String)
    ensures
        r@ == (if status.monitoring {
            "● Monitoring · "@ + text::decimal(status.today as nat) + " today"@
        } else {
            "○ Paused · "@ + text::decimal(status.today as nat) + " today"@
        }),
{
    let mut out = if status.monitoring {
        "● Monitoring · ".to_string()
    } else {
        "○ Paused · ".to_string()
    };
    let today = decimal_text(status.today);
    out.append(today.as_str());
    out.append(" today");
    out
}

fn describe_parts(status: &GuiStatus) -> (r: String)
    ensures
        r@ == "AX "@ + status.accessibility@ + " · NC "@ + status.notification_center@
            + " · Webhook "@ + status.webhook@,
{
    let mut out = "AX ".to_string();
    out.append(status.accessibility.as_str());
    out.append(" · NC ");
    out.append(status.notification_center.as_str());
    out.append(" · Webhook ");
    out.append(status.webhook.as_str());
    out
}

fn denied_view() -> (r: WindowView)
    ensures
        r@ == denied_model(),
{
    WindowView {
        settings_hidden: false,
        pause_hidden: true,
        badge: "⚠️ Permission Required".to_string(),
        tint: Tint::Red,
        status_line:
            "Notification Forwarder needs Accessibility permission to observe notifications.".to_string(),
        sub_line:
            "System Settings → Privacy & Security → Accessibility → enable NotificationForwarder".to_string(),
        tray_status: "⚠ Permission required".to_string(),
        tooltip: "Notification Forwarder — Accessibility permission required".to_string(),
        pause_titles: None,
        details: None,
    }
}

fn active_view(last: &Option<GuiStatus>) -> (r: WindowView)
    ensures
        r@ == active_model(
            match *last {
                Some(status) => Some(status@),
                None => None,
            },
        ),
{
    let paused: bool = match last {
        Some(status) => !status.monitoring,
        None => false,
    };
    let (sub_line, tray_status, details) = match last {
        Some(status) => (
            describe_parts(status),
            describe_tray(status),
            Some(describe_details(status)),
        ),
        None => (
            "AX ✓ Enabled · NC Connecting… · Webhook Ready".to_string(),
            "● Monitoring".to_string(),
            None,
        ),
    };
    WindowView {
        settings_hidden: true,
        pause_hidden: false,
        badge: if paused {
            "○ Monitoring Paused".to_string()
        } else {
            "● Monitoring Active".to_string()
        },
        tint: if paused {
            Tint::Orange
        } else {
            Tint::Green
        },
        status_line: if paused {
            "Notification monitoring is temporarily paused".to_string()
        } else {
            "Forwarding incoming notifications to webhook endpoint".to_string()
        },
        sub_line,
        tray_status,
        tooltip: if paused {
            "Notification Forwarder — Monitoring Paused".to_string()
        } else {
            "Notification Forwarder — Monitoring Active".to_string()
        },
        pause_titles: if paused {
            Some(("Resume".to_string(), "Resume Monitoring".to_string()))
        } else {
            Some(("Pause".to_string(), "Pause Monitoring".to_string()))
        },
        details,
    }
}

impl ControllerState {
    /// What the window and the menu show.
    pub fn window_view(&self, trusted: bool) -> (r: WindowView)
        ensures
            r@ == window_model(self@.last_status, trusted),
    {
        if trusted {
            active_view(&self.last_status)
        } else {
            denied_view()
        }
    }
}

/// Which of the three tabs are hidden when one is selected.
pub fn hidden_tabs(selected: i64) -> (r: (bool, bool, bool))
    ensures
        r == (selected != 0, selected != 1, selected != 2),
{
    (selected != 0, selected != 1, selected != 2)
}

// ---------------------------------------------------------------------------
// Laws
// ---------------------------------------------------------------------------

/// The console keeps the newest four hundred lines in their order: a new one
/// pushes out the oldest where there are that many, and no other one. A line
/// leaves the status as it is, and a status the lines.
pub proof fn law_console_drops_the_oldest_line(model: ControllerModel, event: GuiEvent)
    requires
        model.log.len() <= 400,
    ensures
        event matches GuiEvent::Log(line) ==> {
            &&& model.log.len() < 400 ==> after_event(model, event).log == model.log.push(line@)
            &&& model.log.len() == 400 ==> after_event(model, event).log
                == model.log.drop_first().push(line@)
            &&& after_event(model, event).last_status == model.last_status
        },
        event matches GuiEvent::Status(status) ==> {
            &&& after_event(model, event).log == model.log
            &&& after_event(model, event).last_status == Some(status@)
        },
        after_event(model, event).ax_prompted == model.ax_prompted,
        after_event(model, event).launch_complete == model.launch_complete,
{
    if let GuiEvent::Log(line) = event {
        if model.log.len() > 0 {
            assert(model.log.push(line@).skip(1) =~= model.log.drop_first().push(line@));
        }
    }
}

/// Events are taken in one after another.
pub proof fn law_events_are_taken_in_order(
    model: ControllerModel,
    events: Seq<GuiEvent>,
    next: GuiEvent,
)
    ensures
        after_events(model, Seq::empty()) == model,
        after_events(model, events.push(next)) == after_event(after_events(model, events), next),
{
    assert(events.push(next).drop_last() =~= events);
}

proof fn lemma_before_end(events: Seq<GuiEvent>)
    ensures
        0 <= before_end(events) <= events.len(),
        forall|i: int| 0 <= i < before_end(events) ==> !ends(#[trigger] events[i]),
        before_end(events) < events.len() ==> ends(events[before_end(events)]),
    decreases events.len(),
{
    if events.len() > 0 && !ends(events[0]) {
        let rest = events.drop_first();
        lemma_before_end(rest);
        assert forall|i: int| 0 <= i < before_end(events) implies !ends(#[trigger] events[i]) by {
            if i > 0 {
                assert(events[i] == rest[i - 1]);
            }
        }
    }
}

/// The program ends exactly where some status says that it is exiting; all that
/// came before the first such status is taken in, and nothing behind it.
/// Otherwise what has come is shown: lines where there was one, the status where
/// there was one.
pub proof fn law_an_exiting_status_ends_the_program(events: Seq<GuiEvent>)
    ensures
        called_for(events) == Drained::Exit <==> exists|i: int|
            0 <= i < events.len() && (#[trigger] events[i] matches GuiEvent::Status(s)
                && s.exiting),
        called_for(events) matches Drained::Refresh { log_changed, status_changed } ==> {
            &&& log_changed <==> exists|i: int|
                0 <= i < events.len() && #[trigger] events[i] is Log
            &&& status_changed <==> exists|i: int|
                0 <= i < events.len() && #[trigger] events[i] is Status
            &&& before_end(events) == events.len()
        },
        0 <= before_end(events) <= events.len(),
        forall|i: int|
            0 <= i < before_end(events) ==> !(#[trigger] events[i] matches GuiEvent::Status(s)
                && s.exiting),
        before_end(events) < events.len() ==> (events[before_end(events)] matches GuiEvent::Status(s)
            && s.exiting),
{
    lemma_before_end(events);
    if exists|i: int|
        0 <= i < events.len() && (#[trigger] events[i] matches GuiEvent::Status(s) && s.exiting) {
        let i = choose|i: int|
            0 <= i < events.len() && (#[trigger] events[i] matches GuiEvent::Status(s)
                && s.exiting);
        assert(ends(events[i]));
    }
}

/// Where the permission is missing, the window offers the settings and no pause;
/// where it is there, the other way round. The colour alone tells the three
/// states apart.
pub proof fn law_window_offers_what_helps(last: Option<GuiStatusView>)
    ensures
        !denied_model().settings_hidden && denied_model().pause_hidden,
        active_model(last).settings_hidden && !active_model(last).pause_hidden,
        denied_model().pause_titles is None && denied_model().details is None,
        denied_model().tint == Tint::Red,
        active_model(last).tint == Tint::Orange <==> (last matches Some(status)
            && !status.monitoring),
        active_model(last).tint == Tint::Green <==> (last matches Some(status)
            ==> status.monitoring),
{
}

/// Every label of the window agrees on whether monitoring is paused, and the
/// button offers the opposite.
pub proof fn law_labels_agree_on_the_pause(last: Option<GuiStatusView>)
    ensures
        (last matches Some(status) && !status.monitoring) ==> {
            let shown = active_model(last);
            &&& shown.badge == "○ Monitoring Paused"@
            &&& shown.status_line == "Notification monitoring is temporarily paused"@
            &&& shown.tooltip == "Notification Forwarder — Monitoring Paused"@
            &&& shown.pause_titles == Some(("Resume"@, "Resume Monitoring"@))
        },
        (last matches Some(status) ==> status.monitoring) ==> {
            let shown = active_model(last);
            &&& shown.badge == "● Monitoring Active"@
            &&& shown.status_line == "Forwarding incoming notifications to webhook endpoint"@
            &&& shown.tooltip == "Notification Forwarder — Monitoring Active"@
            &&& shown.pause_titles == Some(("Pause"@, "Pause Monitoring"@))
        },
{
}

/// The window tells the connections and today's number as the engine told them,
/// and before it told anything that it is connecting.
pub proof fn law_window_tells_the_connections(last: Option<GuiStatusView>)
    ensures
        last matches Some(status) ==> {
            &&& active_model(last).sub_line == "AX "@ + status.accessibility + " · NC "@
                + status.notification_center + " · Webhook "@ + status.webhook
            &&& status.monitoring ==> active_model(last).tray_status == "● Monitoring · "@
                + text::decimal(status.today as nat) + " today"@
            &&& !status.monitoring ==> active_model(last).tray_status == "○ Paused · "@
                + text::decimal(status.today as nat) + " today"@
            &&& active_model(last).details == Some(details_model(status))
        },
        last is None ==> {
            &&& active_model(last).sub_line == "AX ✓ Enabled · NC Connecting… · Webhook Ready"@
            &&& active_model(last).tray_status == "● Monitoring"@
            &&& active_model(last).details is None
        },
{
}

/// Without the permission the window says which one is missing and where to
/// grant it, in every place where it says anything.
pub proof fn law_window_asks_for_the_permission()
    ensures
        denied_model().badge == "⚠️ Permission Required"@,
        denied_model().status_line
            == "Notification Forwarder needs Accessibility permission to observe notifications."@,
        denied_model().sub_line
            == "System Settings → Privacy & Security → Accessibility → enable NotificationForwarder"@,
        denied_model().tray_status == "⚠ Permission required"@,
        denied_model().tooltip == "Notification Forwarder — Accessibility permission required"@,
{
}

/// The labels write the counters of the engine, each its own.
pub proof fn law_details_write_the_counters(status: GuiStatusView)
    ensures
        ({
            let shown = details_model(status);
            &&& text::all_digits(shown.forwarded) && text::digits_value(shown.forwarded)
                == status.forwarded
            &&& text::all_digits(shown.today) && text::digits_value(shown.today) == status.today
            &&& text::all_digits(shown.duplicates) && text::digits_value(shown.duplicates)
                == status.duplicates
            &&& text::all_digits(shown.filtered) && text::digits_value(shown.filtered)
                == status.filtered
            &&& status.filter_mode == FilterMode::All ==> shown.mode_line
                == "Mode: all applications"@
            &&& status.filter_mode == FilterMode::Selected ==> shown.mode_line
                == "Mode: selected only"@
            &&& shown.webhook_result == status.webhook
            &&& shown.recent == history_text(status.recent)
        }),
{
    text::law_decimals_write_the_number(status.forwarded as nat);
    text::law_decimals_write_the_number(status.today as nat);
    text::law_decimals_write_the_number(status.duplicates as nat);
    text::law_decimals_write_the_number(status.filtered as nat);
}

/// The history shows each notification in its place, application and title in
/// one line and the body, where there is one, in the next, with an empty line
/// between each two.
pub proof fn law_history_shows_each_notification(
    items: Seq<RecentItemView>,
    item: RecentItemView,
)
    ensures
        item.message.len() == 0 ==> recent_text(item) == "• "@ + item.app + " — "@ + item.title,
        item.message.len() > 0 ==> recent_text(item) == "• "@ + item.app + " — "@ + item.title
            + "\n  "@ + item.message,
        history_text(seq![item]) == recent_text(item),
        items.len() > 0 ==> history_text(items.push(item)) == history_text(items) + "\n\n"@
            + recent_text(item),
        history_text(Seq::empty())
            == "No notifications detected yet.\n\nWhen apps (e.g. WhatsApp, Messages) receive notifications, they will appear here."@,
{
    let show = |i: RecentItemView| recent_text(i);
    assert(seq![item].map_values(show) =~= seq![recent_text(item)]);
    assert(items.push(item).map_values(show) =~= items.map_values(show).push(recent_text(item)));
    text::law_joining_adds_parts_in_order(items.map_values(show), recent_text(item), "\n\n"@);
}

/// The permission decides what the window shows: without it the window asks for
/// it, whatever the engine told last, and with it the window shows that.
pub proof fn law_permission_decides_what_is_shown(
    last: Option<GuiStatusView>,
    other: Option<GuiStatusView>,
)
    ensures
        window_model(last, false) == window_model(other, false),
        window_model(last, false).tint == Tint::Red,
        window_model(last, true).tint != Tint::Red,
        window_model(last, true).settings_hidden,
        !window_model(last, false).settings_hidden,
        last matches Some(status) ==> window_model(last, true).details == Some(
            details_model(status),
        ),
{
}

/// The permission is asked for once at most: a question that comes again is
/// never put, and one that was granted already is not put either.
pub proof fn law_permission_is_asked_for_once(
    pre: ControllerModel,
    mid: ControllerModel,
    post: ControllerModel,
    first: (bool, bool),
    second: (bool, bool),
)
    requires
        prompt_taken(pre, mid, first.0, first.1),
        prompt_taken(mid, post, second.0, second.1),
    ensures
        !second.1,
        first.1 ==> !first.0 && !pre.ax_prompted,
        !first.0 && !pre.ax_prompted ==> first.1,
        post.log == pre.log,
        post.last_status == pre.last_status,
        post.launch_complete == pre.launch_complete,
{
}

/// What the labels say is what each of them holds.
pub proof fn law_labels_say_what_they_hold(w: WindowView, d: Details)
    ensures
        (w@.settings_hidden, w@.pause_hidden, w@.tint) == (
            w.settings_hidden,
            w.pause_hidden,
            w.tint,
        ),
        (w@.badge, w@.status_line, w@.sub_line) == (w.badge@, w.status_line@, w.sub_line@),
        (w@.tray_status, w@.tooltip) == (w.tray_status@, w.tooltip@),
        w@.pause_titles is Some <==> w.pause_titles is Some,
        w.pause_titles matches Some(titles) ==> w@.pause_titles == Some((titles.0@, titles.1@)),
        w@.details is Some <==> w.details is Some,
        w.details matches Some(details) ==> w@.details == Some(details@),
        (d@.forwarded, d@.today, d@.duplicates, d@.filtered) == (
            d.forwarded@,
            d.today@,
            d.duplicates@,
            d.filtered@,
        ),
        (d@.mode_line, d@.webhook_result, d@.recent) == (
            d.mode_line@,
            d.webhook_result@,
            d.recent@,
        ),
{
}

} // verus!
