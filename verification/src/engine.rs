//! The engine: from banners to payloads, and what the window is told.
//!
//! ```text
//! scan -> parse -> filter -> deduplicate -> queue -> post
//! ```

use crate::client;
use crate::client::{validate_headers, WebhookClient, WebhookError, WebhookPayload};
use crate::config;
use crate::config::AppConfig;
use crate::dedup;
use crate::dedup::DedupCache;
use crate::filter;
use crate::filter::AppFilter;
use crate::gui;
use crate::gui::{GuiAction, GuiStatus, GuiStatusView, RecentItem, RecentItemView};
use crate::model::{Notification, NotificationView};
use crate::observer::MonitorEvent;
use crate::parser;
use crate::parser::{parse_banner_fields_at, BannerFieldsView};
use crate::scanner;
use crate::scanner::BannerSnapshot;
use crate::tables;
use crate::tables::{HeaderTable, NameSet};
use crate::tally;
use crate::tally::{Counts, Tally, TallyModel, Verdict};
use crate::text;
use crate::text::{copy_opt, decimal_text, signed_decimal_text, trim};
use crate::time;
use crate::time::{Reading, Span, Timestamp};
use std::time::Instant;
use vstd::prelude::*;
use vstd::string::*;

verus! {

// ---------------------------------------------------------------------------
// One banner
// ---------------------------------------------------------------------------

/// What the log says of a notification. It never holds the body; title and
/// identifier are there only with diagnostic logging.
#[derive(Debug)]
pub struct LogRecord {
    pub app_name: String,
    pub title: Option<String>,
    pub ax_id: Option<String>,
}

/// What a log record says.
#[verifier::ext_equal]
pub struct LogRecordView {
    pub app_name: Seq<char>,
    pub title: Option<Seq<char>>,
    pub ax_id: Option<Seq<char>>,
}

impl View for LogRecord {
    type V = LogRecordView;

    open spec fn view(&self) -> LogRecordView {
        LogRecordView {
            app_name: self.app_name@,
            title: text::opt_text(self.title),
            ax_id: text::opt_text(self.ax_id),
        }
    }
}

/// What came of a banner.
#[derive(Debug)]
pub struct BannerOutcome {
    pub verdict: Verdict,
    /// For the log, unless the banner says nothing.
    pub record: Option<LogRecord>,
    /// For the console of the window.
    pub lines: Vec<String>,
    /// For the webhook.
    pub payload: Option<WebhookPayload>,
    /// What the clock read, where it was read for this banner.
    pub read: Option<Reading>,
}

/// What the log says of a notification.
pub open spec fn record_of(
    notification: NotificationView,
    ax_id: Option<Seq<char>>,
    diagnostic: bool,
) -> LogRecordView {
    LogRecordView {
        app_name: notification.app_name,
        title: if diagnostic {
            Some(notification.title)
        } else {
            None
        },
        ax_id: if diagnostic {
            ax_id
        } else {
            None
        },
    }
}

/// What the console says of a notification that was detected.
pub open spec fn bell_line(notification: NotificationView) -> Seq<char> {
    "🔔 "@ + notification.app_name + " — "@ + notification.title
}

/// What the console says of a notification.
pub open spec fn console_lines(notification: NotificationView, verdict: Verdict) -> Seq<Seq<char>> {
    match verdict {
        Verdict::Empty => Seq::empty(),
        Verdict::Filtered => seq![
            bell_line(notification),
            "  filtered (app not allowed): "@ + notification.app_name,
        ],
        Verdict::Duplicate => seq![bell_line(notification), "  duplicate ignored"@],
        Verdict::Forwarded => seq![bell_line(notification)],
    }
}

/// Whether an outcome tells what a verdict on a banner calls for. Only what is
/// new is for the webhook, and only while forwarding is on.
pub open spec fn tells(
    outcome: BannerOutcome,
    fields: BannerFieldsView,
    stamp: Timestamp,
    config: AppConfig,
) -> bool {
    match parser::parsed(fields) {
        None => {
            &&& outcome.record is None
            &&& outcome.lines@.len() == 0
            &&& outcome.payload is None
        },
        Some(n) => {
            &&& outcome.record matches Some(record) && record@ == record_of(
                n,
                fields.identifier,
                config.diagnostic_logging,
            )
            &&& text::texts(outcome.lines@) == console_lines(n, outcome.verdict)
            &&& outcome.payload is Some <==> outcome.verdict == Verdict::Forwarded
                && config.forwarding_enabled
            &&& outcome.payload matches Some(payload) ==> payload@ == client::payload_of(n, stamp)
        },
    }
}

/// Whether `post` and `outcome` are what comes of a banner that was seen at
/// `stamp` and at the reading `now` of the clock.
pub open spec fn handled(
    pre: Engine,
    post: Engine,
    fields: BannerFieldsView,
    stamp: Timestamp,
    now: nat,
    outcome: BannerOutcome,
) -> bool {
    &&& post.same_settings(pre)
    &&& tells(outcome, fields, stamp, pre.config())
    &&& match parser::parsed(fields) {
        None => {
            &&& outcome.verdict == Verdict::Empty
            &&& post.seen() == pre.seen()
            &&& post.tally() == pre.tally()
        },
        Some(n) => {
            &&& post.tally() == tally::tallied(pre.tally(), outcome.verdict, n)
            &&& if !pre.filter().passes(n.app_name) {
                &&& outcome.verdict == Verdict::Filtered
                &&& post.seen() == pre.seen()
            } else {
                &&& outcome.verdict == Verdict::Duplicate || outcome.verdict == Verdict::Forwarded
                &&& dedup::observed(
                    pre.seen(),
                    post.seen(),
                    n.print(),
                    now,
                    pre.ttl(),
                    pre.capacity(),
                    outcome.verdict == Verdict::Duplicate,
                )
            }
        },
    }
}

/// Whether banners were handled one after another: `states` are the states of
/// the engine before, between and after them.
pub open spec fn handled_all(
    states: Seq<Engine>,
    banners: Seq<BannerFieldsView>,
    readings: Seq<(Timestamp, u128)>,
    outcomes: Seq<BannerOutcome>,
) -> bool {
    &&& states.len() == banners.len() + 1
    &&& readings.len() == banners.len()
    &&& outcomes.len() == banners.len()
    &&& forall|i: int|
        #![trigger outcomes[i]]
        0 <= i < banners.len() ==> handled(
            states[i],
            states[i + 1],
            banners[i],
            readings[i].0,
            readings[i].1 as nat,
            outcomes[i],
        )
}

/// Whether banners were handled one after another as they were seen: the
/// machine's clock was read for the time of each, and the running clock of the
/// engine for its age. `states` are the states of the engine before, between and
/// after them.
pub open spec fn seen_live(
    states: Seq<Engine>,
    stamps: Seq<Timestamp>,
    banners: Seq<BannerFieldsView>,
    outcomes: Seq<BannerOutcome>,
) -> bool {
    &&& states.len() == banners.len() + 1
    &&& stamps.len() == banners.len()
    &&& outcomes.len() == banners.len()
    &&& forall|i: int|
        #![trigger outcomes[i]]
        0 <= i < banners.len() ==> stamps[i].from_clock() && (outcomes[i].read matches Some(reading)
            && reading.clock() == states[0].clock() && handled(
            states[i],
            states[i + 1],
            banners[i],
            stamps[i],
            reading.nanos(),
            outcomes[i],
        ))
}

/// Whether the engine went from `pre` to `post` with a scan of banners that was
/// handled as they were seen.
pub open spec fn live_scan(
    pre: Engine,
    post: Engine,
    banners: Seq<BannerFieldsView>,
    outcomes: Seq<BannerOutcome>,
) -> bool {
    exists|states: Seq<Engine>, stamps: Seq<Timestamp>|
        states.first() == pre && states.last() == post && #[trigger] seen_live(
            states,
            stamps,
            banners,
            outcomes,
        )
}

fn console_report(notification: &Notification, verdict: Verdict) -> (r: Vec<String>)
    ensures
        text::texts(r@) == console_lines(notification@, verdict),
{
    let mut lines: Vec<String> = Vec::new();
    let mut bell = "🔔 ".to_string();
    bell.append(notification.app_name.as_str());
    bell.append(" — ");
    bell.append(notification.title.as_str());
    match verdict {
        Verdict::Empty => {},
        Verdict::Filtered => {
            let mut line = "  filtered (app not allowed): ".to_string();
            line.append(notification.app_name.as_str());
            lines.push(bell);
            lines.push(line);
        },
        Verdict::Duplicate => {
            lines.push(bell);
            lines.push("  duplicate ignored".to_string());
        },
        Verdict::Forwarded => {
            lines.push(bell);
        },
    }
    assert(text::texts(lines@) =~= console_lines(notification@, verdict));
    lines
}

// ---------------------------------------------------------------------------
// The engine
// ---------------------------------------------------------------------------

/// The state of the engine. The window can change its configuration while it
/// runs.
pub struct Engine {
    config: AppConfig,
    filter: AppFilter,
    client: WebhookClient,
    dedup: DedupCache,
    tally: Tally,
}

impl Engine {
    /// The configuration.
    pub closed spec fn config(&self) -> AppConfig {
        self.config
    }

    /// The filter in force.
    pub closed spec fn filter(&self) -> AppFilter {
        self.filter
    }

    /// The client in force.
    pub closed spec fn client(&self) -> WebhookClient {
        self.client
    }

    /// The fingerprints seen, with the reading of the clock at which each was
    /// recorded.
    pub closed spec fn seen(&self) -> Map<Seq<char>, nat> {
        self.dedup@
    }

    /// How long a fingerprint counts as seen, in nanoseconds.
    pub closed spec fn ttl(&self) -> nat {
        self.dedup.ttl()
    }

    /// The clock that the fingerprints go by, by the moment it was started.
    pub closed spec fn clock(&self) -> Instant {
        self.dedup.clock()
    }

    /// How many fingerprints are kept.
    pub closed spec fn capacity(&self) -> nat {
        self.dedup.capacity()
    }

    /// What has become of the notifications so far.
    pub closed spec fn tally(&self) -> TallyModel {
        self.tally@
    }

    /// Whether filter and client are those that the configuration asks for.
    pub open spec fn in_force(&self) -> bool {
        &&& self.filter().matches_config(self.config())
        &&& self.client().fits(
            self.config().webhook_url@,
            self.config().max_attempts as int,
            self.config().webhook_headers@,
        )
    }

    /// Whether everything but the fingerprints and the tally is as it was.
    pub open spec fn same_settings(&self, other: Engine) -> bool {
        &&& self.config() == other.config()
        &&& self.filter() == other.filter()
        &&& self.client() == other.client()
        &&& self.ttl() == other.ttl()
        &&& self.capacity() == other.capacity()
        &&& self.clock() == other.clock()
    }

    /// Whether what has been seen and counted is as it was.
    pub open spec fn same_history(&self, other: Engine) -> bool {
        &&& self.seen() == other.seen()
        &&& self.ttl() == other.ttl()
        &&& self.capacity() == other.capacity()
        &&& self.clock() == other.clock()
        &&& self.tally() == other.tally()
    }

    /// Whether this is an engine with these settings that has seen nothing yet.
    pub open spec fn fresh(&self, config: AppConfig) -> bool {
        &&& self.config() == config
        &&& self.in_force()
        &&& self.seen() == Map::<Seq<char>, nat>::empty()
        &&& self.ttl() == config.dedup_ttl_secs * 1_000_000_000
        &&& self.capacity() == (if config.dedup_capacity >= 16 {
            config.dedup_capacity as nat
        } else {
            16
        })
        &&& self.tally() == (TallyModel {
            counts: Counts { today: 0, forwarded: 0, duplicates: 0, filtered: 0 },
            recent: Seq::<NotificationView>::empty(),
        })
    }

    /// An engine that has seen nothing yet.
    pub fn new(config: AppConfig) -> (r: Engine)
        ensures
            r.fresh(config),
    {
        let filter = AppFilter::from_config(&config);
        let client = WebhookClient::new(
            config.webhook_url.clone(),
            config.max_attempts,
            &config.webhook_headers,
        );
        let dedup = DedupCache::new(Span::from_secs(config.dedup_ttl_secs), config.dedup_capacity);
        Engine { config, filter, client, dedup, tally: Tally::new() }
    }

    /// Puts a changed configuration into force.
    pub fn rebuild(&mut self)
        ensures
            final(self).config() == old(self).config(),
            final(self).in_force(),
            final(self).same_history(*old(self)),
    {
        self.filter = AppFilter::from_config(&self.config);
        self.client = WebhookClient::new(
            self.config.webhook_url.clone(),
            self.config.max_attempts,
            &self.config.webhook_headers,
        );
    }

    /// The configuration.
    pub fn configuration(&self) -> (r: &AppConfig)
        ensures
            *r == self.config(),
    {
        &self.config
    }

    /// The filter in force.
    pub fn app_filter(&self) -> (r: &AppFilter)
        ensures
            *r == self.filter(),
    {
        &self.filter
    }

    /// The client in force.
    pub fn webhook(&self) -> (r: &WebhookClient)
        ensures
            *r == self.client(),
    {
        &self.client
    }

    /// The counters.
    pub fn counts(&self) -> (r: Counts)
        ensures
            r == self.tally().counts,
            r.balanced(),
    {
        self.tally.counts()
    }

    /// Whether the counters have room for this many notifications more.
    pub fn has_room(&self, more: usize) -> (r: bool)
        ensures
            r == (self.tally().counts.today + more <= u64::MAX),
    {
        more as u64 <= u64::MAX - self.tally.counts().today
    }

    /// Decides what becomes of a banner that was seen at `stamp` and at the
    /// reading `now` of the clock.
    pub fn process_banner_at(
        &mut self,
        banner: &BannerSnapshot,
        stamp: Timestamp,
        now: u128,
    ) -> (r: BannerOutcome)
        requires
            old(self).tally().counts.today < u64::MAX,
        ensures
            handled(*old(self), *final(self), banner@, stamp, now as nat, r),
            r.read is None,
    {
        let fields = banner.clone().into_fields();
        let notification = match parse_banner_fields_at(&fields, stamp) {
            Some(notification) => notification,
            None => {
                return BannerOutcome {
                    verdict: Verdict::Empty,
                    record: None,
                    lines: Vec::new(),
                    payload: None,
                    read: None,
                };
            },
        };
        let ghost n = notification@;
        let verdict = if !self.filter.allows(notification.app_name.as_str()) {
            Verdict::Filtered
        } else {
            let fingerprint = notification.fingerprint();
            if self.dedup.is_duplicate_at(fingerprint.as_str(), now) {
                Verdict::Duplicate
            } else {
                Verdict::Forwarded
            }
        };
        self.tally.record(verdict, &notification);
        let payload = if verdict == Verdict::Forwarded && self.config.forwarding_enabled {
            Some(WebhookPayload::of_notification(&notification))
        } else {
            None
        };
        let lines = console_report(&notification, verdict);
        let record = if self.config.diagnostic_logging {
            LogRecord {
                app_name: notification.app_name.clone(),
                title: Some(notification.title.clone()),
                ax_id: copy_opt(&fields.identifier),
            }
        } else {
            LogRecord { app_name: notification.app_name.clone(), title: None, ax_id: None }
        };
        assert(record@ == record_of(n, banner@.identifier, self.config.diagnostic_logging));
        BannerOutcome { verdict, record: Some(record), lines, payload, read: None }
    }

    /// Decides what becomes of the banners of a scan, with what the clocks read
    /// for each of them.
    pub fn process_banners_at(
        &mut self,
        banners: &Vec<BannerSnapshot>,
        readings: &Vec<(Timestamp, u128)>,
    ) -> (r: Vec<BannerOutcome>)
        requires
            readings@.len() == banners@.len(),
            old(self).tally().counts.today + banners@.len() <= u64::MAX,
        ensures
            exists|states: Seq<Engine>|
                #![trigger states.first()]
                states.first() == *old(self) && states.last() == *final(self) && handled_all(
                    states,
                    scanner::banner_views(banners@),
                    readings@,
                    r@,
                ),
    {
        let ghost mut states: Seq<Engine> = seq![*self];
        let ghost all = scanner::banner_views(banners@);
        let ghost start = self.tally().counts.today;
        let mut outcomes: Vec<BannerOutcome> = Vec::new();
        for i in 0..banners.len()
            invariant
                readings@.len() == banners@.len(),
                all == scanner::banner_views(banners@),
                start + banners@.len() <= u64::MAX,
                self.tally().counts.today <= start + i,
                states.len() == i + 1,
                states[0] == *old(self),
                states[i as int] == *self,
                handled_all(
                    states,
                    all.take(i as int),
                    readings@.take(i as int),
                    outcomes@,
                ),
        {
            let ghost before = *self;
            let ghost done = outcomes@;
            let (stamp, now) = readings[i];
            let outcome = self.process_banner_at(&banners[i], stamp, now);
            outcomes.push(outcome);
            proof {
                let longer = states.push(*self);
                assert(all[i as int] == banners@[i as int]@);
                assert forall|k: int|
                    #![trigger outcomes@[k]]
                    0 <= k < i + 1 implies handled(
                    longer[k],
                    longer[k + 1],
                    all.take(i + 1)[k],
                    readings@.take(i + 1)[k].0,
                    readings@.take(i + 1)[k].1 as nat,
                    outcomes@[k],
                ) by {
                    if k < i {
                        assert(outcomes@[k] == done[k]);
                        assert(all.take(i as int)[k] == all[k]);
                        assert(readings@.take(i as int)[k] == readings@[k]);
                    }
                }
                states = longer;
            }
        }
        proof {
            assert(all.take(banners@.len() as int) =~= all);
            assert(readings@.take(banners@.len() as int) =~= readings@);
            assert(states.first() == *old(self));
        }
        outcomes
    }

    /// Decides what becomes of the banners of a scan, as they are seen now.
    /// How far the clocks have got is not known beforehand.
    pub fn process_banners(&mut self, banners: &Vec<BannerSnapshot>) -> (r: Vec<BannerOutcome>)
        requires
            old(self).tally().counts.today + banners@.len() <= u64::MAX,
        ensures
            live_scan(*old(self), *final(self), scanner::banner_views(banners@), r@),
    {
        let ghost mut states: Seq<Engine> = seq![*self];
        let ghost mut stamps: Seq<Timestamp> = Seq::empty();
        let ghost all = scanner::banner_views(banners@);
        let ghost start = self.tally().counts.today;
        let mut outcomes: Vec<BannerOutcome> = Vec::new();
        for i in 0..banners.len()
            invariant
                all == scanner::banner_views(banners@),
                start + banners@.len() <= u64::MAX,
                self.tally().counts.today <= start + i,
                states.len() == i + 1,
                states[0] == *old(self),
                states[i as int] == *self,
                self.clock() == states[0].clock(),
                seen_live(states, stamps, all.take(i as int), outcomes@),
        {
            let ghost done = outcomes@;
            let stamp = Timestamp::now();
            let reading = self.dedup.clock_reading();
            let outcome = self.process_banner_at(&banners[i], stamp, reading.value());
            let outcome = BannerOutcome {
                verdict: outcome.verdict,
                record: outcome.record,
                lines: outcome.lines,
                payload: outcome.payload,
                read: Some(reading),
            };
            outcomes.push(outcome);
            proof {
                let longer = states.push(*self);
                let dated = stamps.push(stamp);
                assert(all[i as int] == banners@[i as int]@);
                assert forall|k: int|
                    #![trigger outcomes@[k]]
                    0 <= k < i + 1 implies dated[k].from_clock() && (outcomes@[k].read matches Some(
                    reading,
                ) && reading.clock() == longer[0].clock() && handled(
                    longer[k],
                    longer[k + 1],
                    all.take(i + 1)[k],
                    dated[k],
                    reading.nanos(),
                    outcomes@[k],
                )) by {
                    if k < i {
                        assert(outcomes@[k] == done[k]);
                        assert(all.take(i as int)[k] == all[k]);
                    }
                }
                states = longer;
                stamps = dated;
            }
        }
        proof {
            assert(all.take(banners@.len() as int) =~= all);
            assert(states.first() == *old(self));
            assert(seen_live(states, stamps, all, outcomes@));
        }
        outcomes
    }
}

// ---------------------------------------------------------------------------
// The status
// ---------------------------------------------------------------------------

/// How many notifications the history of the window shows.
pub const SHOWN_RECENT: usize = 8;

/// What the window shows of a notification.
pub open spec fn recent_item(n: NotificationView) -> RecentItemView {
    RecentItemView { app: n.app_name, title: n.title, message: n.message }
}

/// What the history of the window shows: the newest notifications, the newest
/// first.
pub open spec fn history(recent: Seq<NotificationView>) -> Seq<RecentItemView> {
    Seq::new(
        if recent.len() < SHOWN_RECENT {
            recent.len()
        } else {
            SHOWN_RECENT as nat
        },
        |i: int| recent_item(recent[recent.len() - 1 - i]),
    )
}

/// How many custom headers there are, in words.
pub open spec fn header_count(n: nat) -> Seq<char> {
    if n == 1 {
        text::decimal(n) + " custom header"@
    } else {
        text::decimal(n) + " custom headers"@
    }
}

/// The status that an engine shows.
pub open spec fn status_of(
    engine: Engine,
    trusted: bool,
    paused: bool,
    pid: Option<i32>,
    exiting: bool,
) -> GuiStatusView {
    let counts = engine.tally().counts;
    GuiStatusView {
        monitoring: trusted && !paused,
        today: counts.today,
        forwarded: counts.forwarded,
        duplicates: counts.duplicates,
        filtered: counts.filtered,
        accessibility: if trusted {
            "✓ Enabled"@
        } else {
            "✗ Permission required"@
        },
        needs_permission: !trusted,
        notification_center: match pid {
            Some(pid) => "✓ Connected (pid "@ + text::signed_decimal(pid as int) + ")"@,
            None => "✗ Not found"@,
        },
        webhook: "Ready · "@ + header_count(engine.config().webhook_headers@.len()),
        recent: history(engine.tally().recent),
        filter_mode: engine.config().filter_mode,
        exiting,
    }
}

fn count_headers(n: usize) -> (r: String)
    ensures
        r@ == header_count(n as nat),
{
    let mut out = decimal_text(n as u64);
    if n == 1 {
        out.append(" custom header");
    } else {
        out.append(" custom headers");
    }
    out
}

impl Engine {
    fn history_items(&self) -> (r: Vec<RecentItem>)
        ensures
            gui::recent_views(r@) == history(self.tally().recent),
    {
        let n: usize = self.tally.recent_len();
        let count: usize = if n < SHOWN_RECENT {
            n
        } else {
            SHOWN_RECENT
        };
        let ghost all = history(self.tally().recent);
        let mut items: Vec<RecentItem> = Vec::new();
        for i in 0..count
            invariant
                count <= n,
                n == self.tally().recent.len(),
                count == all.len(),
                all == history(self.tally().recent),
                gui::recent_views(items@) == all.take(i as int),
        {
            let ghost before = gui::recent_views(items@);
            let shown = self.tally.recent_at(n - 1 - i);
            let item = RecentItem {
                app: shown.app_name.clone(),
                title: shown.title.clone(),
                message: shown.message.clone(),
            };
            items.push(item);
            assert(item@ == all[i as int]);
            assert(gui::recent_views(items@) =~= before.push(item@));
            assert(all.take(i + 1) =~= all.take(i as int).push(all[i as int]));
        }
        assert(all.take(count as int) =~= all);
        items
    }

    /// The status to show: whether the process is trusted, whether monitoring
    /// is paused, and the process of Notification Center come from outside.
    pub fn status(
        &self,
        trusted: bool,
        paused: bool,
        pid: Option<i32>,
        exiting: bool,
    ) -> (r: GuiStatus)
        ensures
            r@ == status_of(*self, trusted, paused, pid, exiting),
    {
        let counts = self.tally.counts();
        let notification_center = match pid {
            Some(pid) => {
                let mut out = "✓ Connected (pid ".to_string();
                let number = signed_decimal_text(pid);
                out.append(number.as_str());
                out.append(")");
                out
            },
            None => "✗ Not found".to_string(),
        };
        let mut webhook = "Ready · ".to_string();
        let headers = count_headers(self.config.webhook_headers.len());
        webhook.append(headers.as_str());
        GuiStatus {
            monitoring: trusted && !paused,
            today: counts.today,
            forwarded: counts.forwarded,
            duplicates: counts.duplicates,
            filtered: counts.filtered,
            accessibility: if trusted {
                "✓ Enabled".to_string()
            } else {
                "✗ Permission required".to_string()
            },
            needs_permission: !trusted,
            notification_center,
            webhook,
            recent: self.history_items(),
            filter_mode: self.config.filter_mode,
            exiting,
        }
    }
}

// ---------------------------------------------------------------------------
// Events of the observer
// ---------------------------------------------------------------------------

/// How the monitor goes on.
#[derive(Debug, Clone, Copy, PartialEq, Eq, Structural)]
pub enum Next {
    /// With the next event.
    Continue,
    /// By waiting for the permission, then observing anew.
    WaitForPermission,
    /// Not at all.
    Quit,
}

/// What an event of the observer leads to.
pub struct EventEffects {
    /// For the console of the window.
    pub lines: Vec<String>,
    /// What came of the banners, if any.
    pub outcomes: Vec<BannerOutcome>,
    /// Whether to show the status anew.
    pub show_status: bool,
    pub next: Next,
}

/// Whether any banner said something.
pub open spec fn any_said(outcomes: Seq<BannerOutcome>) -> bool {
    exists|i: int| 0 <= i < outcomes.len() && (#[trigger] outcomes[i]).verdict != Verdict::Empty
}

/// Whether these are the effects of an event without banners to handle.
pub open spec fn plain_effects(
    effects: EventEffects,
    line: Option<Seq<char>>,
    show_status: bool,
    next: Next,
) -> bool {
    &&& text::texts(effects.lines@) == (match line {
        Some(l) => seq![l],
        None => Seq::<Seq<char>>::empty(),
    })
    &&& effects.outcomes@.len() == 0
    &&& effects.show_status == show_status
    &&& effects.next == next
}

/// Whether an event of the observer led from one state of the engine to another,
/// with these effects.
pub open spec fn event_led_to(
    pre: Engine,
    post: Engine,
    event: MonitorEvent,
    has_window: bool,
    paused: bool,
    effects: EventEffects,
) -> bool {
    match event {
        MonitorEvent::PermissionRevoked => post == pre && plain_effects(
            effects,
            Some("⚠️ Accessibility permission revoked."@),
            false,
            if has_window {
                Next::WaitForPermission
            } else {
                Next::Quit
            },
        ),
        MonitorEvent::Reconnected { .. } => post == pre && plain_effects(
            effects,
            Some("↻ Notification Center reconnected."@),
            true,
            Next::Continue,
        ),
        MonitorEvent::Banners(banners) => if paused {
            post == pre && plain_effects(effects, None, false, Next::Continue)
        } else {
            &&& effects.lines@.len() == 0
            &&& effects.next == Next::Continue
            &&& effects.show_status == any_said(effects.outcomes@)
            &&& live_scan(pre, post, scanner::banner_views(banners@), effects.outcomes@)
        },
    }
}

fn one_line(line: &str) -> (r: Vec<String>)
    ensures
        text::texts(r@) == seq![line@],
{
    let mut lines: Vec<String> = Vec::new();
    lines.push(line.to_string());
    assert(text::texts(lines@) =~= seq![line@]);
    lines
}

impl Engine {
    /// Takes in an event of the observer. While monitoring is paused, banners
    /// are passed over. A lost permission ends a monitor without a window; with
    /// a window the permission is waited for.
    pub fn on_event(&mut self, event: MonitorEvent, has_window: bool, paused: bool) -> (r:
        EventEffects)
        requires
            !paused ==> (event matches MonitorEvent::Banners(banners)
                ==> old(self).tally().counts.today + banners@.len() <= u64::MAX),
        ensures
            event_led_to(*old(self), *final(self), event, has_window, paused, r),
    {
        match event {
            MonitorEvent::PermissionRevoked => EventEffects {
                lines: one_line("⚠️ Accessibility permission revoked."),
                outcomes: Vec::new(),
                show_status: false,
                next: if has_window {
                    Next::WaitForPermission
                } else {
                    Next::Quit
                },
            },
            MonitorEvent::Reconnected { .. } => EventEffects {
                lines: one_line("↻ Notification Center reconnected."),
                outcomes: Vec::new(),
                show_status: true,
                next: Next::Continue,
            },
            MonitorEvent::Banners(banners) => {
                let lines: Vec<String> = Vec::new();
                assert(text::texts(lines@) =~= Seq::<Seq<char>>::empty());
                if paused {
                    return EventEffects {
                        lines,
                        outcomes: Vec::new(),
                        show_status: false,
                        next: Next::Continue,
                    };
                }
                let outcomes = self.process_banners(&banners);
                let mut show_status = false;
                for i in 0..outcomes.len()
                    invariant
                        show_status == (exists|k: int|
                            0 <= k < i && (#[trigger] outcomes@[k]).verdict != Verdict::Empty),
                {
                    if outcomes[i].verdict != Verdict::Empty {
                        show_status = true;
                        assert(outcomes@[i as int].verdict != Verdict::Empty);
                    }
                }
                EventEffects { lines, outcomes, show_status, next: Next::Continue }
            },
        }
    }
}

// ---------------------------------------------------------------------------
// Waiting for the permission
// ---------------------------------------------------------------------------

/// What a look at the permission leads to.
pub struct WaitStep {
    /// For the console of the window.
    pub lines: Vec<String>,
    /// Whether to show the status anew.
    pub show_status: bool,
    /// Whether monitoring can start. Otherwise the permission is looked at
    /// again.
    pub ready: bool,
}

/// How long to wait between two looks at the permission, in milliseconds.
pub const PERMISSION_POLL_MS: u64 = 750;

/// Whether a look at the permission led to this: the first look that misses it
/// says so, and a later one that finds it too. Otherwise nothing is said.
pub open spec fn look_told(first: bool, trusted: bool, step: WaitStep) -> bool {
    &&& step.ready == trusted
    &&& step.show_status == (first != trusted)
    &&& text::texts(step.lines@) == (if first && !trusted {
        seq![
            "⚠️ Accessibility permission required. System Settings → Privacy & Security → Accessibility."@,
        ]
    } else if !first && trusted {
        seq!["✓ Accessibility permission granted."@]
    } else {
        Seq::<Seq<char>>::empty()
    })
}

/// Takes in a look at the permission: the first one, or one of those that
/// follow while it is missing.
pub fn wait_step(first: bool, trusted: bool) -> (r: WaitStep)
    ensures
        look_told(first, trusted, r),
{
    let lines = if first && !trusted {
        one_line(
            "⚠️ Accessibility permission required. System Settings → Privacy & Security → Accessibility.",
        )
    } else if !first && trusted {
        one_line("✓ Accessibility permission granted.")
    } else {
        let none: Vec<String> = Vec::new();
        assert(text::texts(none@) =~= Seq::<Seq<char>>::empty());
        none
    };
    WaitStep { lines, show_status: first != trusted, ready: trusted }
}

// ---------------------------------------------------------------------------
// Actions of the window
// ---------------------------------------------------------------------------

/// What an action of the window leads to.
pub struct ActionEffects {
    /// Whether monitoring is paused from now on, where that changes.
    pub paused: Option<bool>,
    /// For the console of the window.
    pub lines: Vec<String>,
    /// Whether to show the status anew.
    pub show_status: bool,
    /// Whether the engine is to exit.
    pub quit: bool,
}

/// The settings that were changed.
#[derive(Debug, Clone, Copy, PartialEq, Eq, Structural)]
pub enum Changed {
    Webhook,
    Filter,
}

/// How to go on with an action of the window.
pub enum ActionStep {
    /// It is done.
    Done(ActionEffects),
    /// Show the line, post the payload, then see `after_test`.
    SendTest { line: String, payload: WebhookPayload },
    /// Save the configuration, then see `after_save`.
    Save(Changed),
    /// Show what is below Notification Center.
    DumpTree,
    /// Show what a scan finds.
    TestDetection,
}

/// Whether these effects are one line and a look at the status.
pub open spec fn says(effects: ActionEffects, line: Seq<char>) -> bool {
    &&& effects.paused is None
    &&& text::texts(effects.lines@) == seq![line]
    &&& effects.show_status
    &&& !effects.quit
}

/// The configuration with other webhook settings.
pub open spec fn with_webhook(
    config: AppConfig,
    pre: AppConfig,
    url: Seq<char>,
    headers: Seq<(Seq<char>, Seq<char>)>,
) -> bool {
    &&& config.webhook_url@ == url
    &&& config.webhook_headers@ == headers
    &&& config == (AppConfig {
        webhook_url: config.webhook_url,
        webhook_headers: config.webhook_headers,
        ..pre
    })
}

/// The configuration with another filter.
pub open spec fn with_filter(
    config: AppConfig,
    pre: AppConfig,
    mode: config::FilterMode,
    allowed: Set<Seq<char>>,
) -> bool {
    &&& config.filter_mode == mode
    &&& config.allowed_apps@ == allowed
    &&& config == (AppConfig {
        filter_mode: config.filter_mode,
        allowed_apps: config.allowed_apps,
        ..pre
    })
}

/// Whether everything but the configuration is as it was.
pub open spec fn only_config_changed(post: Engine, pre: Engine) -> bool {
    &&& post.filter() == pre.filter()
    &&& post.client() == pre.client()
    &&& post.same_history(pre)
}

/// Whether setting the webhook to an address, without the white space around
/// it, and to a row of headers led to this. An empty address and headers that
/// cannot be sent are not taken over.
pub open spec fn webhook_set(
    pre: Engine,
    post: Engine,
    target: Seq<char>,
    row: Seq<(Seq<char>, Seq<char>)>,
    step: ActionStep,
) -> bool {
    match step {
        ActionStep::Save(what) => {
            &&& what == Changed::Webhook
            &&& target.len() > 0
            &&& client::first_fault(row) is None
            &&& with_webhook(post.config(), pre.config(), target, row)
            &&& only_config_changed(post, pre)
        },
        ActionStep::Done(effects) => {
            &&& post == pre
            &&& if target.len() == 0 {
                says(effects, "❌ Webhook URL is empty; not saved."@)
            } else {
                exists|e: Seq<char>|
                    client::refused_headers(row, e) && #[trigger] says(
                        effects,
                        "❌ Headers not saved: "@ + e,
                    )
            }
        },
        _ => false,
    }
}

/// Whether an action of the window led from one state of the engine to another,
/// and to this step.
pub open spec fn action_led_to(
    pre: Engine,
    post: Engine,
    action: GuiAction,
    paused: bool,
    step: ActionStep,
) -> bool {
    match action {
        GuiAction::TogglePause => {
            &&& post == pre
            &&& step matches ActionStep::Done(effects) && {
                &&& effects.paused == Some(!paused)
                &&& text::texts(effects.lines@) == (if paused {
                    seq!["● Monitoring resumed."@]
                } else {
                    seq!["○ Monitoring paused."@]
                })
                &&& effects.show_status
                &&& !effects.quit
            }
        },
        GuiAction::TestWebhook => {
            &&& post == pre
            &&& step matches ActionStep::SendTest { line, payload } && {
                &&& line@ == "Testing webhook…"@
                &&& exists|now: Timestamp|
                    now.from_clock() && time::timestamp_parts(now.secs(), now.nanos(), now.offset())
                        && payload@ == #[trigger] client::test_payload(now)
            }
        },
        GuiAction::SetWebhookConfig { url, headers } => webhook_set(
            pre,
            post,
            text::trimmed(url@),
            tables::table_row(tables::pair_texts(headers@)),
            step,
        ),
        GuiAction::SetFilter { mode, allowed } => {
            &&& step == ActionStep::Save(Changed::Filter)
            &&& with_filter(
                post.config(),
                pre.config(),
                mode,
                text::texts(allowed@).to_set(),
            )
            &&& only_config_changed(post, pre)
        },
        GuiAction::DumpTree => post == pre && step == ActionStep::DumpTree,
        GuiAction::TestDetection => post == pre && step == ActionStep::TestDetection,
        GuiAction::Quit => {
            &&& post == pre
            &&& step matches ActionStep::Done(effects) && {
                &&& effects.paused is None
                &&& effects.lines@.len() == 0
                &&& !effects.show_status
                &&& effects.quit
            }
        },
    }
}

/// Whether saving the configuration, or failing to, led to this.
pub open spec fn save_led_to(
    pre: Engine,
    post: Engine,
    changed: Changed,
    saved: Result<(), String>,
    effects: ActionEffects,
) -> bool {
    &&& post.config() == pre.config()
    &&& post.in_force()
    &&& post.same_history(pre)
    &&& match saved {
        Ok(_) => match changed {
            Changed::Webhook => says(
                effects,
                "Webhook settings saved ("@ + header_count(pre.config().webhook_headers@.len())
                    + ")."@,
            ),
            Changed::Filter => says(effects, "Application filter saved."@),
        },
        Err(e) => says(effects, "❌ Save failed: "@ + e@),
    }
}

/// Whether these effects tell what came of a test of the webhook.
pub open spec fn test_told(result: Result<u16, WebhookError>, effects: ActionEffects) -> bool {
    match result {
        Ok(status) => says(
            effects,
            "✅ Webhook OK (status "@ + text::decimal(status as nat) + ")"@,
        ),
        Err(e) => says(effects, "❌ Webhook failed: "@ + e.message()),
    }
}

fn say(line: String) -> (r: ActionEffects)
    ensures
        says(r, line@),
{
    let mut lines: Vec<String> = Vec::new();
    lines.push(line);
    assert(text::texts(lines@) =~= seq![line@]);
    ActionEffects { paused: None, lines, show_status: true, quit: false }
}

fn say_with(start: &str, end: &str) -> (r: ActionEffects)
    ensures
        says(r, start@ + end@),
{
    let mut line = start.to_string();
    line.append(end);
    say(line)
}

impl Engine {
    fn set_webhook(&mut self, url: String, headers: Vec<(String, String)>) -> (r: ActionStep)
        ensures
            webhook_set(
                *old(self),
                *final(self),
                text::trimmed(url@),
                tables::table_row(tables::pair_texts(headers@)),
                r,
            ),
    {
        let target = trim(url.as_str());
        if target.as_str().is_empty() {
            return ActionStep::Done(say("❌ Webhook URL is empty; not saved.".to_string()));
        }
        let table = HeaderTable::from_pairs(headers);
        if let Err(error) = validate_headers(&table) {
            let effects = say_with("❌ Headers not saved: ", error.as_str());
            assert(client::refused_headers(table@, error@));
            return ActionStep::Done(effects);
        }
        self.config.webhook_url = target;
        self.config.webhook_headers = table;
        ActionStep::Save(Changed::Webhook)
    }

    /// Takes in an action of the window; `paused` says whether monitoring is
    /// paused. A changed configuration is in force once it was saved, or could
    /// not be.
    pub fn begin_action(&mut self, action: GuiAction, paused: bool) -> (r: ActionStep)
        ensures
            action_led_to(*old(self), *final(self), action, paused, r),
    {
        match action {
            GuiAction::TogglePause => {
                let lines = if paused {
                    one_line("● Monitoring resumed.")
                } else {
                    one_line("○ Monitoring paused.")
                };
                ActionStep::Done(
                    ActionEffects { paused: Some(!paused), lines, show_status: true, quit: false },
                )
            },
            GuiAction::TestWebhook => ActionStep::SendTest {
                line: "Testing webhook…".to_string(),
                payload: WebhookPayload::test(),
            },
            GuiAction::SetWebhookConfig { url, headers } => self.set_webhook(url, headers),
            GuiAction::SetFilter { mode, allowed } => {
                self.config.filter_mode = mode;
                self.config.allowed_apps = NameSet::from_names(allowed);
                ActionStep::Save(Changed::Filter)
            },
            GuiAction::DumpTree => ActionStep::DumpTree,
            GuiAction::TestDetection => ActionStep::TestDetection,
            GuiAction::Quit => ActionStep::Done(
                ActionEffects { paused: None, lines: Vec::new(), show_status: false, quit: true },
            ),
        }
    }

    /// Goes on after the configuration was saved, or could not be. The changed
    /// configuration is in force either way.
    pub fn after_save(&mut self, changed: Changed, saved: Result<(), String>) -> (r: ActionEffects)
        ensures
            save_led_to(*old(self), *final(self), changed, saved, r),
    {
        let effects = match saved {
            Ok(_) => match changed {
                Changed::Webhook => {
                    let mut line = "Webhook settings saved (".to_string();
                    let count = count_headers(self.config.webhook_headers.len());
                    line.append(count.as_str());
                    line.append(").");
                    say(line)
                },
                Changed::Filter => say("Application filter saved.".to_string()),
            },
            Err(e) => say_with("❌ Save failed: ", e.as_str()),
        };
        self.rebuild();
        effects
    }
}

/// Goes on after the test payload was posted.
pub fn after_test(result: &Result<u16, WebhookError>) -> (r: ActionEffects)
    ensures
        test_told(*result, r),
{
    match result {
        Ok(status) => {
            let mut line = "✅ Webhook OK (status ".to_string();
            let number = decimal_text(*status as u64);
            line.append(number.as_str());
            line.append(")");
            say(line)
        },
        Err(e) => {
            let message = e.describe();
            say_with("❌ Webhook failed: ", message.as_str())
        },
    }
}

// ---------------------------------------------------------------------------
// Laws
// ---------------------------------------------------------------------------

/// Nothing reaches the webhook but what the filter lets through, and nothing at
/// all while forwarding is off.
pub proof fn law_only_allowed_apps_are_forwarded(
    pre: Engine,
    post: Engine,
    fields: BannerFieldsView,
    stamp: Timestamp,
    now: nat,
    outcome: BannerOutcome,
)
    requires
        handled(pre, post, fields, stamp, now, outcome),
        outcome.payload is Some,
    ensures
        pre.config().forwarding_enabled,
        outcome.verdict == Verdict::Forwarded,
        parser::parsed(fields) matches Some(n) && pre.filter().passes(n.app_name),
{
}

/// A banner that stays visible is forwarded once: when it was just handled and
/// is seen again within the time to live, it is not forwarded.
pub proof fn law_visible_banner_is_forwarded_once(
    pre: Engine,
    mid: Engine,
    post: Engine,
    fields: BannerFieldsView,
    first: (Timestamp, nat, BannerOutcome),
    second: (Timestamp, nat, BannerOutcome),
)
    requires
        handled(pre, mid, fields, first.0, first.1, first.2),
        handled(mid, post, fields, second.0, second.1, second.2),
        first.2.verdict == Verdict::Forwarded,
        dedup::age(first.1, second.1) < pre.ttl(),
    ensures
        second.2.verdict == Verdict::Duplicate,
        second.2.payload is None,
{
    if let Some(n) = parser::parsed(fields) {
        dedup::law_repeat_is_duplicate(
            pre.seen(),
            mid.seen(),
            post.seen(),
            n.print(),
            first.1,
            second.1,
            pre.ttl(),
            pre.capacity(),
            second.2.verdict == Verdict::Duplicate,
        );
    }
}

/// Content that was seen within the time to live is not forwarded, whichever
/// banners came in between.
pub proof fn law_seen_content_is_not_forwarded(
    pre: Engine,
    post: Engine,
    fields: BannerFieldsView,
    stamp: Timestamp,
    now: nat,
    outcome: BannerOutcome,
)
    requires
        handled(pre, post, fields, stamp, now, outcome),
        parser::parsed(fields) matches Some(n) && dedup::live(
            pre.seen(),
            now,
            pre.ttl(),
        ).contains_key(n.print()),
    ensures
        outcome.verdict == Verdict::Duplicate || outcome.verdict == Verdict::Filtered,
        outcome.payload is None,
{
}

/// A banner whose content was not seen before is new, whatever its element was
/// used for: an allowed one is forwarded.
pub proof fn law_new_content_is_forwarded(
    pre: Engine,
    post: Engine,
    fields: BannerFieldsView,
    stamp: Timestamp,
    now: nat,
    outcome: BannerOutcome,
)
    requires
        handled(pre, post, fields, stamp, now, outcome),
        parser::parsed(fields) matches Some(n) && pre.filter().passes(n.app_name)
            && !pre.seen().contains_key(n.print()),
    ensures
        outcome.verdict == Verdict::Forwarded,
        pre.config().forwarding_enabled ==> outcome.payload is Some,
{
}

/// The body of a notification stays out of the log and off the console: two
/// notifications that differ only in it leave the same traces there.
pub proof fn law_bodies_are_not_logged(
    a: NotificationView,
    b: NotificationView,
    ax_id: Option<Seq<char>>,
    diagnostic: bool,
    verdict: Verdict,
)
    requires
        a.app_name == b.app_name,
        a.title == b.title,
    ensures
        record_of(a, ax_id, diagnostic) == record_of(b, ax_id, diagnostic),
        console_lines(a, verdict) == console_lines(b, verdict),
{
}

/// Without diagnostic logging the log names the application and nothing else.
pub proof fn law_normal_log_names_the_app_only(
    a: NotificationView,
    b: NotificationView,
    id1: Option<Seq<char>>,
    id2: Option<Seq<char>>,
)
    requires
        a.app_name == b.app_name,
    ensures
        record_of(a, id1, false) == record_of(b, id2, false),
{
}

/// The counters tell every banner that says something once: over a scan, the
/// number of notifications grows by the number of such banners.
pub proof fn law_every_notification_is_counted(
    states: Seq<Engine>,
    banners: Seq<BannerFieldsView>,
    readings: Seq<(Timestamp, u128)>,
    outcomes: Seq<BannerOutcome>,
)
    requires
        handled_all(states, banners, readings, outcomes),
        states.first().tally().counts.today + banners.len() <= u64::MAX,
    ensures
        states.last().tally().counts.today == states.first().tally().counts.today
            + outcomes.filter(|o: BannerOutcome| o.verdict != Verdict::Empty).len(),
    decreases banners.len(),
{
    let said = |o: BannerOutcome| o.verdict != Verdict::Empty;
    reveal(Seq::filter);
    if banners.len() > 0 {
        let n = banners.len() - 1;
        let fewer = outcomes.drop_last();
        assert(outcomes[n] == outcomes.last());
        assert forall|i: int|
            #![trigger fewer[i]]
            0 <= i < n implies handled(
            states.drop_last()[i],
            states.drop_last()[i + 1],
            banners.drop_last()[i],
            readings.drop_last()[i].0,
            readings.drop_last()[i].1 as nat,
            fewer[i],
        ) by {
            assert(fewer[i] == outcomes[i]);
        }
        law_every_notification_is_counted(
            states.drop_last(),
            banners.drop_last(),
            readings.drop_last(),
            fewer,
        );
        assert(handled(
            states[n],
            states[n + 1],
            banners[n],
            readings[n].0,
            readings[n].1 as nat,
            outcomes[n],
        ));
        fewer.lemma_filter_len(said);
        assert(fewer.filter(said).len() <= n);
        assert(states[n].tally().counts.today < u64::MAX);
    }
}

/// The age of a banner goes by the running clock: for each banner of a scan the
/// clock of the engine was read, and what it read decides.
pub proof fn law_live_scans_read_the_running_clock(
    pre: Engine,
    post: Engine,
    banners: Seq<BannerFieldsView>,
    outcomes: Seq<BannerOutcome>,
)
    requires
        live_scan(pre, post, banners, outcomes),
    ensures
        outcomes.len() == banners.len(),
        forall|i: int|
            0 <= i < outcomes.len() ==> ((#[trigger] outcomes[i]).read matches Some(reading)
                && reading.clock() == pre.clock()),
{
}

proof fn lemma_settings_stay(
    states: Seq<Engine>,
    stamps: Seq<Timestamp>,
    banners: Seq<BannerFieldsView>,
    outcomes: Seq<BannerOutcome>,
    k: int,
)
    requires
        seen_live(states, stamps, banners, outcomes),
        0 <= k < states.len(),
    ensures
        states[k].same_settings(states[0]),
    decreases k,
{
    if k > 0 {
        lemma_settings_stay(states, stamps, banners, outcomes, k - 1);
        assert(outcomes[k - 1].read is Some);
    }
}

/// A scan changes neither the settings nor the clock.
pub proof fn law_scans_leave_the_settings(
    pre: Engine,
    post: Engine,
    banners: Seq<BannerFieldsView>,
    outcomes: Seq<BannerOutcome>,
)
    requires
        live_scan(pre, post, banners, outcomes),
    ensures
        post.config() == pre.config(),
        post.filter() == pre.filter(),
        post.client() == pre.client(),
        post.ttl() == pre.ttl(),
        post.capacity() == pre.capacity(),
        post.clock() == pre.clock(),
{
    let (states, stamps) = choose|states: Seq<Engine>, stamps: Seq<Timestamp>|
        states.first() == pre && states.last() == post && #[trigger] seen_live(
            states,
            stamps,
            banners,
            outcomes,
        );
    lemma_settings_stay(states, stamps, banners, outcomes, states.len() - 1);
}

/// Two scans one after the other are one scan of the banners of both.
pub proof fn law_scans_add_up(
    pre: Engine,
    mid: Engine,
    post: Engine,
    a: Seq<BannerFieldsView>,
    b: Seq<BannerFieldsView>,
    first: Seq<BannerOutcome>,
    second: Seq<BannerOutcome>,
)
    requires
        live_scan(pre, mid, a, first),
        live_scan(mid, post, b, second),
    ensures
        live_scan(pre, post, a + b, first + second),
{
    let (s1, t1) = choose|states: Seq<Engine>, stamps: Seq<Timestamp>|
        states.first() == pre && states.last() == mid && #[trigger] seen_live(
            states,
            stamps,
            a,
            first,
        );
    let (s2, t2) = choose|states: Seq<Engine>, stamps: Seq<Timestamp>|
        states.first() == mid && states.last() == post && #[trigger] seen_live(
            states,
            stamps,
            b,
            second,
        );
    lemma_settings_stay(s1, t1, a, first, s1.len() - 1);
    let states = s1.drop_last() + s2;
    let stamps = t1 + t2;
    let n = a.len() as int;
    assert(states[n] == mid);
    assert forall|i: int|
        #![trigger (first + second)[i]]
        0 <= i < (a + b).len() implies stamps[i].from_clock() && ((first
        + second)[i].read matches Some(reading) && reading.clock() == states[0].clock() && handled(
        states[i],
        states[i + 1],
        (a + b)[i],
        stamps[i],
        reading.nanos(),
        (first + second)[i],
    )) by {
        if i < n {
            assert((first + second)[i] == first[i]);
            assert(states[i] == s1[i]);
            assert(states[i + 1] == s1[i + 1]);
        } else {
            assert((first + second)[i] == second[i - n]);
            assert(states[i] == s2[i - n]);
            assert(states[i + 1] == s2[i + 1 - n]);
        }
    }
    assert(states.first() == pre);
    assert(states.last() == post);
    assert(seen_live(states, stamps, a + b, first + second));
}

/// Content that was recorded at least the time to live ago is forwarded again.
pub proof fn law_expired_content_is_forwarded(
    pre: Engine,
    post: Engine,
    fields: BannerFieldsView,
    stamp: Timestamp,
    now: nat,
    outcome: BannerOutcome,
)
    requires
        handled(pre, post, fields, stamp, now, outcome),
        parser::parsed(fields) matches Some(n) && pre.filter().passes(n.app_name) && (
        pre.seen().contains_key(n.print()) ==> pre.seen()[n.print()] + pre.ttl() <= now),
    ensures
        outcome.verdict == Verdict::Forwarded,
        pre.config().forwarding_enabled ==> outcome.payload is Some,
        parser::parsed(fields) matches Some(n) && post.seen().contains_key(n.print())
            && post.seen()[n.print()] == now,
{
}

proof fn lemma_others_leave_entries(
    pre: Engine,
    post: Engine,
    fields: BannerFieldsView,
    stamp: Timestamp,
    now: nat,
    outcome: BannerOutcome,
    print: Seq<char>,
)
    requires
        handled(pre, post, fields, stamp, now, outcome),
        parser::parsed(fields) matches Some(n) ==> n.print() != print,
        post.seen().contains_key(print),
    ensures
        pre.seen().contains_key(print),
        post.seen()[print] == pre.seen()[print],
{
}

proof fn lemma_entry_between(
    states: Seq<Engine>,
    stamps: Seq<Timestamp>,
    banners: Seq<BannerFieldsView>,
    outcomes: Seq<BannerOutcome>,
    print: Seq<char>,
    i: int,
    j: int,
)
    requires
        seen_live(states, stamps, banners, outcomes),
        0 <= i <= j < states.len(),
        forall|k: int|
            #![trigger banners[k]]
            i <= k < j ==> (parser::parsed(banners[k]) matches Some(n) ==> n.print() != print),
        states[j].seen().contains_key(print),
    ensures
        states[i].seen().contains_key(print),
        states[j].seen()[print] == states[i].seen()[print],
    decreases j - i,
{
    if i < j {
        assert(outcomes[j - 1].read is Some);
        let _ = banners[j - 1];
        lemma_others_leave_entries(
            states[j - 1],
            states[j],
            banners[j - 1],
            stamps[j - 1],
            outcomes[j - 1].read->0.nanos(),
            outcomes[j - 1],
            print,
        );
        lemma_entry_between(states, stamps, banners, outcomes, print, i, j - 1);
    }
}

/// What was recorded is seen anew once the time to live is over: where a banner
/// of a scan was forwarded, a later one with the same content is forwarded too,
/// if the clock read at least the time to live more for it and no banner in
/// between had that content. The two may belong to two scans, see
/// [`law_scans_add_up`].
pub proof fn law_the_clock_lets_entries_expire(
    pre: Engine,
    post: Engine,
    banners: Seq<BannerFieldsView>,
    outcomes: Seq<BannerOutcome>,
    i: int,
    j: int,
)
    requires
        live_scan(pre, post, banners, outcomes),
        0 <= i < j < banners.len(),
        parser::parsed(banners[i]) matches Some(n) && (parser::parsed(banners[j]) matches Some(m)
            && n.print() == m.print() && pre.filter().passes(m.app_name)),
        forall|k: int|
            #![trigger banners[k]]
            i < k < j ==> (parser::parsed(banners[k]) matches Some(n) ==> n.print()
                != parser::parsed(banners[i])->0.print()),
        outcomes[i].verdict == Verdict::Forwarded,
        outcomes[i].read matches Some(first) && (outcomes[j].read matches Some(second)
            && first.nanos() + pre.ttl() <= second.nanos()),
    ensures
        outcomes[j].verdict == Verdict::Forwarded,
        pre.config().forwarding_enabled ==> outcomes[j].payload is Some,
{
    let (states, stamps) = choose|states: Seq<Engine>, stamps: Seq<Timestamp>|
        states.first() == pre && states.last() == post && #[trigger] seen_live(
            states,
            stamps,
            banners,
            outcomes,
        );
    let print = parser::parsed(banners[i])->0.print();
    lemma_settings_stay(states, stamps, banners, outcomes, i);
    lemma_settings_stay(states, stamps, banners, outcomes, j);
    let first = outcomes[i].read->0.nanos();
    let second = outcomes[j].read->0.nanos();
    assert(handled(states[i], states[i + 1], banners[i], stamps[i], first, outcomes[i]));
    assert(states[i + 1].seen().contains_key(print) && states[i + 1].seen()[print] == first);
    if states[j].seen().contains_key(print) {
        lemma_entry_between(states, stamps, banners, outcomes, print, i + 1, j);
    }
    law_expired_content_is_forwarded(
        states[j],
        states[j + 1],
        banners[j],
        stamps[j],
        second,
        outcomes[j],
    );
}

/// What was seen before a scan and has been recorded for the time to live by the
/// reading for a banner is forwarded again with it, unless an earlier banner of
/// the scan had that content.
pub proof fn law_old_entries_expire_by_the_clock(
    pre: Engine,
    post: Engine,
    banners: Seq<BannerFieldsView>,
    outcomes: Seq<BannerOutcome>,
    j: int,
)
    requires
        live_scan(pre, post, banners, outcomes),
        0 <= j < banners.len(),
        parser::parsed(banners[j]) matches Some(m) && pre.filter().passes(m.app_name),
        forall|k: int|
            #![trigger banners[k]]
            0 <= k < j ==> (parser::parsed(banners[k]) matches Some(n) ==> n.print()
                != parser::parsed(banners[j])->0.print()),
        outcomes[j].read matches Some(reading) && (pre.seen().contains_key(
            parser::parsed(banners[j])->0.print(),
        ) ==> pre.seen()[parser::parsed(banners[j])->0.print()] + pre.ttl() <= reading.nanos()),
    ensures
        outcomes[j].verdict == Verdict::Forwarded,
        pre.config().forwarding_enabled ==> outcomes[j].payload is Some,
{
    let (states, stamps) = choose|states: Seq<Engine>, stamps: Seq<Timestamp>|
        states.first() == pre && states.last() == post && #[trigger] seen_live(
            states,
            stamps,
            banners,
            outcomes,
        );
    let print = parser::parsed(banners[j])->0.print();
    lemma_settings_stay(states, stamps, banners, outcomes, j);
    let now = outcomes[j].read->0.nanos();
    if states[j].seen().contains_key(print) {
        lemma_entry_between(states, stamps, banners, outcomes, print, 0, j);
    }
    law_expired_content_is_forwarded(
        states[j],
        states[j + 1],
        banners[j],
        stamps[j],
        now,
        outcomes[j],
    );
}

proof fn lemma_others_keep_entries(
    pre: Engine,
    post: Engine,
    fields: BannerFieldsView,
    stamp: Timestamp,
    now: nat,
    outcome: BannerOutcome,
    print: Seq<char>,
)
    requires
        handled(pre, post, fields, stamp, now, outcome),
        pre.seen().dom().finite(),
        pre.seen().len() < pre.capacity(),
        pre.seen().contains_key(print),
        now < pre.seen()[print] + pre.ttl(),
        pre.ttl() > 0,
    ensures
        post.seen().contains_key(print),
        post.seen()[print] == pre.seen()[print],
        post.seen().dom().finite(),
        post.seen().len() <= pre.seen().len() + 1,
{
    if let Some(n) = parser::parsed(fields) {
        if pre.filter().passes(n.app_name) {
            let kept = dedup::live(pre.seen(), now, pre.ttl());
            assert(kept.contains_key(print));
            assert(kept.dom().subset_of(pre.seen().dom()));
            vstd::set_lib::lemma_len_subset(kept.dom(), pre.seen().dom());
            if outcome.verdict == Verdict::Forwarded {
                assert(post.seen().dom() =~= kept.dom().insert(n.print()));
            }
        }
    }
}

proof fn lemma_entry_lasts(
    states: Seq<Engine>,
    stamps: Seq<Timestamp>,
    banners: Seq<BannerFieldsView>,
    outcomes: Seq<BannerOutcome>,
    print: Seq<char>,
    i: int,
    j: int,
    at: nat,
)
    requires
        seen_live(states, stamps, banners, outcomes),
        0 <= i <= j < states.len(),
        states[i].seen().dom().finite(),
        states[i].seen().len() + (j - i) <= states[0].capacity(),
        states[0].ttl() > 0,
        states[i].seen().contains_key(print),
        states[i].seen()[print] == at,
        forall|k: int|
            #![trigger outcomes[k]]
            i <= k < j ==> (outcomes[k].read matches Some(reading) && reading.nanos() < at
                + states[0].ttl()),
    ensures
        states[j].seen().dom().finite(),
        states[j].seen().len() <= states[i].seen().len() + (j - i),
        states[j].seen().contains_key(print),
        states[j].seen()[print] == at,
    decreases j - i,
{
    if i < j {
        lemma_entry_lasts(states, stamps, banners, outcomes, print, i, j - 1, at);
        lemma_settings_stay(states, stamps, banners, outcomes, j - 1);
        assert(outcomes[j - 1].read is Some);
        lemma_others_keep_entries(
            states[j - 1],
            states[j],
            banners[j - 1],
            stamps[j - 1],
            outcomes[j - 1].read->0.nanos(),
            outcomes[j - 1],
            print,
        );
    }
}

/// While there is room and the time to live is not over, what was seen stays
/// seen: a banner whose content was recorded before a scan is not forwarded,
/// whatever came before it in the scan.
pub proof fn law_recorded_content_stays_seen(
    pre: Engine,
    post: Engine,
    banners: Seq<BannerFieldsView>,
    outcomes: Seq<BannerOutcome>,
    j: int,
)
    requires
        live_scan(pre, post, banners, outcomes),
        0 <= j < banners.len(),
        pre.seen().dom().finite(),
        pre.seen().len() + j <= pre.capacity(),
        pre.ttl() > 0,
        parser::parsed(banners[j]) matches Some(m) && pre.filter().passes(m.app_name)
            && pre.seen().contains_key(m.print()),
        forall|k: int|
            #![trigger outcomes[k]]
            0 <= k <= j ==> (outcomes[k].read matches Some(reading) && reading.nanos()
                < pre.seen()[parser::parsed(banners[j])->0.print()] + pre.ttl()),
    ensures
        outcomes[j].verdict == Verdict::Duplicate,
        outcomes[j].payload is None,
{
    let (states, stamps) = choose|states: Seq<Engine>, stamps: Seq<Timestamp>|
        states.first() == pre && states.last() == post && #[trigger] seen_live(
            states,
            stamps,
            banners,
            outcomes,
        );
    let print = parser::parsed(banners[j])->0.print();
    lemma_settings_stay(states, stamps, banners, outcomes, j);
    lemma_entry_lasts(
        states,
        stamps,
        banners,
        outcomes,
        print,
        0,
        j,
        pre.seen()[print],
    );
    assert(outcomes[j].read is Some);
}

/// A banner that is filtered out, or says nothing, leaves no trace among what
/// was seen: its content is as new afterwards as it was before.
pub proof fn law_filtered_banners_are_not_recorded(
    pre: Engine,
    post: Engine,
    fields: BannerFieldsView,
    stamp: Timestamp,
    now: nat,
    outcome: BannerOutcome,
)
    requires
        handled(pre, post, fields, stamp, now, outcome),
        outcome.verdict == Verdict::Filtered || outcome.verdict == Verdict::Empty,
    ensures
        post.seen() == pre.seen(),
        outcome.payload is None,
        outcome.verdict == Verdict::Empty <==> parser::parsed(fields) is None,
        outcome.verdict == Verdict::Filtered ==> (parser::parsed(fields) matches Some(n)
            && !pre.filter().passes(n.app_name)),
{
}

/// What reaches the webhook is what the banner says, with the time at which it
/// was seen.
pub proof fn law_payloads_say_what_the_banner_says(
    pre: Engine,
    post: Engine,
    fields: BannerFieldsView,
    stamp: Timestamp,
    now: nat,
    outcome: BannerOutcome,
)
    requires
        handled(pre, post, fields, stamp, now, outcome),
        outcome.payload is Some,
    ensures
        parser::parsed(fields) matches Some(n) && (outcome.payload matches Some(payload) && {
            &&& payload.app_name@ == n.app_name
            &&& payload.title@ == n.title
            &&& payload.message@ == n.message
            &&& text::opt_text(payload.notification_id) == n.id
            &&& payload.timestamp@ == stamp.text()
        }),
{
}

/// While forwarding is off, banners are recorded and counted as they are while
/// it is on: only the payload is missing.
pub proof fn law_forwarding_switch_stops_payloads_only(
    pre: Engine,
    post: Engine,
    fields: BannerFieldsView,
    stamp: Timestamp,
    now: nat,
    outcome: BannerOutcome,
)
    requires
        handled(pre, post, fields, stamp, now, outcome),
        outcome.verdict == Verdict::Forwarded,
    ensures
        outcome.payload is Some <==> pre.config().forwarding_enabled,
        parser::parsed(fields) matches Some(n) && post.seen().contains_key(n.print())
            && post.tally() == tally::tallied(pre.tally(), Verdict::Forwarded, n),
{
}

/// With diagnostic logging the log tells title and identifier as they are;
/// it tells the application either way.
pub proof fn law_log_tells_the_application(
    n: NotificationView,
    ax_id: Option<Seq<char>>,
    diagnostic: bool,
)
    ensures
        record_of(n, ax_id, diagnostic).app_name == n.app_name,
        diagnostic ==> record_of(n, ax_id, diagnostic).title == Some(n.title),
        diagnostic ==> record_of(n, ax_id, diagnostic).ax_id == ax_id,
        !diagnostic ==> record_of(n, ax_id, diagnostic).title is None,
        !diagnostic ==> record_of(n, ax_id, diagnostic).ax_id is None,
{
}

/// The console tells application and title of every notification first, then why
/// it goes no further, where it does not.
pub proof fn law_console_tells_every_notification(n: NotificationView, verdict: Verdict)
    ensures
        verdict == Verdict::Empty <==> console_lines(n, verdict).len() == 0,
        verdict != Verdict::Empty ==> console_lines(n, verdict)[0] == "🔔 "@ + n.app_name + " — "@
            + n.title,
        verdict == Verdict::Forwarded <==> console_lines(n, verdict).len() == 1,
        verdict == Verdict::Filtered ==> console_lines(n, verdict).len() == 2 && console_lines(
            n,
            verdict,
        )[1] == "  filtered (app not allowed): "@ + n.app_name,
        verdict == Verdict::Duplicate ==> console_lines(n, verdict).len() == 2 && console_lines(
            n,
            verdict,
        )[1] == "  duplicate ignored"@,
{
}

/// The history shows the newest notification first and the others behind it in
/// the order of their age, eight in all.
pub proof fn law_history_shows_the_newest_first(
    recent: Seq<NotificationView>,
    newest: NotificationView,
)
    ensures
        history(Seq::empty()) == Seq::<RecentItemView>::empty(),
        history(recent).len() <= 8,
        recent.len() < 8 ==> history(recent.push(newest)) == seq![
            RecentItemView { app: newest.app_name, title: newest.title, message: newest.message },
        ] + history(recent),
        recent.len() >= 8 ==> history(recent.push(newest)) == seq![
            RecentItemView { app: newest.app_name, title: newest.title, message: newest.message },
        ] + history(recent).drop_last(),
{
    assert(history(Seq::empty()) =~= Seq::<RecentItemView>::empty());
    let item = RecentItemView {
        app: newest.app_name,
        title: newest.title,
        message: newest.message,
    };
    if recent.len() < 8 {
        assert(history(recent.push(newest)) =~= seq![item] + history(recent));
    } else {
        assert(history(recent.push(newest)) =~= seq![item] + history(recent).drop_last());
    }
}

/// The number of headers is told in digits, with the word in the plural unless
/// there is one.
pub proof fn law_header_counts_are_told(n: nat)
    ensures
        n == 1 ==> header_count(n) == "1 custom header"@,
        n != 1 ==> exists|digits: Seq<char>|
            header_count(n) == #[trigger] (digits + " custom headers"@) && text::all_digits(digits)
                && text::digits_value(digits) == n,
{
    text::law_decimals_write_the_number(n);
    if n == 1 {
        reveal_strlit("1 custom header");
        reveal_strlit(" custom header");
        reveal_with_fuel(text::decimal, 2);
        assert(text::digit(1) == '1');
        assert(header_count(n) =~= "1 custom header"@);
    } else {
        assert(header_count(n) == text::decimal(n) + " custom headers"@);
    }
}

/// The status shows the counters as they are, the filter in the settings, and
/// whether anything is monitored: it is where the permission is there and
/// nobody paused it.
pub proof fn law_status_shows_the_engine(
    engine: Engine,
    trusted: bool,
    paused: bool,
    pid: Option<i32>,
    exiting: bool,
)
    ensures
        ({
            let status = status_of(engine, trusted, paused, pid, exiting);
            let counts = engine.tally().counts;
            &&& status.monitoring <==> trusted && !paused
            &&& status.needs_permission <==> !trusted
            &&& status.exiting <==> exiting
            &&& status.today == counts.today
            &&& status.forwarded == counts.forwarded
            &&& status.duplicates == counts.duplicates
            &&& status.filtered == counts.filtered
            &&& status.filter_mode == engine.config().filter_mode
            &&& status.recent == history(engine.tally().recent)
            &&& status.accessibility == (if trusted {
                "✓ Enabled"@
            } else {
                "✗ Permission required"@
            })
            &&& pid is None ==> status.notification_center == "✗ Not found"@
            &&& status.webhook == "Ready · "@ + header_count(
                engine.config().webhook_headers@.len(),
            )
        }),
        pid matches Some(p) ==> exists|number: Seq<char>|
            status_of(engine, trusted, paused, pid, exiting).notification_center == #[trigger] (
            "✓ Connected (pid "@ + number + ")"@) && text::parsed_i32(number) == Some(p as int),
{
    if let Some(p) = pid {
        text::law_written_numbers_are_read_back(p);
        assert(status_of(engine, trusted, paused, pid, exiting).notification_center
            == "✓ Connected (pid "@ + text::signed_decimal(p as int) + ")"@);
    }
}

/// The status is worth showing anew exactly where some banner said something.
pub proof fn law_status_follows_what_was_said(outcomes: Seq<BannerOutcome>, last: BannerOutcome)
    ensures
        !any_said(Seq::empty()),
        any_said(outcomes.push(last)) <==> any_said(outcomes) || last.verdict != Verdict::Empty,
{
    let more = outcomes.push(last);
    if any_said(outcomes) {
        let i = choose|i: int|
            0 <= i < outcomes.len() && (#[trigger] outcomes[i]).verdict != Verdict::Empty;
        assert(more[i] == outcomes[i]);
    }
    if last.verdict != Verdict::Empty {
        assert(more[outcomes.len() as int] == last);
    }
    if any_said(more) {
        let i = choose|i: int|
            0 <= i < more.len() && (#[trigger] more[i]).verdict != Verdict::Empty;
        if i < outcomes.len() {
            assert(more[i] == outcomes[i]);
        }
    }
}

/// Changed webhook settings leave every other setting as it was.
pub proof fn law_webhook_settings_change_nothing_else(
    config: AppConfig,
    pre: AppConfig,
    url: Seq<char>,
    headers: Seq<(Seq<char>, Seq<char>)>,
)
    requires
        with_webhook(config, pre, url, headers),
    ensures
        config.webhook_url@ == url,
        config.webhook_headers@ == headers,
        config.forwarding_enabled == pre.forwarding_enabled,
        config.diagnostic_logging == pre.diagnostic_logging,
        config.start_at_login == pre.start_at_login,
        config.filter_mode == pre.filter_mode,
        config.allowed_apps == pre.allowed_apps,
        config.dedup_ttl_secs == pre.dedup_ttl_secs,
        config.dedup_capacity == pre.dedup_capacity,
        config.debounce_ms == pre.debounce_ms,
        config.max_attempts == pre.max_attempts,
{
}

/// A changed filter leaves every other setting as it was.
pub proof fn law_filter_settings_change_nothing_else(
    config: AppConfig,
    pre: AppConfig,
    mode: config::FilterMode,
    allowed: Set<Seq<char>>,
)
    requires
        with_filter(config, pre, mode, allowed),
    ensures
        config.filter_mode == mode,
        config.allowed_apps@ == allowed,
        config.webhook_url == pre.webhook_url,
        config.webhook_headers == pre.webhook_headers,
        config.forwarding_enabled == pre.forwarding_enabled,
        config.diagnostic_logging == pre.diagnostic_logging,
        config.start_at_login == pre.start_at_login,
        config.dedup_ttl_secs == pre.dedup_ttl_secs,
        config.dedup_capacity == pre.dedup_capacity,
        config.debounce_ms == pre.debounce_ms,
        config.max_attempts == pre.max_attempts,
{
}

/// A changed configuration takes nothing away from what was seen and counted,
/// and is in force only once it is put there.
pub proof fn law_changed_settings_keep_the_history(post: Engine, pre: Engine)
    requires
        only_config_changed(post, pre),
    ensures
        post.seen() == pre.seen(),
        post.tally() == pre.tally(),
        post.ttl() == pre.ttl(),
        post.capacity() == pre.capacity(),
        post.clock() == pre.clock(),
        post.filter() == pre.filter(),
        post.client() == pre.client(),
{
}

/// The settings in force are those of the configuration: names that are allowed
/// pass in any case of their letters, and requests go to its address, as often
/// as it says within the limits.
pub proof fn law_settings_in_force_are_those_of_the_configuration(
    engine: Engine,
    app_name: Seq<char>,
)
    requires
        engine.in_force(),
    ensures
        engine.client().target() == engine.config().webhook_url@,
        1 <= engine.config().max_attempts <= 5 ==> engine.client().attempts()
            == engine.config().max_attempts,
        1 <= engine.client().attempts() <= 5,
        engine.config().filter_mode == config::FilterMode::All ==> engine.filter().passes(app_name),
        engine.config().filter_mode == config::FilterMode::Selected ==> (engine.filter().passes(
            app_name,
        ) <==> exists|name: Seq<char>|
            #![trigger engine.config().allowed_apps@.contains(name)]
            engine.config().allowed_apps@.contains(name) && text::lowered(name) == text::lowered(
                app_name,
            )),
{
    if engine.config().filter_mode == config::FilterMode::Selected {
        filter::law_matching_ignores_case(engine.filter(), engine.config(), app_name);
    }
}

/// While monitoring is paused, banners leave the engine as it is and nothing is
/// sent or said; otherwise each banner is handled. Either way the monitor goes
/// on, and no line but those of the banners is said.
pub proof fn law_paused_monitors_pass_banners_over(
    pre: Engine,
    post: Engine,
    banners: Vec<BannerSnapshot>,
    has_window: bool,
    paused: bool,
    effects: EventEffects,
)
    requires
        event_led_to(
            pre,
            post,
            MonitorEvent::Banners(banners),
            has_window,
            paused,
            effects,
        ),
    ensures
        effects.next == Next::Continue,
        effects.lines@.len() == 0,
        paused ==> post == pre && effects.outcomes@.len() == 0 && !effects.show_status,
        !paused ==> effects.outcomes@.len() == banners@.len() && live_scan(
            pre,
            post,
            scanner::banner_views(banners@),
            effects.outcomes@,
        ),
        !paused ==> (effects.show_status <==> exists|i: int|
            0 <= i < effects.outcomes@.len() && (#[trigger] effects.outcomes@[i]).verdict
                != Verdict::Empty),
{
    if paused {
        assert(text::texts(effects.lines@).len() == effects.lines@.len());
    }
}

/// A lost permission ends a monitor without a window, and makes one with a
/// window wait for it; what was seen and counted stays, and one line says so.
pub proof fn law_lost_permission_ends_or_waits(
    pre: Engine,
    post: Engine,
    has_window: bool,
    paused: bool,
    effects: EventEffects,
)
    requires
        event_led_to(
            pre,
            post,
            MonitorEvent::PermissionRevoked,
            has_window,
            paused,
            effects,
        ),
    ensures
        post == pre,
        effects.next == Next::WaitForPermission <==> has_window,
        effects.next == Next::Quit <==> !has_window,
        !effects.show_status,
        effects.outcomes@.len() == 0,
        text::texts(effects.lines@) == seq!["⚠️ Accessibility permission revoked."@],
{
}

/// A restart of Notification Center is told and shown, changes nothing, and the
/// monitor goes on.
pub proof fn law_reconnection_is_told(
    pre: Engine,
    post: Engine,
    pid: i32,
    has_window: bool,
    paused: bool,
    effects: EventEffects,
)
    requires
        event_led_to(
            pre,
            post,
            MonitorEvent::Reconnected { pid },
            has_window,
            paused,
            effects,
        ),
    ensures
        post == pre,
        effects.next == Next::Continue,
        effects.show_status,
        effects.outcomes@.len() == 0,
        text::texts(effects.lines@) == seq!["↻ Notification Center reconnected."@],
{
}

/// Monitoring can start exactly where the permission is there. Only a change is
/// told: that it is missing at the first look, that it has come at a later one.
pub proof fn law_looks_tell_changes_only(first: bool, trusted: bool, step: WaitStep)
    requires
        look_told(first, trusted, step),
    ensures
        step.ready <==> trusted,
        first && trusted || !first && !trusted ==> !step.show_status && step.lines@.len() == 0,
        first && !trusted ==> step.show_status && text::texts(step.lines@) == seq![
            "⚠️ Accessibility permission required. System Settings → Privacy & Security → Accessibility."@,
        ],
        !first && trusted ==> step.show_status && text::texts(step.lines@) == seq![
            "✓ Accessibility permission granted."@,
        ],
{
    assert(text::texts(step.lines@).len() == step.lines@.len());
}

/// Pausing twice is pausing not at all, and it changes nothing about the engine.
pub proof fn law_pausing_toggles(
    pre: Engine,
    post: Engine,
    paused: bool,
    step: ActionStep,
)
    requires
        action_led_to(pre, post, GuiAction::TogglePause, paused, step),
    ensures
        post == pre,
        step matches ActionStep::Done(effects) && {
            &&& effects.paused == Some(!paused)
            &&& effects.show_status && !effects.quit
            &&& paused ==> text::texts(effects.lines@) == seq!["● Monitoring resumed."@]
            &&& !paused ==> text::texts(effects.lines@) == seq!["○ Monitoring paused."@]
        },
{
}

/// Only the request to quit makes the engine exit; it says nothing and changes
/// nothing.
pub proof fn law_only_quitting_quits(
    pre: Engine,
    post: Engine,
    action: GuiAction,
    paused: bool,
    step: ActionStep,
)
    requires
        action_led_to(pre, post, action, paused, step),
    ensures
        (step matches ActionStep::Done(effects) && effects.quit) <==> action == GuiAction::Quit,
        action == GuiAction::Quit ==> post == pre,
        action is TestWebhook || action is DumpTree || action is TestDetection ==> post == pre,
        step is DumpTree <==> action is DumpTree,
        step is TestDetection <==> action is TestDetection,
        step is SendTest <==> action is TestWebhook,
{
}

/// A test of the webhook posts the payload for tests with the time at which it
/// was asked for.
pub proof fn law_tests_post_the_test_payload(
    pre: Engine,
    post: Engine,
    paused: bool,
    step: ActionStep,
)
    requires
        action_led_to(pre, post, GuiAction::TestWebhook, paused, step),
    ensures
        step matches ActionStep::SendTest { line, payload } && {
            &&& line@ == "Testing webhook…"@
            &&& payload.app_name@ == "Notification Forwarder"@
            &&& payload.title@ == "Test"@
            &&& payload.message@ == "Webhook test from Notification Forwarder"@
            &&& payload.notification_id is None
            &&& exists|now: Timestamp|
                now.from_clock() && payload.timestamp@ == #[trigger] now.text()
        },
{
    if let ActionStep::SendTest { line, payload } = step {
        let now = choose|now: Timestamp|
            now.from_clock() && time::timestamp_parts(now.secs(), now.nanos(), now.offset())
                && payload@ == #[trigger] client::test_payload(now);
        assert(payload.timestamp@ == now.text());
    }
}

/// Webhook settings are saved exactly where there is an address and every header
/// can be sent, as far as there is room for them; otherwise nothing is changed,
/// and what is wrong is told. The white space around the address does not count.
pub proof fn law_webhook_settings_are_checked(
    pre: Engine,
    post: Engine,
    url: String,
    headers: Vec<(String, String)>,
    paused: bool,
    step: ActionStep,
)
    requires
        action_led_to(pre, post, GuiAction::SetWebhookConfig { url, headers }, paused, step),
    ensures
        ({
            let row = tables::table_row(tables::pair_texts(headers@));
            let valid = forall|i: int|
                0 <= i < row.len() ==> client::valid_header_name((#[trigger] row[i]).0)
                    && client::valid_header_value(row[i].1);
            &&& step is Save || step is Done
            &&& step is Save ==> {
                &&& step == ActionStep::Save(Changed::Webhook)
                &&& !text::blank(url@)
                &&& valid
                &&& post.config().webhook_url@ == text::trimmed(url@)
                &&& post.config().webhook_headers@ == row
                &&& post.same_history(pre)
            }
            &&& step is Done ==> post == pre
            &&& text::blank(url@) ==> (step matches ActionStep::Done(effects) && text::texts(
                effects.lines@,
            ) == seq!["❌ Webhook URL is empty; not saved."@])
            &&& !text::blank(url@) && valid && row.len() <= 6500 ==> step is Save
            &&& !text::blank(url@) && !valid ==> step is Done
        }),
{
    let row = tables::table_row(tables::pair_texts(headers@));
    let _ = text::law_trimming_takes_white_space_only(url@);
    client::law_first_faulty_header_is_told(row);
    if let Some(fault) = client::first_fault(row) {
        let i = choose|i: int| #[trigger] client::told_at(row, i, fault);
        assert(!(client::valid_header_name(row[i].0) && client::valid_header_value(row[i].1)));
    }
}

/// A filter that the window sets is taken over as it is: the mode, and each of
/// the names.
pub proof fn law_filters_are_taken_over(
    pre: Engine,
    post: Engine,
    mode: config::FilterMode,
    allowed: Vec<String>,
    paused: bool,
    step: ActionStep,
    name: Seq<char>,
)
    requires
        action_led_to(pre, post, GuiAction::SetFilter { mode, allowed }, paused, step),
    ensures
        step == ActionStep::Save(Changed::Filter),
        post.config().filter_mode == mode,
        post.config().allowed_apps@.contains(name) <==> exists|i: int|
            0 <= i < allowed@.len() && (#[trigger] allowed@[i])@ == name,
        post.config().webhook_url == pre.config().webhook_url,
        post.config().webhook_headers == pre.config().webhook_headers,
        post.same_history(pre),
{
    let names = text::texts(allowed@);
    if names.contains(name) {
        let i = choose|i: int| 0 <= i < names.len() && names[i] == name;
        assert(allowed@[i]@ == name);
    }
    if exists|i: int| 0 <= i < allowed@.len() && (#[trigger] allowed@[i])@ == name {
        let i = choose|i: int| 0 <= i < allowed@.len() && (#[trigger] allowed@[i])@ == name;
        assert(names[i] == name);
    }
}

/// Changed settings are in force after they were saved and after they could not
/// be, and the window is told which of the two; what was seen and counted stays.
pub proof fn law_saving_puts_settings_in_force(
    pre: Engine,
    post: Engine,
    changed: Changed,
    saved: Result<(), String>,
    effects: ActionEffects,
)
    requires
        save_led_to(pre, post, changed, saved, effects),
    ensures
        post.config() == pre.config(),
        post.filter().matches_config(pre.config()),
        post.client().target() == pre.config().webhook_url@,
        post.seen() == pre.seen(),
        post.tally() == pre.tally(),
        effects.paused is None && effects.show_status && !effects.quit,
        match saved {
            Ok(_) => match changed {
                Changed::Webhook => text::texts(effects.lines@) == seq![
                    "Webhook settings saved ("@ + header_count(
                        pre.config().webhook_headers@.len(),
                    ) + ")."@,
                ],
                Changed::Filter => text::texts(effects.lines@) == seq![
                    "Application filter saved."@,
                ],
            },
            Err(e) => text::texts(effects.lines@) == seq!["❌ Save failed: "@ + e@],
        },
{
}

/// What came of a test is told: the status that means success, or the error.
pub proof fn law_tests_tell_their_result(
    result: Result<u16, WebhookError>,
    effects: ActionEffects,
)
    requires
        test_told(result, effects),
    ensures
        effects.paused is None && effects.show_status && !effects.quit,
        match result {
            Ok(status) => text::texts(effects.lines@) == seq![
                "✅ Webhook OK (status "@ + text::decimal(status as nat) + ")"@,
            ],
            Err(e) => text::texts(effects.lines@) == seq!["❌ Webhook failed: "@ + e.message()],
        },
{
}

/// A scan that was handled as it was seen is a scan handled at some readings of
/// the clocks: what holds of every such scan holds of it.
pub proof fn law_live_scans_are_scans(
    pre: Engine,
    post: Engine,
    banners: Seq<BannerFieldsView>,
    outcomes: Seq<BannerOutcome>,
) -> (r: (Seq<Engine>, Seq<(Timestamp, u128)>))
    requires
        live_scan(pre, post, banners, outcomes),
    ensures
        r.0.first() == pre,
        r.0.last() == post,
        handled_all(r.0, banners, r.1, outcomes),
        forall|i: int| 0 <= i < r.1.len() ==> (#[trigger] r.1[i]).0.from_clock(),
{
    let (states, stamps) = choose|states: Seq<Engine>, stamps: Seq<Timestamp>|
        states.first() == pre && states.last() == post && #[trigger] seen_live(
            states,
            stamps,
            banners,
            outcomes,
        );
    let readings = Seq::new(
        banners.len(),
        |i: int| (stamps[i], outcomes[i].read->0.nanos() as u128),
    );
    assert forall|i: int|
        #![trigger outcomes[i]]
        0 <= i < banners.len() implies readings[i].0.from_clock() && handled(
        states[i],
        states[i + 1],
        banners[i],
        readings[i].0,
        readings[i].1 as nat,
        outcomes[i],
    ) by {
        assert(outcomes[i].read is Some);
        time::lemma_reading_fits(outcomes[i].read->0);
    }
    assert forall|i: int| 0 <= i < readings.len() implies (#[trigger] readings[i]).0.from_clock() by {
        let _ = outcomes[i];
    }
    (states, readings)
}

/// What a scan sends on tells the time that the machine's clock had for it.
pub proof fn law_live_payloads_are_dated_by_the_clock(
    pre: Engine,
    post: Engine,
    banners: Seq<BannerFieldsView>,
    outcomes: Seq<BannerOutcome>,
    i: int,
)
    requires
        live_scan(pre, post, banners, outcomes),
        0 <= i < outcomes.len(),
        outcomes[i].payload is Some,
    ensures
        exists|stamp: Timestamp|
            stamp.from_clock() && outcomes[i].payload->0.timestamp@ == #[trigger] stamp.text(),
{
    let (states, readings) = law_live_scans_are_scans(pre, post, banners, outcomes);
    let stamp = readings[i].0;
    assert(handled(
        states[i],
        states[i + 1],
        banners[i],
        stamp,
        readings[i].1 as nat,
        outcomes[i],
    ));
    assert(outcomes[i].payload->0.timestamp@ == stamp.text());
}

/// Over a scan handled as it was seen, the number of notifications grows by the
/// number of banners that say something.
pub proof fn law_live_scans_count_every_notification(
    pre: Engine,
    post: Engine,
    banners: Seq<BannerFieldsView>,
    outcomes: Seq<BannerOutcome>,
)
    requires
        live_scan(pre, post, banners, outcomes),
        pre.tally().counts.today + banners.len() <= u64::MAX,
    ensures
        post.tally().counts.today == pre.tally().counts.today + outcomes.filter(
            |o: BannerOutcome| o.verdict != Verdict::Empty,
        ).len(),
{
    let (states, readings) = law_live_scans_are_scans(pre, post, banners, outcomes);
    law_every_notification_is_counted(states, banners, readings, outcomes);
}

/// A new engine has seen and counted nothing. It remembers content for as many
/// seconds as its settings say, and as much of it, but room for sixteen there is
/// always.
pub proof fn law_new_engines_start_empty(engine: Engine, config: AppConfig)
    requires
        engine.fresh(config),
    ensures
        engine.config() == config,
        engine.in_force(),
        forall|print: Seq<char>| !engine.seen().contains_key(print),
        engine.ttl() == config.dedup_ttl_secs * 1_000_000_000,
        engine.capacity() >= 16,
        engine.capacity() >= config.dedup_capacity,
        engine.capacity() == config.dedup_capacity || engine.capacity() == 16,
        engine.tally().counts.today == 0,
        engine.tally().counts.balanced(),
        engine.tally().recent.len() == 0,
{
}

/// What a log record says is what each of its fields holds.
pub proof fn law_records_say_what_they_hold(r: LogRecord)
    ensures
        r@.app_name == r.app_name@,
        r@.title == text::opt_text(r.title),
        r@.ax_id == text::opt_text(r.ax_id),
{
}

} // verus!
