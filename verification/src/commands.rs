//! What the commands of the program print.

use crate::client;
use crate::client::{WebhookError, WebhookPayload};
use crate::config;
use crate::config::sanitize_url_for_logging;
use crate::element;
use crate::element::{dump_tree, AxElement};
use crate::filter::AppFilter;
use crate::model::NotificationView;
use crate::parser;
use crate::parser::{parse_banner_fields, parse_banner_fields_at, BannerFieldsView};
use crate::scanner;
use crate::scanner::BannerSnapshot;
use crate::text;
use crate::text::{decimal_text, lines, signed_decimal_text};
use crate::time;
use crate::time::Timestamp;
use vstd::prelude::*;
use vstd::string::*;

verus! {

// ---------------------------------------------------------------------------
// The tree
// ---------------------------------------------------------------------------

/// How deep the tree is printed.
pub const DUMP_DEPTH: usize = 10;

/// The tree below Notification Center, or what is in the way of showing it.
/// `app` is the element of the process `pid`, where it could be had.
pub open spec fn tree_lines(
    trusted: bool,
    pid: Option<i32>,
    app: Option<AxElement>,
) -> Seq<Seq<char>> {
    if !trusted {
        seq!["❌ Accessibility permission not granted."@]
    } else {
        match pid {
            None => seq!["❌ Notification Center process not found."@],
            Some(pid) => match app {
                None => seq!["❌ Failed to create AXUIElement."@],
                Some(element) => seq![
                    "AX tree (pid "@ + text::signed_decimal(pid as int) + "):"@,
                ] + text::line_seq(element::dump_text(element, DUMP_DEPTH as nat)),
            },
        }
    }
}

fn just(line: &str) -> (r: Vec<String>)
    ensures
        text::texts(r@) == seq![line@],
{
    let mut out: Vec<String> = Vec::new();
    out.push(line.to_string());
    assert(text::texts(out@) =~= seq![line@]);
    out
}

/// Shows the tree below Notification Center.
pub fn dump_lines(trusted: bool, pid: Option<i32>, app: &Option<AxElement>) -> (r: Vec<String>)
    ensures
        text::texts(r@) == tree_lines(trusted, pid, *app),
{
    if !trusted {
        return just("❌ Accessibility permission not granted.");
    }
    let pid = match pid {
        Some(pid) => pid,
        None => {
            return just("❌ Notification Center process not found.");
        },
    };
    match app {
        None => just("❌ Failed to create AXUIElement."),
        Some(element) => {
            let mut title = "AX tree (pid ".to_string();
            let number = signed_decimal_text(pid);
            title.append(number.as_str());
            title.append("):");
            let tree = dump_tree(element, DUMP_DEPTH);
            let below = lines(tree.as_str());
            let mut out = just(title.as_str());
            let ghost all = text::texts(below@);
            for i in 0..below.len()
                invariant
                    all == text::texts(below@),
                    text::texts(out@) == seq![title@] + all.take(i as int),
            {
                let ghost before = text::texts(out@);
                let line = below[i].clone();
                out.push(line);
                assert(text::texts(out@) =~= before.push(line@));
                assert(seq![title@] + all.take(i + 1) =~= (seq![title@] + all.take(i as int)).push(
                    all[i as int],
                ));
            }
            assert(all.take(below@.len() as int) =~= all);
            out
        },
    }
}

// ---------------------------------------------------------------------------
// Detection
// ---------------------------------------------------------------------------

/// What is shown of a banner that a scan found.
pub open spec fn detection_line(filter: AppFilter, fields: BannerFieldsView) -> Seq<char> {
    match parser::parsed(fields) {
        None => "(empty banner ignored)"@,
        Some(n) => if filter.passes(n.app_name) {
            "🔔 "@ + n.app_name + " — "@ + n.title + " [would forward]"@
        } else {
            "🔔 "@ + n.app_name + " — "@ + n.title + " [would filter]"@
        },
    }
}

/// What is shown of a scan.
pub open spec fn scan_lines(
    filter: AppFilter,
    scan: Result<Vec<BannerSnapshot>, String>,
) -> Seq<Seq<char>> {
    match scan {
        Err(e) => seq!["❌ Scan failed: "@ + e@],
        Ok(banners) => if banners@.len() == 0 {
            seq!["No banners visible. Send a notification, keep it on screen, and retry."@]
        } else {
            scanner::banner_views(banners@).map_values(
                |fields: BannerFieldsView| detection_line(filter, fields),
            )
        },
    }
}

fn describe_detection(filter: &AppFilter, banner: &BannerSnapshot) -> (r: String)
    ensures
        r@ == detection_line(*filter, banner@),
{
    let fields = banner.clone().into_fields();
    match parse_banner_fields(&fields) {
        None => "(empty banner ignored)".to_string(),
        Some(n) => {
            let mut line = "🔔 ".to_string();
            line.append(n.app_name.as_str());
            line.append(" — ");
            line.append(n.title.as_str());
            if filter.allows(n.app_name.as_str()) {
                line.append(" [would forward]");
            } else {
                line.append(" [would filter]");
            }
            line
        },
    }
}

/// Shows what a scan found and what the filter makes of it.
pub fn detection_lines(filter: &AppFilter, scan: &Result<Vec<BannerSnapshot>, String>) -> (r: Vec<
    String,
>)
    ensures
        text::texts(r@) == scan_lines(*filter, *scan),
{
    match scan {
        Err(e) => {
            let mut line = "❌ Scan failed: ".to_string();
            line.append(e.as_str());
            just(line.as_str())
        },
        Ok(banners) => {
            if banners.len() == 0 {
                return just(
                    "No banners visible. Send a notification, keep it on screen, and retry.",
                );
            }
            let ghost all = scan_lines(*filter, *scan);
            let mut out: Vec<String> = Vec::new();
            for i in 0..banners.len()
                invariant
                    all == scanner::banner_views(banners@).map_values(
                        |fields: BannerFieldsView| detection_line(*filter, fields),
                    ),
                    text::texts(out@) == all.take(i as int),
            {
                let ghost before = text::texts(out@);
                let line = describe_detection(filter, &banners[i]);
                out.push(line);
                assert(all[i as int] == line@);
                assert(text::texts(out@) =~= before.push(line@));
                assert(all.take(i + 1) =~= all.take(i as int).push(all[i as int]));
            }
            assert(all.take(banners@.len() as int) =~= all);
            out
        },
    }
}

// ---------------------------------------------------------------------------
// One scan, forwarded
// ---------------------------------------------------------------------------

/// What to do with a banner of a single scan.
pub enum OnceStep {
    /// Nothing: it says nothing.
    Skip,
    /// Print the lines.
    Filtered { line: String, note: String },
    /// Print the line, then post the payload.
    Send { line: String, payload: WebhookPayload },
}

/// What is printed of a notification of a single scan.
pub open spec fn once_line(n: NotificationView) -> Seq<char> {
    "🔔 "@ + n.app_name + " — "@ + n.title + ": "@ + n.message
}

/// Whether this is what to do with a banner of a single scan that was seen at
/// `stamp`.
pub open spec fn once_decided(
    filter: AppFilter,
    fields: BannerFieldsView,
    stamp: Timestamp,
    step: OnceStep,
) -> bool {
    match parser::parsed(fields) {
        None => step == OnceStep::Skip,
        Some(n) => if filter.passes(n.app_name) {
            step matches OnceStep::Send { line, payload } && line@ == once_line(n) && payload@
                == client::payload_of(n, stamp)
        } else {
            step matches OnceStep::Filtered { line, note } && line@ == once_line(n) && note@
                == "   (filtered)"@
        },
    }
}

/// Decides what to do with a banner of a single scan, seen at `stamp`.
pub fn once_step_at(filter: &AppFilter, banner: &BannerSnapshot, stamp: Timestamp) -> (r: OnceStep)
    ensures
        once_decided(*filter, banner@, stamp, r),
{
    let fields = banner.clone().into_fields();
    match parse_banner_fields_at(&fields, stamp) {
        None => OnceStep::Skip,
        Some(n) => {
            let mut line = "🔔 ".to_string();
            line.append(n.app_name.as_str());
            line.append(" — ");
            line.append(n.title.as_str());
            line.append(": ");
            line.append(n.message.as_str());
            if filter.allows(n.app_name.as_str()) {
                OnceStep::Send { line, payload: WebhookPayload::of_notification(&n) }
            } else {
                OnceStep::Filtered { line, note: "   (filtered)".to_string() }
            }
        },
    }
}

/// Decides what to do with a banner of a single scan, seen now.
pub fn once_step(filter: &AppFilter, banner: &BannerSnapshot) -> (r: OnceStep)
    ensures
        exists|now: Timestamp|
            now.from_clock() && time::timestamp_parts(now.secs(), now.nanos(), now.offset())
                && #[trigger] once_decided(*filter, banner@, now, r),
{
    let now = Timestamp::now();
    once_step_at(filter, banner, now)
}

/// What is printed once a payload of a single scan was posted.
pub open spec fn once_answer(result: Result<u16, WebhookError>) -> Seq<char> {
    match result {
        Ok(status) => "   → webhook "@ + text::decimal(status as nat),
        Err(e) => "   → webhook failed: "@ + e.message(),
    }
}

/// What is printed once a payload of a single scan was posted.
pub fn once_result(result: &Result<u16, WebhookError>) -> (r: String)
    ensures
        r@ == once_answer(*result),
{
    match result {
        Ok(status) => {
            let mut line = "   → webhook ".to_string();
            let number = decimal_text(*status as u64);
            line.append(number.as_str());
            line
        },
        Err(e) => {
            let mut line = "   → webhook failed: ".to_string();
            let message = e.describe();
            line.append(message.as_str());
            line
        },
    }
}

// ---------------------------------------------------------------------------
// The test of the webhook
// ---------------------------------------------------------------------------

/// What is printed before the webhook is tested. Secrets in the URL do not
/// show.
pub fn test_intro(url: &str) -> (r: String)
    ensures
        r@ == "POST "@ + config::sanitized(url@),
{
    let mut line = "POST ".to_string();
    let shown = sanitize_url_for_logging(url);
    line.append(shown.as_str());
    line
}

/// What is printed once the webhook was tested.
pub open spec fn test_answer(result: Result<u16, WebhookError>) -> Seq<char> {
    match result {
        Ok(status) => "✅ Webhook connected (status "@ + text::decimal(status as nat) + ")"@,
        Err(e) => "❌ Webhook failed: "@ + e.message(),
    }
}

/// What is printed once the webhook was tested.
pub fn test_result(result: &Result<u16, WebhookError>) -> (r: String)
    ensures
        r@ == test_answer(*result),
{
    match result {
        Ok(status) => {
            let mut line = "✅ Webhook connected (status ".to_string();
            let number = decimal_text(*status as u64);
            line.append(number.as_str());
            line.append(")");
            line
        },
        Err(e) => {
            let mut line = "❌ Webhook failed: ".to_string();
            let message = e.describe();
            line.append(message.as_str());
            line
        },
    }
}

// ---------------------------------------------------------------------------
// Laws
// ---------------------------------------------------------------------------

/// The tree is shown exactly where the permission is there, the process was
/// found and its element could be had: the number of the process first, then
/// the tree, ten levels deep. Otherwise one line says what is in the way, and of
/// several things the first in this order.
pub proof fn law_trees_need_permission_process_and_element(
    trusted: bool,
    pid: Option<i32>,
    app: Option<AxElement>,
)
    ensures
        !trusted ==> tree_lines(trusted, pid, app) == seq![
            "❌ Accessibility permission not granted."@,
        ],
        trusted && pid is None ==> tree_lines(trusted, pid, app) == seq![
            "❌ Notification Center process not found."@,
        ],
        trusted && pid is Some && app is None ==> tree_lines(trusted, pid, app) == seq![
            "❌ Failed to create AXUIElement."@,
        ],
        trusted && pid is Some && app is Some ==> {
            &&& tree_lines(trusted, pid, app).len() > 0
            &&& tree_lines(trusted, pid, app)[0] == "AX tree (pid "@ + text::signed_decimal(
                pid->0 as int,
            ) + "):"@
            &&& tree_lines(trusted, pid, app).drop_first() == text::line_seq(
                element::dump_text(app->0, 10),
            )
        },
{
    if trusted && pid is Some && app is Some {
        assert(tree_lines(trusted, pid, app).drop_first() =~= text::line_seq(
            element::dump_text(app->0, 10),
        ));
    }
}

/// A detection tells application and title, and whether the banner would be
/// forwarded: it would where the filter lets its application through.
pub proof fn law_detections_tell_what_the_filter_does(
    filter: AppFilter,
    fields: BannerFieldsView,
)
    ensures
        match parser::parsed(fields) {
            None => detection_line(filter, fields) == "(empty banner ignored)"@,
            Some(n) => {
                let told = "🔔 "@ + n.app_name + " — "@ + n.title;
                &&& filter.passes(n.app_name) ==> detection_line(filter, fields) == told
                    + " [would forward]"@
                &&& !filter.passes(n.app_name) ==> detection_line(filter, fields) == told
                    + " [would filter]"@
            },
        },
{
}

/// Each banner of a scan has a line of its own, in its place. A scan that failed
/// or found nothing is one line that says so.
pub proof fn law_scans_are_shown_banner_by_banner(
    filter: AppFilter,
    scan: Result<Vec<BannerSnapshot>, String>,
)
    ensures
        match scan {
            Err(e) => scan_lines(filter, scan) == seq!["❌ Scan failed: "@ + e@],
            Ok(banners) => {
                &&& banners@.len() == 0 ==> scan_lines(filter, scan) == seq![
                    "No banners visible. Send a notification, keep it on screen, and retry."@,
                ]
                &&& banners@.len() > 0 ==> scan_lines(filter, scan).len() == banners@.len()
                &&& forall|i: int|
                    0 <= i < banners@.len() ==> #[trigger] scan_lines(filter, scan)[i]
                        == detection_line(filter, banners@[i]@)
            },
        },
{
}

/// A single scan prints all that a notification says, its body too.
pub proof fn law_single_scans_print_the_body(n: NotificationView)
    ensures
        once_line(n) == "🔔 "@ + n.app_name + " — "@ + n.title + ": "@ + n.message,
{
}

/// A single scan posts what the filter lets through and nothing else; what it
/// posts says what the banner says, at the time at which it was seen. A banner
/// that says nothing is passed over without a word.
pub proof fn law_single_scans_post_what_is_allowed(
    filter: AppFilter,
    fields: BannerFieldsView,
    stamp: Timestamp,
    step: OnceStep,
)
    requires
        once_decided(filter, fields, stamp, step),
    ensures
        step is Skip <==> parser::parsed(fields) is None,
        step is Send <==> (parser::parsed(fields) matches Some(n) && filter.passes(n.app_name)),
        step is Filtered <==> (parser::parsed(fields) matches Some(n) && !filter.passes(
            n.app_name,
        )),
        step matches OnceStep::Send { line, payload } ==> (parser::parsed(fields) matches Some(n)
            && {
            &&& line@ == "🔔 "@ + n.app_name + " — "@ + n.title + ": "@ + n.message
            &&& payload.app_name@ == n.app_name
            &&& payload.title@ == n.title
            &&& payload.message@ == n.message
            &&& text::opt_text(payload.notification_id) == n.id
            &&& payload.timestamp@ == stamp.text()
        }),
        step matches OnceStep::Filtered { line, note } ==> (parser::parsed(fields) matches Some(n)
            && line@ == "🔔 "@ + n.app_name + " — "@ + n.title + ": "@ + n.message && note@
            == "   (filtered)"@),
{
}

/// An answer of the webhook is printed with its status, and an error with what
/// is known of it.
pub proof fn law_answers_are_printed(result: Result<u16, WebhookError>)
    ensures
        match result {
            Ok(status) => {
                &&& once_answer(result) == "   → webhook "@ + text::decimal(status as nat)
                &&& test_answer(result) == "✅ Webhook connected (status "@ + text::decimal(
                    status as nat,
                ) + ")"@
            },
            Err(e) => {
                &&& once_answer(result) == "   → webhook failed: "@ + e.message()
                &&& test_answer(result) == "❌ Webhook failed: "@ + e.message()
            },
        },
{
}

} // verus!
