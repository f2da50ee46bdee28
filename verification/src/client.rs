//! The webhook client: what is posted, with which headers, and when a request
//! is tried again.
//!
//! ```http
//! POST /api/v1/external/hammerspoon
//! Content-Type: application/json
//! ```
//! ```json
//! {
//!   "app_name": "WhatsApp",
//!   "title": "Niles",
//!   "message": "AAA",
//!   "notification_id": "79BAE16D-...",
//!   "timestamp": "2026-09-09T02:30:00+07:00"
//! }
//! ```

use crate::model::{Notification, NotificationView};
use crate::retry;
use crate::retry::{backoff_for_attempt, should_retry, should_retry_error, TransportError};
use crate::tables;
use crate::tables::HeaderTable;
use crate::text;
use crate::text::{copy_opt, decimal_text};
use crate::time;
use crate::time::{Span, Timestamp};
use reqwest::header::{HeaderMap, HeaderName, HeaderValue};
use vstd::prelude::*;
use vstd::string::*;
use vstd::utf8::*;

verus! {

// ---------------------------------------------------------------------------
// Payloads
// ---------------------------------------------------------------------------

/// What is posted to the webhook.
#[derive(Debug)]
pub struct WebhookPayload {
    pub app_name: String,
    pub title: String,
    pub message: String,
    /// Identifier of the notification, if it has one.
    pub notification_id: Option<String>,
    /// RFC 3339 with local offset, such as `2026-09-09T02:30:00+07:00`.
    pub timestamp: String,
}

/// What a payload says.
#[verifier::ext_equal]
pub struct WebhookPayloadView {
    pub app_name: Seq<char>,
    pub title: Seq<char>,
    pub message: Seq<char>,
    pub notification_id: Option<Seq<char>>,
    pub timestamp: Seq<char>,
}

impl View for WebhookPayload {
    type V = WebhookPayloadView;

    open spec fn view(&self) -> WebhookPayloadView {
        WebhookPayloadView {
            app_name: self.app_name@,
            title: self.title@,
            message: self.message@,
            notification_id: text::opt_text(self.notification_id),
            timestamp: self.timestamp@,
        }
    }
}

/// The payload that tests a webhook, at a point in time.
pub open spec fn test_payload(timestamp: Timestamp) -> WebhookPayloadView {
    WebhookPayloadView {
        app_name: "Notification Forwarder"@,
        title: "Test"@,
        message: "Webhook test from Notification Forwarder"@,
        notification_id: None,
        timestamp: timestamp.text(),
    }
}

/// The payload that carries a notification detected at a point in time.
pub open spec fn payload_of(n: NotificationView, timestamp: Timestamp) -> WebhookPayloadView {
    WebhookPayloadView {
        app_name: n.app_name,
        title: n.title,
        message: n.message,
        notification_id: n.id,
        timestamp: timestamp.text(),
    }
}

impl WebhookPayload {
    /// The payload that tests a webhook, at a point in time.
    pub fn test_at(timestamp: Timestamp) -> (r: WebhookPayload)
        ensures
            r@ == test_payload(timestamp),
    {
        WebhookPayload {
            app_name: "Notification Forwarder".to_string(),
            title: "Test".to_string(),
            message: "Webhook test from Notification Forwarder".to_string(),
            notification_id: None,
            timestamp: timestamp.to_rfc3339(),
        }
    }

    /// The payload that tests a webhook, now.
    pub fn test() -> (r: WebhookPayload)
        ensures
            exists|now: Timestamp|
                now.from_clock() && time::timestamp_parts(now.secs(), now.nanos(), now.offset())
                    && r@ == #[trigger] test_payload(now),
    {
        let now = Timestamp::now();
        let r = WebhookPayload::test_at(now);
        assert(r@ == test_payload(now));
        r
    }

    /// The payload that carries a notification.
    pub fn of_notification(n: &Notification) -> (r: WebhookPayload)
        ensures
            r@ == payload_of(n@, n.timestamp),
    {
        WebhookPayload {
            app_name: n.app_name.clone(),
            title: n.title.clone(),
            message: n.message.clone(),
            notification_id: copy_opt(&n.id),
            timestamp: n.timestamp.to_rfc3339(),
        }
    }
}

impl Clone for WebhookPayload {
    fn clone(&self) -> (r: WebhookPayload)
        ensures
            r@ == self@,
    {
        WebhookPayload {
            app_name: self.app_name.clone(),
            title: self.title.clone(),
            message: self.message.clone(),
            notification_id: copy_opt(&self.notification_id),
            timestamp: self.timestamp.clone(),
        }
    }
}

// ---------------------------------------------------------------------------
// Errors
// ---------------------------------------------------------------------------

/// Why a request was not answered with success.
#[derive(Debug)]
pub enum WebhookError {
    Configuration(String),
    Transport(TransportError),
    Status(u16),
}

impl WebhookError {
    /// The message shown for the error.
    pub open spec fn message(self) -> Seq<char> {
        match self {
            WebhookError::Configuration(e) => "invalid webhook configuration: "@ + e@,
            WebhookError::Transport(e) => "transport error: "@ + e.message@,
            WebhookError::Status(s) => "unexpected status: "@ + text::decimal(s as nat),
        }
    }

    /// Whether another attempt may help.
    pub open spec fn retryable(self) -> bool {
        match self {
            WebhookError::Configuration(_) => false,
            WebhookError::Transport(e) => e.transient(),
            WebhookError::Status(s) => retry::retryable_status(s as int),
        }
    }

    /// The message shown for the error.
    pub fn describe(&self) -> (r: String)
        ensures
            r@ == self.message(),
    {
        let mut out = String::new();
        match self {
            WebhookError::Configuration(e) => {
                out.append("invalid webhook configuration: ");
                out.append(e.as_str());
            },
            WebhookError::Transport(e) => {
                out.append("transport error: ");
                out.append(e.message.as_str());
            },
            WebhookError::Status(s) => {
                out.append("unexpected status: ");
                let digits = decimal_text(*s as u64);
                out.append(digits.as_str());
            },
        }
        assert(out@ =~= self.message());
        out
    }

    /// Whether another attempt may help.
    pub fn is_transport_retryable(&self) -> (r: bool)
        ensures
            r == self.retryable(),
    {
        match self {
            WebhookError::Configuration(_) => false,
            WebhookError::Transport(e) => should_retry_error(e),
            WebhookError::Status(s) => should_retry(*s),
        }
    }
}

// ---------------------------------------------------------------------------
// Header maps
// ---------------------------------------------------------------------------

/// `http::HeaderMap`, re-exported by `reqwest`: a multimap from header names.
#[verifier::external_type_specification]
#[verifier::external_body]
#[verifier::reject_recursive_types(T)]
pub struct ExHeaderMap<T>(reqwest::header::HeaderMap<T>);

/// `http::HeaderValue`, re-exported by `reqwest`.
#[verifier::external_type_specification]
#[verifier::external_body]
pub struct ExHeaderValue(reqwest::header::HeaderValue);

/// The names in a header map, in lower case, each with its values in order.
pub uninterp spec fn header_map_contents(map: HeaderMap<HeaderValue>) -> Map<
    Seq<u8>,
    Seq<Seq<u8>>,
>;

/// How many names a header map always has room for.
pub const SURE_HEADERS: usize = 6554;

/// The bytes that may stand in a header name.
pub open spec fn token_byte(b: u8) -> bool {
    ||| 48 <= b <= 57
    ||| 65 <= b <= 90
    ||| 97 <= b <= 122
    ||| b == 33
    ||| 35 <= b <= 39
    ||| b == 42
    ||| b == 43
    ||| b == 45
    ||| b == 46
    ||| 94 <= b <= 96
    ||| b == 124
    ||| b == 126
}

/// Whether a text is a header name: one to 65535 bytes that are letters,
/// digits or one of ``!#$%&'*+-.^_`|~``.
pub open spec fn valid_header_name(name: Seq<char>) -> bool {
    let bytes = encode_utf8(name);
    &&& 1 <= bytes.len() <= 65535
    &&& forall|i: int| 0 <= i < bytes.len() ==> token_byte(#[trigger] bytes[i])
}

/// Whether a text is a header value: no control character but the tab.
pub open spec fn valid_header_value(value: Seq<char>) -> bool {
    let bytes = encode_utf8(value);
    forall|i: int|
        0 <= i < bytes.len() ==> #[trigger] bytes[i] == 9 || bytes[i] >= 32 && bytes[i] != 127
}

/// A byte in lower case.
pub open spec fn lowered_byte(b: u8) -> u8 {
    if 65 <= b <= 90 {
        (b + 32) as u8
    } else {
        b
    }
}

/// The form in which a header map keeps a name.
pub open spec fn header_key(name: Seq<char>) -> Seq<u8> {
    encode_utf8(name).map_values(|b: u8| lowered_byte(b))
}

/// `HeaderName::from_bytes` accepts one to 65535 bytes out of the table of
/// header characters, and nothing else.
#[verifier::external_body]
fn header_name_is_valid(name: &str) -> (r: bool)
    ensures
        r == valid_header_name(name@),
{
    HeaderName::from_bytes(name.as_bytes()).is_ok()
}

/// `HeaderValue::from_str` accepts every text without control characters
/// other than the tab, and nothing else.
#[verifier::external_body]
fn header_value_is_valid(value: &str) -> (r: bool)
    ensures
        r == valid_header_value(value@),
{
    HeaderValue::from_str(value).is_ok()
}

/// `HeaderMap::new` gives a map without headers.
#[verifier::external_body]
fn new_header_map() -> (r: HeaderMap<HeaderValue>)
    ensures
        (header_map_contents(r) == Map::<Seq<u8>, Seq<Seq<u8>>>::empty()),
{
    HeaderMap::new()
}

/// `HeaderMap::try_insert` gives the name, in lower case, this one value in
/// place of those it had. It refuses, and leaves the headers as they were, only
/// where the map has grown to its largest size, which it never does with fewer
/// names than [`SURE_HEADERS`]; from there on it depends on how the names
/// collide.
#[verifier::external_body]
fn insert_header(map: &mut HeaderMap<HeaderValue>, name: &str, value: &str) -> (r: bool)
    requires
        valid_header_name(name@),
        valid_header_value(value@),
    ensures
        r ==> header_map_contents(*final(map)) == header_map_contents(*old(map)).insert(
            header_key(name@),
            seq![encode_utf8(value@)],
        ),
        !r ==> header_map_contents(*final(map)) == header_map_contents(*old(map)),
        !r ==> header_map_contents(*old(map)).dom().len() >= SURE_HEADERS,
{
    let name = HeaderName::from_bytes(name.as_bytes()).unwrap();
    let value = HeaderValue::from_str(value).unwrap();
    map.try_insert(name, value).is_ok()
}

/// `HeaderMap::clone` gives a map with the same headers.
#[verifier::external_body]
fn copy_header_map(map: &HeaderMap<HeaderValue>) -> (r: HeaderMap<HeaderValue>)
    ensures
        header_map_contents(r) == header_map_contents(*map),
{
    map.clone()
}

// ---------------------------------------------------------------------------
// Checking headers
// ---------------------------------------------------------------------------

/// What is wrong with a header. The message does not show its value.
pub open spec fn header_fault(header: (Seq<char>, Seq<char>)) -> Option<Seq<char>> {
    if !valid_header_name(header.0) {
        Some("invalid header name `"@ + header.0 + "`"@)
    } else if !valid_header_value(header.1) {
        Some("invalid value for header `"@ + header.0 + "`"@)
    } else {
        None
    }
}

/// What is wrong with the first header that is not valid.
pub open spec fn first_fault(headers: Seq<(Seq<char>, Seq<char>)>) -> Option<Seq<char>>
    decreases headers.len(),
{
    if headers.len() == 0 {
        None
    } else {
        match first_fault(headers.drop_last()) {
            Some(fault) => Some(fault),
            None => header_fault(headers.last()),
        }
    }
}

/// The header map that holds these headers. Of two names that differ only in
/// case, the later one counts.
pub open spec fn sent_headers(headers: Seq<(Seq<char>, Seq<char>)>) -> Map<Seq<u8>, Seq<Seq<u8>>>
    decreases headers.len(),
{
    if headers.len() == 0 {
        Map::empty()
    } else {
        sent_headers(headers.drop_last()).insert(
            header_key(headers.last().0),
            seq![encode_utf8(headers.last().1)],
        )
    }
}

/// A fault among the first headers is the first fault of all.
proof fn lemma_first_fault_of_prefix(headers: Seq<(Seq<char>, Seq<char>)>, k: int)
    requires
        0 <= k <= headers.len(),
        first_fault(headers.take(k)) is Some,
    ensures
        first_fault(headers) == first_fault(headers.take(k)),
    decreases headers.len(),
{
    if k < headers.len() {
        assert(headers.drop_last().take(k) =~= headers.take(k));
        lemma_first_fault_of_prefix(headers.drop_last(), k);
    } else {
        assert(headers.take(k) =~= headers);
    }
}

/// There are no more names than headers.
proof fn lemma_sent_headers_len(headers: Seq<(Seq<char>, Seq<char>)>)
    ensures
        sent_headers(headers).dom().finite(),
        sent_headers(headers).dom().len() <= headers.len(),
    decreases headers.len(),
{
    if headers.len() > 0 {
        let before = sent_headers(headers.drop_last());
        lemma_sent_headers_len(headers.drop_last());
        assert(sent_headers(headers).dom() =~= before.dom().insert(header_key(headers.last().0)));
    }
}

/// Where nothing is wrong with any header, nothing is wrong with one of them.
proof fn lemma_no_fault(headers: Seq<(Seq<char>, Seq<char>)>, i: int)
    requires
        first_fault(headers) is None,
        0 <= i < headers.len(),
    ensures
        header_fault(headers[i]) is None,
    decreases headers.len(),
{
    if i < headers.len() - 1 {
        lemma_no_fault(headers.drop_last(), i);
    }
}

/// Whether headers that cannot be sent are answered with `error`: with what is
/// wrong with the first header that is not valid; where all are valid, only a
/// header map that is full can be in the way.
pub open spec fn refused_headers(
    headers: Seq<(Seq<char>, Seq<char>)>,
    error: Seq<char>,
) -> bool {
    match first_fault(headers) {
        Some(fault) => error == fault,
        None => headers.len() > SURE_HEADERS && error == "too many headers"@,
    }
}

fn describe_fault(name: &str, value: &str) -> (r: Option<String>)
    ensures
        text::opt_text(r) == header_fault((name@, value@)),
{
    let mut fault = if !header_name_is_valid(name) {
        "invalid header name `".to_string()
    } else if !header_value_is_valid(value) {
        "invalid value for header `".to_string()
    } else {
        return None;
    };
    fault.append(name);
    fault.append("`");
    Some(fault)
}

fn find_fault(headers: &HeaderTable) -> (r: Option<String>)
    ensures
        text::opt_text(r) == first_fault(headers@),
{
    let entries = headers.entries();
    let ghost all = headers@;
    for i in 0..entries.len()
        invariant
            all == headers@,
            tables::pair_texts(entries@) == all,
            first_fault(all.take(i as int)) is None,
    {
        let name = entries[i].0.as_str();
        let value = entries[i].1.as_str();
        assert(all.take(i + 1).drop_last() =~= all.take(i as int));
        assert(all[i as int] == (name@, value@));
        if let Some(fault) = describe_fault(name, value) {
            proof {
                lemma_first_fault_of_prefix(all, i + 1);
            }
            return Some(fault);
        }
    }
    assert(all.take(entries@.len() as int) =~= all);
    None
}

fn parse_headers(headers: &HeaderTable) -> (r: Result<HeaderMap<HeaderValue>, String>)
    ensures
        match r {
            Ok(map) => first_fault(headers@) is None && header_map_contents(map) == sent_headers(
                headers@,
            ),
            Err(e) => refused_headers(headers@, e@),
        },
{
    if let Some(fault) = find_fault(headers) {
        return Err(fault);
    }
    let mut parsed = new_header_map();
    let entries = headers.entries();
    let ghost all = headers@;
    for i in 0..entries.len()
        invariant
            all == headers@,
            tables::pair_texts(entries@) == all,
            first_fault(all) is None,
            header_map_contents(parsed) == sent_headers(all.take(i as int)),
    {
        let name = entries[i].0.as_str();
        let value = entries[i].1.as_str();
        proof {
            assert(all.take(i + 1).drop_last() =~= all.take(i as int));
            assert(all[i as int] == (name@, value@));
            lemma_no_fault(all, i as int);
            lemma_sent_headers_len(all.take(i as int));
        }
        if !insert_header(&mut parsed, name, value) {
            return Err("too many headers".to_string());
        }
    }
    assert(all.take(entries@.len() as int) =~= all);
    Ok(parsed)
}

/// Checks the names and values of custom headers. The message does not show
/// the values.
pub fn validate_headers(headers: &HeaderTable) -> (r: Result<(), String>)
    ensures
        match r {
            Ok(_) => first_fault(headers@) is None,
            Err(e) => refused_headers(headers@, e@),
        },
        first_fault(headers@) is None && headers@.len() <= SURE_HEADERS ==> r is Ok,
{
    match parse_headers(headers) {
        Ok(_) => Ok(()),
        Err(e) => Err(e),
    }
}

// ---------------------------------------------------------------------------
// Sending
// ---------------------------------------------------------------------------

/// What to do next to get a payload across.
pub enum SendStep {
    /// Wait, then post.
    Attempt { attempt: u32, delay: Span },
    /// Nothing more: this is the result.
    Done(Result<u16, WebhookError>),
}

/// Whether an answer means success.
pub open spec fn success(status: u16) -> bool {
    200 <= status < 300
}

/// Whether sending begins with this step: a post without delay, or the error
/// that the configuration rules out every request with.
pub open spec fn begins(client: WebhookClient, step: SendStep) -> bool {
    match client.fault() {
        Some(e) => step matches SendStep::Done(Err(WebhookError::Configuration(m))) && m@ == e,
        None => step == (SendStep::Attempt { attempt: 1, delay: Span { nanos: 0 } }),
    }
}

/// The step that follows an attempt, by what came of it.
pub open spec fn step_after(
    max_attempts: int,
    attempt: u32,
    outcome: Result<u16, TransportError>,
) -> SendStep {
    let again = SendStep::Attempt {
        attempt: (attempt + 1) as u32,
        delay: Span { nanos: (retry::backoff_secs(attempt + 1) * 1_000_000_000) as u128 },
    };
    match outcome {
        Ok(status) => if success(status) {
            SendStep::Done(Ok(status))
        } else if retry::retryable_status(status as int) && attempt < max_attempts {
            again
        } else {
            SendStep::Done(Err(WebhookError::Status(status)))
        },
        Err(error) => if error.transient() && attempt < max_attempts {
            again
        } else {
            SendStep::Done(Err(WebhookError::Transport(error)))
        },
    }
}

/// A webhook with its headers and its retry limit.
#[derive(Debug)]
pub struct WebhookClient {
    url: String,
    headers: HeaderMap<HeaderValue>,
    max_attempts: u32,
    configuration_error: Option<String>,
}

impl WebhookClient {
    #[verifier::type_invariant]
    spec fn valid(self) -> bool {
        &&& 1 <= self.max_attempts <= 5
        &&& self.configuration_error is Some ==> header_map_contents(self.headers) == Map::<
            Seq<u8>,
            Seq<Seq<u8>>,
        >::empty()
    }

    /// Where to post.
    pub closed spec fn target(&self) -> Seq<char> {
        self.url@
    }

    /// The custom headers of every request.
    pub closed spec fn header_contents(&self) -> Map<Seq<u8>, Seq<Seq<u8>>> {
        header_map_contents(self.headers)
    }

    /// How often a request is tried.
    pub closed spec fn attempts(&self) -> int {
        self.max_attempts as int
    }

    /// Why nothing can be sent, if so.
    pub closed spec fn fault(&self) -> Option<Seq<char>> {
        text::opt_text(self.configuration_error)
    }

    /// Whether this is a client for these settings: it tries a request one to
    /// five times, and headers that are not valid make every request fail.
    pub open spec fn fits(
        &self,
        url: Seq<char>,
        max_attempts: int,
        headers: Seq<(Seq<char>, Seq<char>)>,
    ) -> bool {
        &&& self.target() == url
        &&& self.attempts() == (if max_attempts < 1 {
            1
        } else if max_attempts > 5 {
            5
        } else {
            max_attempts
        })
        &&& match self.fault() {
            None => first_fault(headers) is None && self.header_contents() == sent_headers(headers),
            Some(e) => refused_headers(headers, e) && self.header_contents() == Map::<
                Seq<u8>,
                Seq<Seq<u8>>,
            >::empty(),
        }
        &&& first_fault(headers) is None && headers.len() <= SURE_HEADERS ==> self.fault() is None
    }

    /// A client for a webhook. A request is tried one to five times. Headers
    /// that are not valid make every request fail.
    pub fn new(url: String, max_attempts: u32, custom_headers: &HeaderTable) -> (r: WebhookClient)
        ensures
            r.fits(url@, max_attempts as int, custom_headers@),
    {
        let (headers, configuration_error) = match parse_headers(custom_headers) {
            Ok(headers) => (headers, None),
            Err(error) => (new_header_map(), Some(error)),
        };
        let max_attempts: u32 = if max_attempts < 1 {
            1
        } else if max_attempts > 5 {
            5
        } else {
            max_attempts
        };
        WebhookClient { url, headers, max_attempts, configuration_error }
    }

    /// Where to post.
    pub fn url(&self) -> (r: &str)
        ensures
            r@ == self.target(),
    {
        self.url.as_str()
    }

    /// The custom headers of every request.
    pub fn headers(&self) -> (r: &HeaderMap<HeaderValue>)
        ensures
            header_map_contents(*r) == self.header_contents(),
    {
        &self.headers
    }

    /// How often a request is tried.
    pub fn max_attempts(&self) -> (r: u32)
        ensures
            r == self.attempts(),
            1 <= r <= 5,
    {
        proof {
            use_type_invariant(self);
        }
        self.max_attempts
    }

    /// The first step of sending: a post without delay, unless the
    /// configuration rules out every request.
    pub fn begin_send(&self) -> (r: SendStep)
        ensures
            begins(*self, r),
    {
        match &self.configuration_error {
            Some(error) => SendStep::Done(Err(WebhookError::Configuration(error.clone()))),
            None => SendStep::Attempt { attempt: 1, delay: backoff_for_attempt(1) },
        }
    }

    /// The step that follows an attempt, by what came of it: the status that
    /// answered the request, or the error that kept it from being answered.
    pub fn after_attempt(
        &self,
        attempt: u32,
        outcome: Result<u16, TransportError>,
    ) -> (r: SendStep)
        requires
            1 <= attempt <= self.attempts(),
        ensures
            r == step_after(self.attempts(), attempt, outcome),
    {
        proof {
            use_type_invariant(self);
        }
        match outcome {
            Ok(status) => if 200 <= status && status < 300 {
                SendStep::Done(Ok(status))
            } else if should_retry(status) && attempt < self.max_attempts {
                SendStep::Attempt { attempt: attempt + 1, delay: backoff_for_attempt(attempt + 1) }
            } else {
                SendStep::Done(Err(WebhookError::Status(status)))
            },
            Err(error) => if should_retry_error(&error) && attempt < self.max_attempts {
                SendStep::Attempt { attempt: attempt + 1, delay: backoff_for_attempt(attempt + 1) }
            } else {
                SendStep::Done(Err(WebhookError::Transport(error)))
            },
        }
    }
}

impl Clone for WebhookClient {
    fn clone(&self) -> (r: WebhookClient)
        ensures
            r.target() == self.target(),
            r.header_contents() == self.header_contents(),
            r.attempts() == self.attempts(),
            r.fault() == self.fault(),
    {
        proof {
            use_type_invariant(self);
        }
        WebhookClient {
            url: self.url.clone(),
            headers: copy_header_map(&self.headers),
            max_attempts: self.max_attempts,
            configuration_error: copy_opt(&self.configuration_error),
        }
    }
}

// ---------------------------------------------------------------------------
// A whole send
// ---------------------------------------------------------------------------

/// What comes of sending from an attempt on, if the attempts turn out like
/// this: the number of the last attempt, and the result.
pub open spec fn sent(
    max_attempts: int,
    attempt: u32,
    outcomes: Seq<Result<u16, TransportError>>,
) -> (u32, Result<u16, WebhookError>)
    decreases max_attempts - attempt,
    when attempt < u32::MAX
{
    match step_after(max_attempts, attempt, outcomes[attempt - 1]) {
        SendStep::Done(result) => (attempt, result),
        SendStep::Attempt { attempt: next, .. } => sent(max_attempts, next, outcomes),
    }
}

/// Whether an attempt that turns out like this may be followed by another.
pub open spec fn worth_retrying(outcome: Result<u16, TransportError>) -> bool {
    match outcome {
        Ok(status) => !success(status) && retry::retryable_status(status as int),
        Err(error) => error.transient(),
    }
}

/// Sending ends. It takes no more attempts than allowed, every attempt but the
/// last turned out worth retrying, and the result is what came of the last one:
/// the status if it means success, else the error.
pub proof fn law_sending_ends(
    max_attempts: int,
    attempt: u32,
    outcomes: Seq<Result<u16, TransportError>>,
)
    requires
        1 <= attempt <= max_attempts <= 5,
    ensures
        ({
            let (last, result) = sent(max_attempts, attempt, outcomes);
            let outcome = outcomes[last - 1];
            &&& attempt <= last <= max_attempts
            &&& forall|k: int|
                #![trigger outcomes[k]]
                attempt - 1 <= k < last - 1 ==> worth_retrying(outcomes[k])
            &&& worth_retrying(outcome) ==> last == max_attempts
            &&& match outcome {
                Ok(status) => if success(status) {
                    result == Ok::<u16, WebhookError>(status)
                } else {
                    result == Err::<u16, WebhookError>(WebhookError::Status(status))
                },
                Err(error) => result == Err::<u16, WebhookError>(WebhookError::Transport(error)),
            }
        }),
    decreases max_attempts - attempt,
{
    if attempt < max_attempts && worth_retrying(outcomes[attempt - 1]) {
        law_sending_ends(max_attempts, (attempt + 1) as u32, outcomes);
    }
}

/// A request that the server refuses for good, with a client error other than
/// 408 and 429, is sent once.
pub proof fn law_refused_requests_are_sent_once(
    max_attempts: int,
    outcomes: Seq<Result<u16, TransportError>>,
    status: u16,
)
    requires
        1 <= max_attempts <= 5,
        outcomes.len() > 0,
        outcomes[0] == Ok::<u16, TransportError>(status),
        400 <= status < 500,
        status != 408,
        status != 429,
    ensures
        sent(max_attempts, 1, outcomes) == (
            1u32,
            Err::<u16, WebhookError>(WebhookError::Status(status)),
        ),
{
}

/// Headers that differ only in the case of their names are sent as one, with
/// the value of the later one.
pub proof fn law_later_header_of_a_name_counts(
    headers: Seq<(Seq<char>, Seq<char>)>,
    name: Seq<char>,
    value: Seq<char>,
)
    ensures
        sent_headers(headers.push((name, value)))[header_key(name)] == seq![encode_utf8(value)],
        forall|k: Seq<u8>|
            k != header_key(name) ==> (#[trigger] sent_headers(
                headers.push((name, value)),
            ).contains_key(k) <==> sent_headers(headers).contains_key(k)),
{
    assert(headers.push((name, value)).drop_last() =~= headers);
}

/// A message about a header does not show its value: whatever is wrong with it,
/// another value that is wrong too would be answered alike.
pub proof fn law_messages_do_not_show_values(name: Seq<char>, a: Seq<char>, b: Seq<char>)
    requires
        header_fault((name, a)) is Some,
        header_fault((name, b)) is Some,
    ensures
        header_fault((name, a)) == header_fault((name, b)),
{
}

/// What is wrong with the headers is what every request is answered with: a
/// client for headers of which one is not valid begins with the very message
/// that checking them gives and ends there, with nothing posted and nothing
/// waited for.
pub proof fn law_faulty_headers_stop_every_request(
    client: WebhookClient,
    url: Seq<char>,
    max_attempts: int,
    headers: Seq<(Seq<char>, Seq<char>)>,
    error: Seq<char>,
    step: SendStep,
)
    requires
        client.fits(url, max_attempts, headers),
        first_fault(headers) is Some,
        refused_headers(headers, error),
        begins(client, step),
    ensures
        step matches SendStep::Done(Err(WebhookError::Configuration(m))) && m@ == error,
{
}

/// Headers that cannot be sent are answered with one message, wherever they are
/// looked at: checking them and making a client for them never disagree about
/// what is wrong.
pub proof fn law_refusals_agree(
    client: WebhookClient,
    url: Seq<char>,
    max_attempts: int,
    headers: Seq<(Seq<char>, Seq<char>)>,
    error: Seq<char>,
)
    requires
        client.fits(url, max_attempts, headers),
        refused_headers(headers, error),
        client.fault() is Some,
    ensures
        client.fault() == Some(error),
{
}

/// Whatever came of an attempt, where another one follows it has the next
/// number, there are no more of them than allowed, and the wait goes by its
/// number alone: one second before the second attempt, three seconds before
/// every later one.
pub proof fn law_waits_between_attempts(
    max_attempts: int,
    attempt: u32,
    outcome: Result<u16, TransportError>,
)
    requires
        1 <= attempt <= max_attempts <= 5,
    ensures
        step_after(max_attempts, attempt, outcome) matches SendStep::Attempt { attempt: n, delay }
            ==> {
            &&& n == attempt + 1
            &&& 2 <= n <= max_attempts
            &&& n == 2 ==> delay.nanos == 1_000_000_000
            &&& n >= 3 ==> delay.nanos == 3_000_000_000
        },
{
}

/// Another attempt follows exactly where one is left and the server asked for
/// it, with 408, 429 or an error of its own, or a passing error kept the
/// request from being answered.
pub proof fn law_what_is_tried_again(
    max_attempts: int,
    attempt: u32,
    outcome: Result<u16, TransportError>,
)
    requires
        1 <= attempt <= max_attempts <= 5,
    ensures
        step_after(max_attempts, attempt, outcome) is Attempt <==> attempt < max_attempts && (
        match outcome {
            Ok(status) => status == 408 || status == 429 || 500 <= status <= 599,
            Err(error) => error.timeout || error.connect || error.body || error.decode,
        }),
{
}

/// Where no other attempt follows, the result tells what came of this one: a
/// status from 200 to 299 is success, every other status and every error of the
/// transport is handed on as it came.
pub proof fn law_results_tell_the_last_answer(
    max_attempts: int,
    attempt: u32,
    outcome: Result<u16, TransportError>,
)
    requires
        1 <= attempt <= max_attempts <= 5,
    ensures
        step_after(max_attempts, attempt, outcome) matches SendStep::Done(result) ==> match result {
            Ok(status) => outcome == Ok::<u16, TransportError>(status) && 200 <= status <= 299,
            Err(WebhookError::Status(status)) => outcome == Ok::<u16, TransportError>(status) && !(
            200 <= status <= 299),
            Err(WebhookError::Transport(error)) => outcome == Err::<u16, TransportError>(error),
            Err(WebhookError::Configuration(_)) => false,
        },
        outcome matches Ok(status) ==> (200 <= status <= 299 ==> step_after(
            max_attempts,
            attempt,
            outcome,
        ) == SendStep::Done(Ok(status))),
{
}

/// What came of an attempt decides whether another one follows, and nothing
/// about when: any two outcomes that are followed by one are followed by the
/// same.
pub proof fn law_waits_do_not_depend_on_the_outcome(
    max_attempts: int,
    attempt: u32,
    a: Result<u16, TransportError>,
    b: Result<u16, TransportError>,
)
    requires
        1 <= attempt <= max_attempts <= 5,
        step_after(max_attempts, attempt, a) is Attempt,
        step_after(max_attempts, attempt, b) is Attempt,
    ensures
        step_after(max_attempts, attempt, a) == step_after(max_attempts, attempt, b),
{
}

/// The first request is posted at once, unless something is wrong with the
/// configuration; then nothing is posted, and the error tells what.
pub proof fn law_first_attempt_goes_out_at_once(client: WebhookClient, step: SendStep)
    requires
        begins(client, step),
    ensures
        step is Attempt <==> client.fault() is None,
        step matches SendStep::Attempt { attempt, delay } ==> attempt == 1 && delay.nanos == 0,
        step matches SendStep::Done(result) ==> (result matches Err(WebhookError::Configuration(m))
            && client.fault() == Some(m@)),
{
}

/// A client posts to the address that it was made with. It tries as often as it
/// was told, but once at least and five times at most.
pub proof fn law_clients_keep_their_settings(
    client: WebhookClient,
    url: Seq<char>,
    max_attempts: int,
    headers: Seq<(Seq<char>, Seq<char>)>,
)
    requires
        client.fits(url, max_attempts, headers),
    ensures
        client.target() == url,
        1 <= client.attempts() <= 5,
        1 <= max_attempts <= 5 ==> client.attempts() == max_attempts,
        max_attempts < 1 ==> client.attempts() == 1,
        max_attempts > 5 ==> client.attempts() == 5,
{
}

/// A header that is sent last is sent with its value, and the others are sent as
/// they are without it.
pub proof fn law_headers_do_not_disturb_each_other(
    headers: Seq<(Seq<char>, Seq<char>)>,
    name: Seq<char>,
    value: Seq<char>,
)
    ensures
        sent_headers(Seq::empty()) == Map::<Seq<u8>, Seq<Seq<u8>>>::empty(),
        sent_headers(headers.push((name, value))).contains_key(header_key(name)),
        sent_headers(headers.push((name, value)))[header_key(name)] == seq![encode_utf8(value)],
        sent_headers(headers.push((name, value))).remove(header_key(name)) == sent_headers(
            headers,
        ).remove(header_key(name)),
{
    assert(headers.push((name, value)).drop_last() =~= headers);
    assert(sent_headers(headers.push((name, value))).remove(header_key(name)) =~= sent_headers(
        headers,
    ).remove(header_key(name)));
}

/// Headers are refused exactly where one of them has a name or a value that is
/// not valid, and the message is about the first of these: it tells the name
/// and whether it is the name or the value that is wrong.
pub proof fn law_first_faulty_header_is_told(headers: Seq<(Seq<char>, Seq<char>)>)
    ensures
        match first_fault(headers) {
            None => forall|i: int|
                0 <= i < headers.len() ==> valid_header_name((#[trigger] headers[i]).0)
                    && valid_header_value(headers[i].1),
            Some(fault) => exists|i: int| #[trigger] told_at(headers, i, fault),
        },
    decreases headers.len(),
{
    if headers.len() > 0 {
        let front = headers.drop_last();
        let last = headers.len() - 1;
        law_first_faulty_header_is_told(front);
        match first_fault(front) {
            Some(fault) => {
                let i = choose|i: int| #[trigger] told_at(front, i, fault);
                assert(headers[i] == front[i]);
                assert forall|j: int| 0 <= j < i implies valid_header_name(
                    (#[trigger] headers[j]).0,
                ) && valid_header_value(headers[j].1) by {
                    assert(headers[j] == front[j]);
                }
                assert(told_at(headers, i, fault));
            },
            None => {
                assert forall|j: int| 0 <= j < last implies valid_header_name(
                    (#[trigger] headers[j]).0,
                ) && valid_header_value(headers[j].1) by {
                    assert(headers[j] == front[j]);
                }
                if let Some(fault) = header_fault(headers.last()) {
                    assert(told_at(headers, last, fault));
                }
            },
        }
    }
}

/// Whether a message tells what is wrong with one of the headers, and those
/// before it are valid.
pub open spec fn told_at(
    headers: Seq<(Seq<char>, Seq<char>)>,
    i: int,
    message: Seq<char>,
) -> bool {
    &&& 0 <= i < headers.len()
    &&& forall|j: int|
        0 <= j < i ==> valid_header_name((#[trigger] headers[j]).0) && valid_header_value(
            headers[j].1,
        )
    &&& if valid_header_name(headers[i].0) {
        !valid_header_value(headers[i].1) && message == "invalid value for header `"@ + headers[i].0
            + "`"@
    } else {
        message == "invalid header name `"@ + headers[i].0 + "`"@
    }
}

/// A payload carries what the notification says, each part under its own name,
/// and the time as text. Two notifications with one payload say the same.
pub proof fn law_payloads_carry_the_notification(
    n: NotificationView,
    m: NotificationView,
    timestamp: Timestamp,
)
    ensures
        payload_of(n, timestamp).app_name == n.app_name,
        payload_of(n, timestamp).title == n.title,
        payload_of(n, timestamp).message == n.message,
        payload_of(n, timestamp).notification_id == n.id,
        payload_of(n, timestamp).timestamp == timestamp.text(),
        payload_of(n, timestamp) == payload_of(m, timestamp) ==> n == m,
{
}

/// A test differs from one time to another in the time alone, and names no
/// notification.
pub proof fn law_tests_tell_the_time_alone(a: Timestamp, b: Timestamp)
    ensures
        test_payload(a).timestamp == a.text(),
        test_payload(a).notification_id is None,
        test_payload(a) == (WebhookPayloadView { timestamp: a.text(), ..test_payload(b) }),
        test_payload(a).app_name == "Notification Forwarder"@,
        test_payload(a).title == "Test"@,
        test_payload(a).message == "Webhook test from Notification Forwarder"@,
{
}

/// An error that is shown tells the kind of it and then what is known of it, and
/// nothing else.
pub proof fn law_errors_tell_what_is_known(error: WebhookError)
    ensures
        match error {
            WebhookError::Configuration(e) => error.message()
                == "invalid webhook configuration: "@ + e@,
            WebhookError::Transport(e) => error.message() == "transport error: "@ + e.message@,
            WebhookError::Status(s) => exists|digits: Seq<char>|
                error.message() == #[trigger] ("unexpected status: "@ + digits)
                    && text::all_digits(digits) && text::digits_value(digits) == s,
        },
{
    if let WebhookError::Status(s) = error {
        text::law_decimals_write_the_number(s as nat);
        assert(error.message() == "unexpected status: "@ + text::decimal(s as nat));
    }
}

/// Another attempt may help exactly against a passing error of the transport, a
/// status 408 or 429, and an error of the server; never against a configuration
/// that is not valid.
pub proof fn law_errors_worth_another_attempt(error: WebhookError)
    ensures
        error.retryable() <==> match error {
            WebhookError::Configuration(_) => false,
            WebhookError::Transport(e) => e.timeout || e.connect || e.body || e.decode,
            WebhookError::Status(s) => s == 408 || s == 429 || 500 <= s <= 599,
        },
{
}

/// Headers are refused for one of two reasons: one of them is not valid, and the
/// message tells which is the first; or all are valid and there are more than
/// six and a half thousand.
pub proof fn law_headers_are_refused_for_a_reason(
    headers: Seq<(Seq<char>, Seq<char>)>,
    error: Seq<char>,
)
    requires
        refused_headers(headers, error),
    ensures
        ({
            ||| exists|i: int| #[trigger] told_at(headers, i, error)
            ||| {
                &&& forall|i: int|
                    0 <= i < headers.len() ==> valid_header_name((#[trigger] headers[i]).0)
                        && valid_header_value(headers[i].1)
                &&& headers.len() > 6500
                &&& error == "too many headers"@
            }
        }),
{
    law_first_faulty_header_is_told(headers);
}

/// A client for valid headers sends them all, and one for others sends none.
pub proof fn law_clients_send_valid_headers(
    client: WebhookClient,
    url: Seq<char>,
    max_attempts: int,
    headers: Seq<(Seq<char>, Seq<char>)>,
)
    requires
        client.fits(url, max_attempts, headers),
    ensures
        headers.len() <= 6500 ==> (client.fault() is None <==> forall|i: int|
            0 <= i < headers.len() ==> valid_header_name((#[trigger] headers[i]).0)
                && valid_header_value(headers[i].1)),
        client.fault() is None ==> client.header_contents() == sent_headers(headers),
        client.fault() is Some ==> client.header_contents() == Map::<
            Seq<u8>,
            Seq<Seq<u8>>,
        >::empty(),
{
    law_first_faulty_header_is_told(headers);
    if let Some(fault) = first_fault(headers) {
        let i = choose|i: int| #[trigger] told_at(headers, i, fault);
        assert(!(valid_header_name(headers[i].0) && valid_header_value(headers[i].1)));
    }
}

/// What a payload says is what each of its fields holds.
pub proof fn law_payloads_say_what_they_hold(p: WebhookPayload)
    ensures
        p@.app_name == p.app_name@,
        p@.title == p.title@,
        p@.message == p.message@,
        p@.notification_id == text::opt_text(p.notification_id),
        p@.timestamp == p.timestamp@,
{
}

} // verus!
