use notification_forwarder::client::{
    validate_headers, SendStep, WebhookClient, WebhookError, WebhookPayload,
};
use notification_forwarder::model::Notification;
use notification_forwarder::queue::{queue_capacity, QueueGate, QueueStats};
use notification_forwarder::retry::{
    backoff_for_attempt, should_retry, should_retry_error, TransportError,
};
use notification_forwarder::tables::HeaderTable;
use notification_forwarder::time::{Span, Timestamp};

fn table(list: &[(&str, &str)]) -> HeaderTable {
    HeaderTable::from_pairs(list.iter().map(|(n, v)| (n.to_string(), v.to_string())).collect())
}

fn failure(timeout: bool, connect: bool, body: bool, decode: bool) -> TransportError {
    TransportError { message: "no route".to_string(), timeout, connect, body, decode }
}

fn outcome(step: SendStep) -> Result<u16, WebhookError> {
    match step {
        SendStep::Done(result) => result,
        SendStep::Attempt { attempt, .. } => panic!("attempt {attempt} follows"),
    }
}

fn follows(step: SendStep) -> (u32, Span) {
    match step {
        SendStep::Attempt { attempt, delay } => (attempt, delay),
        SendStep::Done(_) => panic!("nothing follows"),
    }
}

#[test]
fn validates_custom_headers() {
    let headers = table(&[("Authorization", "Bearer token"), ("X-Source", "macOS")]);
    assert!(validate_headers(&headers).is_ok());
}

#[test]
fn rejects_invalid_header_names_and_values() {
    let bad_name = table(&[("Bad Header", "value")]);
    assert!(validate_headers(&bad_name).is_err());

    let bad_value = table(&[("X-Test", "one\ntwo")]);
    assert!(validate_headers(&bad_value).is_err());
}

#[test]
fn attempts_match_expected_policy() {
    assert_eq!(backoff_for_attempt(1), Span::from_secs(0));
    assert_eq!(backoff_for_attempt(2), Span::from_secs(1));
    assert_eq!(backoff_for_attempt(3), Span::from_secs(3));
}

#[test]
fn do_not_retry_client_errors() {
    for status in [400, 401, 403, 404] {
        assert!(!should_retry(status), "{status} must not retry");
    }
}

#[test]
fn retry_transient() {
    for status in [408, 429, 500, 502, 503, 504] {
        assert!(should_retry(status), "{status} must retry");
    }
}

#[test]
fn every_server_error_is_transient() {
    for status in 500..=599 {
        assert!(should_retry(status), "{status} must retry");
    }
    for status in [0, 200, 301, 407, 409, 428, 430, 499, 600, u16::MAX] {
        assert!(!should_retry(status), "{status} must not retry");
    }
}

#[test]
fn waits_of_other_attempts() {
    assert_eq!(backoff_for_attempt(0), Span::from_secs(0));
    assert_eq!(backoff_for_attempt(4), Span::from_secs(3));
    assert_eq!(backoff_for_attempt(u32::MAX), Span::from_secs(3));
}

#[test]
fn passing_transport_errors() {
    assert!(should_retry_error(&failure(true, false, false, false)));
    assert!(should_retry_error(&failure(false, true, false, false)));
    assert!(should_retry_error(&failure(false, false, true, false)));
    assert!(should_retry_error(&failure(false, false, false, true)));
    assert!(!should_retry_error(&failure(false, false, false, false)));
}

#[test]
fn messages_name_the_header_but_not_its_value() {
    assert_eq!(
        validate_headers(&table(&[("Bad Header", "secret")])),
        Err("invalid header name `Bad Header`".to_string())
    );
    assert_eq!(
        validate_headers(&table(&[("X-Test", "sec\nret")])),
        Err("invalid value for header `X-Test`".to_string())
    );
    assert_eq!(
        validate_headers(&table(&[("", "v")])),
        Err("invalid header name ``".to_string())
    );
}

#[test]
fn the_first_bad_header_in_name_order_counts() {
    assert_eq!(
        validate_headers(&table(&[("z z", "v"), ("b", "\u{7f}"), ("a", "ok")])),
        Err("invalid value for header `b`".to_string())
    );
}

#[test]
fn every_character_of_a_header_name() {
    for c in (0u32..0x250).filter_map(char::from_u32) {
        let valid = c.is_ascii_alphanumeric() || "!#$%&'*+-.^_`|~".contains(c);
        let name = format!("x{c}");
        let headers = HeaderTable::from_pairs(vec![(name, String::new())]);
        assert_eq!(validate_headers(&headers).is_ok(), valid, "{c:?}");
    }
}

#[test]
fn every_character_of_a_header_value() {
    for c in (0u32..0x250).filter_map(char::from_u32) {
        let valid = c == '\t' || c >= ' ' && c != '\u{7f}';
        let headers = HeaderTable::from_pairs(vec![("x".to_string(), c.to_string())]);
        assert_eq!(validate_headers(&headers).is_ok(), valid, "{c:?}");
    }
}

#[test]
fn the_length_of_a_header_name_is_bounded() {
    let longest = HeaderTable::from_pairs(vec![("a".repeat(65535), String::new())]);
    assert!(validate_headers(&longest).is_ok());
    let longer = HeaderTable::from_pairs(vec![("a".repeat(65536), String::new())]);
    assert!(validate_headers(&longer).is_err());
}

#[test]
fn too_many_headers_are_refused() {
    let list = |n: usize| (0..n).map(|i| (format!("x{i:05}"), String::new())).collect();
    assert!(validate_headers(&HeaderTable::from_pairs(list(6554))).is_ok());
    assert_eq!(
        validate_headers(&HeaderTable::from_pairs(list(32769))),
        Err("too many headers".to_string())
    );
}

#[test]
fn a_fault_counts_before_the_number_of_headers() {
    let mut list: Vec<(String, String)> =
        (0..32769).map(|i| (format!("x{i:05}"), String::new())).collect();
    list.push(("z z".to_string(), String::new()));
    let table = HeaderTable::from_pairs(list);
    let message = "invalid header name `z z`";
    assert_eq!(validate_headers(&table), Err(message.to_string()));
    let client = WebhookClient::new("http://h".to_string(), 3, &table);
    match outcome(client.begin_send()) {
        Err(WebhookError::Configuration(e)) => assert_eq!(e, message),
        other => panic!("{other:?}"),
    }
}

#[test]
fn checking_and_sending_give_one_message() {
    for list in [[("a b", "v")], [("x", "\n")], [("", "")]] {
        let table = table(&list);
        let error = validate_headers(&table).unwrap_err();
        match outcome(WebhookClient::new("http://h".to_string(), 3, &table).begin_send()) {
            Err(WebhookError::Configuration(e)) => assert_eq!(e, error),
            other => panic!("{other:?}"),
        }
    }
}

#[test]
fn a_counter_that_is_full_does_not_hold_up_the_other() {
    let mut stats = QueueStats { enqueued: u64::MAX, delivered: u64::MAX, failed: 0, dropped_full: 0 };
    stats.record_enqueue(false);
    stats.record_sent(false);
    assert_eq!((stats.dropped_full, stats.failed), (1, 1));
}

#[test]
fn a_client_carries_its_headers() {
    let headers = table(&[("Authorization", "Bearer token"), ("X-Source", "macOS")]);
    let client = WebhookClient::new("http://h/p".to_string(), 3, &headers);
    assert_eq!(client.url(), "http://h/p");
    assert_eq!(client.max_attempts(), 3);
    let map = client.headers();
    assert_eq!(map.len(), 2);
    assert_eq!(map.get("authorization").unwrap(), "Bearer token");
    assert_eq!(map.get("x-source").unwrap(), "macOS");
}

#[test]
fn a_copy_of_a_client_sends_the_same() {
    let headers = table(&[("Authorization", "Bearer token")]);
    let copy = WebhookClient::new("http://h/p".to_string(), 4, &headers).clone();
    assert_eq!(copy.url(), "http://h/p");
    assert_eq!(copy.max_attempts(), 4);
    assert_eq!(copy.headers().get("authorization").unwrap(), "Bearer token");
    let bad = WebhookClient::new(String::new(), 4, &table(&[("a b", "v")])).clone();
    assert!(matches!(outcome(bad.begin_send()), Err(WebhookError::Configuration(_))));
}

#[test]
fn of_names_that_differ_in_case_the_later_counts() {
    let headers = table(&[("x-a", "lower"), ("X-A", "upper")]);
    let client = WebhookClient::new(String::new(), 3, &headers);
    assert_eq!(client.headers().len(), 1);
    assert_eq!(client.headers().get("X-a").unwrap(), "lower");
}

#[test]
fn attempts_are_limited() {
    let none = HeaderTable::new();
    for (asked, given) in [(0, 1), (1, 1), (4, 4), (5, 5), (6, 5), (u32::MAX, 5)] {
        assert_eq!(WebhookClient::new(String::new(), asked, &none).max_attempts(), given);
    }
}

#[test]
fn bad_headers_make_every_request_fail() {
    let client = WebhookClient::new("http://h".to_string(), 3, &table(&[("a b", "v")]));
    assert_eq!(client.headers().len(), 0);
    match outcome(client.begin_send()) {
        Err(WebhookError::Configuration(e)) => assert_eq!(e, "invalid header name `a b`"),
        other => panic!("{other:?}"),
    }
}

#[test]
fn the_first_attempt_goes_out_at_once() {
    let client = WebhookClient::new("http://h".to_string(), 3, &HeaderTable::new());
    assert_eq!(follows(client.begin_send()), (1, Span::from_secs(0)));
}

#[test]
fn success_ends_a_send() {
    let client = WebhookClient::new("http://h".to_string(), 3, &HeaderTable::new());
    for status in [200, 204, 299] {
        assert_eq!(outcome(client.after_attempt(1, Ok(status))).unwrap(), status);
    }
}

#[test]
fn passing_faults_are_retried_up_to_the_limit() {
    let client = WebhookClient::new("http://h".to_string(), 3, &HeaderTable::new());
    assert_eq!(follows(client.after_attempt(1, Ok(503))), (2, Span::from_secs(1)));
    let timeout = failure(true, false, false, false);
    assert_eq!(follows(client.after_attempt(2, Err(timeout))), (3, Span::from_secs(3)));
    assert!(matches!(outcome(client.after_attempt(3, Ok(429))), Err(WebhookError::Status(429))));
    let refused = failure(false, true, false, false);
    match outcome(client.after_attempt(3, Err(refused))) {
        Err(WebhookError::Transport(e)) => assert_eq!(e.message, "no route"),
        other => panic!("{other:?}"),
    }
}

#[test]
fn final_answers_are_not_retried() {
    let client = WebhookClient::new("http://h".to_string(), 5, &HeaderTable::new());
    for status in [100, 199, 300, 302, 400, 401, 403, 404, 600] {
        match outcome(client.after_attempt(1, Ok(status))) {
            Err(WebhookError::Status(s)) => assert_eq!(s, status),
            other => panic!("{other:?}"),
        }
    }
    let other = failure(false, false, false, false);
    assert!(matches!(
        outcome(client.after_attempt(1, Err(other))),
        Err(WebhookError::Transport(_))
    ));
}

#[test]
fn a_whole_send_takes_no_more_attempts_than_allowed() {
    let client = WebhookClient::new("http://h".to_string(), 9, &HeaderTable::new());
    let mut step = client.begin_send();
    let mut delays = Vec::new();
    loop {
        match step {
            SendStep::Attempt { attempt, delay } => {
                delays.push(delay.nanos / 1_000_000_000);
                step = client.after_attempt(attempt, Ok(500));
            }
            SendStep::Done(result) => {
                assert!(matches!(result, Err(WebhookError::Status(500))));
                break;
            }
        }
    }
    assert_eq!(delays, vec![0, 1, 3, 3, 3]);
}

#[test]
fn errors_in_words() {
    let e = WebhookError::Configuration("bad".to_string());
    assert_eq!(e.describe(), "invalid webhook configuration: bad");
    assert!(!e.is_transport_retryable());
    let e = WebhookError::Transport(failure(false, true, false, false));
    assert_eq!(e.describe(), "transport error: no route");
    assert!(e.is_transport_retryable());
    let e = WebhookError::Status(404);
    assert_eq!(e.describe(), "unexpected status: 404");
    assert!(!e.is_transport_retryable());
    assert!(WebhookError::Status(503).is_transport_retryable());
}

#[test]
fn the_test_payload() {
    let stamp = Timestamp::new(1_788_895_800, 0, 7 * 3600).unwrap();
    let p = WebhookPayload::test_at(stamp);
    assert_eq!(p.app_name, "Notification Forwarder");
    assert_eq!(p.title, "Test");
    assert_eq!(p.message, "Webhook test from Notification Forwarder");
    assert_eq!(p.notification_id, None);
    assert_eq!(p.timestamp, "2026-09-09T02:30:00+07:00");
    assert_eq!(WebhookPayload::test().title, "Test");
}

#[test]
fn the_payload_of_a_notification() {
    let stamp = Timestamp::new(1_788_895_800, 0, 7 * 3600).unwrap();
    let n = Notification::at("WhatsApp", "Niles 💟", "AAA", stamp).with_id("79BAE16D");
    let p = WebhookPayload::of_notification(&n).clone();
    assert_eq!(p.app_name, "WhatsApp");
    assert_eq!(p.title, "Niles 💟");
    assert_eq!(p.message, "AAA");
    assert_eq!(p.notification_id, Some("79BAE16D".to_string()));
    assert_eq!(p.timestamp, "2026-09-09T02:30:00+07:00");
}

#[test]
fn a_queue_has_room_for_eight() {
    assert_eq!(queue_capacity(0), 8);
    assert_eq!(queue_capacity(7), 8);
    assert_eq!(queue_capacity(256), 256);
}

#[test]
fn outcomes_are_counted() {
    let mut stats = QueueStats::default();
    stats.record_enqueue(true);
    stats.record_enqueue(true);
    stats.record_enqueue(false);
    stats.record_sent(true);
    stats.record_sent(false);
    assert_eq!(
        stats,
        QueueStats { enqueued: 2, delivered: 1, failed: 1, dropped_full: 1 }
    );
}

#[test]
fn a_full_queue_drops_and_counts() {
    let mut gate = QueueGate::new(3);
    assert_eq!(gate.capacity(), 8);
    assert!(gate.offer(WebhookPayload::test(), 0, true).is_some());
    assert_eq!(gate.offer(WebhookPayload::test(), 7, true).unwrap().title, "Test");
    assert!(gate.offer(WebhookPayload::test(), 8, true).is_none());
    assert!(gate.offer(WebhookPayload::test(), 0, false).is_none());
    gate.sent(true);
    gate.sent(false);
    gate.sent(true);
    assert_eq!(
        gate.stats(),
        QueueStats { enqueued: 2, delivered: 2, failed: 1, dropped_full: 2 }
    );
    assert_eq!(QueueGate::new(256).capacity(), 256);
}
