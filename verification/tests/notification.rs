use notification_forwarder::dedup::{fingerprint, hex_encode, DedupCache};
use notification_forwarder::model::Notification;
use notification_forwarder::time::{Span, Timestamp};
use std::time::{Duration, Instant};

fn millis(n: u128) -> u128 {
    n * 1_000_000
}

#[test]
fn duplicate_sequence_from_prd() {
    let mut cache = DedupCache::new(Span::from_secs(900), 100);
    // AAA -> send, AAA -> ignore, BBB -> send, CCC -> send.
    assert!(!cache.is_duplicate(&fingerprint("WhatsApp", "Niles", "AAA")));
    assert!(cache.is_duplicate(&fingerprint("WhatsApp", "Niles", "AAA")));
    assert!(!cache.is_duplicate(&fingerprint("WhatsApp", "Niles", "BBB")));
    assert!(!cache.is_duplicate(&fingerprint("WhatsApp", "Niles", "CCC")));
}

#[test]
fn ttl_expiry_allows_resend() {
    let mut cache = DedupCache::new(Span::from_millis(10), 100);
    let fp = fingerprint("A", "T", "M");
    assert!(!cache.is_duplicate(&fp));
    let start = Instant::now();
    while start.elapsed() < Duration::from_millis(20) {}
    assert!(!cache.is_duplicate(&fp));
}

#[test]
fn cache_is_bounded() {
    let mut cache = DedupCache::new(Span::from_secs(900), 32);
    for i in 0..100 {
        cache.is_duplicate(&fingerprint("A", "T", &i.to_string()));
    }
    assert!(cache.len() <= 32, "len={}", cache.len());
}

#[test]
fn fingerprint_is_stable() {
    let a = Notification::new("WhatsApp", "Niles 💟", "AAA");
    let b = Notification::new("WhatsApp", "Niles 💟", "AAA");
    assert_eq!(a.fingerprint(), b.fingerprint());
}

#[test]
fn example_from_prd() {
    let n = Notification::new("WhatsApp", "Niles 💟", "AAA");
    assert_eq!(n.app_name, "WhatsApp");
    assert_eq!(n.title, "Niles 💟");
    assert_eq!(n.message, "AAA");
}

#[test]
fn fingerprint_is_the_sha256_of_the_content() {
    assert_eq!(
        fingerprint("WhatsApp", "Niles 💟", "AAA"),
        "8a717b8afad41324ddff53f55cb1184fbc4d8da8c774ceaf14ba6dc3164e50a9"
    );
    assert_eq!(
        fingerprint("", "", ""),
        "96a296d224f285c67bee93c30f8a309157f0daa35dc5b87e410b78630a09cfc7"
    );
    assert_eq!(
        fingerprint("a", "b", "c"),
        "8badde10c760e9b702defb4b5e225de79c515b1d2a5cfb000e140f3c6fbb5629"
    );
}

#[test]
fn fields_do_not_run_into_one_another() {
    assert_ne!(fingerprint("ab", "c", "d"), fingerprint("a", "bc", "d"));
    assert_ne!(fingerprint("a", "bc", "d"), fingerprint("a", "b", "cd"));
}

#[test]
fn bytes_in_hexadecimal() {
    assert_eq!(hex_encode(&vec![]), "");
    assert_eq!(hex_encode(&vec![0, 9, 10, 15, 16, 171, 255]), "00090a0f10abff");
}

#[test]
fn identifier_and_time_do_not_change_the_fingerprint() {
    let a = Notification::new("A", "T", "M");
    let b = Notification::new("A", "T", "M").with_id("ABC");
    assert_eq!(a.id, None);
    assert_eq!(b.id, Some("ABC".to_string()));
    assert_eq!(a.fingerprint(), b.fingerprint());
    assert_eq!(b.clone(), b);
}

#[test]
fn an_empty_identifier_is_none() {
    let n = Notification::new("A", "T", "M").with_id("ABC").with_id("");
    assert_eq!(n.id, None);
}

#[test]
fn a_fingerprint_lives_as_long_as_stated() {
    let mut cache = DedupCache::new(Span::from_millis(10), 100);
    assert!(!cache.is_duplicate_at("a", millis(0)));
    assert!(cache.is_duplicate_at("a", millis(10) - 1));
    assert!(!cache.is_duplicate_at("a", millis(10)));
    // The second look recorded it anew.
    assert!(cache.is_duplicate_at("a", millis(19)));
}

#[test]
fn a_duplicate_does_not_live_longer() {
    let mut cache = DedupCache::new(Span::from_millis(10), 100);
    assert!(!cache.is_duplicate_at("a", millis(0)));
    assert!(cache.is_duplicate_at("a", millis(9)));
    assert!(!cache.is_duplicate_at("a", millis(12)));
}

#[test]
fn expired_entries_leave() {
    let mut cache = DedupCache::new(Span::from_millis(10), 100);
    assert!(cache.is_empty());
    cache.is_duplicate_at("a", millis(0));
    cache.is_duplicate_at("b", millis(5));
    assert_eq!(cache.len(), 2);
    cache.is_duplicate_at("c", millis(12));
    assert_eq!(cache.len(), 2);
    assert!(!cache.is_empty());
}

#[test]
fn the_oldest_entry_makes_room() {
    let mut cache = DedupCache::new(Span::from_secs(900), 0);
    for i in 0..16u128 {
        assert!(!cache.is_duplicate_at(&i.to_string(), 100 + i));
    }
    assert_eq!(cache.len(), 16);
    assert!(!cache.is_duplicate_at("new", 200));
    assert_eq!(cache.len(), 16);
    assert!(cache.is_duplicate_at("1", 201));
    assert!(cache.is_duplicate_at("new", 201));
    assert!(!cache.is_duplicate_at("0", 201));
}

#[test]
fn timestamps_are_written_with_their_offset() {
    let t = Timestamp::new(1_788_895_800, 0, 7 * 3600).unwrap();
    assert_eq!(t.to_rfc3339(), "2026-09-09T02:30:00+07:00");
    let t = Timestamp::new(0, 5, 0).unwrap();
    assert_eq!(t.to_rfc3339(), "1970-01-01T00:00:00.000000005+00:00");
    let t = Timestamp::new(8_210_266_876_799, 999_999_999, -86_399).unwrap();
    assert!(t.to_rfc3339().starts_with("+262142-12-31T"));
}

#[test]
fn timestamps_have_bounds() {
    assert!(Timestamp::new(-1, 0, 0).is_none());
    assert!(Timestamp::new(8_210_266_876_800, 0, 0).is_none());
    assert!(Timestamp::new(0, 1_000_000_000, 0).is_none());
    assert!(Timestamp::new(0, 0, 86_400).is_none());
    assert!(Timestamp::new(0, 0, -86_400).is_none());
}

#[test]
fn now_is_a_point_in_time_that_can_be_written() {
    let now = Timestamp::now().to_rfc3339();
    assert!(now.len() >= 25, "{now}");
    assert_eq!(now.as_bytes()[10], b'T');
    assert!(now.as_str() > "2024", "{now}");
}

#[test]
fn spans_in_nanoseconds() {
    assert_eq!(Span::from_secs(3).nanos, 3_000_000_000);
    assert_eq!(Span::from_millis(250).nanos, 250_000_000);
    assert_eq!(Span::from_secs(u64::MAX).nanos, u64::MAX as u128 * 1_000_000_000);
}
