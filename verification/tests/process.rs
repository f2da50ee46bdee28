use notification_forwarder::process::{find_pid_in_ps_output, Poll};

const BUNDLE: &str =
    "/System/Library/CoreServices/NotificationCenter.app/Contents/MacOS/NotificationCenter";

#[test]
fn parses_bundle_path_line() {
    let out = "  990 /System/Library/CoreServices/NotificationCenter.app/Contents/MacOS/NotificationCenter /System/Library/CoreServices/NotificationCenter.app/Contents/MacOS/NotificationCenter\n 1234 /usr/sbin/something something\n";
    assert_eq!(find_pid_in_ps_output(out, 77), Some(990));
}

#[test]
fn ignores_self_and_missing() {
    let me = 4242;
    let out = format!("  {me} NotificationCenter NotificationCenter\n");
    // The asking process must never be returned.
    assert!(find_pid_in_ps_output(&out, me).is_none());
    assert_eq!(find_pid_in_ps_output("", me), None);
}

#[test]
fn the_bundle_path_is_preferred_wherever_it_stands() {
    let out = format!("  50 usernoted usernoted\n  60 NotificationCenter x\n  70 {BUNDLE} x\n  80 {BUNDLE} y\n");
    assert_eq!(find_pid_in_ps_output(&out, 1), Some(70));
    assert_eq!(find_pid_in_ps_output(&out, 70), Some(80));
}

#[test]
fn names_are_tried_in_order() {
    let out = "  50 usernoted u\n  60 x Notification Center\n  70 NotificationCenter x\n";
    assert_eq!(find_pid_in_ps_output(out, 1), Some(70));
    assert_eq!(find_pid_in_ps_output(out, 70), Some(60));
    let out = "  50 usernoted u\n";
    assert_eq!(find_pid_in_ps_output(out, 1), Some(50));
}

#[test]
fn lines_about_this_program_do_not_match_a_name() {
    let out = "  50 sh /opt/notification-forwarder --about NotificationCenter\n  60 usernoted u\n";
    assert_eq!(find_pid_in_ps_output(out, 1), Some(60));
    // The path in the bundle counts all the same.
    let out = format!("  50 notification-forwarder {BUNDLE}\n");
    assert_eq!(find_pid_in_ps_output(&out, 1), Some(50));
}

#[test]
fn system_processes_and_bad_numbers_are_passed_over() {
    let out = "0 usernoted\n1 usernoted\n-5 usernoted\nabc usernoted\n99999999999 usernoted\n\n   \n+7 usernoted\r\n";
    assert_eq!(find_pid_in_ps_output(out, 3), Some(7));
    assert_eq!(find_pid_in_ps_output("2147483647 usernoted", 3), Some(i32::MAX));
    assert_eq!(find_pid_in_ps_output("2147483648 usernoted", 3), None);
}

#[test]
fn waits_double_up_to_ten_seconds() {
    let mut poll = Poll::new();
    let waits: Vec<u128> = (0..7).map(|_| poll.after_miss().nanos / 1_000_000).collect();
    assert_eq!(waits, vec![500, 1000, 2000, 4000, 8000, 10_000, 10_000]);
}
