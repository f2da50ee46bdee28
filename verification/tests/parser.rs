use notification_forwarder::parser::{
    is_generic_app_name, parse_app_name_hint, parse_banner_fields, parse_banner_fields_at,
    BannerFields,
};
use notification_forwarder::time::Timestamp;

fn texts(list: &[&str]) -> Vec<String> {
    list.iter().map(|s| s.to_string()).collect()
}

#[test]
fn whatsapp_example() {
    let fields = BannerFields {
        app_name_hint: Some("WhatsApp".to_string()),
        static_texts: vec!["Niles 💟".to_string(), "AAA".to_string()],
        ..Default::default()
    };
    let n = parse_banner_fields(&fields).expect("parses");
    assert_eq!(n.app_name, "WhatsApp");
    assert_eq!(n.title, "Niles 💟");
    assert_eq!(n.message, "AAA");
}

#[test]
fn falls_back_to_ax_title_and_description() {
    let fields = BannerFields {
        app_name_hint: Some("Messages".to_string()),
        title_attr: Some("John".to_string()),
        description_attr: Some("Hello".to_string()),
        ..Default::default()
    };
    let n = parse_banner_fields(&fields).expect("parses");
    assert_eq!(n.title, "John");
    assert_eq!(n.message, "Hello");
}

#[test]
fn three_text_shape_extracts_app_name() {
    let fields = BannerFields {
        static_texts: vec![
            "Telegram".to_string(),
            "Alice".to_string(),
            "Where are you?".to_string(),
        ],
        ..Default::default()
    };
    let n = parse_banner_fields(&fields).expect("parses");
    assert_eq!(n.app_name, "Telegram");
    assert_eq!(n.title, "Alice");
}

#[test]
fn generic_container_hint_does_not_override_mobile_app() {
    let fields = BannerFields {
        app_name_hint: Some("Notification Center".to_string()),
        static_texts: vec![
            "Booking".to_string(),
            "Booking Confirmed".to_string(),
            "Your booking has been confirmed by Booking.".to_string(),
        ],
        ..Default::default()
    };
    let n = parse_banner_fields(&fields).expect("parses");
    assert_eq!(n.app_name, "Booking");
    assert_eq!(n.title, "Booking Confirmed");
}

#[test]
fn generic_container_hint_is_never_reported_as_originating_app() {
    let fields = BannerFields {
        app_name_hint: Some("Notification Center".to_string()),
        static_texts: vec![
            "Booking Confirmed".to_string(),
            "Your booking has been confirmed by Booking.".to_string(),
        ],
        ..Default::default()
    };
    let n = parse_banner_fields(&fields).expect("parses");
    assert_eq!(n.app_name, "Unknown");
    assert_eq!(n.title, "Booking Confirmed");
}

#[test]
fn extracts_app_from_notification_center_spoken_summary() {
    let fields = BannerFields {
        app_name_hint: Some("\u{200e}WhatsApp, Niles 💟, Miss you".to_string()),
        static_texts: vec!["Niles 💟".to_string(), "Miss you".to_string()],
        ..Default::default()
    };
    let n = parse_banner_fields(&fields).expect("parses");
    assert_eq!(n.app_name, "WhatsApp");
    assert_eq!(n.title, "Niles 💟");
    assert_eq!(n.message, "Miss you");
}

#[test]
fn empty_banner_is_ignored() {
    assert!(parse_banner_fields(&BannerFields::default()).is_none());
}

#[test]
fn three_texts_are_app_title_and_body() {
    let fields = BannerFields {
        static_texts: texts(&["Telegram", "Alice", "one", " two "]),
        ..Default::default()
    };
    let n = parse_banner_fields(&fields).unwrap();
    assert_eq!(n.app_name, "Telegram");
    assert_eq!(n.title, "Alice");
    assert_eq!(n.message, "one\ntwo");
}

#[test]
fn with_a_hint_the_first_text_is_the_title() {
    let fields = BannerFields {
        app_name_hint: Some("Telegram".to_string()),
        static_texts: texts(&["  Alice\n", "", "one", "  ", "two"]),
        ..Default::default()
    };
    let n = parse_banner_fields(&fields).unwrap();
    assert_eq!(n.app_name, "Telegram");
    assert_eq!(n.title, "Alice");
    assert_eq!(n.message, "one\ntwo");
}

#[test]
fn blank_fields_count_as_missing() {
    let fields = BannerFields {
        identifier: Some(" ".to_string()),
        app_name_hint: Some("\u{feff} ".to_string()),
        title_attr: Some(" Title ".to_string()),
        description_attr: Some("\t".to_string()),
        static_texts: texts(&["  "]),
    };
    let n = parse_banner_fields(&fields).unwrap();
    assert_eq!(n.id, None);
    assert_eq!(n.app_name, "Unknown");
    assert_eq!(n.title, "Title");
    assert_eq!(n.message, "");
}

#[test]
fn a_description_alone_is_ignored() {
    let fields = BannerFields {
        description_attr: Some("Hello".to_string()),
        app_name_hint: Some("Mail".to_string()),
        ..Default::default()
    };
    assert!(parse_banner_fields(&fields).is_none());
}

#[test]
fn description_does_not_repeat_the_title() {
    let mut fields = BannerFields {
        description_attr: Some(" Hello ".to_string()),
        static_texts: texts(&["Hello"]),
        ..Default::default()
    };
    assert_eq!(parse_banner_fields(&fields).unwrap().message, "");
    fields.description_attr = Some("Hello!".to_string());
    assert_eq!(parse_banner_fields(&fields).unwrap().message, "Hello!");
    // The texts come first.
    fields.static_texts = texts(&["Hello", "World"]);
    assert_eq!(parse_banner_fields(&fields).unwrap().message, "World");
}

#[test]
fn identifier_and_time_are_kept() {
    let stamp = Timestamp::new(1_000_000_000, 0, 0).unwrap();
    let fields = BannerFields {
        identifier: Some(" 79BAE16D ".to_string()),
        static_texts: texts(&["T"]),
        ..Default::default()
    };
    let n = parse_banner_fields_at(&fields.clone(), stamp).unwrap();
    assert_eq!(n.id, Some("79BAE16D".to_string()));
    assert_eq!(n.timestamp, stamp);
}

#[test]
fn generic_names_in_every_spelling() {
    for name in [
        "Notification Center",
        "notification centre",
        "NOTIFICATIONS",
        "Notification",
        "Control-Center",
        " N o t i f i c a t i o n s! ",
    ] {
        assert!(is_generic_app_name(name), "{name}");
    }
    for name in ["", "Notification Centers", "Mail", "Notificatiön"] {
        assert!(!is_generic_app_name(name), "{name}");
    }
}

#[test]
fn only_letters_and_digits_tell_names_apart() {
    assert!(is_generic_app_name("Notification.\u{2014}s"));
    assert!(!is_generic_app_name("Notification\u{212a}"));
    assert!(!is_generic_app_name("Notification2"));
}

#[test]
fn hints_are_cleaned() {
    let none = texts(&[]);
    assert_eq!(parse_app_name_hint("\u{202a} Mail\u{2069} ", &none), Some("Mail".to_string()));
    assert_eq!(parse_app_name_hint("\u{200f}\u{202e}\u{2066}", &none), None);
    assert_eq!(parse_app_name_hint("Notification Center", &none), None);
    // Other invisible characters stay.
    assert_eq!(
        parse_app_name_hint("\u{200b}Mail", &none),
        Some("\u{200b}Mail".to_string())
    );
}

#[test]
fn a_summary_names_the_app_before_the_comma() {
    let list = texts(&["Niles", "Hello"]);
    let app = |hint: &str| parse_app_name_hint(hint, &list);
    assert_eq!(app("WhatsApp ,   Niles, Hello"), Some("WhatsApp".to_string()));
    assert_eq!(app("WhatsApp, Nobody, Hello"), Some("WhatsApp, Nobody, Hello".to_string()));
    assert_eq!(app("Notification Center, Niles"), Some("Notification Center, Niles".to_string()));
    assert_eq!(app(", Niles"), Some(", Niles".to_string()));
    assert_eq!(
        parse_app_name_hint("WhatsApp, Niles", &texts(&[])),
        Some("WhatsApp, Niles".to_string())
    );
}

#[test]
fn marks_and_white_space_are_no_letters() {
    let marks = "\u{200e}\u{200f}\u{202a}\u{202b}\u{202c}\u{202d}\u{202e}\u{2066}\u{2067}\u{2068}\u{2069}\u{feff}";
    let spaces = (0..=0x10ffff).filter_map(char::from_u32).filter(|c| c.is_whitespace());
    for c in marks.chars().chain(spaces) {
        assert!(is_generic_app_name(&format!("{c}Notification{c}s{c}")), "{c:?}");
    }
}

#[test]
fn a_blank_or_container_hint_counts_as_none() {
    let stamp = Timestamp::new(1_000_000_000, 0, 0).unwrap();
    for list in [texts(&["A", "B", "C"]), texts(&["A", "B"]), texts(&[])] {
        let without = BannerFields {
            title_attr: Some("T".to_string()),
            description_attr: Some("D".to_string()),
            static_texts: list,
            ..Default::default()
        };
        for hint in ["", " \t", "\u{200e} \u{feff}", "Notification\u{200f} Center", " Notifications "] {
            let with = BannerFields { app_name_hint: Some(hint.to_string()), ..without.clone() };
            assert_eq!(
                parse_banner_fields_at(&with, stamp),
                parse_banner_fields_at(&without, stamp),
                "{hint:?}"
            );
        }
    }
}
