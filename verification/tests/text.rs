use notification_forwarder::text::{
    chars_of, contains, decimal_text, index_from, join, lines, parse_i32, repeat, same,
    signed_decimal_text, split, split_once, starts_with, string_of, strip_prefix, trim, trim_start,
};

const SAMPLES: [&str; 14] = [
    "", " ", "a", " a", "a ", "\t a b \n", "a,b", ",", ",,a,", "a\nb", "a\r\nb\r\n", "\n\n", "a\r",
    "é, 日本 ,\u{3000}",
];

#[test]
fn white_space_is_what_std_takes_for_it() {
    for c in (0..=0x10ffff).filter_map(char::from_u32) {
        let s = format!("{c}x{c}");
        assert_eq!(trim(&s), s.trim(), "{c:?}");
    }
}

#[test]
fn trimming_like_std() {
    for s in SAMPLES {
        assert_eq!(trim(s), s.trim());
        assert_eq!(trim_start(s), s.trim_start());
    }
}

#[test]
fn splitting_like_std() {
    for s in SAMPLES {
        assert_eq!(split(s, ','), s.split(',').collect::<Vec<_>>());
        assert_eq!(lines(s), s.lines().collect::<Vec<_>>());
        let cut = split_once(s, ',');
        let cut = cut.as_ref().map(|(a, b)| (a.as_str(), b.as_str()));
        assert_eq!(cut, s.split_once(','));
    }
}

#[test]
fn joining_undoes_splitting() {
    for s in SAMPLES {
        assert_eq!(join(&split(s, ','), ","), s);
    }
    assert_eq!(join(&vec![], "-"), "");
    assert_eq!(join(&vec!["a".to_string(), String::new(), "b".to_string()], "--"), "a----b");
}

#[test]
fn searching_like_std() {
    for s in SAMPLES {
        for pat in ["", "a", "b", " a", ",,", "a,b", "本", "日本 ", "\r\n"] {
            assert_eq!(contains(s, pat), s.contains(pat), "{s:?} {pat:?}");
            assert_eq!(starts_with(s, pat), s.starts_with(pat), "{s:?} {pat:?}");
            assert_eq!(strip_prefix(s, pat).as_deref(), s.strip_prefix(pat), "{s:?} {pat:?}");
            assert_eq!(same(s, pat), s == pat);
        }
    }
}

#[test]
fn numbers_like_std() {
    for n in [0, 1, 9, 10, 99, 100, 4_294_967_296, u64::MAX] {
        assert_eq!(decimal_text(n), n.to_string());
    }
    for n in [0, -1, 7, i32::MAX, i32::MIN] {
        assert_eq!(signed_decimal_text(n), n.to_string());
        assert_eq!(parse_i32(&n.to_string()), Some(n));
    }
    for s in ["", "+", "-", "+5", "-0", "007", "2147483648", "-2147483648", "-2147483649", "1 ", "١"] {
        assert_eq!(parse_i32(s), s.parse::<i32>().ok(), "{s:?}");
    }
    assert_eq!(parse_i32("000000000000000000000000000012"), Some(12));
}

#[test]
fn characters_and_back() {
    let chars = chars_of("añ日");
    assert_eq!(chars, vec!['a', 'ñ', '日']);
    assert_eq!(string_of(&chars, 1, 3), "ñ日");
    assert_eq!(index_from(&chars, 'ñ', 0), 1);
    assert_eq!(index_from(&chars, 'a', 1), 3);
    assert_eq!(repeat("ab", 3), "ababab");
    assert_eq!(repeat("ab", 0), "");
}
