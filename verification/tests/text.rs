use nostr_sync::text::{chars_of, is_whitespace, string_of, trim_bounds};

fn trimmed(s: &str) -> String {
    let chars = chars_of(s);
    let (a, b) = trim_bounds(&chars, 0, chars.len());
    string_of(&chars, a, b)
}

#[test]
fn chars_of_keeps_every_character() {
    assert_eq!(chars_of("aé,z"), vec!['a', 'é', ',', 'z']);
    assert!(chars_of("").is_empty());
}

#[test]
fn trim_matches_str_trim() {
    for s in ["  a b  ", "\t\nx\r\n", "", "   ", "\u{3000}wide\u{a0}", "plain"] {
        assert_eq!(trimmed(s), s.trim(), "{:?}", s);
    }
}

#[test]
fn string_of_takes_a_range() {
    let chars = chars_of("hello, world");
    assert_eq!(string_of(&chars, 7, 12), "world");
    assert_eq!(string_of(&chars, 3, 3), "");
}

#[test]
fn whitespace_is_what_std_says_it_is() {
    for u in 0..=0x10FFFFu32 {
        if let Some(c) = char::from_u32(u) {
            assert_eq!(is_whitespace(c), c.is_whitespace(), "U+{:04X}", u);
        }
    }
}
