use zigbee2mqtt_operator::text::{
    chars_of, decimal_text, join, parse_number, same_text, signed_decimal_text, split_levels,
    text_contains, text_precedes,
};

const TEXTS: [&str; 12] = [
    "", "a", "ab", "abc", "b", "B", "é", "z", "aa", "\u{ffff}", "\u{10000}", "a\u{0}",
];

#[test]
fn order_is_that_of_strings() {
    for a in TEXTS {
        for b in TEXTS {
            assert_eq!(text_precedes(a, b), a < b, "{a:?} < {b:?}");
            assert_eq!(same_text(a, b), a == b, "{a:?} == {b:?}");
        }
    }
}

#[test]
fn occurrences_are_those_of_strings() {
    for a in ["", "aaa", "group '12' is", "''", "x'1"] {
        for b in ["", "a", "aa", "'12'", "'1'", "'", "aaaa"] {
            assert_eq!(text_contains(a, b), a.contains(b), "{b:?} in {a:?}");
        }
    }
}

#[test]
fn numbers_are_written_in_decimal() {
    for n in [0, 1, 9, 10, 99, 100, 1234567890, u64::MAX] {
        assert_eq!(decimal_text(n), n.to_string());
        assert_eq!(parse_number(&n.to_string()), Some(n));
    }
    for n in [0, 5, -5, -10, i64::MIN, i64::MAX] {
        assert_eq!(signed_decimal_text(n), n.to_string());
    }
}

#[test]
fn numbers_are_parsed_as_strings_are() {
    for s in ["007", "+1", "++1", "", "1_000", "０", "99999999999999999999", "0x1"] {
        assert_eq!(parse_number(s), s.parse::<u64>().ok(), "{s:?}");
    }
}

#[test]
fn levels_can_be_joined_again() {
    for s in ["", "/", "a", "a/b/c", "/a//b/"] {
        let levels = split_levels(s, '/');
        assert_eq!(levels, s.split('/').collect::<Vec<_>>());
        assert_eq!(join(&levels, "/"), s);
    }
    assert_eq!(join(&vec![], ", "), "");
    assert_eq!(join(&vec!["a".to_owned(), "b".to_owned()], ", "), "a, b");
}

#[test]
fn characters_are_kept() {
    assert_eq!(chars_of("aé𐀀"), vec!['a', 'é', '𐀀']);
}
