use ponyboy::text::{
    chars_eq, contains_u64, dec_chars, from_chars, mention_reference, parse_u64, replace_all,
    to_chars,
};

fn parse(s: &str) -> Option<u64> {
    parse_u64(&to_chars(s))
}

#[test]
fn chars_round_trip() {
    for s in ["", "a", "hello world", "caf\u{e9} \u{1F600}"] {
        assert_eq!(from_chars(&to_chars(s)), s);
    }
}

#[test]
fn chars_equality_is_by_content() {
    assert!(chars_eq(&to_chars("abc"), &to_chars("abc")));
    assert!(!chars_eq(&to_chars("abc"), &to_chars("abd")));
    assert!(!chars_eq(&to_chars("abc"), &to_chars("ab")));
    assert!(chars_eq(&to_chars(""), &to_chars("")));
}

#[test]
fn decimal_parsing_follows_the_standard_library() {
    for s in ["0", "7", "123456", "+9", "18446744073709551615", "+018"] {
        assert_eq!(parse(s), s.parse::<u64>().ok(), "on {:?}", s);
    }
    for s in ["", "+", "-1", "1.5", " 12", "12 ", "abc", "12a", "18446744073709551616", "99999999999999999999"] {
        assert_eq!(parse(s), None, "on {:?}", s);
        assert_eq!(s.parse::<u64>().ok(), None, "std on {:?}", s);
    }
}

#[test]
fn decimal_rendering_matches_the_value() {
    for n in [0u64, 5, 10, 99, 100, 123456789, u64::MAX] {
        assert_eq!(from_chars(&dec_chars(n)), n.to_string());
    }
}

#[test]
fn mention_reference_renders_the_platform_token() {
    assert_eq!(from_chars(&mention_reference(0)), "<@0>");
    assert_eq!(from_chars(&mention_reference(123456789012345678)), "<@123456789012345678>");
}

#[test]
fn replacement_is_leftmost_and_non_overlapping() {
    let rep = |s: &str, pat: &str, with: &str| -> String {
        from_chars(&replace_all(&to_chars(s), &to_chars(pat), &to_chars(with)))
    };
    assert_eq!(rep("aaa", "aa", "b"), "ba");
    assert_eq!(rep("abcabc", "abc", "x"), "xx");
    assert_eq!(rep("none here", "xyz", "q"), "none here");
    assert_eq!(rep("", "a", "b"), "");
    assert_eq!(rep("aba", "b", "bb"), "abba");
    // agrees with the standard library's replace
    assert_eq!(rep("mississippi", "ss", "S"), "mississippi".replace("ss", "S"));
}

#[test]
fn membership_test_finds_values() {
    assert!(contains_u64(&vec![1, 2, 3], 2));
    assert!(!contains_u64(&vec![1, 2, 3], 4));
    assert!(!contains_u64(&Vec::new(), 0));
}
