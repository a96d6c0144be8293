use rbx_studio_mcp::text::{
    as_deref, chars_of, contains, copy_text, decimal, eq_ignore_ascii_case, insert_sorted, join, less,
    same_text, split_once, trim, trim_end_matches, white_space,
};

#[test]
fn white_space_is_what_std_says_it_is() {
    for code in 0u32..0x11_0000 {
        if let Some(c) = char::from_u32(code) {
            assert_eq!(white_space(c), c.is_whitespace(), "{code:x}");
        }
    }
}

#[test]
fn trims_both_ends() {
    for text in ["", " ", "\u{3000}a b\u{a0}\n", "start_play\n", "\t\t", "x", "\u{feff}x"] {
        assert_eq!(trim(text), text.trim());
    }
}

#[test]
fn finds_parts_of_a_text() {
    for (haystack, needle) in [
        ("", ""),
        ("abc", ""),
        ("abc", "abc"),
        ("aab", "ab"),
        ("abc", "abcd"),
        ("abab", "bb"),
        ("Studio is not rendering (minimized)", "Studio is not rendering"),
        ("\u{e9}t\u{e9}", "\u{e9}"),
    ] {
        assert_eq!(contains(haystack, needle), haystack.contains(needle), "{haystack:?} {needle:?}");
    }
}

#[test]
fn splits_at_the_first_mark() {
    for text in ["", "|", "a|b", "a|b|c", "ab", "0|Place1", "\u{e9}|x"] {
        assert_eq!(split_once(text, '|'), text.split_once('|'));
    }
}

#[test]
fn compares_without_ascii_case() {
    for (a, b) in [("auto", "AUTO"), ("auto", "aut"), ("", ""), ("\u{e9}", "\u{c9}"), ("Z[", "z{")] {
        assert_eq!(eq_ignore_ascii_case(a, b), a.eq_ignore_ascii_case(b));
    }
}

#[test]
fn strips_repeated_endings() {
    for text in ["place.rbxl", "place.rbxl.rbxl", ".rbxl", "place", "place.rbxlx", "rbxl"] {
        assert_eq!(trim_end_matches(text, ".rbxl"), text.trim_end_matches(".rbxl"));
    }
}

#[test]
fn writes_numbers() {
    for n in [0u128, 7, 10, 105, 4_294_967_295, u128::MAX] {
        assert_eq!(decimal(n), n.to_string());
    }
}

#[test]
fn joins_with_a_separator() {
    let none: Vec<String> = Vec::new();
    assert_eq!(join(&none, " | "), "");
    assert_eq!(join(&vec!["a".to_string()], " | "), "a");
    assert_eq!(join(&vec!["a".to_string(), "".to_string(), "b".to_string()], " | "), "a |  | b");
}

#[test]
fn orders_as_strings_are_ordered() {
    let texts = ["", "a", "ab", "b", "B", "\u{e9}", "\u{10000}", "\u{ffff}", "z|"];
    for a in texts {
        for b in texts {
            assert_eq!(less(a, b), a < b, "{a:?} {b:?}");
        }
    }
}

#[test]
fn inserts_in_order() {
    let mut list: Vec<String> = Vec::new();
    for text in ["m", "a", "z", "b"] {
        insert_sorted(&mut list, text.to_string());
    }
    assert_eq!(list, vec!["a", "b", "m", "z"]);
}

#[test]
fn small_helpers() {
    assert!(same_text("a", "a"));
    assert!(!same_text("a", "A"));
    assert_eq!(chars_of("h\u{e9}"), vec!['h', '\u{e9}']);
    assert_eq!(as_deref(&Some("x".to_string())), Some("x"));
    assert_eq!(as_deref(&None), None);
    assert_eq!(copy_text(&Some("x".to_string())), Some("x".to_string()));
}
