use openai_agents_rust::utils::env::{nonempty_value, parse_bool_flag};
use openai_agents_rust::utils::text::{eq_ascii_lowercase, find_first, join_strings, trim, trim_end_matches_char};

#[test]
fn bool_flags() {
    for t in ["1", "true", "YES", " On ", "tRuE\n"] {
        assert!(parse_bool_flag(Some(t), false), "{t}");
    }
    for f in ["0", "false", "No", "OFF "] {
        assert!(!parse_bool_flag(Some(f), true), "{f}");
    }
    assert!(parse_bool_flag(None, true));
    assert!(!parse_bool_flag(Some("   "), false));
    assert!(parse_bool_flag(Some("maybe"), true));
    assert!(!parse_bool_flag(Some("maybe"), false));
}

#[test]
fn nonempty_values() {
    assert_eq!(nonempty_value(Some("  x y ")).as_deref(), Some("x y"));
    assert_eq!(nonempty_value(Some(" \t ")), None);
    assert_eq!(nonempty_value(None), None);
}

#[test]
fn text_helpers() {
    assert_eq!(trim("\u{3000} a b \u{A0}"), "a b");
    assert_eq!(trim(""), "");
    assert_eq!(trim_end_matches_char("http://h/v1///", '/'), "http://h/v1");
    assert_eq!(trim_end_matches_char("///", '/'), "");
    assert!(eq_ascii_lowercase("TrUe", "true"));
    assert!(!eq_ascii_lowercase("Ä", "ä"));
    let parts = vec!["a".to_string(), "b".to_string(), "c".to_string()];
    assert_eq!(join_strings(&parts, ", "), "a, b, c");
    assert_eq!(join_strings(&vec![], ", "), "");
    assert_eq!(find_first(&vec!["x".to_string(), "y".to_string(), "y".to_string()], "y"), Some(1));
    assert_eq!(find_first(&vec!["x".to_string()], "z"), None);
}
