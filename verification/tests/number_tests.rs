use tinyrenderer::number::{parse_index, spells_number};

#[test]
fn numbers_that_are_spelled_right() {
    for text in ["1.0", "0", "-0.000581696", "5.", ".5", "-.5", "12", "1e-5", "1.5e-10", "-3.e-2", "007"] {
        assert!(spells_number(text), "{}", text);
        assert!(text.parse::<f32>().is_ok(), "{}", text);
    }
}

#[test]
fn numbers_that_are_spelled_wrong() {
    for text in [
        "", "-", ".", "-.", "e-5", "1e-", "1e5", "1e+5", "1E-5", "+1", "1.2.3", "--1", "1-", " 1", "1 ", "1a",
        "a", "1e-5x", "1e--5", "inf", "nan", "\u{661}\u{662}", "1.\u{663}",
    ] {
        assert!(!spells_number(text), "{}", text);
    }
}

#[test]
fn indices_that_are_read() {
    assert_eq!(parse_index("0"), Some(0));
    assert_eq!(parse_index("12"), Some(12));
    assert_eq!(parse_index("007"), Some(7));
    assert_eq!(parse_index("4294967295"), Some(u32::MAX));
    assert_eq!(parse_index("0000000000004294967295"), Some(u32::MAX));
}

#[test]
fn indices_that_are_refused() {
    assert_eq!(parse_index(""), None);
    assert_eq!(parse_index("4294967296"), None);
    assert_eq!(parse_index("99999999999999999999999999"), None);
    assert_eq!(parse_index("1a"), None);
    assert_eq!(parse_index("4294967296a"), None);
    assert_eq!(parse_index("-1"), None);
    assert_eq!(parse_index("+1"), None);
    assert_eq!(parse_index("1 "), None);
    assert_eq!(parse_index("\u{661}\u{662}"), None);
}
