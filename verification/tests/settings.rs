use game_relay::utils::config::{config_from_str, config_size_from_str, config_string};

fn number(text: &str) -> u64 {
    config_from_str(Some(text.to_string()), 7)
}

#[test]
fn numbers_are_read() {
    assert_eq!(number("0"), 0);
    assert_eq!(number("0042"), 42);
    assert_eq!(number("+42"), 42);
    for n in [0u64, 9, 10, 1234567890, u64::MAX] {
        assert_eq!(number(&n.to_string()), n);
    }
}

#[test]
fn what_is_no_number_is_the_default() {
    for text in ["", "+", "-1", "4 2", " 42", "42 ", "0x2a", "\u{664}", "18446744073709551616"] {
        assert_eq!(number(text), 7);
    }
    assert_eq!(config_from_str(None, 7), 7);
}

#[test]
fn sizes_are_read() {
    assert_eq!(config_size_from_str(Some("42".to_string()), 7), 42);
    assert_eq!(config_size_from_str(Some(usize::MAX.to_string()), 7), usize::MAX);
    assert_eq!(config_size_from_str(Some("99999999999999999999999".to_string()), 7), 7);
    assert_eq!(config_size_from_str(None, 7), 7);
}

#[test]
fn texts_are_taken_as_they_are() {
    assert_eq!(config_string(Some(String::new()), "d"), "");
    assert_eq!(config_string(Some(" x ".to_string()), "d"), " x ");
    assert_eq!(config_string(None, "d"), "d");
}
