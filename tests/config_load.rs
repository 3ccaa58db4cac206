use frame_delay_shim::config::{load_delay, parse_delay, DEFAULT_DELAY};

#[test]
fn padded_seven_loads_as_seven() {
    let r = load_delay(Some("  7\n"));
    assert_eq!(r.delay, 7);
    assert!(r.rewrite.is_none());
}

#[test]
fn absent_file_loads_default_and_is_rewritten() {
    let r = load_delay(None);
    assert_eq!(r.delay, 1);
    assert_eq!(r.rewrite.as_deref(), Some("1"));
}

#[test]
fn empty_file_loads_default_and_is_rewritten() {
    let r = load_delay(Some(""));
    assert_eq!(r.delay, DEFAULT_DELAY);
    assert_eq!(r.rewrite.as_deref(), Some("1"));
}

#[test]
fn blank_file_loads_default() {
    let r = load_delay(Some(" \t\r\n "));
    assert_eq!(r.delay, 1);
    assert_eq!(r.rewrite.as_deref(), Some("1"));
}

#[test]
fn non_numeric_file_loads_default_and_is_rewritten() {
    let r = load_delay(Some("fast"));
    assert_eq!(r.delay, 1);
    assert_eq!(r.rewrite.as_deref(), Some("1"));
}

#[test]
fn numbers_with_surrounding_white_space_load_exactly() {
    for n in [0usize, 1, 2, 9, 10, 42, 1000, 123456789, usize::MAX] {
        for (lead, trail) in [("", ""), (" ", "\n"), ("\t\t", "  \r\n"), ("\u{3000}", "\u{a0}")] {
            let text = format!("{}{}{}", lead, n, trail);
            let r = load_delay(Some(&text));
            assert_eq!(r.delay, n, "text {:?}", text);
            assert!(r.rewrite.is_none());
        }
    }
}

#[test]
fn zero_is_kept_as_zero() {
    assert_eq!(parse_delay("0"), Some(0));
    assert_eq!(load_delay(Some("0\n")).delay, 0);
}

#[test]
fn leading_zeros_are_accepted() {
    assert_eq!(parse_delay("007"), Some(7));
}

#[test]
fn plus_sign_is_accepted() {
    assert_eq!(parse_delay("+5"), Some(5));
    assert_eq!(parse_delay("+"), None);
}

#[test]
fn negative_number_is_rejected() {
    assert_eq!(parse_delay("-1"), None);
    assert_eq!(parse_delay("-0"), None);
    assert_eq!(load_delay(Some("-3")).delay, 1);
}

#[test]
fn inner_white_space_is_rejected() {
    assert_eq!(parse_delay("1 2"), None);
    assert_eq!(parse_delay("7x"), None);
}

#[test]
fn largest_value_is_accepted_and_one_more_is_rejected() {
    let max = usize::MAX.to_string();
    assert_eq!(parse_delay(&max), Some(usize::MAX));
    let over = (usize::MAX as u128 + 1).to_string();
    assert_eq!(parse_delay(&over), None);
    let r = load_delay(Some(&over));
    assert_eq!(r.delay, 1);
    assert_eq!(r.rewrite.as_deref(), Some("1"));
}

#[test]
fn parse_agrees_with_std_on_samples() {
    for text in ["12", " 12 ", "\u{2003}8\u{2029}", "1_0", "0x10", "", "٣", "99999999999999999999999"] {
        assert_eq!(parse_delay(text), text.trim().parse::<usize>().ok(), "text {:?}", text);
    }
}

#[test]
fn loading_twice_yields_the_same_value() {
    for text in [None, Some(""), Some("junk"), Some(" 7 "), Some("0")] {
        let first = load_delay(text);
        let file_after: Option<String> = match &first.rewrite {
            Some(t) => Some(t.clone()),
            None => text.map(|t| t.to_string()),
        };
        let second = load_delay(file_after.as_deref());
        assert_eq!(first.delay, second.delay);
        assert!(second.rewrite.is_none());
    }
}
