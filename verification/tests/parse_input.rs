use guessing_game::parse::parse_guess;

#[test]
fn plain_number_parses() {
    assert_eq!(parse_guess(b"50"), Some(50));
}

#[test]
fn surrounding_whitespace_is_trimmed() {
    assert_eq!(parse_guess(b" \t 42 \r\n"), Some(42));
}

#[test]
fn leading_plus_sign_is_accepted() {
    assert_eq!(parse_guess(b"+7"), Some(7));
}

#[test]
fn leading_zeros_are_accepted() {
    assert_eq!(parse_guess(b"007"), Some(7));
}

#[test]
fn largest_value_parses() {
    assert_eq!(parse_guess(b"4294967295"), Some(u32::MAX));
}

#[test]
fn value_above_u32_is_rejected() {
    assert_eq!(parse_guess(b"4294967296"), None);
    assert_eq!(parse_guess(b"99999999999999999999"), None);
}

#[test]
fn words_are_rejected() {
    assert_eq!(parse_guess(b"abc"), None);
    assert_eq!(parse_guess(b"12a"), None);
}

#[test]
fn empty_and_blank_lines_are_rejected() {
    assert_eq!(parse_guess(b""), None);
    assert_eq!(parse_guess(b"   \n"), None);
}

#[test]
fn bare_sign_is_rejected() {
    assert_eq!(parse_guess(b"+"), None);
}

#[test]
fn negative_numbers_are_rejected() {
    assert_eq!(parse_guess(b"-5"), None);
}

#[test]
fn inner_whitespace_is_rejected() {
    assert_eq!(parse_guess(b"1 2"), None);
}

#[test]
fn zero_parses() {
    assert_eq!(parse_guess(b"0"), Some(0));
}
