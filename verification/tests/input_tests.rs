use rummy313::input::{parse_bool_token, parse_discard_choice, parse_u8_decimal};

#[test]
fn bool_tokens_any_casing() {
    assert_eq!(parse_bool_token(b"true"), Some(true));
    assert_eq!(parse_bool_token(b"TRUE"), Some(true));
    assert_eq!(parse_bool_token(b"TrUe"), Some(true));
    assert_eq!(parse_bool_token(b"false"), Some(false));
    assert_eq!(parse_bool_token(b"FALSE"), Some(false));
    assert_eq!(parse_bool_token(b"False"), Some(false));
}

#[test]
fn bool_rejects_everything_else() {
    assert_eq!(parse_bool_token(b""), None);
    assert_eq!(parse_bool_token(b"yes"), None);
    assert_eq!(parse_bool_token(b"truth"), None);
    assert_eq!(parse_bool_token(b"fals"), None);
    assert_eq!(parse_bool_token(b"true "), None);
    assert_eq!(parse_bool_token(b"tru3"), None);
}

#[test]
fn decimal_parsing() {
    assert_eq!(parse_u8_decimal(b"0"), Some(0));
    assert_eq!(parse_u8_decimal(b"7"), Some(7));
    assert_eq!(parse_u8_decimal(b"007"), Some(7));
    assert_eq!(parse_u8_decimal(b"255"), Some(255));
}

#[test]
fn decimal_rejects_empty_nondigit_and_overflow() {
    assert_eq!(parse_u8_decimal(b""), None);
    assert_eq!(parse_u8_decimal(b"12a"), None);
    assert_eq!(parse_u8_decimal(b"-1"), None);
    assert_eq!(parse_u8_decimal(b"256"), None);
    assert_eq!(parse_u8_decimal(b"99999999999999999999"), None);
}

#[test]
fn discard_choice_bounded_by_hand_size() {
    assert_eq!(parse_discard_choice(b"0", 4), Some(0));
    assert_eq!(parse_discard_choice(b"3", 4), Some(3));
    // The boundary: an index equal to the hand size is rejected.
    assert_eq!(parse_discard_choice(b"4", 4), None);
    assert_eq!(parse_discard_choice(b"10", 4), None);
    assert_eq!(parse_discard_choice(b"0", 0), None);
    assert_eq!(parse_discard_choice(b"x", 4), None);
}
