//! The linear-form recognizer, checked through the numeric lens a caller
//! uses: each returned token is a well-formed decimal, so parsing it as an
//! `f64` never fails.

use hermes::parse_linear;

fn recognize(text: &str) -> Option<(f64, f64)> {
    let (tok_a, tok_b) = parse_linear(text)?;
    let a = tok_a.parse::<f64>().ok()?;
    let b = tok_b.parse::<f64>().ok()?;
    Some((a, b))
}

#[test]
fn linear_simple() {
    assert_eq!(recognize("2.5 * t + 1"), Some((2.5, 1.0)));
    assert_eq!(recognize("-1*t-0.5"), Some((-1.0, -0.5)));
}

#[test]
fn offset_defaults_to_zero_with_whitespace() {
    assert_eq!(recognize("  3 * t  "), Some((3.0, 0.0)));
}

#[test]
fn wrong_token_order_is_no_match() {
    assert_eq!(recognize("t * 2"), None);
}

#[test]
fn wrong_variable_name_is_no_match() {
    assert_eq!(recognize("2 * x + 1"), None);
}

#[test]
fn missing_star_is_no_match() {
    assert_eq!(recognize("2 t + 1"), None);
}

#[test]
fn trailing_garbage_is_no_match() {
    assert_eq!(recognize("2 * t + 1 x"), None);
    assert_eq!(recognize("2 * t 1"), None);
}

#[test]
fn malformed_numbers_are_no_match() {
    // More than one dot, or no digit at all, in a coefficient.
    assert_eq!(recognize("1.2.3 * t"), None);
    assert_eq!(recognize(". * t"), None);
    assert_eq!(recognize("2 * t + ."), None);
    assert_eq!(recognize("2 * t + 1.2.3"), None);
}

#[test]
fn sign_must_stick_to_its_digits() {
    // A bare sign with no digits after it is not a coefficient.
    assert_eq!(recognize("- * t"), None);
    assert_eq!(recognize("2 * t +"), None);
}

#[test]
fn offset_sign_tolerates_spaces_but_not_tabs() {
    // Between the offset's sign and digits, spaces are dropped; any other
    // whitespace leaves a token that is not a number.
    assert_eq!(recognize("2.5*t+ 1"), Some((2.5, 1.0)));
    assert_eq!(recognize("2.5*t+\t1"), None);
}

#[test]
fn signed_coefficient_forms() {
    assert_eq!(recognize("+0.5 * t - 2"), Some((0.5, -2.0)));
    assert_eq!(recognize("-0.25*t+0.75"), Some((-0.25, 0.75)));
    assert_eq!(recognize("5. * t + .5"), Some((5.0, 0.5)));
}

#[test]
fn recognize_is_idempotent() {
    let texts = ["2.5 * t + 1", "-1*t-0.5", "t * 2", "  3 * t  ", "1.2.3 * t"];
    for text in texts {
        assert_eq!(recognize(text), recognize(text));
        assert_eq!(parse_linear(text), parse_linear(text));
    }
}

#[test]
fn tokens_come_back_as_written() {
    let (tok_a, tok_b) = parse_linear(" -12.5 *t+ 07 ").expect("shape matches");
    assert_eq!(tok_a, "-12.5");
    assert_eq!(tok_b, "+07");
    let (tok_a, tok_b) = parse_linear("4*t").expect("shape matches");
    assert_eq!(tok_a, "4");
    assert_eq!(tok_b, "+0");
}
