use blockc::value::{
    compare, equals, from_int, from_scaled, parse_str, render_scaled, to_bool, to_number,
    to_number_or_zero, to_text, Cmp, Value, SCALE,
};

fn text(s: &str) -> Value {
    Value::Text(String::from(s))
}

#[test]
fn numeric_strings_compare_numerically() {
    // "10" > "9" holds numerically, not lexically
    assert_eq!(compare(&text("10"), &text("9")), Cmp::Greater);
    assert_eq!(compare(&text("9"), &text("10")), Cmp::Less);
    assert_eq!(compare(&text("2.5"), &text("2.50")), Cmp::Equal);
}

#[test]
fn non_numeric_strings_compare_lexically_case_insensitively() {
    // apple < Banana under case-insensitive lexical order
    assert_eq!(compare(&text("apple"), &text("Banana")), Cmp::Less);
    assert_eq!(compare(&text("Banana"), &text("apple")), Cmp::Greater);
    assert_eq!(compare(&text("HELLO"), &text("hello")), Cmp::Equal);
}

#[test]
fn comparison_is_symmetric_on_equality() {
    let pairs = [
        (text("abc"), text("ABC")),
        (text("10"), from_int(10)),
        (from_int(3), from_int(4)),
        (Value::Null, text("")),
        (Value::Boolean(true), from_int(1)),
    ];
    for (a, b) in pairs.iter() {
        let ab = equals(a, b);
        let ba = equals(b, a);
        assert_eq!(ab, ba);
    }
}

#[test]
fn booleans_and_null_coerce_to_numbers() {
    assert_eq!(compare(&Value::Boolean(true), &from_int(1)), Cmp::Equal);
    assert_eq!(compare(&Value::Boolean(false), &from_int(0)), Cmp::Equal);
    assert_eq!(compare(&Value::Null, &from_int(0)), Cmp::Equal);
    assert_eq!(compare(&text("0"), &from_int(0)), Cmp::Equal);
}

#[test]
fn empty_and_whitespace_strings_are_not_zero() {
    // empty text coerces to no number, so it compares lexically: "" < "0",
    // and a space sorts before the zero digit
    assert_eq!(compare(&text(""), &from_int(0)), Cmp::Less);
    assert_eq!(compare(&text("   "), &from_int(0)), Cmp::Less);
}

#[test]
fn parse_accepts_signs_points_and_blanks() {
    assert_eq!(parse_str(" 42 "), Some(42 * SCALE));
    assert_eq!(parse_str("-3.5"), Some(-35000));
    assert_eq!(parse_str("+7"), Some(7 * SCALE));
    assert_eq!(parse_str("1."), Some(SCALE));
    assert_eq!(parse_str(".5"), Some(5000));
    assert_eq!(parse_str(""), None);
    assert_eq!(parse_str("  "), None);
    assert_eq!(parse_str("."), None);
    assert_eq!(parse_str("12a"), None);
    assert_eq!(parse_str("1 2"), None);
}

#[test]
fn rendering_trims_the_fraction() {
    assert_eq!(render_scaled(25000).as_str(), "2.5");
    assert_eq!(render_scaled(-25000).as_str(), "-2.5");
    assert_eq!(render_scaled(30000).as_str(), "3");
    assert_eq!(render_scaled(1).as_str(), "0.0001");
    assert_eq!(render_scaled(0).as_str(), "0");
}

#[test]
fn string_form_of_values() {
    assert_eq!(to_text(&from_scaled(105000)).as_str(), "10.5");
    assert_eq!(to_text(&Value::Boolean(true)).as_str(), "true");
    assert_eq!(to_text(&Value::Boolean(false)).as_str(), "false");
    assert_eq!(to_text(&Value::Null).as_str(), "null");
    assert_eq!(to_text(&text("x")).as_str(), "x");
}

#[test]
fn truthiness_of_values() {
    assert!(!to_bool(&from_int(0)));
    assert!(to_bool(&from_int(2)));
    assert!(!to_bool(&text("")));
    assert!(!to_bool(&text("0")));
    assert!(!to_bool(&text("false")));
    assert!(!to_bool(&text("FaLsE")));
    assert!(to_bool(&text("no")));
    assert!(!to_bool(&Value::Null));
    assert!(to_bool(&Value::Boolean(true)));
}

#[test]
fn arithmetic_coercion_treats_nan_as_zero() {
    assert_eq!(to_number(&text("nope")), None);
    assert_eq!(to_number_or_zero(&text("nope")), 0);
    assert_eq!(to_number_or_zero(&text("2")), 2 * SCALE);
}
