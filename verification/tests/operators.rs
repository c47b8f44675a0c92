use blockc::ops::{contains, generate_random, join, length, letter_of, modulus, round};
use blockc::value::{equals, from_int, from_scaled, Value, SCALE};

fn text(s: &str) -> Value {
    Value::Text(String::from(s))
}

#[test]
fn rounding_goes_to_the_nearest_whole_halves_up() {
    assert_eq!(round(25000), 30000);  // 2.5 -> 3
    assert_eq!(round(24999), 20000);  // 2.4999 -> 2
    assert_eq!(round(-25000), -20000);  // -2.5 -> -2 (halves round up)
    assert_eq!(round(-25001), -30000);  // just past the half -> -3
    assert_eq!(round(0), 0);
    assert_eq!(round(10000), 10000);
}

#[test]
fn modulus_follows_the_divisor_sign() {
    assert_eq!(modulus(7 * SCALE, 3 * SCALE), Some(SCALE));  // 7 mod 3 = 1
    assert_eq!(modulus(-7 * SCALE, 3 * SCALE), Some(2 * SCALE));  // -7 mod 3 = 2
    assert_eq!(modulus(7 * SCALE, -3 * SCALE), Some(-2 * SCALE));  // 7 mod -3 = -2
    assert_eq!(modulus(-7 * SCALE, -3 * SCALE), Some(-SCALE));  // -7 mod -3 = -1
    assert_eq!(modulus(6 * SCALE, 3 * SCALE), Some(0));
    assert_eq!(modulus(5, 0), None);
}

#[test]
fn random_draws_stay_between_their_bounds() {
    for _ in 0..50 {
        let r = generate_random(SCALE, 10 * SCALE);
        assert!(SCALE <= r && r <= 10 * SCALE);
        // whole bounds give a whole draw
        assert_eq!(r % SCALE, 0);
        let q = generate_random(10 * SCALE, SCALE);
        assert!(SCALE <= q && q <= 10 * SCALE);
        let f = generate_random(15000, 25000);
        assert!(15000 <= f && f <= 25000);
    }
    assert_eq!(generate_random(3 * SCALE, 3 * SCALE), 3 * SCALE);
}

#[test]
fn join_concatenates_the_string_forms() {
    let r = join(&text("ab"), &from_scaled(25000));
    assert!(matches!(r, Value::Text(t) if t.as_str() == "ab2.5"));
    let r2 = join(&Value::Null, &Value::Boolean(true));
    assert!(matches!(r2, Value::Text(t) if t.as_str() == "nulltrue"));
}

#[test]
fn letter_of_reads_one_based_and_fails_out_of_range() {
    let s = text("world");
    assert!(matches!(letter_of(&from_int(1), &s), Value::Text(t) if t.as_str() == "w"));
    assert!(matches!(letter_of(&from_int(5), &s), Value::Text(t) if t.as_str() == "d"));
    assert!(matches!(letter_of(&from_int(0), &s), Value::Text(t) if t.is_empty()));
    assert!(matches!(letter_of(&from_int(6), &s), Value::Text(t) if t.is_empty()));
    assert!(matches!(letter_of(&text("x"), &s), Value::Text(t) if t.is_empty()));
    // the position's fraction is dropped
    assert!(matches!(letter_of(&from_scaled(15000), &s), Value::Text(t) if t.as_str() == "w"));
}

#[test]
fn length_counts_the_string_form() {
    assert!(equals(&length(&text("hello")), &from_int(5)));
    assert!(equals(&length(&from_scaled(25000)), &from_int(3)));  // "2.5"
    assert!(equals(&length(&text("")), &from_int(0)));
}

#[test]
fn contains_ignores_case() {
    assert!(matches!(contains(&text("Hello World"), &text("WORLD")), Value::Boolean(true)));
    assert!(matches!(contains(&text("Hello"), &text("ell")), Value::Boolean(true)));
    assert!(matches!(contains(&text("Hello"), &text("z")), Value::Boolean(false)));
    assert!(matches!(contains(&text("abc"), &text("")), Value::Boolean(true)));
    assert!(matches!(contains(&text("ab"), &text("abc")), Value::Boolean(false)));
    // number forms take part like any text
    assert!(matches!(contains(&from_scaled(125000), &text("2.5")), Value::Boolean(true)));
}
