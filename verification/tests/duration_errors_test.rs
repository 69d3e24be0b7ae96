use rusync::duration::{parse_duration, DurationError};

fn err(input: &str) -> DurationError {
    parse_duration(input).unwrap_err()
}

#[test]
fn blank_input_expects_a_number() {
    assert_eq!(err(" \t "), DurationError::Empty);
    assert_eq!(err("").message(), "expected a number");
}

#[test]
fn a_group_must_start_with_a_digit() {
    assert_eq!(err("abc"), DurationError::MissingNumber('a'));
    assert_eq!(err("10m x"), DurationError::MissingNumber('x'));
    assert_eq!(err("-5").message(), "expected a number, found '-'");
}

#[test]
fn unknown_units_are_named() {
    assert_eq!(err("1x"), DurationError::UnknownUnit('x'));
    assert_eq!(err("1.5h"), DurationError::UnknownUnit('.'));
    assert_eq!(
        err("3W").message(),
        "unknown unit 'W' (expected one of: s, m, h, d)"
    );
}

#[test]
fn too_large_numbers_are_named() {
    assert_eq!(
        err("999999999999999999999"),
        DurationError::NumberTooLarge(String::from("999999999999999999999"))
    );
    assert_eq!(
        err("9999999999999999d").message(),
        "the number '9999999999999999' is too large"
    );
}

#[test]
fn too_large_totals_name_the_trimmed_value() {
    assert_eq!(
        err(" 10000000000000000000 "),
        DurationError::ValueTooLarge(String::from("10000000000000000000"))
    );
    assert_eq!(
        err("18446744073709551615s 1s").message(),
        "the value '18446744073709551615s 1s' is too large"
    );
}

#[test]
fn zero_totals_are_refused() {
    assert_eq!(err("0h 0m"), DurationError::ZeroInterval);
    assert_eq!(
        err("0").message(),
        "the interval must be at least one second"
    );
}

#[test]
fn group_order_and_surrounding_spaces_do_not_matter() {
    let secs = |s: &str| parse_duration(s).unwrap().as_secs();
    assert_eq!(secs("1h30m"), secs("30m1h"));
    assert_eq!(secs("\t 10m \n"), secs("10m"));
    assert_eq!(secs("0010"), 10);
    // The largest accepted value:
    assert_eq!(secs("9223372036854775807"), 9223372036854775807);
    assert!(parse_duration("9223372036854775808").is_err());
}

#[test]
fn strings_of_groups_add_up_in_either_order() {
    let secs = |s: &str| parse_duration(s).unwrap().as_secs();
    let a = "1h30m";
    let b = "2d10s";
    assert_eq!(secs(&format!("{}{}", a, b)), secs(a) + secs(b));
    assert_eq!(secs(&format!("{}{}", b, a)), secs(a) + secs(b));
}
