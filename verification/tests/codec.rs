use blockgen::codec::bool_to_canonical;
use blockgen::codec::i32_to_canonical;
use blockgen::codec::parse_bool;
use blockgen::codec::parse_i32;

#[test]
fn parse_simple_integers() {
    assert_eq!(parse_i32("0"), Some(0));
    assert_eq!(parse_i32("42"), Some(42));
    assert_eq!(parse_i32("-7"), Some(-7));
    assert_eq!(parse_i32("+5"), Some(5));
}

#[test]
fn parse_integer_bounds() {
    assert_eq!(parse_i32("2147483647"), Some(i32::MAX));
    assert_eq!(parse_i32("-2147483648"), Some(i32::MIN));
    assert_eq!(parse_i32("2147483648"), None);
    assert_eq!(parse_i32("-2147483649"), None);
    assert_eq!(parse_i32("99999999999999999999"), None);
}

#[test]
fn parse_integer_rejects_malformed() {
    assert_eq!(parse_i32(""), None);
    assert_eq!(parse_i32("-"), None);
    assert_eq!(parse_i32("+"), None);
    assert_eq!(parse_i32("abc"), None);
    assert_eq!(parse_i32("4e2"), None);
    assert_eq!(parse_i32("1 2"), None);
}

#[test]
fn print_integers_canonically() {
    assert_eq!(i32_to_canonical(0), "0");
    assert_eq!(i32_to_canonical(42), "42");
    assert_eq!(i32_to_canonical(-15), "-15");
    assert_eq!(i32_to_canonical(i32::MAX), "2147483647");
    assert_eq!(i32_to_canonical(i32::MIN), "-2147483648");
}

#[test]
fn integer_round_trip() {
    for v in [0, 1, -1, 9, 10, -10, 12345, -98765, i32::MAX, i32::MIN] {
        assert_eq!(parse_i32(&i32_to_canonical(v)), Some(v));
    }
}

#[test]
fn non_canonical_integer_parses_but_reprints_canonically() {
    assert_eq!(parse_i32("042"), Some(42));
    assert_eq!(i32_to_canonical(42), "42");
    assert_eq!(parse_i32("+5"), Some(5));
    assert_eq!(i32_to_canonical(5), "5");
}

#[test]
fn boolean_canonical_forms() {
    assert_eq!(parse_bool("true"), Some(true));
    assert_eq!(parse_bool("false"), Some(false));
    assert_eq!(parse_bool("True"), None);
    assert_eq!(parse_bool(""), None);
    assert_eq!(bool_to_canonical(true), "true");
    assert_eq!(bool_to_canonical(false), "false");
    assert_eq!(parse_bool(&bool_to_canonical(true)), Some(true));
    assert_eq!(parse_bool(&bool_to_canonical(false)), Some(false));
}
