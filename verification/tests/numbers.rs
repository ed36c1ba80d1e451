use rpn_calc::number::parse_int;
use rpn_calc::text::to_chars;

fn parse(token: &str) -> Option<i32> {
    parse_int(&to_chars(token))
}

#[test]
fn digits_are_read_in_base_ten() {
    assert_eq!(parse("0"), Some(0));
    assert_eq!(parse("5"), Some(5));
    assert_eq!(parse("50"), Some(50));
    assert_eq!(parse("1234567890"), Some(1234567890));
}

#[test]
fn minus_sign_negates() {
    assert_eq!(parse("-50"), Some(-50));
    assert_eq!(parse("-0"), Some(0));
    assert_eq!(parse("-1"), Some(-1));
}

#[test]
fn leading_zeros_do_not_count() {
    assert_eq!(parse("007"), Some(7));
    assert_eq!(parse("-007"), Some(-7));
    assert_eq!(parse("00000000000000000000000000000000000000001"), Some(1));
    assert_eq!(parse("0000000000000000000000002147483647"), Some(i32::MAX));
}

#[test]
fn operands_stop_at_the_bounds_of_i32() {
    assert_eq!(parse("2147483647"), Some(i32::MAX));
    assert_eq!(parse("2147483648"), None);
    assert_eq!(parse("-2147483648"), Some(i32::MIN));
    assert_eq!(parse("-2147483649"), None);
    assert_eq!(parse("99999999999999999999999999999999"), None);
    assert_eq!(parse("-99999999999999999999999999999999"), None);
    assert_eq!(parse("21474836470"), None);
}

#[test]
fn what_is_not_a_number_is_not_read() {
    assert_eq!(parse(""), None);
    assert_eq!(parse("-"), None);
    assert_eq!(parse("+"), None);
    assert_eq!(parse("--1"), None);
    assert_eq!(parse("1-"), None);
    assert_eq!(parse("1 "), None);
    assert_eq!(parse("12a"), None);
    assert_eq!(parse("a12"), None);
    assert_eq!(parse("1.5"), None);
    assert_eq!(parse("1_000"), None);
    assert_eq!(parse("0x10"), None);
    assert_eq!(parse("\u{ff11}\u{ff12}"), None);
    assert_eq!(parse("\u{663}"), None);
    assert_eq!(parse("99999999999999999999999999999999x"), None);
}

#[test]
fn plus_sign_is_not_part_of_a_number() {
    assert_eq!(parse("+5"), None);
    assert_eq!(parse("+0"), None);
    assert_eq!(parse("-+5"), None);
}

#[test]
fn operands_without_plus_are_what_std_parses() {
    let tokens = [
        "", "-", "0", "-0", "7", "-7", "007", "2147483647", "2147483648", "-2147483648",
        "-2147483649", "12a", "a", "1.0", "--3", "3-", "4294967296", "-4294967296", "*", "/", "%",
        "\u{ff15}", " 1", "1\n",
    ];
    for token in tokens {
        assert_eq!(parse(token), token.parse::<i32>().ok(), "{:?}", token);
    }
    for value in [-1000, -1, 0, 1, 9, 10, 99, 100, 65535, 65536, i32::MAX, i32::MIN] {
        assert_eq!(parse(&format!("{}", value)), Some(value));
    }
}
