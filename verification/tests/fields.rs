use exam_parser::fields::{format_option, parse_number, to_upper};

#[test]
fn parse_number_reads_decimal_digits() {
    assert_eq!(parse_number("0"), 0);
    assert_eq!(parse_number("1"), 1);
    assert_eq!(parse_number("42"), 42);
    assert_eq!(parse_number("007"), 7);
    assert_eq!(parse_number("4294967295"), u32::MAX);
}

#[test]
fn parse_number_defaults_to_zero() {
    assert_eq!(parse_number(""), 0);
    assert_eq!(parse_number("+"), 0);
    assert_eq!(parse_number("-5"), 0);
    assert_eq!(parse_number("12a"), 0);
    assert_eq!(parse_number("a12"), 0);
    assert_eq!(parse_number(" 12"), 0);
    assert_eq!(parse_number("4294967296"), 0);
    assert_eq!(parse_number("99999999999999999999999999"), 0);
    assert_eq!(parse_number("١٢"), 0);
}

#[test]
fn parse_number_accepts_one_plus_sign() {
    assert_eq!(parse_number("+5"), 5);
    assert_eq!(parse_number("++5"), 0);
    assert_eq!(parse_number("+05"), 5);
}

#[test]
fn parse_number_agrees_with_std() {
    let samples = [
        "", "0", "00", "9", "10", "+1", "-1", "+", "-", "1+", "4294967295", "4294967296",
        "42949672950", "18446744073709551616", "1 ", " 1", "1.0", "x", "٣", "１２",
        "0000000000000000000000001", "+4294967295", "+4294967296",
    ];
    for s in samples {
        assert_eq!(parse_number(s), s.parse::<u32>().unwrap_or(0), "{:?}", s);
    }
}

#[test]
fn to_upper_raises_ascii_letters() {
    assert_eq!(to_upper(""), "");
    assert_eq!(to_upper("a"), "A");
    assert_eq!(to_upper("b"), "B");
    assert_eq!(to_upper("D"), "D");
    assert_eq!(to_upper("abcxyz"), "ABCXYZ");
    assert_eq!(to_upper("3"), "3");
    assert_eq!(to_upper("a1-z`{"), "A1-Z`{");
}

#[test]
fn to_upper_agrees_with_std_on_ascii() {
    let mut n: u8 = 0;
    while n < 128 {
        let s = (n as char).to_string();
        assert_eq!(to_upper(&s), s.to_uppercase());
        n += 1;
    }
}

#[test]
fn to_upper_is_idempotent() {
    let once = to_upper("Answer d");
    assert_eq!(to_upper(&once), once);
}

#[test]
fn format_option_joins_label_and_text() {
    assert_eq!(format_option("A", "3"), "A. 3");
    assert_eq!(format_option("b", "Lyon"), "b. Lyon");
    assert_eq!(format_option("", ""), ". ");
}
