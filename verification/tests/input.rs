use rusty_cart::input::parse_quantity_input;

#[test]
fn plain_digits_read_as_their_value() {
    assert_eq!(parse_quantity_input("12"), 12);
    assert_eq!(parse_quantity_input("0"), 0);
    assert_eq!(parse_quantity_input("007"), 7);
}

#[test]
fn empty_input_falls_back_to_one() {
    assert_eq!(parse_quantity_input(""), 1);
}

#[test]
fn non_digit_input_falls_back_to_one() {
    assert_eq!(parse_quantity_input("abc"), 1);
    assert_eq!(parse_quantity_input("12x"), 1);
    assert_eq!(parse_quantity_input("-3"), 1);
    assert_eq!(parse_quantity_input("1 2"), 1);
}

#[test]
fn largest_quantity_is_kept_and_overflow_falls_back() {
    assert_eq!(parse_quantity_input("4294967295"), u32::MAX);
    assert_eq!(parse_quantity_input("4294967296"), 1);
    assert_eq!(parse_quantity_input("99999999999999999999"), 1);
}
