use donutchart::text::{decimal_string, write_decimal};

#[test]
fn zero_is_a_single_digit() {
    assert_eq!(decimal_string(0), "0");
}

#[test]
fn single_digits() {
    let expected = ["0", "1", "2", "3", "4", "5", "6", "7", "8", "9"];
    for (n, text) in expected.iter().enumerate() {
        assert_eq!(decimal_string(n as u32), *text);
    }
}

#[test]
fn several_digits_come_most_significant_first() {
    assert_eq!(decimal_string(10), "10");
    assert_eq!(decimal_string(25), "25");
    assert_eq!(decimal_string(100), "100");
    assert_eq!(decimal_string(1203), "1203");
    assert_eq!(decimal_string(90_000), "90000");
}

#[test]
fn largest_number() {
    assert_eq!(decimal_string(u32::MAX), "4294967295");
}

#[test]
fn decimal_agrees_with_the_standard_notation() {
    for n in (0..100_000).step_by(37) {
        assert_eq!(decimal_string(n), n.to_string());
    }
}

#[test]
fn writing_appends_to_what_is_there() {
    let mut out = String::from("App Store (");
    write_decimal(&mut out, 40);
    assert_eq!(out, "App Store (40");
    write_decimal(&mut out, 0);
    assert_eq!(out, "App Store (400");
}
