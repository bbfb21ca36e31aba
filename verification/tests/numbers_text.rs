use crust_ls::numbers::{decimal_string, human_size, push_decimal, push_digit};

#[test]
fn zero_bytes_is_shown_in_bytes() {
    assert_eq!(human_size(0), "0.0B");
}

#[test]
fn one_kibibyte() {
    assert_eq!(human_size(1024), "1.0KB");
}

#[test]
fn one_mebibyte() {
    assert_eq!(human_size(1048576), "1.0MB");
}

#[test]
fn sizes_below_a_kibibyte_stay_in_bytes() {
    assert_eq!(human_size(1), "1.0B");
    assert_eq!(human_size(10), "10.0B");
    assert_eq!(human_size(1023), "1023.0B");
}

#[test]
fn decimal_place_is_rounded_down() {
    assert_eq!(human_size(1536), "1.5KB");
    assert_eq!(human_size(2000), "1.9KB");
    assert_eq!(human_size(1025), "1.0KB");
    assert_eq!(human_size(1048575), "1023.9KB");
    assert_eq!(human_size(1126), "1.0KB");
    assert_eq!(human_size(1127), "1.1KB");
}

#[test]
fn each_unit_at_its_threshold() {
    assert_eq!(human_size(1u128 << 30), "1.0GB");
    assert_eq!(human_size(1u128 << 40), "1.0TB");
    assert_eq!(human_size(1u128 << 50), "1.0PB");
    assert_eq!(human_size(1u128 << 60), "1.0EB");
    assert_eq!(human_size(1u128 << 70), "1.0ZB");
    assert_eq!(human_size(1u128 << 80), "1.0YB");
    assert_eq!(human_size((1u128 << 30) - 1), "1023.9MB");
}

#[test]
fn the_last_unit_takes_everything_above() {
    assert_eq!(human_size(1u128 << 90), "1024.0YB");
    assert_eq!(human_size(u128::MAX), "281474976710655.9YB");
}

#[test]
fn decimal_text_of_naturals() {
    assert_eq!(decimal_string(0), "0");
    assert_eq!(decimal_string(7), "7");
    assert_eq!(decimal_string(10), "10");
    assert_eq!(decimal_string(1234567890), "1234567890");
    assert_eq!(decimal_string(u128::MAX), "340282366920938463463374607431768211455");
}

#[test]
fn decimal_text_is_appended() {
    let mut out = String::from("n=");
    push_decimal(&mut out, 42);
    assert_eq!(out, "n=42");
}

#[test]
fn single_digits_are_appended() {
    let mut out = String::new();
    let mut d: u8 = 0;
    while d < 10 {
        push_digit(&mut out, d);
        d += 1;
    }
    assert_eq!(out, "0123456789");
}
