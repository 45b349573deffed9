//! Tests for the big-endian-to-decimal serial conversion.

use pippo::serial::{big_endian_bytes_to_decimal, u64_to_decimal};

#[test]
fn serial_two_byte_value() {
    assert_eq!(big_endian_bytes_to_decimal(&[0x01, 0x00]), "256");
}

#[test]
fn serial_leading_zero_is_part_of_the_value() {
    // the conversion itself reads all bytes; stripping the sign byte
    // happens when certificate metadata is extracted
    assert_eq!(big_endian_bytes_to_decimal(&[0xFF]), "255");
    assert_eq!(big_endian_bytes_to_decimal(&[0x00, 0xFF]), "255");
}

#[test]
fn serial_empty_input_is_zero() {
    assert_eq!(big_endian_bytes_to_decimal(&[]), "0");
    assert_eq!(big_endian_bytes_to_decimal(&[0x00]), "0");
}

#[test]
fn serial_large_value() {
    // 2^64 = 18446744073709551616
    assert_eq!(
        big_endian_bytes_to_decimal(&[0x01, 0, 0, 0, 0, 0, 0, 0, 0]),
        "18446744073709551616"
    );
}

#[test]
fn serial_single_digit() {
    assert_eq!(big_endian_bytes_to_decimal(&[7]), "7");
}

#[test]
fn decimal_rendering_of_machine_integers() {
    assert_eq!(u64_to_decimal(0), "0");
    assert_eq!(u64_to_decimal(10), "10");
    assert_eq!(u64_to_decimal(222222), "222222");
    assert_eq!(u64_to_decimal(u64::MAX), "18446744073709551615");
}
