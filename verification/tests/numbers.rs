use dnxhd_transcoder::decimal::{check_decimal, check_unsigned_decimal, parse_duration_micros};
use dnxhd_transcoder::text::{
    bytes_eq, find, find_byte, parse_u64, push_decimal, rfind_byte, starts_with, trim_bounds,
    trim_end_len,
};

#[test]
fn duration_in_seconds_becomes_microseconds() {
    assert_eq!(parse_duration_micros(b"12.345000\n"), Some(12_345_000));
    assert_eq!(parse_duration_micros(b"5"), Some(5_000_000));
    assert_eq!(parse_duration_micros(b"  0.000001  "), Some(1));
    assert_eq!(parse_duration_micros(b".5"), Some(500_000));
    assert_eq!(parse_duration_micros(b"5."), Some(5_000_000));
    assert_eq!(parse_duration_micros(b"3600.25"), Some(3_600_250_000));
}

#[test]
fn duration_is_rounded_down_to_whole_microseconds() {
    assert_eq!(parse_duration_micros(b"1.2345678"), Some(1_234_567));
    assert_eq!(parse_duration_micros(b"0.0000019"), Some(1));
}

#[test]
fn duration_that_is_not_positive_is_unknown() {
    assert_eq!(parse_duration_micros(b"0"), None);
    assert_eq!(parse_duration_micros(b"0.0"), None);
    assert_eq!(parse_duration_micros(b"0.000000"), None);
    assert_eq!(parse_duration_micros(b"0.0000009"), None);
    assert_eq!(parse_duration_micros(b"-1.5"), None);
}

#[test]
fn duration_that_is_no_number_is_unknown() {
    assert_eq!(parse_duration_micros(b"N/A\n"), None);
    assert_eq!(parse_duration_micros(b""), None);
    assert_eq!(parse_duration_micros(b"\n"), None);
    assert_eq!(parse_duration_micros(b"."), None);
    assert_eq!(parse_duration_micros(b"1.2.3"), None);
    assert_eq!(parse_duration_micros(b"1e3"), None);
    assert_eq!(parse_duration_micros(b"inf"), None);
    assert_eq!(parse_duration_micros(b"12 34"), None);
}

#[test]
fn duration_that_does_not_fit_is_unknown() {
    assert_eq!(parse_duration_micros(b"18446744073709.551615"), Some(u64::MAX));
    assert_eq!(parse_duration_micros(b"18446744073709.551616"), None);
    assert_eq!(parse_duration_micros(b"18446744073710"), None);
    assert_eq!(parse_duration_micros(b"99999999999999999999999999"), None);
}

#[test]
fn signed_decimal_numbers_are_told_from_other_text() {
    assert!(check_decimal(b"-18.4"));
    assert!(check_decimal(b"7"));
    assert!(check_decimal(b"7."));
    assert!(check_decimal(b".7"));
    assert!(check_decimal(b"-.7"));
    assert!(check_decimal(b"-0"));
    assert!(!check_decimal(b""));
    assert!(!check_decimal(b"-"));
    assert!(!check_decimal(b"."));
    assert!(!check_decimal(b"-."));
    assert!(!check_decimal(b"--1"));
    assert!(!check_decimal(b"1-2"));
    assert!(!check_decimal(b"1.2.3"));
    assert!(!check_decimal(b"1,5"));
    assert!(!check_unsigned_decimal(b"-1"));
    assert!(check_unsigned_decimal(b"1.25"));
}

#[test]
fn unsigned_numbers_are_read_with_surrounding_whitespace() {
    assert_eq!(parse_u64(b" 15\t\n"), Some(15));
    assert_eq!(parse_u64(b"+15"), Some(15));
    assert_eq!(parse_u64(b"007"), Some(7));
    assert_eq!(parse_u64(b"18446744073709551615"), Some(u64::MAX));
    assert_eq!(parse_u64(b"18446744073709551616"), None);
    assert_eq!(parse_u64(b""), None);
    assert_eq!(parse_u64(b"+"), None);
    assert_eq!(parse_u64(b"++1"), None);
    assert_eq!(parse_u64(b"1 2"), None);
    assert_eq!(parse_u64(b"1.0"), None);
}

#[test]
fn numbers_are_written_without_leading_zeros() {
    let mut out = b"n=".to_vec();
    push_decimal(&mut out, 0);
    assert_eq!(out, b"n=0".to_vec());
    let mut out = Vec::new();
    push_decimal(&mut out, 1_234_567_890);
    assert_eq!(out, b"1234567890".to_vec());
    let mut out = Vec::new();
    push_decimal(&mut out, u64::MAX);
    assert_eq!(out, b"18446744073709551615".to_vec());
    let mut out = Vec::new();
    push_decimal(&mut out, 10);
    assert_eq!(out, b"10".to_vec());
}

#[test]
fn trimming_finds_the_bounds_of_the_text() {
    assert_eq!(trim_bounds(b"  ab c \r\n"), (2, 6));
    assert_eq!(trim_bounds(b"abc"), (0, 3));
    assert_eq!(trim_bounds(b"   "), (3, 3));
    assert_eq!(trim_bounds(b""), (0, 0));
    assert_eq!(trim_end_len(b"  ab \n"), 4);
    assert_eq!(trim_end_len(b"\n\n"), 0);
}

#[test]
fn searching_finds_the_first_and_the_last_place() {
    assert_eq!(find(b"abcabc", b"bc"), Some(1));
    assert_eq!(find(b"abcabc", b"cb"), None);
    assert_eq!(find(b"abc", b""), Some(0));
    assert_eq!(find(b"", b""), Some(0));
    assert_eq!(find(b"ab", b"abc"), None);
    assert_eq!(find(b"aab", b"ab"), Some(1));
    assert_eq!(find_byte(b"a{b{c", b'{'), Some(1));
    assert_eq!(rfind_byte(b"a}b}c", b'}'), Some(3));
    assert_eq!(find_byte(b"abc", b'{'), None);
    assert_eq!(rfind_byte(b"", b'}'), None);
    assert!(starts_with(b"progress=end", b"progress="));
    assert!(starts_with(b"abc", b""));
    assert!(!starts_with(b"ab", b"abc"));
    assert!(bytes_eq(b"abc", b"abc"));
    assert!(!bytes_eq(b"abc", b"abd"));
    assert!(!bytes_eq(b"abc", b"ab"));
}
