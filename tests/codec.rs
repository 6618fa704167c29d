use game_server::digest::constant_time_eq;
use game_server::hexcode::{decode_hex, hex_digit};
use game_server::text::{find_byte, parse_decimal};

#[test]
fn hex_digits_of_both_cases() {
    assert_eq!(hex_digit(b'0'), Some(0));
    assert_eq!(hex_digit(b'9'), Some(9));
    assert_eq!(hex_digit(b'a'), Some(10));
    assert_eq!(hex_digit(b'F'), Some(15));
    assert_eq!(hex_digit(b'g'), None);
}

#[test]
fn decode_hex_reads_pairs() {
    assert_eq!(decode_hex(b"0aFf10"), Some(vec![10u8, 255, 16]));
    assert_eq!(decode_hex(b""), Some(vec![]));
}

#[test]
fn decode_hex_refuses_odd_length_and_bad_digits() {
    assert_eq!(decode_hex(b"abc"), None);
    assert_eq!(decode_hex(b"zz"), None);
}

#[test]
fn constant_time_eq_compares_contents_and_length() {
    assert!(constant_time_eq(b"abc", b"abc"));
    assert!(!constant_time_eq(b"abc", b"abd"));
    assert!(!constant_time_eq(b"abc", b"ab"));
    assert!(constant_time_eq(b"", b""));
}

#[test]
fn parse_decimal_reads_u64() {
    assert_eq!(parse_decimal(b"42"), Some(42));
    assert_eq!(parse_decimal(b"0"), Some(0));
    assert_eq!(parse_decimal(b"18446744073709551615"), Some(u64::MAX));
}

#[test]
fn parse_decimal_refuses_overflow_and_junk() {
    assert_eq!(parse_decimal(b"18446744073709551616"), None);
    assert_eq!(parse_decimal(b""), None);
    assert_eq!(parse_decimal(b"4a"), None);
    assert_eq!(parse_decimal(b"-1"), None);
}

#[test]
fn find_byte_finds_first() {
    assert_eq!(find_byte(b"a.b.c", b'.'), Some(1));
    assert_eq!(find_byte(b"abc", b'.'), None);
}
