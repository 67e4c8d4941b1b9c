use tokimo_ffmpeg::error::Error;
use tokimo_ffmpeg::text::{
    contains, dec_i64, dec_u64, hex_u128, join, pad_zeros, parse_int, parse_size, same,
    split, starts_with, trim, IntError,
};

#[test]
fn searching() {
    assert!(contains("h264_nvenc", "nvenc") && contains("abc", "") && !contains("ab", "abc"));
    assert!(starts_with("format=x", "format=") && !starts_with("xformat=", "format="));
    assert!(same("é", "é") && !same("e", "é"));
}

#[test]
fn splitting_and_joining() {
    assert_eq!(split("a,,b", ','), vec!["a", "", "b"]);
    assert_eq!(split("", ','), vec![""]);
    assert_eq!(join(&split("x,y,z", ','), ", "), "x, y, z");
    assert_eq!(trim(" \t a b\u{2003}\n"), "a b");
    assert_eq!(trim("\u{200b}"), "\u{200b}");
}

#[test]
fn numbers_as_text() {
    assert_eq!(dec_i64(i64::MIN), "-9223372036854775808");
    assert_eq!(dec_i64(0), "0");
    assert_eq!(dec_u64(u64::MAX), "18446744073709551615");
    assert_eq!(hex_u128(0xdead_beef), "deadbeef");
    assert_eq!(hex_u128(u128::MAX), "f".repeat(32));
    assert_eq!(pad_zeros("7", 3), "007");
    assert_eq!(pad_zeros("1234", 3), "1234");
}

#[test]
fn text_as_numbers() {
    assert_eq!(parse_int("-12", -100, 100), Ok(-12));
    assert_eq!(parse_int("+7", -100, 100), Ok(7));
    assert_eq!(parse_int("", -100, 100), Err(IntError::Empty));
    assert_eq!(parse_int("-", -100, 100), Err(IntError::InvalidDigit));
    assert_eq!(parse_int("1x", -100, 100), Err(IntError::InvalidDigit));
    assert_eq!(parse_int("101", -100, 100), Err(IntError::TooLarge));
    assert_eq!(parse_int("-101", -100, 100), Err(IntError::TooSmall));
    assert_eq!(parse_int("9223372036854775807", i64::MIN, i64::MAX), Ok(i64::MAX));
    assert_eq!(parse_int("-9223372036854775808", i64::MIN, i64::MAX), Ok(i64::MIN));
    assert_eq!(parse_size("18446744073709551615"), Ok(u64::MAX));
    assert_eq!(parse_size("18446744073709551616"), Err(IntError::TooLarge));
    assert_eq!(parse_size("-1"), Err(IntError::InvalidDigit));
    assert_eq!(parse_size("99999999999999999999x"), Err(IntError::TooLarge));
}

#[test]
fn written_numbers_are_read_back() {
    for n in [0, 9, 10, -1, -10, 4_000_123, i64::MAX, i64::MIN] {
        assert_eq!(parse_int(&dec_i64(n), i64::MIN, i64::MAX), Ok(n));
    }
}

#[test]
fn integer_messages_match_the_standard_library() {
    let cases = ["", "x", "99999999999", "-99999999999", "+", "-", "--1", "1 "];
    for c in cases {
        let own = parse_int(c, i32::MIN as i64, i32::MAX as i64).unwrap_err().message();
        let std = c.parse::<i32>().unwrap_err().to_string();
        assert_eq!(own, std, "{}", c);
    }
}

#[test]
fn error_messages() {
    let e = Error::other("broken");
    assert_eq!(e.message(), "broken");
}
