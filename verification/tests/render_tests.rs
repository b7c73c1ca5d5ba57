use procmon_core::parse::{parse_u16_hex, parse_u32_dec, parse_u64_dec};
use procmon_core::render::{dec_u64, gib_hundredths_u64, hundredths_string, mib_hundredths_u128, tenths_string};

#[test]
fn decimal_rendering_is_exact() {
    assert_eq!(dec_u64(0), "0");
    assert_eq!(dec_u64(9), "9");
    assert_eq!(dec_u64(10), "10");
    assert_eq!(dec_u64(12345), "12345");
    assert_eq!(dec_u64(u64::MAX), "18446744073709551615");
}

#[test]
fn tenths_render_with_one_decimal_place() {
    assert_eq!(tenths_string(0), "0.0");
    assert_eq!(tenths_string(5), "0.5");
    assert_eq!(tenths_string(800), "80.0");
    assert_eq!(tenths_string(851), "85.1");
    assert_eq!(tenths_string(1000), "100.0");
}

#[test]
fn hundredths_render_with_two_decimal_places() {
    assert_eq!(hundredths_string(0), "0.00");
    assert_eq!(hundredths_string(7), "0.07");
    assert_eq!(hundredths_string(100), "1.00");
    assert_eq!(hundredths_string(123456), "1234.56");
}

#[test]
fn gib_scaling_truncates_toward_zero() {
    assert_eq!(gib_hundredths_u64(0), 0);
    assert_eq!(gib_hundredths_u64(1024 * 1024 * 1024), 100);
    assert_eq!(gib_hundredths_u64(3 * 1024 * 1024 * 1024 / 2), 150);
    // One byte below half a GiB still truncates down.
    assert_eq!(gib_hundredths_u64(1024 * 1024 * 1024 / 100 - 1), 0);
}

#[test]
fn mib_scaling_truncates_toward_zero() {
    assert_eq!(mib_hundredths_u128(0), 0);
    assert_eq!(mib_hundredths_u128(1024 * 1024), 100);
    assert_eq!(mib_hundredths_u128(150 * 1024 * 1024), 15000);
}

#[test]
fn decimal_parsing_is_exact() {
    assert_eq!(parse_u64_dec("0"), Some(0));
    assert_eq!(parse_u64_dec("007"), Some(7));
    assert_eq!(parse_u64_dec("12345"), Some(12345));
    assert_eq!(parse_u64_dec("18446744073709551615"), Some(u64::MAX));
    assert_eq!(parse_u64_dec("18446744073709551616"), None);
    assert_eq!(parse_u64_dec(""), None);
    assert_eq!(parse_u64_dec("12a"), None);
    assert_eq!(parse_u64_dec("-1"), None);
    assert_eq!(parse_u32_dec("4294967295"), Some(u32::MAX));
    assert_eq!(parse_u32_dec("4294967296"), None);
}

#[test]
fn hex_parsing_is_exact() {
    assert_eq!(parse_u16_hex("0"), Some(0));
    assert_eq!(parse_u16_hex("1d6b"), Some(0x1d6b));
    assert_eq!(parse_u16_hex("1D6B"), Some(0x1d6b));
    assert_eq!(parse_u16_hex("ffff"), Some(0xffff));
    assert_eq!(parse_u16_hex("10000"), None);
    assert_eq!(parse_u16_hex(""), None);
    assert_eq!(parse_u16_hex("0x1f"), None);
}
