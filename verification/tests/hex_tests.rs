use polars_h3::hex::{format_hex, parse_hex};

#[test]
fn format_hex_writes_lowercase_without_padding() {
    assert_eq!(format_hex(0), "0");
    assert_eq!(format_hex(0xf), "f");
    assert_eq!(format_hex(0x10), "10");
    assert_eq!(format_hex(0x8a1fb46622dffff), "8a1fb46622dffff");
    assert_eq!(format_hex(u64::MAX), "ffffffffffffffff");
}

#[test]
fn format_hex_agrees_with_std() {
    for v in [0u64, 1, 9, 10, 15, 16, 255, 256, 4095, 0x0800_1fff_ffff_ffff, u64::MAX - 1] {
        assert_eq!(format_hex(v), format!("{:x}", v));
    }
}

#[test]
fn parse_hex_reads_either_case_and_a_plus() {
    assert_eq!(parse_hex("0"), Some(0));
    assert_eq!(parse_hex("ff"), Some(255));
    assert_eq!(parse_hex("FF"), Some(255));
    assert_eq!(parse_hex("+ff"), Some(255));
    assert_eq!(parse_hex("8a1fb46622dffff"), Some(0x8a1fb46622dffff));
    assert_eq!(parse_hex("ffffffffffffffff"), Some(u64::MAX));
    assert_eq!(parse_hex("0000000000000000000001"), Some(1));
}

#[test]
fn parse_hex_refuses_what_is_no_number() {
    assert_eq!(parse_hex(""), None);
    assert_eq!(parse_hex("+"), None);
    assert_eq!(parse_hex("-1"), None);
    assert_eq!(parse_hex("++1"), None);
    assert_eq!(parse_hex("0x10"), None);
    assert_eq!(parse_hex("12g"), None);
    assert_eq!(parse_hex(" 12"), None);
    assert_eq!(parse_hex("12 "), None);
    assert_eq!(parse_hex("1_0"), None);
    assert_eq!(parse_hex("é"), None);
    assert_eq!(parse_hex("10000000000000000"), None);
}

#[test]
fn parse_hex_agrees_with_std() {
    for text in ["", "+", "-", "+0", "-0", "abc", "ABC", "+aBc", "zz", "ffffffffffffffff",
        "1ffffffffffffffff", "00ffffffffffffffff", "١٢"]
    {
        assert_eq!(parse_hex(text), u64::from_str_radix(text, 16).ok());
    }
}

#[test]
fn hex_round_trip_on_values() {
    for v in [0u64, 1, 15, 16, 0x8928308280fffff, u64::MAX] {
        assert_eq!(parse_hex(&format_hex(v)), Some(v));
    }
}
