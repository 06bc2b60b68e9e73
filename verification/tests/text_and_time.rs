use voting_app::text::{
    decimal, is_blank, same_text, signed_decimal, starts_with, to_lowercase, trim_trailing_slashes,
    url_encode,
};
use voting_app::time::{is_not_after, now, parse_rfc3339, rfc3339_text, seconds_between, table_text, Timestamp};

#[test]
fn blank_matches_trim_for_every_code_point_up_to_ideographic_space() {
    for code in 0u32..=0x3001 {
        if let Some(c) = char::from_u32(code) {
            let s = format!("{c}{c}");
            assert_eq!(is_blank(&s), s.trim().is_empty(), "U+{code:04X}");
        }
    }
    assert!(is_blank(""));
    assert!(!is_blank(" a "));
}

#[test]
fn text_helpers() {
    assert!(same_text("abc", "abc"));
    assert!(!same_text("abc", "abd"));
    assert!(starts_with("http://app/x", "http://app"));
    assert!(!starts_with("http://ap", "http://app"));
    assert!(starts_with("anything", ""));
    assert_eq!(trim_trailing_slashes("http://app///"), "http://app");
    assert_eq!(trim_trailing_slashes("///"), "");
    assert_eq!(trim_trailing_slashes("a/b"), "a/b");
    assert_eq!(decimal(0), "0");
    assert_eq!(decimal(1234567890), "1234567890");
    assert_eq!(decimal(u64::MAX), u64::MAX.to_string());
    assert_eq!(signed_decimal(-42), "-42");
    assert_eq!(signed_decimal(i64::MIN), i64::MIN.to_string());
    assert_eq!(to_lowercase("PaSS"), "pass");
    assert_eq!(to_lowercase("ÄBSTAIN"), "äbstain");
}

#[test]
fn url_encoding_keeps_safe_bytes_and_escapes_the_rest() {
    assert_eq!(url_encode("abc-_.~XYZ019"), "abc-_.~XYZ019");
    assert_eq!(url_encode("a b/?=&"), "a%20b%2F%3F%3D%26");
    assert_eq!(url_encode("é"), "%C3%A9");
    assert_eq!(url_encode("http://app/x?y=1"), "http%3A%2F%2Fapp%2Fx%3Fy%3D1");
}

#[test]
fn timestamps_read_and_write_rfc3339() {
    let t = parse_rfc3339("2026-03-20T20:30:00Z").unwrap();
    assert_eq!(t.seconds(), 1_774_038_600);
    assert_eq!(t.nanos(), 0);
    assert_eq!(t.offset(), 0);
    assert_eq!(rfc3339_text(&t), "2026-03-20T20:30:00+00:00");
    let t = parse_rfc3339("2026-03-20T22:30:00.5+02:00").unwrap();
    assert_eq!(t.seconds(), 1_774_038_600);
    assert_eq!(t.nanos(), 500_000_000);
    assert_eq!(t.offset(), 7200);
    assert_eq!(rfc3339_text(&t), "2026-03-20T22:30:00.500+02:00");
    assert_eq!(table_text(&t), "2026-03-20 22:30:00");
    assert!(parse_rfc3339("2026-03-20 20:30").is_none());
    assert!(parse_rfc3339("").is_none());
}

#[test]
fn instants_compare_across_offsets() {
    let a = parse_rfc3339("2026-03-20T20:30:00Z").unwrap();
    let b = parse_rfc3339("2026-03-20T22:30:00+02:00").unwrap();
    assert!(is_not_after(&a, &b) && is_not_after(&b, &a));
    let c = parse_rfc3339("2026-03-20T20:30:01Z").unwrap();
    assert!(is_not_after(&a, &c) && !is_not_after(&c, &a));
    assert_eq!(seconds_between(&c, &a), 1);
    assert_eq!(seconds_between(&a, &c), -1);
    let d = parse_rfc3339("2026-03-20T20:30:01.9Z").unwrap();
    assert_eq!(seconds_between(&a, &d), -1);
    assert_eq!(seconds_between(&d, &a), 1);
}

#[test]
fn parts_are_checked() {
    assert!(Timestamp::from_parts(0, 0, 0).is_some());
    assert!(Timestamp::from_parts(0, 1_000_000_000, 0).is_none());
    assert!(Timestamp::from_parts(59, 1_500_000_000, 0).is_some());
    assert!(Timestamp::from_parts(-1, 1_500_000_000, 0).is_some());
    assert!(Timestamp::from_parts(0, 0, 86_400).is_none());
    assert!(Timestamp::from_parts(8_210_266_876_799, 0, 0).is_some());
    assert!(Timestamp::from_parts(8_210_266_876_800, 0, 0).is_none());
    assert!(Timestamp::from_parts(8_210_266_876_799, 0, 1).is_none());
    assert!(Timestamp::from_parts(-8_334_601_228_800, 0, 0).is_some());
    assert!(Timestamp::from_parts(-8_334_601_228_801, 0, 0).is_none());
    let t = now();
    assert_eq!(t.offset(), 0);
}

#[test]
fn largest_instant_is_written() {
    let max = Timestamp::from_parts(8_210_266_876_799, 999_999_999, 0).unwrap();
    assert_eq!(rfc3339_text(&max), "+262142-12-31T23:59:59.999999999+00:00");
}

#[test]
fn smallest_instant_is_written() {
    let min = Timestamp::from_parts(-8_334_601_228_800, 0, 0).unwrap();
    assert_eq!(rfc3339_text(&min), "-262143-01-01T00:00:00+00:00");
}

#[test]
fn leap_second_is_written() {
    let leap = Timestamp::from_parts(59, 1_500_000_000, 0).unwrap();
    assert_eq!(rfc3339_text(&leap), "1970-01-01T00:00:60.500+00:00");
}
