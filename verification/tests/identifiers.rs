use benchboard::dates::{CommitDate, Duration};
use benchboard::ids::Uuid;
use benchboard::text::{compare_text, decimal, same_text};

fn date(year: i32, offset_seconds: i32) -> CommitDate {
    CommitDate {
        year,
        month: 11,
        day: 12,
        hour: 9,
        minute: 55,
        second: 6,
        nanosecond: 0,
        offset_seconds,
    }
}

#[test]
fn uuid_is_written_hyphenated() {
    let id = Uuid { bits: 0x0190163d_8694_739b_aea5_966c26f8ad91 };
    assert_eq!(id.to_text(), "0190163d-8694-739b-aea5-966c26f8ad91");
    assert_eq!(Uuid { bits: 0 }.to_text(), "00000000-0000-0000-0000-000000000000");
}

#[test]
fn uuid_round_trip() {
    for bits in [0u128, 1, u128::MAX, 0x0190163d_8694_739b_aea5_966c26f8ad91] {
        let id = Uuid { bits };
        assert_eq!(Uuid::parse(&id.to_text()), Some(id));
    }
}

#[test]
fn uuid_parse_refuses_other_text() {
    assert_eq!(Uuid::parse("search-movies"), None);
    assert_eq!(Uuid::parse(""), None);
    assert_eq!(Uuid::parse("0190163d-8694-739b-aea5-966c26f8ad9"), None);
}

#[test]
fn uuid_parse_accepts_upper_case() {
    let id = Uuid { bits: 0xabcdef01_2345_6789_abcd_ef0123456789 };
    assert_eq!(Uuid::parse("ABCDEF01-2345-6789-ABCD-EF0123456789"), Some(id));
}

#[test]
fn fresh_uuids_have_version_seven() {
    let a = Uuid::now_v7();
    let b = Uuid::now_v7();
    for id in [a, b] {
        assert_eq!((id.bits >> 76) & 0xf, 7);
        assert_eq!((id.bits >> 62) & 3, 2);
        assert_eq!(&id.to_text()[14..15], "7");
    }
    assert_ne!(a, b);
}

#[test]
fn date_is_written_in_iso8601() {
    assert_eq!(date(1997, -6 * 3600).to_iso8601().unwrap(), "1997-11-12T09:55:06.000000000-06:00");
    assert_eq!(date(1997, 0).to_iso8601().unwrap(), "1997-11-12T09:55:06.000000000Z");
    assert_eq!(
        date(7, 5 * 3600 + 30 * 60).to_iso8601().unwrap(),
        "0007-11-12T09:55:06.000000000+05:30"
    );
    assert_eq!(date(1997, -60).to_iso8601().unwrap(), "1997-11-12T09:55:06.000000000-00:01");
    assert_eq!(
        date(1997, 25 * 3600 + 59 * 60).to_iso8601().unwrap(),
        "1997-11-12T09:55:06.000000000+25:59"
    );
}

#[test]
fn date_keeps_nanoseconds() {
    let d = CommitDate { nanosecond: 123_456_789, ..date(2024, 0) };
    assert_eq!(d.to_iso8601().unwrap(), "2024-11-12T09:55:06.123456789Z");
    let d = CommitDate { nanosecond: 5, ..date(2024, 0) };
    assert_eq!(d.to_iso8601().unwrap(), "2024-11-12T09:55:06.000000005Z");
}

#[test]
fn date_without_iso8601_form() {
    assert!(date(-1, 0).to_iso8601().is_none());
    assert!(date(1997, 30).to_iso8601().is_none());
    assert!(date(1997, 93_600).to_iso8601().is_none());
    assert!(CommitDate { month: 13, ..date(1997, 0) }.to_iso8601().is_none());
    assert!(CommitDate { month: 0, ..date(1997, 0) }.to_iso8601().is_none());
    assert!(CommitDate { day: 31, ..date(1997, 0) }.to_iso8601().is_none());
    assert!(CommitDate { hour: 24, ..date(1997, 0) }.to_iso8601().is_none());
    assert!(CommitDate { minute: 60, ..date(1997, 0) }.to_iso8601().is_none());
    assert!(CommitDate { second: 60, ..date(1997, 0) }.to_iso8601().is_none());
    assert!(CommitDate { nanosecond: 1_000_000_000, ..date(1997, 0) }.to_iso8601().is_none());
}

#[test]
fn date_knows_leap_years() {
    let february = |year, day| CommitDate { month: 2, day, ..date(year, 0) }.to_iso8601();
    assert!(february(2024, 29).is_some());
    assert!(february(2023, 29).is_none());
    assert!(february(2000, 29).is_some());
    assert!(february(1900, 29).is_none());
    assert!(february(0, 29).is_some());
    assert!(february(2024, 30).is_none());
}

#[test]
fn date_range_of_years() {
    assert!(date(9999, 0).to_iso8601().is_some());
    assert!(date(10_000, 0).to_iso8601().is_none());
    assert!(date(-10_000, 0).to_iso8601().is_none());
    assert_eq!(date(0, 0).to_iso8601().unwrap(), "0000-11-12T09:55:06.000000000Z");
}

#[test]
fn timeout_is_three_hours() {
    assert_eq!(Duration::default_timeout(), Duration { seconds: 10_800, nanoseconds: 0 });
}

#[test]
fn texts_are_ordered_like_strings() {
    let words = ["", "a", "ab", "b", "B", "é", "z", "日本", "::meta::total", "a\u{10ffff}", "a\u{ffff}"];
    for a in words {
        for b in words {
            assert_eq!(compare_text(a, b), a.cmp(b));
            assert_eq!(same_text(a, b), a == b);
        }
    }
}

#[test]
fn decimal_writes_numbers() {
    for n in [0u64, 7, 10, 99, 100, 1234567890, u64::MAX] {
        assert_eq!(decimal(n), n.to_string());
    }
}
