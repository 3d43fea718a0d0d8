use traceon::{time_convert, SecondsFormat, TimeFormat, TimeZone, Timestamp};

fn at(secs: i64, nanos: u32, offset: i32) -> Timestamp {
    Timestamp::new(secs, nanos, offset).unwrap()
}

#[test]
fn a_timestamp_holds_years_of_four_digits() {
    assert!(Timestamp::new(0, 0, 0).is_some());
    assert!(Timestamp::new(-62_167_132_800, 0, 0).is_some());
    assert!(Timestamp::new(-62_167_132_801, 0, 0).is_none());
    assert!(Timestamp::new(253_402_214_399, 999_999_999, 0).is_some());
    assert!(Timestamp::new(253_402_214_400, 0, 0).is_none());
    assert!(Timestamp::new(0, 1_000_000_000, 0).is_none());
    assert!(Timestamp::new(0, 0, 86_399).is_some());
    assert!(Timestamp::new(0, 0, 86_400).is_none());
    assert!(Timestamp::new(0, 0, -86_399).is_some());
    assert!(Timestamp::new(0, 0, -86_400).is_none());
}

#[test]
fn the_ends_of_the_range_can_be_written_in_every_zone() {
    let first = at(-62_167_132_800, 0, -86_340);
    assert_eq!(time_convert(&first, &TimeFormat::RFC3339).unwrap(), "0000-01-01T00:01:00-23:59");
    assert_eq!(time_convert(&first, &TimeFormat::RFC2822).unwrap(), "Sat, 1 Jan 0000 00:01:00 -2359");
    let last = at(253_402_214_399, 0, 86_340);
    assert_eq!(time_convert(&last, &TimeFormat::RFC3339).unwrap(), "9999-12-31T23:58:59+23:59");
    assert_eq!(time_convert(&last, &TimeFormat::RFC2822).unwrap(), "Fri, 31 Dec 9999 23:58:59 +2359");
    assert_eq!(
        time_convert(&last, &TimeFormat::RFC3339Options(SecondsFormat::Secs, true)).unwrap(),
        "9999-12-31T23:58:59+23:59"
    );
    // No offset below one day pushes the year out of four digits.
    let earliest = at(-62_167_132_800, 0, -86_399);
    assert_eq!(time_convert(&earliest, &TimeFormat::PrettyDateTime).unwrap(), "0000-01-01 00:00:01");
    assert!(time_convert(&earliest, &TimeFormat::RFC2822).unwrap().starts_with("Sat, 1 Jan 0000 00:00:01"));
    let latest = at(253_402_214_399, 999_999_999, 86_399);
    assert_eq!(time_convert(&latest, &TimeFormat::PrettyDateTime).unwrap(), "9999-12-31 23:59:58");
    assert!(time_convert(&latest, &TimeFormat::RFC2822).unwrap().starts_with("Fri, 31 Dec 9999 23:59:58"));
}

#[test]
fn epoch_formats_count_from_1970() {
    let now = at(1_672_574_869, 384_925_123, 3600);
    assert_eq!(time_convert(&now, &TimeFormat::EpochSeconds).unwrap(), "1672574869");
    assert_eq!(time_convert(&now, &TimeFormat::EpochMilliseconds).unwrap(), "1672574869384");
    assert_eq!(time_convert(&now, &TimeFormat::EpochMicroseconds).unwrap(), "1672574869384925");
    assert_eq!(time_convert(&now, &TimeFormat::EpochNanoseconds).unwrap(), "1672574869384925123");
    assert_eq!(time_convert(&now, &TimeFormat::Off).unwrap(), "1672574869");
}

#[test]
fn epoch_formats_before_1970_are_negative() {
    let before = at(-2, 500_000_000, 0);
    assert_eq!(time_convert(&before, &TimeFormat::EpochSeconds).unwrap(), "-2");
    assert_eq!(time_convert(&before, &TimeFormat::EpochMilliseconds).unwrap(), "-1500");
    assert_eq!(time_convert(&before, &TimeFormat::EpochMicroseconds).unwrap(), "-1500000");
    assert_eq!(time_convert(&before, &TimeFormat::EpochNanoseconds).unwrap(), "-1500000000");
}

#[test]
fn nanoseconds_that_do_not_fit_are_zero() {
    let fits = at(9_223_372_036, 854_775_807, 0);
    assert_eq!(time_convert(&fits, &TimeFormat::EpochNanoseconds).unwrap(), "9223372036854775807");
    let too_late = at(9_223_372_036, 854_775_808, 0);
    assert_eq!(time_convert(&too_late, &TimeFormat::EpochNanoseconds).unwrap(), "0");
    let too_early = at(-9_223_372_037, 0, 0);
    assert_eq!(time_convert(&too_early, &TimeFormat::EpochNanoseconds).unwrap(), "0");
    let first = at(-9_223_372_037, 145_224_192, 0);
    assert_eq!(time_convert(&first, &TimeFormat::EpochNanoseconds).unwrap(), "-9223372036854775808");
}

#[test]
fn rfc_formats_follow_the_offset() {
    let now = at(1_672_574_869, 384_925_000, 0);
    assert_eq!(time_convert(&now, &TimeFormat::RFC3339).unwrap(), "2023-01-01T12:07:49.384925+00:00");
    assert_eq!(time_convert(&now, &TimeFormat::RFC2822).unwrap(), "Sun, 1 Jan 2023 12:07:49 +0000");
    let east = at(1_672_574_869, 0, 5 * 3600 + 1800);
    assert_eq!(time_convert(&east, &TimeFormat::RFC3339).unwrap(), "2023-01-01T17:37:49+05:30");
    assert_eq!(time_convert(&east, &TimeFormat::RFC2822).unwrap(), "Sun, 1 Jan 2023 17:37:49 +0530");
    let west = at(1_672_574_869, 0, -8 * 3600);
    assert_eq!(time_convert(&west, &TimeFormat::RFC3339).unwrap(), "2023-01-01T04:07:49-08:00");
}

#[test]
fn rfc3339_options_choose_the_precision() {
    let now = at(1_672_574_869, 384_925_123, 0);
    let text = |seconds, use_z| time_convert(&now, &TimeFormat::RFC3339Options(seconds, use_z)).unwrap();
    assert_eq!(text(SecondsFormat::Secs, true), "2023-01-01T12:07:49Z");
    assert_eq!(text(SecondsFormat::Secs, false), "2023-01-01T12:07:49+00:00");
    assert_eq!(text(SecondsFormat::Millis, true), "2023-01-01T12:07:49.384Z");
    assert_eq!(text(SecondsFormat::Micros, true), "2023-01-01T12:07:49.384925Z");
    assert_eq!(text(SecondsFormat::Nanos, true), "2023-01-01T12:07:49.384925123Z");
    assert_eq!(text(SecondsFormat::AutoSi, false), "2023-01-01T12:07:49.384925123+00:00");
    let east = at(1_672_574_869, 0, 3600);
    assert_eq!(
        time_convert(&east, &TimeFormat::RFC3339Options(SecondsFormat::Secs, true)).unwrap(),
        "2023-01-01T13:07:49+01:00"
    );
}

#[test]
fn pretty_formats_show_the_local_time() {
    let now = at(1_672_574_869, 384_925_123, 3600);
    assert_eq!(time_convert(&now, &TimeFormat::PrettyTime).unwrap(), "13:07:49");
    assert_eq!(time_convert(&now, &TimeFormat::PrettyDateTime).unwrap(), "2023-01-01 13:07:49");
}

#[test]
fn custom_formats_follow_the_pattern() {
    let now = at(1_672_574_869, 0, 0);
    assert_eq!(time_convert(&now, &TimeFormat::CustomFormat("%Y-%m-%d")).unwrap(), "2023-01-01");
    assert_eq!(time_convert(&now, &TimeFormat::CustomFormat("at %H h")).unwrap(), "at 12 h");
    assert_eq!(time_convert(&now, &TimeFormat::CustomFormat("")).unwrap(), "");
}

#[test]
fn a_pattern_that_cannot_be_rendered_gives_nothing() {
    let now = at(1_672_574_869, 0, 0);
    assert_eq!(time_convert(&now, &TimeFormat::CustomFormat("%Q")), None);
    assert_eq!(time_convert(&now, &TimeFormat::CustomFormat("%")), None);
}

#[test]
fn a_timestamp_can_be_read_in_utc() {
    let local = at(1_672_574_869, 7, 3600);
    assert_eq!(time_convert(&local.in_utc(), &TimeFormat::RFC3339).unwrap(), "2023-01-01T12:07:49.000000007+00:00");
    assert_eq!(time_convert(&local.in_zone(TimeZone::UTC), &TimeFormat::PrettyTime).unwrap(), "12:07:49");
    assert_eq!(time_convert(&local.in_zone(TimeZone::Local), &TimeFormat::PrettyTime).unwrap(), "13:07:49");
}

#[test]
fn a_leap_second_is_the_last_nanosecond_of_its_second() {
    let leap = Timestamp::of_clock(1_672_574_869, 1_500_000_000, 0).unwrap();
    assert_eq!(time_convert(&leap, &TimeFormat::EpochNanoseconds).unwrap(), "1672574869999999999");
    let plain = Timestamp::of_clock(1_672_574_869, 5, 0).unwrap();
    assert_eq!(time_convert(&plain, &TimeFormat::EpochNanoseconds).unwrap(), "1672574869000000005");
    assert!(Timestamp::of_clock(253_402_214_400, 0, 0).is_none());
    assert!(Timestamp::of_clock(0, u32::MAX, 86_400).is_none());
}

#[test]
fn the_name_of_the_zone_is_utc_in_utc_and_the_offset_elsewhere() {
    let local = at(1_672_574_869, 0, 3600);
    assert_eq!(time_convert(&local, &TimeFormat::CustomFormat("%T %Z")).unwrap(), "13:07:49 +01:00");
    assert_eq!(time_convert(&local.in_utc(), &TimeFormat::CustomFormat("%T %Z")).unwrap(), "12:07:49 UTC");
    assert_eq!(
        time_convert(&local.in_zone(TimeZone::UTC), &TimeFormat::CustomFormat("%Z %z")).unwrap(),
        "UTC +0000"
    );
    let at_greenwich = at(1_672_574_869, 0, 0);
    assert_eq!(time_convert(&at_greenwich, &TimeFormat::CustomFormat("%Z")).unwrap(), "+00:00");
    assert_eq!(
        time_convert(&at_greenwich.in_utc().in_zone(TimeZone::Local), &TimeFormat::CustomFormat("%Z")).unwrap(),
        "UTC"
    );
}
