//! Timestamps and the formats in which a record shows them.
use crate::text::{i64_text, signed_decimal};
use chrono::{DateTime, FixedOffset};
use std::fmt::Write;
use vstd::prelude::*;

verus! {

/// Change the timezone
#[derive(Clone, Copy, Debug)]
pub enum TimeZone {
    /// Use +00:00 timezone
    UTC,
    /// Use local system time for the timezone
    Local,
}

/// How many digits of the second's fraction RFC 3339 text shows.
#[derive(Clone, Copy, Debug, PartialEq, Eq)]
pub enum SecondsFormat {
    /// Whole seconds only.
    Secs,
    /// Three digits.
    Millis,
    /// Six digits.
    Micros,
    /// Nine digits.
    Nanos,
    /// As many groups of three digits as the time needs.
    AutoSi,
}

/// Change the time formatting
#[derive(Clone, Copy, Debug)]
pub enum TimeFormat {
    /// Turn off the time field
    Off,
    /// Unix epoch seconds since 1970-01-01 00:00:00 e.g. 1672574869
    EpochSeconds,
    /// Unix epoch millseconds since 1970-01-01 00:00:00 e.g. 1672574869384
    EpochMilliseconds,
    /// Unix epoch microseconds since 1970-01-01 00:00:00 e.g. 1672574869384925
    EpochMicroseconds,
    /// Unix epoch nanoseconds since 1970-01-01 00:00:00 e.g. 1672575028752943000
    EpochNanoseconds,
    /// Well known format e.g. Sun, 01 Jan 2023 12:10:28 +0000
    RFC2822,
    /// Well known format like ISO 8601 e.g. 2022-12-31T00:15:08.241974+00:00
    RFC3339,
    /// Seconds format and bool to replace +00:00 timezone with Z e.g.
    /// (SecondsFormat::Secs, true) = 2022-12-31T00:15:08Z
    RFC3339Options(SecondsFormat, bool),
    /// Pretty Print the time in format HH:mm:SS
    PrettyTime,
    /// Pretty Print the date in format YYYY-MM-DD HH:mm:SS
    PrettyDateTime,
    /// Use a format string to change the datetime formate e.g. %Y-%m-%d
    CustomFormat(&'static str),
}

/// The first second that a [`Timestamp`] can hold: 0000-01-02T00:00:00Z.
pub const FIRST_SECOND: i64 = -62_167_132_800;

/// The last second that a [`Timestamp`] can hold: 9999-12-30T23:59:59Z.
pub const LAST_SECOND: i64 = 253_402_214_399;

/// The seconds of one day.
pub const DAY: i32 = 86_400;

/// The nanoseconds of one second.
pub const SECOND: u32 = 1_000_000_000;

/// The three numbers make an instant that every format can show: a year of
/// four digits in every time zone, a fraction below one second, and an offset
/// from UTC below one day.
pub open spec fn is_instant(secs: int, nanos: int, offset: int) -> bool {
    &&& FIRST_SECOND <= secs <= LAST_SECOND
    &&& 0 <= nanos < SECOND
    &&& -DAY < offset < DAY
}

/// The nanoseconds of a clock reading, held below one second.
pub open spec fn clock_nanos(nanos: u32) -> u32 {
    if nanos < SECOND {
        nanos
    } else {
        (SECOND - 1) as u32
    }
}

/// An instant and the zone in which it was read: UTC itself, or a local zone
/// with its offset from UTC.
#[derive(Clone, Copy, Debug)]
pub struct Timestamp {
    secs: i64,
    nanos: u32,
    offset: i32,
    zone: TimeZone,
}

impl Timestamp {
    #[verifier::type_invariant]
    spec fn valid(self) -> bool {
        &&& is_instant(self.secs as int, self.nanos as int, self.offset as int)
        &&& self.zone is UTC ==> self.offset == 0
    }

    /// The kind of zone in which the instant was read.
    pub closed spec fn zone(self) -> TimeZone {
        self.zone
    }

    /// Seconds since 1970-01-01T00:00:00Z, leap seconds not counted.
    pub closed spec fn seconds(self) -> int {
        self.secs as int
    }

    /// Nanoseconds since the last full second.
    pub closed spec fn nanoseconds(self) -> int {
        self.nanos as int
    }

    /// Seconds that the local time is ahead of UTC.
    pub closed spec fn offset_seconds(self) -> int {
        self.offset as int
    }

    /// The instant `secs` seconds and `nanos` nanoseconds after the epoch, read
    /// in a local zone `offset` seconds east of UTC; `None` where the numbers
    /// fall outside what [`is_instant`] admits.
    pub fn new(secs: i64, nanos: u32, offset: i32) -> (r: Option<Timestamp>)
        ensures
            r is Some <==> is_instant(secs as int, nanos as int, offset as int),
            r matches Some(t) ==> t.seconds() == secs && t.nanoseconds() == nanos
                && t.offset_seconds() == offset && t.zone() is Local,
    {
        if FIRST_SECOND <= secs && secs <= LAST_SECOND && nanos < SECOND && -DAY < offset && offset
            < DAY {
            Some(Timestamp { secs, nanos, offset, zone: TimeZone::Local })
        } else {
            None
        }
    }

    /// The instant that a clock shows. A clock that counts a leap second
    /// shows a billion nanoseconds or more; such a reading is taken as the
    /// last nanosecond of the second.
    pub fn of_clock(secs: i64, nanos: u32, offset: i32) -> (r: Option<Timestamp>)
        ensures
            r is Some <==> is_instant(secs as int, clock_nanos(nanos) as int, offset as int),
            r matches Some(t) ==> t.seconds() == secs && t.nanoseconds() == clock_nanos(nanos)
                && t.offset_seconds() == offset && t.zone() is Local,
    {
        if nanos < SECOND {
            Timestamp::new(secs, nanos, offset)
        } else {
            Timestamp::new(secs, SECOND - 1, offset)
        }
    }

    /// The same instant, read in UTC.
    pub fn in_utc(&self) -> (r: Timestamp)
        ensures
            r.seconds() == self.seconds(),
            r.nanoseconds() == self.nanoseconds(),
            r.offset_seconds() == 0,
            r.zone() is UTC,
    {
        proof {
            use_type_invariant(self);
        }
        Timestamp { secs: self.secs, nanos: self.nanos, offset: 0, zone: TimeZone::UTC }
    }

    /// The same instant, read in the given kind of zone.
    pub fn in_zone(&self, zone: TimeZone) -> (r: Timestamp)
        ensures
            r.seconds() == self.seconds(),
            r.nanoseconds() == self.nanoseconds(),
            r.offset_seconds() == zone_offset(zone, self.offset_seconds()),
            r.zone() == shown_zone(zone, self.zone()),
    {
        match zone {
            TimeZone::UTC => self.in_utc(),
            TimeZone::Local => *self,
        }
    }
}

/// The offset in which a time is shown: none in UTC, that of the reading in
/// local time.
pub open spec fn zone_offset(zone: TimeZone, local: int) -> int {
    match zone {
        TimeZone::UTC => 0,
        TimeZone::Local => local,
    }
}

/// The kind of zone in which a time is shown: UTC where UTC is asked for, and
/// the zone of the reading otherwise.
pub open spec fn shown_zone(zone: TimeZone, read: TimeZone) -> TimeZone {
    match zone {
        TimeZone::UTC => TimeZone::UTC,
        TimeZone::Local => read,
    }
}

/// The RFC 2822 text of an instant, such as `Tue, 1 Jul 2003 10:52:37 +0200`.
pub uninterp spec fn rfc2822_text(secs: int, nanos: int, offset: int) -> Seq<char>;

/// The RFC 3339 text of an instant, such as `1996-12-19T16:39:57-08:00`, with
/// as many digits of the fraction as the instant needs.
pub uninterp spec fn rfc3339_text(secs: int, nanos: int, offset: int) -> Seq<char>;

/// The RFC 3339 text of an instant with a given number of fraction digits;
/// `use_z` writes `Z` for an offset of zero.
pub uninterp spec fn rfc3339_opts_text(
    secs: int,
    nanos: int,
    offset: int,
    seconds: SecondsFormat,
    use_z: bool,
) -> Seq<char>;

/// The text of an instant under a `strftime` pattern; `None` where the
/// pattern cannot be rendered. The kind of zone counts: a pattern that asks
/// for the name of the zone gets `UTC` in UTC and the offset in a local zone.
pub uninterp spec fn strftime_text(
    secs: int,
    nanos: int,
    offset: int,
    zone: TimeZone,
    pattern: Seq<char>,
) -> Option<Seq<char>>;

/// Writes an instant in RFC 2822.
///
/// Wraps `chrono::DateTime::to_rfc2822`. The instant is built with
/// `DateTime::from_timestamp` and `FixedOffset::east_opt`, which give a value
/// for every instant that `requires` admits. `to_rfc2822` panics where the
/// local year lies outside 0 to 9999, which `requires` leaves out. The
/// contract names the text.
#[verifier::external_body]
pub(crate) fn rfc2822(secs: i64, nanos: u32, offset: i32) -> (r: String)
    requires
        is_instant(secs as int, nanos as int, offset as int),
    ensures
        r@ == rfc2822_text(secs as int, nanos as int, offset as int),
{
    let zone = FixedOffset::east_opt(offset).unwrap();
    DateTime::from_timestamp(secs, nanos).unwrap().with_timezone(&zone).to_rfc2822()
}

/// Writes an instant in RFC 3339.
///
/// Wraps `chrono::DateTime::to_rfc3339`, on the instant built as for
/// [`rfc2822`]; the contract names the text.
#[verifier::external_body]
pub(crate) fn rfc3339(secs: i64, nanos: u32, offset: i32) -> (r: String)
    requires
        is_instant(secs as int, nanos as int, offset as int),
    ensures
        r@ == rfc3339_text(secs as int, nanos as int, offset as int),
{
    let zone = FixedOffset::east_opt(offset).unwrap();
    DateTime::from_timestamp(secs, nanos).unwrap().with_timezone(&zone).to_rfc3339()
}

/// Writes an instant in RFC 3339 with a chosen precision.
///
/// Wraps `chrono::DateTime::to_rfc3339_opts`, on the instant built as for
/// [`rfc2822`]. That function panics where the local time cannot be held,
/// which does not happen within four-digit years. The contract names the
/// text.
#[verifier::external_body]
pub(crate) fn rfc3339_opts(
    secs: i64,
    nanos: u32,
    offset: i32,
    seconds: SecondsFormat,
    use_z: bool,
) -> (r: String)
    requires
        is_instant(secs as int, nanos as int, offset as int),
    ensures
        r@ == rfc3339_opts_text(secs as int, nanos as int, offset as int, seconds, use_z),
{
    let zone = FixedOffset::east_opt(offset).unwrap();
    let seconds = match seconds {
        SecondsFormat::Secs => chrono::SecondsFormat::Secs,
        SecondsFormat::Millis => chrono::SecondsFormat::Millis,
        SecondsFormat::Micros => chrono::SecondsFormat::Micros,
        SecondsFormat::Nanos => chrono::SecondsFormat::Nanos,
        SecondsFormat::AutoSi => chrono::SecondsFormat::AutoSi,
    };
    DateTime::from_timestamp(secs, nanos).unwrap().with_timezone(&zone).to_rfc3339_opts(
        seconds,
        use_z,
    )
}

/// Writes an instant under a `strftime` pattern.
///
/// Wraps `chrono::DateTime::format` and the `Display` impl of what it
/// returns: on a time in UTC for an instant read in UTC, and on a time with
/// a fixed offset, built as for [`rfc2822`], for one read in a local zone.
/// That impl gives an error for a pattern that it cannot render, and the
/// error is met by writing into a string instead of calling `to_string`. The
/// contract names the text, or `None` for the error. It says that there is a
/// text for the two patterns of the pretty formats: they hold the specifiers
/// `%Y`, `%m`, `%d` and `%T` only, which chrono renders for every date and
/// time.
#[verifier::external_body]
pub(crate) fn strftime(secs: i64, nanos: u32, offset: i32, zone: TimeZone, pattern: &str) -> (r:
    Option<String>)
    requires
        is_instant(secs as int, nanos as int, offset as int),
    ensures
        match r {
            Some(t) => strftime_text(secs as int, nanos as int, offset as int, zone, pattern@)
                == Some(t@),
            None => strftime_text(secs as int, nanos as int, offset as int, zone, pattern@)
                is None,
        },
        pattern@ == "%T"@ || pattern@ == "%Y-%m-%d %T"@ ==> r is Some,
{
    let time = DateTime::from_timestamp(secs, nanos).unwrap();
    let shown = match zone {
        TimeZone::UTC => time.format(pattern),
        TimeZone::Local => time.with_timezone(&FixedOffset::east_opt(offset).unwrap()).format(
            pattern,
        ),
    };
    let mut text = String::new();
    match write!(text, "{}", shown) {
        Ok(()) => Some(text),
        Err(_) => None,
    }
}

/// Nanoseconds since the epoch, or zero where they do not fit in 64 bits.
pub open spec fn epoch_nanos(secs: int, nanos: int) -> int {
    let n = secs * 1_000_000_000 + nanos;
    if i64::MIN <= n <= i64::MAX {
        n
    } else {
        0
    }
}

/// The text of an instant, read in a zone of the given kind and offset, in
/// the given format. Where the time field is off, the text is that of the
/// epoch seconds.
pub open spec fn time_text(
    secs: int,
    nanos: int,
    offset: int,
    zone: TimeZone,
    format: TimeFormat,
) -> Option<Seq<char>> {
    match format {
        TimeFormat::Off => Some(signed_decimal(secs)),
        TimeFormat::EpochSeconds => Some(signed_decimal(secs)),
        TimeFormat::EpochMilliseconds => Some(signed_decimal(secs * 1000 + nanos / 1_000_000)),
        TimeFormat::EpochMicroseconds => Some(signed_decimal(secs * 1_000_000 + nanos / 1000)),
        TimeFormat::EpochNanoseconds => Some(signed_decimal(epoch_nanos(secs, nanos))),
        TimeFormat::RFC2822 => Some(rfc2822_text(secs, nanos, offset)),
        TimeFormat::RFC3339 => Some(rfc3339_text(secs, nanos, offset)),
        TimeFormat::RFC3339Options(seconds, use_z) => Some(
            rfc3339_opts_text(secs, nanos, offset, seconds, use_z),
        ),
        TimeFormat::PrettyTime => strftime_text(secs, nanos, offset, zone, "%T"@),
        TimeFormat::PrettyDateTime => strftime_text(secs, nanos, offset, zone, "%Y-%m-%d %T"@),
        TimeFormat::CustomFormat(pattern) => strftime_text(secs, nanos, offset, zone, pattern@),
    }
}

/// Convert a timestamp to String based on the TimeFormat
pub fn time_convert(now: &Timestamp, time: &TimeFormat) -> (r: Option<String>)
    ensures
        match r {
            Some(t) => time_text(
                now.seconds(),
                now.nanoseconds(),
                now.offset_seconds(),
                now.zone(),
                *time,
            ) == Some(t@),
            None => time_text(
                now.seconds(),
                now.nanoseconds(),
                now.offset_seconds(),
                now.zone(),
                *time,
            ) is None,
        },
        !(time is CustomFormat) ==> r is Some,
{
    proof {
        use_type_invariant(now);
    }
    let secs = now.secs;
    let nanos = now.nanos;
    let offset = now.offset;
    let zone = now.zone;
    match time {
        TimeFormat::Off => Some(i64_text(secs)),
        TimeFormat::EpochSeconds => Some(i64_text(secs)),
        TimeFormat::EpochMilliseconds => {
            let sub: i64 = (nanos / 1_000_000) as i64;
            Some(i64_text(secs * 1000 + sub))
        },
        TimeFormat::EpochMicroseconds => {
            let sub: i64 = (nanos / 1000) as i64;
            Some(i64_text(secs * 1_000_000 + sub))
        },
        TimeFormat::EpochNanoseconds => {
            let n: i128 = (secs as i128) * 1_000_000_000 + (nanos as i128);
            if n < (i64::MIN as i128) || n > (i64::MAX as i128) {
                Some(i64_text(0))
            } else {
                Some(i64_text(n as i64))
            }
        },
        TimeFormat::RFC2822 => Some(rfc2822(secs, nanos, offset)),
        TimeFormat::RFC3339 => Some(rfc3339(secs, nanos, offset)),
        TimeFormat::RFC3339Options(seconds, use_z) => Some(
            rfc3339_opts(secs, nanos, offset, *seconds, *use_z),
        ),
        TimeFormat::PrettyTime => strftime(secs, nanos, offset, zone, "%T"),
        TimeFormat::PrettyDateTime => strftime(secs, nanos, offset, zone, "%Y-%m-%d %T"),
        TimeFormat::CustomFormat(pattern) => strftime(secs, nanos, offset, zone, pattern),
    }
}

} // verus!
