//! Points in time, and how long ago they were.

use vstd::prelude::*;
use crate::numbers::{decimal, parse_int};
use crate::text::chars_of;
#[allow(unused_imports)]
use crate::numbers::{decimal_of, parsed_int};

verus! {

/// The first second that a point in time can name: the start of the year -262143.
pub const FIRST_SECOND: i64 = -8334601228800;

/// The last second that a point in time can name: the end of the year 262142.
pub const LAST_SECOND: i64 = 8210266876799;

/// The seconds of a day.
pub const DAY: i64 = 86400;

/// A point in time: seconds since the start of 1970 in UTC, and nanoseconds into that second.
#[derive(Clone, Copy, Debug, PartialEq, Eq, Structural)]
pub struct UtcTime {
    pub secs: i64,
    pub nanos: u32,
}

/// Whether a number of seconds names a point in time.
pub open spec fn nameable(secs: int) -> bool {
    FIRST_SECOND <= secs <= LAST_SECOND
}

/// The point in time that a number of seconds names, where there is one.
pub open spec fn time_of(secs: i64) -> Option<UtcTime> {
    if nameable(secs as int) {
        Some(UtcTime { secs, nanos: 0 })
    } else {
        None
    }
}

/// The point in time that a number of seconds names, or else the start of 1970.
pub open spec fn time_or_epoch_of(secs: i64) -> UtcTime {
    if nameable(secs as int) {
        UtcTime { secs, nanos: 0 }
    } else {
        UtcTime { secs: 0, nanos: 0 }
    }
}

/// Calls `chrono::DateTime::from_timestamp` with no nanoseconds. Claimed of it: it refuses exactly
/// the seconds outside the years -262143 to 262142, and a time that it gives names the seconds it
/// was made of.
#[verifier::external_body]
pub(crate) fn from_timestamp(secs: i64) -> (r: Option<UtcTime>)
    ensures
        r == time_of(secs),
{
    match chrono::DateTime::from_timestamp(secs, 0) {
        Some(t) => Some(UtcTime { secs: t.timestamp(), nanos: t.timestamp_subsec_nanos() }),
        None => None,
    }
}

/// Whether the system clock can have given this time.
pub open spec fn clock_time(time: UtcTime) -> bool {
    0 <= time.secs <= LAST_SECOND && time.nanos < 1_000_000_000
}

/// Calls `chrono::Utc::now`. Claimed of it: a time that it gives is not before 1970, is one that a
/// point in time can name, and lies less than a full second into its second. Nothing is claimed of
/// which time it is. It does not return where the system clock stands before 1970 or after the
/// last nameable second.
#[verifier::external_body]
pub(crate) fn utc_now() -> (r: UtcTime)
    ensures
        clock_time(r),
{
    let t = chrono::Utc::now();
    UtcTime { secs: t.timestamp(), nanos: t.timestamp_subsec_nanos() }
}

/// The point in time that a number of seconds names, or else the start of 1970.
pub fn time_or_epoch(secs: i64) -> (r: UtcTime)
    ensures
        r == time_or_epoch_of(secs),
{
    match from_timestamp(secs) {
        Some(time) => time,
        None => UtcTime { secs: 0, nanos: 0 },
    }
}

/// The span of time that `std::time::Duration::new` makes of seconds and nanoseconds.
pub uninterp spec fn duration_of(secs: u64, nanos: u32) -> std::time::Duration;

/// `std::time::Duration::new`. Claimed of it: the span depends on the seconds and nanoseconds alone.
/// It panics where the whole seconds among the nanoseconds take the seconds beyond 64 bits.
pub assume_specification[ std::time::Duration::new ](secs: u64, nanos: u32) -> (r:
    std::time::Duration)
    requires
        secs + nanos / 1_000_000_000 <= u64::MAX,
    ensures
        r == duration_of(secs, nanos),
;

/// What a time filter makes of a value.
#[derive(Debug)]
pub enum Filtered {
    /// The text to show.
    Text(String),
    /// The value cannot be shown, for the reason given.
    Invalid(String),
    /// There is no text for this value: the span does not fit in 64 bits, or the format is not one.
    Unrepresentable,
}

/// What a time filter makes of a value, as characters.
pub enum FilteredView {
    Text(Seq<char>),
    Invalid(Seq<char>),
    Unrepresentable,
}

impl View for Filtered {
    type V = FilteredView;

    open spec fn view(&self) -> FilteredView {
        match *self {
            Filtered::Text(text) => FilteredView::Text(text@),
            Filtered::Invalid(reason) => FilteredView::Invalid(reason@),
            Filtered::Unrepresentable => FilteredView::Unrepresentable,
        }
    }
}

/// A template value, as far as a time can be read from it.
#[derive(Debug)]
pub enum TimeValue {
    Number(i64),
    Text(String),
    /// Neither a number nor a text, but a value of the named kind.
    Other(String),
}

/// The count and the unit that describe a span of seconds: the largest unit that fits, where a
/// month is thirty days and a year is 365, and how many whole units of it there are.
pub open spec fn span_parts(span: int) -> (int, Seq<char>) {
    if span < 60 {
        (span, "second"@)
    } else if span < 3600 {
        (span / 60, "minute"@)
    } else if span < 86400 {
        (span / 3600, "hour"@)
    } else if span < 2592000 {
        (span / 86400, "day"@)
    } else if span < 31536000 {
        (span / 2592000, "month"@)
    } else {
        (span / 31536000, "year"@)
    }
}

/// How long ago something was that lies `span` seconds back.
pub open spec fn ago_text(span: int) -> Seq<char> {
    if span < 0 {
        "in the future"@
    } else {
        let parts = span_parts(span);
        let plural: Seq<char> = if parts.0 == 1 {
            Seq::empty()
        } else {
            "s"@
        };
        decimal_of(parts.0) + " "@ + parts.1 + plural + " ago"@
    }
}

/// How long before `now` the time `timestamp` was.
pub fn ago(timestamp: i64, now: i64) -> (r: String)
    requires
        i64::MIN <= now - timestamp <= i64::MAX,
    ensures
        r@ == ago_text(now - timestamp),
{
    let span: i64 = now - timestamp;
    if span < 0 {
        return "in the future".to_string();
    }
    let amount: i64;
    let unit: &str;
    if span < 60 {
        amount = span;
        unit = "second";
    } else if span < 3600 {
        amount = span / 60;
        unit = "minute";
    } else if span < 86400 {
        amount = span / 3600;
        unit = "hour";
    } else if span < 2592000 {
        amount = span / 86400;
        unit = "day";
    } else if span < 31536000 {
        amount = span / 2592000;
        unit = "month";
    } else {
        amount = span / 31536000;
        unit = "year";
    }
    let mut r = decimal(amount);
    r.append(" ");
    r.append(unit);
    if amount != 1 {
        r.append("s");
    }
    r.append(" ago");
    proof {
        assert(r@ =~= ago_text(span as int));
    }
    r
}

/// What the relative time filter makes of `value` at the time `now`.
pub open spec fn timeago_result(value: TimeValue, now: int) -> FilteredView {
    let read: Option<int> = match value {
        TimeValue::Number(n) => Some(n as int),
        TimeValue::Text(text) => parsed_int(text@, 10),
        TimeValue::Other(_) => None,
    };
    match read {
        Some(timestamp) => if i64::MIN <= now - timestamp <= i64::MAX {
            FilteredView::Text(ago_text(now - timestamp))
        } else {
            FilteredView::Unrepresentable
        },
        None => match value {
            TimeValue::Other(kind) => FilteredView::Invalid(
                "Value is not a timestamp, got: "@ + kind@,
            ),
            _ => FilteredView::Invalid("Could not parse timestamp"@),
        },
    }
}

/// How long before `now` the time was that `value` gives in seconds.
pub fn timeago_at(value: &TimeValue, now: i64) -> (r: Filtered)
    ensures
        r@ == timeago_result(*value, now as int),
{
    let timestamp: i64 = match value {
        TimeValue::Number(n) => *n,
        TimeValue::Text(text) => match parse_int(&chars_of(text.as_str()), 10) {
            Some(n) => n,
            None => {
                return Filtered::Invalid("Could not parse timestamp".to_string());
            },
        },
        TimeValue::Other(kind) => {
            let mut reason = "Value is not a timestamp, got: ".to_string();
            reason.append(kind.as_str());
            return Filtered::Invalid(reason);
        },
    };
    match now.checked_sub(timestamp) {
        Some(_) => Filtered::Text(ago(timestamp, now)),
        None => Filtered::Unrepresentable,
    }
}

/// How long ago the time was that `value` gives in seconds.
pub fn timeago(value: &TimeValue) -> (r: Filtered)
    ensures
        exists|now: int| 0 <= now <= LAST_SECOND && r@ == #[trigger] timeago_result(*value, now),
{
    let now = utc_now();
    let r = timeago_at(value, now.secs);
    proof {
        assert(r@ == timeago_result(*value, now.secs as int));
    }
    r
}

/// The point in time, its nanoseconds and its offset from UTC in seconds that
/// `chrono::DateTime::parse_from_rfc3339` reads from a text.
pub uninterp spec fn rfc3339_time(text: Seq<char>) -> Option<(i64, u32, i32)>;

/// Calls `chrono::DateTime::parse_from_rfc3339`. Claimed of it: whether it reads a time, and which,
/// depends on the text alone.
#[verifier::external_body]
fn parse_rfc3339(text: &str) -> (r: Option<(i64, u32, i32)>)
    ensures
        r == rfc3339_time(text@),
{
    match chrono::DateTime::parse_from_rfc3339(text) {
        Ok(t) => Some(
            (t.timestamp(), t.timestamp_subsec_nanos(), t.offset().local_minus_utc()),
        ),
        Err(_) => None,
    }
}

/// The point in time and its nanoseconds that `DateTime<Utc>::from_str` of chrono reads from a
/// text.
pub uninterp spec fn relaxed_utc_time(text: Seq<char>) -> Option<(i64, u32)>;

/// Calls `<chrono::DateTime<chrono::Utc> as FromStr>::from_str`. Claimed of it: whether it reads a
/// time, and which, depends on the text alone.
#[verifier::external_body]
fn parse_utc(text: &str) -> (r: Option<(i64, u32)>)
    ensures
        r == relaxed_utc_time(text@),
{
    match text.parse::<chrono::DateTime<chrono::Utc>>() {
        Ok(t) => Some((t.timestamp(), t.timestamp_subsec_nanos())),
        Err(_) => None,
    }
}

/// What `chrono::DateTime<chrono::FixedOffset>::format` writes for a point in time, given by its
/// seconds, its nanoseconds and its offset from UTC in seconds.
pub uninterp spec fn strftime_fixed(secs: i64, nanos: u32, offset: i32, format: Seq<char>) -> Option<
    Seq<char>,
>;

/// Calls `chrono::DateTime<chrono::FixedOffset>::format` and writes what it gives. Claimed of it:
/// the text depends on the point in time, its offset and the format alone; there is none where
/// these name no point in time, or where the format is not one.
#[verifier::external_body]
fn format_fixed(secs: i64, nanos: u32, offset: i32, format: &str) -> (r: Option<String>)
    ensures
        (match r {
            Some(text) => strftime_fixed(secs, nanos, offset, format@) == Some(text@),
            None => strftime_fixed(secs, nanos, offset, format@) is None,
        }),
{
    let zone = chrono::FixedOffset::east_opt(offset)?;
    let time = chrono::DateTime::from_timestamp(secs, nanos)?.with_timezone(&zone);
    let mut text = String::new();
    time.format(format).write_to(&mut text).ok()?;
    Some(text)
}

/// What `chrono::DateTime<chrono::Utc>::format` writes for a point in time, given by its seconds
/// and nanoseconds.
pub uninterp spec fn strftime_utc(secs: i64, nanos: u32, format: Seq<char>) -> Option<Seq<char>>;

/// Calls `chrono::DateTime<chrono::Utc>::format` and writes what it gives. Claimed of it: the text
/// depends on the point in time and the format alone; there is none where the seconds and
/// nanoseconds name no point in time, or where the format is not one.
#[verifier::external_body]
fn format_utc(secs: i64, nanos: u32, format: &str) -> (r: Option<String>)
    ensures
        (match r {
            Some(text) => strftime_utc(secs, nanos, format@) == Some(text@),
            None => strftime_utc(secs, nanos, format@) is None,
        }),
{
    let time = chrono::DateTime::from_timestamp(secs, nanos)?;
    let mut text = String::new();
    time.format(format).write_to(&mut text).ok()?;
    Some(text)
}

/// A date as text that the date filter was able to read.
#[derive(Clone, Copy, Debug, PartialEq, Eq, Structural)]
pub enum ReadDate {
    /// A time with its offset from UTC in seconds.
    Fixed { secs: i64, nanos: u32, offset: i32 },
    /// A time in UTC.
    Utc { secs: i64, nanos: u32 },
}

/// The date that a text gives: an RFC 3339 date with its offset, or else a date in the relaxed
/// form of it, taken to UTC.
pub open spec fn date_of(text: Seq<char>) -> Option<ReadDate> {
    match rfc3339_time(text) {
        Some((secs, nanos, offset)) => Some(ReadDate::Fixed { secs, nanos, offset }),
        None => match relaxed_utc_time(text) {
            Some((secs, nanos)) => Some(ReadDate::Utc { secs, nanos }),
            None => None,
        },
    }
}

/// The date that a text gives.
pub fn read_date(text: &str) -> (r: Option<ReadDate>)
    ensures
        r == date_of(text@),
{
    match parse_rfc3339(text) {
        Some((secs, nanos, offset)) => Some(ReadDate::Fixed { secs, nanos, offset }),
        None => match parse_utc(text) {
            Some((secs, nanos)) => Some(ReadDate::Utc { secs, nanos }),
            None => None,
        },
    }
}

/// The text of a date in a format.
pub open spec fn date_text(date: ReadDate, format: Seq<char>) -> Option<Seq<char>> {
    match date {
        ReadDate::Fixed { secs, nanos, offset } => strftime_fixed(secs, nanos, offset, format),
        ReadDate::Utc { secs, nanos } => strftime_utc(secs, nanos, format),
    }
}

/// What the date filter makes of a text: `read` is the date that the text gives, `written` is that
/// date in the wanted format.
pub open spec fn strftime_result(
    is_text: bool,
    read: Option<ReadDate>,
    written: Option<Seq<char>>,
) -> FilteredView {
    if !is_text {
        FilteredView::Invalid("Value is not a datetime string"@)
    } else if read is None {
        FilteredView::Invalid("Could not parse datetime"@)
    } else {
        match written {
            Some(text) => FilteredView::Text(text),
            None => FilteredView::Unrepresentable,
        }
    }
}

/// What the date filter makes of a value, once its date has been read and written: `read` is none
/// for a value that is no text, and holds none for a text that gives no date.
pub fn strftime_outcome(read: Option<Option<ReadDate>>, written: Option<String>) -> (r: Filtered)
    ensures
        r@ == strftime_result(
            read is Some,
            (if read is Some {
                read->0
            } else {
                None
            }),
            (match written {
                Some(text) => Some(text@),
                None => None,
            }),
        ),
{
    match read {
        None => Filtered::Invalid("Value is not a datetime string".to_string()),
        Some(None) => Filtered::Invalid("Could not parse datetime".to_string()),
        Some(Some(_)) => match written {
            Some(text) => Filtered::Text(text),
            None => Filtered::Unrepresentable,
        },
    }
}

/// Shows the date that `value` gives in the format `format`; `value` is none where the template
/// value is no text.
pub fn strftime(value: Option<&str>, format: &str) -> (r: Filtered)
    ensures
        r@ == (match value {
            None => strftime_result(false, None, None),
            Some(text) => strftime_result(
                true,
                date_of(text@),
                (match date_of(text@) {
                    Some(date) => date_text(date, format@),
                    None => None,
                }),
            ),
        }),
{
    match value {
        None => strftime_outcome(None, None),
        Some(text) => {
            let read = read_date(text);
            let written = match read {
                None => None,
                Some(ReadDate::Fixed { secs, nanos, offset }) => format_fixed(
                    secs,
                    nanos,
                    offset,
                    format,
                ),
                Some(ReadDate::Utc { secs, nanos }) => format_utc(secs, nanos, format),
            };
            strftime_outcome(Some(read), written)
        },
    }
}

/// A number of seconds names a point in time from the start of the year -262143 to the end of the year
/// 262142, and that point is so many seconds from the start of 1970; others fall back to that start.
pub proof fn law_times_named(secs: i64)
    ensures
        -8334601228800 <= secs <= 8210266876799 ==> time_of(secs) == Some(time_or_epoch_of(secs))
            && time_or_epoch_of(secs).secs == secs,
        !(-8334601228800 <= secs <= 8210266876799) ==> time_of(secs) is None && time_or_epoch_of(
            secs,
        ).secs == 0,
        time_or_epoch_of(secs).nanos == 0,
{
}

/// A span is told in the largest unit that fits into it, by how many whole units fit: `amount` units
/// and a `rest` that is less than one more.
pub proof fn law_span_in_words(amount: int, rest: int)
    requires
        rest >= 0,
    ensures
        ({
            let tail = if amount == 1 {
                " ago"@
            } else {
                "s ago"@
            };
            &&& 0 <= amount < 60 ==> ago_text(amount) == decimal_of(amount) + " second"@ + tail
            &&& 0 < amount < 60 && rest < 60 ==> ago_text(amount * 60 + rest) == decimal_of(amount)
                + " minute"@ + tail
            &&& 0 < amount < 24 && rest < 60 * 60 ==> ago_text(amount * 60 * 60 + rest)
                == decimal_of(amount) + " hour"@ + tail
            &&& 0 < amount < 30 && rest < 24 * 60 * 60 ==> ago_text(amount * 24 * 60 * 60 + rest)
                == decimal_of(amount) + " day"@ + tail
            &&& 0 < amount && rest < 30 * 24 * 60 * 60 && amount * 30 * 24 * 60 * 60 + rest < 365
                * 24 * 60 * 60 ==> ago_text(amount * 30 * 24 * 60 * 60 + rest) == decimal_of(amount)
                + " month"@ + tail
            &&& 0 < amount && rest < 365 * 24 * 60 * 60 ==> ago_text(
                amount * 365 * 24 * 60 * 60 + rest,
            ) == decimal_of(amount) + " year"@ + tail
        }),
{
    reveal_strlit(" ");
    reveal_strlit("s");
    reveal_strlit(" ago");
    reveal_strlit("s ago");
    reveal_strlit("second");
    reveal_strlit(" second");
    reveal_strlit("minute");
    reveal_strlit(" minute");
    reveal_strlit("hour");
    reveal_strlit(" hour");
    reveal_strlit("day");
    reveal_strlit(" day");
    reveal_strlit("month");
    reveal_strlit(" month");
    reveal_strlit("year");
    reveal_strlit(" year");
    assert(" "@ + "second"@ =~= " second"@);
    assert(" "@ + "minute"@ =~= " minute"@);
    assert(" "@ + "hour"@ =~= " hour"@);
    assert(" "@ + "day"@ =~= " day"@);
    assert(" "@ + "month"@ =~= " month"@);
    assert(" "@ + "year"@ =~= " year"@);
    assert("s"@ + " ago"@ =~= "s ago"@);
    let number = decimal_of(amount);
    lemma_words(number, "second"@, amount == 1);
    lemma_words(number, "minute"@, amount == 1);
    lemma_words(number, "hour"@, amount == 1);
    lemma_words(number, "day"@, amount == 1);
    lemma_words(number, "month"@, amount == 1);
    lemma_words(number, "year"@, amount == 1);
}

proof fn lemma_words(number: Seq<char>, unit: Seq<char>, one: bool)
    ensures
        number + " "@ + unit + (if one {
            Seq::<char>::empty()
        } else {
            "s"@
        }) + " ago"@ == number + (" "@ + unit) + (if one {
            " ago"@
        } else {
            "s"@ + " ago"@
        }),
{
    assert(number + " "@ + unit + Seq::<char>::empty() + " ago"@ =~= number + (" "@ + unit)
        + " ago"@);
    assert(number + " "@ + unit + "s"@ + " ago"@ =~= number + (" "@ + unit) + ("s"@ + " ago"@));
}

/// What lies ahead is in the future, by however much.
pub proof fn law_ahead_is_in_the_future(span: int)
    requires
        span < 0,
    ensures
        ago_text(span) == "in the future"@,
{
}

/// A text that gives a number of seconds is shown as that number is; one that gives none and a value
/// of another kind are refused, with the kind told. From a clock after 1970 every time after it can
/// be shown.
pub proof fn law_relative_times(text: String, kind: String, secs: i64, now: int)
    ensures
        parsed_int(text@, 10) == Some(secs as int) ==> timeago_result(TimeValue::Text(text), now)
            == timeago_result(TimeValue::Number(secs), now),
        parsed_int(text@, 10) is None ==> timeago_result(TimeValue::Text(text), now)
            == FilteredView::Invalid("Could not parse timestamp"@),
        timeago_result(TimeValue::Other(kind), now) == FilteredView::Invalid(
            "Value is not a timestamp, got: "@ + kind@,
        ),
        0 <= secs && 0 <= now <= 8210266876799 ==> timeago_result(TimeValue::Number(secs), now)
            == FilteredView::Text(ago_text(now - secs)),
        -0x8000_0000_0000_0000 <= now - secs <= 0x7fff_ffff_ffff_ffff <==> timeago_result(
            TimeValue::Number(secs),
            now,
        ) is Text,
        now - secs > 0x7fff_ffff_ffff_ffff ==> timeago_result(TimeValue::Number(secs), now)
            == FilteredView::Unrepresentable,
{
}

/// A date keeps the offset that it was written with; only one that is no RFC 3339 date is read in the
/// relaxed form, and is then in UTC. What is read is written as it was read.
pub proof fn law_dates_keep_their_offset(text: Seq<char>, format: Seq<char>)
    ensures
        rfc3339_time(text) matches Some(time) ==> date_of(text) is Some && date_text(
            date_of(text)->0,
            format,
        ) == strftime_fixed(time.0, time.1, time.2, format),
        rfc3339_time(text) is None ==> (relaxed_utc_time(text) matches Some(time) ==> date_of(
            text,
        ) is Some && date_text(date_of(text)->0, format) == strftime_utc(time.0, time.1, format)),
        date_of(text) is None <==> rfc3339_time(text) is None && relaxed_utc_time(text) is None,
{
}

/// A value that is no text is refused, as is a text without a date; a date is shown as it was written
/// in the format, and where it could not be there is no text for it.
pub proof fn law_shown_dates(read: ReadDate, text: Seq<char>, written: Option<Seq<char>>)
    ensures
        strftime_result(false, None, None) == FilteredView::Invalid(
            "Value is not a datetime string"@,
        ),
        strftime_result(true, None, written) == FilteredView::Invalid("Could not parse datetime"@),
        strftime_result(true, Some(read), Some(text)) == FilteredView::Text(text),
        strftime_result(true, Some(read), None) == FilteredView::Unrepresentable,
{
}

} // verus!
