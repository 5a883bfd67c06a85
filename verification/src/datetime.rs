//! Publication dates: parsing the formats feeds use and carrying them
//! into the local time zone.
//!
//! The parsing is chrono's; the order in which the formats are tried,
//! and how a local time that a zone transition makes ambiguous or
//! missing is resolved, is this module's.

use vstd::prelude::*;
use crate::text::{trim, trim_seq};
use chrono::{NaiveDate, NaiveDateTime, TimeZone};
use crate::text::decimal;

verus! {

/// The display format of dates: `YYYY-MM-DD HH:MM:SS`, no offset.
pub const DISPLAY_DATETIME_FORMAT: &'static str = "%Y-%m-%d %H:%M:%S";

/// A point in time as the library reads it: its UNIX timestamp and its
/// rendering in the local zone in the display format.
pub struct LocalStamp {
    pub timestamp: i64,
    pub display: String,
}

/// How a wall-clock time maps into the local zone.
pub enum LocalChoice {
    /// One instant has that local time.
    Single(LocalStamp),
    /// A fold: two instants, earliest first.
    Ambiguous(LocalStamp, LocalStamp),
    /// A gap, or the zone could not be read.
    Missing,
}

/// A number written in decimal with zeros in front up to `w` digits.
pub open spec fn zero_padded(n: nat, w: nat) -> Seq<char> {
    if decimal(n).len() < w {
        Seq::new((w - decimal(n).len()) as nat, |i: int| '0') + decimal(n)
    } else {
        decimal(n)
    }
}

/// A year as `%Y` writes it: four digits from 0 to 9999, otherwise a
/// sign and at least four digits.
pub open spec fn year_text(y: int) -> Seq<char> {
    if 0 <= y <= 9999 {
        zero_padded(y as nat, 4)
    } else if y > 9999 {
        "+"@ + zero_padded(y as nat, 4)
    } else {
        "-"@ + zero_padded((-y) as nat, 4)
    }
}

/// A date and time written in the display format.
pub open spec fn display_of(y: int, mo: nat, d: nat, h: nat, mi: nat, sec: nat) -> Seq<char> {
    year_text(y) + "-"@ + zero_padded(mo, 2) + "-"@ + zero_padded(d, 2) + " "@ + zero_padded(h, 2) + ":"@
        + zero_padded(mi, 2) + ":"@ + zero_padded(sec, 2)
}

/// Whether a text is a date and time in the display format: year, month
/// (1 to 12), day (1 to 31), hour, minute and second (60 for a leap
/// second), with the month and the time fields two digits each.
pub open spec fn is_display(t: Seq<char>) -> bool {
    exists|y: int, mo: nat, d: nat, h: nat, mi: nat, sec: nat|
        1 <= mo <= 12 && 1 <= d <= 31 && h <= 23 && mi <= 59 && sec <= 60 && t == #[trigger] display_of(
            y,
            mo,
            d,
            h,
            mi,
            sec,
        )
}

/// The instant of an RFC 3339 date-time, when the text is one.
pub uninterp spec fn rfc3339_instant(s: Seq<char>) -> Option<i64>;

/// The instant of an RFC 2822 date-time, when the text is one.
pub uninterp spec fn rfc2822_instant(s: Seq<char>) -> Option<i64>;

/// Whether chrono reads the text as a date-time without offset in the format.
pub uninterp spec fn naive_datetime_accepts(s: Seq<char>, fmt: Seq<char>) -> bool;

/// The date-time that chrono reads in the text in the format, written in
/// the display format.
pub uninterp spec fn naive_wall(s: Seq<char>, fmt: Seq<char>) -> Seq<char>;

/// Whether chrono reads the text as a date in the format.
pub uninterp spec fn naive_date_accepts(s: Seq<char>, fmt: Seq<char>) -> bool;

/// The date that chrono reads in the text in the format, at the time of
/// day `h:mi:sec`, written in the display format.
pub uninterp spec fn date_wall(s: Seq<char>, fmt: Seq<char>, h: u32, mi: u32, sec: u32) -> Seq<char>;

/// The display format, as a sequence of characters.
pub open spec fn display_format() -> Seq<char> {
    "%Y-%m-%d %H:%M:%S"@
}

/// Whether every instant of a local-time choice is displayed as `w`.
pub open spec fn choice_shows(c: LocalChoice, w: Seq<char>) -> bool {
    match c {
        LocalChoice::Single(a) => a.display@ == w,
        LocalChoice::Ambiguous(a, b) => a.display@ == w && b.display@ == w,
        LocalChoice::Missing => true,
    }
}

/// `DateTime::parse_from_rfc3339`, then `with_timezone(&Local)`, read as a
/// timestamp and the local time formatted with `out`, the display format.
/// Whether the text parses, and the instant it names, depend on the text
/// alone; the display string is in the display format, and which local
/// time it shows depends on the machine's zone and is left unsaid.
#[verifier::external_body]
fn rfc3339_in_local_zone(s: &str, out: &str) -> (r: Option<LocalStamp>)
    requires
        out@ == display_format(),
    ensures
        (r is Some) == (rfc3339_instant(s@) is Some),
        r matches Some(st) ==> rfc3339_instant(s@) == Some(st.timestamp) && is_display(st.display@),
{
    chrono::DateTime::parse_from_rfc3339(s).ok().map(|dt| {
        let local = dt.with_timezone(&chrono::Local);
        LocalStamp { timestamp: local.timestamp(), display: local.format(out).to_string() }
    })
}

/// `DateTime::parse_from_rfc2822`, then `with_timezone(&Local)`, read as a
/// timestamp and the local time formatted with `out`, the display format.
/// Whether the text parses, and the instant it names, depend on the text
/// alone; the display string is in the display format, and which local
/// time it shows depends on the machine's zone and is left unsaid.
#[verifier::external_body]
fn rfc2822_in_local_zone(s: &str, out: &str) -> (r: Option<LocalStamp>)
    requires
        out@ == display_format(),
    ensures
        (r is Some) == (rfc2822_instant(s@) is Some),
        r matches Some(st) ==> rfc2822_instant(s@) == Some(st.timestamp) && is_display(st.display@),
{
    chrono::DateTime::parse_from_rfc2822(s).ok().map(|dt| {
        let local = dt.with_timezone(&chrono::Local);
        LocalStamp { timestamp: local.timestamp(), display: local.format(out).to_string() }
    })
}

/// `NaiveDateTime::parse_from_str`, then `Local.from_local_datetime`: the
/// date-time without offset in the text, placed in the machine's zone,
/// each instant formatted with `out`, the display format. It parses
/// exactly when chrono accepts the text in the format; every instant found
/// has that wall-clock time, so it is displayed as the parsed date-time.
/// Whether the zone has one instant, two or none for it depends on the
/// zone and is left unsaid, as are the timestamps.
#[verifier::external_body]
fn naive_in_local_zone(s: &str, fmt: &str, out: &str) -> (r: Option<LocalChoice>)
    requires
        out@ == display_format(),
    ensures
        (r is Some) == naive_datetime_accepts(s@, fmt@),
        r matches Some(c) ==> is_display(naive_wall(s@, fmt@)) && choice_shows(c, naive_wall(s@, fmt@)),
{
    let stamp = |d: chrono::DateTime<chrono::Local>| LocalStamp {
        timestamp: d.timestamp(),
        display: d.format(out).to_string(),
    };
    NaiveDateTime::parse_from_str(s, fmt).ok().map(|n| match chrono::Local.from_local_datetime(&n) {
        chrono::LocalResult::Single(a) => LocalChoice::Single(stamp(a)),
        chrono::LocalResult::Ambiguous(a, b) => LocalChoice::Ambiguous(stamp(a), stamp(b)),
        chrono::LocalResult::None => LocalChoice::Missing,
    })
}

/// `NaiveDate::parse_from_str`, then `and_hms_opt(h, mi, sec)` and
/// `Local.from_local_datetime`: the date in the text at that time of day,
/// placed in the machine's zone, each instant formatted with `out`, the
/// display format. It parses exactly when chrono accepts the text in the
/// format (the time of day is a valid one); every instant found is
/// displayed as that date and time. Whether the zone has one instant, two
/// or none for it, and the timestamps, are left unsaid.
#[verifier::external_body]
fn date_in_local_zone(s: &str, fmt: &str, h: u32, mi: u32, sec: u32, out: &str) -> (r: Option<LocalChoice>)
    requires
        h <= 23 && mi <= 59 && sec <= 59,
        out@ == display_format(),
    ensures
        (r is Some) == naive_date_accepts(s@, fmt@),
        r matches Some(c) ==> is_display(date_wall(s@, fmt@, h, mi, sec)) && choice_shows(
            c,
            date_wall(s@, fmt@, h, mi, sec),
        ),
{
    let stamp = |d: chrono::DateTime<chrono::Local>| LocalStamp {
        timestamp: d.timestamp(),
        display: d.format(out).to_string(),
    };
    NaiveDate::parse_from_str(s, fmt).ok().and_then(|d| d.and_hms_opt(h, mi, sec)).map(|n| match chrono::Local.from_local_datetime(&n) {
        chrono::LocalResult::Single(a) => LocalChoice::Single(stamp(a)),
        chrono::LocalResult::Ambiguous(a, b) => LocalChoice::Ambiguous(stamp(a), stamp(b)),
        chrono::LocalResult::None => LocalChoice::Missing,
    })
}

/// The instant a wall-clock time stands for: the only one, or the
/// earliest of two; none in a gap.
pub open spec fn resolved(c: LocalChoice) -> Option<LocalStamp> {
    match c {
        LocalChoice::Single(a) => Some(a),
        LocalChoice::Ambiguous(a, _) => Some(a),
        LocalChoice::Missing => None,
    }
}

/// `single()`, falling back to `earliest()`.
pub fn resolve_local(c: LocalChoice) -> (r: Option<LocalStamp>)
    ensures
        r == resolved(c),
{
    match c {
        LocalChoice::Single(a) => Some(a),
        LocalChoice::Ambiguous(a, _) => Some(a),
        LocalChoice::Missing => None,
    }
}

/// The instant a format's reading stands for: none where the format does
/// not read the text or the zone skips its local time.
pub open spec fn local_of(o: Option<LocalChoice>) -> Option<LocalStamp> {
    match o {
        Some(c) => resolved(c),
        None => None,
    }
}

/// The first of the three readings, in order, that gives an instant;
/// none when none does.
pub open spec fn first_local(a: Option<LocalChoice>, b: Option<LocalChoice>, c: Option<LocalChoice>) -> Option<
    LocalStamp,
> {
    if local_of(a) is Some {
        local_of(a)
    } else if local_of(b) is Some {
        local_of(b)
    } else {
        local_of(c)
    }
}

/// The fallback over the formats without offset: the first format that
/// reads the text and whose local time exists in the zone gives its
/// instant; none when no format does.
pub fn first_local_stamp(a: Option<LocalChoice>, b: Option<LocalChoice>, c: Option<LocalChoice>) -> (r: Option<
    LocalStamp,
>)
    ensures
        r == first_local(a, b, c),
{
    if let Some(x) = a {
        if let Some(st) = resolve_local(x) {
            return Some(st);
        }
    }
    if let Some(x) = b {
        if let Some(st) = resolve_local(x) {
            return Some(st);
        }
    }
    match c {
        Some(x) => resolve_local(x),
        None => None,
    }
}

/// Whether any of the formats without offset reads the text.
pub open spec fn naive_formats_accept(t: Seq<char>) -> bool {
    ||| naive_datetime_accepts(t, "%Y-%m-%d %H:%M:%S"@)
    ||| naive_datetime_accepts(t, "%Y-%m-%d %H:%M"@)
    ||| naive_date_accepts(t, "%Y-%m-%d"@)
}

/// Whether `s` is the wall-clock display of the text read in one of the
/// formats without offset that accept it.
pub open spec fn shown_as(t: Seq<char>, s: Seq<char>) -> bool {
    ||| (naive_datetime_accepts(t, "%Y-%m-%d %H:%M:%S"@) && s == naive_wall(t, "%Y-%m-%d %H:%M:%S"@))
    ||| (naive_datetime_accepts(t, "%Y-%m-%d %H:%M"@) && s == naive_wall(t, "%Y-%m-%d %H:%M"@))
    ||| (naive_date_accepts(t, "%Y-%m-%d"@) && s == date_wall(t, "%Y-%m-%d"@, 0, 0, 0))
}

/// Whether `a`, `b` and `c` are what placing the text in the machine's
/// zone can give, read as `%Y-%m-%d %H:%M:%S`, as `%Y-%m-%d %H:%M`, and as
/// a bare `%Y-%m-%d` at midnight: a reading exactly where the format reads
/// the text, each instant of it showing the text's wall-clock time.
pub open spec fn zone_readings(t: Seq<char>, a: Option<LocalChoice>, b: Option<LocalChoice>, c: Option<LocalChoice>) -> bool {
    &&& (a is Some) == naive_datetime_accepts(t, "%Y-%m-%d %H:%M:%S"@)
    &&& (a matches Some(x) ==> choice_shows(x, naive_wall(t, "%Y-%m-%d %H:%M:%S"@)))
    &&& (b is Some) == naive_datetime_accepts(t, "%Y-%m-%d %H:%M"@)
    &&& (b matches Some(x) ==> choice_shows(x, naive_wall(t, "%Y-%m-%d %H:%M"@)))
    &&& (c is Some) == naive_date_accepts(t, "%Y-%m-%d"@)
    &&& (c matches Some(x) ==> choice_shows(x, date_wall(t, "%Y-%m-%d"@, 0, 0, 0)))
}

/// What holds of a display text for the trimmed text `t`, in any zone:
/// it is in the display format; for a date-time without offset it is the
/// wall-clock time read from the text.
pub open spec fn display_for(t: Seq<char>, s: Seq<char>) -> bool {
    &&& is_display(s)
    &&& (rfc3339_instant(t) is None && rfc2822_instant(t) is None ==> shown_as(t, s))
}

/// What holds of the parsed date for the trimmed text `t`, in any zone:
/// empty text gives nothing; an RFC 3339 or RFC 2822 date-time, tried in
/// that order, gives its instant; otherwise the first format without
/// offset that reads the text and whose local time the zone has gives its
/// instant, and nothing when none does.
pub open spec fn stamp_outcome(t: Seq<char>, r: Option<LocalStamp>) -> bool {
    &&& (r matches Some(st) ==> display_for(t, st.display@))
    &&& if t.len() == 0 {
        r is None
    } else if rfc3339_instant(t) is Some {
        r matches Some(st) && rfc3339_instant(t) == Some(st.timestamp)
    } else if rfc2822_instant(t) is Some {
        r matches Some(st) && rfc2822_instant(t) == Some(st.timestamp)
    } else {
        exists|a: Option<LocalChoice>, b: Option<LocalChoice>, c: Option<LocalChoice>|
            #[trigger] zone_readings(t, a, b, c) && r == first_local(a, b, c)
    }
}

/// Parses a date in the first format that reads it, after trimming:
/// RFC 3339, RFC 2822, `%Y-%m-%d %H:%M:%S`, `%Y-%m-%d %H:%M` (both in the
/// local zone), then a bare `%Y-%m-%d` at local midnight.
pub fn parse_datetime_to_local(input: &str) -> (r: Option<LocalStamp>)
    ensures
        stamp_outcome(trim_seq(input@), r),
{
    let s = trim(input);
    let t = s.as_str();
    if t.is_empty() {
        return None;
    }
    if let Some(st) = rfc3339_in_local_zone(t, DISPLAY_DATETIME_FORMAT) {
        return Some(st);
    }
    if let Some(st) = rfc2822_in_local_zone(t, DISPLAY_DATETIME_FORMAT) {
        return Some(st);
    }
    let a = naive_in_local_zone(t, "%Y-%m-%d %H:%M:%S", DISPLAY_DATETIME_FORMAT);
    let b = naive_in_local_zone(t, "%Y-%m-%d %H:%M", DISPLAY_DATETIME_FORMAT);
    let c = date_in_local_zone(t, "%Y-%m-%d", 0, 0, 0, DISPLAY_DATETIME_FORMAT);
    let r = first_local_stamp(a, b, c);
    assert(zone_readings(t@, a, b, c));
    r
}

/// What holds of the displayed date for the trimmed text `t`, in any zone:
/// as [`stamp_outcome`], taking the instant's display.
pub open spec fn display_outcome(t: Seq<char>, r: Option<String>) -> bool {
    &&& (r matches Some(s) ==> display_for(t, s@))
    &&& if t.len() == 0 {
        r is None
    } else if rfc3339_instant(t) is Some || rfc2822_instant(t) is Some {
        r is Some
    } else {
        exists|a: Option<LocalChoice>, b: Option<LocalChoice>, c: Option<LocalChoice>|
            #[trigger] zone_readings(t, a, b, c) && (r is Some) == (first_local(a, b, c) is Some) && (r matches Some(
                s,
            ) ==> s == first_local(a, b, c)->0.display)
    }
}

/// What holds of the sort key for the trimmed text `t`, in any zone: as
/// [`stamp_outcome`], taking the instant's timestamp.
pub open spec fn key_outcome(t: Seq<char>, r: Option<i64>) -> bool {
    if t.len() == 0 {
        r is None
    } else if rfc3339_instant(t) is Some {
        r == rfc3339_instant(t)
    } else if rfc2822_instant(t) is Some {
        r == rfc2822_instant(t)
    } else {
        exists|a: Option<LocalChoice>, b: Option<LocalChoice>, c: Option<LocalChoice>|
            #[trigger] zone_readings(t, a, b, c) && (r is Some) == (first_local(a, b, c) is Some) && (r matches Some(
                k,
            ) ==> k == first_local(a, b, c)->0.timestamp)
    }
}

/// A date rendered as `YYYY-MM-DD HH:MM:SS` in the local zone.
pub fn normalize_datetime_to_local(input: &str) -> (r: Option<String>)
    ensures
        display_outcome(trim_seq(input@), r),
{
    match parse_datetime_to_local(input) {
        Some(st) => Some(st.display),
        None => None,
    }
}

/// The UNIX timestamp of a date, used to order articles.
pub fn datetime_sort_key(input: Option<&str>) -> (r: Option<i64>)
    ensures
        input is None ==> r is None,
        input matches Some(s) ==> key_outcome(trim_seq(s@), r),
{
    match input {
        None => None,
        Some(s) => match parse_datetime_to_local(s) {
            Some(st) => Some(st.timestamp),
            None => None,
        },
    }
}

/// A feed's raw date text made into a display date; blank text gives none.
pub fn normalize_optional_datetime(input: &str) -> (r: Option<String>)
    ensures
        display_outcome(trim_seq(input@), r),
{
    let trimmed = trim(input);
    if trimmed.as_str().is_empty() {
        None
    } else {
        let r = normalize_datetime_to_local(trimmed.as_str());
        proof {
            crate::text::lemma_trim_idempotent(input@);
        }
        r
    }
}

} // verus!
