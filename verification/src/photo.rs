//! Timestamp resolution: the best-available capture time of an image file.
//!
//! Resolution is a two-tier fallback. The first tier parses the file's bytes
//! as a metadata container and reads the original capture date; the second
//! tier converts the file's modification time to a UTC calendar time. Either
//! tier degrades gracefully: a malformed or metadata-free file falls through
//! to the next tier, and a file whose modification time cannot be read
//! resolves to nothing rather than failing.

use vstd::prelude::*;
use chrono::Datelike;
use chrono::Timelike;

verus! {

/// A fully specified point in time, interpreted as UTC.
#[derive(Clone, Copy, PartialEq, Eq, Structural, Debug)]
pub struct Timestamp {
    pub year: i32,
    pub month: u8,
    pub day: u8,
    pub hour: u8,
    pub minute: u8,
    pub second: u8,
}

/// Leap years of the proleptic Gregorian calendar.
pub open spec fn is_leap_year(y: int) -> bool {
    y % 4 == 0 && (y % 100 != 0 || y % 400 == 0)
}

/// The number of days of a month in the proleptic Gregorian calendar.
pub open spec fn days_in_month(y: int, m: int) -> int {
    if m == 2 {
        if is_leap_year(y) {
            29
        } else {
            28
        }
    } else if m == 4 || m == 6 || m == 9 || m == 11 {
        30
    } else {
        31
    }
}

/// A valid calendar date and time of day.
pub open spec fn valid_civil(y: int, mo: int, d: int, h: int, mi: int, s: int) -> bool {
    &&& 1 <= mo <= 12
    &&& 1 <= d <= days_in_month(y, mo)
    &&& 0 <= h < 24
    &&& 0 <= mi < 60
    &&& 0 <= s < 60
}

impl Timestamp {
    /// A timestamp is well formed when it denotes a valid calendar date
    /// and time of day.
    pub open spec fn wf(self) -> bool {
        valid_civil(
            self.year as int,
            self.month as int,
            self.day as int,
            self.hour as int,
            self.minute as int,
            self.second as int,
        )
    }
}

/// An ASCII decimal digit.
pub open spec fn is_ascii_digit(b: u8) -> bool {
    48 <= b <= 57
}

/// Whether `n` decimal digits stand at position `i`.
pub open spec fn digits_at(a: Seq<u8>, i: int, n: int) -> bool {
    forall|k: int| i <= k < i + n ==> is_ascii_digit(a[k])
}

/// The value of the two decimal digits at position `i`.
pub open spec fn dec2(a: Seq<u8>, i: int) -> int {
    (a[i] - 48) * 10 + (a[i + 1] - 48)
}

/// The value of the four decimal digits at position `i`.
pub open spec fn dec4(a: Seq<u8>, i: int) -> int {
    dec2(a, i) * 100 + dec2(a, i + 2)
}

/// The date and time fields encoded in a metadata date text: six decimal
/// fields in the fixed `YYYY:MM:DD HH:MM:SS` pattern (`:` is byte 58, space
/// is byte 32), with anything after the nineteenth byte ignored. Nothing when
/// the text is shorter, a delimiter is out of place, or a digit position
/// holds a non-digit. The fields are not checked for calendar validity here.
pub open spec fn spec_exif_datetime_fields(a: Seq<u8>) -> Option<(u16, u8, u8, u8, u8, u8)> {
    if a.len() < 19 {
        None
    } else if !(a[4] == 58 && a[7] == 58 && a[10] == 32 && a[13] == 58 && a[16] == 58) {
        None
    } else if !(digits_at(a, 0, 4) && digits_at(a, 5, 2) && digits_at(a, 8, 2) && digits_at(
        a,
        11,
        2,
    ) && digits_at(a, 14, 2) && digits_at(a, 17, 2)) {
        None
    } else {
        Some(
            (
                dec4(a, 0) as u16,
                dec2(a, 5) as u8,
                dec2(a, 8) as u8,
                dec2(a, 11) as u8,
                dec2(a, 14) as u8,
                dec2(a, 17) as u8,
            ),
        )
    }
}

/// The ASCII text of the original capture date stored in a metadata
/// container, as a function of the container's bytes: nothing when the bytes
/// are not a readable container, the container has no such field, or the
/// field holds no ASCII text.
pub uninterp spec fn exif_datetime_ascii(b: Seq<u8>) -> Option<Seq<u8>>;

/// The UTC calendar form (year, month, day, hour, minute, second) of a Unix
/// timestamp in seconds: nothing when the timestamp is outside the
/// representable calendar range.
pub uninterp spec fn utc_civil_from_secs(s: int) -> Option<(int, int, int, int, int, int)>;

/// Relies on `exif::Reader::read_from_container` and `exif::Exif::get_field`:
/// the first ASCII component of the primary `DateTimeOriginal` field is a
/// function of the container bytes alone, and is absent exactly when the
/// bytes do not parse as a container, the field is missing, or the field does
/// not hold ASCII text.
#[verifier::external_body]
fn exif_datetime_original_ascii(bytes: &Vec<u8>) -> (r: Option<Vec<u8>>)
    ensures
        match r {
            Some(a) => exif_datetime_ascii(bytes@) == Some(a@),
            None => exif_datetime_ascii(bytes@) is None,
        },
{
    let mut cur = std::io::Cursor::new(bytes.as_slice());
    let container = match exif::Reader::new().read_from_container(&mut cur) {
        Ok(c) => c,
        Err(_) => return None,
    };
    match container.get_field(exif::Tag::DateTimeOriginal, exif::In::PRIMARY) {
        Some(field) => match &field.value {
            exif::Value::Ascii(components) => components.first().cloned(),
            _ => None,
        },
        None => None,
    }
}

/// Relies on `exif::DateTime::from_ascii`: it parses the fixed
/// `YYYY:MM:DD HH:MM:SS` pattern, reading decimal digits at the six field
/// positions and the delimiters between them, and rejects anything else.
#[verifier::external_body]
fn parse_exif_datetime(a: &Vec<u8>) -> (r: Option<(u16, u8, u8, u8, u8, u8)>)
    ensures
        r == spec_exif_datetime_fields(a@),
{
    match exif::DateTime::from_ascii(a.as_slice()) {
        Ok(dt) => Some((dt.year, dt.month, dt.day, dt.hour, dt.minute, dt.second)),
        Err(_) => None,
    }
}

/// Relies on `chrono::DateTime::from_timestamp` and the `Datelike` and
/// `Timelike` accessors: the UTC calendar form of a Unix timestamp is a
/// function of the seconds alone, absent exactly when the timestamp is out of
/// chrono's range, and the accessors return a real calendar date and time
/// (month 1 to 12, a valid day of that month, hour 0 to 23, minute and
/// second 0 to 59).
#[verifier::external_body]
fn utc_civil_fields(secs: i64) -> (r: Option<(i32, u8, u8, u8, u8, u8)>)
    ensures
        match r {
            Some(f) => utc_civil_from_secs(secs as int) == Some(
                ((f.0 as int, f.1 as int, f.2 as int, f.3 as int, f.4 as int, f.5 as int)),
            ) && valid_civil(f.0 as int, f.1 as int, f.2 as int, f.3 as int, f.4 as int, f.5 as int),
            None => utc_civil_from_secs(secs as int) is None,
        },
{
    let dt = match chrono::DateTime::from_timestamp(secs, 0) {
        Some(dt) => dt,
        None => return None,
    };
    Some(
        (
            dt.year(),
            dt.month() as u8,
            dt.day() as u8,
            dt.hour() as u8,
            dt.minute() as u8,
            dt.second() as u8,
        ),
    )
}

/// The timestamp built from parsed date fields, when they form a valid
/// calendar date and time of day; nothing otherwise.
pub open spec fn spec_timestamp_from_fields(
    y: u16,
    mo: u8,
    d: u8,
    h: u8,
    mi: u8,
    s: u8,
) -> Option<Timestamp> {
    if valid_civil(y as int, mo as int, d as int, h as int, mi as int, s as int) {
        Some(Timestamp { year: y as i32, month: mo, day: d, hour: h, minute: mi, second: s })
    } else {
        None
    }
}

/// Builds a timestamp from parsed date fields, accepting exactly the valid
/// calendar dates and times of day.
pub fn timestamp_from_fields(y: u16, mo: u8, d: u8, h: u8, mi: u8, s: u8) -> (r: Option<Timestamp>)
    ensures
        r == spec_timestamp_from_fields(y, mo, d, h, mi, s),
        r matches Some(ts) ==> ts.wf(),
{
    if mo < 1 || mo > 12 {
        return None;
    }
    let dim: u8 = if mo == 2 {
        if y % 4 == 0 && (y % 100 != 0 || y % 400 == 0) {
            29
        } else {
            28
        }
    } else if mo == 4 || mo == 6 || mo == 9 || mo == 11 {
        30
    } else {
        31
    };
    assert(dim as int == days_in_month(y as int, mo as int));
    if d < 1 || d > dim {
        return None;
    }
    if h > 23 || mi > 59 || s > 59 {
        return None;
    }
    Some(Timestamp { year: y as i32, month: mo, day: d, hour: h, minute: mi, second: s })
}

/// The timestamp embedded in a file's bytes: the original capture date read
/// from the metadata container, when the container is readable, carries the
/// field, and the field parses to a valid calendar date and time.
pub open spec fn spec_embedded_timestamp(b: Seq<u8>) -> Option<Timestamp> {
    match exif_datetime_ascii(b) {
        Some(a) => match spec_exif_datetime_fields(a) {
            Some(f) => spec_timestamp_from_fields(f.0, f.1, f.2, f.3, f.4, f.5),
            None => None,
        },
        None => None,
    }
}

/// The timestamp a modification time converts to: the UTC calendar form of
/// the Unix timestamp, when it is representable.
pub open spec fn spec_mtime_timestamp(s: int) -> Option<Timestamp> {
    match utc_civil_from_secs(s) {
        Some(f) => Some(
            Timestamp {
                year: f.0 as i32,
                month: f.1 as u8,
                day: f.2 as u8,
                hour: f.3 as u8,
                minute: f.4 as u8,
                second: f.5 as u8,
            },
        ),
        None => None,
    }
}

/// Reads the original capture date embedded in a file's bytes, or nothing
/// when the bytes hold no parseable capture date. Never fails: a malformed
/// or metadata-free file is a normal input.
pub fn get_exif_datetime_original(bytes: &Vec<u8>) -> (r: Option<Timestamp>)
    ensures
        r == spec_embedded_timestamp(bytes@),
        r matches Some(ts) ==> ts.wf(),
{
    match exif_datetime_original_ascii(bytes) {
        Some(a) => match parse_exif_datetime(&a) {
            Some((y, mo, d, h, mi, s)) => timestamp_from_fields(y, mo, d, h, mi, s),
            None => None,
        },
        None => None,
    }
}

/// Converts a file's modification time, as Unix seconds, to a UTC timestamp,
/// or nothing when the time is outside the representable calendar range.
pub fn timestamp_from_unix_seconds(secs: i64) -> (r: Option<Timestamp>)
    ensures
        r == spec_mtime_timestamp(secs as int),
        r matches Some(ts) ==> ts.wf(),
{
    match utc_civil_fields(secs) {
        Some(f) => Some(
            Timestamp { year: f.0, month: f.1, day: f.2, hour: f.3, minute: f.4, second: f.5 },
        ),
        None => None,
    }
}

/// The view of optionally read file bytes.
pub open spec fn bytes_view(b: Option<Vec<u8>>) -> Option<Seq<u8>> {
    match b {
        Some(v) => Some(v@),
        None => None,
    }
}

/// The view of an optionally read modification time.
pub open spec fn opt_int(m: Option<i64>) -> Option<int> {
    match m {
        Some(s) => Some(s as int),
        None => None,
    }
}

/// The resolved timestamp of a file: the embedded capture date when the
/// file's bytes yield one; otherwise the converted modification time when
/// one was read and converts; otherwise nothing. The two tiers are strictly
/// ordered: the modification time is consulted only when the embedded tier
/// yields nothing.
pub open spec fn spec_resolve(bytes: Option<Seq<u8>>, mtime: Option<int>) -> Option<Timestamp> {
    let embedded = match bytes {
        Some(b) => spec_embedded_timestamp(b),
        None => None,
    };
    if embedded is Some {
        embedded
    } else {
        match mtime {
            Some(s) => spec_mtime_timestamp(s),
            None => None,
        }
    }
}

/// Resolves the best-available capture timestamp of a file. The caller hands
/// over what it read of the file: its bytes, when the file could be opened
/// and read, and its modification time as Unix seconds, when the filesystem
/// metadata could be read. Resolution never fails: at worst it yields
/// nothing.
pub fn get_shooting_datetime(bytes: &Option<Vec<u8>>, mtime_secs: Option<i64>) -> (r: Option<
    Timestamp,
>)
    ensures
        r == spec_resolve(bytes_view(*bytes), opt_int(mtime_secs)),
        r matches Some(ts) ==> ts.wf(),
{
    let embedded = match bytes {
        Some(b) => get_exif_datetime_original(b),
        None => None,
    };
    match embedded {
        Some(ts) => Some(ts),
        None => match mtime_secs {
            Some(s) => timestamp_from_unix_seconds(s),
            None => None,
        },
    }
}

/// Tier precedence: when the embedded metadata of a file's bytes yields a
/// timestamp, resolution returns exactly it, whatever the file's
/// modification time.
pub proof fn lemma_embedded_takes_precedence(b: Seq<u8>, m: Option<int>, ts: Timestamp)
    requires
        spec_embedded_timestamp(b) == Some(ts),
    ensures
        spec_resolve(Some(b), m) == Some(ts),
{
}

/// Fallback: when the file's bytes yield no embedded timestamp, or the file
/// could not be read, resolution returns the converted modification time.
pub proof fn lemma_falls_back_to_mtime(b: Option<Seq<u8>>, s: int)
    requires
        match b {
            Some(bb) => spec_embedded_timestamp(bb) is None,
            None => true,
        },
    ensures
        spec_resolve(b, Some(s)) == spec_mtime_timestamp(s),
{
}

/// Absence: a file that yields no embedded timestamp and whose modification
/// time could not be read — for one deleted between classification and
/// resolution, neither read succeeds — resolves to nothing, not to an error.
pub proof fn lemma_unreadable_resolves_absent(b: Option<Seq<u8>>)
    requires
        match b {
            Some(bb) => spec_embedded_timestamp(bb) is None,
            None => true,
        },
    ensures
        spec_resolve(b, None) is None,
{
}

/// Idempotence: two resolutions of the same unchanged file — the same bytes
/// and the same modification time — yield the same result.
pub proof fn lemma_resolution_idempotent(
    b: Option<Seq<u8>>,
    m: Option<int>,
    r1: Option<Timestamp>,
    r2: Option<Timestamp>,
)
    requires
        r1 == spec_resolve(b, m),
        r2 == spec_resolve(b, m),
    ensures
        r1 == r2,
{
}

} // verus!
