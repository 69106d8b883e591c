//! Rendering of timestamps as `YYYY-MM-DD` calendar dates in the local time
//! zone, as shown for the publish time of albums and the last update of
//! play lists.
use vstd::prelude::*;
use chrono::{Datelike, Local, TimeZone};
use crate::text::{decimal, push_padded_decimal, string_from_chars, zero_pad};

verus! {

/// The earliest millisecond timestamp that chrono turns into a date: the
/// first instant of -262143-01-01, UTC (`DateTime::from_timestamp_millis`
/// is `None` below it).
pub const MIN_TIMESTAMP_MILLIS: i64 = -8334601228800000i64;

/// The latest millisecond timestamp that chrono turns into a date
/// (the last millisecond of the year 262142, UTC; `None` above it).
pub const MAX_TIMESTAMP_MILLIS: i64 = 8210266876799999i64;

/// A local date of an instant is the UTC date of that instant, the day
/// before or the day after: no time zone moves a date further.
pub proof fn law_local_date_within_a_day(ms: int, date: (int, nat, nat))
    requires
        local_date_of(ms, date),
    ensures
        date == civil_from_days(ms / 86400000 - 1) || date == civil_from_days(ms / 86400000)
            || date == civil_from_days(ms / 86400000 + 1),
{
    let secs = choose|secs: int| -86400 < secs < 86400 && #[trigger] date_at_offset(ms, secs * 1000) == date;
    let dd: int = 86400000;
    let off = secs * 1000;
    let q = ms / dd;
    let r = ms % dd;
    vstd::arithmetic::div_mod::lemma_fundamental_div_mod(ms, dd);
    assert(0 <= r < dd);
    assert(ms == dd * q + r);
    assert(-dd < off < dd);
    if r + off < 0 {
        vstd::arithmetic::div_mod::lemma_fundamental_div_mod_converse(ms + off, dd, q - 1, r + off + dd);
    } else if r + off < dd {
        vstd::arithmetic::div_mod::lemma_fundamental_div_mod_converse(ms + off, dd, q, r + off);
    } else {
        vstd::arithmetic::div_mod::lemma_fundamental_div_mod_converse(ms + off, dd, q + 1, r + off - dd);
    }
}

/// chrono's `%Y`: the year with at least four digits; years outside
/// `0..=9999` carry an explicit sign.
pub open spec fn year_text(y: int) -> Seq<char> {
    if 0 <= y <= 9999 {
        zero_pad(decimal(y as nat), 4)
    } else if y > 9999 {
        seq!['+'] + zero_pad(decimal(y as nat), 4)
    } else {
        seq!['-'] + zero_pad(decimal((-y) as nat), 4)
    }
}

/// chrono's `%Y-%m-%d` for a calendar date.
pub open spec fn ymd_text(y: int, m: nat, d: nat) -> Seq<char> {
    year_text(y) + seq!['-'] + zero_pad(decimal(m), 2) + seq!['-'] + zero_pad(decimal(d), 2)
}

/// The proleptic Gregorian calendar date `(year, month, day)` of the day
/// `z` days after 1970-01-01 (before it for negative `z`).
pub open spec fn civil_from_days(z: int) -> (int, nat, nat) {
    let z = z + 719468;
    let era = z / 146097;
    let doe = z - era * 146097;
    let yoe = (doe - doe / 1460 + doe / 36524 - doe / 146096) / 365;
    let doy = doe - (365 * yoe + yoe / 4 - yoe / 100);
    let mp = (5 * doy + 2) / 153;
    let d = doy - (153 * mp + 2) / 5 + 1;
    let m = if mp < 10 {
        mp + 3
    } else {
        mp - 9
    };
    let y = yoe + era * 400 + (if m <= 2 {
        1int
    } else {
        0int
    });
    (y, m as nat, d as nat)
}

/// The calendar date of the instant `ms` milliseconds after the epoch,
/// seen at an offset of `off` milliseconds from UTC.
pub open spec fn date_at_offset(ms: int, off: int) -> (int, nat, nat) {
    civil_from_days((ms + off) / 86400000)
}

/// A date that the instant `ms` has somewhere: the instant shifted by a
/// whole number of seconds, less than a day either way (chrono's
/// `FixedOffset` holds whole seconds and admits only such offsets).
pub open spec fn local_date_of(ms: int, date: (int, nat, nat)) -> bool {
    exists|secs: int| -86400 < secs < 86400 && #[trigger] date_at_offset(ms, secs * 1000) == date
}

/// chrono's `Local.timestamp_millis_opt(ms).single()`, reduced to the year,
/// month and day of the local date. chrono returns a single date for every
/// timestamp in its range; the date depends on the machine's time zone,
/// which is why nothing ties the year to `ms` here. chrono documents the
/// month as 1 to 12 and the day as 1 to 31. chrono stops with a panic when
/// the machine's time zone data has no local time type for the instant;
/// that depends on the machine, not on `ms`, and is left unsaid.
#[verifier::external_body]
fn local_calendar_date(ms: i64) -> (r: Option<(i32, u32, u32)>)
    ensures
        MIN_TIMESTAMP_MILLIS <= ms <= MAX_TIMESTAMP_MILLIS ==> r is Some,
        r matches Some(t) ==> 1 <= t.1 <= 12 && 1 <= t.2 <= 31,
        r matches Some(t) ==> local_date_of(ms as int, (t.0 as int, t.1 as nat, t.2 as nat)),
{
    Local.timestamp_millis_opt(ms).single().map(|dt| (dt.year(), dt.month(), dt.day()))
}

/// Formats a calendar date the way chrono's `%Y-%m-%d` does.
pub fn format_ymd(year: i32, month: u32, day: u32) -> (s: String)
    ensures
        s@ == ymd_text(year as int, month as nat, day as nat),
{
    let mut out: Vec<char> = Vec::new();
    if 0 <= year && year <= 9999 {
        push_padded_decimal(year as u64, 4, &mut out);
    } else if year > 9999 {
        out.push('+');
        push_padded_decimal(year as u64, 4, &mut out);
    } else {
        out.push('-');
        let magnitude: u64 = (0i64 - (year as i64)) as u64;
        push_padded_decimal(magnitude, 4, &mut out);
    }
    assert(out@ =~= year_text(year as int));
    out.push('-');
    push_padded_decimal(month as u64, 2, &mut out);
    out.push('-');
    push_padded_decimal(day as u64, 2, &mut out);
    assert(out@ =~= ymd_text(year as int, month as nat, day as nat));
    string_from_chars(&out)
}

/// The local calendar date of a millisecond timestamp, as `YYYY-MM-DD`.
/// Which date comes out depends on the machine's time zone; whatever it is,
/// it is the date of the instant shifted by less than a day, written as
/// chrono's `%Y-%m-%d`.
pub fn getdate(timestamp_in_millis: i64) -> (s: String)
    requires
        MIN_TIMESTAMP_MILLIS <= timestamp_in_millis <= MAX_TIMESTAMP_MILLIS,
    ensures
        exists|y: int, m: nat, d: nat|
            1 <= m <= 12 && 1 <= d <= 31 && local_date_of(timestamp_in_millis as int, (y, m, d))
                && s@ == #[trigger] ymd_text(y, m, d),
{
    match local_calendar_date(timestamp_in_millis) {
        Some((y, m, d)) => {
            let s = format_ymd(y, m, d);
            assert(local_date_of(timestamp_in_millis as int, (y as int, m as nat, d as nat)));
            s
        },
        None => {
            assert(false);
            String::new()
        },
    }
}

} // verus!
