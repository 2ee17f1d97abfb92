//! The Asia/Taipei budget month of an instant: its `YYYY-MM` key and the instant the next month
//! starts. Taiwan keeps a fixed +08:00 offset.

use chrono::{DateTime, Datelike, FixedOffset, TimeZone};
use vstd::prelude::*;

use crate::text::{decimal, push_str, to_owned_string, u64_to_decimal};

verus! {

/// The Asia/Taipei offset from UTC, in seconds.
pub const TAIPEI_OFFSET_SECS: i32 = 28800;

/// Days from 1970-01-01 to the proleptic Gregorian date `y-m-d` (negative before it).
pub open spec fn days_from_civil(y: int, m: int, d: int) -> int {
    let y2 = if m <= 2 {
        y - 1
    } else {
        y
    };
    let era = y2 / 400;
    let yoe = y2 - era * 400;
    let mp = if m > 2 {
        m - 3
    } else {
        m + 9
    };
    let doy = (153 * mp + 2) / 5 + d - 1;
    let doe = yoe * 365 + yoe / 4 - yoe / 100 + doy;
    era * 146097 + doe - 719468
}

/// The proleptic Gregorian `(year, month)` of the day `z` days after 1970-01-01.
pub open spec fn civil_year_month(z: int) -> (int, int) {
    let z2 = z + 719468;
    let era = z2 / 146097;
    let doe = z2 - era * 146097;
    let yoe = (doe - doe / 1460 + doe / 36524 - doe / 146096) / 365;
    let doy = doe - (365 * yoe + yoe / 4 - yoe / 100);
    let mp = (5 * doy + 2) / 153;
    let m = if mp < 10 {
        mp + 3
    } else {
        mp - 9
    };
    (
        if m <= 2 {
            yoe + era * 400 + 1
        } else {
            yoe + era * 400
        },
        m,
    )
}

/// The local day (days since 1970-01-01, floored) of a UTC instant in milliseconds shown at a
/// fixed offset in seconds.
pub open spec fn local_day(now_ms: int, offset_secs: int) -> int {
    (now_ms + offset_secs * 1000) / 86_400_000
}

/// The local `(year, month)` of a UTC instant (milliseconds since the epoch) at a fixed offset,
/// or `None` when chrono cannot represent the instant or offset.
pub uninterp spec fn local_calendar(now_ms: i64, offset_secs: i32) -> Option<(i32, u32)>;

/// The calendar year and month of `now_ms` at the fixed offset, as chrono computes them
/// (`DateTime::from_timestamp_millis`, `with_timezone`, `year`, `month`). chrono's calendar is the
/// proleptic Gregorian one, so a result is the civil month of the local day; an offset under a
/// day and an instant within about 190,000 years of the epoch are inside chrono's range (its
/// years run to about ±262,000), so those always give a result.
#[verifier::external_body]
fn local_year_month(now_ms: i64, offset_secs: i32) -> (r: Option<(i32, u32)>)
    ensures
        r == local_calendar(now_ms, offset_secs),
        r matches Some((y, m)) ==> 1 <= m <= 12 && (y as int, m as int) == civil_year_month(
            local_day(now_ms as int, offset_secs as int),
        ),
        -86_400 < offset_secs < 86_400 && -6_000_000_000_000_000 <= now_ms
            <= 6_000_000_000_000_000 ==> r is Some,
{
    let tz = match FixedOffset::east_opt(offset_secs) {
        Some(tz) => tz,
        None => return None,
    };
    match DateTime::from_timestamp_millis(now_ms) {
        Some(t) => {
            let local = t.with_timezone(&tz);
            Some((local.year(), local.month()))
        },
        None => None,
    }
}

/// The UTC instant (milliseconds) of local midnight on the first of `year`-`month` at a fixed
/// offset, or `None` when chrono cannot represent it.
pub uninterp spec fn local_month_start(year: i32, month: u32, offset_secs: i32) -> Option<i64>;

/// The first-of-month local midnight as a UTC instant, as chrono computes it
/// (`with_ymd_and_hms(year, month, 1, 0, 0, 0).single()`, `timestamp_millis`): local midnight of
/// the civil date, less the offset. A valid month of a year within 200,000 of year 0 at an offset
/// under a day is inside chrono's range, so it always gives a result.
#[verifier::external_body]
fn month_start_ms(year: i32, month: u32, offset_secs: i32) -> (r: Option<i64>)
    ensures
        r == local_month_start(year, month, offset_secs),
        r matches Some(t) ==> t == (days_from_civil(year as int, month as int, 1) * 86_400
            - offset_secs) * 1000,
        1 <= month <= 12 && -200_000 <= year <= 200_000 && -86_400 < offset_secs < 86_400
            ==> r is Some,
{
    let tz = match FixedOffset::east_opt(offset_secs) {
        Some(tz) => tz,
        None => return None,
    };
    match tz.with_ymd_and_hms(year, month, 1, 0, 0, 0).single() {
        Some(d) => Some(d.timestamp_millis()),
        None => None,
    }
}

/// `d` left-padded with `0` to at least `width` characters.
pub open spec fn zero_padded(d: Seq<char>, width: nat) -> Seq<char> {
    if d.len() >= width {
        d
    } else {
        Seq::new((width - d.len()) as nat, |i: int| '0') + d
    }
}

/// A year as `{:04}` formats a signed integer: zero-padded to four characters, the sign counted.
pub open spec fn year_text(y: int) -> Seq<char> {
    if y >= 0 {
        zero_padded(decimal(y as nat), 4)
    } else {
        seq!['-'] + zero_padded(decimal((-y) as nat), 3)
    }
}

/// The `YYYY-MM` key of a calendar month.
pub open spec fn month_key_text(y: int, m: nat) -> Seq<char> {
    year_text(y) + seq!['-'] + zero_padded(decimal(m), 2)
}

/// Appends `d` left-padded with zeros to `width` characters.
fn push_padded(out: &mut String, d: &str, width: usize)
    ensures
        final(out)@ == old(out)@ + zero_padded(d@, width as nat),
{
    let n = crate::text::chars_vec(d).len();
    let ghost start = out@;
    if n < width {
        let mut k: usize = n;
        while k < width
            invariant
                n <= k <= width,
                out@ == start + Seq::new((k - n) as nat, |i: int| '0'),
            decreases width - k,
        {
            out.push('0');
            assert(out@ =~= start + Seq::new((k + 1 - n) as nat, |i: int| '0'));
            k += 1;
        }
    }
    push_str(out, d);
    assert(out@ =~= start + zero_padded(d@, width as nat));
}

/// The Asia/Taipei month key (`YYYY-MM`) of a UTC instant in milliseconds; `None` when chrono
/// cannot represent the instant.
pub fn taipei_month_key(now_ms: i64) -> (r: Option<String>)
    ensures
        match local_calendar(now_ms, TAIPEI_OFFSET_SECS) {
            Some((y, m)) => r matches Some(k) && k@ == month_key_text(y as int, m as nat),
            None => r is None,
        },
{
    match local_year_month(now_ms, TAIPEI_OFFSET_SECS) {
        None => None,
        Some((y, m)) => {
            let mut out = String::new();
            if y >= 0 {
                let d = u64_to_decimal(y as u64);
                push_padded(&mut out, d.as_str(), 4);
            } else {
                out.push('-');
                let d = u64_to_decimal((-(y as i64)) as u64);
                push_padded(&mut out, d.as_str(), 3);
            }
            out.push('-');
            let md = u64_to_decimal(m as u64);
            push_padded(&mut out, md.as_str(), 2);
            assert(out@ =~= month_key_text(y as int, m as nat));
            Some(out)
        },
    }
}

/// The calendar month after `(y, m)`; December rolls into January of the next year.
pub open spec fn next_month(y: int, m: int) -> (int, int) {
    if m == 12 {
        (y + 1, 1)
    } else {
        (y, m + 1)
    }
}

/// The UTC instant (milliseconds) at which the Asia/Taipei month after the one containing
/// `now_ms` starts; `None` when chrono cannot represent either instant.
pub fn next_reset_utc(now_ms: i64) -> (r: Option<i64>)
    ensures
        match local_calendar(now_ms, TAIPEI_OFFSET_SECS) {
            Some((y, m)) => {
                let n = next_month(y as int, m as int);
                if n.0 <= i32::MAX {
                    r == local_month_start(n.0 as i32, n.1 as u32, TAIPEI_OFFSET_SECS)
                } else {
                    r is None
                }
            },
            None => r is None,
        },
{
    match local_year_month(now_ms, TAIPEI_OFFSET_SECS) {
        None => None,
        Some((y, m)) => {
            if m == 12 {
                if y == i32::MAX {
                    return None;
                }
                month_start_ms(y + 1, 1, TAIPEI_OFFSET_SECS)
            } else {
                month_start_ms(y, m + 1, TAIPEI_OFFSET_SECS)
            }
        },
    }
}

} // verus!
