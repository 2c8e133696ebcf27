//! Instants and their rendering: Unix seconds are turned into civil
//! (local) date-time fields by chrono behind trusted wrappers, and the
//! fields, zone suffixes and durations are formatted by verified code.

use vstd::prelude::*;

use crate::member::TS_LIMIT;
use crate::text::{dec_spec, dec_u64, pad2_spec, pad2_u64};

verus! {

/// A civil (local) date and time, field by field.
#[derive(Clone, Copy, Debug, PartialEq, Eq, Structural)]
pub struct Civil {
    pub year: u16,
    pub month: u8,
    pub day: u8,
    pub hour: u8,
    pub minute: u8,
    pub second: u8,
}

/// The civil date and time the proleptic Gregorian calendar assigns to the
/// instant `t` (Unix seconds): (year, month, day, hour, minute, second).
pub uninterp spec fn civil_of(t: int) -> (int, int, int, int, int, int);

/// The Unix seconds of a civil UTC date and time.
pub uninterp spec fn epoch_of(
    year: int,
    month: int,
    day: int,
    hour: int,
    minute: int,
    second: int,
) -> int;

/// Relies on chrono: `DateTime::from_timestamp` turns Unix seconds into a
/// UTC date-time, `FixedOffset::east_opt(off)` is the zone `off` seconds
/// east of UTC (`Some` for `|off| < 86400`), and `with_timezone` re-expresses
/// the instant there, so the local civil fields are those of the shifted
/// instant `secs + off`. The field ranges are the documented ranges of
/// chrono's accessors, the years pinned by the bounds on `secs + off`.
#[verifier::external_body]
fn civil_from_timestamp(secs: i64, off: i32) -> (c: Civil)
    requires
        -86400 < off < 86400,
        0 <= secs + off < TS_LIMIT,
    ensures
        c.year as int == civil_of(secs + off).0,
        c.month as int == civil_of(secs + off).1,
        c.day as int == civil_of(secs + off).2,
        c.hour as int == civil_of(secs + off).3,
        c.minute as int == civil_of(secs + off).4,
        c.second as int == civil_of(secs + off).5,
        1970 <= c.year <= 9999,
        1 <= c.month <= 12,
        1 <= c.day <= 31,
        c.hour <= 23,
        c.minute <= 59,
        c.second <= 59,
{
    let dt = chrono::DateTime::from_timestamp(secs, 0).unwrap();
    let zone = chrono::FixedOffset::east_opt(off).unwrap();
    let local = dt.with_timezone(&zone);
    Civil {
        year: chrono::Datelike::year(&local) as u16,
        month: chrono::Datelike::month(&local) as u8,
        day: chrono::Datelike::day(&local) as u8,
        hour: chrono::Timelike::hour(&local) as u8,
        minute: chrono::Timelike::minute(&local) as u8,
        second: chrono::Timelike::second(&local) as u8,
    }
}

/// Relies on chrono: `Utc.with_ymd_and_hms` builds the UTC date-time with
/// exactly the given civil fields (the date is valid, since every month
/// has at least 28 days and December has 31, and the mapping to UTC is
/// unique), and `timestamp` is its Unix seconds; the years 1970 through
/// 9999 lie in `[0, TS_LIMIT)`.
#[verifier::external_body]
fn civil_to_timestamp(year: u16, month: u8, day: u8, hour: u8, minute: u8, second: u8) -> (t: i64)
    requires
        1970 <= year <= 9999,
        1 <= month <= 12,
        1 <= day <= 28 || (month == 12 && day <= 31),
        hour <= 23,
        minute <= 59,
        second <= 59,
    ensures
        t == epoch_of(
            year as int,
            month as int,
            day as int,
            hour as int,
            minute as int,
            second as int,
        ),
        0 <= t < TS_LIMIT,
{
    chrono::TimeZone::with_ymd_and_hms(
        &chrono::Utc,
        year as i32,
        month as u32,
        day as u32,
        hour as u32,
        minute as u32,
        second as u32,
    )
        .unwrap()
        .timestamp()
}

/// The unlock instant of a day's challenge: 05:00 UTC (midnight in the
/// event's US-Eastern home zone) on December `day` of `year`.
pub open spec fn unlock_instant(year: int, day: int) -> int {
    epoch_of(year, 12, day, 5, 0, 0)
}

/// The Unix seconds at which the challenge of `day` of `year` unlocked.
pub fn unlock_timestamp(year: u32, day: u32) -> (t: i64)
    requires
        2015 <= year <= 9999,
        1 <= day <= 25,
    ensures
        t == unlock_instant(year as int, day as int),
        0 <= t < TS_LIMIT,
{
    civil_to_timestamp(year as u16, 12, day as u8, 5, 0, 0)
}

/// `YYYY-MM-DD HH:MM:SS` for the civil fields of the instant `t`.
pub open spec fn local_ymd_hms_spec(t: int) -> Seq<char> {
    let c = civil_of(t);
    dec_spec(c.0 as nat) + "-"@ + pad2_spec(c.1 as nat) + "-"@ + pad2_spec(c.2 as nat) + " "@
        + pad2_spec(c.3 as nat) + ":"@ + pad2_spec(c.4 as nat) + ":"@ + pad2_spec(c.5 as nat)
}

/// `±HHMM` for a zone `off` seconds east of UTC.
pub open spec fn zone_suffix_spec(off: int) -> Seq<char> {
    let a = if off >= 0 {
        off
    } else {
        -off
    };
    (if off >= 0 {
        "+"@
    } else {
        "-"@
    }) + pad2_spec((a / 3600) as nat) + pad2_spec((a % 3600 / 60) as nat)
}

/// `YYYY-MM-DD HH:MM:SS±HHMM`: the instant `t` in the zone `off` seconds
/// east of UTC.
pub open spec fn local_ymd_hms_z_spec(t: int, off: int) -> Seq<char> {
    local_ymd_hms_spec(t) + zone_suffix_spec(off)
}

/// An elapsed duration as `H:MM:SS` with unpadded total hours, a leading
/// `-` when negative.
pub open spec fn duration_spec(a: int) -> Seq<char> {
    dec_spec((a / 3600) as nat) + ":"@ + pad2_spec((a % 3600 / 60) as nat) + ":"@ + pad2_spec(
        (a % 60) as nat,
    )
}

pub open spec fn timedelta_spec(d: int) -> Seq<char> {
    if d < 0 {
        "-"@ + duration_spec(-d)
    } else {
        duration_spec(d)
    }
}

/// `YYYY-MM-DD HH:MM:SS` for the given civil fields.
pub open spec fn civil_ymd_hms_spec(c: Civil) -> Seq<char> {
    dec_spec(c.year as nat) + "-"@ + pad2_spec(c.month as nat) + "-"@ + pad2_spec(c.day as nat)
        + " "@ + pad2_spec(c.hour as nat) + ":"@ + pad2_spec(c.minute as nat) + ":"@ + pad2_spec(
        c.second as nat,
    )
}

/// Render civil fields as `YYYY-MM-DD HH:MM:SS`.
pub fn format_civil(c: &Civil) -> (r: String)
    ensures
        r@ == civil_ymd_hms_spec(*c),
{
    let mut s = dec_u64(c.year as u64);
    s.append("-");
    let mo = pad2_u64(c.month as u64);
    s.append(mo.as_str());
    s.append("-");
    let d = pad2_u64(c.day as u64);
    s.append(d.as_str());
    s.append(" ");
    let h = pad2_u64(c.hour as u64);
    s.append(h.as_str());
    s.append(":");
    let mi = pad2_u64(c.minute as u64);
    s.append(mi.as_str());
    s.append(":");
    let se = pad2_u64(c.second as u64);
    s.append(se.as_str());
    s
}

/// Render the instant `secs` in the zone `off` seconds east of UTC as
/// `YYYY-MM-DD HH:MM:SS`.
pub fn format_local(secs: i64, off: i32) -> (r: String)
    requires
        -86400 < off < 86400,
        0 <= secs + off < TS_LIMIT,
    ensures
        r@ == local_ymd_hms_spec(secs + off),
{
    let c = civil_from_timestamp(secs, off);
    format_civil(&c)
}

fn zone_suffix(off: i32) -> (r: String)
    requires
        -86400 < off < 86400,
    ensures
        r@ == zone_suffix_spec(off as int),
{
    let a: u32 = if off >= 0 {
        off as u32
    } else {
        (-off) as u32
    };
    let mut s = if off >= 0 {
        String::from_str("+")
    } else {
        String::from_str("-")
    };
    let hh = pad2_u64((a / 3600) as u64);
    s.append(hh.as_str());
    let mm = pad2_u64(((a % 3600) / 60) as u64);
    s.append(mm.as_str());
    s
}

/// Render the instant `secs` in the zone `off` seconds east of UTC as
/// `YYYY-MM-DD HH:MM:SS±HHMM`.
pub fn format_local_z(secs: i64, off: i32) -> (r: String)
    requires
        -86400 < off < 86400,
        0 <= secs + off < TS_LIMIT,
    ensures
        r@ == local_ymd_hms_z_spec(secs + off, off as int),
{
    let mut s = format_local(secs, off);
    let z = zone_suffix(off);
    s.append(z.as_str());
    s
}

/// Render an elapsed duration of `d` seconds.
pub fn fmt_timedelta(d: i64) -> (r: String)
    requires
        -TS_LIMIT < d < TS_LIMIT,
    ensures
        r@ == timedelta_spec(d as int),
{
    if d < 0 {
        let a = (-d) as u64;
        let mut s = String::from_str("-");
        let rest = duration_str(a);
        s.append(rest.as_str());
        s
    } else {
        duration_str(d as u64)
    }
}

fn duration_str(a: u64) -> (r: String)
    ensures
        r@ == duration_spec(a as int),
{
    let mut s = dec_u64(a / 3600);
    s.append(":");
    let m = pad2_u64((a % 3600) / 60);
    s.append(m.as_str());
    s.append(":");
    let se = pad2_u64(a % 60);
    s.append(se.as_str());
    s
}

} // verus!
