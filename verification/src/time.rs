//! Instants and the relative ages shown next to pull requests.
use vstd::prelude::*;

use crate::text::{decimal, push_decimal, push_str};

verus! {

/// An instant in UTC: whole seconds since the Unix epoch and the nanoseconds
/// past that second.
#[derive(Debug, Clone, Copy, PartialEq, Eq)]
pub struct Timestamp {
    pub secs: i64,
    pub nanos: u32,
}

impl Timestamp {
    /// The instant as a number of nanoseconds since the epoch.
    pub open spec fn total_nanos(self) -> int {
        self.secs * 1_000_000_000 + self.nanos
    }
}

/// What `chrono::DateTime::parse_from_rfc3339` makes of a string, as the
/// instant in UTC: `None` where it refuses the text, else the Unix seconds
/// and the sub-second nanoseconds of the parsed instant.
pub uninterp spec fn rfc3339_instant(s: Seq<char>) -> Option<(i64, u32)>;

/// `chrono::DateTime::parse_from_rfc3339`, converted to UTC. The result is
/// `rfc3339_instant` of the text: it depends on the characters alone.
#[verifier::external_body]
pub(crate) fn parse_rfc3339(s: &str) -> (r: Option<Timestamp>)
    ensures
        r == (match rfc3339_instant(s@) {
            Some((secs, nanos)) => Some(Timestamp { secs, nanos }),
            None => None,
        }),
{
    chrono::DateTime::parse_from_rfc3339(s).ok().map(
        |dt| Timestamp { secs: dt.timestamp(), nanos: dt.timestamp_subsec_nanos() },
    )
}

/// The clock's current instant: `std::time::SystemTime::now()` converted by
/// chrono's `From<SystemTime> for DateTime<Utc>`, which also accepts a clock
/// set before 1970. Nothing is promised of its value; it comes from the
/// machine's clock.
#[verifier::external_body]
pub(crate) fn utc_now() -> (r: Timestamp) {
    let now: chrono::DateTime<chrono::Utc> = chrono::DateTime::from(std::time::SystemTime::now());
    Timestamp { secs: now.timestamp(), nanos: now.timestamp_subsec_nanos() }
}

/// Integer division of `a` by a positive `b`, rounding toward zero (Rust's `/`).
pub open spec fn div_toward_zero(a: int, b: int) -> int {
    if a >= 0 {
        a / b
    } else {
        -((-a) / b)
    }
}

pub open spec fn nanos_per_minute() -> int {
    60_000_000_000
}

/// Whole minutes, hours and days of the time from `from` to `to`, each rounded
/// toward zero (`TimeDelta::num_minutes` and friends).
pub open spec fn elapsed_minutes(from: Timestamp, to: Timestamp) -> int {
    div_toward_zero(to.total_nanos() - from.total_nanos(), nanos_per_minute())
}

pub open spec fn elapsed_hours(from: Timestamp, to: Timestamp) -> int {
    div_toward_zero(to.total_nanos() - from.total_nanos(), 60 * nanos_per_minute())
}

pub open spec fn elapsed_days(from: Timestamp, to: Timestamp) -> int {
    div_toward_zero(to.total_nanos() - from.total_nanos(), 24 * 60 * nanos_per_minute())
}

/// The compact age of `dt` seen at `now`: "now", "<m>m", "<h>h", "<d>d",
/// "<w>w" or "<y>y".
pub open spec fn relative_time_text(dt: Timestamp, now: Timestamp) -> Seq<char> {
    let minutes = elapsed_minutes(dt, now);
    let hours = elapsed_hours(dt, now);
    let days = elapsed_days(dt, now);
    let weeks = div_toward_zero(days, 7);
    if minutes < 1 {
        "now"@
    } else if minutes < 60 {
        decimal(minutes as nat) + "m"@
    } else if hours < 24 {
        decimal(hours as nat) + "h"@
    } else if days < 7 {
        decimal(days as nat) + "d"@
    } else if weeks < 52 {
        decimal(weeks as nat) + "w"@
    } else {
        decimal((days / 365) as nat) + "y"@
    }
}

/// The signed number of nanoseconds from `from` to `to`.
fn nanos_between(from: Timestamp, to: Timestamp) -> (r: i128)
    ensures
        r == to.total_nanos() - from.total_nanos(),
{
    let a: i128 = (to.secs as i128) * 1_000_000_000i128 + (to.nanos as i128);
    let b: i128 = (from.secs as i128) * 1_000_000_000i128 + (from.nanos as i128);
    a - b
}

/// `d / unit` rounded toward zero, for a positive unit.
fn div_trunc(d: i128, unit: i128) -> (r: i128)
    requires
        unit > 0,
        -0x7fff_ffff_ffff_ffff_ffff_ffff_ffff_ffff <= d,
    ensures
        r == div_toward_zero(d as int, unit as int),
{
    if d >= 0 {
        d / unit
    } else {
        let m: i128 = -d;
        let q: i128 = m / unit;
        assert(0 <= q <= m) by (nonlinear_arith)
            requires
                m >= 0,
                unit > 0,
                q == m / unit,
        ;
        -q
    }
}

/// The compact age of `dt` seen at `now`.
pub fn relative_time_at(dt: &Timestamp, now: &Timestamp) -> (r: String)
    ensures
        r@ == relative_time_text(*dt, *now),
{
    let d = nanos_between(*dt, *now);
    let minutes = div_trunc(d, 60_000_000_000i128);
    let hours = div_trunc(d, 3_600_000_000_000i128);
    let days = div_trunc(d, 86_400_000_000_000i128);
    assert(-0x7fff_ffff_ffff_ffff_ffff_ffff_ffff_ffff <= days);
    let weeks = div_trunc(days, 7i128);
    let mut r = String::new();
    if minutes < 1 {
        push_str(&mut r, "now");
        proof {
            reveal_strlit("now");
        }
    } else if minutes < 60 {
        push_decimal(&mut r, minutes as u64);
        push_str(&mut r, "m");
    } else if hours < 24 {
        assert(hours >= 0);
        push_decimal(&mut r, hours as u64);
        push_str(&mut r, "h");
    } else if days < 7 {
        push_decimal(&mut r, days as u64);
        push_str(&mut r, "d");
    } else if weeks < 52 {
        push_decimal(&mut r, weeks as u64);
        push_str(&mut r, "w");
    } else {
        assert(days >= 0);
        push_decimal(&mut r, (days / 365) as u64);
        push_str(&mut r, "y");
    }
    r
}

/// The compact age of `dt` seen now ("2h", "3d", "1w"...).
pub fn relative_time(dt: &Timestamp) -> (r: String)
    ensures
        exists|now: Timestamp| r@ == relative_time_text(*dt, now),
{
    let now = utc_now();
    relative_time_at(dt, &now)
}

/// `hours as u64`: a negative count wraps around.
pub open spec fn hours_as_u64(hours: int) -> int {
    if hours >= 0 {
        hours
    } else {
        hours + 0x1_0000_0000_0000_0000
    }
}

/// Whether a pull request created at `dt` counts as stale at `now`: its age in
/// whole hours, taken as an unsigned number, reaches the threshold.
pub open spec fn is_stale_at_spec(dt: Timestamp, now: Timestamp, threshold_hours: u64) -> bool {
    hours_as_u64(elapsed_hours(dt, now)) >= threshold_hours
}

pub fn is_stale_at(dt: &Timestamp, now: &Timestamp, threshold_hours: u64) -> (r: bool)
    ensures
        r == is_stale_at_spec(*dt, *now, threshold_hours),
{
    let d = nanos_between(*dt, *now);
    let hours = div_trunc(d, 3_600_000_000_000i128);
    if hours >= 0 {
        (hours as u64) >= threshold_hours
    } else {
        (hours + 0x1_0000_0000_0000_0000i128) >= threshold_hours as i128
    }
}

/// Whether a pull request created at `dt` is stale now.
pub fn is_stale(dt: &Timestamp, threshold_hours: u64) -> (r: bool)
    ensures
        exists|now: Timestamp| r == is_stale_at_spec(*dt, now, threshold_hours),
{
    let now = utc_now();
    is_stale_at(dt, &now, threshold_hours)
}

} // verus!
