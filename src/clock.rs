//! Calendar dates and timestamps for cached downloads: `YYYY-MM-DD HH:MM:SS UTC`.
use vstd::prelude::*;
use crate::text::{padded, push_padded};

verus! {

/// The largest day number the date conversion takes: one more and the shift
/// to the March-based era count would not fit in a `u64`.
pub const MAX_EPOCH_DAYS: u64 = 0xffff_ffff_fff5_0593;

pub open spec fn is_leap_year(y: nat) -> bool {
    y % 4 == 0 && (y % 100 != 0 || y % 400 == 0)
}

/// The number of days of month `m` (1 to 12) of year `y`.
pub open spec fn days_in_month(y: nat, m: nat) -> nat {
    if m == 2 {
        if is_leap_year(y) {
            29
        } else {
            28
        }
    } else if m == 4 || m == 6 || m == 9 || m == 11 {
        30
    } else {
        31
    }
}

/// Leap years among the years 1 to `y - 1` (0 and negative counts below year 1).
pub open spec fn leap_years_before(y: int) -> int {
    (y - 1) / 4 - (y - 1) / 100 + (y - 1) / 400
}

/// Days from 1970-01-01 to January 1st of year `y`.
pub open spec fn days_before_year(y: int) -> int {
    365 * (y - 1970) + leap_years_before(y) - leap_years_before(1970)
}

/// Days from January 1st of year `y` to the first day of month `m`.
pub open spec fn days_before_month(y: nat, m: nat) -> nat {
    let leap: nat = if is_leap_year(y) {
        1
    } else {
        0
    };
    if m <= 1 {
        0
    } else if m == 2 {
        31
    } else if m == 3 {
        59 + leap
    } else if m == 4 {
        90 + leap
    } else if m == 5 {
        120 + leap
    } else if m == 6 {
        151 + leap
    } else if m == 7 {
        181 + leap
    } else if m == 8 {
        212 + leap
    } else if m == 9 {
        243 + leap
    } else if m == 10 {
        273 + leap
    } else if m == 11 {
        304 + leap
    } else {
        334 + leap
    }
}

/// The number of days from 1970-01-01 to the date `(y, m, d)`.
pub open spec fn days_since_epoch(y: nat, m: nat, d: nat) -> int {
    days_before_year(y as int) + days_before_month(y, m) + d - 1
}

proof fn lemma_leap_step(y: int)
    requires
        y >= 1,
    ensures
        leap_years_before(y + 1) == leap_years_before(y) + (if is_leap_year(y as nat) {
            1int
        } else {
            0int
        }),
{
}

proof fn lemma_leap_era(e: int, k: int)
    requires
        e >= 0,
        0 <= k < 400,
    ensures
        leap_years_before(400 * e + k + 1) == 97 * e + k / 4 - k / 100,
{
}

/// March 1st of the March-based year `400 * e + k` is the day that the era
/// count gives.
proof fn lemma_march_first(e: int, k: int)
    requires
        e >= 0,
        0 <= k < 400,
        400 * e + k >= 1,
    ensures
        days_before_year(400 * e + k) + 59 + (if is_leap_year((400 * e + k) as nat) {
            1int
        } else {
            0int
        }) + 719468 == 146097 * e + 365 * k + k / 4 - k / 100,
{
    lemma_leap_step(400 * e + k);
    lemma_leap_era(e, k);
}

proof fn lemma_day_count(days: int, era: int, doe: int, yoe: int, doy: int, mp: int, d: int)
    requires
        days >= 0,
        era >= 0,
        days + 719468 == era * 146097 + doe,
        0 <= doe < 146097,
        0 <= yoe <= 399,
        doy == doe - (365 * yoe + yoe / 4 - yoe / 100),
        0 <= doy <= 365,
        mp == (5 * doy + 2) / 153,
        d == doy - (153 * mp + 2) / 5 + 1,
    ensures
        mp < 10 ==> days_since_epoch((yoe + era * 400) as nat, (mp + 3) as nat, d as nat) == days,
        mp >= 10 ==> days_since_epoch((yoe + era * 400 + 1) as nat, (mp - 9) as nat, d as nat)
            == days,
{
    let y0 = 400 * era + yoe;
    assert(y0 >= 1969);
    lemma_march_first(era, yoe);
    if mp >= 10 {
        lemma_leap_step(y0);
    }
}

/// The date `(year, month, day)` of day `days` after 1970-01-01.
pub fn epoch_days_to_date(days: u64) -> (r: (u64, u64, u64))
    requires
        days <= MAX_EPOCH_DAYS,
    ensures
        1 <= r.1 <= 12,
        1 <= r.2 <= days_in_month(r.0 as nat, r.1 as nat),
        days_since_epoch(r.0 as nat, r.1 as nat, r.2 as nat) == days,
{
    let z = days + 719468;
    let era = z / 146097;
    assert(era * 146097 <= z) by (nonlinear_arith)
        requires
            era == z / 146097,
    ;
    let doe = z - era * 146097;
    assert(doe < 146097) by (nonlinear_arith)
        requires
            era == z / 146097,
            doe == z - era * 146097,
    ;
    let yoe = (doe - doe / 1460 + doe / 36524 - doe / 146096) / 365;
    assert(yoe <= 399);
    assert(era <= u64::MAX / 146097);
    let y = yoe + era * 400;
    assert(365 * yoe + yoe / 4 - yoe / 100 <= doe) by (nonlinear_arith)
        requires
            yoe == (doe - doe / 1460 + doe / 36524 - doe / 146096) / 365,
            doe < 146097,
    ;
    let doy = doe - (365 * yoe + yoe / 4 - yoe / 100);
    assert(doy <= 365) by (nonlinear_arith)
        requires
            yoe == (doe - doe / 1460 + doe / 36524 - doe / 146096) / 365,
            doy == doe - (365 * yoe + yoe / 4 - yoe / 100),
            doe < 146097,
    ;
    let mp = (5 * doy + 2) / 153;
    assert(mp <= 11);
    assert((153 * mp + 2) / 5 <= doy) by (nonlinear_arith)
        requires
            mp == (5 * doy + 2) / 153,
    ;
    let d = doy - (153 * mp + 2) / 5 + 1;
    assert(d <= 31) by (nonlinear_arith)
        requires
            mp == (5 * doy + 2) / 153,
            d == doy - (153 * mp + 2) / 5 + 1,
    ;
    assert(mp != 11 ==> d <= (if mp == 1 || mp == 3 || mp == 6 || mp == 8 {
        30u64
    } else {
        31u64
    }));
    assert(mp == 11 ==> d <= 29);
    assert(mp == 11 && d == 29 ==> doy == 365);
    assert(doy == 365 ==> (yoe + 1) % 4 == 0 && ((yoe + 1) % 100 != 0 || (yoe + 1) % 400 == 0));
    assert((yoe + 1 + era * 400) % 4 == (yoe + 1) % 4 && (yoe + 1 + era * 400) % 100 == (yoe
        + 1) % 100 && (yoe + 1 + era * 400) % 400 == (yoe + 1) % 400) by (nonlinear_arith);
    proof {
        lemma_day_count(
            days as int,
            era as int,
            doe as int,
            yoe as int,
            doy as int,
            mp as int,
            d as int,
        );
    }
    let m = if mp < 10 {
        mp + 3
    } else {
        mp - 9
    };
    let y = if m <= 2 {
        y + 1
    } else {
        y
    };
    (y, m, d)
}

/// `(y, m, d)` is a valid date, `days` days after 1970-01-01.
pub open spec fn is_date_of(days: int, y: nat, m: nat, d: nat) -> bool {
    1 <= m <= 12 && 1 <= d <= days_in_month(y, m) && days_since_epoch(y, m, d) == days
}

/// `YYYY-MM-DD HH:MM:SS UTC` for the date `(y, m, d)` and `tod` seconds into it.
pub open spec fn timestamp_text(y: nat, m: nat, d: nat, tod: nat) -> Seq<char> {
    padded(y, 4) + "-"@ + padded(m, 2) + "-"@ + padded(d, 2) + " "@ + padded(tod / 3600, 2)
        + ":"@ + padded((tod % 3600) / 60, 2) + ":"@ + padded(tod % 60, 2) + " UTC"@
}

proof fn lemma_year_bounds(y: int)
    requires
        y >= 1,
    ensures
        days_before_year(y + 1) == days_before_year(y) + 365 + (if is_leap_year(y as nat) {
            1int
        } else {
            0int
        }),
{
    lemma_leap_step(y);
}

proof fn lemma_years_ordered(y1: int, y2: int)
    requires
        1 <= y1 < y2,
    ensures
        days_before_year(y1 + 1) <= days_before_year(y2),
    decreases y2 - y1,
{
    if y1 + 1 < y2 {
        lemma_years_ordered(y1 + 1, y2);
        lemma_year_bounds(y1 + 1);
    }
}

/// Within a year, a valid date's day count lies before the next year and is
/// ordered by month.
proof fn lemma_within_year(y: nat, m1: nat, d1: nat, m2: nat, d2: nat)
    requires
        1 <= m1 <= 12,
        1 <= d1 <= days_in_month(y, m1),
        1 <= m2 <= 12,
        1 <= d2 <= days_in_month(y, m2),
    ensures
        days_before_month(y, m1) + d1 - 1 < 365 + (if is_leap_year(y) {
            1int
        } else {
            0int
        }),
        m1 < m2 ==> days_before_month(y, m1) + d1 < days_before_month(y, m2) + d2,
{
}

/// One day count belongs to one valid date.
pub proof fn lemma_date_unique(days: int, y1: nat, m1: nat, d1: nat, y2: nat, m2: nat, d2: nat)
    requires
        y1 >= 1,
        y2 >= 1,
        is_date_of(days, y1, m1, d1),
        is_date_of(days, y2, m2, d2),
    ensures
        y1 == y2 && m1 == m2 && d1 == d2,
{
    lemma_within_year(y1, m1, d1, m1, d1);
    lemma_within_year(y2, m2, d2, m2, d2);
    if y1 < y2 {
        lemma_year_bounds(y1 as int);
        lemma_years_ordered(y1 as int, y2 as int);
    } else if y2 < y1 {
        lemma_year_bounds(y2 as int);
        lemma_years_ordered(y2 as int, y1 as int);
    } else {
        lemma_within_year(y1, m1, d1, m2, d2);
        lemma_within_year(y1, m2, d2, m1, d1);
    }
}

/// The date of day `days` after 1970-01-01.
pub open spec fn date_of_day(days: nat) -> (nat, nat, nat) {
    choose|t: (nat, nat, nat)| t.0 >= 1970 && is_date_of(days as int, t.0, t.1, t.2)
}

/// `YYYY-MM-DD HH:MM:SS UTC` for `secs` seconds after the epoch.
pub open spec fn iso_timestamp_spec(secs: nat) -> Seq<char> {
    let date = date_of_day(secs / 86400);
    timestamp_text(date.0, date.1, date.2, secs % 86400)
}

pub fn iso_timestamp(secs: u64) -> (r: String)
    ensures
        r@ == iso_timestamp_spec(secs as nat),
{
    let days = secs / 86400;
    let tod = secs % 86400;
    let (y, mo, d) = epoch_days_to_date(days);
    let mut r = String::new();
    push_padded(&mut r, y, 4);
    r.append("-");
    push_padded(&mut r, mo, 2);
    r.append("-");
    push_padded(&mut r, d, 2);
    r.append(" ");
    push_padded(&mut r, tod / 3600, 2);
    r.append(":");
    push_padded(&mut r, (tod % 3600) / 60, 2);
    r.append(":");
    push_padded(&mut r, tod % 60, 2);
    r.append(" UTC");
    assert(is_date_of(days as int, y as nat, mo as nat, d as nat));
    proof {
        let t = date_of_day(days as nat);
        assert(y >= 1970);
        assert(exists|t: (nat, nat, nat)| t.0 >= 1970 && is_date_of(days as int, t.0, t.1, t.2)) by {
            let w = (y as nat, mo as nat, d as nat);
            assert(w.0 >= 1970 && is_date_of(days as int, w.0, w.1, w.2));
        }
        lemma_date_unique(days as int, t.0, t.1, t.2, y as nat, mo as nat, d as nat);
    }
    assert(r@ =~= iso_timestamp_spec(secs as nat));
    r
}

/// Relies on `std::time::SystemTime::now`: whole seconds since the epoch, or
/// zero for a clock set before it. Nothing is known of the value.
#[verifier::external_body]
fn unix_seconds_now() -> (r: u64) {
    std::time::SystemTime::now().duration_since(std::time::UNIX_EPOCH).map(|d| d.as_secs()).unwrap_or(0)
}

/// The current time as `YYYY-MM-DD HH:MM:SS UTC`.
pub fn now_iso() -> (r: String)
    ensures
        exists|secs: nat| r@ == iso_timestamp_spec(secs),
{
    let secs = unix_seconds_now();
    iso_timestamp(secs)
}

} // verus!
