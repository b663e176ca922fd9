//! Instants and calendar days.
//!
//! An instant is a count of seconds since the Unix epoch. A calendar day is
//! numbered as chrono numbers it, counting from the Common Era: day 1 is
//! Monday 0001-01-01, and the Unix epoch falls on day `UNIX_EPOCH_DAY`.
use vstd::prelude::*;
use chrono::Datelike;

verus! {

pub const UNIX_EPOCH_DAY: i64 = 719163;

pub const SECONDS_PER_DAY: i64 = 86400;

/// 9999-12-31.
pub const LAST_DAY: i32 = 3652059;

/// The first day of the month that holds `day`, as chrono's calendar gives it.
pub uninterp spec fn month_start_of(day: int) -> int;

/// Relies on chrono's `NaiveDate::from_num_days_from_ce_opt`,
/// `Datelike::with_day` and `Datelike::num_days_from_ce`: the first day of
/// the month holding `day`, when `day` is a date chrono can represent.
/// chrono represents every date from 0001-01-01 (day 1) through 9999-12-31
/// (day `LAST_DAY`), and `with_day(1)` never fails on a valid date.
#[verifier::external_body]
pub(crate) fn month_first_day(day: i32) -> (r: Option<i32>)
    ensures
        r matches Some(m) ==> m == month_start_of(day as int),
        1 <= day <= LAST_DAY ==> r is Some,
{
    let first = chrono::NaiveDate::from_num_days_from_ce_opt(day)?.with_day(1)?;
    Some(first.num_days_from_ce())
}

/// The calendar day on which instant `ts` falls, at UTC offset `offset`.
pub open spec fn local_day_of(ts: int, offset: int) -> int {
    (ts + offset) / (SECONDS_PER_DAY as int) + UNIX_EPOCH_DAY
}

pub fn local_day(ts: i64, offset: i32) -> (r: i64)
    requires
        ts >= 0,
        -86400 < offset < 86400,
    ensures
        r == local_day_of(ts as int, offset as int),
{
    let x: i128 = ts as i128 + offset as i128;
    let q: i128 = if x >= 0 {
        x / 86400
    } else {
        -1
    };
    assert(q == x as int / 86400) by {
        if x < 0 {
            assert(-86400 < x < 0);
        }
    }
    assert(q <= i64::MAX as int / 86400 + 1);
    (q + 719163) as i64
}

/// Days since the last Monday: 0 on a Monday, 6 on a Sunday.
pub open spec fn days_from_monday(day: int) -> int {
    (day - 1) % 7
}

/// The Monday that starts the week holding `day`.
pub fn week_start(day: i64) -> (r: i64)
    requires
        day >= 1,
    ensures
        r == day - days_from_monday(day as int),
        day - 6 <= r <= day,
{
    let back: u64 = (day - 1) as u64 % 7;
    day - back as i64
}

} // verus!
