//! Dashboard statistics over the per-day history.
//!
//! The history comes from storage as one row per calendar day (days counted
//! as chrono counts them from the Common Era, `day 1` = 0001-01-01), newest
//! first, each holding the minutes summed over the sessions started that day.
use vstd::prelude::*;
use crate::clock::{
    days_from_monday, local_day, local_day_of, month_first_day, month_start_of, week_start,
    LAST_DAY,
};
use crate::ledger::max0;

verus! {

/// Minutes practised on one calendar day.
#[derive(Debug, Clone, Copy, PartialEq, Eq)]
pub struct DayTotal {
    pub day: i32,
    pub minutes: i64,
}

/// Days strictly descending, minutes never negative.
pub open spec fn history_ok(rows: Seq<DayTotal>) -> bool {
    &&& forall|i: int, j: int| 0 <= i < j < rows.len() ==> rows[j].day < rows[i].day
    &&& forall|i: int| 0 <= i < rows.len() ==> rows[i].minutes >= 0
}

/// Minutes recorded for day `d`, zero when no row holds it.
pub open spec fn minutes_on_day(rows: Seq<DayTotal>, d: int) -> int
    decreases rows.len(),
{
    if rows.len() == 0 {
        0
    } else if rows.last().day == d {
        rows.last().minutes as int
    } else {
        minutes_on_day(rows.drop_last(), d)
    }
}

pub open spec fn qualifies(rows: Seq<DayTotal>, d: int, goal: int) -> bool {
    minutes_on_day(rows, d) >= goal
}

/// The day `j` days before `from` meets the goal.
pub open spec fn meets_goal_back(rows: Seq<DayTotal>, from: int, j: int, goal: int) -> bool {
    qualifies(rows, from - j, goal)
}

/// Where the backward walk starts: today if it already meets the goal,
/// otherwise yesterday (an unfinished today neither counts nor breaks).
pub open spec fn streak_start(rows: Seq<DayTotal>, today: int, goal: int) -> int {
    if qualifies(rows, today, goal) { today } else { today - 1 }
}

/// `k` is the streak: the `k` consecutive days back from the start all meet
/// the goal, and the one before them does not.
pub open spec fn is_streak(rows: Seq<DayTotal>, today: int, goal: int, k: int) -> bool {
    &&& 0 <= k
    &&& forall|j: int|
        0 <= j < k ==> #[trigger] meets_goal_back(rows, streak_start(rows, today, goal), j, goal)
    &&& !qualifies(rows, streak_start(rows, today, goal) - k, goal)
}

/// How many rows fall on day `d` or earlier.
pub open spec fn rows_up_to(rows: Seq<DayTotal>, d: int) -> int
    decreases rows.len(),
{
    if rows.len() == 0 {
        0
    } else {
        rows_up_to(rows.drop_last(), d) + if rows.last().day <= d {
            1int
        } else {
            0int
        }
    }
}

proof fn lemma_rows_up_to_bounds(rows: Seq<DayTotal>, d: int)
    ensures
        0 <= rows_up_to(rows, d) <= rows.len(),
    decreases rows.len(),
{
    if rows.len() > 0 {
        lemma_rows_up_to_bounds(rows.drop_last(), d);
    }
}

/// A day with minutes has a row, so stepping back over it drops one row.
proof fn lemma_step_back(rows: Seq<DayTotal>, d: int)
    requires
        minutes_on_day(rows, d) != 0,
    ensures
        rows_up_to(rows, d - 1) < rows_up_to(rows, d),
        exists|i: int| 0 <= i < rows.len() && rows[i].day == d,
    decreases rows.len(),
{
    lemma_rows_up_to_mono(rows.drop_last(), d - 1, d);
    if rows.last().day != d {
        lemma_step_back(rows.drop_last(), d);
        let i = choose|i: int| 0 <= i < rows.drop_last().len() && rows.drop_last()[i].day == d;
        assert(rows[i].day == d);
    } else {
        assert(rows[rows.len() - 1].day == d);
    }
}

proof fn lemma_rows_up_to_mono(rows: Seq<DayTotal>, d1: int, d2: int)
    requires
        d1 <= d2,
    ensures
        rows_up_to(rows, d1) <= rows_up_to(rows, d2),
    decreases rows.len(),
{
    if rows.len() > 0 {
        lemma_rows_up_to_mono(rows.drop_last(), d1, d2);
    }
}

/// In a well-formed history a day is held by one row at most: its minutes
/// are that row's, or zero when no row holds the day.
proof fn lemma_lookup(rows: Seq<DayTotal>, d: int)
    requires
        history_ok(rows),
    ensures
        (exists|k: int| 0 <= k < rows.len() && rows[k].day == d && minutes_on_day(rows, d) == rows[k].minutes)
            || ((forall|k: int| 0 <= k < rows.len() ==> rows[k].day != d) && minutes_on_day(rows, d) == 0),
    decreases rows.len(),
{
    if rows.len() > 0 {
        let front = rows.drop_last();
        assert(history_ok(front));
        lemma_lookup(front, d);
        if rows.last().day == d {
            assert(rows[rows.len() - 1].day == d);
        } else if exists|k: int| 0 <= k < front.len() && front[k].day == d && minutes_on_day(front, d) == front[k].minutes {
            let k = choose|k: int| 0 <= k < front.len() && front[k].day == d && minutes_on_day(front, d) == front[k].minutes;
            assert(rows[k] == front[k]);
        } else {
            assert forall|k: int| 0 <= k < rows.len() implies rows[k].day != d by {
                if k < front.len() {
                    assert(rows[k] == front[k]);
                }
            }
        }
    }
}

/// Whether `rows` is a well-formed history: days strictly descending,
/// minutes never negative.
pub fn history_valid(rows: &Vec<DayTotal>) -> (r: bool)
    ensures
        r == history_ok(rows@),
{
    let n: usize = rows.len();
    if n == 0 {
        return true;
    }
    if rows[0].minutes < 0 {
        return false;
    }
    let mut i: usize = 0;
    while i + 1 < n
        invariant
            n == rows@.len(),
            n >= 1,
            i < n,
            forall|a: int, b: int| 0 <= a < b <= i ==> rows@[b].day < rows@[a].day,
            forall|a: int| 0 <= a <= i ==> rows@[a].minutes >= 0,
        decreases n - i,
    {
        if rows[i + 1].day >= rows[i].day {
            assert(!history_ok(rows@)) by {
                assert(rows@[i as int + 1].day >= rows@[i as int].day);
            }
            return false;
        }
        if rows[i + 1].minutes < 0 {
            assert(!history_ok(rows@)) by {
                assert(rows@[i as int + 1].minutes < 0);
            }
            return false;
        }
        i = i + 1;
    }
    true
}

/// The history after a session of `minutes` minutes is recorded on `day`:
/// that day's total grows, capped at the largest `i64`, and every other day
/// keeps its own.
pub open spec fn recorded(old: Seq<DayTotal>, new: Seq<DayTotal>, day: int, minutes: int) -> bool {
    forall|d: int|
        #[trigger] minutes_on_day(new, d) == if d == day {
            capped(minutes_on_day(old, d) + minutes)
        } else {
            minutes_on_day(old, d)
        }
}

/// Folds one finalized session into the per-day history: sessions are
/// grouped by the calendar day they started on, and their minutes summed.
pub fn record_minutes(rows: &mut Vec<DayTotal>, day: i32, minutes: i64)
    requires
        history_ok(old(rows)@),
        minutes >= 0,
    ensures
        history_ok(final(rows)@),
        recorded(old(rows)@, final(rows)@, day as int, minutes as int),
{
    let ghost before = rows@;
    let n: usize = rows.len();
    let mut i: usize = 0;
    while i < n && rows[i].day > day
        invariant
            rows@ == before,
            n == rows@.len(),
            i <= n,
            history_ok(before),
            forall|k: int| 0 <= k < i ==> before[k].day > day,
        decreases n - i,
    {
        i = i + 1;
    }
    if i < n && rows[i].day == day {
        let current = rows[i].minutes;
        let total: i64 = if current > i64::MAX - minutes {
            i64::MAX
        } else {
            current + minutes
        };
        rows.set(i, DayTotal { day, minutes: total });
        proof {
            let after = rows@;
            assert(after == before.update(i as int, DayTotal { day, minutes: total }));
            assert(history_ok(after)) by {
                assert forall|a: int, b: int| 0 <= a < b < after.len() implies after[b].day < after[a].day by {
                    assert(before[b].day < before[a].day);
                }
            }
            assert forall|d: int| #[trigger] minutes_on_day(after, d) == if d == day {
                capped(minutes_on_day(before, d) + minutes)
            } else {
                minutes_on_day(before, d)
            } by {
                lemma_lookup(before, d);
                lemma_lookup(after, d);
                if d == day {
                    assert(before[i as int].day == d);
                    assert(after[i as int].day == d);
                } else {
                    if exists|k: int| 0 <= k < before.len() && before[k].day == d && minutes_on_day(before, d) == before[k].minutes {
                        let k = choose|k: int| 0 <= k < before.len() && before[k].day == d && minutes_on_day(before, d) == before[k].minutes;
                        assert(after[k] == before[k]);
                    } else if exists|k: int| 0 <= k < after.len() && after[k].day == d && minutes_on_day(after, d) == after[k].minutes {
                        let k = choose|k: int| 0 <= k < after.len() && after[k].day == d && minutes_on_day(after, d) == after[k].minutes;
                        assert(after[k] == before[k]);
                    }
                }
            }
        }
    } else {
        rows.insert(i, DayTotal { day, minutes });
        proof {
            let after = rows@;
            let row = DayTotal { day, minutes };
            assert(after == before.insert(i as int, row));
            assert(forall|k: int| 0 <= k < i ==> after[k] == before[k]);
            assert(forall|k: int| i < k < after.len() ==> after[k] == before[k - 1]);
            assert forall|k: int| i <= k < before.len() implies before[k].day < day by {
                assert(before[i as int].day <= day);
                if k > i {
                    assert(before[k].day < before[i as int].day);
                }
            }
            assert(history_ok(after)) by {
                assert forall|a: int, b: int| 0 <= a < b < after.len() implies after[b].day < after[a].day by {
                    if b < i {
                    } else if b == i {
                    } else if a < i {
                        assert(before[a].day > day);
                    } else if a == i {
                    } else {
                        assert(before[b - 1].day < before[a - 1].day);
                    }
                }
            }
            assert forall|d: int| #[trigger] minutes_on_day(after, d) == if d == day {
                capped(minutes_on_day(before, d) + minutes)
            } else {
                minutes_on_day(before, d)
            } by {
                lemma_lookup(before, d);
                lemma_lookup(after, d);
                if d == day {
                    assert(after[i as int].day == d);
                    assert(forall|k: int| 0 <= k < before.len() ==> before[k].day != day);
                } else {
                    if exists|k: int| 0 <= k < before.len() && before[k].day == d && minutes_on_day(before, d) == before[k].minutes {
                        let k = choose|k: int| 0 <= k < before.len() && before[k].day == d && minutes_on_day(before, d) == before[k].minutes;
                        if k < i {
                            assert(after[k] == before[k]);
                        } else {
                            assert(after[k + 1] == before[k]);
                        }
                    } else if exists|k: int| 0 <= k < after.len() && after[k].day == d && minutes_on_day(after, d) == after[k].minutes {
                        let k = choose|k: int| 0 <= k < after.len() && after[k].day == d && minutes_on_day(after, d) == after[k].minutes;
                        if k < i {
                            assert(after[k] == before[k]);
                        } else {
                            assert(after[k] == before[k - 1]);
                        }
                    }
                }
            }
        }
    }
}

/// Minutes recorded for day `d`.
pub fn minutes_on(rows: &Vec<DayTotal>, d: i64) -> (r: i64)
    requires
        history_ok(rows@),
    ensures
        r == minutes_on_day(rows@, d as int),
{
    let mut i: usize = rows.len();
    assert(rows@.take(i as int) =~= rows@);
    while i > 0
        invariant
            i <= rows@.len(),
            history_ok(rows@),
            minutes_on_day(rows@, d as int) == minutes_on_day(rows@.take(i as int), d as int),
        decreases i,
    {
        let row = rows[i - 1];
        assert(rows@.take(i as int).drop_last() == rows@.take(i - 1));
        if row.day as i64 == d {
            return row.minutes;
        }
        i = i - 1;
    }
    0
}

/// Consecutive days, walked back from today, that meet the daily goal.
/// Today is skipped while it is still under the goal; the first day under
/// the goal (a day without practice included) ends the walk.
pub fn compute_streak(rows: &Vec<DayTotal>, today: i32, goal: i64) -> (r: usize)
    requires
        history_ok(rows@),
        goal >= 1,
    ensures
        is_streak(rows@, today as int, goal as int, r as int),
{
    let start: i64 = if minutes_on(rows, today as i64) >= goal {
        today as i64
    } else {
        today as i64 - 1
    };
    let n: usize = rows.len();
    let mut d: i64 = start;
    let mut k: usize = 0;
    proof {
        lemma_rows_up_to_bounds(rows@, start as int);
    }
    loop
        invariant
            history_ok(rows@),
            goal >= 1,
            start == streak_start(rows@, today as int, goal as int),
            d == start - k,
            i32::MIN - 1 <= d,
            k + rows_up_to(rows@, d as int) <= rows_up_to(rows@, start as int),
            rows_up_to(rows@, start as int) <= rows@.len(),
            rows@.len() == n,
            forall|j: int| 0 <= j < k ==> #[trigger] meets_goal_back(rows@, start as int, j, goal as int),
        decreases rows_up_to(rows@, d as int),
    {
        let m = minutes_on(rows, d);
        if m < goal {
            return k;
        }
        proof {
            lemma_step_back(rows@, d as int);
            lemma_rows_up_to_bounds(rows@, d - 1);
            let i = choose|i: int| 0 <= i < rows@.len() && rows@[i].day == d;
            assert(rows@[i].day >= i32::MIN);
        }
        k = k + 1;
        d = d - 1;
    }
}

/// Minutes over the rows whose day lies in `first..=last`.
pub open spec fn minutes_between(rows: Seq<DayTotal>, first: int, last: int) -> int
    decreases rows.len(),
{
    if rows.len() == 0 {
        0
    } else {
        minutes_between(rows.drop_last(), first, last) + if first <= rows.last().day <= last {
            rows.last().minutes as int
        } else {
            0int
        }
    }
}

/// `x`, or the largest `i64` where `x` exceeds it.
pub open spec fn capped(x: int) -> int {
    if x > i64::MAX { i64::MAX as int } else { x }
}

/// Minutes over the days `first..=last`, capped at the largest `i64`.
pub fn sum_minutes_between(rows: &Vec<DayTotal>, first: i64, last: i64) -> (r: i64)
    requires
        history_ok(rows@),
    ensures
        r == capped(minutes_between(rows@, first as int, last as int)),
        r >= 0,
{
    let n: usize = rows.len();
    let mut acc: i128 = 0;
    let mut i: usize = 0;
    while i < n
        invariant
            n == rows@.len(),
            i <= n,
            history_ok(rows@),
            acc == minutes_between(rows@.take(i as int), first as int, last as int),
            0 <= acc <= i * 0x7fff_ffff_ffff_ffffint,
        decreases n - i,
    {
        let row = rows[i];
        assert(rows@.take(i + 1).drop_last() == rows@.take(i as int));
        if first <= row.day as i64 && row.day as i64 <= last {
            acc = acc + row.minutes as i128;
        }
        i = i + 1;
    }
    assert(rows@.take(n as int) =~= rows@);
    if acc > i64::MAX as i128 {
        i64::MAX
    } else {
        acc as i64
    }
}

/// Minutes over the days from `first` on.
pub fn sum_minutes_since(rows: &Vec<DayTotal>, first: i64) -> (r: i64)
    requires
        history_ok(rows@),
    ensures
        r == capped(minutes_between(rows@, first as int, i64::MAX as int)),
        r >= 0,
{
    sum_minutes_between(rows, first, i64::MAX)
}

/// Minutes over the whole history.
pub fn sum_all_minutes(rows: &Vec<DayTotal>) -> (r: i64)
    requires
        history_ok(rows@),
    ensures
        r == capped(minutes_between(rows@, i64::MIN as int, i64::MAX as int)),
        r >= 0,
{
    sum_minutes_between(rows, i64::MIN, i64::MAX)
}

/// Ten thousand hours, in minutes.
pub const MASTERY_MINUTES: i64 = 600000;

/// Hundredths of a percent of `goal` that `done` reaches, capped at 100%.
pub open spec fn progress_points(done: int, goal: int) -> int {
    if done * 10000 / goal >= 10000 { 10000 } else { done * 10000 / goal }
}

/// Progress of `done` minutes toward `goal` minutes, in hundredths of a
/// percent (10000 is 100%), rounded down and capped at 100%.
pub fn progress_basis_points(done: i64, goal: i64) -> (r: i64)
    requires
        done >= 0,
        goal >= 1,
    ensures
        r == progress_points(done as int, goal as int),
        0 <= r <= 10000,
{
    let scaled: i128 = done as i128 * 10000;
    let q: i128 = scaled / goal as i128;
    assert(0 <= q <= scaled) by (nonlinear_arith)
        requires
            q as int == scaled as int / goal as int,
            scaled >= 0,
            goal >= 1,
    ;
    if q >= 10000 {
        10000
    } else {
        q as i64
    }
}

/// Progress toward the ten-thousand-hour target.
#[derive(Debug, Clone, Copy, PartialEq, Eq)]
pub struct ProgressSlice {
    /// Hundredths of a percent; 10000 is 100%.
    pub basis_points: i64,
    pub remaining_minutes: i64,
}

/// Progress toward the daily goal.
#[derive(Debug, Clone, Copy, PartialEq, Eq)]
pub struct GoalProgress {
    pub goal_minutes: i64,
    pub completed_minutes: i64,
    /// Hundredths of a percent; 10000 is 100%.
    pub basis_points: i64,
}

impl GoalProgress {
    /// Today's practice has met the daily goal.
    pub fn reached(&self) -> (r: bool)
        ensures
            r == (self.completed_minutes >= self.goal_minutes),
    {
        self.completed_minutes >= self.goal_minutes
    }
}

/// Statistics for one calendar day, derived afresh on every query.
#[derive(Debug, Clone, Copy, PartialEq, Eq)]
pub struct DashboardStats {
    /// The calendar day the statistics were taken on.
    pub day: i32,
    pub today_minutes: i64,
    pub week_minutes: i64,
    pub month_minutes: i64,
    pub total_minutes: i64,
    pub ten_k_progress: ProgressSlice,
    pub daily_goal: GoalProgress,
    pub streak_days: usize,
}

/// `a + b` for non-negative values, capped at the largest `i64`.
fn add_capped(a: i64, b: i64) -> (r: i64)
    requires
        a >= 0,
        b >= 0,
    ensures
        r == capped(a + b),
        r >= 0,
{
    if a > i64::MAX - b {
        i64::MAX
    } else {
        a + b
    }
}

/// The statistics `s` for `today`, given the first days of its week and
/// month, the daily goal, and the seconds of the session still running.
/// The running session's whole minutes count toward today and the total.
pub open spec fn stats_hold(
    s: DashboardStats,
    rows: Seq<DayTotal>,
    today: int,
    week_first: int,
    month_first: int,
    goal: int,
    active_seconds: int,
) -> bool {
    let live = active_seconds / 60;
    let today_minutes = capped(capped(minutes_between(rows, today, today)) + live);
    let total = capped(capped(minutes_between(rows, i64::MIN as int, i64::MAX as int)) + live);
    &&& s.day == today
    &&& s.today_minutes == today_minutes
    &&& s.week_minutes == capped(minutes_between(rows, week_first, today))
    &&& s.month_minutes == capped(minutes_between(rows, month_first, today))
    &&& s.total_minutes == total
    &&& s.ten_k_progress.basis_points == progress_points(total, MASTERY_MINUTES as int)
    &&& s.ten_k_progress.remaining_minutes == max0(MASTERY_MINUTES - total)
    &&& s.daily_goal.goal_minutes == goal
    &&& s.daily_goal.completed_minutes == today_minutes
    &&& s.daily_goal.basis_points == progress_points(today_minutes, goal)
    &&& is_streak(rows, today, goal, s.streak_days as int)
}

/// Dashboard statistics for `today` from the per-day history.
pub fn dashboard_stats(
    rows: &Vec<DayTotal>,
    today: i32,
    week_first: i64,
    month_first: i64,
    goal: i64,
    active_seconds: i64,
) -> (r: DashboardStats)
    requires
        history_ok(rows@),
        goal >= 1,
        active_seconds >= 0,
    ensures
        stats_hold(
            r,
            rows@,
            today as int,
            week_first as int,
            month_first as int,
            goal as int,
            active_seconds as int,
        ),
{
    let live: i64 = active_seconds / 60;
    let today_minutes = add_capped(sum_minutes_between(rows, today as i64, today as i64), live);
    let total = add_capped(sum_all_minutes(rows), live);
    let remaining: i64 = if total < MASTERY_MINUTES {
        MASTERY_MINUTES - total
    } else {
        0
    };
    DashboardStats {
        day: today,
        today_minutes,
        week_minutes: sum_minutes_between(rows, week_first, today as i64),
        month_minutes: sum_minutes_between(rows, month_first, today as i64),
        total_minutes: total,
        ten_k_progress: ProgressSlice {
            basis_points: progress_basis_points(total, MASTERY_MINUTES),
            remaining_minutes: remaining,
        },
        daily_goal: GoalProgress {
            goal_minutes: goal,
            completed_minutes: today_minutes,
            basis_points: progress_basis_points(today_minutes, goal),
        },
        streak_days: compute_streak(rows, today, goal),
    }
}

/// Dashboard statistics for the local calendar day of instant `now`, at UTC
/// offset `offset` seconds. Every day through 9999-12-31 has statistics;
/// nothing is returned for a later one.
pub fn dashboard_at(
    rows: &Vec<DayTotal>,
    now: i64,
    offset: i32,
    goal: i64,
    active_seconds: i64,
) -> (r: Option<DashboardStats>)
    requires
        history_ok(rows@),
        now >= 0,
        -86400 < offset < 86400,
        goal >= 1,
        active_seconds >= 0,
    ensures
        local_day_of(now as int, offset as int) <= LAST_DAY ==> r is Some,
        r matches Some(s) ==> s.day == local_day_of(now as int, offset as int),
        r matches Some(s) ==> stats_hold(
            s,
            rows@,
            s.day as int,
            s.day - days_from_monday(s.day as int),
            month_start_of(s.day as int),
            goal as int,
            active_seconds as int,
        ),
{
    let day = local_day(now, offset);
    if day > LAST_DAY as i64 {
        return None;
    }
    let today = day as i32;
    let month_first = match month_first_day(today) {
        Some(m) => m,
        None => return None,
    };
    let week_first = week_start(day);
    Some(dashboard_stats(rows, today, week_first, month_first as i64, goal, active_seconds))
}

} // verus!
