//! Date windows of the expense listings: a calendar month, a year, and the
//! seven days of a numbered week, as half-open ranges of Unix milliseconds.
use vstd::prelude::*;

verus! {

/// Milliseconds per day.
pub const DAY_MS: i64 = 86_400_000;

/// Earliest year chrono's `NaiveDate` holds.
pub const MIN_CALENDAR_YEAR: i32 = -262_143;

/// Latest year chrono's `NaiveDate` holds.
pub const MAX_CALENDAR_YEAR: i32 = 262_142;

/// `NaiveDate::from_ymd_opt(year, month, day)` at 00:00 UTC, in Unix
/// milliseconds (chrono); `None` for a date that does not exist.
pub uninterp spec fn ymd_ms(year: int, month: int, day: int) -> Option<i64>;

/// Midnight UTC of a calendar date through chrono (`from_ymd_opt`,
/// `and_hms_opt(0, 0, 0)`, `and_utc().timestamp_millis()`). The contract
/// claims what chrono documents and its source shows: an invalid month or
/// day, or a year outside `NaiveDate`'s range, gives `None`, and the first day of every month of a year in
/// `NaiveDate`'s range exists.
#[verifier::external_body]
fn date_ms(year: i32, month: u32, day: u32) -> (r: Option<i64>)
    ensures
        r == ymd_ms(year as int, month as int, day as int),
        (month < 1 || month > 12 || day < 1 || day > 31) ==> r is None,
        (year < MIN_CALENDAR_YEAR || year > MAX_CALENDAR_YEAR) ==> r is None,
        (MIN_CALENDAR_YEAR <= year <= MAX_CALENDAR_YEAR && 1 <= month <= 12 && day == 1)
            ==> r is Some,
{
    chrono::NaiveDate::from_ymd_opt(year, month, day).and_then(|d| d.and_hms_opt(0, 0, 0)).map(
        |t| t.and_utc().timestamp_millis(),
    )
}

/// Both ends, when both exist.
pub open spec fn both(start: Option<i64>, end: Option<i64>) -> Option<(i64, i64)> {
    match (start, end) {
        (Some(s), Some(e)) => Some((s, e)),
        _ => None,
    }
}

/// First instant of the month after `month` of `year`.
pub open spec fn next_month_start(year: int, month: int) -> Option<i64> {
    if month == 12 {
        if year < i32::MAX {
            ymd_ms(year + 1, 1, 1)
        } else {
            None
        }
    } else {
        ymd_ms(year, month + 1, 1)
    }
}

/// `[first of the month, first of the next month)`.
pub open spec fn month_bounds_spec(year: int, month: int) -> Option<(i64, i64)> {
    both(ymd_ms(year, month, 1), next_month_start(year, month))
}

/// Window of a calendar month; `None` for a month outside 1–12 or a year
/// outside the calendar, where the listing has no date to start from.
pub fn month_bounds_ms(year: i32, month: u32) -> (r: Option<(i64, i64)>)
    ensures
        r == month_bounds_spec(year as int, month as int),
        r is Some <==> (1 <= month <= 12 && MIN_CALENDAR_YEAR <= year && (if month == 12 {
            year < MAX_CALENDAR_YEAR
        } else {
            year <= MAX_CALENDAR_YEAR
        })),
{
    let start = date_ms(year, month, 1);
    let s = match start {
        Some(s) => s,
        None => {
            return None;
        },
    };
    let end = if month == 12 {
        if year < i32::MAX {
            date_ms(year + 1, 1, 1)
        } else {
            None
        }
    } else {
        date_ms(year, month + 1, 1)
    };
    match end {
        Some(e) => Some((s, e)),
        None => None,
    }
}

/// `[January 1st of year, January 1st of the next year)`.
pub open spec fn year_bounds_spec(year: int) -> Option<(i64, i64)> {
    both(ymd_ms(year, 1, 1), if year < i32::MAX { ymd_ms(year + 1, 1, 1) } else { None })
}

/// Window of a calendar year; `None` outside the calendar.
pub fn year_bounds_ms(year: i32) -> (r: Option<(i64, i64)>)
    ensures
        r == year_bounds_spec(year as int),
        r is Some <==> MIN_CALENDAR_YEAR <= year < MAX_CALENDAR_YEAR,
{
    let start = match date_ms(year, 1, 1) {
        Some(s) => s,
        None => {
            return None;
        },
    };
    if year == i32::MAX {
        return None;
    }
    match date_ms(year + 1, 1, 1) {
        Some(e) => Some((start, e)),
        None => None,
    }
}

/// Days from January 1st to the start of week `week` (weeks count from 1;
/// week 0 is week 1).
pub open spec fn week_offset_days(week: int) -> int {
    if week == 0 {
        0
    } else {
        (week - 1) * 7
    }
}

/// `[January 1st + 7·(week − 1) days, that + 7 days)`, when it fits the
/// arithmetic of the listing (`u32` day offset, `i64` milliseconds).
pub open spec fn week_bounds_spec(year: int, week: int) -> Option<(i64, i64)> {
    match ymd_ms(year, 1, 1) {
        Some(jan1) => {
            let start = jan1 + week_offset_days(week) * DAY_MS;
            let end = start + 7 * DAY_MS;
            if week_offset_days(week) <= u32::MAX && i64::MIN <= start && end <= i64::MAX {
                Some((start as i64, end as i64))
            } else {
                None
            }
        },
        None => None,
    }
}

/// Window of week `week` of `year`: seven days from January 1st plus whole
/// weeks. `None` outside the calendar or when the offset overflows.
pub fn week_bounds_ms(year: i32, week: u32) -> (r: Option<(i64, i64)>)
    ensures
        r == week_bounds_spec(year as int, week as int),
{
    let jan1 = match date_ms(year, 1, 1) {
        Some(s) => s,
        None => {
            return None;
        },
    };
    let weeks: u32 = if week == 0 {
        0
    } else {
        week - 1
    };
    let days: u32 = match weeks.checked_mul(7) {
        Some(d) => d,
        None => {
            return None;
        },
    };
    assert(days == week_offset_days(week as int));
    let offset: i64 = (days as i64) * DAY_MS;
    let start: i64 = match jan1.checked_add(offset) {
        Some(s) => s,
        None => {
            return None;
        },
    };
    match start.checked_add(7 * DAY_MS) {
        Some(e) => Some((start, e)),
        None => None,
    }
}

} // verus!
