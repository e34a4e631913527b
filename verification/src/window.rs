//! Resolving a set of range selectors into one inclusive date window. The
//! selectors are checked in a fixed order — today, week, last week, month,
//! last month — and each later selector that is set overwrites the window of
//! the earlier ones; with no selector set the window is the single current
//! day. The shift for "last month" is exactly four weeks, not a calendar
//! month, a quirk that is preserved deliberately.

use vstd::prelude::*;
use chrono::Datelike;
use crate::date::{
    Date, MIN_YEAR, MAX_YEAR, day_number, days_in_month, weekday, weekday_of, month_length,
    add_days, sub_days, lemma_day_number_room, lemma_weekday_from_day_number,
};
use vstd::arithmetic::div_mod::lemma_fundamental_div_mod;

verus! {

/// An inclusive date range; resolved once, then only read.
#[derive(Clone, Copy, PartialEq, Eq, Structural, Debug)]
pub struct DateWindow {
    pub from: Date,
    pub to: Date,
}

impl DateWindow {
    /// Both ends are real dates and the range is not empty.
    pub open spec fn wf(self) -> bool {
        &&& self.from.wf()
        &&& self.to.wf()
        &&& day_number(self.from) <= day_number(self.to)
    }
}

/// The first day of the month containing `d`.
pub open spec fn first_of_month(d: Date) -> Date {
    Date { year: d.year, month: d.month, day: 1 }
}

/// The last day of the month containing `d`.
pub open spec fn last_of_month(d: Date) -> Date {
    Date { year: d.year, month: d.month, day: days_in_month(d.year as int, d.month as int) as i64 }
}

/// The day number of the Monday of the week containing `d`.
pub open spec fn week_start_num(d: Date) -> int {
    day_number(d) - weekday(d)
}

/// Resolves the range selectors against the date `now`. The selectors are
/// evaluated in the order of the parameters and the last one set wins; the
/// `today` selector and no selector at all both yield the single day `now`.
#[allow(unused_variables)]
pub fn select_from_to_date(
    today: bool,
    week: bool,
    last_week: bool,
    month: bool,
    last_month: bool,
    now: Date,
) -> (r: DateWindow)
    requires
        now.wf(),
        MIN_YEAR < now.year,
        now.year < MAX_YEAR,
    ensures
        r.wf(),
        last_month ==> day_number(r.from) == day_number(first_of_month(now)) - 28 && day_number(
            r.to,
        ) == day_number(last_of_month(now)) - 28,
        !last_month && month ==> r.from == first_of_month(now) && r.to == last_of_month(now),
        !last_month && !month && last_week ==> day_number(r.from) == week_start_num(now) - 7
            && day_number(r.to) == week_start_num(now) - 1 && weekday(r.from) == 0 && weekday(r.to)
            == 6,
        !last_month && !month && !last_week && week ==> day_number(r.from) == week_start_num(now)
            && day_number(r.to) == week_start_num(now) + 6 && weekday(r.from) == 0 && weekday(r.to)
            == 6,
        !last_month && !month && !last_week && !week ==> r.from == now && r.to == now,
{
    proof {
        lemma_day_number_room(now);
    }
    let mut from: Date = now;
    let mut to: Date = now;
    if week {
        let wd = weekday_of(now);
        from = sub_days(now, wd);
        to = add_days(from, 6);
        proof {
            let x = day_number(now) - 1;
            lemma_fundamental_div_mod(x, 7);
            lemma_weekday_from_day_number(from, x / 7, 0);
            lemma_weekday_from_day_number(to, x / 7, 6);
        }
    }
    if last_week {
        let wd = weekday_of(now);
        let ws = sub_days(now, wd);
        from = sub_days(ws, 7);
        to = add_days(from, 6);
        proof {
            let x = day_number(now) - 1;
            lemma_fundamental_div_mod(x, 7);
            lemma_weekday_from_day_number(from, x / 7 - 1, 0);
            lemma_weekday_from_day_number(to, x / 7 - 1, 6);
        }
    }
    if month {
        from = Date { year: now.year, month: now.month, day: 1 };
        let dim = month_length(now.year, now.month);
        to = Date { year: now.year, month: now.month, day: dim };
    }
    if last_month {
        let fom = Date { year: now.year, month: now.month, day: 1 };
        let dim = month_length(now.year, now.month);
        let lom = Date { year: now.year, month: now.month, day: dim };
        proof {
            lemma_day_number_room(fom);
            lemma_day_number_room(lom);
        }
        from = sub_days(fom, 28);
        to = sub_days(lom, 28);
    }
    DateWindow { from, to }
}

/// Relies on `chrono::Utc::now` and the `chrono::Datelike` accessors for the
/// year, month and day of the current date in UTC; per their documentation
/// the month is between 1 and 12 and the day between 1 and 31.
#[verifier::external_body]
fn utc_today_fields() -> (r: (i64, i64, i64))
    ensures
        1 <= r.1 <= 12,
        1 <= r.2 <= 31,
{
    let now = chrono::Utc::now();
    (now.year() as i64, now.month() as i64, now.day() as i64)
}

/// The current date in UTC. Years outside the supported range are clamped to
/// its ends, and a day past the end of its month — possible only if the clock
/// misbehaves — is clamped to that end.
pub fn current_date() -> (r: Date)
    ensures
        r.wf(),
        MIN_YEAR < r.year,
        r.year < MAX_YEAR,
{
    let (y, m, d) = utc_today_fields();
    let year: i64 = if y <= MIN_YEAR {
        MIN_YEAR + 1
    } else if y >= MAX_YEAR {
        MAX_YEAR - 1
    } else {
        y
    };
    let dim = month_length(year, m);
    let day: i64 = if d > dim {
        dim
    } else {
        d
    };
    Date { year, month: m, day }
}

} // verus!
