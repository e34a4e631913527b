//! A proleptic Gregorian calendar over plain year/month/day values. Dates are
//! modelled by their day number (days counted from the calendar's origin), a
//! strictly increasing measure that makes week arithmetic, window bounds and
//! injectivity of dates provable. The range of supported years is wide enough
//! for any clock this tool will meet.

use vstd::prelude::*;
use vstd::arithmetic::div_mod::{lemma_fundamental_div_mod, lemma_fundamental_div_mod_converse};
use crate::digits::{dec_str, pad2, push_dec_digits, push_char};

verus! {

/// Smallest year a well-formed date may carry.
pub const MIN_YEAR: i64 = 1600;

/// Largest year a well-formed date may carry.
pub const MAX_YEAR: i64 = 9999;

/// A calendar date, held as plain year, month and day numbers.
#[derive(Clone, Copy, PartialEq, Eq, Structural, Debug)]
pub struct Date {
    pub year: i64,
    pub month: i64,
    pub day: i64,
}

/// Whether `y` is a leap year in the Gregorian calendar.
pub open spec fn is_leap_year(y: int) -> bool {
    (y % 4 == 0 && y % 100 != 0) || y % 400 == 0
}

/// How many days the given month of the given year has.
pub open spec fn days_in_month(y: int, m: int) -> int {
    if m == 2 {
        if is_leap_year(y) {
            29
        } else {
            28
        }
    } else if m == 4 || m == 6 || m == 9 || m == 11 {
        30
    } else {
        31
    }
}

impl Date {
    /// A real calendar date within the supported year range.
    pub open spec fn wf(self) -> bool {
        &&& MIN_YEAR <= self.year <= MAX_YEAR
        &&& 1 <= self.month <= 12
        &&& 1 <= self.day <= days_in_month(self.year as int, self.month as int)
    }
}

/// Days in the months of year `y` that precede month `m`.
pub open spec fn days_before_month(y: int, m: int) -> int
    decreases m,
{
    if m <= 1 {
        0
    } else {
        days_before_month(y, m - 1) + days_in_month(y, m - 1)
    }
}

/// Days in the years that precede year `y`.
pub open spec fn days_before_year(y: int) -> int {
    365 * (y - 1) + (y - 1) / 4 - (y - 1) / 100 + (y - 1) / 400
}

/// The position of a date in the calendar: day one is the first of January of
/// year one.
pub open spec fn day_number(d: Date) -> int {
    days_before_year(d.year as int) + days_before_month(d.year as int, d.month as int) + d.day
}

/// The day of the week, Monday being zero: day one of the calendar is a
/// Monday.
pub open spec fn weekday(d: Date) -> int {
    (day_number(d) - 1) % 7
}

/// The earliest supported date.
pub open spec fn min_date() -> Date {
    Date { year: MIN_YEAR, month: 1, day: 1 }
}

/// The latest supported date.
pub open spec fn max_date() -> Date {
    Date { year: MAX_YEAR, month: 12, day: 31 }
}

/// The date one day later.
pub open spec fn spec_next_date(d: Date) -> Date {
    if d.day < days_in_month(d.year as int, d.month as int) {
        Date { year: d.year, month: d.month, day: (d.day + 1) as i64 }
    } else if d.month < 12 {
        Date { year: d.year, month: (d.month + 1) as i64, day: 1 }
    } else {
        Date { year: (d.year + 1) as i64, month: 1, day: 1 }
    }
}

/// The date one day earlier.
pub open spec fn spec_prev_date(d: Date) -> Date {
    if d.day > 1 {
        Date { year: d.year, month: d.month, day: (d.day - 1) as i64 }
    } else if d.month > 1 {
        Date {
            year: d.year,
            month: (d.month - 1) as i64,
            day: days_in_month(d.year as int, (d.month - 1) as int) as i64,
        }
    } else {
        Date { year: (d.year - 1) as i64, month: 12, day: 31 }
    }
}

/// Stepping a positive multiple of `k` down by one loses one multiple exactly
/// when the step crosses it.
proof fn lemma_div_succ(y: int, k: int)
    requires
        y >= 1,
        k >= 1,
    ensures
        y / k - (y - 1) / k == if y % k == 0 {
            1int
        } else {
            0int
        },
{
    let q = y / k;
    let r = y % k;
    lemma_fundamental_div_mod(y, k);
    if r == 0 {
        assert((q - 1) * k == q * k - k) by (nonlinear_arith);
        assert(y == q * k) by {
            assert(y == k * q + r);
            assert(k * q == q * k) by (nonlinear_arith);
        }
        lemma_fundamental_div_mod_converse(y - 1, k, q - 1, k - 1);
    } else {
        assert(y == q * k + r) by {
            assert(k * q == q * k) by (nonlinear_arith);
        }
        lemma_fundamental_div_mod_converse(y - 1, k, q, r - 1);
    }
}

/// Divisibility by four hundred implies divisibility by one hundred and by
/// four; divisibility by one hundred implies divisibility by four.
proof fn lemma_year_divisibility(y: int)
    requires
        y >= 1,
    ensures
        y % 400 == 0 ==> y % 100 == 0 && y % 4 == 0,
        y % 100 == 0 ==> y % 4 == 0,
{
    if y % 400 == 0 {
        let q = y / 400;
        lemma_fundamental_div_mod(y, 400);
        lemma_fundamental_div_mod_converse(y, 100, 4 * q, 0);
        lemma_fundamental_div_mod_converse(y, 4, 100 * q, 0);
    }
    if y % 100 == 0 {
        let q = y / 100;
        lemma_fundamental_div_mod(y, 100);
        lemma_fundamental_div_mod_converse(y, 4, 25 * q, 0);
    }
}

/// One more year before the count adds the length of that year.
proof fn lemma_days_before_year_succ(y: int)
    requires
        y >= 1,
    ensures
        days_before_year(y + 1) == days_before_year(y) + if is_leap_year(y) {
            366int
        } else {
            365int
        },
{
    lemma_div_succ(y, 4);
    lemma_div_succ(y, 100);
    lemma_div_succ(y, 400);
    lemma_year_divisibility(y);
}

/// The running totals of days before each month, and the length of the whole
/// year.
proof fn lemma_month_offsets(y: int)
    ensures
        days_before_month(y, 1) == 0,
        days_before_month(y, 2) == 31,
        days_before_month(y, 3) == 59 + if is_leap_year(y) { 1int } else { 0int },
        days_before_month(y, 4) == 90 + if is_leap_year(y) { 1int } else { 0int },
        days_before_month(y, 5) == 120 + if is_leap_year(y) { 1int } else { 0int },
        days_before_month(y, 6) == 151 + if is_leap_year(y) { 1int } else { 0int },
        days_before_month(y, 7) == 181 + if is_leap_year(y) { 1int } else { 0int },
        days_before_month(y, 8) == 212 + if is_leap_year(y) { 1int } else { 0int },
        days_before_month(y, 9) == 243 + if is_leap_year(y) { 1int } else { 0int },
        days_before_month(y, 10) == 273 + if is_leap_year(y) { 1int } else { 0int },
        days_before_month(y, 11) == 304 + if is_leap_year(y) { 1int } else { 0int },
        days_before_month(y, 12) == 334 + if is_leap_year(y) { 1int } else { 0int },
        days_before_month(y, 13) == 365 + if is_leap_year(y) { 1int } else { 0int },
{
    assert(days_before_month(y, 1) == 0);
    assert(days_before_month(y, 2) == 31);
    assert(days_before_month(y, 3) == days_before_month(y, 2) + days_in_month(y, 2));
    assert(days_before_month(y, 4) == days_before_month(y, 3) + days_in_month(y, 3));
    assert(days_before_month(y, 5) == days_before_month(y, 4) + days_in_month(y, 4));
    assert(days_before_month(y, 6) == days_before_month(y, 5) + days_in_month(y, 5));
    assert(days_before_month(y, 7) == days_before_month(y, 6) + days_in_month(y, 6));
    assert(days_before_month(y, 8) == days_before_month(y, 7) + days_in_month(y, 7));
    assert(days_before_month(y, 9) == days_before_month(y, 8) + days_in_month(y, 8));
    assert(days_before_month(y, 10) == days_before_month(y, 9) + days_in_month(y, 9));
    assert(days_before_month(y, 11) == days_before_month(y, 10) + days_in_month(y, 10));
    assert(days_before_month(y, 12) == days_before_month(y, 11) + days_in_month(y, 11));
    assert(days_before_month(y, 13) == days_before_month(y, 12) + days_in_month(y, 12));
}

/// Counting more months never shrinks the total.
proof fn lemma_days_before_month_monotone(y: int, m1: int, m2: int)
    requires
        1 <= m1 <= m2 <= 13,
    ensures
        days_before_month(y, m1) <= days_before_month(y, m2),
    decreases m2 - m1,
{
    if m1 < m2 {
        lemma_days_before_month_monotone(y, m1, m2 - 1);
        assert(days_before_month(y, m2) == days_before_month(y, m2 - 1) + days_in_month(y, m2 - 1));
    }
}

/// The day number of the next date is one more.
proof fn lemma_day_number_next(d: Date)
    requires
        d.wf(),
        d != max_date(),
    ensures
        spec_next_date(d).wf(),
        day_number(spec_next_date(d)) == day_number(d) + 1,
{
    let y = d.year as int;
    let m = d.month as int;
    if d.day < days_in_month(y, m) {
    } else if d.month < 12 {
        assert(days_before_month(y, m + 1) == days_before_month(y, m) + days_in_month(y, m));
    } else {
        lemma_month_offsets(y);
        lemma_days_before_year_succ(y);
    }
}

/// Every date but the first has a predecessor, and stepping forward from it
/// comes back.
proof fn lemma_day_number_prev(d: Date)
    requires
        d.wf(),
        d != min_date(),
    ensures
        spec_prev_date(d).wf(),
        spec_next_date(spec_prev_date(d)) == d,
        day_number(spec_prev_date(d)) == day_number(d) - 1,
{
    let p = spec_prev_date(d);
    assert(p.wf());
    assert(spec_next_date(p) == d);
    lemma_day_number_next(p);
}

/// Day numbers of a year's dates sit between the year's first day and the
/// next year's first day.
proof fn lemma_day_number_bounds(d: Date)
    requires
        d.wf(),
    ensures
        days_before_year(d.year as int) + 1 <= day_number(d),
        day_number(d) <= days_before_year(d.year as int + 1),
{
    let y = d.year as int;
    let m = d.month as int;
    lemma_days_before_month_monotone(y, 1, m);
    assert(days_before_month(y, m + 1) == days_before_month(y, m) + days_in_month(y, m));
    lemma_days_before_month_monotone(y, m + 1, 13);
    lemma_month_offsets(y);
    lemma_days_before_year_succ(y);
}

/// Later years begin no earlier.
proof fn lemma_days_before_year_monotone(y1: int, y2: int)
    requires
        1 <= y1 <= y2,
    ensures
        days_before_year(y1) <= days_before_year(y2),
    decreases y2 - y1,
{
    if y1 < y2 {
        lemma_days_before_year_monotone(y1, y2 - 1);
        lemma_days_before_year_succ(y2 - 1);
    }
}

/// A date in a strictly earlier year has a strictly smaller day number.
proof fn lemma_day_number_year_order(a: Date, b: Date)
    requires
        a.wf(),
        b.wf(),
        a.year < b.year,
    ensures
        day_number(a) < day_number(b),
{
    lemma_day_number_bounds(a);
    lemma_day_number_bounds(b);
    lemma_days_before_year_monotone(a.year as int + 1, b.year as int);
}

/// Within a year, a date in a strictly earlier month has a strictly smaller
/// day number.
proof fn lemma_day_number_month_order(a: Date, b: Date)
    requires
        a.wf(),
        b.wf(),
        a.year == b.year,
        a.month < b.month,
    ensures
        day_number(a) < day_number(b),
{
    let y = a.year as int;
    let m = a.month as int;
    assert(days_before_month(y, m + 1) == days_before_month(y, m) + days_in_month(y, m));
    lemma_days_before_month_monotone(y, m + 1, b.month as int);
}

/// No two distinct dates share a day number.
pub proof fn lemma_day_number_injective(a: Date, b: Date)
    requires
        a.wf(),
        b.wf(),
        day_number(a) == day_number(b),
    ensures
        a == b,
{
    if a.year < b.year {
        lemma_day_number_year_order(a, b);
    } else if b.year < a.year {
        lemma_day_number_year_order(b, a);
    } else if a.month < b.month {
        lemma_day_number_month_order(a, b);
    } else if b.month < a.month {
        lemma_day_number_month_order(b, a);
    }
}

/// The weekday of a date whose day number is known up to a multiple of
/// seven.
pub proof fn lemma_weekday_from_day_number(d: Date, q: int, r: int)
    requires
        d.wf(),
        day_number(d) - 1 == q * 7 + r,
        0 <= r < 7,
    ensures
        weekday(d) == r,
{
    lemma_fundamental_div_mod_converse(day_number(d) - 1, 7, q, r);
}

/// Dates whose year keeps a margin from the supported range's ends sit a full
/// year inside it, in day numbers.
pub proof fn lemma_day_number_room(d: Date)
    requires
        d.wf(),
        MIN_YEAR < d.year,
        d.year < MAX_YEAR,
    ensures
        day_number(min_date()) + 366 <= day_number(d),
        day_number(d) <= day_number(max_date()) - 365,
{
    let y = d.year as int;
    lemma_day_number_bounds(d);
    lemma_days_before_year_monotone(MIN_YEAR as int + 1, y);
    lemma_days_before_year_succ(MIN_YEAR as int);
    lemma_days_before_year_monotone(y + 1, MAX_YEAR as int);
    lemma_month_offsets(MIN_YEAR as int);
    lemma_month_offsets(MAX_YEAR as int);
    assert(day_number(min_date()) == days_before_year(MIN_YEAR as int) + 1);
    assert(day_number(max_date()) == days_before_year(MAX_YEAR as int) + 334 + if is_leap_year(
        MAX_YEAR as int,
    ) {
        1int
    } else {
        0int
    } + 31);
}

/// Whether `y` is a leap year.
pub fn leap_year(y: i64) -> (r: bool)
    requires
        MIN_YEAR <= y <= MAX_YEAR,
    ensures
        r == is_leap_year(y as int),
{
    let yu: u64 = y as u64;
    (yu % 4 == 0 && yu % 100 != 0) || yu % 400 == 0
}

/// How many days the given month has.
pub fn month_length(y: i64, m: i64) -> (r: i64)
    requires
        MIN_YEAR <= y <= MAX_YEAR,
        1 <= m <= 12,
    ensures
        r == days_in_month(y as int, m as int),
{
    if m == 2 {
        if leap_year(y) {
            29
        } else {
            28
        }
    } else if m == 4 || m == 6 || m == 9 || m == 11 {
        30
    } else {
        31
    }
}

/// Days in the months of year `y` before month `m`.
fn month_offset(y: i64, m: i64) -> (r: u64)
    requires
        MIN_YEAR <= y <= MAX_YEAR,
        1 <= m <= 12,
    ensures
        r == days_before_month(y as int, m as int),
        r <= 335,
{
    let base: u64 = match m {
        1 => 0,
        2 => 31,
        3 => 59,
        4 => 90,
        5 => 120,
        6 => 151,
        7 => 181,
        8 => 212,
        9 => 243,
        10 => 273,
        11 => 304,
        _ => 334,
    };
    let adj: u64 = if m > 2 && leap_year(y) {
        1
    } else {
        0
    };
    proof {
        lemma_month_offsets(y as int);
    }
    base + adj
}

/// The day number of a date.
pub fn day_number_of(d: Date) -> (n: u64)
    requires
        d.wf(),
    ensures
        n == day_number(d),
{
    let ym1: u64 = (d.year - 1) as u64;
    proof {
        lemma_fundamental_div_mod(ym1 as int, 4);
        lemma_fundamental_div_mod(ym1 as int, 100);
        lemma_fundamental_div_mod(ym1 as int, 400);
        assert(0 <= (ym1 as int) / 4 <= ym1 as int);
        assert(0 <= (ym1 as int) / 100 <= ym1 as int);
        assert(0 <= (ym1 as int) / 400 <= ym1 as int);
    }
    let before_year: u64 = 365 * ym1 + ym1 / 4 - ym1 / 100 + ym1 / 400;
    let before_month: u64 = month_offset(d.year, d.month);
    before_year + before_month + (d.day as u64)
}

/// The day of the week, Monday being zero.
pub fn weekday_of(d: Date) -> (w: u64)
    requires
        d.wf(),
    ensures
        w == weekday(d),
        w <= 6,
{
    let n: u64 = day_number_of(d);
    proof {
        lemma_day_number_bounds(d);
        lemma_fundamental_div_mod((d.year as int - 1), 100);
    }
    (n - 1) % 7
}

/// The date one day later.
pub fn next_date(d: Date) -> (r: Date)
    requires
        d.wf(),
        d != max_date(),
    ensures
        r == spec_next_date(d),
        r.wf(),
        day_number(r) == day_number(d) + 1,
{
    proof {
        lemma_day_number_next(d);
    }
    let dim = month_length(d.year, d.month);
    if d.day < dim {
        Date { year: d.year, month: d.month, day: d.day + 1 }
    } else if d.month < 12 {
        Date { year: d.year, month: d.month + 1, day: 1 }
    } else {
        Date { year: d.year + 1, month: 1, day: 1 }
    }
}

/// The date one day earlier.
pub fn prev_date(d: Date) -> (r: Date)
    requires
        d.wf(),
        d != min_date(),
    ensures
        r == spec_prev_date(d),
        r.wf(),
        day_number(r) == day_number(d) - 1,
{
    proof {
        lemma_day_number_prev(d);
    }
    if d.day > 1 {
        Date { year: d.year, month: d.month, day: d.day - 1 }
    } else if d.month > 1 {
        let dim = month_length(d.year, d.month - 1);
        Date { year: d.year, month: d.month - 1, day: dim }
    } else {
        Date { year: d.year - 1, month: 12, day: 31 }
    }
}

/// The date `n` days later.
pub fn add_days(d: Date, n: u64) -> (r: Date)
    requires
        d.wf(),
        day_number(d) + n <= day_number(max_date()),
    ensures
        r.wf(),
        day_number(r) == day_number(d) + n,
{
    let mut cur = d;
    let mut k: u64 = 0;
    while k < n
        invariant
            cur.wf(),
            k <= n,
            day_number(cur) == day_number(d) + k,
            day_number(d) + n <= day_number(max_date()),
        decreases n - k,
    {
        proof {
            assert(day_number(cur) < day_number(max_date()));
        }
        cur = next_date(cur);
        k = k + 1;
    }
    cur
}

/// The date `n` days earlier.
pub fn sub_days(d: Date, n: u64) -> (r: Date)
    requires
        d.wf(),
        day_number(d) - n >= day_number(min_date()),
    ensures
        r.wf(),
        day_number(r) == day_number(d) - n,
{
    let mut cur = d;
    let mut k: u64 = 0;
    while k < n
        invariant
            cur.wf(),
            k <= n,
            day_number(cur) == day_number(d) - k,
            day_number(d) - n >= day_number(min_date()),
        decreases n - k,
    {
        proof {
            assert(day_number(cur) > day_number(min_date()));
        }
        cur = prev_date(cur);
        k = k + 1;
    }
    cur
}

/// The text of a date: four-digit year, two-digit month and two-digit day,
/// separated by hyphens.
pub open spec fn date_str(d: Date) -> Seq<char> {
    dec_str(d.year as int) + seq!['-'] + pad2(d.month as int) + seq!['-'] + pad2(d.day as int)
}

/// Renders a date as its hyphenated text.
pub fn format_date(d: Date) -> (r: String)
    requires
        d.wf(),
    ensures
        r@ == date_str(d),
{
    let mut s = String::new();
    push_dec_digits(d.year as u64, &mut s);
    push_char(&mut s, '-');
    if d.month < 10 {
        push_char(&mut s, '0');
    }
    push_dec_digits(d.month as u64, &mut s);
    push_char(&mut s, '-');
    if d.day < 10 {
        push_char(&mut s, '0');
    }
    push_dec_digits(d.day as u64, &mut s);
    assert(s@ =~= date_str(d));
    s
}

} // verus!
