//! Moments in the Gregorian calendar, and the stamps that name files after them.

use crate::models::Timestamp;
use crate::numbers;
use crate::outline;
use vstd::prelude::*;

verus! {

/// A second in UTC: the day of a month, counted from one, and the time of day.
pub struct Moment {
    pub year: int,
    pub month: int,
    pub day: int,
    pub hour: int,
    pub minute: int,
    pub second: int,
}

pub open spec fn is_leap(year: int) -> bool {
    year % 4 == 0 && (year % 100 != 0 || year % 400 == 0)
}

/// The number of days in the years from nought up to a year.
pub open spec fn days_before_year(year: int) -> int {
    365 * year + (year + 3) / 4 - (year + 99) / 100 + (year + 399) / 400
}

pub open spec fn leap_day(year: int) -> int {
    if is_leap(year) {
        1
    } else {
        0
    }
}

/// The number of days in a year before a month; all of them before a month behind the last.
pub open spec fn days_before_month(year: int, month: int) -> int {
    if month <= 1 {
        0
    } else if month == 2 {
        31
    } else {
        leap_day(year) + (if month == 3 {
            59int
        } else if month == 4 {
            90
        } else if month == 5 {
            120
        } else if month == 6 {
            151
        } else if month == 7 {
            181
        } else if month == 8 {
            212
        } else if month == 9 {
            243
        } else if month == 10 {
            273
        } else if month == 11 {
            304
        } else if month == 12 {
            334
        } else {
            365
        })
    }
}

/// The days from the first of 1970 on.
pub open spec fn day_number(m: Moment) -> int {
    days_before_year(m.year) + days_before_month(m.year, m.month) + (m.day - 1) - 719_528
}

/// The seconds from the start of 1970 on.
pub open spec fn seconds(m: Moment) -> int {
    day_number(m) * 86_400 + m.hour * 3_600 + m.minute * 60 + m.second
}

/// A moment of a year with no more than four digits.
pub open spec fn is_moment(m: Moment) -> bool {
    &&& 0 <= m.year <= 9_999
    &&& 1 <= m.month <= 12
    &&& 1 <= m.day <= days_before_month(m.year, m.month + 1) - days_before_month(m.year, m.month)
    &&& 0 <= m.hour < 24
    &&& 0 <= m.minute < 60
    &&& 0 <= m.second < 60
}

/// A moment in the form `%Y%m%dT%H%M%SZ`.
pub open spec fn stamp(m: Moment) -> Seq<char> {
    numbers::padded(m.year as nat, 4) + (numbers::padded(m.month as nat, 2) + (numbers::padded(
        m.day as nat,
        2,
    ) + (seq!['T'] + (numbers::padded(m.hour as nat, 2) + (numbers::padded(m.minute as nat, 2) + (
    numbers::padded(m.second as nat, 2) + seq!['Z']))))))
}

/// Whether a text is the stamp of a second since the start of 1970.
pub open spec fn is_stamp(t: Seq<char>, secs: int) -> bool {
    exists|m: Moment| #[trigger] is_moment(m) && seconds(m) == secs && t == stamp(m)
}

/// The times from the start of the year 0 to the end of the year 9999, leap seconds left out.
pub open spec fn is_common(t: Timestamp) -> bool {
    -62_167_219_200 <= t.secs <= 253_402_300_799 && t.nanos < 1_000_000_000
}

proof fn lemma_year_lengths(a: int, b: int)
    requires
        0 <= a < b,
    ensures
        days_before_year(a) + 365 + leap_day(a) <= days_before_year(b),
    decreases b - a,
{
    assert(days_before_year(a + 1) == days_before_year(a) + 365 + leap_day(a));
    if a + 1 < b {
        lemma_year_lengths(a + 1, b);
    }
}

/// Of two moments the one with the smaller year comes first; in one year the one with the smaller
/// month; and so on down to the second.
pub open spec fn comes_first(a: Moment, b: Moment) -> bool {
    ||| a.year < b.year
    ||| a.year == b.year && a.month < b.month
    ||| a.year == b.year && a.month == b.month && a.day < b.day
    ||| a.year == b.year && a.month == b.month && a.day == b.day && a.hour < b.hour
    ||| a.year == b.year && a.month == b.month && a.day == b.day && a.hour == b.hour && a.minute
        < b.minute
    ||| a.year == b.year && a.month == b.month && a.day == b.day && a.hour == b.hour && a.minute
        == b.minute && a.second < b.second
}

proof fn lemma_month_lengths(year: int, a: int, b: int)
    requires
        1 <= a < b <= 13,
    ensures
        days_before_month(year, a + 1) <= days_before_month(year, b),
        days_before_month(year, b) <= 365 + leap_day(year),
        days_before_month(year, a) >= 0,
{
}

proof fn lemma_seconds_follow(a: Moment, b: Moment)
    requires
        is_moment(a),
        is_moment(b),
        comes_first(a, b),
    ensures
        seconds(a) < seconds(b),
{
    lemma_month_lengths(a.year, a.month, a.month + 1);
    lemma_month_lengths(a.year, a.month, 13);
    lemma_month_lengths(b.year, b.month, b.month + 1);
    if a.year < b.year {
        lemma_year_lengths(a.year, b.year);
        assert(day_number(a) < day_number(b));
    } else if a.month < b.month {
        lemma_month_lengths(a.year, a.month, b.month);
        assert(day_number(a) < day_number(b));
    }
}

/// The year of a day that comes before another year.
proof fn lemma_year_of(day: int, year: int) -> (r: int)
    requires
        0 <= day < days_before_year(year),
        0 < year,
    ensures
        0 <= r < year,
        days_before_year(r) <= day < days_before_year(r + 1),
    decreases year,
{
    if days_before_year(year - 1) <= day {
        year - 1
    } else {
        lemma_year_of(day, year - 1)
    }
}

/// The month of a day in a year, where it comes before another month.
proof fn lemma_month_of(year: int, day: int, month: int) -> (r: int)
    requires
        1 < month <= 13,
        0 <= day < days_before_month(year, month),
    ensures
        1 <= r < month,
        days_before_month(year, r) <= day < days_before_month(year, r + 1),
    decreases month,
{
    if days_before_month(year, month - 1) <= day {
        month - 1
    } else {
        lemma_month_of(year, day, month - 1)
    }
}

/// Every second of the years with no more than four digits has a stamp.
pub proof fn law_stamps_exist(t: Timestamp)
    requires
        is_common(t),
    ensures
        exists|s: Seq<char>| is_stamp(s, t.secs as int),
{
    let secs = t.secs as int;
    let day = secs / 86_400 + 719_528;
    let rest = secs % 86_400;
    let year = lemma_year_of(day, 10_000);
    let in_year = day - days_before_year(year);
    assert(days_before_year(year + 1) == days_before_year(year) + 365 + leap_day(year));
    let month = lemma_month_of(year, in_year, 13);
    let m = Moment {
        year,
        month,
        day: in_year - days_before_month(year, month) + 1,
        hour: rest / 3_600,
        minute: rest % 3_600 / 60,
        second: rest % 60,
    };
    assert(is_moment(m));
    assert(seconds(m) == secs);
    assert(is_stamp(stamp(m), secs));
}

/// There is one stamp for each second.
pub proof fn law_one_stamp(s: Seq<char>, t: Seq<char>, secs: int)
    requires
        is_stamp(s, secs),
        is_stamp(t, secs),
    ensures
        s == t,
{
    let a = choose|m: Moment| #[trigger] is_moment(m) && seconds(m) == secs && s == stamp(m);
    let b = choose|m: Moment| #[trigger] is_moment(m) && seconds(m) == secs && t == stamp(m);
    if comes_first(a, b) {
        lemma_seconds_follow(a, b);
    } else if comes_first(b, a) {
        lemma_seconds_follow(b, a);
    } else {
        assert(a == b);
    }
}

/// Stamps sort like the seconds that they stand for, whatever follows them.
pub proof fn law_stamps_sort(
    s: Seq<char>,
    earlier: int,
    t: Seq<char>,
    later: int,
    after_s: Seq<char>,
    after_t: Seq<char>,
)
    requires
        is_stamp(s, earlier),
        is_stamp(t, later),
        earlier < later,
    ensures
        outline::precedes(s + after_s, t + after_t),
{
    let a = choose|m: Moment| #[trigger] is_moment(m) && seconds(m) == earlier && s == stamp(m);
    let b = choose|m: Moment| #[trigger] is_moment(m) && seconds(m) == later && t == stamp(m);
    if comes_first(b, a) {
        lemma_seconds_follow(b, a);
    }
    if !comes_first(a, b) {
        assert(a == b);
    }
    lemma_stamp_lengths(a);
    lemma_stamp_lengths(b);
    lemma_stamps_precede(a, b);
    outline::lemma_precedes_extended(s, t, after_s, after_t);
}

proof fn lemma_stamp_lengths(m: Moment)
    ensures
        stamp(m).len() == 16,
{
    numbers::lemma_padded_length(m.year as nat, 4);
    numbers::lemma_padded_length(m.month as nat, 2);
    numbers::lemma_padded_length(m.day as nat, 2);
    numbers::lemma_padded_length(m.hour as nat, 2);
    numbers::lemma_padded_length(m.minute as nat, 2);
    numbers::lemma_padded_length(m.second as nat, 2);
}

/// Numbers of one width decide the order, where they differ; else what follows them does.
proof fn lemma_field(a: int, b: int, width: nat, x: Seq<char>, y: Seq<char>)
    requires
        0 <= a <= b < numbers::room(width),
        a == b ==> outline::precedes(x, y),
    ensures
        outline::precedes(
            numbers::padded(a as nat, width) + x,
            numbers::padded(b as nat, width) + y,
        ),
    decreases width,
{
    if a == b {
        outline::lemma_precedes_common(numbers::padded(a as nat, width), x, y);
    } else {
        let p = numbers::padded(a as nat / 10, (width - 1) as nat);
        let q = numbers::padded(b as nat / 10, (width - 1) as nat);
        let c = numbers::digit_char(a as nat % 10);
        let d = numbers::digit_char(b as nat % 10);
        assert(p.push(c) + x =~= p + (seq![c] + x));
        assert(q.push(d) + y =~= q + (seq![d] + y));
        if a / 10 == b / 10 {
            assert((seq![c] + x)[0] == c && (seq![d] + y)[0] == d);
        }
        lemma_field(a / 10, b / 10, (width - 1) as nat, seq![c] + x, seq![d] + y);
    }
}

proof fn lemma_stamps_precede(a: Moment, b: Moment)
    requires
        is_moment(a),
        is_moment(b),
        comes_first(a, b),
    ensures
        outline::precedes(stamp(a), stamp(b)),
{
    reveal_with_fuel(numbers::room, 5);
    lemma_month_lengths(a.year, a.month, a.month + 1);
    lemma_month_lengths(b.year, b.month, b.month + 1);
    let end = seq!['Z'];
    let s = |m: Moment| numbers::padded(m.second as nat, 2) + end;
    let mi = |m: Moment| numbers::padded(m.minute as nat, 2) + s(m);
    let h = |m: Moment| numbers::padded(m.hour as nat, 2) + mi(m);
    let th = |m: Moment| seq!['T'] + h(m);
    let d = |m: Moment| numbers::padded(m.day as nat, 2) + th(m);
    let mo = |m: Moment| numbers::padded(m.month as nat, 2) + d(m);
    if a.year == b.year {
        if a.month == b.month {
            if a.day == b.day {
                if a.hour == b.hour {
                    if a.minute == b.minute {
                        lemma_field(a.second, b.second, 2, end, end);
                    }
                    lemma_field(a.minute, b.minute, 2, s(a), s(b));
                }
                lemma_field(a.hour, b.hour, 2, mi(a), mi(b));
                outline::lemma_precedes_common(seq!['T'], h(a), h(b));
            }
            lemma_field(a.day, b.day, 2, th(a), th(b));
        }
        lemma_field(a.month, b.month, 2, d(a), d(b));
    }
    lemma_field(a.year, b.year, 4, mo(a), mo(b));
}

} // verus!
