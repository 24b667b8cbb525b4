//! Dates of the Gregorian calendar.

use vstd::prelude::*;
use vstd::string::*;

use crate::text::{decimal, decimal_text};

verus! {

broadcast use vstd::string::group_string_axioms;

/// A day of the calendar.
#[derive(Debug, Clone, Copy, PartialEq, Eq, Structural)]
pub struct Date {
    pub year: u64,
    pub month: u64,
    pub day: u64,
}

/// Whether a year has a leap day.
pub open spec fn is_leap(year: int) -> bool {
    year % 4 == 0 && (year % 100 != 0 || year % 400 == 0)
}

/// How many days a month has.
pub open spec fn month_days(year: int, month: int) -> int {
    if month == 2 {
        if is_leap(year) {
            29
        } else {
            28
        }
    } else if month == 4 || month == 6 || month == 9 || month == 11 {
        30
    } else {
        31
    }
}

/// How many days a year has.
pub open spec fn year_days(year: int) -> int {
    if is_leap(year) {
        366
    } else {
        365
    }
}

/// How many days there are from 1970 up to a year.
pub open spec fn days_of_years(year: int) -> int
    decreases year - 1970,
{
    if year <= 1970 {
        0
    } else {
        days_of_years(year - 1) + year_days(year - 1)
    }
}

/// How many days of a year there are before a month.
pub open spec fn days_of_months(year: int, month: int) -> int
    decreases month,
{
    if month <= 1 {
        0
    } else {
        days_of_months(year, month - 1) + month_days(year, month - 1)
    }
}

impl Date {
    /// Whether there is such a day, from 1970 on.
    pub open spec fn valid(self) -> bool {
        &&& self.year >= 1970
        &&& 1 <= self.month <= 12
        &&& 1 <= self.day <= month_days(self.year as int, self.month as int)
    }

    /// How many days it is after the first day of 1970.
    pub open spec fn number(self) -> int {
        days_of_years(self.year as int) + days_of_months(self.year as int, self.month as int)
            + self.day - 1
    }
}

/// How many leap days there are up to the end of a year.
spec fn leaps(year: int) -> int {
    year / 4 - year / 100 + year / 400
}

proof fn lemma_leaps(year: int)
    requires
        year >= 1,
    ensures
        leaps(year) == leaps(year - 1) + (if is_leap(year) {
            1int
        } else {
            0
        }),
{
}

/// The days of years, without counting them one by one.
proof fn lemma_days_of_years(year: int)
    requires
        year >= 1970,
    ensures
        days_of_years(year) == 365 * (year - 1970) + leaps(year - 1) - 477,
    decreases year,
{
    if year > 1970 {
        lemma_days_of_years(year - 1);
        lemma_leaps(year - 1);
    }
}

/// The days before every month.
proof fn lemma_days_of_months(year: int)
    ensures
        ({
            let leap: int = if is_leap(year) {
                1
            } else {
                0
            };
            &&& days_of_months(year, 1) == 0
            &&& days_of_months(year, 2) == 31
            &&& days_of_months(year, 3) == 59 + leap
            &&& days_of_months(year, 4) == 90 + leap
            &&& days_of_months(year, 5) == 120 + leap
            &&& days_of_months(year, 6) == 151 + leap
            &&& days_of_months(year, 7) == 181 + leap
            &&& days_of_months(year, 8) == 212 + leap
            &&& days_of_months(year, 9) == 243 + leap
            &&& days_of_months(year, 10) == 273 + leap
            &&& days_of_months(year, 11) == 304 + leap
            &&& days_of_months(year, 12) == 334 + leap
            &&& days_of_months(year, 13) == 365 + leap
        }),
{
    reveal_with_fuel(days_of_months, 14);
}

/// No two days have the same number.
pub proof fn law_number_is_unique(a: Date, b: Date)
    requires
        a.valid(),
        b.valid(),
        a.number() == b.number(),
    ensures
        a == b,
{
    if a.year < b.year {
        lemma_before_next_year(a);
        lemma_years_grow(a.year as int + 1, b.year as int);
        lemma_after_year(b);
    } else if b.year < a.year {
        lemma_before_next_year(b);
        lemma_years_grow(b.year as int + 1, a.year as int);
        lemma_after_year(a);
    } else {
        lemma_days_of_months(a.year as int);
    }
}

proof fn lemma_before_next_year(a: Date)
    requires
        a.valid(),
    ensures
        a.number() < days_of_years(a.year as int + 1),
{
    lemma_days_of_months(a.year as int);
}

proof fn lemma_after_year(a: Date)
    requires
        a.valid(),
    ensures
        a.number() >= days_of_years(a.year as int),
{
    lemma_days_of_months(a.year as int);
}

proof fn lemma_years_grow(a: int, b: int)
    requires
        1970 <= a <= b,
    ensures
        days_of_years(a) <= days_of_years(b),
    decreases b - a,
{
    if a < b {
        lemma_years_grow(a, b - 1);
    }
}

/// What cycles of years make of a number of days after the first of March of
/// the year zero.
proof fn lemma_cycles(z: int, a: int, b: int, c: int, d: int, doy: int)
    requires
        z == 146_097 * a + 36_524 * b + 1461 * c + 365 * d + doy,
        a >= 0,
        0 <= b <= 3,
        0 <= c <= 24,
        0 <= d <= 3,
        0 <= doy <= 365,
        doy == 365 ==> d == 3 && (c < 24 || b == 3),
    ensures
        ({
            let y = 400 * a + 100 * b + 4 * c + d;
            &&& z == 365 * y + leaps(y) + doy
            &&& doy == 365 ==> is_leap(y + 1)
        }),
{
    let y = 400 * a + 100 * b + 4 * c + d;
    assert(y / 4 == 100 * a + 25 * b + c);
    assert(y / 100 == 4 * a + b);
    assert(y / 400 == a);
    if doy == 365 {
        assert(y + 1 == 400 * a + 100 * b + 4 * (c + 1));
        assert((y + 1) % 4 == 0);
        if c < 24 {
            assert((y + 1) % 100 == 4 * (c + 1));
        } else {
            assert(y + 1 == 400 * (a + 1));
        }
    }
}

/// How many days there are from March on before the month of a place.
spec fn before_place(mp: int) -> int {
    (153 * mp + 2) / 5
}

/// The month of a day of a year that begins in March.
proof fn lemma_months(doy: int)
    requires
        0 <= doy <= 365,
    ensures
        ({
            let mp = (5 * doy + 2) / 153;
            &&& 0 <= mp <= 11
            &&& before_place(mp) <= doy
            &&& mp < 11 ==> doy < before_place(mp + 1)
        }),
{
}

/// A day of a year that begins in March is the day of its month.
proof fn lemma_date(days: int, y: int, doy: int, year: int, month: int, day: int)
    requires
        days >= 0,
        days + 719_468 == 365 * y + leaps(y) + doy,
        y >= 0,
        0 <= doy <= 365,
        doy == 365 ==> is_leap(y + 1),
        ({
            let mp = (5 * doy + 2) / 153;
            &&& 0 <= mp <= 11
            &&& before_place(mp) <= doy
            &&& mp < 11 ==> doy < before_place(mp + 1)
            &&& day == doy - before_place(mp) + 1
            &&& month == if mp < 10 {
                mp + 3
            } else {
                mp - 9
            }
        }),
        year == if month <= 2 {
            y + 1
        } else {
            y
        },
    ensures
        year >= 1970,
        1 <= month <= 12,
        1 <= day <= month_days(year, month),
        days_of_years(year) + days_of_months(year, month) + day - 1 == days,
{
    let mp = (5 * doy + 2) / 153;
    lemma_from_year_zero(days, y, doy);
    lemma_leaps(y);
    lemma_days_of_months(y);
    lemma_days_of_months(y + 1);
    assert(mp == 0 || mp == 1 || mp == 2 || mp == 3 || mp == 4 || mp == 5 || mp == 6 || mp == 7
        || mp == 8 || mp == 9 || mp == 10 || mp == 11);
    if month > 2 {
        if y == 1969 {
            assert(doy < before_place(10));
            assert(leaps(1969) == 477);
        }
        lemma_days_of_years(y);
    } else {
        lemma_days_of_years(y + 1);
    }
}

/// A day from 1970 on lies in no earlier year.
proof fn lemma_from_year_zero(days: int, y: int, doy: int)
    requires
        days >= 0,
        days + 719_468 == 365 * y + leaps(y) + doy,
        0 <= y,
        0 <= doy <= 365,
    ensures
        y >= 1969,
{
    if y < 1969 {
        assert(leaps(y) <= y / 4);
        assert(365 * y <= 365 * 1968);
        assert(leaps(y) <= 477) by {
            assert(y / 4 <= 492 && y / 100 <= 19);
            lemma_leaps_grow(y, 1968);
            assert(leaps(1968) == 477);
        }
    }
}

proof fn lemma_leaps_grow(a: int, b: int)
    requires
        0 <= a <= b,
    ensures
        leaps(a) <= leaps(b),
    decreases b - a,
{
    if a < b {
        lemma_leaps_grow(a, b - 1);
        lemma_leaps(b);
    }
}

/// The day that comes a number of days after the first day of 1970.
///
/// Years are taken to begin in March, so that the leap day comes last; they are
/// counted in cycles of four hundred, of a hundred, of four and of one.
pub fn civil(days: u64) -> (r: Date)
    requires
        days <= 300_000_000_000_000,
    ensures
        r.valid(),
        r.number() == days,
{
    let z: u64 = days + 719_468;
    let a: u64 = z / 146_097;
    let r1: u64 = z % 146_097;
    let b: u64 = if r1 / 36_524 > 3 {
        3
    } else {
        r1 / 36_524
    };
    let r2: u64 = r1 - b * 36_524;
    let c: u64 = r2 / 1461;
    let r3: u64 = r2 % 1461;
    let d: u64 = if r3 / 365 > 3 {
        3
    } else {
        r3 / 365
    };
    let doy: u64 = r3 - d * 365;
    let y: u64 = 400 * a + 100 * b + 4 * c + d;
    let mp: u64 = (5 * doy + 2) / 153;
    let day: u64 = doy - (153 * mp + 2) / 5 + 1;
    let month: u64 = if mp < 10 {
        mp + 3
    } else {
        mp - 9
    };
    let year: u64 = if month <= 2 {
        y + 1
    } else {
        y
    };
    proof {
        lemma_cycles(z as int, a as int, b as int, c as int, d as int, doy as int);
        lemma_months(doy as int);
        lemma_date(days as int, y as int, doy as int, year as int, month as int, day as int);
    }
    Date { year, month, day }
}

/// A number in decimal, with zeros before it up to a width.
pub open spec fn padded(n: nat, width: int) -> Seq<char> {
    let d = decimal(n);
    if d.len() >= width {
        d
    } else {
        Seq::new((width - d.len()) as nat, |i: int| '0') + d
    }
}

/// A number in decimal, with zeros before it up to a width.
fn padded_text(n: u64, width: usize) -> (r: String)
    ensures
        r@ == padded(n as nat, width as int),
{
    let digits = decimal_text(n);
    let len: usize = digits.as_str().unicode_len();
    let mut out = String::new();
    let mut k: usize = len;
    proof {
        assert(out@ =~= Seq::new(0, |i: int| '0'));
    }
    while k < width
        invariant
            len <= k,
            k <= width || k == len,
            out@ == Seq::new((k - len) as nat, |i: int| '0'),
        decreases width - k,
    {
        out.push('0');
        k = k + 1;
        proof {
            assert(out@ =~= Seq::new((k - len) as nat, |i: int| '0'));
        }
    }
    out.append(digits.as_str());
    proof {
        assert(out@ =~= padded(n as nat, width as int));
    }
    out
}

/// A moment in ISO 8601, in UTC: a date, and the seconds of its day.
pub open spec fn moment(date: Date, seconds: int) -> Seq<char> {
    padded(date.year as nat, 4) + "-"@ + padded(date.month as nat, 2) + "-"@ + padded(
        date.day as nat,
        2,
    ) + "T"@ + padded((seconds / 3600) as nat, 2) + ":"@ + padded(
        ((seconds % 3600) / 60) as nat,
        2,
    ) + ":"@ + padded((seconds % 60) as nat, 2) + "Z"@
}

/// The date that comes a number of days after the first day of 1970.
pub open spec fn date_of(days: int) -> Date {
    choose|d: Date| d.valid() && d.number() == days
}

/// A moment, given in seconds after the first of 1970, in ISO 8601.
pub fn iso8601(seconds: u64) -> (r: String)
    ensures
        date_of(seconds as int / 86_400).valid(),
        date_of(seconds as int / 86_400).number() == seconds as int / 86_400,
        r@ == moment(date_of(seconds as int / 86_400), seconds as int % 86_400),
{
    let date = civil(seconds / 86_400);
    let secs: u64 = seconds % 86_400;
    proof {
        let other = date_of(seconds as int / 86_400);
        assert(date.valid() && date.number() == seconds as int / 86_400);
        law_number_is_unique(date, other);
    }
    let mut t = padded_text(date.year, 4);
    t.append("-");
    t.append(padded_text(date.month, 2).as_str());
    t.append("-");
    t.append(padded_text(date.day, 2).as_str());
    t.append("T");
    t.append(padded_text(secs / 3600, 2).as_str());
    t.append(":");
    t.append(padded_text((secs % 3600) / 60, 2).as_str());
    t.append(":");
    t.append(padded_text(secs % 60, 2).as_str());
    t.append("Z");
    t
}

} // verus!
