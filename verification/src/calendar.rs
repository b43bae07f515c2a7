//! Proleptic Gregorian calendar arithmetic on whole days.
//!
//! A `Date` is a plain year/month/day triple.  Dates are related to linear
//! day numbers (days elapsed since the first of January of year 1) by
//! [`spec_day_number`]; both conversions are verified against it, so a date
//! handed out by the engine always maps back exactly to the day count it was
//! derived from.

use vstd::prelude::*;

verus! {

/// Largest day number the engine ever converts back into a date.
pub const DAY_NUMBER_MAX: u64 = 50_000_000;

/// Largest year a valid `Date` may carry; generous enough for every day
/// number up to `DAY_NUMBER_MAX`.
pub const YEAR_MAX: u64 = 200_000;

/// A calendar date in the proleptic Gregorian calendar.
#[derive(Clone, Copy, Debug, PartialEq, Eq, Structural)]
pub struct Date {
    pub year: u64,
    pub month: u8,
    pub day: u8,
}

/// Gregorian leap-year rule.
pub open spec fn spec_is_leap(y: int) -> bool {
    y % 4 == 0 && (y % 100 != 0 || y % 400 == 0)
}

/// Days in the year `y`.
pub open spec fn spec_year_length(y: int) -> int {
    if spec_is_leap(y) {
        366
    } else {
        365
    }
}

/// Days in month `m` of year `y` (for `m` in 1..=12).
pub open spec fn spec_days_in_month(y: int, m: int) -> int {
    if m == 2 {
        if spec_is_leap(y) {
            29
        } else {
            28
        }
    } else if m == 4 || m == 6 || m == 9 || m == 11 {
        30
    } else {
        31
    }
}

/// Days in all years strictly before year `y`, counted from year 1.
pub open spec fn spec_days_before_year(y: int) -> int
    decreases y,
{
    if y <= 1 {
        0
    } else {
        spec_days_before_year(y - 1) + spec_year_length(y - 1)
    }
}

/// Days in all months of year `y` strictly before month `m`.
pub open spec fn spec_days_before_month(y: int, m: int) -> int
    decreases m,
{
    if m <= 1 {
        0
    } else {
        spec_days_before_month(y, m - 1) + spec_days_in_month(y, m - 1)
    }
}

/// The linear day number of a date: days elapsed since 0001-01-01.
pub open spec fn spec_day_number(d: Date) -> int {
    spec_days_before_year(d.year as int) + spec_days_before_month(d.year as int, d.month as int)
        + d.day - 1
}

/// A well-formed date: month and day inside the calendar, year in the
/// engine's supported range.
pub open spec fn spec_date_valid(d: Date) -> bool {
    &&& 1 <= d.year <= YEAR_MAX
    &&& 1 <= d.month <= 12
    &&& 1 <= d.day <= spec_days_in_month(d.year as int, d.month as int)
}

/// The twelve months of `y` together hold exactly one year of days.
proof fn lemma_year_total(y: int)
    ensures
        spec_days_before_month(y, 13) == spec_year_length(y),
{
    reveal_with_fuel(spec_days_before_month, 13);
}

/// A year count is bounded by its day count: each year holds at least 365
/// days.
proof fn lemma_days_before_year_lower(y: int)
    requires
        y >= 1,
    ensures
        spec_days_before_year(y) >= 365 * (y - 1),
    decreases y,
{
    if y > 1 {
        lemma_days_before_year_lower(y - 1);
    }
}

/// Exec mirror of the leap-year rule.
pub fn is_leap(y: u64) -> (r: bool)
    ensures
        r == spec_is_leap(y as int),
{
    y % 4 == 0 && (y % 100 != 0 || y % 400 == 0)
}

/// Exec mirror of the year length.
pub fn year_length(y: u64) -> (r: u64)
    ensures
        r == spec_year_length(y as int),
{
    if is_leap(y) {
        366
    } else {
        365
    }
}

/// Exec mirror of the month length.
pub fn days_in_month(y: u64, m: u8) -> (r: u64)
    ensures
        r == spec_days_in_month(y as int, m as int),
        1 <= r <= 31,
{
    if m == 2 {
        if is_leap(y) {
            29
        } else {
            28
        }
    } else if m == 4 || m == 6 || m == 9 || m == 11 {
        30
    } else {
        31
    }
}

impl Date {
    /// The linear day number of this date.
    pub fn day_number(&self) -> (r: u64)
        requires
            spec_date_valid(*self),
        ensures
            r == spec_day_number(*self),
            r <= 400 * self.year,
    {
        let mut y: u64 = 1;
        let mut acc: u64 = 0;
        while y < self.year
            invariant
                1 <= y <= self.year <= YEAR_MAX,
                acc == spec_days_before_year(y as int),
                acc <= 366 * (y - 1),
            decreases self.year - y,
        {
            acc = acc + year_length(y);
            y = y + 1;
        }
        let mut m: u8 = 1;
        while m < self.month
            invariant
                spec_date_valid(*self),
                1 <= m <= self.month,
                acc == spec_days_before_year(self.year as int) + spec_days_before_month(
                    self.year as int, m as int),
                acc <= 366 * (self.year as int - 1) + 31 * (m - 1),
            decreases self.month - m,
        {
            acc = acc + days_in_month(self.year, m);
            m = m + 1;
        }
        acc + (self.day - 1) as u64
    }
}

/// Converts a linear day number back into the date it belongs to: the result
/// is valid and maps to `dn` under [`spec_day_number`].
pub fn civil_from_days(dn: u64) -> (r: Date)
    requires
        dn <= DAY_NUMBER_MAX,
    ensures
        spec_date_valid(r),
        spec_day_number(r) == dn,
{
    let mut y: u64 = 1;
    let mut rem: u64 = dn;
    loop
        invariant
            1 <= y,
            dn <= DAY_NUMBER_MAX,
            spec_days_before_year(y as int) + rem == dn,
        ensures
            1 <= y,
            spec_days_before_year(y as int) + rem == dn,
            rem < spec_year_length(y as int),
        decreases rem,
    {
        proof {
            lemma_days_before_year_lower(y as int);
        }
        let len: u64 = year_length(y);
        if rem < len {
            break;
        }
        rem = rem - len;
        y = y + 1;
    }
    proof {
        lemma_days_before_year_lower(y as int);
    }
    let ghost dn_year: int = spec_days_before_year(y as int);
    let mut m: u8 = 1;
    loop
        invariant
            1 <= m <= 12,
            spec_days_before_month(y as int, m as int) + rem < spec_year_length(y as int),
            dn_year + spec_days_before_month(y as int, m as int) + rem == dn,
            1 <= y <= YEAR_MAX,
        ensures
            1 <= m <= 12,
            dn_year + spec_days_before_month(y as int, m as int) + rem == dn,
            rem < spec_days_in_month(y as int, m as int),
        decreases 12 - m,
    {
        let dim: u64 = days_in_month(y, m);
        if rem < dim {
            break;
        }
        proof {
            lemma_year_total(y as int);
            if m == 12 {
                assert(spec_days_before_month(y as int, 13) == spec_days_before_month(y as int,
                    12) + spec_days_in_month(y as int, 12));
                assert(false);
            }
        }
        rem = rem - dim;
        m = m + 1;
    }
    Date { year: y, month: m, day: (rem + 1) as u8 }
}



/// Month day-sums grow with the month.
proof fn lemma_days_before_month_mono(y: int, m1: int, m2: int)
    requires
        m1 <= m2,
    ensures
        spec_days_before_month(y, m1) <= spec_days_before_month(y, m2),
    decreases m2 - m1,
{
    if m1 < m2 {
        lemma_days_before_month_mono(y, m1, m2 - 1);
        if m2 >= 2 {
            assert(spec_days_in_month(y, m2 - 1) >= 28);
        }
    }
}

/// Year day-sums grow with the year.
proof fn lemma_days_before_year_mono(y1: int, y2: int)
    requires
        y1 <= y2,
    ensures
        spec_days_before_year(y1) <= spec_days_before_year(y2),
    decreases y2 - y1,
{
    if y1 < y2 {
        lemma_days_before_year_mono(y1, y2 - 1);
    }
}

/// A valid date's day number falls inside its own year.
proof fn lemma_day_number_range(d: Date)
    requires
        spec_date_valid(d),
    ensures
        spec_days_before_year(d.year as int) <= spec_day_number(d) < spec_days_before_year(
            d.year as int + 1),
{
    let y = d.year as int;
    let m = d.month as int;
    lemma_days_before_month_mono(y, 1, m);
    assert(spec_days_before_month(y, m + 1) == spec_days_before_month(y, m)
        + spec_days_in_month(y, m));
    lemma_days_before_month_mono(y, m + 1, 13);
    lemma_year_total(y);
    assert(spec_days_before_year(y + 1) == spec_days_before_year(y) + spec_year_length(y));
}

/// No two valid dates share a day number: the calendar mapping is
/// injective, so a day count determines its date completely.
pub proof fn lemma_day_number_injective(d1: Date, d2: Date)
    requires
        spec_date_valid(d1),
        spec_date_valid(d2),
        spec_day_number(d1) == spec_day_number(d2),
    ensures
        d1 == d2,
{
    lemma_day_number_range(d1);
    lemma_day_number_range(d2);
    if d1.year < d2.year {
        lemma_days_before_year_mono(d1.year as int + 1, d2.year as int);
        assert(false);
    }
    if d2.year < d1.year {
        lemma_days_before_year_mono(d2.year as int + 1, d1.year as int);
        assert(false);
    }
    let y = d1.year as int;
    let m1 = d1.month as int;
    let m2 = d2.month as int;
    if m1 < m2 {
        assert(spec_days_before_month(y, m1 + 1) == spec_days_before_month(y, m1)
            + spec_days_in_month(y, m1));
        lemma_days_before_month_mono(y, m1 + 1, m2);
        assert(false);
    }
    if m2 < m1 {
        assert(spec_days_before_month(y, m2 + 1) == spec_days_before_month(y, m2)
            + spec_days_in_month(y, m2));
        lemma_days_before_month_mono(y, m2 + 1, m1);
        assert(false);
    }
}

/// The ASCII digit character for one decimal digit.
pub open spec fn spec_digit_char(d: int) -> char {
    if d == 0 {
        '0'
    } else if d == 1 {
        '1'
    } else if d == 2 {
        '2'
    } else if d == 3 {
        '3'
    } else if d == 4 {
        '4'
    } else if d == 5 {
        '5'
    } else if d == 6 {
        '6'
    } else if d == 7 {
        '7'
    } else if d == 8 {
        '8'
    } else {
        '9'
    }
}

/// The decimal digits of `n`, most significant first.
pub open spec fn spec_decimal(n: nat) -> Seq<char>
    decreases n,
{
    if n < 10 {
        seq![spec_digit_char(n as int)]
    } else {
        spec_decimal(n / 10).push(spec_digit_char((n % 10) as int))
    }
}

/// `n` in decimal, zero-padded to two digits.
pub open spec fn spec_decimal2(n: nat) -> Seq<char> {
    if n < 10 {
        seq!['0'] + spec_decimal(n)
    } else {
        spec_decimal(n)
    }
}

/// `n` in decimal, zero-padded to four digits.
pub open spec fn spec_decimal4(n: nat) -> Seq<char> {
    if n < 10 {
        seq!['0', '0', '0'] + spec_decimal(n)
    } else if n < 100 {
        seq!['0', '0'] + spec_decimal(n)
    } else if n < 1_000 {
        seq!['0'] + spec_decimal(n)
    } else {
        spec_decimal(n)
    }
}

/// A date in `YYYY-MM-DD` form (the year unpadded beyond four digits).
pub open spec fn spec_format_date(d: Date) -> Seq<char> {
    spec_decimal4(d.year as nat) + seq!['-'] + spec_decimal2(d.month as nat) + seq!['-']
        + spec_decimal2(d.day as nat)
}

/// The string for one decimal digit.
fn digit_str(d: u64) -> (r: &'static str)
    requires
        d < 10,
    ensures
        r@ == seq![spec_digit_char(d as int)],
{
    proof {
        reveal_strlit("0");
        reveal_strlit("1");
        reveal_strlit("2");
        reveal_strlit("3");
        reveal_strlit("4");
        reveal_strlit("5");
        reveal_strlit("6");
        reveal_strlit("7");
        reveal_strlit("8");
        reveal_strlit("9");
    }
    let r: &'static str = if d == 0 {
        "0"
    } else if d == 1 {
        "1"
    } else if d == 2 {
        "2"
    } else if d == 3 {
        "3"
    } else if d == 4 {
        "4"
    } else if d == 5 {
        "5"
    } else if d == 6 {
        "6"
    } else if d == 7 {
        "7"
    } else if d == 8 {
        "8"
    } else {
        "9"
    };
    proof {
        assert(r@ =~= seq![spec_digit_char(d as int)]);
    }
    r
}

/// Appends the decimal digits of `n`.
fn push_decimal(s: &mut String, n: u64)
    ensures
        final(s)@ == old(s)@ + spec_decimal(n as nat),
    decreases n,
{
    if n >= 10 {
        push_decimal(s, n / 10);
    }
    s.append(digit_str(n % 10));
    proof {
        if n >= 10 {
            assert(final(s)@ =~= old(s)@ + spec_decimal(n as nat));
        } else {
            assert(final(s)@ =~= old(s)@ + spec_decimal(n as nat));
        }
    }
}

/// Renders a date as `YYYY-MM-DD`.
pub fn format_date(d: &Date) -> (r: String)
    ensures
        r@ == spec_format_date(*d),
{
    proof {
        reveal_strlit("000");
        reveal_strlit("00");
        reveal_strlit("0");
        reveal_strlit("-");
    }
    let mut out: String = String::new();
    if d.year < 10 {
        out.append("000");
    } else if d.year < 100 {
        out.append("00");
    } else if d.year < 1_000 {
        out.append("0");
    }
    push_decimal(&mut out, d.year);
    proof {
        assert(out@ =~= spec_decimal4(d.year as nat));
    }
    out.append("-");
    if d.month < 10 {
        out.append("0");
    }
    push_decimal(&mut out, d.month as u64);
    out.append("-");
    if d.day < 10 {
        out.append("0");
    }
    push_decimal(&mut out, d.day as u64);
    proof {
        assert(out@ =~= spec_format_date(*d));
    }
    out
}

} // verus!
