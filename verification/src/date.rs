//! Calendar dates of the proleptic Gregorian calendar, as `chrono::NaiveDate`
//! holds them: a year, month and day, together with the day's number counted
//! from January 1 of year 1 (day 1).
use crate::money::digit_char;
use crate::text::{nat_to_text, push_char, push_str};
use vstd::string::StrSliceExecFns;
use chrono::{Datelike, NaiveDate, NaiveDateTime};
use vstd::prelude::*;

verus! {

/// The earliest year a date can have.
pub open spec fn min_year() -> int {
    -262143
}

/// The latest year a date can have.
pub open spec fn max_year() -> int {
    262142
}

pub open spec fn is_leap_year(year: int) -> bool {
    (year % 4 == 0 && year % 100 != 0) || year % 400 == 0
}

/// The number of days in a month; 30 for a number that is no month.
pub open spec fn days_in_month(year: int, month: int) -> int {
    if month == 2 {
        if is_leap_year(year) {
            29
        } else {
            28
        }
    } else if month == 1 || month == 3 || month == 5 || month == 7 || month == 8 || month == 10
        || month == 12 {
        31
    } else {
        30
    }
}

/// Whether `(year, month, day)` names a date that `NaiveDate` can hold.
pub open spec fn valid_ymd(year: int, month: int, day: int) -> bool {
    &&& min_year() <= year <= max_year()
    &&& 1 <= month <= 12
    &&& 1 <= day <= days_in_month(year, month)
}

/// The days of the year before the first of `month`.
pub open spec fn days_before_month(year: int, month: int) -> int
    decreases month,
{
    if month <= 1 {
        0
    } else {
        days_before_month(year, month - 1) + days_in_month(year, month - 1)
    }
}

/// The number of a day counted from January 1 of year 1 (day 1).
pub open spec fn days_from_ce(year: int, month: int, day: int) -> int {
    let y = year - 1;
    days_before_month(year, month) + day + 365 * y + y / 4 - y / 100 + y / 400
}

/// The two-digit text of a number below 100.
pub open spec fn two_digits(n: int) -> Seq<char> {
    seq![digit_char(n / 10), digit_char(n % 10)]
}

/// `n`'s digits padded with leading zeros to at least four.
pub open spec fn four_digits(n: nat) -> Seq<char> {
    let t = crate::money::nat_text(n);
    crate::money::zeros(4 - t.len()) + t
}

/// The year as `NaiveDate`'s `Display` writes it.
pub open spec fn year_text(year: int) -> Seq<char> {
    if 0 <= year <= 9999 {
        two_digits(year / 100) + two_digits(year % 100)
    } else if year < 0 {
        seq!['-'] + four_digits((-year) as nat)
    } else {
        seq!['+'] + four_digits(year as nat)
    }
}

/// The text `NaiveDate`'s `Display` writes: `YYYY-MM-DD`.
pub open spec fn date_text(year: int, month: int, day: int) -> Seq<char> {
    year_text(year) + seq!['-'] + two_digits(month) + seq!['-'] + two_digits(day)
}

/// A calendar date.
#[derive(Clone, Copy, Debug, PartialEq, Eq, Structural)]
pub struct Date {
    year: i32,
    month: u32,
    day: u32,
    days: i32,
}

impl Date {
    #[verifier::type_invariant]
    pub closed spec fn inv(self) -> bool {
        &&& valid_ymd(self.year as int, self.month as int, self.day as int)
        &&& self.days == days_from_ce(self.year as int, self.month as int, self.day as int)
    }

    pub closed spec fn spec_year(self) -> int {
        self.year as int
    }

    pub closed spec fn spec_month(self) -> int {
        self.month as int
    }

    pub closed spec fn spec_day(self) -> int {
        self.day as int
    }

    /// The day's number counted from January 1 of year 1 (day 1).
    pub closed spec fn spec_days(self) -> int {
        self.days as int
    }

    /// A day number fits in 32 bits.
    pub proof fn lemma_days_fit(self)
        ensures
            i32::MIN <= self.spec_days() <= i32::MAX,
    {
    }

    /// Whether the fields agree with each other.
    pub open spec fn valid(self) -> bool {
        &&& valid_ymd(self.spec_year(), self.spec_month(), self.spec_day())
        &&& self.spec_days() == days_from_ce(self.spec_year(), self.spec_month(), self.spec_day())
    }

    /// The text `Display` writes for the date.
    pub open spec fn text(self) -> Seq<char> {
        date_text(self.spec_year(), self.spec_month(), self.spec_day())
    }

    /// `NaiveDate::from_ymd_opt`: the date, if it exists.
    pub fn from_ymd_opt(year: i32, month: u32, day: u32) -> (r: Option<Date>)
        ensures
            r is Some <==> valid_ymd(year as int, month as int, day as int),
            r matches Some(d) ==> d.spec_year() == year && d.spec_month() == month
                && d.spec_day() == day && d.valid(),
    {
        match chrono_days_from_ymd(year, month, day) {
            Some(days) => Some(Date { year, month, day, days }),
            None => None,
        }
    }

    pub fn year(&self) -> (r: i32)
        ensures
            r == self.spec_year(),
    {
        self.year
    }

    pub fn month(&self) -> (r: u32)
        ensures
            r == self.spec_month(),
            1 <= r <= 12,
    {
        proof {
            use_type_invariant(self);
        }
        self.month
    }

    pub fn day(&self) -> (r: u32)
        ensures
            r == self.spec_day(),
            1 <= r <= 31,
    {
        proof {
            use_type_invariant(self);
        }
        self.day
    }

    /// The day's number counted from January 1 of year 1 (day 1).
    pub fn num_days_from_ce(&self) -> (r: i32)
        ensures
            r == self.spec_days(),
    {
        self.days
    }

    /// The text `Display` writes: the year (four digits, or a sign and at
    /// least four digits outside 0..=9999), month and day, joined by '-'.
    pub fn to_text(&self) -> (r: String)
        ensures
            r@ == self.text(),
    {
        proof {
            use_type_invariant(self);
        }
        let mut s = String::new();
        let ghost old_s = s@;
        if 0 <= self.year && self.year <= 9999 {
            push_two_digits(&mut s, (self.year / 100) as u32);
            push_two_digits(&mut s, (self.year % 100) as u32);
        } else {
            let mag: u64 = if self.year < 0 {
                push_char(&mut s, '-');
                (-(self.year as i64)) as u64
            } else {
                push_char(&mut s, '+');
                self.year as u64
            };
            let t = nat_to_text(mag);
            let mut k: usize = t.as_str().unicode_len();
            assert(crate::money::zeros(0) =~= Seq::<char>::empty());
            while k < 4
                invariant
                    k >= t@.len(),
                    k <= 4 || k == t@.len(),
                    s@ == old_s + (if self.year < 0 { seq!['-'] } else { seq!['+'] })
                        + crate::money::zeros(k - t@.len()),
                decreases 4 - k,
            {
                push_char(&mut s, '0');
                proof {
                    assert(crate::money::zeros(k + 1 - t@.len()) =~= crate::money::zeros(
                        k - t@.len(),
                    ).push('0'));
                }
                k = k + 1;
            }
            proof {
                assert(crate::money::zeros(4 - t@.len()) =~= crate::money::zeros(
                    k - t@.len(),
                ));
            }
            push_str(&mut s, t.as_str());
        }
        push_char(&mut s, '-');
        push_two_digits(&mut s, self.month);
        push_char(&mut s, '-');
        push_two_digits(&mut s, self.day);
        s
    }
}

fn push_two_digits(s: &mut String, n: u32)
    requires
        n < 100,
    ensures
        final(s)@ == old(s)@ + two_digits(n as int),
{
    push_char(s, digit_exec(n / 10));
    push_char(s, digit_exec(n % 10));
}

fn digit_exec(d: u32) -> (c: char)
    requires
        d < 10,
    ensures
        c == digit_char(d as int),
{
    if d == 0 {
        '0'
    } else if d == 1 {
        '1'
    } else if d == 2 {
        '2'
    } else if d == 3 {
        '3'
    } else if d == 4 {
        '4'
    } else if d == 5 {
        '5'
    } else if d == 6 {
        '6'
    } else if d == 7 {
        '7'
    } else if d == 8 {
        '8'
    } else {
        '9'
    }
}

/// `NaiveDate::from_ymd_opt` followed by `num_days_from_ce`: the day's
/// number when the date exists.
#[verifier::external_body]
fn chrono_days_from_ymd(year: i32, month: u32, day: u32) -> (r: Option<i32>)
    ensures
        r is Some <==> valid_ymd(year as int, month as int, day as int),
        r is Some ==> r.unwrap() == days_from_ce(year as int, month as int, day as int),
{
    match NaiveDate::from_ymd_opt(year, month, day) {
        Some(d) => Some(d.num_days_from_ce()),
        None => None,
    }
}

/// The date that `NaiveDate::parse_from_str(text, format)` gives, as year,
/// month and day; `None` where it reports an error.
pub uninterp spec fn chrono_parse_date(text: Seq<char>, format: Seq<char>) -> Option<(int, int, int)>;

/// The date part of what `NaiveDateTime::parse_from_str(text, format)`
/// gives; `None` where it reports an error.
pub uninterp spec fn chrono_parse_datetime(text: Seq<char>, format: Seq<char>) -> Option<(int, int, int)>;

/// `NaiveDate::parse_from_str`.
#[verifier::external_body]
fn naive_date_parse(text: &str, format: &str) -> (r: Option<Date>)
    ensures
        r is Some <==> chrono_parse_date(text@, format@) is Some,
        r is Some ==> chrono_parse_date(text@, format@) == Some(
            (r.unwrap().spec_year(), r.unwrap().spec_month(), r.unwrap().spec_day()),
        ) && r.unwrap().valid(),
{
    match NaiveDate::parse_from_str(text, format) {
        Ok(d) => Some(Date { year: d.year(), month: d.month(), day: d.day(), days: d.num_days_from_ce() }),
        Err(_) => None,
    }
}

/// `NaiveDateTime::parse_from_str`, keeping the date.
#[verifier::external_body]
fn naive_datetime_parse(text: &str, format: &str) -> (r: Option<Date>)
    ensures
        r is Some <==> chrono_parse_datetime(text@, format@) is Some,
        r is Some ==> chrono_parse_datetime(text@, format@) == Some(
            (r.unwrap().spec_year(), r.unwrap().spec_month(), r.unwrap().spec_day()),
        ) && r.unwrap().valid(),
{
    match NaiveDateTime::parse_from_str(text, format) {
        Ok(dt) => {
            let d = dt.date();
            Some(Date { year: d.year(), month: d.month(), day: d.day(), days: d.num_days_from_ce() })
        },
        Err(_) => None,
    }
}

/// The date `days` days after `d` (`NaiveDate::checked_add_signed` with
/// `TimeDelta::days`), when it is within the range of dates.
/// `TimeDelta::days` panics beyond about 10^11 days, so `days` stays below.
#[verifier::external_body]
fn naive_date_add_days(d: Date, days: i64) -> (r: Option<Date>)
    requires
        -100_000_000_000 <= days <= 100_000_000_000,
    ensures
        r is Some ==> r.unwrap().spec_days() == d.spec_days() + days && r.unwrap().valid(),
        (days_from_ce(min_year(), 1, 1) <= d.spec_days() + days <= days_from_ce(max_year(), 12, 31))
            ==> r is Some,
{
    let base = NaiveDate::from_num_days_from_ce_opt(d.days).unwrap();
    match base.checked_add_signed(chrono::TimeDelta::days(days)) {
        Some(x) => Some(Date { year: x.year(), month: x.month(), day: x.day(), days: x.num_days_from_ce() }),
        None => None,
    }
}

impl Date {
    /// `NaiveDate::parse_from_str`: the date that `text` gives in `format`.
    pub fn parse_from_str(text: &str, format: &str) -> (r: Option<Date>)
        ensures
            r is Some <==> chrono_parse_date(text@, format@) is Some,
            r is Some ==> chrono_parse_date(text@, format@) == Some(
                (r.unwrap().spec_year(), r.unwrap().spec_month(), r.unwrap().spec_day()),
            ),
    {
        naive_date_parse(text, format)
    }

    /// `NaiveDateTime::parse_from_str` followed by `date()`.
    pub fn parse_datetime_from_str(text: &str, format: &str) -> (r: Option<Date>)
        ensures
            r is Some <==> chrono_parse_datetime(text@, format@) is Some,
            r is Some ==> chrono_parse_datetime(text@, format@) == Some(
                (r.unwrap().spec_year(), r.unwrap().spec_month(), r.unwrap().spec_day()),
            ),
    {
        naive_datetime_parse(text, format)
    }

    /// The date `days` days later, when it exists.
    pub fn checked_add_days(&self, days: i64) -> (r: Option<Date>)
        requires
            -100_000_000_000 <= days <= 100_000_000_000,
        ensures
            r is Some ==> r.unwrap().spec_days() == self.spec_days() + days,
            (days_from_ce(min_year(), 1, 1) <= self.spec_days() + days <= days_from_ce(
                max_year(),
                12,
                31,
            )) ==> r is Some,
    {
        proof {
            use_type_invariant(self);
        }
        naive_date_add_days(*self, days)
    }
}

} // verus!
