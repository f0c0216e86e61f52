//! Calendar dates and the month arithmetic that billing periods are built on.
use vstd::prelude::*;

use crate::error::DuesError;

verus! {

/// Largest year a billing date may carry: periods are stored in a four-digit form.
pub const MAX_YEAR: i32 = 9999;

/// Largest month index, that of December of `MAX_YEAR`.
pub const MAX_MONTH_INDEX: u32 = 119999;

/// Leap years of the Gregorian calendar.
pub open spec fn is_leap_year(y: int) -> bool {
    (y % 4 == 0 && y % 100 != 0) || y % 400 == 0
}

pub open spec fn days_in_month(y: int, m: int) -> int {
    if m == 2 {
        if is_leap_year(y) {
            29
        } else {
            28
        }
    } else if m == 4 || m == 6 || m == 9 || m == 11 {
        30
    } else {
        31
    }
}

/// A month and day that exist in the proleptic Gregorian calendar.
pub open spec fn valid_ymd(y: int, m: int, d: int) -> bool {
    1 <= m <= 12 && 1 <= d <= days_in_month(y, m)
}

/// The day `day` held in month `(y, m)`, or the month's last day where it has no such day.
pub open spec fn clamp_day(y: int, m: int, day: int) -> int {
    if day <= days_in_month(y, m) {
        day
    } else {
        days_in_month(y, m)
    }
}

/// A calendar date.
#[derive(Clone, Copy, Debug, PartialEq, Eq, Structural)]
pub struct Date {
    pub year: i32,
    pub month: u32,
    pub day: u32,
}

/// The date in the month with index `j` (`year * 12 + month - 1`) on day `day`,
/// clamped to the month's last day.
pub open spec fn date_in_month(j: int, day: int) -> Date {
    Date {
        year: (j / 12) as i32,
        month: (j % 12 + 1) as u32,
        day: clamp_day(j / 12, j % 12 + 1, day) as u32,
    }
}

/// One calendar month after `d`, keeping its day of month where the next month has it.
pub open spec fn month_after(d: Date) -> Date {
    date_in_month(d.idx() + 1, d.day as int)
}

impl Date {
    pub open spec fn wf(self) -> bool {
        0 <= self.year <= MAX_YEAR && valid_ymd(self.year as int, self.month as int, self.day as int)
    }

    /// The month index: months counted from January of year 0.
    pub open spec fn idx(self) -> int {
        self.year * 12 + self.month - 1
    }

    /// A number that orders dates chronologically.
    pub open spec fn key(self) -> int {
        self.idx() * 32 + self.day
    }

    /// Builds a date from its parts; fails unless they name a date of years 0 to 9999.
    pub fn from_ymd(year: i32, month: u32, day: u32) -> (r: Result<Date, DuesError>)
        ensures
            r matches Ok(d) ==> d == (Date { year, month, day }) && d.wf(),
            r is Err <==> !(Date { year, month, day }).wf(),
            r matches Err(e) ==> e == DuesError::InvalidInput,
    {
        if year < 0 || year > MAX_YEAR || month < 1 || month > 12 {
            return Err(DuesError::InvalidInput);
        }
        if day < 1 || day > days_in_month_of(year, month) {
            return Err(DuesError::InvalidInput);
        }
        Ok(Date { year, month, day })
    }

    /// The month index of a well-formed date.
    pub fn month_ordinal(&self) -> (r: u32)
        requires
            self.wf(),
        ensures
            r as int == self.idx(),
            r <= MAX_MONTH_INDEX,
    {
        self.year as u32 * 12 + self.month - 1
    }

    /// Whether `self` falls on or before `other`.
    pub fn on_or_before(&self, other: &Date) -> (r: bool)
        requires
            self.wf(),
            other.wf(),
        ensures
            r == (self.key() <= other.key()),
    {
        if self.year != other.year {
            self.year < other.year
        } else if self.month != other.month {
            self.month < other.month
        } else {
            self.day <= other.day
        }
    }
}

/// The number of days in month `m` of year `y`.
pub fn days_in_month_of(y: i32, m: u32) -> (r: u32)
    requires
        1 <= m <= 12,
    ensures
        r as int == days_in_month(y as int, m as int),
        28 <= r <= 31,
{
    if m == 2 {
        if (y % 4 == 0 && y % 100 != 0) || y % 400 == 0 {
            29
        } else {
            28
        }
    } else if m == 4 || m == 6 || m == 9 || m == 11 {
        30
    } else {
        31
    }
}

/// The date in a month of years 0 to 9999 is well formed and lies in that month.
pub proof fn lemma_date_in_month(j: int, day: int)
    requires
        0 <= j <= MAX_MONTH_INDEX,
        1 <= day <= 31,
    ensures
        date_in_month(j, day).wf(),
        date_in_month(j, day).idx() == j,
        date_in_month(j, day).key() == j * 32 + clamp_day(j / 12, j % 12 + 1, day),
{
}

/// The date in the month with index `j` on day `day`, clamped to the month's last day.
pub fn date_in_month_exec(j: u32, day: u32) -> (r: Date)
    requires
        j <= MAX_MONTH_INDEX,
        1 <= day <= 31,
    ensures
        r == date_in_month(j as int, day as int),
        r.wf(),
{
    proof {
        lemma_date_in_month(j as int, day as int);
    }
    let y: u32 = j / 12;
    let m: u32 = j % 12 + 1;
    let dim = days_in_month_of(y as i32, m);
    let d: u32 = if day <= dim {
        day
    } else {
        dim
    };
    Date { year: y as i32, month: m, day: d }
}

/// One calendar month after `d`: December rolls over to January of the next year, and the
/// day of month is kept where the next month has it, else it becomes that month's last day.
pub fn next_month(d: &Date) -> (r: Date)
    requires
        d.wf(),
        d.idx() < MAX_MONTH_INDEX,
    ensures
        r == month_after(*d),
        r.wf(),
        r.idx() == d.idx() + 1,
        r.day <= d.day,
        d.day <= days_in_month(r.year as int, r.month as int) ==> r.day == d.day,
{
    let j = d.month_ordinal() + 1;
    proof {
        lemma_date_in_month(j as int, d.day as int);
    }
    date_in_month_exec(j, d.day)
}

/// Advancing a date by one month rolls December of year `y` over to January of `y + 1`, and
/// keeps the day of month whenever the next month has that day.
pub proof fn law_month_after_rollover(d: Date)
    requires
        d.wf(),
        d.idx() < MAX_MONTH_INDEX,
    ensures
        month_after(d).wf(),
        month_after(d).idx() == d.idx() + 1,
        d.month == 12 ==> month_after(d) == (Date { year: (d.year + 1) as i32, month: 1, day: d.day }),
        d.month < 12 ==> month_after(d).year == d.year && month_after(d).month == d.month + 1,
        d.day <= days_in_month(month_after(d).year as int, month_after(d).month as int)
            ==> month_after(d).day == d.day,
{
    lemma_date_in_month(d.idx() + 1, d.day as int);
}

/// What reading a `YYYY-MM-DD` text with chrono gives: the year, month and day read, if the
/// text names a date.
pub uninterp spec fn parsed_ymd(s: Seq<char>) -> Option<(i32, u32, u32)>;

/// Relies on chrono's `NaiveDate::parse_from_str` with the format `%Y-%m-%d`, and on
/// `Datelike::{year, month, day}`: a `NaiveDate` is always a valid calendar date.
#[verifier::external_body]
fn parse_with_chrono(s: &str) -> (r: Option<(i32, u32, u32)>)
    ensures
        r == parsed_ymd(s@),
        r matches Some((y, m, d)) ==> valid_ymd(y as int, m as int, d as int),
{
    match chrono::NaiveDate::parse_from_str(s, "%Y-%m-%d") {
        Ok(n) => Some((chrono::Datelike::year(&n), chrono::Datelike::month(&n), chrono::Datelike::day(&n))),
        Err(_) => None,
    }
}

/// Relies on chrono's `Local::now` and `DateTime::date_naive`, with `Datelike::{year, month,
/// day}`: today's date in the machine's time zone, a valid calendar date.
#[verifier::external_body]
fn local_today() -> (r: (i32, u32, u32))
    ensures
        valid_ymd(r.0 as int, r.1 as int, r.2 as int),
{
    let n = chrono::Local::now().date_naive();
    (chrono::Datelike::year(&n), chrono::Datelike::month(&n), chrono::Datelike::day(&n))
}

/// The date that a parse result names: `Ok` for a date of years 0 to 9999, else `InvalidInput`.
pub open spec fn date_of_parsed(p: Option<(i32, u32, u32)>) -> Result<Date, DuesError> {
    match p {
        Some((y, m, d)) => if (Date { year: y, month: m, day: d }).wf() {
            Ok(Date { year: y, month: m, day: d })
        } else {
            Err(DuesError::InvalidInput)
        },
        None => Err(DuesError::InvalidInput),
    }
}

/// The date that a parse result names, as `date_of_parsed` says.
pub fn date_from_parsed(p: Option<(i32, u32, u32)>) -> (r: Result<Date, DuesError>)
    ensures
        r == date_of_parsed(p),
{
    match p {
        Some((y, m, d)) => Date::from_ymd(y, m, d),
        None => Err(DuesError::InvalidInput),
    }
}

/// Reads a date written `YYYY-MM-DD`; a text that names no date of years 0 to 9999 is
/// `InvalidInput`.
pub fn parse_date(s: &str) -> (r: Result<Date, DuesError>)
    ensures
        r == date_of_parsed(parsed_ymd(s@)),
        r matches Ok(d) ==> d.wf(),
{
    date_from_parsed(parse_with_chrono(s))
}

/// Today's date on this machine; `InvalidInput` if the clock is outside years 0 to 9999.
pub fn today() -> (r: Result<Date, DuesError>)
    ensures
        r matches Ok(d) ==> d.wf(),
{
    let (y, m, d) = local_today();
    Date::from_ymd(y, m, d)
}

} // verus!
