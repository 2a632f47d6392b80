use vstd::prelude::*;
use chrono::{Datelike, Local, NaiveDate};

verus! {

/// A calendar date in the proleptic Gregorian calendar.
#[derive(Clone, Copy, Debug, PartialEq, Eq, Structural)]
pub struct Date {
    pub year: i32,
    pub month: u32,
    pub day: u32,
}

pub open spec fn is_leap_year(year: int) -> bool {
    (year % 4 == 0 && year % 100 != 0) || year % 400 == 0
}

pub open spec fn days_in_month(year: int, month: int) -> int {
    if month == 2 {
        if is_leap_year(year) { 29 } else { 28 }
    } else if month == 4 || month == 6 || month == 9 || month == 11 {
        30
    } else {
        31
    }
}

impl Date {
    /// The date names an existing day.
    pub open spec fn wf(self) -> bool {
        &&& 1 <= self.month <= 12
        &&& 1 <= self.day <= days_in_month(self.year as int, self.month as int)
    }

    pub open spec fn ymd(self) -> (int, int, int) {
        (self.year as int, self.month as int, self.day as int)
    }

    /// Strict chronological order.
    pub open spec fn before(self, other: Date) -> bool {
        ||| self.year < other.year
        ||| (self.year == other.year && self.month < other.month)
        ||| (self.year == other.year && self.month == other.month && self.day < other.day)
    }

    pub fn is_before(&self, other: &Date) -> (r: bool)
        ensures
            r == self.before(*other),
    {
        if self.year != other.year {
            self.year < other.year
        } else if self.month != other.month {
            self.month < other.month
        } else {
            self.day < other.day
        }
    }
}


/// The date (year, month, day) that chrono reads from `text` by `format`, or
/// `None` where it does not parse.
pub uninterp spec fn chrono_date(text: Seq<char>, format: Seq<char>) -> Option<(int, int, int)>;

/// Relies on chrono's `NaiveDate::parse_from_str`: the date read from `text`
/// according to the strftime-like `format`, or an error; a `NaiveDate` only
/// ever holds an existing day.
#[verifier::external_body]
fn parse_with_format(text: &str, format: &str) -> (r: Option<Date>)
    ensures
        match r {
            Some(d) => d.wf() && chrono_date(text@, format@) == Some(d.ymd()),
            None => chrono_date(text@, format@) is None,
        },
{
    NaiveDate::parse_from_str(text, format).ok().map(
        |d| Date { year: d.year(), month: d.month(), day: d.day() },
    )
}

/// Relies on chrono's `Local::now`: the year of the current local date.
#[verifier::external_body]
fn current_year() -> (r: i32) {
    Local::now().year()
}

pub open spec fn decimal_digits() -> Seq<char> {
    seq!['0', '1', '2', '3', '4', '5', '6', '7', '8', '9']
}

/// The decimal notation of a natural number, without leading zeros.
pub open spec fn decimal(n: nat) -> Seq<char>
    decreases n,
{
    if n < 10 {
        seq![decimal_digits()[n as int]]
    } else {
        decimal(n / 10).push(decimal_digits()[(n % 10) as int])
    }
}

/// The decimal notation of an integer, with a minus sign when negative.
pub open spec fn signed_decimal(n: int) -> Seq<char> {
    if n < 0 {
        seq!['-'] + decimal((-n) as nat)
    } else {
        decimal(n as nat)
    }
}

fn decimal_text(n: u32) -> (r: String)
    ensures
        r@ == decimal(n as nat),
    decreases n,
{
    let digits = "0123456789";
    proof {
        reveal_strlit("0123456789");
    }
    assert(digits@ =~= decimal_digits());
    let d = (n % 10) as usize;
    let last = digits.substring_char(d, d + 1);
    assert(last@ =~= seq![decimal_digits()[d as int]]);
    if n < 10 {
        String::from_str(last)
    } else {
        let mut s = decimal_text(n / 10);
        s.append(last);
        assert(s@ =~= decimal((n / 10) as nat).push(decimal_digits()[d as int]));
        s
    }
}

fn year_text(year: i32) -> (r: String)
    ensures
        r@ == signed_decimal(year as int),
{
    if year < 0 {
        let mut s = String::from_str("-");
        proof {
            reveal_strlit("-");
        }
        let magnitude = (-(year as i64)) as u32;
        let digits = decimal_text(magnitude);
        s.append(digits.as_str());
        assert(s@ =~= seq!['-'] + decimal((-year) as nat));
        s
    } else {
        decimal_text(year as u32)
    }
}

pub open spec fn slash_format() -> Seq<char> {
    seq!['%', 'Y', '/', '%', 'm', '/', '%', 'd']
}

pub open spec fn dot_format() -> Seq<char> {
    seq!['%', 'd', '.', '%', 'm', '.', '%', 'Y']
}

/// `text` completed with `.` and the given year.
pub open spec fn with_year(text: Seq<char>, year: int) -> Seq<char> {
    text + seq!['.'] + signed_decimal(year)
}

/// The date written as `YYYY/MM/DD`, `DD.MM.YYYY` or `DD.MM` (then in `year`),
/// the forms tried in that order.
pub open spec fn date_in_year(text: Seq<char>, year: int) -> Option<(int, int, int)> {
    match chrono_date(text, slash_format()) {
        Some(d) => Some(d),
        None => match chrono_date(text, dot_format()) {
            Some(d) => Some(d),
            None => chrono_date(with_year(text, year), dot_format()),
        },
    }
}

/// Whether the text names a date without the help of a default year.
pub open spec fn has_full_date(text: Seq<char>) -> bool {
    chrono_date(text, slash_format()) is Some || chrono_date(text, dot_format()) is Some
}

/// Reads a date in one of the accepted forms; a bare `DD.MM` falls in `year`.
pub fn parse_date_in_year(text: &str, year: i32) -> (r: Option<Date>)
    ensures
        match r {
            Some(d) => d.wf() && date_in_year(text@, year as int) == Some(d.ymd()),
            None => date_in_year(text@, year as int) is None,
        },
{
    let slash = "%Y/%m/%d";
    let dot = "%d.%m.%Y";
    proof {
        reveal_strlit("%Y/%m/%d");
        reveal_strlit("%d.%m.%Y");
    }
    assert(slash@ =~= slash_format());
    assert(dot@ =~= dot_format());
    if let Some(d) = parse_with_format(text, slash) {
        return Some(d);
    }
    if let Some(d) = parse_with_format(text, dot) {
        return Some(d);
    }
    let mut full = String::from_str(text);
    full.append(".");
    proof {
        reveal_strlit(".");
    }
    let y = year_text(year);
    full.append(y.as_str());
    assert(full@ =~= with_year(text@, year as int));
    parse_with_format(full.as_str(), dot)
}

/// `r` is what reading `text` gives in some year: the year matters only for
/// a bare day and month.
pub open spec fn read_in_some_year(text: Seq<char>, r: Option<Date>) -> bool {
    exists|year: i32|
        match r {
            Some(d) => date_in_year(text, year as int) == Some(d.ymd()),
            None => date_in_year(text, year as int) is None,
        }
}

/// Reads a date in one of the accepted forms; a bare `DD.MM` falls in the
/// current year, which is looked up only when the other forms fail.
pub fn parse_date(text: &str) -> (r: Option<Date>)
    ensures
        r matches Some(d) ==> d.wf(),
        has_full_date(text@) ==> r is Some && r->0.ymd() == date_in_year(text@, 0).unwrap(),
        read_in_some_year(text@, r),
{
    let slash = "%Y/%m/%d";
    let dot = "%d.%m.%Y";
    proof {
        reveal_strlit("%Y/%m/%d");
        reveal_strlit("%d.%m.%Y");
    }
    assert(slash@ =~= slash_format());
    assert(dot@ =~= dot_format());
    if let Some(d) = parse_with_format(text, slash) {
        assert(date_in_year(text@, 0) == Some(d.ymd()));
        return Some(d);
    }
    if let Some(d) = parse_with_format(text, dot) {
        assert(date_in_year(text@, 0) == Some(d.ymd()));
        return Some(d);
    }
    let year = current_year();
    parse_date_in_year(text, year)
}

} // verus!
