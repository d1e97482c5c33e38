//! Calendar dates written as `YYYYMMDD`.
use vstd::prelude::*;
use chrono::format::ParseErrorKind;
use chrono::Datelike;
use crate::error::{DateParseErrorKind, TypeError};
use crate::text::{decimal_text, digit_char, push_char, usize_to_decimal};

verus! {

/// Whether `year` is a leap year of the proleptic Gregorian calendar.
pub open spec fn is_leap_year(year: int) -> bool {
    (year % 4 == 0 && year % 100 != 0) || year % 400 == 0
}

/// The number of days of `month` (1 to 12) in `year`.
pub open spec fn days_in_month(year: int, month: int) -> int {
    if month == 2 {
        if is_leap_year(year) {
            29
        } else {
            28
        }
    } else if month == 4 || month == 6 || month == 9 || month == 11 {
        30
    } else {
        31
    }
}

/// Whether year, month and day name a date of the proleptic Gregorian calendar.
pub open spec fn is_valid_date(year: int, month: int, day: int) -> bool {
    1 <= month <= 12 && 1 <= day <= days_in_month(year, month)
}

/// What `chrono::NaiveDate::parse_from_str(s, fmt)` gives, as (year, month, day)
/// or the kind of its error.
pub uninterp spec fn chrono_date_parse(s: Seq<char>, fmt: Seq<char>) -> Result<
    (i32, u32, u32),
    DateParseErrorKind,
>;

/// Calls `chrono::NaiveDate::parse_from_str(s, fmt)` and gives the date as
/// (year, month, day), or the kind of the parse error.
///
/// Trusted: the result is `chrono_date_parse(s, fmt)`, and a parsed date is a
/// valid calendar date (a `NaiveDate` always is). `ParseErrorKind`'s hidden
/// placeholder variant, which chrono never produces, is reported as `BadFormat`.
#[verifier::external_body]
fn naive_date_parse(s: &str, fmt: &str) -> (res: Result<(i32, u32, u32), DateParseErrorKind>)
    ensures
        res == chrono_date_parse(s@, fmt@),
        res matches Ok((y, m, d)) ==> is_valid_date(y as int, m as int, d as int),
{
    match chrono::NaiveDate::parse_from_str(s, fmt) {
        Ok(d) => Ok((d.year(), d.month(), d.day())),
        Err(e) => Err(match e.kind() {
            ParseErrorKind::OutOfRange => DateParseErrorKind::OutOfRange,
            ParseErrorKind::Impossible => DateParseErrorKind::Impossible,
            ParseErrorKind::NotEnough => DateParseErrorKind::NotEnough,
            ParseErrorKind::Invalid => DateParseErrorKind::Invalid,
            ParseErrorKind::TooShort => DateParseErrorKind::TooShort,
            ParseErrorKind::TooLong => DateParseErrorKind::TooLong,
            _ => DateParseErrorKind::BadFormat,
        }),
    }
}

/// The format of `YYYYMMDD` dates.
pub open spec fn ymd_format() -> Seq<char> {
    seq!['%', 'Y', '%', 'm', '%', 'd']
}

/// Parses `s` with chrono's `%Y%m%d` into (year, month, day).
fn parse_ymd(s: &str) -> (res: Result<(i32, u32, u32), TypeError>)
    ensures
        match chrono_date_parse(s@, ymd_format()) {
            Ok(ymd) => res == Ok::<(i32, u32, u32), TypeError>(ymd),
            Err(k) => res matches Err(TypeError::ChronoParse(k2)) && k2 == k,
        },
        res matches Ok((y, m, d)) ==> is_valid_date(y as int, m as int, d as int),
{
    proof {
        reveal_strlit("%Y%m%d");
        assert("%Y%m%d"@ =~= ymd_format());
    }
    match naive_date_parse(s, "%Y%m%d") {
        Ok(ymd) => Ok(ymd),
        Err(k) => Err(TypeError::ChronoParse(k)),
    }
}

// region: text

/// The decimal text of `n`, left-padded with zeros to at least `width` characters.
pub open spec fn zero_padded(n: nat, width: nat) -> Seq<char> {
    let t = decimal_text(n);
    if t.len() >= width {
        t
    } else {
        Seq::new((width - t.len()) as nat, |i: int| '0') + t
    }
}

/// A year as chrono writes it: four digits for the years 0 to 9999, else a sign
/// and at least four digits.
pub open spec fn year_text(y: int) -> Seq<char> {
    if 0 <= y <= 9999 {
        zero_padded(y as nat, 4)
    } else if y < 0 {
        seq!['-'] + zero_padded((-y) as nat, 4)
    } else {
        seq!['+'] + zero_padded(y as nat, 4)
    }
}

/// A date as chrono's `NaiveDate` displays it: `%Y-%m-%d`, such as `2024-01-31`.
pub open spec fn date_text(y: int, m: int, d: int) -> Seq<char> {
    year_text(y) + seq!['-'] + zero_padded(m as nat, 2) + seq!['-'] + zero_padded(d as nat, 2)
}

/// The two-digit text of a number below 100, as chrono writes months and days.
proof fn lemma_two_digits(n: nat)
    requires
        1 <= n < 100,
    ensures
        zero_padded(n, 2) == seq![
            ((n / 10) + '0' as int) as char,
            ((n % 10) + '0' as int) as char,
        ],
{
    if n < 10 {
        assert(decimal_text(n) == seq![digit_char(n)]);
        assert(zero_padded(n, 2) =~= seq!['0', digit_char(n)]);
        assert(('0' as int) as char == '0');
    } else {
        assert(decimal_text(n / 10) == seq![digit_char(n / 10)]);
        assert(decimal_text(n) =~= seq![digit_char(n / 10), digit_char(n % 10)]);
        assert(zero_padded(n, 2) =~= decimal_text(n));
    }
}

/// A displayed date is its year, a dash, exactly two digits whose value is the
/// month, a dash and exactly two digits whose value is the day.
pub proof fn lemma_date_text(y: int, m: int, d: int)
    requires
        is_valid_date(y, m, d),
    ensures
        ({
            let t = date_text(y, m, d);
            let n = year_text(y).len() as int;
            &&& t.len() == n + 6
            &&& t.take(n) == year_text(y)
            &&& t[n] == '-' && t[n + 3] == '-'
            &&& (t[n + 1] as int - '0' as int) * 10 + (t[n + 2] as int - '0' as int) == m
            &&& 0 <= t[n + 1] as int - '0' as int <= 9 && 0 <= t[n + 2] as int - '0' as int <= 9
            &&& (t[n + 4] as int - '0' as int) * 10 + (t[n + 5] as int - '0' as int) == d
            &&& 0 <= t[n + 4] as int - '0' as int <= 9 && 0 <= t[n + 5] as int - '0' as int <= 9
        }),
{
    lemma_two_digits(m as nat);
    lemma_two_digits(d as nat);
    let t = date_text(y, m, d);
    let n = year_text(y).len() as int;
    assert(t =~= year_text(y) + seq![
        '-',
        ((m / 10) + '0' as int) as char,
        ((m % 10) + '0' as int) as char,
        '-',
        ((d / 10) + '0' as int) as char,
        ((d % 10) + '0' as int) as char,
    ]);
    assert(t.take(n) =~= year_text(y));
}

fn zero_padded_text(n: usize, width: usize) -> (res: String)
    ensures
        res@ == zero_padded(n as nat, width as nat),
{
    let t = usize_to_decimal(n);
    let len = t.as_str().unicode_len();
    let mut out = String::new();
    if len < width {
        let mut i: usize = 0;
        while i < width - len
            invariant
                i <= width - len,
                len < width,
                out@ == Seq::new(i as nat, |k: int| '0'),
            decreases width - len - i,
        {
            push_char(&mut out, '0');
            proof {
                assert(out@ =~= Seq::new((i + 1) as nat, |k: int| '0'));
            }
            i = i + 1;
        }
    }
    out.append(t.as_str());
    proof {
        if len >= width {
            assert(out@ =~= t@);
        }
    }
    out
}

fn year_to_text(y: i32) -> (res: String)
    ensures
        res@ == year_text(y as int),
{
    if 0 <= y && y <= 9999 {
        zero_padded_text(y as usize, 4)
    } else if y < 0 {
        let a: usize = (-(y as i64)) as usize;
        let mut out = String::new();
        push_char(&mut out, '-');
        let digits = zero_padded_text(a, 4);
        out.append(digits.as_str());
        proof {
            assert(out@ =~= seq!['-'] + zero_padded((-y) as nat, 4));
        }
        out
    } else {
        let mut out = String::new();
        push_char(&mut out, '+');
        let digits = zero_padded_text(y as usize, 4);
        out.append(digits.as_str());
        proof {
            assert(out@ =~= seq!['+'] + zero_padded(y as nat, 4));
        }
        out
    }
}

fn date_to_text(y: i32, m: u32, d: u32) -> (res: String)
    ensures
        res@ == date_text(y as int, m as int, d as int),
{
    let mut out = year_to_text(y);
    push_char(&mut out, '-');
    let month = zero_padded_text(m as usize, 2);
    out.append(month.as_str());
    push_char(&mut out, '-');
    let day = zero_padded_text(d as usize, 2);
    out.append(day.as_str());
    proof {
        assert(out@ =~= date_text(y as int, m as int, d as int));
    }
    out
}

// endregion

/// A `YYYYMMDD` date.
#[derive(Debug, PartialEq, Eq, PartialOrd, Ord, Hash)]
pub struct YYYYMMDD {
    year: i32,
    month: u32,
    day: u32,
}

impl Clone for YYYYMMDD {
    fn clone(&self) -> (res: Self)
        ensures
            res@ == self@,
    {
        proof {
            use_type_invariant(self);
        }
        YYYYMMDD { year: self.year, month: self.month, day: self.day }
    }
}

impl View for YYYYMMDD {
    type V = (i32, u32, u32);

    closed spec fn view(&self) -> (i32, u32, u32) {
        (self.year, self.month, self.day)
    }
}

impl YYYYMMDD {
    #[verifier::type_invariant]
    spec fn valid(self) -> bool {
        is_valid_date(self.year as int, self.month as int, self.day as int)
    }

    /// The date with this year, month and day, which name a calendar date (as the
    /// parts of a `chrono::NaiveDate` always do).
    pub fn new(year: i32, month: u32, day: u32) -> (res: Self)
        requires
            is_valid_date(year as int, month as int, day as int),
        ensures
            res@ == (year, month, day),
    {
        YYYYMMDD { year, month, day }
    }

    /// Reads `s` as chrono reads it with the format `%Y%m%d`.
    pub fn parse(s: &str) -> (res: Result<Self, TypeError>)
        ensures
            match chrono_date_parse(s@, ymd_format()) {
                Ok(ymd) => res matches Ok(d) && d@ == ymd,
                Err(k) => res matches Err(TypeError::ChronoParse(k2)) && k2 == k,
            },
    {
        match parse_ymd(s) {
            Ok((year, month, day)) => Ok(YYYYMMDD { year, month, day }),
            Err(e) => Err(e),
        }
    }

    /// The date as chrono displays it, `%Y-%m-%d`.
    pub fn to_string(&self) -> (res: String)
        ensures
            res@ == date_text(self@.0 as int, self@.1 as int, self@.2 as int),
    {
        date_to_text(self.year, self.month, self.day)
    }

    /// The year, month and day.
    pub fn ymd(&self) -> (res: (i32, u32, u32))
        ensures
            res == self@,
            is_valid_date(res.0 as int, res.1 as int, res.2 as int),
    {
        proof {
            use_type_invariant(self);
        }
        (self.year, self.month, self.day)
    }
}

impl std::str::FromStr for YYYYMMDD {
    type Err = TypeError;

    /// Reads `s` as chrono reads it with the format `%Y%m%d`.
    fn from_str(s: &str) -> (res: Result<Self, TypeError>)
        ensures
            match chrono_date_parse(s@, ymd_format()) {
                Ok(ymd) => res matches Ok(d) && d@ == ymd,
                Err(k) => res matches Err(TypeError::ChronoParse(k2)) && k2 == k,
            },
    {
        YYYYMMDD::parse(s)
    }
}

impl TryFrom<&str> for YYYYMMDD {
    type Error = TypeError;

    fn try_from(value: &str) -> (res: Result<Self, TypeError>)
        ensures
            match chrono_date_parse(value@, ymd_format()) {
                Ok(ymd) => res matches Ok(d) && d@ == ymd,
                Err(k) => res matches Err(TypeError::ChronoParse(k2)) && k2 == k,
            },
    {
        YYYYMMDD::parse(value)
    }
}

impl vstd::std_specs::convert::TryFromSpecImpl<&str> for YYYYMMDD {
    open spec fn obeys_try_from_spec() -> bool {
        false
    }

    open spec fn try_from_spec(v: &str) -> Result<Self, TypeError> {
        arbitrary()
    }
}

/// A date of a DART filing, written `YYYYMMDD`.
#[derive(Debug, PartialEq, Eq, PartialOrd, Ord, Hash)]
pub struct DartDate {
    year: i32,
    month: u32,
    day: u32,
}

impl Clone for DartDate {
    fn clone(&self) -> (res: Self)
        ensures
            res@ == self@,
    {
        proof {
            use_type_invariant(self);
        }
        DartDate { year: self.year, month: self.month, day: self.day }
    }
}

impl View for DartDate {
    type V = (i32, u32, u32);

    closed spec fn view(&self) -> (i32, u32, u32) {
        (self.year, self.month, self.day)
    }
}

impl DartDate {
    #[verifier::type_invariant]
    spec fn valid(self) -> bool {
        is_valid_date(self.year as int, self.month as int, self.day as int)
    }

    /// The date with this year, month and day, which name a calendar date (as the
    /// parts of a `chrono::NaiveDate` always do).
    pub fn new(year: i32, month: u32, day: u32) -> (res: Self)
        requires
            is_valid_date(year as int, month as int, day as int),
        ensures
            res@ == (year, month, day),
    {
        DartDate { year, month, day }
    }

    /// Reads `s` as chrono reads it with the format `%Y%m%d`.
    pub fn parse(s: &str) -> (res: Result<Self, TypeError>)
        ensures
            match chrono_date_parse(s@, ymd_format()) {
                Ok(ymd) => res matches Ok(d) && d@ == ymd,
                Err(k) => res matches Err(TypeError::ChronoParse(k2)) && k2 == k,
            },
    {
        match parse_ymd(s) {
            Ok((year, month, day)) => Ok(DartDate { year, month, day }),
            Err(e) => Err(e),
        }
    }

    /// The date as chrono displays it, `%Y-%m-%d`.
    pub fn to_string(&self) -> (res: String)
        ensures
            res@ == date_text(self@.0 as int, self@.1 as int, self@.2 as int),
    {
        date_to_text(self.year, self.month, self.day)
    }

    /// The year, month and day.
    pub fn ymd(&self) -> (res: (i32, u32, u32))
        ensures
            res == self@,
            is_valid_date(res.0 as int, res.1 as int, res.2 as int),
    {
        proof {
            use_type_invariant(self);
        }
        (self.year, self.month, self.day)
    }
}

impl std::str::FromStr for DartDate {
    type Err = TypeError;

    /// Reads `s` as chrono reads it with the format `%Y%m%d`.
    fn from_str(s: &str) -> (res: Result<Self, TypeError>)
        ensures
            match chrono_date_parse(s@, ymd_format()) {
                Ok(ymd) => res matches Ok(d) && d@ == ymd,
                Err(k) => res matches Err(TypeError::ChronoParse(k2)) && k2 == k,
            },
    {
        DartDate::parse(s)
    }
}

} // verus!
