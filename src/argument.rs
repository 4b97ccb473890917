use vstd::prelude::*;

use chrono::{Datelike, Timelike};

use crate::error::CommandError;
use crate::user::UserArgument;

verus! {

/// A value that can be read from one command argument.
pub trait FromArgument<'a>: Sized {
    type Error;

    /// `r` is what reading `s` gives.
    spec fn reads_as(s: Seq<char>, r: Result<Self, Self::Error>) -> bool;

    fn from_argument(argument: &'a str) -> (r: Result<Self, Self::Error>)
        ensures
            Self::reads_as(argument@, r),
    ;
}

impl<'a> FromArgument<'a> for &'a str {
    type Error = ();

    open spec fn reads_as(s: Seq<char>, r: Result<Self, ()>) -> bool {
        r matches Ok(v) && v@ == s
    }

    fn from_argument(argument: &'a str) -> (r: Result<Self, ()>) {
        Ok(argument)
    }
}

impl<'a> FromArgument<'a> for String {
    type Error = ();

    open spec fn reads_as(s: Seq<char>, r: Result<Self, ()>) -> bool {
        r matches Ok(v) && v@ == s
    }

    fn from_argument(argument: &'a str) -> (r: Result<Self, ()>) {
        Ok(argument.to_owned())
    }
}

impl<'a> FromArgument<'a> for UserArgument<'a> {
    type Error = ();

    open spec fn reads_as(s: Seq<char>, r: Result<Self, ()>) -> bool {
        r matches Ok(v) && v.text() == crate::user::strip_at(s)
    }

    fn from_argument(argument: &'a str) -> (r: Result<Self, ()>) {
        Ok(UserArgument::new(argument))
    }
}

/// An argument that does not read gives `None` instead of an error.
impl<'a, T: FromArgument<'a>> FromArgument<'a> for Option<T> {
    type Error = ();

    open spec fn reads_as(s: Seq<char>, r: Result<Self, ()>) -> bool {
        match r {
            Ok(Some(v)) => T::reads_as(s, Ok(v)),
            Ok(None) => exists|e: T::Error| T::reads_as(s, Err(e)),
            Err(_) => false,
        }
    }

    fn from_argument(argument: &'a str) -> (r: Result<Self, ()>) {
        match T::from_argument(argument) {
            Ok(v) => Ok(Some(v)),
            Err(_) => Ok(None),
        }
    }
}

/// Any word, ignored.
impl<'a> FromArgument<'a> for () {
    type Error = ();

    open spec fn reads_as(s: Seq<char>, r: Result<Self, ()>) -> bool {
        r == Ok::<(), ()>(())
    }

    fn from_argument(argument: &'a str) -> (r: Result<Self, ()>) {
        Ok(())
    }
}

/// The outcome of reading a `T`, kept whichever it is: reading never fails.
impl<'a, T: FromArgument<'a>> FromArgument<'a> for Result<T, T::Error> {
    type Error = ();

    open spec fn reads_as(s: Seq<char>, r: Result<Self, ()>) -> bool {
        r matches Ok(inner) && T::reads_as(s, inner)
    }

    fn from_argument(argument: &'a str) -> (r: Result<Self, ()>) {
        Ok(T::from_argument(argument))
    }
}

/// What `str::parse::<u32>` makes of a text.
pub uninterp spec fn parsed_u32(s: Seq<char>) -> Option<u32>;

/// Relies on `str::parse::<u32>` (`u32::from_str`): the value of a decimal number that fits,
/// or an error; the result depends on the text alone.
#[verifier::external_body]
fn parse_u32(s: &str) -> (r: Option<u32>)
    ensures
        r == parsed_u32(s@),
{
    s.parse::<u32>().ok()
}

impl<'a> FromArgument<'a> for u32 {
    type Error = ();

    open spec fn reads_as(s: Seq<char>, r: Result<Self, ()>) -> bool {
        match parsed_u32(s) {
            Some(v) => r == Ok::<u32, ()>(v),
            None => r == Err::<u32, ()>(()),
        }
    }

    fn from_argument(argument: &'a str) -> (r: Result<Self, ()>) {
        match parse_u32(argument) {
            Some(v) => Ok(v),
            None => Err(()),
        }
    }
}

/// What `str::parse::<i32>` makes of a text.
pub uninterp spec fn parsed_i32(s: Seq<char>) -> Option<i32>;

/// Relies on `str::parse::<i32>` (`i32::from_str`): the value of a signed decimal number that
/// fits, or an error; the result depends on the text alone.
#[verifier::external_body]
fn parse_i32(s: &str) -> (r: Option<i32>)
    ensures
        r == parsed_i32(s@),
{
    s.parse::<i32>().ok()
}

impl<'a> FromArgument<'a> for i32 {
    type Error = ();

    open spec fn reads_as(s: Seq<char>, r: Result<Self, ()>) -> bool {
        match parsed_i32(s) {
            Some(v) => r == Ok::<i32, ()>(v),
            None => r == Err::<i32, ()>(()),
        }
    }

    fn from_argument(argument: &'a str) -> (r: Result<Self, ()>) {
        match parse_i32(argument) {
            Some(v) => Ok(v),
            None => Err(()),
        }
    }
}

impl<'a> FromArgument<'a> for bool {
    type Error = ();

    /// As `bool::from_str`: exactly `true` or `false`.
    open spec fn reads_as(s: Seq<char>, r: Result<Self, ()>) -> bool {
        if s == seq!['t', 'r', 'u', 'e'] {
            r == Ok::<bool, ()>(true)
        } else if s == seq!['f', 'a', 'l', 's', 'e'] {
            r == Ok::<bool, ()>(false)
        } else {
            r == Err::<bool, ()>(())
        }
    }

    fn from_argument(argument: &'a str) -> (r: Result<Self, ()>) {
        proof {
            reveal_strlit("true");
            reveal_strlit("false");
        }
        assert("true"@ =~= seq!['t', 'r', 'u', 'e']);
        assert("false"@ =~= seq!['f', 'a', 'l', 's', 'e']);
        if crate::matcher::same_text(argument, "true") {
            Ok(true)
        } else if crate::matcher::same_text(argument, "false") {
            Ok(false)
        } else {
            Err(())
        }
    }
}

impl<'a> FromArgument<'a> for char {
    type Error = ();

    /// As `char::from_str`: exactly one character.
    open spec fn reads_as(s: Seq<char>, r: Result<Self, ()>) -> bool {
        if s.len() == 1 {
            r == Ok::<char, ()>(s[0])
        } else {
            r == Err::<char, ()>(())
        }
    }

    fn from_argument(argument: &'a str) -> (r: Result<Self, ()>) {
        let c = crate::split::chars_of(argument);
        if c.len() == 1 {
            Ok(c[0])
        } else {
            Err(())
        }
    }
}

/// What `str::parse::<i64>` makes of a text: its value, or `None` when it is not a decimal
/// number that fits.
pub uninterp spec fn parsed_i64(s: Seq<char>) -> Option<i64>;

/// Relies on `str::parse::<i64>` (`i64::from_str`): the value of a signed decimal number, or
/// an error; the result depends on the text alone.
#[verifier::external_body]
fn parse_i64(s: &str) -> (r: Option<i64>)
    ensures
        r == parsed_i64(s@),
{
    s.parse::<i64>().ok()
}

impl<'a> FromArgument<'a> for i64 {
    type Error = ();

    open spec fn reads_as(s: Seq<char>, r: Result<Self, ()>) -> bool {
        match parsed_i64(s) {
            Some(v) => r == Ok::<i64, ()>(v),
            None => r == Err::<i64, ()>(()),
        }
    }

    fn from_argument(argument: &'a str) -> (r: Result<Self, ()>) {
        match parse_i64(argument) {
            Some(v) => Ok(v),
            None => Err(()),
        }
    }
}

/// What `str::parse::<u64>` makes of a text: its value, or `None` when it is not a decimal
/// number that fits.
pub uninterp spec fn parsed_u64(s: Seq<char>) -> Option<u64>;

/// Relies on `str::parse::<u64>` (`u64::from_str`): the value of a decimal number, or an
/// error; the result depends on the text alone.
#[verifier::external_body]
fn parse_u64(s: &str) -> (r: Option<u64>)
    ensures
        r == parsed_u64(s@),
{
    s.parse::<u64>().ok()
}

impl<'a> FromArgument<'a> for u64 {
    type Error = ();

    open spec fn reads_as(s: Seq<char>, r: Result<Self, ()>) -> bool {
        match parsed_u64(s) {
            Some(v) => r == Ok::<u64, ()>(v),
            None => r == Err::<u64, ()>(()),
        }
    }

    fn from_argument(argument: &'a str) -> (r: Result<Self, ()>) {
        match parse_u64(argument) {
            Some(v) => Ok(v),
            None => Err(()),
        }
    }
}

/// A span of time as humantime writes it (`20m`, `2h 37min`), in seconds and nanoseconds.
#[derive(Debug, Clone, Copy, PartialEq, Eq)]
pub struct HumanDuration {
    pub secs: u64,
    pub nanos: u32,
}

/// How many ASCII digits `s` holds.
pub open spec fn digit_count(s: Seq<char>) -> nat
    decreases s.len(),
{
    if s.len() == 0 {
        0
    } else {
        digit_count(s.drop_last()) + if '0' <= s.last() && s.last() <= '9' {
            1nat
        } else {
            0nat
        }
    }
}

/// The most digits a duration text may hold. Each span adds at most its number times a
/// year (31 557 600 s) plus less than one unit for a fraction, so with at most eleven
/// digits in all the total stays far below `u64::MAX` seconds, where humantime's
/// `Duration::new` would overflow.
pub const MAX_DURATION_DIGITS: usize = 11;

fn count_digits(s: &str) -> (r: usize)
    ensures
        r == digit_count(s@),
{
    let c = crate::split::chars_of(s);
    let mut n: usize = 0;
    let mut i: usize = 0;
    while i < c.len()
        invariant
            c@ == s@,
            i <= c.len(),
            n == digit_count(c@.take(i as int)),
            n <= i,
        decreases c.len() - i,
    {
        assert(c@.take(i + 1).drop_last() =~= c@.take(i as int));
        if '0' <= c[i] && c[i] <= '9' {
            n = n + 1;
        }
        i = i + 1;
    }
    assert(c@.take(c.len() as int) =~= c@);
    n
}

/// The seconds and nanoseconds `humantime::parse_duration` reads from a text, or `None`
/// when it does not read one.
pub uninterp spec fn human_duration(s: Seq<char>) -> Option<(u64, u32)>;

/// Relies on `humantime::parse_duration`: the duration a text such as `20m` or `2h 37min`
/// stands for (as `Duration::as_secs` and `Duration::subsec_nanos`), or an error; the result
/// depends on the text alone. It panics when the total reaches `u64::MAX` seconds, which
/// the digit bound rules out.
#[verifier::external_body]
fn parse_human_duration(s: &str) -> (r: Option<(u64, u32)>)
    requires
        digit_count(s@) <= MAX_DURATION_DIGITS,
    ensures
        r == human_duration(s@),
{
    humantime::parse_duration(s).ok().map(|d| (d.as_secs(), d.subsec_nanos()))
}

impl<'a> FromArgument<'a> for HumanDuration {
    type Error = ();

    /// A text with more than `MAX_DURATION_DIGITS` digits is refused without being read.
    open spec fn reads_as(s: Seq<char>, r: Result<Self, ()>) -> bool {
        if digit_count(s) > MAX_DURATION_DIGITS {
            r == Err::<HumanDuration, ()>(())
        } else {
            match human_duration(s) {
                Some((secs, nanos)) => r == Ok::<HumanDuration, ()>(HumanDuration { secs, nanos }),
                None => r == Err::<HumanDuration, ()>(()),
            }
        }
    }

    fn from_argument(argument: &'a str) -> (r: Result<Self, ()>) {
        if count_digits(argument) > MAX_DURATION_DIGITS {
            return Err(());
        }
        match parse_human_duration(argument) {
            Some((secs, nanos)) => Ok(HumanDuration { secs, nanos }),
            None => Err(()),
        }
    }
}

#[verifier::external_type_specification]
#[verifier::external_body]
pub struct ExUrl(url::Url);

/// Whether `url::Url::parse` accepts a text as an absolute URL.
pub uninterp spec fn url_parses(s: Seq<char>) -> bool;

/// Relies on `url::Url::parse`: the URL a text stands for, or an error; which texts it
/// accepts depends on the text alone.
#[verifier::external_body]
fn parse_url(s: &str) -> (r: Option<url::Url>)
    ensures
        r is Some <==> url_parses(s@),
{
    url::Url::parse(s).ok()
}

impl<'a> FromArgument<'a> for url::Url {
    type Error = ();

    open spec fn reads_as(s: Seq<char>, r: Result<Self, ()>) -> bool {
        r is Ok <==> url_parses(s)
    }

    fn from_argument(argument: &'a str) -> (r: Result<Self, ()>) {
        match parse_url(argument) {
            Some(u) => Ok(u),
            None => Err(()),
        }
    }
}

#[verifier::external_type_specification]
#[verifier::external_body]
pub struct ExUri(http::Uri);

/// Whether `http::Uri`'s `FromStr` accepts a text.
pub uninterp spec fn uri_parses(s: Seq<char>) -> bool;

/// Relies on `<http::Uri as FromStr>::from_str`: the URI a text stands for, or an error;
/// which texts it accepts depends on the text alone.
#[verifier::external_body]
fn parse_uri(s: &str) -> (r: Option<http::Uri>)
    ensures
        r is Some <==> uri_parses(s@),
{
    s.parse::<http::Uri>().ok()
}

impl<'a> FromArgument<'a> for http::Uri {
    type Error = ();

    open spec fn reads_as(s: Seq<char>, r: Result<Self, ()>) -> bool {
        r is Ok <==> uri_parses(s)
    }

    fn from_argument(argument: &'a str) -> (r: Result<Self, ()>) {
        match parse_uri(argument) {
            Some(u) => Ok(u),
            None => Err(()),
        }
    }
}

/// A calendar date, as year, month (1 to 12) and day of the month.
#[derive(Debug, Clone, Copy, PartialEq, Eq)]
pub struct CalendarDate {
    pub year: i32,
    pub month: u32,
    pub day: u32,
}

/// The year, month and day `chrono::NaiveDate` reads from a text such as `2024-02-29`.
pub uninterp spec fn naive_date(s: Seq<char>) -> Option<(i32, u32, u32)>;

/// Relies on `<chrono::NaiveDate as FromStr>::from_str` (with `Datelike::year`, `month` and
/// `day`): the date a text stands for, or an error; the result depends on the text alone.
#[verifier::external_body]
fn parse_naive_date(s: &str) -> (r: Option<(i32, u32, u32)>)
    ensures
        r == naive_date(s@),
{
    s.parse::<chrono::NaiveDate>().ok().map(|d| (d.year(), d.month(), d.day()))
}

impl<'a> FromArgument<'a> for CalendarDate {
    type Error = ();

    open spec fn reads_as(s: Seq<char>, r: Result<Self, ()>) -> bool {
        match naive_date(s) {
            Some((year, month, day)) => r == Ok::<CalendarDate, ()>(
                CalendarDate { year, month, day },
            ),
            None => r == Err::<CalendarDate, ()>(()),
        }
    }

    fn from_argument(argument: &'a str) -> (r: Result<Self, ()>) {
        match parse_naive_date(argument) {
            Some((year, month, day)) => Ok(CalendarDate { year, month, day }),
            None => Err(()),
        }
    }
}

/// A time of day, as hour, minute, second and nanosecond.
#[derive(Debug, Clone, Copy, PartialEq, Eq)]
pub struct ClockTime {
    pub hour: u32,
    pub minute: u32,
    pub second: u32,
    pub nanosecond: u32,
}

/// The hour, minute, second and nanosecond `chrono::NaiveTime` reads from a text such as
/// `13:37:00`.
pub uninterp spec fn naive_time(s: Seq<char>) -> Option<(u32, u32, u32, u32)>;

/// Relies on `<chrono::NaiveTime as FromStr>::from_str` (with the `Timelike` getters): the
/// time a text stands for, or an error; the result depends on the text alone.
#[verifier::external_body]
fn parse_naive_time(s: &str) -> (r: Option<(u32, u32, u32, u32)>)
    ensures
        r == naive_time(s@),
{
    s.parse::<chrono::NaiveTime>().ok().map(|t| (t.hour(), t.minute(), t.second(), t.nanosecond()))
}

impl<'a> FromArgument<'a> for ClockTime {
    type Error = ();

    open spec fn reads_as(s: Seq<char>, r: Result<Self, ()>) -> bool {
        match naive_time(s) {
            Some((hour, minute, second, nanosecond)) => r == Ok::<ClockTime, ()>(
                ClockTime { hour, minute, second, nanosecond },
            ),
            None => r == Err::<ClockTime, ()>(()),
        }
    }

    fn from_argument(argument: &'a str) -> (r: Result<Self, ()>) {
        match parse_naive_time(argument) {
            Some((hour, minute, second, nanosecond)) => Ok(
                ClockTime { hour, minute, second, nanosecond },
            ),
            None => Err(()),
        }
    }
}

/// A date with a time of day.
#[derive(Debug, Clone, Copy, PartialEq, Eq)]
pub struct CalendarDateTime {
    pub date: CalendarDate,
    pub time: ClockTime,
}

/// The date and time `chrono::NaiveDateTime` reads from a text such as
/// `2024-02-29T13:37:00`.
pub uninterp spec fn naive_date_time(s: Seq<char>) -> Option<((i32, u32, u32), (u32, u32, u32, u32))>;

/// Relies on `<chrono::NaiveDateTime as FromStr>::from_str` (with the `Datelike` and
/// `Timelike` getters): the date and time a text stands for, or an error; the result
/// depends on the text alone.
#[verifier::external_body]
fn parse_naive_date_time(s: &str) -> (r: Option<((i32, u32, u32), (u32, u32, u32, u32))>)
    ensures
        r == naive_date_time(s@),
{
    s.parse::<chrono::NaiveDateTime>().ok().map(
        |t| ((t.year(), t.month(), t.day()), (t.hour(), t.minute(), t.second(), t.nanosecond())),
    )
}

impl<'a> FromArgument<'a> for CalendarDateTime {
    type Error = ();

    open spec fn reads_as(s: Seq<char>, r: Result<Self, ()>) -> bool {
        match naive_date_time(s) {
            Some(((year, month, day), (hour, minute, second, nanosecond))) => r == Ok::<
                CalendarDateTime,
                (),
            >(
                CalendarDateTime {
                    date: CalendarDate { year, month, day },
                    time: ClockTime { hour, minute, second, nanosecond },
                },
            ),
            None => r == Err::<CalendarDateTime, ()>(()),
        }
    }

    fn from_argument(argument: &'a str) -> (r: Result<Self, ()>) {
        match parse_naive_date_time(argument) {
            Some(((year, month, day), (hour, minute, second, nanosecond))) => Ok(
                CalendarDateTime {
                    date: CalendarDate { year, month, day },
                    time: ClockTime { hour, minute, second, nanosecond },
                },
            ),
            None => Err(()),
        }
    }
}

/// The type an argument token must read as for its template to match.
#[derive(Debug, Clone, Copy, PartialEq, Eq)]
pub enum ArgumentKind {
    /// Any word: `&str`, `String`, or a user named with or without `@`.
    Text,
    Bool,
    Char,
    Unsigned,
    Signed,
    Duration,
    Url,
    Uri,
    Date,
    Time,
    DateTime,
}

/// The word reads as `kind`, as the `FromArgument` impl of that type reads it.
pub open spec fn accepts(kind: ArgumentKind, w: Seq<char>) -> bool {
    match kind {
        ArgumentKind::Text => true,
        ArgumentKind::Bool => w == seq!['t', 'r', 'u', 'e'] || w == seq!['f', 'a', 'l', 's', 'e'],
        ArgumentKind::Char => w.len() == 1,
        ArgumentKind::Unsigned => parsed_u64(w) is Some,
        ArgumentKind::Signed => parsed_i64(w) is Some,
        ArgumentKind::Duration => digit_count(w) <= MAX_DURATION_DIGITS && human_duration(w) is Some,
        ArgumentKind::Url => url_parses(w),
        ArgumentKind::Uri => uri_parses(w),
        ArgumentKind::Date => naive_date(w) is Some,
        ArgumentKind::Time => naive_time(w) is Some,
        ArgumentKind::DateTime => naive_date_time(w) is Some,
    }
}

/// Whether `word` reads as `kind`.
pub fn argument_accepts(kind: ArgumentKind, word: &str) -> (r: bool)
    ensures
        r == accepts(kind, word@),
{
    match kind {
        ArgumentKind::Text => true,
        ArgumentKind::Bool => {
            let b: Result<bool, ()> = bool::from_argument(word);
            b.is_ok()
        },
        ArgumentKind::Char => {
            let c: Result<char, ()> = char::from_argument(word);
            c.is_ok()
        },
        ArgumentKind::Unsigned => parse_u64(word).is_some(),
        ArgumentKind::Signed => parse_i64(word).is_some(),
        ArgumentKind::Duration => {
            let d: Result<HumanDuration, ()> = HumanDuration::from_argument(word);
            d.is_ok()
        },
        ArgumentKind::Url => parse_url(word).is_some(),
        ArgumentKind::Uri => parse_uri(word).is_some(),
        ArgumentKind::Date => parse_naive_date(word).is_some(),
        ArgumentKind::Time => parse_naive_time(word).is_some(),
        ArgumentKind::DateTime => parse_naive_date_time(word).is_some(),
    }
}

/// Reads the argument bound to `name`: a missing one is `ArgumentMissing`, one that does not
/// read is `NamedArgumentParsing` with the name and the reason.
pub fn next_argument<'req, T: FromArgument<'req>>(arg: Option<&'req str>, name: &str) -> (r: Result<
    T,
    CommandError<T::Error>,
>)
    ensures
        match arg {
            None => r matches Err(CommandError::ArgumentMissing),
            Some(a) => match r {
                Ok(v) => T::reads_as(a@, Ok(v)),
                Err(CommandError::NamedArgumentParsing(n, e)) => n@ == name@ && T::reads_as(
                    a@,
                    Err(e),
                ),
                _ => false,
            },
        },
{
    match arg {
        None => Err(CommandError::ArgumentMissing),
        Some(a) => match T::from_argument(a) {
            Ok(v) => Ok(v),
            Err(e) => Err(CommandError::NamedArgumentParsing(name.to_owned(), e)),
        },
    }
}

/// Like `next_argument`, with the reason dropped.
pub fn next_argument_unit<'req, T: FromArgument<'req>>(arg: Option<&'req str>, name: &str) -> (r:
    Result<T, CommandError<()>>)
    ensures
        match arg {
            None => r matches Err(CommandError::ArgumentMissing),
            Some(a) => match r {
                Ok(v) => T::reads_as(a@, Ok(v)),
                Err(CommandError::NamedArgumentParsing(n, _)) => n@ == name@ && exists|e: T::Error|
                    T::reads_as(a@, Err(e)),
                _ => false,
            },
        },
{
    match next_argument::<T>(arg, name) {
        Ok(v) => Ok(v),
        Err(e) => Err(e.unit_err()),
    }
}

/// Like `next_argument_unit`, for an optional argument: a missing one is `None`.
pub fn next_optional_argument_unit<'req, T: FromArgument<'req>>(
    arg: Option<&'req str>,
    name: &str,
) -> (r: Result<Option<T>, CommandError<()>>)
    ensures
        match arg {
            None => r matches Ok(None),
            Some(a) => match r {
                Ok(Some(v)) => T::reads_as(a@, Ok(v)),
                Err(CommandError::NamedArgumentParsing(n, _)) => n@ == name@ && exists|e: T::Error|
                    T::reads_as(a@, Err(e)),
                _ => false,
            },
        },
{
    match next_argument::<T>(arg, name) {
        Ok(v) => Ok(Some(v)),
        Err(CommandError::ArgumentMissing) => Ok(None),
        Err(e) => Err(e.unit_err()),
    }
}

} // verus!
