//! Dates of the `Date` header, as seconds since the Unix epoch, read and
//! written by chrono in the format `Sun, 06 Nov 1994 08:49:37 UTC`.
use vstd::prelude::*;
use std::fmt::Write;

verus! {

/// The format of a `Date` header (strftime notation).
pub const DATE_FORMAT: &'static str = "%a, %d %b %Y %H:%M:%S %Z";

/// A point in time, in whole seconds since 1970-01-01 00:00:00 UTC.
#[derive(Debug, Clone, Copy, PartialEq, Eq, Structural)]
pub struct HttpDate {
    pub timestamp: i64,
}

/// What chrono reads from `text` in the strftime format `fmt` as a UTC date
/// and time, in seconds since the Unix epoch; `None` where it reads nothing.
pub uninterp spec fn chrono_parse_utc(text: Seq<char>, fmt: Seq<char>) -> Option<i64>;

/// What chrono writes for the UTC date and time `secs` seconds after the Unix
/// epoch in the strftime format `fmt`; `None` where it writes nothing.
pub uninterp spec fn chrono_format_utc(secs: i64, fmt: Seq<char>) -> Option<Seq<char>>;

/// Calls `chrono::NaiveDateTime::parse_from_str(text, fmt)` and, on success,
/// reads the result as UTC (`and_utc`) and takes its `timestamp`. The result
/// is named by [`chrono_parse_utc`], a function of `text` and `fmt` alone;
/// nothing more is claimed of it.
#[verifier::external_body]
fn chrono_parse_timestamp(text: &str, fmt: &str) -> (r: Option<i64>)
    ensures
        r == chrono_parse_utc(text@, fmt@),
{
    match chrono::NaiveDateTime::parse_from_str(text, fmt) {
        Ok(d) => Some(d.and_utc().timestamp()),
        Err(_) => None,
    }
}

/// Calls `chrono::DateTime::<Utc>::from_timestamp(secs, 0)` and writes the
/// result with `format(fmt)` through `write!`; `None` where `from_timestamp`
/// finds `secs` out of range or the writing reports an error. The result is
/// named by [`chrono_format_utc`], a function of `secs` and `fmt` alone;
/// nothing more is claimed of it.
#[verifier::external_body]
fn chrono_format_timestamp(secs: i64, fmt: &str) -> (r: Option<String>)
    ensures
        match r {
            Some(s) => chrono_format_utc(secs, fmt@) == Some(s@),
            None => chrono_format_utc(secs, fmt@) is None,
        },
{
    match chrono::DateTime::<chrono::Utc>::from_timestamp(secs, 0) {
        Some(d) => {
            let mut s = String::new();
            match write!(s, "{}", d.format(fmt)) {
                Ok(()) => Some(s),
                Err(_) => None,
            }
        },
        None => None,
    }
}

/// The date that a `Date` header value stands for, if it is in
/// [`DATE_FORMAT`].
pub open spec fn date_of(text: Seq<char>) -> Option<HttpDate> {
    match chrono_parse_utc(text, DATE_FORMAT@) {
        Some(t) => Some(HttpDate { timestamp: t }),
        None => None,
    }
}

/// The text of a date in [`DATE_FORMAT`]; empty where chrono writes nothing.
pub open spec fn date_text(d: HttpDate) -> Seq<char> {
    match chrono_format_utc(d.timestamp, DATE_FORMAT@) {
        Some(s) => s,
        None => Seq::empty(),
    }
}

impl HttpDate {
    /// Reads a date in [`DATE_FORMAT`].
    pub fn parse(text: &str) -> (r: Option<HttpDate>)
        ensures
            r == date_of(text@),
    {
        match chrono_parse_timestamp(text, DATE_FORMAT) {
            Some(t) => Some(HttpDate { timestamp: t }),
            None => None,
        }
    }

    /// The date written in [`DATE_FORMAT`].
    pub fn to_string(&self) -> (s: String)
        ensures
            s@ == date_text(*self),
    {
        match chrono_format_timestamp(self.timestamp, DATE_FORMAT) {
            Some(s) => s,
            None => String::new(),
        }
    }
}

} // verus!
