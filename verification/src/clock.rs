//! The time of day, and how it is written.

use crate::text::{all_digits, decimal, digit, lemma_decimal_value};
use vstd::prelude::*;
use vstd::string::*;

verus! {

/// A point in time, in the parts that are written.
pub ghost struct TimeView {
    pub year: nat,
    pub month: nat,
    pub day: nat,
    pub hour: nat,
    pub minute: nat,
    pub second: nat,
    pub nanos: nat,
}

impl TimeView {
    /// Whether the parts are within their limits.
    pub open spec fn wf(self) -> bool {
        &&& self.year >= 1000
        &&& 1 <= self.month <= 12
        &&& 1 <= self.day <= 31
        &&& self.hour < 24
        &&& self.minute < 60
        &&& self.second < 60
        &&& self.nanos < 1_000_000_000
    }
}

/// The last `width` decimal digits of `n`, with zeros before it.
pub open spec fn padded(n: nat, width: nat) -> Seq<char>
    decreases width,
{
    if width == 0 {
        Seq::empty()
    } else {
        padded(n / 10, (width - 1) as nat).push(digit(n % 10))
    }
}

/// A year; one of more than four digits has a sign.
pub open spec fn year_text(year: nat) -> Seq<char> {
    if year <= 9999 {
        decimal(year)
    } else {
        "+"@ + decimal(year)
    }
}

/// A time as `%Y%m%d-%H%M%S` writes it.
pub open spec fn compact_text(t: TimeView) -> Seq<char> {
    year_text(t.year) + padded(t.month, 2) + padded(t.day, 2) + "-"@ + padded(t.hour, 2) + padded(
        t.minute,
        2,
    ) + padded(t.second, 2)
}

/// The part of a second, in as many groups of three digits as it takes.
pub open spec fn fraction_text(nanos: nat) -> Seq<char> {
    if nanos == 0 {
        Seq::empty()
    } else if nanos % 1_000_000 == 0 {
        "."@ + padded(nanos / 1_000_000, 3)
    } else if nanos % 1_000 == 0 {
        "."@ + padded(nanos / 1_000, 6)
    } else {
        "."@ + padded(nanos, 9)
    }
}

/// A time in UTC as RFC 3339 has it.
pub open spec fn rfc3339_text(t: TimeView) -> Seq<char> {
    year_text(t.year) + "-"@ + padded(t.month, 2) + "-"@ + padded(t.day, 2) + "T"@ + padded(
        t.hour,
        2,
    ) + ":"@ + padded(t.minute, 2) + ":"@ + padded(t.second, 2) + fraction_text(t.nanos)
        + "+00:00"@
}

/// The days of a week.
pub open spec fn weekdays() -> Seq<Seq<char>> {
    seq![
        "Sunday"@,
        "Monday"@,
        "Tuesday"@,
        "Wednesday"@,
        "Thursday"@,
        "Friday"@,
        "Saturday"@,
    ]
}

/// The months of a year.
pub open spec fn months() -> Seq<Seq<char>> {
    seq![
        "January"@,
        "February"@,
        "March"@,
        "April"@,
        "May"@,
        "June"@,
        "July"@,
        "August"@,
        "September"@,
        "October"@,
        "November"@,
        "December"@,
    ]
}

/// A date as `%A, %B %-d, %Y` writes it.
pub open spec fn long_date_text(weekday: int, t: TimeView) -> Seq<char> {
    weekdays()[weekday] + ", "@ + months()[t.month - 1] + " "@ + decimal(t.day) + ", "@ + year_text(
        t.year,
    )
}

/// Whether a text is some time as `%Y%m%d-%H%M%S`.
pub open spec fn is_compact_time(s: Seq<char>) -> bool {
    exists|t: TimeView| t.wf() && s == #[trigger] compact_text(t)
}

/// Whether a text is some time in UTC as RFC 3339 has it.
pub open spec fn is_rfc3339(s: Seq<char>) -> bool {
    exists|t: TimeView| t.wf() && s == #[trigger] rfc3339_text(t)
}

/// Whether a text is some date as `%A, %B %-d, %Y`.
pub open spec fn is_long_date(s: Seq<char>) -> bool {
    exists|weekday: int, t: TimeView|
        0 <= weekday < 7 && t.wf() && s == #[trigger] long_date_text(weekday, t)
}

proof fn lemma_padded(n: nat, width: nat)
    ensures
        padded(n, width).len() == width,
        all_digits(padded(n, width)),
    decreases width,
{
    if width > 0 {
        lemma_padded(n / 10, (width - 1) as nat);
    }
}

/// A compact time holds nothing but digits and signs, and is not empty.
pub proof fn lemma_compact_time(s: Seq<char>)
    requires
        is_compact_time(s),
    ensures
        s.len() > 0,
        forall|i: int|
            0 <= i < s.len() ==> '0' <= #[trigger] s[i] <= '9' || s[i] == '-' || s[i] == '+',
{
    reveal_strlit("+");
    reveal_strlit("-");
    let t = choose|t: TimeView| t.wf() && s == #[trigger] compact_text(t);
    lemma_decimal_value(t.year);
    lemma_padded(t.month, 2);
    lemma_padded(t.day, 2);
    lemma_padded(t.hour, 2);
    lemma_padded(t.minute, 2);
    lemma_padded(t.second, 2);
}

/// Milliseconds since the Unix epoch: `chrono::Utc::now` and
/// `DateTime::timestamp_millis`. Which they are is left to the clock; the
/// contract says that they are not before the epoch, where `now` gives no
/// reading.
#[verifier::external_body]
pub(crate) fn now_millis() -> (ms: i64)
    ensures
        ms >= 0,
{
    chrono::Utc::now().timestamp_millis()
}

/// The time in UTC as `DateTime::to_rfc3339` writes it, from
/// `chrono::Utc::now`. Which one it is is left to the clock; the contract says
/// how it is written.
#[verifier::external_body]
pub(crate) fn now_rfc3339() -> (s: String)
    ensures
        is_rfc3339(s@),
{
    chrono::Utc::now().to_rfc3339()
}

/// The time in UTC as `%Y%m%d-%H%M%S`: `chrono::Utc::now` and
/// `DateTime::format`. Which one it is is left to the clock; the contract says
/// how it is written.
#[verifier::external_body]
pub(crate) fn now_compact() -> (s: String)
    ensures
        is_compact_time(s@),
{
    chrono::Utc::now().format("%Y%m%d-%H%M%S").to_string()
}

/// The date where the machine stands, as `%A, %B %-d, %Y`:
/// `chrono::Local::now` and `DateTime::format`. Which one it is is left to the
/// clock and to the machine's time zone; the contract says how it is written.
#[verifier::external_body]
pub(crate) fn today() -> (s: String)
    ensures
        is_long_date(s@),
{
    chrono::Local::now().format("%A, %B %-d, %Y").to_string()
}

} // verus!
