//! Instants, and how they are written.

use vstd::prelude::*;

use crate::number::{decimal, digit_char};

verus! {

/// The first instant that can be written, in microseconds since the epoch.
pub const MIN_MICROS: i64 = -8334601228800000000;

/// The last instant that can be written, in microseconds since the epoch.
pub const MAX_MICROS: i64 = 8210266876799999999;

// ---------------------------------------------------------------------
// The calendar
// ---------------------------------------------------------------------

/// Whether a year has a leap day.
pub open spec fn is_leap_year(year: int) -> bool {
    year % 4 == 0 && (year % 100 != 0 || year % 400 == 0)
}

/// The number of days in the years before `year`, counted from the year 1.
pub open spec fn days_before_year(year: int) -> int {
    let y = year - 1;
    365 * y + y / 4 - y / 100 + y / 400
}

/// The number of days in a month.
pub open spec fn days_in_month(year: int, month: int) -> int {
    if month == 2 {
        if is_leap_year(year) {
            29
        } else {
            28
        }
    } else if month == 4 || month == 6 || month == 9 || month == 11 {
        30
    } else {
        31
    }
}

/// The number of days in the months of a year before `month`.
pub open spec fn days_before_month(year: int, month: int) -> int
    decreases month,
{
    if month <= 1 {
        0
    } else {
        days_before_month(year, month - 1) + days_in_month(year, month - 1)
    }
}

/// A date and a time of day in UTC.
pub struct CivilTime {
    pub year: int,
    pub month: int,
    pub day: int,
    pub hour: int,
    pub minute: int,
    pub second: int,
    pub micro: int,
}

/// `n` with two digits.
pub open spec fn two_digits(n: int) -> Seq<char> {
    seq![digit_char(n / 10 % 10), digit_char(n % 10)]
}

/// `n` with three digits.
pub open spec fn three_digits(n: int) -> Seq<char> {
    seq![digit_char(n / 100 % 10), digit_char(n / 10 % 10), digit_char(n % 10)]
}

/// A year: four digits, or a sign and at least four digits where the year is
/// not between 0 and 9999.
pub open spec fn year_text(year: int) -> Seq<char> {
    let magnitude = if year < 0 {
        -year
    } else {
        year
    };
    let digits = if magnitude <= 9999 {
        two_digits(magnitude / 100) + two_digits(magnitude % 100)
    } else {
        decimal(magnitude as nat)
    };
    if 0 <= year <= 9999 {
        digits
    } else if year < 0 {
        seq!['-'] + digits
    } else {
        seq!['+'] + digits
    }
}

impl CivilTime {
    /// Whether there is such a date and such a time of day.
    pub open spec fn valid(self) -> bool {
        &&& 1 <= self.month <= 12
        &&& 1 <= self.day <= days_in_month(self.year, self.month)
        &&& 0 <= self.hour < 24
        &&& 0 <= self.minute < 60
        &&& 0 <= self.second < 60
        &&& 0 <= self.micro < 1_000_000
    }

    /// The number of days from the epoch, the first day of 1970, to the date.
    pub open spec fn epoch_day(self) -> int {
        days_before_year(self.year) + days_before_month(self.year, self.month) + self.day - 1
            - days_before_year(1970)
    }

    /// The number of microseconds from the epoch.
    pub open spec fn micros(self) -> int {
        (((self.epoch_day() * 24 + self.hour) * 60 + self.minute) * 60 + self.second) * 1_000_000
            + self.micro
    }

    /// The date, as in `2026-05-01`.
    pub open spec fn date_text(self) -> Seq<char> {
        year_text(self.year) + seq!['-'] + two_digits(self.month) + seq!['-'] + two_digits(self.day)
    }

    /// The time of day in whole seconds, as in `07:30:00`.
    pub open spec fn clock_text(self) -> Seq<char> {
        two_digits(self.hour) + seq![':'] + two_digits(self.minute) + seq![':'] + two_digits(
            self.second,
        )
    }

    /// The fraction of a second with six digits.
    pub open spec fn micro_text(self) -> Seq<char> {
        seq!['.'] + three_digits(self.micro / 1000) + three_digits(self.micro % 1000)
    }

    /// The fraction of a second with as many digits as it needs: none, three
    /// or six.
    pub open spec fn short_fraction_text(self) -> Seq<char> {
        if self.micro == 0 {
            Seq::empty()
        } else if self.micro % 1000 == 0 {
            seq!['.'] + three_digits(self.micro / 1000)
        } else {
            self.micro_text()
        }
    }

    /// RFC 3339 in UTC with six fractional digits.
    pub open spec fn rfc3339_text(self) -> Seq<char> {
        self.date_text() + seq!['T'] + self.clock_text() + self.micro_text() + seq!['Z']
    }

    /// For people: date, time of day, `UTC`.
    pub open spec fn display_text(self) -> Seq<char> {
        self.date_text() + seq![' '] + self.clock_text() + self.short_fraction_text() + seq![
            ' ',
            'U',
            'T',
            'C',
        ]
    }

    /// For diagnostics: date, `T`, time of day, `Z`.
    pub open spec fn debug_text(self) -> Seq<char> {
        self.date_text() + seq!['T'] + self.clock_text() + self.short_fraction_text() + seq!['Z']
    }
}

/// The date and the time of day at an instant.
pub open spec fn civil_time(micros: int) -> CivilTime {
    choose|c: CivilTime| c.valid() && #[trigger] c.micros() == micros
}

// ---------------------------------------------------------------------
// Instants
// ---------------------------------------------------------------------

/// An instant, to the microsecond.
#[derive(Clone, Copy, Debug, PartialEq, Eq, Structural)]
pub struct Timestamp {
    micros: i64,
}

impl View for Timestamp {
    type V = int;

    /// Microseconds since the epoch.
    closed spec fn view(&self) -> int {
        self.micros as int
    }
}

impl Timestamp {
    #[verifier::type_invariant]
    spec fn in_range(self) -> bool {
        MIN_MICROS <= self.micros <= MAX_MICROS
    }

    /// The instant that many microseconds after the epoch, where it can be
    /// written.
    pub fn from_micros(micros: i64) -> (r: Option<Timestamp>)
        ensures
            match r {
                Some(t) => MIN_MICROS <= micros <= MAX_MICROS && t@ == micros,
                None => !(MIN_MICROS <= micros <= MAX_MICROS),
            },
    {
        if MIN_MICROS <= micros && micros <= MAX_MICROS {
            Some(Timestamp { micros })
        } else {
            None
        }
    }

    /// Microseconds since the epoch.
    pub fn micros(&self) -> (r: i64)
        ensures
            r == self@,
            MIN_MICROS <= r <= MAX_MICROS,
    {
        proof {
            use_type_invariant(self);
        }
        self.micros
    }

    /// Writes the instant as RFC 3339 in UTC with six fractional digits.
    pub fn rfc3339(&self) -> (r: String)
        ensures
            r@ == civil_time(self@).rfc3339_text(),
    {
        chrono_rfc3339(self.micros())
    }

    /// Writes the instant for people.
    pub fn display(&self) -> (r: String)
        ensures
            r@ == civil_time(self@).display_text(),
    {
        chrono_display(self.micros())
    }

    /// Writes the instant for diagnostics.
    pub fn debug(&self) -> (r: String)
        ensures
            r@ == civil_time(self@).debug_text(),
    {
        chrono_debug(self.micros())
    }
}

/// `chrono::DateTime::<Utc>::to_rfc3339_opts` with microseconds and `Z`, on
/// the instant that `DateTime::from_timestamp_micros` makes of `micros`.
///
/// Trusted: the instant exists for the years that the bounds span, and its
/// text is that of its date and time of day in the proleptic Gregorian
/// calendar.
#[verifier::external_body]
fn chrono_rfc3339(micros: i64) -> (r: String)
    requires
        MIN_MICROS <= micros <= MAX_MICROS,
    ensures
        r@ == civil_time(micros as int).rfc3339_text(),
{
    let time = chrono::DateTime::from_timestamp_micros(micros).expect("instant in range");
    time.to_rfc3339_opts(chrono::SecondsFormat::Micros, true)
}

/// `chrono::DateTime::<Utc>`'s `Display`, on the instant that
/// `DateTime::from_timestamp_micros` makes of `micros`.
///
/// Trusted: the text is the date, the time of day with as many fractional
/// digits as it needs, and `UTC`.
#[verifier::external_body]
fn chrono_display(micros: i64) -> (r: String)
    requires
        MIN_MICROS <= micros <= MAX_MICROS,
    ensures
        r@ == civil_time(micros as int).display_text(),
{
    let time = chrono::DateTime::from_timestamp_micros(micros).expect("instant in range");
    time.to_string()
}

/// `chrono::DateTime::<Utc>`'s `Debug`, on the instant that
/// `DateTime::from_timestamp_micros` makes of `micros`.
///
/// Trusted: the text is the date, `T`, the time of day with as many
/// fractional digits as it needs, and `Z`.
#[verifier::external_body]
fn chrono_debug(micros: i64) -> (r: String)
    requires
        MIN_MICROS <= micros <= MAX_MICROS,
    ensures
        r@ == civil_time(micros as int).debug_text(),
{
    let time = chrono::DateTime::from_timestamp_micros(micros).expect("instant in range");
    format!("{time:?}")
}

} // verus!
