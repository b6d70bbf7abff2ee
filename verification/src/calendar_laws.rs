//! What the text of an instant says, and how dates follow each other.

use vstd::prelude::*;

use crate::number::{decimal, digit_char};
use crate::number_laws::{all_digits, face, is_digit, law_decimal_says_number, said, said_after};
use crate::timestamp::{
    civil_time, days_before_month, days_before_year, days_in_month, is_leap_year, three_digits,
    two_digits, year_text, CivilTime, Timestamp,
};
use crate::timestamp_laws::{law_civil_time_is_unique, law_instant_has_civil_time};

verus! {

// ---------------------------------------------------------------------
// Texts
// ---------------------------------------------------------------------

proof fn lemma_digit(d: int)
    requires
        0 <= d < 10,
    ensures
        is_digit(digit_char(d), 10),
        face(digit_char(d)) == d,
{
    assert(digit_char(d) as int == 0x30 + d);
}

proof fn lemma_two(n: int)
    requires
        0 <= n < 100,
    ensures
        two_digits(n).len() == 2,
        all_digits(two_digits(n), 10),
        said(two_digits(n), 10) == n,
{
    let s = two_digits(n);
    lemma_digit(n / 10 % 10);
    lemma_digit(n % 10);
    assert(s.drop_last().drop_last() =~= Seq::<char>::empty());
    assert(s.drop_last().last() == s[0]);
    reveal_with_fuel(said_after, 3);
}

proof fn lemma_three(n: int)
    requires
        0 <= n < 1000,
    ensures
        three_digits(n).len() == 3,
        all_digits(three_digits(n), 10),
        said(three_digits(n), 10) == n,
{
    let s = three_digits(n);
    lemma_digit(n / 100 % 10);
    lemma_digit(n / 10 % 10);
    lemma_digit(n % 10);
    assert(s.drop_last().drop_last().drop_last() =~= Seq::<char>::empty());
    assert(s.drop_last().last() == s[1]);
    assert(s.drop_last().drop_last().last() == s[0]);
    reveal_with_fuel(said_after, 4);
}

/// A year from 0 to 9999 is written with four digits that say it; any other
/// year with a sign and the digits that say its magnitude, at least four.
pub proof fn law_year_text(year: int)
    ensures
        0 <= year <= 9999 ==> year_text(year).len() == 4 && all_digits(year_text(year), 10) && said(
            year_text(year),
            10,
        ) == year,
        year < 0 ==> year_text(year)[0] == '-' && year_text(year).len() >= 5 && all_digits(
            year_text(year).skip(1),
            10,
        ) && said(year_text(year).skip(1), 10) == -year,
        year > 9999 ==> year_text(year)[0] == '+' && year_text(year).len() >= 5 && all_digits(
            year_text(year).skip(1),
            10,
        ) && said(year_text(year).skip(1), 10) == year,
        -9999 <= year < 0 ==> year_text(year).len() == 5,
        year < -9999 || year > 9999 ==> year_text(year)[1] != '0',
{
    let m = if year < 0 {
        -year
    } else {
        year
    };
    let four = two_digits(m / 100) + two_digits(m % 100);
    if m <= 9999 {
        lemma_four(m);
    } else {
        law_decimal_says_number(m as nat);
        lemma_long(m as nat);
    }
    if year < 0 || year > 9999 {
        assert(year_text(year).skip(1) =~= (if m <= 9999 {
            four
        } else {
            decimal(m as nat)
        }));
        assert(year_text(year)[1] == year_text(year).skip(1)[0]);
    }
}

proof fn lemma_long(n: nat)
    requires
        n >= 1000,
    ensures
        decimal(n).len() >= 4,
{
    reveal_with_fuel(decimal, 4);
    assert(n / 10 >= 100);
    assert(n / 10 / 10 >= 10);
    assert(decimal(n / 10 / 10).len() >= 2);
    assert(decimal(n / 10).len() >= 3);
}

proof fn lemma_four(m: int)
    requires
        0 <= m <= 9999,
    ensures
        ({
            let four = two_digits(m / 100) + two_digits(m % 100);
            four.len() == 4 && all_digits(four, 10) && said(four, 10) == m
        }),
{
    let a = two_digits(m / 100);
    let b = two_digits(m % 100);
    let four = a + b;
    lemma_two(m / 100);
    lemma_digit(m % 100 / 10 % 10);
    lemma_digit(m % 100 % 10);
    assert forall|i: int| 0 <= i < 4 implies is_digit(#[trigger] four[i], 10) by {
        if i < 2 {
            assert(four[i] == a[i]);
        } else {
            assert(four[i] == b[i - 2]);
        }
    }
    assert(four.drop_last().drop_last() =~= a);
    assert(four.last() == b[1]);
    assert(four.drop_last().last() == b[0]);
    reveal_with_fuel(said_after, 3);
    assert(said(four.drop_last(), 10) == said(a, 10) * 10 + face(b[0]));
    assert(said(four, 10) == said(four.drop_last(), 10) * 10 + face(b[1]));
}

/// Whether digits in a text say a number.
pub open spec fn says(text: Seq<char>, from: int, to: int, n: int) -> bool {
    all_digits(text.subrange(from, to), 10) && said(text.subrange(from, to), 10) == n
}

/// The RFC 3339 text of an instant says its year, then its month, day, hour,
/// minute and second with two digits each, then three digits of milliseconds
/// and three of microseconds.
pub proof fn law_rfc3339_says_time(c: CivilTime)
    requires
        c.valid(),
    ensures
        ({
            let t = c.rfc3339_text();
            let k = year_text(c.year).len() as int;
            &&& t.len() == k + 23
            &&& t.take(k) == year_text(c.year)
            &&& t[k] == '-' && says(t, k + 1, k + 3, c.month)
            &&& t[k + 3] == '-' && says(t, k + 4, k + 6, c.day)
            &&& t[k + 6] == 'T' && says(t, k + 7, k + 9, c.hour)
            &&& t[k + 9] == ':' && says(t, k + 10, k + 12, c.minute)
            &&& t[k + 12] == ':' && says(t, k + 13, k + 15, c.second)
            &&& t[k + 15] == '.' && says(t, k + 16, k + 19, c.micro / 1000)
            &&& says(t, k + 19, k + 22, c.micro % 1000)
            &&& t[k + 22] == 'Z'
        }),
{
    let t = c.rfc3339_text();
    let k = year_text(c.year).len() as int;
    lemma_two(c.month);
    lemma_two(c.day);
    lemma_two(c.hour);
    lemma_two(c.minute);
    lemma_two(c.second);
    lemma_three(c.micro / 1000);
    lemma_three(c.micro % 1000);
    assert(t.take(k) =~= year_text(c.year));
    assert(t.subrange(k + 1, k + 3) =~= two_digits(c.month));
    assert(t.subrange(k + 4, k + 6) =~= two_digits(c.day));
    assert(t.subrange(k + 7, k + 9) =~= two_digits(c.hour));
    assert(t.subrange(k + 10, k + 12) =~= two_digits(c.minute));
    assert(t.subrange(k + 13, k + 15) =~= two_digits(c.second));
    assert(t.subrange(k + 16, k + 19) =~= three_digits(c.micro / 1000));
    assert(t.subrange(k + 19, k + 22) =~= three_digits(c.micro % 1000));
}

/// The text for diagnostics is the RFC 3339 text without the groups of zeros
/// at the end of the fraction; the text for people is the same with a space in
/// place of the `T`, and `UTC` after a space in place of the `Z`.
pub proof fn law_short_texts(c: CivilTime)
    requires
        c.valid(),
    ensures
        ({
            let full = c.rfc3339_text();
            let short = c.debug_text();
            let people = c.display_text();
            let n = full.len() as int;
            let m = short.len() as int;
            let d = year_text(c.year).len() + 6int;
            &&& c.micro == 0 ==> short == full.take(n - 8) + seq!['Z']
            &&& c.micro != 0 && c.micro % 1000 == 0 ==> short == full.take(n - 4) + seq!['Z']
            &&& c.micro % 1000 != 0 ==> short == full
            &&& people == short.take(d) + seq![' '] + short.subrange(d + 1, m - 1) + seq![
                ' ',
                'U',
                'T',
                'C',
            ]
        }),
{
    let full = c.rfc3339_text();
    let short = c.debug_text();
    let people = c.display_text();
    let n = full.len() as int;
    let m = short.len() as int;
    let d = year_text(c.year).len() + 6int;
    law_rfc3339_says_time(c);
    if c.micro == 0 {
        assert(short =~= full.take(n - 8) + seq!['Z']);
    } else if c.micro % 1000 == 0 {
        assert(short =~= full.take(n - 4) + seq!['Z']);
    }
    assert(people =~= short.take(d) + seq![' '] + short.subrange(d + 1, m - 1) + seq![
        ' ',
        'U',
        'T',
        'C',
    ]);
}

// ---------------------------------------------------------------------
// Dates
// ---------------------------------------------------------------------

/// How long a month is.
pub open spec fn month_length(year: int, month: int) -> int {
    if month == 2 {
        if year % 400 == 0 || (year % 4 == 0 && year % 100 != 0) {
            29
        } else {
            28
        }
    } else if set![4int, 6, 9, 11].contains(month) {
        30
    } else {
        31
    }
}

/// The epoch is midnight at the start of 1970.
pub proof fn law_epoch()
    ensures
        civil_time(0) == (CivilTime {
            year: 1970,
            month: 1,
            day: 1,
            hour: 0,
            minute: 0,
            second: 0,
            micro: 0,
        }),
{
    let c = CivilTime { year: 1970, month: 1, day: 1, hour: 0, minute: 0, second: 0, micro: 0 };
    reveal_with_fuel(days_before_month, 2);
    law_instant_has_civil_time(0);
    law_civil_time_is_unique(c, civil_time(0));
}

/// The time of day is what is left of an instant once whole days are taken
/// off.
pub proof fn law_time_of_day(micros: int)
    ensures
        ({
            let c = civil_time(micros);
            &&& c.micro == micros % 1_000_000
            &&& c.second == micros / 1_000_000 % 60
            &&& c.minute == micros / 60_000_000 % 60
            &&& c.hour == micros / 3_600_000_000 % 24
        }),
{
    law_instant_has_civil_time(micros);
}

/// A day later the time of day is the same, and the date is the next one: the
/// next day of the month, or the first of the next month, or the first of the
/// next year.
pub proof fn law_next_day(micros: int)
    ensures
        ({
            let c = civil_time(micros);
            let d = civil_time(micros + 86_400_000_000);
            &&& d.hour == c.hour && d.minute == c.minute && d.second == c.second && d.micro
                == c.micro
            &&& if c.day < month_length(c.year, c.month) {
                d.year == c.year && d.month == c.month && d.day == c.day + 1
            } else if c.month < 12 {
                d.year == c.year && d.month == c.month + 1 && d.day == 1
            } else {
                d.year == c.year + 1 && d.month == 1 && d.day == 1
            }
        }),
{
    let c = civil_time(micros);
    let later = micros + 86_400_000_000;
    law_instant_has_civil_time(micros);
    law_instant_has_civil_time(later);
    let d = if c.day < days_in_month(c.year, c.month) {
        CivilTime { day: c.day + 1, ..c }
    } else if c.month < 12 {
        CivilTime { month: c.month + 1, day: 1, ..c }
    } else {
        lemma_whole_year(c.year);
        reveal_with_fuel(days_before_month, 2);
        CivilTime { year: c.year + 1, month: 1, day: 1, ..c }
    };
    assert(d.epoch_day() == c.epoch_day() + 1);
    assert(d.valid());
    assert(d.micros() == later);
    law_civil_time_is_unique(d, civil_time(later));
}

proof fn lemma_whole_year(year: int)
    ensures
        days_before_year(year + 1) == days_before_year(year) + days_before_month(year, 12) + 31,
{
    reveal_with_fuel(days_before_month, 13);
    assert(days_before_month(year, 12) + 31 == (if is_leap_year(year) {
        366int
    } else {
        365int
    }));
}

/// An instant is had exactly between the two bounds, and is that many
/// microseconds after the epoch.
pub proof fn law_instant_is_kept(micros: i64, r: Option<Timestamp>)
    requires
        call_ensures(Timestamp::from_micros, (micros,), r),
    ensures
        r is Some <==> -8_334_601_228_800_000_000 <= micros <= 8_210_266_876_799_999_999,
        r matches Some(t) ==> t@ == micros,
{
}

/// The texts of an instant are those of its time in UTC.
pub proof fn law_instant_is_shown(t: Timestamp, micros: i64, full: String, people: String)
    requires
        call_ensures(Timestamp::micros, (&t,), micros),
        call_ensures(Timestamp::rfc3339, (&t,), full),
        call_ensures(Timestamp::display, (&t,), people),
    ensures
        micros == t@,
        ({
            let c = civil_time(micros as int);
            let k = year_text(c.year).len() as int;
            &&& full@.len() == k + 23
            &&& full@.take(k) == year_text(c.year)
            &&& says(full@, k + 1, k + 3, c.month) && says(full@, k + 4, k + 6, c.day)
            &&& says(full@, k + 7, k + 9, micros as int / 3_600_000_000 % 24)
            &&& says(full@, k + 10, k + 12, micros as int / 60_000_000 % 60)
            &&& says(full@, k + 13, k + 15, micros as int / 1_000_000 % 60)
            &&& people@.take(k + 6) == full@.take(k + 6)
            &&& people@.subrange(k + 7, k + 15) == full@.subrange(k + 7, k + 15)
        }),
{
    let c = civil_time(t@);
    law_instant_has_civil_time(t@);
    law_time_of_day(t@);
    law_rfc3339_says_time(c);
    law_short_texts(c);
    let k = year_text(c.year).len() as int;
    let short = c.debug_text();
    assert(short.len() >= k + 16);
    assert(short.take(k + 15) =~= full@.take(k + 15));
    assert(people@.take(k + 6) =~= short.take(k + 6));
    assert(short.take(k + 6) =~= full@.take(k + 6)) by {
        assert(short.take(k + 15).take(k + 6) =~= short.take(k + 6));
        assert(full@.take(k + 15).take(k + 6) =~= full@.take(k + 6));
    }
    assert(people@.subrange(k + 7, k + 15) =~= full@.subrange(k + 7, k + 15)) by {
        assert forall|i: int| k + 7 <= i < k + 15 implies people@[i] == full@[i] by {
            assert(short.take(k + 15)[i] == full@.take(k + 15)[i]);
        }
    }
}

} // verus!
