//! The calendar has one date and one time of day for every instant, and the
//! text of an instant names it.

use vstd::prelude::*;

use crate::endpoint::{lemma_decimal_digits, lemma_decimal_round_trip};
use crate::number::{decimal, digit_char};
use crate::timestamp::{
    civil_time, days_before_month, days_before_year, days_in_month, is_leap_year, three_digits,
    two_digits, year_text, CivilTime,
};

verus! {

// ---------------------------------------------------------------------
// Counting days
// ---------------------------------------------------------------------

proof fn lemma_year_step(year: int)
    ensures
        days_before_year(year + 1) == days_before_year(year) + (if is_leap_year(year) {
            366int
        } else {
            365int
        }),
{
}

proof fn lemma_year_order(a: int, b: int)
    requires
        a <= b,
    ensures
        days_before_year(a) <= days_before_year(b),
    decreases b - a,
{
    if a < b {
        lemma_year_step(b - 1);
        lemma_year_order(a, b - 1);
    }
}

proof fn lemma_year_length(year: int)
    ensures
        days_before_month(year, 12) + 31 == (if is_leap_year(year) {
            366int
        } else {
            365int
        }),
{
    reveal_with_fuel(days_before_month, 13);
}

proof fn lemma_month_order(year: int, a: int, b: int)
    requires
        1 <= a < b,
    ensures
        days_before_month(year, a) + days_in_month(year, a) <= days_before_month(year, b),
    decreases b - a,
{
    if a + 1 < b {
        lemma_month_order(year, a, b - 1);
    }
}

/// The first instant of the day that follows or precedes the epoch by `n`
/// days.
proof fn midnight(n: int) -> (c: CivilTime)
    ensures
        c.valid(),
        c.epoch_day() == n,
        c.hour == 0 && c.minute == 0 && c.second == 0 && c.micro == 0,
    decreases (if n < 0 {
        -n
    } else {
        n
    }),
{
    if n == 0 {
        reveal_with_fuel(days_before_month, 2);
        CivilTime { year: 1970, month: 1, day: 1, hour: 0, minute: 0, second: 0, micro: 0 }
    } else if n > 0 {
        let c = midnight(n - 1);
        if c.day < days_in_month(c.year, c.month) {
            CivilTime { day: c.day + 1, ..c }
        } else if c.month < 12 {
            CivilTime { month: c.month + 1, day: 1, ..c }
        } else {
            lemma_year_length(c.year);
            lemma_year_step(c.year);
            reveal_with_fuel(days_before_month, 2);
            CivilTime { year: c.year + 1, month: 1, day: 1, ..c }
        }
    } else {
        let c = midnight(n + 1);
        if c.day > 1 {
            CivilTime { day: c.day - 1, ..c }
        } else if c.month > 1 {
            CivilTime { month: c.month - 1, day: days_in_month(c.year, c.month - 1), ..c }
        } else {
            lemma_year_length(c.year - 1);
            lemma_year_step(c.year - 1);
            reveal_with_fuel(days_before_month, 2);
            CivilTime { year: c.year - 1, month: 12, day: 31, ..c }
        }
    }
}

/// A day lies in its year, and in its month.
proof fn lemma_day_bounds(c: CivilTime)
    requires
        c.valid(),
    ensures
        days_before_year(c.year) <= c.epoch_day() + days_before_year(1970) < days_before_year(
            c.year + 1,
        ),
        0 <= days_before_month(c.year, c.month),
{
    lemma_year_step(c.year);
    lemma_year_length(c.year);
    if c.month < 12 {
        lemma_month_order(c.year, c.month, 12);
    }
    reveal_with_fuel(days_before_month, 2);
    if c.month > 1 {
        lemma_month_order(c.year, 1, c.month);
    }
}

// ---------------------------------------------------------------------
// Reading texts
// ---------------------------------------------------------------------

proof fn lemma_digit_char(a: int, b: int)
    requires
        0 <= a < 10,
        0 <= b < 10,
        digit_char(a) == digit_char(b),
    ensures
        a == b,
{
    assert(digit_char(a) as int == '0' as int + a);
    assert(digit_char(b) as int == '0' as int + b);
}

proof fn lemma_two_digits(a: int, b: int)
    requires
        0 <= a < 100,
        0 <= b < 100,
        two_digits(a)[0] == two_digits(b)[0],
        two_digits(a)[1] == two_digits(b)[1],
    ensures
        a == b,
{
    lemma_digit_char(a / 10 % 10, b / 10 % 10);
    lemma_digit_char(a % 10, b % 10);
}

proof fn lemma_three_digits(a: int, b: int)
    requires
        0 <= a < 1000,
        0 <= b < 1000,
        three_digits(a)[0] == three_digits(b)[0],
        three_digits(a)[1] == three_digits(b)[1],
        three_digits(a)[2] == three_digits(b)[2],
    ensures
        a == b,
{
    lemma_digit_char(a / 100 % 10, b / 100 % 10);
    lemma_digit_char(a / 10 % 10, b / 10 % 10);
    lemma_digit_char(a % 10, b % 10);
}

proof fn lemma_digit_is_digit(d: int)
    requires
        0 <= d < 10,
    ensures
        '0' <= digit_char(d) <= '9',
{
    assert(digit_char(d) as int == '0' as int + d);
}

proof fn lemma_long_decimal(n: nat)
    requires
        n >= 10000,
    ensures
        decimal(n).len() >= 5,
{
    reveal_with_fuel(decimal, 5);
    assert(n / 10 >= 1000);
    assert(n / 10 / 10 >= 100);
    assert(n / 10 / 10 / 10 >= 10);
    assert(decimal(n / 10 / 10 / 10).len() >= 2);
    assert(decimal(n / 10 / 10).len() >= 3);
    assert(decimal(n / 10).len() >= 4);
}

proof fn lemma_decimal_injective(a: nat, b: nat)
    requires
        decimal(a) == decimal(b),
    ensures
        a == b,
{
    let max = if a < b {
        b as int
    } else {
        a as int
    };
    lemma_decimal_round_trip(a, max);
    lemma_decimal_round_trip(b, max);
}

spec fn magnitude(year: int) -> int {
    if year < 0 {
        -year
    } else {
        year
    }
}

spec fn year_digits(year: int) -> Seq<char> {
    if magnitude(year) <= 9999 {
        two_digits(magnitude(year) / 100) + two_digits(magnitude(year) % 100)
    } else {
        decimal(magnitude(year) as nat)
    }
}

/// The digits of a year start with a digit, and name its magnitude.
proof fn lemma_year_digits(a: int, b: int)
    requires
        year_digits(a) == year_digits(b),
    ensures
        magnitude(a) == magnitude(b),
{
    let m = magnitude(a);
    let n = magnitude(b);
    if m > 9999 {
        lemma_long_decimal(m as nat);
    }
    if n > 9999 {
        lemma_long_decimal(n as nat);
    }
    if m <= 9999 && n <= 9999 {
        let s = year_digits(a);
        let t = year_digits(b);
        assert(s[0] == two_digits(m / 100)[0] && t[0] == two_digits(n / 100)[0]);
        assert(s[1] == two_digits(m / 100)[1] && t[1] == two_digits(n / 100)[1]);
        assert(s[2] == two_digits(m % 100)[0] && t[2] == two_digits(n % 100)[0]);
        assert(s[3] == two_digits(m % 100)[1] && t[3] == two_digits(n % 100)[1]);
        lemma_two_digits(m / 100, n / 100);
        lemma_two_digits(m % 100, n % 100);
    } else {
        lemma_decimal_injective(m as nat, n as nat);
    }
}

proof fn lemma_year_first_char(year: int)
    ensures
        year_text(year).len() >= 4,
        year_text(year)[0] == '-' <==> year < 0,
        year_text(year)[0] == '+' <==> year > 9999,
        year_text(year) == year_digits(year) || year_text(year).drop_first() == year_digits(year),
        0 <= year <= 9999 ==> year_text(year) == year_digits(year),
        !(0 <= year <= 9999) ==> year_text(year).drop_first() == year_digits(year),
{
    let m = magnitude(year);
    lemma_digit_is_digit(m / 100 / 10 % 10);
    if m > 9999 {
        lemma_long_decimal(m as nat);
    }
    if !(0 <= year <= 9999) {
        assert(year_text(year).drop_first() == year_digits(year));
    }
}

proof fn lemma_year_text_injective(a: int, b: int)
    requires
        year_text(a) == year_text(b),
    ensures
        a == b,
{
    lemma_year_first_char(a);
    lemma_year_first_char(b);
    lemma_year_digits(a, b);
}

/// What follows the year in the RFC 3339 text, place by place.
proof fn lemma_rfc3339_places(c: CivilTime)
    ensures
        ({
            let t = c.rfc3339_text();
            let k = year_text(c.year).len() as int;
            &&& t.len() == k + 23
            &&& t.take(k) == year_text(c.year)
            &&& t[k + 1] == two_digits(c.month)[0] && t[k + 2] == two_digits(c.month)[1]
            &&& t[k + 4] == two_digits(c.day)[0] && t[k + 5] == two_digits(c.day)[1]
            &&& t[k + 7] == two_digits(c.hour)[0] && t[k + 8] == two_digits(c.hour)[1]
            &&& t[k + 10] == two_digits(c.minute)[0] && t[k + 11] == two_digits(c.minute)[1]
            &&& t[k + 13] == two_digits(c.second)[0] && t[k + 14] == two_digits(c.second)[1]
            &&& t[k + 16] == three_digits(c.micro / 1000)[0]
            &&& t[k + 17] == three_digits(c.micro / 1000)[1]
            &&& t[k + 18] == three_digits(c.micro / 1000)[2]
            &&& t[k + 19] == three_digits(c.micro % 1000)[0]
            &&& t[k + 20] == three_digits(c.micro % 1000)[1]
            &&& t[k + 21] == three_digits(c.micro % 1000)[2]
            &&& t[k] == '-' && t[k + 3] == '-' && t[k + 6] == 'T'
            &&& t[k + 9] == ':' && t[k + 12] == ':' && t[k + 15] == '.' && t[k + 22] == 'Z'
        }),
{
    assert(c.rfc3339_text().take(year_text(c.year).len() as int) == year_text(c.year));
}

// ---------------------------------------------------------------------
// Laws
// ---------------------------------------------------------------------

/// Every instant has a date and a time of day.
pub proof fn law_instant_has_civil_time(micros: int)
    ensures
        civil_time(micros).valid(),
        civil_time(micros).micros() == micros,
{
    let seconds = micros / 1_000_000;
    let minutes = seconds / 60;
    let hours = minutes / 60;
    let day = midnight(hours / 24);
    let c = CivilTime {
        hour: hours % 24,
        minute: minutes % 60,
        second: seconds % 60,
        micro: micros % 1_000_000,
        ..day
    };
    assert(c.epoch_day() == hours / 24);
    assert(c.valid() && c.micros() == micros);
}

/// An instant has no two dates, nor two times of day.
pub proof fn law_civil_time_is_unique(a: CivilTime, b: CivilTime)
    requires
        a.valid(),
        b.valid(),
        a.micros() == b.micros(),
    ensures
        a == b,
{
    lemma_day_bounds(a);
    lemma_day_bounds(b);
    assert(a.epoch_day() == b.epoch_day());
    if a.year < b.year {
        lemma_year_order(a.year + 1, b.year);
    }
    if b.year < a.year {
        lemma_year_order(b.year + 1, a.year);
    }
    if a.month < b.month {
        lemma_month_order(a.year, a.month, b.month);
    }
    if b.month < a.month {
        lemma_month_order(a.year, b.month, a.month);
    }
}

/// Two instants with the same RFC 3339 text are the same instant.
pub proof fn law_rfc3339_identifies_instant(a: int, b: int)
    requires
        civil_time(a).rfc3339_text() == civil_time(b).rfc3339_text(),
    ensures
        a == b,
{
    law_instant_has_civil_time(a);
    law_instant_has_civil_time(b);
    let c = civil_time(a);
    let d = civil_time(b);
    lemma_rfc3339_places(c);
    lemma_rfc3339_places(d);
    lemma_year_text_injective(c.year, d.year);
    lemma_two_digits(c.month, d.month);
    lemma_two_digits(c.day, d.day);
    lemma_two_digits(c.hour, d.hour);
    lemma_two_digits(c.minute, d.minute);
    lemma_two_digits(c.second, d.second);
    lemma_three_digits(c.micro / 1000, d.micro / 1000);
    lemma_three_digits(c.micro % 1000, d.micro % 1000);
}

/// The RFC 3339 text of an instant is a single line.
pub proof fn law_rfc3339_is_one_line(micros: int)
    ensures
        !civil_time(micros).rfc3339_text().contains('\n'),
{
    law_instant_has_civil_time(micros);
    let c = civil_time(micros);
    let t = c.rfc3339_text();
    let k = year_text(c.year).len() as int;
    lemma_rfc3339_places(c);
    assert forall|i: int| 0 <= i < t.len() implies t[i] != '\n' by {
        if i < k {
            assert(t[i] == year_text(c.year)[i]);
            lemma_year_one_line(c.year);
        } else {
            lemma_two_digits_one_line(c.month);
            lemma_two_digits_one_line(c.day);
            lemma_two_digits_one_line(c.hour);
            lemma_two_digits_one_line(c.minute);
            lemma_two_digits_one_line(c.second);
            lemma_three_digits_one_line(c.micro / 1000);
            lemma_three_digits_one_line(c.micro % 1000);
        }
    }
}

proof fn lemma_two_digits_one_line(n: int)
    ensures
        two_digits(n)[0] != '\n',
        two_digits(n)[1] != '\n',
{
    lemma_digit_is_digit(n / 10 % 10);
    lemma_digit_is_digit(n % 10);
}

proof fn lemma_three_digits_one_line(n: int)
    ensures
        three_digits(n)[0] != '\n',
        three_digits(n)[1] != '\n',
        three_digits(n)[2] != '\n',
{
    lemma_digit_is_digit(n / 100 % 10);
    lemma_digit_is_digit(n / 10 % 10);
    lemma_digit_is_digit(n % 10);
}

proof fn lemma_year_one_line(year: int)
    ensures
        forall|i: int| 0 <= i < year_text(year).len() ==> #[trigger] year_text(year)[i] != '\n',
{
    lemma_year_first_char(year);
    let m = magnitude(year);
    let digits = year_digits(year);
    assert forall|i: int| 0 <= i < digits.len() implies #[trigger] digits[i] != '\n' by {
        lemma_two_digits_one_line(m / 100);
        lemma_two_digits_one_line(m % 100);
        lemma_decimal_digits(m as nat);
    }
    assert forall|i: int| 0 <= i < year_text(year).len() implies #[trigger] year_text(year)[i]
        != '\n' by {
        if 0 <= year <= 9999 {
            assert(year_text(year)[i] == digits[i]);
        } else if i > 0 {
            assert(year_text(year)[i] == year_text(year).drop_first()[i - 1]);
            assert(year_text(year)[i] == digits[i - 1]);
        }
    }
}

} // verus!
