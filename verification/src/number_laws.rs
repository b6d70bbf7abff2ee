//! Numbers and their texts: what is read is what the digits say, and what is
//! written says the number.

use vstd::prelude::*;

use crate::number::{
    decimal, digit_char, digit_value, hex, hex_u32, scan_digits, signed_decimal, unsigned_value,
    IntFault,
};

verus! {

// ---------------------------------------------------------------------
// What digits say
// ---------------------------------------------------------------------

/// The face value of a digit: `0` to `9`, then `a` to `f` and `A` to `F`.
pub open spec fn face(c: char) -> int {
    let u = c as int;
    if 0x61 <= u <= 0x66 {
        u - 0x57
    } else if 0x41 <= u <= 0x46 {
        u - 0x37
    } else {
        u - 0x30
    }
}

/// Whether a character is a digit: `0` to `9`, and in base sixteen a letter
/// up to `f` too.
pub open spec fn is_digit(c: char, radix: int) -> bool {
    let u = c as int;
    0x30 <= u <= 0x39 || (radix == 16 && (0x61 <= u <= 0x66 || 0x41 <= u <= 0x46))
}

/// Whether every character of a text is a digit.
pub open spec fn all_digits(s: Seq<char>, radix: int) -> bool {
    forall|i: int| 0 <= i < s.len() ==> is_digit(#[trigger] s[i], radix)
}

/// The number that digits say, after a number that was said before them.
pub open spec fn said_after(before: int, s: Seq<char>, radix: int) -> int
    decreases s.len(),
{
    if s.len() == 0 {
        before
    } else {
        said_after(before, s.drop_last(), radix) * radix + face(s.last())
    }
}

/// The number that digits say.
pub open spec fn said(s: Seq<char>, radix: int) -> int {
    said_after(0, s, radix)
}

/// The digits of a number: the text itself, or what follows a plus sign.
pub open spec fn unsigned_digits(s: Seq<char>) -> Seq<char> {
    if s.len() > 0 && s[0] == '+' {
        s.skip(1)
    } else {
        s
    }
}

proof fn lemma_said_first(before: int, s: Seq<char>, radix: int)
    requires
        s.len() > 0,
    ensures
        said_after(before, s, radix) == said_after(
            before * radix + face(s[0]),
            s.drop_first(),
            radix,
        ),
    decreases s.len(),
{
    let d = s.drop_last();
    if d.len() == 0 {
        reveal_with_fuel(said_after, 2);
        assert(s.drop_first().len() == 0);
    } else {
        lemma_said_first(before, d, radix);
        assert(d.drop_first() == s.drop_first().drop_last());
        assert(d[0] == s[0]);
        assert(s.drop_first().last() == s.last());
    }
}

proof fn lemma_said_grows(before: int, s: Seq<char>, radix: int)
    requires
        before >= 0,
        radix == 10 || radix == 16,
        all_digits(s, radix),
    ensures
        said_after(before, s, radix) >= before,
    decreases s.len(),
{
    if s.len() > 0 {
        let d = s.drop_last();
        assert forall|i: int| 0 <= i < d.len() implies is_digit(#[trigger] d[i], radix) by {
            assert(d[i] == s[i]);
        }
        lemma_said_grows(before, d, radix);
        assert(is_digit(s[s.len() - 1], radix));
        let v = said_after(before, d, radix);
        assert(v * radix >= v) by (nonlinear_arith)
            requires
                v >= 0,
                radix >= 1,
        ;
    }
}

// ---------------------------------------------------------------------
// Reading
// ---------------------------------------------------------------------

/// The digits are those of the base, with their face value.
pub proof fn law_digits(c: char, radix: int)
    requires
        radix == 10 || radix == 16,
    ensures
        digit_value(c, radix) is Some <==> is_digit(c, radix),
        is_digit(c, radix) ==> digit_value(c, radix) == Some(face(c)) && 0 <= face(c) < radix,
{
}

/// Digits are scanned to the number that they say, or up to the first that is
/// none or says too much.
pub proof fn lemma_scan(s: Seq<char>, radix: int, max: int, acc: int)
    requires
        radix == 10 || radix == 16,
        0 <= acc <= max,
    ensures
        scan_digits(s, radix, max, acc) is Ok <==> all_digits(s, radix) && said_after(
            acc,
            s,
            radix,
        ) <= max,
        scan_digits(s, radix, max, acc) matches Ok(v) ==> v == said_after(acc, s, radix),
        scan_digits(s, radix, max, acc) matches Err(e) ==> exists|k: int|
            0 <= k < s.len() && all_digits(#[trigger] s.take(k), radix) && said_after(
                acc,
                s.take(k),
                radix,
            ) <= max && (if is_digit(s[k], radix) {
                e == IntFault::TooLarge && said_after(acc, s.take(k + 1), radix) > max
            } else {
                e == IntFault::InvalidDigit
            }),
    decreases s.len(),
{
    if s.len() > 0 {
        law_digits(s[0], radix);
        lemma_said_first(acc, s, radix);
        let rest = s.drop_first();
        let next = acc * radix + face(s[0]);
        assert(s.take(0) =~= Seq::<char>::empty());
        assert(said_after(acc, s.take(0), radix) == acc);
        if is_digit(s[0], radix) {
            assert(s.take(1).drop_last() =~= Seq::<char>::empty());
            assert(s.take(1).last() == s[0]);
            reveal_with_fuel(said_after, 2);
            assert(said_after(acc, s.take(1), radix) == next);
            assert(all_digits(s, radix) <==> all_digits(rest, radix)) by {
                if all_digits(rest, radix) {
                    assert forall|i: int| 0 <= i < s.len() implies is_digit(#[trigger] s[i], radix) by {
                        if i > 0 {
                            assert(s[i] == rest[i - 1]);
                        }
                    }
                }
                if all_digits(s, radix) {
                    assert forall|i: int| 0 <= i < rest.len() implies is_digit(
                        #[trigger] rest[i],
                        radix,
                    ) by {
                        assert(rest[i] == s[i + 1]);
                    }
                }
            }
            assert(next >= 0) by (nonlinear_arith)
                requires
                    acc >= 0,
                    radix >= 0,
                    face(s[0]) >= 0,
                    next == acc * radix + face(s[0]),
            ;
            if next <= max {
                lemma_scan(rest, radix, max, next);
                if let Err(e) = scan_digits(rest, radix, max, next) {
                    let k = choose|k: int|
                        0 <= k < rest.len() && all_digits(#[trigger] rest.take(k), radix)
                            && said_after(next, rest.take(k), radix) <= max && (if is_digit(
                            rest[k],
                            radix,
                        ) {
                            e == IntFault::TooLarge && said_after(next, rest.take(k + 1), radix)
                                > max
                        } else {
                            e == IntFault::InvalidDigit
                        });
                    let t = s.take(k + 1);
                    assert(t.drop_first() =~= rest.take(k));
                    assert(t[0] == s[0]);
                    assert forall|i: int| 0 <= i < t.len() implies is_digit(#[trigger] t[i], radix) by {
                        if i > 0 {
                            assert(t[i] == rest.take(k)[i - 1]);
                        }
                    }
                    lemma_said_first(acc, t, radix);
                    let u = s.take(k + 2);
                    assert(u.drop_first() =~= rest.take(k + 1));
                    lemma_said_first(acc, u, radix);
                    assert(s[k + 1] == rest[k]);
                    assert(all_digits(s.take(k + 1), radix));
                }
            } else {
                if all_digits(rest, radix) {
                    lemma_said_grows(next, rest, radix);
                }
                assert(all_digits(s.take(0), radix));
            }
        } else {
            assert(all_digits(s.take(0), radix));
        }
    }
}

/// A text is a number exactly where it is digits, at least one, perhaps after
/// a plus sign, that say a number in the range; and that number is read.
/// Otherwise the text is empty, or some digits from its start on are followed
/// by something else, or say a number beyond the range.
pub proof fn law_number_is_read(s: Seq<char>, radix: int, max: int)
    requires
        radix == 10 || radix == 16,
        max >= 0,
    ensures
        unsigned_value(s, radix, max) is Ok <==> unsigned_digits(s).len() > 0 && all_digits(
            unsigned_digits(s),
            radix,
        ) && said(unsigned_digits(s), radix) <= max,
        unsigned_value(s, radix, max) matches Ok(v) ==> v == said(unsigned_digits(s), radix),
        unsigned_value(s, radix, max) == Err::<int, IntFault>(IntFault::Empty) <==> s.len() == 0,
        unsigned_value(s, radix, max) == Err::<int, IntFault>(IntFault::TooLarge) ==> exists|k: int|
            0 <= k <= unsigned_digits(s).len() && all_digits(
                #[trigger] unsigned_digits(s).take(k),
                radix,
            ) && said(unsigned_digits(s).take(k), radix) > max,
        unsigned_value(s, radix, max) == Err::<int, IntFault>(IntFault::InvalidDigit)
            && unsigned_digits(s).len() > 0 ==> exists|k: int|
            0 <= k < unsigned_digits(s).len() && all_digits(
                #[trigger] unsigned_digits(s).take(k),
                radix,
            ) && said(unsigned_digits(s).take(k), radix) <= max && !is_digit(
                unsigned_digits(s)[k],
                radix,
            ),
{
    let d = unsigned_digits(s);
    if s.len() > 0 {
        assert(s[0] == '+' ==> d =~= s.drop_first());
        lemma_scan(d, radix, max, 0);
        if d.len() > 0 {
            if let Err(e) = scan_digits(d, radix, max, 0) {
                let k = choose|k: int|
                    0 <= k < d.len() && all_digits(#[trigger] d.take(k), radix) && said_after(
                        0,
                        d.take(k),
                        radix,
                    ) <= max && (if is_digit(d[k], radix) {
                        e == IntFault::TooLarge && said_after(0, d.take(k + 1), radix) > max
                    } else {
                        e == IntFault::InvalidDigit
                    });
                if is_digit(d[k], radix) {
                    let t = d.take(k + 1);
                    assert forall|i: int| 0 <= i < t.len() implies is_digit(#[trigger] t[i], radix) by {
                        if i < k {
                            assert(t[i] == d.take(k)[i]);
                        }
                    }
                    assert(all_digits(d.take(k + 1), radix));
                } else {
                    assert(all_digits(d.take(k), radix));
                }
            }
        }
    }
}

// ---------------------------------------------------------------------
// Writing
// ---------------------------------------------------------------------

/// The decimal text of a number says the number, in digits, without zeros in
/// front.
pub proof fn law_decimal_says_number(n: nat)
    ensures
        decimal(n).len() > 0,
        all_digits(decimal(n), 10),
        said(decimal(n), 10) == n,
        decimal(n).len() > 1 ==> decimal(n)[0] as int != 0x30,
        n > 0 ==> decimal(n)[0] as int != 0x30,
    decreases n,
{
    let s = decimal(n);
    assert(digit_char((n % 10) as int) as int == 0x30 + n % 10);
    if n < 10 {
        assert(s.drop_last() =~= Seq::<char>::empty());
        reveal_with_fuel(said_after, 2);
        assert(said(s, 10) == face(s[0]));
    } else {
        law_decimal_says_number(n / 10);
        assert(s.drop_last() =~= decimal(n / 10));
        assert forall|i: int| 0 <= i < s.len() implies is_digit(#[trigger] s[i], 10) by {
            if i < s.len() - 1 {
                assert(s[i] == decimal(n / 10)[i]);
            }
        }
        assert(s[0] == decimal(n / 10)[0]);
    }
}

/// A negative number is written as a minus sign and its magnitude.
pub proof fn law_signed_decimal_says_number(i: int)
    ensures
        i >= 0 ==> all_digits(signed_decimal(i), 10) && said(signed_decimal(i), 10) == i,
        i < 0 ==> signed_decimal(i)[0] == '-' && all_digits(signed_decimal(i).skip(1), 10) && said(
            signed_decimal(i).skip(1),
            10,
        ) == -i,
        i >= 0 && signed_decimal(i).len() > 1 ==> signed_decimal(i)[0] as int != 0x30,
        i < 0 ==> signed_decimal(i)[1] as int != 0x30,
{
    if i >= 0 {
        law_decimal_says_number(i as nat);
    } else {
        law_decimal_says_number((-i) as nat);
        assert(signed_decimal(i).skip(1) =~= decimal((-i) as nat));
    }
}

/// Whether a character is a hexadecimal digit in lower case.
pub open spec fn is_small_hex_digit(c: char) -> bool {
    0x30 <= c as int <= 0x39 || 0x61 <= c as int <= 0x66
}

proof fn lemma_digit_char(d: int)
    requires
        0 <= d < 16,
    ensures
        is_small_hex_digit(digit_char(d)),
        face(digit_char(d)) == d,
{
    assert(d < 10 ==> digit_char(d) as int == 0x30 + d);
    assert(d >= 10 ==> digit_char(d) as int == 0x61 + d - 10);
}

/// Whether two characters are the two small hexadecimal digits of a byte.
pub open spec fn says_byte(high: char, low: char, byte: u8) -> bool {
    &&& is_small_hex_digit(high)
    &&& is_small_hex_digit(low)
    &&& byte as int == 16 * face(high) + face(low)
}

/// Each byte is written as two small hexadecimal digits, the higher one
/// first, in the order of the bytes.
pub proof fn law_hex_says_bytes(bytes: Seq<u8>)
    ensures
        hex(bytes).len() == 2 * bytes.len(),
        forall|i: int|
            0 <= i < bytes.len() ==> says_byte(
                hex(bytes)[2 * i],
                hex(bytes)[2 * i + 1],
                #[trigger] bytes[i],
            ),
    decreases bytes.len(),
{
    if bytes.len() > 0 {
        let d = bytes.drop_last();
        law_hex_says_bytes(d);
        let last = bytes.last() as int;
        lemma_digit_char(last / 16);
        lemma_digit_char(last % 16);
        let h = hex(bytes);
        assert forall|i: int| 0 <= i < bytes.len() implies says_byte(
            h[2 * i],
            h[2 * i + 1],
            #[trigger] bytes[i],
        ) by {
            if i < d.len() {
                assert(h[2 * i] == hex(d)[2 * i]);
                assert(h[2 * i + 1] == hex(d)[2 * i + 1]);
                assert(bytes[i] == d[i]);
            } else {
                assert(h[2 * i] == digit_char(last / 16));
                assert(h[2 * i + 1] == digit_char(last % 16));
            }
        }
    }
}

/// A handle is written as eight small hexadecimal digits that say it.
pub proof fn law_hex_u32_says_number(n: int)
    requires
        0 <= n <= u32::MAX,
    ensures
        hex_u32(n).len() == 8,
        forall|i: int| 0 <= i < 8 ==> is_small_hex_digit(#[trigger] hex_u32(n)[i]),
        said(hex_u32(n), 16) == n,
{
    let s = hex_u32(n);
    lemma_digit_char(n / 0x1000_0000 % 16);
    lemma_digit_char(n / 0x100_0000 % 16);
    lemma_digit_char(n / 0x10_0000 % 16);
    lemma_digit_char(n / 0x1_0000 % 16);
    lemma_digit_char(n / 0x1000 % 16);
    lemma_digit_char(n / 0x100 % 16);
    lemma_digit_char(n / 0x10 % 16);
    lemma_digit_char(n % 16);
    reveal_with_fuel(said_after, 2);
    lemma_said_step(s, 1);
    lemma_said_step(s, 2);
    lemma_said_step(s, 3);
    lemma_said_step(s, 4);
    lemma_said_step(s, 5);
    lemma_said_step(s, 6);
    lemma_said_step(s, 7);
    lemma_said_step(s, 8);
    assert(s.take(0) =~= Seq::<char>::empty());
    assert(s.take(8) =~= s);
    assert(said(s.take(1), 16) == n / 0x1000_0000);
    assert(said(s.take(2), 16) == n / 0x100_0000);
    assert(said(s.take(3), 16) == n / 0x10_0000);
    assert(said(s.take(4), 16) == n / 0x1_0000);
    assert(said(s.take(5), 16) == n / 0x1000);
    assert(said(s.take(6), 16) == n / 0x100);
    assert(said(s.take(7), 16) == n / 0x10);
}

/// Another digit makes the number that is said sixteen times as large.
proof fn lemma_said_step(s: Seq<char>, k: int)
    requires
        1 <= k <= s.len(),
    ensures
        said(s.take(k), 16) == said(s.take(k - 1), 16) * 16 + face(s[k - 1]),
{
    assert(s.take(k).drop_last() =~= s.take(k - 1));
    assert(s.take(k).last() == s[k - 1]);
}

} // verus!
