//! Numbers written as text, in decimal and in hexadecimal.

use vstd::prelude::*;


verus! {

/// Why a text is not an unsigned integer.
#[derive(Clone, Copy, Debug, PartialEq, Eq, Structural)]
pub enum IntFault {
    /// There are no characters.
    Empty,
    /// A character is not a digit.
    InvalidDigit,
    /// The number is larger than its type can hold.
    TooLarge,
}

impl IntFault {
    /// The text that describes the fault.
    pub open spec fn text(self) -> Seq<char> {
        match self {
            IntFault::Empty => "cannot parse integer from empty string"@,
            IntFault::InvalidDigit => "invalid digit found in string"@,
            IntFault::TooLarge => "number too large to fit in target type"@,
        }
    }

    /// Describes the fault.
    pub fn message(&self) -> (r: &'static str)
        ensures
            r@ == self.text(),
    {
        match self {
            IntFault::Empty => "cannot parse integer from empty string",
            IntFault::InvalidDigit => "invalid digit found in string",
            IntFault::TooLarge => "number too large to fit in target type",
        }
    }
}

/// The value of `c` as a digit in base `radix`, which is 10 or 16.
pub open spec fn digit_value(c: char, radix: int) -> Option<int> {
    let u = c as int;
    if '0' as int <= u <= '9' as int {
        Some(u - '0' as int)
    } else if radix == 16 && 'a' as int <= u <= 'f' as int {
        Some(u - 'a' as int + 10)
    } else if radix == 16 && 'A' as int <= u <= 'F' as int {
        Some(u - 'A' as int + 10)
    } else {
        None
    }
}

/// Reads the digits `s` after a number `acc` that was read before them. The
/// first character that is no digit, or that makes the number exceed `max`,
/// decides the fault.
pub open spec fn scan_digits(s: Seq<char>, radix: int, max: int, acc: int) -> Result<int, IntFault>
    decreases s.len(),
{
    if s.len() == 0 {
        Ok(acc)
    } else {
        match digit_value(s[0], radix) {
            None => Err(IntFault::InvalidDigit),
            Some(d) => if acc * radix + d > max {
                Err(IntFault::TooLarge)
            } else {
                scan_digits(s.drop_first(), radix, max, acc * radix + d)
            },
        }
    }
}

/// The unsigned integer that `s` denotes: an optional `+`, then at least one
/// digit and nothing else.
pub open spec fn unsigned_value(s: Seq<char>, radix: int, max: int) -> Result<int, IntFault> {
    if s.len() == 0 {
        Err(IntFault::Empty)
    } else if s[0] == '+' && s.len() == 1 {
        Err(IntFault::InvalidDigit)
    } else if s[0] == '+' {
        scan_digits(s.drop_first(), radix, max, 0)
    } else {
        scan_digits(s, radix, max, 0)
    }
}

/// The value of `c` as a decimal digit.
pub fn decimal_digit(c: char) -> (r: Option<u32>)
    ensures
        match r {
            Some(d) => digit_value(c, 10) == Some(d as int) && d < 10,
            None => digit_value(c, 10) is None,
        },
{
    if '0' <= c && c <= '9' {
        Some(c as u32 - '0' as u32)
    } else {
        None
    }
}

/// The value of `c` as a hexadecimal digit.
pub fn hex_digit(c: char) -> (r: Option<u32>)
    ensures
        match r {
            Some(d) => digit_value(c, 16) == Some(d as int) && d < 16,
            None => digit_value(c, 16) is None,
        },
{
    if '0' <= c && c <= '9' {
        Some(c as u32 - '0' as u32)
    } else if 'a' <= c && c <= 'f' {
        Some(c as u32 - 'a' as u32 + 10)
    } else if 'A' <= c && c <= 'F' {
        Some(c as u32 - 'A' as u32 + 10)
    } else {
        None
    }
}

/// The part of `s` that holds digits: all of it, or what follows a `+`.
fn digits_start(s: &[char]) -> (r: Result<usize, IntFault>)
    ensures
        match r {
            Ok(k) => s@.len() > 0 && k < s@.len() && (forall|radix: int, max: int| #[trigger]
                unsigned_value(s@, radix, max) == scan_digits(s@.skip(k as int), radix, max, 0)),
            Err(e) => forall|radix: int, max: int| #[trigger]
                unsigned_value(s@, radix, max) == Err::<int, IntFault>(e),
        },
{
    if s.len() == 0 {
        return Err(IntFault::Empty);
    }
    if s[0] == '+' {
        if s.len() == 1 {
            return Err(IntFault::InvalidDigit);
        }
        assert(s@.skip(1) == s@.drop_first());
        return Ok(1);
    }
    assert(s@.skip(0) == s@);
    Ok(0)
}

/// Parses a decimal `u16`.
pub fn parse_u16(s: &[char]) -> (r: Result<u16, IntFault>)
    ensures
        match r {
            Ok(v) => unsigned_value(s@, 10, u16::MAX as int) == Ok::<int, IntFault>(v as int),
            Err(e) => unsigned_value(s@, 10, u16::MAX as int) == Err::<int, IntFault>(e),
        },
{
    let mut i: usize = match digits_start(s) {
        Ok(k) => k,
        Err(e) => return Err(e),
    };
    assert(unsigned_value(s@, 10, u16::MAX as int) == scan_digits(
        s@.skip(i as int),
        10,
        u16::MAX as int,
        0,
    ));
    let mut acc: u32 = 0;
    while i < s.len()
        invariant
            i <= s@.len(),
            acc <= u16::MAX,
            unsigned_value(s@, 10, u16::MAX as int) == scan_digits(
                s@.skip(i as int),
                10,
                u16::MAX as int,
                acc as int,
            ),
        decreases s.len() - i,
    {
        assert(s@.skip(i as int)[0] == s@[i as int]);
        assert(s@.skip(i as int).drop_first() == s@.skip(i + 1));
        let d: u32 = match decimal_digit(s[i]) {
            Some(d) => d,
            None => return Err(IntFault::InvalidDigit),
        };
        if acc * 10 + d > 65535 {
            return Err(IntFault::TooLarge);
        }
        acc = acc * 10 + d;
        i = i + 1;
    }
    Ok(acc as u16)
}

/// Parses a hexadecimal `u32`.
pub fn parse_hex_u32(s: &[char]) -> (r: Result<u32, IntFault>)
    ensures
        match r {
            Ok(v) => unsigned_value(s@, 16, u32::MAX as int) == Ok::<int, IntFault>(v as int),
            Err(e) => unsigned_value(s@, 16, u32::MAX as int) == Err::<int, IntFault>(e),
        },
{
    let mut i: usize = match digits_start(s) {
        Ok(k) => k,
        Err(e) => return Err(e),
    };
    assert(unsigned_value(s@, 16, u32::MAX as int) == scan_digits(
        s@.skip(i as int),
        16,
        u32::MAX as int,
        0,
    ));
    let mut acc: u64 = 0;
    while i < s.len()
        invariant
            i <= s@.len(),
            acc <= u32::MAX,
            unsigned_value(s@, 16, u32::MAX as int) == scan_digits(
                s@.skip(i as int),
                16,
                u32::MAX as int,
                acc as int,
            ),
        decreases s.len() - i,
    {
        assert(s@.skip(i as int)[0] == s@[i as int]);
        assert(s@.skip(i as int).drop_first() == s@.skip(i + 1));
        let d: u32 = match hex_digit(s[i]) {
            Some(d) => d,
            None => return Err(IntFault::InvalidDigit),
        };
        if acc * 16 + d as u64 > 0xffff_ffff {
            return Err(IntFault::TooLarge);
        }
        acc = acc * 16 + d as u64;
        i = i + 1;
    }
    Ok(acc as u32)
}

// ---------------------------------------------------------------------
// Writing numbers
// ---------------------------------------------------------------------

/// The character of a digit below sixteen, in lower case.
pub open spec fn digit_char(d: int) -> char {
    if d < 10 {
        ('0' as int + d) as char
    } else {
        ('a' as int + d - 10) as char
    }
}

/// The decimal text of `n`, without leading zeros.
pub open spec fn decimal(n: nat) -> Seq<char>
    decreases n,
{
    if n < 10 {
        seq![digit_char(n as int)]
    } else {
        decimal(n / 10).push(digit_char((n % 10) as int))
    }
}

/// The decimal text of `i`, with a minus sign where it is negative.
pub open spec fn signed_decimal(i: int) -> Seq<char> {
    if i < 0 {
        seq!['-'] + decimal((-i) as nat)
    } else {
        decimal(i as nat)
    }
}

/// The character of a digit.
pub fn digit_to_char(d: u8) -> (r: char)
    requires
        d < 16,
    ensures
        r == digit_char(d as int),
{
    if d < 10 {
        (48 + d) as char
    } else {
        (97 + (d - 10)) as char
    }
}

/// The decimal text of `n`.
pub fn decimal_text(n: u64) -> (r: String)
    ensures
        r@ == decimal(n as nat),
    decreases n,
{
    if n < 10 {
        let mut s = String::new();
        s.push(digit_to_char(n as u8));
        assert(s@ == decimal(n as nat));
        s
    } else {
        let mut s = decimal_text(n / 10);
        s.push(digit_to_char((n % 10) as u8));
        s
    }
}

/// The decimal text of `i`.
pub fn signed_decimal_text(i: i64) -> (r: String)
    ensures
        r@ == signed_decimal(i as int),
{
    if i < 0 {
        let magnitude: u64 = if i == i64::MIN {
            0x8000_0000_0000_0000
        } else {
            (-i) as u64
        };
        let digits = decimal_text(magnitude);
        let mut s = String::new();
        s.push('-');
        s.append(digits.as_str());
        assert(s@ == signed_decimal(i as int));
        s
    } else {
        decimal_text(i as u64)
    }
}

/// The two lower case hexadecimal digits of each byte.
pub open spec fn hex(bytes: Seq<u8>) -> Seq<char>
    decreases bytes.len(),
{
    if bytes.len() == 0 {
        Seq::empty()
    } else {
        hex(bytes.drop_last()) + seq![
            digit_char(bytes.last() as int / 16),
            digit_char(bytes.last() as int % 16),
        ]
    }
}

/// Writes bytes in lower case hexadecimal.
pub fn hex_text(bytes: &[u8]) -> (r: String)
    ensures
        r@ == hex(bytes@),
{
    let mut s = String::new();
    let mut i: usize = 0;
    while i < bytes.len()
        invariant
            i <= bytes@.len(),
            s@ == hex(bytes@.take(i as int)),
        decreases bytes.len() - i,
    {
        assert(bytes@.take(i + 1).drop_last() == bytes@.take(i as int));
        let ghost before = s@;
        s.push(digit_to_char(bytes[i] / 16));
        s.push(digit_to_char(bytes[i] % 16));
        i = i + 1;
        assert(s@ == hex(bytes@.take(i as int)));
    }
    assert(bytes@.take(i as int) == bytes@);
    s
}

/// The eight lower case hexadecimal digits of `n`.
pub open spec fn hex_u32(n: int) -> Seq<char> {
    seq![
        digit_char(n / 0x1000_0000 % 16),
        digit_char(n / 0x100_0000 % 16),
        digit_char(n / 0x10_0000 % 16),
        digit_char(n / 0x1_0000 % 16),
        digit_char(n / 0x1000 % 16),
        digit_char(n / 0x100 % 16),
        digit_char(n / 0x10 % 16),
        digit_char(n % 16),
    ]
}

/// Writes `n` with eight lower case hexadecimal digits.
pub fn hex_u32_text(n: u32) -> (r: String)
    ensures
        r@ == hex_u32(n as int),
{
    let mut s = String::new();
    s.push(digit_to_char((n / 0x1000_0000 % 16) as u8));
    s.push(digit_to_char((n / 0x100_0000 % 16) as u8));
    s.push(digit_to_char((n / 0x10_0000 % 16) as u8));
    s.push(digit_to_char((n / 0x1_0000 % 16) as u8));
    s.push(digit_to_char((n / 0x1000 % 16) as u8));
    s.push(digit_to_char((n / 0x100 % 16) as u8));
    s.push(digit_to_char((n / 0x10 % 16) as u8));
    s.push(digit_to_char((n % 16) as u8));
    s
}

} // verus!
