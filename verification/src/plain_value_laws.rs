//! What the functions on plain texts and numbers return, call by call.

use vstd::prelude::*;
use vstd::utf8::is_ascii_chars;

use crate::address::{ipv4_text, ipv6_text, split, split_on};
use crate::address_laws::{
    is_address, is_quad, law_ipv4, law_ipv6, law_split_is_put_together, put_together,
};
use crate::number::{
    decimal_digit, decimal_text, digit_to_char, hex_digit, hex_text, hex_u32_text, parse_hex_u32,
    parse_u16, signed_decimal_text, IntFault,
};
use crate::number_laws::{
    all_digits, face, is_digit, is_small_hex_digit, law_decimal_says_number, law_digits,
    law_hex_says_bytes, law_hex_u32_says_number, law_number_is_read,
    law_signed_decimal_says_number, said, says_byte, unsigned_digits,
};
use crate::text::{
    chars_of, count, find, is_white_space, lower_ascii, rfind, same_text, slice_string, string_of,
    to_ascii_lowercase, to_lowercase, trim, unicode_lowercase, white_space,
};
use crate::text_laws::{
    law_ascii_lower, law_ascii_lowercase, law_first_and_last_place, law_lowercase, law_occurrences,
    law_trimmed, law_white_space,
};

verus! {

// ---------------------------------------------------------------------
// Texts
// ---------------------------------------------------------------------

/// A text is taken apart into its characters, and put together from them.
pub proof fn law_characters_are_kept(
    s: &str,
    chars: Vec<char>,
    slice: &[char],
    text: String,
    from: usize,
    to: usize,
    part: String,
)
    requires
        call_ensures(chars_of, (s,), chars),
        call_ensures(string_of, (slice,), text),
        from <= to <= slice@.len(),
        call_ensures(slice_string, (slice, from, to), part),
    ensures
        chars@ == s@,
        text@ == slice@,
        part@.len() == to - from,
        forall|i: int| 0 <= i < part@.len() ==> #[trigger] part@[i] == slice@[from + i],
{
}

/// Two texts are the same exactly where they have the same length and the same
/// character at every position.
pub proof fn law_same_text(a: &str, b: &str, r: bool)
    requires
        call_ensures(same_text, (a, b), r),
    ensures
        r <==> a@.len() == b@.len() && forall|i: int| 0 <= i < a@.len() ==> a@[i] == b@[i],
{
    if a@.len() == b@.len() && forall|i: int| 0 <= i < a@.len() ==> a@[i] == b@[i] {
        assert(a@ =~= b@);
    }
}

/// White space is what these code points stand for.
pub proof fn law_white_space_is_told(c: char, r: bool)
    requires
        call_ensures(white_space, (c,), r),
    ensures
        r <==> set![
            0x9int, 0xa, 0xb, 0xc, 0xd, 0x20, 0x85, 0xa0, 0x1680, 0x2000, 0x2001, 0x2002, 0x2003,
            0x2004, 0x2005, 0x2006, 0x2007, 0x2008, 0x2009, 0x200a, 0x2028, 0x2029, 0x202f, 0x205f,
            0x3000,
        ].contains(c as int),
{
    law_white_space(c);
}

/// Trimming leaves the part of a text between the first and the last of its
/// characters that are not white space.
pub proof fn law_white_space_is_taken_off(chars: &[char], r: &[char])
    requires
        call_ensures(trim, (chars,), r),
    ensures
        exists|a: int, b: int|
            #![trigger chars@.subrange(a, b)]
            {
                &&& 0 <= a <= b <= chars@.len()
                &&& r@ == chars@.subrange(a, b)
                &&& forall|i: int| 0 <= i < a ==> is_white_space(#[trigger] chars@[i])
                &&& forall|i: int| b <= i < chars@.len() ==> is_white_space(#[trigger] chars@[i])
                &&& a < b ==> !is_white_space(chars@[a]) && !is_white_space(chars@[b - 1])
            },
{
    law_trimmed(chars@);
}

/// A search from the front stops at the first place where the character
/// stands, or at the end.
pub proof fn law_first_place_is_found(chars: &[char], c: char, r: usize)
    requires
        call_ensures(find, (chars, c), r),
    ensures
        r <= chars@.len(),
        r < chars@.len() ==> chars@[r as int] == c,
        forall|i: int| 0 <= i < r ==> #[trigger] chars@[i] != c,
{
    law_first_and_last_place(chars@, c);
}

/// A search from the back stops at the last place where the character stands,
/// and finds none exactly where it stands nowhere.
pub proof fn law_last_place_is_found(chars: &[char], c: char, r: Option<usize>)
    requires
        call_ensures(rfind, (chars, c), r),
    ensures
        match r {
            Some(k) => {
                &&& k < chars@.len()
                &&& chars@[k as int] == c
                &&& forall|i: int| k < i < chars@.len() ==> #[trigger] chars@[i] != c
            },
            None => forall|i: int| 0 <= i < chars@.len() ==> #[trigger] chars@[i] != c,
        },
{
    law_first_and_last_place(chars@, c);
}

/// A character is counted once for every place where it stands.
pub proof fn law_places_are_counted(chars: &[char], c: char, r: usize)
    requires
        call_ensures(count, (chars, c), r),
    ensures
        r == chars@.to_multiset().count(c),
{
    law_occurrences(chars@, c);
}

/// A letter from `A` to `Z` becomes the small letter, and any other character
/// stays as it is.
pub proof fn law_letter_is_lowered(c: char, r: char)
    requires
        call_ensures(lower_ascii, (c,), r),
    ensures
        r as int == (if 0x41 <= c as int <= 0x5a {
            c as int + 0x20
        } else {
            c as int
        }),
{
    law_ascii_lower(c);
}

/// Lowering the ASCII letters of a text lowers each of its letters.
pub proof fn law_letters_are_lowered(chars: &[char], r: Vec<char>)
    requires
        call_ensures(to_ascii_lowercase, (chars,), r),
    ensures
        r@.len() == chars@.len(),
        forall|i: int|
            0 <= i < chars@.len() ==> (#[trigger] r@[i]) as int == (if 0x41 <= chars@[i] as int
                <= 0x5a {
                chars@[i] as int + 0x20
            } else {
                chars@[i] as int
            }),
{
    law_ascii_lowercase(chars@);
}

/// Lower casing an ASCII text lowers each of its letters; any other text is
/// lower cased as Unicode says.
pub proof fn law_text_is_lowered(s: &str, r: String)
    requires
        call_ensures(to_lowercase, (s,), r),
    ensures
        is_ascii_chars(s@) ==> r@.len() == s@.len(),
        is_ascii_chars(s@) ==> forall|i: int|
            0 <= i < s@.len() ==> (#[trigger] r@[i]) as int == (if 0x41 <= s@[i] as int <= 0x5a {
                s@[i] as int + 0x20
            } else {
                s@[i] as int
            }),
        !is_ascii_chars(s@) ==> r@ == unicode_lowercase(s@),
{
    law_lowercase(s@);
}

// ---------------------------------------------------------------------
// Numbers
// ---------------------------------------------------------------------

/// A digit is read as its face value, and no other character as one.
pub proof fn law_digit_is_read(c: char, decimal: Option<u32>, hex: Option<u32>)
    requires
        call_ensures(decimal_digit, (c,), decimal),
        call_ensures(hex_digit, (c,), hex),
    ensures
        decimal is Some <==> is_digit(c, 10),
        decimal is Some ==> decimal->0 == face(c),
        hex is Some <==> is_digit(c, 16),
        hex is Some ==> hex->0 == face(c),
{
    law_digits(c, 10);
    law_digits(c, 16);
}

/// A number below sixteen is written as the digit with that face value, a
/// small letter from ten on.
pub proof fn law_digit_is_written(d: u8, r: char)
    requires
        d < 16,
        call_ensures(digit_to_char, (d,), r),
    ensures
        is_digit(r, 16),
        face(r) == d,
        d >= 10 ==> 0x61 <= r as int <= 0x66,
{
}

/// A decimal number up to the largest of its type is read as what its digits
/// say, and no other text is read.
pub proof fn law_decimal_is_read(s: &[char], r: Result<u16, IntFault>)
    requires
        call_ensures(parse_u16, (s,), r),
    ensures
        r is Ok <==> unsigned_digits(s@).len() > 0 && all_digits(unsigned_digits(s@), 10) && said(
            unsigned_digits(s@),
            10,
        ) <= 0xffff,
        r is Ok ==> r->Ok_0 == said(unsigned_digits(s@), 10),
        s@.len() == 0 <==> r == Err::<u16, IntFault>(IntFault::Empty),
{
    law_number_is_read(s@, 10, u16::MAX as int);
}

/// The same for a hexadecimal number.
pub proof fn law_hex_is_read(s: &[char], r: Result<u32, IntFault>)
    requires
        call_ensures(parse_hex_u32, (s,), r),
    ensures
        r is Ok <==> unsigned_digits(s@).len() > 0 && all_digits(unsigned_digits(s@), 16) && said(
            unsigned_digits(s@),
            16,
        ) <= 0xffff_ffff,
        r is Ok ==> r->Ok_0 == said(unsigned_digits(s@), 16),
        s@.len() == 0 <==> r == Err::<u32, IntFault>(IntFault::Empty),
{
    law_number_is_read(s@, 16, u32::MAX as int);
}

/// What is written for a number says the number, with no zeros in front.
pub proof fn law_number_is_written(n: u64, r: String)
    requires
        call_ensures(decimal_text, (n,), r),
    ensures
        r@.len() > 0,
        all_digits(r@, 10),
        said(r@, 10) == n,
        r@.len() > 1 ==> r@[0] != '0',
{
    law_decimal_says_number(n as nat);
}

/// The same for a number with a sign: a minus sign and its size, where it is
/// below zero.
pub proof fn law_signed_number_is_written(i: i64, r: String)
    requires
        call_ensures(signed_decimal_text, (i,), r),
    ensures
        i >= 0 ==> all_digits(r@, 10) && said(r@, 10) == i,
        i < 0 ==> r@[0] == '-' && all_digits(r@.skip(1), 10) && said(r@.skip(1), 10) == -i,
        i >= 0 && r@.len() > 1 ==> r@[0] != '0',
        i < 0 ==> r@[1] != '0',
{
    law_signed_decimal_says_number(i as int);
}

/// Each byte is written as two small hexadecimal digits that say it.
pub proof fn law_bytes_are_written(bytes: &[u8], r: String)
    requires
        call_ensures(hex_text, (bytes,), r),
    ensures
        r@.len() == 2 * bytes@.len(),
        forall|i: int|
            0 <= i < bytes@.len() ==> says_byte(r@[2 * i], r@[2 * i + 1], #[trigger] bytes@[i]),
{
    law_hex_says_bytes(bytes@);
}

/// A number is written as eight small hexadecimal digits that say it.
pub proof fn law_hex_number_is_written(n: u32, r: String)
    requires
        call_ensures(hex_u32_text, (n,), r),
    ensures
        r@.len() == 8,
        forall|i: int| 0 <= i < 8 ==> is_small_hex_digit(#[trigger] r@[i]),
        said(r@, 16) == n,
{
    law_hex_u32_says_number(n as int);
}

// ---------------------------------------------------------------------
// Addresses
// ---------------------------------------------------------------------

/// The pieces that a text is split into hold no separator, and give back the
/// text when they are put together with it.
pub proof fn law_pieces_give_back_text(s: &[char], c: char, r: Vec<&[char]>, pieces: Seq<Seq<char>>)
    requires
        call_ensures(split, (s, c), r),
        pieces == r@.map_values(|p: &[char]| p@),
    ensures
        pieces.len() > 0,
        forall|i: int| 0 <= i < pieces.len() ==> !(#[trigger] pieces[i]).contains(c),
        put_together(pieces, c) == s@,
{
    law_split_is_put_together(s@, c);
    assert(pieces =~= split_on(s@, c));
}

/// Addresses are told by their grammar.
pub proof fn law_addresses_are_told(s: &[char], four: bool, six: bool)
    requires
        call_ensures(ipv4_text, (s,), four),
        call_ensures(ipv6_text, (s,), six),
    ensures
        four <==> is_quad(s@),
        six <==> is_address(s@),
{
    law_ipv4(s@);
    law_ipv6(s@);
}

} // verus!
