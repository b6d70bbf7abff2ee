//! The text forms of IP addresses and of socket addresses.
//!
//! An IPv6 address is eight groups of up to four hexadecimal digits between
//! colons. One `::` may stand for one or more zero groups, and a dotted quad
//! may stand for the last two groups.

use vstd::prelude::*;
use vstd::slice::slice_subrange;

use crate::number::{decimal_digit, digit_value, hex_digit, scan_digits};
use crate::text::{find, first_index};

verus! {

// ---------------------------------------------------------------------
// What the texts are
// ---------------------------------------------------------------------

/// The pieces of `s` between occurrences of `c`.
pub open spec fn split_on(s: Seq<char>, c: char) -> Seq<Seq<char>>
    decreases s.len(),
{
    let k = first_index(s, c);
    if 0 <= k < s.len() {
        seq![s.take(k)] + split_on(s.skip(k + 1), c)
    } else {
        seq![s]
    }
}

/// One to four hexadecimal digits.
pub open spec fn is_group(s: Seq<char>) -> bool {
    1 <= s.len() <= 4 && forall|i: int| 0 <= i < s.len() ==> digit_value(#[trigger] s[i], 16) is Some
}

/// A decimal number up to 255, without leading zeros.
pub open spec fn is_octet(s: Seq<char>) -> bool {
    &&& 1 <= s.len() <= 3
    &&& scan_digits(s, 10, 255, 0) is Ok
    &&& s.len() > 1 ==> s[0] != '0'
}

/// Four octets between dots.
pub open spec fn is_ipv4(s: Seq<char>) -> bool {
    let pieces = split_on(s, '.');
    pieces.len() == 4 && forall|i: int| 0 <= i < 4 ==> is_octet(#[trigger] pieces[i])
}

/// How many groups the colon separated pieces stand for, where the last one
/// may be a dotted quad if `quad` allows it.
pub open spec fn group_count(pieces: Seq<Seq<char>>, quad: bool) -> Option<nat> {
    if exists|i: int| 0 <= i < pieces.len() - 1 && !is_group(#[trigger] pieces[i]) {
        None
    } else if is_group(pieces.last()) {
        Some(pieces.len())
    } else if quad && is_ipv4(pieces.last()) {
        Some(pieces.len() + 1)
    } else {
        None
    }
}

/// How many groups `s` stands for; none where it is empty.
pub open spec fn groups(s: Seq<char>, quad: bool) -> Option<nat> {
    if s.len() == 0 {
        Some(0)
    } else {
        group_count(split_on(s, ':'), quad)
    }
}

/// The position of the first `::`, or the length of `s`.
pub open spec fn double_colon(s: Seq<char>) -> int
    decreases s.len(),
{
    if s.len() < 2 {
        s.len() as int
    } else if s[0] == ':' && s[1] == ':' {
        0
    } else {
        1 + double_colon(s.drop_first())
    }
}

/// The text form of an IPv6 address.
pub open spec fn is_ipv6(s: Seq<char>) -> bool {
    let k = double_colon(s);
    if k < s.len() {
        match (groups(s.take(k), false), groups(s.skip(k + 2), true)) {
            (Some(head), Some(tail)) => head + tail <= 7,
            _ => false,
        }
    } else {
        groups(s, true) == Some(8nat)
    }
}

/// Decimal digits of a number up to `max`.
pub open spec fn is_number(s: Seq<char>, max: int) -> bool {
    s.len() > 0 && scan_digits(s, 10, max, 0) is Ok
}

/// An IPv6 address, perhaps with a numeric scope after `%`.
pub open spec fn is_scoped_ipv6(s: Seq<char>) -> bool {
    let k = first_index(s, '%');
    if k < s.len() {
        is_ipv6(s.take(k)) && is_number(s.skip(k + 1), u32::MAX as int)
    } else {
        is_ipv6(s)
    }
}

/// `ipv4:port` or `[ipv6]:port`.
pub open spec fn is_socket_addr(s: Seq<char>) -> bool {
    if s.len() > 0 && s[0] == '[' {
        let k = first_index(s, ']');
        &&& k + 1 < s.len()
        &&& is_scoped_ipv6(s.subrange(1, k))
        &&& s[k + 1] == ':'
        &&& is_number(s.skip(k + 2), u16::MAX as int)
    } else {
        let k = first_index(s, ':');
        k < s.len() && is_ipv4(s.take(k)) && is_number(s.skip(k + 1), u16::MAX as int)
    }
}

// ---------------------------------------------------------------------
// Recognizing them
// ---------------------------------------------------------------------

/// Splits `s` at each `c`.
pub fn split(s: &[char], c: char) -> (r: Vec<&[char]>)
    ensures
        r@.len() == split_on(s@, c).len(),
        forall|i: int| 0 <= i < r@.len() ==> (#[trigger] r@[i])@ == split_on(s@, c)[i],
        r@.len() > 0,
{
    let mut pieces: Vec<&[char]> = Vec::new();
    let mut rest: &[char] = s;
    let ghost mut done: Seq<Seq<char>> = Seq::empty();
    assert(done + split_on(s@, c) == split_on(s@, c));
    loop
        invariant
            split_on(s@, c) == done + split_on(rest@, c),
            pieces@.len() == done.len(),
            forall|i: int| 0 <= i < done.len() ==> (#[trigger] pieces@[i])@ == done[i],
        decreases rest.len(),
    {
        let k: usize = find(rest, c);
        let ghost before = rest@;
        let ghost earlier = done;
        if k < rest.len() {
            let piece = slice_subrange(rest, 0, k);
            pieces.push(piece);
            rest = slice_subrange(rest, k + 1, rest.len());
            proof {
                assert(piece@ == before.take(k as int));
                assert(rest@ == before.skip(k + 1));
                done = done.push(before.take(k as int));
                assert(done + split_on(rest@, c) == earlier + split_on(before, c));
            }
        } else {
            pieces.push(rest);
            assert(split_on(before, c) == seq![before]);
            assert(split_on(s@, c) == done.push(before));
            return pieces;
        }
    }
}

/// Whether `s` is one to four hexadecimal digits.
pub fn group_text(s: &[char]) -> (r: bool)
    ensures
        r == is_group(s@),
{
    if s.len() == 0 || s.len() > 4 {
        return false;
    }
    let mut i: usize = 0;
    while i < s.len()
        invariant
            i <= s@.len(),
            1 <= s@.len() <= 4,
            forall|k: int| 0 <= k < i ==> digit_value(#[trigger] s@[k], 16) is Some,
        decreases s.len() - i,
    {
        if hex_digit(s[i]).is_none() {
            return false;
        }
        i = i + 1;
    }
    true
}

/// Whether `s` is the decimal digits of a number up to `max`.
pub fn number_text(s: &[char], max: u32) -> (r: bool)
    ensures
        r == is_number(s@, max as int),
{
    if s.len() == 0 {
        return false;
    }
    let mut acc: u64 = 0;
    let mut i: usize = 0;
    assert(s@.skip(0) == s@);
    while i < s.len()
        invariant
            i <= s@.len(),
            s@.len() > 0,
            acc <= max,
            scan_digits(s@, 10, max as int, 0) == scan_digits(
                s@.skip(i as int),
                10,
                max as int,
                acc as int,
            ),
        decreases s.len() - i,
    {
        assert(s@.skip(i as int)[0] == s@[i as int]);
        assert(s@.skip(i as int).drop_first() == s@.skip(i + 1));
        let d: u32 = match decimal_digit(s[i]) {
            Some(d) => d,
            None => return false,
        };
        if acc * 10 + d as u64 > max as u64 {
            return false;
        }
        acc = acc * 10 + d as u64;
        i = i + 1;
    }
    true
}

/// Whether `s` is a decimal number up to 255 without leading zeros.
pub fn octet_text(s: &[char]) -> (r: bool)
    ensures
        r == is_octet(s@),
{
    s.len() >= 1 && s.len() <= 3 && number_text(s, 255) && (s.len() == 1 || s[0] != '0')
}

/// Whether `s` is the text of an IPv4 address.
pub fn ipv4_text(s: &[char]) -> (r: bool)
    ensures
        r == is_ipv4(s@),
{
    let pieces = split(s, '.');
    if pieces.len() != 4 {
        return false;
    }
    let mut i: usize = 0;
    while i < 4
        invariant
            i <= 4,
            pieces@.len() == 4,
            split_on(s@, '.').len() == 4,
            forall|k: int| 0 <= k < 4 ==> (#[trigger] pieces@[k])@ == split_on(s@, '.')[k],
            forall|k: int| 0 <= k < i ==> is_octet(#[trigger] split_on(s@, '.')[k]),
        decreases 4 - i,
    {
        assert(pieces@[i as int]@ == split_on(s@, '.')[i as int]);
        if !octet_text(pieces[i]) {
            return false;
        }
        i = i + 1;
    }
    true
}

/// Counts the groups that `s` stands for, as long as they are at most eight.
fn count_groups(s: &[char], quad: bool) -> (r: Option<usize>)
    ensures
        match r {
            Some(n) => groups(s@, quad) == Some(n as nat) && n <= 9,
            None => groups(s@, quad) matches Some(n) ==> n > 8,
        },
{
    if s.len() == 0 {
        return Some(0);
    }
    let pieces = split(s, ':');
    let ghost model = split_on(s@, ':');
    if pieces.len() > 8 {
        return None;
    }
    let last: usize = pieces.len() - 1;
    let mut i: usize = 0;
    while i < last
        invariant
            i <= last,
            last == pieces@.len() - 1,
            model == split_on(s@, ':'),
            pieces@.len() == model.len(),
            s@.len() > 0,
            forall|k: int| 0 <= k < model.len() ==> (#[trigger] pieces@[k])@ == model[k],
            forall|k: int| 0 <= k < i ==> is_group(#[trigger] model[k]),
        decreases last - i,
    {
        assert(pieces@[i as int]@ == model[i as int]);
        if !group_text(pieces[i]) {
            return None;
        }
        i = i + 1;
    }
    assert(pieces@[last as int]@ == model[last as int]);
    if group_text(pieces[last]) {
        Some(pieces.len())
    } else if quad && ipv4_text(pieces[last]) {
        Some(pieces.len() + 1)
    } else {
        None
    }
}

/// The position of the first `::`, or the length.
fn find_double_colon(s: &[char]) -> (r: usize)
    ensures
        r == double_colon(s@),
        r < s@.len() ==> r + 2 <= s@.len(),
        r <= s@.len(),
{
    let mut i: usize = 0;
    assert(s@.skip(0) == s@);
    while i < s.len() && i + 1 < s.len()
        invariant
            i <= s@.len(),
            double_colon(s@) == i + double_colon(s@.skip(i as int)),
        decreases s.len() - i,
    {
        let ghost t = s@.skip(i as int);
        assert(t[0] == s@[i as int] && t[1] == s@[i + 1]);
        assert(t.drop_first() == s@.skip(i + 1));
        if s[i] == ':' && s[i + 1] == ':' {
            return i;
        }
        i = i + 1;
    }
    s.len()
}

/// Whether `s` is the text of an IPv6 address.
pub fn ipv6_text(s: &[char]) -> (r: bool)
    ensures
        r == is_ipv6(s@),
{
    let k: usize = find_double_colon(s);
    if k < s.len() {
        let before = slice_subrange(s, 0, k);
        let after = slice_subrange(s, k + 2, s.len());
        assert(before@ == s@.take(k as int));
        assert(after@ == s@.skip(k + 2));
        match (count_groups(before, false), count_groups(after, true)) {
            (Some(head), Some(tail)) => head + tail <= 7,
            _ => false,
        }
    } else {
        match count_groups(s, true) {
            Some(n) => n == 8,
            None => false,
        }
    }
}

/// Whether `s` is an IPv6 address with or without a scope.
fn scoped_ipv6_text(s: &[char]) -> (r: bool)
    ensures
        r == is_scoped_ipv6(s@),
{
    let k: usize = find(s, '%');
    if k < s.len() {
        let address = slice_subrange(s, 0, k);
        let scope = slice_subrange(s, k + 1, s.len());
        assert(address@ == s@.take(k as int));
        assert(scope@ == s@.skip(k + 1));
        ipv6_text(address) && number_text(scope, u32::MAX)
    } else {
        ipv6_text(s)
    }
}

/// Whether `s` is the text of a socket address.
pub fn socket_addr_text(s: &[char]) -> (r: bool)
    ensures
        r == is_socket_addr(s@),
{
    if s.len() > 0 && s[0] == '[' {
        let k: usize = find(s, ']');
        if k >= s.len() || k + 1 >= s.len() {
            return false;
        }
        let inner = slice_subrange(s, 1, k);
        let port = slice_subrange(s, k + 2, s.len());
        assert(port@ == s@.skip(k + 2));
        scoped_ipv6_text(inner) && s[k + 1] == ':' && number_text(port, 65535)
    } else {
        let k: usize = find(s, ':');
        if k >= s.len() {
            return false;
        }
        let address = slice_subrange(s, 0, k);
        let port = slice_subrange(s, k + 1, s.len());
        assert(address@ == s@.take(k as int));
        assert(port@ == s@.skip(k + 1));
        ipv4_text(address) && number_text(port, 65535)
    }
}

} // verus!
