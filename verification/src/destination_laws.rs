//! What canonical destinations promise: spelling does not matter, and
//! canonical forms are their own canonical forms.

use vstd::prelude::*;
use vstd::utf8::is_ascii_chars;

use crate::address::{
    double_colon, group_count, groups, is_group, is_ipv4, is_ipv6, is_octet, split_on,
};
use crate::destination::{
    destination_parts, normalized, split_destination, DestinationFault, DEFAULT_PORT,
};
use crate::endpoint::{endpoint, lemma_decimal_digits, lemma_decimal_round_trip};
use crate::number::{decimal, digit_value, scan_digits, unsigned_value};
use crate::text::{
    ascii_lower, ascii_lowercase, first_index, is_trimmed, is_white_space, last_index,
    lemma_ascii_lowercase_ascii, lemma_ascii_lowercase_idempotent, lemma_first_index,
    lemma_first_index_unique, lemma_last_index, lemma_last_index_unique, lemma_occurrences_concat,
    lemma_occurrences_contains, lemma_trimmed_fixed, lemma_trimmed_is_trimmed,
    lemma_trimmed_padding, lowercase, occurrences, trimmed, trimmed_end, trimmed_start,
};

verus! {

// ---------------------------------------------------------------------
// Lower case and the structure of a text
// ---------------------------------------------------------------------

/// `c` is no ASCII letter, so lower case neither makes it nor changes it.
spec fn is_mark(c: char) -> bool {
    !('A' <= c <= 'Z') && !('a' <= c <= 'z')
}

proof fn lemma_lower_mark(x: char, c: char)
    requires
        is_mark(c),
    ensures
        ascii_lower(x) == c <==> x == c,
{
}

proof fn lemma_lower_parts(s: Seq<char>)
    ensures
        ascii_lowercase(s).len() == s.len(),
        s.len() > 0 ==> ascii_lowercase(s).drop_first() == ascii_lowercase(s.drop_first()),
        s.len() > 0 ==> ascii_lowercase(s).drop_last() == ascii_lowercase(s.drop_last()),
        forall|i: int, j: int|
            0 <= i <= j <= s.len() ==> #[trigger] ascii_lowercase(s).subrange(i, j)
                == ascii_lowercase(s.subrange(i, j)),
        forall|i: int|
            0 <= i <= s.len() ==> #[trigger] ascii_lowercase(s).take(i) == ascii_lowercase(
                s.take(i),
            ),
        forall|i: int|
            0 <= i <= s.len() ==> #[trigger] ascii_lowercase(s).skip(i) == ascii_lowercase(
                s.skip(i),
            ),
{
    assert forall|i: int, j: int| 0 <= i <= j <= s.len() implies #[trigger] ascii_lowercase(
        s,
    ).subrange(i, j) == ascii_lowercase(s.subrange(i, j)) by {}
    assert forall|i: int| 0 <= i <= s.len() implies #[trigger] ascii_lowercase(s).take(i)
        == ascii_lowercase(s.take(i)) by {}
    assert forall|i: int| 0 <= i <= s.len() implies #[trigger] ascii_lowercase(s).skip(i)
        == ascii_lowercase(s.skip(i)) by {}
    if s.len() > 0 {
        assert(ascii_lowercase(s).drop_first() == ascii_lowercase(s.drop_first()));
        assert(ascii_lowercase(s).drop_last() == ascii_lowercase(s.drop_last()));
    }
}

proof fn lemma_lower_trimmed_start(s: Seq<char>)
    ensures
        trimmed_start(ascii_lowercase(s)) == ascii_lowercase(trimmed_start(s)),
    decreases s.len(),
{
    lemma_lower_parts(s);
    if s.len() > 0 && is_white_space(s[0]) {
        lemma_lower_trimmed_start(s.drop_first());
    }
}

proof fn lemma_lower_trimmed_end(s: Seq<char>)
    ensures
        trimmed_end(ascii_lowercase(s)) == ascii_lowercase(trimmed_end(s)),
    decreases s.len(),
{
    lemma_lower_parts(s);
    if s.len() > 0 && is_white_space(s.last()) {
        lemma_lower_trimmed_end(s.drop_last());
    }
}

proof fn lemma_lower_first_index(s: Seq<char>, c: char)
    requires
        is_mark(c),
    ensures
        first_index(ascii_lowercase(s), c) == first_index(s, c),
    decreases s.len(),
{
    lemma_lower_parts(s);
    if s.len() > 0 {
        lemma_lower_mark(s[0], c);
        lemma_lower_first_index(s.drop_first(), c);
    }
}

proof fn lemma_lower_last_index(s: Seq<char>, c: char)
    requires
        is_mark(c),
    ensures
        last_index(ascii_lowercase(s), c) == last_index(s, c),
    decreases s.len(),
{
    lemma_lower_parts(s);
    if s.len() > 0 {
        lemma_lower_mark(s.last(), c);
        lemma_lower_last_index(s.drop_last(), c);
    }
}

proof fn lemma_lower_occurrences(s: Seq<char>, c: char)
    requires
        is_mark(c),
    ensures
        occurrences(ascii_lowercase(s), c) == occurrences(s, c),
    decreases s.len(),
{
    lemma_lower_parts(s);
    if s.len() > 0 {
        lemma_lower_mark(s.last(), c);
        lemma_lower_occurrences(s.drop_last(), c);
    }
}

proof fn lemma_lower_scan(s: Seq<char>, max: int, acc: int)
    ensures
        scan_digits(ascii_lowercase(s), 10, max, acc) == scan_digits(s, 10, max, acc),
    decreases s.len(),
{
    lemma_lower_parts(s);
    if s.len() > 0 {
        assert(digit_value(ascii_lower(s[0]), 10) == digit_value(s[0], 10));
        if let Some(d) = digit_value(s[0], 10) {
            lemma_lower_scan(s.drop_first(), max, acc * 10 + d);
        }
    }
}

proof fn lemma_lower_unsigned(s: Seq<char>, max: int)
    ensures
        unsigned_value(ascii_lowercase(s), 10, max) == unsigned_value(s, 10, max),
{
    lemma_lower_parts(s);
    lemma_lower_scan(s, max, 0);
    if s.len() > 0 {
        lemma_lower_mark(s[0], '+');
        lemma_lower_scan(s.drop_first(), max, 0);
    }
}

proof fn lemma_lower_split(s: Seq<char>, c: char)
    requires
        is_mark(c),
    ensures
        split_on(ascii_lowercase(s), c) == split_on(s, c).map_values(
            |p: Seq<char>| ascii_lowercase(p),
        ),
    decreases s.len(),
{
    let f = |p: Seq<char>| ascii_lowercase(p);
    lemma_lower_parts(s);
    lemma_lower_first_index(s, c);
    lemma_first_index(s, c);
    let k = first_index(s, c);
    let l = ascii_lowercase(s);
    if k < s.len() {
        lemma_lower_split(s.skip(k + 1), c);
        assert(l.skip(k + 1) == ascii_lowercase(s.skip(k + 1)));
        assert(l.take(k) == ascii_lowercase(s.take(k)));
        assert(split_on(s, c).map_values(f) == seq![f(s.take(k))] + split_on(
            s.skip(k + 1),
            c,
        ).map_values(f));
    } else {
        assert(split_on(s, c).map_values(f) == seq![f(s)]);
    }
}

proof fn lemma_lower_group(s: Seq<char>)
    ensures
        is_group(ascii_lowercase(s)) == is_group(s),
{
    let l = ascii_lowercase(s);
    assert forall|c: char| digit_value(#[trigger] ascii_lower(c), 16) is Some <==> digit_value(
        c,
        16,
    ) is Some by {}
    if is_group(l) {
        assert forall|i: int| 0 <= i < s.len() implies digit_value(#[trigger] s[i], 16) is Some by {
            assert(digit_value(l[i], 16) is Some);
        }
    }
}

proof fn lemma_lower_octet(s: Seq<char>)
    ensures
        is_octet(ascii_lowercase(s)) == is_octet(s),
{
    lemma_lower_scan(s, 255, 0);
    if s.len() > 0 {
        lemma_lower_mark(s[0], '0');
    }
}

proof fn lemma_lower_ipv4(s: Seq<char>)
    ensures
        is_ipv4(ascii_lowercase(s)) == is_ipv4(s),
{
    lemma_lower_split(s, '.');
    let p = split_on(s, '.');
    let q = split_on(ascii_lowercase(s), '.');
    assert forall|i: int| 0 <= i < p.len() implies is_octet(#[trigger] q[i]) == is_octet(p[i]) by {
        lemma_lower_octet(p[i]);
    }
    if is_ipv4(ascii_lowercase(s)) {
        assert forall|i: int| 0 <= i < 4 implies is_octet(#[trigger] p[i]) by {
            assert(is_octet(q[i]));
        }
    }
}

proof fn lemma_split_nonempty(s: Seq<char>, c: char)
    ensures
        split_on(s, c).len() > 0,
    decreases s.len(),
{
}

proof fn lemma_lower_groups(s: Seq<char>, quad: bool)
    ensures
        groups(ascii_lowercase(s), quad) == groups(s, quad),
{
    if s.len() > 0 {
        lemma_lower_split(s, ':');
        lemma_split_nonempty(s, ':');
        let p = split_on(s, ':');
        let q = split_on(ascii_lowercase(s), ':');
        assert forall|i: int| 0 <= i < p.len() implies is_group(#[trigger] q[i]) == is_group(
            p[i],
        ) by {
            lemma_lower_group(p[i]);
        }
        lemma_lower_ipv4(p.last());
        if exists|i: int| 0 <= i < p.len() - 1 && !is_group(#[trigger] p[i]) {
            let i = choose|i: int| 0 <= i < p.len() - 1 && !is_group(#[trigger] p[i]);
            assert(!is_group(q[i]));
        }
        if exists|i: int| 0 <= i < q.len() - 1 && !is_group(#[trigger] q[i]) {
            let i = choose|i: int| 0 <= i < q.len() - 1 && !is_group(#[trigger] q[i]);
            assert(!is_group(p[i]));
        }
        assert(group_count(p, quad) == group_count(q, quad));
    }
}

proof fn lemma_lower_double_colon(s: Seq<char>)
    ensures
        double_colon(ascii_lowercase(s)) == double_colon(s),
    decreases s.len(),
{
    lemma_lower_parts(s);
    if s.len() >= 2 {
        lemma_lower_mark(s[0], ':');
        lemma_lower_mark(s[1], ':');
        lemma_lower_double_colon(s.drop_first());
    }
}

proof fn lemma_double_colon(s: Seq<char>)
    ensures
        0 <= double_colon(s) <= s.len(),
        double_colon(s) < s.len() ==> double_colon(s) + 2 <= s.len() && s[double_colon(s)] == ':',
    decreases s.len(),
{
    if s.len() >= 2 {
        lemma_double_colon(s.drop_first());
    }
}

proof fn lemma_lower_ipv6(s: Seq<char>)
    ensures
        is_ipv6(ascii_lowercase(s)) == is_ipv6(s),
{
    lemma_lower_parts(s);
    lemma_lower_double_colon(s);
    lemma_double_colon(s);
    lemma_lower_groups(s, true);
    let k = double_colon(s);
    if k < s.len() {
        let l = ascii_lowercase(s);
        assert(l.take(k) == ascii_lowercase(s.take(k)));
        assert(l.skip(k + 2) == ascii_lowercase(s.skip(k + 2)));
        lemma_lower_groups(s.take(k), false);
        lemma_lower_groups(s.skip(k + 2), true);
    }
}

/// Lower case changes neither how a destination is split nor its port.
proof fn lemma_lower_split_destination(d: Seq<char>)
    ensures
        split_destination(ascii_lowercase(d)) == (match split_destination(d) {
            Ok((host, port)) => Ok((ascii_lowercase(host), port)),
            Err(e) => Err(e),
        }),
{
    let l = ascii_lowercase(d);
    lemma_lower_parts(d);
    lemma_lower_ipv6(d);
    lemma_lower_first_index(d, ']');
    lemma_first_index(d, ']');
    lemma_lower_last_index(d, ':');
    lemma_last_index(d, ':');
    lemma_lower_occurrences(d, ':');
    if d.len() > 0 {
        lemma_lower_mark(d[0], '[');
        if d[0] == '[' {
            let close = first_index(d, ']');
            if close < d.len() {
                assert(close >= 1);
                assert(l.subrange(1, close) == ascii_lowercase(d.subrange(1, close)));
                lemma_lower_ipv6(d.subrange(1, close));
                let rest = d.skip(close + 1);
                assert(l.skip(close + 1) == ascii_lowercase(rest));
                lemma_lower_parts(rest);
                if rest.len() > 0 {
                    lemma_lower_mark(rest[0], ':');
                    lemma_lower_unsigned(rest.drop_first(), u16::MAX as int);
                }
            }
        } else if last_index(d, ':') >= 0 {
            let k = last_index(d, ':');
            assert(l.skip(k + 1) == ascii_lowercase(d.skip(k + 1)));
            assert(l.take(k) == ascii_lowercase(d.take(k)));
            lemma_lower_unsigned(d.skip(k + 1), u16::MAX as int);
        }
    }
}

/// The host of a destination is made of characters of the destination.
proof fn lemma_host_from_destination(d: Seq<char>)
    requires
        is_ascii_chars(d),
        split_destination(d) is Ok,
    ensures
        is_ascii_chars((split_destination(d)->Ok_0).0),
{
    lemma_first_index(d, ']');
    lemma_last_index(d, ':');
    let host = (split_destination(d)->Ok_0).0;
    if d[0] == '[' {
        let close = first_index(d, ']');
        assert forall|i: int| 0 <= i < host.len() implies host[i] as u32 <= 127 by {
            assert(host[i] == d[i + 1]);
        }
    }
}

proof fn lemma_trimmed_start_ascii(s: Seq<char>)
    requires
        is_ascii_chars(s),
    ensures
        is_ascii_chars(trimmed_start(s)),
    decreases s.len(),
{
    if s.len() > 0 && is_white_space(s[0]) {
        lemma_trimmed_start_ascii(s.drop_first());
    }
}

proof fn lemma_trimmed_end_ascii(s: Seq<char>)
    requires
        is_ascii_chars(s),
    ensures
        is_ascii_chars(trimmed_end(s)),
    decreases s.len(),
{
    if s.len() > 0 && is_white_space(s.last()) {
        lemma_trimmed_end_ascii(s.drop_last());
    }
}

/// An ASCII destination and its lower case form have the same canonical form.
proof fn lemma_lower_normalized(dest: Seq<char>)
    requires
        is_ascii_chars(dest),
    ensures
        normalized(ascii_lowercase(dest)) == normalized(dest),
{
    lemma_lower_trimmed_start(dest);
    lemma_lower_trimmed_end(trimmed_start(dest));
    lemma_trimmed_start_ascii(dest);
    lemma_trimmed_end_ascii(trimmed_start(dest));
    let d = trimmed(dest);
    lemma_lower_split_destination(d);
    if let Ok((host, port)) = split_destination(d) {
        lemma_host_from_destination(d);
        lemma_ascii_lowercase_ascii(host);
        lemma_ascii_lowercase_idempotent(host);
    }
}

// ---------------------------------------------------------------------
// The characters of an IPv6 address
// ---------------------------------------------------------------------

/// A character that an IPv6 address may hold.
pub open spec fn is_address_char(c: char) -> bool {
    c == ':' || c == '.' || digit_value(c, 16) is Some
}

pub open spec fn all_address_chars(s: Seq<char>) -> bool {
    forall|i: int| 0 <= i < s.len() ==> is_address_char(#[trigger] s[i])
}

proof fn lemma_split_all(s: Seq<char>, c: char)
    requires
        is_address_char(c),
        forall|k: int| 0 <= k < split_on(s, c).len() ==> all_address_chars(#[trigger] split_on(s, c)[k]),
    ensures
        all_address_chars(s),
    decreases s.len(),
{
    lemma_first_index(s, c);
    let k = first_index(s, c);
    let pieces = split_on(s, c);
    assert(all_address_chars(pieces[0]));
    if k < s.len() {
        let rest = s.skip(k + 1);
        let tail = split_on(rest, c);
        assert forall|j: int| 0 <= j < tail.len() implies all_address_chars(#[trigger] tail[j]) by {
            assert(pieces[j + 1] == tail[j]);
        }
        lemma_split_all(rest, c);
        assert forall|i: int| 0 <= i < s.len() implies is_address_char(#[trigger] s[i]) by {
            if i < k {
                assert(s[i] == pieces[0][i]);
            } else if i > k {
                assert(s[i] == rest[i - k - 1]);
            }
        }
    }
}

proof fn lemma_scan_all_digits(s: Seq<char>, max: int, acc: int)
    requires
        scan_digits(s, 10, max, acc) is Ok,
    ensures
        all_address_chars(s),
    decreases s.len(),
{
    if s.len() > 0 {
        let d = digit_value(s[0], 10)->0;
        let rest = s.drop_first();
        lemma_scan_all_digits(rest, max, acc * 10 + d);
        assert forall|i: int| 0 <= i < s.len() implies is_address_char(#[trigger] s[i]) by {
            if i > 0 {
                assert(s[i] == rest[i - 1]);
            }
        }
    }
}

proof fn lemma_groups_chars(s: Seq<char>, quad: bool)
    requires
        groups(s, quad) is Some,
    ensures
        all_address_chars(s),
{
    if s.len() > 0 {
        lemma_split_nonempty(s, ':');
        let pieces = split_on(s, ':');
        assert forall|k: int| 0 <= k < pieces.len() implies all_address_chars(
            #[trigger] pieces[k],
        ) by {
            if !is_group(pieces[k]) {
                assert(k == pieces.len() - 1);
                let octets = split_on(pieces[k], '.');
                assert forall|j: int| 0 <= j < octets.len() implies all_address_chars(
                    #[trigger] octets[j],
                ) by {
                    assert(is_octet(octets[j]));
                    lemma_scan_all_digits(octets[j], 255, 0);
                }
                lemma_split_all(pieces[k], '.');
            }
        }
        lemma_split_all(s, ':');
    }
}

proof fn lemma_split_count(s: Seq<char>, c: char)
    ensures
        split_on(s, c).len() == occurrences(s, c) + 1,
    decreases s.len(),
{
    lemma_first_index(s, c);
    let k = first_index(s, c);
    if k < s.len() {
        lemma_split_count(s.skip(k + 1), c);
        let head = s.take(k + 1);
        assert(head.drop_last() == s.take(k));
        lemma_occurrences_contains(s.take(k), c);
        assert(occurrences(s.take(k), c) == 0);
        assert(s == head + s.skip(k + 1));
        lemma_occurrences_concat(head, s.skip(k + 1), c);
    } else {
        lemma_occurrences_contains(s, c);
    }
}

/// An IPv6 address has several colons, and no character outside its alphabet.
pub proof fn lemma_ipv6_chars(s: Seq<char>)
    requires
        is_ipv6(s),
    ensures
        all_address_chars(s),
        occurrences(s, ':') > 1,
        s.contains(':'),
        !s.contains(']'),
        !s.contains('['),
        s.len() > 0,
{
    lemma_double_colon(s);
    lemma_double_colon_second(s);
    let k = double_colon(s);
    if k < s.len() {
        let head = s.take(k);
        let tail = s.skip(k + 2);
        lemma_groups_chars(head, false);
        lemma_groups_chars(tail, true);
        assert forall|i: int| 0 <= i < s.len() implies is_address_char(#[trigger] s[i]) by {
            if i < k {
                assert(s[i] == head[i]);
            } else if i >= k + 2 {
                assert(s[i] == tail[i - k - 2]);
            }
        }
        let colons = seq![':', ':'];
        assert(s == head + colons + tail);
        lemma_occurrences_concat(head + colons, tail, ':');
        lemma_occurrences_concat(head, colons, ':');
        assert(colons.drop_last() == seq![':']);
        assert(seq![':'].drop_last() == Seq::<char>::empty());
        reveal_with_fuel(occurrences, 3);
        assert(occurrences(colons, ':') == 2);
    } else {
        lemma_groups_chars(s, true);
        lemma_split_count(s, ':');
    }
    lemma_occurrences_contains(s, ':');
}

proof fn lemma_double_colon_second(s: Seq<char>)
    ensures
        double_colon(s) < s.len() ==> s[double_colon(s) + 1] == ':',
    decreases s.len(),
{
    if s.len() >= 2 {
        lemma_double_colon_second(s.drop_first());
        lemma_double_colon(s.drop_first());
    }
}

/// An IPv6 address in lower case is one with as many colons.
proof fn lemma_ipv6_lowers(host: Seq<char>)
    requires
        is_ipv6(host),
    ensures
        lowercase(host) == ascii_lowercase(host),
        is_ipv6(lowercase(host)),
        lowercase(host).contains(':'),
{
    lemma_ipv6_chars(host);
    assert forall|i: int| 0 <= i < host.len() implies host[i] as u32 <= 127 by {
        assert(is_address_char(host[i]));
    }
    assert(is_ascii_chars(host));
    lemma_lower_ipv6(host);
    lemma_lower_occurrences(host, ':');
    lemma_occurrences_contains(host, ':');
    lemma_occurrences_contains(ascii_lowercase(host), ':');
}

// ---------------------------------------------------------------------
// How endpoints are split
// ---------------------------------------------------------------------

/// A host without colons and its port are found again in their endpoint.
pub proof fn lemma_split_host_endpoint(host: Seq<char>, port: u16)
    requires
        host.len() > 0,
        !host.contains(':'),
        host[0] != '[',
    ensures
        split_destination(host + seq![':'] + decimal(port as nat)) == Ok::<_, DestinationFault>(
            (host, port as int),
        ),
{
    let digits = decimal(port as nat);
    let e = host + seq![':'] + digits;
    lemma_decimal_digits(port as nat);
    lemma_decimal_round_trip(port as nat, u16::MAX as int);
    let k = host.len() as int;
    assert(e[k] == ':');
    assert forall|i: int| k < i < e.len() implies e[i] != ':' by {
        assert(e[i] == digits[i - k - 1]);
    }
    lemma_last_index_unique(e, ':', k);
    assert(e.take(k) == host);
    assert(e.skip(k + 1) == digits);
    assert(e[0] == host[0]);
    lemma_occurrences_contains(host, ':');
    lemma_occurrences_contains(digits, ':');
    assert(!digits.contains(':'));
    lemma_occurrences_concat(host + seq![':'], digits, ':');
    lemma_occurrences_concat(host, seq![':'], ':');
    assert(seq![':'].drop_last() == Seq::<char>::empty());
    reveal_with_fuel(occurrences, 2);
    assert(occurrences(seq![':'], ':') == 1);
}

/// An IPv6 address in brackets is found again, with the port that follows or
/// without one.
pub proof fn lemma_split_bracketed(host: Seq<char>, port: u16)
    requires
        is_ipv6(host),
    ensures
        split_destination(seq!['['] + host + seq![']', ':'] + decimal(port as nat)) == Ok::<
            _,
            DestinationFault,
        >((host, port as int)),
        split_destination(seq!['['] + host + seq![']']) == Ok::<_, DestinationFault>(
            (host, DEFAULT_PORT as int),
        ),
{
    lemma_ipv6_chars(host);
    let digits = decimal(port as nat);
    lemma_decimal_round_trip(port as nat, u16::MAX as int);
    let e = seq!['['] + host + seq![']', ':'] + digits;
    let b = seq!['['] + host + seq![']'];
    let k = host.len() as int + 1;
    assert forall|i: int| 0 <= i < k implies e[i] != ']' && b[i] != ']' by {
        if i > 0 {
            assert(e[i] == host[i - 1]);
            assert(b[i] == host[i - 1]);
        }
    }
    assert(e[k] == ']' && b[k] == ']');
    lemma_first_index_unique(e, ']', k);
    lemma_first_index_unique(b, ']', k);
    assert(e.subrange(1, k) == host);
    assert(b.subrange(1, k) == host);
    assert(e.skip(k + 1).drop_first() == digits);
    assert(e.skip(k + 1)[0] == ':');
    assert(b.skip(k + 1).len() == 0);
}

// ---------------------------------------------------------------------
// Laws
// ---------------------------------------------------------------------

/// ASCII destinations that differ only in the case of their letters are the
/// same destination: both have the same canonical form, or both are refused
/// for the same fault.
pub proof fn law_normalized_ignores_case(a: Seq<char>, b: Seq<char>)
    requires
        is_ascii_chars(a),
        is_ascii_chars(b),
        ascii_lowercase(a) == ascii_lowercase(b),
    ensures
        normalized(a) == normalized(b),
{
    lemma_lower_normalized(a);
    lemma_lower_normalized(b);
}

/// White space around a destination does not change it.
pub proof fn law_normalized_ignores_padding(before: Seq<char>, dest: Seq<char>, after: Seq<char>)
    requires
        forall|i: int| 0 <= i < before.len() ==> is_white_space(#[trigger] before[i]),
        forall|i: int| 0 <= i < after.len() ==> is_white_space(#[trigger] after[i]),
    ensures
        normalized(before + dest + after) == normalized(dest),
{
    lemma_trimmed_padding(before, dest, after);
}

/// A host that names no port and the same host with port 443 are the same
/// destination.
pub proof fn law_port_defaults_to_443(host: Seq<char>)
    requires
        host.len() > 0,
        is_trimmed(host),
        !host.contains(':'),
        host[0] != '[',
    ensures
        normalized(host) == normalized(host + seq![':'] + decimal(443)),
        normalized(host) == Ok::<_, DestinationFault>(endpoint(lowercase(host), 443)),
{
    let e = host + seq![':'] + decimal(443);
    lemma_decimal_digits(443);
    assert(e[0] == host[0]);
    assert(e.last() == decimal(443).last());
    lemma_trimmed_fixed(host);
    lemma_trimmed_fixed(e);
    lemma_split_host_endpoint(host, 443);
    lemma_occurrences_contains(host, ':');
    lemma_last_index(host, ':');
}

/// A bare IPv6 address, the same address in brackets, and the same with port
/// 443 are one destination.
pub proof fn law_ipv6_spellings_agree(host: Seq<char>)
    requires
        is_ipv6(host),
    ensures
        normalized(host) == Ok::<_, DestinationFault>(endpoint(lowercase(host), 443)),
        normalized(seq!['['] + host + seq![']']) == normalized(host),
        normalized(seq!['['] + host + seq![']', ':'] + decimal(443)) == normalized(host),
{
    lemma_ipv6_chars(host);
    let e = seq!['['] + host + seq![']', ':'] + decimal(443);
    let b = seq!['['] + host + seq![']'];
    lemma_decimal_digits(443);
    assert(e.last() == decimal(443).last());
    assert(is_address_char(host[0]) && is_address_char(host.last()));
    lemma_trimmed_fixed(host);
    lemma_trimmed_fixed(b);
    lemma_trimmed_fixed(e);
    lemma_split_bracketed(host, 443);
    assert(host[0] != '[') by {
        if host[0] == '[' {
            assert(host.contains('['));
        }
    }
}

/// Whether the lower case form of a host is a fixed point of lower casing, and
/// still a host: it is not empty, does not start with white space or a
/// bracket, and has colons only where the host has some.
pub open spec fn lowers_to_host(host: Seq<char>) -> bool {
    let lower = lowercase(host);
    &&& lowercase(lower) == lower
    &&& lower.len() > 0
    &&& !is_white_space(lower[0])
    &&& lower[0] != '['
    &&& lower.contains(':') ==> host.contains(':')
}

/// The canonical form of a destination is its own canonical form, so that a
/// stored canonical destination and a request for it agree. The host has to
/// be one that [`lowers_to_host`]; IPv6 addresses and ASCII hosts are.
pub proof fn law_canonical_form_is_fixed(dest: Seq<char>)
    requires
        normalized(dest) is Ok,
        lowers_to_host((destination_parts(trimmed(dest))->Ok_0).0),
    ensures
        normalized(normalized(dest)->Ok_0) == normalized(dest),
{
    lemma_trimmed_is_trimmed(dest);
    let d = trimmed(dest);
    let (host, port) = destination_parts(d)->Ok_0;
    lemma_split_destination_host(d);
    let lower = lowercase(host);
    let n = endpoint(lower, port as nat);
    lemma_decimal_digits(port as nat);
    assert(n.last() == decimal(port as nat).last());
    lemma_trimmed_fixed(n);
    if host.contains(':') {
        lemma_ipv6_lowers(host);
        lemma_split_bracketed(lower, port as u16);
    } else {
        assert(n[0] == lower[0]);
        lemma_split_host_endpoint(lower, port as u16);
    }
}

/// The canonical form of an ASCII destination is its own canonical form.
pub proof fn law_normalized_idempotent(dest: Seq<char>)
    requires
        is_ascii_chars(dest),
        normalized(dest) is Ok,
    ensures
        normalized(normalized(dest)->Ok_0) == normalized(dest),
{
    lemma_trimmed_start_ascii(dest);
    lemma_trimmed_end_ascii(trimmed_start(dest));
    lemma_trimmed_is_trimmed(dest);
    let d = trimmed(dest);
    let (host, port) = destination_parts(d)->Ok_0;
    lemma_host_from_destination(d);
    lemma_split_destination_host(d);
    lemma_ascii_lowercase_ascii(host);
    lemma_ascii_lowercase_idempotent(host);
    lemma_lower_occurrences(host, ':');
    lemma_occurrences_contains(host, ':');
    lemma_occurrences_contains(lowercase(host), ':');
    assert(is_white_space(ascii_lower(host[0])) == is_white_space(host[0]));
    lemma_lower_mark(host[0], '[');
    if host.contains(':') {
        lemma_ipv6_chars(host);
        assert(is_address_char(host[0]));
    }
    law_canonical_form_is_fixed(dest);
}

/// A canonical destination is the endpoint of a host and a port: the host is
/// not empty, and an IPv6 address where it has colons; the port is not zero.
pub proof fn law_canonical_shape(dest: Seq<char>)
    ensures
        normalized(dest) matches Ok(n) ==> exists|host: Seq<char>, port: u16|
            #![trigger endpoint(lowercase(host), port as nat)]
            n == endpoint(lowercase(host), port as nat) && host.len() > 0 && port > 0 && (
            host.contains(':') ==> is_ipv6(host)),
{
    let d = trimmed(dest);
    if let Ok((host, port)) = destination_parts(d) {
        lemma_split_destination_host(d);
        let p = port as u16;
        assert(endpoint(lowercase(host), p as nat) == endpoint(lowercase(host), port as nat));
    }
}

/// A host with colons is an IPv6 address; any other starts like its
/// destination. The port fits its type.
pub proof fn lemma_split_destination_host(d: Seq<char>)
    requires
        split_destination(d) is Ok,
    ensures
        ({
            let (host, port) = split_destination(d)->Ok_0;
            &&& 0 <= port <= u16::MAX
            &&& host.contains(':') ==> is_ipv6(host)
            &&& host.len() > 0 && !host.contains(':') ==> host[0] == d[0] && d[0] != '['
        }),
{
    let (host, port) = split_destination(d)->Ok_0;
    lemma_first_index(d, ']');
    lemma_last_index(d, ':');
    if d[0] == '[' {
        lemma_ipv6_chars(host);
        let rest = d.skip(first_index(d, ']') + 1);
        if rest.len() > 0 {
            lemma_unsigned_bound(rest.drop_first(), u16::MAX as int);
        }
    } else if occurrences(d, ':') > 1 {
    } else if last_index(d, ':') >= 0 {
        let k = last_index(d, ':');
        lemma_unsigned_bound(d.skip(k + 1), u16::MAX as int);
        assert(d == d.take(k) + d.skip(k));
        lemma_occurrences_concat(d.take(k), d.skip(k), ':');
        lemma_occurrences_contains(d.take(k), ':');
        assert(d.skip(k)[0] == ':');
        lemma_occurrences_contains(d.skip(k), ':');
        assert(d.skip(k).contains(':'));
    }
}

pub proof fn lemma_unsigned_bound(s: Seq<char>, max: int)
    requires
        unsigned_value(s, 10, max) is Ok,
        max >= 0,
    ensures
        0 <= unsigned_value(s, 10, max)->Ok_0 <= max,
{
    lemma_scan_bound(s, max, 0);
    if s.len() > 0 {
        lemma_scan_bound(s.drop_first(), max, 0);
    }
}

proof fn lemma_scan_bound(s: Seq<char>, max: int, acc: int)
    requires
        0 <= acc <= max,
    ensures
        scan_digits(s, 10, max, acc) matches Ok(v) ==> 0 <= v <= max,
    decreases s.len(),
{
    if s.len() > 0 {
        if let Some(d) = digit_value(s[0], 10) {
            if acc * 10 + d <= max {
                lemma_scan_bound(s.drop_first(), max, acc * 10 + d);
            }
        }
    }
}

} // verus!
