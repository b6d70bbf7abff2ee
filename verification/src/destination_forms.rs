//! Which texts are destinations, form by form, and what their canonical forms
//! are, character by character.

use vstd::prelude::*;
use vstd::utf8::is_ascii_chars;

use crate::address::is_ipv6;
use crate::destination::{
    destination_parts, normalize_destination, normalized, split_destination, DestinationError,
    DestinationFault,
};
use crate::destination_laws::{lemma_ipv6_chars, lemma_split_destination_host};
use crate::endpoint::{endpoint, format_endpoint, law_gateway_addr_round_trip};
use crate::number::{decimal, unsigned_value, IntFault};
use crate::number_laws::{
    all_digits, is_digit, law_decimal_says_number, law_number_is_read, said, unsigned_digits,
};
use crate::text::{
    first_index, last_index, lemma_first_index, lemma_first_index_unique, lemma_last_index,
    lemma_last_index_unique, lemma_occurrences_contains, lowercase, occurrences, trimmed,
};
use crate::text_laws::{law_lowercase, law_lowercase_merges_only_case, law_occurrences};

verus! {

// ---------------------------------------------------------------------
// Forms
// ---------------------------------------------------------------------

/// Whether a text is a port: digits, perhaps after a plus sign, that say the
/// number.
pub open spec fn says_port(text: Seq<char>, port: int) -> bool {
    let digits = unsigned_digits(text);
    digits.len() > 0 && all_digits(digits, 10) && said(digits, 10) == port && port <= 65535
}

/// Whether a text may stand as a name in front of a port: it has no colon and
/// does not start with a bracket.
pub open spec fn is_name(host: Seq<char>) -> bool {
    !host.contains(':') && (host.len() > 0 ==> host[0] != '[')
}

/// A name, a colon and a port.
pub open spec fn name_port(host: Seq<char>, p: Seq<char>) -> Seq<char> {
    host + seq![':'] + p
}

/// A host in brackets, a colon and a port.
pub open spec fn bracketed_port(host: Seq<char>, p: Seq<char>) -> Seq<char> {
    seq!['['] + host + seq![']', ':'] + p
}

/// A host in brackets, and what follows it.
pub open spec fn bracketed(host: Seq<char>, rest: Seq<char>) -> Seq<char> {
    seq!['['] + host + seq![']'] + rest
}

/// Whether a text puts a host and a port in one of the forms of destinations:
/// `name`, `name:port`, `[ipv6]`, `[ipv6]:port` or a bare IPv6 address.
pub open spec fn names(text: Seq<char>, host: Seq<char>, port: int) -> bool {
    ||| is_name(host) && host.len() > 0 && text == host && port == 443
    ||| is_name(host) && exists|p: Seq<char>|
        text == #[trigger] name_port(host, p) && says_port(p, port)
    ||| is_ipv6(host) && text == seq!['['] + host + seq![']'] && port == 443
    ||| is_ipv6(host) && exists|p: Seq<char>|
        text == #[trigger] bracketed_port(host, p) && says_port(p, port)
    ||| is_ipv6(host) && text == host && port == 443
}

/// A text that says a port is read as that port.
pub proof fn lemma_port(p: Seq<char>, port: int)
    ensures
        says_port(p, port) <==> unsigned_value(p, 10, u16::MAX as int) == Ok::<int, IntFault>(port),
        says_port(p, port) ==> !p.contains(':') && !p.contains(']') && p.len() > 0 && port >= 0,
{
    law_number_is_read(p, 10, u16::MAX as int);
    if says_port(p, port) {
        let d = unsigned_digits(p);
        assert forall|i: int| 0 <= i < p.len() implies p[i] != ':' && p[i] != ']' by {
            if p[0] == '+' {
                if i > 0 {
                    assert(p[i] == d[i - 1]);
                    assert(is_digit(d[i - 1], 10));
                }
            } else {
                assert(is_digit(d[i], 10));
            }
        }
        crate::destination_laws::lemma_unsigned_bound(p, u16::MAX as int);
    }
}

/// A name, a colon and a port are taken apart again.
proof fn lemma_split_name_port(host: Seq<char>, p: Seq<char>)
    requires
        is_name(host),
        !p.contains(':'),
    ensures
        split_destination(host + seq![':'] + p) == (match unsigned_value(
            p,
            10,
            u16::MAX as int,
        ) {
            Ok(port) => Ok::<(Seq<char>, int), DestinationFault>((host, port)),
            Err(_) => Err(DestinationFault::InvalidPort),
        }),
{
    let d = host + seq![':'] + p;
    let k = host.len() as int;
    assert(d[k] == ':');
    assert forall|i: int| k < i < d.len() implies d[i] != ':' by {
        assert(d[i] == p[i - k - 1]);
    }
    lemma_last_index_unique(d, ':', k);
    assert(d.take(k) =~= host);
    assert(d.skip(k + 1) =~= p);
    assert(d[0] != '[') by {
        if k > 0 {
            assert(d[0] == host[0]);
        }
    }
    law_occurrences(d, ':');
    if occurrences(d, ':') > 1 {
        let (i, j) = choose|i: int, j: int|
            0 <= i < j < d.len() && #[trigger] d[i] == ':' && #[trigger] d[j] == ':';
        if i < k {
            assert(host[i] == ':');
        }
        if j > k {
            assert(p[j - k - 1] == ':');
        }
    }
}

/// A bracketed host is taken apart from what follows it.
pub proof fn lemma_bracketed(host: Seq<char>, rest: Seq<char>)
    requires
        !host.contains(']'),
    ensures
        ({
            let d = seq!['['] + host + seq![']'] + rest;
            &&& d[0] == '['
            &&& first_index(d, ']') == host.len() + 1int
            &&& d.subrange(1, host.len() + 1int) == host
            &&& d.skip(host.len() + 2int) == rest
        }),
{
    let d = seq!['['] + host + seq![']'] + rest;
    let k = host.len() as int + 1;
    assert(d[k] == ']');
    assert forall|i: int| 0 <= i < k implies d[i] != ']' by {
        if i > 0 {
            assert(d[i] == host[i - 1]);
        }
    }
    lemma_first_index_unique(d, ']', k);
    assert(d.subrange(1, k) =~= host);
    assert(d.skip(k + 1) =~= rest);
}

/// A text that starts with a bracket which is closed is a bracketed host and
/// a rest.
pub proof fn lemma_unbracketed(d: Seq<char>)
    requires
        d.len() > 0,
        d[0] == '[',
        d.contains(']'),
    ensures
        ({
            let close = first_index(d, ']');
            &&& 1 <= close < d.len()
            &&& d == seq!['['] + d.subrange(1, close) + seq![']'] + d.skip(close + 1)
            &&& !d.subrange(1, close).contains(']')
        }),
{
    lemma_first_index(d, ']');
    let close = first_index(d, ']');
    assert(d =~= seq!['['] + d.subrange(1, close) + seq![']'] + d.skip(close + 1));
}

/// A text is taken apart into a host and a port exactly where it is in one of
/// the forms of destinations for them.
pub proof fn law_destination_forms(text: Seq<char>, host: Seq<char>, port: int)
    ensures
        destination_parts(text) == Ok::<(Seq<char>, int), DestinationFault>((host, port)) <==> names(
            text,
            host,
            port,
        ) && host.len() > 0 && port > 0,
{
    if names(text, host, port) && host.len() > 0 && port > 0 {
        lemma_names_are_parts(text, host, port);
    }
    if destination_parts(text) == Ok::<(Seq<char>, int), DestinationFault>((host, port)) {
        lemma_parts_are_named(text, host, port);
    }
}

proof fn lemma_names_are_parts(text: Seq<char>, host: Seq<char>, port: int)
    requires
        names(text, host, port),
        host.len() > 0,
        port > 0,
    ensures
        destination_parts(text) == Ok::<(Seq<char>, int), DestinationFault>((host, port)),
{
    if is_name(host) && text == host && port == 443 {
        lemma_occurrences_contains(host, ':');
        lemma_last_index(host, ':');
    } else if is_name(host) && exists|p: Seq<char>|
        text == #[trigger] name_port(host, p) && says_port(p, port) {
        let p = choose|p: Seq<char>|
            text == #[trigger] name_port(host, p) && says_port(p, port);
        lemma_port(p, port);
        lemma_split_name_port(host, p);
    } else {
        lemma_ipv6_chars(host);
        if text == seq!['['] + host + seq![']'] && port == 443 {
            lemma_bracketed(host, Seq::empty());
            assert(text =~= seq!['['] + host + seq![']'] + Seq::<char>::empty());
        } else if text == host && port == 443 {
            assert(host[0] != '[') by {
                if host[0] == '[' {
                    assert(host.contains('['));
                }
            }
        } else {
            let p = choose|p: Seq<char>|
                text == #[trigger] bracketed_port(host, p) && says_port(p, port);
            let rest = seq![':'] + p;
            lemma_port(p, port);
            lemma_bracketed(host, rest);
            assert(text =~= seq!['['] + host + seq![']'] + rest);
            assert(rest.drop_first() =~= p);
        }
    }
}

proof fn lemma_parts_are_named(text: Seq<char>, host: Seq<char>, port: int)
    requires
        destination_parts(text) == Ok::<(Seq<char>, int), DestinationFault>((host, port)),
    ensures
        names(text, host, port) && host.len() > 0 && port > 0,
{
    if text[0] == '[' {
        lemma_bracketed_is_named(text, host, port);
    } else if occurrences(text, ':') > 1 {
        assert(text == host && port == 443 && is_ipv6(host));
    } else if last_index(text, ':') >= 0 {
        lemma_name_port_is_named(text, host, port);
    } else {
        lemma_last_index(text, ':');
        assert(text == host && port == 443 && is_name(host));
    }
    lemma_parts_bounds(text, host, port);
}

proof fn lemma_parts_bounds(text: Seq<char>, host: Seq<char>, port: int)
    requires
        destination_parts(text) == Ok::<(Seq<char>, int), DestinationFault>((host, port)),
    ensures
        host.len() > 0 && port > 0,
{
    lemma_split_destination_host(text);
}

proof fn lemma_bracketed_is_named(text: Seq<char>, host: Seq<char>, port: int)
    requires
        destination_parts(text) == Ok::<(Seq<char>, int), DestinationFault>((host, port)),
        text[0] == '[',
    ensures
        names(text, host, port),
{
    lemma_first_index(text, ']');
    lemma_unbracketed(text);
    let close = first_index(text, ']');
    let rest = text.skip(close + 1);
    if rest.len() == 0 {
        assert(text =~= seq!['['] + host + seq![']']);
    } else {
        let p = rest.drop_first();
        lemma_port(p, port);
        assert(rest =~= seq![':'] + p);
        assert(text =~= bracketed_port(host, p));
    }
}

proof fn lemma_name_port_is_named(text: Seq<char>, host: Seq<char>, port: int)
    requires
        destination_parts(text) == Ok::<(Seq<char>, int), DestinationFault>((host, port)),
        text[0] != '[',
        occurrences(text, ':') <= 1,
        last_index(text, ':') >= 0,
    ensures
        names(text, host, port),
{
    lemma_last_index(text, ':');
    let k = last_index(text, ':');
    let p = text.skip(k + 1);
    lemma_port(p, port);
    assert(text =~= name_port(host, p));
    assert(!host.contains(':')) by {
        if host.contains(':') {
            let i = choose|i: int| 0 <= i < host.len() && host[i] == ':';
            assert(text[i] == ':' && text[k] == ':');
            law_occurrences(text, ':');
        }
    }
    assert(host[0] == text[0]);
    assert(is_name(host));
}

// ---------------------------------------------------------------------
// Faults
// ---------------------------------------------------------------------

/// Whether a text has the form that a fault speaks of.
pub open spec fn has_fault(text: Seq<char>, fault: DestinationFault) -> bool {
    match fault {
        DestinationFault::Empty => text.len() == 0,
        DestinationFault::MissingCloseBracket => text[0] == '[' && !text.contains(']'),
        DestinationFault::EmptyBracketedHost => text.len() >= 2 && text[0] == '[' && text[1]
            == ']',
        DestinationFault::InvalidIpv6 => exists|host: Seq<char>, rest: Seq<char>|
            text == #[trigger] bracketed(host, rest) && !host.contains(']')
                && host.len() > 0 && !is_ipv6(host),
        DestinationFault::InvalidBracketedPort(_) => exists|host: Seq<char>, p: Seq<char>|
            text == #[trigger] bracketed_port(host, p) && is_ipv6(host) && (
            forall|port: int| !says_port(p, port)),
        DestinationFault::TrailingCharacters => exists|host: Seq<char>, rest: Seq<char>|
            text == #[trigger] bracketed(host, rest) && is_ipv6(host)
                && rest.len() > 0 && rest[0] != ':',
        DestinationFault::AmbiguousColons => text[0] != '[' && !is_ipv6(text) && exists|
            i: int,
            j: int,
        |
            0 <= i < j < text.len() && #[trigger] text[i] == ':' && #[trigger] text[j] == ':',
        DestinationFault::InvalidPort => exists|host: Seq<char>, p: Seq<char>|
            text == #[trigger] name_port(host, p) && is_name(host) && !p.contains(':') && (
            forall|port: int| !says_port(p, port)),
        DestinationFault::EmptyHost => exists|port: int| #[trigger]
            names(text, Seq::empty(), port),
        DestinationFault::PortZero => exists|host: Seq<char>| #[trigger] names(text, host, 0),
    }
}

/// Why a text is refused: each fault comes where the text has the form that it
/// speaks of.
pub proof fn law_destination_faults(text: Seq<char>)
    ensures
        destination_parts(text) matches Err(fault) ==> has_fault(text, fault),
{
    if let Err(fault) = destination_parts(text) {
        if text.len() > 0 {
            if text[0] == '[' {
                lemma_bracketed_fault(text, fault);
            } else if occurrences(text, ':') > 1 {
                lemma_colons_fault(text, fault);
            } else if last_index(text, ':') >= 0 {
                lemma_name_fault(text, fault);
            }
        }
    }
}

proof fn lemma_colons_fault(text: Seq<char>, fault: DestinationFault)
    requires
        destination_parts(text) == Err::<(Seq<char>, int), DestinationFault>(fault),
        text.len() > 0,
        text[0] != '[',
        occurrences(text, ':') > 1,
    ensures
        has_fault(text, fault),
{
    law_occurrences(text, ':');
    assert(fault == DestinationFault::AmbiguousColons);
}

proof fn lemma_bracketed_fault(text: Seq<char>, fault: DestinationFault)
    requires
        destination_parts(text) == Err::<(Seq<char>, int), DestinationFault>(fault),
        text.len() > 0,
        text[0] == '[',
    ensures
        has_fault(text, fault),
{
    lemma_first_index(text, ']');
    if text.contains(']') {
        lemma_unbracketed(text);
        let close = first_index(text, ']');
        let host = text.subrange(1, close);
        let rest = text.skip(close + 1);
        if host.len() == 0 {
            assert(text[1] == ']');
        } else if !is_ipv6(host) {
            assert(fault == DestinationFault::InvalidIpv6);
            assert(text == bracketed(host, rest));
        } else if rest.len() > 0 {
            if rest[0] != ':' {
                assert(fault == DestinationFault::TrailingCharacters);
                assert(text == bracketed(host, rest));
            } else {
                let p = rest.drop_first();
                assert(rest =~= seq![':'] + p);
                assert(text =~= bracketed_port(host, p));
                match unsigned_value(p, 10, u16::MAX as int) {
                    Ok(port) => {
                        lemma_port(p, port);
                        assert(fault == DestinationFault::PortZero);
                        assert(names(text, host, port));
                    },
                    Err(e) => {
                        assert forall|port: int| !says_port(p, port) by {
                            lemma_port(p, port);
                        }
                        assert(fault == DestinationFault::InvalidBracketedPort(e));
                    },
                }
            }
        }
    }
}

proof fn lemma_name_fault(text: Seq<char>, fault: DestinationFault)
    requires
        destination_parts(text) == Err::<(Seq<char>, int), DestinationFault>(fault),
        text.len() > 0,
        text[0] != '[',
        occurrences(text, ':') <= 1,
        last_index(text, ':') >= 0,
    ensures
        has_fault(text, fault),
{
    lemma_last_index(text, ':');
    let k = last_index(text, ':');
    let host = text.take(k);
    let p = text.skip(k + 1);
    assert(text =~= name_port(host, p));
    assert(!p.contains(':')) by {
        if p.contains(':') {
            let i = choose|i: int| 0 <= i < p.len() && p[i] == ':';
            assert(text[k + 1 + i] == ':');
        }
    }
    assert(!host.contains(':')) by {
        if host.contains(':') {
            let i = choose|i: int| 0 <= i < host.len() && host[i] == ':';
            assert(text[i] == ':' && text[k] == ':');
            law_occurrences(text, ':');
        }
    }
    if host.len() > 0 {
        assert(host[0] == text[0]);
    }
    assert(is_name(host));
    match unsigned_value(p, 10, u16::MAX as int) {
        Ok(port) => {
            lemma_port(p, port);
            assert(names(text, host, port));
            if host.len() == 0 {
                assert(host =~= Seq::<char>::empty());
                assert(names(text, Seq::empty(), port));
            }
        },
        Err(_) => {
            assert forall|port: int| !says_port(p, port) by {
                lemma_port(p, port);
            }
            assert(fault == DestinationFault::InvalidPort);
        },
    }
}

// ---------------------------------------------------------------------
// Canonical forms
// ---------------------------------------------------------------------

/// A host and a port are written as the host, a colon and the digits that say
/// the port, with brackets around a host that has colons.
pub proof fn law_endpoint_is_written(host: &str, port: u16, r: String)
    requires
        call_ensures(format_endpoint, (host, port), r),
    ensures
        exists|digits: Seq<char>|
            #![trigger all_digits(digits, 10)]
            {
                &&& all_digits(digits, 10)
                &&& said(digits, 10) == port
                &&& digits.len() > 1 ==> digits[0] != '0'
                &&& r@ == (if host@.contains(':') {
                    seq!['['] + host@ + seq![']', ':'] + digits
                } else {
                    host@ + seq![':'] + digits
                })
            },
{
    law_decimal_says_number(port as nat);
}

/// A text has a canonical form exactly where, without white space around it,
/// it is in one of the forms of destinations for some host and some port. Its
/// canonical form is then the endpoint of that host in lower case and that
/// port.
pub proof fn law_canonical_form(dest: &str, r: Result<String, DestinationError>)
    requires
        call_ensures(normalize_destination, (dest,), r),
    ensures
        r is Ok <==> exists|host: Seq<char>, port: int| #[trigger]
            names(trimmed(dest@), host, port) && host.len() > 0 && port > 0,
        r matches Ok(s) ==> forall|host: Seq<char>, port: int| #[trigger]
            names(trimmed(dest@), host, port) && host.len() > 0 && port > 0 ==> s@ == (
            if lowercase(host).contains(':') {
                seq!['['] + lowercase(host) + seq![']', ':'] + decimal(port as nat)
            } else {
                lowercase(host) + seq![':'] + decimal(port as nat)
            }),
{
    let text = trimmed(dest@);
    if let Ok((host, port)) = destination_parts(text) {
        law_destination_forms(text, host, port);
    }
    assert forall|host: Seq<char>, port: int| #[trigger]
        names(text, host, port) && host.len() > 0 && port > 0 implies destination_parts(text)
        == Ok::<(Seq<char>, int), DestinationFault>((host, port)) by {
        law_destination_forms(text, host, port);
    }
}

/// The canonical form of a name that stands alone, or in front of a port: each
/// of its characters, with the letters from `A` to `Z` made small, then a colon
/// and the digits of the port.
pub proof fn law_canonical_name(
    dest: &str,
    host: Seq<char>,
    port: int,
    r: Result<String, DestinationError>,
)
    requires
        call_ensures(normalize_destination, (dest,), r),
        is_ascii_chars(host),
        names(trimmed(dest@), host, port),
        host.len() > 0,
        port > 0,
        !host.contains(':'),
    ensures
        r matches Ok(s) && {
            &&& s@.len() > host.len() + 1int
            &&& forall|i: int|
                0 <= i < host.len() ==> (if 0x41 <= host[i] as int <= 0x5a {
                    (#[trigger] s@[i]) as int == host[i] as int + 0x20
                } else {
                    s@[i] == host[i]
                })
            &&& s@[host.len() as int] == ':'
            &&& all_digits(s@.skip(host.len() + 1int), 10)
            &&& said(s@.skip(host.len() + 1int), 10) == port
            &&& s@.len() > host.len() + 2int ==> s@[host.len() + 1int] != '0'
        },
{
    law_canonical_form(dest, r);
    law_lowercase(host);
    let lower = lowercase(host);
    law_decimal_says_number(port as nat);
    if lower.contains(':') {
        let i = choose|i: int| 0 <= i < lower.len() && lower[i] == ':';
        assert(lower[i] as int == 0x3a);
        assert(host[i] == ':');
    }
    let s = (r->Ok_0)@;
    assert(s == lower + seq![':'] + decimal(port as nat));
    assert(s.skip(host.len() + 1int) =~= decimal(port as nat));
    assert forall|i: int| 0 <= i < host.len() implies (if 0x41 <= host[i] as int <= 0x5a {
        (#[trigger] s[i]) as int == host[i] as int + 0x20
    } else {
        s[i] == host[i]
    }) by {
        assert(s[i] == lower[i]);
    }
}

/// The canonical form of an IPv6 address, in any of its forms: the address in
/// small letters in brackets, a colon and the digits of the port.
pub proof fn law_canonical_address(
    dest: &str,
    host: Seq<char>,
    port: int,
    r: Result<String, DestinationError>,
)
    requires
        call_ensures(normalize_destination, (dest,), r),
        names(trimmed(dest@), host, port),
        is_ipv6(host),
        port > 0,
    ensures
        r matches Ok(s) && {
            &&& s@.len() > host.len() + 3int
            &&& s@[0] == '['
            &&& forall|i: int|
                0 <= i < host.len() ==> (if 0x41 <= host[i] as int <= 0x5a {
                    (#[trigger] s@[i + 1]) as int == host[i] as int + 0x20
                } else {
                    s@[i + 1] == host[i]
                })
            &&& s@[host.len() + 1int] == ']'
            &&& s@[host.len() + 2int] == ':'
            &&& all_digits(s@.skip(host.len() + 3int), 10)
            &&& said(s@.skip(host.len() + 3int), 10) == port
        },
{
    lemma_ipv6_chars(host);
    assert forall|i: int| 0 <= i < host.len() implies host[i] as u32 <= 127 by {
        assert(crate::destination_laws::is_address_char(host[i]));
    }
    assert(is_ascii_chars(host));
    law_canonical_form(dest, r);
    law_lowercase(host);
    let lower = lowercase(host);
    law_decimal_says_number(port as nat);
    let k = choose|k: int| 0 <= k < host.len() && host[k] == ':';
    assert(lower[k] == ':');
    assert(lower.contains(':'));
    let s = (r->Ok_0)@;
    assert(s == seq!['['] + lower + seq![']', ':'] + decimal(port as nat));
    assert(s.skip(host.len() + 3int) =~= decimal(port as nat));
    assert forall|i: int| 0 <= i < host.len() implies (if 0x41 <= host[i] as int <= 0x5a {
        (#[trigger] s[i + 1]) as int == host[i] as int + 0x20
    } else {
        s[i + 1] == host[i]
    }) by {
        assert(s[i + 1] == lower[i]);
    }
}

/// Two ASCII texts have the same canonical form only if their hosts differ at
/// most in the case of letters, and their ports not at all.
pub proof fn law_canonical_form_merges_only_case(
    first: Seq<char>,
    first_port: int,
    second: Seq<char>,
    second_port: int,
    a: Seq<char>,
    b: Seq<char>,
)
    requires
        names(trimmed(a), first, first_port),
        names(trimmed(b), second, second_port),
        first.len() > 0,
        second.len() > 0,
        first_port > 0,
        second_port > 0,
        is_ascii_chars(first),
        is_ascii_chars(second),
        normalized(a) == normalized(b),
    ensures
        first_port == second_port,
        first.len() == second.len(),
        forall|i: int|
            0 <= i < first.len() ==> {
                ||| #[trigger] first[i] == second[i]
                ||| 0x41 <= first[i] as int <= 0x5a && second[i] as int == first[i] as int + 0x20
                ||| 0x41 <= second[i] as int <= 0x5a && first[i] as int == second[i] as int + 0x20
            },
{
    law_destination_forms(trimmed(a), first, first_port);
    law_destination_forms(trimmed(b), second, second_port);
    lemma_split_destination_host(trimmed(a));
    lemma_split_destination_host(trimmed(b));
    lemma_lower_host(first);
    lemma_lower_host(second);
    law_gateway_addr_round_trip(lowercase(first), first_port as u16);
    law_gateway_addr_round_trip(lowercase(second), second_port as u16);
    assert(normalized(a) == Ok::<Seq<char>, DestinationFault>(
        endpoint(lowercase(first), first_port as u16 as nat),
    ));
    assert(normalized(b) == Ok::<Seq<char>, DestinationFault>(
        endpoint(lowercase(second), second_port as u16 as nat),
    ));
    assert(lowercase(first) == lowercase(second));
    law_lowercase_merges_only_case(first, second);
}

/// The lower case form of the host of a destination is still one.
proof fn lemma_lower_host(host: Seq<char>)
    requires
        is_ascii_chars(host),
        host.len() > 0,
        host.contains(':') ==> is_ipv6(host),
        !host.contains(':') ==> host[0] != '[',
    ensures
        lowercase(host).len() > 0,
        lowercase(host)[0] != '[' || lowercase(host).contains(':'),
        lowercase(host).contains(':') ==> !lowercase(host).contains(']'),
{
    law_lowercase(host);
    let lower = lowercase(host);
    if host.contains(':') {
        lemma_ipv6_chars(host);
        let k = choose|k: int| 0 <= k < host.len() && host[k] == ':';
        assert(lower[k] == ':');
        if lower.contains(']') {
            let i = choose|i: int| 0 <= i < lower.len() && lower[i] == ']';
            assert(lower[i] as int == 0x5d);
            assert(host[i] == ']');
        }
    } else {
        if lower.contains(':') {
            let i = choose|i: int| 0 <= i < lower.len() && lower[i] == ':';
            assert(lower[i] as int == 0x3a);
            assert(host[i] == ':');
        }
        assert(lower[0] != '[') by {
            if lower[0] == '[' {
                assert(lower[0] as int == 0x5b);
                assert(host[0] == '[');
            }
        }
    }
}

} // verus!
