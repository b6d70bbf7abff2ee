//! What every reply and every destination of the gateway keeps to.

use vstd::prelude::*;
use vstd::utf8::is_ascii_chars;

use crate::destination::{normalized, split_destination, DestinationFault};
use crate::destination_laws::{
    law_normalized_idempotent, lemma_ipv6_chars, lemma_split_bracketed,
    lemma_split_destination_host, lemma_split_host_endpoint,
};
use crate::endpoint::{endpoint, lemma_decimal_digits};
use crate::number::{decimal, digit_value, scan_digits, unsigned_value};
use crate::proxy::{
    authority_host, authority_port, denied_reply, destination_of, early_reply, host_port,
    port_or_default, reassembled, requested_destination, upstream_reply, without_brackets, Method,
    ReplyView, STATUS_BAD_GATEWAY, STATUS_BAD_REQUEST, STATUS_FORBIDDEN, STATUS_METHOD_NOT_ALLOWED, STATUS_OK,
};
use crate::text::{
    first_index, is_trimmed, last_index, lemma_first_index, lemma_first_index_unique,
    lemma_last_index, lemma_last_index_unique, lemma_occurrences_concat, lemma_occurrences_contains,
    lemma_trimmed_fixed, lowercase, occurrences, trimmed,
};

verus! {

// ---------------------------------------------------------------------
// Replies
// ---------------------------------------------------------------------

/// The reply to a request, given whether the policy allows it and whether its
/// destination can be reached.
pub open spec fn proxied(
    method: Method,
    authority: Option<Seq<char>>,
    allowed: bool,
    connected: bool,
) -> ReplyView {
    match early_reply(method, authority) {
        Some(reply) => reply,
        None => if allowed {
            upstream_reply(connected)
        } else {
            denied_reply()
        },
    }
}

/// The status of a reply says what became of the request, and a tunnel is
/// only ever reported for a CONNECT request that the policy allowed and whose
/// destination was reached.
pub proof fn law_status_tells_outcome(
    method: Method,
    authority: Option<Seq<char>>,
    allowed: bool,
    connected: bool,
)
    ensures
        ({
            let status = proxied(method, authority, allowed, connected).status;
            let destination = requested_destination(authority);
            &&& status == STATUS_METHOD_NOT_ALLOWED <==> method != Method::Connect
            &&& status == STATUS_BAD_REQUEST <==> method == Method::Connect && destination is Err
            &&& status == STATUS_FORBIDDEN <==> method == Method::Connect && destination is Ok
                && !allowed
            &&& status == STATUS_BAD_GATEWAY <==> method == Method::Connect && destination is Ok
                && allowed && !connected
            &&& status == STATUS_OK <==> method == Method::Connect && destination is Ok && allowed
                && connected
        }),
        proxied(method, authority, allowed, connected).status == STATUS_OK ==> proxied(
            method,
            authority,
            allowed,
            connected,
        ).body is None,
{
    reveal_strlit("");
}

// ---------------------------------------------------------------------
// Destinations
// ---------------------------------------------------------------------

proof fn lemma_scan_is_digits(s: Seq<char>, max: int, acc: int)
    requires
        scan_digits(s, 10, max, acc) is Ok,
    ensures
        forall|i: int| 0 <= i < s.len() ==> digit_value(#[trigger] s[i], 10) is Some,
    decreases s.len(),
{
    if s.len() > 0 {
        let d = digit_value(s[0], 10)->0;
        let rest = s.drop_first();
        lemma_scan_is_digits(rest, max, acc * 10 + d);
        assert forall|i: int| 0 <= i < s.len() implies digit_value(#[trigger] s[i], 10) is Some by {
            if i > 0 {
                assert(s[i] == rest[i - 1]);
            }
        }
    }
}

/// A number has no colon in it, and does not end in a bracket.
proof fn lemma_number_chars(s: Seq<char>)
    requires
        unsigned_value(s, 10, u16::MAX as int) is Ok,
    ensures
        !s.contains(':'),
        s.len() > 0,
        s.last() != ']',
{
    if s[0] == '+' {
        let rest = s.drop_first();
        lemma_scan_is_digits(rest, u16::MAX as int, 0);
        assert forall|i: int| 0 <= i < s.len() implies s[i] != ':' by {
            if i > 0 {
                assert(s[i] == rest[i - 1]);
            }
        }
        assert(s.last() == rest.last());
        assert(digit_value(rest[rest.len() - 1], 10) is Some);
    } else {
        lemma_scan_is_digits(s, u16::MAX as int, 0);
        assert(digit_value(s[s.len() - 1], 10) is Some);
    }
}

/// The canonical form of a host and a port that were found in a text.
proof fn lemma_formatted(host: Seq<char>, port: u16)
    requires
        host.len() > 0,
        port != 0,
        host.contains(':') ==> crate::address::is_ipv6(host),
        !host.contains(':') ==> host[0] != '[' && !crate::text::is_white_space(host[0]),
    ensures
        normalized(endpoint(host, port as nat)) == Ok::<Seq<char>, DestinationFault>(
            endpoint(crate::text::lowercase(host), port as nat),
        ),
{
    let e = endpoint(host, port as nat);
    lemma_decimal_digits(port as nat);
    assert(e.last() == decimal(port as nat).last());
    if host.contains(':') {
        lemma_trimmed_fixed(e);
        lemma_split_bracketed(host, port);
    } else {
        assert(e[0] == host[0]);
        lemma_trimmed_fixed(e);
        lemma_split_host_endpoint(host, port);
    }
}

/// A CONNECT request is judged by the rules for destinations: an authority
/// without user information is accepted exactly where its text is a
/// destination, and both have the same canonical form.
pub proof fn law_connect_agrees_with_normalization(text: Seq<char>)
    requires
        !text.contains('@'),
    ensures
        destination_of(text) is Ok <==> normalized(text) is Ok,
        destination_of(text) matches Ok(d) ==> normalized(text) == Ok::<
            Seq<char>,
            DestinationFault,
        >(d.authority),
{
    lemma_last_index(text, '@');
    assert(host_port(text) == text);
}

/// User information in front of an authority does not change where it leads.
pub proof fn law_user_information_is_ignored(text: Seq<char>)
    ensures
        destination_of(text) is Ok <==> normalized(host_port(text)) is Ok,
        destination_of(text) is Ok ==> destination_of(text) == destination_of(host_port(text)),
{
    let rest = host_port(text);
    lemma_last_index(text, '@');
    lemma_last_index(rest, '@');
    let at = last_index(rest, '@');
    if at >= 0 {
        assert(text[last_index(text, '@') + 1 + at] == '@');
    }
    assert(host_port(rest) == rest);
}

/// The gateway connects to what the policy was asked about: the canonical
/// form names the host and the port that are connected to.
pub proof fn law_connects_where_the_policy_was_asked(text: Seq<char>)
    ensures
        destination_of(text) matches Ok(d) ==> d.authority == endpoint(
            lowercase(d.host),
            d.port as nat,
        ) && d.host.len() > 0 && d.port > 0,
{
    let d = trimmed(host_port(text));
    if split_destination(d) is Ok {
        lemma_split_destination_host(d);
    }
}

/// The host and the port that `http` finds in an authority are those that the
/// gateway connects to, and put together again they are the same destination.
/// A bare IPv6 address is left out, since it is not an authority.
pub proof fn law_connect_reads_host_and_port(text: Seq<char>)
    requires
        is_trimmed(text),
        normalized(text) is Ok,
        !text.contains('@'),
        text[0] == '[' || occurrences(text, ':') <= 1,
    ensures
        destination_of(text) matches Ok(d) && d.host == without_brackets(authority_host(text))
            && d.port == port_or_default(authority_port(text)),
        normalized(reassembled(authority_host(text), authority_port(text))) == normalized(text),
{
    lemma_trimmed_fixed(text);
    lemma_last_index(text, '@');
    assert(host_port(text) == text);
    lemma_split_destination_host(text);
    let (host, port) = split_destination(text)->Ok_0;
    lemma_last_index(text, ':');
    lemma_first_index(text, ':');
    let colon = last_index(text, ':');
    if text[0] == '[' {
        lemma_first_index(text, ']');
        let close = first_index(text, ']');
        let rest = text.skip(close + 1);
        lemma_ipv6_chars(host);
        let raw = text.take(close + 1);
        assert(raw.subrange(1, raw.len() - 1) == host);
        if rest.len() == 0 {
            let i = choose|i: int| 0 <= i < host.len() && host[i] == ':';
            assert(text[i + 1] == ':');
            let tail = text.skip(colon + 1);
            assert(tail.last() == ']');
            if unsigned_value(tail, 10, u16::MAX as int) is Ok {
                lemma_number_chars(tail);
            }
        } else {
            let digits = rest.drop_first();
            lemma_number_chars(digits);
            assert(text[close + 1] == ':');
            assert forall|i: int| close + 1 < i < text.len() implies text[i] != ':' by {
                assert(text[i] == digits[i - close - 2]);
            }
            lemma_last_index_unique(text, ':', close + 1);
            assert(text.skip(close + 2) == digits);
        }
        lemma_formatted(host, port as u16);
    } else if colon >= 0 {
        lemma_occurrences_concat(text.take(colon), text.skip(colon), ':');
        assert(text == text.take(colon) + text.skip(colon));
        lemma_occurrences_contains(text.take(colon), ':');
        lemma_occurrences_contains(text.skip(colon), ':');
        assert(text.skip(colon)[0] == ':');
        assert(text.skip(colon).contains(':'));
        assert forall|i: int| 0 <= i < colon implies text[i] != ':' by {
            if text[i] == ':' {
                assert(text.take(colon)[i] == ':');
            }
        }
        lemma_first_index_unique(text, ':', colon);
        assert(without_brackets(host) == host);
        lemma_formatted(host, port as u16);
    } else {
        assert(text.take(text.len() as int) == text);
        assert(without_brackets(host) == host);
        lemma_formatted(host, port as u16);
    }
}

/// The destination that is put to the policy is its own canonical form.
pub proof fn law_destination_is_canonical(text: Seq<char>)
    requires
        is_ascii_chars(text),
    ensures
        destination_of(text) matches Ok(d) ==> normalized(d.authority) == Ok::<
            Seq<char>,
            DestinationFault,
        >(d.authority),
{
    lemma_last_index(text, '@');
    assert(is_ascii_chars(host_port(text)));
    if normalized(host_port(text)) is Ok {
        law_normalized_idempotent(host_port(text));
    }
}

} // verus!
