//! Which texts are the address of a gateway, form by form.

use vstd::prelude::*;

use crate::destination_forms::{
    bracketed_port, lemma_bracketed, lemma_port, lemma_unbracketed, name_port, says_port,
};
use crate::endpoint::{gateway_addr, parse_gateway_addr, GatewayAddrFault};
use crate::text::{
    first_index, last_index, lemma_first_index, lemma_last_index, lemma_last_index_unique,
};

verus! {

/// Whether a text puts a host and a port together: `[host]:port`, or
/// `host:port` where the host does not start with a bracket. The port is what
/// follows the last colon.
pub open spec fn addresses(text: Seq<char>, host: Seq<char>, port: int) -> bool {
    ||| host.len() > 0 && !host.contains(']') && exists|p: Seq<char>|
        text == #[trigger] bracketed_port(host, p) && says_port(p, port)
    ||| host.len() > 0 && host[0] != '[' && exists|p: Seq<char>|
        text == #[trigger] name_port(host, p) && says_port(p, port)
}

proof fn lemma_addressed(text: Seq<char>, host: Seq<char>, port: int)
    requires
        addresses(text, host, port),
    ensures
        gateway_addr(text) == Ok::<(Seq<char>, int), GatewayAddrFault>((host, port)),
{
    if !host.contains(']') && exists|p: Seq<char>|
        text == #[trigger] bracketed_port(host, p) && says_port(p, port) {
        let p = choose|p: Seq<char>|
            text == #[trigger] bracketed_port(host, p) && says_port(p, port);
        lemma_port(p, port);
        let rest = seq![':'] + p;
        lemma_bracketed(host, rest);
        assert(text =~= seq!['['] + host + seq![']'] + rest);
        assert(rest.drop_first() =~= p);
    } else {
        let p = choose|p: Seq<char>|
            text == #[trigger] name_port(host, p) && says_port(p, port);
        lemma_port(p, port);
        let k = host.len() as int;
        assert(text[k] == ':');
        assert forall|i: int| k < i < text.len() implies text[i] != ':' by {
            assert(text[i] == p[i - k - 1]);
        }
        lemma_last_index_unique(text, ':', k);
        assert(text[0] == host[0]);
        assert(text.take(k) =~= host);
        assert(text.skip(k + 1) =~= p);
    }
}

proof fn lemma_found(text: Seq<char>, host: Seq<char>, port: int)
    requires
        gateway_addr(text) == Ok::<(Seq<char>, int), GatewayAddrFault>((host, port)),
    ensures
        addresses(text, host, port),
{
    if text.len() > 0 && text[0] == '[' {
        lemma_first_index(text, ']');
        lemma_unbracketed(text);
        let close = first_index(text, ']');
        let after = text.skip(close + 1);
        let p = after.drop_first();
        lemma_port(p, port);
        assert(text =~= bracketed_port(host, p));
    } else {
        lemma_last_index(text, ':');
        let k = last_index(text, ':');
        let p = text.skip(k + 1);
        lemma_port(p, port);
        assert(text =~= name_port(host, p));
        assert(host[0] == text[0]);
    }
}

/// A gateway address is taken apart into a host and a port exactly where it
/// puts them together in one of its two forms.
pub proof fn law_gateway_address(addr: &str, r: Result<(String, u16), GatewayAddrFault>)
    requires
        call_ensures(parse_gateway_addr, (addr,), r),
    ensures
        r matches Ok(found) ==> addresses(addr@, found.0@, found.1 as int),
        forall|host: Seq<char>, port: int| #[trigger]
            addresses(addr@, host, port) ==> (r matches Ok(found) && found.0@ == host && found.1
                == port),
        r is Err ==> {
            let fault = r->Err_0;
            let bracketed = addr@.len() > 0 && addr@[0] == '[';
            &&& fault is MissingCloseBracket <==> bracketed && !addr@.contains(']')
            &&& fault is NotHostPort <==> !bracketed && !addr@.contains(':')
            &&& bracketed ==> (fault is EmptyHost <==> addr@.len() > 1 && addr@[1] == ']')
            &&& !bracketed ==> (fault is EmptyHost <==> addr@.len() > 0 && addr@[0] == ':'
                && !addr@.skip(1).contains(':'))
            &&& fault is MissingPort <==> bracketed && exists|k: int|
                1 < k < addr@.len() && #[trigger] addr@[k] == ']' && !addr@.take(k).contains(']')
                    && (k + 1 == addr@.len() || addr@[k + 1] != ':')
        },
{
    if let Ok(found) = r {
        lemma_found(addr@, found.0@, found.1 as int);
    }
    assert forall|host: Seq<char>, port: int| #[trigger] addresses(addr@, host, port) implies (
    r matches Ok(found) && found.0@ == host && found.1 == port) by {
        lemma_addressed(addr@, host, port);
    }
    if r is Err {
        lemma_fault(addr@, r->Err_0);
    }
}

proof fn lemma_fault(text: Seq<char>, fault: GatewayAddrFault)
    requires
        gateway_addr(text) == Err::<(Seq<char>, int), GatewayAddrFault>(fault),
    ensures
        ({
            let bracketed = text.len() > 0 && text[0] == '[';
            &&& fault is MissingCloseBracket <==> bracketed && !text.contains(']')
            &&& fault is NotHostPort <==> !bracketed && !text.contains(':')
            &&& bracketed ==> (fault is EmptyHost <==> text.len() > 1 && text[1] == ']')
            &&& !bracketed ==> (fault is EmptyHost <==> text.len() > 0 && text[0] == ':'
                && !text.skip(1).contains(':'))
            &&& fault is MissingPort <==> bracketed && exists|k: int|
                1 < k < text.len() && #[trigger] text[k] == ']' && !text.take(k).contains(']') && (k
                    + 1 == text.len() || text[k + 1] != ':')
        }),
{
    lemma_first_index(text, ']');
    lemma_last_index(text, ':');
    let close = first_index(text, ']');
    if text.len() > 0 && text[0] == '[' {
        if close < text.len() {
            let after = text.skip(close + 1);
            assert(close > 0);
            assert forall|k: int|
                1 < k < text.len() && #[trigger] text[k] == ']' && !text.take(k).contains(
                    ']',
                ) implies k == close by {
                if close < k {
                    assert(text.take(k)[close] == ']');
                }
            }
            assert(text[close] == ']');
            assert(!text.take(close).contains(']'));
            assert(after.len() > 0 ==> after[0] == text[close + 1]);
        }
    } else {
        let colon = last_index(text, ':');
        if colon == 0 {
            assert forall|i: int| 0 <= i < text.skip(1).len() implies text.skip(1)[i] != ':' by {
                assert(text[i + 1] != ':');
            }
        } else if colon > 0 {
            assert(text.skip(1)[colon - 1] == ':');
        }
    }
}

} // verus!
