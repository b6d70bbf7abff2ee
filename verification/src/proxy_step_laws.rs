//! What the gateway does with every request, step by step.

use vstd::prelude::*;

use crate::certificate::chain_bytes;
use crate::destination::split_destination;
use crate::destination_forms::{law_destination_forms, names};
use crate::destination_laws::lemma_split_destination_host;
use crate::endpoint::endpoint;
use crate::policy::PolicyDecision;
use crate::proxy::{
    authority_error, destination_of, host_port, plain_destination, response, Authority,
    DecisionStep, Destination, DestinationView, Method, ProxyService, Reply, RequestStep,
};
use crate::text::{last_index, lemma_last_index, lemma_last_index_unique, lowercase, trimmed};

verus! {

// ---------------------------------------------------------------------
// Where a request goes
// ---------------------------------------------------------------------

/// What follows the user information of an authority: the text after its last
/// `@`, or all of it.
pub proof fn law_host_port_follows_user_information(user: Seq<char>, rest: Seq<char>)
    requires
        !rest.contains('@'),
    ensures
        host_port(rest) == rest,
        host_port(user + seq!['@'] + rest) == rest,
{
    let text = user + seq!['@'] + rest;
    let k = user.len() as int;
    assert(last_index(rest, '@') == -1) by {
        lemma_last_index(rest, '@');
    }
    assert(rest.skip(0) =~= rest);
    assert(last_index(text, '@') == k) by {
        assert(text[k] == '@');
        assert forall|i: int| k < i < text.len() implies text[i] != '@' by {
            assert(text[i] == rest[i - k - 1]);
        }
        lemma_last_index_unique(text, '@', k);
    }
    assert(text.skip(k + 1) =~= rest);
}

/// An authority leads to a host and a port exactly where what follows its user
/// information, without white space around it, is in one of the forms of
/// destinations for them. The destination in canonical form is then that host
/// in lower case and that port.
pub proof fn law_authority_leads_to(
    authority: Authority,
    r: Result<Destination, String>,
    host: Seq<char>,
    port: int,
)
    requires
        call_ensures(Destination::from_authority, (&authority,), r),
    ensures
        names(trimmed(host_port(authority@)), host, port) && host.len() > 0 && port > 0 ==> (
        r matches Ok(d) && d.host@ == host && d.port == port && d.authority@ == endpoint(
            lowercase(host),
            port as nat,
        )),
        r matches Ok(d) ==> d.port > 0 && d.host@.len() > 0 && names(
            trimmed(host_port(authority@)),
            d.host@,
            d.port as int,
        ) && d.authority@ == endpoint(lowercase(d.host@), d.port as nat),
{
    let text = trimmed(host_port(authority@));
    law_destination_forms(text, host, port);
    if split_destination(text) is Ok {
        lemma_split_destination_host(text);
    }
    if let Ok(d) = r {
        law_destination_forms(text, d.host@, d.port as int);
    }
}

/// A request has the destination of its authority; it has none where it has no
/// authority, or one that does not parse.
pub proof fn law_request_leads_to(authority: Option<&str>, r: Result<Destination, String>)
    requires
        call_ensures(Destination::from_request, (authority,), r),
    ensures
        authority is None ==> r is Err,
        authority is Some && authority_error(authority->0@) is Some ==> r is Err,
        authority is Some && authority_error(authority->0@) is None ==> plain_destination(r)
            == destination_of(authority->0@),
{
}

/// An authority is accepted exactly where `http` accepts it, as it is.
pub proof fn law_authority_is_kept(text: &str, r: Result<Authority, String>)
    requires
        call_ensures(Authority::parse, (text,), r),
    ensures
        r is Ok <==> authority_error(text@) is None,
        r matches Ok(authority) ==> authority@ == text@,
{
}

// ---------------------------------------------------------------------
// Steps
// ---------------------------------------------------------------------

/// A reply has its status, and the message as its body unless that is empty.
pub proof fn law_reply_says_message(status: u16, message: &str, r: Reply)
    requires
        call_ensures(response, (status, message), r),
    ensures
        r.status == status,
        r.body is None <==> message@.len() == 0,
        r.body matches Some(body) ==> body@ == message@,
{
}

/// A request is answered 405 where it is no CONNECT, and 400 where it has no
/// destination. Every other request is put to the policy, with the client's
/// certificates and its destination in canonical form.
pub proof fn law_request_is_put_to_policy(
    service: ProxyService,
    method: Method,
    authority: Option<&str>,
    r: RequestStep,
)
    requires
        call_ensures(ProxyService::on_request, (&service, method, authority), r),
    ensures
        r is Evaluate <==> method == Method::Connect && authority is Some && authority_error(
            authority->0@,
        ) is None && destination_of(authority->0@) is Ok,
        r matches RequestStep::Evaluate { ctx, destination } ==> {
            &&& destination_of(authority->0@) == Ok::<DestinationView, Seq<char>>(destination@)
            &&& ctx.destination@ == destination.authority@
            &&& chain_bytes(ctx.peer_certificates@) == service.chain()
        },
        r matches RequestStep::Respond(reply) ==> reply.status == (if method == Method::Connect {
            400u16
        } else {
            405u16
        }),
        r matches RequestStep::Respond(reply) ==> method != Method::Connect ==> reply.body is Some
            && reply.body->0@ == "only CONNECT is supported"@,
        r matches RequestStep::Respond(reply) ==> method == Method::Connect && authority is None
            ==> reply.body is Some && reply.body->0@ == "CONNECT request missing authority"@,
{
    reveal_strlit("only CONNECT is supported");
    reveal_strlit("CONNECT request missing authority");
}

/// A service keeps the certificates of its client.
pub proof fn law_service_keeps_certificates(certs: Vec<Vec<u8>>, service: ProxyService)
    requires
        call_ensures(ProxyService::new, (certs,), service),
    ensures
        service.chain() == chain_bytes(certs@),
{
}

/// What the policy allows is connected to as it was asked for; what it denies
/// is answered 403, without the reason.
pub proof fn law_decision_is_followed(
    service: ProxyService,
    destination: Destination,
    decision: PolicyDecision,
    r: DecisionStep,
)
    requires
        call_ensures(ProxyService::on_decision, (&service, destination, &decision), r),
    ensures
        decision is Allow ==> (r matches DecisionStep::Connect(d) && d@ == destination@),
        decision is Deny ==> (r matches DecisionStep::Respond(reply) && reply.status == 403
            && reply.body is Some && reply.body->0@ == "forbidden"@),
{
    reveal_strlit("forbidden");
    match decision {
        PolicyDecision::Allow { .. } => {},
        PolicyDecision::Deny { .. } => {},
    }
}

/// A tunnel is answered 200 without a body, and a destination that cannot be
/// reached 502.
pub proof fn law_upstream_is_reported(service: ProxyService, connected: bool, r: Reply)
    requires
        call_ensures(ProxyService::on_upstream, (&service, connected), r),
    ensures
        connected ==> r.status == 200 && r.body is None,
        !connected ==> r.status == 502 && r.body is Some && r.body->0@ == "bad gateway"@,
{
    reveal_strlit("");
    reveal_strlit("bad gateway");
}

} // verus!
