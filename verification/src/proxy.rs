//! How the gateway answers a CONNECT request.
//!
//! The gateway asks the policy and opens connections; this module says what
//! to ask, where to connect, and what to reply.

use vstd::prelude::*;

use crate::certificate::chain_bytes;
use crate::destination::{
    canonical_endpoint, destination_parts, normalize_destination, normalized, parse_destination,
    DestinationFault, DEFAULT_PORT,
};
use crate::endpoint::{endpoint, format_endpoint};
use crate::number::unsigned_value;
use crate::policy::{PolicyDecision, RequestContext};
use crate::text::{chars_of, first_index, last_index, lowercase, rfind, slice_string, trimmed};

verus! {

/// OK.
pub const STATUS_OK: u16 = 200;

/// Bad Request.
pub const STATUS_BAD_REQUEST: u16 = 400;

/// Forbidden.
pub const STATUS_FORBIDDEN: u16 = 403;

/// Method Not Allowed.
pub const STATUS_METHOD_NOT_ALLOWED: u16 = 405;

/// Bad Gateway.
pub const STATUS_BAD_GATEWAY: u16 = 502;

// ---------------------------------------------------------------------
// Replies
// ---------------------------------------------------------------------

/// A reply: its status, and its body where it has one.
#[derive(Debug)]
pub struct Reply {
    pub status: u16,
    pub body: Option<String>,
}

/// The content of a [`Reply`].
#[verifier::ext_equal]
pub struct ReplyView {
    pub status: u16,
    pub body: Option<Seq<char>>,
}

impl View for Reply {
    type V = ReplyView;

    open spec fn view(&self) -> ReplyView {
        ReplyView {
            status: self.status,
            body: match self.body {
                Some(s) => Some(s@),
                None => None,
            },
        }
    }
}

/// The reply with a status and a message. An empty message is no body.
pub open spec fn reply(status: u16, message: Seq<char>) -> ReplyView {
    ReplyView {
        status,
        body: if message.len() == 0 {
            None
        } else {
            Some(message)
        },
    }
}

/// Makes a reply.
pub fn response(status: u16, message: &str) -> (r: Reply)
    ensures
        r@ == reply(status, message@),
{
    Reply {
        status,
        body: if message.is_empty() {
            None
        } else {
            Some(message.to_owned())
        },
    }
}

// ---------------------------------------------------------------------
// Destinations
// ---------------------------------------------------------------------

/// The text of the error with which `http` refuses an authority, if it
/// refuses it.
pub uninterp spec fn authority_error(text: Seq<char>) -> Option<Seq<char>>;

/// An authority without the user information in front of it.
pub open spec fn host_port(text: Seq<char>) -> Seq<char> {
    text.skip(last_index(text, '@') + 1)
}

/// The host in an authority: what follows the user information, up to the
/// closing bracket, or up to the first colon.
pub open spec fn authority_host(text: Seq<char>) -> Seq<char> {
    if host_port(text)[0] == '[' {
        host_port(text).take(first_index(host_port(text), ']') + 1)
    } else {
        host_port(text).take(first_index(host_port(text), ':'))
    }
}

/// The port in an authority: the number after its last colon, if it is one.
pub open spec fn authority_port(text: Seq<char>) -> Option<u16> {
    let colon = last_index(text, ':');
    if colon < 0 {
        None
    } else {
        match unsigned_value(text.skip(colon + 1), 10, u16::MAX as int) {
            Ok(port) => Some(port as u16),
            Err(_) => None,
        }
    }
}

/// `http::uri::Authority`'s `FromStr`, then its `host` and `port_u16`.
///
/// Trusted: an authority that is accepted is ASCII, and its host and port are
/// the parts of its text that the contract says. Which texts are refused is
/// left unsaid, but depends on the text alone.
#[verifier::external_body]
fn parse_http_authority(text: &str) -> (r: Result<(String, Option<u16>), String>)
    ensures
        match r {
            Ok((host, port)) => {
                &&& authority_error(text@) is None
                &&& vstd::utf8::is_ascii_chars(text@)
                &&& host@ == authority_host(text@)
                &&& port == authority_port(text@)
            },
            Err(e) => authority_error(text@) == Some(e@),
        },
{
    match text.parse::<http::uri::Authority>() {
        Ok(authority) => Ok((authority.host().to_owned(), authority.port_u16())),
        Err(e) => Err(e.to_string()),
    }
}

/// The authority of a request: its text, and the host and the port in it.
#[derive(Debug)]
pub struct Authority {
    text: String,
    host: String,
    port: Option<u16>,
}

impl View for Authority {
    type V = Seq<char>;

    /// The text of the authority.
    closed spec fn view(&self) -> Seq<char> {
        self.text@
    }
}

impl Authority {
    /// The host and the port are those in the text.
    #[verifier::type_invariant]
    spec fn well_formed(self) -> bool {
        &&& self.host@ == authority_host(self.text@)
        &&& self.port == authority_port(self.text@)
    }

    /// Parses an authority.
    pub fn parse(text: &str) -> (r: Result<Authority, String>)
        ensures
            match r {
                Ok(authority) => {
                    &&& authority_error(text@) is None
                    &&& vstd::utf8::is_ascii_chars(text@)
                    &&& authority@ == text@
                },
                Err(e) => authority_error(text@) == Some(e@),
            },
    {
        match parse_http_authority(text) {
            Ok((host, port)) => Ok(Authority { text: text.to_owned(), host, port }),
            Err(e) => Err(e),
        }
    }

    /// The host, in brackets where it is an IPv6 address.
    pub fn host(&self) -> (r: &str)
        ensures
            r@ == authority_host(self@),
    {
        proof {
            use_type_invariant(self);
        }
        self.host.as_str()
    }

    /// The port, where there is a valid one.
    pub fn port(&self) -> (r: Option<u16>)
        ensures
            r == authority_port(self@),
    {
        proof {
            use_type_invariant(self);
        }
        self.port
    }

    /// The host and the port as they were written, without user information.
    fn host_port(&self) -> (r: String)
        ensures
            r@ == host_port(self@),
    {
        let text = chars_of(self.text.as_str());
        let start: usize = match rfind(text.as_slice(), '@') {
            Some(at) => at + 1,
            None => 0,
        };
        assert(self.text@.subrange(start as int, text.len() as int) == host_port(self@));
        slice_string(text.as_slice(), start, text.len())
    }
}

/// Where a request wants to go.
#[derive(Clone, Debug)]
pub struct Destination {
    /// The host to connect to, without brackets.
    pub host: String,
    /// The port to connect to.
    pub port: u16,
    /// Both in canonical form.
    pub authority: String,
}

/// The content of a [`Destination`].
#[verifier::ext_equal]
pub struct DestinationView {
    pub host: Seq<char>,
    pub port: u16,
    pub authority: Seq<char>,
}

impl View for Destination {
    type V = DestinationView;

    open spec fn view(&self) -> DestinationView {
        DestinationView { host: self.host@, port: self.port, authority: self.authority@ }
    }
}

/// A host without the brackets around it.
pub open spec fn without_brackets(raw: Seq<char>) -> Seq<char> {
    if raw.len() >= 2 && raw[0] == '[' && raw.last() == ']' {
        raw.subrange(1, raw.len() - 1)
    } else {
        raw
    }
}

/// The port of a request, which defaults to that of TLS.
pub open spec fn port_or_default(port: Option<u16>) -> u16 {
    match port {
        Some(p) => p,
        None => DEFAULT_PORT,
    }
}

/// The text of a host and a port, with brackets around an IPv6 address.
pub open spec fn reassembled(raw_host: Seq<char>, port: Option<u16>) -> Seq<char> {
    endpoint(without_brackets(raw_host), port_or_default(port) as nat)
}

/// What is said of an authority in which there is a fault: that it has no
/// host, or what is wrong with its host and its port, or, where those could be
/// a destination, what is wrong with its text.
pub open spec fn refusal(text: Seq<char>, fault: DestinationFault) -> Seq<char> {
    let formatted = reassembled(authority_host(text), authority_port(text));
    if authority_host(text).len() == 0 {
        "empty host in CONNECT authority"@
    } else {
        match normalized(formatted) {
            Err(e) => "bad destination: "@ + e.text(trimmed(formatted)),
            Ok(_) => "bad destination: "@ + fault.text(trimmed(host_port(text))),
        }
    }
}

/// The destination that an authority names, or why it names none. The rules
/// are those for destinations; user information is ignored.
pub open spec fn destination_of(text: Seq<char>) -> Result<DestinationView, Seq<char>> {
    match destination_parts(trimmed(host_port(text))) {
        Ok((host, port)) => Ok(
            DestinationView {
                host,
                port: port as u16,
                authority: endpoint(lowercase(host), port as nat),
            },
        ),
        Err(fault) => Err(refusal(text, fault)),
    }
}

/// A destination or the reason why there is none, as plain values.
pub open spec fn plain_destination(
    r: Result<Destination, String>,
) -> Result<DestinationView, Seq<char>> {
    match r {
        Ok(d) => Ok(d@),
        Err(reason) => Err(reason@),
    }
}

/// The text of an authority that may be missing.
pub open spec fn authority_text(authority: Option<&str>) -> Option<Seq<char>> {
    match authority {
        Some(text) => Some(text@),
        None => None,
    }
}

/// The destination of a request that may lack an authority, or may have one
/// that does not parse.
pub open spec fn requested_destination(
    authority: Option<Seq<char>>,
) -> Result<DestinationView, Seq<char>> {
    match authority {
        None => Err("CONNECT request missing authority"@),
        Some(text) => match authority_error(text) {
            Some(e) => Err(e),
            None => destination_of(text),
        },
    }
}

impl Destination {
    /// The destination of a request, given the text of its authority.
    pub fn from_request(authority: Option<&str>) -> (r: Result<Destination, String>)
        ensures
            plain_destination(r) == requested_destination(authority_text(authority)),
    {
        match authority {
            Some(text) => match Authority::parse(text) {
                Ok(a) => Destination::from_authority(&a),
                Err(e) => Err(e),
            },
            None => Err("CONNECT request missing authority".to_owned()),
        }
    }

    /// The destination that an authority names. The port is 443 where the
    /// authority has none; one that is no number is refused, and so are
    /// brackets around anything but an IPv6 address.
    pub fn from_authority(authority: &Authority) -> (r: Result<Destination, String>)
        ensures
            plain_destination(r) == destination_of(authority@),
    {
        let written = authority.host_port();
        let fault = match parse_destination(written.as_str()) {
            Ok((host, port)) => {
                let canonical = canonical_endpoint(host.as_str(), port);
                return Ok(Destination { host, port, authority: canonical });
            },
            Err(e) => e,
        };
        let raw = chars_of(authority.host());
        if raw.len() == 0 {
            return Err("empty host in CONNECT authority".to_owned());
        }
        let host = if raw.len() >= 2 && raw[0] == '[' && raw[raw.len() - 1] == ']' {
            slice_string(raw.as_slice(), 1, raw.len() - 1)
        } else {
            authority.host().to_owned()
        };
        assert(host@ == without_brackets(authority_host(authority@)));
        let port: u16 = match authority.port() {
            Some(port) => port,
            None => DEFAULT_PORT,
        };
        let formatted = format_endpoint(host.as_str(), port);
        let text = match normalize_destination(formatted.as_str()) {
            Ok(_) => fault.message(),
            Err(e) => e.message(),
        };
        Err("bad destination: ".to_owned().concat(text.as_str()))
    }
}

// ---------------------------------------------------------------------
// Requests
// ---------------------------------------------------------------------

/// The method of a request, as far as it matters.
#[derive(Clone, Copy, Debug, PartialEq, Eq, Structural)]
pub enum Method {
    Connect,
    Other,
}

/// What the gateway does with a request.
#[derive(Debug)]
pub enum RequestStep {
    /// It replies.
    Respond(Reply),
    /// It asks the policy.
    Evaluate { ctx: RequestContext, destination: Destination },
}

/// What the gateway does once the policy has decided.
#[derive(Debug)]
pub enum DecisionStep {
    /// It replies.
    Respond(Reply),
    /// It connects to the destination.
    Connect(Destination),
}

/// The reply to a request that the policy is not asked about.
pub open spec fn early_reply(method: Method, authority: Option<Seq<char>>) -> Option<ReplyView> {
    if method != Method::Connect {
        Some(reply(STATUS_METHOD_NOT_ALLOWED, "only CONNECT is supported"@))
    } else {
        match requested_destination(authority) {
            Err(reason) => Some(reply(STATUS_BAD_REQUEST, reason)),
            Ok(_) => None,
        }
    }
}

/// The reply to a request that the policy denied.
pub open spec fn denied_reply() -> ReplyView {
    reply(STATUS_FORBIDDEN, "forbidden"@)
}

/// The reply to a request that the policy allowed, which depends on whether
/// the destination was reached.
pub open spec fn upstream_reply(connected: bool) -> ReplyView {
    if connected {
        reply(STATUS_OK, ""@)
    } else {
        reply(STATUS_BAD_GATEWAY, "bad gateway"@)
    }
}

/// The proxy for one client.
#[derive(Debug)]
pub struct ProxyService {
    peer_certs: Vec<Vec<u8>>,
}

/// Copies a chain of certificates.
fn copy_chain(chain: &Vec<Vec<u8>>) -> (r: Vec<Vec<u8>>)
    ensures
        chain_bytes(r@) == chain_bytes(chain@),
{
    let mut out: Vec<Vec<u8>> = Vec::new();
    let mut i: usize = 0;
    while i < chain.len()
        invariant
            i <= chain@.len(),
            out@.len() == i,
            forall|k: int| 0 <= k < i ==> (#[trigger] out@[k])@ == chain@[k]@,
        decreases chain.len() - i,
    {
        let mut cert: Vec<u8> = Vec::new();
        cert.extend_from_slice(chain[i].as_slice());
        assert(cert@ == chain@[i as int]@);
        out.push(cert);
        i = i + 1;
    }
    assert(chain_bytes(out@) == chain_bytes(chain@));
    out
}

impl ProxyService {
    /// The certificates that the client presented.
    pub closed spec fn chain(self) -> Seq<Seq<u8>> {
        chain_bytes(self.peer_certs@)
    }

    /// The proxy for a client that presented these certificates.
    pub fn new(peer_certs: Vec<Vec<u8>>) -> (r: ProxyService)
        ensures
            r.chain() == chain_bytes(peer_certs@),
    {
        ProxyService { peer_certs }
    }

    /// Takes a request, with the text of its authority. Only CONNECT requests
    /// with a destination are put to the policy, with the client's
    /// certificates and the destination in canonical form.
    pub fn on_request(&self, method: Method, authority: Option<&str>) -> (r: RequestStep)
        ensures
            match r {
                RequestStep::Respond(reply) => early_reply(method, authority_text(authority)) == Some(
                    reply@,
                ),
                RequestStep::Evaluate { ctx, destination } => {
                    &&& early_reply(method, authority_text(authority)) is None
                    &&& requested_destination(authority_text(authority)) == Ok::<
                        DestinationView,
                        Seq<char>,
                    >(destination@)
                    &&& chain_bytes(ctx.peer_certificates@) == self.chain()
                    &&& ctx.destination@ == destination@.authority
                },
            },
    {
        if method != Method::Connect {
            return RequestStep::Respond(
                response(STATUS_METHOD_NOT_ALLOWED, "only CONNECT is supported"),
            );
        }
        match Destination::from_request(authority) {
            Ok(destination) => {
                let ctx = RequestContext {
                    peer_certificates: copy_chain(&self.peer_certs),
                    destination: destination.authority.clone(),
                };
                RequestStep::Evaluate { ctx, destination }
            },
            Err(reason) => RequestStep::Respond(response(STATUS_BAD_REQUEST, reason.as_str())),
        }
    }

    /// Takes the decision of the policy. The reason for a denial is not given
    /// to the client.
    pub fn on_decision(&self, destination: Destination, decision: &PolicyDecision) -> (r:
        DecisionStep)
        ensures
            match r {
                DecisionStep::Respond(reply) => decision is Deny && reply@ == denied_reply(),
                DecisionStep::Connect(d) => decision is Allow && d == destination,
            },
    {
        match decision {
            PolicyDecision::Allow { .. } => DecisionStep::Connect(destination),
            PolicyDecision::Deny { .. } => DecisionStep::Respond(
                response(STATUS_FORBIDDEN, "forbidden"),
            ),
        }
    }

    /// Takes the outcome of the attempt to reach the destination.
    pub fn on_upstream(&self, connected: bool) -> (r: Reply)
        ensures
            r@ == upstream_reply(connected),
    {
        if connected {
            response(STATUS_OK, "")
        } else {
            response(STATUS_BAD_GATEWAY, "bad gateway")
        }
    }
}

} // verus!
