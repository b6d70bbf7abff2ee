//! How the sidecar turns a local CONNECT request into one to the gateway.
//!
//! The sidecar holds the connections; this module says what to send over
//! them, when to try again, and what to reply.

use vstd::prelude::*;

use crate::number::{decimal, decimal_text};
use crate::proxy::{
    reply, response, Method, Reply, ReplyView, STATUS_BAD_GATEWAY, STATUS_BAD_REQUEST,
    STATUS_METHOD_NOT_ALLOWED, STATUS_OK,
};
use crate::text::plain_outcome;

verus! {

// ---------------------------------------------------------------------
// The request to the gateway
// ---------------------------------------------------------------------

/// Whether `http` refuses to make a URI of a text as its authority.
pub uninterp spec fn uri_refused(authority: Seq<char>) -> bool;

/// `http::Uri::builder().authority(..).build()`, then the authority of the
/// URI.
///
/// Trusted: where there is a URI, its authority is the text it was made of.
/// Which texts are refused is left unsaid, but depends on the text alone.
#[verifier::external_body]
fn build_uri(authority: &str) -> (r: Option<String>)
    ensures
        match r {
            Some(a) => !uri_refused(authority@) && a@ == authority@,
            None => uri_refused(authority@),
        },
{
    let uri = http::Uri::builder().authority(authority).build().ok()?;
    uri.authority().map(|a| a.as_str().to_owned())
}

/// A request to the gateway.
#[derive(Debug)]
pub struct ConnectRequest {
    pub method: Method,
    pub authority: String,
}

/// Why a CONNECT request to the gateway got no response.
#[derive(Debug)]
pub enum ConnectError {
    /// The authority does not make a URI.
    BadUri,
    /// No connection to the gateway could be had.
    NoSender(String),
    /// The request failed on a second connection too.
    RetryFailed(String),
}

/// The content of a [`ConnectError`].
#[verifier::ext_equal]
pub enum ConnectErrorView {
    BadUri,
    NoSender(Seq<char>),
    RetryFailed(Seq<char>),
}

impl View for ConnectError {
    type V = ConnectErrorView;

    open spec fn view(&self) -> ConnectErrorView {
        match self {
            ConnectError::BadUri => ConnectErrorView::BadUri,
            ConnectError::NoSender(e) => ConnectErrorView::NoSender(e@),
            ConnectError::RetryFailed(e) => ConnectErrorView::RetryFailed(e@),
        }
    }
}

impl ConnectErrorView {
    /// The text that describes the error.
    pub open spec fn text(self) -> Seq<char> {
        match self {
            ConnectErrorView::BadUri => "building CONNECT URI"@,
            ConnectErrorView::NoSender(e) => e,
            ConnectErrorView::RetryFailed(e) => "gateway retry failed: "@ + e,
        }
    }
}

impl ConnectError {
    /// Describes the error.
    pub fn message(&self) -> (r: String)
        ensures
            r@ == self@.text(),
    {
        match self {
            ConnectError::BadUri => "building CONNECT URI".to_owned(),
            ConnectError::NoSender(e) => e.clone(),
            ConnectError::RetryFailed(e) => "gateway retry failed: ".to_owned().concat(e.as_str()),
        }
    }
}

/// Builds the request for a tunnel to an authority.
pub fn build_connect_request(authority: &str) -> (r: Result<ConnectRequest, ConnectError>)
    ensures
        match r {
            Ok(req) => {
                &&& !uri_refused(authority@)
                &&& req.method == Method::Connect
                &&& req.authority@ == authority@
            },
            Err(e) => uri_refused(authority@) && e@ == ConnectErrorView::BadUri,
        },
{
    match build_uri(authority) {
        Some(authority) => Ok(ConnectRequest { method: Method::Connect, authority }),
        None => Err(ConnectError::BadUri),
    }
}

// ---------------------------------------------------------------------
// The connection to the gateway
// ---------------------------------------------------------------------

/// The connection to the gateway that was used last.
#[derive(Clone, Copy, Debug, PartialEq, Eq, Structural)]
pub enum CachedSender {
    /// There is none, or it was dropped after a failure.
    Absent,
    /// It is open.
    Open,
    /// The gateway closed it.
    Closed,
}

/// Where to get a connection from.
#[derive(Clone, Copy, Debug, PartialEq, Eq, Structural)]
pub enum SenderChoice {
    /// The one that was used last.
    Reuse,
    /// A new one, which then takes the place of the other.
    ConnectFresh,
}

/// What failed while a connection was made.
#[derive(Clone, Copy, Debug, PartialEq, Eq, Structural)]
pub enum ConnectStage {
    Tcp,
    Tls,
    H2,
}

/// The gateway that the sidecar talks to, and on whose behalf.
#[derive(Debug)]
pub struct GatewayConnector {
    host: String,
    port: u16,
    gateway_endpoint: String,
    source_identity: String,
}

/// The content of a [`GatewayConnector`].
#[verifier::ext_equal]
pub struct ConnectorView {
    pub host: Seq<char>,
    pub port: u16,
    pub gateway_endpoint: Seq<char>,
    pub source_identity: Seq<char>,
}

impl View for GatewayConnector {
    type V = ConnectorView;

    closed spec fn view(&self) -> ConnectorView {
        ConnectorView {
            host: self.host@,
            port: self.port,
            gateway_endpoint: self.gateway_endpoint@,
            source_identity: self.source_identity@,
        }
    }
}

impl ConnectorView {
    /// The text that describes a failure to make a connection.
    pub open spec fn stage_text(self, stage: ConnectStage) -> Seq<char> {
        let peer = self.host + seq![':'] + decimal(self.port as nat);
        match stage {
            ConnectStage::Tcp => "TCP connect to "@ + peer,
            ConnectStage::Tls => "TLS handshake with "@ + peer,
            ConnectStage::H2 => "h2 handshake with gateway"@,
        }
    }
}

impl GatewayConnector {
    /// A connector to a gateway.
    pub fn new(
        host: String,
        port: u16,
        gateway_endpoint: String,
        source_identity: String,
    ) -> (r: GatewayConnector)
        ensures
            r@ == (ConnectorView {
                host: host@,
                port,
                gateway_endpoint: gateway_endpoint@,
                source_identity: source_identity@,
            }),
    {
        GatewayConnector { host, port, gateway_endpoint, source_identity }
    }

    /// The host of the gateway.
    pub fn host(&self) -> (r: &str)
        ensures
            r@ == self@.host,
    {
        self.host.as_str()
    }

    /// The port of the gateway.
    pub fn port(&self) -> (r: u16)
        ensures
            r == self@.port,
    {
        self.port
    }

    /// The gateway as an endpoint.
    pub fn gateway_endpoint(&self) -> (r: &str)
        ensures
            r@ == self@.gateway_endpoint,
    {
        self.gateway_endpoint.as_str()
    }

    /// The identity that the sidecar presents.
    pub fn source_identity(&self) -> (r: &str)
        ensures
            r@ == self@.source_identity,
    {
        self.source_identity.as_str()
    }

    /// Describes a failure to make a connection.
    pub fn connect_context(&self, stage: ConnectStage) -> (r: String)
        ensures
            r@ == self@.stage_text(stage),
    {
        let digits = decimal_text(self.port as u64);
        let mut peer = self.host.clone();
        peer.push(':');
        peer.append(digits.as_str());
        assert(peer@ == self.host@ + seq![':'] + decimal(self.port as nat));
        match stage {
            ConnectStage::Tcp => "TCP connect to ".to_owned().concat(peer.as_str()),
            ConnectStage::Tls => "TLS handshake with ".to_owned().concat(peer.as_str()),
            ConnectStage::H2 => "h2 handshake with gateway".to_owned(),
        }
    }

    /// Chooses the connection for a request: the last one while it is open, a
    /// new one otherwise.
    pub fn get_sender(&self, cached: CachedSender) -> (r: SenderChoice)
        ensures
            r == (if cached == CachedSender::Open {
                SenderChoice::Reuse
            } else {
                SenderChoice::ConnectFresh
            }),
    {
        match cached {
            CachedSender::Open => SenderChoice::Reuse,
            _ => SenderChoice::ConnectFresh,
        }
    }

    /// Starts a CONNECT request to the gateway. No connection is made for an
    /// authority that does not make a URI.
    pub fn send_connect(&self, authority: &str) -> (r: Result<ConnectAttempt, ConnectError>)
        ensures
            match r {
                Ok(attempt) => !uri_refused(authority@) && attempt@ == (AttemptView {
                    authority: authority@,
                    retried: false,
                }),
                Err(e) => uri_refused(authority@) && e@ == ConnectErrorView::BadUri,
            },
    {
        match build_connect_request(authority) {
            Ok(request) => Ok(ConnectAttempt { request, retried: false }),
            Err(e) => Err(e),
        }
    }
}

// ---------------------------------------------------------------------
// Attempts
// ---------------------------------------------------------------------

/// A CONNECT request that is to be sent to the gateway.
#[derive(Debug)]
pub struct ConnectAttempt {
    request: ConnectRequest,
    retried: bool,
}

/// The content of a [`ConnectAttempt`].
#[verifier::ext_equal]
pub struct AttemptView {
    /// The authority that is asked for.
    pub authority: Seq<char>,
    /// Whether the request was sent before.
    pub retried: bool,
}

impl View for ConnectAttempt {
    type V = AttemptView;

    closed spec fn view(&self) -> AttemptView {
        AttemptView { authority: self.request.authority@, retried: self.retried }
    }
}

/// What follows the attempt to get a connection.
#[derive(Debug)]
pub enum SenderStep {
    /// The request is sent.
    Send(ConnectAttempt),
    /// It is given up.
    Failed(ConnectError),
}

/// What follows the sending of a request.
#[derive(Debug)]
pub enum ResponseStep {
    /// There is a response.
    Responded,
    /// The connection is dropped, and the request sent over another one.
    Retry(ConnectAttempt),
    /// It is given up.
    Failed(ConnectError),
}

/// The content of a [`SenderStep`].
#[verifier::ext_equal]
pub enum SenderStepView {
    Send(AttemptView),
    Failed(ConnectErrorView),
}

/// The content of a [`ResponseStep`].
#[verifier::ext_equal]
pub enum ResponseStepView {
    Responded,
    Retry(AttemptView),
    Failed(ConnectErrorView),
}

impl View for SenderStep {
    type V = SenderStepView;

    open spec fn view(&self) -> SenderStepView {
        match self {
            SenderStep::Send(attempt) => SenderStepView::Send(attempt@),
            SenderStep::Failed(e) => SenderStepView::Failed(e@),
        }
    }
}

impl View for ResponseStep {
    type V = ResponseStepView;

    open spec fn view(&self) -> ResponseStepView {
        match self {
            ResponseStep::Responded => ResponseStepView::Responded,
            ResponseStep::Retry(attempt) => ResponseStepView::Retry(attempt@),
            ResponseStep::Failed(e) => ResponseStepView::Failed(e@),
        }
    }
}

impl AttemptView {
    /// What follows the attempt to get a connection: without one the request
    /// is given up at once.
    pub open spec fn after_sender(self, sender: Result<(), Seq<char>>) -> SenderStepView {
        match sender {
            Ok(_) => SenderStepView::Send(self),
            Err(e) => SenderStepView::Failed(ConnectErrorView::NoSender(e)),
        }
    }

    /// What follows the sending of the request: the first failure leads to a
    /// second attempt, the second one does not.
    pub open spec fn after_response(self, response: Result<(), Seq<char>>) -> ResponseStepView {
        match response {
            Ok(_) => ResponseStepView::Responded,
            Err(e) => if self.retried {
                ResponseStepView::Failed(ConnectErrorView::RetryFailed(e))
            } else {
                ResponseStepView::Retry(AttemptView { retried: true, ..self })
            },
        }
    }
}

impl ConnectAttempt {
    #[verifier::type_invariant]
    spec fn sendable(self) -> bool {
        !uri_refused(self.request.authority@) && self.request.method == Method::Connect
    }

    /// The request that is sent.
    pub fn request(&self) -> (r: &ConnectRequest)
        ensures
            r.method == Method::Connect,
            r.authority@ == self@.authority,
    {
        proof {
            use_type_invariant(self);
        }
        &self.request
    }

    /// The number of the attempt, for the log.
    pub fn attempt(&self) -> (r: u32)
        ensures
            r == (if self@.retried {
                2u32
            } else {
                1u32
            }),
    {
        if self.retried {
            2
        } else {
            1
        }
    }

    /// Takes the outcome of the attempt to get a connection.
    pub fn on_sender(self, sender: Result<(), String>) -> (r: SenderStep)
        ensures
            r@ == self@.after_sender(plain_outcome(sender)),
    {
        match sender {
            Ok(_) => SenderStep::Send(self),
            Err(e) => SenderStep::Failed(ConnectError::NoSender(e)),
        }
    }

    /// Takes the outcome of sending the request.
    pub fn on_response(self, response: Result<(), String>) -> (r: ResponseStep)
        ensures
            r@ == self@.after_response(plain_outcome(response)),
    {
        proof {
            use_type_invariant(&self);
        }
        match response {
            Ok(_) => ResponseStep::Responded,
            Err(e) => if self.retried {
                ResponseStep::Failed(ConnectError::RetryFailed(e))
            } else {
                match build_connect_request(self.request.authority.as_str()) {
                    Ok(request) => ResponseStep::Retry(ConnectAttempt { request, retried: true }),
                    Err(e) => ResponseStep::Failed(e),
                }
            },
        }
    }
}

// ---------------------------------------------------------------------
// Replies to the local client
// ---------------------------------------------------------------------

/// What the sidecar does with a request.
#[derive(Debug)]
pub enum LocalStep {
    /// It replies.
    Respond(Reply),
    /// It asks the gateway for a tunnel to this authority.
    Forward(String),
}

/// What the sidecar does with the gateway's answer.
#[derive(Debug)]
pub enum GatewayStep {
    /// It replies.
    Respond(Reply),
    /// It takes over the tunnel.
    Tunnel,
}

/// Takes a request from the local client.
pub fn on_local_request(method: Method, authority: Option<&str>) -> (r: LocalStep)
    ensures
        match r {
            LocalStep::Respond(answer) => if method != Method::Connect {
                answer@ == reply(STATUS_METHOD_NOT_ALLOWED, "only CONNECT is supported"@)
            } else {
                authority is None && answer@ == reply(STATUS_BAD_REQUEST, "missing authority"@)
            },
            LocalStep::Forward(a) => method == Method::Connect && authority is Some && a@
                == authority->0@,
        },
{
    if method != Method::Connect {
        return LocalStep::Respond(response(STATUS_METHOD_NOT_ALLOWED, "only CONNECT is supported"));
    }
    match authority {
        Some(a) => LocalStep::Forward(a.to_owned()),
        None => LocalStep::Respond(response(STATUS_BAD_REQUEST, "missing authority")),
    }
}

/// The reply to the local client where the gateway grants no tunnel: its
/// status is handed on.
pub open spec fn gateway_refusal(status: Option<u16>) -> Option<ReplyView> {
    match status {
        None => Some(reply(STATUS_BAD_GATEWAY, "gateway unreachable"@)),
        Some(s) => if s == STATUS_OK {
            None
        } else {
            Some(reply(s, "gateway denied request"@))
        },
    }
}

/// Takes the status with which the gateway answered, if it did.
pub fn on_gateway(status: Option<u16>) -> (r: GatewayStep)
    ensures
        match r {
            GatewayStep::Respond(answer) => gateway_refusal(status) == Some(answer@),
            GatewayStep::Tunnel => gateway_refusal(status) is None,
        },
{
    match status {
        None => GatewayStep::Respond(response(STATUS_BAD_GATEWAY, "gateway unreachable")),
        Some(s) => if s == STATUS_OK {
            GatewayStep::Tunnel
        } else {
            GatewayStep::Respond(response(s, "gateway denied request"))
        },
    }
}

/// The reply to the local client once the tunnel was to be taken over.
pub open spec fn tunnel_reply(taken_over: bool) -> ReplyView {
    if taken_over {
        reply(STATUS_OK, ""@)
    } else {
        reply(STATUS_BAD_GATEWAY, "gateway tunnel failed"@)
    }
}

/// Takes the outcome of taking over the tunnel.
pub fn on_tunnel(taken_over: bool) -> (r: Reply)
    ensures
        r@ == tunnel_reply(taken_over),
{
    if taken_over {
        response(STATUS_OK, "")
    } else {
        response(STATUS_BAD_GATEWAY, "gateway tunnel failed")
    }
}

} // verus!
