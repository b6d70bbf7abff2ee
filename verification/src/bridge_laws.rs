//! What every CONNECT request of the sidecar comes to.

use vstd::prelude::*;

use crate::bridge::{
    build_connect_request, gateway_refusal, on_gateway, on_local_request, on_tunnel, tunnel_reply,
    uri_refused, AttemptView, CachedSender, ConnectAttempt, ConnectError, ConnectErrorView,
    ConnectRequest, ConnectStage, GatewayConnector, GatewayStep, LocalStep, ResponseStep, ResponseStepView,
    SenderChoice, SenderStep, SenderStepView,
};
use crate::number::decimal;
use crate::proxy::{Method, Reply, STATUS_BAD_GATEWAY, STATUS_OK};

verus! {

/// What happens on one attempt: whether there is a connection, and whether the
/// request that is sent over it gets a response.
pub struct AttemptEvents {
    pub sender: Result<(), Seq<char>>,
    pub response: Result<(), Seq<char>>,
}

/// The outcome of a CONNECT request from an attempt on, and how often it was
/// sent, given what happens on this attempt and on the one after it.
pub open spec fn connect_outcome(
    attempt: AttemptView,
    now: AttemptEvents,
    later: AttemptEvents,
) -> (Result<(), ConnectErrorView>, nat)
    decreases (if attempt.retried {
        0nat
    } else {
        1nat
    }),
{
    match attempt.after_sender(now.sender) {
        SenderStepView::Failed(e) => (Err(e), 0),
        SenderStepView::Send(sent) => match sent.after_response(now.response) {
            ResponseStepView::Responded => (Ok(()), 1),
            ResponseStepView::Failed(e) => (Err(e), 1),
            ResponseStepView::Retry(next) => {
                let (outcome, times) = connect_outcome(next, later, later);
                (outcome, times + 1)
            },
        },
    }
}

/// A CONNECT request is sent at most twice. It gets a response exactly where
/// the first attempt does, or where it was sent, failed, and the second
/// attempt gets one.
pub proof fn law_connect_is_sent_at_most_twice(
    authority: Seq<char>,
    first: AttemptEvents,
    second: AttemptEvents,
)
    ensures
        ({
            let start = AttemptView { authority, retried: false };
            let (outcome, times) = connect_outcome(start, first, second);
            &&& times <= 2
            &&& outcome is Ok <==> first.sender is Ok && (first.response is Ok || (
            second.sender is Ok && second.response is Ok))
            &&& times == 0 <==> first.sender is Err
        }),
{
    reveal_with_fuel(connect_outcome, 3);
}

/// The local client is told of a tunnel only where the gateway granted one
/// and it was taken over. A status with which the gateway refuses is handed
/// on as it is.
pub proof fn law_gateway_status_is_handed_on(status: Option<u16>, taken_over: bool)
    ensures
        ({
            let reply = match gateway_refusal(status) {
                Some(reply) => reply,
                None => tunnel_reply(taken_over),
            };
            &&& status is Some && status != Some(STATUS_OK) ==> reply.status == status->0
            &&& status is None ==> reply.status == STATUS_BAD_GATEWAY
            &&& reply.status == STATUS_OK <==> status == Some(STATUS_OK) && taken_over
        }),
{
}

// ---------------------------------------------------------------------
// What is sent
// ---------------------------------------------------------------------

/// The authorities of the requests that are sent for a CONNECT request from an
/// attempt on, in order.
pub open spec fn sent_authorities(
    attempt: AttemptView,
    now: AttemptEvents,
    later: AttemptEvents,
) -> Seq<Seq<char>>
    decreases (if attempt.retried {
        0nat
    } else {
        1nat
    }),
{
    match attempt.after_sender(now.sender) {
        SenderStepView::Failed(_) => Seq::empty(),
        SenderStepView::Send(sent) => match sent.after_response(now.response) {
            ResponseStepView::Retry(next) => if next.retried && !attempt.retried {
                seq![sent.authority] + sent_authorities(next, later, later)
            } else {
                seq![sent.authority, next.authority]
            },
            _ => seq![sent.authority],
        },
    }
}

/// Every request that is sent for one CONNECT request, the second one too,
/// names the authority that was asked for.
pub proof fn law_every_request_names_the_authority(
    attempt: AttemptView,
    first: AttemptEvents,
    second: AttemptEvents,
)
    ensures
        forall|i: int|
            0 <= i < sent_authorities(attempt, first, second).len() ==> #[trigger] sent_authorities(
                attempt,
                first,
                second,
            )[i] == attempt.authority,
        sent_authorities(attempt, first, second).len() <= 2,
{
    reveal_with_fuel(sent_authorities, 3);
}

/// An attempt is sent as it is where there is a connection, and is given up
/// with the reason where there is none.
pub proof fn law_attempt_is_sent(attempt: ConnectAttempt, sender: Result<(), String>, r: SenderStep)
    requires
        call_ensures(ConnectAttempt::on_sender, (attempt, sender), r),
    ensures
        sender is Ok ==> (r matches SenderStep::Send(sent) && sent@.authority
            == attempt@.authority && sent@.retried == attempt@.retried),
        sender matches Err(e) ==> (r matches SenderStep::Failed(ConnectError::NoSender(reason))
            && reason@ == e@),
{
    match r {
        SenderStep::Send(_) => {},
        SenderStep::Failed(e) => match e {
            ConnectError::NoSender(_) => {},
            _ => {},
        },
    }
}

/// A response ends the attempts. After a failure the same authority is asked
/// for once more, and after a second failure it is given up with the reason.
pub proof fn law_attempt_is_repeated_once(
    attempt: ConnectAttempt,
    response: Result<(), String>,
    r: ResponseStep,
)
    requires
        call_ensures(ConnectAttempt::on_response, (attempt, response), r),
    ensures
        response is Ok ==> r is Responded,
        response is Err && !attempt@.retried ==> (r matches ResponseStep::Retry(next)
            && next@.authority == attempt@.authority && next@.retried),
        response matches Err(e) ==> attempt@.retried ==> (r matches ResponseStep::Failed(
            ConnectError::RetryFailed(reason),
        ) && reason@ == e@),
{
    match r {
        ResponseStep::Failed(e) => match e {
            ConnectError::RetryFailed(_) => {},
            _ => {},
        },
        _ => {},
    }
}

/// The request of an attempt is a CONNECT for its authority, and attempts are
/// counted from one.
pub proof fn law_request_of_attempt(attempt: ConnectAttempt, request: &ConnectRequest, count: u32)
    requires
        call_ensures(ConnectAttempt::request, (&attempt,), request),
        call_ensures(ConnectAttempt::attempt, (&attempt,), count),
    ensures
        request.method == Method::Connect,
        request.authority@ == attempt@.authority,
        count == 1 <==> !attempt@.retried,
        count == 2 <==> attempt@.retried,
{
}

/// A CONNECT request starts with the authority that was asked for, unless
/// that makes no URI.
pub proof fn law_connect_starts_with_the_authority(
    connector: GatewayConnector,
    authority: &str,
    r: Result<ConnectAttempt, ConnectError>,
)
    requires
        call_ensures(GatewayConnector::send_connect, (&connector, authority), r),
    ensures
        r is Ok <==> !uri_refused(authority@),
        r matches Ok(attempt) ==> attempt@.authority == authority@ && !attempt@.retried,
        r is Err ==> r->Err_0 is BadUri,
{
    if let Err(e) = r {
        match e {
            ConnectError::BadUri => {},
            _ => {},
        }
    }
}

/// A request for an authority is a CONNECT that names it.
pub proof fn law_request_names_the_authority(
    authority: &str,
    r: Result<ConnectRequest, ConnectError>,
)
    requires
        call_ensures(build_connect_request, (authority,), r),
    ensures
        r is Ok <==> !uri_refused(authority@),
        r matches Ok(request) ==> request.method == Method::Connect && request.authority@
            == authority@,
{
}

/// The last connection is used again exactly where it is open.
pub proof fn law_open_connection_is_used(
    connector: GatewayConnector,
    cached: CachedSender,
    r: SenderChoice,
)
    requires
        call_ensures(GatewayConnector::get_sender, (&connector, cached), r),
    ensures
        r == SenderChoice::Reuse <==> cached == CachedSender::Open,
{
}

/// A connector keeps what it was made with.
pub proof fn law_connector_keeps_its_parts(
    host: String,
    port: u16,
    endpoint: String,
    identity: String,
    connector: GatewayConnector,
    host_again: &str,
    port_again: u16,
    endpoint_again: &str,
    identity_again: &str,
)
    requires
        call_ensures(GatewayConnector::new, (host, port, endpoint, identity), connector),
        call_ensures(GatewayConnector::host, (&connector,), host_again),
        call_ensures(GatewayConnector::port, (&connector,), port_again),
        call_ensures(GatewayConnector::gateway_endpoint, (&connector,), endpoint_again),
        call_ensures(GatewayConnector::source_identity, (&connector,), identity_again),
    ensures
        host_again@ == host@,
        port_again == port,
        endpoint_again@ == endpoint@,
        identity_again@ == identity@,
{
}

// ---------------------------------------------------------------------
// What the local client is told
// ---------------------------------------------------------------------

/// A CONNECT request with an authority is forwarded for that authority; every
/// other request is answered at once, with 405 or 400.
pub proof fn law_local_request(method: Method, authority: Option<&str>, r: LocalStep)
    requires
        call_ensures(on_local_request, (method, authority), r),
    ensures
        r is Forward <==> method == Method::Connect && authority is Some,
        r matches LocalStep::Forward(a) ==> a@ == authority->0@,
        r matches LocalStep::Respond(answer) ==> answer.body is Some && (
        if method == Method::Connect {
            answer.status == 400 && answer.body->0@ == "missing authority"@
        } else {
            answer.status == 405 && answer.body->0@ == "only CONNECT is supported"@
        }),
{
    reveal_strlit("missing authority");
    reveal_strlit("only CONNECT is supported");
}

/// A tunnel is taken over exactly where the gateway answers 200. Any other
/// status is handed on, and 502 stands for no answer; the local client is
/// told which of the two it was.
pub proof fn law_gateway_answer(status: Option<u16>, r: GatewayStep)
    requires
        call_ensures(on_gateway, (status,), r),
    ensures
        r is Tunnel <==> status == Some(200u16),
        r matches GatewayStep::Respond(answer) ==> {
            &&& status is Some ==> answer.status == status->0 && answer.body is Some
                && answer.body->0@ == "gateway denied request"@
            &&& status is None ==> answer.status == 502 && answer.body is Some && answer.body->0@
                == "gateway unreachable"@
        },
{
    reveal_strlit("gateway denied request");
    reveal_strlit("gateway unreachable");
}

/// The local client is told of a tunnel exactly where it was taken over.
pub proof fn law_tunnel_answer(taken_over: bool, r: Reply)
    requires
        call_ensures(on_tunnel, (taken_over,), r),
    ensures
        taken_over ==> r.status == 200 && r.body is None,
        !taken_over ==> r.status == 502 && r.body is Some && r.body->0@ == "gateway tunnel failed"@,
{
    reveal_strlit("");
    reveal_strlit("gateway tunnel failed");
}

/// What is said where a connection cannot be made: what failed, and with which
/// host and port.
pub proof fn law_connection_failure_is_explained(
    connector: GatewayConnector,
    stage: ConnectStage,
    r: String,
)
    requires
        call_ensures(GatewayConnector::connect_context, (&connector, stage), r),
    ensures
        stage == ConnectStage::Tcp ==> r@ == "TCP connect to "@ + (connector@.host + seq![':']
            + decimal(connector@.port as nat)),
        stage == ConnectStage::Tls ==> r@ == "TLS handshake with "@ + (connector@.host + seq![':']
            + decimal(connector@.port as nat)),
        stage == ConnectStage::H2 ==> r@ == "h2 handshake with gateway"@,
{
}

/// What is said where a request gets no response.
pub proof fn law_connect_error_is_explained(e: ConnectError, r: String)
    requires
        call_ensures(ConnectError::message, (&e,), r),
    ensures
        match e {
            ConnectError::BadUri => r@ == "building CONNECT URI"@,
            ConnectError::NoSender(reason) => r@ == reason@,
            ConnectError::RetryFailed(reason) => r@ == "gateway retry failed: "@ + reason@,
        },
{
}

} // verus!
