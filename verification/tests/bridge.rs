use agent_gateway::bridge::{
    build_connect_request, on_gateway, on_local_request, on_tunnel, CachedSender, ConnectError,
    ConnectStage, GatewayConnector, GatewayStep, LocalStep, ResponseStep, SenderChoice, SenderStep,
};
use agent_gateway::proxy::Method;

fn connector() -> GatewayConnector {
    GatewayConnector::new(
        "127.0.0.1".to_owned(),
        8443,
        "127.0.0.1:8443".to_owned(),
        "agent-alpha".to_owned(),
    )
}

#[test]
fn connect_request_has_correct_method_and_authority() {
    let req = build_connect_request("example.com:443").unwrap();
    assert_eq!(req.method, Method::Connect);
    assert_eq!(req.authority.as_str(), "example.com:443");
}

#[test]
fn connect_request_ipv6() {
    let req = build_connect_request("[::1]:8443").unwrap();
    assert_eq!(req.authority.as_str(), "[::1]:8443");
}

#[test]
fn connect_request_needs_an_authority() {
    for text in ["", "a b", "host/path", "a:b:c"] {
        let e = build_connect_request(text).unwrap_err();
        assert!(matches!(e, ConnectError::BadUri), "{text}");
        assert_eq!(e.message(), "building CONNECT URI");
        assert!(connector().send_connect(text).is_err());
    }
}

#[test]
fn connector_knows_its_gateway() {
    let c = connector();
    assert_eq!(c.host(), "127.0.0.1");
    assert_eq!(c.port(), 8443);
    assert_eq!(c.gateway_endpoint(), "127.0.0.1:8443");
    assert_eq!(c.source_identity(), "agent-alpha");
    assert_eq!(c.connect_context(ConnectStage::Tcp), "TCP connect to 127.0.0.1:8443");
    assert_eq!(c.connect_context(ConnectStage::Tls), "TLS handshake with 127.0.0.1:8443");
    assert_eq!(c.connect_context(ConnectStage::H2), "h2 handshake with gateway");
}

#[test]
fn open_connections_are_reused() {
    let c = connector();
    assert_eq!(c.get_sender(CachedSender::Open), SenderChoice::Reuse);
    assert_eq!(c.get_sender(CachedSender::Closed), SenderChoice::ConnectFresh);
    assert_eq!(c.get_sender(CachedSender::Absent), SenderChoice::ConnectFresh);
}

fn run(outcomes: &[(Result<(), String>, Result<(), String>)]) -> (Result<(), String>, usize) {
    let mut attempt = connector().send_connect("example.com:443").unwrap();
    let mut sent = 0;
    for (i, (sender, response)) in outcomes.iter().enumerate() {
        assert_eq!(attempt.attempt() as usize, i + 1);
        assert_eq!(attempt.request().authority, "example.com:443");
        attempt = match attempt.on_sender(sender.clone()) {
            SenderStep::Send(a) => a,
            SenderStep::Failed(e) => return (Err(e.message()), sent),
        };
        sent += 1;
        attempt = match attempt.on_response(response.clone()) {
            ResponseStep::Responded => return (Ok(()), sent),
            ResponseStep::Retry(a) => a,
            ResponseStep::Failed(e) => return (Err(e.message()), sent),
        };
    }
    panic!("more attempts than expected");
}

#[test]
fn connect_is_tried_again_once() {
    let bad = |s: &str| Err(s.to_owned());
    assert_eq!(run(&[(Ok(()), Ok(()))]), (Ok(()), 1));
    assert_eq!(run(&[(Ok(()), bad("x")), (Ok(()), Ok(()))]), (Ok(()), 2));
    assert_eq!(
        run(&[(Ok(()), bad("x")), (Ok(()), bad("y"))]),
        (bad("gateway retry failed: y"), 2)
    );
    assert_eq!(run(&[(bad("no route"), Ok(()))]), (bad("no route"), 0));
    assert_eq!(
        run(&[(Ok(()), bad("x")), (bad("no route"), Ok(()))]),
        (bad("no route"), 1)
    );
}

#[test]
fn local_requests_are_forwarded_or_refused() {
    match on_local_request(Method::Connect, Some("h:1")) {
        LocalStep::Forward(a) => assert_eq!(a, "h:1"),
        LocalStep::Respond(_) => panic!("refused"),
    }
    let LocalStep::Respond(r) = on_local_request(Method::Other, Some("h:1")) else {
        panic!("forwarded");
    };
    assert_eq!((r.status, r.body.as_deref()), (405, Some("only CONNECT is supported")));
    let LocalStep::Respond(r) = on_local_request(Method::Connect, None) else {
        panic!("forwarded");
    };
    assert_eq!((r.status, r.body.as_deref()), (400, Some("missing authority")));
}

#[test]
fn gateway_answers_are_handed_on() {
    assert!(matches!(on_gateway(Some(200)), GatewayStep::Tunnel));
    let GatewayStep::Respond(r) = on_gateway(Some(403)) else {
        panic!("tunnel");
    };
    assert_eq!((r.status, r.body.as_deref()), (403, Some("gateway denied request")));
    let GatewayStep::Respond(r) = on_gateway(None) else {
        panic!("tunnel");
    };
    assert_eq!((r.status, r.body.as_deref()), (502, Some("gateway unreachable")));
    let r = on_tunnel(false);
    assert_eq!((r.status, r.body.as_deref()), (502, Some("gateway tunnel failed")));
    let r = on_tunnel(true);
    assert_eq!((r.status, r.body), (200, None));
}
