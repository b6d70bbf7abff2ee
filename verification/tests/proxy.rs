use agent_gateway::policy::PolicyDecision;
use agent_gateway::proxy::{
    response, Authority, DecisionStep, Destination, Method, ProxyService, RequestStep,
};

fn parse_dest(authority: &str) -> Result<Destination, String> {
    let authority = Authority::parse(authority)?;
    Destination::from_authority(&authority)
}

#[test]
fn proxy_dest_hostname_with_port() {
    let d = parse_dest("api.example.com:443").unwrap();
    assert_eq!(d.host, "api.example.com");
    assert_eq!(d.port, 443);
    assert_eq!(d.authority, "api.example.com:443");
}

#[test]
fn proxy_dest_hostname_without_port_defaults_443() {
    let d = parse_dest("api.example.com").unwrap();
    assert_eq!(d.host, "api.example.com");
    assert_eq!(d.port, 443);
    assert_eq!(d.authority, "api.example.com:443");
}

#[test]
fn proxy_dest_hostname_non_default_port() {
    let d = parse_dest("api.example.com:8080").unwrap();
    assert_eq!(d.host, "api.example.com");
    assert_eq!(d.port, 8080);
    assert_eq!(d.authority, "api.example.com:8080");
}

#[test]
fn proxy_dest_hostname_uppercased_is_lowered() {
    let d = parse_dest("API.EXAMPLE.COM:443").unwrap();
    assert_eq!(d.authority, "api.example.com:443");
}

#[test]
fn proxy_dest_ipv6_with_port() {
    let d = parse_dest("[::1]:8443").unwrap();
    assert_eq!(d.host, "::1");
    assert_eq!(d.port, 8443);
    assert_eq!(d.authority, "[::1]:8443");
}

#[test]
fn proxy_dest_ipv6_default_port() {
    let d = parse_dest("[::1]").unwrap();
    assert_eq!(d.host, "::1");
    assert_eq!(d.port, 443);
    assert_eq!(d.authority, "[::1]:443");
}

#[test]
fn proxy_dest_ipv6_full_address() {
    let d = parse_dest("[2001:db8::1]:443").unwrap();
    assert_eq!(d.host, "2001:db8::1");
    assert_eq!(d.port, 443);
    assert_eq!(d.authority, "[2001:db8::1]:443");
}

#[test]
fn proxy_dest_keeps_case_of_host() {
    let d = parse_dest("API.Example.com:81").unwrap();
    assert_eq!(d.host, "API.Example.com");
    assert_eq!(d.authority, "api.example.com:81");
}

#[test]
fn proxy_dest_skips_user_information() {
    let d = parse_dest("user:pw@host:81").unwrap();
    assert_eq!(d.authority, "host:81");
}

#[test]
fn proxy_dest_refuses_malformed_ports() {
    for text in ["host:", "host:99999", "[::1]:", "[::1]:65536", "u@host:99999"] {
        assert!(parse_dest(text).unwrap_err().starts_with("bad destination: invalid port in "), "{text}");
    }
    assert_eq!(
        parse_dest("host:").unwrap_err(),
        "bad destination: invalid port in \"host:\""
    );
    assert_eq!(
        parse_dest("user@[::1]:99999").unwrap_err(),
        "bad destination: invalid port in \"[::1]:99999\": number too large to fit in target type"
    );
}

#[test]
fn proxy_dest_refuses_brackets_around_names() {
    assert_eq!(
        parse_dest("[x]:443").unwrap_err(),
        "bad destination: invalid IPv6 address in \"[x]:443\""
    );
    assert_eq!(
        parse_dest("[x:y]").unwrap_err(),
        "bad destination: invalid IPv6 address in \"[x:y]:443\""
    );
}

#[test]
fn proxy_dest_faults_are_described() {
    assert_eq!(
        Destination::from_request(None).unwrap_err(),
        "CONNECT request missing authority"
    );
    assert_eq!(parse_dest(":443").unwrap_err(), "empty host in CONNECT authority");
    assert_eq!(
        parse_dest("host:0").unwrap_err(),
        "bad destination: port 0 is not valid in \"host:0\""
    );
    assert_eq!(parse_dest("[]:1").unwrap_err(), "bad destination: empty host in \":1\"");
    assert_eq!(
        Destination::from_request(Some("a b")).unwrap_err(),
        "a b".parse::<http::uri::Authority>().unwrap_err().to_string()
    );
    assert!(Authority::parse("a b").is_err());
    assert_eq!(
        Authority::parse("").unwrap_err(),
        "".parse::<http::uri::Authority>().unwrap_err().to_string()
    );
}

#[test]
fn authorities_are_split_like_http() {
    for text in [
        "host", "host:1", "[::1]", "[::1]:2", "u@h:3", "u:p@[fe80::1]:4", "a:b@c", "h:", "1.2.3.4:5",
        "h:+6", "[x]", "H.example:65536",
    ] {
        let theirs: http::uri::Authority = text.parse().unwrap();
        let ours = Authority::parse(text).unwrap();
        assert_eq!(ours.host(), theirs.host(), "{text}");
        assert_eq!(ours.port(), theirs.port_u16(), "{text}");
    }
}

#[test]
fn connect_destinations_agree_with_normalization() {
    for text in [
        "Host", "host:8080", "[::1]", "[FE80::1]:80", "host:", "host:0", "host:+7", "host:65536",
        "host:00080", "[x]", "[x]:1", "[]", "[::1]:", "[::1]x", "[::1]x:80", ":443",
    ] {
        if Authority::parse(text).is_ok() {
            assert_eq!(
                parse_dest(text).map(|d| d.authority).ok(),
                agent_gateway::policy::normalize_destination(text).ok(),
                "{text}"
            );
        }
    }
    for text in ["host:", "host:65536", "[x]:1"] {
        assert!(Authority::parse(text).is_ok(), "{text}");
    }
}

fn allow() -> PolicyDecision {
    PolicyDecision::Allow { source_identity: "agent-alpha".to_owned() }
}

fn deny() -> PolicyDecision {
    PolicyDecision::Deny { source_identity: None, reason: "secret reason".to_owned() }
}

fn status(method: Method, authority: Option<&str>, decision: &PolicyDecision, up: bool) -> (u16, Option<String>) {
    let proxy = ProxyService::new(vec![vec![1, 2, 3]]);
    let reply = match proxy.on_request(method, authority) {
        RequestStep::Respond(reply) => reply,
        RequestStep::Evaluate { ctx, destination } => {
            assert_eq!(ctx.peer_certificates, vec![vec![1, 2, 3]]);
            assert_eq!(ctx.destination, destination.authority);
            match proxy.on_decision(destination, decision) {
                DecisionStep::Respond(reply) => reply,
                DecisionStep::Connect(_) => proxy.on_upstream(up),
            }
        }
    };
    (reply.status, reply.body)
}

#[test]
fn replies_tell_what_became_of_a_request() {
    let some = |s: &str| Some(s.to_owned());
    assert_eq!(
        status(Method::Other, Some("h:1"), &allow(), true),
        (405, some("only CONNECT is supported"))
    );
    assert_eq!(
        status(Method::Connect, None, &allow(), true),
        (400, some("CONNECT request missing authority"))
    );
    assert_eq!(
        status(Method::Connect, Some("h:99999"), &allow(), true),
        (400, some("bad destination: invalid port in \"h:99999\""))
    );
    assert_eq!(status(Method::Connect, Some("a b"), &allow(), true).0, 400);
    assert_eq!(status(Method::Other, Some("a b"), &allow(), true).0, 405);
    assert_eq!(
        status(Method::Connect, Some("h:1"), &deny(), true),
        (403, some("forbidden"))
    );
    assert_eq!(
        status(Method::Connect, Some("h:1"), &allow(), false),
        (502, some("bad gateway"))
    );
    assert_eq!(status(Method::Connect, Some("h:1"), &allow(), true), (200, None));
}

#[test]
fn allowed_request_goes_to_its_destination() {
    let proxy = ProxyService::new(vec![]);
    let RequestStep::Evaluate { destination, .. } =
        proxy.on_request(Method::Connect, Some("[::1]:81"))
    else {
        panic!("not evaluated");
    };
    let DecisionStep::Connect(d) = proxy.on_decision(destination, &allow()) else {
        panic!("not connected");
    };
    assert_eq!((d.host.as_str(), d.port), ("::1", 81));
}

#[test]
fn response_ok_has_empty_body() {
    let resp = response(http::StatusCode::OK.as_u16(), "");
    assert_eq!(resp.status, http::StatusCode::OK.as_u16());
    assert_eq!(resp.body, None);
}

#[test]
fn response_error_has_status_and_body() {
    let resp = response(http::StatusCode::FORBIDDEN.as_u16(), "denied");
    assert_eq!(resp.status, http::StatusCode::FORBIDDEN.as_u16());
    assert_eq!(resp.body.as_deref(), Some("denied"));
}

#[test]
fn response_bad_gateway() {
    let resp = response(http::StatusCode::BAD_GATEWAY.as_u16(), "gateway unreachable");
    assert_eq!(resp.status, http::StatusCode::BAD_GATEWAY.as_u16());
    assert_eq!(resp.body.as_deref(), Some("gateway unreachable"));
}
