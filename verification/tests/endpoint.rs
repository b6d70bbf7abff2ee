use agent_gateway::endpoint::{format_endpoint, parse_gateway_addr, GatewayAddrFault};

#[test]
fn parse_ipv4_with_port() {
    let (host, port) = parse_gateway_addr("127.0.0.1:8443").unwrap();
    assert_eq!(host, "127.0.0.1");
    assert_eq!(port, 8443);
}

#[test]
fn parse_hostname_with_port() {
    let (host, port) = parse_gateway_addr("gateway.example.com:443").unwrap();
    assert_eq!(host, "gateway.example.com");
    assert_eq!(port, 443);
}

#[test]
fn parse_ipv6_with_port() {
    let (host, port) = parse_gateway_addr("[::1]:8443").unwrap();
    assert_eq!(host, "::1");
    assert_eq!(port, 8443);
}

#[test]
fn format_endpoint_brackets_ipv6() {
    assert_eq!(format_endpoint("127.0.0.1", 8443), "127.0.0.1:8443");
    assert_eq!(format_endpoint("::1", 8443), "[::1]:8443");
}

#[test]
fn parse_rejects_missing_port() {
    assert!(parse_gateway_addr("127.0.0.1").is_err());
}

#[test]
fn parse_rejects_empty() {
    assert!(parse_gateway_addr("").is_err());
}

#[test]
fn parse_rejects_bad_port() {
    assert!(parse_gateway_addr("host:notaport").is_err());
}

#[test]
fn parse_ipv6_missing_bracket() {
    assert!(parse_gateway_addr("[::1:8443").is_err());
}

#[test]
fn parse_ipv6_missing_port() {
    assert!(parse_gateway_addr("[::1]").is_err());
}

#[test]
fn parse_rejects_empty_host() {
    assert!(parse_gateway_addr(":443").is_err());
}

#[test]
fn parse_rejects_empty_bracketed_host() {
    assert!(parse_gateway_addr("[]:443").is_err());
}

#[test]
fn gateway_addr_faults_are_told_apart() {
    assert_eq!(parse_gateway_addr("[::1:8443"), Err(GatewayAddrFault::MissingCloseBracket));
    assert_eq!(parse_gateway_addr("[]:443"), Err(GatewayAddrFault::EmptyHost));
    assert_eq!(parse_gateway_addr("[::1]"), Err(GatewayAddrFault::MissingPort));
    assert_eq!(parse_gateway_addr("[::1]x1"), Err(GatewayAddrFault::MissingPort));
    assert_eq!(parse_gateway_addr("[::1]:65536"), Err(GatewayAddrFault::InvalidPort));
    assert_eq!(parse_gateway_addr("host:"), Err(GatewayAddrFault::InvalidPort));
    assert_eq!(parse_gateway_addr("host"), Err(GatewayAddrFault::NotHostPort));
}

#[test]
fn gateway_addr_faults_are_described() {
    assert_eq!(
        GatewayAddrFault::NotHostPort.message("a\"b"),
        "gateway address must be host:port, got \"a\\\"b\""
    );
    assert_eq!(GatewayAddrFault::InvalidPort.message("x"), "invalid port");
    assert_eq!(GatewayAddrFault::EmptyHost.message("x"), "empty host in gateway address");
    assert_eq!(
        GatewayAddrFault::MissingPort.message("x"),
        "missing port after IPv6 address"
    );
    assert_eq!(
        GatewayAddrFault::MissingCloseBracket.message("x"),
        "missing closing ']' in IPv6 address"
    );
}

#[test]
fn gateway_addr_is_read_back_from_endpoint() {
    for (host, port) in [("gateway.example.com", 1u16), ("::1", 65535), ("10.0.0.1", 0)] {
        let (h, p) = parse_gateway_addr(&format_endpoint(host, port)).unwrap();
        assert_eq!((h.as_str(), p), (host, port));
    }
}
