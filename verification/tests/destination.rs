use agent_gateway::destination::DestinationFault;
use agent_gateway::number::IntFault;
use agent_gateway::policy;

#[test]
fn normalize_plain_hostname_defaults_to_443() {
    assert_eq!(
        policy::normalize_destination("api.example.com").unwrap(),
        "api.example.com:443"
    );
}

#[test]
fn normalize_hostname_with_explicit_port() {
    assert_eq!(
        policy::normalize_destination("api.example.com:8080").unwrap(),
        "api.example.com:8080"
    );
}

#[test]
fn normalize_hostname_with_443() {
    assert_eq!(
        policy::normalize_destination("api.example.com:443").unwrap(),
        "api.example.com:443"
    );
}

#[test]
fn normalize_lowercases_hostname() {
    assert_eq!(
        policy::normalize_destination("API.EXAMPLE.COM:443").unwrap(),
        "api.example.com:443"
    );
    assert_eq!(
        policy::normalize_destination("API.EXAMPLE.COM").unwrap(),
        "api.example.com:443"
    );
}

#[test]
fn normalize_bracketed_ipv6_with_port() {
    assert_eq!(policy::normalize_destination("[::1]:8443").unwrap(), "[::1]:8443");
}

#[test]
fn normalize_bracketed_ipv6_without_port_defaults_to_443() {
    assert_eq!(policy::normalize_destination("[::1]").unwrap(), "[::1]:443");
}

#[test]
fn normalize_bare_ipv6_defaults_to_443() {
    assert_eq!(policy::normalize_destination("::1").unwrap(), "[::1]:443");
    assert_eq!(
        policy::normalize_destination("2001:db8::1").unwrap(),
        "[2001:db8::1]:443"
    );
}

#[test]
fn normalize_bare_ipv6_lowercases() {
    assert_eq!(policy::normalize_destination("FE80::1").unwrap(), "[fe80::1]:443");
}

#[test]
fn normalize_rejects_empty() {
    assert!(policy::normalize_destination("").is_err());
    assert!(policy::normalize_destination("  ").is_err());
}

#[test]
fn normalize_rejects_empty_bracketed_host() {
    assert!(policy::normalize_destination("[]").is_err());
    assert!(policy::normalize_destination("[]:443").is_err());
}

#[test]
fn normalize_rejects_missing_close_bracket() {
    assert!(policy::normalize_destination("[::1").is_err());
}

#[test]
fn normalize_rejects_non_numeric_port() {
    assert!(policy::normalize_destination("host:abc").is_err());
}

#[test]
fn normalize_rejects_port_zero() {
    assert!(policy::normalize_destination("host:0").is_err());
    assert!(policy::normalize_destination("[::1]:0").is_err());
}

#[test]
fn normalize_rejects_invalid_multi_colon() {
    assert!(policy::normalize_destination("foo:bar:baz").is_err());
    assert!(policy::normalize_destination("api.example.com:443:extra").is_err());
}

#[test]
fn normalize_rejects_invalid_bracketed_host() {
    assert!(policy::normalize_destination("[not-ipv6]:443").is_err());
}

#[test]
fn normalize_trims_whitespace() {
    assert_eq!(
        policy::normalize_destination("  api.example.com:443  ").unwrap(),
        "api.example.com:443"
    );
}

fn fault(dest: &str) -> (DestinationFault, String) {
    let e = policy::normalize_destination(dest).unwrap_err();
    (e.fault, e.message())
}

#[test]
fn destination_faults_are_described() {
    assert_eq!(
        fault(" \t"),
        (DestinationFault::Empty, "destination must not be empty".to_owned())
    );
    assert_eq!(
        fault(" [::1 "),
        (
            DestinationFault::MissingCloseBracket,
            "missing closing bracket in \"[::1\"".to_owned()
        )
    );
    assert_eq!(
        fault("[]:1"),
        (
            DestinationFault::EmptyBracketedHost,
            "empty host in bracketed address".to_owned()
        )
    );
    assert_eq!(
        fault("[x]"),
        (DestinationFault::InvalidIpv6, "invalid IPv6 address in \"[x]\"".to_owned())
    );
    assert_eq!(
        fault("[::1]:"),
        (
            DestinationFault::InvalidBracketedPort(IntFault::Empty),
            "invalid port in \"[::1]:\": cannot parse integer from empty string".to_owned()
        )
    );
    assert_eq!(
        fault("[::1]:99999"),
        (
            DestinationFault::InvalidBracketedPort(IntFault::TooLarge),
            "invalid port in \"[::1]:99999\": number too large to fit in target type".to_owned()
        )
    );
    assert_eq!(
        fault("[::1]:1x"),
        (
            DestinationFault::InvalidBracketedPort(IntFault::InvalidDigit),
            "invalid port in \"[::1]:1x\": invalid digit found in string".to_owned()
        )
    );
    assert_eq!(
        fault("[::1]443"),
        (
            DestinationFault::TrailingCharacters,
            "unexpected characters after bracket in \"[::1]443\"".to_owned()
        )
    );
    assert_eq!(
        fault("a:b:c"),
        (
            DestinationFault::AmbiguousColons,
            "ambiguous multi-colon destination \"a:b:c\"; use [ipv6]:port for IPv6 with port"
                .to_owned()
        )
    );
    assert_eq!(
        fault("host:"),
        (DestinationFault::InvalidPort, "invalid port in \"host:\"".to_owned())
    );
    assert_eq!(
        fault(":80"),
        (DestinationFault::EmptyHost, "empty host in \":80\"".to_owned())
    );
    assert_eq!(
        fault("host:0"),
        (DestinationFault::PortZero, "port 0 is not valid in \"host:0\"".to_owned())
    );
}

#[test]
fn normalized_destinations_are_fixed_points() {
    for dest in [
        "API.example.com", "[FE80::1]:80", "::ffff:1.2.3.4", "  Host:007 ", "x:65535", "BÜCHER.example",
        "ΣΑΣ:1", "İstanbul", "ẞ",
    ] {
        let once = policy::normalize_destination(dest).unwrap();
        assert_eq!(policy::normalize_destination(&once).unwrap(), once);
    }
    assert_eq!(policy::normalize_destination("Host:007").unwrap(), "host:7");
    assert_eq!(policy::normalize_destination("host:+80").unwrap(), "host:80");
}

#[test]
fn unicode_hosts_are_lowercased_like_std() {
    for host in ["BÜCHER.example", "ΣΑΣ", "İstanbul", "ẞ"] {
        let expected = format!("{}:443", host.to_lowercase());
        assert_eq!(policy::normalize_destination(host).unwrap(), expected);
    }
}

#[test]
fn ipv6_spellings_agree() {
    let expected = "[2001:db8::a]:443";
    for dest in ["2001:DB8::A", "[2001:db8::A]", "[2001:db8::a]:443"] {
        assert_eq!(policy::normalize_destination(dest).unwrap(), expected);
    }
}
