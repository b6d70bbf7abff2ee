use agent_gateway::certificate::OidFault;
use agent_gateway::config::{
    default_connect_timeout_ms, default_max_connections, default_pool_acquire_timeout_ms,
    default_query_timeout_ms, validate_rules, Config, ConfigFault, DatabaseSource,
    ObservabilityConfig, PolicyConfig, PolicyRule, ServerConfig,
};
use agent_gateway::observability::{otlp_endpoint, stdout_logging_enabled};
use agent_gateway::registry::check_schema_version;

fn config(listen_addr: &str, oid: &str, url: Option<&str>, env: Option<&str>) -> Config {
    Config {
        server: ServerConfig {
            listen_addr: listen_addr.to_owned(),
            tls_cert_path: "c.pem".to_owned(),
            tls_key_path: "k.pem".to_owned(),
        },
        observability: ObservabilityConfig { log_level: "info".to_owned(), otlp_endpoint: None },
        policy: PolicyConfig {
            client_ext_oid: oid.to_owned(),
            database_url: url.map(str::to_owned),
            database_url_env: env.map(str::to_owned),
            max_connections: default_max_connections(),
            connect_timeout_ms: default_connect_timeout_ms(),
            pool_acquire_timeout_ms: default_pool_acquire_timeout_ms(),
            query_timeout_ms: default_query_timeout_ms(),
        },
    }
}

const URL: Option<&str> = Some("postgres://example.invalid/agent_gateway");
const OID: &str = "1.3.6.1.4.1.57264.1.1";

#[test]
fn config_validates_oid() {
    assert!(config("0.0.0.0:8443", "not-a-valid-oid", URL, None).validate().is_err());
}

#[test]
fn config_requires_exactly_one_database_url_source() {
    let make = |url, env| config("0.0.0.0:8443", OID, url, env).validate();
    assert!(make(None, None).is_err());
    assert!(make(URL, None).is_ok());
    assert!(make(None, Some("TEST_DATABASE_URL")).is_ok());
    assert!(make(URL, Some("TEST_DATABASE_URL")).is_err());
}

#[test]
fn config_faults_come_in_order() {
    let bad = config("nowhere", "x", None, None).validate().unwrap_err();
    assert_eq!(bad, ConfigFault::ListenAddr);
    assert_eq!(
        bad.message(),
        "invalid server.listen_addr: invalid socket address syntax"
    );
    let bad = config("[::]:1", "1", None, None).validate().unwrap_err();
    assert_eq!(bad, ConfigFault::ClientExtOid(OidFault::TooShort));
    assert_eq!(bad.message(), "invalid policy.client_ext_oid: TooShort");
    let bad = config("[::]:1", "1.40", None, None).validate().unwrap_err();
    assert_eq!(bad, ConfigFault::ClientExtOid(OidFault::FirstComponentsTooLarge));
    let bad = config("[::]:1", "1.x", None, None).validate().unwrap_err();
    assert_eq!(bad.message(), "invalid policy.client_ext_oid: ParseIntError");
    let bad = config("[::]:1", "1.2", None, None).validate().unwrap_err();
    assert_eq!(bad, ConfigFault::DatabaseSource);
    assert_eq!(
        bad.message(),
        "policy must set exactly one of database_url and database_url_env"
    );
}

#[test]
fn database_source_is_the_one_that_is_set() {
    let source = config("[::]:1", OID, URL, None).policy.database_source().unwrap();
    assert!(matches!(source, DatabaseSource::Url(u) if Some(u.as_str()) == URL));
    let source = config("[::]:1", OID, None, Some("E")).policy.database_source().unwrap();
    assert!(matches!(source, DatabaseSource::Env(e) if e == "E"));
}

#[test]
fn defaults_are_documented_ones() {
    assert_eq!(default_max_connections(), 5);
    assert_eq!(default_connect_timeout_ms(), 5000);
    assert_eq!(default_pool_acquire_timeout_ms(), 1000);
    assert_eq!(default_query_timeout_ms(), 500);
}

fn rule(value: &str, destinations: &[&str]) -> PolicyRule {
    PolicyRule {
        extension_value: value.to_owned(),
        allowed_destinations: destinations.iter().map(|d| d.to_string()).collect(),
    }
}

#[test]
fn rules_are_validated_in_order() {
    assert_eq!(validate_rules(&vec![]), Ok(()));
    assert_eq!(validate_rules(&vec![rule("a", &["x", "[::1]"]), rule("b", &["y:1"])]), Ok(()));
    assert_eq!(
        validate_rules(&vec![rule("a", &["x"]), rule("", &[])]).unwrap_err(),
        "policy.rules[1].extension_value must not be empty"
    );
    assert_eq!(
        validate_rules(&vec![rule("a", &[])]).unwrap_err(),
        "policy.rules[0].allowed_destinations must not be empty"
    );
    assert_eq!(
        validate_rules(&vec![rule("a", &["ok", " :1 "])]).unwrap_err(),
        "policy.rules[0].allowed_destinations[1]: empty host in \":1\""
    );
}

#[test]
fn schema_versions_have_to_match() {
    assert_eq!(check_schema_version(1), Ok(()));
    assert_eq!(
        check_schema_version(-2).unwrap_err(),
        "authorization registry schema version -2 does not match expected 1"
    );
}

#[test]
fn stdout_logging_is_on_unless_switched_off() {
    for off in ["0", "false", "off", "no", " FALSE\n", "Off"] {
        assert!(!stdout_logging_enabled(Some(off)), "{off}");
    }
    for on in ["", "1", "true", "00", "n o", "nope"] {
        assert!(stdout_logging_enabled(Some(on)), "{on}");
    }
    assert!(stdout_logging_enabled(None));
}

#[test]
fn traces_need_an_endpoint() {
    assert_eq!(otlp_endpoint(None), None);
    assert_eq!(otlp_endpoint(Some("")), None);
    assert_eq!(otlp_endpoint(Some("http://x")), Some("http://x"));
}
