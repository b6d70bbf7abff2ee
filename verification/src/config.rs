//! The configuration of the gateway, and what makes it valid.

use vstd::prelude::*;

use crate::address::{is_socket_addr, socket_addr_text};
use crate::certificate::{dotted_oid, parse_client_ext_oid, OidFault};
use crate::destination::{normalize_destination, normalized};
use crate::number::{decimal, decimal_text};
use crate::text::{chars_of, trimmed};

verus! {

/// The configuration.
#[derive(Debug)]
pub struct Config {
    pub server: ServerConfig,
    pub observability: ObservabilityConfig,
    pub policy: PolicyConfig,
}

/// Where the gateway listens, and with which certificate.
#[derive(Debug)]
pub struct ServerConfig {
    pub listen_addr: String,
    pub tls_cert_path: String,
    pub tls_key_path: String,
}

/// What the gateway logs, and where it sends traces.
#[derive(Debug)]
pub struct ObservabilityConfig {
    pub log_level: String,
    pub otlp_endpoint: Option<String>,
}

/// Where a client's identity stands, and how the registry is reached.
#[derive(Debug)]
pub struct PolicyConfig {
    pub client_ext_oid: String,
    pub database_url: Option<String>,
    pub database_url_env: Option<String>,
    pub max_connections: u32,
    pub connect_timeout_ms: u64,
    pub pool_acquire_timeout_ms: u64,
    pub query_timeout_ms: u64,
}

/// How many connections to the registry there are at most, by default.
pub fn default_max_connections() -> (r: u32)
    ensures
        r == 5,
{
    5
}

/// How many milliseconds connecting to the registry may take, by default.
pub fn default_connect_timeout_ms() -> (r: u64)
    ensures
        r == 5000,
{
    5000
}

/// How many milliseconds an authorization waits for a connection, by default.
pub fn default_pool_acquire_timeout_ms() -> (r: u64)
    ensures
        r == 1000,
{
    1000
}

/// How many milliseconds a lookup may take, by default.
pub fn default_query_timeout_ms() -> (r: u64)
    ensures
        r == 500,
{
    500
}

/// Where the URL of the registry comes from.
#[derive(Debug)]
pub enum DatabaseSource {
    /// This is it.
    Url(String),
    /// From the environment variable with this name.
    Env(String),
}

/// Why a configuration is not valid.
#[derive(Clone, Copy, Debug, PartialEq, Eq, Structural)]
pub enum ConfigFault {
    /// The address to listen on is not a socket address.
    ListenAddr,
    /// The identifier of the extension is not an object identifier.
    ClientExtOid(OidFault),
    /// The URL of the registry comes from nowhere, or from two places.
    DatabaseSource,
}

impl ConfigFault {
    /// The text that describes the fault.
    pub open spec fn text(self) -> Seq<char> {
        match self {
            ConfigFault::ListenAddr =>
                "invalid server.listen_addr: invalid socket address syntax"@,
            ConfigFault::ClientExtOid(e) => e.text(),
            ConfigFault::DatabaseSource =>
                "policy must set exactly one of database_url and database_url_env"@,
        }
    }

    /// Describes the fault.
    pub fn message(&self) -> (r: &'static str)
        ensures
            r@ == self.text(),
    {
        match self {
            ConfigFault::ListenAddr => "invalid server.listen_addr: invalid socket address syntax",
            ConfigFault::ClientExtOid(e) => e.message(),
            ConfigFault::DatabaseSource =>
                "policy must set exactly one of database_url and database_url_env",
        }
    }
}

impl PolicyConfig {
    /// Whether the URL of the registry comes from exactly one place.
    pub open spec fn has_one_source(self) -> bool {
        self.database_url is Some != self.database_url_env is Some
    }

    /// Where the URL of the registry comes from.
    pub fn database_source(&self) -> (r: Result<DatabaseSource, ConfigFault>)
        ensures
            match r {
                Ok(DatabaseSource::Url(url)) => self.has_one_source() && self.database_url is Some
                    && url@ == self.database_url->0@,
                Ok(DatabaseSource::Env(name)) => self.has_one_source()
                    && self.database_url_env is Some && name@ == self.database_url_env->0@,
                Err(e) => !self.has_one_source() && e == ConfigFault::DatabaseSource,
            },
    {
        match (&self.database_url, &self.database_url_env) {
            (Some(url), None) => Ok(DatabaseSource::Url(url.clone())),
            (None, Some(name)) => Ok(DatabaseSource::Env(name.clone())),
            _ => Err(ConfigFault::DatabaseSource),
        }
    }
}

/// The first fault of a configuration.
pub open spec fn config_fault(config: Config) -> Option<ConfigFault> {
    if !is_socket_addr(config.server.listen_addr@) {
        Some(ConfigFault::ListenAddr)
    } else {
        match dotted_oid(config.policy.client_ext_oid@) {
            Err(e) => Some(ConfigFault::ClientExtOid(e)),
            Ok(_) => if !config.policy.has_one_source() {
                Some(ConfigFault::DatabaseSource)
            } else {
                None
            },
        }
    }
}

impl Config {
    /// Accepts a valid configuration.
    pub fn validate(&self) -> (r: Result<(), ConfigFault>)
        ensures
            match r {
                Ok(_) => config_fault(*self) is None,
                Err(e) => config_fault(*self) == Some(e),
            },
    {
        let listen_addr = chars_of(self.server.listen_addr.as_str());
        if !socket_addr_text(listen_addr.as_slice()) {
            return Err(ConfigFault::ListenAddr);
        }
        match parse_client_ext_oid(self.policy.client_ext_oid.as_str()) {
            Ok(_) => {},
            Err(e) => return Err(ConfigFault::ClientExtOid(e)),
        }
        match self.policy.database_source() {
            Ok(_) => Ok(()),
            Err(e) => Err(e),
        }
    }
}

// ---------------------------------------------------------------------
// Rules
// ---------------------------------------------------------------------

/// A rule: the clients with an identity may reach some destinations.
#[derive(Debug)]
pub struct PolicyRule {
    pub extension_value: String,
    pub allowed_destinations: Vec<String>,
}

/// The name of a rule in messages.
pub open spec fn rule_name(i: nat) -> Seq<char> {
    "policy.rules["@ + decimal(i) + "]."@
}

/// The first error among the destinations of a rule, from the one at `j` on.
pub open spec fn destinations_error(destinations: Seq<String>, i: nat, j: int) -> Option<Seq<char>>
    decreases destinations.len() - j,
{
    if j >= destinations.len() {
        None
    } else {
        match normalized(destinations[j]@) {
            Err(fault) => Some(
                rule_name(i) + "allowed_destinations["@ + decimal(j as nat) + "]: "@ + fault.text(
                    trimmed(destinations[j]@),
                ),
            ),
            Ok(_) => destinations_error(destinations, i, j + 1),
        }
    }
}

/// The first error of a rule.
pub open spec fn rule_error(rule: PolicyRule, i: nat) -> Option<Seq<char>> {
    if rule.extension_value@.len() == 0 {
        Some(rule_name(i) + "extension_value must not be empty"@)
    } else if rule.allowed_destinations@.len() == 0 {
        Some(rule_name(i) + "allowed_destinations must not be empty"@)
    } else {
        destinations_error(rule.allowed_destinations@, i, 0)
    }
}

/// The first error of the rules from the one at `i` on.
pub open spec fn rules_error(rules: Seq<PolicyRule>, i: int) -> Option<Seq<char>>
    decreases rules.len() - i,
{
    if i >= rules.len() {
        None
    } else {
        match rule_error(rules[i], i as nat) {
            Some(e) => Some(e),
            None => rules_error(rules, i + 1),
        }
    }
}

/// An outcome, or the text of an error.
pub open spec fn error_of(r: Result<(), String>) -> Option<Seq<char>> {
    match r {
        Ok(_) => None,
        Err(e) => Some(e@),
    }
}

/// Writes the name of a rule.
fn rule_prefix(i: usize) -> (r: String)
    ensures
        r@ == rule_name(i as nat),
{
    let digits = decimal_text(i as u64);
    "policy.rules[".to_owned().concat(digits.as_str()).concat("].")
}

/// Accepts destinations that all have a canonical form.
fn validate_destinations(destinations: &Vec<String>, i: usize) -> (r: Result<(), String>)
    ensures
        error_of(r) == destinations_error(destinations@, i as nat, 0),
{
    let mut j: usize = 0;
    while j < destinations.len()
        invariant
            j <= destinations@.len(),
            destinations_error(destinations@, i as nat, 0) == destinations_error(
                destinations@,
                i as nat,
                j as int,
            ),
        decreases destinations.len() - j,
    {
        match normalize_destination(destinations[j].as_str()) {
            Ok(_) => {},
            Err(e) => {
                let name = rule_prefix(i);
                let digits = decimal_text(j as u64);
                let text = e.message();
                return Err(
                    name.concat("allowed_destinations[").concat(digits.as_str()).concat(
                        "]: ",
                    ).concat(text.as_str()),
                );
            },
        }
        j = j + 1;
    }
    Ok(())
}

/// Accepts rules that each name an identity and at least one destination, and
/// whose destinations all have a canonical form.
pub fn validate_rules(rules: &Vec<PolicyRule>) -> (r: Result<(), String>)
    ensures
        error_of(r) == rules_error(rules@, 0),
{
    let mut i: usize = 0;
    while i < rules.len()
        invariant
            i <= rules@.len(),
            rules_error(rules@, 0) == rules_error(rules@, i as int),
        decreases rules.len() - i,
    {
        let rule = &rules[i];
        if rule.extension_value.as_str().is_empty() {
            let name = rule_prefix(i);
            return Err(name.concat("extension_value must not be empty"));
        }
        if rule.allowed_destinations.len() == 0 {
            let name = rule_prefix(i);
            return Err(name.concat("allowed_destinations must not be empty"));
        }
        match validate_destinations(&rule.allowed_destinations, i) {
            Ok(_) => {},
            Err(e) => return Err(e),
        }
        i = i + 1;
    }
    Ok(())
}

// ---------------------------------------------------------------------
// Laws
// ---------------------------------------------------------------------

/// A configuration is valid exactly where it listens on a socket address,
/// names an object identifier, and takes the URL of the registry from exactly
/// one place.
pub proof fn law_config_is_valid_iff(config: Config)
    ensures
        config_fault(config) is None <==> {
            &&& is_socket_addr(config.server.listen_addr@)
            &&& dotted_oid(config.policy.client_ext_oid@) is Ok
            &&& config.policy.database_url is Some <==> config.policy.database_url_env is None
        },
{
}

/// Whether a rule names an identity and destinations that all have a
/// canonical form.
pub open spec fn is_valid_rule(rule: PolicyRule) -> bool {
    &&& rule.extension_value@.len() > 0
    &&& rule.allowed_destinations@.len() > 0
    &&& forall|j: int|
        0 <= j < rule.allowed_destinations@.len() ==> normalized(
            (#[trigger] rule.allowed_destinations@[j])@,
        ) is Ok
}

proof fn lemma_destinations_error(destinations: Seq<String>, i: nat, j: int)
    requires
        0 <= j,
    ensures
        destinations_error(destinations, i, j) is None <==> (forall|k: int|
            j <= k < destinations.len() ==> normalized((#[trigger] destinations[k])@) is Ok),
    decreases destinations.len() - j,
{
    if j < destinations.len() {
        lemma_destinations_error(destinations, i, j + 1);
        if destinations_error(destinations, i, j) is None {
            assert forall|k: int| j <= k < destinations.len() implies normalized(
                (#[trigger] destinations[k])@,
            ) is Ok by {}
        } else {
            if normalized(destinations[j]@) is Ok {
                assert(destinations_error(destinations, i, j + 1) is Some);
            }
        }
    }
}

proof fn lemma_rules_error(rules: Seq<PolicyRule>, i: int)
    requires
        0 <= i,
    ensures
        rules_error(rules, i) is None <==> (forall|k: int|
            i <= k < rules.len() ==> is_valid_rule(#[trigger] rules[k])),
    decreases rules.len() - i,
{
    if i < rules.len() {
        lemma_rules_error(rules, i + 1);
        lemma_destinations_error(rules[i].allowed_destinations@, i as nat, 0);
        assert(rule_error(rules[i], i as nat) is None <==> is_valid_rule(rules[i]));
    }
}

/// Rules are accepted exactly where each of them is valid.
pub proof fn law_rules_are_valid_iff(rules: Seq<PolicyRule>)
    ensures
        rules_error(rules, 0) is None <==> (forall|i: int|
            0 <= i < rules.len() ==> is_valid_rule(#[trigger] rules[i])),
{
    lemma_rules_error(rules, 0);
}

} // verus!
