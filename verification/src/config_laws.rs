//! Which settings are accepted, part by part.

use vstd::prelude::*;

use crate::address::split_on;
use crate::address_laws::{
    is_listen_address, law_put_together_is_split, law_socket_addr, put_together,
};
use crate::certificate::{dotted_arcs, parse_client_ext_oid, ClientExtOid, OidFault};
use crate::config::{
    destinations_error, is_valid_rule, law_rules_are_valid_iff, rules_error, validate_rules, Config,
    ConfigFault, DatabaseSource, PolicyConfig, PolicyRule,
};
use crate::der::arcs_octets;
use crate::destination::normalized;
use crate::number::{decimal, signed_decimal, unsigned_value};
use crate::number_laws::{all_digits, law_number_is_read, said, unsigned_digits};
use crate::observability::{otlp_endpoint, stdout_logging_enabled};
use crate::registry::check_schema_version;
use crate::text::{ascii_lowercase, trimmed};

verus! {

// ---------------------------------------------------------------------
// Object identifiers
// ---------------------------------------------------------------------

/// Whether a text is an arc of an object identifier: digits, perhaps after a
/// plus sign, that say a number of at most sixty-four bits.
pub open spec fn is_arc(s: Seq<char>) -> bool {
    let digits = unsigned_digits(s);
    digits.len() > 0 && all_digits(digits, 10) && said(digits, 10) <= u64::MAX
}

/// The number that an arc says.
pub open spec fn arc(s: Seq<char>) -> nat {
    said(unsigned_digits(s), 10) as nat
}

proof fn lemma_arcs(s: Seq<char>)
    ensures
        ({
            let pieces = split_on(s, '.');
            &&& dotted_arcs(pieces) is Some <==> forall|i: int|
                0 <= i < pieces.len() ==> is_arc(#[trigger] pieces[i])
            &&& dotted_arcs(pieces) matches Some(arcs) ==> arcs == pieces.map_values(
                |p: Seq<char>| arc(p),
            )
        }),
{
    let pieces = split_on(s, '.');
    assert forall|i: int| 0 <= i < pieces.len() implies (is_arc(#[trigger] pieces[i])
        <==> unsigned_value(pieces[i], 10, u64::MAX as int) is Ok) by {
        law_number_is_read(pieces[i], 10, u64::MAX as int);
    }
    if let Some(arcs) = dotted_arcs(pieces) {
        let said_arcs = pieces.map_values(|p: Seq<char>| arc(p));
        assert forall|i: int| 0 <= i < pieces.len() implies arcs[i] == said_arcs[i] by {
            assert(unsigned_value(pieces[i], 10, u64::MAX as int) is Ok);
            law_number_is_read(pieces[i], 10, u64::MAX as int);
        }
        assert(arcs =~= said_arcs);
    } else {
        let i = choose|i: int|
            0 <= i < pieces.len() && unsigned_value(
                #[trigger] pieces[i],
                10,
                u64::MAX as int,
            ) is Err;
        assert(!is_arc(pieces[i]));
    }
}

/// A text is an object identifier exactly where it is arcs with dots between
/// them, at least two, the first up to six and the second up to thirty-nine;
/// or a lone zero. Its octets are one for the first two arcs, then those of
/// the others.
pub proof fn law_object_identifier_is_read(
    value: &str,
    pieces: Seq<Seq<char>>,
    r: Result<ClientExtOid, OidFault>,
)
    requires
        call_ensures(parse_client_ext_oid, (value,), r),
        pieces.len() > 0,
        forall|i: int| 0 <= i < pieces.len() ==> !(#[trigger] pieces[i]).contains('.'),
        value@ == put_together(pieces, '.'),
    ensures
        r is Ok <==> {
            &&& forall|i: int| 0 <= i < pieces.len() ==> is_arc(#[trigger] pieces[i])
            &&& {
                ||| pieces.len() >= 2 && arc(pieces[0]) <= 6 && arc(pieces[1]) <= 39
                ||| pieces.len() == 1 && arc(pieces[0]) == 0
            }
        },
        r is Ok && pieces.len() >= 2 ==> (r->Ok_0)@ == seq![
            ((arc(pieces[0]) * 40 + arc(pieces[1])) % 256) as u8,
        ] + arcs_octets(pieces.skip(2).map_values(|p: Seq<char>| arc(p))),
        r is Ok && pieces.len() == 1 ==> (r->Ok_0)@ == seq![0u8],
        r is Err ==> r->Err_0 == (if exists|i: int|
            0 <= i < pieces.len() && !is_arc(#[trigger] pieces[i]) {
            OidFault::ParseIntError
        } else if pieces.len() == 1 {
            OidFault::TooShort
        } else {
            OidFault::FirstComponentsTooLarge
        }),
{
    law_put_together_is_split(pieces, '.');
    lemma_arcs(value@);
    if let Some(arcs) = dotted_arcs(pieces) {
        assert(arcs.len() == pieces.len());
        assert(arcs[0] == arc(pieces[0]));
        if pieces.len() == 1 {
            if arc(pieces[0]) == 0 {
                assert(arcs =~= seq![0nat]);
            } else {
                assert(arcs[0] != seq![0nat][0]);
            }
        } else {
            assert(arcs[1] == arc(pieces[1]));
            assert(arcs.skip(2) =~= pieces.skip(2).map_values(|p: Seq<char>| arc(p)));
        }
    }
}

// ---------------------------------------------------------------------
// Configurations
// ---------------------------------------------------------------------

/// A configuration is accepted exactly where its address to listen on is a
/// socket address, its identifier is one, and exactly one of the two places
/// gives the URL of the registry. The first of these that fails is named.
pub proof fn law_configuration_is_accepted(
    config: Config,
    oid: Result<ClientExtOid, OidFault>,
    text: &str,
    r: Result<(), ConfigFault>,
)
    requires
        call_ensures(Config::validate, (&config,), r),
        text@ == config.policy.client_ext_oid@,
        call_ensures(parse_client_ext_oid, (text,), oid),
    ensures
        r is Ok <==> is_listen_address(config.server.listen_addr@) && oid is Ok && (
        config.policy.database_url is Some <==> config.policy.database_url_env is None),
        r == Err::<(), ConfigFault>(ConfigFault::ListenAddr) <==> !is_listen_address(
            config.server.listen_addr@,
        ),
        is_listen_address(config.server.listen_addr@) ==> (oid matches Err(e) ==> r == Err::<
            (),
            ConfigFault,
        >(ConfigFault::ClientExtOid(e))),
        r is Err && is_listen_address(config.server.listen_addr@) && oid is Ok ==> r == Err::<
            (),
            ConfigFault,
        >(ConfigFault::DatabaseSource),
{
    law_socket_addr(config.server.listen_addr@);
}

/// The URL of the registry comes from the one place that is set; where none
/// is, or both are, it comes from nowhere.
pub proof fn law_database_source(config: PolicyConfig, r: Result<DatabaseSource, ConfigFault>)
    requires
        call_ensures(PolicyConfig::database_source, (&config,), r),
    ensures
        r is Ok <==> (config.database_url is Some <==> config.database_url_env is None),
        r matches Ok(DatabaseSource::Url(url)) ==> config.database_url is Some && url@
            == config.database_url->0@,
        r matches Ok(DatabaseSource::Env(name)) ==> config.database_url_env is Some && name@
            == config.database_url_env->0@,
        r is Err ==> r->Err_0 == ConfigFault::DatabaseSource,
{
}

/// Rules are accepted exactly where each names an identity and at least one
/// destination, and all its destinations have a canonical form.
pub proof fn law_rules_are_accepted(rules: Vec<PolicyRule>, r: Result<(), String>)
    requires
        call_ensures(validate_rules, (&rules,), r),
    ensures
        r is Ok <==> forall|i: int|
            0 <= i < rules@.len() ==> {
                &&& (#[trigger] rules@[i]).extension_value@.len() > 0
                &&& rules@[i].allowed_destinations@.len() > 0
                &&& forall|j: int|
                    0 <= j < rules@[i].allowed_destinations@.len() ==> normalized(
                        (#[trigger] rules@[i].allowed_destinations@[j])@,
                    ) is Ok
            },
{
    law_rules_are_valid_iff(rules@);
}

/// The first rule that is not accepted is named by its position, with what is
/// wrong with it: that it names no identity, or else no destination, or else
/// its first destination without a canonical form.
pub proof fn law_first_bad_rule_is_named(
    rules: Vec<PolicyRule>,
    i: int,
    j: int,
    r: Result<(), String>,
)
    requires
        call_ensures(validate_rules, (&rules,), r),
        0 <= i < rules@.len(),
        forall|k: int| 0 <= k < i ==> is_valid_rule(#[trigger] rules@[k]),
        !is_valid_rule(rules@[i]),
        0 <= j,
        forall|k: int|
            0 <= k < j && k < rules@[i].allowed_destinations@.len() ==> normalized(
                (#[trigger] rules@[i].allowed_destinations@[k])@,
            ) is Ok,
        j < rules@[i].allowed_destinations@.len() ==> normalized(
            rules@[i].allowed_destinations@[j]@,
        ) is Err,
    ensures
        r is Err,
        ({
            let rule = rules@[i];
            let reason = (r->Err_0)@;
            let name = "policy.rules["@ + decimal(i as nat) + "]."@;
            if rule.extension_value@.len() == 0 {
                reason == name + "extension_value must not be empty"@
            } else if rule.allowed_destinations@.len() == 0 {
                reason == name + "allowed_destinations must not be empty"@
            } else {
                let destination = rule.allowed_destinations@[j]@;
                reason == name + "allowed_destinations["@ + decimal(j as nat) + "]: "@
                    + normalized(destination)->Err_0.text(trimmed(destination))
            }
        }),
{
    lemma_rules_before(rules@, 0, i);
    let rule = rules@[i];
    if rule.extension_value@.len() > 0 && rule.allowed_destinations@.len() > 0 {
        lemma_destinations_before(rule.allowed_destinations@, i as nat, 0, j);
    }
}

proof fn lemma_rules_before(rules: Seq<PolicyRule>, from: int, i: int)
    requires
        0 <= from <= i <= rules.len(),
        forall|k: int| from <= k < i ==> is_valid_rule(#[trigger] rules[k]),
    ensures
        rules_error(rules, from) == rules_error(rules, i),
    decreases i - from,
{
    if from < i {
        let all = rules[from].allowed_destinations@;
        assert(is_valid_rule(rules[from]));
        lemma_destinations_before(all, from as nat, 0, all.len() as int);
        lemma_rules_before(rules, from + 1, i);
    }
}

proof fn lemma_destinations_before(destinations: Seq<String>, i: nat, from: int, j: int)
    requires
        0 <= from <= j,
        forall|k: int|
            from <= k < j && k < destinations.len() ==> normalized((#[trigger] destinations[k])@)
                is Ok,
    ensures
        destinations_error(destinations, i, from) == destinations_error(destinations, i, j),
    decreases j - from,
{
    if from < j {
        lemma_destinations_before(destinations, i, from + 1, j);
    }
}

/// One version of the registry's schema is accepted, and no other.
pub proof fn law_schema_version(version: i32, r: Result<(), String>)
    requires
        call_ensures(check_schema_version, (version,), r),
    ensures
        r is Ok <==> version == 1,
        r is Err ==> (r->Err_0)@ == "authorization registry schema version "@ + signed_decimal(
            version as int,
        ) + " does not match expected "@ + signed_decimal(1),
{
}

// ---------------------------------------------------------------------
// Logs and traces
// ---------------------------------------------------------------------

/// Logs go to the standard output unless the setting, without white space
/// around it and whatever the case of its letters, is one of four words.
pub proof fn law_stdout_logging(value: Option<&str>, r: bool)
    requires
        call_ensures(stdout_logging_enabled, (value,), r),
    ensures
        !r <==> value is Some && ({
            let v = ascii_lowercase(trimmed(value->0@));
            ||| v == seq!['0']
            ||| v == seq!['n', 'o']
            ||| v == seq!['o', 'f', 'f']
            ||| v == seq!['f', 'a', 'l', 's', 'e']
        }),
{
    reveal_strlit("0");
    reveal_strlit("no");
    reveal_strlit("off");
    reveal_strlit("false");
    assert("0"@ =~= seq!['0']);
    assert("no"@ =~= seq!['n', 'o']);
    assert("off"@ =~= seq!['o', 'f', 'f']);
    assert("false"@ =~= seq!['f', 'a', 'l', 's', 'e']);
}

/// Traces are sent to the endpoint that is set, unless that is empty.
pub proof fn law_otlp_endpoint(value: Option<&str>, r: Option<&str>)
    requires
        call_ensures(otlp_endpoint, (value,), r),
    ensures
        r is Some <==> value is Some && value->0@.len() > 0,
        r is Some ==> r->0@ == value->0@,
{
}

} // verus!
