use agent_gateway::permission::{canonical_permission_bytes, check_algorithm, verify_signature};
use agent_gateway::policy::{
    evaluate_candidate, evaluate_scope, normalize_destination, BeginStep, PolicyDecision,
    PolicyStep, PostgresPolicyEngine, RequestContext,
};
use agent_gateway::proxy::{
    Authority, DecisionStep, Destination, Method, ProxyService, RequestStep,
};
use agent_gateway::registry::CandidatePermission;
use agent_gateway::timestamp::Timestamp;
use p256::ecdsa::signature::{Signer, Verifier};
use p256::ecdsa::{Signature, SigningKey, VerifyingKey};
use p256::pkcs8::EncodePublicKey;
use rcgen::{CertificateParams, CustomExtension, KeyPair, PublicKeyData};

const EXT_OID: &str = "1.3.6.1.4.1.57264.1.1";

// 2026-01-01, 2026-05-01, 2026-06-01 and 2027-01-01, in microseconds.
const YEAR_START: i64 = 1767225600000000;
const MAY: i64 = 1777593600000000;
const JUNE: i64 = 1780272000000000;
const YEAR_END: i64 = 1798761600000000;

fn time(micros: i64) -> Timestamp {
    Timestamp::from_micros(micros).unwrap()
}

struct TestPki {
    chain: Vec<Vec<u8>>,
    spki: Vec<u8>,
}

impl TestPki {
    fn new(subject: &str) -> TestPki {
        let key = KeyPair::generate().unwrap();
        let mut params = CertificateParams::new(vec!["client.example".to_owned()]).unwrap();
        let mut value = vec![0x0c, subject.len() as u8];
        value.extend_from_slice(subject.as_bytes());
        params.custom_extensions.push(CustomExtension::from_oid_content(
            &[1, 3, 6, 1, 4, 1, 57264, 1, 1],
            value,
        ));
        let cert = params.self_signed(&key).unwrap();
        TestPki { chain: vec![cert.der().to_vec()], spki: key.subject_public_key_info() }
    }
}

struct Row {
    subject: String,
    spki: Vec<u8>,
    signed_destination: String,
    destination: String,
    revoked: bool,
    scoped: bool,
}

/// A registry in memory, with one signing key.
struct TestAuthzRegistry {
    key: SigningKey,
    signer_revoked: bool,
    rows: Vec<Row>,
}

impl TestAuthzRegistry {
    fn new() -> TestAuthzRegistry {
        TestAuthzRegistry {
            key: SigningKey::from_slice(&[7u8; 32]).unwrap(),
            signer_revoked: false,
            rows: vec![],
        }
    }

    fn allow_for_pki(&mut self, pki: &TestPki, subject: &str, destination: &str) {
        let destination = normalize_destination(destination).unwrap();
        self.rows.push(Row {
            subject: subject.to_owned(),
            spki: pki.spki.clone(),
            signed_destination: destination.clone(),
            destination,
            revoked: false,
            scoped: true,
        });
    }

    fn candidate(&self, i: usize) -> CandidatePermission {
        let row = &self.rows[i];
        let mut c = CandidatePermission {
            permission_id: format!("perm-{i}"),
            subject_identity: row.subject.clone(),
            subject_public_key_spki_der: Some(row.spki.clone()),
            destination: row.signed_destination.clone(),
            signing_key_id: "org-alice".to_owned(),
            permission_not_before: time(MAY),
            permission_not_after: time(JUNE),
            signature: vec![],
            signer_algorithm: "ecdsa_p256_sha256".to_owned(),
            signer_public_key_spki_der: VerifyingKey::from(&self.key)
                .to_public_key_der()
                .unwrap()
                .as_bytes()
                .to_vec(),
            signer_not_before: time(YEAR_START),
            signer_not_after: time(YEAR_END),
            signer_revoked_at: if self.signer_revoked { Some(time(MAY)) } else { None },
            signer_active_now: !self.signer_revoked,
        };
        let signature: Signature = self.key.sign(&canonical_permission_bytes(&c));
        c.signature = signature.to_der().as_bytes().to_vec();
        c.destination = row.destination.clone();
        c
    }

    fn eval(&self, pki: &TestPki, dest: &str) -> PolicyDecision {
        self.eval_chain(pki.chain.clone(), dest)
    }

    fn eval_chain(&self, peer_certificates: Vec<Vec<u8>>, dest: &str) -> PolicyDecision {
        let engine = PostgresPolicyEngine::new(EXT_OID).unwrap();
        let ctx = RequestContext { peer_certificates, destination: dest.to_owned() };
        let pending = match engine.begin(&ctx) {
            BeginStep::Decided(d) => return d,
            BeginStep::LookupPermissions(p) => p,
        };
        let matching: Vec<usize> = (0..self.rows.len())
            .filter(|&i| {
                let row = &self.rows[i];
                row.subject == pending.source_identity()
                    && row.destination == pending.destination()
                    && row.spki == pending.subject_public_key_spki_der()
                    && !row.revoked
            })
            .collect();
        let candidates = matching.iter().map(|&i| self.candidate(i)).collect();
        let mut step = pending.on_candidates(Ok(candidates));
        loop {
            match step {
                PolicyStep::Decided(d) => return d,
                PolicyStep::LookupScope(evaluation) => {
                    let query = evaluation.scope_query();
                    assert_eq!(query.signing_key_id, "org-alice");
                    assert_eq!(query.permission_not_before, time(MAY));
                    assert_eq!(query.permission_not_after, time(JUNE));
                    let scoped = self
                        .rows
                        .iter()
                        .any(|r| r.scoped && r.destination == query.destination);
                    step = evaluation.on_scope(Ok(scoped));
                }
            }
        }
    }
}

fn assert_allow(decision: PolicyDecision) {
    if let PolicyDecision::Deny { reason, .. } = decision {
        panic!("expected Allow, got Deny: {reason}");
    }
}

fn assert_deny(decision: PolicyDecision) {
    if let PolicyDecision::Allow { .. } = decision {
        panic!("expected Deny, got Allow");
    }
}

fn denial(decision: PolicyDecision) -> (Option<String>, String) {
    match decision {
        PolicyDecision::Deny { source_identity, reason } => (source_identity, reason),
        PolicyDecision::Allow { .. } => panic!("expected Deny"),
    }
}

fn allowed(subject: &str, destination: &str) -> (TestAuthzRegistry, TestPki) {
    let mut registry = TestAuthzRegistry::new();
    let pki = TestPki::new(subject);
    registry.allow_for_pki(&pki, subject, destination);
    (registry, pki)
}

#[test]
fn policy_allows_matching_cert_and_destination() {
    let (registry, pki) = allowed("agent-alpha", "api.example.com:443");
    match registry.eval(&pki, "api.example.com:443") {
        PolicyDecision::Allow { source_identity } => assert_eq!(source_identity, "agent-alpha"),
        PolicyDecision::Deny { reason, .. } => panic!("expected Allow, got Deny: {reason}"),
    }
}

#[test]
fn policy_allows_explicit_non_default_port() {
    let (registry, pki) = allowed("agent-alpha", "custom.example.com:8443");
    assert_allow(registry.eval(&pki, "custom.example.com:8443"));
}

#[test]
fn policy_denies_wrong_destination() {
    let (registry, pki) = allowed("agent-alpha", "api.example.com:443");
    let (identity, reason) = denial(registry.eval(&pki, "evil.example.com:443"));
    assert_eq!(identity.as_deref(), Some("agent-alpha"));
    assert_eq!(
        reason,
        "no active signed permission for destination \"evil.example.com:443\" and identity \
         \"agent-alpha\""
    );
}

#[test]
fn policy_denies_wrong_port() {
    let (registry, pki) = allowed("agent-alpha", "api.example.com:443");
    assert_deny(registry.eval(&pki, "api.example.com:8080"));
}

#[test]
fn policy_denies_unknown_extension_value() {
    let (registry, _) = allowed("agent-alpha", "api.example.com:443");
    let pki = TestPki::new("agent-unknown");
    let (identity, _) = denial(registry.eval(&pki, "api.example.com:443"));
    assert_eq!(identity.as_deref(), Some("agent-unknown"));
}

#[test]
fn policy_denies_same_identity_and_destination_with_different_key() {
    let (registry, _) = allowed("agent-alpha", "api.example.com:443");
    let different_key_pki = TestPki::new("agent-alpha");
    let (identity, reason) = denial(registry.eval(&different_key_pki, "api.example.com:443"));
    assert_eq!(identity.as_deref(), Some("agent-alpha"));
    assert!(reason.contains("no active signed permission"), "{reason}");
}

#[test]
fn policy_denies_no_cert() {
    let (registry, _) = allowed("agent-alpha", "api.example.com:443");
    let (identity, reason) = denial(registry.eval_chain(vec![], "api.example.com:443"));
    assert!(identity.is_none());
    assert_eq!(reason, "no client certificate");
}

#[test]
fn policy_config_without_port_defaults_to_443() {
    let (registry, pki) = allowed("agent-alpha", "api.example.com");
    assert_allow(registry.eval(&pki, "api.example.com:443"));
}

#[test]
fn policy_config_without_port_denies_non_443() {
    let (registry, pki) = allowed("agent-alpha", "api.example.com");
    assert_deny(registry.eval(&pki, "api.example.com:8080"));
}

#[test]
fn policy_ipv6_config_matches_bracketed_request() {
    let (registry, pki) = allowed("agent-alpha", "[::1]:8443");
    assert_allow(registry.eval(&pki, "[::1]:8443"));
    assert_deny(registry.eval(&pki, "[::1]:443"));
}

#[test]
fn policy_bare_ipv6_config_matches_bracketed_request() {
    let (registry, pki) = allowed("agent-alpha", "::1");
    assert_allow(registry.eval(&pki, "[::1]:443"));
    assert_deny(registry.eval(&pki, "[::1]:8080"));
}

#[test]
fn policy_destination_matching_is_case_insensitive() {
    let (registry, pki) = allowed("agent-alpha", "api.example.com:443");
    assert_allow(registry.eval(&pki, "API.EXAMPLE.COM:443"));
}

#[test]
fn policy_denies_tampered_permission_destination() {
    let (mut registry, pki) = allowed("agent-alpha", "api.example.com:443");
    registry.rows[0].destination = "evil.example.com:443".to_owned();
    let (_, reason) = denial(registry.eval(&pki, "evil.example.com:443"));
    assert!(reason.starts_with("invalid permission signature for \"perm-0\": "), "{reason}");
}

#[test]
fn policy_denies_revoked_permission() {
    let (mut registry, pki) = allowed("agent-alpha", "api.example.com:443");
    registry.rows[0].revoked = true;
    let (identity, reason) = denial(registry.eval(&pki, "api.example.com:443"));
    assert_eq!(identity.as_deref(), Some("agent-alpha"));
    assert!(reason.contains("no active signed permission"), "{reason}");
}

#[test]
fn policy_denies_revoked_signer() {
    let (mut registry, pki) = allowed("agent-alpha", "api.example.com:443");
    registry.signer_revoked = true;
    let (identity, reason) = denial(registry.eval(&pki, "api.example.com:443"));
    assert_eq!(identity.as_deref(), Some("agent-alpha"));
    assert!(reason.contains("is not active"), "{reason}");
    assert_eq!(
        reason,
        "signing key \"org-alice\" is not active (not_before 2026-01-01 00:00:00 UTC, not_after \
         2027-01-01 00:00:00 UTC, revoked_at Some(2026-05-01T00:00:00Z))"
    );
}

#[test]
fn policy_denies_signer_scope_violation() {
    let (mut registry, pki) = allowed("agent-alpha", "api.example.com:443");
    registry.rows[0].scoped = false;
    let (_, reason) = denial(registry.eval(&pki, "api.example.com:443"));
    assert_eq!(
        reason,
        "signing key \"org-alice\" is not allowed to delegate \"api.example.com:443\""
    );
}

#[test]
fn proxy_dest_ipv6_matches_policy() {
    let (registry, pki) = allowed("agent-alpha", "[::1]:8443");
    let dest = |a: &str| Destination::from_authority(&Authority::parse(a).unwrap()).unwrap();
    assert_allow(registry.eval(&pki, &dest("[::1]:8443").authority));
    assert_deny(registry.eval(&pki, &dest("[::1]:443").authority));
}

fn gateway_status(registry: &TestAuthzRegistry, pki: &TestPki, dest: &str, up: bool) -> u16 {
    let proxy = ProxyService::new(pki.chain.clone());
    match proxy.on_request(Method::Connect, Some(dest)) {
        RequestStep::Respond(reply) => reply.status,
        RequestStep::Evaluate { ctx, destination } => {
            let decision = registry.eval_chain(ctx.peer_certificates, &ctx.destination);
            match proxy.on_decision(destination, &decision) {
                DecisionStep::Respond(reply) => reply.status,
                DecisionStep::Connect(_) => proxy.on_upstream(up).status,
            }
        }
    }
}

#[test]
fn tunnel_needs_signed_permission() {
    let (mut registry, pki) = allowed("agent-alpha", "api.example.com");
    assert_eq!(gateway_status(&registry, &pki, "API.example.com:443", true), 200);
    assert_eq!(gateway_status(&registry, &pki, "api.example.com", false), 502);
    assert_eq!(gateway_status(&registry, &pki, "api.example.com:444", true), 403);
    assert_eq!(gateway_status(&registry, &pki, "api.example.com:0", true), 400);
    assert_eq!(gateway_status(&registry, &pki, "api.example.com:99999", true), 400);
    assert_eq!(gateway_status(&registry, &pki, "[api.example.com]:443", true), 400);
    let stranger = TestPki::new("agent-alpha");
    assert_eq!(gateway_status(&registry, &stranger, "api.example.com", true), 403);
    registry.rows[0].signed_destination = "other:1".to_owned();
    assert_eq!(gateway_status(&registry, &pki, "api.example.com", true), 403);
}

#[test]
fn tunnel_rests_on_signature_about_it() {
    let (registry, pki) = allowed("agent-alpha", "api.example.com");
    assert_eq!(gateway_status(&registry, &pki, "API.Example.com", true), 200);
    let c = registry.candidate(0);
    let key: String = pki.spki.iter().map(|b| format!("{b:02x}")).collect();
    let signed = format!(
        "agent-gateway-permission-v1\npermission_id=perm-0\nsigning_key_id=org-alice\nsubject_identity=agent-alpha\nsubject_public_key_spki_der={key}\ndestination=api.example.com:443\nnot_before=2026-05-01T00:00:00.000000Z\nnot_after=2026-06-01T00:00:00.000000Z\n"
    );
    let signature = Signature::from_der(&c.signature).unwrap();
    let verifier = VerifyingKey::from(&registry.key);
    assert!(verifier.verify(signed.as_bytes(), &signature).is_ok());
    let other = signed.replace("api.example.com", "api.example.org");
    assert!(verifier.verify(other.as_bytes(), &signature).is_err());
}

#[test]
fn lookup_is_for_the_identity_in_the_leaf() {
    let engine = PostgresPolicyEngine::new(EXT_OID).unwrap();
    let pki = TestPki::new("agent-alpha");
    let ctx = RequestContext { peer_certificates: pki.chain, destination: "Host".to_owned() };
    let BeginStep::LookupPermissions(pending) = engine.begin(&ctx) else {
        panic!("no lookup");
    };
    assert_eq!(pending.source_identity(), "agent-alpha");
    assert_eq!(pending.destination(), "host:443");
    assert_eq!(pending.subject_public_key_spki_der(), pki.spki);
}

#[test]
fn policy_denies_invalid_destination() {
    let (registry, pki) = allowed("agent-alpha", "api.example.com:443");
    let (identity, reason) = denial(registry.eval(&pki, "host:0"));
    assert_eq!(identity.as_deref(), Some("agent-alpha"));
    assert_eq!(reason, "invalid destination: port 0 is not valid in \"host:0\"");
}

#[test]
fn policy_denies_when_the_registry_fails() {
    let pki = TestPki::new("agent-alpha");
    let engine = PostgresPolicyEngine::new(EXT_OID).unwrap();
    let ctx = RequestContext { peer_certificates: pki.chain.clone(), destination: "h".to_owned() };
    let BeginStep::LookupPermissions(pending) = engine.begin(&ctx) else {
        panic!("decided early");
    };
    let PolicyStep::Decided(d) = pending.on_candidates(Err("timed out".to_owned())) else {
        panic!("not decided");
    };
    let (identity, reason) = denial(d);
    assert_eq!(identity.as_deref(), Some("agent-alpha"));
    assert_eq!(reason, "authorization registry lookup failed: timed out");
}

#[test]
fn later_candidate_may_pass_and_last_denial_counts() {
    let (mut registry, pki) = allowed("agent-alpha", "a:1");
    registry.allow_for_pki(&pki, "agent-alpha", "a:1");
    registry.rows[0].signed_destination = "other:1".to_owned();
    assert_allow(registry.eval(&pki, "a:1"));
    registry.rows[1].signed_destination = "other:1".to_owned();
    let (_, reason) = denial(registry.eval(&pki, "a:1"));
    assert!(reason.starts_with("invalid permission signature for \"perm-1\": "), "{reason}");
}

#[test]
fn failed_scope_lookup_denies() {
    let (registry, _) = allowed("agent-alpha", "a:1");
    let c = registry.candidate(0);
    assert_eq!(evaluate_scope(&c, "a:1", Ok(true)), None);
    assert_eq!(
        evaluate_scope(&c, "a:1", Err("timed out".to_owned())).unwrap(),
        "signer scope lookup failed: timed out"
    );
    assert_eq!(evaluate_candidate(&c, Ok(())), None);
    assert_eq!(
        evaluate_candidate(&c, Err("bad".to_owned())).unwrap(),
        "invalid permission signature for \"perm-0\": bad"
    );
}

#[test]
fn permission_without_a_key_lets_nobody_through() {
    let (registry, _) = allowed("agent-alpha", "a:1");
    let mut c = registry.candidate(0);
    c.subject_public_key_spki_der = None;
    assert_eq!(
        evaluate_candidate(&c, Ok(())).unwrap(),
        "permission \"perm-0\" is not bound to a subject key"
    );
    c.signer_active_now = false;
    assert!(evaluate_candidate(&c, Ok(())).unwrap().contains("is not active"));
}

fn stable_candidate(key: Option<Vec<u8>>) -> CandidatePermission {
    CandidatePermission {
        permission_id: "perm-1".to_owned(),
        subject_identity: "agent-alpha".to_owned(),
        subject_public_key_spki_der: key,
        destination: "api.example.com:443".to_owned(),
        signing_key_id: "org-alice".to_owned(),
        permission_not_before: time(MAY),
        permission_not_after: time(JUNE),
        signature: vec![],
        signer_algorithm: "ecdsa_p256_sha256".to_owned(),
        signer_public_key_spki_der: vec![],
        signer_not_before: time(YEAR_START),
        signer_not_after: time(YEAR_END),
        signer_revoked_at: None,
        signer_active_now: true,
    }
}

#[test]
fn canonical_permission_bytes_are_stable() {
    assert_eq!(
        canonical_permission_bytes(&stable_candidate(None)),
        b"agent-gateway-permission-v1\npermission_id=perm-1\nsigning_key_id=org-alice\nsubject_identity=agent-alpha\ndestination=api.example.com:443\nnot_before=2026-05-01T00:00:00.000000Z\nnot_after=2026-06-01T00:00:00.000000Z\n"
    );
}

#[test]
fn canonical_permission_bytes_name_the_key() {
    assert_eq!(
        canonical_permission_bytes(&stable_candidate(Some(vec![0x30, 0x59, 0xff]))),
        b"agent-gateway-permission-v1\npermission_id=perm-1\nsigning_key_id=org-alice\nsubject_identity=agent-alpha\nsubject_public_key_spki_der=3059ff\ndestination=api.example.com:443\nnot_before=2026-05-01T00:00:00.000000Z\nnot_after=2026-06-01T00:00:00.000000Z\n"
    );
}

#[test]
fn signatures_cover_every_field() {
    let (registry, _) = allowed("agent-alpha", "a:1");
    assert_eq!(verify_signature(&registry.candidate(0)), Ok(()));
    let changes: [fn(&mut CandidatePermission); 7] = [
        |c| c.permission_id.push('x'),
        |c| c.signing_key_id.push('x'),
        |c| c.subject_identity.push('x'),
        |c| c.subject_public_key_spki_der = None,
        |c| c.destination.push('1'),
        |c| c.permission_not_before = time(MAY + 1),
        |c| c.permission_not_after = time(JUNE + 1),
    ];
    for change in changes {
        let mut c = registry.candidate(0);
        change(&mut c);
        assert!(verify_signature(&c).is_err());
    }
}

#[test]
fn signatures_need_a_key_and_an_algorithm() {
    let (registry, _) = allowed("agent-alpha", "a:1");
    let mut c = registry.candidate(0);
    c.signer_algorithm = "rsa".to_owned();
    assert_eq!(
        verify_signature(&c).unwrap_err(),
        "unsupported signer algorithm \"rsa\""
    );
    assert_eq!(check_algorithm("ecdsa_p256_sha256"), Ok(()));
    let mut c = registry.candidate(0);
    c.signer_public_key_spki_der = vec![1];
    assert!(verify_signature(&c).is_err());
    let mut c = registry.candidate(0);
    c.signature = vec![1];
    assert!(verify_signature(&c).is_err());
    let mut c = registry.candidate(0);
    let other = SigningKey::from_slice(&[9u8; 32]).unwrap();
    c.signer_public_key_spki_der =
        VerifyingKey::from(&other).to_public_key_der().unwrap().as_bytes().to_vec();
    assert!(verify_signature(&c).is_err());
}

#[test]
fn engine_needs_an_object_identifier() {
    assert!(PostgresPolicyEngine::new("not-a-valid-oid").is_err());
}
