//! Whether a client may reach a destination.
//!
//! The rows that decide lie in a registry that only the caller can ask. So an
//! evaluation goes in steps: [`PostgresPolicyEngine::begin`] says which
//! permissions to look up, [`PendingLookup::on_candidates`] takes them, and
//! [`Evaluation::on_scope`] takes the answer to each further question, until
//! a decision is reached.

use vstd::prelude::*;

use crate::certificate::{
    certificate_subject, chain_bytes, chain_subject, dotted_oid, extension_value, plain_subject,
    x509_certificate, CertificateSubject, ClientExtOid, OidFault,
};
use crate::der::tlv;
use crate::destination::normalized;
use crate::permission::{signature_verdict, verify_signature};
use crate::registry::CandidatePermission;
use crate::text::{debug_string, debug_text, plain_outcome, trimmed};
use crate::timestamp::{civil_time, Timestamp};

pub use crate::certificate::{certificate_identity, certificate_spki, parse_client_ext_oid};
pub use crate::destination::normalize_destination;

verus! {

/// A request to reach a destination.
#[derive(Debug)]
pub struct RequestContext {
    /// The certificates that the client presented, in DER, the leaf first.
    pub peer_certificates: Vec<Vec<u8>>,
    /// The destination, as requested.
    pub destination: String,
}

/// The outcome of an evaluation.
#[derive(Debug)]
#[allow(inconsistent_fields)]
pub enum PolicyDecision {
    /// The client may reach the destination.
    Allow { source_identity: String },
    /// It may not.
    Deny { source_identity: Option<String>, reason: String },
}

/// The content of a [`PolicyDecision`].
#[verifier::ext_equal]
#[allow(inconsistent_fields)]
pub enum DecisionView {
    Allow { source_identity: Seq<char> },
    Deny { source_identity: Option<Seq<char>>, reason: Seq<char> },
}

impl View for PolicyDecision {
    type V = DecisionView;

    open spec fn view(&self) -> DecisionView {
        match self {
            PolicyDecision::Allow { source_identity } => DecisionView::Allow {
                source_identity: source_identity@,
            },
            PolicyDecision::Deny { source_identity, reason } => DecisionView::Deny {
                source_identity: match source_identity {
                    Some(s) => Some(s@),
                    None => None,
                },
                reason: reason@,
            },
        }
    }
}

// ---------------------------------------------------------------------
// One candidate
// ---------------------------------------------------------------------

/// The text of an instant that may be missing, for diagnostics.
pub open spec fn optional_time_text(time: Option<Timestamp>) -> Seq<char> {
    match time {
        Some(t) => "Some("@ + civil_time(t@).debug_text() + ")"@,
        None => "None"@,
    }
}

/// The reason to turn down a candidate whose signing key is not active.
pub open spec fn inactive_text(c: CandidatePermission) -> Seq<char> {
    "signing key "@ + debug_text(c.signing_key_id@) + " is not active (not_before "@ + civil_time(
        c.signer_not_before@,
    ).display_text() + ", not_after "@ + civil_time(c.signer_not_after@).display_text()
        + ", revoked_at "@ + optional_time_text(c.signer_revoked_at) + ")"@
}

/// The reason to turn down a candidate that is bound to no key.
pub open spec fn unbound_text(c: CandidatePermission) -> Seq<char> {
    "permission "@ + debug_text(c.permission_id@) + " is not bound to a subject key"@
}

/// The reason to turn down a candidate before its signer's scope is looked
/// up, given whether its signature is good.
#[verifier::opaque]
pub open spec fn candidate_denial(
    c: CandidatePermission,
    signature: Result<(), Seq<char>>,
) -> Option<Seq<char>> {
    if !c.signer_active_now {
        Some(inactive_text(c))
    } else if c.subject_public_key_spki_der is None {
        Some(unbound_text(c))
    } else {
        match signature {
            Ok(_) => None,
            Err(e) => Some(
                "invalid permission signature for "@ + debug_text(c.permission_id@) + ": "@ + e,
            ),
        }
    }
}

/// The reason to turn down a candidate, given the answer to the question
/// whether its signer may delegate the destination.
#[verifier::opaque]
pub open spec fn scope_denial(
    c: CandidatePermission,
    destination: Seq<char>,
    answer: Result<bool, Seq<char>>,
) -> Option<Seq<char>> {
    match answer {
        Ok(true) => None,
        Ok(false) => Some(
            "signing key "@ + debug_text(c.signing_key_id@) + " is not allowed to delegate "@
                + debug_text(destination),
        ),
        Err(e) => Some("signer scope lookup failed: "@ + e),
    }
}

/// Writes an instant that may be missing, for diagnostics.
fn optional_time(time: &Option<Timestamp>) -> (r: String)
    ensures
        r@ == optional_time_text(*time),
{
    match time {
        Some(t) => {
            let text = t.debug();
            "Some(".to_owned().concat(text.as_str()).concat(")")
        },
        None => "None".to_owned(),
    }
}

/// Describes a signing key that is not active.
fn inactive_reason(c: &CandidatePermission) -> (r: String)
    ensures
        r@ == inactive_text(*c),
{
    let quoted = debug_string(c.signing_key_id.as_str());
    let not_before = c.signer_not_before.display();
    let not_after = c.signer_not_after.display();
    let revoked_at = optional_time(&c.signer_revoked_at);
    "signing key ".to_owned().concat(quoted.as_str()).concat(" is not active (not_before ").concat(
        not_before.as_str(),
    ).concat(", not_after ").concat(not_after.as_str()).concat(", revoked_at ").concat(
        revoked_at.as_str(),
    ).concat(")")
}

/// The answer of the registry as plain values.
pub open spec fn plain_answer(r: Result<bool, String>) -> Result<bool, Seq<char>> {
    match r {
        Ok(b) => Ok(b),
        Err(e) => Err(e@),
    }
}

/// Whether a text that may be missing is the given one.
pub open spec fn is_text(r: Option<String>, text: Option<Seq<char>>) -> bool {
    match r {
        Some(s) => text == Some(s@),
        None => text is None,
    }
}

/// Decides on a candidate as far as that needs no further lookup: its signing
/// key has to be active, it has to be bound to a key of the subject, and its
/// signature has to be good.
pub fn evaluate_candidate(
    candidate: &CandidatePermission,
    signature: Result<(), String>,
) -> (r: Option<String>)
    ensures
        is_text(r, candidate_denial(*candidate, plain_outcome(signature))),
{
    reveal(candidate_denial);
    if !candidate.signer_active_now {
        return Some(inactive_reason(candidate));
    }
    if candidate.subject_public_key_spki_der.is_none() {
        let quoted = debug_string(candidate.permission_id.as_str());
        return Some(
            "permission ".to_owned().concat(quoted.as_str()).concat(
                " is not bound to a subject key",
            ),
        );
    }
    match signature {
        Ok(_) => None,
        Err(e) => {
            let quoted = debug_string(candidate.permission_id.as_str());
            Some(
                "invalid permission signature for ".to_owned().concat(quoted.as_str()).concat(
                    ": ",
                ).concat(e.as_str()),
            )
        },
    }
}

/// Decides on a candidate once it is known whether its signer may delegate
/// the destination.
pub fn evaluate_scope(
    candidate: &CandidatePermission,
    normalized_dest: &str,
    has_scope: Result<bool, String>,
) -> (r: Option<String>)
    ensures
        is_text(r, scope_denial(*candidate, normalized_dest@, plain_answer(has_scope))),
{
    reveal(scope_denial);
    match has_scope {
        Ok(true) => None,
        Ok(false) => {
            let key = debug_string(candidate.signing_key_id.as_str());
            let dest = debug_string(normalized_dest);
            Some(
                "signing key ".to_owned().concat(key.as_str()).concat(
                    " is not allowed to delegate ",
                ).concat(dest.as_str()),
            )
        },
        Err(e) => Some("signer scope lookup failed: ".to_owned().concat(e.as_str())),
    }
}

// ---------------------------------------------------------------------
// All candidates
// ---------------------------------------------------------------------

/// An evaluation that waits for the answer whether the signer of a candidate
/// may delegate the destination.
#[derive(Debug)]
pub struct Evaluation {
    source_identity: String,
    destination: String,
    requested: String,
    candidates: Vec<CandidatePermission>,
    next: usize,
    last_denial: Option<String>,
}

/// The content of an [`Evaluation`].
#[verifier::ext_equal]
pub struct EvaluationView {
    /// The identity of the client.
    pub source_identity: Seq<char>,
    /// The destination in canonical form.
    pub destination: Seq<char>,
    /// The destination as requested.
    pub requested: Seq<char>,
    /// The candidates, in order.
    pub candidates: Seq<CandidatePermission>,
    /// The position of the candidate that is being decided on.
    pub next: int,
    /// Why the candidate before it was turned down.
    pub last_denial: Option<Seq<char>>,
}

impl View for Evaluation {
    type V = EvaluationView;

    closed spec fn view(&self) -> EvaluationView {
        EvaluationView {
            source_identity: self.source_identity@,
            destination: self.destination@,
            requested: self.requested@,
            candidates: self.candidates@,
            next: self.next as int,
            last_denial: match self.last_denial {
                Some(s) => Some(s@),
                None => None,
            },
        }
    }
}

impl EvaluationView {
    /// Whether the evaluation waits at a candidate that passed every check
    /// before the scope lookup.
    pub open spec fn waiting(self) -> bool {
        &&& 0 <= self.next < self.candidates.len()
        &&& candidate_denial(
            self.candidates[self.next],
            signature_verdict(self.candidates[self.next]),
        ) is None
    }

    /// The evaluation after its candidate was turned down.
    pub open spec fn after_denial(self, reason: Seq<char>) -> EvaluationView {
        EvaluationView { next: self.next + 1, last_denial: Some(reason), ..self }
    }

    /// The decision when no candidate is left: the last reason, or that there
    /// was no candidate at all.
    pub open spec fn exhausted(self) -> DecisionView {
        DecisionView::Deny {
            source_identity: Some(self.source_identity),
            reason: match self.last_denial {
                Some(reason) => reason,
                None => "no active signed permission for destination "@ + debug_text(self.requested)
                    + " and identity "@ + debug_text(self.source_identity),
            },
        }
    }
}

/// What an evaluation does next.
#[derive(Debug)]
pub enum PolicyStep {
    /// It asks whether a signer may delegate the destination: see
    /// [`Evaluation::scope_query`].
    LookupScope(Evaluation),
    /// It is done.
    Decided(PolicyDecision),
}

/// The content of a [`PolicyStep`].
#[verifier::ext_equal]
pub enum StepView {
    LookupScope(EvaluationView),
    Decided(DecisionView),
}

impl View for PolicyStep {
    type V = StepView;

    open spec fn view(&self) -> StepView {
        match self {
            PolicyStep::LookupScope(e) => StepView::LookupScope(e@),
            PolicyStep::Decided(d) => StepView::Decided(d@),
        }
    }
}

/// The next step from the candidate at hand: the first candidate that passes
/// every check before the scope lookup is asked about, and those in front of
/// it are turned down.
pub open spec fn advanced(v: EvaluationView) -> StepView
    decreases v.candidates.len() - v.next,
{
    if v.next >= v.candidates.len() {
        StepView::Decided(v.exhausted())
    } else {
        let c = v.candidates[v.next];
        match candidate_denial(c, signature_verdict(c)) {
            None => StepView::LookupScope(v),
            Some(reason) => advanced(v.after_denial(reason)),
        }
    }
}

/// The next step once the registry has answered.
pub open spec fn answered(v: EvaluationView, answer: Result<bool, Seq<char>>) -> StepView {
    match scope_denial(v.candidates[v.next], v.destination, answer) {
        None => StepView::Decided(DecisionView::Allow { source_identity: v.source_identity }),
        Some(reason) => advanced(v.after_denial(reason)),
    }
}

/// The question whether a signer may delegate a destination for the whole
/// validity of a permission.
#[derive(Debug)]
pub struct ScopeQuery {
    pub signing_key_id: String,
    pub destination: String,
    pub permission_not_before: Timestamp,
    pub permission_not_after: Timestamp,
}

impl Evaluation {
    #[verifier::type_invariant]
    spec fn at_candidate(self) -> bool {
        self@.waiting()
    }

    /// The question that the evaluation waits for an answer to.
    pub fn scope_query(&self) -> (r: ScopeQuery)
        ensures
            self@.waiting(),
            r.signing_key_id@ == self@.candidates[self@.next].signing_key_id@,
            r.destination@ == self@.destination,
            r.permission_not_before == self@.candidates[self@.next].permission_not_before,
            r.permission_not_after == self@.candidates[self@.next].permission_not_after,
    {
        proof {
            use_type_invariant(self);
        }
        let candidate = &self.candidates[self.next];
        ScopeQuery {
            signing_key_id: candidate.signing_key_id.clone(),
            destination: self.destination.clone(),
            permission_not_before: candidate.permission_not_before,
            permission_not_after: candidate.permission_not_after,
        }
    }

    /// Takes the answer whether the signer may delegate the destination.
    pub fn on_scope(self, has_scope: Result<bool, String>) -> (r: PolicyStep)
        ensures
            self@.waiting(),
            r@ == answered(self@, plain_answer(has_scope)),
    {
        proof {
            use_type_invariant(&self);
        }
        let denial = evaluate_scope(
            &self.candidates[self.next],
            self.destination.as_str(),
            has_scope,
        );
        match denial {
            None => PolicyStep::Decided(
                PolicyDecision::Allow { source_identity: self.source_identity },
            ),
            Some(reason) => {
                let ghost v = self@.after_denial(reason@);
                assert(self.next < self.candidates.len());
                advance(
                    self.source_identity,
                    self.destination,
                    self.requested,
                    self.candidates,
                    self.next + 1,
                    Some(reason),
                    Ghost(v),
                )
            },
        }
    }
}

/// A signature does not matter where the signing key is not active.
proof fn lemma_inactive_denial(
    c: CandidatePermission,
    a: Result<(), Seq<char>>,
    b: Result<(), Seq<char>>,
)
    ensures
        !c.signer_active_now ==> candidate_denial(c, a) == candidate_denial(c, b),
{
    reveal(candidate_denial);
}

/// Goes from candidate to candidate until one has to be asked about.
fn advance(
    source_identity: String,
    destination: String,
    requested: String,
    candidates: Vec<CandidatePermission>,
    first: usize,
    denial: Option<String>,
    Ghost(v): Ghost<EvaluationView>,
) -> (r: PolicyStep)
    requires
        v.source_identity == source_identity@,
        v.destination == destination@,
        v.requested == requested@,
        v.candidates == candidates@,
        v.next == first,
        is_text(denial, v.last_denial),
        first <= candidates@.len(),
    ensures
        r@ == advanced(v),
{
    let mut next: usize = first;
    let mut last_denial = denial;
    let ghost mut w = v;
    while next < candidates.len()
        invariant_except_break
            advanced(v) == advanced(w),
            is_text(last_denial, w.last_denial),
        invariant
            next <= candidates@.len(),
            w == (EvaluationView { next: next as int, last_denial: w.last_denial, ..v }),
            v.candidates == candidates@,
        ensures
            advanced(v) == advanced(w),
            is_text(last_denial, w.last_denial),
            next < candidates@.len() ==> w.waiting(),
        decreases candidates.len() - next,
    {
        // A key that is not active is not worth a verification.
        let signature = if candidates[next].signer_active_now {
            verify_signature(&candidates[next])
        } else {
            Ok(())
        };
        proof {
            let c = candidates@[next as int];
            lemma_inactive_denial(c, plain_outcome(signature), signature_verdict(c));
        }
        match evaluate_candidate(&candidates[next], signature) {
            None => break,
            Some(reason) => {
                proof {
                    w = w.after_denial(reason@);
                }
                last_denial = Some(reason);
            },
        }
        next = next + 1;
    }
    if next < candidates.len() {
        let evaluation = Evaluation {
            source_identity,
            destination,
            requested,
            candidates,
            next,
            last_denial,
        };
        assert(evaluation@ == w);
        PolicyStep::LookupScope(evaluation)
    } else {
        let reason = match last_denial {
            Some(reason) => reason,
            None => {
                let dest = debug_string(requested.as_str());
                let identity = debug_string(source_identity.as_str());
                "no active signed permission for destination ".to_owned().concat(
                    dest.as_str(),
                ).concat(" and identity ").concat(identity.as_str())
            },
        };
        PolicyStep::Decided(
            PolicyDecision::Deny { source_identity: Some(source_identity), reason },
        )
    }
}

// ---------------------------------------------------------------------
// The beginning
// ---------------------------------------------------------------------

/// An evaluation that waits for the permissions of a client for a
/// destination.
#[derive(Debug)]
pub struct PendingLookup {
    source_identity: String,
    destination: String,
    requested: String,
    spki_der: Vec<u8>,
}

/// The content of a [`PendingLookup`].
#[verifier::ext_equal]
pub struct PendingView {
    /// The identity of the client.
    pub source_identity: Seq<char>,
    /// The destination in canonical form.
    pub destination: Seq<char>,
    /// The destination as requested.
    pub requested: Seq<char>,
    /// The SubjectPublicKeyInfo of the client's leaf certificate.
    pub spki_der: Seq<u8>,
}

impl View for PendingLookup {
    type V = PendingView;

    closed spec fn view(&self) -> PendingView {
        PendingView {
            source_identity: self.source_identity@,
            destination: self.destination@,
            requested: self.requested@,
            spki_der: self.spki_der@,
        }
    }
}

/// The first step of an evaluation.
#[derive(Debug)]
pub enum BeginStep {
    /// It asks for permissions.
    LookupPermissions(PendingLookup),
    /// It is done.
    Decided(PolicyDecision),
}

/// The content of a [`BeginStep`].
#[verifier::ext_equal]
pub enum BeginView {
    LookupPermissions(PendingView),
    Decided(DecisionView),
}

impl View for BeginStep {
    type V = BeginView;

    open spec fn view(&self) -> BeginView {
        match self {
            BeginStep::LookupPermissions(p) => BeginView::LookupPermissions(p@),
            BeginStep::Decided(d) => BeginView::Decided(d@),
        }
    }
}

/// The first step, given who the client is: it is turned down where that, or
/// the destination, cannot be made out.
pub open spec fn begun(
    subject: Result<(Seq<char>, Seq<u8>), Seq<char>>,
    requested: Seq<char>,
) -> BeginView {
    match subject {
        Err(reason) => BeginView::Decided(DecisionView::Deny { source_identity: None, reason }),
        Ok((source_identity, spki_der)) => match normalized(requested) {
            Err(fault) => BeginView::Decided(
                DecisionView::Deny {
                    source_identity: Some(source_identity),
                    reason: "invalid destination: "@ + fault.text(trimmed(requested)),
                },
            ),
            Ok(destination) => BeginView::LookupPermissions(
                PendingView { source_identity, destination, requested, spki_der },
            ),
        },
    }
}

/// The next step once the registry has been asked for permissions.
pub open spec fn looked_up(
    p: PendingView,
    lookup: Result<Seq<CandidatePermission>, Seq<char>>,
) -> StepView {
    match lookup {
        Err(e) => StepView::Decided(
            DecisionView::Deny {
                source_identity: Some(p.source_identity),
                reason: "authorization registry lookup failed: "@ + e,
            },
        ),
        Ok(candidates) => advanced(
            EvaluationView {
                source_identity: p.source_identity,
                destination: p.destination,
                requested: p.requested,
                candidates,
                next: 0,
                last_denial: None,
            },
        ),
    }
}

impl PendingLookup {
    /// The identity whose permissions are asked for.
    pub fn source_identity(&self) -> (r: &str)
        ensures
            r@ == self@.source_identity,
    {
        self.source_identity.as_str()
    }

    /// The destination that they are to be for.
    pub fn destination(&self) -> (r: &str)
        ensures
            r@ == self@.destination,
    {
        self.destination.as_str()
    }

    /// The key that they are to be bound to, as SubjectPublicKeyInfo.
    pub fn subject_public_key_spki_der(&self) -> (r: &[u8])
        ensures
            r@ == self@.spki_der,
    {
        self.spki_der.as_slice()
    }

    /// Takes the permissions that the registry holds.
    pub fn on_candidates(self, lookup: Result<Vec<CandidatePermission>, String>) -> (r: PolicyStep)
        ensures
            r@ == looked_up(
                self@,
                match lookup {
                    Ok(candidates) => Ok(candidates@),
                    Err(e) => Err(e@),
                },
            ),
    {
        match lookup {
            Err(e) => PolicyStep::Decided(
                PolicyDecision::Deny {
                    source_identity: Some(self.source_identity),
                    reason: "authorization registry lookup failed: ".to_owned().concat(e.as_str()),
                },
            ),
            Ok(candidates) => {
                let ghost v = EvaluationView {
                    source_identity: self@.source_identity,
                    destination: self@.destination,
                    requested: self@.requested,
                    candidates: candidates@,
                    next: 0,
                    last_denial: None,
                };
                advance(
                    self.source_identity,
                    self.destination,
                    self.requested,
                    candidates,
                    0,
                    None,
                    Ghost(v),
                )
            },
        }
    }
}

/// Starts an evaluation for a client that is known, or turns down one that is
/// not.
pub fn begin_evaluation(
    subject: Result<CertificateSubject, String>,
    requested: &str,
) -> (r: BeginStep)
    ensures
        r@ == begun(plain_subject(subject), requested@),
{
    let subject = match subject {
        Ok(subject) => subject,
        Err(reason) => return BeginStep::Decided(
            PolicyDecision::Deny { source_identity: None, reason },
        ),
    };
    match normalize_destination(requested) {
        Ok(destination) => BeginStep::LookupPermissions(
            PendingLookup {
                source_identity: subject.identity,
                destination,
                requested: requested.to_owned(),
                spki_der: subject.spki_der,
            },
        ),
        Err(e) => {
            let text = e.message();
            BeginStep::Decided(
                PolicyDecision::Deny {
                    source_identity: Some(subject.identity),
                    reason: "invalid destination: ".to_owned().concat(text.as_str()),
                },
            )
        },
    }
}

/// The policy of the gateway: signed permissions in a registry.
#[derive(Debug)]
pub struct PostgresPolicyEngine {
    client_ext_oid: ClientExtOid,
}

impl PostgresPolicyEngine {
    /// The content octets of the identifier of the extension that holds a
    /// client's identity.
    pub closed spec fn oid(self) -> Seq<u8> {
        self.client_ext_oid@
    }

    /// A policy that takes identities from the extension with the given
    /// identifier.
    pub fn new(client_ext_oid: &str) -> (r: Result<PostgresPolicyEngine, OidFault>)
        ensures
            match r {
                Ok(engine) => dotted_oid(client_ext_oid@) == Ok::<Seq<u8>, OidFault>(engine.oid()),
                Err(e) => dotted_oid(client_ext_oid@) == Err::<Seq<u8>, OidFault>(e),
            },
    {
        match parse_client_ext_oid(client_ext_oid) {
            Ok(client_ext_oid) => Ok(PostgresPolicyEngine { client_ext_oid }),
            Err(e) => Err(e),
        }
    }

    /// Starts the evaluation of a request. Where the extension of the client's
    /// leaf certificate is the encoding of a text, permissions are looked up
    /// for that text.
    pub fn begin(&self, ctx: &RequestContext) -> (r: BeginStep)
        ensures
            r@ == begun(
                chain_subject(chain_bytes(ctx.peer_certificates@), self.oid()),
                ctx.destination@,
            ),
            forall|text: Seq<char>|
                (ctx.peer_certificates@.len() > 0 && (x509_certificate(
                    ctx.peer_certificates@[0]@,
                ) matches Ok(c) && extension_value(c.extensions, self.oid()) == Some(
                    #[trigger] tlv(0x0c, vstd::utf8::encode_utf8(text)),
                ))) ==> (normalized(ctx.destination@) matches Ok(destination) ==> r@
                    == BeginView::LookupPermissions(
                    PendingView {
                        source_identity: text,
                        destination,
                        requested: ctx.destination@,
                        spki_der: (x509_certificate(ctx.peer_certificates@[0]@)->Ok_0).spki_der,
                    },
                )),
    {
        let subject = certificate_subject(ctx.peer_certificates.as_slice(), &self.client_ext_oid);
        begin_evaluation(subject, ctx.destination.as_str())
    }
}

} // verus!
