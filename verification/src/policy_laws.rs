//! What whole evaluations come to, whatever the registry answers.

use vstd::prelude::*;

use vstd::utf8::encode_utf8;

use crate::certificate::{
    chain_bytes, chain_subject, parse_client_ext_oid, x509_certificate, ClientExtOid, OidFault,
};
use crate::certificate_laws::{law_chain_subject, says_identity};
use crate::destination::{normalized, DestinationFault};
use crate::permission::{
    canonical_text, p256_public_key, p256_signature, p256_verification, signature_verdict,
};
use crate::permission_laws::law_signature_is_good_iff;
use crate::policy::{
    advanced, answered, begun, candidate_denial, evaluate_candidate, evaluate_scope, looked_up,
    scope_denial, BeginStep, BeginView, DecisionView, Evaluation, EvaluationView, PendingLookup,
    PendingView, PolicyDecision, PolicyStep, PostgresPolicyEngine, RequestContext, ScopeQuery,
    StepView,
};
use crate::registry::CandidatePermission;
use crate::text::{debug_text, trimmed};
use crate::timestamp::civil_time;

verus! {

// ---------------------------------------------------------------------
// Whole evaluations
// ---------------------------------------------------------------------

/// How many candidates a step has not decided on.
pub open spec fn undecided(step: StepView) -> int {
    match step {
        StepView::LookupScope(v) => v.candidates.len() - v.next,
        StepView::Decided(_) => 0,
    }
}

/// The decision that an evaluation reaches from a step, if the registry
/// answers the question about the candidate at position `i` with
/// `answers(i)`.
pub open spec fn reached(step: StepView, answers: spec_fn(int) -> Result<bool, Seq<char>>) -> DecisionView
    decreases undecided(step),
    when waits_at_candidate(step)
    via reached_decreases
{
    match step {
        StepView::Decided(d) => d,
        StepView::LookupScope(v) => reached(answered(v, answers(v.next)), answers),
    }
}

#[via_fn]
proof fn reached_decreases(step: StepView, answers: spec_fn(int) -> Result<bool, Seq<char>>) {
    if let StepView::LookupScope(v) = step {
        lemma_answered(v, answers(v.next));
    }
}

/// Whether a step that asks about a candidate asks about one that there is.
pub open spec fn waits_at_candidate(step: StepView) -> bool {
    step matches StepView::LookupScope(v) ==> 0 <= v.next < v.candidates.len()
}

/// The decision on a request, given who the client is, which permissions the
/// registry holds, and what it answers about their signers.
pub open spec fn evaluation(
    subject: Result<(Seq<char>, Seq<u8>), Seq<char>>,
    requested: Seq<char>,
    lookup: Result<Seq<CandidatePermission>, Seq<char>>,
    answers: spec_fn(int) -> Result<bool, Seq<char>>,
) -> DecisionView {
    match begun(subject, requested) {
        BeginView::Decided(d) => d,
        BeginView::LookupPermissions(p) => reached(looked_up(p, lookup), answers),
    }
}

/// The reason to turn down a candidate, if there is one.
pub open spec fn denial(
    c: CandidatePermission,
    destination: Seq<char>,
    answer: Result<bool, Seq<char>>,
) -> Option<Seq<char>> {
    match candidate_denial(c, signature_verdict(c)) {
        Some(reason) => Some(reason),
        None => scope_denial(c, destination, answer),
    }
}

/// Whether a candidate lets its client through: its signing key is active, it
/// is bound to a key of the subject, its signature is good, and the registry
/// confirms that the signing key may delegate the destination.
pub open spec fn passes(c: CandidatePermission, answer: Result<bool, Seq<char>>) -> bool {
    &&& c.signer_active_now
    &&& c.subject_public_key_spki_der is Some
    &&& signature_verdict(c) is Ok
    &&& answer == Ok::<bool, Seq<char>>(true)
}

// ---------------------------------------------------------------------
// Lemmas
// ---------------------------------------------------------------------

/// Advancing skips candidates and changes nothing else.
proof fn lemma_advanced(v: EvaluationView)
    requires
        0 <= v.next,
    ensures
        advanced(v) matches StepView::LookupScope(w) ==> {
            &&& v.next <= w.next < w.candidates.len()
            &&& w.candidates == v.candidates
            &&& w.destination == v.destination
        },
    decreases v.candidates.len() - v.next,
{
    if v.next < v.candidates.len() {
        let c = v.candidates[v.next];
        if let Some(reason) = candidate_denial(c, signature_verdict(c)) {
            lemma_advanced(v.after_denial(reason));
        }
    }
}

proof fn lemma_answered(v: EvaluationView, answer: Result<bool, Seq<char>>)
    requires
        0 <= v.next < v.candidates.len(),
    ensures
        waits_at_candidate(answered(v, answer)),
        undecided(answered(v, answer)) < undecided(StepView::LookupScope(v)),
        undecided(answered(v, answer)) >= 0,
{
    if let Some(reason) = scope_denial(v.candidates[v.next], v.destination, answer) {
        lemma_advanced(v.after_denial(reason));
    }
}

/// The decision when candidates are taken one after the other.
spec fn walked(v: EvaluationView, answers: spec_fn(int) -> Result<bool, Seq<char>>) -> DecisionView
    decreases v.candidates.len() - v.next,
{
    if v.next >= v.candidates.len() {
        v.exhausted()
    } else {
        match denial(v.candidates[v.next], v.destination, answers(v.next)) {
            None => DecisionView::Allow { source_identity: v.source_identity },
            Some(reason) => walked(v.after_denial(reason), answers),
        }
    }
}

proof fn lemma_walked(v: EvaluationView, answers: spec_fn(int) -> Result<bool, Seq<char>>)
    requires
        0 <= v.next,
    ensures
        reached(advanced(v), answers) == walked(v, answers),
    decreases v.candidates.len() - v.next,
{
    reveal_with_fuel(reached, 2);
    lemma_advanced(v);
    if v.next < v.candidates.len() {
        let c = v.candidates[v.next];
        match candidate_denial(c, signature_verdict(c)) {
            Some(reason) => lemma_walked(v.after_denial(reason), answers),
            None => {
                lemma_answered(v, answers(v.next));
                match scope_denial(c, v.destination, answers(v.next)) {
                    Some(reason) => lemma_walked(v.after_denial(reason), answers),
                    None => {},
                }
            },
        }
    }
}

/// Walking ends at the first candidate that is not turned down, or after the
/// last one.
proof fn lemma_walk_outcome(v: EvaluationView, answers: spec_fn(int) -> Result<bool, Seq<char>>)
    requires
        0 <= v.next <= v.candidates.len(),
    ensures
        match walked(v, answers) {
            DecisionView::Allow { source_identity } => source_identity == v.source_identity && (
            exists|i: int|
                v.next <= i < v.candidates.len() && denial(
                    #[trigger] v.candidates[i],
                    v.destination,
                    answers(i),
                ) is None),
            DecisionView::Deny { source_identity, reason } => {
                &&& source_identity == Some(v.source_identity)
                &&& forall|i: int|
                    v.next <= i < v.candidates.len() ==> denial(
                        #[trigger] v.candidates[i],
                        v.destination,
                        answers(i),
                    ) is Some
                &&& v.next < v.candidates.len() ==> denial(
                    v.candidates.last(),
                    v.destination,
                    answers(v.candidates.len() - 1),
                ) == Some(reason)
                &&& v.next == v.candidates.len() ==> walked(v, answers) == v.exhausted()
            },
        },
    decreases v.candidates.len() - v.next,
{
    if v.next < v.candidates.len() {
        match denial(v.candidates[v.next], v.destination, answers(v.next)) {
            None => {},
            Some(reason) => {
                let w = v.after_denial(reason);
                lemma_walk_outcome(w, answers);
                assert(walked(v, answers) == walked(w, answers));
                if let DecisionView::Deny { source_identity, reason: final_reason } = walked(
                    w,
                    answers,
                ) {
                    assert forall|i: int| v.next <= i < v.candidates.len() implies denial(
                        #[trigger] v.candidates[i],
                        v.destination,
                        answers(i),
                    ) is Some by {
                        if i > v.next {
                            assert(w.candidates[i] == v.candidates[i]);
                        }
                    }
                } else {
                    let i = choose|i: int|
                        w.next <= i < w.candidates.len() && denial(
                            #[trigger] w.candidates[i],
                            w.destination,
                            answers(i),
                        ) is None;
                    assert(v.candidates[i] == w.candidates[i]);
                }
            },
        }
    }
}

spec fn start(p: PendingView, candidates: Seq<CandidatePermission>) -> EvaluationView {
    EvaluationView {
        source_identity: p.source_identity,
        destination: p.destination,
        requested: p.requested,
        candidates,
        next: 0,
        last_denial: None,
    }
}

// ---------------------------------------------------------------------
// Laws
// ---------------------------------------------------------------------

/// A candidate is turned down exactly where one of its checks fails.
pub proof fn law_denial_iff_check_fails(
    c: CandidatePermission,
    destination: Seq<char>,
    answer: Result<bool, Seq<char>>,
)
    ensures
        denial(c, destination, answer) is None <==> passes(c, answer),
{
    reveal(candidate_denial);
    reveal(scope_denial);
}

/// A request is allowed exactly where all of this holds: the client's leaf
/// certificate gives an identity, the destination has a canonical form, the
/// registry gives out permissions, and one of them has an active signing key,
/// a subject key, a good signature, and a signer that may delegate the
/// destination. The identity in the decision is that of the certificate.
pub proof fn law_allow_iff_every_check_passes(
    subject: Result<(Seq<char>, Seq<u8>), Seq<char>>,
    requested: Seq<char>,
    lookup: Result<Seq<CandidatePermission>, Seq<char>>,
    answers: spec_fn(int) -> Result<bool, Seq<char>>,
)
    ensures
        evaluation(subject, requested, lookup, answers) is Allow <==> {
            &&& subject is Ok
            &&& normalized(requested) is Ok
            &&& lookup is Ok
            &&& exists|i: int|
                0 <= i < lookup->Ok_0.len() && passes(#[trigger] lookup->Ok_0[i], answers(i))
        },
        evaluation(subject, requested, lookup, answers) matches DecisionView::Allow {
            source_identity,
        } ==> subject is Ok && source_identity == subject->Ok_0.0,
{
    if let BeginView::LookupPermissions(p) = begun(subject, requested) {
        if let Ok(candidates) = lookup {
            let v = start(p, candidates);
            lemma_walked(v, answers);
            lemma_walk_outcome(v, answers);
            assert forall|i: int| 0 <= i < candidates.len() implies (denial(
                #[trigger] candidates[i],
                p.destination,
                answers(i),
            ) is None <==> passes(candidates[i], answers(i))) by {
                law_denial_iff_check_fails(candidates[i], p.destination, answers(i));
            }
            if walked(v, answers) is Allow {
                let i = choose|i: int|
                    v.next <= i < v.candidates.len() && denial(
                        #[trigger] v.candidates[i],
                        v.destination,
                        answers(i),
                    ) is None;
                assert(passes(candidates[i], answers(i)));
            } else {
                assert forall|i: int| 0 <= i < candidates.len() implies !passes(
                    #[trigger] candidates[i],
                    answers(i),
                ) by {
                    assert(denial(v.candidates[i], v.destination, answers(i)) is Some);
                }
            }
        }
    }
}

/// A client that is known and asks for a destination that can be made out is
/// denied under its identity. The reason is why the last permission was
/// turned down, or that there was none.
pub proof fn law_denial_reason(
    subject: Result<(Seq<char>, Seq<u8>), Seq<char>>,
    requested: Seq<char>,
    candidates: Seq<CandidatePermission>,
    answers: spec_fn(int) -> Result<bool, Seq<char>>,
)
    requires
        subject is Ok,
        normalized(requested) is Ok,
    ensures
        evaluation(subject, requested, Ok(candidates), answers) matches DecisionView::Deny {
            source_identity,
            reason,
        } ==> {
            let (identity, _) = subject->Ok_0;
            &&& source_identity == Some(identity)
            &&& if candidates.len() == 0 {
                reason == "no active signed permission for destination "@ + debug_text(requested)
                    + " and identity "@ + debug_text(identity)
            } else {
                denial(
                    candidates.last(),
                    normalized(requested)->Ok_0,
                    answers(candidates.len() - 1),
                ) == Some(reason)
            }
        },
{
    if let BeginView::LookupPermissions(p) = begun(subject, requested) {
        let v = start(p, candidates);
        lemma_walked(v, answers);
        lemma_walk_outcome(v, answers);
    }
}

/// The registry is asked for permissions that bind all three: the identity in
/// the client's certificate, the canonical destination, and the key of that
/// same certificate.
pub proof fn law_lookup_binds_client_and_destination(
    subject: Result<(Seq<char>, Seq<u8>), Seq<char>>,
    requested: Seq<char>,
)
    ensures
        begun(subject, requested) matches BeginView::LookupPermissions(p) ==> {
            &&& subject == Ok::<(Seq<char>, Seq<u8>), Seq<char>>((p.source_identity, p.spki_der))
            &&& normalized(requested) == Ok::<Seq<char>, DestinationFault>(p.destination)
        },
        begun(subject, requested) is LookupPermissions <==> subject is Ok && normalized(
            requested,
        ) is Ok,
{
}

/// A client that is not known is denied without an identity, and the registry
/// is not asked.
pub proof fn law_unknown_client_is_denied(
    reason: Seq<char>,
    requested: Seq<char>,
    lookup: Result<Seq<CandidatePermission>, Seq<char>>,
    answers: spec_fn(int) -> Result<bool, Seq<char>>,
)
    ensures
        begun(Err(reason), requested) is Decided,
        evaluation(Err(reason), requested, lookup, answers) == (DecisionView::Deny {
            source_identity: None,
            reason,
        }),
{
}

/// How a destination is spelled does not matter: requests for the same
/// canonical destination ask the registry for the same permissions, and the
/// same answers allow both or neither.
pub proof fn law_spelling_does_not_matter(
    subject: Result<(Seq<char>, Seq<u8>), Seq<char>>,
    first: Seq<char>,
    second: Seq<char>,
    lookup: Result<Seq<CandidatePermission>, Seq<char>>,
    answers: spec_fn(int) -> Result<bool, Seq<char>>,
)
    requires
        normalized(first) is Ok,
        normalized(first) == normalized(second),
    ensures
        begun(subject, first) matches BeginView::LookupPermissions(p) ==> begun(subject, second)
            == BeginView::LookupPermissions(PendingView { requested: second, ..p }),
        evaluation(subject, first, lookup, answers) is Allow <==> evaluation(
            subject,
            second,
            lookup,
            answers,
        ) is Allow,
{
    law_allow_iff_every_check_passes(subject, first, lookup, answers);
    law_allow_iff_every_check_passes(subject, second, lookup, answers);
}

// ---------------------------------------------------------------------
// Rows
// ---------------------------------------------------------------------

/// Whether a row is good by itself: its signing key is active, it is bound to
/// a key of the subject, and its signing key, which has the one algorithm and
/// reads as a P-256 key, verifies its signature over its signed text.
#[verifier::opaque]
pub open spec fn is_good_row(c: CandidatePermission) -> bool {
    &&& c.signer_active_now
    &&& c.subject_public_key_spki_der is Some
    &&& c.signer_algorithm@ == "ecdsa_p256_sha256"@
    &&& p256_public_key(c.signer_public_key_spki_der@) matches Ok(key) && (p256_signature(
        c.signature@,
    ) matches Ok(signature) && p256_verification(
        key,
        encode_utf8(canonical_text(c)),
        signature,
    ) is Ok)
}

/// A row passes the checks before its signer's scope is looked up exactly
/// where it is good by itself.
pub proof fn law_good_rows_pass(c: CandidatePermission)
    ensures
        candidate_denial(c, signature_verdict(c)) is None <==> is_good_row(c),
{
    reveal(candidate_denial);
    reveal(is_good_row);
    law_signature_is_good_iff(c);
}

/// A row is turned down before the lookup exactly where its signing key is not
/// active, it has no key, or its signature is not good; the reason says which,
/// in that order.
pub proof fn law_row_is_judged(
    c: CandidatePermission,
    signature: Result<(), String>,
    r: Option<String>,
)
    requires
        call_ensures(evaluate_candidate, (&c, signature), r),
    ensures
        r is None <==> c.signer_active_now && c.subject_public_key_spki_der is Some && signature
            is Ok,
        r matches Some(reason) ==> reason@ == (if !c.signer_active_now {
            "signing key "@ + debug_text(c.signing_key_id@) + " is not active (not_before "@
                + civil_time(c.signer_not_before@).display_text() + ", not_after "@ + civil_time(
                c.signer_not_after@,
            ).display_text() + ", revoked_at "@ + (match c.signer_revoked_at {
                Some(t) => "Some("@ + civil_time(t@).debug_text() + ")"@,
                None => "None"@,
            }) + ")"@
        } else if c.subject_public_key_spki_der is None {
            "permission "@ + debug_text(c.permission_id@) + " is not bound to a subject key"@
        } else {
            "invalid permission signature for "@ + debug_text(c.permission_id@) + ": "@
                + signature->Err_0@
        }),
{
    reveal(candidate_denial);
}

/// A row is turned down after the lookup exactly where the registry does not
/// confirm that its signer may delegate the destination.
pub proof fn law_scope_is_judged(
    c: CandidatePermission,
    destination: &str,
    answer: Result<bool, String>,
    r: Option<String>,
)
    requires
        call_ensures(evaluate_scope, (&c, destination, answer), r),
    ensures
        r is None <==> answer == Ok::<bool, String>(true),
        r matches Some(reason) ==> reason@ == (match answer {
            Ok(_) => "signing key "@ + debug_text(c.signing_key_id@)
                + " is not allowed to delegate "@ + debug_text(destination@),
            Err(e) => "signer scope lookup failed: "@ + e@,
        }),
{
    reveal(scope_denial);
}

// ---------------------------------------------------------------------
// Steps
// ---------------------------------------------------------------------

/// Whether an evaluation waits at the first good row from a position on.
pub open spec fn waits_at_first_good(
    candidates: Seq<CandidatePermission>,
    from: int,
    next: int,
) -> bool {
    &&& from <= next < candidates.len()
    &&& is_good_row(candidates[next])
    &&& forall|i: int| from <= i < next ==> !is_good_row(#[trigger] candidates[i])
}

proof fn lemma_advanced_to_good(v: EvaluationView)
    requires
        0 <= v.next <= v.candidates.len(),
    ensures
        match advanced(v) {
            StepView::LookupScope(w) => {
                &&& waits_at_first_good(v.candidates, v.next, w.next)
                &&& w.candidates == v.candidates
                &&& w.destination == v.destination
                &&& w.requested == v.requested
                &&& w.source_identity == v.source_identity
            },
            StepView::Decided(d) => {
                &&& d is Deny
                &&& d->Deny_source_identity == Some(v.source_identity)
                &&& forall|i: int|
                    v.next <= i < v.candidates.len() ==> !is_good_row(#[trigger] v.candidates[i])
                &&& v.next < v.candidates.len() ==> candidate_denial(
                    v.candidates.last(),
                    signature_verdict(v.candidates.last()),
                ) == Some(d->Deny_reason)
                &&& v.next == v.candidates.len() && v.last_denial is Some ==> v.last_denial == Some(
                    d->Deny_reason,
                )
            },
        },
    decreases v.candidates.len() - v.next,
{
    if v.next < v.candidates.len() {
        let c = v.candidates[v.next];
        law_good_rows_pass(c);
        if let Some(reason) = candidate_denial(c, signature_verdict(c)) {
            let w = v.after_denial(reason);
            lemma_advanced_to_good(w);
            assert(advanced(v) == advanced(w));
            assert(w.candidates == v.candidates && w.next == v.next + 1);
        } else {
            assert(advanced(v) == StepView::LookupScope(v));
        }
    } else {
        assert(advanced(v) == StepView::Decided(v.exhausted()));
    }
}

/// Once the rows are there, the first good one is asked about; where none is
/// good, or the lookup failed, the client is denied under its identity.
pub proof fn law_first_good_row_is_asked_about(
    p: PendingLookup,
    lookup: Result<Vec<CandidatePermission>, String>,
    r: PolicyStep,
)
    requires
        call_ensures(PendingLookup::on_candidates, (p, lookup), r),
    ensures
        match lookup {
            Err(e) => r matches PolicyStep::Decided(d) && d@ == (DecisionView::Deny {
                source_identity: Some(p@.source_identity),
                reason: "authorization registry lookup failed: "@ + e@,
            }),
            Ok(rows) => match r {
                PolicyStep::LookupScope(e) => {
                    &&& waits_at_first_good(rows@, 0, e@.next)
                    &&& e@.candidates == rows@
                    &&& e@.destination == p@.destination
                    &&& e@.source_identity == p@.source_identity
                },
                PolicyStep::Decided(d) => {
                    &&& d is Deny
                    &&& forall|i: int| 0 <= i < rows@.len() ==> !is_good_row(#[trigger] rows@[i])
                    &&& d@->Deny_source_identity == Some(p@.source_identity)
                    &&& rows@.len() > 0 ==> candidate_denial(
                        rows@.last(),
                        signature_verdict(rows@.last()),
                    ) == Some(d@->Deny_reason)
                    &&& rows@.len() == 0 ==> d@ == (DecisionView::Deny {
                        source_identity: Some(p@.source_identity),
                        reason: "no active signed permission for destination "@ + debug_text(
                            p@.requested,
                        ) + " and identity "@ + debug_text(p@.source_identity),
                    })
                },
            },
        },
{
    if let Ok(rows) = lookup {
        lemma_advanced_to_good(start(p@, rows@));
        match r {
            PolicyStep::Decided(d) => match d {
                PolicyDecision::Allow { .. } => {},
                PolicyDecision::Deny { .. } => {},
            },
            _ => {},
        }
    }
}

/// Where the registry confirms the delegation, the client is allowed under its
/// identity. Otherwise the next good row is asked about, and the client is
/// denied where there is none, for the reason against the last row.
pub proof fn law_answer_decides(e: Evaluation, answer: Result<bool, String>, r: PolicyStep)
    requires
        call_ensures(Evaluation::on_scope, (e, answer), r),
    ensures
        0 <= e@.next < e@.candidates.len(),
        is_good_row(e@.candidates[e@.next]),
        answer == Ok::<bool, String>(true) ==> (r matches PolicyStep::Decided(d) && d@
            == (DecisionView::Allow { source_identity: e@.source_identity })),
        answer != Ok::<bool, String>(true) ==> match r {
            PolicyStep::LookupScope(w) => {
                &&& waits_at_first_good(e@.candidates, e@.next + 1, w@.next)
                &&& w@.candidates == e@.candidates
                &&& w@.destination == e@.destination
                &&& w@.source_identity == e@.source_identity
            },
            PolicyStep::Decided(d) => {
                &&& d is Deny
                &&& forall|i: int|
                    e@.next < i < e@.candidates.len() ==> !is_good_row(#[trigger] e@.candidates[i])
                &&& d@->Deny_source_identity == Some(e@.source_identity)
                &&& (if e@.next + 1 < e@.candidates.len() {
                    candidate_denial(
                        e@.candidates.last(),
                        signature_verdict(e@.candidates.last()),
                    )
                } else {
                    scope_denial(
                        e@.candidates[e@.next],
                        e@.destination,
                        crate::policy::plain_answer(answer),
                    )
                }) == Some(d@->Deny_reason)
            },
        },
{
    reveal(scope_denial);
    let c = e@.candidates[e@.next];
    law_good_rows_pass(c);
    if let Some(reason) = scope_denial(c, e@.destination, crate::policy::plain_answer(answer)) {
        lemma_advanced_to_good(e@.after_denial(reason));
    }
    match r {
        PolicyStep::Decided(d) => match d {
            PolicyDecision::Allow { .. } => {},
            PolicyDecision::Deny { .. } => {},
        },
        _ => {},
    }
}

/// The registry is asked about the signer of the row at hand, for the
/// canonical destination and the whole validity of the row.
pub proof fn law_question_is_about_the_row(e: Evaluation, q: ScopeQuery)
    requires
        call_ensures(Evaluation::scope_query, (&e,), q),
    ensures
        0 <= e@.next < e@.candidates.len(),
        q.signing_key_id@ == e@.candidates[e@.next].signing_key_id@,
        q.destination@ == e@.destination,
        q.permission_not_before@ == e@.candidates[e@.next].permission_not_before@,
        q.permission_not_after@ == e@.candidates[e@.next].permission_not_after@,
{
}

/// The registry is asked for rows with the identity, the canonical destination
/// and the key of a lookup.
pub proof fn law_lookup_says_what_it_asks_for(
    p: PendingLookup,
    identity: &str,
    destination: &str,
    key: &[u8],
)
    requires
        call_ensures(PendingLookup::source_identity, (&p,), identity),
        call_ensures(PendingLookup::destination, (&p,), destination),
        call_ensures(PendingLookup::subject_public_key_spki_der, (&p,), key),
    ensures
        identity@ == p@.source_identity,
        destination@ == p@.destination,
        key@ == p@.spki_der,
{
}

/// An evaluation asks for rows exactly where the client's first certificate
/// parses and says an identity, and the destination has a canonical form; it
/// asks for that identity, that certificate's key and that form.
pub proof fn law_evaluation_begins(engine: PostgresPolicyEngine, ctx: RequestContext, r: BeginStep)
    requires
        call_ensures(PostgresPolicyEngine::begin, (&engine, &ctx), r),
    ensures
        r matches BeginStep::LookupPermissions(p) ==> {
            &&& ctx.peer_certificates@.len() > 0
            &&& x509_certificate(ctx.peer_certificates@[0]@) matches Ok(cert) && says_identity(
                cert,
                engine.oid(),
                p@.source_identity,
            ) && p@.spki_der == cert.spki_der
            &&& normalized(ctx.destination@) == Ok::<Seq<char>, DestinationFault>(p@.destination)
            &&& p@.requested == ctx.destination@
        },
        ctx.peer_certificates@.len() > 0 ==> (x509_certificate(
            ctx.peer_certificates@[0]@,
        ) matches Ok(cert) ==> forall|identity: Seq<char>| #[trigger]
            says_identity(cert, engine.oid(), identity) && normalized(ctx.destination@) is Ok
                ==> r is LookupPermissions),
        r matches BeginStep::Decided(d) ==> d is Deny && (match chain_subject(
            chain_bytes(ctx.peer_certificates@),
            engine.oid(),
        ) {
            Err(reason) => d@ == (DecisionView::Deny { source_identity: None, reason }),
            Ok((identity, _)) => normalized(ctx.destination@) matches Err(fault) && d@
                == (DecisionView::Deny {
                source_identity: Some(identity),
                reason: "invalid destination: "@ + fault.text(trimmed(ctx.destination@)),
            }),
        }),
{
    let chain = chain_bytes(ctx.peer_certificates@);
    let oid = engine.oid();
    match r {
        BeginStep::LookupPermissions(p) => {
            law_chain_subject(chain, oid, p@.source_identity, p@.spki_der);
        },
        BeginStep::Decided(d) => {
            match d {
                PolicyDecision::Allow { .. } => {},
                PolicyDecision::Deny { .. } => {},
            }
            if ctx.peer_certificates@.len() > 0 {
                if let Ok(cert) = x509_certificate(ctx.peer_certificates@[0]@) {
                    assert forall|identity: Seq<char>| #[trigger]
                        says_identity(cert, oid, identity) && normalized(
                        ctx.destination@,
                    ) is Ok implies false by {
                        law_chain_subject(chain, oid, identity, cert.spki_der);
                    }
                }
            }
        },
    }
}

// ---------------------------------------------------------------------
// Evaluations
// ---------------------------------------------------------------------

/// A request is allowed exactly where the client is known, the destination has
/// a canonical form, and the registry gives out a good row whose signer it
/// confirms. Nothing else about the rows, nor their order, matters.
pub proof fn law_allowed_exactly_by_good_row(
    subject: Result<(Seq<char>, Seq<u8>), Seq<char>>,
    requested: Seq<char>,
    lookup: Result<Seq<CandidatePermission>, Seq<char>>,
    answers: spec_fn(int) -> Result<bool, Seq<char>>,
)
    ensures
        evaluation(subject, requested, lookup, answers) is Allow <==> subject is Ok && normalized(
            requested,
        ) is Ok && (lookup matches Ok(rows) && exists|i: int|
            0 <= i < rows.len() && is_good_row(#[trigger] rows[i]) && answers(i) == Ok::<
                bool,
                Seq<char>,
            >(true)),
        evaluation(subject, requested, lookup, answers) matches DecisionView::Allow {
            source_identity,
        } ==> subject is Ok && source_identity == (subject->Ok_0).0,
{
    law_allow_iff_every_check_passes(subject, requested, lookup, answers);
    if let Ok(rows) = lookup {
        assert forall|i: int| 0 <= i < rows.len() implies (passes(#[trigger] rows[i], answers(i))
            <==> is_good_row(rows[i]) && answers(i) == Ok::<bool, Seq<char>>(true)) by {
            reveal(is_good_row);
            law_signature_is_good_iff(rows[i]);
        }
        if exists|i: int| 0 <= i < rows.len() && passes(#[trigger] rows[i], answers(i)) {
            let i = choose|i: int| 0 <= i < rows.len() && passes(#[trigger] rows[i], answers(i));
            assert(is_good_row(rows[i]));
        }
        if exists|i: int|
            0 <= i < rows.len() && is_good_row(#[trigger] rows[i]) && answers(i) == Ok::<
                bool,
                Seq<char>,
            >(true) {
            let i = choose|i: int|
                0 <= i < rows.len() && is_good_row(#[trigger] rows[i]) && answers(i) == Ok::<
                    bool,
                    Seq<char>,
                >(true);
            assert(passes(lookup->Ok_0[i], answers(i)));
        }
    }
}

/// A policy is made exactly where its identifier is an object identifier, and
/// looks for the extension with that identifier.
pub proof fn law_policy_looks_for_its_extension(
    value: &str,
    oid: Result<ClientExtOid, OidFault>,
    r: Result<PostgresPolicyEngine, OidFault>,
)
    requires
        call_ensures(PostgresPolicyEngine::new, (value,), r),
        call_ensures(parse_client_ext_oid, (value,), oid),
    ensures
        r is Ok <==> oid is Ok,
        r is Ok ==> (r->Ok_0).oid() == (oid->Ok_0)@,
        r is Err ==> r->Err_0 == oid->Err_0,
{
}

} // verus!
