//! What the gateway as a whole promises: a tunnel exists only with a signed
//! permission.

use vstd::prelude::*;
use vstd::utf8::is_ascii_chars;

use crate::certificate::{chain_subject, x509_certificate};
use crate::certificate_laws::{law_chain_subject, says_identity};
use crate::permission::{canonical_text, grant_text, signature_verdict, signed_text};
use crate::policy::{begun, BeginView, DecisionView, PendingView};
use crate::policy_laws::{
    evaluation, is_good_row, law_allow_iff_every_check_passes, law_allowed_exactly_by_good_row,
    law_lookup_binds_client_and_destination, passes,
};
use crate::proxy::{
    authority_error, denied_reply, destination_of, early_reply, requested_destination,
    upstream_reply, Method, ReplyView, STATUS_BAD_GATEWAY, STATUS_FORBIDDEN, STATUS_OK,
};
use crate::proxy_laws::law_destination_is_canonical;
use crate::registry::CandidatePermission;

verus! {

/// A request to the gateway, and the client that makes it.
pub struct GatewayRequest {
    pub method: Method,
    /// The text of the authority, if there is one.
    pub authority: Option<Seq<char>>,
    /// The certificates that the client presented.
    pub chain: Seq<Seq<u8>>,
}

/// What the world answers while a request is handled.
pub struct Surroundings {
    /// The permissions that the registry gives out.
    pub lookup: Result<Seq<CandidatePermission>, Seq<char>>,
    /// The registry's answer about the signer of each of them.
    pub answers: spec_fn(int) -> Result<bool, Seq<char>>,
    /// Whether the destination can be reached.
    pub connected: bool,
}

/// The reply of the gateway to a request: the request is looked at, put to
/// the policy, and only then connected.
pub open spec fn gateway_reply(
    request: GatewayRequest,
    oid: Seq<u8>,
    world: Surroundings,
) -> ReplyView {
    match early_reply(request.method, request.authority) {
        Some(reply) => reply,
        None => {
            let destination = requested_destination(request.authority)->Ok_0;
            match evaluation(
                chain_subject(request.chain, oid),
                destination.authority,
                world.lookup,
                world.answers,
            ) {
                DecisionView::Allow { .. } => upstream_reply(world.connected),
                DecisionView::Deny { .. } => denied_reply(),
            }
        },
    }
}

/// Whether the registry holds a permission that lets a request through.
pub open spec fn has_permission(world: Surroundings) -> bool {
    world.lookup matches Ok(candidates) && exists|i: int|
        0 <= i < candidates.len() && passes(#[trigger] candidates[i], (world.answers)(i))
}

/// A tunnel is reported exactly where all of this holds: the request is a
/// CONNECT with a destination, the client's certificate gives an identity,
/// the registry gives out a permission with an active signing key, a subject
/// key, a good signature and a signer that may delegate the destination, and
/// the destination was reached. Where only the last thing fails, the reply says
/// so; where one of the others does, the client is turned away.
pub proof fn law_tunnel_needs_signed_permission(
    request: GatewayRequest,
    oid: Seq<u8>,
    world: Surroundings,
)
    requires
        request.authority is Some ==> is_ascii_chars(request.authority->0),
    ensures
        ({
            let status = gateway_reply(request, oid, world).status;
            let sound = request.method == Method::Connect && requested_destination(
                request.authority,
            ) is Ok;
            let permitted = chain_subject(request.chain, oid) is Ok && has_permission(world);
            &&& status == STATUS_OK <==> sound && permitted && world.connected
            &&& status == STATUS_BAD_GATEWAY <==> sound && permitted && !world.connected
            &&& status == STATUS_FORBIDDEN <==> sound && !permitted
        }),
{
    if let Ok(d) = requested_destination(request.authority) {
        law_destination_is_canonical(request.authority->0);
        law_allow_iff_every_check_passes(
            chain_subject(request.chain, oid),
            d.authority,
            world.lookup,
            world.answers,
        );
        if let Ok(candidates) = world.lookup {
            if exists|i: int|
                0 <= i < candidates.len() && passes(#[trigger] candidates[i], (world.answers)(i)) {
                let i = choose|i: int|
                    0 <= i < candidates.len() && passes(
                        #[trigger] candidates[i],
                        (world.answers)(i),
                    );
                assert(passes(world.lookup->Ok_0[i], (world.answers)(i)));
            }
        }
    }
}

/// The registry is asked for the very destination that the gateway would
/// connect to, in canonical form, and for the identity and the key of the
/// certificate that the client presented.
pub proof fn law_permission_is_for_this_request(request: GatewayRequest, oid: Seq<u8>)
    requires
        request.authority is Some ==> is_ascii_chars(request.authority->0),
    ensures
        requested_destination(request.authority) matches Ok(d) ==> (begun(
            chain_subject(request.chain, oid),
            d.authority,
        ) matches BeginView::LookupPermissions(p) ==> {
            &&& p.destination == d.authority
            &&& chain_subject(request.chain, oid) == Ok::<(Seq<char>, Seq<u8>), Seq<char>>(
                (p.source_identity, p.spki_der),
            )
        }),
{
    if let Ok(d) = requested_destination(request.authority) {
        law_destination_is_canonical(request.authority->0);
        law_lookup_binds_client_and_destination(chain_subject(request.chain, oid), d.authority);
    }
}

/// Whether a permission is one that was asked for: it names the identity, the
/// destination and the key of the question.
pub open spec fn answers_question(c: CandidatePermission, p: PendingView) -> bool {
    &&& c.subject_identity@ == p.source_identity
    &&& c.destination@ == p.destination
    &&& c.subject_public_key_spki_der matches Some(key) && key@ == p.spki_der
}

/// Whether the registry gives out only permissions that a request has it asked
/// for.
pub open spec fn registry_keeps_to_question(
    request: GatewayRequest,
    oid: Seq<u8>,
    world: Surroundings,
) -> bool {
    requested_destination(request.authority) matches Ok(d) ==> (begun(
        chain_subject(request.chain, oid),
        d.authority,
    ) matches BeginView::LookupPermissions(p) ==> (world.lookup matches Ok(candidates) ==> forall|
        i: int,
    |
        0 <= i < candidates.len() ==> answers_question(#[trigger] candidates[i], p)))
}

/// Whether a permission covers a client and a destination by its signature:
/// the signed text names the identity, the key and the destination, the
/// signing key made the signature over that text, and that key is active.
pub open spec fn covers(
    c: CandidatePermission,
    identity: Seq<char>,
    key: Seq<u8>,
    destination: Seq<char>,
) -> bool {
    &&& c.signer_active_now
    &&& signed_text(
        c,
        grant_text(
            c.permission_id@,
            c.signing_key_id@,
            identity,
            key,
            destination,
            c.permission_not_before@,
            c.permission_not_after@,
        ),
    )
}

/// A tunnel, or an attempt at one, rests on a signature about this very
/// client and this very destination. Where the registry gives out only what it
/// was asked for, one of its permissions has a signed text with the client's
/// identity, the key of the client's leaf certificate, and the canonical form
/// of the destination that is connected to; the signature is good over that
/// text, and its signer may delegate the destination.
pub proof fn law_tunnel_rests_on_signature_about_it(
    request: GatewayRequest,
    oid: Seq<u8>,
    world: Surroundings,
)
    requires
        request.authority is Some ==> is_ascii_chars(request.authority->0),
        registry_keeps_to_question(request, oid, world),
    ensures
        ({
            let status = gateway_reply(request, oid, world).status;
            status == STATUS_OK || status == STATUS_BAD_GATEWAY
        }) ==> (requested_destination(request.authority) matches Ok(d) && (chain_subject(
            request.chain,
            oid,
        ) matches Ok(subject) && (world.lookup matches Ok(candidates) && exists|i: int|
            0 <= i < candidates.len() && covers(
                #[trigger] candidates[i],
                subject.0,
                subject.1,
                d.authority,
            ) && (world.answers)(i) == Ok::<bool, Seq<char>>(true)))),
{
    let status = gateway_reply(request, oid, world).status;
    law_tunnel_needs_signed_permission(request, oid, world);
    law_permission_is_for_this_request(request, oid);
    if status == STATUS_OK || status == STATUS_BAD_GATEWAY {
        let d = requested_destination(request.authority)->Ok_0;
        let (identity, key) = chain_subject(request.chain, oid)->Ok_0;
        law_destination_is_canonical(request.authority->0);
        let candidates = world.lookup->Ok_0;
        let i = choose|i: int|
            0 <= i < candidates.len() && passes(#[trigger] candidates[i], (world.answers)(i));
        let c = candidates[i];
        let p = begun(chain_subject(request.chain, oid), d.authority)->LookupPermissions_0;
        assert(answers_question(c, p));
        assert(canonical_text(c) == grant_text(
            c.permission_id@,
            c.signing_key_id@,
            identity,
            key,
            d.authority,
            c.permission_not_before@,
            c.permission_not_after@,
        ));
        reveal(signature_verdict);
        assert(covers(candidates[i], identity, key, d.authority));
    }
}

/// A tunnel is reported exactly where all of this holds: the request is a
/// CONNECT with a destination, the first certificate says who the client is,
/// the registry gives out a good row whose signer it confirms, and the
/// destination was reached. Where only the last thing fails the status is 502;
/// where the client may not go there it is 403.
pub proof fn law_tunnel_exactly_by_good_row(
    request: GatewayRequest,
    oid: Seq<u8>,
    world: Surroundings,
)
    requires
        request.authority is Some ==> is_ascii_chars(request.authority->0),
    ensures
        ({
            let status = gateway_reply(request, oid, world).status;
            let sound = request.method == Method::Connect && request.authority is Some
                && authority_error(request.authority->0) is None && destination_of(
                request.authority->0,
            ) is Ok;
            let known = request.chain.len() > 0 && (x509_certificate(
                request.chain[0],
            ) matches Ok(cert) && exists|identity: Seq<char>| #[trigger]
                says_identity(cert, oid, identity));
            let granted = world.lookup matches Ok(rows) && exists|i: int|
                0 <= i < rows.len() && is_good_row(#[trigger] rows[i]) && (world.answers)(i)
                    == Ok::<bool, Seq<char>>(true);
            &&& status == 200 <==> sound && known && granted && world.connected
            &&& status == 502 <==> sound && known && granted && !world.connected
            &&& status == 403 <==> sound && !(known && granted)
        }),
{
    let subject = chain_subject(request.chain, oid);
    law_known_client(request.chain, oid);
    if let Ok(d) = requested_destination(request.authority) {
        law_destination_is_canonical(request.authority->0);
        law_allowed_exactly_by_good_row(subject, d.authority, world.lookup, world.answers);
    }
}

/// A client is known exactly where its first certificate parses and says an
/// identity.
pub proof fn law_known_client(chain: Seq<Seq<u8>>, oid: Seq<u8>)
    ensures
        chain_subject(chain, oid) is Ok <==> chain.len() > 0 && (x509_certificate(
            chain[0],
        ) matches Ok(cert) && exists|identity: Seq<char>| #[trigger]
            says_identity(cert, oid, identity)),
{
    if let Ok(subject) = chain_subject(chain, oid) {
        law_chain_subject(chain, oid, subject.0, subject.1);
    }
    if chain.len() > 0 {
        if let Ok(cert) = x509_certificate(chain[0]) {
            if exists|identity: Seq<char>| #[trigger] says_identity(cert, oid, identity) {
                let identity = choose|identity: Seq<char>| #[trigger]
                    says_identity(cert, oid, identity);
                law_chain_subject(chain, oid, identity, cert.spki_der);
            }
        }
    }
}

} // verus!
