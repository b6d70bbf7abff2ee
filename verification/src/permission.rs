//! Signed permissions: which bytes a signature covers, and whether it is good.

use vstd::prelude::*;
use vstd::utf8::encode_utf8;

use crate::number::{hex, hex_text};
use crate::registry::CandidatePermission;
use crate::text::{debug_string, debug_text, same_text};
use crate::timestamp::civil_time;

use p256::ecdsa::signature::Verifier;
use p256::ecdsa::{Signature, VerifyingKey};
use p256::pkcs8::DecodePublicKey;

verus! {

// ---------------------------------------------------------------------
// The signed bytes
// ---------------------------------------------------------------------

/// A line that holds one field.
pub open spec fn field_line(label: Seq<char>, value: Seq<char>) -> Seq<char> {
    label + value + seq!['\n']
}

/// The line of the key that a permission is bound to, if it is bound to one.
pub open spec fn key_line(key: Option<Vec<u8>>) -> Seq<char> {
    match key {
        Some(spki) => field_line("subject_public_key_spki_der="@, hex(spki@)),
        None => Seq::empty(),
    }
}

/// The text that the signature of a permission covers.
pub open spec fn canonical_text(c: CandidatePermission) -> Seq<char> {
    field_line("agent-gateway-permission-v1"@, Seq::empty()) + field_line(
        "permission_id="@,
        c.permission_id@,
    ) + field_line("signing_key_id="@, c.signing_key_id@) + field_line(
        "subject_identity="@,
        c.subject_identity@,
    ) + key_line(c.subject_public_key_spki_der) + field_line("destination="@, c.destination@)
        + field_line("not_before="@, civil_time(c.permission_not_before@).rfc3339_text())
        + field_line("not_after="@, civil_time(c.permission_not_after@).rfc3339_text())
}

/// The signed text of a permission that is bound to a key, from what it says.
pub open spec fn grant_text(
    permission_id: Seq<char>,
    signing_key_id: Seq<char>,
    identity: Seq<char>,
    key: Seq<u8>,
    destination: Seq<char>,
    not_before: int,
    not_after: int,
) -> Seq<char> {
    field_line("agent-gateway-permission-v1"@, Seq::empty()) + field_line(
        "permission_id="@,
        permission_id,
    ) + field_line("signing_key_id="@, signing_key_id) + field_line("subject_identity="@, identity)
        + field_line("subject_public_key_spki_der="@, hex(key)) + field_line(
        "destination="@,
        destination,
    ) + field_line("not_before="@, civil_time(not_before).rfc3339_text()) + field_line(
        "not_after="@,
        civil_time(not_after).rfc3339_text(),
    )
}

/// Appends a line that holds one field.
fn push_line(out: &mut String, label: &str, value: &str)
    ensures
        final(out)@ == old(out)@ + field_line(label@, value@),
{
    out.append(label);
    out.append(value);
    out.push('\n');
    assert(out@ == old(out)@ + field_line(label@, value@));
}

/// The bytes that the signature of a permission covers: its fields in a fixed
/// order, one to a line, in UTF-8.
pub fn canonical_permission_bytes(candidate: &CandidatePermission) -> (r: Vec<u8>)
    ensures
        r@ == encode_utf8(canonical_text(*candidate)),
{
    let mut text = String::new();
    push_line(&mut text, "agent-gateway-permission-v1", "");
    push_line(&mut text, "permission_id=", candidate.permission_id.as_str());
    push_line(&mut text, "signing_key_id=", candidate.signing_key_id.as_str());
    push_line(&mut text, "subject_identity=", candidate.subject_identity.as_str());
    match &candidate.subject_public_key_spki_der {
        Some(spki) => {
            let digits = hex_text(spki.as_slice());
            push_line(&mut text, "subject_public_key_spki_der=", digits.as_str());
        },
        None => {},
    }
    push_line(&mut text, "destination=", candidate.destination.as_str());
    let not_before = candidate.permission_not_before.rfc3339();
    push_line(&mut text, "not_before=", not_before.as_str());
    let not_after = candidate.permission_not_after.rfc3339();
    push_line(&mut text, "not_after=", not_after.as_str());
    proof {
        reveal_strlit("");
        assert(""@ == Seq::<char>::empty());
        assert(text@ == canonical_text(*candidate));
    }
    text.as_str().as_bytes_vec()
}

// ---------------------------------------------------------------------
// Signatures
// ---------------------------------------------------------------------

/// The point, in SEC1 form, of the P-256 key that `VerifyingKey` reads from a
/// SubjectPublicKeyInfo, or the text of its error.
pub uninterp spec fn p256_public_key(spki: Seq<u8>) -> Result<Seq<u8>, Seq<char>>;

/// The two halves, one after the other, of the signature that `Signature`
/// reads from its DER encoding, or the text of its error.
pub uninterp spec fn p256_signature(der: Seq<u8>) -> Result<Seq<u8>, Seq<char>>;

/// Whether a P-256 key made a signature of a message with SHA-256, or the
/// text of the error.
pub uninterp spec fn p256_verification(
    key: Seq<u8>,
    message: Seq<u8>,
    signature: Seq<u8>,
) -> Result<(), Seq<char>>;

/// `p256::ecdsa::VerifyingKey::from_public_key_der`, then its SEC1 form.
///
/// Trusted: the key depends on the bytes alone. Which bytes are a key is left
/// unsaid.
#[verifier::external_body]
fn read_public_key(spki: &[u8]) -> (r: Result<Vec<u8>, String>)
    ensures
        match r {
            Ok(key) => p256_public_key(spki@) == Ok::<Seq<u8>, Seq<char>>(key@),
            Err(e) => p256_public_key(spki@) == Err::<Seq<u8>, Seq<char>>(e@),
        },
{
    match VerifyingKey::from_public_key_der(spki) {
        Ok(key) => Ok(key.to_encoded_point(false).as_bytes().to_vec()),
        Err(e) => Err(e.to_string()),
    }
}

/// `p256::ecdsa::Signature::from_der`, then its two halves.
///
/// Trusted: the signature depends on the bytes alone. Which bytes are a
/// signature is left unsaid.
#[verifier::external_body]
fn read_signature(der: &[u8]) -> (r: Result<Vec<u8>, String>)
    ensures
        match r {
            Ok(halves) => p256_signature(der@) == Ok::<Seq<u8>, Seq<char>>(halves@),
            Err(e) => p256_signature(der@) == Err::<Seq<u8>, Seq<char>>(e@),
        },
{
    match Signature::from_der(der) {
        Ok(signature) => Ok(signature.to_bytes().to_vec()),
        Err(e) => Err(e.to_string()),
    }
}

/// `p256::ecdsa::VerifyingKey::verify`, on a key in SEC1 form and the two
/// halves of a signature.
///
/// Trusted: the outcome depends on the key, the message and the signature
/// alone. Which signatures are good is left unsaid.
#[verifier::external_body]
fn verify_message(key: &[u8], message: &[u8], signature: &[u8]) -> (r: Result<(), String>)
    ensures
        match r {
            Ok(_) => p256_verification(key@, message@, signature@) == Ok::<(), Seq<char>>(()),
            Err(e) => p256_verification(key@, message@, signature@) == Err::<(), Seq<char>>(e@),
        },
{
    let key = VerifyingKey::from_sec1_bytes(key).map_err(|e| e.to_string())?;
    let signature = Signature::from_slice(signature).map_err(|e| e.to_string())?;
    key.verify(message, &signature).map_err(|e| e.to_string())
}

/// Accepts the one algorithm that signing keys may have.
pub fn check_algorithm(algorithm: &str) -> (r: Result<(), String>)
    ensures
        match r {
            Ok(_) => algorithm@ == "ecdsa_p256_sha256"@,
            Err(e) => algorithm@ != "ecdsa_p256_sha256"@ && e@ == "unsupported signer algorithm "@
                + debug_text(algorithm@),
        },
{
    if same_text(algorithm, "ecdsa_p256_sha256") {
        return Ok(());
    }
    let quoted = debug_string(algorithm);
    Err("unsupported signer algorithm ".to_owned().concat(quoted.as_str()))
}

/// Whether the signature of a permission is good, or why it is not.
#[verifier::opaque]
pub open spec fn signature_verdict(c: CandidatePermission) -> Result<(), Seq<char>> {
    if c.signer_algorithm@ != "ecdsa_p256_sha256"@ {
        Err("unsupported signer algorithm "@ + debug_text(c.signer_algorithm@))
    } else {
        match p256_public_key(c.signer_public_key_spki_der@) {
            Err(e) => Err(e),
            Ok(key) => match p256_signature(c.signature@) {
                Err(e) => Err(e),
                Ok(signature) => p256_verification(
                    key,
                    encode_utf8(canonical_text(c)),
                    signature,
                ),
            },
        }
    }
}

/// Whether the signing key of a permission made its signature over a text.
pub open spec fn signed_text(c: CandidatePermission, text: Seq<char>) -> bool {
    &&& c.signer_algorithm@ == "ecdsa_p256_sha256"@
    &&& p256_public_key(c.signer_public_key_spki_der@) is Ok
    &&& p256_signature(c.signature@) is Ok
    &&& p256_verification(
        p256_public_key(c.signer_public_key_spki_der@)->Ok_0,
        encode_utf8(text),
        p256_signature(c.signature@)->Ok_0,
    ) is Ok
}

/// Verifies the signature of a permission over its canonical bytes.
pub fn verify_signature(candidate: &CandidatePermission) -> (r: Result<(), String>)
    ensures
        match r {
            Ok(_) => signature_verdict(*candidate) == Ok::<(), Seq<char>>(()),
            Err(e) => signature_verdict(*candidate) == Err::<(), Seq<char>>(e@),
        },
{
    reveal(signature_verdict);
    match check_algorithm(candidate.signer_algorithm.as_str()) {
        Ok(_) => {},
        Err(e) => return Err(e),
    }
    let key = match read_public_key(candidate.signer_public_key_spki_der.as_slice()) {
        Ok(key) => key,
        Err(e) => return Err(e),
    };
    let signature = match read_signature(candidate.signature.as_slice()) {
        Ok(signature) => signature,
        Err(e) => return Err(e),
    };
    let message = canonical_permission_bytes(candidate);
    verify_message(key.as_slice(), message.as_slice(), signature.as_slice())
}

} // verus!
