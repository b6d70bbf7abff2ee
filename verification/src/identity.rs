//! The key that a TPM holds for the sidecar: its handle, its public half as a
//! SubjectPublicKeyInfo, its signatures in DER.

use vstd::prelude::*;
use vstd::slice::slice_subrange;

use crate::certificate::{
    certificate_identity, certificate_spki, chain_bytes, chain_subject, extension_value,
    same_bytes, x509_certificate, ClientExtOid,
};
use crate::der::{
    arc_values, der_bit_string, der_encode_int, der_object_identifier, der_sequence,
    integer_content, joined, oid_content, tlv, ASN1_BIT_STRING_TAG,
    ASN1_BIT_STRING_ZERO_UNUSED_BITS, ASN1_INTEGER_TAG, ASN1_OBJECT_IDENTIFIER_TAG,
    ASN1_SEQUENCE_TAG,
};
use crate::number::{
    decimal, decimal_text, hex_u32, hex_u32_text, parse_hex_u32, unsigned_value, IntFault,
};
use crate::text::{chars_of, debug_string, debug_text, plain_outcome, trim, trimmed};

use sha2::{Digest, Sha256};

verus! {

/// The first handle of a key that a TPM keeps.
pub const PERSISTENT_HANDLE_START: u32 = 0x8100_0000;

/// The last handle of a key that a TPM keeps.
pub const PERSISTENT_HANDLE_END: u32 = 0x81ff_ffff;

/// The size of a coordinate of a P-256 point, and of each half of a P-256
/// signature.
pub const P256_COORDINATE_LEN: usize = 32;

/// The first octet of an uncompressed point.
pub const SEC1_UNCOMPRESSED_POINT_TAG: u8 = 0x04;

/// The number by which TLS knows ECDSA signatures with P-256 and SHA-256.
pub const ECDSA_NISTP256_SHA256: u16 = 0x0403;

// ---------------------------------------------------------------------
// Handles
// ---------------------------------------------------------------------

/// Why a text is not the handle of a key that a TPM keeps.
#[derive(Clone, Copy, Debug, PartialEq, Eq, Structural)]
pub enum HandleFault {
    /// It is not a number in hexadecimal.
    NotHex(IntFault),
    /// The number is not in the range of persistent handles.
    NotPersistent,
}

impl HandleFault {
    /// The text that describes the fault in `value`.
    pub open spec fn text(self, value: Seq<char>) -> Seq<char> {
        match self {
            HandleFault::NotHex(_) => "invalid TPM key handle "@ + debug_text(value)
                + "; expected hex"@,
            HandleFault::NotPersistent => "TPM key handle "@ + debug_text(value)
                + " is not in the persistent handle range 0x81000000..=0x81ffffff"@,
        }
    }

    /// Describes the fault in `value`.
    pub fn message(&self, value: &str) -> (r: String)
        ensures
            r@ == self.text(value@),
    {
        let quoted = debug_string(value);
        match self {
            HandleFault::NotHex(_) => "invalid TPM key handle ".to_owned().concat(
                quoted.as_str(),
            ).concat("; expected hex"),
            HandleFault::NotPersistent => "TPM key handle ".to_owned().concat(
                quoted.as_str(),
            ).concat(" is not in the persistent handle range 0x81000000..=0x81ffffff"),
        }
    }
}

/// Whether the text starts with `0x` or `0X`.
pub open spec fn has_hex_prefix(s: Seq<char>) -> bool {
    s.len() >= 2 && s[0] == '0' && (s[1] == 'x' || s[1] == 'X')
}

/// The digits of a handle: what follows the prefix, where there is one.
pub open spec fn handle_digits(s: Seq<char>) -> Seq<char> {
    if has_hex_prefix(s) {
        s.skip(2)
    } else {
        s
    }
}

/// The handle that a text denotes.
pub open spec fn tpm_key_handle(value: Seq<char>) -> Result<int, HandleFault> {
    match unsigned_value(handle_digits(trimmed(value)), 16, u32::MAX as int) {
        Err(e) => Err(HandleFault::NotHex(e)),
        Ok(handle) => if PERSISTENT_HANDLE_START <= handle <= PERSISTENT_HANDLE_END {
            Ok(handle)
        } else {
            Err(HandleFault::NotPersistent)
        },
    }
}

/// Parses the handle of a key that a TPM keeps: hexadecimal, with or without
/// a prefix.
pub fn parse_tpm_key_handle(value: &str) -> (r: Result<u32, HandleFault>)
    ensures
        match r {
            Ok(handle) => tpm_key_handle(value@) == Ok::<int, HandleFault>(handle as int),
            Err(e) => tpm_key_handle(value@) == Err::<int, HandleFault>(e),
        },
{
    let chars = chars_of(value);
    let text = trim(chars.as_slice());
    let digits = if text.len() >= 2 && text[0] == '0' && (text[1] == 'x' || text[1] == 'X') {
        slice_subrange(text, 2, text.len())
    } else {
        text
    };
    assert(digits@ == handle_digits(text@));
    match parse_hex_u32(digits) {
        Err(e) => Err(HandleFault::NotHex(e)),
        Ok(handle) => if PERSISTENT_HANDLE_START <= handle && handle <= PERSISTENT_HANDLE_END {
            Ok(handle)
        } else {
            Err(HandleFault::NotPersistent)
        },
    }
}

// ---------------------------------------------------------------------
// Keys and signatures
// ---------------------------------------------------------------------

/// The curve of an elliptic curve key.
#[derive(Clone, Copy, Debug, PartialEq, Eq, Structural)]
pub enum EccCurve {
    /// NIST P-256.
    NistP256,
    /// Another curve.
    Other,
}

/// The public half of a key, as a TPM gives it out.
#[derive(Debug)]
pub enum TpmPublic {
    /// An elliptic curve key: its curve and the coordinates of its point.
    Ecc { curve: EccCurve, x: Vec<u8>, y: Vec<u8> },
    /// A key of another kind.
    Other,
}

/// A signature, as a TPM gives it out.
#[derive(Debug)]
pub enum TpmSignature {
    /// An ECDSA signature: its two halves.
    EcDsa { r: Vec<u8>, s: Vec<u8> },
    /// A signature of another kind.
    Other,
}

/// Why the sidecar cannot use what a TPM gave out.
#[derive(Clone, Copy, Debug, PartialEq, Eq, Structural)]
pub enum TpmKeyFault {
    /// The key is not an elliptic curve key.
    NotEcc,
    /// The key is on another curve.
    NotP256,
    /// A coordinate, or half of a signature, has this many bytes.
    CoordinateTooLarge(usize),
    /// The signature is not an ECDSA signature.
    NotEcdsa,
}

impl TpmKeyFault {
    /// The text that describes the fault.
    pub open spec fn text(self) -> Seq<char> {
        match self {
            TpmKeyFault::NotEcc => "TPM key is not an ECC key"@,
            TpmKeyFault::NotP256 => "TPM key must be NIST P-256"@,
            TpmKeyFault::CoordinateTooLarge(n) => "P-256 coordinate is too large: "@ + decimal(
                n as nat,
            ) + " bytes"@,
            TpmKeyFault::NotEcdsa => "TPM returned a non-ECDSA signature"@,
        }
    }

    /// Describes the fault.
    pub fn message(&self) -> (r: String)
        ensures
            r@ == self.text(),
    {
        match self {
            TpmKeyFault::NotEcc => "TPM key is not an ECC key".to_owned(),
            TpmKeyFault::NotP256 => "TPM key must be NIST P-256".to_owned(),
            TpmKeyFault::CoordinateTooLarge(n) => {
                let size = decimal_text(*n as u64);
                "P-256 coordinate is too large: ".to_owned().concat(size.as_str()).concat(" bytes")
            },
            TpmKeyFault::NotEcdsa => "TPM returned a non-ECDSA signature".to_owned(),
        }
    }
}

/// `value` with zeros in front, so that it has the size of a coordinate.
pub open spec fn left_padded(value: Seq<u8>) -> Seq<u8> {
    Seq::new((P256_COORDINATE_LEN - value.len()) as nat, |i: int| 0u8) + value
}

/// Pads a number with zeros in front to the size of a coordinate.
pub fn left_pad_coordinate(value: &[u8]) -> (r: Result<[u8; 32], TpmKeyFault>)
    ensures
        match r {
            Ok(out) => value@.len() <= P256_COORDINATE_LEN && out@ == left_padded(value@),
            Err(e) => value@.len() > P256_COORDINATE_LEN && e == TpmKeyFault::CoordinateTooLarge(
                value@.len() as usize,
            ),
        },
{
    if value.len() > P256_COORDINATE_LEN {
        return Err(TpmKeyFault::CoordinateTooLarge(value.len()));
    }
    let mut out: [u8; 32] = [0u8; 32];
    let pad: usize = P256_COORDINATE_LEN - value.len();
    let mut i: usize = 0;
    while i < value.len()
        invariant
            i <= value@.len() <= P256_COORDINATE_LEN,
            pad == P256_COORDINATE_LEN - value@.len(),
            forall|k: int| 0 <= k < pad ==> out@[k] == 0,
            forall|k: int| pad <= k < pad + i ==> out@[k] == value@[k - pad],
        decreases value.len() - i,
    {
        out[pad + i] = value[i];
        i = i + 1;
    }
    assert(out@ == left_padded(value@));
    Ok(out)
}

/// The DER encoding of an ECDSA signature with the halves `r` and `s`.
pub open spec fn signature_der(r: Seq<u8>, s: Seq<u8>) -> Seq<u8> {
    tlv(
        ASN1_SEQUENCE_TAG,
        tlv(ASN1_INTEGER_TAG, integer_content(r)) + tlv(ASN1_INTEGER_TAG, integer_content(s)),
    )
}

/// Encodes an ECDSA signature with the halves `r` and `s`.
pub fn ecdsa_p1363_to_der(r: &[u8; 32], s: &[u8; 32]) -> (der: Vec<u8>)
    ensures
        der@ == signature_der(r@, s@),
{
    let parts = vec![der_encode_int(r.as_slice()), der_encode_int(s.as_slice())];
    assert(parts@.drop_last().drop_last() == Seq::<Vec<u8>>::empty());
    reveal_with_fuel(joined, 3);
    assert(joined(parts@) == parts@[0]@ + parts@[1]@);
    der_sequence(parts.as_slice())
}

/// The arcs of `id-ecPublicKey`.
pub open spec fn ec_public_key_arcs() -> Seq<nat> {
    seq![1, 2, 840, 10045, 2, 1]
}

/// The arcs of `prime256v1`.
pub open spec fn prime256v1_arcs() -> Seq<nat> {
    seq![1, 2, 840, 10045, 3, 1, 7]
}

/// The SubjectPublicKeyInfo of a P-256 key with the coordinates `x` and `y`.
pub open spec fn p256_spki(x: Seq<u8>, y: Seq<u8>) -> Seq<u8> {
    let algorithm = tlv(
        ASN1_SEQUENCE_TAG,
        tlv(ASN1_OBJECT_IDENTIFIER_TAG, oid_content(ec_public_key_arcs())) + tlv(
            ASN1_OBJECT_IDENTIFIER_TAG,
            oid_content(prime256v1_arcs()),
        ),
    );
    let point = seq![SEC1_UNCOMPRESSED_POINT_TAG] + x + y;
    tlv(
        ASN1_SEQUENCE_TAG,
        algorithm + tlv(ASN1_BIT_STRING_TAG, seq![ASN1_BIT_STRING_ZERO_UNUSED_BITS] + point),
    )
}

/// Encodes the SubjectPublicKeyInfo of a P-256 key.
pub fn p256_spki_der_from_coordinates(x: &[u8; 32], y: &[u8; 32]) -> (r: Vec<u8>)
    ensures
        r@ == p256_spki(x@, y@),
{
    let ec_public_key: [u32; 6] = [1, 2, 840, 10045, 2, 1];
    let prime256v1: [u32; 7] = [1, 2, 840, 10045, 3, 1, 7];
    assert(arc_values(ec_public_key@) == ec_public_key_arcs());
    assert(arc_values(prime256v1@) == prime256v1_arcs());
    let ids = vec![
        der_object_identifier(ec_public_key.as_slice()),
        der_object_identifier(prime256v1.as_slice()),
    ];
    assert(ids@.drop_last().drop_last() == Seq::<Vec<u8>>::empty());
    reveal_with_fuel(joined, 3);
    assert(joined(ids@) == ids@[0]@ + ids@[1]@);
    let algorithm = der_sequence(ids.as_slice());

    let mut point: Vec<u8> = Vec::new();
    point.push(SEC1_UNCOMPRESSED_POINT_TAG);
    point.extend_from_slice(x.as_slice());
    point.extend_from_slice(y.as_slice());
    assert(point@ == seq![SEC1_UNCOMPRESSED_POINT_TAG] + x@ + y@);

    let parts = vec![algorithm, der_bit_string(point.as_slice())];
    assert(parts@.drop_last().drop_last() == Seq::<Vec<u8>>::empty());
    assert(joined(parts@) == parts@[0]@ + parts@[1]@);
    der_sequence(parts.as_slice())
}

/// The SubjectPublicKeyInfo of a key that a TPM gave out. Only P-256 keys
/// have one here.
pub open spec fn tpm_public_spki(public: TpmPublic) -> Result<Seq<u8>, TpmKeyFault> {
    match public {
        TpmPublic::Other => Err(TpmKeyFault::NotEcc),
        TpmPublic::Ecc { curve, x, y } => if curve != EccCurve::NistP256 {
            Err(TpmKeyFault::NotP256)
        } else if x@.len() > P256_COORDINATE_LEN {
            Err(TpmKeyFault::CoordinateTooLarge(x@.len() as usize))
        } else if y@.len() > P256_COORDINATE_LEN {
            Err(TpmKeyFault::CoordinateTooLarge(y@.len() as usize))
        } else {
            Ok(p256_spki(left_padded(x@), left_padded(y@)))
        },
    }
}

/// Encodes the SubjectPublicKeyInfo of a key that a TPM gave out.
pub fn p256_spki_from_tpm_public(public: &TpmPublic) -> (r: Result<Vec<u8>, TpmKeyFault>)
    ensures
        match r {
            Ok(spki) => tpm_public_spki(*public) == Ok::<Seq<u8>, TpmKeyFault>(spki@),
            Err(e) => tpm_public_spki(*public) == Err::<Seq<u8>, TpmKeyFault>(e),
        },
{
    match public {
        TpmPublic::Other => Err(TpmKeyFault::NotEcc),
        TpmPublic::Ecc { curve, x, y } => {
            if *curve != EccCurve::NistP256 {
                return Err(TpmKeyFault::NotP256);
            }
            let x = match left_pad_coordinate(x.as_slice()) {
                Ok(x) => x,
                Err(e) => return Err(e),
            };
            let y = match left_pad_coordinate(y.as_slice()) {
                Ok(y) => y,
                Err(e) => return Err(e),
            };
            Ok(p256_spki_der_from_coordinates(&x, &y))
        },
    }
}

/// The DER encoding of a signature that a TPM gave out.
pub open spec fn tpm_signature_der(signature: TpmSignature) -> Result<Seq<u8>, TpmKeyFault> {
    match signature {
        TpmSignature::Other => Err(TpmKeyFault::NotEcdsa),
        TpmSignature::EcDsa { r, s } => if r@.len() > P256_COORDINATE_LEN {
            Err(TpmKeyFault::CoordinateTooLarge(r@.len() as usize))
        } else if s@.len() > P256_COORDINATE_LEN {
            Err(TpmKeyFault::CoordinateTooLarge(s@.len() as usize))
        } else {
            Ok(signature_der(left_padded(r@), left_padded(s@)))
        },
    }
}

/// Encodes a signature that a TPM gave out.
pub fn p256_signature_der(signature: &TpmSignature) -> (der: Result<Vec<u8>, TpmKeyFault>)
    ensures
        match der {
            Ok(d) => tpm_signature_der(*signature) == Ok::<Seq<u8>, TpmKeyFault>(d@),
            Err(e) => tpm_signature_der(*signature) == Err::<Seq<u8>, TpmKeyFault>(e),
        },
{
    match signature {
        TpmSignature::Other => Err(TpmKeyFault::NotEcdsa),
        TpmSignature::EcDsa { r, s } => {
            let r = match left_pad_coordinate(r.as_slice()) {
                Ok(r) => r,
                Err(e) => return Err(e),
            };
            let s = match left_pad_coordinate(s.as_slice()) {
                Ok(s) => s,
                Err(e) => return Err(e),
            };
            Ok(ecdsa_p1363_to_der(&r, &s))
        },
    }
}

/// The outcome of a signing session: the session has to be closed whatever
/// came of it, and a failure to close it counts before a failure to sign.
pub open spec fn signing_verdict(
    signed: Result<TpmSignature, Seq<char>>,
    flushed: Result<(), Seq<char>>,
) -> Result<Seq<u8>, Seq<char>> {
    match (flushed, signed) {
        (Err(e), _) => Err("TPM signing failed: flushing TPM auth session: "@ + e),
        (Ok(_), Err(e)) => Err("TPM signing failed: signing with TPM key: "@ + e),
        (Ok(_), Ok(signature)) => match tpm_signature_der(signature) {
            Ok(der) => Ok(der),
            Err(fault) => Err("TPM signing failed: "@ + fault.text()),
        },
    }
}

/// Takes what a TPM signed, and whether the session was closed.
pub fn finish_signing(
    signed: Result<TpmSignature, String>,
    flushed: Result<(), String>,
) -> (r: Result<Vec<u8>, String>)
    ensures
        plain_bytes(r) == signing_verdict(
            match signed {
                Ok(signature) => Ok(signature),
                Err(e) => Err(e@),
            },
            plain_outcome(flushed),
        ),
{
    match flushed {
        Ok(_) => {},
        Err(e) => return Err(
            "TPM signing failed: flushing TPM auth session: ".to_owned().concat(e.as_str()),
        ),
    }
    let signature = match signed {
        Ok(signature) => signature,
        Err(e) => return Err(
            "TPM signing failed: signing with TPM key: ".to_owned().concat(e.as_str()),
        ),
    };
    match p256_signature_der(&signature) {
        Ok(der) => Ok(der),
        Err(fault) => {
            let text = fault.message();
            Err("TPM signing failed: ".to_owned().concat(text.as_str()))
        },
    }
}

/// Whether a peer that offers these signature schemes accepts the signatures
/// of a P-256 key. No other scheme is ever chosen.
pub fn choose_scheme(offered: &[u16]) -> (r: Option<u16>)
    ensures
        r == (if offered@.contains(ECDSA_NISTP256_SHA256) {
            Some(ECDSA_NISTP256_SHA256)
        } else {
            None
        }),
{
    let mut i: usize = 0;
    while i < offered.len()
        invariant
            i <= offered@.len(),
            forall|k: int| 0 <= k < i ==> offered@[k] != ECDSA_NISTP256_SHA256,
        decreases offered.len() - i,
    {
        if offered[i] == ECDSA_NISTP256_SHA256 {
            return Some(ECDSA_NISTP256_SHA256);
        }
        i = i + 1;
    }
    None
}

// ---------------------------------------------------------------------
// The sidecar's identity
// ---------------------------------------------------------------------

/// What SHA-256 makes of a message.
pub uninterp spec fn sha256(message: Seq<u8>) -> Seq<u8>;

/// `sha2::Sha256`: `new`, `update`, `finalize`.
///
/// Trusted: the digest has thirty-two bytes and depends on the message alone.
/// What it is, is left unsaid.
#[verifier::external_body]
fn sha256_digest(message: &[u8]) -> (r: Vec<u8>)
    ensures
        r@ == sha256(message@),
        r@.len() == 32,
{
    let mut hash = Sha256::new();
    hash.update(message);
    hash.finalize().to_vec()
}

/// The digest of a message that a TPM is to sign.
pub fn signing_digest(message: &[u8]) -> (r: Vec<u8>)
    ensures
        r@ == sha256(message@),
        r@.len() == 32,
{
    sha256_digest(message)
}

/// A signing key that stays in a TPM: how to reach the TPM, the key's handle,
/// and its public half.
pub struct TpmSigningKey {
    tcti: String,
    key_handle: u32,
    spki_der: Vec<u8>,
}

/// The content of a [`TpmSigningKey`].
#[verifier::ext_equal]
pub struct SigningKeyView {
    pub tcti: Seq<char>,
    pub key_handle: u32,
    pub spki_der: Seq<u8>,
}

impl View for TpmSigningKey {
    type V = SigningKeyView;

    closed spec fn view(&self) -> SigningKeyView {
        SigningKeyView {
            tcti: self.tcti@,
            key_handle: self.key_handle,
            spki_der: self.spki_der@,
        }
    }
}

impl TpmSigningKey {
    /// The signing key with a handle, given the public half that the TPM gave
    /// out for it.
    pub fn load(tcti: &str, key_handle: u32, public: &TpmPublic) -> (r: Result<
        TpmSigningKey,
        TpmKeyFault,
    >)
        ensures
            match r {
                Ok(key) => {
                    &&& tpm_public_spki(*public) == Ok::<Seq<u8>, TpmKeyFault>(key@.spki_der)
                    &&& key@.tcti == tcti@
                    &&& key@.key_handle == key_handle
                },
                Err(e) => tpm_public_spki(*public) == Err::<Seq<u8>, TpmKeyFault>(e),
            },
    {
        match p256_spki_from_tpm_public(public) {
            Ok(spki_der) => Ok(TpmSigningKey { tcti: tcti.to_owned(), key_handle, spki_der }),
            Err(e) => Err(e),
        }
    }

    /// How to reach the TPM.
    pub fn tcti(&self) -> (r: &str)
        ensures
            r@ == self@.tcti,
    {
        self.tcti.as_str()
    }

    /// The handle of the key.
    pub fn key_handle(&self) -> (r: u32)
        ensures
            r == self@.key_handle,
    {
        self.key_handle
    }

    /// The public half of the key, as SubjectPublicKeyInfo.
    pub fn spki_der(&self) -> (r: &[u8])
        ensures
            r@ == self@.spki_der,
    {
        self.spki_der.as_slice()
    }

    /// Describes the key for diagnostics.
    pub fn debug(&self) -> (r: String)
        ensures
            r@ == "TpmSigningKey { tcti: "@ + debug_text(self@.tcti) + ", key_handle: 0x"@ + hex_u32(
                self@.key_handle as int,
            ) + ", .. }"@,
    {
        let tcti = debug_string(self.tcti.as_str());
        let handle = hex_u32_text(self.key_handle);
        "TpmSigningKey { tcti: ".to_owned().concat(tcti.as_str()).concat(", key_handle: 0x").concat(
            handle.as_str(),
        ).concat(", .. }")
    }
}

/// The SubjectPublicKeyInfo of the leaf of a chain, or why there is none.
pub open spec fn chain_spki(chain: Seq<Seq<u8>>) -> Result<Seq<u8>, Seq<char>> {
    if chain.len() == 0 {
        Err("client certificate chain must contain a leaf certificate"@)
    } else {
        match x509_certificate(chain[0]) {
            Ok(cert) => Ok(cert.spki_der),
            Err(_) => Err("parsing client certificate"@),
        }
    }
}

/// Bytes or the text of an error, as plain values.
pub open spec fn plain_bytes(r: Result<Vec<u8>, String>) -> Result<Seq<u8>, Seq<char>> {
    match r {
        Ok(bytes) => Ok(bytes@),
        Err(e) => Err(e@),
    }
}

/// The SubjectPublicKeyInfo of the leaf of a chain.
pub fn leaf_spki(cert_chain: &[Vec<u8>]) -> (r: Result<Vec<u8>, String>)
    ensures
        plain_bytes(r) == chain_spki(chain_bytes(cert_chain@)),
{
    if cert_chain.len() == 0 {
        return Err("client certificate chain must contain a leaf certificate".to_owned());
    }
    certificate_spki(cert_chain[0].as_slice())
}

/// The text that describes a certificate for another key.
pub open spec fn key_mismatch_text(key_handle: u32) -> Seq<char> {
    "client certificate public key does not match TPM key handle 0x"@ + hex_u32(key_handle as int)
}

/// Accepts a certificate's key if it is the one behind a handle.
pub fn check_key_match(leaf: &[u8], signing_key: &TpmSigningKey) -> (r: Result<(), String>)
    ensures
        match r {
            Ok(_) => leaf@ == signing_key@.spki_der,
            Err(e) => leaf@ != signing_key@.spki_der && e@ == key_mismatch_text(
                signing_key@.key_handle,
            ),
        },
{
    if same_bytes(leaf, signing_key.spki_der()) {
        return Ok(());
    }
    let handle = hex_u32_text(signing_key.key_handle);
    Err(
        "client certificate public key does not match TPM key handle 0x".to_owned().concat(
            handle.as_str(),
        ),
    )
}

/// What the sidecar presents to the gateway: a chain of certificates, the key
/// of its leaf, and the identity that the leaf holds.
pub struct TpmClientIdentity {
    cert_chain: Vec<Vec<u8>>,
    signing_key: TpmSigningKey,
    source_identity: String,
}

/// The content of a [`TpmClientIdentity`].
#[verifier::ext_equal]
pub struct ClientIdentityView {
    pub chain: Seq<Seq<u8>>,
    pub signing_key: SigningKeyView,
    pub source_identity: Seq<char>,
}

impl View for TpmClientIdentity {
    type V = ClientIdentityView;

    closed spec fn view(&self) -> ClientIdentityView {
        ClientIdentityView {
            chain: chain_bytes(self.cert_chain@),
            signing_key: self.signing_key@,
            source_identity: self.source_identity@,
        }
    }
}

/// The identity that a chain and a key make together, or why they make none:
/// the leaf has to be for the key, and has to hold an identity.
pub open spec fn client_identity(
    chain: Seq<Seq<u8>>,
    signing_key: SigningKeyView,
    oid: Seq<u8>,
) -> Result<ClientIdentityView, Seq<char>> {
    match chain_spki(chain) {
        Err(e) => Err(e),
        Ok(leaf) => if leaf != signing_key.spki_der {
            Err(key_mismatch_text(signing_key.key_handle))
        } else {
            match chain_subject(chain, oid) {
                Err(reason) => Err(reason),
                Ok((source_identity, _)) => Ok(
                    ClientIdentityView { chain, signing_key, source_identity },
                ),
            }
        },
    }
}

impl TpmClientIdentity {
    /// Puts a chain and a key together. Where the leaf is for the key and its
    /// extension is the encoding of a text, the identity is that text.
    pub fn load(
        cert_chain: Vec<Vec<u8>>,
        signing_key: TpmSigningKey,
        client_identity_ext_oid: &ClientExtOid,
    ) -> (r: Result<TpmClientIdentity, String>)
        ensures
            match r {
                Ok(identity) => client_identity(
                    chain_bytes(cert_chain@),
                    signing_key@,
                    client_identity_ext_oid@,
                ) == Ok::<ClientIdentityView, Seq<char>>(identity@),
                Err(e) => client_identity(
                    chain_bytes(cert_chain@),
                    signing_key@,
                    client_identity_ext_oid@,
                ) == Err::<ClientIdentityView, Seq<char>>(e@),
            },
            forall|text: Seq<char>|
                (cert_chain@.len() > 0 && (x509_certificate(cert_chain@[0]@) matches Ok(c)
                    && c.spki_der == signing_key@.spki_der && extension_value(
                    c.extensions,
                    client_identity_ext_oid@,
                ) == Some(#[trigger] tlv(0x0c, vstd::utf8::encode_utf8(text))))) ==> (r matches Ok(
                    identity,
                ) && identity@.source_identity == text),
    {
        let leaf = match leaf_spki(cert_chain.as_slice()) {
            Ok(leaf) => leaf,
            Err(e) => return Err(e),
        };
        match check_key_match(leaf.as_slice(), &signing_key) {
            Ok(_) => {},
            Err(e) => return Err(e),
        }
        match certificate_identity(cert_chain.as_slice(), client_identity_ext_oid) {
            Ok(source_identity) => Ok(
                TpmClientIdentity { cert_chain, signing_key, source_identity },
            ),
            Err(reason) => Err(reason),
        }
    }

    /// The identity that the leaf holds.
    pub fn source_identity(&self) -> (r: &str)
        ensures
            r@ == self@.source_identity,
    {
        self.source_identity.as_str()
    }

    /// The chain and the key, to answer the handshake with.
    pub fn resolver(self) -> (r: (Vec<Vec<u8>>, TpmSigningKey))
        ensures
            chain_bytes(r.0@) == self@.chain,
            r.1@ == self@.signing_key,
    {
        (self.cert_chain, self.signing_key)
    }
}

} // verus!
