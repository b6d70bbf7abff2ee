//! What holds of every handle, key and signature of a TPM.

use vstd::prelude::*;

use crate::certificate::{chain_bytes, chain_subject, x509_certificate, ClientExtOid};
use crate::certificate_laws::{law_chain_subject, says_identity};
use crate::der::{
    arcs_octets, base128, base128_head, be_value, integer_content, oid_content, tlv,
    ASN1_BIT_STRING_TAG, ASN1_BIT_STRING_ZERO_UNUSED_BITS, ASN1_INTEGER_TAG,
    ASN1_OBJECT_IDENTIFIER_TAG, ASN1_SEQUENCE_TAG,
};
use crate::der_laws::{
    after_value, law_integer_content_is_minimal, law_value_reads_back, lemma_be_leading_zero,
    value_content,
};
use crate::identity::{
    check_key_match, choose_scheme, client_identity, ec_public_key_arcs, ecdsa_p1363_to_der,
    finish_signing, has_hex_prefix, leaf_spki, left_pad_coordinate, left_padded, p256_signature_der,
    p256_spki, p256_spki_der_from_coordinates, p256_spki_from_tpm_public, parse_tpm_key_handle,
    prime256v1_arcs, sha256, signature_der, signing_digest, tpm_key_handle, tpm_public_spki,
    tpm_signature_der, EccCurve, HandleFault, SigningKeyView, TpmClientIdentity,
    TpmKeyFault, TpmPublic, TpmSignature, TpmSigningKey, P256_COORDINATE_LEN,
    PERSISTENT_HANDLE_END, PERSISTENT_HANDLE_START, SEC1_UNCOMPRESSED_POINT_TAG,
};
use crate::number::hex_u32;
use crate::number_laws::{
    all_digits, law_hex_u32_says_number, law_number_is_read, said, unsigned_digits,
};
use crate::text::{debug_text, is_trimmed, lemma_trimmed_fixed, trimmed};

verus! {

/// Every accepted handle is in the range of persistent handles.
pub proof fn law_handle_is_persistent(value: Seq<char>)
    ensures
        tpm_key_handle(value) matches Ok(handle) ==> PERSISTENT_HANDLE_START <= handle
            <= PERSISTENT_HANDLE_END,
{
}

/// The prefix of a handle may be left out.
pub proof fn law_handle_prefix_is_optional(digits: Seq<char>)
    requires
        is_trimmed(digits),
        !has_hex_prefix(digits),
    ensures
        tpm_key_handle(seq!['0', 'x'] + digits) == tpm_key_handle(digits),
        tpm_key_handle(seq!['0', 'X'] + digits) == tpm_key_handle(digits),
{
    let lower = seq!['0', 'x'] + digits;
    let upper = seq!['0', 'X'] + digits;
    lemma_trimmed_fixed(digits);
    lemma_trimmed_fixed(lower);
    lemma_trimmed_fixed(upper);
    assert(lower.skip(2) == digits);
    assert(upper.skip(2) == digits);
}

/// Padding keeps the number.
pub proof fn law_padding_keeps_value(value: Seq<u8>)
    requires
        value.len() <= P256_COORDINATE_LEN,
    ensures
        left_padded(value).len() == P256_COORDINATE_LEN,
        be_value(left_padded(value)) == be_value(value),
    decreases P256_COORDINATE_LEN - value.len(),
{
    if value.len() == P256_COORDINATE_LEN {
        assert(left_padded(value) == value);
    } else {
        let longer = seq![0u8] + value;
        law_padding_keeps_value(longer);
        lemma_be_leading_zero(value);
        assert(left_padded(longer) == left_padded(value));
    }
}

/// Both halves of a signature are read back from its encoding.
pub proof fn law_signature_reads_back(r: Seq<u8>, s: Seq<u8>)
    requires
        r.len() == P256_COORDINATE_LEN,
        s.len() == P256_COORDINATE_LEN,
    ensures
        signature_der(r, s)[0] == ASN1_SEQUENCE_TAG,
        after_value(signature_der(r, s)) == Seq::<u8>::empty(),
        ({
            let content = value_content(signature_der(r, s));
            &&& content[0] == ASN1_INTEGER_TAG
            &&& be_value(value_content(content)) == be_value(r)
            &&& after_value(content)[0] == ASN1_INTEGER_TAG
            &&& be_value(value_content(after_value(content))) == be_value(s)
            &&& after_value(after_value(content)) == Seq::<u8>::empty()
        }),
{
    let first = tlv(ASN1_INTEGER_TAG, integer_content(r));
    let second = tlv(ASN1_INTEGER_TAG, integer_content(s));
    let none = Seq::<u8>::empty();
    law_integer_content_is_minimal(r);
    law_integer_content_is_minimal(s);
    assert(signature_der(r, s) + none == signature_der(r, s));
    assert(second + none == second);
    law_value_reads_back(ASN1_SEQUENCE_TAG, first + second, none);
    law_value_reads_back(ASN1_INTEGER_TAG, integer_content(r), second);
    law_value_reads_back(ASN1_INTEGER_TAG, integer_content(s), none);
}

/// The bytes of every P-256 key in front of its coordinates.
pub open spec fn p256_spki_prefix() -> Seq<u8> {
    seq![
        0x30, 0x59, 0x30, 0x13, 0x06, 0x07, 0x2a, 0x86, 0x48, 0xce, 0x3d, 0x02, 0x01, 0x06, 0x08,
        0x2a, 0x86, 0x48, 0xce, 0x3d, 0x03, 0x01, 0x07, 0x03, 0x42, 0x00, 0x04,
    ]
}

proof fn lemma_oid_octets()
    ensures
        oid_content(ec_public_key_arcs()) == seq![0x2au8, 0x86, 0x48, 0xce, 0x3d, 0x02, 0x01],
        oid_content(prime256v1_arcs()) == seq![
            0x2au8, 0x86, 0x48, 0xce, 0x3d, 0x03, 0x01, 0x07,
        ],
{
    let none = Seq::<nat>::empty();
    let a = none.push(840);
    let b = a.push(10045);
    let ec = ec_public_key_arcs().skip(2);
    let p = prime256v1_arcs().skip(2);
    reveal_with_fuel(base128_head, 3);
    assert(base128(840) == seq![0x86u8, 0x48]);
    assert(base128(10045) == seq![0xceu8, 0x3d]);
    assert(base128(1) == seq![1u8]);
    assert(base128(2) == seq![2u8]);
    assert(base128(3) == seq![3u8]);
    assert(base128(7) == seq![7u8]);
    assert(a.drop_last() == none);
    assert(arcs_octets(none) == Seq::<u8>::empty());
    assert(arcs_octets(a) == seq![0x86u8, 0x48]);
    assert(b.drop_last() == a);
    assert(arcs_octets(b) == seq![0x86u8, 0x48, 0xce, 0x3d]);

    let ec1 = b.push(2);
    let ec2 = ec1.push(1);
    assert(ec1.drop_last() == b);
    assert(arcs_octets(ec1) == seq![0x86u8, 0x48, 0xce, 0x3d, 2]);
    assert(ec2.drop_last() == ec1);
    assert(arcs_octets(ec2) == seq![0x86u8, 0x48, 0xce, 0x3d, 2, 1]);
    assert(ec == ec2);

    let p1 = b.push(3);
    let p2 = p1.push(1);
    let p3 = p2.push(7);
    assert(p1.drop_last() == b);
    assert(arcs_octets(p1) == seq![0x86u8, 0x48, 0xce, 0x3d, 3]);
    assert(p2.drop_last() == p1);
    assert(arcs_octets(p2) == seq![0x86u8, 0x48, 0xce, 0x3d, 3, 1]);
    assert(p3.drop_last() == p2);
    assert(arcs_octets(p3) == seq![0x86u8, 0x48, 0xce, 0x3d, 3, 1, 7]);
    assert(p == p3);
}

/// The SubjectPublicKeyInfo of a P-256 key has ninety-one bytes: the same
/// prefix for every key, then the two coordinates.
pub proof fn law_spki_layout(x: Seq<u8>, y: Seq<u8>)
    requires
        x.len() == P256_COORDINATE_LEN,
        y.len() == P256_COORDINATE_LEN,
    ensures
        p256_spki(x, y) == p256_spki_prefix() + x + y,
        p256_spki(x, y).len() == 91,
{
    lemma_oid_octets();
    let ec = tlv(ASN1_OBJECT_IDENTIFIER_TAG, oid_content(ec_public_key_arcs()));
    let p = tlv(ASN1_OBJECT_IDENTIFIER_TAG, oid_content(prime256v1_arcs()));
    let algorithm = tlv(ASN1_SEQUENCE_TAG, ec + p);
    assert(algorithm.len() == 21);
    let point = seq![SEC1_UNCOMPRESSED_POINT_TAG] + x + y;
    let bits = tlv(ASN1_BIT_STRING_TAG, seq![ASN1_BIT_STRING_ZERO_UNUSED_BITS] + point);
    assert(bits.len() == 68);
    assert((algorithm + bits).len() == 89);
    assert(p256_spki(x, y) == p256_spki_prefix() + x + y);
}

/// Different keys have different SubjectPublicKeyInfos.
pub proof fn law_spki_identifies_key(x1: Seq<u8>, y1: Seq<u8>, x2: Seq<u8>, y2: Seq<u8>)
    requires
        x1.len() == P256_COORDINATE_LEN,
        y1.len() == P256_COORDINATE_LEN,
        x2.len() == P256_COORDINATE_LEN,
        y2.len() == P256_COORDINATE_LEN,
        p256_spki(x1, y1) == p256_spki(x2, y2),
    ensures
        x1 == x2,
        y1 == y2,
{
    law_spki_layout(x1, y1);
    law_spki_layout(x2, y2);
    let a = p256_spki(x1, y1);
    let b = p256_spki(x2, y2);
    assert(a.subrange(27, 59) == x1);
    assert(b.subrange(27, 59) == x2);
    assert(a.subrange(59, 91) == y1);
    assert(b.subrange(59, 91) == y2);
}

/// What the sidecar presents is what the gateway finds: the identity that the
/// sidecar names, and the public half of the key in the TPM.
pub proof fn law_presented_identity_is_found(
    chain: Seq<Seq<u8>>,
    signing_key: SigningKeyView,
    oid: Seq<u8>,
)
    ensures
        client_identity(chain, signing_key, oid) matches Ok(identity) ==> chain_subject(
            identity.chain,
            oid,
        ) == Ok::<(Seq<char>, Seq<u8>), Seq<char>>(
            (identity.source_identity, signing_key.spki_der),
        ),
{
}

// ---------------------------------------------------------------------
// Signatures of a TPM
// ---------------------------------------------------------------------

/// Whether bytes are a SEQUENCE of two INTEGERs and nothing else, the first
/// of which denotes the number in `r`, and the second that in `s`.
pub open spec fn reads_as_signature(der: Seq<u8>, r: Seq<u8>, s: Seq<u8>) -> bool {
    let content = value_content(der);
    let second = after_value(content);
    &&& der[0] == 0x30
    &&& after_value(der).len() == 0
    &&& content[0] == 0x02
    &&& be_value(value_content(content)) == be_value(r)
    &&& value_content(content).len() > 0 && value_content(content)[0] < 0x80
    &&& second[0] == 0x02
    &&& be_value(value_content(second)) == be_value(s)
    &&& value_content(second).len() > 0 && value_content(second)[0] < 0x80
    &&& after_value(second).len() == 0
}

/// Every ECDSA signature of a TPM whose halves have at most thirty-two bytes
/// is encoded, and its halves are read back in their order; no other
/// signature is encoded.
pub proof fn law_tpm_signature_reads_back(signature: TpmSignature)
    ensures
        tpm_signature_der(signature) is Ok <==> (signature matches TpmSignature::EcDsa { r, s }
            && r@.len() <= 32 && s@.len() <= 32),
        signature matches TpmSignature::EcDsa { r, s } ==> (tpm_signature_der(
            signature,
        ) matches Ok(der) ==> reads_as_signature(der, r@, s@)),
{
    if let TpmSignature::EcDsa { r, s } = signature {
        if r@.len() <= 32 && s@.len() <= 32 {
            law_padding_keeps_value(r@);
            law_padding_keeps_value(s@);
            let x = left_padded(r@);
            let y = left_padded(s@);
            law_signature_reads_back(x, y);
            law_integer_content_is_minimal(x);
            law_integer_content_is_minimal(y);
            let first = tlv(ASN1_INTEGER_TAG, integer_content(x));
            let second = tlv(ASN1_INTEGER_TAG, integer_content(y));
            let none = Seq::<u8>::empty();
            assert(signature_der(x, y) + none == signature_der(x, y));
            assert(second + none == second);
            law_value_reads_back(ASN1_SEQUENCE_TAG, first + second, none);
            law_value_reads_back(ASN1_INTEGER_TAG, integer_content(x), second);
            law_value_reads_back(ASN1_INTEGER_TAG, integer_content(y), none);
        }
    }
}

/// What is made of a signature of a TPM reads as that signature.
pub proof fn law_signature_is_encoded(signature: TpmSignature, der: Result<Vec<u8>, TpmKeyFault>)
    requires
        call_ensures(p256_signature_der, (&signature,), der),
    ensures
        der is Ok <==> (signature matches TpmSignature::EcDsa { r, s } && r@.len() <= 32
            && s@.len() <= 32),
        der is Ok ==> (signature matches TpmSignature::EcDsa { r, s } ==> reads_as_signature(
            der->Ok_0@,
            r@,
            s@,
        )),
{
    law_tpm_signature_reads_back(signature);
}

/// Signing succeeds exactly where the session was closed and the TPM gave out
/// an ECDSA signature with halves of at most thirty-two bytes. What is handed
/// to TLS then reads as that very signature.
pub proof fn law_signing_hands_on_the_signature(
    signed: Result<TpmSignature, String>,
    flushed: Result<(), String>,
    der: Result<Vec<u8>, String>,
)
    requires
        call_ensures(finish_signing, (signed, flushed), der),
    ensures
        der is Ok <==> flushed is Ok && (signed matches Ok(TpmSignature::EcDsa { r, s })
            && r@.len() <= 32 && s@.len() <= 32),
        der is Ok ==> (signed matches Ok(TpmSignature::EcDsa { r, s }) ==> reads_as_signature(
            der->Ok_0@,
            r@,
            s@,
        )),
{
    if let Ok(signature) = signed {
        law_tpm_signature_reads_back(signature);
    }
}

/// Two halves are encoded in their order, whatever they are.
pub proof fn law_halves_are_encoded(r: [u8; 32], s: [u8; 32], der: Vec<u8>)
    requires
        call_ensures(ecdsa_p1363_to_der, (&r, &s), der),
    ensures
        reads_as_signature(der@, r@, s@),
{
    let x = r@;
    let y = s@;
    law_signature_reads_back(x, y);
    law_integer_content_is_minimal(x);
    law_integer_content_is_minimal(y);
    let first = tlv(ASN1_INTEGER_TAG, integer_content(x));
    let second = tlv(ASN1_INTEGER_TAG, integer_content(y));
    let none = Seq::<u8>::empty();
    assert(signature_der(x, y) + none == signature_der(x, y));
    assert(second + none == second);
    law_value_reads_back(ASN1_SEQUENCE_TAG, first + second, none);
    law_value_reads_back(ASN1_INTEGER_TAG, integer_content(x), second);
    law_value_reads_back(ASN1_INTEGER_TAG, integer_content(y), none);
}

/// The signature scheme of P-256 keys is chosen exactly where it is offered,
/// and no other ever is.
pub proof fn law_scheme_is_chosen_iff_offered(offered: &[u16], r: Option<u16>)
    requires
        call_ensures(choose_scheme, (offered,), r),
    ensures
        r is Some <==> exists|i: int| 0 <= i < offered@.len() && #[trigger] offered@[i] == 0x0403,
        r is Some ==> r == Some(0x0403u16),
{
}

// ---------------------------------------------------------------------
// Keys of a TPM
// ---------------------------------------------------------------------

/// Padding a number succeeds exactly where it has at most thirty-two bytes,
/// and gives the thirty-two bytes of the same number.
pub proof fn law_padding(value: &[u8], r: Result<[u8; 32], TpmKeyFault>)
    requires
        call_ensures(left_pad_coordinate, (value,), r),
    ensures
        r is Ok <==> value@.len() <= 32,
        r is Ok ==> be_value((r->Ok_0)@) == be_value(value@),
{
    if value@.len() <= 32 {
        law_padding_keeps_value(value@);
    }
}

/// Whether bytes are the SubjectPublicKeyInfo of the P-256 key whose
/// coordinates denote the numbers in `x` and `y`.
pub open spec fn reads_as_key(spki: Seq<u8>, x: Seq<u8>, y: Seq<u8>) -> bool {
    &&& spki.len() == 91
    &&& spki.take(27) == p256_spki_prefix()
    &&& be_value(spki.subrange(27, 59)) == be_value(x)
    &&& be_value(spki.subrange(59, 91)) == be_value(y)
}

/// Every P-256 key of a TPM whose coordinates have at most thirty-two bytes
/// is encoded with both coordinates in their order; no other key is encoded.
pub proof fn law_tpm_key_reads_back(public: TpmPublic)
    ensures
        tpm_public_spki(public) is Ok <==> (public matches TpmPublic::Ecc { curve, x, y } && curve
            == EccCurve::NistP256 && x@.len() <= 32 && y@.len() <= 32),
        public matches TpmPublic::Ecc { curve, x, y } ==> (tpm_public_spki(public) matches Ok(spki)
            ==> reads_as_key(spki, x@, y@)),
{
    if let TpmPublic::Ecc { curve, x, y } = public {
        if curve == EccCurve::NistP256 && x@.len() <= 32 && y@.len() <= 32 {
            law_padding_keeps_value(x@);
            law_padding_keeps_value(y@);
            let a = left_padded(x@);
            let b = left_padded(y@);
            law_spki_layout(a, b);
            let spki = p256_spki(a, b);
            assert(spki.take(27) =~= p256_spki_prefix());
            assert(spki.subrange(27, 59) =~= a);
            assert(spki.subrange(59, 91) =~= b);
        }
    }
}

/// A signing key is had exactly for a P-256 key, under the handle and the way
/// to the TPM that were given, with the public half that the TPM gave out.
pub proof fn law_signing_key_is_the_tpms(
    tcti: &str,
    key_handle: u32,
    public: TpmPublic,
    r: Result<TpmSigningKey, TpmKeyFault>,
)
    requires
        call_ensures(TpmSigningKey::load, (tcti, key_handle, &public), r),
    ensures
        r is Ok <==> (public matches TpmPublic::Ecc { curve, x, y } && curve == EccCurve::NistP256
            && x@.len() <= 32 && y@.len() <= 32),
        r matches Ok(key) ==> key@.tcti == tcti@ && key@.key_handle == key_handle,
        r matches Ok(key) ==> (public matches TpmPublic::Ecc { curve, x, y } ==> reads_as_key(
            key@.spki_der,
            x@,
            y@,
        )),
{
    law_tpm_key_reads_back(public);
}

/// A certificate's key is accepted exactly where it is the signing key's,
/// byte by byte.
pub proof fn law_key_match(leaf: &[u8], key: TpmSigningKey, r: Result<(), String>)
    requires
        call_ensures(check_key_match, (leaf, &key), r),
    ensures
        r is Ok <==> leaf@ == key@.spki_der,
        r is Err ==> (r->Err_0)@
            == "client certificate public key does not match TPM key handle 0x"@ + hex_u32(
            key@.key_handle as int,
        ),
{
}

/// The key of a chain is that of its first certificate.
pub proof fn law_leaf_key(chain: &[Vec<u8>], r: Result<Vec<u8>, String>)
    requires
        call_ensures(leaf_spki, (chain,), r),
    ensures
        r is Ok <==> chain@.len() > 0 && x509_certificate(chain@[0]@) is Ok,
        r is Ok ==> r->Ok_0@ == (x509_certificate(chain@[0]@)->Ok_0).spki_der,
        chain@.len() == 0 ==> (r->Err_0)@
            == "client certificate chain must contain a leaf certificate"@,
{
}

/// An identity is put together exactly where the chain has a first
/// certificate that parses, is for the signing key, and says an identity. It
/// then presents that chain, that key and that identity.
pub proof fn law_presented_identity(
    chain: Vec<Vec<u8>>,
    key: TpmSigningKey,
    oid: ClientExtOid,
    r: Result<TpmClientIdentity, String>,
)
    requires
        call_ensures(TpmClientIdentity::load, (chain, key, &oid), r),
    ensures
        r is Ok <==> chain@.len() > 0 && (x509_certificate(chain@[0]@) matches Ok(cert)
            && cert.spki_der == key@.spki_der && exists|identity: Seq<char>| #[trigger]
            says_identity(cert, oid@, identity)),
        r matches Ok(found) ==> {
            &&& found@.chain == chain_bytes(chain@)
            &&& found@.signing_key == key@
            &&& says_identity(x509_certificate(chain@[0]@)->Ok_0, oid@, found@.source_identity)
        },
        r is Err && chain@.len() > 0 && x509_certificate(chain@[0]@) is Ok ==> (if (
        x509_certificate(chain@[0]@)->Ok_0).spki_der != key@.spki_der {
            (r->Err_0)@ == "client certificate public key does not match TPM key handle 0x"@
                + hex_u32(key@.key_handle as int)
        } else {
            chain_subject(chain_bytes(chain@), oid@) == Err::<(Seq<char>, Seq<u8>), Seq<char>>(
                (r->Err_0)@,
            )
        }),
{
    let certs = chain_bytes(chain@);
    if chain@.len() > 0 {
        if let Ok(cert) = x509_certificate(chain@[0]@) {
            if exists|identity: Seq<char>| #[trigger] says_identity(cert, oid@, identity) {
                let identity = choose|identity: Seq<char>| #[trigger]
                    says_identity(cert, oid@, identity);
                law_chain_subject(certs, oid@, identity, cert.spki_der);
            }
        }
    }
    if let Ok(found) = r {
        let subject = chain_subject(certs, oid@)->Ok_0;
        law_chain_subject(certs, oid@, subject.0, subject.1);
    }
}

// ---------------------------------------------------------------------
// Handles
// ---------------------------------------------------------------------

/// A text is a handle exactly where, without white space around it and
/// without a prefix `0x` or `0X`, it is hexadecimal digits that say a number
/// from 0x81000000 to 0x81ffffff; and that number is the handle.
pub proof fn law_handle_is_read(value: &str, r: Result<u32, HandleFault>)
    requires
        call_ensures(parse_tpm_key_handle, (value,), r),
    ensures
        ({
            let text = trimmed(value@);
            let prefixed = text.len() >= 2 && text[0] == '0' && (text[1] == 'x' || text[1] == 'X');
            let digits = unsigned_digits(
                if prefixed {
                    text.skip(2)
                } else {
                    text
                },
            );
            &&& r is Ok <==> digits.len() > 0 && all_digits(digits, 16) && 0x8100_0000 <= said(
                digits,
                16,
            ) <= 0x81ff_ffff
            &&& r is Ok ==> r->Ok_0 == said(digits, 16)
            &&& r is Err ==> (r->Err_0 is NotPersistent <==> digits.len() > 0 && all_digits(
                digits,
                16,
            ) && said(digits, 16) <= 0xffff_ffff)
        }),
{
    let text = trimmed(value@);
    law_number_is_read(
        if has_hex_prefix(text) {
            text.skip(2)
        } else {
            text
        },
        16,
        u32::MAX as int,
    );
}

// ---------------------------------------------------------------------
// What is kept
// ---------------------------------------------------------------------

/// A signing key keeps what it was loaded with.
pub proof fn law_signing_key_keeps_its_parts(
    key: TpmSigningKey,
    tcti: &str,
    handle: u32,
    spki: &[u8],
)
    requires
        call_ensures(TpmSigningKey::tcti, (&key,), tcti),
        call_ensures(TpmSigningKey::key_handle, (&key,), handle),
        call_ensures(TpmSigningKey::spki_der, (&key,), spki),
    ensures
        tcti@ == key@.tcti,
        handle == key@.key_handle,
        spki@ == key@.spki_der,
{
}

/// An identity presents the chain and the key that it was put together of, and
/// names the identity that was found.
pub proof fn law_identity_keeps_its_parts(
    identity: TpmClientIdentity,
    name: &str,
    presented: (Vec<Vec<u8>>, TpmSigningKey),
)
    requires
        call_ensures(TpmClientIdentity::source_identity, (&identity,), name),
        call_ensures(TpmClientIdentity::resolver, (identity,), presented),
    ensures
        name@ == identity@.source_identity,
        chain_bytes(presented.0@) == identity@.chain,
        presented.1@ == identity@.signing_key,
{
}

/// What a TPM signs is the SHA-256 digest of the message, and nothing else.
pub proof fn law_digest_is_signed(message: &[u8], r: Vec<u8>)
    requires
        call_ensures(signing_digest, (message,), r),
    ensures
        r@ == sha256(message@),
        r@.len() == 32,
{
}

/// Where signing fails, the reason is that the session was not closed, or else
/// that the TPM did not sign, or else what is wrong with its signature.
pub proof fn law_signing_failure_is_explained(
    signed: Result<TpmSignature, String>,
    flushed: Result<(), String>,
    der: Result<Vec<u8>, String>,
)
    requires
        call_ensures(finish_signing, (signed, flushed), der),
        der is Err,
    ensures
        flushed matches Err(e) ==> (der->Err_0)@
            == "TPM signing failed: flushing TPM auth session: "@ + e@,
        flushed is Ok && signed is Err ==> (der->Err_0)@
            == "TPM signing failed: signing with TPM key: "@ + (signed->Err_0)@,
        flushed is Ok && (signed matches Ok(TpmSignature::Other)) ==> (der->Err_0)@
            == "TPM signing failed: "@ + "TPM returned a non-ECDSA signature"@,
{
}

/// The handle of a key is shown as eight hexadecimal digits, beside the way to
/// the TPM.
pub proof fn law_key_is_shown(key: TpmSigningKey, r: String)
    requires
        call_ensures(TpmSigningKey::debug, (&key,), r),
    ensures
        exists|digits: Seq<char>|
            #![trigger all_digits(digits, 16)]
            {
                &&& digits.len() == 8
                &&& all_digits(digits, 16)
                &&& said(digits, 16) == key@.key_handle
                &&& r@ == "TpmSigningKey { tcti: "@ + debug_text(key@.tcti) + ", key_handle: 0x"@
                    + digits + ", .. }"@
            },
{
    let digits = hex_u32(key@.key_handle as int);
    law_hex_u32_says_number(key@.key_handle as int);
    assert forall|i: int| 0 <= i < digits.len() implies crate::number_laws::is_digit(
        #[trigger] digits[i],
        16,
    ) by {
        assert(crate::number_laws::is_small_hex_digit(digits[i]));
    }
    assert(all_digits(digits, 16));
}

/// A key or a signature that is not encoded is of another kind, or is a key of
/// another curve, or its first part that is too long is told by its length.
pub proof fn law_fault_is_the_first(
    public: TpmPublic,
    spki: Result<Vec<u8>, TpmKeyFault>,
    signature: TpmSignature,
    der: Result<Vec<u8>, TpmKeyFault>,
)
    requires
        call_ensures(p256_spki_from_tpm_public, (&public,), spki),
        call_ensures(p256_signature_der, (&signature,), der),
    ensures
        spki is Err ==> spki->Err_0 == (match public {
            TpmPublic::Other => TpmKeyFault::NotEcc,
            TpmPublic::Ecc { curve, x, y } => if curve != EccCurve::NistP256 {
                TpmKeyFault::NotP256
            } else if x@.len() > 32 {
                TpmKeyFault::CoordinateTooLarge(x@.len() as usize)
            } else {
                TpmKeyFault::CoordinateTooLarge(y@.len() as usize)
            },
        }),
        der is Err ==> der->Err_0 == (match signature {
            TpmSignature::Other => TpmKeyFault::NotEcdsa,
            TpmSignature::EcDsa { r, s } => if r@.len() > 32 {
                TpmKeyFault::CoordinateTooLarge(r@.len() as usize)
            } else {
                TpmKeyFault::CoordinateTooLarge(s@.len() as usize)
            },
        }),
{
}

/// What is made of a key of a TPM reads as that key.
pub proof fn law_key_is_encoded(public: TpmPublic, spki: Result<Vec<u8>, TpmKeyFault>)
    requires
        call_ensures(p256_spki_from_tpm_public, (&public,), spki),
    ensures
        spki is Ok <==> (public matches TpmPublic::Ecc { curve, x, y } && curve
            == EccCurve::NistP256 && x@.len() <= 32 && y@.len() <= 32),
        spki is Ok ==> (public matches TpmPublic::Ecc { curve, x, y } ==> reads_as_key(
            spki->Ok_0@,
            x@,
            y@,
        )),
{
    law_tpm_key_reads_back(public);
}

/// Two coordinates are encoded in their order, whatever they are.
pub proof fn law_coordinates_are_encoded(x: [u8; 32], y: [u8; 32], spki: Vec<u8>)
    requires
        call_ensures(p256_spki_der_from_coordinates, (&x, &y), spki),
    ensures
        reads_as_key(spki@, x@, y@),
{
    law_spki_layout(x@, y@);
    assert(spki@.take(27) =~= p256_spki_prefix());
    assert(spki@.subrange(27, 59) =~= x@);
    assert(spki@.subrange(59, 91) =~= y@);
}

} // verus!
