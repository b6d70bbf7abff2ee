//! Client certificates, and the identity that one of their extensions holds.

use vstd::prelude::*;

use crate::address::split_on;
use crate::der::{oid_content, tlv};
use crate::number::unsigned_value;

use x509_parser::asn1_rs::{FromDer, Oid, OidParseError, Utf8String};
use x509_parser::certificate::X509Certificate;

verus! {

// ---------------------------------------------------------------------
// Object identifiers
// ---------------------------------------------------------------------

/// Why a text is not an object identifier.
#[derive(Clone, Copy, Debug, PartialEq, Eq, Structural)]
pub enum OidFault {
    /// There are fewer than two arcs.
    TooShort,
    /// The first arc is above six, or the second is above thirty-nine.
    FirstComponentsTooLarge,
    /// An arc is not a number.
    ParseIntError,
}

impl OidFault {
    /// The text that describes the fault in a configured identifier.
    pub open spec fn text(self) -> Seq<char> {
        match self {
            OidFault::TooShort => "invalid policy.client_ext_oid: TooShort"@,
            OidFault::FirstComponentsTooLarge =>
                "invalid policy.client_ext_oid: FirstComponentsTooLarge"@,
            OidFault::ParseIntError => "invalid policy.client_ext_oid: ParseIntError"@,
        }
    }

    /// Describes the fault in a configured identifier.
    pub fn message(&self) -> (r: &'static str)
        ensures
            r@ == self.text(),
    {
        match self {
            OidFault::TooShort => "invalid policy.client_ext_oid: TooShort",
            OidFault::FirstComponentsTooLarge =>
                "invalid policy.client_ext_oid: FirstComponentsTooLarge",
            OidFault::ParseIntError => "invalid policy.client_ext_oid: ParseIntError",
        }
    }
}

/// The arcs that the pieces of a dotted text denote, where each is a number.
pub open spec fn dotted_arcs(pieces: Seq<Seq<char>>) -> Option<Seq<nat>> {
    if exists|i: int|
        0 <= i < pieces.len() && unsigned_value(#[trigger] pieces[i], 10, u64::MAX as int) is Err {
        None
    } else {
        Some(
            pieces.map_values(|p: Seq<char>| unsigned_value(p, 10, u64::MAX as int)->Ok_0 as nat),
        )
    }
}

/// The content octets of the object identifier that a dotted text denotes. A
/// lone zero is accepted too.
pub open spec fn dotted_oid(s: Seq<char>) -> Result<Seq<u8>, OidFault> {
    match dotted_arcs(split_on(s, '.')) {
        None => Err(OidFault::ParseIntError),
        Some(arcs) => if arcs == seq![0nat] {
            Ok(seq![0u8])
        } else if arcs.len() < 2 {
            Err(OidFault::TooShort)
        } else if arcs[0] >= 7 || arcs[1] >= 40 {
            Err(OidFault::FirstComponentsTooLarge)
        } else {
            Ok(oid_content(arcs))
        },
    }
}

/// What `Oid`'s `Display` writes for the identifier with these content octets.
pub uninterp spec fn oid_text(content: Seq<u8>) -> Seq<char>;

/// `asn1_rs::Oid::from_str`, then `Oid::as_bytes`.
///
/// Trusted: the pieces between dots are parsed as `u64`, the first two share
/// an octet, the others are written in base 128; one of three errors comes
/// where that is not possible.
#[verifier::external_body]
fn parse_oid(value: &str) -> (r: Result<Vec<u8>, OidFault>)
    ensures
        match r {
            Ok(content) => dotted_oid(value@) == Ok::<Seq<u8>, OidFault>(content@),
            Err(e) => dotted_oid(value@) == Err::<Seq<u8>, OidFault>(e),
        },
{
    match value.parse::<Oid>() {
        Ok(oid) => Ok(oid.as_bytes().to_vec()),
        Err(OidParseError::TooShort) => Err(OidFault::TooShort),
        Err(OidParseError::FirstComponentsTooLarge) => Err(OidFault::FirstComponentsTooLarge),
        Err(OidParseError::ParseIntError) => Err(OidFault::ParseIntError),
    }
}

/// `asn1_rs::Oid`'s `Display`, on the identifier with these content octets.
///
/// Trusted: the text depends on the octets alone. What it is, is left
/// unsaid: arcs of more than sixty-four bits have a form of their own.
#[verifier::external_body]
fn display_oid(content: &[u8]) -> (r: String)
    ensures
        r@ == oid_text(content@),
{
    Oid::new(content.into()).to_string()
}

/// The object identifier of the extension that holds a client's identity.
#[derive(Debug)]
pub struct ClientExtOid {
    content: Vec<u8>,
}

impl View for ClientExtOid {
    type V = Seq<u8>;

    /// The content octets of the identifier.
    closed spec fn view(&self) -> Seq<u8> {
        self.content@
    }
}

impl ClientExtOid {
    /// The content octets of the identifier.
    pub fn content(&self) -> (r: &[u8])
        ensures
            r@ == self@,
    {
        self.content.as_slice()
    }
}

/// Parses the object identifier of the extension that holds a client's
/// identity.
pub fn parse_client_ext_oid(value: &str) -> (r: Result<ClientExtOid, OidFault>)
    ensures
        match r {
            Ok(oid) => dotted_oid(value@) == Ok::<Seq<u8>, OidFault>(oid@),
            Err(e) => dotted_oid(value@) == Err::<Seq<u8>, OidFault>(e),
        },
{
    match parse_oid(value) {
        Ok(content) => Ok(ClientExtOid { content }),
        Err(e) => Err(e),
    }
}

// ---------------------------------------------------------------------
// Certificates
// ---------------------------------------------------------------------

/// An extension of a certificate: the content octets of its identifier, and
/// its value.
#[derive(Debug)]
pub struct CertificateExtension {
    pub oid: Vec<u8>,
    pub value: Vec<u8>,
}

/// What a certificate holds, as far as the gateway looks at it.
#[derive(Debug)]
pub struct ParsedCertificate {
    /// The bytes after the certificate.
    pub remaining: Vec<u8>,
    /// The extensions, in order.
    pub extensions: Vec<CertificateExtension>,
    /// The SubjectPublicKeyInfo, in DER.
    pub spki_der: Vec<u8>,
}

/// The content of a [`ParsedCertificate`]. An extension is a pair of its
/// identifier and its value.
#[verifier::ext_equal]
pub struct CertificateView {
    pub remaining: Seq<u8>,
    pub extensions: Seq<(Seq<u8>, Seq<u8>)>,
    pub spki_der: Seq<u8>,
}

impl View for CertificateExtension {
    type V = (Seq<u8>, Seq<u8>);

    open spec fn view(&self) -> (Seq<u8>, Seq<u8>) {
        (self.oid@, self.value@)
    }
}

impl View for ParsedCertificate {
    type V = CertificateView;

    open spec fn view(&self) -> CertificateView {
        CertificateView {
            remaining: self.remaining@,
            extensions: self.extensions@.map_values(|e: CertificateExtension| e@),
            spki_der: self.spki_der@,
        }
    }
}

/// What `X509Certificate::from_der` finds in `der`, or the text of its error.
pub uninterp spec fn x509_certificate(der: Seq<u8>) -> Result<CertificateView, Seq<char>>;

/// What `Utf8String::from_der` finds in `der`, and what it leaves after it,
/// or the text of its error.
pub uninterp spec fn utf8_string(der: Seq<u8>) -> Result<(Seq<char>, Seq<u8>), Seq<char>>;

/// `x509_parser::certificate::X509Certificate::from_der`.
///
/// Trusted: what is found depends on the bytes alone. Which bytes are a
/// certificate is left unsaid.
#[verifier::external_body]
pub(crate) fn parse_x509(der: &[u8]) -> (r: Result<ParsedCertificate, String>)
    ensures
        match r {
            Ok(cert) => x509_certificate(der@) == Ok::<CertificateView, Seq<char>>(cert@),
            Err(e) => x509_certificate(der@) == Err::<CertificateView, Seq<char>>(e@),
        },
{
    let (remaining, cert) = X509Certificate::from_der(der).map_err(|e| e.to_string())?;
    let extensions = cert.tbs_certificate.extensions().iter();
    Ok(ParsedCertificate {
        remaining: remaining.to_vec(),
        extensions: extensions.map(|e| CertificateExtension {
            oid: e.oid.as_bytes().to_vec(),
            value: e.value.to_vec(),
        }).collect(),
        spki_der: cert.tbs_certificate.subject_pki.raw.to_vec(),
    })
}

/// A text, and the bytes that stood after it.
#[derive(Debug)]
pub struct DecodedText {
    pub text: String,
    pub remaining: Vec<u8>,
}

/// Whether `found` is the text that `der` starts with, if it starts with the
/// encoding of a text.
pub open spec fn reads_text(der: Seq<u8>, found: Result<DecodedText, String>) -> bool {
    forall|text: Seq<char>, rest: Seq<u8>|
        der == #[trigger] (tlv(0x0c, vstd::utf8::encode_utf8(text)) + rest) ==> (found matches Ok(d)
            && d.text@ == text && d.remaining@ == rest)
}

/// `asn1_rs::Utf8String::from_der`.
///
/// Trusted: what is found depends on the bytes alone, and the encoding of a
/// text is read back, with what stands after it. Which other bytes are
/// accepted is left unsaid.
#[verifier::external_body]
fn parse_utf8_string(der: &[u8]) -> (r: Result<DecodedText, String>)
    ensures
        match r {
            Ok(d) => utf8_string(der@) == Ok::<(Seq<char>, Seq<u8>), Seq<char>>(
                (d.text@, d.remaining@),
            ),
            Err(e) => utf8_string(der@) == Err::<(Seq<char>, Seq<u8>), Seq<char>>(e@),
        },
        reads_text(der@, r),
{
    let (remaining, text) = Utf8String::from_der(der).map_err(|e| e.to_string())?;
    Ok(DecodedText { text: text.string(), remaining: remaining.to_vec() })
}

/// Whether two runs of bytes are the same.
pub fn same_bytes(a: &[u8], b: &[u8]) -> (r: bool)
    ensures
        r == (a@ == b@),
{
    if a.len() != b.len() {
        return false;
    }
    let mut i: usize = 0;
    while i < a.len()
        invariant
            i <= a@.len() == b@.len(),
            forall|k: int| 0 <= k < i ==> a@[k] == b@[k],
        decreases a.len() - i,
    {
        if a[i] != b[i] {
            return false;
        }
        i = i + 1;
    }
    assert(a@ == b@);
    true
}

/// The value of the first extension with the given identifier.
pub open spec fn extension_value(
    extensions: Seq<(Seq<u8>, Seq<u8>)>,
    oid: Seq<u8>,
) -> Option<Seq<u8>>
    decreases extensions.len(),
{
    if extensions.len() == 0 {
        None
    } else if extensions[0].0 == oid {
        Some(extensions[0].1)
    } else {
        extension_value(extensions.drop_first(), oid)
    }
}

/// Finds the value of the first extension with the given identifier.
pub fn find_extension<'a>(cert: &'a ParsedCertificate, oid: &ClientExtOid) -> (r: Option<&'a Vec<u8>>)
    ensures
        match r {
            Some(value) => extension_value(cert@.extensions, oid@) == Some(value@),
            None => extension_value(cert@.extensions, oid@) is None,
        },
{
    let ghost all = cert@.extensions;
    let mut i: usize = 0;
    assert(all.skip(0) == all);
    while i < cert.extensions.len()
        invariant
            i <= cert.extensions@.len(),
            all == cert@.extensions,
            extension_value(all, oid@) == extension_value(all.skip(i as int), oid@),
        decreases cert.extensions.len() - i,
    {
        assert(all.skip(i as int)[0] == cert.extensions@[i as int]@);
        if same_bytes(cert.extensions[i].oid.as_slice(), oid.content()) {
            return Some(&cert.extensions[i].value);
        }
        assert(all.skip(i as int).drop_first() == all.skip(i + 1));
        i = i + 1;
    }
    None
}

/// The identity that an extension's decoded value gives, or why it gives none.
pub open spec fn decoded_identity(
    decoded: Result<(Seq<char>, Seq<u8>), Seq<char>>,
) -> Result<Seq<char>, Seq<char>> {
    match decoded {
        Ok((text, remaining)) => if remaining.len() > 0 {
            Err("extension value contains trailing bytes"@)
        } else {
            Ok(text)
        },
        Err(e) => Err("failed to decode extension as UTF8String: "@ + e),
    }
}

/// Takes the identity from an extension's decoded value, after which nothing
/// may follow.
pub fn identity_from_decoded(decoded: Result<DecodedText, String>) -> (r: Result<String, String>)
    ensures
        ({
            let plain = match decoded {
                Ok(d) => Ok((d.text@, d.remaining@)),
                Err(e) => Err(e@),
            };
            match r {
                Ok(identity) => decoded_identity(plain) == Ok::<Seq<char>, Seq<char>>(identity@),
                Err(reason) => decoded_identity(plain) == Err::<Seq<char>, Seq<char>>(reason@),
            }
        }),
{
    match decoded {
        Ok(d) => if d.remaining.len() > 0 {
            Err("extension value contains trailing bytes".to_owned())
        } else {
            Ok(d.text)
        },
        Err(e) => Err("failed to decode extension as UTF8String: ".to_owned().concat(e.as_str())),
    }
}

/// Who a certificate is about: the identity that its extension holds, and its
/// key.
#[derive(Debug)]
pub struct CertificateSubject {
    pub identity: String,
    /// The SubjectPublicKeyInfo, in DER.
    pub spki_der: Vec<u8>,
}

/// A subject or the reason why there is none, as plain values.
pub open spec fn plain_subject(
    r: Result<CertificateSubject, String>,
) -> Result<(Seq<char>, Seq<u8>), Seq<char>> {
    match r {
        Ok(subject) => Ok((subject.identity@, subject.spki_der@)),
        Err(reason) => Err(reason@),
    }
}

/// The identity and the key of a parsed certificate, or why it gives no
/// identity.
pub open spec fn parsed_subject(
    parsed: Result<CertificateView, Seq<char>>,
    oid: Seq<u8>,
) -> Result<(Seq<char>, Seq<u8>), Seq<char>> {
    match parsed {
        Err(e) => Err("failed to parse client certificate: "@ + e),
        Ok(cert) => match extension_value(cert.extensions, oid) {
            None => Err("missing required extension "@ + oid_text(oid)),
            Some(value) => match decoded_identity(utf8_string(value)) {
                Ok(identity) => Ok((identity, cert.spki_der)),
                Err(reason) => Err(reason),
            },
        },
    }
}

/// Takes the identity and the key from a parsed certificate. Where the
/// extension's value is the encoding of a text, the identity is that text.
pub fn subject_from_parsed(
    parsed: Result<ParsedCertificate, String>,
    oid: &ClientExtOid,
) -> (r: Result<CertificateSubject, String>)
    ensures
        plain_subject(r) == parsed_subject(
            match parsed {
                Ok(cert) => Ok(cert@),
                Err(e) => Err(e@),
            },
            oid@,
        ),
        forall|text: Seq<char>|
            (parsed matches Ok(cert) && extension_value(cert@.extensions, oid@) == Some(
                #[trigger] tlv(0x0c, vstd::utf8::encode_utf8(text)),
            )) ==> (r matches Ok(subject) && subject.identity@ == text),
{
    match parsed {
        Err(e) => Err("failed to parse client certificate: ".to_owned().concat(e.as_str())),
        Ok(cert) => match find_extension(&cert, oid) {
            None => {
                let name = display_oid(oid.content());
                Err("missing required extension ".to_owned().concat(name.as_str()))
            },
            Some(value) => {
                let decoded = parse_utf8_string(value.as_slice());
                proof {
                    assert forall|text: Seq<char>|
                        value@ == (#[trigger] tlv(0x0c, vstd::utf8::encode_utf8(text))) implies (
                    decoded matches Ok(d) && d.text@ == text && d.remaining@.len() == 0) by {
                        let none = Seq::<u8>::empty();
                        assert(value@ == tlv(0x0c, vstd::utf8::encode_utf8(text)) + none);
                    }
                }
                match identity_from_decoded(decoded) {
                    Ok(identity) => Ok(CertificateSubject { identity, spki_der: cert.spki_der }),
                    Err(reason) => Err(reason),
                }
            },
        },
    }
}

/// The bytes of each certificate of a chain.
pub open spec fn chain_bytes(certificates: Seq<Vec<u8>>) -> Seq<Seq<u8>> {
    certificates.map_values(|c: Vec<u8>| c@)
}

/// The identity and the key that a chain of certificates gives: those of its
/// first certificate, the leaf.
pub open spec fn chain_subject(
    chain: Seq<Seq<u8>>,
    oid: Seq<u8>,
) -> Result<(Seq<char>, Seq<u8>), Seq<char>> {
    if chain.len() == 0 {
        Err("no client certificate"@)
    } else {
        parsed_subject(x509_certificate(chain[0]), oid)
    }
}

/// Takes the identity and the key of a client from the certificates that it
/// presented. The leaf comes first; what follows it is not looked at. Where
/// the leaf's extension is the encoding of a text, the identity is that text.
pub fn certificate_subject(
    peer_certificates: &[Vec<u8>],
    client_ext_oid: &ClientExtOid,
) -> (r: Result<CertificateSubject, String>)
    ensures
        plain_subject(r) == chain_subject(chain_bytes(peer_certificates@), client_ext_oid@),
        forall|text: Seq<char>|
            (peer_certificates@.len() > 0 && (x509_certificate(peer_certificates@[0]@) matches Ok(c)
                && extension_value(c.extensions, client_ext_oid@) == Some(
                #[trigger] tlv(0x0c, vstd::utf8::encode_utf8(text)),
            ))) ==> (r matches Ok(s) && s.identity@ == text),
{
    if peer_certificates.len() == 0 {
        return Err("no client certificate".to_owned());
    }
    let parsed = parse_x509(peer_certificates[0].as_slice());
    subject_from_parsed(parsed, client_ext_oid)
}

/// Takes the identity of a client from the certificates that it presented.
/// Where the leaf's extension is the encoding of a text, the identity is that
/// text.
pub fn certificate_identity(
    peer_certificates: &[Vec<u8>],
    client_ext_oid: &ClientExtOid,
) -> (r: Result<String, String>)
    ensures
        match r {
            Ok(identity) => chain_subject(
                chain_bytes(peer_certificates@),
                client_ext_oid@,
            ) matches Ok(subject) && identity@ == subject.0,
            Err(reason) => chain_subject(chain_bytes(peer_certificates@), client_ext_oid@) == Err::<
                (Seq<char>, Seq<u8>),
                Seq<char>,
            >(reason@),
        },
        forall|text: Seq<char>|
            (peer_certificates@.len() > 0 && (x509_certificate(peer_certificates@[0]@) matches Ok(c)
                && extension_value(c.extensions, client_ext_oid@) == Some(
                #[trigger] tlv(0x0c, vstd::utf8::encode_utf8(text)),
            ))) ==> (r matches Ok(identity) && identity@ == text),
{
    match certificate_subject(peer_certificates, client_ext_oid) {
        Ok(subject) => Ok(subject.identity),
        Err(reason) => Err(reason),
    }
}

/// The SubjectPublicKeyInfo of a certificate, in DER.
pub fn certificate_spki(cert: &[u8]) -> (r: Result<Vec<u8>, String>)
    ensures
        match r {
            Ok(spki) => x509_certificate(cert@) matches Ok(c) && spki@ == c.spki_der,
            Err(e) => x509_certificate(cert@) is Err && e@ == "parsing client certificate"@,
        },
{
    match parse_x509(cert) {
        Ok(parsed) => Ok(parsed.spki_der),
        Err(_) => Err("parsing client certificate".to_owned()),
    }
}

} // verus!
