//! Certificates and keys for TLS: which files are good enough, and which
//! client certificates the handshake lets through.

use vstd::prelude::*;

use crate::certificate::{chain_bytes, parse_x509, x509_certificate, CertificateView, ParsedCertificate};

use rustls_pki_types::{CertificateDer, PrivateKeyDer};

verus! {

// ---------------------------------------------------------------------
// PEM files
// ---------------------------------------------------------------------

/// The encoding of a private key.
#[derive(Clone, Copy, Debug, PartialEq, Eq, Structural)]
pub enum PrivateKeyKind {
    Pkcs1,
    Sec1,
    Pkcs8,
}

/// A private key in DER.
pub struct PrivateKey {
    pub kind: PrivateKeyKind,
    pub der: Vec<u8>,
}

/// The certificates that `rustls_pemfile` finds in a PEM file, or the text of
/// its error.
pub uninterp spec fn pem_certificates(pem: Seq<u8>) -> Result<Seq<Seq<u8>>, Seq<char>>;

/// The first private key that `rustls_pemfile` finds in a PEM file, if there
/// is one, or the text of its error.
pub uninterp spec fn pem_private_key(
    pem: Seq<u8>,
) -> Result<Option<(PrivateKeyKind, Seq<u8>)>, Seq<char>>;

/// Certificates or the text of an error, as plain values.
pub open spec fn plain_certificates(
    r: Result<Vec<Vec<u8>>, String>,
) -> Result<Seq<Seq<u8>>, Seq<char>> {
    match r {
        Ok(certs) => Ok(chain_bytes(certs@)),
        Err(e) => Err(e@),
    }
}

/// A key that may be missing or the text of an error, as plain values.
pub open spec fn plain_private_key(
    r: Result<Option<PrivateKey>, String>,
) -> Result<Option<(PrivateKeyKind, Seq<u8>)>, Seq<char>> {
    match r {
        Ok(Some(key)) => Ok(Some((key.kind, key.der@))),
        Ok(None) => Ok(None),
        Err(e) => Err(e@),
    }
}

/// `rustls_pemfile::certs`, up to the first error.
///
/// Trusted: what is found depends on the bytes alone. Which bytes hold
/// certificates is left unsaid.
#[verifier::external_body]
fn read_pem_certificates(pem: &[u8]) -> (r: Result<Vec<Vec<u8>>, String>)
    ensures
        plain_certificates(r) == pem_certificates(pem@),
{
    let mut reader = pem;
    rustls_pemfile::certs(&mut reader)
        .map(|cert| cert.map(|c| c.to_vec()).map_err(|e| e.to_string()))
        .collect()
}

/// `rustls_pemfile::private_key`.
///
/// Trusted: what is found depends on the bytes alone. Which bytes hold a key
/// is left unsaid.
#[verifier::external_body]
fn read_pem_private_key(pem: &[u8]) -> (r: Result<Option<PrivateKey>, String>)
    ensures
        plain_private_key(r) == pem_private_key(pem@),
{
    let mut reader = pem;
    let Some(key) = rustls_pemfile::private_key(&mut reader).map_err(|e| e.to_string())? else {
        return Ok(None);
    };
    let kind = match key {
        PrivateKeyDer::Pkcs1(_) => PrivateKeyKind::Pkcs1,
        PrivateKeyDer::Sec1(_) => PrivateKeyKind::Sec1,
        PrivateKeyDer::Pkcs8(_) => PrivateKeyKind::Pkcs8,
        _ => return Err("unknown kind of private key".to_owned()),
    };
    Ok(Some(PrivateKey { kind, der: key.secret_der().to_vec() }))
}

/// The certificates of a file, of which there has to be one.
pub open spec fn some_certificates(
    found: Result<Seq<Seq<u8>>, Seq<char>>,
    path: Seq<char>,
) -> Result<Seq<Seq<u8>>, Seq<char>> {
    match found {
        Err(e) => Err(e),
        Ok(certs) => if certs.len() == 0 {
            Err("no certificates in "@ + path)
        } else {
            Ok(certs)
        },
    }
}

/// Refuses a file without certificates.
pub fn require_certificates(found: Result<Vec<Vec<u8>>, String>, path: &str) -> (r: Result<
    Vec<Vec<u8>>,
    String,
>)
    ensures
        plain_certificates(r) == some_certificates(plain_certificates(found), path@),
{
    match found {
        Err(e) => Err(e),
        Ok(certs) => if certs.len() == 0 {
            Err("no certificates in ".to_owned().concat(path))
        } else {
            Ok(certs)
        },
    }
}

/// The certificates in the content of a PEM file, which has to hold one. The
/// path is for the error.
pub fn load_certs(pem: &[u8], path: &str) -> (r: Result<Vec<Vec<u8>>, String>)
    ensures
        plain_certificates(r) == some_certificates(pem_certificates(pem@), path@),
{
    let found = read_pem_certificates(pem);
    require_certificates(found, path)
}

/// A key or the text of an error, as plain values.
pub open spec fn plain_key(r: Result<PrivateKey, String>) -> Result<
    (PrivateKeyKind, Seq<u8>),
    Seq<char>,
> {
    match r {
        Ok(key) => Ok((key.kind, key.der@)),
        Err(e) => Err(e@),
    }
}

/// The private key of a file, which has to hold one.
pub open spec fn some_private_key(
    found: Result<Option<(PrivateKeyKind, Seq<u8>)>, Seq<char>>,
    path: Seq<char>,
) -> Result<(PrivateKeyKind, Seq<u8>), Seq<char>> {
    match found {
        Err(e) => Err(e),
        Ok(None) => Err("no private key in "@ + path),
        Ok(Some(key)) => Ok(key),
    }
}

/// Refuses a file without a private key.
pub fn require_private_key(found: Result<Option<PrivateKey>, String>, path: &str) -> (r: Result<
    PrivateKey,
    String,
>)
    ensures
        plain_key(r) == some_private_key(plain_private_key(found), path@),
{
    match found {
        Err(e) => Err(e),
        Ok(None) => Err("no private key in ".to_owned().concat(path)),
        Ok(Some(key)) => Ok(key),
    }
}

/// The first private key in the content of a PEM file, which has to hold one.
/// The path is for the error.
pub fn load_private_key(pem: &[u8], path: &str) -> (r: Result<PrivateKey, String>)
    ensures
        plain_key(r) == some_private_key(pem_private_key(pem@), path@),
{
    let found = read_pem_private_key(pem);
    require_private_key(found, path)
}

// ---------------------------------------------------------------------
// Client certificates
// ---------------------------------------------------------------------

/// Why the handshake turns down a client certificate.
#[derive(Clone, Copy, Debug, PartialEq, Eq, Structural)]
pub enum CertificateFault {
    /// It is not a certificate, or something follows it.
    BadEncoding,
}

/// Whether something is a certificate with nothing after it.
pub open spec fn is_whole(parsed: Result<CertificateView, Seq<char>>) -> bool {
    parsed matches Ok(cert) && cert.remaining.len() == 0
}

/// Accepts what was parsed as a certificate with nothing after it.
pub fn check_encoding(parsed: Result<ParsedCertificate, String>) -> (r: Result<
    (),
    CertificateFault,
>)
    ensures
        r is Ok <==> is_whole(
            match parsed {
                Ok(cert) => Ok(cert@),
                Err(e) => Err(e@),
            },
        ),
{
    match parsed {
        Ok(cert) => if cert.remaining.len() == 0 {
            Ok(())
        } else {
            Err(CertificateFault::BadEncoding)
        },
        Err(_) => Err(CertificateFault::BadEncoding),
    }
}

/// Accepts a certificate in DER with nothing after it.
pub fn parse_certificate(cert: &[u8]) -> (r: Result<(), CertificateFault>)
    ensures
        r is Ok <==> is_whole(x509_certificate(cert@)),
{
    let parsed = parse_x509(cert);
    check_encoding(parsed)
}

/// Accepts the certificates of a client whose every certificate is well
/// encoded. Who signed them, and whether they have expired, does not matter:
/// the registry says which keys are good.
pub fn verify_client_cert(end_entity: &[u8], intermediates: &[Vec<u8>]) -> (r: Result<
    (),
    CertificateFault,
>)
    ensures
        r is Ok <==> is_whole(x509_certificate(end_entity@)) && (forall|i: int|
            0 <= i < intermediates@.len() ==> is_whole(
                x509_certificate((#[trigger] intermediates@[i])@),
            )),
{
    match parse_certificate(end_entity) {
        Ok(_) => {},
        Err(e) => return Err(e),
    }
    let mut i: usize = 0;
    while i < intermediates.len()
        invariant
            i <= intermediates@.len(),
            forall|k: int|
                0 <= k < i ==> is_whole(x509_certificate((#[trigger] intermediates@[k])@)),
        decreases intermediates.len() - i,
    {
        match parse_certificate(intermediates[i].as_slice()) {
            Ok(_) => {},
            Err(e) => return Err(e),
        }
        i = i + 1;
    }
    Ok(())
}

// ---------------------------------------------------------------------
// Trust anchors
// ---------------------------------------------------------------------

/// Why the certificates of a file cannot serve as trust anchors, given how
/// many of them were added and how many ignored.
pub open spec fn trust_anchor_error(added: nat, ignored: nat, path: Seq<char>) -> Option<Seq<char>> {
    if ignored != 0 {
        Some("unparseable certificates in "@ + path)
    } else if added == 0 {
        Some("no trust anchors in "@ + path)
    } else {
        None
    }
}

/// Refuses a file of trust anchors in which one was ignored, or none added.
pub fn check_trust_anchors(added: usize, ignored: usize, path: &str) -> (r: Result<(), String>)
    ensures
        match r {
            Ok(_) => trust_anchor_error(added as nat, ignored as nat, path@) is None,
            Err(e) => trust_anchor_error(added as nat, ignored as nat, path@) == Some(e@),
        },
{
    if ignored != 0 {
        Err("unparseable certificates in ".to_owned().concat(path))
    } else if added == 0 {
        Err("no trust anchors in ".to_owned().concat(path))
    } else {
        Ok(())
    }
}

/// `rustls::RootCertStore`.
#[verifier::external_type_specification]
#[verifier::external_body]
pub struct ExRootCertStore(rustls::RootCertStore);

/// What a certificate says as a trust anchor.
#[verifier::ext_equal]
pub struct Anchor {
    pub subject: Seq<u8>,
    pub spki: Seq<u8>,
    pub name_constraints: Option<Seq<u8>>,
}

/// The trust anchors that `add_parsable_certificates` reads certificates as,
/// in order, without those that it cannot read.
pub uninterp spec fn parsable_anchors(certs: Seq<Seq<u8>>) -> Seq<Anchor>;

/// The trust anchors in a store, in order.
pub uninterp spec fn store_anchors(store: rustls::RootCertStore) -> Seq<Anchor>;

/// `rustls::RootCertStore::add_parsable_certificates`, on an empty store.
///
/// Trusted: the store then holds the anchors of the certificates that can be
/// read as one, and the two numbers are how many those are and how many the
/// others. Which certificates can be read is left unsaid, but depends on the
/// certificates alone.
#[verifier::external_body]
fn add_trust_anchors(certs: Vec<Vec<u8>>) -> (r: (rustls::RootCertStore, usize, usize))
    ensures
        store_anchors(r.0) == parsable_anchors(chain_bytes(certs@)),
        r.1 == parsable_anchors(chain_bytes(certs@)).len(),
        r.1 + r.2 == certs@.len(),
{
    let mut store = rustls::RootCertStore::empty();
    let certs = certs.into_iter().map(CertificateDer::from);
    let (added, ignored) = store.add_parsable_certificates(certs);
    (store, added, ignored)
}

/// The trust anchors that the certificates of a file make up, or why they
/// cannot serve.
pub open spec fn some_anchors(
    found: Result<Seq<Seq<u8>>, Seq<char>>,
    path: Seq<char>,
) -> Result<Seq<Anchor>, Seq<char>> {
    match some_certificates(found, path) {
        Err(e) => Err(e),
        Ok(certs) => {
            let anchors = parsable_anchors(certs);
            match trust_anchor_error(anchors.len(), (certs.len() - anchors.len()) as nat, path) {
                Some(e) => Err(e),
                None => Ok(anchors),
            }
        },
    }
}

/// A store or the text of an error, as plain values.
pub open spec fn plain_store(r: Result<rustls::RootCertStore, String>) -> Result<
    Seq<Anchor>,
    Seq<char>,
> {
    match r {
        Ok(store) => Ok(store_anchors(store)),
        Err(e) => Err(e@),
    }
}

/// The trust anchors in the content of a PEM file, every certificate of which
/// has to be one. The path is for the error.
pub fn load_trust_anchors(pem: &[u8], path: &str) -> (r: Result<rustls::RootCertStore, String>)
    ensures
        plain_store(r) == some_anchors(pem_certificates(pem@), path@),
        pem_certificates(pem@) matches Ok(certs) ==> certs.len() > 0 ==> parsable_anchors(
            certs,
        ).len() <= certs.len(),
{
    let certs = match load_certs(pem, path) {
        Ok(certs) => certs,
        Err(e) => return Err(e),
    };
    let (store, added, ignored) = add_trust_anchors(certs);
    match check_trust_anchors(added, ignored, path) {
        Ok(_) => Ok(store),
        Err(e) => Err(e),
    }
}

} // verus!
