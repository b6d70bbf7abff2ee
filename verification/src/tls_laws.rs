//! Which files and which certificates TLS is given, one by one.

use vstd::prelude::*;

use crate::certificate::{chain_bytes, x509_certificate, ParsedCertificate};
use crate::tls::{
    check_encoding, check_trust_anchors, load_certs, load_private_key, load_trust_anchors,
    parsable_anchors, parse_certificate, pem_certificates, pem_private_key, require_certificates,
    require_private_key, store_anchors, verify_client_cert, CertificateFault, PrivateKey,
};

verus! {

/// The certificates of a file are had exactly where the file reads as at least
/// one, and are all of them, in order.
pub proof fn law_certificates_are_loaded(pem: &[u8], path: &str, r: Result<Vec<Vec<u8>>, String>)
    requires
        call_ensures(load_certs, (pem, path), r),
    ensures
        r is Ok <==> (pem_certificates(pem@) matches Ok(certs) && certs.len() > 0),
        r is Ok ==> pem_certificates(pem@) == Ok::<Seq<Seq<u8>>, Seq<char>>(
            chain_bytes((r->Ok_0)@),
        ),
        r is Err ==> (r->Err_0)@ == (match pem_certificates(pem@) {
            Ok(_) => "no certificates in "@ + path@,
            Err(e) => e,
        }),
{
}

/// The private key of a file is had exactly where the file reads as one, and
/// is that key.
pub proof fn law_private_key_is_loaded(pem: &[u8], path: &str, r: Result<PrivateKey, String>)
    requires
        call_ensures(load_private_key, (pem, path), r),
    ensures
        r is Ok <==> pem_private_key(pem@) matches Ok(Some(_)),
        r matches Ok(key) ==> (pem_private_key(pem@) matches Ok(Some(found)) && found.0
            == key.kind && found.1 == key.der@),
        r is Err ==> (r->Err_0)@ == (match pem_private_key(pem@) {
            Ok(_) => "no private key in "@ + path@,
            Err(e) => e,
        }),
{
}

/// Trust anchors are had exactly where the file reads as at least one
/// certificate and every one of them is an anchor; and they are those.
pub proof fn law_trust_anchors_are_loaded(
    pem: &[u8],
    path: &str,
    r: Result<rustls::RootCertStore, String>,
)
    requires
        call_ensures(load_trust_anchors, (pem, path), r),
    ensures
        r is Ok <==> (pem_certificates(pem@) matches Ok(certs) && certs.len() > 0
            && parsable_anchors(certs).len() == certs.len()),
        r is Ok ==> (pem_certificates(pem@) matches Ok(certs) && store_anchors(r->Ok_0)
            == parsable_anchors(certs)),
        r is Err ==> (r->Err_0)@ == (match pem_certificates(pem@) {
            Ok(certs) => if certs.len() == 0 {
                "no certificates in "@ + path@
            } else {
                "unparseable certificates in "@ + path@
            },
            Err(e) => e,
        }),
{
}

/// Trust anchors serve exactly where some were added and none was ignored;
/// one that was ignored is what is said first.
pub proof fn law_trust_anchors_serve(added: usize, ignored: usize, path: &str, r: Result<(), String>)
    requires
        call_ensures(check_trust_anchors, (added, ignored, path), r),
    ensures
        r is Ok <==> added > 0 && ignored == 0,
        r is Err ==> (r->Err_0)@ == (if ignored > 0 {
            "unparseable certificates in "@ + path@
        } else {
            "no trust anchors in "@ + path@
        }),
{
}

/// What a file holds is taken as it is, unless it holds nothing.
pub proof fn law_file_has_to_hold_something(
    certs: Result<Vec<Vec<u8>>, String>,
    some_certs: Result<Vec<Vec<u8>>, String>,
    key: Result<Option<PrivateKey>, String>,
    some_key: Result<PrivateKey, String>,
    path: &str,
)
    requires
        call_ensures(require_certificates, (certs, path), some_certs),
        call_ensures(require_private_key, (key, path), some_key),
    ensures
        some_certs is Ok <==> certs is Ok && (certs->Ok_0)@.len() > 0,
        some_certs is Ok ==> chain_bytes((some_certs->Ok_0)@) == chain_bytes((certs->Ok_0)@),
        certs is Err ==> (some_certs->Err_0)@ == (certs->Err_0)@,
        some_key is Ok <==> key is Ok && (key->Ok_0) is Some,
        some_key is Ok ==> (some_key->Ok_0).kind == (key->Ok_0)->0.kind && (some_key->Ok_0).der@
            == (key->Ok_0)->0.der@,
        key is Err ==> (some_key->Err_0)@ == (key->Err_0)@,
{
}

/// What was parsed is a whole certificate exactly where nothing follows it.
pub proof fn law_nothing_follows(
    parsed: Result<ParsedCertificate, String>,
    r: Result<(), CertificateFault>,
)
    requires
        call_ensures(check_encoding, (parsed,), r),
    ensures
        r is Ok <==> parsed is Ok && (parsed->Ok_0)@.remaining.len() == 0,
{
}

/// A certificate is accepted exactly where it parses with nothing after it.
pub proof fn law_certificate_is_whole(cert: &[u8], r: Result<(), CertificateFault>)
    requires
        call_ensures(parse_certificate, (cert,), r),
    ensures
        r is Ok <==> (x509_certificate(cert@) matches Ok(found) && found.remaining.len() == 0),
{
}

/// The certificates of a client are accepted exactly where each of them, the
/// first and every other, parses with nothing after it.
pub proof fn law_client_certificates_are_whole(
    leaf: &[u8],
    others: &[Vec<u8>],
    r: Result<(), CertificateFault>,
)
    requires
        call_ensures(verify_client_cert, (leaf, others), r),
    ensures
        r is Ok <==> (x509_certificate(leaf@) matches Ok(found) && found.remaining.len() == 0)
            && forall|i: int|
            0 <= i < others@.len() ==> (x509_certificate(
                (#[trigger] others@[i])@,
            ) matches Ok(found) && found.remaining.len() == 0),
{
}

} // verus!
