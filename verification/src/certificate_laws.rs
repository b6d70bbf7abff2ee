//! Whose certificate it is: which extension counts, and what it says.

use vstd::prelude::*;

use crate::certificate::{
    certificate_identity, certificate_spki, certificate_subject, chain_bytes, chain_subject,
    extension_value, find_extension, identity_from_decoded, oid_text, same_bytes,
    subject_from_parsed, utf8_string, x509_certificate, CertificateSubject, CertificateView,
    ClientExtOid, DecodedText, ParsedCertificate,
};

verus! {

// ---------------------------------------------------------------------
// Extensions
// ---------------------------------------------------------------------

/// Whether the extension at a position is the first one with an identifier.
pub open spec fn is_first_with(
    extensions: Seq<(Seq<u8>, Seq<u8>)>,
    oid: Seq<u8>,
    i: int,
) -> bool {
    &&& 0 <= i < extensions.len()
    &&& extensions[i].0 == oid
    &&& forall|k: int| 0 <= k < i ==> (#[trigger] extensions[k]).0 != oid
}

/// The value that is found is that of the first extension with the
/// identifier, wherever that stands; nothing is found only where no extension
/// has it.
pub proof fn law_first_extension_counts(extensions: Seq<(Seq<u8>, Seq<u8>)>, oid: Seq<u8>)
    ensures
        forall|i: int| #[trigger]
            is_first_with(extensions, oid, i) ==> extension_value(extensions, oid) == Some(
                extensions[i].1,
            ),
        extension_value(extensions, oid) is None <==> forall|i: int|
            0 <= i < extensions.len() ==> (#[trigger] extensions[i]).0 != oid,
        extension_value(extensions, oid) is Some ==> exists|i: int| #[trigger]
            is_first_with(extensions, oid, i),
    decreases extensions.len(),
{
    if extensions.len() > 0 {
        let rest = extensions.drop_first();
        law_first_extension_counts(rest, oid);
        if extensions[0].0 == oid {
            assert(is_first_with(extensions, oid, 0));
            assert forall|i: int| #[trigger] is_first_with(extensions, oid, i) implies i == 0 by {
                if i > 0 {
                    assert(extensions[0].0 != oid);
                }
            }
        } else {
            assert forall|i: int| #[trigger]
                is_first_with(extensions, oid, i) implies extension_value(extensions, oid) == Some(
                extensions[i].1,
            ) by {
                assert(rest[i - 1] == extensions[i]);
                assert forall|k: int| 0 <= k < i - 1 implies (#[trigger] rest[k]).0 != oid by {
                    assert(rest[k] == extensions[k + 1]);
                }
                assert(is_first_with(rest, oid, i - 1));
            }
            if extension_value(rest, oid) is Some {
                let i = choose|i: int| #[trigger] is_first_with(rest, oid, i);
                assert forall|k: int| 0 <= k < i + 1 implies (#[trigger] extensions[k]).0 != oid by {
                    if k > 0 {
                        assert(extensions[k] == rest[k - 1]);
                    }
                }
                assert(extensions[i + 1] == rest[i]);
                assert(is_first_with(extensions, oid, i + 1));
            } else {
                assert forall|i: int| 0 <= i < extensions.len() implies (
                #[trigger] extensions[i]).0 != oid by {
                    if i > 0 {
                        assert(extensions[i] == rest[i - 1]);
                    }
                }
            }
        }
    }
}

/// Looking up an extension of a certificate finds the value of the first
/// extension with the identifier, and nothing where there is none.
pub proof fn law_extension_is_found(
    cert: ParsedCertificate,
    oid: ClientExtOid,
    found: Option<&Vec<u8>>,
    i: int,
)
    requires
        call_ensures(find_extension, (&cert, &oid), found),
    ensures
        0 <= i < cert.extensions@.len() && cert.extensions@[i].oid@ == oid@ && (forall|k: int|
            0 <= k < i ==> (#[trigger] cert.extensions@[k]).oid@ != oid@) ==> found is Some
            && found->0@ == cert.extensions@[i].value@,
        found is None <==> forall|k: int|
            0 <= k < cert.extensions@.len() ==> (#[trigger] cert.extensions@[k]).oid@ != oid@,
{
    let all = cert@.extensions;
    law_first_extension_counts(all, oid@);
    assert forall|k: int| 0 <= k < all.len() implies (#[trigger] all[k]).0
        == cert.extensions@[k].oid@ && all[k].1 == cert.extensions@[k].value@ by {}
    if 0 <= i < cert.extensions@.len() && cert.extensions@[i].oid@ == oid@ && (forall|k: int|
        0 <= k < i ==> (#[trigger] cert.extensions@[k]).oid@ != oid@) {
        assert forall|k: int| 0 <= k < i implies (#[trigger] all[k]).0 != oid@ by {
            assert(cert.extensions@[k].oid@ != oid@);
        }
        assert(is_first_with(all, oid@, i));
    }
    if found is None {
        assert forall|k: int| 0 <= k < cert.extensions@.len() implies (
        #[trigger] cert.extensions@[k]).oid@ != oid@ by {
            assert(all[k].0 != oid@);
        }
    } else {
        let j = choose|j: int| #[trigger] is_first_with(all, oid@, j);
        assert(cert.extensions@[j].oid@ == oid@);
    }
}

// ---------------------------------------------------------------------
// Subjects
// ---------------------------------------------------------------------

/// Whether a certificate says an identity: the first extension with the
/// identifier holds the text, and nothing after it.
pub open spec fn says_identity(cert: CertificateView, oid: Seq<u8>, identity: Seq<char>) -> bool {
    exists|i: int| #[trigger]
        is_first_with(cert.extensions, oid, i) && utf8_string(cert.extensions[i].1) == Ok::<
            (Seq<char>, Seq<u8>),
            Seq<char>,
        >((identity, Seq::empty()))
}

/// A chain gives an identity and a key exactly where its first certificate
/// parses and says that identity; the key is that certificate's own.
pub proof fn law_chain_subject(chain: Seq<Seq<u8>>, oid: Seq<u8>, identity: Seq<char>, key: Seq<u8>)
    ensures
        chain_subject(chain, oid) == Ok::<(Seq<char>, Seq<u8>), Seq<char>>((identity, key)) <==> (
        chain.len() > 0 && (x509_certificate(chain[0]) matches Ok(cert) && says_identity(
            cert,
            oid,
            identity,
        ) && key == cert.spki_der)),
{
    if chain.len() > 0 {
        if let Ok(cert) = x509_certificate(chain[0]) {
            law_first_extension_counts(cert.extensions, oid);
            if let Some(value) = extension_value(cert.extensions, oid) {
                let i = choose|i: int| #[trigger] is_first_with(cert.extensions, oid, i);
                assert(value == cert.extensions[i].1);
                if let Ok((text, remaining)) = utf8_string(value) {
                    assert(remaining.len() == 0 ==> remaining =~= Seq::<u8>::empty());
                }
            } else if says_identity(cert, oid, identity) {
                let i = choose|i: int| #[trigger] is_first_with(cert.extensions, oid, i);
                assert(cert.extensions[i].0 != oid);
            }
        }
    }
}

/// What is taken from the certificates that a client presents is the identity
/// that the first of them says, and its key; where it says none, nothing is.
pub proof fn law_subject_is_that_of_the_leaf(
    certificates: &[Vec<u8>],
    oid: ClientExtOid,
    r: Result<CertificateSubject, String>,
)
    requires
        call_ensures(certificate_subject, (certificates, &oid), r),
    ensures
        match r {
            Ok(subject) => certificates@.len() > 0 && (x509_certificate(
                certificates@[0]@,
            ) matches Ok(cert) && says_identity(cert, oid@, subject.identity@)
                && subject.spki_der@ == cert.spki_der),
            Err(_) => certificates@.len() > 0 ==> (x509_certificate(
                certificates@[0]@,
            ) matches Ok(cert) ==> forall|identity: Seq<char>| !says_identity(
                cert,
                oid@,
                identity,
            )),
        },
{
    let chain = chain_bytes(certificates@);
    match r {
        Ok(subject) => law_chain_subject(chain, oid@, subject.identity@, subject.spki_der@),
        Err(_) => if certificates@.len() > 0 {
            if let Ok(cert) = x509_certificate(certificates@[0]@) {
                assert forall|identity: Seq<char>| !says_identity(cert, oid@, identity) by {
                    law_chain_subject(chain, oid@, identity, cert.spki_der);
                }
            }
        },
    }
}

/// The identity that is taken from certificates is the one that is taken
/// together with the key.
pub proof fn law_identity_is_that_of_the_leaf(
    certificates: &[Vec<u8>],
    oid: ClientExtOid,
    r: Result<String, String>,
)
    requires
        call_ensures(certificate_identity, (certificates, &oid), r),
    ensures
        match r {
            Ok(identity) => certificates@.len() > 0 && (x509_certificate(
                certificates@[0]@,
            ) matches Ok(cert) && says_identity(cert, oid@, identity@)),
            Err(_) => certificates@.len() > 0 ==> (x509_certificate(
                certificates@[0]@,
            ) matches Ok(cert) ==> forall|identity: Seq<char>| !says_identity(
                cert,
                oid@,
                identity,
            )),
        },
{
    let chain = chain_bytes(certificates@);
    match r {
        Ok(identity) => {
            let key = (chain_subject(chain, oid@)->Ok_0).1;
            law_chain_subject(chain, oid@, identity@, key);
        },
        Err(_) => if certificates@.len() > 0 {
            if let Ok(cert) = x509_certificate(certificates@[0]@) {
                assert forall|identity: Seq<char>| !says_identity(cert, oid@, identity) by {
                    law_chain_subject(chain, oid@, identity, cert.spki_der);
                }
            }
        },
    }
}

/// The key of a certificate is had exactly where the certificate parses, and
/// is the one in it.
pub proof fn law_spki_is_that_of_the_certificate(cert: &[u8], r: Result<Vec<u8>, String>)
    requires
        call_ensures(certificate_spki, (cert,), r),
    ensures
        r is Ok <==> x509_certificate(cert@) is Ok,
        r is Ok ==> r->Ok_0@ == (x509_certificate(cert@)->Ok_0).spki_der,
{
}

/// Two runs of bytes are the same exactly where they have the same length and
/// the same byte at every position.
pub proof fn law_same_bytes(a: &[u8], b: &[u8], r: bool)
    requires
        call_ensures(same_bytes, (a, b), r),
    ensures
        r <==> a@.len() == b@.len() && forall|i: int| 0 <= i < a@.len() ==> a@[i] == b@[i],
{
    if a@.len() == b@.len() && forall|i: int| 0 <= i < a@.len() ==> a@[i] == b@[i] {
        assert(a@ =~= b@);
    }
}

/// The bytes of a chain are those of each of its certificates, in order.
pub proof fn law_chain_bytes(certificates: Seq<Vec<u8>>)
    ensures
        chain_bytes(certificates).len() == certificates.len(),
        forall|i: int|
            0 <= i < certificates.len() ==> #[trigger] chain_bytes(certificates)[i]
                == certificates[i]@,
{
}

/// Where a chain gives no identity, the reason is that it is empty, or else
/// that its first certificate does not parse, or else that the extension is
/// missing, or else what is wrong with the value of the first such extension.
pub proof fn law_missing_identity_is_explained(chain: Seq<Seq<u8>>, oid: Seq<u8>)
    requires
        chain_subject(chain, oid) is Err,
    ensures
        ({
            let reason = chain_subject(chain, oid)->Err_0;
            if chain.len() == 0 {
                reason == "no client certificate"@
            } else {
                match x509_certificate(chain[0]) {
                    Err(e) => reason == "failed to parse client certificate: "@ + e,
                    Ok(cert) => if exists|k: int|
                        0 <= k < cert.extensions.len() && (#[trigger] cert.extensions[k]).0
                            == oid {
                        exists|i: int| #[trigger]
                            is_first_with(cert.extensions, oid, i) && match utf8_string(
                                cert.extensions[i].1,
                            ) {
                                Err(e) => reason == "failed to decode extension as UTF8String: "@
                                    + e,
                                Ok((_, after)) => after.len() > 0 && reason
                                    == "extension value contains trailing bytes"@,
                            }
                    } else {
                        reason == "missing required extension "@ + oid_text(oid)
                    },
                }
            }
        }),
{
    if chain.len() > 0 {
        if let Ok(cert) = x509_certificate(chain[0]) {
            law_first_extension_counts(cert.extensions, oid);
            if let Some(value) = extension_value(cert.extensions, oid) {
                let i = choose|i: int| #[trigger] is_first_with(cert.extensions, oid, i);
                assert(value == cert.extensions[i].1);
            }
        }
    }
}

/// The reason why no identity is taken from certificates is the one that the
/// chain gives, with the key or without.
pub proof fn law_reasons_are_handed_on(
    certificates: &[Vec<u8>],
    oid: ClientExtOid,
    subject: Result<CertificateSubject, String>,
    identity: Result<String, String>,
)
    requires
        call_ensures(certificate_subject, (certificates, &oid), subject),
        call_ensures(certificate_identity, (certificates, &oid), identity),
    ensures
        subject is Ok <==> identity is Ok,
        subject is Ok ==> (subject->Ok_0).identity@ == (identity->Ok_0)@,
        subject is Err ==> chain_subject(chain_bytes(certificates@), oid@) == Err::<
            (Seq<char>, Seq<u8>),
            Seq<char>,
        >((subject->Err_0)@) && (identity->Err_0)@ == (subject->Err_0)@,
{
}

/// A decoded value gives its text exactly where nothing follows it.
pub proof fn law_decoded_value_gives_its_text(
    decoded: Result<DecodedText, String>,
    r: Result<String, String>,
)
    requires
        call_ensures(identity_from_decoded, (decoded,), r),
    ensures
        r is Ok <==> (decoded matches Ok(d) && d.remaining@.len() == 0),
        r is Ok ==> (r->Ok_0)@ == (decoded->Ok_0).text@,
{
}

/// A parsed certificate gives the identity that it says, and its key.
pub proof fn law_parsed_certificate_gives_its_subject(
    cert: ParsedCertificate,
    oid: ClientExtOid,
    identity: Seq<char>,
    r: Result<CertificateSubject, String>,
)
    requires
        call_ensures(subject_from_parsed, (Ok(cert), &oid), r),
    ensures
        says_identity(cert@, oid@, identity) <==> (r matches Ok(subject) && subject.identity@
            == identity),
        r matches Ok(subject) ==> subject.spki_der@ == cert@.spki_der,
{
    let all = cert@.extensions;
    law_first_extension_counts(all, oid@);
    if let Some(value) = extension_value(all, oid@) {
        let i = choose|i: int| #[trigger] is_first_with(all, oid@, i);
        assert(value == all[i].1);
        if let Ok((text, remaining)) = utf8_string(value) {
            assert(remaining.len() == 0 ==> remaining =~= Seq::<u8>::empty());
        }
    } else if says_identity(cert@, oid@, identity) {
        let i = choose|i: int| #[trigger] is_first_with(all, oid@, i);
        assert(all[i].0 != oid@);
    }
}

} // verus!
