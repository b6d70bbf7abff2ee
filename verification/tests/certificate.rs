use agent_gateway::certificate::{
    certificate_identity, certificate_spki, certificate_subject, identity_from_decoded, parse_client_ext_oid,
    subject_from_parsed, CertificateExtension, DecodedText, OidFault, ParsedCertificate,
};
use agent_gateway::der::der_len;
use agent_gateway::identity::{
    leaf_spki, EccCurve, TpmClientIdentity, TpmPublic, TpmSigningKey,
};
use agent_gateway::tls::{
    check_encoding, check_trust_anchors, load_certs, load_private_key, load_trust_anchors,
    parse_certificate, require_certificates, require_private_key, verify_client_cert, CertificateFault, PrivateKeyKind,
};
use rcgen::{CertificateParams, CustomExtension, KeyPair, PublicKeyData};

const EXT_OID: &str = "1.3.6.1.4.1.57264.1.1";
const EXT_ARCS: &[u64] = &[1, 3, 6, 1, 4, 1, 57264, 1, 1];

fn utf8_string(text: &str) -> Vec<u8> {
    let mut der = vec![0x0c];
    der.extend_from_slice(&der_len(text.len()));
    der.extend_from_slice(text.as_bytes());
    der
}

fn certificate(value: Option<Vec<u8>>) -> (Vec<u8>, KeyPair) {
    let key = KeyPair::generate().unwrap();
    let mut params = CertificateParams::new(vec!["client.example".to_owned()]).unwrap();
    if let Some(value) = value {
        params.custom_extensions.push(CustomExtension::from_oid_content(EXT_ARCS, value));
    }
    let cert = params.self_signed(&key).unwrap();
    (cert.der().to_vec(), key)
}

#[test]
fn oids_are_parsed_to_their_content() {
    let oid = parse_client_ext_oid(EXT_OID).unwrap();
    assert_eq!(
        oid.content(),
        [0x2b, 0x06, 0x01, 0x04, 0x01, 0x83, 0xbf, 0x30, 0x01, 0x01]
    );
    assert_eq!(parse_client_ext_oid("0").unwrap().content(), [0]);
    assert_eq!(parse_client_ext_oid("+1.2.0").unwrap().content(), [42, 0]);
    assert_eq!(parse_client_ext_oid("6.39").unwrap().content(), [23]);
    assert_eq!(
        parse_client_ext_oid("1.2.18446744073709551615").unwrap().content(),
        [42, 0x81, 0xff, 0xff, 0xff, 0xff, 0xff, 0xff, 0xff, 0xff, 0x7f]
    );
}

#[test]
fn oids_that_are_none_are_told_apart() {
    let fault = |s: &str| parse_client_ext_oid(s).unwrap_err();
    assert_eq!(fault("1"), OidFault::TooShort);
    assert_eq!(fault("7.0"), OidFault::FirstComponentsTooLarge);
    assert_eq!(fault("1.40"), OidFault::FirstComponentsTooLarge);
    assert_eq!(fault(""), OidFault::ParseIntError);
    assert_eq!(fault("1..2"), OidFault::ParseIntError);
    assert_eq!(fault("1.2.18446744073709551616"), OidFault::ParseIntError);
    assert_eq!(fault("x").message(), "invalid policy.client_ext_oid: ParseIntError");
}

#[test]
fn identity_is_read_from_the_leaf() {
    let oid = parse_client_ext_oid(EXT_OID).unwrap();
    let (leaf, _) = certificate(Some(utf8_string("agent-alpha")));
    let (other, _) = certificate(Some(utf8_string("agent-beta")));
    assert_eq!(
        certificate_identity(&[leaf, other], &oid).unwrap(),
        "agent-alpha"
    );
}

#[test]
fn identity_may_be_any_text() {
    let oid = parse_client_ext_oid(EXT_OID).unwrap();
    let long = ["a".repeat(127), "b".repeat(128), "ü".repeat(200), "d".repeat(70_000)];
    let long = long.iter().map(|text| text.as_str());
    for text in ["", "Ünïcode", "Agent Alpha"].into_iter().chain(long) {
        let (leaf, _) = certificate(Some(utf8_string(text)));
        assert_eq!(certificate_identity(&[leaf], &oid).unwrap(), text);
    }
}

#[test]
fn missing_identities_are_explained() {
    let oid = parse_client_ext_oid(EXT_OID).unwrap();
    let reason = |chain: &[Vec<u8>]| certificate_identity(chain, &oid).unwrap_err();
    assert_eq!(reason(&[]), "no client certificate");
    assert!(reason(&[vec![1, 2, 3]]).starts_with("failed to parse client certificate: "));
    let (plain, _) = certificate(None);
    assert_eq!(
        reason(&[plain]),
        "missing required extension 1.3.6.1.4.1.57264.1.1"
    );
    let mut trailing = utf8_string("agent-alpha");
    trailing.push(0);
    let (leaf, _) = certificate(Some(trailing));
    assert_eq!(reason(&[leaf]), "extension value contains trailing bytes");
    let (leaf, _) = certificate(Some(vec![0x04, 1, b'a']));
    assert!(reason(&[leaf]).starts_with("failed to decode extension as UTF8String: "));
}

fn parsed(extensions: Vec<(Vec<u8>, Vec<u8>)>) -> ParsedCertificate {
    ParsedCertificate {
        remaining: vec![],
        extensions: extensions
            .into_iter()
            .map(|(oid, value)| CertificateExtension { oid, value })
            .collect(),
        spki_der: vec![7, 8],
    }
}

#[test]
fn first_matching_extension_counts() {
    let oid = parse_client_ext_oid("1.2.3").unwrap();
    let cert = parsed(vec![
        (vec![42, 4], utf8_string("x")),
        (vec![42, 3], utf8_string("first")),
        (vec![42, 3], utf8_string("second")),
    ]);
    let subject = subject_from_parsed(Ok(cert), &oid).unwrap();
    assert_eq!(subject.identity, "first");
    assert_eq!(subject.spki_der, [7, 8]);
    assert_eq!(
        subject_from_parsed(Err("boom".to_owned()), &oid).unwrap_err(),
        "failed to parse client certificate: boom"
    );
    assert_eq!(
        subject_from_parsed(Ok(parsed(vec![])), &oid).unwrap_err(),
        "missing required extension 1.2.3"
    );
}

#[test]
fn decoded_values_must_end() {
    let decoded = |remaining: &[u8]| {
        Ok(DecodedText { text: "t".to_owned(), remaining: remaining.to_vec() })
    };
    assert_eq!(identity_from_decoded(decoded(&[])), Ok("t".to_owned()));
    assert_eq!(
        identity_from_decoded(decoded(&[0])).unwrap_err(),
        "extension value contains trailing bytes"
    );
    assert_eq!(
        identity_from_decoded(Err("bad".to_owned())).unwrap_err(),
        "failed to decode extension as UTF8String: bad"
    );
}

#[test]
fn spki_is_that_of_the_key() {
    let (leaf, key) = certificate(None);
    assert_eq!(certificate_spki(&leaf).unwrap(), key.subject_public_key_info());
    assert_eq!(certificate_spki(&[0x30]).unwrap_err(), "parsing client certificate");
    assert_eq!(
        leaf_spki(&[]).unwrap_err(),
        "client certificate chain must contain a leaf certificate"
    );
    assert_eq!(leaf_spki(&[leaf]).unwrap(), key.subject_public_key_info());
}

fn tpm_key(key: &KeyPair) -> TpmSigningKey {
    let point = key.public_key_raw();
    let public = TpmPublic::Ecc {
        curve: EccCurve::NistP256,
        x: point[1..33].to_vec(),
        y: point[33..].to_vec(),
    };
    TpmSigningKey::load("swtpm", 0x81010004, &public).unwrap()
}

#[test]
fn tpm_identity_needs_the_key_of_the_leaf() {
    let oid = parse_client_ext_oid(EXT_OID).unwrap();
    let (leaf, key) = certificate(Some(utf8_string("agent-alpha")));
    let identity = TpmClientIdentity::load(vec![leaf.clone()], tpm_key(&key), &oid);
    let identity = identity.unwrap_or_else(|e| panic!("{e}"));
    assert_eq!(identity.source_identity(), "agent-alpha");
    let found = certificate_subject(&[leaf.clone()], &oid).unwrap();
    assert_eq!(found.identity, "agent-alpha");
    assert_eq!(found.spki_der, key.subject_public_key_info());
    let (chain, signing_key) = identity.resolver();
    assert_eq!(chain, vec![leaf.clone()]);
    assert_eq!(signing_key.spki_der(), key.subject_public_key_info());

    let (_, other) = certificate(None);
    let e = TpmClientIdentity::load(vec![leaf], tpm_key(&other), &oid).err().unwrap();
    assert_eq!(
        e,
        "client certificate public key does not match TPM key handle 0x81010004"
    );
    let (plain, key) = certificate(None);
    let e = TpmClientIdentity::load(vec![plain], tpm_key(&key), &oid).err().unwrap();
    assert_eq!(e, "missing required extension 1.3.6.1.4.1.57264.1.1");
    let e = TpmClientIdentity::load(vec![], tpm_key(&key), &oid).err().unwrap();
    assert_eq!(e, "client certificate chain must contain a leaf certificate");
}

#[test]
fn client_certificates_must_be_well_encoded() {
    let (a, _) = certificate(None);
    let (b, _) = certificate(Some(utf8_string("x")));
    let mut long = a.clone();
    long.push(0);
    let bad = Err(CertificateFault::BadEncoding);
    assert_eq!(parse_certificate(&a), Ok(()));
    assert_eq!(parse_certificate(&long), bad);
    assert_eq!(parse_certificate(&[]), bad);
    assert_eq!(verify_client_cert(&a, &[]), Ok(()));
    assert_eq!(verify_client_cert(&a, &[b.clone(), a.clone()]), Ok(()));
    assert_eq!(verify_client_cert(&long, &[b.clone()]), bad);
    assert_eq!(verify_client_cert(&a, &[b, long]), bad);
    let mut cert = parsed(vec![]);
    cert.remaining.push(1);
    assert_eq!(check_encoding(Ok(cert)), bad);
    assert_eq!(check_encoding(Ok(parsed(vec![]))), Ok(()));
    assert_eq!(check_encoding(Err("e".to_owned())), bad);
}

fn pem(label: &str, body: &str) -> String {
    format!("-----BEGIN {label}-----\n{body}\n-----END {label}-----\n")
}

#[test]
fn pem_files_are_read() {
    let text = format!(
        "{}{}{}",
        pem("CERTIFICATE", "AQID"),
        pem("PRIVATE KEY", "BAUG"),
        pem("CERTIFICATE", "BwgJ")
    );
    assert_eq!(
        load_certs(text.as_bytes(), "c.pem").unwrap(),
        vec![vec![1, 2, 3], vec![7, 8, 9]]
    );
    let key = load_private_key(text.as_bytes(), "k.pem").unwrap_or_else(|e| panic!("{e}"));
    assert_eq!((key.kind, key.der), (PrivateKeyKind::Pkcs8, vec![4, 5, 6]));
    for (label, kind) in [
        ("RSA PRIVATE KEY", PrivateKeyKind::Pkcs1),
        ("EC PRIVATE KEY", PrivateKeyKind::Sec1),
    ] {
        let key = load_private_key(pem(label, "BAUG").as_bytes(), "k").unwrap_or_else(|e| panic!("{e}"));
        assert_eq!(key.kind, kind);
    }
}

#[test]
fn pem_files_without_content_are_refused() {
    assert_eq!(load_certs(b"", "c.pem").unwrap_err(), "no certificates in c.pem");
    assert_eq!(
        load_private_key(pem("CERTIFICATE", "AQID").as_bytes(), "k.pem").err().unwrap(),
        "no private key in k.pem"
    );
    assert!(load_certs(b"-----BEGIN CERTIFICATE-----\nAQID\n", "c.pem")
        .unwrap_err()
        .contains("missing"));
    assert_eq!(
        require_certificates(Ok(vec![]), "p").unwrap_err(),
        "no certificates in p"
    );
    assert_eq!(require_certificates(Err("e".to_owned()), "p").unwrap_err(), "e");
    assert_eq!(require_private_key(Err("e".to_owned()), "p").err().unwrap(), "e");
}

#[test]
fn trust_anchors_must_all_parse() {
    assert_eq!(check_trust_anchors(2, 0, "ca.pem"), Ok(()));
    assert_eq!(
        check_trust_anchors(2, 1, "ca.pem").unwrap_err(),
        "unparseable certificates in ca.pem"
    );
    assert_eq!(
        check_trust_anchors(0, 0, "ca.pem").unwrap_err(),
        "no trust anchors in ca.pem"
    );
}

fn anchor_pem(name: &str) -> (String, Vec<u8>) {
    let key = KeyPair::generate().unwrap();
    let params = CertificateParams::new(vec![name.to_owned()]).unwrap();
    let cert = params.self_signed(&key).unwrap();
    (cert.pem(), key.subject_public_key_info())
}

#[test]
fn trust_anchors_are_read_from_a_file() {
    let (first, first_key) = anchor_pem("first.example");
    let (second, second_key) = anchor_pem("second.example");
    let store = load_trust_anchors(format!("{first}{second}").as_bytes(), "ca.pem").unwrap();
    assert_eq!(store.len(), 2);
    for (anchor, spki) in store.roots.iter().zip([first_key, second_key]) {
        assert!(spki.ends_with(anchor.subject_public_key_info.as_ref()));
    }
}

#[test]
fn files_without_usable_trust_anchors_are_refused() {
    let (good, _) = anchor_pem("first.example");
    let bad = pem("CERTIFICATE", "AQID");
    for text in [format!("{good}{bad}"), format!("{bad}{good}"), bad] {
        assert_eq!(
            load_trust_anchors(text.as_bytes(), "ca.pem").err().unwrap(),
            "unparseable certificates in ca.pem"
        );
    }
    assert_eq!(
        load_trust_anchors(b"", "ca.pem").err().unwrap(),
        "no certificates in ca.pem"
    );
    assert!(load_trust_anchors(b"-----BEGIN CERTIFICATE-----\nAQID\n", "ca.pem").is_err());
}
