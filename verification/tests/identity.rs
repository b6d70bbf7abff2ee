use agent_gateway::der::{
    der_base128_encode, der_bit_string, der_encode_int, der_len, der_object_identifier,
    der_sequence, ASN1_INTEGER_TAG, ASN1_SEQUENCE_TAG,
};
use agent_gateway::identity::{
    choose_scheme, ecdsa_p1363_to_der, finish_signing, left_pad_coordinate, p256_signature_der,
    p256_spki_der_from_coordinates, p256_spki_from_tpm_public, parse_tpm_key_handle,
    signing_digest, EccCurve, HandleFault, TpmKeyFault, TpmPublic, TpmSignature, TpmSigningKey,
    ECDSA_NISTP256_SHA256, P256_COORDINATE_LEN,
};
use agent_gateway::number::IntFault;
use x509_parser::asn1_rs::FromDer;

#[test]
fn parses_tpm_key_handle_hex() {
    assert_eq!(parse_tpm_key_handle("0x81010004").unwrap(), 0x81010004);
    assert_eq!(parse_tpm_key_handle("81010004").unwrap(), 0x81010004);
}

#[test]
fn rejects_non_persistent_tpm_key_handle() {
    assert!(parse_tpm_key_handle("0x80000000").is_err());
    assert!(parse_tpm_key_handle("not-a-handle").is_err());
}

#[test]
fn tpm_key_handles_have_bounds_and_prefixes() {
    assert_eq!(parse_tpm_key_handle("0X81000000"), Ok(0x81000000));
    assert_eq!(parse_tpm_key_handle(" 81ffffff\n"), Ok(0x81ffffff));
    assert_eq!(parse_tpm_key_handle("+81000001"), Ok(0x81000001));
    assert_eq!(parse_tpm_key_handle("80ffffff"), Err(HandleFault::NotPersistent));
    assert_eq!(parse_tpm_key_handle("82000000"), Err(HandleFault::NotPersistent));
    assert_eq!(parse_tpm_key_handle("0x"), Err(HandleFault::NotHex(IntFault::Empty)));
    assert_eq!(
        parse_tpm_key_handle("0x0x81000000"),
        Err(HandleFault::NotHex(IntFault::InvalidDigit))
    );
    assert_eq!(
        parse_tpm_key_handle("181000000"),
        Err(HandleFault::NotHex(IntFault::TooLarge))
    );
    assert_eq!(
        HandleFault::NotPersistent.message("0x80000000"),
        "TPM key handle \"0x80000000\" is not in the persistent handle range 0x81000000..=0x81ffffff"
    );
    assert_eq!(
        HandleFault::NotHex(IntFault::Empty).message(" x"),
        "invalid TPM key handle \" x\"; expected hex"
    );
}

#[test]
fn encodes_p256_spki() {
    let x = [1u8; P256_COORDINATE_LEN];
    let y = [2u8; P256_COORDINATE_LEN];
    let spki = p256_spki_der_from_coordinates(&x, &y);

    assert_eq!(spki.len(), 91);
    assert!(spki.ends_with(&y));
    assert_eq!(
        x509_parser::x509::SubjectPublicKeyInfo::from_der(&spki).unwrap().0,
        &[] as &[u8]
    );
}

#[test]
fn spki_has_the_fixed_prefix() {
    let spki = p256_spki_der_from_coordinates(&[7u8; 32], &[9u8; 32]);
    assert_eq!(
        spki[..27],
        [
            0x30, 0x59, 0x30, 0x13, 0x06, 0x07, 0x2a, 0x86, 0x48, 0xce, 0x3d, 0x02, 0x01, 0x06,
            0x08, 0x2a, 0x86, 0x48, 0xce, 0x3d, 0x03, 0x01, 0x07, 0x03, 0x42, 0x00, 0x04
        ]
    );
    assert_eq!(spki[27..59], [7u8; 32]);
    assert_eq!(spki[59..], [9u8; 32]);
}

#[test]
fn ecdsa_der_encoding_handles_high_bit() {
    let mut r = [0u8; P256_COORDINATE_LEN];
    let mut s = [0u8; P256_COORDINATE_LEN];
    r[31] = 1;
    s[0] = 0x80;

    let der = ecdsa_p1363_to_der(&r, &s);
    assert_eq!(der[0], ASN1_SEQUENCE_TAG);
    assert!(der.windows(3).any(|w| w == [ASN1_INTEGER_TAG, 0x21, 0x00]));
}

#[test]
fn ecdsa_der_is_read_back_by_another_reader() {
    let mut r = [0u8; 32];
    let mut s = [0u8; 32];
    r[31] = 1;
    s[0] = 0x80;
    s[31] = 5;
    let der = ecdsa_p1363_to_der(&r, &s);
    let signature = p256::ecdsa::Signature::from_der(&der).unwrap();
    let bytes = signature.to_bytes();
    assert_eq!(bytes[..32], r);
    assert_eq!(bytes[32..], s);
    assert_eq!(signature.to_der().as_bytes(), &der[..]);
}

#[test]
fn coordinate_padding_rejects_oversized_values() {
    assert!(left_pad_coordinate(&[0u8; P256_COORDINATE_LEN + 1]).is_err());
}

#[test]
fn coordinates_are_padded_in_front() {
    let padded = left_pad_coordinate(&[1, 2, 3]).unwrap();
    assert_eq!(padded[..29], [0u8; 29]);
    assert_eq!(padded[29..], [1, 2, 3]);
    assert_eq!(left_pad_coordinate(&[]).unwrap(), [0u8; 32]);
    assert_eq!(left_pad_coordinate(&[9u8; 32]).unwrap(), [9u8; 32]);
    assert_eq!(left_pad_coordinate(&[0u8; 40]), Err(TpmKeyFault::CoordinateTooLarge(40)));
}

#[test]
fn tpm_values_of_other_kinds_are_refused() {
    let ecc = |curve, x: usize, y: usize| TpmPublic::Ecc { curve, x: vec![1; x], y: vec![2; y] };
    assert_eq!(p256_spki_from_tpm_public(&TpmPublic::Other), Err(TpmKeyFault::NotEcc));
    assert_eq!(
        p256_spki_from_tpm_public(&ecc(EccCurve::Other, 32, 32)),
        Err(TpmKeyFault::NotP256)
    );
    assert_eq!(
        p256_spki_from_tpm_public(&ecc(EccCurve::NistP256, 33, 34)),
        Err(TpmKeyFault::CoordinateTooLarge(33))
    );
    assert_eq!(
        p256_spki_from_tpm_public(&ecc(EccCurve::NistP256, 32, 34)),
        Err(TpmKeyFault::CoordinateTooLarge(34))
    );
    assert_eq!(
        p256_spki_from_tpm_public(&ecc(EccCurve::NistP256, 32, 32)).unwrap(),
        p256_spki_der_from_coordinates(&[1; 32], &[2; 32])
    );
    assert_eq!(p256_signature_der(&TpmSignature::Other), Err(TpmKeyFault::NotEcdsa));
    let short = TpmSignature::EcDsa { r: vec![5], s: vec![0x80, 0] };
    assert_eq!(
        p256_signature_der(&short).unwrap(),
        [0x30, 0x08, 0x02, 0x01, 0x05, 0x02, 0x03, 0x00, 0x80, 0x00]
    );
    let long = TpmSignature::EcDsa { r: vec![5], s: vec![1; 33] };
    assert_eq!(p256_signature_der(&long), Err(TpmKeyFault::CoordinateTooLarge(33)));
    assert_eq!(
        TpmKeyFault::CoordinateTooLarge(33).message(),
        "P-256 coordinate is too large: 33 bytes"
    );
    assert_eq!(TpmKeyFault::NotEcc.message(), "TPM key is not an ECC key");
    assert_eq!(TpmKeyFault::NotP256.message(), "TPM key must be NIST P-256");
    assert_eq!(TpmKeyFault::NotEcdsa.message(), "TPM returned a non-ECDSA signature");
}

#[test]
fn signing_sessions_are_closed_first() {
    let good = || Ok(TpmSignature::EcDsa { r: vec![1], s: vec![2] });
    assert_eq!(finish_signing(good(), Ok(())).unwrap(), [0x30, 6, 2, 1, 1, 2, 1, 2]);
    assert_eq!(
        finish_signing(Err("busy".to_owned()), Err("gone".to_owned())).unwrap_err(),
        "TPM signing failed: flushing TPM auth session: gone"
    );
    assert_eq!(
        finish_signing(Err("busy".to_owned()), Ok(())).unwrap_err(),
        "TPM signing failed: signing with TPM key: busy"
    );
    assert_eq!(
        finish_signing(Ok(TpmSignature::Other), Ok(())).unwrap_err(),
        "TPM signing failed: TPM returned a non-ECDSA signature"
    );
}

#[test]
fn only_one_scheme_is_chosen() {
    assert_eq!(choose_scheme(&[0x0804, 0x0403]), Some(ECDSA_NISTP256_SHA256));
    assert_eq!(choose_scheme(&[0x0804, 0x0503]), None);
    assert_eq!(choose_scheme(&[]), None);
    assert_eq!(
        u16::from(rustls::SignatureScheme::ECDSA_NISTP256_SHA256),
        ECDSA_NISTP256_SHA256
    );
}

#[test]
fn der_lengths_are_short_or_long() {
    assert_eq!(der_len(0), [0]);
    assert_eq!(der_len(0x7f), [0x7f]);
    assert_eq!(der_len(0x80), [0x81, 0x80]);
    assert_eq!(der_len(0x100), [0x82, 0x01, 0x00]);
    assert_eq!(der_len(0x12345), [0x83, 0x01, 0x23, 0x45]);
}

#[test]
fn der_values_are_written() {
    assert_eq!(der_encode_int(&[0]), [2, 1, 0]);
    assert_eq!(der_encode_int(&[0, 0, 0x7f]), [2, 1, 0x7f]);
    assert_eq!(der_encode_int(&[0, 0x80]), [2, 2, 0, 0x80]);
    assert_eq!(der_bit_string(&[1, 2]), [3, 3, 0, 1, 2]);
    assert_eq!(der_sequence(&[vec![1, 2], vec![], vec![3]]), [0x30, 3, 1, 2, 3]);
    let long = der_sequence(&[vec![7; 200]]);
    assert_eq!(long[..3], [0x30, 0x81, 200]);
    assert_eq!(long.len(), 203);
}

#[test]
fn object_identifiers_are_written() {
    assert_eq!(
        der_object_identifier(&[1, 2, 840, 10045, 3, 1, 7]),
        [0x06, 0x08, 0x2a, 0x86, 0x48, 0xce, 0x3d, 0x03, 0x01, 0x07]
    );
    assert_eq!(der_object_identifier(&[2, 5, 0]), [0x06, 0x02, 85, 0]);
    let mut out = vec![9];
    der_base128_encode(u32::MAX, &mut out);
    assert_eq!(out, [9, 0x8f, 0xff, 0xff, 0xff, 0x7f]);
}

#[test]
fn digests_are_those_of_sha256() {
    let expected = [
        0xba, 0x78, 0x16, 0xbf, 0x8f, 0x01, 0xcf, 0xea, 0x41, 0x41, 0x40, 0xde, 0x5d, 0xae, 0x22,
        0x23, 0xb0, 0x03, 0x61, 0xa3, 0x96, 0x17, 0x7a, 0x9c, 0xb4, 0x10, 0xff, 0x61, 0xf2, 0x00,
        0x15, 0xad,
    ];
    assert_eq!(signing_digest(b"abc"), expected);
}

#[test]
fn signing_keys_are_described_without_their_key() {
    let public = TpmPublic::Ecc { curve: EccCurve::NistP256, x: vec![1], y: vec![2] };
    let key = TpmSigningKey::load("swtpm:port=1", 0x81010004, &public).unwrap();
    assert_eq!(
        key.debug(),
        "TpmSigningKey { tcti: \"swtpm:port=1\", key_handle: 0x81010004, .. }"
    );
    assert_eq!(key.tcti(), "swtpm:port=1");
    assert_eq!(key.key_handle(), 0x81010004);
    assert_eq!(key.spki_der().len(), 91);
    assert!(matches!(
        TpmSigningKey::load("t", 1, &TpmPublic::Other),
        Err(TpmKeyFault::NotEcc)
    ));
}
