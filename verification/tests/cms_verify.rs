use pdf_oxide::error::Error;
use pdf_oxide::signatures::cms_verify::{
    constant_time_eq, detached_verdict, extract_message_digest, find_signer_certificate,
    run_signer_crypto, verify_signer, verify_signer_detached, CertificateModel, CertificateSlot,
    SignedAttributeModel, SignerModel, SignerVerify,
};
use pdf_oxide::signatures::crypto::{digest_info_prefix, hash_with_oid};
use rsa::pkcs8::EncodePublicKey;
use rsa::{BigUint, Pkcs1v15Sign, RsaPrivateKey};
use sha2::Digest;

const N: &str = "b880520277140aa7a6debbc38a360504f7c2e7a5a4ea96b9f8880a6b43a607f12c98ced9286b7d1a8152934ead942855cc43f608363fccdc7b8b93cf26420e4b6c02fd02c94147c573ab8ff6e29a2cd3579c918b0e37a950118999ab1265ec47";
const D: &str = "a900e21e5ff57bcd168df070ada9cdef3f04ca2c716471ace87bb50f8c6809de617b97fe53882290a4e57f0a12f623fae303f4127e4b83625de5a437025bb271e925caff43eb3dadeef72c4ef5ce94f182cdc79bb8accc9d3745d81766d7d001";
const P: &str = "f2ddd77f20f6f444284ade7b79632dcf414c8290d8d9d0d66d3c5f9d76492afbdcbc12114e98b84d70d0359021d897b1";
const Q: &str = "c27a7d6a92f9255cf59b4f21d6d218ebf263d57154628b917ee83fe1313d4f9fb3eba4b054df5409b50b33ac69413977";

const SHA256_OID: [u8; 9] = [0x60, 0x86, 0x48, 0x01, 0x65, 0x03, 0x04, 0x02, 0x01];
const SHA256_RSA_OID: [u8; 9] = [0x2A, 0x86, 0x48, 0x86, 0xF7, 0x0D, 0x01, 0x01, 0x0B];
const RSA_ENCRYPTION_OID: [u8; 9] = [0x2A, 0x86, 0x48, 0x86, 0xF7, 0x0D, 0x01, 0x01, 0x01];
const MESSAGE_DIGEST_OID: [u8; 9] = [0x2A, 0x86, 0x48, 0x86, 0xF7, 0x0D, 0x01, 0x09, 0x04];

fn big(h: &str) -> BigUint {
    BigUint::parse_bytes(h.as_bytes(), 16).unwrap()
}

fn private_key() -> RsaPrivateKey {
    RsaPrivateKey::from_components(big(N), BigUint::from(65537u32), big(D), vec![big(P), big(Q)])
        .unwrap()
}

fn octet_string_der(bytes: &[u8]) -> Vec<u8> {
    let mut v = vec![0x04, bytes.len() as u8];
    v.extend_from_slice(bytes);
    v
}

fn rsa_cert() -> CertificateModel {
    let spki = private_key().to_public_key().to_public_key_der().unwrap();
    CertificateModel {
        matches_signer: Some(true),
        key_alg_oid: RSA_ENCRYPTION_OID.to_vec(),
        spki_der: Ok(spki.as_bytes().to_vec()),
    }
}

/// A signer whose signed attributes carry the messageDigest of `content`
/// and are signed with the test key.
fn signed_model(content: &[u8]) -> SignerModel {
    let content_hash = sha2::Sha256::digest(content).to_vec();
    let attrs_der = b"signed attribute bytes".to_vec();
    let attrs_hash = sha2::Sha256::digest(&attrs_der).to_vec();
    let mut digest_info = digest_info_prefix(&SHA256_OID).unwrap();
    digest_info.extend_from_slice(&attrs_hash);
    let signature = private_key().sign(Pkcs1v15Sign::new_unprefixed(), &digest_info).unwrap();
    SignerModel {
        digest_oid: SHA256_OID.to_vec(),
        signature_oid: SHA256_RSA_OID.to_vec(),
        signed_attrs_der: Some(Ok(attrs_der)),
        signed_attrs: vec![
            SignedAttributeModel {
                oid: vec![0x2A, 0x86, 0x48, 0x86, 0xF7, 0x0D, 0x01, 0x09, 0x03],
                first_value_der: Some(Ok(vec![0x06, 0x01, 0x00])),
            },
            SignedAttributeModel {
                oid: MESSAGE_DIGEST_OID.to_vec(),
                first_value_der: Some(Ok(octet_string_der(&content_hash))),
            },
        ],
        signature,
        certificates: vec![CertificateSlot::Other, CertificateSlot::Certificate(rsa_cert())],
    }
}

#[test]
fn rejects_non_cms_bytes() {
    let err = verify_signer(b"not a CMS blob").unwrap_err();
    assert!(matches!(err, Error::InvalidPdf(_)));
}

#[test]
fn rejects_empty_bytes() {
    let err = verify_signer(&[]).unwrap_err();
    assert!(matches!(err, Error::InvalidPdf(_)));
}

#[test]
fn detached_rejects_non_cms_bytes() {
    let err = verify_signer_detached(b"not a CMS blob", b"content").unwrap_err();
    assert!(matches!(err, Error::InvalidPdf(_)));
}

#[test]
fn non_cms_error_names_the_contents() {
    match verify_signer(b"\x30\x03\x02\x01") {
        Err(Error::InvalidPdf(m)) => {
            assert!(m.starts_with("signature /Contents is not valid CMS ContentInfo: "), "{m}")
        },
        other => panic!("expected InvalidPdf, got {other:?}"),
    }
}

#[test]
fn rsa_signature_over_attributes_is_valid() {
    let m = signed_model(b"document bytes");
    let (v, d) = run_signer_crypto(&m).unwrap();
    assert_eq!(v, SignerVerify::Valid);
    assert_eq!(d, Some(SHA256_OID.to_vec()));
}

#[test]
fn tampered_signature_is_invalid() {
    let mut m = signed_model(b"document bytes");
    let last = m.signature.len() - 1;
    m.signature[last] ^= 1;
    assert_eq!(run_signer_crypto(&m).unwrap().0, SignerVerify::Invalid);
}

#[test]
fn detached_valid_when_message_digest_matches() {
    let m = signed_model(b"document bytes");
    assert_eq!(detached_verdict(&m, b"document bytes").unwrap(), SignerVerify::Valid);
}

#[test]
fn detached_invalid_when_content_was_altered() {
    let m = signed_model(b"document bytes");
    assert_eq!(detached_verdict(&m, b"document bytez").unwrap(), SignerVerify::Invalid);
}

#[test]
fn detached_unknown_without_message_digest() {
    let mut m = signed_model(b"document bytes");
    m.signed_attrs.pop();
    assert_eq!(detached_verdict(&m, b"document bytes").unwrap(), SignerVerify::Unknown);
}

#[test]
fn detached_keeps_invalid_signer_verdict() {
    let mut m = signed_model(b"document bytes");
    m.signature[0] ^= 0x80;
    assert_eq!(detached_verdict(&m, b"document bytes").unwrap(), SignerVerify::Invalid);
}

#[test]
fn missing_signed_attributes_is_unknown_without_digest() {
    let mut m = signed_model(b"x");
    m.signed_attrs_der = None;
    let (v, d) = run_signer_crypto(&m).unwrap();
    assert_eq!(v, SignerVerify::Unknown);
    assert_eq!(d, None);
}

#[test]
fn attribute_encoding_error_is_invalid_pdf() {
    let mut m = signed_model(b"x");
    m.signed_attrs_der = Some(Err("boom".to_string()));
    match run_signer_crypto(&m) {
        Err(Error::InvalidPdf(msg)) => assert_eq!(msg, "failed to re-encode signed_attrs: boom"),
        other => panic!("unexpected {other:?}"),
    }
}

#[test]
fn unknown_digest_is_unknown_with_digest() {
    let mut m = signed_model(b"x");
    m.digest_oid = vec![1, 2, 3];
    let (v, d) = run_signer_crypto(&m).unwrap();
    assert_eq!(v, SignerVerify::Unknown);
    assert_eq!(d, Some(vec![1, 2, 3]));
}

#[test]
fn non_rsa_signature_algorithm_is_unknown() {
    let mut m = signed_model(b"x");
    m.signature_oid = vec![0x2A, 0x86, 0x48, 0xCE, 0x3D, 0x04, 0x03, 0x02];
    assert_eq!(run_signer_crypto(&m).unwrap().0, SignerVerify::Unknown);
}

#[test]
fn no_certificate_is_unknown() {
    let mut m = signed_model(b"x");
    m.certificates = vec![CertificateSlot::Other];
    assert_eq!(run_signer_crypto(&m).unwrap().0, SignerVerify::Unknown);
}

#[test]
fn non_rsa_key_is_unknown() {
    let mut m = signed_model(b"x");
    if let CertificateSlot::Certificate(c) = &mut m.certificates[1] {
        c.key_alg_oid = vec![0x2A, 0x86, 0x48, 0xCE, 0x3D, 0x02, 0x01];
    }
    assert_eq!(run_signer_crypto(&m).unwrap().0, SignerVerify::Unknown);
}

#[test]
fn spki_encoding_error_is_invalid_pdf() {
    let mut m = signed_model(b"x");
    if let CertificateSlot::Certificate(c) = &mut m.certificates[1] {
        c.spki_der = Err("bad".to_string());
    }
    match run_signer_crypto(&m) {
        Err(Error::InvalidPdf(msg)) => assert_eq!(msg, "failed to re-encode signer SPKI: bad"),
        other => panic!("unexpected {other:?}"),
    }
}

#[test]
fn undecodable_key_is_unknown() {
    let mut m = signed_model(b"x");
    if let CertificateSlot::Certificate(c) = &mut m.certificates[1] {
        c.spki_der = Ok(vec![0x30, 0x00]);
    }
    assert_eq!(run_signer_crypto(&m).unwrap().0, SignerVerify::Unknown);
}

#[test]
fn signer_certificate_prefers_matching_then_first() {
    let cert = |m: Option<bool>| {
        CertificateSlot::Certificate(CertificateModel {
            matches_signer: m,
            key_alg_oid: vec![],
            spki_der: Ok(vec![]),
        })
    };
    let certs = vec![CertificateSlot::Other, cert(Some(false)), cert(Some(true))];
    assert_eq!(find_signer_certificate(&certs), Some(2));
    let certs = vec![CertificateSlot::Other, cert(Some(false)), cert(Some(false))];
    assert_eq!(find_signer_certificate(&certs), Some(1));
    let certs = vec![cert(Some(false)), cert(None)];
    assert_eq!(find_signer_certificate(&certs), Some(1));
    let certs = vec![CertificateSlot::Other];
    assert_eq!(find_signer_certificate(&certs), None);
}

#[test]
fn message_digest_is_first_matching_attribute() {
    let attrs = vec![
        SignedAttributeModel { oid: vec![1], first_value_der: Some(Ok(octet_string_der(&[9]))) },
        SignedAttributeModel {
            oid: MESSAGE_DIGEST_OID.to_vec(),
            first_value_der: Some(Ok(octet_string_der(&[1, 2, 3]))),
        },
        SignedAttributeModel {
            oid: MESSAGE_DIGEST_OID.to_vec(),
            first_value_der: Some(Ok(octet_string_der(&[4]))),
        },
    ];
    assert_eq!(extract_message_digest(&attrs), Some(vec![1, 2, 3]));
    let bad = vec![SignedAttributeModel {
        oid: MESSAGE_DIGEST_OID.to_vec(),
        first_value_der: Some(Ok(vec![0x02, 0x01, 0x05])),
    }];
    assert_eq!(extract_message_digest(&bad), None);
    let empty = vec![SignedAttributeModel { oid: MESSAGE_DIGEST_OID.to_vec(), first_value_der: None }];
    assert_eq!(extract_message_digest(&empty), None);
}

#[test]
fn constant_time_eq_compares_bytes() {
    assert!(constant_time_eq(&[1, 2, 3], &[1, 2, 3]));
    assert!(!constant_time_eq(&[1, 2, 3], &[1, 2, 4]));
    assert!(!constant_time_eq(&[1, 2], &[1, 2, 3]));
    assert!(constant_time_eq(&[], &[]));
}

#[test]
fn sha256_by_oid_matches_known_digest() {
    let h = hash_with_oid(&SHA256_OID, b"abc").unwrap();
    assert_eq!(
        h,
        vec![
            0xba, 0x78, 0x16, 0xbf, 0x8f, 0x01, 0xcf, 0xea, 0x41, 0x41, 0x40, 0xde, 0x5d, 0xae,
            0x22, 0x23, 0xb0, 0x03, 0x61, 0xa3, 0x96, 0x17, 0x7a, 0x9c, 0xb4, 0x10, 0xff, 0x61,
            0xf2, 0x00, 0x15, 0xad
        ]
    );
    let sha1 = hash_with_oid(&[0x2B, 0x0E, 0x03, 0x02, 0x1A], b"abc").unwrap();
    assert_eq!(sha1.len(), 20);
    assert_eq!(&sha1[..4], &[0xa9, 0x99, 0x3e, 0x36]);
    assert_eq!(hash_with_oid(&[1, 2], b"abc"), None);
}

#[test]
fn sha256_digest_info_prefix() {
    let p = digest_info_prefix(&SHA256_OID).unwrap();
    let mut expected = vec![0x30, 0x31, 0x30, 0x0d, 0x06, 0x09];
    expected.extend_from_slice(&SHA256_OID);
    expected.extend_from_slice(&[0x05, 0x00, 0x04, 0x20]);
    assert_eq!(p, expected);
}
