use cms::cert::x509::attr::Attribute;
use cms::cert::x509::name::Name;
use cms::cert::x509::serial_number::SerialNumber;
use cms::cert::x509::spki::SubjectPublicKeyInfoOwned;
use cms::cert::x509::time::{Time, Validity};
use cms::cert::x509::{Certificate, TbsCertificate, Version};
use cms::cert::CertificateChoices;
use cms::signed_data::CertificateSet;
use der::asn1::{BitString, UtcTime};
use der::Decode;
use rsa::pkcs8::EncodePublicKey;
use rsa::{BigUint, Pkcs1v15Sign, RsaPrivateKey};
use cms::cert::x509::ext::pkix::SubjectKeyIdentifier;
use cms::cert::x509::spki::AlgorithmIdentifierOwned;
use cms::content_info::{CmsVersion, ContentInfo};
use cms::signed_data::{
    EncapsulatedContentInfo, SignedData, SignerIdentifier, SignerInfo, SignerInfos,
};
use der::asn1::{ObjectIdentifier, OctetString, SetOfVec};
use der::{Any, Encode};
use pdf_oxide::error::Error;
use pdf_oxide::ffi::{
    pdf_signature_verify, pdf_signature_verify_detached, ERR_INVALID_ARG, ERR_SUCCESS, ERR_UNSUPPORTED,
};
use pdf_oxide::signatures::cms_verify::{verify_signer, verify_signer_detached, SignerVerify};
use sha2::Digest;

fn oid(s: &str) -> ObjectIdentifier {
    ObjectIdentifier::new_unwrap(s)
}

fn alg(s: &str) -> AlgorithmIdentifierOwned {
    AlgorithmIdentifierOwned { oid: oid(s), parameters: None }
}

const N: &str = "b880520277140aa7a6debbc38a360504f7c2e7a5a4ea96b9f8880a6b43a607f12c98ced9286b7d1a8152934ead942855cc43f608363fccdc7b8b93cf26420e4b6c02fd02c94147c573ab8ff6e29a2cd3579c918b0e37a950118999ab1265ec47";
const D: &str = "a900e21e5ff57bcd168df070ada9cdef3f04ca2c716471ace87bb50f8c6809de617b97fe53882290a4e57f0a12f623fae303f4127e4b83625de5a437025bb271e925caff43eb3dadeef72c4ef5ce94f182cdc79bb8accc9d3745d81766d7d001";
const P: &str = "f2ddd77f20f6f444284ade7b79632dcf414c8290d8d9d0d66d3c5f9d76492afbdcbc12114e98b84d70d0359021d897b1";
const Q: &str = "c27a7d6a92f9255cf59b4f21d6d218ebf263d57154628b917ee83fe1313d4f9fb3eba4b054df5409b50b33ac69413977";

fn big(h: &str) -> BigUint {
    BigUint::parse_bytes(h.as_bytes(), 16).unwrap()
}

fn private_key() -> RsaPrivateKey {
    RsaPrivateKey::from_components(big(N), BigUint::from(65537u32), big(D), vec![big(P), big(Q)])
        .unwrap()
}

fn certificate() -> Certificate {
    let spki_der = private_key().to_public_key().to_public_key_der().unwrap();
    let t = |secs: u64| Time::UtcTime(UtcTime::from_unix_duration(std::time::Duration::from_secs(secs)).unwrap());
    Certificate {
        tbs_certificate: TbsCertificate {
            version: Version::V3,
            serial_number: SerialNumber::new(&[1]).unwrap(),
            signature: alg("1.2.840.113549.1.1.11"),
            issuer: Name::default(),
            validity: Validity { not_before: t(1_000_000_000), not_after: t(2_000_000_000) },
            subject: Name::default(),
            subject_public_key_info: SubjectPublicKeyInfoOwned::from_der(spki_der.as_bytes()).unwrap(),
            issuer_unique_id: None,
            subject_unique_id: None,
            extensions: None,
        },
        signature_algorithm: alg("1.2.840.113549.1.1.11"),
        signature: BitString::from_bytes(&[0]).unwrap(),
    }
}

/// The same blob with a certificate for the test key, and the signer's
/// signature made with that key (or spoiled when `spoil`).
fn signed_blob_with_certificate(content: &[u8], spoil: bool) -> Vec<u8> {
    let ci = ContentInfo::from_der(&signed_data_blob(content)).unwrap();
    let mut sd: SignedData = ci.content.decode_as().unwrap();
    let mut signer = sd.signer_infos.0.get(0).unwrap().clone();
    let attrs_der = signer.signed_attrs.as_ref().unwrap().to_der().unwrap();
    let mut digest_info = vec![
        0x30, 0x31, 0x30, 0x0d, 0x06, 0x09, 0x60, 0x86, 0x48, 0x01, 0x65, 0x03, 0x04, 0x02, 0x01,
        0x05, 0x00, 0x04, 0x20,
    ];
    digest_info.extend_from_slice(&sha2::Sha256::digest(&attrs_der));
    let mut sig = private_key().sign(Pkcs1v15Sign::new_unprefixed(), &digest_info).unwrap();
    if spoil {
        sig[5] ^= 0x40;
    }
    signer.signature = OctetString::new(sig).unwrap();
    sd.signer_infos = SignerInfos(SetOfVec::try_from(vec![signer]).unwrap());
    sd.certificates = Some(CertificateSet(
        SetOfVec::try_from(vec![CertificateChoices::Certificate(certificate())]).unwrap(),
    ));
    let ci = ContentInfo { content_type: oid("1.2.840.113549.1.7.2"), content: Any::encode_from(&sd).unwrap() };
    ci.to_der().unwrap()
}

/// A SignedData blob with one signer (SHA-256 with RSA), a messageDigest
/// attribute over `content`, and no certificates.
fn signed_data_blob(content: &[u8]) -> Vec<u8> {
    let digest = sha2::Sha256::digest(content).to_vec();
    let md_value = Any::encode_from(&OctetString::new(digest).unwrap()).unwrap();
    let attr = Attribute {
        oid: oid("1.2.840.113549.1.9.4"),
        values: SetOfVec::try_from(vec![md_value]).unwrap(),
    };
    let signer = SignerInfo {
        version: CmsVersion::V3,
        sid: SignerIdentifier::SubjectKeyIdentifier(SubjectKeyIdentifier(
            OctetString::new(vec![1, 2, 3]).unwrap(),
        )),
        digest_alg: alg("2.16.840.1.101.3.4.2.1"),
        signed_attrs: Some(SetOfVec::try_from(vec![attr]).unwrap()),
        signature_algorithm: alg("1.2.840.113549.1.1.11"),
        signature: OctetString::new(vec![0u8; 64]).unwrap(),
        unsigned_attrs: None,
    };
    let sd = SignedData {
        version: CmsVersion::V1,
        digest_algorithms: SetOfVec::try_from(vec![alg("2.16.840.1.101.3.4.2.1")]).unwrap(),
        encap_content_info: EncapsulatedContentInfo {
            econtent_type: oid("1.2.840.113549.1.7.1"),
            econtent: None,
        },
        certificates: None,
        crls: None,
        signer_infos: SignerInfos(SetOfVec::try_from(vec![signer]).unwrap()),
    };
    let ci = ContentInfo { content_type: oid("1.2.840.113549.1.7.2"), content: Any::encode_from(&sd).unwrap() };
    ci.to_der().unwrap()
}

#[test]
fn parsed_blob_without_certificate_is_unknown() {
    let blob = signed_data_blob(b"the document");
    assert_eq!(verify_signer(&blob).unwrap(), SignerVerify::Unknown);
    assert_eq!(verify_signer_detached(&blob, b"the document").unwrap(), SignerVerify::Unknown);
}

#[test]
fn content_that_is_not_signed_data_is_rejected() {
    // ContentInfo { id-data, [0] OCTET STRING "x" }
    let blob = [
        0x30, 0x10, 0x06, 0x09, 0x2A, 0x86, 0x48, 0x86, 0xF7, 0x0D, 0x01, 0x07, 0x01, 0xA0, 0x03,
        0x04, 0x01, 0x78,
    ];
    match verify_signer(&blob) {
        Err(Error::InvalidPdf(m)) => assert!(m.starts_with("CMS content is not valid SignedData: "), "{m}"),
        other => panic!("unexpected {other:?}"),
    }
}

#[test]
fn signed_blob_verifies_end_to_end() {
    let blob = signed_blob_with_certificate(b"the document", false);
    assert_eq!(verify_signer(&blob).unwrap(), SignerVerify::Valid);
    assert_eq!(verify_signer_detached(&blob, b"the document").unwrap(), SignerVerify::Valid);
    assert_eq!(verify_signer_detached(&blob, b"the documenT").unwrap(), SignerVerify::Invalid);
}

#[test]
fn spoiled_signature_is_invalid_end_to_end() {
    let blob = signed_blob_with_certificate(b"the document", true);
    assert_eq!(verify_signer(&blob).unwrap(), SignerVerify::Invalid);
    assert_eq!(verify_signer_detached(&blob, b"the document").unwrap(), SignerVerify::Invalid);
}

#[test]
fn c_codes_follow_the_signer_verdict() {
    let good = signed_blob_with_certificate(b"the document", false);
    let spoiled = signed_blob_with_certificate(b"the document", true);
    let unknown = signed_data_blob(b"the document");
    assert_eq!(pdf_signature_verify(Some(&good)), (1, ERR_SUCCESS));
    assert_eq!(pdf_signature_verify(Some(&spoiled)), (0, ERR_SUCCESS));
    assert_eq!(pdf_signature_verify(Some(&unknown)), (-1, ERR_UNSUPPORTED));
    assert_eq!(pdf_signature_verify(Some(b"junk")), (-1, ERR_INVALID_ARG));
}

#[test]
fn c_codes_follow_the_detached_verdict() {
    let good = signed_blob_with_certificate(b"the document", false);
    let doc = || Ok(b"the document".to_vec());
    assert_eq!(pdf_signature_verify_detached(Some(&good), 4, doc()), (1, ERR_SUCCESS));
    assert_eq!(
        pdf_signature_verify_detached(Some(&good), 4, Ok(b"the documenT".to_vec())),
        (0, ERR_SUCCESS)
    );
    assert_eq!(pdf_signature_verify_detached(Some(&good), 3, doc()), (-1, ERR_INVALID_ARG));
    assert_eq!(
        pdf_signature_verify_detached(Some(&good), 4, Err(Error::InvalidPdf("range".to_string()))),
        (-1, ERR_INVALID_ARG)
    );
    assert_eq!(pdf_signature_verify_detached(None, 4, doc()), (-1, ERR_UNSUPPORTED));
    let unknown = signed_data_blob(b"the document");
    assert_eq!(pdf_signature_verify_detached(Some(&unknown), 4, doc()), (-1, ERR_UNSUPPORTED));
    assert_eq!(pdf_signature_verify_detached(Some(b"junk"), 4, doc()), (-1, ERR_INVALID_ARG));
}
