//! CMS signer verification (RFC 5652).
//!
//! [`verify_signer`] runs the signer-attributes crypto check (RFC 5652
//! §5.4): it confirms that the signer held the private key matching the
//! certificate embedded in the blob and signed the `signed_attrs` bundle.
//! [`verify_signer_detached`] layers the content-integrity check on top: it
//! hashes the caller's detached content with the digest named in the CMS
//! and compares it with the signed `messageDigest` attribute (§11.2).
//!
//! Supported: RSA-PKCS#1 v1.5 over SHA-1 / SHA-256 / SHA-384 / SHA-512.
//! Other algorithms give [`SignerVerify::Unknown`].
//!
//! The CMS structure is decoded by the `cms` crate; the fields that the
//! verification reads are copied into plain values ([`SignerModel`]) and
//! the decisions are made on those.
use crate::error::Error;
use crate::signatures::crypto::{
    bytes_eq, digest_info_prefix, digest_info_prefix_spec, extend_bytes, hash_spec, hash_with_oid,
    is_rsa_pkcs1v15_sig_oid, is_rsa_pkcs1v15_sig_spec, oid_message_digest,
    oid_message_digest_bytes, oid_pkcs1_bytes, oid_rsa_encryption,
};
use cms::cert::CertificateChoices;
use cms::content_info::ContentInfo;
use cms::signed_data::{SignedData, SignerIdentifier};
use der::asn1::OctetString;
use der::{Decode, Encode};
use rsa::pkcs8::DecodePublicKey;
use rsa::{Pkcs1v15Sign, RsaPublicKey};
use vstd::prelude::*;
use vstd::string::StringExecFns;

verus! {

broadcast use vstd::string::group_string_axioms;

/// Outcome of a `verify_signer*` call.
#[must_use]
#[derive(Debug, Clone, Copy, PartialEq, Eq, Structural)]
pub enum SignerVerify {
    /// Every check that ran succeeded.
    Valid,
    /// The CMS parsed but a crypto check failed: tampering, wrong key or
    /// wrong content.
    Invalid,
    /// The CMS parsed but the crypto check could not run: another
    /// algorithm, a non-RSA key, an unknown digest, or a missing
    /// `messageDigest` attribute when one was required.
    Unknown,
}

/// The view of a byte vector or of an error text.
pub open spec fn res_view(r: Result<Vec<u8>, String>) -> Result<Seq<u8>, Seq<char>> {
    match r {
        Ok(v) => Ok(v@),
        Err(e) => Err(e@),
    }
}

/// The view of an optional byte vector or error text.
pub open spec fn opt_res_view(o: Option<Result<Vec<u8>, String>>) -> Option<Result<Seq<u8>, Seq<char>>> {
    match o {
        Some(r) => Some(res_view(r)),
        None => None,
    }
}

/// What decoding `bytes` as a DER `ContentInfo` gives: the decoder's
/// error text, or the DER re-encoding of its `content` (or the encoder's
/// error text).
pub uninterp spec fn content_info_decoded(bytes: Seq<u8>) -> Result<
    Result<Seq<u8>, Seq<char>>,
    Seq<char>,
>;

/// Whether `bytes` decode as a DER `ContentInfo`.
pub open spec fn der_decodes_content_info(bytes: Seq<u8>) -> bool {
    content_info_decoded(bytes) is Ok
}

/// `ContentInfo::from_der`, then `Encode::to_der` of its `content`; each
/// error is given as its `Display` text. Claims that the result is a
/// function of the bytes.
#[verifier::external_body]
fn content_info_content(bytes: &[u8]) -> (r: Result<Result<Vec<u8>, String>, String>)
    ensures
        match r {
            Ok(c) => content_info_decoded(bytes@) == Ok::<Result<Seq<u8>, Seq<char>>, Seq<char>>(
                res_view(c),
            ),
            Err(e) => content_info_decoded(bytes@) == Err::<Result<Seq<u8>, Seq<char>>, Seq<char>>(
                e@,
            ),
        },
{
    match ContentInfo::from_der(bytes) {
        Ok(ci) => Ok(ci.content.to_der().map_err(|e| format!("{e}"))),
        Err(e) => Err(format!("{e}")),
    }
}

/// The error text of `SignedData::from_der` on `bytes`; `None` when they
/// decode.
pub uninterp spec fn signed_data_error(bytes: Seq<u8>) -> Option<Seq<char>>;

/// `SignedData::from_der`, keeping only its error (as `Display` text).
/// Claims that the result is a function of the bytes.
#[verifier::external_body]
fn signed_data_check(bytes: &[u8]) -> (r: Option<String>)
    ensures
        match r {
            Some(e) => signed_data_error(bytes@) == Some(e@),
            None => signed_data_error(bytes@) is None,
        },
{
    SignedData::from_der(bytes).err().map(|e| format!("{e}"))
}

/// The fields of `SignerInfo` `k` of the DER `SignedData` `sd`: the
/// digest algorithm identifier, the signature algorithm identifier (their
/// content octets), the DER encoding of the signed attributes (or the
/// encoder's error text) when present, the signature value, and the number
/// of signed attributes. `None` when `sd` does not decode or has no
/// `SignerInfo` `k`.
pub uninterp spec fn cms_signer_fields(sd: Seq<u8>, k: nat) -> Option<
    (Seq<u8>, Seq<u8>, Option<Result<Seq<u8>, Seq<char>>>, Seq<u8>, nat),
>;

/// The view of what [`signer_fields`] returns.
pub open spec fn signer_fields_view(
    r: Option<(Vec<u8>, Vec<u8>, Option<Result<Vec<u8>, String>>, Vec<u8>, usize)>,
) -> Option<(Seq<u8>, Seq<u8>, Option<Result<Seq<u8>, Seq<char>>>, Seq<u8>, nat)> {
    match r {
        Some(f) => Some((f.0@, f.1@, opt_res_view(f.2), f.3@, f.4 as nat)),
        None => None,
    }
}

/// Decodes `sd` with `SignedData::from_der` and reads its `SignerInfo`
/// `k` (`SetOfVec::get`): `ObjectIdentifier::as_bytes` of the
/// algorithms, `Encode::to_der` and `SetOfVec::len` of the signed
/// attributes, `OctetString::as_bytes` of the signature. Claims that the
/// result is a function of the bytes.
#[verifier::external_body]
fn signer_fields(sd: &[u8], k: usize) -> (r: Option<
    (Vec<u8>, Vec<u8>, Option<Result<Vec<u8>, String>>, Vec<u8>, usize),
>)
    ensures
        signer_fields_view(r) == cms_signer_fields(sd@, k as nat),
{
    let sd = SignedData::from_der(sd).ok()?;
    let si = sd.signer_infos.0.get(k)?;
    Some(
        (
            si.digest_alg.oid.as_bytes().to_vec(),
            si.signature_algorithm.oid.as_bytes().to_vec(),
            si.signed_attrs.as_ref().map(|a| a.to_der().map_err(|e| format!("{e}"))),
            si.signature.as_bytes().to_vec(),
            si.signed_attrs.as_ref().map_or(0, |a| a.len()),
        ),
    )
}

/// Signed attribute `i` of `SignerInfo` `k` of the DER `SignedData` `sd`:
/// the content octets of its type, and the DER encoding of its value `j`
/// (or the encoder's error text), `None` when it has no such value. `None`
/// when there is no such attribute.
pub uninterp spec fn cms_signed_attr(sd: Seq<u8>, k: nat, i: nat, j: nat) -> Option<
    (Seq<u8>, Option<Result<Seq<u8>, Seq<char>>>),
>;

/// The view of what [`signed_attr`] returns.
pub open spec fn signed_attr_view(r: Option<(Vec<u8>, Option<Result<Vec<u8>, String>>)>) -> Option<
    (Seq<u8>, Option<Result<Seq<u8>, Seq<char>>>),
> {
    match r {
        Some(a) => Some((a.0@, opt_res_view(a.1))),
        None => None,
    }
}

/// Decodes `sd` with `SignedData::from_der` and reads signed attribute
/// `i` of signer `k` (`SetOfVec::get`): `ObjectIdentifier::as_bytes` of
/// its type and `Encode::to_der` of its value `j`. Claims that the result
/// is a function of the bytes and the indices.
#[verifier::external_body]
fn signed_attr(sd: &[u8], k: usize, i: usize, j: usize) -> (r: Option<
    (Vec<u8>, Option<Result<Vec<u8>, String>>),
>)
    ensures
        signed_attr_view(r) == cms_signed_attr(sd@, k as nat, i as nat, j as nat),
{
    let sd = SignedData::from_der(sd).ok()?;
    let a = sd.signer_infos.0.get(k)?.signed_attrs.as_ref()?.get(i)?;
    Some(
        (
            a.oid.as_bytes().to_vec(),
            a.values.get(j).map(|v| v.to_der().map_err(|e| format!("{e}"))),
        ),
    )
}

/// The number of entries of the `certificates` set of the DER `SignedData`
/// `sd`; 0 when it is absent or `sd` does not decode.
pub uninterp spec fn cms_cert_count(sd: Seq<u8>) -> nat;

/// Decodes `sd` with `SignedData::from_der` and gives `SetOfVec::len` of
/// its `certificates` set. Claims that the result is a function of the
/// bytes.
#[verifier::external_body]
fn certificate_count(sd: &[u8]) -> (r: usize)
    ensures
        r as nat == cms_cert_count(sd@),
{
    match SignedData::from_der(sd) {
        Ok(s) => s.certificates.map_or(0, |c| c.0.len()),
        Err(_) => 0,
    }
}

/// Entry `i` of the `certificates` set of the DER `SignedData` `sd`:
/// `Some(None)` for a certificate format other than X.509; for a
/// certificate, the content octets of its public-key algorithm identifier
/// and the DER encoding of its SubjectPublicKeyInfo (or the encoder's
/// error text). `None` past the end.
pub uninterp spec fn cms_cert(sd: Seq<u8>, i: nat) -> Option<
    Option<(Seq<u8>, Result<Seq<u8>, Seq<char>>)>,
>;

/// The view of what [`certificate_at`] returns.
pub open spec fn certificate_at_view(r: Option<Option<(Vec<u8>, Result<Vec<u8>, String>)>>) -> Option<
    Option<(Seq<u8>, Result<Seq<u8>, Seq<char>>)>,
> {
    match r {
        Some(Some(c)) => Some(Some((c.0@, res_view(c.1)))),
        Some(None) => Some(None),
        None => None,
    }
}

/// Decodes `sd` with `SignedData::from_der` and reads entry `i` of its
/// `certificates` set (`SetOfVec::get`): `ObjectIdentifier::as_bytes` of
/// the key algorithm and `Encode::to_der` of the SubjectPublicKeyInfo.
/// Claims that the result is a function of the bytes and the index.
#[verifier::external_body]
fn certificate_at(sd: &[u8], i: usize) -> (r: Option<Option<(Vec<u8>, Result<Vec<u8>, String>)>>)
    ensures
        certificate_at_view(r) == cms_cert(sd@, i as nat),
{
    let sd = SignedData::from_der(sd).ok()?;
    match sd.certificates.as_ref()?.0.get(i)? {
        CertificateChoices::Certificate(c) => {
            let spki = &c.tbs_certificate.subject_public_key_info;
            Some(Some((spki.algorithm.oid.as_bytes().to_vec(), spki.to_der().map_err(|e| format!("{e}")))))
        },
        CertificateChoices::Other(_) => Some(None),
    }
}

/// For entry `i` of the `certificates` set of the DER `SignedData` `sd`
/// and `SignerInfo` `k` identified by issuer and serial number: whether
/// the certificate's issuer equals the signer's issuer, and whether its
/// serial number equals the signer's serial number. `None` for a signer
/// identified by a subject key identifier, and when the entry is not a
/// certificate (or either is missing).
pub uninterp spec fn cms_cert_signer_ids(sd: Seq<u8>, k: nat, i: nat) -> Option<(bool, bool)>;

/// Decodes `sd` with `SignedData::from_der`, and compares the issuer
/// (`PartialEq` on `Name`) and the serial number (`PartialEq` on
/// `SerialNumber`) of certificate `i` with those in the identifier of
/// signer `k`, each on its own. Claims that the result is a function of
/// the bytes and the indices.
#[verifier::external_body]
fn certificate_signer_ids(sd: &[u8], k: usize, i: usize) -> (r: Option<(bool, bool)>)
    ensures
        r == cms_cert_signer_ids(sd@, k as nat, i as nat),
{
    let sd = SignedData::from_der(sd).ok()?;
    let si = sd.signer_infos.0.get(k)?;
    let CertificateChoices::Certificate(cert) = sd.certificates.as_ref()?.0.get(i)? else {
        return None;
    };
    match &si.sid {
        SignerIdentifier::IssuerAndSerialNumber(isn) => Some(
            (cert.tbs_certificate.issuer == isn.issuer, cert.tbs_certificate.serial_number == isn.serial_number),
        ),
        SignerIdentifier::SubjectKeyIdentifier(_) => None,
    }
}

/// The matching rule of the signer's certificate: issuer and serial
/// number both equal. `None` when the comparison does not apply.
pub open spec fn signer_match(ids: Option<(bool, bool)>) -> Option<bool> {
    match ids {
        Some((issuer_eq, serial_eq)) => Some(issuer_eq && serial_eq),
        None => None,
    }
}

/// Whether certificate `i` is the one that the identifier of signer `k`
/// names: its issuer and its serial number are both the signer's.
fn certificate_matches_signer(sd: &[u8], k: usize, i: usize) -> (r: Option<bool>)
    ensures
        r == signer_match(cms_cert_signer_ids(sd@, k as nat, i as nat)),
{
    match certificate_signer_ids(sd, k, i) {
        Some((issuer_eq, serial_eq)) => Some(issuer_eq && serial_eq),
        None => None,
    }
}

/// The content octets of the DER OCTET STRING `bytes`, when they decode
/// as one.
pub uninterp spec fn octet_string_content(bytes: Seq<u8>) -> Option<Seq<u8>>;

/// `OctetString::from_der`, then its octets. Claims that the result is a
/// function of the bytes.
#[verifier::external_body]
fn octet_string_from_der(bytes: &[u8]) -> (r: Option<Vec<u8>>)
    ensures
        match r {
            Some(v) => octet_string_content(bytes@) == Some(v@),
            None => octet_string_content(bytes@) is None,
        },
{
    match OctetString::from_der(bytes) {
        Ok(o) => Some(o.as_bytes().to_vec()),
        Err(_) => None,
    }
}

/// What RSA-PKCS#1 v1.5 verification (unprefixed) answers for the key
/// whose DER SubjectPublicKeyInfo is `spki`, the pre-built `DigestInfo`
/// `digest_info` and the signature `sig`: `None` when `spki` does not
/// decode as an RSA public key, otherwise whether the signature verifies.
pub uninterp spec fn rsa_pkcs1v15_check(spki: Seq<u8>, digest_info: Seq<u8>, sig: Seq<u8>) -> Option<
    bool,
>;

/// Decodes `spki` with `RsaPublicKey::from_public_key_der` and verifies
/// `sig` over `digest_info` with `RsaPublicKey::verify` and
/// `Pkcs1v15Sign::new_unprefixed()`. Claims only that the answer is a
/// function of the three byte strings.
#[verifier::external_body]
fn rsa_pkcs1v15_verify(spki: &[u8], digest_info: &[u8], sig: &[u8]) -> (r: Option<bool>)
    ensures
        r == rsa_pkcs1v15_check(spki@, digest_info@, sig@),
{
    let key = RsaPublicKey::from_public_key_der(spki).ok()?;
    Some(key.verify(Pkcs1v15Sign::new_unprefixed(), digest_info, sig).is_ok())
}


/// A certificate of the `certificates` set, as the verification reads it.
pub struct CertificateModel {
    /// Whether the certificate's issuer and serial number are those of the
    /// signer; `None` when the signer is identified by a subject key
    /// identifier.
    pub matches_signer: Option<bool>,
    /// Content octets of the certificate's public-key algorithm identifier.
    pub key_alg_oid: Vec<u8>,
    /// DER encoding of the SubjectPublicKeyInfo, or the encoder's error text.
    pub spki_der: Result<Vec<u8>, String>,
}

/// An entry of the `certificates` set.
pub enum CertificateSlot {
    /// A certificate format other than X.509.
    Other,
    /// An X.509 certificate.
    Certificate(CertificateModel),
}

/// A signed attribute, as the verification reads it.
pub struct SignedAttributeModel {
    /// Content octets of the attribute type.
    pub oid: Vec<u8>,
    /// DER encoding of the first value (or the encoder's error text);
    /// `None` when the attribute has no value.
    pub first_value_der: Option<Result<Vec<u8>, String>>,
}

/// The first `SignerInfo` of a `SignedData` and the certificates next to
/// it, as plain values.
pub struct SignerModel {
    /// Content octets of the digest algorithm identifier.
    pub digest_oid: Vec<u8>,
    /// Content octets of the signature algorithm identifier.
    pub signature_oid: Vec<u8>,
    /// DER encoding of the signed attributes (or the encoder's error
    /// text); `None` when the signer has none.
    pub signed_attrs_der: Option<Result<Vec<u8>, String>>,
    /// The signed attributes, in order; empty when the signer has none.
    pub signed_attrs: Vec<SignedAttributeModel>,
    /// The signature value.
    pub signature: Vec<u8>,
    /// The entries of the `certificates` set, in order.
    pub certificates: Vec<CertificateSlot>,
}

/// What the verification reads of a certificate entry: `None` for a
/// format other than X.509; for a certificate, whether it matches the
/// signer, its key algorithm and its SubjectPublicKeyInfo encoding.
pub type CertView = Option<(Option<bool>, Seq<u8>, Result<Seq<u8>, Seq<char>>)>;

/// What the verification reads of a signed attribute: its type and the
/// encoding of its first value.
pub type AttrView = (Seq<u8>, Option<Result<Seq<u8>, Seq<char>>>);

/// The view of a signed attribute.
pub open spec fn attr_model_view(a: SignedAttributeModel) -> AttrView {
    (a.oid@, opt_res_view(a.first_value_der))
}

/// The view of a certificate entry.
pub open spec fn cert_slot_view(c: CertificateSlot) -> CertView {
    match c {
        CertificateSlot::Other => None,
        CertificateSlot::Certificate(m) => Some((m.matches_signer, m.key_alg_oid@, res_view(m.spki_der))),
    }
}

/// The mathematical value of a [`SignerModel`].
pub struct SignerView {
    pub digest_oid: Seq<u8>,
    pub signature_oid: Seq<u8>,
    pub signed_attrs_der: Option<Result<Seq<u8>, Seq<char>>>,
    pub signed_attrs: Seq<AttrView>,
    pub signature: Seq<u8>,
    pub certificates: Seq<CertView>,
}

impl View for SignerModel {
    type V = SignerView;

    open spec fn view(&self) -> SignerView {
        SignerView {
            digest_oid: self.digest_oid@,
            signature_oid: self.signature_oid@,
            signed_attrs_der: opt_res_view(self.signed_attrs_der),
            signed_attrs: self.signed_attrs@.map_values(|a: SignedAttributeModel| attr_model_view(a)),
            signature: self.signature@,
            certificates: self.certificates@.map_values(|c: CertificateSlot| cert_slot_view(c)),
        }
    }
}

/// The view of an optional byte vector.
pub open spec fn opt_bytes(o: Option<Vec<u8>>) -> Option<Seq<u8>> {
    match o {
        Some(v) => Some(v@),
        None => None,
    }
}

/// Whether `slot` may be taken as the signer's certificate: any X.509
/// certificate, or (when `strict`) one whose issuer and serial number do
/// not contradict the signer identifier.
pub open spec fn cert_candidate(slot: CertView, strict: bool) -> bool {
    match slot {
        None => false,
        Some(c) => !strict || c.0 != Some(false),
    }
}

/// The first index at or after `i` whose entry is a candidate.
pub open spec fn find_certificate_from(certs: Seq<CertView>, i: int, strict: bool) -> Option<int>
    decreases certs.len() - i,
{
    if i >= certs.len() || i < 0 {
        None
    } else if cert_candidate(certs[i], strict) {
        Some(i)
    } else {
        find_certificate_from(certs, i + 1, strict)
    }
}

/// The signer's certificate: the first certificate that matches the
/// signer identifier (a signer identified by a subject key identifier
/// matches every certificate), else the first certificate.
pub open spec fn signer_certificate_index(certs: Seq<CertView>) -> Option<int> {
    match find_certificate_from(certs, 0, true) {
        Some(i) => Some(i),
        None => find_certificate_from(certs, 0, false),
    }
}

/// What the RSA check answers, given the signer's certificate.
pub open spec fn certificate_outcome(
    c: (Option<bool>, Seq<u8>, Result<Seq<u8>, Seq<char>>),
    digest_info: Seq<u8>,
    signature: Seq<u8>,
    digest_oid: Seq<u8>,
) -> Result<(SignerVerify, Option<Seq<u8>>), Seq<char>> {
    if c.1 != oid_rsa_encryption() {
        Ok((SignerVerify::Unknown, Some(digest_oid)))
    } else {
        match c.2 {
            Err(e) => Err("failed to re-encode signer SPKI: "@ + e),
            Ok(spki) => match rsa_pkcs1v15_check(spki, digest_info, signature) {
                None => Ok((SignerVerify::Unknown, Some(digest_oid))),
                Some(true) => Ok((SignerVerify::Valid, Some(digest_oid))),
                Some(false) => Ok((SignerVerify::Invalid, Some(digest_oid))),
            },
        }
    }
}

/// The signer-attributes check (RFC 5652 §5.4): the verdict and, once the
/// check got as far as hashing the attributes, the digest identifier; or
/// the message of the error.
pub open spec fn signer_crypto_spec(m: SignerView) -> Result<
    (SignerVerify, Option<Seq<u8>>),
    Seq<char>,
> {
    let d = m.digest_oid;
    match m.signed_attrs_der {
        None => Ok((SignerVerify::Unknown, None)),
        Some(Err(e)) => Err("failed to re-encode signed_attrs: "@ + e),
        Some(Ok(attrs)) => match hash_spec(d, attrs) {
            None => Ok((SignerVerify::Unknown, Some(d))),
            Some(h) => if !is_rsa_pkcs1v15_sig_spec(m.signature_oid) {
                Ok((SignerVerify::Unknown, Some(d)))
            } else {
                match digest_info_prefix_spec(d) {
                    None => Ok((SignerVerify::Unknown, Some(d))),
                    Some(p) => match signer_certificate_index(m.certificates) {
                        None => Ok((SignerVerify::Unknown, Some(d))),
                        Some(i) => match m.certificates[i] {
                            None => Ok((SignerVerify::Unknown, Some(d))),
                            Some(c) => certificate_outcome(c, p + h, m.signature, d),
                        },
                    },
                }
            },
        },
    }
}

/// The `messageDigest` value among the signed attributes from index `i`
/// on: the first attribute of that type decides, and gives its first
/// value's OCTET STRING content when there is one.
pub open spec fn message_digest_from(attrs: Seq<AttrView>, i: int) -> Option<Seq<u8>>
    decreases attrs.len() - i,
{
    if i >= attrs.len() || i < 0 {
        None
    } else if attrs[i].0 == oid_message_digest() {
        match attrs[i].1 {
            Some(Ok(v)) => octet_string_content(v),
            _ => None,
        }
    } else {
        message_digest_from(attrs, i + 1)
    }
}

/// The detached-content verdict once the signer-attributes check gave
/// `Valid` with digest algorithm `d`: the `messageDigest` attribute
/// against the hash of `content`.
pub open spec fn content_digest_verdict(
    attrs: Seq<AttrView>,
    d: Seq<u8>,
    content: Seq<u8>,
) -> SignerVerify {
    match message_digest_from(attrs, 0) {
        None => SignerVerify::Unknown,
        Some(expected) => match hash_spec(d, content) {
            None => SignerVerify::Unknown,
            Some(actual) => if actual == expected {
                SignerVerify::Valid
            } else {
                SignerVerify::Invalid
            },
        },
    }
}

/// The detached-content check (RFC 5652 §11.2) on top of the
/// signer-attributes check.
pub open spec fn detached_spec(m: SignerView, content: Seq<u8>) -> Result<SignerVerify, Seq<char>> {
    match signer_crypto_spec(m) {
        Err(e) => Err(e),
        Ok((v, d)) => if v != SignerVerify::Valid {
            Ok(v)
        } else {
            Ok(content_digest_verdict(m.signed_attrs, d.unwrap(), content))
        },
    }
}

/// `prefix` followed by `detail`.
fn prefixed(prefix: &str, detail: &String) -> (r: String)
    ensures
        r@ == prefix@ + detail@,
{
    let mut s = prefix.to_owned();
    s.append(detail.as_str());
    s
}

/// A copy of `b`.
fn copy_bytes(b: &[u8]) -> (r: Vec<u8>)
    ensures
        r@ == b@,
{
    let mut v: Vec<u8> = Vec::new();
    extend_bytes(&mut v, b);
    assert(v@ =~= b@);
    v
}

/// The first candidate certificate.
fn find_certificate(certs: &Vec<CertificateSlot>, strict: bool) -> (r: Option<usize>)
    ensures
        match r {
            Some(i) => find_certificate_from(certs@.map_values(|c: CertificateSlot| cert_slot_view(c)), 0, strict) == Some(i as int),
            None => find_certificate_from(certs@.map_values(|c: CertificateSlot| cert_slot_view(c)), 0, strict) is None,
        },
        r matches Some(i) ==> i < certs@.len(),
{
    let mut i: usize = 0;
    while i < certs.len()
        invariant
            i <= certs@.len(),
            find_certificate_from(certs@.map_values(|c: CertificateSlot| cert_slot_view(c)), 0, strict)
                == find_certificate_from(certs@.map_values(|c: CertificateSlot| cert_slot_view(c)), i as int, strict),
        decreases certs.len() - i,
    {
        let hit = match &certs[i] {
            CertificateSlot::Other => false,
            CertificateSlot::Certificate(c) => !strict || match c.matches_signer {
                Some(b) => b,
                None => true,
            },
        };
        if hit {
            return Some(i);
        }
        i = i + 1;
    }
    None
}

/// Finds the certificate of the signer: the first certificate whose issuer
/// and serial number match the signer (any certificate, for a signer
/// identified by a subject key identifier), falling back to the first
/// certificate.
pub fn find_signer_certificate(certs: &Vec<CertificateSlot>) -> (r: Option<usize>)
    ensures
        match r {
            Some(i) => signer_certificate_index(certs@.map_values(|c: CertificateSlot| cert_slot_view(c))) == Some(i as int),
            None => signer_certificate_index(certs@.map_values(|c: CertificateSlot| cert_slot_view(c))) is None,
        },
        r matches Some(i) ==> i < certs@.len(),
{
    match find_certificate(certs, true) {
        Some(i) => Some(i),
        None => find_certificate(certs, false),
    }
}

/// Runs the RSA-PKCS#1 v1.5 signer-attributes check on `m`. Returns the
/// verdict and, once the check got as far as hashing the attributes, the
/// digest identifier (a detached-content check hashes with the same one).
pub fn run_signer_crypto(m: &SignerModel) -> (r: Result<(SignerVerify, Option<Vec<u8>>), Error>)
    ensures
        match signer_crypto_spec(m@) {
            Ok((v, d)) => r matches Ok((rv, rd)) && rv == v && opt_bytes(rd) == d,
            Err(msg) => r matches Err(Error::InvalidPdf(e)) && e@ == msg,
        },
{
    let attrs_der = match &m.signed_attrs_der {
        None => {
            return Ok((SignerVerify::Unknown, None));
        },
        Some(Err(e)) => {
            return Err(Error::InvalidPdf(prefixed("failed to re-encode signed_attrs: ", e)));
        },
        Some(Ok(a)) => a,
    };
    let digest_oid = m.digest_oid.as_slice();
    let hash = match hash_with_oid(digest_oid, attrs_der.as_slice()) {
        None => {
            return Ok((SignerVerify::Unknown, Some(copy_bytes(digest_oid))));
        },
        Some(h) => h,
    };
    if !is_rsa_pkcs1v15_sig_oid(m.signature_oid.as_slice()) {
        return Ok((SignerVerify::Unknown, Some(copy_bytes(digest_oid))));
    }
    let mut digest_info = match digest_info_prefix(digest_oid) {
        None => {
            return Ok((SignerVerify::Unknown, Some(copy_bytes(digest_oid))));
        },
        Some(p) => p,
    };
    extend_bytes(&mut digest_info, hash.as_slice());
    let idx = match find_signer_certificate(&m.certificates) {
        None => {
            return Ok((SignerVerify::Unknown, Some(copy_bytes(digest_oid))));
        },
        Some(i) => i,
    };
    let cert = match &m.certificates[idx] {
        CertificateSlot::Other => {
            return Ok((SignerVerify::Unknown, Some(copy_bytes(digest_oid))));
        },
        CertificateSlot::Certificate(c) => c,
    };
    if !bytes_eq(cert.key_alg_oid.as_slice(), oid_pkcs1_bytes(0x01).as_slice()) {
        return Ok((SignerVerify::Unknown, Some(copy_bytes(digest_oid))));
    }
    let spki = match &cert.spki_der {
        Err(e) => {
            return Err(Error::InvalidPdf(prefixed("failed to re-encode signer SPKI: ", e)));
        },
        Ok(s) => s,
    };
    let verdict = match rsa_pkcs1v15_verify(
        spki.as_slice(),
        digest_info.as_slice(),
        m.signature.as_slice(),
    ) {
        None => SignerVerify::Unknown,
        Some(true) => SignerVerify::Valid,
        Some(false) => SignerVerify::Invalid,
    };
    Ok((verdict, Some(copy_bytes(digest_oid))))
}


/// Extracts the `messageDigest` signed attribute: the OCTET STRING content
/// of the first value of the first attribute of that type. `None` when
/// there is no such attribute or its value is not an OCTET STRING.
pub fn extract_message_digest(attrs: &Vec<SignedAttributeModel>) -> (r: Option<Vec<u8>>)
    ensures
        opt_bytes(r) == message_digest_from(attrs@.map_values(|a: SignedAttributeModel| attr_model_view(a)), 0),
{
    let md = oid_message_digest_bytes();
    let mut i: usize = 0;
    while i < attrs.len()
        invariant
            i <= attrs@.len(),
            md@ == oid_message_digest(),
            message_digest_from(attrs@.map_values(|a: SignedAttributeModel| attr_model_view(a)), 0)
                == message_digest_from(attrs@.map_values(|a: SignedAttributeModel| attr_model_view(a)), i as int),
        decreases attrs.len() - i,
    {
        if bytes_eq(attrs[i].oid.as_slice(), md.as_slice()) {
            return match &attrs[i].first_value_der {
                Some(Ok(v)) => octet_string_from_der(v.as_slice()),
                _ => None,
            };
        }
        i = i + 1;
    }
    None
}

/// Compares two byte strings in time that depends on their length only.
pub fn constant_time_eq(a: &[u8], b: &[u8]) -> (r: bool)
    ensures
        r == (a@ == b@),
{
    if a.len() != b.len() {
        return false;
    }
    let mut acc: u8 = 0;
    let mut i: usize = 0;
    while i < a.len()
        invariant
            a@.len() == b@.len(),
            i <= a@.len(),
            (acc == 0) == (forall|j: int| 0 <= j < i ==> a@[j] == b@[j]),
        decreases a.len() - i,
    {
        let x = a[i];
        let y = b[i];
        let next: u8 = acc | (x ^ y);
        assert((next == 0) == (acc == 0 && x == y)) by (bit_vector)
            requires
                next == acc | (x ^ y),
        ;
        proof {
            if next == 0 {
                assert forall|j: int| 0 <= j < i + 1 implies a@[j] == b@[j] by {
                    if j < i {
                    }
                }
            }
        }
        acc = next;
        i = i + 1;
    }
    if acc == 0 {
        assert(a@ =~= b@);
    }
    acc == 0
}

/// The detached-content verdict on `m`: the signer-attributes check, then
/// the `messageDigest` attribute against the hash of `content` under the
/// same digest algorithm.
pub fn detached_verdict(m: &SignerModel, content: &[u8]) -> (r: Result<SignerVerify, Error>)
    ensures
        match detached_spec(m@, content@) {
            Ok(v) => r == Ok::<SignerVerify, Error>(v),
            Err(msg) => r matches Err(Error::InvalidPdf(e)) && e@ == msg,
        },
{
    let (outcome, digest_oid) = match run_signer_crypto(m) {
        Err(e) => {
            return Err(e);
        },
        Ok(x) => x,
    };
    match outcome {
        SignerVerify::Valid => {},
        other => {
            return Ok(other);
        },
    }
    let digest_oid = match digest_oid {
        Some(d) => d,
        None => {
            return Ok(SignerVerify::Unknown);
        },
    };
    let expected = match extract_message_digest(&m.signed_attrs) {
        None => {
            return Ok(SignerVerify::Unknown);
        },
        Some(e) => e,
    };
    let actual = match hash_with_oid(digest_oid.as_slice(), content) {
        None => {
            return Ok(SignerVerify::Unknown);
        },
        Some(a) => a,
    };
    if constant_time_eq(actual.as_slice(), expected.as_slice()) {
        Ok(SignerVerify::Valid)
    } else {
        Ok(SignerVerify::Invalid)
    }
}


/// What decoding the signature contents gives: the DER `SignedData` that
/// the `ContentInfo` carries, or the message of the error.
pub open spec fn parse_spec(contents: Seq<u8>) -> Result<Seq<u8>, Seq<char>> {
    match content_info_decoded(contents) {
        Err(e) => Err("signature /Contents is not valid CMS ContentInfo: "@ + e),
        Ok(Err(e)) => Err("failed to re-encode ContentInfo content: "@ + e),
        Ok(Ok(sd)) => match signed_data_error(sd) {
            Some(e) => Err("CMS content is not valid SignedData: "@ + e),
            None => Ok(sd),
        },
    }
}

/// Decodes `contents` as a CMS `ContentInfo` whose content is a
/// `SignedData`, and gives the DER bytes of that `SignedData`.
fn parse_signed_data(contents: &[u8]) -> (r: Result<Vec<u8>, Error>)
    ensures
        match parse_spec(contents@) {
            Ok(sd) => r matches Ok(b) && b@ == sd,
            Err(msg) => r matches Err(Error::InvalidPdf(e)) && e@ == msg,
        },
{
    let sd_bytes = match content_info_content(contents) {
        Err(e) => {
            return Err(
                Error::InvalidPdf(prefixed("signature /Contents is not valid CMS ContentInfo: ", &e)),
            );
        },
        Ok(Err(e)) => {
            return Err(Error::InvalidPdf(prefixed("failed to re-encode ContentInfo content: ", &e)));
        },
        Ok(Ok(b)) => b,
    };
    match signed_data_check(sd_bytes.as_slice()) {
        Some(e) => Err(Error::InvalidPdf(prefixed("CMS content is not valid SignedData: ", &e))),
        None => Ok(sd_bytes),
    }
}

/// The signed attributes `0 .. n` of the first signer of `sd`, in order.
pub open spec fn attrs_spec(sd: Seq<u8>, n: nat) -> Seq<
    (Seq<u8>, Option<Result<Seq<u8>, Seq<char>>>),
>
    decreases n,
{
    if n == 0 {
        Seq::empty()
    } else {
        attrs_spec(sd, (n - 1) as nat) + match cms_signed_attr(sd, 0, (n - 1) as nat, 0) {
            Some(a) => seq![a],
            None => Seq::empty(),
        }
    }
}

/// The entries `0 .. n` of the `certificates` set of `sd`, in order.
pub open spec fn certs_spec(sd: Seq<u8>, n: nat) -> Seq<
    Option<(Option<bool>, Seq<u8>, Result<Seq<u8>, Seq<char>>)>,
>
    decreases n,
{
    if n == 0 {
        Seq::empty()
    } else {
        let k = (n - 1) as nat;
        certs_spec(sd, k) + match cms_cert(sd, k) {
            Some(Some(c)) => seq![Some((signer_match(cms_cert_signer_ids(sd, 0, k)), c.0, c.1))],
            Some(None) => seq![None],
            None => Seq::empty(),
        }
    }
}

/// What the DER `SignedData` `sd` says of its first signer and its
/// certificates; `None` when it has no signer (or does not decode).
pub open spec fn signer_view_of(sd: Seq<u8>) -> Option<SignerView> {
    match cms_signer_fields(sd, 0) {
        Some(f) => Some(
            SignerView {
                digest_oid: f.0,
                signature_oid: f.1,
                signed_attrs_der: f.2,
                signed_attrs: attrs_spec(sd, f.4),
                signature: f.3,
                certificates: certs_spec(sd, cms_cert_count(sd)),
            },
        ),
        None => None,
    }
}

/// Reads signed attributes `0 .. n` of the first signer of the DER
/// `SignedData` `sd` into plain values.
fn signed_attribute_models(sd: &[u8], n: usize) -> (r: Vec<SignedAttributeModel>)
    ensures
        r@.map_values(|a: SignedAttributeModel| attr_model_view(a)) == attrs_spec(sd@, n as nat),
{
    let mut out: Vec<SignedAttributeModel> = Vec::new();
    let mut i: usize = 0;
    assert(out@.map_values(|a: SignedAttributeModel| attr_model_view(a)) =~= attrs_spec(sd@, 0));
    while i < n
        invariant
            i <= n,
            out@.map_values(|a: SignedAttributeModel| attr_model_view(a)) == attrs_spec(
                sd@,
                i as nat,
            ),
        decreases n - i,
    {
        let ghost before = out@;
        match signed_attr(sd, 0, i, 0) {
            Some((oid, first_value_der)) => {
                out.push(SignedAttributeModel { oid, first_value_der });
                assert(out@.map_values(|a: SignedAttributeModel| attr_model_view(a))
                    =~= before.map_values(|a: SignedAttributeModel| attr_model_view(a)) + seq![
                    attr_model_view(out@.last()),
                ]);
            },
            None => {},
        }
        i = i + 1;
    }
    out
}

/// Reads the `certificates` set of the DER `SignedData` `sd` into plain
/// values, with each certificate compared against the identifier of the
/// first signer.
fn certificate_models(sd: &[u8]) -> (r: Vec<CertificateSlot>)
    ensures
        r@.map_values(|c: CertificateSlot| cert_slot_view(c)) == certs_spec(
            sd@,
            cms_cert_count(sd@),
        ),
{
    let mut out: Vec<CertificateSlot> = Vec::new();
    let n = certificate_count(sd);
    let mut i: usize = 0;
    assert(out@.map_values(|c: CertificateSlot| cert_slot_view(c)) =~= certs_spec(sd@, 0));
    while i < n
        invariant
            i <= n,
            n as nat == cms_cert_count(sd@),
            out@.map_values(|c: CertificateSlot| cert_slot_view(c)) == certs_spec(sd@, i as nat),
        decreases n - i,
    {
        let ghost before = out@;
        match certificate_at(sd, i) {
            Some(Some((key_alg_oid, spki_der))) => {
                out.push(
                    CertificateSlot::Certificate(
                        CertificateModel {
                            matches_signer: certificate_matches_signer(sd, 0, i),
                            key_alg_oid,
                            spki_der,
                        },
                    ),
                );
                assert(out@.map_values(|c: CertificateSlot| cert_slot_view(c))
                    =~= before.map_values(|c: CertificateSlot| cert_slot_view(c)) + seq![
                    cert_slot_view(out@.last()),
                ]);
            },
            Some(None) => {
                out.push(CertificateSlot::Other);
                assert(out@.map_values(|c: CertificateSlot| cert_slot_view(c))
                    =~= before.map_values(|c: CertificateSlot| cert_slot_view(c)) + seq![
                    cert_slot_view(out@.last()),
                ]);
            },
            None => {},
        }
        i = i + 1;
    }
    out
}

/// Reads the first `SignerInfo` of the DER `SignedData` `sd`, and the
/// certificates, into a [`SignerModel`]. Fails when `sd` has no
/// `SignerInfo`.
fn signer_model(sd: &[u8]) -> (r: Result<SignerModel, Error>)
    ensures
        match signer_view_of(sd@) {
            None => r matches Err(Error::InvalidPdf(e)) && e@ == "SignedData has no SignerInfo"@,
            Some(v) => r matches Ok(m) && m@ == v,
        },
{
    let (digest_oid, signature_oid, signed_attrs_der, signature, n_attrs) = match signer_fields(
        sd,
        0,
    ) {
        None => {
            return Err(Error::InvalidPdf("SignedData has no SignerInfo".to_owned()));
        },
        Some(f) => f,
    };
    let m = SignerModel {
        digest_oid,
        signature_oid,
        signed_attrs_der,
        signed_attrs: signed_attribute_models(sd, n_attrs),
        signature,
        certificates: certificate_models(sd),
    };
    assert(m@ == signer_view_of(sd@)->0);
    Ok(m)
}

/// What [`verify_signer`] answers for `contents`: the verdict, or the
/// message of the `InvalidPdf` error.
pub open spec fn verify_signer_spec(contents: Seq<u8>) -> Result<SignerVerify, Seq<char>> {
    match parse_spec(contents) {
        Err(msg) => Err(msg),
        Ok(sd) => match signer_view_of(sd) {
            None => Err("SignedData has no SignerInfo"@),
            Some(v) => match signer_crypto_spec(v) {
                Ok((x, _)) => Ok(x),
                Err(msg) => Err(msg),
            },
        },
    }
}

/// What [`verify_signer_detached`] answers for `contents` and `content`:
/// the verdict, or the message of the `InvalidPdf` error.
pub open spec fn verify_detached_spec(contents: Seq<u8>, content: Seq<u8>) -> Result<
    SignerVerify,
    Seq<char>,
> {
    match parse_spec(contents) {
        Err(msg) => Err(msg),
        Ok(sd) => match signer_view_of(sd) {
            None => Err("SignedData has no SignerInfo"@),
            Some(v) => detached_spec(v, content),
        },
    }
}

/// Verifies only the signer-attribute RSA-PKCS#1 v1.5 signature of a CMS
/// blob. A `Valid` answer proves that the attributes are authentic, not
/// that they describe a given document: use [`verify_signer_detached`]
/// when the document bytes are at hand.
pub fn verify_signer(contents: &[u8]) -> (r: Result<SignerVerify, Error>)
    ensures
        !der_decodes_content_info(contents@) ==> (r matches Err(Error::InvalidPdf(_))),
        match verify_signer_spec(contents@) {
            Ok(v) => r == Ok::<SignerVerify, Error>(v),
            Err(msg) => r matches Err(Error::InvalidPdf(e)) && e@ == msg,
        },
{
    let sd = parse_signed_data(contents)?;
    let m = signer_model(sd.as_slice())?;
    match run_signer_crypto(&m) {
        Ok((v, _)) => Ok(v),
        Err(e) => Err(e),
    }
}

/// Verifies a detached-content signature end to end: the signer-attribute
/// check and the `messageDigest` attribute against the hash of `content`
/// (for a PDF, the two byte-range segments around `/Contents`).
///
/// `Valid` when both checks pass; `Invalid` when one of them fails;
/// `Unknown` when the signer check could not run or the blob carries no
/// `messageDigest` attribute.
pub fn verify_signer_detached(contents: &[u8], content: &[u8]) -> (r: Result<SignerVerify, Error>)
    ensures
        !der_decodes_content_info(contents@) ==> (r matches Err(Error::InvalidPdf(_))),
        match verify_detached_spec(contents@, content@) {
            Ok(v) => r == Ok::<SignerVerify, Error>(v),
            Err(msg) => r matches Err(Error::InvalidPdf(e)) && e@ == msg,
        },
{
    let sd = parse_signed_data(contents)?;
    let m = signer_model(sd.as_slice())?;
    detached_verdict(&m, content)
}

/// The detached-content check never improves on the signer-attributes
/// check: an error or a verdict other than `Valid` from that check is the
/// detached verdict too. A `Valid` detached verdict means that the
/// signer-attributes check was `Valid` and that the signed
/// `messageDigest` equals the hash of the content under the signer's
/// digest algorithm; and a `Valid` signer-attributes verdict always comes
/// with that digest algorithm.
pub proof fn lemma_detached_refines_signer(m: SignerView, content: Seq<u8>)
    ensures
        signer_crypto_spec(m) is Err ==> detached_spec(m, content) == Err::<SignerVerify, Seq<char>>(
            signer_crypto_spec(m)->Err_0,
        ),
        signer_crypto_spec(m) is Ok && signer_crypto_spec(m)->Ok_0.0 != SignerVerify::Valid
            ==> detached_spec(m, content) == Ok::<SignerVerify, Seq<char>>(
            signer_crypto_spec(m)->Ok_0.0,
        ),
        signer_crypto_spec(m) is Ok && signer_crypto_spec(m)->Ok_0.0 == SignerVerify::Valid
            ==> signer_crypto_spec(m)->Ok_0.1 == Some(m.digest_oid),
        detached_spec(m, content) == Ok::<SignerVerify, Seq<char>>(SignerVerify::Valid) ==> {
            &&& signer_crypto_spec(m) is Ok
            &&& signer_crypto_spec(m)->Ok_0.0 == SignerVerify::Valid
            &&& message_digest_from(m.signed_attrs, 0) is Some
            &&& hash_spec(m.digest_oid, content) == message_digest_from(m.signed_attrs, 0)
        },
{
}

/// For the same signature contents, [`verify_signer_detached`] fails
/// exactly when [`verify_signer`] fails, with the same error; it answers
/// `Valid` only when `verify_signer` does; a verdict other than `Valid`
/// from `verify_signer` is the detached verdict too; and when
/// `verify_signer` answers `Valid`, the detached verdict compares the
/// signed `messageDigest` with the hash of `content` under the signer's
/// digest algorithm (`Unknown` without a usable `messageDigest`).
pub proof fn lemma_detached_vs_plain(contents: Seq<u8>, content: Seq<u8>)
    ensures
        verify_detached_spec(contents, content) is Err <==> verify_signer_spec(contents) is Err,
        verify_signer_spec(contents) is Err ==> verify_detached_spec(contents, content)
            == verify_signer_spec(contents),
        verify_detached_spec(contents, content) == Ok::<SignerVerify, Seq<char>>(SignerVerify::Valid)
            ==> verify_signer_spec(contents) == Ok::<SignerVerify, Seq<char>>(SignerVerify::Valid),
        verify_signer_spec(contents) is Ok && verify_signer_spec(contents)->Ok_0 != SignerVerify::Valid
            ==> verify_detached_spec(contents, content) == verify_signer_spec(contents),
        verify_signer_spec(contents) == Ok::<SignerVerify, Seq<char>>(SignerVerify::Valid) ==> {
            let v = signer_view_of(parse_spec(contents)->Ok_0)->0;
            verify_detached_spec(contents, content) == Ok::<SignerVerify, Seq<char>>(
                content_digest_verdict(v.signed_attrs, v.digest_oid, content),
            )
        },
{
    if let Ok(sd) = parse_spec(contents) {
        if let Some(v) = signer_view_of(sd) {
            lemma_detached_refines_signer(v, content);
        }
    }
}

} // verus!
