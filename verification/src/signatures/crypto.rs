//! Digest and signature-algorithm identifiers used by signer
//! verification, the PKCS#1 v1.5 `DigestInfo` prefixes, and hashing by
//! algorithm identifier.
use sha1::Digest;
use vstd::prelude::*;

verus! {

/// Content octets of the OBJECT IDENTIFIER 1.3.14.3.2.26 (SHA-1).
pub open spec fn oid_sha1() -> Seq<u8> {
    seq![0x2Bu8, 0x0E, 0x03, 0x02, 0x1A]
}

/// Content octets of 2.16.840.1.101.3.4.2.1 (SHA-256).
pub open spec fn oid_sha256() -> Seq<u8> {
    seq![0x60u8, 0x86, 0x48, 0x01, 0x65, 0x03, 0x04, 0x02, 0x01]
}

/// Content octets of 2.16.840.1.101.3.4.2.2 (SHA-384).
pub open spec fn oid_sha384() -> Seq<u8> {
    seq![0x60u8, 0x86, 0x48, 0x01, 0x65, 0x03, 0x04, 0x02, 0x02]
}

/// Content octets of 2.16.840.1.101.3.4.2.3 (SHA-512).
pub open spec fn oid_sha512() -> Seq<u8> {
    seq![0x60u8, 0x86, 0x48, 0x01, 0x65, 0x03, 0x04, 0x02, 0x03]
}

/// Content octets of 1.2.840.113549.1.1.x (the PKCS#1 arc).
pub open spec fn oid_pkcs1(x: u8) -> Seq<u8> {
    seq![0x2Au8, 0x86, 0x48, 0x86, 0xF7, 0x0D, 0x01, 0x01, x]
}

/// Content octets of 1.2.840.113549.1.1.1 (rsaEncryption).
pub open spec fn oid_rsa_encryption() -> Seq<u8> {
    oid_pkcs1(0x01)
}

/// Content octets of 1.2.840.113549.1.9.4 (id-messageDigest).
pub open spec fn oid_message_digest() -> Seq<u8> {
    seq![0x2Au8, 0x86, 0x48, 0x86, 0xF7, 0x0D, 0x01, 0x09, 0x04]
}

/// The SHA-1 digest of `data`.
pub uninterp spec fn sha1_digest(data: Seq<u8>) -> Seq<u8>;

/// The SHA-256 digest of `data`.
pub uninterp spec fn sha256_digest(data: Seq<u8>) -> Seq<u8>;

/// The SHA-384 digest of `data`.
pub uninterp spec fn sha384_digest(data: Seq<u8>) -> Seq<u8>;

/// The SHA-512 digest of `data`.
pub uninterp spec fn sha512_digest(data: Seq<u8>) -> Seq<u8>;

/// `sha1::Sha1::digest`: the 20-byte SHA-1 digest of `data`.
#[verifier::external_body]
fn sha1(data: &[u8]) -> (r: Vec<u8>)
    ensures
        r@ == sha1_digest(data@),
        r@.len() == 20,
{
    sha1::Sha1::digest(data).to_vec()
}

/// `sha2::Sha256::digest`: the 32-byte SHA-256 digest of `data`.
#[verifier::external_body]
fn sha256(data: &[u8]) -> (r: Vec<u8>)
    ensures
        r@ == sha256_digest(data@),
        r@.len() == 32,
{
    sha2::Sha256::digest(data).to_vec()
}

/// `sha2::Sha384::digest`: the 48-byte SHA-384 digest of `data`.
#[verifier::external_body]
fn sha384(data: &[u8]) -> (r: Vec<u8>)
    ensures
        r@ == sha384_digest(data@),
        r@.len() == 48,
{
    sha2::Sha384::digest(data).to_vec()
}

/// `sha2::Sha512::digest`: the 64-byte SHA-512 digest of `data`.
#[verifier::external_body]
fn sha512(data: &[u8]) -> (r: Vec<u8>)
    ensures
        r@ == sha512_digest(data@),
        r@.len() == 64,
{
    sha2::Sha512::digest(data).to_vec()
}

/// The digest of `data` under the digest algorithm `oid`, for SHA-1,
/// SHA-256, SHA-384 and SHA-512; `None` for any other algorithm.
pub open spec fn hash_spec(oid: Seq<u8>, data: Seq<u8>) -> Option<Seq<u8>> {
    if oid == oid_sha1() {
        Some(sha1_digest(data))
    } else if oid == oid_sha256() {
        Some(sha256_digest(data))
    } else if oid == oid_sha384() {
        Some(sha384_digest(data))
    } else if oid == oid_sha512() {
        Some(sha512_digest(data))
    } else {
        None
    }
}

/// The DER prefix of a PKCS#1 v1.5 `DigestInfo` (RFC 8017 §9.2) for the
/// digest algorithm `oid`: the SEQUENCE header, the AlgorithmIdentifier
/// with NULL parameters, and the OCTET STRING header of the digest.
pub open spec fn digest_info_prefix_spec(oid: Seq<u8>) -> Option<Seq<u8>> {
    if oid == oid_sha1() {
        Some(
            seq![0x30u8, 0x21, 0x30, 0x09, 0x06, 0x05] + oid_sha1() + seq![0x05u8, 0x00, 0x04, 0x14],
        )
    } else if oid == oid_sha256() {
        Some(
            seq![0x30u8, 0x31, 0x30, 0x0d, 0x06, 0x09] + oid_sha256() + seq![
                0x05u8,
                0x00,
                0x04,
                0x20,
            ],
        )
    } else if oid == oid_sha384() {
        Some(
            seq![0x30u8, 0x41, 0x30, 0x0d, 0x06, 0x09] + oid_sha384() + seq![
                0x05u8,
                0x00,
                0x04,
                0x30,
            ],
        )
    } else if oid == oid_sha512() {
        Some(
            seq![0x30u8, 0x51, 0x30, 0x0d, 0x06, 0x09] + oid_sha512() + seq![
                0x05u8,
                0x00,
                0x04,
                0x40,
            ],
        )
    } else {
        None
    }
}

/// The length, in bytes, of the digests of the algorithm `oid`: 20 for
/// SHA-1, 32 for SHA-256, 48 for SHA-384, 64 for SHA-512.
pub open spec fn digest_len(oid: Seq<u8>) -> Option<nat> {
    if oid == oid_sha1() {
        Some(20)
    } else if oid == oid_sha256() {
        Some(32)
    } else if oid == oid_sha384() {
        Some(48)
    } else if oid == oid_sha512() {
        Some(64)
    } else {
        None
    }
}

proof fn lemma_oids_distinct()
    ensures
        oid_sha1() != oid_sha256(),
        oid_sha1() != oid_sha384(),
        oid_sha1() != oid_sha512(),
        oid_sha256() != oid_sha384(),
        oid_sha256() != oid_sha512(),
        oid_sha384() != oid_sha512(),
{
    assert(oid_sha1().len() == 5 && oid_sha256().len() == 9);
    assert(oid_sha256()[8] == 1 && oid_sha384()[8] == 2 && oid_sha512()[8] == 3);
}

/// Each digest algorithm hashes with its own function, and its DigestInfo
/// prefix announces (in its last byte) the length of that function's
/// digests: SHA-1 with SHA-1 and 20 bytes, SHA-256 with SHA-256 and 32,
/// SHA-384 with SHA-384 and 48, SHA-512 with SHA-512 and 64.
pub proof fn lemma_digest_algorithms(data: Seq<u8>)
    ensures
        hash_spec(oid_sha1(), data) == Some(sha1_digest(data)),
        hash_spec(oid_sha256(), data) == Some(sha256_digest(data)),
        hash_spec(oid_sha384(), data) == Some(sha384_digest(data)),
        hash_spec(oid_sha512(), data) == Some(sha512_digest(data)),
        digest_info_prefix_spec(oid_sha1())->0.last() == 20,
        digest_info_prefix_spec(oid_sha256())->0.last() == 32,
        digest_info_prefix_spec(oid_sha384())->0.last() == 48,
        digest_info_prefix_spec(oid_sha512())->0.last() == 64,
        forall|oid: Seq<u8>| #[trigger] digest_len(oid) is Some <==> hash_spec(oid, data) is Some,
        forall|oid: Seq<u8>|
            #[trigger] digest_len(oid) matches Some(n) ==> digest_info_prefix_spec(oid) is Some
                && digest_info_prefix_spec(oid)->0.last() == n,
{
    lemma_oids_distinct();
}

/// RSA-PKCS#1 v1.5 signature algorithms: rsaEncryption and
/// sha{1,256,384,512}WithRSAEncryption.
pub open spec fn is_rsa_pkcs1v15_sig_spec(oid: Seq<u8>) -> bool {
    oid == oid_rsa_encryption() || oid == oid_pkcs1(0x05) || oid == oid_pkcs1(0x0B) || oid
        == oid_pkcs1(0x0C) || oid == oid_pkcs1(0x0D)
}

/// Whether two byte strings are equal.
pub fn bytes_eq(a: &[u8], b: &[u8]) -> (r: bool)
    ensures
        r == (a@ == b@),
{
    if a.len() != b.len() {
        return false;
    }
    let mut i: usize = 0;
    while i < a.len()
        invariant
            a@.len() == b@.len(),
            i <= a@.len(),
            forall|j: int| 0 <= j < i ==> a@[j] == b@[j],
        decreases a.len() - i,
    {
        if a[i] != b[i] {
            return false;
        }
        i = i + 1;
    }
    assert(a@ =~= b@);
    true
}

/// Appends `b` to `v`.
pub fn extend_bytes(v: &mut Vec<u8>, b: &[u8])
    ensures
        final(v)@ == old(v)@ + b@,
{
    let mut i: usize = 0;
    while i < b.len()
        invariant
            i <= b@.len(),
            v@ == old(v)@ + b@.take(i as int),
        decreases b.len() - i,
    {
        v.push(b[i]);
        assert(b@.take(i + 1) == b@.take(i as int).push(b@[i as int]));
        i = i + 1;
    }
    assert(b@.take(b@.len() as int) == b@);
}

fn oid_sha1_bytes() -> (r: Vec<u8>)
    ensures
        r@ == oid_sha1(),
{
    let r = vec![0x2Bu8, 0x0E, 0x03, 0x02, 0x1A];
    assert(r@ =~= oid_sha1());
    r
}

fn oid_sha2_bytes(last: u8) -> (r: Vec<u8>)
    ensures
        r@ == seq![0x60u8, 0x86, 0x48, 0x01, 0x65, 0x03, 0x04, 0x02, last],
{
    let r = vec![0x60u8, 0x86, 0x48, 0x01, 0x65, 0x03, 0x04, 0x02, last];
    assert(r@ =~= seq![0x60u8, 0x86, 0x48, 0x01, 0x65, 0x03, 0x04, 0x02, last]);
    r
}

/// The PKCS#1 arc identifier 1.2.840.113549.1.1.x.
pub fn oid_pkcs1_bytes(x: u8) -> (r: Vec<u8>)
    ensures
        r@ == oid_pkcs1(x),
{
    let r = vec![0x2Au8, 0x86, 0x48, 0x86, 0xF7, 0x0D, 0x01, 0x01, x];
    assert(r@ =~= oid_pkcs1(x));
    r
}

/// The identifier of the messageDigest signed attribute.
pub fn oid_message_digest_bytes() -> (r: Vec<u8>)
    ensures
        r@ == oid_message_digest(),
{
    let r = vec![0x2Au8, 0x86, 0x48, 0x86, 0xF7, 0x0D, 0x01, 0x09, 0x04];
    assert(r@ =~= oid_message_digest());
    r
}

/// Hashes `data` with the digest algorithm named by `oid`; `None` for an
/// algorithm other than SHA-1, SHA-256, SHA-384 and SHA-512.
pub fn hash_with_oid(oid: &[u8], data: &[u8]) -> (r: Option<Vec<u8>>)
    ensures
        match r {
            Some(h) => hash_spec(oid@, data@) == Some(h@),
            None => hash_spec(oid@, data@) is None,
        },
        r is Some <==> digest_len(oid@) is Some,
        r matches Some(h) ==> h@.len() == digest_len(oid@)->0 && digest_info_prefix_spec(oid@) is Some
            && h@.len() == digest_info_prefix_spec(oid@)->0.last(),
        oid@ == oid_sha1() ==> (r matches Some(h) && h@ == sha1_digest(data@)),
        oid@ == oid_sha256() ==> (r matches Some(h) && h@ == sha256_digest(data@)),
        oid@ == oid_sha384() ==> (r matches Some(h) && h@ == sha384_digest(data@)),
        oid@ == oid_sha512() ==> (r matches Some(h) && h@ == sha512_digest(data@)),
{
    proof {
        lemma_oids_distinct();
        lemma_digest_algorithms(data@);
    }
    if bytes_eq(oid, oid_sha1_bytes().as_slice()) {
        Some(sha1(data))
    } else if bytes_eq(oid, oid_sha2_bytes(0x01).as_slice()) {
        Some(sha256(data))
    } else if bytes_eq(oid, oid_sha2_bytes(0x02).as_slice()) {
        Some(sha384(data))
    } else if bytes_eq(oid, oid_sha2_bytes(0x03).as_slice()) {
        Some(sha512(data))
    } else {
        None
    }
}

/// The `DigestInfo` prefix for the digest algorithm `oid`.
pub fn digest_info_prefix(oid: &[u8]) -> (r: Option<Vec<u8>>)
    ensures
        match r {
            Some(p) => digest_info_prefix_spec(oid@) == Some(p@),
            None => digest_info_prefix_spec(oid@) is None,
        },
{
    let mut p: Vec<u8>;
    if bytes_eq(oid, oid_sha1_bytes().as_slice()) {
        p = vec![0x30u8, 0x21, 0x30, 0x09, 0x06, 0x05];
        extend_bytes(&mut p, oid);
        extend_bytes(&mut p, vec![0x05u8, 0x00, 0x04, 0x14].as_slice());
    } else if bytes_eq(oid, oid_sha2_bytes(0x01).as_slice()) {
        p = vec![0x30u8, 0x31, 0x30, 0x0d, 0x06, 0x09];
        extend_bytes(&mut p, oid);
        extend_bytes(&mut p, vec![0x05u8, 0x00, 0x04, 0x20].as_slice());
    } else if bytes_eq(oid, oid_sha2_bytes(0x02).as_slice()) {
        p = vec![0x30u8, 0x41, 0x30, 0x0d, 0x06, 0x09];
        extend_bytes(&mut p, oid);
        extend_bytes(&mut p, vec![0x05u8, 0x00, 0x04, 0x30].as_slice());
    } else if bytes_eq(oid, oid_sha2_bytes(0x03).as_slice()) {
        p = vec![0x30u8, 0x51, 0x30, 0x0d, 0x06, 0x09];
        extend_bytes(&mut p, oid);
        extend_bytes(&mut p, vec![0x05u8, 0x00, 0x04, 0x40].as_slice());
    } else {
        return None;
    }
    Some(p)
}

/// Whether `oid` names an RSA-PKCS#1 v1.5 signature algorithm.
pub fn is_rsa_pkcs1v15_sig_oid(oid: &[u8]) -> (r: bool)
    ensures
        r == is_rsa_pkcs1v15_sig_spec(oid@),
{
    bytes_eq(oid, oid_pkcs1_bytes(0x01).as_slice()) || bytes_eq(
        oid,
        oid_pkcs1_bytes(0x05).as_slice(),
    ) || bytes_eq(oid, oid_pkcs1_bytes(0x0B).as_slice()) || bytes_eq(
        oid,
        oid_pkcs1_bytes(0x0C).as_slice(),
    ) || bytes_eq(oid, oid_pkcs1_bytes(0x0D).as_slice())
}

} // verus!
