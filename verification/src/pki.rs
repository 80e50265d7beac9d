//! Certificates and signatures of other algorithms than the one AAuth signs
//! with: what `webpki` decides, on plain values.

use std::time::Duration;

use rustls_pki_types::{CertificateDer, TrustAnchor, UnixTime};
use vstd::prelude::*;
use webpki::ring::{
    ECDSA_P256_SHA256, ECDSA_P256_SHA384, ECDSA_P384_SHA256, ECDSA_P384_SHA384, ED25519,
    RSA_PKCS1_2048_8192_SHA256, RSA_PKCS1_2048_8192_SHA384, RSA_PKCS1_2048_8192_SHA512,
    RSA_PSS_2048_8192_SHA256_LEGACY_KEY,
};
use webpki::{
    anchor_from_trusted_cert, BorrowedCertRevocationList, CertRevocationList, EndEntityCert,
    KeyUsage, RevocationOptionsBuilder,
};

use crate::text;

verus! {

/// The signature algorithms of assertions.
#[derive(Debug, Clone, Copy, PartialEq, Eq, Structural)]
pub enum PkiAlg {
    Ed25519,
    Rs256,
    Rs384,
    Rs512,
    Es256,
    Es384,
}

/// The signature algorithms that certificates may be signed with.
#[derive(Debug, Clone, Copy, PartialEq, Eq, Structural)]
pub enum ChainAlg {
    Ed25519,
    P256Sha256,
    P256Sha384,
    P384Sha256,
    P384Sha384,
    RsaSha256,
    RsaSha384,
    RsaSha512,
    RsaPssSha256,
}

/// The encoding of a certificate, as `webpki` takes it.
#[verifier::external_type_specification]
#[verifier::external_body]
pub struct ExCertificateDer<'a>(CertificateDer<'a>);

/// A trusted root, as `webpki` takes it.
#[verifier::external_type_specification]
#[verifier::external_body]
pub struct ExTrustAnchor<'a>(TrustAnchor<'a>);

/// A revocation list, as `webpki` takes it.
#[verifier::external_type_specification]
#[verifier::external_body]
pub struct ExCertRevocationList<'a>(CertRevocationList<'a>);

/// What `rustls_pki_types::CertificateDer::from` makes of bytes.
pub uninterp spec fn certificate_of(der: Seq<u8>) -> CertificateDer<'static>;

/// The root that `webpki::anchor_from_trusted_cert` makes of a certificate, or
/// what it says against it.
pub uninterp spec fn anchor_of(der: Seq<u8>) -> Result<TrustAnchor<'static>, Seq<char>>;

/// What `webpki::EndEntityCert::try_from` says against a certificate.
pub uninterp spec fn leaf_fault(der: Seq<u8>) -> Option<Seq<char>>;

/// The list that `webpki::BorrowedCertRevocationList::from_der` reads, or what it
/// says against it.
pub uninterp spec fn crl_of(der: Seq<u8>) -> Result<CertRevocationList<'static>, Seq<char>>;

/// What `webpki::EndEntityCert::verify_for_usage` says against a chain at a
/// time: leaf, intermediates, roots, revocation lists, the algorithms that are
/// admitted, and the identifier of the key usage.
pub uninterp spec fn chain_fault(
    leaf: Seq<u8>,
    intermediates: Seq<Seq<u8>>,
    roots: Seq<Seq<u8>>,
    crls: Seq<Seq<u8>>,
    algs: Seq<ChainAlg>,
    usage: Seq<u8>,
    now: u64,
) -> Option<Seq<char>>;

/// Whether `webpki::EndEntityCert::verify_signature` takes a signature of a
/// message under the key of a certificate.
pub uninterp spec fn leaf_verifies(
    leaf: Seq<u8>,
    alg: PkiAlg,
    message: Seq<u8>,
    signature: Seq<u8>,
) -> bool;

/// Whether the algorithm's `verify_signature` takes a signature of a message
/// under an encoded public key.
pub uninterp spec fn key_verifies(
    alg: PkiAlg,
    key: Seq<u8>,
    message: Seq<u8>,
    signature: Seq<u8>,
) -> bool;

/// The roots that certificates give, where each of them gives one.
pub open spec fn anchors_of(ders: Seq<Seq<u8>>, anchors: Seq<TrustAnchor<'static>>) -> bool {
    ders.len() == anchors.len() && forall|i: int|
        0 <= i < ders.len() ==> anchor_of(#[trigger] ders[i]) == Ok::<
            TrustAnchor<'static>,
            Seq<char>,
        >(anchors[i])
}

/// The certificates that encodings give.
pub open spec fn certificates_of<'a>(ders: Seq<Seq<u8>>, certs: Seq<CertificateDer<'a>>) -> bool {
    ders.len() == certs.len() && forall|i: int|
        0 <= i < ders.len() ==> certificate_of(#[trigger] ders[i]) == certs[i]
}

/// The revocation lists that encodings give, where each of them gives one.
pub open spec fn crls_of<'a>(ders: Seq<Seq<u8>>, crls: Seq<&CertRevocationList<'a>>) -> bool {
    ders.len() == crls.len() && forall|i: int|
        0 <= i < ders.len() ==> crl_of(#[trigger] ders[i]) == Ok::<
            CertRevocationList<'a>,
            Seq<char>,
        >(*crls[i])
}

/// `rustls_pki_types::CertificateDer::from`: the bytes as the encoding of a
/// certificate, unread.
#[verifier::external_body]
pub(crate) fn certificate<'a>(der: &'a [u8]) -> (r: CertificateDer<'a>)
    ensures
        r == certificate_of(der@),
{
    CertificateDer::from(der)
}

/// `webpki::anchor_from_trusted_cert`: the root that a certificate gives.
#[verifier::external_body]
pub(crate) fn trust_anchor(der: &[u8]) -> (r: Result<TrustAnchor<'static>, String>)
    ensures
        match r {
            Ok(a) => anchor_of(der@) == Ok::<TrustAnchor<'static>, Seq<char>>(a),
            Err(e) => anchor_of(der@) == Err::<TrustAnchor<'static>, Seq<char>>(e@),
        },
{
    let cert = CertificateDer::from(der);
    anchor_from_trusted_cert(&cert).map(|a| a.to_owned()).map_err(|e| format!("{e:?}"))
}

/// `webpki::EndEntityCert::try_from`: whether the certificate reads.
#[verifier::external_body]
pub(crate) fn check_leaf(der: &[u8]) -> (r: Result<(), String>)
    ensures
        text::fault_view(r) == leaf_fault(der@),
{
    let cert = CertificateDer::from(der);
    EndEntityCert::try_from(&cert).map(|_| ()).map_err(|e| format!("{e:?}"))
}

/// `webpki::BorrowedCertRevocationList::from_der`: the list that an encoding gives.
#[verifier::external_body]
pub(crate) fn revocation_list<'a>(der: &'a [u8]) -> (r: Result<CertRevocationList<'a>, String>)
    ensures
        match r {
            Ok(l) => crl_of(der@) == Ok::<CertRevocationList<'a>, Seq<char>>(l),
            Err(e) => crl_of(der@) == Err::<CertRevocationList<'a>, Seq<char>>(e@),
        },
{
    let list = BorrowedCertRevocationList::from_der(der);
    list.map(CertRevocationList::from).map_err(|e| format!("{e:?}"))
}

/// `webpki::EndEntityCert::verify_for_usage`, with the algorithms of
/// `webpki::ring`, the key usage that is asked for where the certificate names
/// any, and the revocation lists where there are any: whether the chain of a leaf
/// that reads leads to a root at the given time and is not revoked. The result is
/// named after the encodings that the certificates, the roots and the lists were
/// read from.
#[verifier::external_body]
pub(crate) fn check_chain<'a>(
    leaf: &CertificateDer<'a>,
    mids: &Vec<CertificateDer<'a>>,
    anchors: &Vec<TrustAnchor<'static>>,
    crls: &Vec<&CertRevocationList<'a>>,
    algs: [ChainAlg; 9],
    usage: &'static [u8; 8],
    now: u64,
) -> (r: Result<(), String>)
    ensures
        forall|first: Seq<u8>, rest: Seq<Seq<u8>>, roots: Seq<Seq<u8>>, lists: Seq<Seq<u8>>|
            #![trigger leaf_fault(first), certificates_of(rest, mids@), anchors_of(roots, anchors@), crls_of(lists, crls@)]
            certificate_of(first) == *leaf && leaf_fault(first) is None && certificates_of(
                rest,
                mids@,
            ) && anchors_of(roots, anchors@) && crls_of(lists, crls@) ==> text::fault_view(r)
                == chain_fault(first, rest, roots, lists, algs@, usage@, now),
{
    let algs = algs.map(|a| match a {
        ChainAlg::Ed25519 => ED25519,
        ChainAlg::P256Sha256 => ECDSA_P256_SHA256,
        ChainAlg::P256Sha384 => ECDSA_P256_SHA384,
        ChainAlg::P384Sha256 => ECDSA_P384_SHA256,
        ChainAlg::P384Sha384 => ECDSA_P384_SHA384,
        ChainAlg::RsaSha256 => RSA_PKCS1_2048_8192_SHA256,
        ChainAlg::RsaSha384 => RSA_PKCS1_2048_8192_SHA384,
        ChainAlg::RsaSha512 => RSA_PKCS1_2048_8192_SHA512,
        ChainAlg::RsaPssSha256 => RSA_PSS_2048_8192_SHA256_LEGACY_KEY,
    });
    let revocation = RevocationOptionsBuilder::new(crls).ok().map(|b| b.build());
    let at = UnixTime::since_unix_epoch(Duration::from_secs(now));
    let path = EndEntityCert::try_from(leaf).and_then(|c| c.verify_for_usage(&algs, anchors, mids, at, KeyUsage::required_if_present(usage), revocation, None).map(|_| ()));
    path.map_err(|e| format!("{e:?}"))
}

/// `webpki::EndEntityCert::verify_signature`: whether the key of the certificate
/// made the signature.
#[verifier::external_body]
pub(crate) fn verify_with_leaf(leaf: &[u8], alg: PkiAlg, message: &[u8], signature: &[u8]) -> (r: bool)
    ensures
        r == leaf_verifies(leaf@, alg, message@, signature@),
{
    let cert = CertificateDer::from(leaf);
    let alg = match alg {
        PkiAlg::Ed25519 => ED25519,
        PkiAlg::Rs256 => RSA_PKCS1_2048_8192_SHA256,
        PkiAlg::Rs384 => RSA_PKCS1_2048_8192_SHA384,
        PkiAlg::Rs512 => RSA_PKCS1_2048_8192_SHA512,
        PkiAlg::Es256 => ECDSA_P256_SHA256,
        PkiAlg::Es384 => ECDSA_P384_SHA384,
    };
    EndEntityCert::try_from(&cert).is_ok_and(|c| c.verify_signature(alg, message, signature).is_ok())
}

/// `rustls_pki_types::SignatureVerificationAlgorithm::verify_signature` of the
/// algorithms of `webpki::ring`: whether the key made the signature.
#[verifier::external_body]
pub(crate) fn verify_with_key(alg: PkiAlg, key: &[u8], message: &[u8], signature: &[u8]) -> (r: bool)
    ensures
        r == key_verifies(alg, key@, message@, signature@),
{
    let alg = match alg {
        PkiAlg::Ed25519 => ED25519,
        PkiAlg::Rs256 => RSA_PKCS1_2048_8192_SHA256,
        PkiAlg::Rs384 => RSA_PKCS1_2048_8192_SHA384,
        PkiAlg::Rs512 => RSA_PKCS1_2048_8192_SHA512,
        PkiAlg::Es256 => ECDSA_P256_SHA256,
        PkiAlg::Es384 => ECDSA_P384_SHA384,
    };
    alg.verify_signature(key, message, signature).is_ok()
}

} // verus!
