//! Certificates and private keys, from the bytes of their files.
//!
//! A certificate file holds one DER certificate, or PEM text with any number
//! of certificates; a key file holds one DER PKCS#8 key, or PEM text whose
//! first private key counts. The pair kept in the data directory is a DER
//! certificate and a DER key of any kind, and is made when missing. Reading
//! and writing the files are done by the caller; this module parses and
//! decides.

use vstd::prelude::*;

use rustls::pki_types::pem::PemObject;

verus! {

/// The kinds of private key.
#[derive(Debug, Clone, Copy, PartialEq, Eq)]
pub enum KeyKind {
    /// An RSA key (PKCS#1).
    Pkcs1,
    /// An elliptic-curve key (SEC1).
    Sec1,
    /// A key in PKCS#8.
    Pkcs8,
}

/// Why a certificate or a key could not be had.
#[derive(Debug, Clone, Copy, PartialEq, Eq)]
pub enum CertError {
    /// The certificate file is not valid PEM.
    InvalidPem,
    /// The key file holds no private key in PEM.
    NoPrivateKey,
    /// The stored key is of no known kind.
    UnknownKeyFormat,
    /// No self-signed pair could be made.
    Generation,
}

/// The DER certificates of the PEM text `pem`, in order; `None` when the text
/// is not valid PEM.
pub uninterp spec fn pem_certificates(pem: Seq<u8>) -> Option<Seq<Seq<u8>>>;

/// The first private key of the PEM text `pem`, with its kind and DER bytes;
/// `None` when there is none or the text is not valid PEM.
pub uninterp spec fn pem_private_key(pem: Seq<u8>) -> Option<(KeyKind, Seq<u8>)>;

/// The kind of the DER private key `der`, as its encoding shows; `None` when
/// it is of no known kind.
pub uninterp spec fn der_key_kind(der: Seq<u8>) -> Option<KeyKind>;

/// The bytes of each of a list of DER items.
pub open spec fn ders_view(v: Seq<Vec<u8>>) -> Seq<Seq<u8>> {
    v.map_values(|c: Vec<u8>| c@)
}

/// `CertificateDer::pem_slice_iter`, collected: the certificates of the PEM
/// text, each as its DER bytes, or `None` when a section fails to decode.
#[verifier::external_body]
fn parse_pem_certificates(pem: &[u8]) -> (r: Option<Vec<Vec<u8>>>)
    ensures
        (r is Some) == (pem_certificates(pem@) is Some),
        r matches Some(v) ==> ders_view(v@) == pem_certificates(pem@)->0,
{
    rustls::pki_types::CertificateDer::pem_slice_iter(pem)
        .map(|c| c.map(|c| c.as_ref().to_vec()))
        .collect::<Result<Vec<_>, _>>()
        .ok()
}

/// `PrivateKeyDer::from_pem_slice`: the first private key of the PEM text,
/// with its kind and DER bytes, or `None`.
#[verifier::external_body]
fn parse_pem_private_key(pem: &[u8]) -> (r: Option<(KeyKind, Vec<u8>)>)
    ensures
        match pem_private_key(pem@) {
            Some((kind, der)) => r matches Some((k, d)) && k == kind && d@ == der,
            None => r is None,
        },
{
    match rustls::pki_types::PrivateKeyDer::from_pem_slice(pem) {
        Ok(rustls::pki_types::PrivateKeyDer::Pkcs1(k)) => Some((KeyKind::Pkcs1, k.secret_pkcs1_der().to_vec())),
        Ok(rustls::pki_types::PrivateKeyDer::Sec1(k)) => Some((KeyKind::Sec1, k.secret_sec1_der().to_vec())),
        Ok(rustls::pki_types::PrivateKeyDer::Pkcs8(k)) => Some((KeyKind::Pkcs8, k.secret_pkcs8_der().to_vec())),
        _ => None,
    }
}

/// `PrivateKeyDer::try_from` on DER bytes: the kind of the key, or `None`
/// when it is of no known kind. (The key it builds keeps the bytes as they
/// are.)
#[verifier::external_body]
fn classify_der_key(der: &[u8]) -> (k: Option<KeyKind>)
    ensures
        k == der_key_kind(der@),
{
    match rustls::pki_types::PrivateKeyDer::try_from(der) {
        Ok(rustls::pki_types::PrivateKeyDer::Pkcs1(_)) => Some(KeyKind::Pkcs1),
        Ok(rustls::pki_types::PrivateKeyDer::Sec1(_)) => Some(KeyKind::Sec1),
        Ok(rustls::pki_types::PrivateKeyDer::Pkcs8(_)) => Some(KeyKind::Pkcs8),
        _ => None,
    }
}

/// The public point of a P-256 key in the PKCS#8 form that `ring` writes: its
/// last 65 bytes, the uncompressed point.
pub open spec fn p256_public_point(key: Seq<u8>) -> Seq<u8> {
    key.skip(key.len() - 65)
}

/// Whether `bytes` holds `part` somewhere, byte for byte.
pub open spec fn holds_bytes(bytes: Seq<u8>, part: Seq<u8>) -> bool {
    exists|i: int|
        0 <= i && i + part.len() <= bytes.len() && #[trigger] bytes.subrange(i, i + part.len())
            == part
}

/// `rcgen::generate_simple_self_signed` for the given names: a fresh
/// certificate and its key, each as DER, or `None` when none could be made.
/// The key is `KeyPair::serialize_der`, which rcgen documents as PKCS#8 DER;
/// such a key opens with a SEQUENCE, a one-byte version INTEGER and the
/// algorithm's SEQUENCE, which is what `PrivateKeyDer::try_from` takes for
/// PKCS#8. The certificate is the DER of an X.509 certificate (rcgen's
/// `sign_der` writes an outer SEQUENCE whose content opens with the
/// to-be-signed SEQUENCE), so it is not empty, opens with the SEQUENCE tag
/// `0x30`, and `PrivateKeyDer::try_from` takes it for no kind of key, as all
/// of those open their content with an INTEGER. The key is rcgen's default,
/// ECDSA P-256: `ring`'s `EcdsaKeyPair::generate_pkcs8` writes the PKCS#8
/// document with the 65-byte uncompressed public point (tag `0x04`) at its
/// end, and the certificate's SubjectPublicKeyInfo carries the same public
/// point (`der_bytes` of the key pair) as its BIT STRING, so the certificate
/// holds the key's last 65 bytes. The key pair is random, so nothing more is
/// stated of the bytes.
#[verifier::external_body]
fn generate_self_signed(subject_alt_names: Vec<String>) -> (r: Option<(Vec<u8>, Vec<u8>)>)
    ensures
        r matches Some((cert, key)) ==> {
            &&& der_key_kind(key@) == Some(KeyKind::Pkcs8)
            &&& cert@.len() > 0
            &&& cert@[0] == 0x30u8
            &&& der_key_kind(cert@) is None
            &&& key@.len() >= 65
            &&& key@[key@.len() - 65] == 0x04u8
            &&& holds_bytes(cert@, p256_public_point(key@))
        },
{
    match rcgen::generate_simple_self_signed(subject_alt_names) {
        Ok(c) => Some((c.cert.der().to_vec(), c.signing_key.serialize_der())),
        Err(_) => None,
    }
}

/// The certificates of a certificate file's contents: the one certificate of
/// a DER file, or the certificates of a PEM file.
pub fn certificates_of(is_der: bool, contents: Vec<u8>) -> (r: Result<Vec<Vec<u8>>, CertError>)
    ensures
        is_der ==> (r matches Ok(v) && ders_view(v@) == seq![contents@]),
        !is_der ==> match pem_certificates(contents@) {
            Some(certs) => r matches Ok(v) && ders_view(v@) == certs,
            None => r == Err::<Vec<Vec<u8>>, CertError>(CertError::InvalidPem),
        },
{
    if is_der {
        let ghost c = contents@;
        let mut v: Vec<Vec<u8>> = Vec::new();
        v.push(contents);
        assert(ders_view(v@) =~= seq![c]);
        Ok(v)
    } else {
        match parse_pem_certificates(contents.as_slice()) {
            Some(v) => Ok(v),
            None => Err(CertError::InvalidPem),
        }
    }
}

/// The private key of a key file's contents: a DER file holds a PKCS#8 key
/// as it is; a PEM file gives its first private key.
pub fn private_key_of(is_der: bool, contents: Vec<u8>) -> (r: Result<(KeyKind, Vec<u8>), CertError>)
    ensures
        is_der ==> (r matches Ok((k, d)) && k == KeyKind::Pkcs8 && d@ == contents@),
        !is_der ==> match pem_private_key(contents@) {
            Some((kind, der)) => r matches Ok((k, d)) && k == kind && d@ == der,
            None => r == Err::<(KeyKind, Vec<u8>), CertError>(CertError::NoPrivateKey),
        },
{
    if is_der {
        Ok((KeyKind::Pkcs8, contents))
    } else {
        match parse_pem_private_key(contents.as_slice()) {
            Some(key) => Ok(key),
            None => Err(CertError::NoPrivateKey),
        }
    }
}

/// The stored self-signed pair: the DER certificate as it is, and the DER key
/// with its kind; refused when the key is of no known kind.
pub fn stored_pair(cert: Vec<u8>, key: Vec<u8>) -> (r: Result<(Vec<u8>, KeyKind, Vec<u8>), CertError>)
    ensures
        match der_key_kind(key@) {
            Some(kind) => r matches Ok((c, k, d)) && c@ == cert@ && k == kind && d@ == key@,
            None => r == Err::<(Vec<u8>, KeyKind, Vec<u8>), CertError>(
                CertError::UnknownKeyFormat,
            ),
        },
{
    match classify_der_key(key.as_slice()) {
        Some(kind) => Ok((cert, kind, key)),
        None => Err(CertError::UnknownKeyFormat),
    }
}

/// The names that the self-signed certificate is made for: `localhost` alone.
pub fn self_signed_names() -> (v: Vec<String>)
    ensures
        v@.len() == 1,
        v@[0]@ == "localhost"@,
{
    vec![String::from_str("localhost")]
}

/// A new self-signed pair for the names of [`self_signed_names`]: the DER
/// certificate made with the key (not empty, a DER SEQUENCE, no key of any
/// kind, and carrying the key's public point), and its PKCS#8 key, which
/// [`stored_pair`] reads back as it is. The key pair is random; making it may
/// fail.
pub fn new_self_signed() -> (r: Result<(Vec<u8>, KeyKind, Vec<u8>), CertError>)
    ensures
        r matches Ok((c, k, d)) ==> {
            &&& k == KeyKind::Pkcs8
            &&& der_key_kind(d@) == Some(k)
            &&& c@.len() > 0
            &&& c@[0] == 0x30u8
            &&& der_key_kind(c@) is None
            &&& d@.len() >= 65
            &&& d@[d@.len() - 65] == 0x04u8
            &&& holds_bytes(c@, p256_public_point(d@))
        },
        r matches Err(e) ==> e == CertError::Generation,
{
    let names = self_signed_names();
    match generate_self_signed(names) {
        Some((cert, key)) => Ok((cert, KeyKind::Pkcs8, key)),
        None => Err(CertError::Generation),
    }
}

/// The certificate and the key of a new pair are never confused: the
/// certificate is no key of any kind, the key is one, so the two differ and
/// reading the pair back as [`stored_pair`] does keeps the key's kind.
pub proof fn lemma_new_pair_apart(cert: Seq<u8>, key: Seq<u8>)
    requires
        der_key_kind(cert) is None,
        der_key_kind(key) == Some(KeyKind::Pkcs8),
    ensures
        cert != key,
{
}

/// A certificate that carries a key's public point is at least as long as
/// that point: an empty or truncated certificate carries no key.
pub proof fn lemma_carried_point_fits(cert: Seq<u8>, key: Seq<u8>)
    requires
        key.len() >= 65,
        holds_bytes(cert, p256_public_point(key)),
    ensures
        p256_public_point(key).len() == 65,
        cert.len() >= 65,
{
}

} // verus!

