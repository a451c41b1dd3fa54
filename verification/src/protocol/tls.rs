//! Mutual TLS that is anchored in the shared key.
//!
//! Both ends derive one and the same Ed25519 identity from the key that they share,
//! and each pins the other's public key to it: a handshake completes only where
//! both prove that they hold the private key. So holding the shared key, and
//! nothing else, authenticates a connection in both directions.
use vstd::prelude::*;

use hkdf::Hkdf;
use sha2::Sha256;

use crate::{bytes, text};

verus! {

pub const SEED_LEN: usize = 32;

/// Sets this derivation apart from any other from the same key. Both ends must
/// derive the same bytes, so it can only change on both.
pub open spec fn identity_label() -> Seq<char> {
    "container-tls-identity-v1"@
}

/// The algorithm identifier of Ed25519.
pub open spec fn ed25519_oid() -> Seq<char> {
    "1.3.101.112"@
}

/// What stands before the seed in a private key of this kind, as PKCS #8 writes it.
pub open spec fn pkcs8_prefix() -> Seq<u8> {
    seq![
        0x30, 0x2e, 0x02, 0x01, 0x00, 0x30, 0x05, 0x06, 0x03, 0x2b, 0x65, 0x70, 0x04, 0x22, 0x04,
        0x20,
    ]
}

/// HKDF over SHA-256 without a salt: the first 32 bytes that a key and a label give.
pub uninterp spec fn hkdf_sha256(key: Seq<u8>, label: Seq<u8>) -> Seq<u8>;

/// `hkdf::Hkdf::new` without a salt, and `expand` to 32 bytes, which is within what
/// it can give. The result is a function of the key and the label.
#[verifier::external_body]
fn expand(key: &[u8], label: &[u8]) -> (r: [u8; 32])
    ensures
        r@ == hkdf_sha256(key@, label@),
{
    let mut out = [0u8; SEED_LEN];
    Hkdf::<Sha256>::new(None, key).expand(label, &mut out).expect("32 bytes can be had");
    out
}

/// The Ed25519 public key of a seed.
pub uninterp spec fn ed25519_public(seed: Seq<u8>) -> Seq<u8>;

/// `ed25519_dalek::SigningKey::from_bytes`, and the bytes of its `verifying_key`.
/// The result is a function of the seed.
#[verifier::external_body]
fn public_of(seed: &[u8; 32]) -> (r: [u8; 32])
    ensures
        r@ == ed25519_public(seed@),
{
    ed25519_dalek::SigningKey::from_bytes(seed).verifying_key().to_bytes()
}

/// The public key that a certificate is for: the identifier of its algorithm, in
/// dotted decimals, and its bytes. None where the bytes are no certificate.
pub uninterp spec fn certified_key(cert: Seq<u8>) -> Option<(Seq<char>, Seq<u8>)>;

/// `x509_parser::parse_x509_certificate`, and of what it finds the subject's public
/// key. The result is a function of the bytes.
#[verifier::external_body]
fn read_certificate(cert: &[u8]) -> (r: Option<(String, Vec<u8>)>)
    ensures
        match r {
            Some(found) => certified_key(cert@) == Some((found.0@, found.1@)),
            None => certified_key(cert@) is None,
        },
{
    match x509_parser::parse_x509_certificate(cert) {
        Ok((_, parsed)) => {
            let key = parsed.public_key();
            Some((key.algorithm.algorithm.to_id_string(), key.subject_public_key.data.to_vec()))
        },
        Err(_) => None,
    }
}

/// Why a certificate could not be made.
#[derive(Debug, PartialEq, Eq)]
pub enum CertFailure {
    Key(String),
    Sign(String),
}

impl CertFailure {
    pub fn text(&self) -> (r: String)
        ensures
            r@ == match *self {
                CertFailure::Key(why) => "loading the derived key: "@ + why@,
                CertFailure::Sign(why) => "self-signing the cert: "@ + why@,
            },
    {
        match self {
            CertFailure::Key(why) => text::cat2("loading the derived key: ", why),
            CertFailure::Sign(why) => text::cat2("self-signing the cert: ", why),
        }
    }
}

/// A certificate for a name, signed with the key that it is for. None where the
/// bytes are no such key or the name cannot stand in a certificate.
pub uninterp spec fn self_signed(pkcs8: Seq<u8>, name: Seq<char>) -> Option<Seq<u8>>;

/// `rcgen::KeyPair::from_pkcs8_der_and_sign_algo` for Ed25519, and a certificate of
/// `rcgen::CertificateParams::new` for one name, `self_signed` with that key. Its
/// serial number is a digest of the key, its validity is fixed and its signature is
/// deterministic, so the result is a function of the key and the name. The
/// certificate is for the public key of the seed that the private key holds.
#[verifier::external_body]
fn certify(pkcs8: &[u8], name: &str) -> (r: Result<Vec<u8>, CertFailure>)
    requires
        pkcs8@.len() == 48,
        pkcs8@.take(16) == pkcs8_prefix(),
    ensures
        match r {
            Ok(cert) => self_signed(pkcs8@, name@) == Some(cert@),
            Err(_) => self_signed(pkcs8@, name@) is None,
        },
        r matches Ok(cert) ==> certified_key(cert@) == Some(
            (ed25519_oid(), ed25519_public(pkcs8@.skip(16))),
        ) && ed25519_public(pkcs8@.skip(16)).len() == 32,
{
    let der = rustls::pki_types::PrivatePkcs8KeyDer::from(pkcs8);
    let key = rcgen::KeyPair::from_pkcs8_der_and_sign_algo(&der, &rcgen::PKCS_ED25519)
        .map_err(|e| CertFailure::Key(e.to_string()))?;
    let cert = rcgen::CertificateParams::new(vec![name.to_string()])
        .and_then(|params| params.self_signed(&key))
        .map_err(|e| CertFailure::Sign(e.to_string()))?;
    Ok(cert.der().to_vec())
}

/// An identity, by its seed. Both ends derive the same one from the shared key, so
/// a certificate for it is what the peer expects.
pub struct Identity {
    pub seed: [u8; SEED_LEN],
}

/// The seed that a shared key gives.
pub open spec fn seed_of(auth_key: Seq<u8>) -> Seq<u8> {
    hkdf_sha256(auth_key, vstd::utf8::encode_utf8(identity_label()))
}

/// The public key that a shared key stands for.
pub open spec fn identity_of(auth_key: Seq<u8>) -> Seq<u8> {
    ed25519_public(seed_of(auth_key))
}

impl Identity {
    /// The identity that a shared key gives.
    pub fn derive(auth_key: &[u8]) -> (r: Identity)
        ensures
            r.seed@ == seed_of(auth_key@),
    {
        let label: &str = "container-tls-identity-v1";
        Identity { seed: expand(auth_key, label.as_bytes()) }
    }

    /// The public key that each end expects of the other.
    pub fn public_key(&self) -> (r: [u8; 32])
        ensures
            r@ == ed25519_public(self.seed@),
    {
        public_of(&self.seed)
    }

    /// The private key, as PKCS #8 writes it.
    pub fn pkcs8_der(&self) -> (r: Vec<u8>)
        ensures
            r@ == pkcs8_prefix() + self.seed@,
    {
        let mut der: Vec<u8> = vec![
            0x30, 0x2e, 0x02, 0x01, 0x00, 0x30, 0x05, 0x06, 0x03, 0x2b, 0x65, 0x70, 0x04, 0x22,
            0x04, 0x20,
        ];
        assert(der@ =~= pkcs8_prefix());
        der.extend_from_slice(self.seed.as_slice());
        assert(der@ =~= pkcs8_prefix() + self.seed@);
        der
    }

    /// A certificate for this identity, and its private key. The name in it means
    /// nothing: the peer looks at the key alone.
    pub fn cert_and_key(&self) -> (r: Result<(Vec<u8>, Vec<u8>), CertFailure>)
        ensures
            match r {
                Ok(pair) => {
                    &&& self_signed(pkcs8_prefix() + self.seed@, "container"@) == Some(pair.0@)
                    &&& pair.1@ == pkcs8_prefix() + self.seed@
                    &&& accepts(ed25519_public(self.seed@), certified_key(pair.0@))
                },
                Err(_) => self_signed(pkcs8_prefix() + self.seed@, "container"@) is None,
            },
    {
        let key: Vec<u8> = self.pkcs8_der();
        proof {
            assert(key@.take(16) =~= pkcs8_prefix());
            assert(key@.skip(16) =~= self.seed@);
        }
        match certify(&key, "container") {
            Ok(cert) => Ok((cert, key)),
            Err(e) => Err(e),
        }
    }

    /// Whether a peer's certificate is for this identity. `peer` is what the peer is
    /// called where it is not.
    pub fn check_peer(&self, cert: &[u8], peer: &str) -> (r: Result<(), String>)
        ensures
            if accepts(ed25519_public(self.seed@), certified_key(cert@)) {
                r is Ok
            } else {
                r matches Err(e) && e@ == peer@ + " key does not match the pinned identity"@
            },
    {
        pinned(&self.public_key(), read_certificate(cert), peer)
    }
}

/// The Ed25519 key of a certificate, by what was found in it: none where its key is
/// of another kind or another length.
pub open spec fn ed25519_key(found: Option<(Seq<char>, Seq<u8>)>) -> Option<Seq<u8>> {
    match found {
        Some(key) => if key.0 == ed25519_oid() && key.1.len() == 32 {
            Some(key.1)
        } else {
            None
        },
        None => None,
    }
}

/// Whether a certificate is accepted where a public key is expected.
pub open spec fn accepts(expected: Seq<u8>, found: Option<(Seq<char>, Seq<u8>)>) -> bool {
    ed25519_key(found) == Some(expected)
}

/// What was found in a certificate, as texts.
pub open spec fn found_view(found: Option<(String, Vec<u8>)>) -> Option<(Seq<char>, Seq<u8>)> {
    match found {
        Some(key) => Some((key.0@, key.1@)),
        None => None,
    }
}

/// The Ed25519 key among what was found in a certificate.
pub fn ed25519_key_in(found: Option<(String, Vec<u8>)>) -> (r: Option<Vec<u8>>)
    ensures
        match r {
            Some(key) => ed25519_key(found_view(found)) == Some(key@),
            None => ed25519_key(found_view(found)) is None,
        },
{
    match found {
        Some(key) => {
            if text::same(&key.0, "1.3.101.112") && key.1.len() == SEED_LEN {
                Some(key.1)
            } else {
                None
            }
        },
        None => None,
    }
}

/// The Ed25519 key that a certificate is for: the one in its own place, not one
/// that merely occurs somewhere in it.
pub fn cert_ed25519_key(cert: &[u8]) -> (r: Option<Vec<u8>>)
    ensures
        match r {
            Some(key) => ed25519_key(certified_key(cert@)) == Some(key@),
            None => ed25519_key(certified_key(cert@)) is None,
        },
{
    ed25519_key_in(read_certificate(cert))
}

/// Whether what was found in a peer's certificate is the expected key.
pub fn pinned(expected: &[u8; 32], found: Option<(String, Vec<u8>)>, peer: &str) -> (r: Result<
    (),
    String,
>)
    ensures
        if accepts(expected@, found_view(found)) {
            r is Ok
        } else {
            r matches Err(e) && e@ == peer@ + " key does not match the pinned identity"@
        },
{
    if let Some(key) = ed25519_key_in(found) {
        if bytes::same_bytes(&key, expected.as_slice()) {
            return Ok(());
        }
    }
    Err(text::cat2(peer, " key does not match the pinned identity"))
}

/// Whoever holds the same key is accepted: a certificate that suits the identity
/// which one end derives from it suits the other end's too.
pub proof fn holders_of_one_key_accept_each_other(
    auth_key: Seq<u8>,
    one: Identity,
    other: Identity,
    cert: Seq<u8>,
)
    requires
        one.seed@ == seed_of(auth_key),
        other.seed@ == seed_of(auth_key),
        accepts(ed25519_public(one.seed@), certified_key(cert)),
    ensures
        accepts(ed25519_public(other.seed@), certified_key(cert)),
        accepts(identity_of(auth_key), certified_key(cert)),
{
}

/// A certificate is accepted exactly where it is for an Ed25519 key, and that key is
/// the expected one.
pub proof fn only_the_pinned_key_is_accepted(
    expected: Seq<u8>,
    found: Option<(Seq<char>, Seq<u8>)>,
)
    requires
        expected.len() == 32,
    ensures
        accepts(expected, found) <==> found == Some((ed25519_oid(), expected)),
{
}

/// Two ends, each with a certificate for its own identity, accept each other exactly
/// where the keys that they hold stand for one identity. No certificate is never
/// accepted.
pub proof fn ends_accept_each_other_by_identity(
    server_key: Seq<u8>,
    client_key: Seq<u8>,
    server_cert: Seq<u8>,
    client_cert: Seq<u8>,
)
    requires
        accepts(identity_of(server_key), certified_key(server_cert)),
        accepts(identity_of(client_key), certified_key(client_cert)),
    ensures
        accepts(identity_of(server_key), certified_key(client_cert)) <==> identity_of(server_key)
            == identity_of(client_key),
        accepts(identity_of(client_key), certified_key(server_cert)) <==> identity_of(server_key)
            == identity_of(client_key),
        server_key == client_key ==> accepts(identity_of(server_key), certified_key(client_cert)),
        !accepts(identity_of(server_key), None),
{
}

} // verus!
