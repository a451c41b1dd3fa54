//! The identity that a shared key gives.
use container::protocol::auth::hash_or_random;
use container::protocol::tls::{cert_ed25519_key, ed25519_key_in, pinned, CertFailure, Identity};

#[test]
fn identity_is_deterministic() {
    let key = hash_or_random(Some("pin-me")).unwrap();
    assert_eq!(Identity::derive(&key).public_key(), Identity::derive(&key).public_key());
}

#[test]
fn the_private_key_is_written_as_the_standard_says() {
    let identity = Identity { seed: [7u8; 32] };
    let der = identity.pkcs8_der();
    assert_eq!(der.len(), 48);
    assert_eq!(&der[..4], &[0x30, 0x2e, 0x02, 0x01]);
    assert_eq!(&der[12..16], &[0x04, 0x22, 0x04, 0x20]);
    assert_eq!(&der[16..], &[7u8; 32]);
}

/// A pair of the standard's own test vectors.
#[test]
fn public_keys_are_those_of_the_standard() {
    let identity = Identity {
        seed: [
            0x9d, 0x61, 0xb1, 0x9d, 0xef, 0xfd, 0x5a, 0x60, 0xba, 0x84, 0x4a, 0xf4, 0x92, 0xec,
            0x2c, 0xc4, 0x44, 0x49, 0xc5, 0x69, 0x7b, 0x32, 0x69, 0x19, 0x70, 0x3b, 0xac, 0x03,
            0x1c, 0xae, 0x7f, 0x60,
        ],
    };
    assert_eq!(
        identity.public_key(),
        [
            0xd7, 0x5a, 0x98, 0x01, 0x82, 0xb1, 0x0a, 0xb7, 0xd5, 0x4b, 0xfe, 0xd3, 0xc9, 0x64,
            0x07, 0x3a, 0x0e, 0xe1, 0x72, 0xf3, 0xda, 0xa6, 0x23, 0x25, 0xaf, 0x02, 0x1a, 0x68,
            0xf7, 0x07, 0x51, 0x1a,
        ]
    );
}

#[test]
fn holders_of_one_key_accept_each_other() {
    let a = Identity::derive(&[1u8; 1024]);
    let b = Identity::derive(&[1u8; 1024]);
    let (cert, key) = a.cert_and_key().unwrap();
    assert_eq!(key, a.pkcs8_der());
    assert_eq!(cert_ed25519_key(&cert), Some(a.public_key().to_vec()));
    assert_eq!(b.check_peer(&cert, "server"), Ok(()));
    assert_eq!(a.cert_and_key().unwrap().0, cert);
}

#[test]
fn holders_of_another_key_are_refused() {
    let a = Identity::derive(&[1u8; 1024]);
    let b = Identity::derive(&[2u8; 1024]);
    let (cert, _) = a.cert_and_key().unwrap();
    assert_eq!(
        b.check_peer(&cert, "client"),
        Err("client key does not match the pinned identity".to_string())
    );
    assert_eq!(
        b.check_peer(b"no certificate", "server"),
        Err("server key does not match the pinned identity".to_string())
    );
}

#[test]
fn only_an_ed25519_key_of_its_length_counts() {
    let oid = "1.3.101.112".to_string();
    assert_eq!(ed25519_key_in(Some((oid.clone(), vec![5u8; 32]))), Some(vec![5u8; 32]));
    assert_eq!(ed25519_key_in(Some((oid.clone(), vec![5u8; 31]))), None);
    assert_eq!(ed25519_key_in(Some(("1.3.101.110".to_string(), vec![5u8; 32]))), None);
    assert_eq!(ed25519_key_in(None), None);
    assert_eq!(pinned(&[5u8; 32], Some((oid.clone(), vec![5u8; 32])), "server"), Ok(()));
    assert!(pinned(&[6u8; 32], Some((oid, vec![5u8; 32])), "server").is_err());
}

#[test]
fn certificate_failures_say_what_was_being_done() {
    assert_eq!(CertFailure::Key("x".to_string()).text(), "loading the derived key: x");
    assert_eq!(CertFailure::Sign("x".to_string()).text(), "self-signing the cert: x");
}
