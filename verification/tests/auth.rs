//! Keys, tags, and who is let in.
use hmac::Mac;

use container::protocol::auth::{
    fresh, from_hex, hash_or_random, request_mac, sign_reply, sign_reply_at, sign_request,
    sign_request_at, sign_request_with, to_hex, verify_reply, verify_reply_at, verify_request,
    verify_request_at, AuthFailure, NoEntropy, ReplayGuard, Reply, HORIZON_NS, KEY_LEN, MAX_SKEW,
};

#[test]
fn phrase_derivation_is_deterministic_and_full_length() {
    let a = hash_or_random(Some("correct horse battery staple")).unwrap();
    let b = hash_or_random(Some("correct horse battery staple")).unwrap();
    assert_eq!(a, b, "same phrase must derive the same key on both sides");
    assert_eq!(a.len(), KEY_LEN);
}

#[test]
fn different_phrases_diverge() {
    let a = hash_or_random(Some("phrase-one")).unwrap();
    let b = hash_or_random(Some("phrase-two")).unwrap();
    assert_ne!(a, b);
}

#[test]
fn empty_or_absent_input_is_random() {
    assert_ne!(hash_or_random(None).unwrap(), hash_or_random(None).unwrap());
    assert_ne!(hash_or_random(Some("")).unwrap(), hash_or_random(Some("")).unwrap());
}

#[test]
fn known_answer_pins_the_parameters() {
    let key = hash_or_random(Some("container-kat")).unwrap();
    assert_eq!(&to_hex(&key[..16]), "91ded328b4d9003f54c750bd895040af");
}

fn key(fill: u8) -> Vec<u8> {
    vec![fill; KEY_LEN]
}

#[test]
fn a_key_in_hex_reads_back() {
    let key: Vec<u8> = (0..KEY_LEN).map(|i| (i * 7 % 256) as u8).collect();
    let text = format!("  {}\n", to_hex(&key));
    assert_eq!(from_hex(&text), Ok(key.clone()));
    assert_eq!(from_hex(&to_hex(&key).to_uppercase()), Ok(key));
}

#[test]
fn what_is_no_key_is_told() {
    assert_eq!(
        from_hex("abcd"),
        Err("a key is 2048 hex characters (1024 bytes); got 4".to_string())
    );
    let mut bad = to_hex(&key(1));
    bad.replace_range(10..12, "zz");
    assert_eq!(from_hex(&bad), Err("'zz' is not a hex byte".to_string()));
    let mut plus = to_hex(&key(0));
    plus.replace_range(0..2, "+f");
    assert_eq!(from_hex(&plus), Err("'+f' is not a hex byte".to_string()));
    assert!(from_hex(&"+f".repeat(KEY_LEN)).is_err());
}

#[test]
fn a_character_cut_in_two_is_no_pair() {
    let mut odd = String::from("a");
    odd.push('é');
    while odd.len() < 2 * KEY_LEN {
        odd.push('0');
    }
    assert_eq!(from_hex(&odd), Err("'aé' is not a hex byte".to_string()));
    let mut wide = String::from("€");
    while wide.len() < 2 * KEY_LEN {
        wide.push('0');
    }
    assert_eq!(from_hex(&wide), Err("'€' is not a hex byte".to_string()));
    assert_eq!(
        from_hex("é"),
        Err("a key is 2048 hex characters (1024 bytes); got 2".to_string())
    );
}

#[test]
fn freshness_ends_at_the_skew_on_both_sides() {
    let now = 10_000_000;
    assert!(fresh(now, now));
    assert!(fresh(now - MAX_SKEW, now));
    assert!(fresh(now + MAX_SKEW, now));
    assert!(!fresh(now - MAX_SKEW - 1, now));
    assert!(!fresh(now + MAX_SKEW + 1, now));
}

#[test]
fn a_signed_request_is_let_in_once() {
    let key = key(3);
    let mut guard = ReplayGuard::new();
    let request = sign_request(&key, b"hello".to_vec()).unwrap();
    assert_eq!(verify_request(&key, &request, &mut guard), Ok(&b"hello"[..]));
    assert_eq!(verify_request(&key, &request, &mut guard), Err(AuthFailure::Replay));
}

#[test]
fn a_request_is_signed_where_a_nonce_was_drawn() {
    let key = key(3);
    assert_eq!(
        sign_request_with(&key, Ok(vec![9u8; 16]), 7, b"act".to_vec()),
        Ok(sign_request_at(&key, vec![9u8; 16], 7, b"act".to_vec()))
    );
    assert_eq!(sign_request_with(&key, Err(NoEntropy), 7, b"act".to_vec()), Err(NoEntropy));
}

#[test]
fn each_refusal_has_its_reason() {
    let key = key(3);
    let now = 1_700_000_000_000;
    let good = sign_request_at(&key, vec![9u8; 16], now, b"act".to_vec());
    let mut guard = ReplayGuard::new();

    assert_eq!(
        verify_request_at(&[4u8; KEY_LEN], &good, &mut guard, now, 0),
        Err(AuthFailure::BadKey)
    );
    assert_eq!(
        verify_request_at(&key, &good, &mut guard, now + MAX_SKEW + 1, 0),
        Err(AuthFailure::Stale)
    );
    let short = sign_request_at(&key, vec![9u8; 15], now, b"act".to_vec());
    assert_eq!(
        verify_request_at(&key, &short, &mut guard, now, 0),
        Err(AuthFailure::Malformed)
    );

    // None of the refusals above has used the nonce up.
    assert_eq!(verify_request_at(&key, &good, &mut guard, now, 0), Ok(&b"act"[..]));
    assert_eq!(verify_request_at(&key, &good, &mut guard, now, 1), Err(AuthFailure::Replay));
}

#[test]
fn tampering_is_noticed() {
    let key = key(3);
    let now = 1_700_000_000_000;
    let mut guard = ReplayGuard::new();
    let mut request = sign_request_at(&key, vec![1u8; 16], now, b"act".to_vec());
    request.payload.push(b'!');
    assert_eq!(verify_request_at(&key, &request, &mut guard, now, 0), Err(AuthFailure::BadKey));
    let mut request = sign_request_at(&key, vec![1u8; 16], now, b"act".to_vec());
    request.timestamp_ms += 1;
    assert_eq!(verify_request_at(&key, &request, &mut guard, now, 0), Err(AuthFailure::BadKey));
}

#[test]
fn a_reply_answers_one_request_only() {
    let key = key(5);
    let reply = sign_reply(&key, &[1u8; 16], b"done".to_vec());
    assert_eq!(verify_reply(&key, &[1u8; 16], &reply), Ok(&b"done"[..]));
    assert_eq!(verify_reply(&key, &[2u8; 16], &reply), Err(AuthFailure::BadKey));
    let old = sign_reply_at(&key, &[1u8; 16], 1000, b"done".to_vec());
    assert_eq!(
        verify_reply_at(&key, &[1u8; 16], &old, 1001 + MAX_SKEW),
        Err(AuthFailure::Stale)
    );
    let refused = Reply::Rejected(AuthFailure::Replay);
    assert_eq!(verify_reply(&key, &[1u8; 16], &refused), Err(AuthFailure::Replay));
}

#[test]
fn auth_failures_are_told_apart() {
    let all = [
        AuthFailure::BadKey,
        AuthFailure::Stale,
        AuthFailure::Replay,
        AuthFailure::Malformed,
    ];
    for (i, a) in all.iter().enumerate() {
        assert!(!a.text().is_empty());
        for b in &all[i + 1..] {
            assert_ne!(a.text(), b.text());
        }
    }
}

#[test]
fn tags_cover_the_nonce_the_time_and_the_payload() {
    let mut mac = <hmac::Hmac<sha2::Sha256> as Mac>::new_from_slice(b"key").unwrap();
    mac.update(&[1u8; 16]);
    mac.update(&7u64.to_be_bytes());
    mac.update(b"payload");
    let expected = mac.finalize().into_bytes().to_vec();
    assert_eq!(request_mac(b"key", &[1u8; 16], 7, b"payload"), expected);
    assert_ne!(request_mac(b"key", &[1u8; 16], 8, b"payload"), expected);
}

#[test]
fn nonces_are_remembered_for_twice_the_skew() {
    let mut guard = ReplayGuard::new();
    assert!(guard.remember(&[1u8; 16]));
    assert!(!guard.remember(&[1u8; 16]));
    assert!(guard.remember(&[2u8; 16]));
    let mut guard = ReplayGuard::new();
    let twice_the_skew = 2 * MAX_SKEW as u128 * 1_000_000;
    assert!(HORIZON_NS > twice_the_skew);
    assert!(guard.remember_at(&[1u8; 16], 0));
    assert!(!guard.remember_at(&[1u8; 16], twice_the_skew));
    assert!(guard.remember_at(&[1u8; 16], twice_the_skew + HORIZON_NS + 1));
}

#[test]
fn a_captured_request_is_of_no_use_however_late() {
    let key = key(3);
    let now = 1_700_000_000_000;
    let ahead = sign_request_at(&key, vec![9u8; 16], now + MAX_SKEW, b"act".to_vec());
    for late in [0, 1, MAX_SKEW, 2 * MAX_SKEW - 1, 2 * MAX_SKEW, 2 * MAX_SKEW + 1] {
        // The clock of the nonces may stand just before the next millisecond.
        for beyond in [0, 999_999] {
            let mut guard = ReplayGuard::new();
            assert!(verify_request_at(&key, &ahead, &mut guard, now, 5).is_ok());
            let later_ns = 5 + late as u128 * 1_000_000 + beyond;
            let again = verify_request_at(&key, &ahead, &mut guard, now + late, later_ns);
            let stale = late > 2 * MAX_SKEW;
            let expected = if stale { AuthFailure::Stale } else { AuthFailure::Replay };
            assert_eq!(again, Err(expected), "{late} ms later");
        }
    }
}
