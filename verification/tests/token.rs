use rolegate::claims::Claims;
use rolegate::codec::{decode, encode, TokenError};
use rolegate::SESSION_LIFETIME;

use base64::Engine;

fn key() -> Vec<u8> {
    b"0123456789abcdef".to_vec()
}

fn roles(names: &[&str]) -> Vec<String> {
    names.iter().map(|s| s.to_string()).collect()
}

#[test]
fn round_trip_preserves_subject_and_roles() {
    let k = key();
    let t = encode("alice", &roles(&["admin", "user"]), 1000, &k);
    let c = decode(t.as_str(), &k).expect("minted token must decode");
    assert_eq!(c.subject, "alice");
    assert_eq!(c.roles, roles(&["admin", "user"]));
    assert_eq!(c.issued_at, 1000);
    assert_eq!(c.expires_at, 1000 + SESSION_LIFETIME);
}

#[test]
fn round_trip_empty_roles_and_empty_subject() {
    let k = key();
    let t = encode("", &roles(&[]), 7, &k);
    let c = decode(t.as_str(), &k).expect("minted token must decode");
    assert_eq!(c.subject, "");
    assert!(c.roles.is_empty());
    assert!(!c.has_role("admin"));
}

#[test]
fn round_trip_unicode_subject() {
    let k = key();
    let t = encode("ålice宇宙", &roles(&["rôle"]), 42, &k);
    let c = decode(t.as_str(), &k).expect("minted token must decode");
    assert_eq!(c.subject, "ålice宇宙");
    assert!(c.has_role("rôle"));
}

/// The token must be exactly what the primitives produce: three dot-separated
/// base64url segments, HMAC-SHA256 over the first two.
#[test]
fn token_matches_manual_construction() {
    let k = key();
    let b64 = base64::engine::general_purpose::URL_SAFE_NO_PAD;
    let iat: u64 = 123456;
    let exp: u64 = iat + SESSION_LIFETIME;
    let payload = [
        b64.encode(iat.to_be_bytes()),
        b64.encode(exp.to_be_bytes()),
        b64.encode(b"alice"),
        b64.encode(b"admin"),
    ]
    .join(".");
    let signing = format!("HS256.{}", b64.encode(payload.as_bytes()));
    let mut m = <hmac::Hmac<sha2::Sha256> as hmac::KeyInit>::new_from_slice(&k).unwrap();
    hmac::Mac::update(&mut m, signing.as_bytes());
    let tag = hmac::Mac::finalize(m).into_bytes();
    let expected = format!("{}.{}", signing, b64.encode(tag));

    let got = encode("alice", &roles(&["admin"]), iat, &k);
    assert_eq!(got, expected);
}

#[test]
fn tampered_signature_is_bad_signature() {
    let k = key();
    let t = encode("alice", &roles(&["admin"]), 1000, &k);
    let sig_start = t.rfind('.').unwrap() + 1;
    let mut bytes = t.clone().into_bytes();
    // flip each signature byte to a different alphabet byte in turn
    for i in sig_start..bytes.len() {
        let orig = bytes[i];
        bytes[i] = if orig == b'A' { b'B' } else { b'A' };
        let tampered = String::from_utf8(bytes.clone()).unwrap();
        assert_eq!(decode(tampered.as_str(), &k), Err(TokenError::BadSignature));
        bytes[i] = orig;
    }
}

#[test]
fn truncated_signature_is_bad_signature() {
    let k = key();
    let t = encode("alice", &roles(&[]), 1000, &k);
    let shorter = &t[..t.len() - 1];
    assert_eq!(decode(shorter, &k), Err(TokenError::BadSignature));
}

#[test]
fn tampered_payload_is_bad_signature() {
    let k = key();
    let t = encode("alice", &roles(&["admin"]), 1000, &k);
    let first_dot = t.find('.').unwrap();
    let mut bytes = t.clone().into_bytes();
    let i = first_dot + 1;
    bytes[i] = if bytes[i] == b'A' { b'B' } else { b'A' };
    let tampered = String::from_utf8(bytes).unwrap();
    assert_eq!(decode(tampered.as_str(), &k), Err(TokenError::BadSignature));
}

#[test]
fn wrong_key_is_bad_signature() {
    let t = encode("alice", &roles(&["admin"]), 1000, &key());
    let other = b"fedcba9876543210".to_vec();
    assert_eq!(decode(t.as_str(), &other), Err(TokenError::BadSignature));
}

#[test]
fn malformed_tokens_are_malformed() {
    let k = key();
    assert_eq!(decode("", &k), Err(TokenError::Malformed));
    assert_eq!(decode("only-one-segment", &k), Err(TokenError::Malformed));
    assert_eq!(decode("two.segments", &k), Err(TokenError::Malformed));
    assert_eq!(decode("a.b.c.d", &k), Err(TokenError::Malformed));
    // wrong header, three segments
    assert_eq!(decode("XS256.abc.def", &k), Err(TokenError::Malformed));
}

#[test]
fn decode_does_not_reject_expired_tokens() {
    let k = key();
    let t = encode("alice", &roles(&[]), 0, &k);
    let c = decode(t.as_str(), &k).expect("expired tokens still decode");
    assert!(c.is_expired(0 + 604800));
    assert!(!c.is_expired(0 + 604799));
    assert!(c.is_expired(SESSION_LIFETIME + 5));
    assert_eq!(c.subject, "alice");
}

#[test]
fn expiry_boundary_is_exclusive() {
    let iat: u64 = 5000;
    let c = Claims {
        issued_at: iat,
        expires_at: iat + 604800,
        subject: "alice".to_string(),
        roles: roles(&[]),
    };
    assert!(c.is_expired(iat + 604800));
    assert!(!c.is_expired(iat + 604799));
    assert!(!c.is_expired(iat));
    assert!(c.is_expired(iat + 604801));
}

#[test]
fn has_role_is_exact_and_case_sensitive() {
    let c = Claims {
        issued_at: 0,
        expires_at: 1,
        subject: "alice".to_string(),
        roles: roles(&["admin", "editor"]),
    };
    assert!(c.has_role("admin"));
    assert!(c.has_role("editor"));
    assert!(!c.has_role("Admin"));
    assert!(!c.has_role("admi"));
    assert!(!c.has_role("administrator"));
    assert!(!c.has_role(""));
}

#[test]
fn is_claimed_user_compares_subjects() {
    let c = Claims {
        issued_at: 0,
        expires_at: 1,
        subject: "alice".to_string(),
        roles: roles(&[]),
    };
    assert!(c.is_claimed_user("alice"));
    assert!(!c.is_claimed_user("bob"));
}
