use hmac::{Hmac, Mac};
use jwt::{SignWithKey, VerifyWithKey};
use rusty_chat::auth::{
    check_outcome, hash_outcome, hash_password, issue_token, match_outcome, sign_outcome,
    verify_password, verify_token, AuthError, HashError, SignError, HASH_COST,
};
use std::collections::BTreeMap;

const SECRET: &str = "SECRETO";

#[test]
fn a_hash_belongs_to_its_password() {
    let hash = hash_password("hunter2").unwrap();
    assert!(verify_password("hunter2", &hash));
    assert!(!verify_password("hunter3", &hash));
}

#[test]
fn a_hash_is_not_the_password() {
    let hash = hash_password("hunter2").unwrap();
    assert_ne!(hash, "hunter2");
    assert_eq!(hash.len(), 60);
    assert!(hash.starts_with(&format!("$2b${:02}$", HASH_COST)));
}

#[test]
fn every_hash_has_a_salt_of_its_own() {
    let first = hash_password("pw").unwrap();
    let second = hash_password("pw").unwrap();
    assert_ne!(first, second);
    assert!(verify_password("pw", &second));
}

#[test]
fn the_work_factor_is_twelve() {
    assert_eq!(HASH_COST, 12);
    assert_eq!(HASH_COST, bcrypt::DEFAULT_COST);
}

#[test]
fn a_known_hash_verifies() {
    let hash = "$2b$04$EGdrhbKUv8Oc9vGiXX0HQOxSg445d458Muh7DAHskb6QbtCvdxcie";
    assert!(verify_password("correctbatteryhorsestapler", hash));
    assert!(!verify_password("wrong", hash));
}

#[test]
fn a_malformed_hash_matches_no_password() {
    assert!(!verify_password("pw", "pw"));
    assert!(!verify_password("pw", ""));
    assert!(!verify_password("", ""));
    assert!(!verify_password("pw", "$2b$04$tooshort"));
    assert!(!verify_password("pw", "$9z$04$EGdrhbKUv8Oc9vGiXX0HQOxSg445d458Muh7DAHskb6QbtCvdxcie"));
}

#[test]
fn an_issued_token_is_valid() {
    let token = issue_token(SECRET, 1).unwrap();
    assert_eq!(verify_token(SECRET, &token), Ok(()));
}

#[test]
fn a_token_has_header_claims_and_signature() {
    let token = issue_token(SECRET, 1).unwrap();
    let parts: Vec<&str> = token.split('.').collect();
    assert_eq!(parts.len(), 3);
    // {"alg":"HS256"} and {"id":1}, base64url without padding
    assert_eq!(parts[0], "eyJhbGciOiJIUzI1NiJ9");
    assert_eq!(parts[1], "eyJpZCI6MX0");
    assert_eq!(parts[2].len(), 43);
}

#[test]
fn the_token_of_a_user_is_always_the_same() {
    assert_eq!(issue_token(SECRET, 42).unwrap(), issue_token(SECRET, 42).unwrap());
    assert_ne!(issue_token(SECRET, 42).unwrap(), issue_token(SECRET, 43).unwrap());
    assert_ne!(issue_token(SECRET, 42).unwrap(), issue_token("other", 42).unwrap());
}

#[test]
fn a_token_is_what_the_jwt_crate_verifies() {
    let token = issue_token(SECRET, -7).unwrap();
    let key: Hmac<sha2::Sha256> = Hmac::new_from_slice(SECRET.as_bytes()).unwrap();
    let claims: BTreeMap<String, i64> = token.as_str().verify_with_key(&key).unwrap();
    assert_eq!(claims.len(), 1);
    assert_eq!(claims["id"], -7);
}

#[test]
fn a_token_signed_under_another_secret_is_refused() {
    let token = issue_token("not the secret", 1).unwrap();
    assert_eq!(verify_token(SECRET, &token), Err(AuthError::InvalidSignature));
}

#[test]
fn a_forged_token_is_refused() {
    let token = issue_token(SECRET, 1).unwrap();
    let parts: Vec<&str> = token.split('.').collect();
    // the claims {"id":2} under the signature of {"id":1}
    let forged = format!("{}.{}.{}", parts[0], "eyJpZCI6Mn0", parts[2]);
    assert_eq!(verify_token(SECRET, &forged), Err(AuthError::InvalidSignature));
    let mut cut = token.clone();
    cut.pop();
    assert_eq!(verify_token(SECRET, &cut), Err(AuthError::InvalidSignature));
}

#[test]
fn text_that_is_no_token_is_refused() {
    for text in ["", "T", "a.b.c", "a.b", "....", "eyJhbGciOiJIUzI1NiJ9.eyJpZCI6MX0."] {
        assert_eq!(verify_token(SECRET, text), Err(AuthError::InvalidSignature));
    }
}

#[test]
fn an_unsigned_token_is_refused() {
    // {"alg":"none"}.{"id":1}.
    assert_eq!(
        verify_token(SECRET, "eyJhbGciOiJub25lIn0.eyJpZCI6MX0."),
        Err(AuthError::InvalidSignature)
    );
}

#[test]
fn a_hash_that_came_back_is_handed_on() {
    assert_eq!(hash_outcome(Ok("the hash".to_string())), Ok("the hash".to_string()));
}

#[test]
fn a_failure_to_hash_is_a_hash_error() {
    assert_eq!(hash_outcome(Err(bcrypt::BcryptError::CostNotAllowed(99))), Err(HashError));
    assert_eq!(
        hash_outcome(Err(bcrypt::BcryptError::InvalidHash("x".to_string()))),
        Err(HashError)
    );
}

#[test]
fn a_password_matches_only_where_the_check_says_so() {
    assert!(match_outcome(Ok(true)));
    assert!(!match_outcome(Ok(false)));
    assert!(!match_outcome(Err(bcrypt::BcryptError::InvalidPrefix("2z".to_string()))));
}

#[test]
fn a_token_that_came_back_is_handed_on() {
    assert_eq!(sign_outcome(Ok("a.b.c".to_string())), Ok("a.b.c".to_string()));
}

#[test]
fn a_failure_to_sign_is_a_sign_error() {
    assert_eq!(sign_outcome(Err(jwt::Error::Format)), Err(SignError));
    assert_eq!(sign_outcome(Err(jwt::Error::NoKeyId)), Err(SignError));
}

#[test]
fn whatever_fails_a_check_is_an_invalid_signature() {
    assert_eq!(check_outcome(Ok(())), Ok(()));
    assert_eq!(check_outcome(Err(jwt::Error::InvalidSignature)), Err(AuthError::InvalidSignature));
    assert_eq!(check_outcome(Err(jwt::Error::NoClaimsComponent)), Err(AuthError::InvalidSignature));
    assert_eq!(check_outcome(Err(jwt::Error::Format)), Err(AuthError::InvalidSignature));
}

#[test]
fn a_hash_names_its_work_factor() {
    let hash = hash_password("pw").unwrap();
    let letters: Vec<char> = hash.chars().collect();
    assert_eq!(&letters[..7], &['$', '2', 'b', '$', '1', '2', '$']);
    let again = hash_password("").unwrap();
    assert_eq!(&again[..7], "$2b$12$");
}

fn signed<C: jwt::ToBase64>(claims: C) -> String {
    let key: Hmac<sha2::Sha256> = Hmac::new_from_slice(SECRET.as_bytes()).unwrap();
    claims.sign_with_key(&key).unwrap()
}

#[test]
fn a_signed_token_is_valid_whatever_it_claims() {
    let mut texts = BTreeMap::new();
    texts.insert("name", "alice");
    texts.insert("role", "admin");
    assert_eq!(verify_token(SECRET, &signed(texts)), Ok(()));

    let mut lists = BTreeMap::new();
    lists.insert("rooms", vec!["a".to_string(), "b".to_string()]);
    assert_eq!(verify_token(SECRET, &signed(lists)), Ok(()));

    let mut nested = BTreeMap::new();
    nested.insert("user", BTreeMap::from([("id", Some(1.5)), ("none", None)]));
    assert_eq!(verify_token(SECRET, &signed(nested)), Ok(()));

    let nothing: BTreeMap<String, bool> = BTreeMap::new();
    assert_eq!(verify_token(SECRET, &signed(nothing)), Ok(()));
}

#[test]
fn a_signed_token_is_valid_at_any_time() {
    let mut long_ago = BTreeMap::new();
    long_ago.insert("id", 1u64);
    long_ago.insert("exp", 1u64);
    long_ago.insert("nbf", u64::MAX);
    long_ago.insert("iat", 0u64);
    assert_eq!(verify_token(SECRET, &signed(long_ago)), Ok(()));
}

#[test]
fn claims_signed_under_another_secret_are_refused_whatever_they_say() {
    let key: Hmac<sha2::Sha256> = Hmac::new_from_slice(b"another").unwrap();
    let mut texts = BTreeMap::new();
    texts.insert("name", "alice");
    let token = texts.sign_with_key(&key).unwrap();
    assert_eq!(verify_token(SECRET, &token), Err(AuthError::InvalidSignature));
}

#[test]
fn signed_claims_that_are_no_object_are_refused() {
    assert_eq!(verify_token(SECRET, &signed(vec![1, 2, 3])), Err(AuthError::InvalidSignature));
    assert_eq!(verify_token(SECRET, &signed("text")), Err(AuthError::InvalidSignature));
}
