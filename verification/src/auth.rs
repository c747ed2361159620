//! Passwords and tokens.
//!
//! Passwords are stored as salted bcrypt hashes. A token is a JSON Web Token
//! that carries the user's id, signed with HMAC-SHA256 under a secret that
//! the embedding program supplies. Hashing and signing are done by the
//! `bcrypt` and `jwt` crates; this module states what it relies on from them
//! and maps their failures to errors of its own.

use hmac::{Hmac, Mac};
use jwt::{SignWithKey, VerifyWithKey};
use serde::de::IgnoredAny;
use sha2::Sha256;
use std::collections::BTreeMap;
use vstd::prelude::*;

verus! {

/// Work factor of the password hash.
pub const HASH_COST: u32 = 12;

/// The password could not be hashed.
#[derive(Debug, Clone, Copy, PartialEq, Eq)]
pub struct HashError;

/// The token could not be signed.
#[derive(Debug, Clone, Copy, PartialEq, Eq)]
pub struct SignError;

/// A token was refused.
#[derive(Debug, Clone, Copy, PartialEq, Eq)]
pub enum AuthError {
    /// The token is malformed or its signature does not verify.
    InvalidSignature,
}

/// The error type of the `bcrypt` crate.
#[verifier::external_type_specification]
#[verifier::external_body]
pub struct ExBcryptError(bcrypt::BcryptError);

/// The error type of the `jwt` crate.
#[verifier::external_type_specification]
#[verifier::external_body]
pub struct ExJwtError(jwt::Error);

/// What `bcrypt::verify` finds for a password and a stored hash: whether
/// they match, or nothing where the hash cannot be read.
pub uninterp spec fn bcrypt_verdict(password: Seq<char>, hash: Seq<char>) -> Option<bool>;

/// The token that the `jwt` crate makes of the single claim `claim: value`
/// with HMAC-SHA256 under `secret`, or nothing where signing fails.
pub uninterp spec fn hs256_token(secret: Seq<char>, claim: Seq<char>, value: i64) -> Option<
    Seq<char>,
>;

/// Whether the `jwt` crate accepts `token` under `secret`: it has three
/// parts, its header names HMAC-SHA256, its claims are a JSON object of
/// whatever content, and its signature is the HMAC-SHA256 of header and
/// claims under `secret`.
pub uninterp spec fn hs256_accepts(secret: Seq<char>, token: Seq<char>) -> bool;

/// The decimal digit for a number below ten.
pub open spec fn digit(d: nat) -> char {
    if d == 0 {
        '0'
    } else if d == 1 {
        '1'
    } else if d == 2 {
        '2'
    } else if d == 3 {
        '3'
    } else if d == 4 {
        '4'
    } else if d == 5 {
        '5'
    } else if d == 6 {
        '6'
    } else if d == 7 {
        '7'
    } else if d == 8 {
        '8'
    } else {
        '9'
    }
}

/// The hash is written in bcrypt's format and names `cost` as its work
/// factor: it starts with the version `2b` and the cost in two decimal
/// digits, each behind a `$`, and another `$` follows.
pub open spec fn names_cost(hash: Seq<char>, cost: u32) -> bool {
    &&& cost < 100
    &&& hash.len() >= 7
    &&& hash[0] == '$'
    &&& hash[1] == '2'
    &&& hash[2] == 'b'
    &&& hash[3] == '$'
    &&& hash[4] == digit((cost / 10) as nat)
    &&& hash[5] == digit((cost % 10) as nat)
    &&& hash[6] == '$'
}

/// `bcrypt::hash`: a hash of the password under a salt that is drawn afresh
/// on every call. Two things are claimed of a hash that comes back:
/// `bcrypt::verify` accepts the password it was made from, and it is
/// written as `$2b$`, the cost in two digits, `$`, then salt and digest.
/// The call fails, among others, for every cost outside 4 to 31.
#[verifier::external_body]
fn bcrypt_hash(password: &str, cost: u32) -> (r: Result<String, bcrypt::BcryptError>)
    ensures
        r matches Ok(hash) ==> bcrypt_verdict(password@, hash@) == Some(true) && names_cost(
            hash@,
            cost,
        ),
{
    bcrypt::hash(password, cost)
}

/// `bcrypt::verify`: hashes the password again under the salt and cost that
/// the stored hash names and compares; fails where the stored hash is
/// malformed. The outcome depends on the two texts alone.
#[verifier::external_body]
fn bcrypt_verify(password: &str, hash: &str) -> (r: Result<bool, bcrypt::BcryptError>)
    ensures
        match r {
            Ok(same) => bcrypt_verdict(password@, hash@) == Some(same),
            Err(_) => bcrypt_verdict(password@, hash@) is None,
        },
{
    bcrypt::verify(password, hash)
}

/// `SignWithKey::sign_with_key` of the `jwt` crate, on a map that holds the
/// one claim, under the key that `Hmac::<Sha256>::new_from_slice` makes of
/// the secret's bytes. The token depends on the arguments alone, and
/// `VerifyWithKey::verify_with_key` accepts it under the same secret.
#[verifier::external_body]
fn hs256_sign(secret: &str, claim: &str, value: i64) -> (r: Result<String, jwt::Error>)
    ensures
        match r {
            Ok(token) => hs256_token(secret@, claim@, value) == Some(token@) && hs256_accepts(
                secret@,
                token@,
            ),
            Err(_) => hs256_token(secret@, claim@, value) is None,
        },
{
    let key: Hmac<Sha256> = Hmac::new_from_slice(secret.as_bytes())?;
    let mut claims = BTreeMap::new();
    claims.insert(claim, value);
    claims.sign_with_key(&key)
}

/// `VerifyWithKey::verify_with_key` of the `jwt` crate, under the key that
/// `Hmac::<Sha256>::new_from_slice` makes of the secret's bytes. The claims
/// are read as a map from names to values that are passed over unread, so
/// that every JSON object is taken. Whether the call succeeds depends on the
/// two texts alone.
#[verifier::external_body]
fn hs256_verify(secret: &str, token: &str) -> (r: Result<(), jwt::Error>)
    ensures
        r is Ok <==> hs256_accepts(secret@, token@),
{
    let key: Hmac<Sha256> = Hmac::new_from_slice(secret.as_bytes())?;
    let _claims: BTreeMap<String, IgnoredAny> = token.verify_with_key(&key)?;
    Ok(())
}

/// The password belongs to the stored hash.
pub open spec fn password_matches(plain: Seq<char>, hash: Seq<char>) -> bool {
    bcrypt_verdict(plain, hash) == Some(true)
}

/// The token of the user with id `user_id` under `secret`: the signed claim
/// `id`.
pub open spec fn issued_token(secret: Seq<char>, user_id: i64) -> Option<Seq<char>> {
    hs256_token(secret, "id"@, user_id)
}

/// The token is well-formed and signed under `secret`. What it claims plays
/// no part.
pub open spec fn token_valid(secret: Seq<char>, token: Seq<char>) -> bool {
    hs256_accepts(secret, token)
}

/// What becomes of the outcome of hashing: the hash, or `HashError`.
pub fn hash_outcome(hashed: Result<String, bcrypt::BcryptError>) -> (r: Result<String, HashError>)
    ensures
        match hashed {
            Ok(hash) => r == Ok::<String, HashError>(hash),
            Err(_) => r == Err::<String, HashError>(HashError),
        },
{
    match hashed {
        Ok(hash) => Ok(hash),
        Err(_) => Err(HashError),
    }
}

/// What becomes of the outcome of checking a password against a hash: a
/// hash that could not be read matches no password.
pub fn match_outcome(checked: Result<bool, bcrypt::BcryptError>) -> (ok: bool)
    ensures
        ok == (checked matches Ok(same) && same),
{
    match checked {
        Ok(same) => same,
        Err(_) => false,
    }
}

/// What becomes of the outcome of signing: the token, or `SignError`.
pub fn sign_outcome(signed: Result<String, jwt::Error>) -> (r: Result<String, SignError>)
    ensures
        match signed {
            Ok(token) => r == Ok::<String, SignError>(token),
            Err(_) => r == Err::<String, SignError>(SignError),
        },
{
    match signed {
        Ok(token) => Ok(token),
        Err(_) => Err(SignError),
    }
}

/// What becomes of the outcome of checking a token: whatever kept the
/// check from succeeding, the token has no valid signature.
pub fn check_outcome(checked: Result<(), jwt::Error>) -> (r: Result<(), AuthError>)
    ensures
        r is Ok <==> checked is Ok,
        r is Err ==> r == Err::<(), AuthError>(AuthError::InvalidSignature),
{
    match checked {
        Ok(_) => Ok(()),
        Err(_) => Err(AuthError::InvalidSignature),
    }
}

/// Hashes a password for storage, with a fresh salt and the fixed work
/// factor `HASH_COST`.
///
/// Whether hashing succeeds is up to the hashing library and the system's
/// source of randomness. A hash that comes back belongs to the password and
/// names `HASH_COST` as its work factor, whatever the password.
pub fn hash_password(plain: &str) -> (r: Result<String, HashError>)
    ensures
        r matches Ok(hash) ==> password_matches(plain@, hash@) && names_cost(hash@, HASH_COST),
{
    hash_outcome(bcrypt_hash(plain, HASH_COST))
}

/// Whether `plain` is the password that `hash` was made from. A hash that
/// cannot be read matches no password.
pub fn verify_password(plain: &str, hash: &str) -> (ok: bool)
    ensures
        ok == password_matches(plain@, hash@),
{
    match_outcome(bcrypt_verify(plain, hash))
}

/// Issues the token of the user with id `user_id`.
///
/// The token is `issued_token(secret, user_id)`, and it is valid under
/// `secret`; where signing fails the error is `SignError`.
pub fn issue_token(secret: &str, user_id: i64) -> (r: Result<String, SignError>)
    ensures
        match r {
            Ok(token) => issued_token(secret@, user_id) == Some(token@) && token_valid(
                secret@,
                token@,
            ),
            Err(_) => issued_token(secret@, user_id) is None,
        },
{
    sign_outcome(hs256_sign(secret, "id", user_id))
}

/// Checks a token: `Ok` exactly for the tokens that are valid under
/// `secret`. A well-formed token with a valid signature is accepted whatever
/// its claims say, at any time; the claims are not handed out.
pub fn verify_token(secret: &str, token: &str) -> (r: Result<(), AuthError>)
    ensures
        r is Ok <==> token_valid(secret@, token@),
        r is Err ==> r == Err::<(), AuthError>(AuthError::InvalidSignature),
{
    check_outcome(hs256_verify(secret, token))
}

} // verus!
