//! The engine's few cryptographic and identifier needs: the digest behind
//! the OAuth handoff challenge, the random secrets the handoff uses, and
//! parsing the textual task and user identifiers of the wire protocol.

use rand::Rng;
use sha2::Digest;
use std::fmt::Write;
use vstd::prelude::*;

verus! {

/// The lowercase hexadecimal SHA-256 digest of a character sequence.  The
/// digest is a function of the input alone; nothing shorter than the hash
/// itself describes which string it is.
pub uninterp spec fn sha256_hex_of(s: Seq<char>) -> Seq<char>;

/// The 128-bit value a textual identifier denotes, when it parses as one.
pub uninterp spec fn uuid_parse_of(s: Seq<char>) -> Option<u128>;

/// Relies on `sha2::Sha256::digest`: the digest depends on the input
/// alone, and its 32 bytes print as 64 hexadecimal characters.
#[verifier::external_body]
fn hash_sha256_hex(input: &str) -> (r: String)
    ensures
        r@ == sha256_hex_of(input@),
        r@.len() == 64,
{
    let digest = sha2::Sha256::digest(input.as_bytes());
    let mut out = String::with_capacity(64);
    for byte in digest {
        let _ = write!(out, "{:02x}", byte);
    }
    out
}

/// Relies on `rand::Rng::sample_iter` with `Alphanumeric`: each sample is
/// one alphanumeric character, so taking 64 yields a 64-character secret.
/// The characters themselves are random; nothing further is assumed.
#[verifier::external_body]
fn random_alphanumeric_64() -> (r: String)
    ensures
        r@.len() == 64,
{
    rand::thread_rng().sample_iter(&rand::distributions::Alphanumeric).take(64).map(
        char::from,
    ).collect()
}

/// Relies on `rand::random`: a uniformly random 64-bit value.  Nothing can
/// be promised of it.
#[verifier::external_body]
pub(crate) fn random_u64() -> u64 {
    rand::random::<u64>()
}

/// Relies on `uuid::Uuid::parse_str` and `Uuid::as_u128`: whether a string
/// parses as an identifier, and to which value, depends on the string
/// alone.
#[verifier::external_body]
pub(crate) fn parse_uuid_u128(s: &str) -> (r: Option<u128>)
    ensures
        r == uuid_parse_of(s@),
{
    match uuid::Uuid::parse_str(s) {
        Ok(u) => Some(u.as_u128()),
        Err(_) => None,
    }
}

/// A fresh OAuth handoff secret: the verifier kept locally, and the
/// challenge derived from it that is safe to send ahead.
pub struct HandoffSecret {
    pub verifier: String,
    pub challenge: String,
}

/// Draws a fresh handoff verifier and derives its challenge.
pub fn new_handoff_secret() -> (r: HandoffSecret)
    ensures
        r.challenge@ == sha256_hex_of(r.verifier@),
        r.verifier@.len() == 64,
        r.challenge@.len() == 64,
{
    let verifier = random_alphanumeric_64();
    let challenge = hash_sha256_hex(verifier.as_str());
    HandoffSecret { verifier, challenge }
}

/// Why a handoff callback was turned away.
#[derive(Clone, Copy, PartialEq, Eq, Structural, Debug)]
pub enum HandoffCompleteError {
    ProviderError,
    MissingAppCode,
    UnknownHandoff,
}

/// The rule deciding a handoff callback: a provider error ends it, the
/// code must be present, and the handoff must still be pending locally;
/// only then is the code redeemed with the stored verifier.
pub fn plan_handoff_completion(
    error: Option<String>,
    app_code: Option<String>,
    stored_verifier: Option<String>,
) -> (r: Result<(String, String), HandoffCompleteError>)
    ensures
        match r {
            Ok((code, verifier)) => {
                &&& error is None
                &&& app_code == Some(code)
                &&& stored_verifier == Some(verifier)
            },
            Err(HandoffCompleteError::ProviderError) => error is Some,
            Err(HandoffCompleteError::MissingAppCode) => error is None && app_code is None,
            Err(HandoffCompleteError::UnknownHandoff) => error is None && app_code is Some
                && stored_verifier is None,
        },
{
    if error.is_some() {
        return Err(HandoffCompleteError::ProviderError);
    }
    let code = match app_code {
        Some(c) => c,
        None => {
            return Err(HandoffCompleteError::MissingAppCode);
        },
    };
    let verifier = match stored_verifier {
        Some(v) => v,
        None => {
            return Err(HandoffCompleteError::UnknownHandoff);
        },
    };
    Ok((code, verifier))
}

/// Whether a verifier redeems the given challenge: its digest must equal
/// the challenge exactly.
pub fn verifier_matches_challenge(verifier: &str, challenge: &str) -> (r: bool)
    ensures
        r == (sha256_hex_of(verifier@) == challenge@),
{
    let digest = hash_sha256_hex(verifier);
    crate::model::str_eq(digest.as_str(), challenge)
}

} // verus!