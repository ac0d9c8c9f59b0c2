//! Random values for the authorization flow, and what the answers of the identity
//! service mean.

use vstd::prelude::*;
use vstd::string::*;
use vstd::utf8::encode_utf8;
use crate::chance::random_bytes;
use crate::codec::{base64_url, encode_base64_url, sha256, sha256_digest};

verus! {

/// How many random bytes go into a state value, a nonce or a code verifier.
pub const SECRET_BYTES: usize = 32;

/// What the identity service says of an access token that it finds valid.
#[derive(Debug, PartialEq)]
pub struct ValidateResp {
    pub expires_in: Option<u64>,
}

/// Whether `text` is the URL-safe base64 of some `len` bytes.
pub open spec fn encodes_bytes(text: Seq<char>, len: nat) -> bool {
    exists|bytes: Seq<u8>| bytes.len() == len && text == #[trigger] base64_url(bytes)
}

/// The code challenge that belongs to a code verifier: the URL-safe base64 of the
/// SHA-256 digest of the verifier's bytes.
pub open spec fn pkce_challenge(verifier: Seq<char>) -> Seq<char> {
    base64_url(sha256(encode_utf8(verifier)))
}

/// `len_bytes` random bytes as URL-safe base64 without padding.
pub fn random_base64url(len_bytes: usize) -> (text: String)
    ensures
        encodes_bytes(text@, len_bytes as nat),
{
    let bytes = random_bytes(len_bytes);
    let text = encode_base64_url(bytes.as_slice());
    assert(text@ == base64_url(bytes@));
    text
}

/// A fresh random value for the `state` or `nonce` of an authorization request.
pub fn gen_b64_url() -> (text: String)
    ensures
        encodes_bytes(text@, SECRET_BYTES as nat),
{
    random_base64url(SECRET_BYTES)
}

/// The code challenge for `verifier`.
pub fn challenge_for(verifier: &str) -> (challenge: String)
    ensures
        challenge@ == pkce_challenge(verifier@),
{
    let digest = sha256_digest(verifier.as_bytes());
    encode_base64_url(digest.as_slice())
}

/// A fresh code challenge and the verifier it belongs to, in this order.
pub fn generate_pkce_pair() -> (pair: (String, String))
    ensures
        encodes_bytes(pair.1@, SECRET_BYTES as nat),
        pair.0@ == pkce_challenge(pair.1@),
{
    let verifier = random_base64url(SECRET_BYTES);
    let challenge = challenge_for(verifier.as_str());
    (challenge, verifier)
}

/// Whether a status is one of success: 200 to 299.
pub open spec fn is_success(status: u16) -> bool {
    200 <= status < 300
}

/// What the identity service's answer says of an access token.
#[derive(Debug, Clone, Copy, PartialEq, Eq, Structural)]
pub enum Validation {
    /// The token is good.
    Valid,
    /// The token is no longer accepted (status 401); a refresh may help.
    Expired,
    /// The service could not say.
    Failed,
}

/// Reads the status of an answer to a validation request.
pub fn validation_outcome(status: u16) -> (outcome: Validation)
    ensures
        is_success(status) ==> outcome == Validation::Valid,
        status == 401 ==> outcome == Validation::Expired,
        !is_success(status) && status != 401 ==> outcome == Validation::Failed,
{
    if 200 <= status && status < 300 {
        Validation::Valid
    } else if status == 401 {
        Validation::Expired
    } else {
        Validation::Failed
    }
}

/// What the identity service's answer to a refresh request means.
#[derive(Debug, Clone, Copy, PartialEq, Eq, Structural)]
pub enum Refresh {
    /// New credentials came back and are to be stored.
    Refreshed,
    /// The refresh credential is no longer accepted (status 401): the stored
    /// credentials are to be deleted.
    Rejected,
    /// The request failed for another reason; nothing is stored or deleted.
    Failed,
}

/// Reads the status of an answer to a refresh request.
pub fn refresh_outcome(status: u16) -> (outcome: Refresh)
    ensures
        is_success(status) ==> outcome == Refresh::Refreshed,
        status == 401 ==> outcome == Refresh::Rejected,
        !is_success(status) && status != 401 ==> outcome == Refresh::Failed,
{
    if 200 <= status && status < 300 {
        Refresh::Refreshed
    } else if status == 401 {
        Refresh::Rejected
    } else {
        Refresh::Failed
    }
}

} // verus!
