//! Encodings and digests that come from other crates, each behind one small function.

use vstd::prelude::*;
use base64::Engine;
use sha2::Digest;

verus! {

/// The URL-safe base64 text, without padding, of `bytes`.
pub uninterp spec fn base64_url(bytes: Seq<u8>) -> Seq<char>;

/// The SHA-256 digest of `bytes`.
pub uninterp spec fn sha256(bytes: Seq<u8>) -> Seq<u8>;

/// What the `url` crate makes of `text`: `None` where it does not parse as an absolute
/// URL, otherwise the host it names, if it names one.
pub uninterp spec fn url_host(text: Seq<char>) -> Option<Option<Seq<char>>>;

/// `base64::engine::general_purpose::URL_SAFE_NO_PAD.encode`: the text depends on the
/// bytes alone, so it is named.
#[verifier::external_body]
pub(crate) fn encode_base64_url(bytes: &[u8]) -> (text: String)
    ensures
        text@ == base64_url(bytes@),
{
    base64::engine::general_purpose::URL_SAFE_NO_PAD.encode(bytes)
}

/// `sha2::Sha256::digest`: the digest depends on the bytes alone, so it is named.
#[verifier::external_body]
pub(crate) fn sha256_digest(bytes: &[u8]) -> (digest: Vec<u8>)
    ensures
        digest@ == sha256(bytes@),
{
    sha2::Sha256::digest(bytes).to_vec()
}

/// `url::Url::parse` followed by `Url::host_str`: whether the text parses, and the host
/// of the parsed URL, depend on the text alone, so the pair is named.
#[verifier::external_body]
pub(crate) fn parse_url_host(text: &str) -> (host: Option<Option<String>>)
    ensures
        match host {
            Some(Some(h)) => url_host(text@) == Some(Some(h@)),
            Some(None) => url_host(text@) == Some(None::<Seq<char>>),
            None => url_host(text@) is None,
        },
{
    url::Url::parse(text).ok().map(|u| u.host_str().map(String::from))
}

} // verus!
