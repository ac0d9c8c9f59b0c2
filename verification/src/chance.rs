//! Values drawn at random. Nothing is claimed of them but their shape.

use vstd::prelude::*;
use rand::Rng;
use rand::RngCore;

verus! {

/// `rand::rng().random_range(low..high)`: some number in the range, which must not be
/// empty.
#[verifier::external_body]
pub(crate) fn random_in_range(low: u64, high: u64) -> (drawn: u64)
    requires
        low < high,
    ensures
        low <= drawn < high,
{
    rand::rng().random_range(low..high)
}

/// `rand::rng().fill_bytes` on a fresh buffer: `len` bytes, whatever they are.
#[verifier::external_body]
pub(crate) fn random_bytes(len: usize) -> (bytes: Vec<u8>)
    ensures
        bytes@.len() == len,
{
    let mut buf = vec![0u8; len];
    rand::rng().fill_bytes(&mut buf);
    buf
}

/// `tungstenite`'s `generate_key`: a random value for the `Sec-WebSocket-Key` header.
#[verifier::external_body]
pub(crate) fn websocket_key() -> String {
    tokio_tungstenite::tungstenite::handshake::client::generate_key()
}

} // verus!
