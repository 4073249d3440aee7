//! Destination-compatible GUIDs: twelve URL-safe base64 characters encoding
//! nine cryptographically random bytes.

use vstd::prelude::*;

use base64::Engine;
use rand::RngCore;

verus! {

/// Length in characters of a destination GUID.
pub const GUID_LENGTH: usize = 12;

/// Random bytes needed for one GUID: three bytes for every four characters.
pub const REQUIRED_BYTES_LEN: usize = GUID_LENGTH / 4 * 3;

/// URL-safe base64 encoding, with padding, of a byte sequence.
pub uninterp spec fn base64_url_of(bytes: Seq<u8>) -> Seq<char>;

/// Relies on base64's `Engine::encode` over the `URL_SAFE` engine: the
/// encoding is a function of the input bytes alone, and with padding it
/// yields four characters for every started three-byte group of input.
#[verifier::external_body]
fn base64_url_encode(bytes: &[u8]) -> (r: String)
    requires
        (bytes@.len() + 2) / 3 * 4 <= usize::MAX,
    ensures
        r@ == base64_url_of(bytes@),
        r@.len() == (bytes@.len() + 2) / 3 * 4,
{
    base64::engine::general_purpose::URL_SAFE.encode(bytes)
}

/// Relies on rand's `thread_rng` and `RngCore::fill_bytes`: the buffer is
/// filled with cryptographically secure random bytes. Nothing can be
/// promised of the values; only the length is stated.
#[verifier::external_body]
fn random_bytes(len: usize) -> (r: Vec<u8>)
    ensures
        r@.len() == len,
{
    let mut buffer = vec![0u8; len];
    rand::thread_rng().fill_bytes(&mut buffer);
    buffer
}

/// The GUID encoding of caller-supplied bytes: the URL-safe base64 encoding
/// of exactly nine bytes, which is twelve characters long. Taking the bytes
/// as an argument lets callers supply a deterministic source.
pub fn guid_from_bytes(bytes: &[u8]) -> (r: String)
    requires
        bytes@.len() == REQUIRED_BYTES_LEN,
    ensures
        r@ == base64_url_of(bytes@),
        r@.len() == GUID_LENGTH,
{
    base64_url_encode(bytes)
}

/// A fresh destination-compatible GUID: twelve URL-safe base64 characters
/// drawn from nine cryptographically random bytes.
pub fn generate_guid() -> (r: String)
    ensures
        r@.len() == GUID_LENGTH,
{
    let buffer = random_bytes(REQUIRED_BYTES_LEN);
    guid_from_bytes(buffer.as_slice())
}

} // verus!
