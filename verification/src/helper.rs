//! Random token generation for the per-process client id.

use vstd::prelude::*;
use base64::Engine;

verus! {

/// The URL-safe, unpadded base64 encoding of a byte string. The encoding is
/// a fixed function of the bytes; its value is left unspecified here and is
/// supplied by the base64 crate.
pub uninterp spec fn b64_url_of(bytes: Seq<u8>) -> Seq<char>;

/// Relies on base64's `Engine::encode` with the `URL_SAFE_NO_PAD` engine:
/// the result depends on the input bytes alone, and without padding its
/// length is four ASCII characters per three input bytes, rounded the way
/// base64's own `encoded_len` rounds. The length bound keeps clear of the
/// one overflow panic `encode` has.
#[verifier::external_body]
fn b64_url_encode(bytes: &Vec<u8>) -> (r: String)
    requires
        4 * bytes@.len() + 3 <= usize::MAX,
    ensures
        r@ == b64_url_of(bytes@),
        r@.len() == (4 * bytes@.len() + 2) / 3,
{
    base64::engine::general_purpose::URL_SAFE_NO_PAD.encode(bytes)
}

/// Relies on rand's `Rng::fill` on the thread-local generator: it fills the
/// whole buffer in place; nothing is promised of the byte values.
#[verifier::external_body]
fn random_bytes(len: usize) -> (r: Vec<u8>)
    ensures
        r@.len() == len,
{
    let mut bytes = vec![0u8; len];
    let mut rng = rand::rng();
    rand::Rng::fill(&mut rng, &mut bytes[..]);
    bytes
}

/// A fresh random token: the URL-safe base64 encoding of `len` random
/// bytes. Its value depends on the generator; its length does not.
pub fn generate_secure_token(len: usize) -> (r: String)
    requires
        4 * len + 3 <= usize::MAX,
    ensures
        r@.len() == (4 * len + 2) / 3,
{
    let bytes = random_bytes(len);
    b64_url_encode(&bytes)
}

} // verus!
