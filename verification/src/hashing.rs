//! Content digests and digest-derived file names.
//!
//! Originals are identified by a cryptographic digest of their bytes, and
//! exported images are named after a digest of their cropped pixels. The
//! digests themselves are computed by the `blake2` crate and the file names
//! encoded by the `base64` crate; this module gives those results names that
//! the rest of the library reasons with.

use vstd::prelude::*;

use base64::Engine;
use blake2::digest::{Update, VariableOutput};
use blake2::{Blake2b512, Blake2bVar, Digest};

use crate::keys::HASH_SIZE;

verus! {

/// The 32-byte BLAKE2b digest of a byte string.
pub uninterp spec fn content_digest(bytes: Seq<u8>) -> Seq<u8>;

/// The 64-byte BLAKE2b-512 digest of a byte string.
pub uninterp spec fn pixel_digest(bytes: Seq<u8>) -> Seq<u8>;

/// The URL-safe base64 encoding (with padding) of a byte string.
pub uninterp spec fn base64_url(bytes: Seq<u8>) -> Seq<char>;

/// Relies on blake2's `Blake2bVar` with an output size of 32 bytes: the
/// digest is a function of the input bytes alone and is 32 bytes wide.
#[verifier::external_body]
pub fn hash_content(bytes: &Vec<u8>) -> (r: Vec<u8>)
    ensures
        r@ == content_digest(bytes@),
        r@.len() == HASH_SIZE,
{
    let mut hasher = Blake2bVar::new(HASH_SIZE).expect("32 is a valid BLAKE2b output size");
    hasher.update(bytes.as_slice());
    let mut out = vec![0u8; HASH_SIZE];
    hasher
        .finalize_variable(&mut out)
        .expect("output buffer has the configured size");
    out
}

/// Relies on blake2's `Blake2b512`: the digest is a function of the input
/// bytes alone and is 64 bytes wide.
#[verifier::external_body]
pub fn hash_pixels(bytes: &Vec<u8>) -> (r: Vec<u8>)
    ensures
        r@ == pixel_digest(bytes@),
        r@.len() == 64,
{
    let mut hasher = Blake2b512::new();
    Digest::update(&mut hasher, bytes.as_slice());
    hasher.finalize().to_vec()
}

/// Relies on base64's `engine::general_purpose::URL_SAFE.encode`: the
/// encoding is a function of the input bytes alone.
#[verifier::external_body]
pub fn encode_base64_url(bytes: &Vec<u8>) -> (r: String)
    ensures
        r@ == base64_url(bytes@),
{
    base64::engine::general_purpose::URL_SAFE.encode(bytes.as_slice())
}

} // verus!
