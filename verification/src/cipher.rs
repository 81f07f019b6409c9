//! AES-256-GCM and base64, as the envelope for stored key material uses
//! them.
//!
//! The functions here call the `aes-gcm` and `base64` crates. Nothing of
//! them is proved: each contract names what the crate computes and states
//! the few facts of it that the envelope relies on.

use aes_gcm::aead::Aead;
use aes_gcm::aead::AeadCore;
use aes_gcm::aead::OsRng;
use aes_gcm::Aes256Gcm;
use aes_gcm::KeyInit;
use aes_gcm::Nonce;
use base64::Engine;
use vstd::prelude::*;

verus! {

/// Length of an AES-GCM nonce in bytes.
pub const NONCE_LEN: usize = 12;

/// Length of the authentication tag that follows the ciphertext.
pub const TAG_LEN: usize = 16;

/// Longest plaintext that AES-GCM encrypts: 2^36 bytes.
pub const MAX_PLAINTEXT_LEN: u64 = 0x10_0000_0000;

/// The ciphertext with tag that AES-256-GCM makes of a plaintext under a
/// key and a nonce, without associated data; `None` where it refuses.
pub uninterp spec fn aes256gcm_sealed(key: Seq<u8>, nonce: Seq<u8>, plaintext: Seq<u8>) -> Option<
    Seq<u8>,
>;

/// The plaintext that AES-256-GCM gives back for a ciphertext with tag
/// under a key and a nonce; `None` where the tag does not fit.
pub uninterp spec fn aes256gcm_opened(key: Seq<u8>, nonce: Seq<u8>, ciphertext: Seq<u8>) -> Option<
    Seq<u8>,
>;

/// The standard base64 text, with padding, of some bytes.
pub uninterp spec fn base64_text(data: Seq<u8>) -> Seq<u8>;

/// The bytes that a standard base64 text with padding stands for; `None`
/// where the text is not well formed.
pub uninterp spec fn base64_decoded(text: Seq<u8>) -> Option<Seq<u8>>;

/// `AeadCore::generate_nonce` of `Aes256Gcm` with the system's random
/// source: twelve bytes, of which nothing else is known.
#[verifier::external_body]
pub(crate) fn fresh_nonce() -> (nonce: Vec<u8>)
    ensures
        nonce@.len() == NONCE_LEN,
{
    Aes256Gcm::generate_nonce(&mut OsRng).to_vec()
}

/// `Aead::encrypt` of `Aes256Gcm`. It refuses exactly the plaintexts
/// longer than 2^36 bytes, appends a tag of 16 bytes, and what it makes
/// decrypts to the plaintext under the same key and nonce. The nonce must
/// have twelve bytes: the crate panics on another length.
#[verifier::external_body]
pub(crate) fn aes256gcm_encrypt(key: &[u8; 32], nonce: &[u8], plaintext: &[u8]) -> (sealed: Option<
    Vec<u8>,
>)
    requires
        nonce@.len() == NONCE_LEN,
    ensures
        match sealed {
            Some(c) => aes256gcm_sealed(key@, nonce@, plaintext@) == Some(c@) && c@.len()
                == plaintext@.len() + TAG_LEN && aes256gcm_opened(key@, nonce@, c@) == Some(
                plaintext@,
            ),
            None => aes256gcm_sealed(key@, nonce@, plaintext@).is_none(),
        },
        sealed.is_some() == (plaintext@.len() <= MAX_PLAINTEXT_LEN),
{
    Aes256Gcm::new(key.into()).encrypt(Nonce::from_slice(nonce), plaintext).ok()
}

/// `Aead::decrypt` of `Aes256Gcm`. The nonce must have twelve bytes: the
/// crate panics on another length.
#[verifier::external_body]
pub(crate) fn aes256gcm_decrypt(key: &[u8; 32], nonce: &[u8], ciphertext: &[u8]) -> (opened: Option<
    Vec<u8>,
>)
    requires
        nonce@.len() == NONCE_LEN,
    ensures
        match opened {
            Some(p) => aes256gcm_opened(key@, nonce@, ciphertext@) == Some(p@),
            None => aes256gcm_opened(key@, nonce@, ciphertext@).is_none(),
        },
{
    Aes256Gcm::new(key.into()).decrypt(Nonce::from_slice(nonce), ciphertext).ok()
}

/// `Engine::encode` of `base64::engine::general_purpose::STANDARD`, as
/// bytes. The text has four bytes for every three bytes of data, begun or
/// whole, and decodes to the data. The crate panics where the length of the
/// text does not fit a `usize`.
#[verifier::external_body]
pub(crate) fn base64_encode(data: &[u8]) -> (text: Vec<u8>)
    requires
        data@.len() / 3 * 4 + 4 <= usize::MAX,
    ensures
        text@ == base64_text(data@),
        text@.len() == (data@.len() + 2) / 3 * 4,
        base64_decoded(text@) == Some(data@),
{
    base64::engine::general_purpose::STANDARD.encode(data).into_bytes()
}

/// `Engine::decode` of `base64::engine::general_purpose::STANDARD`.
#[verifier::external_body]
pub(crate) fn base64_decode(text: &[u8]) -> (data: Option<Vec<u8>>)
    ensures
        match data {
            Some(d) => base64_decoded(text@) == Some(d@),
            None => base64_decoded(text@).is_none(),
        },
{
    base64::engine::general_purpose::STANDARD.decode(text).ok()
}

} // verus!
