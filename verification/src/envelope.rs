//! The at-rest envelope of the signature key pair.
//!
//! With a key configured, the value is stored as
//! `enc:v1:` + base64(nonce) + `/` + base64(ciphertext), encrypted with
//! AES-256-GCM under a fresh nonce of twelve bytes. Without a key it is
//! stored as it is. A stored value without the prefix is read as it is,
//! whether or not a key is configured. In one with the prefix the nonce
//! text is the sixteen bytes behind the prefix, whatever they hold, and the
//! separator must follow them: the base64 text of a nonce may itself hold a
//! `/`.

use crate::cipher::aes256gcm_decrypt;
use crate::cipher::aes256gcm_encrypt;
use crate::cipher::aes256gcm_opened;
use crate::cipher::aes256gcm_sealed;
use crate::cipher::base64_decode;
use crate::cipher::base64_decoded;
use crate::cipher::base64_encode;
use crate::cipher::base64_text;
use crate::cipher::fresh_nonce;
use crate::cipher::NONCE_LEN;
use vstd::prelude::*;
use vstd::slice::slice_subrange;
use vstd::slice::slice_to_vec;

verus! {

/// Length of the marker of an encrypted value.
pub const PREFIX_LEN: usize = 7;

/// The separator between nonce and ciphertext.
pub const SEPARATOR: u8 = 0x2F;

/// Length of the base64 text of a nonce of twelve bytes.
pub const NONCE_TEXT_LEN: usize = 16;

/// The marker of an encrypted value: `enc:v1:`.
pub open spec fn prefix() -> Seq<u8> {
    seq![0x65u8, 0x6Eu8, 0x63u8, 0x3Au8, 0x76u8, 0x31u8, 0x3Au8]
}

/// The value starts with the marker.
pub open spec fn has_prefix(stored: Seq<u8>) -> bool {
    stored.len() >= PREFIX_LEN && stored.subrange(0, PREFIX_LEN as int) == prefix()
}

/// The envelope of a nonce text and a ciphertext text.
pub open spec fn framed(nonce_text: Seq<u8>, ciphertext_text: Seq<u8>) -> Seq<u8> {
    prefix() + nonce_text + seq![SEPARATOR] + ciphertext_text
}

/// The two texts of an envelope: the sixteen bytes behind the marker, and
/// what stands behind the separator that follows them. `None` where no
/// separator stands there.
pub open spec fn unframed(stored: Seq<u8>) -> Option<(Seq<u8>, Seq<u8>)> {
    let payload = stored.subrange(PREFIX_LEN as int, stored.len() as int);
    if payload.len() > NONCE_TEXT_LEN && payload[NONCE_TEXT_LEN as int] == SEPARATOR {
        Some(
            (
                payload.subrange(0, NONCE_TEXT_LEN as int),
                payload.subrange(NONCE_TEXT_LEN + 1, payload.len() as int),
            ),
        )
    } else {
        None
    }
}

/// Why a value could not be stored or read.
#[derive(Debug, Clone, Copy, PartialEq, Eq, Structural)]
pub enum EnvelopeError {
    /// The cipher refused the plaintext, or the envelope would not fit in
    /// memory.
    EncryptFailed,
    /// The value is encrypted and no key is configured.
    KeyMissing,
    /// No separator follows the sixteen bytes of the nonce text.
    MissingSeparator,
    /// The nonce is not base64.
    BadNonce,
    /// The ciphertext is not base64.
    BadCiphertext,
    /// The nonce does not have twelve bytes.
    NonceLength,
    /// The ciphertext does not decrypt under the key.
    DecryptFailed,
}

impl EnvelopeError {
    /// What the host is told.
    pub open spec fn text(self) -> Seq<char> {
        match self {
            EnvelopeError::EncryptFailed => "Failed to encrypt key material"@,
            EnvelopeError::KeyMissing =>
                "Encrypted key material found but no encryption key configured"@,
            EnvelopeError::MissingSeparator => "Malformed encrypted value: missing separator"@,
            EnvelopeError::BadNonce => "Failed to decode nonce"@,
            EnvelopeError::BadCiphertext => "Failed to decode ciphertext"@,
            EnvelopeError::NonceLength => "Malformed encrypted value: nonce is not twelve bytes"@,
            EnvelopeError::DecryptFailed => "Failed to decrypt key material"@,
        }
    }

    /// What the host is told.
    pub fn message(&self) -> (text: String)
        ensures
            text@ == self.text(),
    {
        match self {
            EnvelopeError::EncryptFailed => "Failed to encrypt key material".to_owned(),
            EnvelopeError::KeyMissing => {
                "Encrypted key material found but no encryption key configured".to_owned()
            },
            EnvelopeError::MissingSeparator => {
                "Malformed encrypted value: missing separator".to_owned()
            },
            EnvelopeError::BadNonce => "Failed to decode nonce".to_owned(),
            EnvelopeError::BadCiphertext => "Failed to decode ciphertext".to_owned(),
            EnvelopeError::NonceLength => {
                "Malformed encrypted value: nonce is not twelve bytes".to_owned()
            },
            EnvelopeError::DecryptFailed => "Failed to decrypt key material".to_owned(),
        }
    }
}

/// A plaintext of this length is short enough for the cipher, and the
/// base64 text of its ciphertext fits in memory.
pub open spec fn fits_envelope(len: nat) -> bool {
    len <= 0x10_0000_0000 && (len + 16) / 3 * 4 + 4 <= usize::MAX
}

/// What is stored for a plaintext under a key and a nonce.
pub open spec fn sealed_value(key: Seq<u8>, nonce: Seq<u8>, plaintext: Seq<u8>) -> Result<
    Seq<u8>,
    EnvelopeError,
> {
    match aes256gcm_sealed(key, nonce, plaintext) {
        Some(ciphertext) => if ciphertext.len() / 3 * 4 + 4 <= usize::MAX {
            Ok(framed(base64_text(nonce), base64_text(ciphertext)))
        } else {
            Err(EnvelopeError::EncryptFailed)
        },
        None => Err(EnvelopeError::EncryptFailed),
    }
}

/// What the decoded parts of an envelope are good for: the nonce and the
/// ciphertext, where both decoded and the nonce has twelve bytes.
pub open spec fn checked_parts(nonce: Option<Seq<u8>>, ciphertext: Option<Seq<u8>>) -> Result<
    (Seq<u8>, Seq<u8>),
    EnvelopeError,
> {
    match nonce {
        None => Err(EnvelopeError::BadNonce),
        Some(n) => match ciphertext {
            None => Err(EnvelopeError::BadCiphertext),
            Some(c) => if n.len() == NONCE_LEN {
                Ok((n, c))
            } else {
                Err(EnvelopeError::NonceLength)
            },
        },
    }
}

/// What a stored value reads as, with or without a key.
pub open spec fn opened_value(key: Option<Seq<u8>>, stored: Seq<u8>) -> Result<
    Seq<u8>,
    EnvelopeError,
> {
    if !has_prefix(stored) {
        Ok(stored)
    } else {
        match key {
            None => Err(EnvelopeError::KeyMissing),
            Some(k) => match unframed(stored) {
                None => Err(EnvelopeError::MissingSeparator),
                Some(texts) => match checked_parts(
                    base64_decoded(texts.0),
                    base64_decoded(texts.1),
                ) {
                    Err(e) => Err(e),
                    Ok(parts) => match aes256gcm_opened(k, parts.0, parts.1) {
                        Some(plaintext) => Ok(plaintext),
                        None => Err(EnvelopeError::DecryptFailed),
                    },
                },
            },
        }
    }
}

/// Whether the value starts with the marker of an encrypted value.
pub fn is_sealed(stored: &[u8]) -> (sealed: bool)
    ensures
        sealed == has_prefix(stored@),
{
    if stored.len() < PREFIX_LEN {
        return false;
    }
    let sealed = stored[0] == 0x65 && stored[1] == 0x6E && stored[2] == 0x63 && stored[3] == 0x3A
        && stored[4] == 0x76 && stored[5] == 0x31 && stored[6] == 0x3A;
    proof {
        let head = stored@.subrange(0, PREFIX_LEN as int);
        if sealed {
            assert(head =~= prefix());
        } else {
            assert(head[0] == stored@[0] && head[1] == stored@[1] && head[2] == stored@[2]
                && head[3] == stored@[3] && head[4] == stored@[4] && head[5] == stored@[5]
                && head[6] == stored@[6]);
        }
    }
    sealed
}

/// Put a nonce text and a ciphertext text into an envelope.
pub fn frame_envelope(nonce_text: &[u8], ciphertext_text: &[u8]) -> (stored: Vec<u8>)
    ensures
        stored@ == framed(nonce_text@, ciphertext_text@),
{
    let mut stored: Vec<u8> = Vec::new();
    stored.push(0x65);
    stored.push(0x6E);
    stored.push(0x63);
    stored.push(0x3A);
    stored.push(0x76);
    stored.push(0x31);
    stored.push(0x3A);
    assert(stored@ =~= prefix());
    stored.extend_from_slice(nonce_text);
    stored.push(SEPARATOR);
    stored.extend_from_slice(ciphertext_text);
    assert(stored@ =~= framed(nonce_text@, ciphertext_text@));
    stored
}

/// Take the two texts out of an envelope. The value must carry the marker.
pub fn split_envelope(stored: &[u8]) -> (texts: Option<(Vec<u8>, Vec<u8>)>)
    requires
        has_prefix(stored@),
    ensures
        match texts {
            Some(t) => unframed(stored@) == Some((t.0@, t.1@)),
            None => unframed(stored@).is_none(),
        },
{
    let n: usize = stored.len();
    let at: usize = PREFIX_LEN + NONCE_TEXT_LEN;
    let ghost payload = stored@.subrange(PREFIX_LEN as int, n as int);
    if n <= at {
        return None;
    }
    assert(payload[NONCE_TEXT_LEN as int] == stored@[at as int]);
    if stored[at] != SEPARATOR {
        return None;
    }
    proof {
        assert(payload.subrange(0, NONCE_TEXT_LEN as int) =~= stored@.subrange(
            PREFIX_LEN as int,
            at as int,
        ));
        assert(payload.subrange(NONCE_TEXT_LEN + 1, payload.len() as int) =~= stored@.subrange(
            at + 1,
            n as int,
        ));
    }
    let nonce_text = slice_to_vec(slice_subrange(stored, PREFIX_LEN, at));
    let ciphertext_text = slice_to_vec(slice_subrange(stored, at + 1, n));
    Some((nonce_text, ciphertext_text))
}

/// Judge the decoded parts of an envelope.
pub fn check_parts(nonce: Option<Vec<u8>>, ciphertext: Option<Vec<u8>>) -> (parts: Result<
    (Vec<u8>, Vec<u8>),
    EnvelopeError,
>)
    ensures
        match parts {
            Ok(p) => checked_parts(
                match nonce {
                    Some(n) => Some(n@),
                    None => None,
                },
                match ciphertext {
                    Some(c) => Some(c@),
                    None => None,
                },
            ) == Ok::<(Seq<u8>, Seq<u8>), EnvelopeError>((p.0@, p.1@)),
            Err(e) => checked_parts(
                match nonce {
                    Some(n) => Some(n@),
                    None => None,
                },
                match ciphertext {
                    Some(c) => Some(c@),
                    None => None,
                },
            ) == Err::<(Seq<u8>, Seq<u8>), EnvelopeError>(e),
        },
{
    match nonce {
        None => Err(EnvelopeError::BadNonce),
        Some(n) => match ciphertext {
            None => Err(EnvelopeError::BadCiphertext),
            Some(c) => if n.len() == NONCE_LEN {
                Ok((n, c))
            } else {
                Err(EnvelopeError::NonceLength)
            },
        },
    }
}

/// The envelope splits into the texts it was made of, where the nonce text
/// has its sixteen bytes, whatever they are.
pub proof fn lemma_envelope_splits(nonce_text: Seq<u8>, ciphertext_text: Seq<u8>)
    requires
        nonce_text.len() == NONCE_TEXT_LEN,
    ensures
        has_prefix(framed(nonce_text, ciphertext_text)),
        unframed(framed(nonce_text, ciphertext_text)) == Some((nonce_text, ciphertext_text)),
{
    let stored = framed(nonce_text, ciphertext_text);
    assert(stored.subrange(0, PREFIX_LEN as int) =~= prefix());
    let payload = stored.subrange(PREFIX_LEN as int, stored.len() as int);
    assert(payload[NONCE_TEXT_LEN as int] == SEPARATOR);
    assert(payload.subrange(0, NONCE_TEXT_LEN as int) =~= nonce_text);
    assert(payload.subrange(NONCE_TEXT_LEN + 1, payload.len() as int) =~= ciphertext_text);
}

/// Compatibility of values stored without a key: a value that does not
/// start with the marker reads back as it is, whether or not a key is
/// configured, and whatever the key.
pub proof fn lemma_plain_value_reads_back(key: Option<Seq<u8>>, value: Seq<u8>)
    requires
        !has_prefix(value),
    ensures
        opened_value(key, value) == Ok::<Seq<u8>, EnvelopeError>(value),
{
}

/// A value that carries the marker does not read without a key.
pub proof fn lemma_sealed_value_needs_key(stored: Seq<u8>)
    requires
        has_prefix(stored),
    ensures
        opened_value(None, stored) == Err::<Seq<u8>, EnvelopeError>(EnvelopeError::KeyMissing),
{
}

/// Encrypt a plaintext under a key and the given nonce, and put it into
/// an envelope. What is returned reads back as the plaintext under the
/// same key.
pub fn seal_with_nonce(key: &[u8; 32], nonce: &[u8], plaintext: &[u8]) -> (stored: Result<
    Vec<u8>,
    EnvelopeError,
>)
    requires
        nonce@.len() == NONCE_LEN,
    ensures
        match stored {
            Ok(s) => sealed_value(key@, nonce@, plaintext@) == Ok::<Seq<u8>, EnvelopeError>(s@),
            Err(e) => sealed_value(key@, nonce@, plaintext@) == Err::<Seq<u8>, EnvelopeError>(e),
        },
        stored.is_ok() <==> fits_envelope(plaintext@.len()),
        stored matches Ok(s) ==> has_prefix(s@),
        stored matches Ok(s) ==> opened_value(Some(key@), s@) == Ok::<Seq<u8>, EnvelopeError>(
            plaintext@,
        ),
{
    let sealed = match aes256gcm_encrypt(key, nonce, plaintext) {
        Some(c) => c,
        None => {
            return Err(EnvelopeError::EncryptFailed);
        },
    };
    if sealed.len() / 3 > (usize::MAX - 4) / 4 {
        return Err(EnvelopeError::EncryptFailed);
    }
    let nonce_text = base64_encode(nonce);
    let ciphertext_text = base64_encode(sealed.as_slice());
    let stored = frame_envelope(nonce_text.as_slice(), ciphertext_text.as_slice());
    proof {
        lemma_envelope_splits(nonce_text@, ciphertext_text@);
    }
    Ok(stored)
}

/// What is stored for a value: the value itself without a key, its
/// envelope under a fresh nonce with one. What is stored under a key reads
/// back as the value under the same key.
pub fn encrypt_if_needed(key: Option<&[u8; 32]>, plaintext: &[u8]) -> (stored: Result<
    Vec<u8>,
    EnvelopeError,
>)
    ensures
        key.is_none() ==> (stored matches Ok(s) && s@ == plaintext@),
        key matches Some(k) ==> exists|nonce: Seq<u8>|
            nonce.len() == NONCE_LEN && match stored {
                Ok(s) => #[trigger] sealed_value(k@, nonce, plaintext@) == Ok::<
                    Seq<u8>,
                    EnvelopeError,
                >(s@),
                Err(e) => sealed_value(k@, nonce, plaintext@) == Err::<Seq<u8>, EnvelopeError>(e),
            },
        key.is_some() ==> (stored.is_ok() <==> fits_envelope(plaintext@.len())),
        key matches Some(k) ==> (stored matches Ok(s) ==> opened_value(Some(k@), s@) == Ok::<
            Seq<u8>,
            EnvelopeError,
        >(plaintext@)),
{
    match key {
        None => Ok(slice_to_vec(plaintext)),
        Some(k) => {
            let nonce = fresh_nonce();
            let stored = seal_with_nonce(k, nonce.as_slice(), plaintext);
            proof {
                let witness = nonce@;
                assert(match stored {
                    Ok(s) => sealed_value(k@, witness, plaintext@) == Ok::<Seq<u8>, EnvelopeError>(
                        s@,
                    ),
                    Err(e) => sealed_value(k@, witness, plaintext@) == Err::<
                        Seq<u8>,
                        EnvelopeError,
                    >(e),
                });
            }
            stored
        },
    }
}

/// Read a stored value: as it is where it does not carry the marker, else
/// by opening its envelope with the key.
pub fn decrypt_if_needed(key: Option<&[u8; 32]>, stored: &[u8]) -> (plaintext: Result<
    Vec<u8>,
    EnvelopeError,
>)
    ensures
        match plaintext {
            Ok(p) => opened_value(
                match key {
                    Some(k) => Some(k@),
                    None => None,
                },
                stored@,
            ) == Ok::<Seq<u8>, EnvelopeError>(p@),
            Err(e) => opened_value(
                match key {
                    Some(k) => Some(k@),
                    None => None,
                },
                stored@,
            ) == Err::<Seq<u8>, EnvelopeError>(e),
        },
{
    if !is_sealed(stored) {
        return Ok(slice_to_vec(stored));
    }
    let k = match key {
        Some(k) => k,
        None => {
            return Err(EnvelopeError::KeyMissing);
        },
    };
    let texts = match split_envelope(stored) {
        Some(t) => t,
        None => {
            return Err(EnvelopeError::MissingSeparator);
        },
    };
    let nonce = base64_decode(texts.0.as_slice());
    let ciphertext = base64_decode(texts.1.as_slice());
    let parts = match check_parts(nonce, ciphertext) {
        Ok(p) => p,
        Err(e) => {
            return Err(e);
        },
    };
    match aes256gcm_decrypt(k, parts.0.as_slice(), parts.1.as_slice()) {
        Some(p) => Ok(p),
        None => Err(EnvelopeError::DecryptFailed),
    }
}

} // verus!
