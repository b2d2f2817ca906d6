//! The authenticated cipher that protects identifiers and keys at rest:
//! ChaCha8 with Poly1305, a 256-bit key, a 96-bit nonce and a 128-bit tag.

use vstd::prelude::*;
use chacha20poly1305::{AeadInPlace, ChaCha8Poly1305, KeyInit};
use crate::types::{AeadKey, AeadNonce, AeadTag};

verus! {

/// The longest text, in bytes, that one nonce can cover: the cipher's block
/// counter has 32 bits, and the first block is spent on the tag's key.
pub const MAX_TEXT_LEN: u64 = 274_877_906_816;

/// The ciphertext and the tag that ChaCha8Poly1305 gives for a plaintext
/// under a key, a nonce and associated data.
pub uninterp spec fn chacha8poly1305_sealed(
    key: Seq<u8>,
    nonce: Seq<u8>,
    associated_data: Seq<u8>,
    plaintext: Seq<u8>,
) -> (Seq<u8>, Seq<u8>);

/// The plaintext that ChaCha8Poly1305 gives back for a ciphertext and its
/// tag, or `None` where the tag does not authenticate them.
pub uninterp spec fn chacha8poly1305_opened(
    key: Seq<u8>,
    nonce: Seq<u8>,
    associated_data: Seq<u8>,
    ciphertext: Seq<u8>,
    tag: Seq<u8>,
) -> Option<Seq<u8>>;

/// Encrypts `buffer` in place with `encrypt_in_place_detached` of a
/// `ChaCha8Poly1305` made by `new` from the key, and returns the tag.
///
/// Trusted: for a text within `MAX_TEXT_LEN` the cipher succeeds; the buffer
/// then holds the ciphertext, of the plaintext's length, and opening that
/// ciphertext with the returned tag under the same key, nonce and associated
/// data gives the plaintext back.
#[verifier::external_body]
pub(crate) fn seal_in_place(
    key: &AeadKey,
    nonce: &AeadNonce,
    associated_data: &[u8],
    buffer: &mut [u8],
) -> (tag: Option<AeadTag>)
    requires
        old(buffer)@.len() <= MAX_TEXT_LEN,
    ensures
        tag is Some,
        (final(buffer)@, tag.unwrap()@) == chacha8poly1305_sealed(
            key@,
            nonce@,
            associated_data@,
            old(buffer)@,
        ),
        final(buffer)@.len() == old(buffer)@.len(),
        chacha8poly1305_opened(key@, nonce@, associated_data@, final(buffer)@, tag.unwrap()@)
            == Some(old(buffer)@),
{
    let cipher = ChaCha8Poly1305::new(key.into());
    match cipher.encrypt_in_place_detached(nonce.into(), associated_data, buffer) {
        Ok(tag) => Some(tag.into()),
        Err(_) => None,
    }
}

/// Verifies `tag` and decrypts `buffer` in place with
/// `decrypt_in_place_detached` of a `ChaCha8Poly1305` made by `new` from the
/// key.
///
/// Trusted: for a text within `MAX_TEXT_LEN` the call succeeds exactly where
/// the tag authenticates the ciphertext; the buffer then holds the
/// plaintext, and no other tag of 16 bytes authenticates that ciphertext
/// under the same key, nonce and associated data. The buffer keeps its
/// length either way.
#[verifier::external_body]
pub(crate) fn open_in_place(
    key: &AeadKey,
    nonce: &AeadNonce,
    associated_data: &[u8],
    buffer: &mut [u8],
    tag: &AeadTag,
) -> (opened: bool)
    requires
        old(buffer)@.len() <= MAX_TEXT_LEN,
    ensures
        opened <==> chacha8poly1305_opened(
            key@,
            nonce@,
            associated_data@,
            old(buffer)@,
            tag@,
        ) is Some,
        opened ==> Some(final(buffer)@) == chacha8poly1305_opened(
            key@,
            nonce@,
            associated_data@,
            old(buffer)@,
            tag@,
        ),
        opened ==> forall|other: Seq<u8>|
            other.len() == 16 && other != tag@ ==> #[trigger] chacha8poly1305_opened(
                key@,
                nonce@,
                associated_data@,
                old(buffer)@,
                other,
            ) is None,
        final(buffer)@.len() == old(buffer)@.len(),
{
    let cipher = ChaCha8Poly1305::new(key.into());
    cipher.decrypt_in_place_detached(nonce.into(), associated_data, buffer, tag.into()).is_ok()
}

/// The nonce of the encryption with the given number: the number in eight
/// little-endian bytes, then four zero bytes.
pub open spec fn nonce_of(number: u64) -> Seq<u8> {
    vstd::bytes::spec_u64_to_le_bytes(number) + seq![0u8, 0u8, 0u8, 0u8]
}

/// Builds the nonce of the encryption with the given number.
pub fn nonce_for(number: u64) -> (nonce: AeadNonce)
    ensures
        nonce@ == nonce_of(number),
{
    let bytes = vstd::bytes::u64_to_le_bytes(number);
    let mut nonce: AeadNonce = [0u8; 12];
    let mut i: usize = 0;
    while i < 8
        invariant
            i <= 8,
            bytes@ == vstd::bytes::spec_u64_to_le_bytes(number),
            bytes@.len() == 8,
            forall|j: int| 0 <= j < i ==> nonce@[j] == bytes@[j],
            forall|j: int| i <= j < 12 ==> nonce@[j] == 0u8,
        decreases 8 - i,
    {
        nonce[i] = bytes[i];
        i += 1;
    }
    assert(nonce@ =~= nonce_of(number));
    nonce
}

/// Two encryptions with different numbers never share a nonce.
pub proof fn lemma_nonce_injective(a: u64, b: u64)
    requires
        nonce_of(a) == nonce_of(b),
    ensures
        a == b,
{
    vstd::bytes::lemma_auto_spec_u64_to_from_le_bytes();
    let sa = vstd::bytes::spec_u64_to_le_bytes(a);
    let sb = vstd::bytes::spec_u64_to_le_bytes(b);
    assert(nonce_of(a).subrange(0, 8) =~= sa);
    assert(nonce_of(b).subrange(0, 8) =~= sb);
}

} // verus!
