//! Identifiers, key handles and the fixed-size quantities of the cipher.

use vstd::prelude::*;
use crate::config::UNIQUE_ID_LEN;

verus! {

/// A 256-bit key of the authenticated cipher.
pub type AeadKey = [u8; 32];

/// A 96-bit nonce of the authenticated cipher.
pub type AeadNonce = [u8; 12];

/// A 128-bit authentication tag.
pub type AeadTag = [u8; 16];

/// The algorithm family a key-generation request targets.
#[derive(Clone, Copy, Debug, PartialEq, Eq)]
pub enum Mechanism {
    /// Ed25519 signature keys.
    Ed25519,
    /// NIST P-256 keys; named by clients, not served yet.
    P256,
    /// X25519 agreement keys; named by clients, not served yet.
    X25519,
}

/// The store that a key is written to.
#[derive(Clone, Copy, Debug, PartialEq, Eq)]
pub enum StorageLocation {
    /// The store that keeps its files across power loss.
    Durable,
    /// The store whose files last for the session only.
    Volatile,
}

/// The lowercase hexadecimal digit of a value below sixteen.
pub open spec fn hex_digit(nibble: int) -> u8 {
    if nibble < 10 {
        (0x30 + nibble) as u8
    } else {
        (0x57 + nibble) as u8
    }
}

/// The lowercase hexadecimal rendering of a byte string: two digits per
/// byte, the high nibble first.
pub open spec fn hex_of(bytes: Seq<u8>) -> Seq<u8> {
    Seq::new(
        2 * bytes.len(),
        |i: int|
            if i % 2 == 0 {
                hex_digit(bytes[i / 2] as int / 16)
            } else {
                hex_digit(bytes[i / 2] as int % 16)
            },
    )
}

/// The value of a lowercase hexadecimal digit.
pub open spec fn hex_value(digit: u8) -> int {
    if digit < 0x3a {
        digit as int - 0x30
    } else {
        digit as int - 0x57
    }
}

/// Sixteen bytes drawn from the entropy source; names one generated key.
#[derive(Clone, Copy, Debug, PartialEq, Eq)]
pub struct UniqueId(pub [u8; UNIQUE_ID_LEN]);

impl View for UniqueId {
    type V = Seq<u8>;

    open spec fn view(&self) -> Seq<u8> {
        self.0@
    }
}

fn hex_digit_of(nibble: u8) -> (digit: u8)
    requires
        nibble < 16,
    ensures
        digit == hex_digit(nibble as int),
{
    if nibble < 10 {
        0x30 + nibble
    } else {
        0x57 + nibble
    }
}

impl UniqueId {
    /// The identifier as 32 lowercase hexadecimal characters.
    pub fn hex(&self) -> (out: [u8; 32])
        ensures
            out@ == hex_of(self@),
    {
        let mut out: [u8; 32] = [0u8; 32];
        let mut i: usize = 0;
        while i < 16
            invariant
                i <= 16,
                forall|j: int| 0 <= j < 2 * i ==> out@[j] == #[trigger] hex_of(self@)[j],
            decreases 16 - i,
        {
            let byte: u8 = self.0[i];
            out[2 * i] = hex_digit_of(byte / 16);
            out[2 * i + 1] = hex_digit_of(byte % 16);
            i += 1;
        }
        assert(out@ =~= hex_of(self@));
        out
    }
}

/// A byte is recovered from its two hexadecimal digits.
pub proof fn lemma_hex_digits_decode(byte: u8)
    ensures
        hex_value(hex_digit(byte as int / 16)) * 16 + hex_value(hex_digit(byte as int % 16))
            == byte,
{
}

/// Hexadecimal rendering loses nothing: byte strings with the same
/// rendering are the same.
pub proof fn lemma_hex_injective(a: Seq<u8>, b: Seq<u8>)
    requires
        hex_of(a) == hex_of(b),
    ensures
        a == b,
{
    assert(hex_of(a).len() == 2 * a.len());
    assert(hex_of(b).len() == 2 * b.len());
    assert forall|i: int| 0 <= i < a.len() implies a[i] == b[i] by {
        lemma_hex_digits_decode(a[i]);
        lemma_hex_digits_decode(b[i]);
        assert(hex_of(a)[2 * i] == hex_digit(a[i] as int / 16));
        assert(hex_of(b)[2 * i] == hex_digit(b[i] as int / 16));
        assert(hex_of(a)[2 * i + 1] == hex_digit(a[i] as int % 16));
        assert(hex_of(b)[2 * i + 1] == hex_digit(b[i] as int % 16));
    }
    assert(a =~= b);
}

/// The only form in which a key is ever shown to a client.
#[derive(Clone, Copy, Debug, PartialEq, Eq)]
pub struct KeyHandle {
    pub key_id: UniqueId,
}

} // verus!
