//! Key management: a fixed-size 32-byte value with a Base64 text codec and a
//! deterministic private-to-public derivation.

use vstd::prelude::*;

verus! {

/// The size in bytes of a key.
pub const KEY_SIZE: usize = 32;

/// The Base64 text that the encoder produces for a byte sequence.
pub uninterp spec fn base64_of(bytes: Seq<u8>) -> Seq<char>;

/// The byte sequence that the decoder recovers from a Base64 text, or `None`
/// where the text is not valid Base64.
pub uninterp spec fn base64_decoded(text: Seq<char>) -> Option<Seq<u8>>;

/// The public key bytes paired with a private key's bytes: a function of the
/// input bytes alone.
pub uninterp spec fn derived_public_of(bytes: Seq<u8>) -> Seq<u8>;

/// Relies on base64::encode (standard alphabet, padded): the text is a
/// function of the input bytes alone.
#[verifier::external_body]
fn base64_encode(bytes: &[u8]) -> (r: String)
    ensures
        r@ == base64_of(bytes@),
{
    base64::encode(bytes)
}

/// Relies on base64::decode (standard alphabet, padded): decoding is a
/// function of the text alone, fails exactly on malformed Base64, and inverts
/// base64::encode.
#[verifier::external_body]
fn base64_decode(text: &str) -> (r: Option<Vec<u8>>)
    ensures
        base64_decoded(text@) is Some ==> r is Some && r->0@ == base64_decoded(text@)->0,
        base64_decoded(text@) is None ==> r is None,
        forall|b: Seq<u8>| text@ == #[trigger] base64_of(b) ==> r is Some && r->0@ == b,
{
    base64::decode(text).ok()
}

/// Relies on x25519_dalek::x25519 applied to the fixed base point: the paired
/// public key is a deterministic function of the private key bytes alone.
#[verifier::external_body]
fn x25519_base_point(bytes: &[u8; 32]) -> (r: [u8; 32])
    ensures
        r@ == derived_public_of(bytes@),
{
    x25519_dalek::x25519(*bytes, x25519_dalek::X25519_BASEPOINT_BYTES)
}

/// Relies on rand::random for fresh key material; nothing is promised of the
/// value drawn.
#[verifier::external_body]
fn random_key_bytes() -> (r: [u8; 32]) {
    rand::random::<[u8; 32]>()
}

/// A cryptographic key, public or private: exactly 32 raw bytes.
#[derive(Debug, Clone, PartialEq)]
pub struct Key {
    bytes: [u8; KEY_SIZE],
}

impl View for Key {
    type V = Seq<u8>;

    closed spec fn view(&self) -> Seq<u8> {
        self.bytes@
    }
}

impl Key {
    /// Generate a new private key from fresh random material.
    pub fn generate_private() -> (k: Key)
        ensures
            k@.len() == KEY_SIZE,
    {
        Key { bytes: random_key_bytes() }
    }

    /// Construct a key that is only composed of zero bytes.
    pub fn zero() -> (k: Key)
        ensures
            k@.len() == KEY_SIZE,
            forall|i: int| 0 <= i < KEY_SIZE ==> k@[i] == 0u8,
    {
        Key { bytes: [0u8; KEY_SIZE] }
    }

    /// Construct a key using the specified byte array.
    pub fn from_bytes(bytes: [u8; KEY_SIZE]) -> (k: Key)
        ensures
            k@ == bytes@,
    {
        Key { bytes }
    }

    /// Construct a key using the specified byte slice; fails unless the slice
    /// is exactly 32 bytes long.
    pub fn from_slice(slice: &[u8]) -> (r: Result<Key, InvalidKey>)
        ensures
            slice@.len() == KEY_SIZE ==> (r matches Ok(k) && k@ == slice@),
            slice@.len() != KEY_SIZE ==> (r matches Err(e) && e == InvalidKey::InvalidLength),
    {
        if slice.len() != KEY_SIZE {
            return Err(InvalidKey::InvalidLength);
        }

        let mut bytes = [0u8; KEY_SIZE];
        let mut i: usize = 0;
        while i < KEY_SIZE
            invariant
                i <= KEY_SIZE,
                slice@.len() == KEY_SIZE,
                forall|j: int| 0 <= j < i ==> bytes@[j] == slice@[j],
            decreases KEY_SIZE - i,
        {
            bytes[i] = slice[i];
            i = i + 1;
        }

        proof {
            assert(bytes@ =~= slice@);
        }
        Ok(Key { bytes })
    }

    /// Construct a key from the provided Base64-encoded text. Fails with
    /// `InvalidBase64` where the text does not decode, and with
    /// `InvalidLength` where it decodes to other than 32 bytes; in
    /// particular, decoding the encoding of any 32-byte sequence gives those
    /// bytes back.
    pub fn from_base64(b64: &str) -> (r: Result<Key, InvalidKey>)
        ensures
            base64_decoded(b64@) is None ==> (r matches Err(e) && e
                == InvalidKey::InvalidBase64),
            (base64_decoded(b64@) is Some && base64_decoded(b64@)->0.len() != KEY_SIZE) ==> (
            r matches Err(e) && e == InvalidKey::InvalidLength),
            (base64_decoded(b64@) is Some && base64_decoded(b64@)->0.len() == KEY_SIZE) ==> (
            r matches Ok(k) && k@ == base64_decoded(b64@)->0),
            forall|b: Seq<u8>|
                b.len() == KEY_SIZE && b64@ == #[trigger] base64_of(b) ==> (r matches Ok(k)
                    && k@ == b),
    {
        let decoded = match base64_decode(b64) {
            Some(v) => v,
            None => {
                return Err(InvalidKey::InvalidBase64);
            },
        };

        match Key::from_slice(decoded.as_slice()) {
            Ok(k) => Ok(k),
            Err(_) => Err(InvalidKey::InvalidLength),
        }
    }

    /// Derive a public key from this key. Assumes `self` is a private key;
    /// the result is a deterministic function of the key bytes.
    pub fn derive_public(&self) -> (k: Key)
        ensures
            k@ == derived_public_of(self@),
    {
        Key { bytes: x25519_base_point(&self.bytes) }
    }

    /// Get the Base64 representation of the key.
    pub fn to_base64(&self) -> (s: String)
        ensures
            s@ == base64_of(self@),
    {
        base64_encode(self.bytes.as_slice())
    }

    /// Get a reference to the underlying key bytes.
    pub fn as_bytes(&self) -> (s: &[u8])
        ensures
            s@ == self@,
    {
        self.bytes.as_slice()
    }

    /// Get a copy of the underlying key bytes.
    pub fn to_bytes(&self) -> (b: [u8; KEY_SIZE])
        ensures
            b@ == self@,
    {
        self.bytes
    }
}

impl DeepView for Key {
    type V = Seq<u8>;

    open spec fn deep_view(&self) -> Seq<u8> {
        self@
    }
}

/// The all-zero byte content of an unset key field in a zero-initialized
/// foreign record.
pub open spec fn zero_key_bytes() -> Seq<u8> {
    Seq::new(KEY_SIZE as nat, |i: int| 0u8)
}

/// Deriving the public key is deterministic: two private keys with the same
/// bytes derive the same public key.
pub proof fn lemma_derive_public_deterministic(a: Key, b: Key)
    requires
        a@ == b@,
    ensures
        derived_public_of(a@) == derived_public_of(b@),
{
}

/// Errors that can happen when dealing with keys.
#[derive(Debug, Clone, Copy, PartialEq, Eq, Structural)]
pub enum InvalidKey {
    InvalidLength,
    InvalidBase64,
}

} // verus!
