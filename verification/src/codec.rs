//! Trusted bridges to the encoding and cipher crates: standard base64
//! (RFC 4648, padded), ChaCha20-Poly1305, and UTF-8 validation.

use base64::Engine;
use chacha20poly1305::aead::{Aead, AeadCore, KeyInit, OsRng};
use chacha20poly1305::{ChaCha20Poly1305, Key, Nonce};
use vstd::prelude::*;
use vstd::utf8::{decode_utf8, valid_utf8};

verus! {

/// Length in bytes of a ChaCha20-Poly1305 key.
pub const KEY_LEN: usize = 32;

/// Length in bytes of a ChaCha20-Poly1305 nonce.
pub const NONCE_LEN: usize = 12;

/// Length in bytes of the Poly1305 authentication tag appended to a ciphertext.
pub const TAG_LEN: usize = 16;

/// Plaintexts at least this long overflow the ChaCha20 block counter.
pub open spec fn aead_message_limit() -> int {
    64int * 4294967295int
}

/// Inputs shorter than this can be base64-encoded without the encoder's
/// length computation overflowing.
pub open spec fn base64_input_limit() -> int {
    3 * (usize::MAX / 4)
}

#[verifier::external_type_specification]
#[verifier::external_body]
pub struct ExDecodeError(base64::DecodeError);

#[verifier::external_type_specification]
#[verifier::external_body]
pub struct ExAeadError(chacha20poly1305::Error);

/// The padded standard-alphabet base64 text of `bytes`.
pub uninterp spec fn base64_encoding(bytes: Seq<u8>) -> Seq<char>;

/// The bytes that `text` decodes to under padded standard base64, if it is
/// well-formed.
pub uninterp spec fn base64_decoding(text: Seq<char>) -> Option<Seq<u8>>;

/// The ChaCha20-Poly1305 ciphertext (with its tag appended) of `plaintext`
/// under `key` and `nonce`, with no associated data.
pub uninterp spec fn aead_sealing(key: Seq<u8>, nonce: Seq<u8>, plaintext: Seq<u8>) -> Seq<u8>;

/// The plaintext that a ChaCha20-Poly1305 ciphertext opens to under `key`
/// and `nonce`, or `None` when authentication fails.
pub uninterp spec fn aead_opening(key: Seq<u8>, nonce: Seq<u8>, ciphertext: Seq<u8>) -> Option<Seq<u8>>;

/// Calls `base64::engine::general_purpose::STANDARD.encode`. Claimed: the
/// result is the encoding named by `base64_encoding`. The encoder panics
/// when the output length overflows `usize`, which `requires` rules out.
#[verifier::external_body]
pub(crate) fn base64_encode(bytes: &[u8]) -> (text: String)
    requires
        bytes@.len() < base64_input_limit(),
    ensures
        text@ == base64_encoding(bytes@),
{
    base64::engine::general_purpose::STANDARD.encode(bytes)
}

/// Calls `base64::engine::general_purpose::STANDARD.decode` on the bytes of
/// `text`. Claimed: success exactly when `base64_decoding` is defined, with
/// that value; and text produced by the encoder decodes back to the bytes it
/// was produced from.
#[verifier::external_body]
pub(crate) fn base64_decode(text: &str) -> (r: Result<Vec<u8>, base64::DecodeError>)
    ensures
        r is Ok <==> base64_decoding(text@) is Some,
        r matches Ok(v) ==> base64_decoding(text@) == Some(v@),
        forall|b: Seq<u8>| text@ == #[trigger] base64_encoding(b) ==> r is Ok && r->Ok_0@ == b,
{
    base64::engine::general_purpose::STANDARD.decode(text)
}

/// Calls `ChaCha20Poly1305::generate_nonce` with the operating-system RNG.
/// The result is random: nothing is claimed beyond its length, which its
/// type fixes.
#[verifier::external_body]
pub(crate) fn random_nonce() -> (nonce: [u8; 12]) {
    let generated = ChaCha20Poly1305::generate_nonce(&mut OsRng);
    let mut out = [0u8; 12];
    out.copy_from_slice(&generated);
    out
}

/// Calls `ChaCha20Poly1305::generate_key` with the operating-system RNG.
/// The result is random: nothing is claimed of it.
#[verifier::external_body]
pub(crate) fn random_key() -> (key: [u8; 32]) {
    let generated = ChaCha20Poly1305::generate_key(&mut OsRng);
    let mut out = [0u8; 32];
    out.copy_from_slice(&generated);
    out
}

/// The bytes of `bytes` as a 32-byte array, when there are exactly 32.
pub(crate) fn key_array(bytes: &[u8]) -> (r: Option<[u8; 32]>)
    ensures
        r is Some <==> bytes@.len() == 32,
        r matches Some(a) ==> a@ == bytes@,
{
    if bytes.len() != 32 {
        return None;
    }
    let mut a = [0u8; 32];
    let mut i: usize = 0;
    while i < 32
        invariant
            i <= 32,
            bytes@.len() == 32,
            a@.len() == 32,
            forall|k: int| 0 <= k < i ==> a@[k] == bytes@[k],
        decreases 32 - i,
    {
        a[i] = bytes[i];
        i = i + 1;
    }
    assert(a@ =~= bytes@);
    Some(a)
}

/// Calls `Aead::encrypt` of `ChaCha20Poly1305` (no associated data).
/// Claimed: it fails only when the plaintext reaches the block-counter
/// limit; otherwise the result is `aead_sealing`, the plaintext followed by
/// a tag, so it is exactly `TAG_LEN` bytes longer.
#[verifier::external_body]
pub(crate) fn aead_encrypt(key: &[u8; 32], nonce: &[u8; 12], plaintext: &[u8]) -> (r: Result<
    Vec<u8>,
    chacha20poly1305::Error,
>)
    ensures
        r is Ok <==> plaintext@.len() < aead_message_limit(),
        r matches Ok(c) ==> c@ == aead_sealing(key@, nonce@, plaintext@) && c@.len()
            == plaintext@.len() + TAG_LEN,
{
    let cipher = ChaCha20Poly1305::new(Key::from_slice(key));
    cipher.encrypt(Nonce::from_slice(nonce), plaintext)
}

/// Calls `Aead::decrypt` of `ChaCha20Poly1305` (no associated data).
/// Claimed: success exactly when `aead_opening` is defined, with that value;
/// and a ciphertext sealed under the same key and nonce opens to the
/// plaintext it was sealed from. `Nonce::from_slice` panics unless the nonce
/// is `NONCE_LEN` bytes, which `requires` rules out.
#[verifier::external_body]
pub(crate) fn aead_decrypt(key: &[u8; 32], nonce: &[u8], ciphertext: &[u8]) -> (r: Result<
    Vec<u8>,
    chacha20poly1305::Error,
>)
    requires
        nonce@.len() == NONCE_LEN,
    ensures
        r is Ok <==> aead_opening(key@, nonce@, ciphertext@) is Some,
        r matches Ok(v) ==> aead_opening(key@, nonce@, ciphertext@) == Some(v@),
        forall|p: Seq<u8>|
            ciphertext@ == #[trigger] aead_sealing(key@, nonce@, p) && p.len()
                < aead_message_limit() ==> r is Ok && r->Ok_0@ == p,
{
    let cipher = ChaCha20Poly1305::new(Key::from_slice(key));
    cipher.decrypt(Nonce::from_slice(nonce), ciphertext)
}

/// Calls `String::from_utf8`. Claimed, as its documentation states: success
/// exactly for valid UTF-8, giving the decoded characters.
#[verifier::external_body]
pub(crate) fn utf8_string(bytes: Vec<u8>) -> (r: Option<String>)
    ensures
        r is Some <==> valid_utf8(bytes@),
        r matches Some(s) ==> s@ == decode_utf8(bytes@),
{
    String::from_utf8(bytes).ok()
}

/// A copy of `v[from..to]`.
pub fn bytes_range(v: &[u8], from: usize, to: usize) -> (r: Vec<u8>)
    requires
        from <= to <= v@.len(),
    ensures
        r@ == v@.subrange(from as int, to as int),
{
    let mut r: Vec<u8> = Vec::new();
    let mut k: usize = from;
    while k < to
        invariant
            from <= k <= to <= v@.len(),
            r@ == v@.subrange(from as int, k as int),
        decreases to - k,
    {
        r.push(v[k]);
        k = k + 1;
        assert(r@ =~= v@.subrange(from as int, k as int));
    }
    r
}

} // verus!
