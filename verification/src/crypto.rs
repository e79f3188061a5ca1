//! Encryption of provider API keys at rest with ChaCha20-Poly1305. A stored
//! value is `enc:v1:` followed by base64(nonce || ciphertext).

use crate::codec::{
    aead_decrypt, aead_encrypt, aead_message_limit, aead_opening, aead_sealing,
    base64_decode, base64_decoding, base64_encode, base64_encoding, base64_input_limit,
    bytes_range, key_array, random_key, random_nonce, utf8_string, NONCE_LEN, TAG_LEN,
};
use crate::text::{chars_of, push_str, starts_with, starts_with_exec, string_of, string_of_range};
use vstd::prelude::*;
use vstd::utf8::{decode_utf8, encode_utf8, valid_utf8};

verus! {

broadcast use {vstd::utf8::encode_utf8_valid_utf8, vstd::utf8::encode_utf8_decode_utf8};

/// Marker that starts every stored secret.
pub const PREFIX: &'static str = "enc:v1:";

/// Name of the key file inside the config directory.
pub const KEY_FILENAME: &'static str = "secret.key";

/// The characters of [`PREFIX`].
pub open spec fn enc_prefix() -> Seq<char> {
    seq!['e', 'n', 'c', ':', 'v', '1', ':']
}

/// The stored form of `plaintext` sealed under `key` with `nonce`.
pub open spec fn sealed_text(key: Seq<u8>, nonce: Seq<u8>, plaintext: Seq<char>) -> Seq<char> {
    enc_prefix() + base64_encoding(nonce + aead_sealing(key, nonce, encode_utf8(plaintext)))
}

/// Why a secret could not be encrypted or decrypted.
#[derive(Debug, Clone, Copy, PartialEq, Eq, Structural)]
pub enum CryptoError {
    /// The value does not start with the `enc:v1:` marker.
    NotEncrypted,
    /// The text after the marker is not valid base64.
    InvalidEncoding,
    /// The decoded blob is too short to hold a nonce and a ciphertext.
    TooShort,
    /// Authentication failed: wrong key or tampered value.
    DecryptionFailed,
    /// The decrypted bytes are not valid UTF-8.
    InvalidUtf8,
    /// The cipher refused the plaintext.
    EncryptionFailed,
}

impl CryptoError {
    /// The message reported for this error.
    pub fn describe(&self) -> (s: &'static str)
        ensures
            s@ == (match *self {
                CryptoError::NotEncrypted => "value is not in encrypted format"@,
                CryptoError::InvalidEncoding => "decode encrypted value"@,
                CryptoError::TooShort => "encrypted value too short"@,
                CryptoError::DecryptionFailed => "decryption failed (wrong or missing key?)"@,
                CryptoError::InvalidUtf8 => "decrypted value is not valid UTF-8"@,
                CryptoError::EncryptionFailed => "encryption failed"@,
            }),
    {
        match self {
            CryptoError::NotEncrypted => "value is not in encrypted format",
            CryptoError::InvalidEncoding => "decode encrypted value",
            CryptoError::TooShort => "encrypted value too short",
            CryptoError::DecryptionFailed => "decryption failed (wrong or missing key?)",
            CryptoError::InvalidUtf8 => "decrypted value is not valid UTF-8",
            CryptoError::EncryptionFailed => "encryption failed",
        }
    }
}

/// `stored` is the stored form of `plaintext` sealed under `key` with a
/// nonce `nonce` of the right length.
pub open spec fn is_sealing_of(stored: Seq<char>, key: Seq<u8>, nonce: Seq<u8>, plaintext: Seq<char>) -> bool {
    &&& nonce.len() == NONCE_LEN
    &&& encode_utf8(plaintext).len() < aead_message_limit()
    &&& aead_sealing(key, nonce, encode_utf8(plaintext)).len() == encode_utf8(plaintext).len() + TAG_LEN
    &&& stored == sealed_text(key, nonce, plaintext)
}

/// What decrypting `stored` with `key` yields.
pub open spec fn decrypt_result(stored: Seq<char>, key: Seq<u8>) -> Result<Seq<char>, CryptoError> {
    if !starts_with(stored, enc_prefix()) {
        Err(CryptoError::NotEncrypted)
    } else {
        match base64_decoding(stored.subrange(7, stored.len() as int)) {
            None => Err(CryptoError::InvalidEncoding),
            Some(blob) => if blob.len() <= NONCE_LEN {
                Err(CryptoError::TooShort)
            } else {
                match aead_opening(
                    key,
                    blob.subrange(0, NONCE_LEN as int),
                    blob.subrange(NONCE_LEN as int, blob.len() as int),
                ) {
                    None => Err(CryptoError::DecryptionFailed),
                    Some(p) => if valid_utf8(p) {
                        Ok(decode_utf8(p))
                    } else {
                        Err(CryptoError::InvalidUtf8)
                    },
                }
            },
        }
    }
}

fn prefix_chars() -> (v: Vec<char>)
    ensures
        v@ == enc_prefix(),
{
    let v = vec!['e', 'n', 'c', ':', 'v', '1', ':'];
    assert(v@ =~= enc_prefix());
    v
}

/// Whether a stored value is in the encrypted format.
pub fn is_encrypted(stored: &str) -> (b: bool)
    ensures
        b == starts_with(stored@, enc_prefix()),
{
    let v = chars_of(stored);
    let p = prefix_chars();
    starts_with_exec(&v, &p)
}

/// Encrypt `plaintext` under `key` with the given nonce.
pub fn encrypt_with_nonce(plaintext: &str, key: &[u8; 32], nonce: &[u8; 12]) -> (r: Result<
    String,
    CryptoError,
>)
    requires
        encode_utf8(plaintext@).len() + NONCE_LEN + TAG_LEN < base64_input_limit(),
    ensures
        r is Ok <==> encode_utf8(plaintext@).len() < aead_message_limit(),
        r matches Ok(s) ==> is_sealing_of(s@, key@, nonce@, plaintext@),
        r matches Err(e) ==> e == CryptoError::EncryptionFailed,
{
    let bytes = plaintext.as_bytes();
    let ct = match aead_encrypt(key, nonce, bytes) {
        Ok(c) => c,
        Err(_) => {
            return Err(CryptoError::EncryptionFailed);
        },
    };
    let mut blob: Vec<u8> = Vec::new();
    let mut i: usize = 0;
    while i < NONCE_LEN
        invariant
            i <= NONCE_LEN,
            nonce@.len() == NONCE_LEN,
            blob@ == nonce@.subrange(0, i as int),
        decreases NONCE_LEN - i,
    {
        blob.push(nonce[i]);
        i = i + 1;
        assert(blob@ =~= nonce@.subrange(0, i as int));
    }
    assert(nonce@.subrange(0, NONCE_LEN as int) =~= nonce@);
    let mut j: usize = 0;
    while j < ct.len()
        invariant
            j <= ct@.len(),
            blob@ == nonce@ + ct@.subrange(0, j as int),
        decreases ct@.len() - j,
    {
        blob.push(ct[j]);
        j = j + 1;
        assert(blob@ =~= nonce@ + ct@.subrange(0, j as int));
    }
    assert(ct@.subrange(0, ct@.len() as int) =~= ct@);
    let encoded = base64_encode(blob.as_slice());
    let mut out = string_of(&prefix_chars());
    push_str(&mut out, encoded.as_str());
    Ok(out)
}

/// Encrypt a secret for storage, under a fresh random nonce.
pub fn encrypt(plaintext: &str, key: &[u8; 32]) -> (r: Result<String, CryptoError>)
    requires
        encode_utf8(plaintext@).len() + NONCE_LEN + TAG_LEN < base64_input_limit(),
    ensures
        r is Ok <==> encode_utf8(plaintext@).len() < aead_message_limit(),
        r matches Ok(s) ==> exists|n: Seq<u8>| #[trigger] is_sealing_of(s@, key@, n, plaintext@),
        r matches Err(e) ==> e == CryptoError::EncryptionFailed,
{
    let nonce = random_nonce();
    let r = encrypt_with_nonce(plaintext, key, &nonce);
    proof {
        if r is Ok {
            assert(is_sealing_of(r->Ok_0@, key@, nonce@, plaintext@));
        }
    }
    r
}

/// Decrypt a stored secret. A value that [`encrypt`] produced under the same
/// key decrypts to the original plaintext: `encrypt` yields a sealing of the
/// plaintext for every plaintext it accepts (those whose bytes, with nonce
/// and tag, fit the base64 encoder, a machine limit), and any sealing of
/// `p` decrypts to `p`.
pub fn decrypt(stored: &str, key: &[u8; 32]) -> (r: Result<String, CryptoError>)
    ensures
        r is Ok <==> decrypt_result(stored@, key@) is Ok,
        r matches Ok(s) ==> decrypt_result(stored@, key@) == Ok::<Seq<char>, CryptoError>(s@),
        r matches Err(e) ==> decrypt_result(stored@, key@) == Err::<Seq<char>, CryptoError>(e),
        forall|n: Seq<u8>, p: Seq<char>|
            #[trigger] is_sealing_of(stored@, key@, n, p) ==> r is Ok && r->Ok_0@ == p,
{
    let v = chars_of(stored);
    let prefix = prefix_chars();
    if !starts_with_exec(&v, &prefix) {
        proof {
            assert forall|n: Seq<u8>, p: Seq<char>|
                #[trigger] is_sealing_of(stored@, key@, n, p) implies false by {
                let tail = base64_encoding(n + aead_sealing(key@, n, encode_utf8(p)));
                assert((enc_prefix() + tail).subrange(0, 7) =~= enc_prefix());
            }
        }
        return Err(CryptoError::NotEncrypted);
    }
    let rest = string_of_range(&v, 7, v.len());
    let blob = match base64_decode(rest.as_str()) {
        Ok(b) => b,
        Err(_) => {
            proof {
                assert forall|n: Seq<u8>, p: Seq<char>|
                    #[trigger] is_sealing_of(stored@, key@, n, p) implies false by {
                    assert(rest@ =~= base64_encoding(n + aead_sealing(key@, n, encode_utf8(p))));
                }
            }
            return Err(CryptoError::InvalidEncoding);
        },
    };
    if blob.len() <= NONCE_LEN {
        proof {
            assert forall|n: Seq<u8>, p: Seq<char>|
                #[trigger] is_sealing_of(stored@, key@, n, p) implies false by {
                assert(stored@.subrange(7, stored@.len() as int) =~= base64_encoding(
                    n + aead_sealing(key@, n, encode_utf8(p)),
                ));
            }
        }
        return Err(CryptoError::TooShort);
    }
    let nonce = bytes_range(blob.as_slice(), 0, NONCE_LEN);
    let ct = bytes_range(blob.as_slice(), NONCE_LEN, blob.len());
    let plain = match aead_decrypt(key, nonce.as_slice(), ct.as_slice()) {
        Ok(p) => p,
        Err(_) => {
            proof {
                assert forall|n: Seq<u8>, p: Seq<char>|
                    #[trigger] is_sealing_of(stored@, key@, n, p) implies false by {
                    let sealed = aead_sealing(key@, n, encode_utf8(p));
                    assert(stored@.subrange(7, stored@.len() as int) =~= base64_encoding(
                        n + sealed,
                    ));
                    assert(blob@ == n + sealed);
                    assert(nonce@ =~= n);
                    assert(ct@ =~= sealed);
                }
            }
            return Err(CryptoError::DecryptionFailed);
        },
    };
    let ghost plain_bytes = plain@;
    match utf8_string(plain) {
        Some(s) => {
            proof {
                assert forall|n: Seq<u8>, p: Seq<char>|
                    #[trigger] is_sealing_of(stored@, key@, n, p) implies s@ == p by {
                    let sealed = aead_sealing(key@, n, encode_utf8(p));
                    assert(stored@.subrange(7, stored@.len() as int) =~= base64_encoding(
                        n + sealed,
                    ));
                    assert(blob@ == n + sealed);
                    assert(nonce@ =~= n);
                    assert(ct@ =~= sealed);
                    assert(plain_bytes == encode_utf8(p));
                }
            }
            Ok(s)
        },
        None => {
            proof {
                assert forall|n: Seq<u8>, p: Seq<char>|
                    #[trigger] is_sealing_of(stored@, key@, n, p) implies false by {
                    let sealed = aead_sealing(key@, n, encode_utf8(p));
                    assert(stored@.subrange(7, stored@.len() as int) =~= base64_encoding(
                        n + sealed,
                    ));
                    assert(blob@ == n + sealed);
                    assert(nonce@ =~= n);
                    assert(ct@ =~= sealed);
                    assert(plain_bytes == encode_utf8(p));
                }
            }
            Err(CryptoError::InvalidUtf8)
        },
    }
}

/// Why the key file could not be used.
#[derive(Debug, Clone, Copy, PartialEq, Eq, Structural)]
pub enum KeyFileError {
    /// The file does not hold exactly 32 bytes; it holds this many.
    WrongLength(usize),
}

impl KeyFileError {
    /// The message reported for the key file at `path`.
    pub fn describe(&self, path: &str) -> (s: String)
        ensures
            s@ == (match *self {
                KeyFileError::WrongLength(n) => "key file "@ + path@
                    + " is corrupt (expected 32 bytes, found "@ + crate::text::decimal(n as nat)
                    + ")"@,
            }),
    {
        let mut s = String::new();
        match self {
            KeyFileError::WrongLength(n) => {
                push_str(&mut s, "key file ");
                push_str(&mut s, path);
                push_str(&mut s, " is corrupt (expected 32 bytes, found ");
                crate::text::push_decimal(&mut s, *n as u64);
                push_str(&mut s, ")");
            },
        }
        s
    }
}

/// The installation key held by a key file's contents: exactly 32 bytes.
pub fn key_from_file(bytes: &[u8]) -> (r: Result<[u8; 32], KeyFileError>)
    ensures
        r is Ok <==> bytes@.len() == 32,
        r matches Ok(k) ==> k@ == bytes@,
        r matches Err(e) ==> e == KeyFileError::WrongLength(bytes@.len() as usize),
{
    match key_array(bytes) {
        Some(k) => Ok(k),
        None => Err(KeyFileError::WrongLength(bytes.len())),
    }
}

/// A fresh installation key, drawn from the operating system's RNG.
pub fn generate_key() -> (k: [u8; 32]) {
    random_key()
}

/// The key file inside the application directory `config_dir`.
pub fn key_file_path(config_dir: &str) -> (r: String)
    ensures
        r@ == crate::config::joined(config_dir@, KEY_FILENAME@),
{
    crate::config::join_path(config_dir, KEY_FILENAME)
}

/// The installation key, set at most once per process.
pub struct KeySlot {
    key: Option<[u8; 32]>,
}

impl View for KeySlot {
    type V = Option<Seq<u8>>;

    closed spec fn view(&self) -> Option<Seq<u8>> {
        match self.key {
            Some(k) => Some(k@),
            None => None,
        }
    }
}

impl KeySlot {
    /// An empty slot.
    pub fn new() -> (s: Self)
        ensures
            s@ is None,
    {
        KeySlot { key: None }
    }

    /// The key, if it has been set.
    pub fn get(&self) -> (k: Option<[u8; 32]>)
        ensures
            k matches Some(key) ==> self@ == Some(key@),
            k is None ==> self@ is None,
    {
        self.key
    }

    /// Override the installation key. Takes effect only if no key has been
    /// set yet; returns whether it did.
    pub fn set_test_key(&mut self, key_bytes: [u8; 32]) -> (took: bool)
        ensures
            took == (old(self)@ is None),
            took ==> final(self)@ == Some(key_bytes@),
            !took ==> final(self)@ == old(self)@,
    {
        if self.key.is_none() {
            self.key = Some(key_bytes);
            true
        } else {
            false
        }
    }

    /// The key, initialising the slot with `loaded` if it is still empty. A
    /// key that is already set is never replaced.
    pub fn get_or_init(&mut self, loaded: [u8; 32]) -> (k: [u8; 32])
        ensures
            old(self)@ matches Some(existing) ==> k@ == existing && final(self)@ == old(self)@,
            old(self)@ is None ==> k@ == loaded@ && final(self)@ == Some(loaded@),
    {
        match self.key {
            Some(k) => k,
            None => {
                self.key = Some(loaded);
                loaded
            },
        }
    }
}

} // verus!
