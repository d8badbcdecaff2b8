//! The cryptographic functions and the text functions that other crates provide.

use vstd::prelude::*;
use crypto::digest::Digest;
use crypto::mac::Mac;
use crypto::symmetriccipher::BlockEncryptor;
use ring::rand::SecureRandom;

verus! {

/// The longest input, in bytes, that is handed to a digest.
pub const INPUT_LIMIT: usize = 0xffff_ffff;

/// The MD5 digest of `data`: what `crypto::md5::Md5` gives for it.
pub uninterp spec fn md5_of(data: Seq<u8>) -> Seq<u8>;

/// The HMAC with MD5 of `data` under `key`: what `crypto::hmac::Hmac` gives.
pub uninterp spec fn hmac_md5_of(key: Seq<u8>, data: Seq<u8>) -> Seq<u8>;

/// The AES-128 encryption of one block of sixteen bytes under a key of
/// sixteen bytes: what `crypto::aessafe::AesSafe128Encryptor` gives.
pub uninterp spec fn aes128_of(key: Seq<u8>, block: Seq<u8>) -> Seq<u8>;

/// The HMAC with SHA-256 of `data` under `key`: what `ring::hmac::sign` gives
/// with a key made by `ring::hmac::Key::new` for `HMAC_SHA256`.
pub uninterp spec fn hmac_sha256_of(key: Seq<u8>, data: Seq<u8>) -> Seq<u8>;

/// The key of `len` bytes that PBKDF2 with HMAC-SHA256 derives from a secret
/// and a salt in a number of rounds: what `ring::pbkdf2::derive` gives.
pub uninterp spec fn pbkdf2_of(rounds: u32, salt: Seq<u8>, secret: Seq<u8>, len: nat) -> Seq<u8>;

/// `crypto::md5::Md5`: the digest of `data`, sixteen bytes long.
#[verifier::external_body]
pub(crate) fn md5(data: &[u8]) -> (out: [u8; 16])
    requires
        data@.len() <= INPUT_LIMIT,
    ensures
        out@ == md5_of(data@),
{
    let mut digest = crypto::md5::Md5::new();
    let mut out = [0u8; 16];
    digest.input(data);
    digest.result(&mut out);
    out
}

/// `crypto::hmac::Hmac` over `crypto::md5::Md5`: the code of `data` under
/// `key`, sixteen bytes long.
#[verifier::external_body]
pub(crate) fn hmac_md5(key: &[u8], data: &[u8]) -> (out: [u8; 16])
    requires
        key@.len() <= INPUT_LIMIT,
        data@.len() <= INPUT_LIMIT,
    ensures
        out@ == hmac_md5_of(key@, data@),
{
    let mut hmac = crypto::hmac::Hmac::new(crypto::md5::Md5::new(), key);
    let mut out = [0u8; 16];
    hmac.input(data);
    hmac.raw_result(&mut out);
    out
}

/// `crypto::aessafe::AesSafe128Encryptor::encrypt_block`: one block
/// encrypted under `key`.
#[verifier::external_body]
pub(crate) fn aes128_encrypt(key: &[u8; 16], block: &[u8; 16]) -> (out: [u8; 16])
    ensures
        out@ == aes128_of(key@, block@),
{
    let mut out = [0u8; 16];
    crypto::aessafe::AesSafe128Encryptor::new(key).encrypt_block(block, &mut out);
    out
}

/// `ring::hmac::sign` with a key for `HMAC_SHA256`: the tag of `data` under
/// `key`, thirty-two bytes long.
#[verifier::external_body]
pub(crate) fn hmac_sha256(key: &[u8], data: &[u8]) -> (tag: Vec<u8>)
    requires
        key@.len() <= INPUT_LIMIT,
        data@.len() <= INPUT_LIMIT,
    ensures
        tag@ == hmac_sha256_of(key@, data@),
        tag@.len() == 32,
{
    let key = ring::hmac::Key::new(ring::hmac::HMAC_SHA256, key);
    ring::hmac::sign(&key, data).as_ref().to_vec()
}

/// `ring::hmac::verify` with a key for `HMAC_SHA256`: whether `tag` is the
/// tag of `data` under `key`. It computes the tag and compares.
#[verifier::external_body]
pub(crate) fn hmac_sha256_verify(key: &[u8], data: &[u8], tag: &[u8]) -> (ok: bool)
    requires
        key@.len() <= INPUT_LIMIT,
        data@.len() <= INPUT_LIMIT,
    ensures
        ok == (tag@ == hmac_sha256_of(key@, data@)),
{
    let key = ring::hmac::Key::new(ring::hmac::HMAC_SHA256, key);
    ring::hmac::verify(&key, data, tag).is_ok()
}

/// `ring::pbkdf2::derive` with `PBKDF2_HMAC_SHA256`: a key of `len` bytes.
#[verifier::external_body]
pub(crate) fn pbkdf2_sha256(rounds: u32, salt: &[u8], secret: &[u8], len: usize) -> (key: Vec<u8>)
    requires
        rounds > 0,
        salt@.len() <= INPUT_LIMIT,
        secret@.len() <= INPUT_LIMIT,
        len <= INPUT_LIMIT,
    ensures
        key@ == pbkdf2_of(rounds, salt@, secret@, len as nat),
        key@.len() == len,
{
    let mut key = vec![0u8; len];
    let rounds = std::num::NonZeroU32::new(rounds).unwrap();
    ring::pbkdf2::derive(ring::pbkdf2::PBKDF2_HMAC_SHA256, rounds, salt, secret, &mut key);
    key
}

/// `ring::rand::SystemRandom::fill`: `len` bytes from the system's source of
/// randomness, or nothing where the source fails. Nothing is said of the
/// bytes.
#[verifier::external_body]
pub(crate) fn system_random(len: usize) -> (bytes: Option<Vec<u8>>)
    ensures
        bytes matches Some(b) ==> b@.len() == len,
{
    let mut bytes = vec![0u8; len];
    match ring::rand::SystemRandom::new().fill(&mut bytes) {
        Ok(()) => Some(bytes),
        Err(_) => None,
    }
}

/// `rand::random`: sixteen random bytes. Nothing is said of them.
#[verifier::external_body]
pub(crate) fn random_block() -> (block: [u8; 16]) {
    rand::random()
}

/// An algorithm of authenticated encryption.
#[derive(Debug, Clone, Copy, PartialEq, Eq, Structural)]
pub enum Cipher {
    ChaCha20Poly1305,
    Aes128Gcm,
    Aes256Gcm,
}

/// The length of the tag that sealing adds, in bytes.
pub const SEAL_TAG_LEN: usize = 16;

impl Cipher {
    /// The length of the key of the algorithm, in bytes.
    pub open spec fn spec_key_len(self) -> nat {
        match self {
            Cipher::ChaCha20Poly1305 => 32,
            Cipher::Aes128Gcm => 16,
            Cipher::Aes256Gcm => 32,
        }
    }

    /// A number for the algorithm.
    pub open spec fn id(self) -> int {
        match self {
            Cipher::ChaCha20Poly1305 => 0,
            Cipher::Aes128Gcm => 1,
            Cipher::Aes256Gcm => 2,
        }
    }

    /// The length of the key of the algorithm, in bytes.
    pub fn key_len(self) -> (n: usize)
        ensures
            n == self.spec_key_len(),
    {
        match self {
            Cipher::ChaCha20Poly1305 => 32,
            Cipher::Aes128Gcm => 16,
            Cipher::Aes256Gcm => 32,
        }
    }
}

/// The data `plain` sealed by the algorithm numbered `cipher` under `key`
/// with `nonce` and no associated data: the encrypted data, then the tag.
/// It is what `ring::aead::LessSafeKey::seal_in_place_append_tag` gives.
pub uninterp spec fn sealed_of(cipher: int, key: Seq<u8>, nonce: Seq<u8>, plain: Seq<u8>) -> Seq<u8>;

/// The data that `sealed` opens to under `key` with `nonce`, or nothing where
/// it is not authentic: what `ring::aead::LessSafeKey::open_in_place` gives.
pub uninterp spec fn opened_of(cipher: int, key: Seq<u8>, nonce: Seq<u8>, sealed: Seq<u8>) -> Option<
    Seq<u8>,
>;

/// `ring::aead::LessSafeKey::seal_in_place_append_tag`, with no associated
/// data: the data encrypted, and sixteen bytes of tag behind it. What was
/// sealed opens, under the same key and nonce, to the data.
#[verifier::external_body]
pub(crate) fn aead_seal(cipher: Cipher, key: &[u8], nonce: &[u8; 12], plain: &[u8]) -> (out: Vec<u8>)
    requires
        key@.len() == cipher.spec_key_len(),
        plain@.len() <= INPUT_LIMIT,
    ensures
        out@ == sealed_of(cipher.id(), key@, nonce@, plain@),
        out@.len() == plain@.len() + SEAL_TAG_LEN,
        opened_of(cipher.id(), key@, nonce@, out@) == Some(plain@),
{
    let algorithm = match cipher {
        Cipher::ChaCha20Poly1305 => &ring::aead::CHACHA20_POLY1305,
        Cipher::Aes128Gcm => &ring::aead::AES_128_GCM,
        Cipher::Aes256Gcm => &ring::aead::AES_256_GCM,
    };
    let key = ring::aead::LessSafeKey::new(ring::aead::UnboundKey::new(algorithm, key).unwrap());
    let nonce = ring::aead::Nonce::assume_unique_for_key(*nonce);
    let mut out = plain.to_vec();
    key.seal_in_place_append_tag(nonce, ring::aead::Aad::empty(), &mut out).unwrap();
    out
}

/// `ring::aead::LessSafeKey::open_in_place`, with no associated data: the
/// data, sixteen bytes shorter than what was sealed, or nothing where the
/// tag does not fit.
#[verifier::external_body]
pub(crate) fn aead_open(cipher: Cipher, key: &[u8], nonce: &[u8; 12], sealed: &[u8]) -> (out: Option<
    Vec<u8>,
>)
    requires
        key@.len() == cipher.spec_key_len(),
        sealed@.len() <= INPUT_LIMIT,
    ensures
        match opened_of(cipher.id(), key@, nonce@, sealed@) {
            Some(plain) => out is Some && out->Some_0@ == plain,
            None => out is None,
        },
        out matches Some(plain) ==> plain@.len() + SEAL_TAG_LEN == sealed@.len(),
{
    let algorithm = match cipher {
        Cipher::ChaCha20Poly1305 => &ring::aead::CHACHA20_POLY1305,
        Cipher::Aes128Gcm => &ring::aead::AES_128_GCM,
        Cipher::Aes256Gcm => &ring::aead::AES_256_GCM,
    };
    let key = ring::aead::LessSafeKey::new(ring::aead::UnboundKey::new(algorithm, key).unwrap());
    let nonce = ring::aead::Nonce::assume_unique_for_key(*nonce);
    let mut buf = sealed.to_vec();
    match key.open_in_place(nonce, ring::aead::Aad::empty(), &mut buf) {
        Ok(plain) => Some(plain.to_vec()),
        Err(_) => None,
    }
}

/// The text in lower case: what `str::to_lowercase` gives.
pub uninterp spec fn lowercase_of(text: Seq<char>) -> Seq<char>;

/// The text without the white space at its ends: what `str::trim` gives.
pub uninterp spec fn trimmed_of(text: Seq<char>) -> Seq<char>;

/// `str::to_lowercase`.
#[verifier::external_body]
pub(crate) fn lowercase(text: &str) -> (out: String)
    ensures
        out@ == lowercase_of(text@),
{
    text.to_lowercase()
}

/// `str::trim`.
#[verifier::external_body]
pub(crate) fn trimmed(text: &str) -> (out: &str)
    ensures
        out@ == trimmed_of(text@),
{
    text.trim()
}

} // verus!
