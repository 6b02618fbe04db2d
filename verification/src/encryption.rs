//! Password-based encryption of exported data: a key stretched from the
//! password by rounds of hashing, AES-256-GCM with a random nonce, and
//! Base64 text for the ciphertext and the nonce.
use crate::models::local_time_text;
use aes_gcm::aead::rand_core::RngCore;
use aes_gcm::aead::{Aead, KeyInit};
use base64::Engine;
use std::hash::BuildHasher;
use vstd::prelude::*;
use vstd::utf8::{decode_utf8, encode_utf8, valid_utf8};

verus! {

/// An encrypted package.
#[derive(Clone, Debug)]
pub struct EncryptedData {
    /// The ciphertext (with its tag), in Base64.
    pub ciphertext: String,
    /// The 12-byte nonce, in Base64.
    pub nonce: String,
    /// When it was made, as local time `%Y-%m-%d %H:%M:%S`.
    pub encrypted_at: String,
}

/// Why a package could not be made or opened.
#[derive(PartialEq, Eq, Structural, Clone, Copy, Debug)]
pub enum CryptoError {
    /// The operating system gave no random nonce.
    NoRandomness,
    /// The plaintext is longer than AES-GCM accepts.
    EncryptFailed,
    /// The ciphertext is no Base64.
    CiphertextDecode,
    /// The nonce is no Base64.
    NonceDecode,
    /// Wrong password or damaged data.
    DecryptFailed,
    /// The plaintext is no UTF-8.
    Utf8Decode,
}

pub open spec fn crypto_error_text(e: CryptoError) -> Seq<char> {
    match e {
        CryptoError::NoRandomness => "生成随机数失败"@,
        CryptoError::EncryptFailed => "加密失败: aead::Error"@,
        CryptoError::CiphertextDecode => "Base64 解码密文失败"@,
        CryptoError::NonceDecode => "Base64 解码 nonce 失败"@,
        CryptoError::DecryptFailed => "解密失败：密码错误或数据已损坏"@,
        CryptoError::Utf8Decode => "UTF-8 解码失败"@,
    }
}

impl CryptoError {
    /// The message shown for the error.
    pub fn message(&self) -> (r: String)
        ensures
            r@ == crypto_error_text(*self),
    {
        match self {
            CryptoError::NoRandomness => String::from_str("生成随机数失败"),
            CryptoError::EncryptFailed => String::from_str("加密失败: aead::Error"),
            CryptoError::CiphertextDecode => String::from_str("Base64 解码密文失败"),
            CryptoError::NonceDecode => String::from_str("Base64 解码 nonce 失败"),
            CryptoError::DecryptFailed => String::from_str("解密失败：密码错误或数据已损坏"),
            CryptoError::Utf8Decode => String::from_str("UTF-8 解码失败"),
        }
    }
}

/// What std's `DefaultHasher` gives for a byte vector followed by a round
/// number, each hashed in turn into a fresh hasher.
pub uninterp spec fn default_hash(data: Seq<u8>, round: usize) -> u64;

/// Hashes `data` and then `round` into a fresh `DefaultHasher` and returns
/// `finish()`. `DefaultHasher::new()` uses fixed keys, so the result depends
/// on the two arguments alone (for one build of std).
#[verifier::external_body]
fn hash_round(data: &Vec<u8>, round: usize) -> (r: u64)
    ensures
        r == default_hash(data@, round),
{
    std::hash::BuildHasherDefault::<std::collections::hash_map::DefaultHasher>::default().hash_one((data, round))
}

/// Byte `j` (from the least significant) of a 64-bit word.
pub open spec fn word_byte(h: u64, j: u64) -> u8 {
    ((h >> (8 * j)) & 0xff) as u8
}

/// The eight bytes of a word, least significant first (`to_le_bytes`).
pub open spec fn le_bytes(h: u64) -> Seq<u8> {
    Seq::new(8, |j: int| word_byte(h, j as u64))
}

/// The hashed data and the key bytes after `k` rounds of stretching: round
/// `i` hashes the data with `i`, takes byte `i % 8` of the hash as key byte
/// `i`, and appends the hash's bytes to the data.
pub open spec fn stretch(password: Seq<u8>, k: nat) -> (Seq<u8>, Seq<u8>)
    decreases k,
{
    if k == 0 {
        (password, Seq::empty())
    } else {
        let (data, key) = stretch(password, (k - 1) as nat);
        let h = default_hash(data, (k - 1) as usize);
        (data + le_bytes(h), key.push(word_byte(h, ((k - 1) % 8) as u64)))
    }
}

/// The 256-bit key of a password.
pub open spec fn key_of(password: Seq<char>) -> Seq<u8> {
    stretch(encode_utf8(password), 32).1
}

proof fn lemma_stretch_len(password: Seq<u8>, k: nat)
    ensures
        stretch(password, k).1.len() == k,
        stretch(password, k).0.len() == password.len() + 8 * k,
    decreases k,
{
    if k > 0 {
        lemma_stretch_len(password, (k - 1) as nat);
    }
}

fn push_word(data: &mut Vec<u8>, h: u64)
    ensures
        final(data)@ == old(data)@ + le_bytes(h),
{
    let ghost start = data@;
    let mut j: u64 = 0;
    while j < 8
        invariant
            j <= 8,
            data@ == start + le_bytes(h).subrange(0, j as int),
        decreases 8 - j,
    {
        data.push(((h >> (8 * j)) & 0xff) as u8);
        assert(le_bytes(h).subrange(0, j + 1) =~= le_bytes(h).subrange(0, j as int).push(word_byte(h, j)));
        j = j + 1;
    }
    assert(le_bytes(h).subrange(0, 8) =~= le_bytes(h));
}

/// The 256-bit key of a password: 32 rounds of `DefaultHasher` over the
/// password's bytes and the hashes so far.
pub fn derive_key(password: &str) -> (r: [u8; 32])
    ensures
        r@ == key_of(password@),
{
    let mut key = [0u8; 32];
    let mut data: Vec<u8> = vstd::slice::slice_to_vec(password.as_bytes());
    let mut i: usize = 0;
    while i < 32
        invariant
            i <= 32,
            data@ == stretch(encode_utf8(password@), i as nat).0,
            forall|k: int| 0 <= k < i ==> key@[k] == stretch(encode_utf8(password@), i as nat).1[k],
        decreases 32 - i,
    {
        let ghost before = stretch(encode_utf8(password@), i as nat);
        proof {
            lemma_stretch_len(encode_utf8(password@), i as nat);
        }
        let h = hash_round(&data, i);
        key[i] = ((h >> (8 * ((i % 8) as u64))) & 0xff) as u8;
        push_word(&mut data, h);
        i = i + 1;
        proof {
            let after = stretch(encode_utf8(password@), i as nat);
            assert(after.1 == before.1.push(word_byte(h, ((i - 1) % 8) as u64)));
        }
    }
    proof {
        lemma_stretch_len(encode_utf8(password@), 32);
        assert(key@ =~= key_of(password@));
    }
    key
}

pub open spec fn bytes_view(r: Option<Vec<u8>>) -> Option<Seq<u8>> {
    match r {
        Some(v) => Some(v@),
        None => None,
    }
}

/// What AES-256-GCM sealing gives for a key, a nonce and a plaintext (with
/// no associated data): the ciphertext followed by the tag.
pub uninterp spec fn aes256_gcm_seal(key: Seq<u8>, nonce: Seq<u8>, plaintext: Seq<u8>) -> Option<Seq<u8>>;

/// What AES-256-GCM opening gives for a key, a nonce and a sealed text:
/// `None` where the tag does not match.
pub uninterp spec fn aes256_gcm_open(key: Seq<u8>, nonce: Seq<u8>, sealed: Seq<u8>) -> Option<Seq<u8>>;

/// The longest plaintext AES-GCM seals (`aes_gcm::P_MAX`).
pub open spec fn seal_limit() -> nat {
    0x1000000000
}

/// `Aes256Gcm::new_from_slice(key)` and then `encrypt(nonce, plaintext)`.
/// The crate refuses only a plaintext longer than `P_MAX`.
#[verifier::external_body]
fn seal(key: &[u8; 32], nonce: &[u8; 12], plaintext: &[u8]) -> (r: Option<Vec<u8>>)
    ensures
        bytes_view(r) == aes256_gcm_seal(key@, nonce@, plaintext@),
        r is None <==> plaintext@.len() > seal_limit(),
{
    let cipher = aes_gcm::Aes256Gcm::new_from_slice(key).ok()?;
    cipher.encrypt(aes_gcm::Nonce::from_slice(nonce), plaintext).ok()
}

/// `Aes256Gcm::new_from_slice(key)` and then `decrypt(nonce, sealed)`. What
/// was sealed with the same key and nonce opens to its plaintext.
#[verifier::external_body]
fn open(key: &[u8; 32], nonce: &[u8], sealed: &[u8]) -> (r: Option<Vec<u8>>)
    requires
        nonce@.len() == 12,
    ensures
        bytes_view(r) == aes256_gcm_open(key@, nonce@, sealed@),
        forall|p: Seq<u8>| aes256_gcm_seal(key@, nonce@, p) == Some(sealed@) ==> bytes_view(r) == Some(p),
{
    let cipher = aes_gcm::Aes256Gcm::new_from_slice(key).ok()?;
    cipher.decrypt(aes_gcm::Nonce::from_slice(nonce), sealed).ok()
}

/// The Base64 text (standard alphabet, padded) of some bytes.
pub uninterp spec fn base64_encode(bytes: Seq<u8>) -> Seq<char>;

/// The bytes of a Base64 text (standard alphabet, padded), if it is one.
pub uninterp spec fn base64_decode(text: Seq<char>) -> Option<Seq<u8>>;

/// `STANDARD.encode(bytes)`.
#[verifier::external_body]
fn encode64(bytes: &[u8]) -> (r: String)
    ensures
        r@ == base64_encode(bytes@),
{
    base64::engine::general_purpose::STANDARD.encode(bytes)
}

/// `STANDARD.decode(text)`, its error taken as `None`; a text the engine
/// wrote decodes to the bytes it was written from.
#[verifier::external_body]
fn decode64(text: &str) -> (r: Option<Vec<u8>>)
    ensures
        bytes_view(r) == base64_decode(text@),
        forall|b: Seq<u8>| base64_encode(b) == text@ ==> bytes_view(r) == Some(b),
{
    base64::engine::general_purpose::STANDARD.decode(text).ok()
}

/// Twelve bytes from the operating system's random source, or `None` where
/// it gives none. Nothing is stated of the bytes.
#[verifier::external_body]
fn random_nonce() -> (r: Option<[u8; 12]>) {
    let mut nonce = [0u8; 12];
    match aes_gcm::aead::OsRng.try_fill_bytes(&mut nonce) {
        Ok(()) => Some(nonce),
        Err(_) => None,
    }
}

/// `String::from_utf8`: the text of bytes that are UTF-8.
#[verifier::external_body]
fn utf8_text(bytes: Vec<u8>) -> (r: Option<String>)
    ensures
        r is Some <==> valid_utf8(bytes@),
        r matches Some(s) ==> s@ == decode_utf8(bytes@),
{
    String::from_utf8(bytes).ok()
}

/// Whether a package was sealed from `plaintext` with `password`, under
/// the nonce `nonce` and with the sealed bytes `sealed`.
pub open spec fn sealed_from(
    encrypted_ciphertext: Seq<char>,
    encrypted_nonce: Seq<char>,
    plaintext: Seq<char>,
    password: Seq<char>,
    nonce: Seq<u8>,
    sealed: Seq<u8>,
) -> bool {
    &&& nonce.len() == 12
    &&& aes256_gcm_seal(key_of(password), nonce, encode_utf8(plaintext)) == Some(sealed)
    &&& encrypted_ciphertext == base64_encode(sealed)
    &&& encrypted_nonce == base64_encode(nonce)
}

/// Encrypts a text with a password: AES-256-GCM under the password's key
/// and a random nonce; ciphertext and nonce in Base64.
pub fn encrypt(plaintext: &str, password: &str) -> (r: Result<EncryptedData, CryptoError>)
    ensures
        r matches Ok(e) ==> exists|n: Seq<u8>, c: Seq<u8>| #![trigger base64_encode(n), base64_encode(c)] sealed_from(e.ciphertext@, e.nonce@, plaintext@, password@, n, c),
        encode_utf8(plaintext@).len() <= seal_limit() ==> r is Ok || r == Err::<EncryptedData, CryptoError>(CryptoError::NoRandomness),
        r matches Err(e) ==> e == CryptoError::NoRandomness || (e == CryptoError::EncryptFailed && encode_utf8(plaintext@).len() > seal_limit()),
{
    let key = derive_key(password);
    let nonce = match random_nonce() {
        Some(n) => n,
        None => {
            return Err(CryptoError::NoRandomness);
        },
    };
    let bytes = plaintext.as_bytes();
    assert(bytes@ == encode_utf8(plaintext@));
    let sealed = match seal(&key, &nonce, bytes) {
        Some(c) => c,
        None => {
            return Err(CryptoError::EncryptFailed);
        },
    };
    let e = EncryptedData {
        ciphertext: encode64(sealed.as_slice()),
        nonce: encode64(&nonce),
        encrypted_at: local_time_text(),
    };
    assert(sealed_from(e.ciphertext@, e.nonce@, plaintext@, password@, nonce@, sealed@));
    Ok(e)
}

/// What opening a package gives, over the named results of the outside calls.
pub open spec fn opened(ciphertext: Seq<char>, nonce: Seq<char>, password: Seq<char>) -> Result<Seq<char>, CryptoError> {
    match base64_decode(ciphertext) {
        None => Err(CryptoError::CiphertextDecode),
        Some(c) => match base64_decode(nonce) {
            None => Err(CryptoError::NonceDecode),
            Some(n) => match aes256_gcm_open(key_of(password), n, c) {
                None => Err(CryptoError::DecryptFailed),
                Some(p) => if valid_utf8(p) {
                    Ok(decode_utf8(p))
                } else {
                    Err(CryptoError::Utf8Decode)
                },
            },
        },
    }
}

/// Whether a nonce text is fit to open with: where it is Base64, its bytes
/// are twelve.
pub open spec fn nonce_fits(nonce: Seq<char>) -> bool {
    base64_decode(nonce) matches Some(n) ==> n.len() == 12
}

pub open spec fn text_result(r: Result<String, CryptoError>) -> Result<Seq<char>, CryptoError> {
    match r {
        Ok(s) => Ok(s@),
        Err(e) => Err(e),
    }
}

/// Opens a package with a password. A package that `encrypt` made from a
/// text with the same password opens to that text.
pub fn decrypt(encrypted: &EncryptedData, password: &str) -> (r: Result<String, CryptoError>)
    requires
        nonce_fits(encrypted.nonce@),
    ensures
        text_result(r) == opened(encrypted.ciphertext@, encrypted.nonce@, password@),
        forall|p: Seq<char>, n: Seq<u8>, c: Seq<u8>|
            #[trigger] sealed_from(encrypted.ciphertext@, encrypted.nonce@, p, password@, n, c) ==> text_result(r) == Ok::<
                Seq<char>,
                CryptoError,
            >(p),
{
    let key = derive_key(password);
    let sealed = match decode64(encrypted.ciphertext.as_str()) {
        Some(c) => c,
        None => {
            return Err(CryptoError::CiphertextDecode);
        },
    };
    let nonce = match decode64(encrypted.nonce.as_str()) {
        Some(n) => n,
        None => {
            return Err(CryptoError::NonceDecode);
        },
    };
    let plain = match open(&key, nonce.as_slice(), sealed.as_slice()) {
        Some(p) => p,
        None => {
            return Err(CryptoError::DecryptFailed);
        },
    };
    let ghost bytes = plain@;
    match utf8_text(plain) {
        Some(s) => {
            proof {
                assert forall|p: Seq<char>, n: Seq<u8>, c: Seq<u8>|
                    #[trigger] sealed_from(encrypted.ciphertext@, encrypted.nonce@, p, password@, n, c) implies s@ == p by {
                    vstd::utf8::encode_utf8_decode_utf8(p);
                }
            }
            Ok(s)
        },
        None => {
            proof {
                assert forall|p: Seq<char>, n: Seq<u8>, c: Seq<u8>|
                    #[trigger] sealed_from(encrypted.ciphertext@, encrypted.nonce@, p, password@, n, c) implies false by {
                    vstd::utf8::encode_utf8_valid_utf8(p);
                }
            }
            Err(CryptoError::Utf8Decode)
        },
    }
}

/// Opens a package where its nonce is fit to open with (as `decrypt`);
/// `None` where the nonce is Base64 of other than twelve bytes.
pub fn decrypt_checked(encrypted: &EncryptedData, password: &str) -> (r: Option<Result<String, CryptoError>>)
    ensures
        r is None <==> !nonce_fits(encrypted.nonce@),
        r matches Some(d) ==> text_result(d) == opened(encrypted.ciphertext@, encrypted.nonce@, password@),
        forall|p: Seq<char>, n: Seq<u8>, c: Seq<u8>|
            #[trigger] sealed_from(encrypted.ciphertext@, encrypted.nonce@, p, password@, n, c) ==> (r matches Some(d)
                && text_result(d) == Ok::<Seq<char>, CryptoError>(p)),
{
    match decode64(encrypted.nonce.as_str()) {
        Some(n) => {
            if n.len() != 12 {
                return None;
            }
        },
        None => {},
    }
    Some(decrypt(encrypted, password))
}

} // verus!
