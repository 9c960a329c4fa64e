//! AES-GCM and AES-CBC-192 encryption helpers over openssl, with base64
//! transport encoding.
//!
//! The library validates key lengths, option sanity and message framing
//! itself; the cipher work is done by openssl behind trusted wrappers whose
//! results carry uninterpreted names, so every contract pins the produced
//! bytes down to those names.

use vstd::prelude::*;

use base64::Engine;

verus! {

use vstd::utf8::{encode_utf8, valid_utf8};

pub const AES_128_KEY_LEN: usize = 16;

pub const AES_192_KEY_LEN: usize = 24;

pub const AES_256_KEY_LEN: usize = 32;

/// Recommended GCM IV length, in bytes.
pub const DEFAULT_NONCE_LEN: usize = 12;

/// GCM authentication tag length, in bytes.
pub const DEFAULT_TAG_LEN: usize = 16;

/// AES block size, in bytes.
pub const AES_BLOCK_SIZE: usize = 16;

/// A key length AES accepts.
pub open spec fn key_len_ok(n: int) -> bool {
    n == 16 || n == 24 || n == 32
}

/// The longest byte buffer openssl's wrapper passes on without panicking:
/// buffer lengths are converted to a C `int`.
pub const MAX_CIPHER_LEN: usize = 0x7fff_ffff;

/// The longest plaintext or ciphertext the cipher helpers accept: one
/// padding block under `MAX_CIPHER_LEN`, so the output buffer stays within
/// the same limit.
pub const MAX_CIPHER_DATA: usize = MAX_CIPHER_LEN - 16;

#[verifier::external_type_specification]
#[verifier::external_body]
pub struct ExErrorStack(openssl::error::ErrorStack);

#[verifier::external_type_specification]
#[verifier::external_body]
pub struct ExDecodeError(base64::DecodeError);

/// What the standard padded base64 engine produces for a byte sequence.
pub uninterp spec fn b64_of(data: Seq<u8>) -> Seq<char>;

/// Relies on base64's STANDARD engine (Engine::encode): standard alphabet
/// with padding; the text depends on the input bytes alone.  Encoding
/// panics only when the output length overflows usize, so inputs anywhere
/// near that size are excluded.
#[verifier::external_body]
pub fn base64_encode(data: &[u8]) -> (r: String)
    requires
        data@.len() <= 0x1000_0000_0000_0000,
    ensures
        r@ == b64_of(data@),
{
    base64::engine::general_purpose::STANDARD.encode(data)
}

/// What the standard padded base64 engine decodes a text to, if anything.
pub uninterp spec fn b64_decode_of(s: Seq<char>) -> Option<Seq<u8>>;

/// Relies on base64's STANDARD engine (Engine::decode): whether a text is
/// accepted, and the bytes it decodes to, depend on the text alone.  Base64
/// decoding shrinks: three bytes come out of every four characters.
#[verifier::external_body]
fn b64_decode_raw(data: &str) -> (r: Result<Vec<u8>, base64::DecodeError>)
    ensures
        r matches Ok(v) ==> b64_decode_of(data@) == Some(v@) && v@.len() <= data@.len(),
        r matches Err(_) ==> b64_decode_of(data@) is None,
{
    base64::engine::general_purpose::STANDARD.decode(data)
}

/// Relies on base64's DecodeError Display implementation for the error text.
#[verifier::external_body]
fn decode_error_message(e: &base64::DecodeError) -> String {
    e.to_string()
}

/// Relies on openssl's ErrorStack Display implementation for the error text.
#[verifier::external_body]
fn error_stack_message(e: &openssl::error::ErrorStack) -> String {
    e.to_string()
}

/// Relies on openssl's rand_bytes: fills the buffer with random bytes.
/// Nothing is promised of the values; the buffer keeps its length.  The
/// underlying call asserts that the length fits a C int, so longer buffers
/// are excluded.
#[verifier::external_body]
fn rand_fill(buf: &mut Vec<u8>) -> (r: Result<(), openssl::error::ErrorStack>)
    requires
        old(buf)@.len() <= 0x7fff_ffff,
    ensures
        final(buf)@.len() == old(buf)@.len(),
{
    openssl::rand::rand_bytes(buf.as_mut_slice())
}

/// Relies on openssl's rand_bytes, drawing a fixed-size random key.
#[verifier::external_body]
fn rand_array<const N: usize>() -> (r: Result<[u8; N], openssl::error::ErrorStack>)
    requires
        N <= 0x7fff_ffff,
    ensures
        r matches Ok(k) ==> k@.len() == N,
{
    let mut key = [0u8; N];
    openssl::rand::rand_bytes(&mut key)?;
    Ok(key)
}

/// The ciphertext and tag AES-GCM produces for a key, IV, plaintext and tag
/// length.  The AES variant is the one matching the key's length.
pub uninterp spec fn gcm_seal_of(key: Seq<u8>, iv: Seq<u8>, pt: Seq<u8>, tag_len: int) -> (Seq<
    u8,
>, Seq<u8>);

/// Relies on openssl's symm::encrypt_aead with AES-GCM.  The AES variant is
/// selected by the key length, which openssl enforces by rejecting any key
/// whose length does not match its cipher.  GCM emits one ciphertext byte
/// per plaintext byte and fills the tag buffer without changing its length;
/// ciphertext and tag depend on the arguments alone.  openssl converts the
/// input, IV and tag lengths to a C `int` and panics above that range, so
/// such lengths are excluded.
#[verifier::external_body]
fn gcm_seal(key: &[u8], iv: &[u8], plaintext: &[u8], tag_len: usize) -> (r: Result<
    (Vec<u8>, Vec<u8>),
    openssl::error::ErrorStack,
>)
    requires
        key_len_ok(key@.len() as int),
        iv@.len() <= MAX_CIPHER_LEN,
        plaintext@.len() <= MAX_CIPHER_DATA,
        tag_len <= MAX_CIPHER_LEN,
    ensures
        r matches Ok(p) ==> (p.0@, p.1@) == gcm_seal_of(key@, iv@, plaintext@, tag_len as int)
            && p.0@.len() == plaintext@.len() && p.1@.len() == tag_len,
{
    let cipher = match key.len() {
        16 => openssl::symm::Cipher::aes_128_gcm(),
        24 => openssl::symm::Cipher::aes_192_gcm(),
        _ => openssl::symm::Cipher::aes_256_gcm(),
    };
    let mut tag = vec![0u8; tag_len];
    let ct = openssl::symm::encrypt_aead(cipher, key, Some(iv), &[], plaintext, &mut tag)?;
    Ok((ct, tag))
}

/// The plaintext AES-GCM recovers for a key, IV, ciphertext and tag, when
/// the tag verifies.
pub uninterp spec fn gcm_open_of(key: Seq<u8>, iv: Seq<u8>, ct: Seq<u8>, tag: Seq<u8>) -> Seq<u8>;

/// Whether AES-GCM accepts a sealed message: the IV is usable and the tag
/// verifies for this key, IV, ciphertext and tag.
pub uninterp spec fn gcm_open_ok_of(key: Seq<u8>, iv: Seq<u8>, ct: Seq<u8>, tag: Seq<u8>) -> bool;

/// Relies on openssl's symm::decrypt_aead with AES-GCM (variant selected by
/// the key length, as when sealing).  Whether decryption succeeds, and the
/// plaintext it recovers, are functions of the arguments alone: a bad IV or
/// tag length and a failed tag check all come back as errors.  A recovered
/// plaintext has one byte per ciphertext byte.  openssl converts the input,
/// IV and tag lengths to a C `int` and panics above that range, so such
/// lengths are excluded.
#[verifier::external_body]
fn gcm_open(key: &[u8], iv: &[u8], ciphertext: &[u8], tag: &[u8]) -> (r: Result<
    Vec<u8>,
    openssl::error::ErrorStack,
>)
    requires
        key_len_ok(key@.len() as int),
        iv@.len() <= MAX_CIPHER_LEN,
        ciphertext@.len() <= MAX_CIPHER_DATA,
        tag@.len() <= MAX_CIPHER_LEN,
    ensures
        (r is Ok) <==> gcm_open_ok_of(key@, iv@, ciphertext@, tag@),
        r matches Ok(v) ==> v@ == gcm_open_of(key@, iv@, ciphertext@, tag@) && v@.len()
            == ciphertext@.len(),
{
    let cipher = match key.len() {
        16 => openssl::symm::Cipher::aes_128_gcm(),
        24 => openssl::symm::Cipher::aes_192_gcm(),
        _ => openssl::symm::Cipher::aes_256_gcm(),
    };
    openssl::symm::decrypt_aead(cipher, key, Some(iv), &[], ciphertext, tag)
}

/// The ciphertext AES-192-CBC with PKCS padding produces for a key, IV and
/// plaintext.
pub uninterp spec fn cbc192_seal_of(key: Seq<u8>, iv: Seq<u8>, pt: Seq<u8>) -> Seq<u8>;

/// Relies on openssl's symm::encrypt with AES-192-CBC; padding is enabled,
/// so at most one extra block is emitted.  The result depends on the
/// arguments alone.  openssl converts the input and IV lengths to a C
/// `int` and panics above that range, so such lengths are excluded.
#[verifier::external_body]
fn cbc192_seal(key: &[u8], iv: &[u8], plaintext: &[u8]) -> (r: Result<
    Vec<u8>,
    openssl::error::ErrorStack,
>)
    requires
        key@.len() == 24,
        iv@.len() <= MAX_CIPHER_LEN,
        plaintext@.len() <= MAX_CIPHER_DATA,
    ensures
        r matches Ok(v) ==> v@ == cbc192_seal_of(key@, iv@, plaintext@) && v@.len()
            <= plaintext@.len() + 16,
{
    openssl::symm::encrypt(openssl::symm::Cipher::aes_192_cbc(), key, Some(iv), plaintext)
}

/// The plaintext AES-192-CBC with PKCS padding recovers for a key, IV and
/// ciphertext, when the padding verifies.
pub uninterp spec fn cbc192_open_of(key: Seq<u8>, iv: Seq<u8>, ct: Seq<u8>) -> Seq<u8>;

/// Whether AES-192-CBC decryption accepts a ciphertext: the IV is usable
/// and the padding verifies for this key, IV and ciphertext.
pub uninterp spec fn cbc192_open_ok_of(key: Seq<u8>, iv: Seq<u8>, ct: Seq<u8>) -> bool;

/// Relies on openssl's symm::decrypt with AES-192-CBC; padding is verified
/// and stripped.  Whether decryption succeeds, and the bytes it recovers,
/// are functions of the arguments alone: a wrong IV length and invalid
/// padding both come back as errors.  openssl converts the input and IV
/// lengths to a C `int` and panics above that range, so such lengths are
/// excluded.
#[verifier::external_body]
fn cbc192_open(key: &[u8], iv: &[u8], ciphertext: &[u8]) -> (r: Result<
    Vec<u8>,
    openssl::error::ErrorStack,
>)
    requires
        key@.len() == 24,
        iv@.len() <= MAX_CIPHER_LEN,
        ciphertext@.len() <= MAX_CIPHER_DATA,
    ensures
        (r is Ok) <==> cbc192_open_ok_of(key@, iv@, ciphertext@),
        r matches Ok(v) ==> v@ == cbc192_open_of(key@, iv@, ciphertext@),
{
    openssl::symm::decrypt(openssl::symm::Cipher::aes_192_cbc(), key, Some(iv), ciphertext)
}

/// Relies on String::from_utf8: succeeds exactly on valid UTF-8, returning
/// the string those bytes encode.
#[verifier::external_body]
fn string_from_utf8(bytes: Vec<u8>) -> (r: Option<String>)
    ensures
        r matches Some(s) ==> encode_utf8(s@) == bytes@ && valid_utf8(bytes@),
        r is None ==> !valid_utf8(bytes@),
{
    String::from_utf8(bytes).ok()
}

/// Why a key could not be produced.
#[derive(Debug)]
pub enum KeyError {
    RandomFailed,
    InvalidKeyLength,
}

/// Why an encryption or decryption operation failed.
#[derive(Debug)]
pub enum CryptoError {
    EncryptionFailed(String),
    DecryptionFailed(String),
    UnsupportedKeyLength { actual: usize },
    InvalidCiphertextLength { min_length: usize, actual: usize },
    TagVerificationFailed,
    InvalidNonceLength,
    InvalidTagLength,
    Base64EncodeError(String),
    Base64DecodeError(String),
    InvalidCiphertextFormat,
    Utf8DecodingFailed(String),
}

/// Numeric error codes mirroring `CryptoError` for foreign callers.
#[derive(Debug, Clone, Copy, PartialEq, Eq, Structural)]
pub enum CryptoErrorCode {
    Success,
    EncryptionFailed,
    DecryptionFailed,
    UnsupportedKeyLength,
    InvalidCiphertextLength,
    TagVerificationFailed,
    InvalidNonceLength,
    InvalidTagLength,
    Base64EncodeError,
    Base64DecodeError,
    InvalidCiphertextFormat,
    Utf8DecodingFailed,
    KeyGenerationFailed,
    NullPointerError,
}

/// Option block as foreign callers pass it.
#[derive(Debug, Clone, Copy)]
pub struct CEncryptionOptions {
    pub nonce_length: usize,
    pub tag_length: usize,
}

/// CBC IV mode as foreign callers pass it.
#[derive(Debug, Clone, Copy, PartialEq, Eq, Structural)]
pub enum CAesCbcMode {
    FixedIv,
    RandomIv,
}

/// The error code that stands for a `CryptoError`.
pub open spec fn code_of_error(err: CryptoError) -> CryptoErrorCode {
    match err {
        CryptoError::EncryptionFailed(_) => CryptoErrorCode::EncryptionFailed,
        CryptoError::DecryptionFailed(_) => CryptoErrorCode::DecryptionFailed,
        CryptoError::UnsupportedKeyLength { .. } => CryptoErrorCode::UnsupportedKeyLength,
        CryptoError::InvalidCiphertextLength { .. } => CryptoErrorCode::InvalidCiphertextLength,
        CryptoError::TagVerificationFailed => CryptoErrorCode::TagVerificationFailed,
        CryptoError::InvalidNonceLength => CryptoErrorCode::InvalidNonceLength,
        CryptoError::InvalidTagLength => CryptoErrorCode::InvalidTagLength,
        CryptoError::Base64EncodeError(_) => CryptoErrorCode::Base64EncodeError,
        CryptoError::Base64DecodeError(_) => CryptoErrorCode::Base64DecodeError,
        CryptoError::InvalidCiphertextFormat => CryptoErrorCode::InvalidCiphertextFormat,
        CryptoError::Utf8DecodingFailed(_) => CryptoErrorCode::Utf8DecodingFailed,
    }
}

/// Map an error to the code foreign callers receive.
pub fn crypto_error_to_code(err: &CryptoError) -> (r: CryptoErrorCode)
    ensures
        r == code_of_error(*err),
{
    match err {
        CryptoError::EncryptionFailed(_) => CryptoErrorCode::EncryptionFailed,
        CryptoError::DecryptionFailed(_) => CryptoErrorCode::DecryptionFailed,
        CryptoError::UnsupportedKeyLength { .. } => CryptoErrorCode::UnsupportedKeyLength,
        CryptoError::InvalidCiphertextLength { .. } => CryptoErrorCode::InvalidCiphertextLength,
        CryptoError::TagVerificationFailed => CryptoErrorCode::TagVerificationFailed,
        CryptoError::InvalidNonceLength => CryptoErrorCode::InvalidNonceLength,
        CryptoError::InvalidTagLength => CryptoErrorCode::InvalidTagLength,
        CryptoError::Base64EncodeError(_) => CryptoErrorCode::Base64EncodeError,
        CryptoError::Base64DecodeError(_) => CryptoErrorCode::Base64DecodeError,
        CryptoError::InvalidCiphertextFormat => CryptoErrorCode::InvalidCiphertextFormat,
        CryptoError::Utf8DecodingFailed(_) => CryptoErrorCode::Utf8DecodingFailed,
    }
}

/// Generate a random AES key of `N` bytes; `N` must be one of the AES key
/// lengths.
pub fn generate_key<const N: usize>() -> (r: Result<[u8; N], KeyError>)
    ensures
        r matches Err(KeyError::InvalidKeyLength) <==> !key_len_ok(N as int),
        r matches Ok(k) ==> k@.len() == N,
{
    if N != AES_128_KEY_LEN && N != AES_192_KEY_LEN && N != AES_256_KEY_LEN {
        return Err(KeyError::InvalidKeyLength);
    }
    match rand_array::<N>() {
        Ok(key) => Ok(key),
        Err(_) => Err(KeyError::RandomFailed),
    }
}

/// Generate a random AES key of `N` bytes, base64-encoded.
pub fn generate_key_base64<const N: usize>() -> (r: Result<String, KeyError>)
    ensures
        r matches Err(KeyError::InvalidKeyLength) <==> !key_len_ok(N as int),
        r matches Ok(s) ==> exists|k: Seq<u8>| k.len() == N && s@ == b64_of(k),
{
    match generate_key::<N>() {
        Ok(key) => {
            let s = base64_encode(key.as_slice());
            proof {
                assert(key@.len() == N && s@ == b64_of(key@));
            }
            Ok(s)
        },
        Err(e) => Err(e),
    }
}

/// Decode standard base64 text to the bytes it denotes.
pub fn base64_decode(data: &str) -> (r: Result<Vec<u8>, CryptoError>)
    ensures
        r matches Ok(v) ==> b64_decode_of(data@) == Some(v@) && v@.len() <= data@.len(),
        r matches Err(e) ==> b64_decode_of(data@) is None && e matches CryptoError::Base64DecodeError(_),
{
    match b64_decode_raw(data) {
        Ok(v) => Ok(v),
        Err(e) => Err(CryptoError::Base64DecodeError(decode_error_message(&e))),
    }
}

/// GCM parameters: IV length and tag length, both in bytes.
#[derive(Debug, Clone)]
pub struct EncryptionOptions {
    pub nonce_length: usize,
    pub tag_length: usize,
}

impl Default for EncryptionOptions {
    /// The recommended GCM parameters: a 12-byte IV and a 16-byte tag.
    fn default() -> (r: Self)
        ensures
            r.nonce_length == DEFAULT_NONCE_LEN,
            r.tag_length == DEFAULT_TAG_LEN,
    {
        Self { nonce_length: DEFAULT_NONCE_LEN, tag_length: DEFAULT_TAG_LEN }
    }
}

/// The sealed message layout: IV, then ciphertext, then tag.
pub open spec fn gcm_package(key: Seq<u8>, iv: Seq<u8>, pt: Seq<u8>, tag_len: int) -> Seq<u8> {
    iv + gcm_seal_of(key, iv, pt, tag_len).0 + gcm_seal_of(key, iv, pt, tag_len).1
}

/// Encrypt with AES-GCM under explicit parameters.  The result is the
/// random IV, the ciphertext and the authentication tag, concatenated.
pub fn encrypt_with_options(key: &[u8], plaintext: &[u8], options: &EncryptionOptions) -> (r:
    Result<Vec<u8>, CryptoError>)
    requires
        options.nonce_length <= MAX_CIPHER_LEN,
        options.tag_length <= MAX_CIPHER_LEN,
        plaintext@.len() <= MAX_CIPHER_DATA,
    ensures
        r matches Err(CryptoError::InvalidNonceLength) <==> options.nonce_length == 0
            || options.tag_length == 0,
        r matches Err(CryptoError::UnsupportedKeyLength { actual }) ==> actual == key@.len()
            && !key_len_ok(key@.len() as int),
        options.nonce_length > 0 && options.tag_length > 0 && !key_len_ok(key@.len() as int)
            ==> (r matches Err(CryptoError::UnsupportedKeyLength { actual }) && actual == key@.len()),
        r matches Ok(v) ==> key_len_ok(key@.len() as int) && v@.len() == options.nonce_length
            + plaintext@.len() + options.tag_length && v@ == gcm_package(
            key@,
            v@.subrange(0, options.nonce_length as int),
            plaintext@,
            options.tag_length as int,
        ),
{
    if options.nonce_length == 0 || options.tag_length == 0 {
        return Err(CryptoError::InvalidNonceLength);
    }
    let klen = key.len();
    if klen != AES_128_KEY_LEN && klen != AES_192_KEY_LEN && klen != AES_256_KEY_LEN {
        return Err(CryptoError::UnsupportedKeyLength { actual: klen });
    }

    let mut iv: Vec<u8> = Vec::new();
    iv.resize(options.nonce_length, 0u8);
    match rand_fill(&mut iv) {
        Ok(_) => (),
        Err(e) => {
            return Err(CryptoError::EncryptionFailed(error_stack_message(&e)));
        },
    }

    match gcm_seal(key, iv.as_slice(), plaintext, options.tag_length) {
        Ok(sealed) => {
            let (ciphertext, tag) = sealed;
            let mut result: Vec<u8> = Vec::new();
            let mut iv = iv;
            let mut ciphertext = ciphertext;
            let mut tag = tag;
            let ghost iv_snap = iv@;
            result.append(&mut iv);
            result.append(&mut ciphertext);
            result.append(&mut tag);
            proof {
                assert(result@.subrange(0, options.nonce_length as int) =~= iv_snap);
                assert(result@ =~= gcm_package(
                    key@,
                    iv_snap,
                    plaintext@,
                    options.tag_length as int,
                ));
            }
            Ok(result)
        },
        Err(e) => Err(CryptoError::EncryptionFailed(error_stack_message(&e))),
    }
}

/// Encrypt with AES-GCM under the recommended parameters.
pub fn encrypt(key: &[u8], plaintext: &[u8]) -> (r: Result<Vec<u8>, CryptoError>)
    requires
        plaintext@.len() <= MAX_CIPHER_DATA,
    ensures
        r matches Err(CryptoError::UnsupportedKeyLength { actual }) ==> actual == key@.len()
            && !key_len_ok(key@.len() as int),
        !key_len_ok(key@.len() as int) ==> (r matches Err(
            CryptoError::UnsupportedKeyLength { actual },
        ) && actual == key@.len()),
        r matches Ok(v) ==> key_len_ok(key@.len() as int) && v@.len() == DEFAULT_NONCE_LEN
            + plaintext@.len() + DEFAULT_TAG_LEN && v@ == gcm_package(
            key@,
            v@.subrange(0, DEFAULT_NONCE_LEN as int),
            plaintext@,
            DEFAULT_TAG_LEN as int,
        ),
{
    encrypt_with_options(key, plaintext, &EncryptionOptions::default())
}

/// Encrypt with AES-GCM and base64-encode the sealed message.
pub fn encrypt_to_base64(key: &[u8], plaintext: &[u8]) -> (r: Result<String, CryptoError>)
    requires
        plaintext@.len() <= MAX_CIPHER_DATA,
    ensures
        !key_len_ok(key@.len() as int) ==> (r matches Err(
            CryptoError::UnsupportedKeyLength { actual },
        ) && actual == key@.len()),
        r matches Ok(s) ==> exists|sealed: Seq<u8>|
            sealed == gcm_package(
                key@,
                sealed.subrange(0, DEFAULT_NONCE_LEN as int),
                plaintext@,
                DEFAULT_TAG_LEN as int,
            ) && sealed.len() == DEFAULT_NONCE_LEN + plaintext@.len() + DEFAULT_TAG_LEN && s@
                == b64_of(sealed),
{
    match encrypt(key, plaintext) {
        Ok(ciphertext) => {
            let s = base64_encode(ciphertext.as_slice());
            proof {
                assert(ciphertext@ == gcm_package(
                    key@,
                    ciphertext@.subrange(0, DEFAULT_NONCE_LEN as int),
                    plaintext@,
                    DEFAULT_TAG_LEN as int,
                ) && s@ == b64_of(ciphertext@));
            }
            Ok(s)
        },
        Err(e) => Err(e),
    }
}

/// GCM parameters expected when opening: IV length and tag length in bytes.
#[derive(Debug, Clone)]
pub struct DecryptionOptions {
    pub nonce_length: usize,
    pub tag_length: usize,
}

impl Default for DecryptionOptions {
    /// The recommended GCM parameters: a 12-byte IV and a 16-byte tag.
    fn default() -> (r: Self)
        ensures
            r.nonce_length == DEFAULT_NONCE_LEN,
            r.tag_length == DEFAULT_TAG_LEN,
    {
        Self { nonce_length: DEFAULT_NONCE_LEN, tag_length: DEFAULT_TAG_LEN }
    }
}

/// Decrypt a sealed message (IV, ciphertext, tag) with AES-GCM under
/// explicit parameters.
pub fn decrypt_with_options(key: &[u8], ciphertext: &[u8], options: &DecryptionOptions) -> (r:
    Result<Vec<u8>, CryptoError>)
    requires
        options.nonce_length + options.tag_length <= usize::MAX,
        ciphertext@.len() <= MAX_CIPHER_DATA,
    ensures
        options.nonce_length > 0 && options.tag_length > 0 && key_len_ok(key@.len() as int)
            && ciphertext@.len() >= options.nonce_length + options.tag_length ==> ((r is Ok)
            <==> gcm_open_ok_of(
            key@,
            ciphertext@.subrange(0, options.nonce_length as int),
            ciphertext@.subrange(
                options.nonce_length as int,
                ciphertext@.len() - options.tag_length,
            ),
            ciphertext@.subrange(
                ciphertext@.len() - options.tag_length,
                ciphertext@.len() as int,
            ),
        )),
        r matches Err(CryptoError::InvalidNonceLength) <==> options.nonce_length == 0
            || options.tag_length == 0,
        options.nonce_length > 0 && options.tag_length > 0 && !key_len_ok(key@.len() as int)
            ==> (r matches Err(CryptoError::UnsupportedKeyLength { actual }) && actual == key@.len()),
        options.nonce_length > 0 && options.tag_length > 0 && key_len_ok(key@.len() as int)
            && ciphertext@.len() < options.nonce_length + options.tag_length ==> (r matches Err(
            CryptoError::InvalidCiphertextLength { min_length, actual },
        ) && min_length == options.nonce_length + options.tag_length && actual
            == ciphertext@.len()),
        r matches Err(e) ==> (e is InvalidNonceLength || e is UnsupportedKeyLength
            || e is InvalidCiphertextLength || e is EncryptionFailed),
        r matches Ok(v) ==> key_len_ok(key@.len() as int) && ciphertext@.len()
            >= options.nonce_length + options.tag_length && v@ == gcm_open_of(
            key@,
            ciphertext@.subrange(0, options.nonce_length as int),
            ciphertext@.subrange(
                options.nonce_length as int,
                ciphertext@.len() - options.tag_length,
            ),
            ciphertext@.subrange(
                ciphertext@.len() - options.tag_length,
                ciphertext@.len() as int,
            ),
        ),
{
    if options.nonce_length == 0 || options.tag_length == 0 {
        return Err(CryptoError::InvalidNonceLength);
    }
    let klen = key.len();
    if klen != AES_128_KEY_LEN && klen != AES_192_KEY_LEN && klen != AES_256_KEY_LEN {
        return Err(CryptoError::UnsupportedKeyLength { actual: klen });
    }
    let min_length = options.nonce_length + options.tag_length;
    if ciphertext.len() < min_length {
        return Err(
            CryptoError::InvalidCiphertextLength { min_length, actual: ciphertext.len() },
        );
    }

    let iv = vstd::slice::slice_subrange(ciphertext, 0, options.nonce_length);
    let data = vstd::slice::slice_subrange(
        ciphertext,
        options.nonce_length,
        ciphertext.len() - options.tag_length,
    );
    let tag = vstd::slice::slice_subrange(
        ciphertext,
        ciphertext.len() - options.tag_length,
        ciphertext.len(),
    );

    match gcm_open(key, iv, data, tag) {
        Ok(plaintext) => Ok(plaintext),
        Err(e) => Err(CryptoError::EncryptionFailed(error_stack_message(&e))),
    }
}

/// Decrypt a sealed message with the recommended parameters.
pub fn decrypt(key: &[u8], ciphertext: &[u8]) -> (r: Result<Vec<u8>, CryptoError>)
    requires
        ciphertext@.len() <= MAX_CIPHER_DATA,
    ensures
        key_len_ok(key@.len() as int) && ciphertext@.len() < DEFAULT_NONCE_LEN + DEFAULT_TAG_LEN
            ==> (r matches Err(CryptoError::InvalidCiphertextLength { min_length, actual })
            && min_length == DEFAULT_NONCE_LEN + DEFAULT_TAG_LEN && actual == ciphertext@.len()),
        key_len_ok(key@.len() as int) && ciphertext@.len() >= DEFAULT_NONCE_LEN + DEFAULT_TAG_LEN
            ==> ((r is Ok) <==> gcm_open_ok_of(
            key@,
            ciphertext@.subrange(0, DEFAULT_NONCE_LEN as int),
            ciphertext@.subrange(
                DEFAULT_NONCE_LEN as int,
                ciphertext@.len() - DEFAULT_TAG_LEN,
            ),
            ciphertext@.subrange(ciphertext@.len() - DEFAULT_TAG_LEN, ciphertext@.len() as int),
        )),
        !key_len_ok(key@.len() as int) ==> (r matches Err(
            CryptoError::UnsupportedKeyLength { actual },
        ) && actual == key@.len()),
        r matches Err(e) ==> (e is InvalidNonceLength || e is UnsupportedKeyLength
            || e is InvalidCiphertextLength || e is EncryptionFailed),
        r matches Ok(v) ==> key_len_ok(key@.len() as int) && ciphertext@.len()
            >= DEFAULT_NONCE_LEN + DEFAULT_TAG_LEN && v@ == gcm_open_of(
            key@,
            ciphertext@.subrange(0, DEFAULT_NONCE_LEN as int),
            ciphertext@.subrange(
                DEFAULT_NONCE_LEN as int,
                ciphertext@.len() - DEFAULT_TAG_LEN,
            ),
            ciphertext@.subrange(ciphertext@.len() - DEFAULT_TAG_LEN, ciphertext@.len() as int),
        ),
{
    decrypt_with_options(key, ciphertext, &DecryptionOptions::default())
}

/// Decode base64 text and decrypt the sealed message it denotes.
pub fn decrypt_from_base64(key: &[u8], ciphertext_base64: &str) -> (r: Result<Vec<u8>, CryptoError>)
    requires
        ciphertext_base64@.len() <= MAX_CIPHER_DATA,
    ensures
        (r matches Err(CryptoError::Base64DecodeError(_))) <==> b64_decode_of(
            ciphertext_base64@,
        ) is None,
        ({
            let d = b64_decode_of(ciphertext_base64@);
            d is Some && key_len_ok(key@.len() as int) && d->Some_0.len() < DEFAULT_NONCE_LEN
                + DEFAULT_TAG_LEN
        }) ==> (r matches Err(CryptoError::InvalidCiphertextLength { min_length, actual })
            && min_length == DEFAULT_NONCE_LEN + DEFAULT_TAG_LEN && actual == b64_decode_of(
            ciphertext_base64@,
        )->Some_0.len()),
        ({
            let d = b64_decode_of(ciphertext_base64@);
            d is Some && key_len_ok(key@.len() as int) && d->Some_0.len() >= DEFAULT_NONCE_LEN
                + DEFAULT_TAG_LEN
        }) ==> {
            let ct = b64_decode_of(ciphertext_base64@)->Some_0;
            (r is Ok) <==> gcm_open_ok_of(
                key@,
                ct.subrange(0, DEFAULT_NONCE_LEN as int),
                ct.subrange(DEFAULT_NONCE_LEN as int, ct.len() - DEFAULT_TAG_LEN),
                ct.subrange(ct.len() - DEFAULT_TAG_LEN, ct.len() as int),
            )
        },
        r matches Ok(v) ==> b64_decode_of(ciphertext_base64@) matches Some(ct)
            && key_len_ok(key@.len() as int) && ct.len() >= DEFAULT_NONCE_LEN + DEFAULT_TAG_LEN
            && v@ == gcm_open_of(
            key@,
            ct.subrange(0, DEFAULT_NONCE_LEN as int),
            ct.subrange(DEFAULT_NONCE_LEN as int, ct.len() - DEFAULT_TAG_LEN),
            ct.subrange(ct.len() - DEFAULT_TAG_LEN, ct.len() as int),
        ),
{
    match base64_decode(ciphertext_base64) {
        Ok(ciphertext) => decrypt(key, ciphertext.as_slice()),
        Err(e) => Err(e),
    }
}

/// How the CBC-192 helpers pick their IV.
#[derive(Debug, Clone, Copy, PartialEq, Eq, Structural)]
pub enum AesCbcMode {
    FixedIv,
    RandomIv,
}

/// A sequence of `n` zero bytes.
pub open spec fn zero_bytes(n: int) -> Seq<u8> {
    Seq::new(n as nat, |i: int| 0u8)
}

/// Encrypt text with AES-192-CBC.  With a fixed IV the result is the
/// base64 ciphertext alone; with a random IV it is framed as
/// `R|<iv base64>|<ciphertext base64>`.
pub fn encrypt_cbc_192(key: &[u8], plaintext: &str, mode: AesCbcMode) -> (r: Result<
    String,
    CryptoError,
>)
    requires
        encode_utf8(plaintext@).len() <= MAX_CIPHER_DATA,
    ensures
        key@.len() != 24 <==> (r matches Err(CryptoError::UnsupportedKeyLength { actual })
            && actual == key@.len()),
        mode == AesCbcMode::FixedIv ==> (r matches Ok(s) ==> s@ == b64_of(
            cbc192_seal_of(key@, zero_bytes(16), encode_utf8(plaintext@)),
        )),
        mode == AesCbcMode::RandomIv ==> (r matches Ok(s) ==> exists|iv: Seq<u8>|
            iv.len() == 16 && s@ == "R|"@ + b64_of(iv) + "|"@ + b64_of(
                cbc192_seal_of(key@, iv, encode_utf8(plaintext@)),
            )),
{
    if key.len() != AES_192_KEY_LEN {
        return Err(CryptoError::UnsupportedKeyLength { actual: key.len() });
    }

    let mut iv: Vec<u8> = Vec::new();
    iv.resize(AES_BLOCK_SIZE, 0u8);
    if mode == AesCbcMode::RandomIv {
        match rand_fill(&mut iv) {
            Ok(_) => (),
            Err(e) => {
                let mut msg = String::new();
                msg.append("random IV generation failed: ");
                let detail = error_stack_message(&e);
                msg.append(detail.as_str());
                return Err(CryptoError::EncryptionFailed(msg));
            },
        }
    }
    proof {
        if mode == AesCbcMode::FixedIv {
            assert(iv@ =~= zero_bytes(16));
        }
    }

    let ciphertext = match cbc192_seal(key, iv.as_slice(), plaintext.as_bytes()) {
        Ok(ct) => ct,
        Err(e) => {
            return Err(CryptoError::EncryptionFailed(error_stack_message(&e)));
        },
    };

    match mode {
        AesCbcMode::FixedIv => Ok(base64_encode(ciphertext.as_slice())),
        AesCbcMode::RandomIv => {
            let iv_b64 = base64_encode(iv.as_slice());
            let ciphertext_b64 = base64_encode(ciphertext.as_slice());
            let mut framed = String::new();
            framed.append("R|");
            framed.append(iv_b64.as_str());
            framed.append("|");
            framed.append(ciphertext_b64.as_str());
            proof {
                assert(framed@ == "R|"@ + b64_of(iv@) + "|"@ + b64_of(
                    cbc192_seal_of(key@, iv@, encode_utf8(plaintext@)),
                ));
            }
            Ok(framed)
        },
    }
}

/// The index of the first `|` in `s`, or `s.len()` if there is none.
pub open spec fn first_pipe(s: Seq<char>) -> nat
    decreases s.len(),
{
    if s.len() == 0 {
        0
    } else if s[0] == '|' {
        0
    } else {
        1 + first_pipe(s.drop_first())
    }
}

proof fn lemma_first_pipe(s: Seq<char>)
    ensures
        0 <= first_pipe(s) <= s.len(),
        forall|m: int| 0 <= m < first_pipe(s) ==> s[m] != '|',
        first_pipe(s) < s.len() ==> s[first_pipe(s) as int] == '|',
    decreases s.len(),
{
    if s.len() == 0 {
    } else if s[0] == '|' {
    } else {
        let t = s.drop_first();
        lemma_first_pipe(t);
        assert(forall|m: int| 1 <= m < first_pipe(s) ==> s[m] == t[m - 1] && t[m - 1] != '|');
    }
}

/// Whether ciphertext text carries the random-IV frame `R|...`.
pub open spec fn has_random_iv_frame(s: Seq<char>) -> bool {
    s.len() >= 2 && s[0] == 'R' && s[1] == '|'
}

/// CBC-192 decryption accepts the ciphertext and the recovered bytes are
/// UTF-8 text.
pub open spec fn cbc192_opens_text(key: Seq<u8>, iv: Seq<u8>, ct: Seq<u8>) -> bool {
    cbc192_open_ok_of(key, iv, ct) && valid_utf8(cbc192_open_of(key, iv, ct))
}

/// Decrypt text produced by `encrypt_cbc_192`: either a bare base64
/// ciphertext sealed under the all-zero IV, or an `R|iv|ciphertext` frame
/// carrying its own IV.
pub fn decrypt_cbc_192(key: &[u8], ciphertext_base64: &str) -> (r: Result<String, CryptoError>)
    requires
        ciphertext_base64@.len() <= MAX_CIPHER_DATA,
    ensures
        key@.len() != 24 <==> (r matches Err(CryptoError::UnsupportedKeyLength { actual })
            && actual == key@.len()),
        key@.len() == 24 && has_random_iv_frame(ciphertext_base64@) ==> (r matches Err(
            CryptoError::InvalidCiphertextFormat,
        ) <==> first_pipe(ciphertext_base64@.skip(2)) >= ciphertext_base64@.skip(2).len()),
        !has_random_iv_frame(ciphertext_base64@) ==> (r matches Ok(s) ==> (b64_decode_of(
            ciphertext_base64@,
        ) matches Some(ct) && encode_utf8(s@) == cbc192_open_of(key@, zero_bytes(16), ct))),
        has_random_iv_frame(ciphertext_base64@) ==> (r matches Ok(s) ==> {
            let tail = ciphertext_base64@.skip(2);
            let p = first_pipe(tail) as int;
            &&& p < tail.len()
            &&& (b64_decode_of(tail.take(p)) matches Some(iv) && b64_decode_of(
                tail.skip(p + 1),
            ) matches Some(ct) && iv.len() == 16 && encode_utf8(s@) == cbc192_open_of(key@, iv, ct))
        }),
        key@.len() == 24 && !has_random_iv_frame(ciphertext_base64@) ==> {
            let s = ciphertext_base64@;
            &&& ((r is Ok) <==> (b64_decode_of(s) matches Some(ct) && cbc192_opens_text(
                key@,
                zero_bytes(16),
                ct,
            )))
            &&& ((r matches Err(CryptoError::Base64DecodeError(_))) <==> (b64_decode_of(s)
                is None))
            &&& ((r matches Err(CryptoError::EncryptionFailed(_))) <==> (b64_decode_of(
                s,
            ) matches Some(ct) && !cbc192_open_ok_of(key@, zero_bytes(16), ct)))
            &&& ((r matches Err(CryptoError::Utf8DecodingFailed(_))) <==> (b64_decode_of(
                s,
            ) matches Some(ct) && cbc192_open_ok_of(key@, zero_bytes(16), ct) && !valid_utf8(
                cbc192_open_of(key@, zero_bytes(16), ct),
            )))
        },
        key@.len() == 24 && has_random_iv_frame(ciphertext_base64@) && first_pipe(
            ciphertext_base64@.skip(2),
        ) < ciphertext_base64@.skip(2).len() ==> {
            let tail = ciphertext_base64@.skip(2);
            let p = first_pipe(tail) as int;
            let ivt = tail.take(p);
            let ctt = tail.skip(p + 1);
            &&& ((r is Ok) <==> (b64_decode_of(ivt) matches Some(iv) && b64_decode_of(
                ctt,
            ) matches Some(ct) && iv.len() == 16 && cbc192_opens_text(key@, iv, ct)))
            &&& ((r matches Err(CryptoError::Base64DecodeError(_))) <==> (b64_decode_of(ivt)
                is None || b64_decode_of(ctt) is None))
            &&& ((r matches Err(CryptoError::InvalidNonceLength)) <==> (b64_decode_of(
                ivt,
            ) matches Some(iv) && b64_decode_of(ctt) is Some && iv.len() != 16))
            &&& ((r matches Err(CryptoError::EncryptionFailed(_))) <==> (b64_decode_of(
                ivt,
            ) matches Some(iv) && b64_decode_of(ctt) matches Some(ct) && iv.len() == 16
                && !cbc192_open_ok_of(key@, iv, ct)))
            &&& ((r matches Err(CryptoError::Utf8DecodingFailed(_))) <==> (b64_decode_of(
                ivt,
            ) matches Some(iv) && b64_decode_of(ctt) matches Some(ct) && iv.len() == 16
                && cbc192_open_ok_of(key@, iv, ct) && !valid_utf8(cbc192_open_of(key@, iv, ct))))
        },
{
    if key.len() != AES_192_KEY_LEN {
        return Err(CryptoError::UnsupportedKeyLength { actual: key.len() });
    }

    let n = ciphertext_base64.unicode_len();
    let framed = n >= 2 && ciphertext_base64.get_char(0) == 'R' && ciphertext_base64.get_char(1)
        == '|';

    if framed {
        // find the separator between the IV part and the ciphertext part
        let mut j: usize = 2;
        loop
            invariant
                2 <= j <= n,
                n == ciphertext_base64@.len(),
                forall|m: int| 2 <= m < j ==> ciphertext_base64@[m] != '|',
            ensures
                2 <= j <= n,
                forall|m: int| 2 <= m < j ==> ciphertext_base64@[m] != '|',
                j < n ==> ciphertext_base64@[j as int] == '|',
            decreases n - j,
        {
            if j >= n {
                break;
            }
            if ciphertext_base64.get_char(j) == '|' {
                break;
            }
            j = j + 1;
        }
        let ghost tail = ciphertext_base64@.skip(2);
        proof {
            lemma_first_pipe(tail);
            assert(forall|m: int| 0 <= m < j - 2 ==> tail[m] == ciphertext_base64@[m + 2]
                && ciphertext_base64@[m + 2] != '|');
            if j < n {
                assert(tail[j - 2] == '|');
            }
            assert(first_pipe(tail) == j - 2);
        }
        if j >= n {
            return Err(CryptoError::InvalidCiphertextFormat);
        }

        let iv_b64 = ciphertext_base64.substring_char(2, j);
        let ct_b64 = ciphertext_base64.substring_char(j + 1, n);
        proof {
            assert(iv_b64@ =~= tail.take(j - 2));
            assert(ct_b64@ =~= tail.skip(j - 2 + 1));
        }

        let iv = match base64_decode(iv_b64) {
            Ok(v) => v,
            Err(e) => {
                return Err(e);
            },
        };
        let ciphertext = match base64_decode(ct_b64) {
            Ok(v) => v,
            Err(e) => {
                return Err(e);
            },
        };
        if iv.len() != AES_BLOCK_SIZE {
            return Err(CryptoError::InvalidNonceLength);
        }

        let plaintext = match cbc192_open(key, iv.as_slice(), ciphertext.as_slice()) {
            Ok(v) => v,
            Err(e) => {
                return Err(CryptoError::EncryptionFailed(error_stack_message(&e)));
            },
        };
        match string_from_utf8(plaintext) {
            Some(s) => Ok(s),
            None => {
                let mut msg = String::new();
                msg.append("decrypted bytes are not valid UTF-8");
                Err(CryptoError::Utf8DecodingFailed(msg))
            },
        }
    } else {
        let ciphertext = match base64_decode(ciphertext_base64) {
            Ok(v) => v,
            Err(e) => {
                return Err(e);
            },
        };
        let mut iv: Vec<u8> = Vec::new();
        iv.resize(AES_BLOCK_SIZE, 0u8);
        proof {
            assert(iv@ =~= zero_bytes(16));
        }
        let plaintext = match cbc192_open(key, iv.as_slice(), ciphertext.as_slice()) {
            Ok(v) => v,
            Err(e) => {
                return Err(CryptoError::EncryptionFailed(error_stack_message(&e)));
            },
        };
        match string_from_utf8(plaintext) {
            Some(s) => Ok(s),
            None => {
                let mut msg = String::new();
                msg.append("decrypted bytes are not valid UTF-8");
                Err(CryptoError::Utf8DecodingFailed(msg))
            },
        }
    }
}

} // verus!
