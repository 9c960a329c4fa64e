use chunkdl::safe::{
    base64_decode, base64_encode, crypto_error_to_code, decrypt, decrypt_cbc_192,
    decrypt_from_base64, decrypt_with_options, encrypt, encrypt_cbc_192, encrypt_to_base64,
    encrypt_with_options, generate_key, generate_key_base64, AesCbcMode, CryptoError,
    CryptoErrorCode, DecryptionOptions, EncryptionOptions, KeyError, AES_192_KEY_LEN,
    AES_256_KEY_LEN,
};

#[test]
fn test_gcm_encryption_decryption() {
    let key = generate_key::<AES_256_KEY_LEN>().unwrap();
    let plaintext = b"Hello, GCM!";

    let ciphertext = encrypt(&key, plaintext).unwrap();
    let decrypted = decrypt(&key, &ciphertext).unwrap();
    assert_eq!(plaintext, decrypted.as_slice());
}

#[test]
fn test_cbc_192_fixed_iv() {
    let key = generate_key::<AES_192_KEY_LEN>().unwrap();
    let plaintext = "Fixed IV Test";

    let ciphertext = encrypt_cbc_192(&key, plaintext, AesCbcMode::FixedIv).unwrap();
    let decrypted = decrypt_cbc_192(&key, &ciphertext).unwrap();
    assert_eq!(plaintext, decrypted);
}

#[test]
fn test_cbc_192_random_iv() {
    let key = generate_key::<AES_192_KEY_LEN>().unwrap();
    let plaintext = "Random IV Test";

    let ciphertext = encrypt_cbc_192(&key, plaintext, AesCbcMode::RandomIv).unwrap();
    let decrypted = decrypt_cbc_192(&key, &ciphertext).unwrap();
    assert_eq!(plaintext, decrypted);
}

#[test]
fn test_invalid_key_length() {
    let key = "shortkey".as_bytes();
    let plaintext = "Test";

    assert!(encrypt_cbc_192(key, plaintext, AesCbcMode::FixedIv).is_err());
}

#[test]
fn base64_known_vector() {
    assert_eq!(base64_encode(b"Man"), "TWFu");
    assert_eq!(base64_encode(b""), "");
    assert_eq!(base64_decode("TWFu").unwrap(), b"Man");
}

#[test]
fn base64_rejects_garbage() {
    let r = base64_decode("!!!not base64!!!");
    assert!(matches!(r, Err(CryptoError::Base64DecodeError(_))));
}

#[test]
fn generated_keys_have_requested_length() {
    let k16 = generate_key::<16>().unwrap();
    assert_eq!(k16.len(), 16);
    let k24 = generate_key::<24>().unwrap();
    assert_eq!(k24.len(), 24);
    let k32 = generate_key::<32>().unwrap();
    assert_eq!(k32.len(), 32);
}

#[test]
fn generate_key_rejects_other_lengths() {
    let r = generate_key::<10>();
    assert!(matches!(r, Err(KeyError::InvalidKeyLength)));
    let r = generate_key_base64::<0>();
    assert!(matches!(r, Err(KeyError::InvalidKeyLength)));
}

#[test]
fn generate_key_base64_encodes_key() {
    // 32 random bytes encode to 44 base64 characters
    let s = generate_key_base64::<AES_256_KEY_LEN>().unwrap();
    assert_eq!(s.len(), 44);
}

#[test]
fn sealed_message_layout() {
    // IV (12 bytes) + one ciphertext byte per plaintext byte + tag (16)
    let key = generate_key::<AES_256_KEY_LEN>().unwrap();
    let ciphertext = encrypt(&key, b"abc").unwrap();
    assert_eq!(ciphertext.len(), 12 + 3 + 16);
}

#[test]
fn encrypt_rejects_bad_key_length() {
    let r = encrypt(b"short", b"data");
    assert!(matches!(r, Err(CryptoError::UnsupportedKeyLength { actual: 5 })));
}

#[test]
fn encrypt_rejects_zero_nonce() {
    let key = generate_key::<AES_256_KEY_LEN>().unwrap();
    let options = EncryptionOptions { nonce_length: 0, tag_length: 16 };
    let r = encrypt_with_options(&key, b"data", &options);
    assert!(matches!(r, Err(CryptoError::InvalidNonceLength)));
}

#[test]
fn decrypt_rejects_short_ciphertext() {
    let key = generate_key::<AES_256_KEY_LEN>().unwrap();
    let r = decrypt(&key, b"tiny");
    assert!(matches!(
        r,
        Err(CryptoError::InvalidCiphertextLength { min_length: 28, actual: 4 })
    ));
}

#[test]
fn decrypt_rejects_tampered_tag() {
    let key = generate_key::<AES_256_KEY_LEN>().unwrap();
    let mut ciphertext = encrypt(&key, b"payload").unwrap();
    let last = ciphertext.len() - 1;
    ciphertext[last] ^= 0x01;
    assert!(decrypt(&key, &ciphertext).is_err());
}

#[test]
fn explicit_options_round_trip() {
    let key = generate_key::<AES_192_KEY_LEN>().unwrap();
    let enc = EncryptionOptions { nonce_length: 16, tag_length: 12 };
    let dec = DecryptionOptions { nonce_length: 16, tag_length: 12 };
    let sealed = encrypt_with_options(&key, b"with options", &enc).unwrap();
    assert_eq!(sealed.len(), 16 + 12 + 12);
    let opened = decrypt_with_options(&key, &sealed, &dec).unwrap();
    assert_eq!(opened, b"with options");
}

#[test]
fn base64_transport_round_trip() {
    let key = generate_key::<AES_256_KEY_LEN>().unwrap();
    let text = encrypt_to_base64(&key, b"over the wire").unwrap();
    let back = decrypt_from_base64(&key, &text).unwrap();
    assert_eq!(back, b"over the wire");
}

#[test]
fn decrypt_from_base64_rejects_garbage() {
    let key = generate_key::<AES_256_KEY_LEN>().unwrap();
    let r = decrypt_from_base64(&key, "&&& not base64 &&&");
    assert!(matches!(r, Err(CryptoError::Base64DecodeError(_))));
}

#[test]
fn cbc_random_iv_frame_shape() {
    let key = generate_key::<AES_192_KEY_LEN>().unwrap();
    let framed = encrypt_cbc_192(&key, "shaped", AesCbcMode::RandomIv).unwrap();
    assert!(framed.starts_with("R|"));
    let parts: Vec<&str> = framed.splitn(3, '|').collect();
    assert_eq!(parts.len(), 3);
}

#[test]
fn cbc_rejects_malformed_frame() {
    let key = generate_key::<AES_192_KEY_LEN>().unwrap();
    let r = decrypt_cbc_192(&key, "R|only-one-part");
    assert!(matches!(r, Err(CryptoError::InvalidCiphertextFormat)));
}

#[test]
fn cbc_rejects_bad_key_length() {
    let r = decrypt_cbc_192(b"shortkey", "whatever");
    assert!(matches!(r, Err(CryptoError::UnsupportedKeyLength { actual: 8 })));
}

#[test]
fn cbc_rejects_wrong_iv_length() {
    let key = generate_key::<AES_192_KEY_LEN>().unwrap();
    // frame with a 4-byte IV: "Man" decodes to 3 bytes, use 4-char b64 of 3 bytes
    let frame = format!("R|{}|{}", base64_encode(b"Man"), base64_encode(b"0123456789abcdef"));
    let r = decrypt_cbc_192(&key, &frame);
    assert!(matches!(r, Err(CryptoError::InvalidNonceLength)));
}

#[test]
fn error_codes_match_variants() {
    assert_eq!(
        crypto_error_to_code(&CryptoError::TagVerificationFailed),
        CryptoErrorCode::TagVerificationFailed
    );
    assert_eq!(
        crypto_error_to_code(&CryptoError::UnsupportedKeyLength { actual: 7 }),
        CryptoErrorCode::UnsupportedKeyLength
    );
    assert_eq!(
        crypto_error_to_code(&CryptoError::Base64DecodeError(String::new())),
        CryptoErrorCode::Base64DecodeError
    );
    assert_eq!(
        crypto_error_to_code(&CryptoError::InvalidCiphertextFormat),
        CryptoErrorCode::InvalidCiphertextFormat
    );
}

#[test]
fn cbc_reports_non_utf8_plaintext() {
    // seal raw non-UTF-8 bytes with the same cipher and the all-zero IV,
    // so decryption succeeds but the text cannot be decoded
    let key = generate_key::<AES_192_KEY_LEN>().unwrap();
    let iv = [0u8; 16];
    let sealed = openssl::symm::encrypt(
        openssl::symm::Cipher::aes_192_cbc(),
        &key,
        Some(&iv),
        &[0xff, 0xfe, 0x01],
    )
    .unwrap();
    let r = decrypt_cbc_192(&key, &base64_encode(&sealed));
    assert!(matches!(r, Err(CryptoError::Utf8DecodingFailed(_))));
}
