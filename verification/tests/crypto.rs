use yuttari::crypt::{
    create_private_key, create_public_key, create_shared_key, decrypt_data,
    derive_shared_pair, deserialize_private_key, deserialize_public_key, encrypt_data,
    encrypt_data_with_iv, serialize_private_key, serialize_public_key, CryptoError,
};

#[test]
fn key_exchange_commutes() {
    let a = create_private_key();
    let b = create_private_key();
    let (ab, ba) = derive_shared_pair(&a, &b);
    assert_eq!(ab, ba);
    assert_eq!(ab.len(), 32);
}

#[test]
fn key_exchange_commutes_via_public_keys() {
    let a = create_private_key();
    let b = create_private_key();
    let pub_a = create_public_key(&a);
    let pub_b = create_public_key(&b);
    let ab = create_shared_key(&a, &pub_b);
    let ba = create_shared_key(&b, &pub_a);
    assert_eq!(ab, ba);
}

#[test]
fn different_pairs_have_different_secrets() {
    let a = create_private_key();
    let b = create_private_key();
    let c = create_private_key();
    let pub_a = create_public_key(&a);
    let key_b = create_shared_key(&b, &pub_a);
    let key_c = create_shared_key(&c, &pub_a);
    assert_ne!(key_b, key_c);
}

#[test]
fn private_key_bytes_roundtrip() {
    let a = create_private_key();
    let bytes = serialize_private_key(a);
    assert_eq!(bytes.len(), 32);
    let again = deserialize_private_key(bytes.clone());
    assert_eq!(serialize_private_key(again), bytes);
}

#[test]
fn public_key_bytes_roundtrip() {
    let a = create_private_key();
    let p = create_public_key(&a);
    let bytes = serialize_public_key(p);
    assert_eq!(bytes.len(), 32);
    let again = deserialize_public_key(bytes.clone());
    assert_eq!(serialize_public_key(again), bytes);
}

#[test]
fn cipher_roundtrip() {
    let key = vec![7u8; 32];
    let plain = b"attack at dawn".to_vec();
    let blob = encrypt_data(&plain, &key);
    assert_eq!(decrypt_data(&blob, &key), Ok(plain));
}

#[test]
fn cipher_roundtrip_empty_plaintext() {
    let key = vec![1u8; 32];
    let plain: Vec<u8> = Vec::new();
    let blob = encrypt_data(&plain, &key);
    assert_eq!(decrypt_data(&blob, &key), Ok(plain));
}

#[test]
fn cipher_roundtrip_long_plaintext() {
    let key = vec![3u8; 32];
    let plain: Vec<u8> = (0..10_000u32).map(|i| (i % 251) as u8).collect();
    let blob = encrypt_data(&plain, &key);
    assert_eq!(decrypt_data(&blob, &key), Ok(plain));
}

#[test]
fn ciphertext_layout() {
    let key = vec![9u8; 32];
    let iv = vec![4u8; 16];
    let plain = b"0123456789abcdef".to_vec(); // exactly one block
    let blob = encrypt_data_with_iv(&plain, &key, &iv);
    // two ciphertext blocks (data + padding block) then the vector itself
    assert_eq!(blob.len(), 32 + 16);
    assert_eq!(&blob[32..], &iv[..]);
}

#[test]
fn encryption_differs_per_vector() {
    let key = vec![9u8; 32];
    let plain = b"same plaintext".to_vec();
    let one = encrypt_data_with_iv(&plain, &key, &vec![0u8; 16]);
    let two = encrypt_data_with_iv(&plain, &key, &vec![1u8; 16]);
    assert_ne!(one[..one.len() - 16], two[..two.len() - 16]);
}

#[test]
fn decrypt_with_wrong_key_fails() {
    let key = vec![7u8; 32];
    let wrong = vec![8u8; 32];
    let plain = b"attack at dawn".to_vec();
    let blob = encrypt_data_with_iv(&plain, &key, &vec![5u8; 16]);
    let r = decrypt_data(&blob, &wrong);
    assert_ne!(r, Ok(plain));
    assert_eq!(r, Err(CryptoError::InvalidCiphertext));
}

#[test]
fn payload_encrypt_decrypt_roundtrip() {
    let key = vec![2u8; 32];
    let mut p = yuttari::message::MessagePayload::new("alice".to_string(), b"hi there".to_vec());
    p.encrypt(&key);
    assert_ne!(p.message, b"hi there".to_vec());
    assert_eq!(p.username, "alice");
    p.decrypt(&key).expect("the payload should decrypt under its own key");
    assert_eq!(p.message, b"hi there".to_vec());
    assert_eq!(p.username, "alice");
}

#[test]
fn payload_decrypt_error_leaves_payload_unchanged() {
    let mut p = yuttari::message::MessagePayload::new("alice".to_string(), vec![1, 2, 3]);
    let r = p.decrypt(&vec![2u8; 32]);
    assert_eq!(r, Err(CryptoError::CiphertextTooShort));
    assert_eq!(p.message, vec![1, 2, 3]);
}

#[test]
fn decrypt_rejects_oversized_padding_byte() {
    // craft a one-block ciphertext whose decryption is sixteen bytes of 17:
    // encrypt [17; 16] and keep only the first ciphertext block with the
    // same vector — the padding byte then exceeds the block and must be a
    // clean error, never a panic
    let key = vec![7u8; 32];
    let iv = vec![9u8; 16];
    let blob = encrypt_data_with_iv(&vec![17u8; 16], &key, &iv);
    let mut crafted = blob[..16].to_vec();
    crafted.extend_from_slice(&iv);
    assert_eq!(decrypt_data(&crafted, &key), Err(CryptoError::InvalidCiphertext));
}

#[test]
fn decrypt_rejects_zero_padding_byte() {
    // same construction with a plaintext block of zeros: a trailing zero is
    // not valid padding
    let key = vec![7u8; 32];
    let iv = vec![9u8; 16];
    let blob = encrypt_data_with_iv(&vec![0u8; 16], &key, &iv);
    let mut crafted = blob[..16].to_vec();
    crafted.extend_from_slice(&iv);
    assert_eq!(decrypt_data(&crafted, &key), Err(CryptoError::InvalidCiphertext));
}

#[test]
fn decrypt_rejects_misaligned_ciphertext() {
    let key = vec![7u8; 32];
    // 17 body bytes plus a 16-byte vector: not block-aligned
    let blob = vec![1u8; 33];
    assert_eq!(decrypt_data(&blob, &key), Err(CryptoError::InvalidCiphertext));
}

#[test]
fn decrypt_rejects_bad_key_length() {
    let blob = vec![0u8; 32];
    assert_eq!(decrypt_data(&blob, &vec![1u8; 16]), Err(CryptoError::InvalidKeyLength));
}

#[test]
fn decrypt_rejects_short_blob() {
    let key = vec![7u8; 32];
    assert_eq!(decrypt_data(&vec![1u8; 15], &key), Err(CryptoError::CiphertextTooShort));
}

#[test]
fn decrypt_rejects_corrupt_ciphertext() {
    let key = vec![7u8; 32];
    let plain = b"attack at dawn".to_vec();
    let mut blob = encrypt_data_with_iv(&plain, &key, &vec![5u8; 16]);
    blob[0] ^= 0xFF; // corrupt the first ciphertext byte
    assert_eq!(decrypt_data(&blob, &key), Err(CryptoError::InvalidCiphertext));
}
