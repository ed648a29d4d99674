use uniclipboard::encrypt::{EncryptError, Encryptor};
use uniclipboard::message::{Payload, Timestamp};
use uniclipboard::utils::string_to_32_bytes;

#[test]
fn encrypt_then_decrypt_gives_plaintext() {
    let key = string_to_32_bytes("secret");
    let enc = Encryptor::from_key(&key);
    let plain = b"plaintext message".to_vec();
    let out = enc.encrypt(&plain).unwrap();
    assert_eq!(out.len(), plain.len() + 28);
    assert_ne!(&out[12..12 + plain.len()], plain.as_slice());
    assert_eq!(enc.decrypt(&out).unwrap(), plain);
}

#[test]
fn decrypt_with_other_key_fails() {
    let enc = Encryptor::from_key(&string_to_32_bytes("a"));
    let other = Encryptor::from_key(&string_to_32_bytes("b"));
    let out = enc.encrypt(b"hello").unwrap();
    assert_eq!(other.decrypt(&out), Err(EncryptError::DecryptFailed));
}

#[test]
fn decrypt_short_input_fails() {
    let enc = Encryptor::from_key(&[7u8; 32]);
    assert_eq!(enc.decrypt(&[0u8; 11]), Err(EncryptError::InvalidCiphertextLength));
    assert_eq!(enc.decrypt(&[0u8; 12]), Err(EncryptError::DecryptFailed));
}

#[test]
fn tampered_ciphertext_is_refused() {
    let enc = Encryptor::from_key(&[1u8; 32]);
    let mut out = enc.encrypt(b"data").unwrap();
    let last = out.len() - 1;
    out[last] ^= 1;
    assert_eq!(enc.decrypt(&out), Err(EncryptError::DecryptFailed));
}

#[test]
fn hex_is_lowercase_two_digits_per_byte() {
    let empty = Payload::new_text(vec![], "d".to_string(), Timestamp { secs: 0, nanos: 0 });
    assert_eq!(
        empty.hash(),
        "e3b0c44298fc1c149afbf4c8996fb92427ae41e4649b934ca495991b7852b855"
    );
}

#[test]
fn payload_hash_and_equality() {
    let ts = Timestamp { secs: 1, nanos: 2 };
    let a = Payload::new_text(b"test".to_vec(), "d1".to_string(), ts);
    assert_eq!(
        a.hash(),
        "9f86d081884c7d659a2feaa0c55ad015a3bf4f1b2b0b822cd15d6c15b0f00a08"
    );
    let b = Payload::new_image(b"test".to_vec(), "d2".to_string(), Timestamp { secs: 9, nanos: 0 }, 1, 1, "png".to_string(), 4);
    let c = Payload::new_text(b"other".to_vec(), "d1".to_string(), ts);
    assert!(a.eq(&b));
    assert!(b.eq(&a));
    assert!(!a.eq(&c));
    assert!(b.is_image());
    assert!(!a.is_image());
    assert!(a.as_image().is_none());
    assert_eq!(b.as_image().unwrap().width, 1);
    assert_eq!(a.get_device_id(), "d1");
    assert_eq!(a.get_timestamp(), ts);
    assert_eq!(a.get_content(), &b"test".to_vec());
}

#[test]
fn text_payload_decodes_utf8() {
    let p = Payload::new_text("剪贴板".as_bytes().to_vec(), "d".to_string(), Timestamp { secs: 0, nanos: 0 });
    match p {
        Payload::Text(t) => assert_eq!(t.text(), "剪贴板"),
        _ => panic!("expected text"),
    }
}

#[test]
fn encrypt_with_fixed_nonce_is_nonce_then_sealed_bytes() {
    let enc = Encryptor::from_key(&[0u8; 32]);
    let out = enc.encrypt_with_nonce(&[0u8; 12], &[]).unwrap();
    assert_eq!(out.len(), 28);
    assert_eq!(&out[..12], &[0u8; 12]);
    assert_eq!(hex::encode(&out[12..]), "530f8afbc74536b9a963b4f1c4cb738b");
    let nonce = [7u8; 12];
    let a = enc.encrypt_with_nonce(&nonce, b"hello").unwrap();
    let b = enc.encrypt_with_nonce(&nonce, b"hello").unwrap();
    assert_eq!(a, b);
    assert_eq!(&a[..12], &nonce);
    assert_eq!(enc.decrypt(&a), Ok(b"hello".to_vec()));
}
