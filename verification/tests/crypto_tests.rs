use shadowghost::crypto::{CryptoManager, PublicKey};

#[test]
fn test_crypto_manager_creation() {
    let manager = CryptoManager::new().unwrap();
    assert!(manager.has_key_pair());
}

#[test]
fn test_encrypt_decrypt() {
    let manager = CryptoManager::new().unwrap();
    let message = "Hello, World!";
    let public_key = manager.get_public_key();

    let encrypted = manager.encrypt_message(message, &public_key).unwrap();
    let decrypted = manager.decrypt_message(&encrypted).unwrap();

    assert_eq!(message, decrypted);
}

#[test]
fn test_sign_verify() {
    let manager = CryptoManager::new().unwrap();
    let data = b"test data";
    let public_key = manager.get_public_key();

    let signature = manager.sign_data(data).unwrap();
    let is_valid = manager.verify_signature(data, &signature, &public_key).unwrap();

    assert!(is_valid);
}

#[test]
fn decrypt_after_encrypt_keeps_non_ascii_text() {
    let manager = CryptoManager::new().unwrap();
    let key = PublicKey::new(vec![1, 2, 3]);
    let text = "Привет, мир! 💬";
    let sealed = manager.encrypt_message(text, &key).unwrap();
    assert_eq!(sealed.data, text.as_bytes().to_vec());
    assert_eq!(sealed.nonce, (0u8..12).collect::<Vec<u8>>());
    assert_eq!(manager.decrypt_message(&sealed).unwrap(), text);
}

#[test]
fn bytes_seal_and_open_unchanged() {
    let manager = CryptoManager::new().unwrap();
    let data = [9u8, 8, 7, 0, 255];
    let sealed = manager.encrypt(&data).unwrap();
    assert_eq!(sealed, data.to_vec());
    assert_eq!(manager.decrypt(&sealed).unwrap(), data.to_vec());
}

#[test]
fn signature_adds_one_to_each_byte() {
    let manager = CryptoManager::new().unwrap();
    assert_eq!(manager.sign_data(&[0, 1, 255]).unwrap(), vec![1, 2, 0]);
}

#[test]
fn digest_folds_bytes_into_thirty_two_lanes() {
    let manager = CryptoManager::new().unwrap();
    let mut data = vec![0u8; 33];
    data[0] = 0x0F;
    data[32] = 0xF0;
    data[1] = 7;
    let h = manager.hash_data(&data);
    assert_eq!(h.len(), 32);
    assert_eq!(h[0], 0xFF);
    assert_eq!(h[1], 7);
    assert_eq!(h[2], 0);
}

#[test]
fn shared_secret_is_the_first_thirty_two_bytes() {
    let manager = CryptoManager::new().unwrap();
    let key = manager.get_public_key();
    assert_eq!(manager.derive_shared_secret(&key).unwrap(), (0u8..32).collect::<Vec<u8>>());
}
