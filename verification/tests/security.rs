use base64::Engine;
use auditlens::auth::{UserRole, UserStore};
use auditlens::encryption::{decrypt, decrypt_checked, derive_key, encrypt, CryptoError, EncryptedData};

#[test]
fn test_register_and_login() {
    let mut store = UserStore::new().unwrap();
    assert!(store.verify("admin", "admin123").is_some());
    assert!(store.verify("admin", "wrong").is_none());
    let result = store.register("testuser", "test123456", "测试用户", UserRole::Viewer);
    assert!(result.is_ok());
    assert!(store.verify("testuser", "test123456").is_some());
}

#[test]
fn test_duplicate_register() {
    let mut store = UserStore::new().unwrap();
    let result = store.register("admin", "pass123", "重复", UserRole::Viewer);
    assert!(result.is_err());
}

#[test]
fn registration_length_rules() {
    let mut store = UserStore::new().unwrap();
    assert_eq!(store.register("ab", "secret123", "x", UserRole::Viewer).unwrap_err(), "用户名至少3个字符");
    assert_eq!(store.register("abc", "12345", "x", UserRole::Viewer).unwrap_err(), "密码至少6个字符");
    assert_eq!(store.register("admin", "12345", "x", UserRole::Viewer).unwrap_err(), "用户名已存在");
    assert!(store.verify("ab", "secret123").is_none());
}

#[test]
fn built_in_accounts() {
    let store = UserStore::new().unwrap();
    let auditor = store.verify("auditor", "audit123").unwrap();
    assert_eq!(auditor.display_name, "审计员");
    assert_eq!(auditor.role, UserRole::Auditor);
    assert_eq!(auditor.role.to_text(), "审计员");
    assert_eq!(UserRole::Admin.to_text(), "管理员");
    assert!(store.verify("nobody", "audit123").is_none());
}

#[test]
fn test_encrypt_decrypt() {
    let data = r#"{"test": "财务数据", "amount": 12345.67}"#;
    let password = "MySecretPassword123";
    let encrypted = encrypt(data, password).unwrap();
    assert!(!encrypted.ciphertext.is_empty());
    let decrypted = decrypt(&encrypted, password).unwrap();
    assert_eq!(decrypted, data);
}

#[test]
fn test_wrong_password() {
    let data = "sensitive data";
    let encrypted = encrypt(data, "correct_password").unwrap();
    let result = decrypt(&encrypted, "wrong_password");
    assert!(result.is_err());
}

#[test]
fn keys_depend_on_the_password_alone() {
    assert_eq!(derive_key("abc"), derive_key("abc"));
    assert_ne!(derive_key("abc"), derive_key("abd"));
}

#[test]
fn damaged_packages_fail_to_open() {
    let encrypted = encrypt("payload", "pw").unwrap();
    let bad_text = EncryptedData { ciphertext: "***".to_string(), ..encrypted.clone() };
    assert_eq!(decrypt(&bad_text, "pw"), Err(CryptoError::CiphertextDecode));
    let bad_nonce = EncryptedData { nonce: "***".to_string(), ..encrypted.clone() };
    assert_eq!(decrypt(&bad_nonce, "pw"), Err(CryptoError::NonceDecode));
    let short_nonce = EncryptedData { nonce: "AAAA".to_string(), ..encrypted.clone() };
    assert!(decrypt_checked(&short_nonce, "pw").is_none());
    assert_eq!(decrypt_checked(&encrypted, "pw"), Some(Ok("payload".to_string())));
    assert_eq!(CryptoError::DecryptFailed.message(), "解密失败：密码错误或数据已损坏");
}

#[test]
fn packages_hold_base64_of_sealed_bytes() {
    let data = "plain text that must not show";
    let encrypted = encrypt(data, "pw").unwrap();
    let sealed = base64::engine::general_purpose::STANDARD.decode(&encrypted.ciphertext).unwrap();
    let nonce = base64::engine::general_purpose::STANDARD.decode(&encrypted.nonce).unwrap();
    assert_eq!(nonce.len(), 12);
    assert_eq!(sealed.len(), data.len() + 16);
    assert_ne!(&sealed[..data.len()], data.as_bytes());
}

#[test]
fn stored_hashes_are_not_the_passwords() {
    let mut store = UserStore::new().unwrap();
    let user = store.register("carol", "s3cret-pass", "Carol", UserRole::Auditor).unwrap();
    assert_ne!(user.password_hash, "s3cret-pass");
    assert!(user.password_hash.starts_with("$2"));
    assert!(store.verify("carol", "s3cret-pass").is_some());
    assert!(store.verify("carol", "s3cret-pasS").is_none());
}
