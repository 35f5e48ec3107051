use academic_workflow::crypto::{
    constant_time_compare, derive_key, derive_key_hex, generate_nanoid, generate_nanoid_custom,
    generate_nanoid_with_length, generate_salt, generate_url_safe_id, generate_uuid,
    hmac_sha3_256, hmac_sha3_256_hex, sha3_256, sha3_256_hex, sha3_512, sha3_512_hex,
    verify_hmac_sha3_256,
};

#[test]
fn test_sha3_256() {
    let hash = sha3_256(b"test");
    assert_eq!(hash.len(), 32);

    // Test deterministic
    let hash2 = sha3_256(b"test");
    assert_eq!(hash, hash2);

    // Test different input produces different hash
    let hash3 = sha3_256(b"different");
    assert_ne!(hash, hash3);
}

#[test]
fn test_sha3_256_hex() {
    let hash = sha3_256_hex(b"test");
    assert_eq!(hash.len(), 64);
    assert!(hash.chars().all(|c| c.is_ascii_hexdigit()));
}

#[test]
fn test_sha3_512() {
    let hash = sha3_512(b"test");
    assert_eq!(hash.len(), 64);
}

#[test]
fn test_sha3_512_hex() {
    let hash = sha3_512_hex(b"test");
    assert_eq!(hash.len(), 128);
    assert!(hash.chars().all(|c| c.is_ascii_hexdigit()));
}

#[test]
fn test_hmac_sha3_256() {
    let key = b"secret-key";
    let data = b"message";
    let mac = hmac_sha3_256(key, data).unwrap();
    assert_eq!(mac.len(), 32);

    // Test deterministic
    let mac2 = hmac_sha3_256(key, data).unwrap();
    assert_eq!(mac, mac2);

    // Different key produces different MAC
    let mac3 = hmac_sha3_256(b"different-key", data).unwrap();
    assert_ne!(mac, mac3);
}

#[test]
fn test_verify_hmac_sha3_256() {
    let key = b"secret-key";
    let data = b"message";
    let mac = hmac_sha3_256(key, data).unwrap();

    assert!(verify_hmac_sha3_256(key, data, &mac).unwrap());
    assert!(!verify_hmac_sha3_256(key, b"wrong", &mac).unwrap());
    assert!(!verify_hmac_sha3_256(b"wrong-key", data, &mac).unwrap());
}

#[test]
fn test_constant_time_compare() {
    assert!(constant_time_compare(b"hello", b"hello"));
    assert!(!constant_time_compare(b"hello", b"world"));
    assert!(!constant_time_compare(b"hello", b"hello!"));
    assert!(!constant_time_compare(b"", b"x"));
}

#[test]
fn test_generate_uuid() {
    let id1 = generate_uuid();
    let id2 = generate_uuid();

    assert_eq!(id1.len(), 36);
    assert_eq!(id2.len(), 36);
    assert_ne!(id1, id2); // UUIDs should be unique
}

#[test]
fn test_generate_nanoid() {
    let id1 = generate_nanoid();
    let id2 = generate_nanoid();

    assert_eq!(id1.len(), 21);
    assert_eq!(id2.len(), 21);
    assert_ne!(id1, id2);
}

#[test]
fn test_generate_nanoid_with_length() {
    let id = generate_nanoid_with_length(10);
    assert_eq!(id.len(), 10);
}

#[test]
fn test_generate_nanoid_custom() {
    let alphabet = &['A', 'B', 'C'];
    let id = generate_nanoid_custom(alphabet, 8);
    assert_eq!(id.len(), 8);
    assert!(id.chars().all(|c| alphabet.contains(&c)));
}

#[test]
fn test_generate_url_safe_id() {
    let id = generate_url_safe_id(16);
    assert_eq!(id.len(), 16);
    assert!(id.chars().all(|c| c.is_alphanumeric()));
}

#[test]
fn test_derive_key() {
    let password = b"my-password";
    let salt = b"unique-salt";
    let key = derive_key(password, salt, 1000, 32);

    assert_eq!(key.len(), 32);

    // Test deterministic
    let key2 = derive_key(password, salt, 1000, 32);
    assert_eq!(key, key2);

    // Different password produces different key
    let key3 = derive_key(b"different", salt, 1000, 32);
    assert_ne!(key, key3);

    // Different salt produces different key
    let key4 = derive_key(password, b"different-salt", 1000, 32);
    assert_ne!(key, key4);
}

#[test]
fn test_derive_key_hex() {
    let key = derive_key_hex(b"password", b"salt", 1000, 32);
    assert_eq!(key.len(), 64); // 32 bytes = 64 hex chars
    assert!(key.chars().all(|c| c.is_ascii_hexdigit()));
}

#[test]
fn test_generate_salt() {
    let salt1 = generate_salt(16);
    let salt2 = generate_salt(16);

    assert_eq!(salt1.len(), 16);
    assert_eq!(salt2.len(), 16);
    assert_ne!(salt1, salt2); // Salts should be unique
}

#[test]
fn test_generate_salt_various_lengths() {
    for len in &[8, 16, 32, 64, 100] {
        let salt = generate_salt(*len);
        assert_eq!(salt.len(), *len);
    }
}

#[test]
fn sha3_256_of_known_inputs() {
    assert_eq!(
        sha3_256_hex(b""),
        "a7ffc6f8bf1ed76651c14756a061d662f580ff4de43b49fa82d80a4b80f8434a"
    );
    assert_eq!(
        sha3_256_hex(b"abc"),
        "3a985da74fe225b2045c172d6bd390bd855f086e3e9d525b46bfe24511431532"
    );
}

#[test]
fn sha3_512_of_known_input() {
    assert_eq!(
        sha3_512_hex(b""),
        "a69f73cca23a9ac5c8b567dc185a756e97c982164fe25859e0d1dcc1475c80a615b2123af1f5f94c11e3e9402c3ac558f500199d95b6d3e301758586281dcd26"
    );
}

#[test]
fn hex_forms_agree_with_the_bytes() {
    let digest = sha3_256(b"abc");
    assert_eq!(digest[0], 0x3a);
    assert_eq!(digest[31], 0x32);
    let mac = hmac_sha3_256(b"key", b"data").unwrap();
    let text = hmac_sha3_256_hex(b"key", b"data").unwrap();
    let expected: String = mac.iter().map(|b| format!("{:02x}", b)).collect();
    assert_eq!(text, expected);
    let key = derive_key(b"password", b"salt", 10, 20);
    let expected: String = key.iter().map(|b| format!("{:02x}", b)).collect();
    assert_eq!(derive_key_hex(b"password", b"salt", 10, 20), expected);
}

#[test]
fn constant_time_compare_on_empty_and_equal_lengths() {
    assert!(constant_time_compare(b"", b""));
    assert!(!constant_time_compare(b"abc", b"abd"));
    assert!(!constant_time_compare(b"abc", b""));
}

#[test]
fn identifiers_have_the_promised_shape() {
    let id = generate_nanoid();
    assert_eq!(id.len(), 21);
    assert!(id.chars().all(|c| c == '_' || c == '-' || c.is_ascii_alphanumeric()));
    let id = generate_nanoid_custom(&['x'], 5);
    assert_eq!(id, "xxxxx");
    let id = generate_url_safe_id(1);
    assert_eq!(id.len(), 1);
    let uuid = generate_uuid();
    assert_eq!(uuid.chars().filter(|&c| c == '-').count(), 4);
    assert!(generate_salt(0).is_empty());
    assert_eq!(generate_salt(17).len(), 17);
}
