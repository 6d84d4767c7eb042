use hbb_common::password_security::{
    approve_mode, cipher_by_prefixed_data, cipher_by_version, crypt_02_user_scope,
    decrypt_str_or_original, decrypt_sync_file_user_scope, decrypt_user_scope,
    decrypt_user_sync_file, decrypt_vec_or_original, encrypt_02_user_with_nonce,
    encrypt_str_or_original, encrypt_str_takes_user_scope, encrypt_str_with,
    encrypt_sync_file_user_scope, encrypt_user_sync_file, encrypt_vec_or_original,
    encrypt_vec_takes_user_scope, encrypt_vec_with, get_auto_password, has_valid_password,
    hide_cm, is_encrypted, permanent_enabled, should_store_after_decrypt,
    symmetric_crypt_00_uuid, symmetric_crypt_02_user, temporary_enabled, temporary_password,
    temporary_password_length, update_temporary_password, verification_method, ApproveMode,
    Cipher, CryptContext, CryptError, PasswordRequest, TemporaryPassword, UserScope,
    VerificationMethod, VERSION_00_UUID, VERSION_02_USER, VERSION_LEN,
};
use hbb_common::platform::Platform;
use hbb_common::secret_store::{
    user_data_add_magic_header, user_data_has_magic_header, user_data_magic_header,
};
use rand::{thread_rng, RngCore};
use sodiumoxide::base64;
use sodiumoxide::base64::{decode, encode, Variant};
use sodiumoxide::crypto::secretbox;
use std::convert::TryInto;
use std::time::Instant;

fn context() -> CryptContext {
    CryptContext {
        platform: Platform::Linux,
        uuid: b"1b4e28ba-2fa1-11d2-883f-0016d3cca427".to_vec(),
        existing_pk: Some(vec![5u8; 32]),
        master_key: Some(vec![7u8; 32]),
        protected: None,
        unprotected: None,
    }
}

#[test]
fn test() {

    let version_uuid = VERSION_00_UUID;
    let version_user = VERSION_02_USER;
    let max_len = 128;

    println!("test str");
    let data = "1ü1111";
    let encrypted = encrypt_str_or_original(data, version_user, max_len, &context());
    let (decrypted, succ, store) = decrypt_str_or_original(&encrypted, version_user, &context());
    println!("data: {data}");
    println!("encrypted: {encrypted}");
    println!("decrypted: {decrypted}");
    assert_eq!(data, decrypted);
    assert_eq!(version_user, &encrypted[..2]);
    assert!(succ);
    assert!(!store);
    let (_, _, store) = decrypt_str_or_original(&encrypted, "99", &context());
    assert!(store);
    assert!(!decrypt_str_or_original(&decrypted, version_user, &context()).1);
    assert_eq!(
        encrypt_str_or_original(&encrypted, version_user, max_len, &context()),
        encrypted
    );

    println!("test vec");
    let data: Vec<u8> = "1ü1111".as_bytes().to_vec();
    let encrypted = encrypt_vec_or_original(&data, version_user, max_len, &context());
    let (decrypted, succ, store) = decrypt_vec_or_original(&encrypted, version_user, &context());
    println!("data: {data:?}");
    println!("encrypted: {encrypted:?}");
    println!("decrypted: {decrypted:?}");
    assert_eq!(data, decrypted);
    assert_eq!(version_user.as_bytes(), &encrypted[..2]);
    assert!(!store);
    assert!(succ);
    let (_, _, store) = decrypt_vec_or_original(&encrypted, "99", &context());
    assert!(store);
    assert!(!decrypt_vec_or_original(&decrypted, version_user, &context()).1);
    assert_eq!(
        encrypt_vec_or_original(&encrypted, version_user, max_len, &context()),
        encrypted
    );

    println!("test original");
    let data = version_user.to_string() + "Hello World";
    let (decrypted, succ, store) = decrypt_str_or_original(&data, version_user, &context());
    assert_eq!(data, decrypted);
    assert!(store);
    assert!(!succ);
    let verbytes = version_user.as_bytes();
    let data: Vec<u8> = vec![verbytes[0], verbytes[1], 1, 2, 3, 4, 5, 6];
    let (decrypted, succ, store) = decrypt_vec_or_original(&data, version_user, &context());
    assert_eq!(data, decrypted);
    assert!(store);
    assert!(!succ);
    let (_, succ, store) = decrypt_str_or_original("", version_user, &context());
    assert!(!store);
    assert!(!succ);
    let (_, succ, store) = decrypt_vec_or_original(&[], version_user, &context());
    assert!(!store);
    assert!(!succ);
    let data = "1ü1111";
    assert_eq!(decrypt_str_or_original(data, version_user, &context()).0, data);
    let data: Vec<u8> = "1ü1111".as_bytes().to_vec();
    assert_eq!(decrypt_vec_or_original(&data, version_user, &context()).0, data);

    println!("test version 00 compatibility");
    let legacy_encrypted = encrypt_str_or_original("legacy", version_uuid, max_len, &context());
    let (legacy_decrypted, succ, store) =
        decrypt_str_or_original(&legacy_encrypted, version_user, &context());
    assert_eq!(legacy_decrypted, "legacy");
    assert!(succ);
    assert!(store);

    // Base64-shaped "00" prefixed values shorter than MACBYTES are treated
    // as original/plain values and should be stored.
    let data = "00YWJjZA==";
    let (decrypted, succ, store) = decrypt_str_or_original(data, version_user, &context());
    assert_eq!(decrypted, data);
    assert!(!succ);
    assert!(store);
    let data = b"00YWJjZA==".to_vec();
    let (decrypted, succ, store) = decrypt_vec_or_original(&data, version_user, &context());
    assert_eq!(decrypted, data);
    assert!(!succ);
    assert!(store);

    // When decoded length reaches MACBYTES, it is treated as encrypted-like
    // and should not trigger repeated store.
    let exact_mac = vec![0u8; sodiumoxide::crypto::secretbox::MACBYTES];
    let exact_mac_b64 =
        sodiumoxide::base64::encode(&exact_mac, sodiumoxide::base64::Variant::Original);
    let data = format!("00{exact_mac_b64}");
    let (_, succ, store) = decrypt_str_or_original(&data, version_user, &context());
    assert!(!succ);
    assert!(!store);
    let data = data.into_bytes();
    let (_, succ, store) = decrypt_vec_or_original(&data, version_user, &context());
    assert!(!succ);
    assert!(!store);

    println!("test speed");
    let test_speed = |len: usize, name: &str| {
        let mut data: Vec<u8> = vec![0; len];
        thread_rng().fill_bytes(&mut data);
        for byte in data.iter_mut() {
            if *byte == 255 {
                *byte = 0;
            }
        }
        let start: Instant = Instant::now();
        let encrypted = encrypt_vec_or_original(&data, version_user, len, &context());
        assert_ne!(data, decrypted);
        let t1 = start.elapsed();
        let start = Instant::now();
        let (decrypted, _, _) = decrypt_vec_or_original(&encrypted, version_user, &context());
        let t2 = start.elapsed();
        assert_eq!(data, decrypted);
        println!("{name}");
        println!("encrypt:{:?}, decrypt:{:?}", t1, t2);

        let start: Instant = Instant::now();
        let encrypted = base64::encode(&data, base64::Variant::Original);
        let t1 = start.elapsed();
        let start = Instant::now();
        let decrypted = base64::decode(&encrypted, base64::Variant::Original).unwrap();
        let t2 = start.elapsed();
        assert_eq!(data, decrypted);
        println!("base64, encrypt:{:?}, decrypt:{:?}", t1, t2,);
    };
    test_speed(128, "128");
    test_speed(1024, "1k");
    test_speed(1024 * 1024, "1M");
    test_speed(10 * 1024 * 1024, "10M");
    test_speed(100 * 1024 * 1024, "100M");
}

#[test]
fn test_is_encrypted() {

    // Empty data should not be considered encrypted
    assert!(!is_encrypted(b"", true));
    assert!(!is_encrypted(b"0", true));
    assert!(!is_encrypted(b"00", true));
    assert!(!is_encrypted(b"", false));
    assert!(!is_encrypted(b"0", false));
    assert!(!is_encrypted(b"00", false));

    // Data without "00" prefix should not be considered encrypted
    assert!(!is_encrypted(b"01abcd", true));
    assert!(!is_encrypted(b"99abcd", true));
    assert!(!is_encrypted(b"hello world", true));
    assert!(!is_encrypted(b"01abcd", false));
    assert!(!is_encrypted(b"99abcd", false));
    assert!(!is_encrypted(b"hello world", false));

    // Data with "00" prefix but invalid base64 should not be considered encrypted
    assert!(!is_encrypted(b"00!!!invalid base64!!!", true));
    assert!(!is_encrypted(b"00@#$%", true));
    assert!(!is_encrypted(b"00!!!invalid base64!!!", false));
    assert!(!is_encrypted(b"00@#$%", false));

    // Data with "00" prefix and valid base64 but shorter than MACBYTES is not encrypted
    assert!(!is_encrypted(b"00YWJjZA==", true)); // "abcd" in base64
    assert!(!is_encrypted(b"00SGVsbG8gV29ybGQ=", true)); // "Hello World" in base64
    assert!(!is_encrypted(b"00YWJjZA==", false));
    assert!(!is_encrypted(b"00SGVsbG8gV29ybGQ=", false));

    // Data with "00" prefix and valid base64 with decoded len == MACBYTES is considered encrypted
    let exact_mac = vec![0u8; secretbox::MACBYTES];
    let exact_mac_b64 = encode(&exact_mac, Variant::Original);
    let exact_mac_candidate = format!("00{exact_mac_b64}");
    assert!(is_encrypted(exact_mac_candidate.as_bytes(), true));
    assert!(is_encrypted(exact_mac_candidate.as_bytes(), false));

    // Real encrypted data should be detected
    let version_uuid = VERSION_00_UUID;
    let max_len = 128;
    let encrypted_str = encrypt_str_or_original("1", version_uuid, max_len, &context());
    assert!(is_encrypted(encrypted_str.as_bytes(), true));
    let encrypted_vec = encrypt_vec_or_original(b"1", version_uuid, max_len, &context());
    assert!(is_encrypted(&encrypted_vec, false));

    // Original unencrypted data should not be detected as encrypted
    assert!(!is_encrypted(b"1", true));
    assert!(!is_encrypted("1".as_bytes(), false));
}

#[test]
fn test_encrypted_payload_min_len_macbytes() {

    let version_user_scope = VERSION_02_USER;
    let max_len = 128;

    let encrypted_str = encrypt_str_or_original("1", version_user_scope, max_len, &context());
    let decoded = decode(&encrypted_str.as_bytes()[VERSION_LEN..], Variant::Original).unwrap();
    assert!(
        decoded.len() >= secretbox::MACBYTES,
        "decoded encrypted payload must be at least MACBYTES"
    );

    let encrypted_vec = encrypt_vec_or_original(b"1", version_user_scope, max_len, &context());
    assert!(
        encrypted_vec[VERSION_LEN..].len() >= secretbox::MACBYTES,
        "encrypted vec payload must be at least MACBYTES"
    );
}

#[test]
fn test_decrypt_str_or_original_non_ascii_prefix_does_not_panic() {

    let data = "中a";
    let (decrypted, succ, store) = decrypt_str_or_original(data, VERSION_02_USER, &context());
    assert_eq!(decrypted, data);
    assert!(!succ);
    assert!(store);
}

#[test]
fn test_version_02_magic_header_detection() {

    let payload = b"payload".to_vec();
    assert!(!user_data_has_magic_header(&payload));
    assert!(!is_encrypted(
        format!(
            "{VERSION_02_USER}{}",
            base64::encode(&payload, base64::Variant::Original)
        )
        .as_bytes(),
        true
    ));

    let current_payload = user_data_add_magic_header(payload.clone());
    assert!(user_data_has_magic_header(
        &current_payload
    ));

    let encoded = base64::encode(&current_payload, base64::Variant::Original);
    let versioned = format!("{VERSION_02_USER}{encoded}");
    assert!(is_encrypted(versioned.as_bytes(), true));
    assert!(!should_store_after_decrypt(
        VERSION_02_USER,
        &payload,
        VERSION_02_USER,
        true, &context()));
}

#[test]
fn test_version_02_encrypted_payload_has_magic_header() {

    let encrypted = encrypt_str_or_original("1", VERSION_02_USER, 128, &context());
    let payload = decode(&encrypted.as_bytes()[VERSION_LEN..], Variant::Original).unwrap();
    assert!(user_data_has_magic_header(&payload));
}

#[test]
fn test_version_02_vec_uses_raw_payload() {

    let encrypted = encrypt_vec_or_original(b"1", VERSION_02_USER, 128, &context());
    let payload = &encrypted[VERSION_LEN..];
    assert!(user_data_has_magic_header(payload));
    assert!(is_encrypted(&encrypted, false));
}

#[test]
fn test_decrypt_with_pk_fallback() {

    let uuid = context().uuid;
    let pk = context().existing_pk.unwrap();

    if uuid == pk {
        println!("skip: uuid == pk, fallback branch won't be tested");
        return;
    }

    let data = b"test password 123";
    let nonce = secretbox::Nonce([0; secretbox::NONCEBYTES]);

    let mut pk_keybuf = pk;
    pk_keybuf.resize(secretbox::KEYBYTES, 0);
    let pk_key = secretbox::Key(pk_keybuf.try_into().unwrap());
    let encrypted = secretbox::seal(data, &nonce, &pk_key);

    let decrypted = symmetric_crypt_00_uuid(&encrypted, false, &context());
    assert!(decrypted.is_ok(), "Decryption with pk fallback should succeed");
    assert_eq!(decrypted.unwrap(), data);
}

#[test]
fn test_version_00_cross_version_compatibility() {

    let max_len = 128;

    let old_encoded_str = encrypt_str_or_original("old-to-new", VERSION_00_UUID, max_len, &context());
    assert_eq!(&old_encoded_str[..VERSION_LEN], VERSION_00_UUID);
    let (decrypted, succ, store) =
        decrypt_str_or_original(&old_encoded_str, VERSION_02_USER, &context());
    assert_eq!(decrypted, "old-to-new");
    assert!(succ);
    assert!(store);

    let new_encoded_str = encrypt_str_or_original("new-to-old", VERSION_00_UUID, max_len, &context());
    assert_eq!(&new_encoded_str[..VERSION_LEN], VERSION_00_UUID);
    let (decrypted, succ, store) =
        decrypt_str_or_original(&new_encoded_str, VERSION_00_UUID, &context());
    assert_eq!(decrypted, "new-to-old");
    assert!(succ);
    assert!(!store);

    let old_encoded_vec = encrypt_vec_or_original(b"old-to-new-vec", VERSION_00_UUID, max_len, &context());
    assert_eq!(&old_encoded_vec[..VERSION_LEN], VERSION_00_UUID.as_bytes());
    let (decrypted, succ, store) =
        decrypt_vec_or_original(&old_encoded_vec, VERSION_02_USER, &context());
    assert_eq!(decrypted, b"old-to-new-vec");
    assert!(succ);
    assert!(store);

    let new_encoded_vec = encrypt_vec_or_original(b"new-to-old-vec", VERSION_00_UUID, max_len, &context());
    assert_eq!(&new_encoded_vec[..VERSION_LEN], VERSION_00_UUID.as_bytes());
    let (decrypted, succ, store) =
        decrypt_vec_or_original(&new_encoded_vec, VERSION_00_UUID, &context());
    assert_eq!(decrypted, b"new-to-old-vec");
    assert!(succ);
    assert!(!store);
}

#[test]
fn unavailable_master_key_falls_back_to_version_00() {
    let mut ctx = context();
    ctx.master_key = None;
    let value = encrypt_str_or_original("secret", VERSION_02_USER, 128, &ctx);
    assert_eq!(&value[..2], VERSION_00_UUID);
    assert_eq!(
        decrypt_str_or_original(&value, VERSION_02_USER, &ctx),
        ("secret".to_string(), true, false)
    );
    assert_eq!(
        decrypt_str_or_original(&value, VERSION_02_USER, &context()),
        ("secret".to_string(), true, true)
    );
    ctx.master_key = Some(vec![1; 31]);
    let value = encrypt_vec_or_original(b"secret", VERSION_02_USER, 128, &ctx);
    assert_eq!(&value[..2], b"00");
    assert_eq!(
        symmetric_crypt_02_user(b"secret", true, &ctx).unwrap_err(),
        CryptError::InvalidData
    );
}

#[test]
fn too_long_values_are_dropped_and_counted_in_characters() {
    let ctx = context();
    assert_eq!(encrypt_str_or_original("äöü", VERSION_00_UUID, 2, &ctx), "");
    assert_ne!(encrypt_str_or_original("äöü", VERSION_00_UUID, 3, &ctx), "");
    assert!(encrypt_vec_or_original(b"abc", VERSION_00_UUID, 2, &ctx).is_empty());
    assert!(!encrypt_vec_or_original(b"abc", VERSION_00_UUID, 3, &ctx).is_empty());
}

#[test]
fn empty_values_and_unknown_versions_stay_as_they_are() {
    let ctx = context();
    assert_eq!(encrypt_str_or_original("", VERSION_02_USER, 128, &ctx), "");
    assert!(encrypt_vec_or_original(b"", VERSION_02_USER, 128, &ctx).is_empty());
    assert_eq!(encrypt_str_or_original("abc", "99", 128, &ctx), "abc");
    assert_eq!(encrypt_vec_or_original(b"abc", "01", 128, &ctx), b"abc");
}

#[test]
fn version_00_text_is_base64_of_the_sealed_value() {
    let ctx = context();
    let mut keybuf = ctx.uuid.clone();
    keybuf.resize(secretbox::KEYBYTES, 0);
    let key = secretbox::Key(keybuf.try_into().unwrap());
    let nonce = secretbox::Nonce([0; secretbox::NONCEBYTES]);
    let sealed = secretbox::seal("héllo".as_bytes(), &nonce, &key);
    let expected = format!("00{}", encode(&sealed, Variant::Original));
    assert_eq!(encrypt_str_or_original("héllo", VERSION_00_UUID, 128, &ctx), expected);
    assert_eq!(
        encrypt_vec_or_original("héllo".as_bytes(), VERSION_00_UUID, 128, &ctx),
        expected.as_bytes()
    );
    let mut short = context();
    short.uuid = vec![1, 2, 3];
    let mut keybuf = short.uuid.clone();
    keybuf.resize(secretbox::KEYBYTES, 0);
    let key = secretbox::Key(keybuf.try_into().unwrap());
    let sealed = secretbox::seal(b"x", &nonce, &key);
    assert_eq!(symmetric_crypt_00_uuid(b"x", true, &short).unwrap(), sealed);
}

#[test]
fn version_02_is_header_nonce_and_sealed_value() {
    let ctx = context();
    let nonce = [3u8; secretbox::NONCEBYTES];
    let key = secretbox::Key([7u8; 32]);
    let mut expected = user_data_magic_header();
    expected.extend_from_slice(&nonce);
    expected.extend(secretbox::seal(b"data", &secretbox::Nonce(nonce), &key));
    assert_eq!(encrypt_02_user_with_nonce(b"data", &ctx, &nonce).unwrap(), expected);
    assert_eq!(symmetric_crypt_02_user(&expected, false, &ctx).unwrap(), b"data");
    let mut value = b"02".to_vec();
    value.extend_from_slice(&expected);
    assert_eq!(encrypt_vec_with(b"data", "02", 128, &ctx, &nonce, &None), value);
    let text = format!("02{}", encode(&expected, Variant::Original));
    assert_eq!(encrypt_str_with("data", "02", 128, &ctx, &nonce, &None), text);
}

#[test]
fn user_scope_errors() {
    let ctx = context();
    let good = symmetric_crypt_02_user(b"data", true, &ctx).unwrap();
    assert_eq!(
        symmetric_crypt_02_user(&good[1..], false, &ctx).unwrap_err(),
        CryptError::InvalidData
    );
    assert_eq!(
        symmetric_crypt_02_user(&good[..16 + 39], false, &ctx).unwrap_err(),
        CryptError::InvalidData
    );
    let mut bad = good.clone();
    *bad.last_mut().unwrap() ^= 1;
    assert_eq!(
        symmetric_crypt_02_user(&bad, false, &ctx).unwrap_err(),
        CryptError::DecryptionFailed
    );
    let mut none = context();
    none.master_key = None;
    assert_eq!(
        symmetric_crypt_02_user(b"data", true, &none).unwrap_err(),
        CryptError::EncryptionFailed
    );
    assert_eq!(
        symmetric_crypt_02_user(&good, false, &none).unwrap_err(),
        CryptError::DecryptionFailed
    );
    assert_eq!(
        Cipher::User.decrypt(b"!!!!", true, &ctx).unwrap_err(),
        CryptError::Base64Error
    );
    assert_eq!(
        Cipher::Uuid.decrypt(b"YWJjZA==", false, &ctx).unwrap_err(),
        CryptError::DecryptionFailed
    );
}

#[test]
fn windows_uses_what_the_api_returned() {
    let mut ctx = context();
    ctx.platform = Platform::Windows;
    assert_eq!(
        symmetric_crypt_02_user(b"data", true, &ctx).unwrap_err(),
        CryptError::EncryptionFailed
    );
    ctx.protected = Some(vec![9, 8, 7]);
    let value = encrypt_vec_or_original(b"data", VERSION_02_USER, 128, &ctx);
    let mut expected = b"02".to_vec();
    expected.extend(user_data_add_magic_header(vec![9, 8, 7]));
    assert_eq!(value, expected);
    assert_eq!(
        decrypt_user_scope(&value, false, VERSION_02_USER, &ctx),
        UserScope::Decrypt(vec![9, 8, 7])
    );
    assert_eq!(decrypt_vec_or_original(&value, VERSION_02_USER, &ctx), (value.clone(), false, false));
    ctx.unprotected = Some(b"data".to_vec());
    assert_eq!(
        decrypt_vec_or_original(&value, VERSION_02_USER, &ctx),
        (b"data".to_vec(), true, false)
    );
    let text = encrypt_str_or_original("data", VERSION_02_USER, 128, &ctx);
    assert_eq!(
        decrypt_user_scope(text.as_bytes(), true, VERSION_00_UUID, &ctx),
        UserScope::Decrypt(vec![9, 8, 7])
    );
    assert_eq!(
        decrypt_user_scope(b"02abc", false, VERSION_02_USER, &ctx),
        UserScope::NotNeeded
    );
    assert_eq!(
        decrypt_str_or_original(&text, VERSION_00_UUID, &ctx),
        ("data".to_string(), true, true)
    );
    assert_eq!(
        decrypt_str_or_original(&text, VERSION_02_USER, &ctx),
        ("data".to_string(), true, false)
    );
    let file = encrypt_user_sync_file(b"data", 128, &ctx).unwrap();
    assert_eq!(file, user_data_add_magic_header(vec![9, 8, 7]));
    assert_eq!(decrypt_user_sync_file(&file, &ctx), Some(b"data".to_vec()));
}

#[test]
fn fallback_to_the_public_key_is_for_desktops() {
    let mut ctx = context();
    let nonce = secretbox::Nonce([0; secretbox::NONCEBYTES]);
    let sealed = secretbox::seal(b"old", &nonce, &secretbox::Key([5u8; 32]));
    for platform in [Platform::Linux, Platform::MacOs, Platform::Windows] {
        ctx.platform = platform;
        assert_eq!(symmetric_crypt_00_uuid(&sealed, false, &ctx).unwrap(), b"old");
    }
    for platform in [Platform::Android, Platform::Ios] {
        ctx.platform = platform;
        assert_eq!(
            symmetric_crypt_00_uuid(&sealed, false, &ctx).unwrap_err(),
            CryptError::DecryptionFailed
        );
    }
    ctx.platform = Platform::Linux;
    ctx.existing_pk = None;
    assert!(symmetric_crypt_00_uuid(&sealed, false, &ctx).is_err());
}

#[test]
fn sync_files_round_trip() {
    let mut ctx = context();
    let file = encrypt_user_sync_file(b"file", 1, &ctx).unwrap();
    assert!(user_data_has_magic_header(&file));
    assert_eq!(decrypt_user_sync_file(&file, &ctx), Some(b"file".to_vec()));
    assert_eq!(decrypt_user_sync_file(b"file", &ctx), None);
    assert!(encrypt_user_sync_file(b"", 128, &ctx).is_some());

    ctx.platform = Platform::Android;
    let file = encrypt_user_sync_file(b"file", 128, &ctx).unwrap();
    assert_eq!(&file[..2], b"00");
    assert_eq!(decrypt_user_sync_file(&file, &ctx), Some(b"file".to_vec()));
    assert_eq!(encrypt_user_sync_file(b"file", 3, &ctx), None);
    assert_eq!(encrypt_user_sync_file(b"", 128, &ctx), None);
    assert_eq!(encrypt_user_sync_file(&file, 128, &ctx), None);
    assert_eq!(decrypt_user_sync_file(b"file", &ctx), None);
}

#[test]
fn not_utf8_is_replaced_when_read_as_text() {
    let ctx = context();
    let value = encrypt_vec_or_original(b"a\xffb", VERSION_00_UUID, 128, &ctx);
    let text = String::from_utf8(value).unwrap();
    assert_eq!(
        decrypt_str_or_original(&text, VERSION_00_UUID, &ctx),
        ("a\u{fffd}b".to_string(), true, false)
    );
}

#[test]
fn user_scope_is_asked_for_only_where_needed() {
    let ctx = context();
    assert!(encrypt_str_takes_user_scope("abc", "02", 3));
    assert!(!encrypt_str_takes_user_scope("abc", "02", 2));
    assert!(!encrypt_str_takes_user_scope("abc", "00", 3));
    assert!(!encrypt_str_takes_user_scope("", "02", 3));
    assert!(encrypt_vec_takes_user_scope(b"abc", "02", 3));
    assert!(!encrypt_vec_takes_user_scope(b"", "02", 3));
    let old = encrypt_str_or_original("abc", "00", 128, &ctx);
    let new = encrypt_str_or_original("abc", "02", 128, &ctx);
    assert!(!encrypt_str_takes_user_scope(&new, "02", 128));
    assert_eq!(
        decrypt_user_scope(old.as_bytes(), true, "02", &ctx),
        UserScope::Encrypt(b"abc".to_vec())
    );
    assert_eq!(decrypt_user_scope(old.as_bytes(), true, "00", &ctx), UserScope::NotNeeded);
    let payload = decode(&new.as_bytes()[VERSION_LEN..], Variant::Original).unwrap();
    assert_eq!(
        decrypt_user_scope(new.as_bytes(), true, "00", &ctx),
        UserScope::Decrypt(payload[16..].to_vec())
    );
    assert_eq!(decrypt_user_scope(b"plain", true, "02", &ctx), UserScope::NotNeeded);
    let mut short = b"02".to_vec();
    short.extend(user_data_magic_header());
    assert_eq!(decrypt_user_scope(&short, false, "02", &ctx), UserScope::NotNeeded);
    let windows = CryptContext { platform: Platform::Windows, ..context() };
    assert_eq!(decrypt_user_scope(&short, false, "02", &windows), UserScope::Decrypt(vec![]));
}

#[test]
fn user_scope_of_data_and_files() {
    let ctx = context();
    let android = CryptContext { platform: Platform::Android, ..context() };
    let data = symmetric_crypt_02_user(b"abc", true, &ctx).unwrap();
    let decrypt = UserScope::Decrypt(data[16..].to_vec());
    assert_eq!(crypt_02_user_scope(b"abc", true, &ctx), UserScope::Encrypt(b"abc".to_vec()));
    assert_eq!(crypt_02_user_scope(b"abc", false, &ctx), UserScope::NotNeeded);
    assert_eq!(crypt_02_user_scope(&data, false, &ctx), decrypt);
    assert_eq!(crypt_02_user_scope(&data[..16 + 39], false, &ctx), UserScope::NotNeeded);
    assert_eq!(
        encrypt_sync_file_user_scope(b"abc", &ctx),
        UserScope::Encrypt(b"abc".to_vec())
    );
    assert_eq!(encrypt_sync_file_user_scope(b"abc", &android), UserScope::NotNeeded);
    assert_eq!(decrypt_sync_file_user_scope(&data, &ctx), decrypt);
    assert_eq!(decrypt_sync_file_user_scope(&data, &android), UserScope::NotNeeded);
    let mut value = b"02".to_vec();
    value.extend_from_slice(&data);
    assert_eq!(decrypt_sync_file_user_scope(&value, &android), decrypt);
}

#[test]
fn what_is_encrypted_stays_whatever_is_asked_for() {
    let ctx = context();
    let text = encrypt_str_or_original("secret", VERSION_02_USER, 128, &ctx);
    let bytes = encrypt_vec_or_original(b"secret", VERSION_00_UUID, 128, &ctx);
    let other = CryptContext { platform: Platform::Windows, uuid: vec![1], ..context() };
    for version in [VERSION_00_UUID, VERSION_02_USER, "99"] {
        assert_eq!(encrypt_str_or_original(&text, version, 0, &other), text);
        assert_eq!(encrypt_vec_or_original(&bytes, version, 0, &other), bytes);
    }
    // A text with a version before what is not ASCII, too: one machine decodes it as before.
    let odd = "00\u{e9}\u{e9}\u{e9}\u{e9}";
    let first = encrypt_str_or_original(odd, VERSION_02_USER, 128, &ctx);
    assert_eq!(encrypt_str_or_original(&first, VERSION_00_UUID, 0, &ctx), first);
}

#[test]
fn short_values_of_version_00_are_plain() {
    let ctx = context();
    for n in 1..secretbox::MACBYTES {
        let text = format!("00{}", encode(vec![9u8; n], Variant::Original));
        for current in [VERSION_00_UUID, VERSION_02_USER, "99"] {
            assert_eq!(
                decrypt_str_or_original(&text, current, &ctx),
                (text.clone(), false, true)
            );
            assert_eq!(
                decrypt_vec_or_original(text.as_bytes(), current, &ctx),
                (text.clone().into_bytes(), false, true)
            );
        }
        assert_eq!(
            decrypt_user_scope(text.as_bytes(), true, VERSION_02_USER, &ctx),
            UserScope::NotNeeded
        );
    }
}

#[test]
fn encrypted_values_have_bounded_lengths() {
    let ctx = context();
    for n in [1usize, 2, 3, 100] {
        let data = vec![b'x'; n];
        let text = String::from_utf8(data.clone()).unwrap();
        let bound = VERSION_LEN + (n + 56 + 2) / 3 * 4;
        assert_eq!(encrypt_str_or_original(&text, VERSION_02_USER, 128, &ctx).len(), bound);
        assert_eq!(
            encrypt_vec_or_original(&data, VERSION_02_USER, 128, &ctx).len(),
            VERSION_LEN + n + 56
        );
        assert!(encrypt_vec_or_original(&data, VERSION_00_UUID, 128, &ctx).len() <= bound);
    }
}

#[test]
fn values_under_another_key_are_not_stored_again() {
    let other = CryptContext { uuid: b"another machine".to_vec(), ..context() };
    let text = encrypt_str_or_original("secret", VERSION_00_UUID, 128, &other);
    let bytes = encrypt_vec_or_original(b"secret", VERSION_00_UUID, 128, &other);
    for current in [VERSION_00_UUID, VERSION_02_USER, "99"] {
        assert_eq!(
            decrypt_str_or_original(&text, current, &context()),
            (text.clone(), false, false)
        );
        assert_eq!(
            decrypt_vec_or_original(&bytes, current, &context()),
            (bytes.clone(), false, false)
        );
    }
}

#[test]
fn ciphers_by_version_and_prefix() {
    assert_eq!(cipher_by_version("00"), Some(Cipher::Uuid));
    assert_eq!(cipher_by_version("02"), Some(Cipher::User));
    assert_eq!(cipher_by_version("2"), None);
    assert_eq!(cipher_by_prefixed_data(b"00x"), Some(Cipher::Uuid));
    assert_eq!(cipher_by_prefixed_data(b"02x"), Some(Cipher::User));
    assert_eq!(cipher_by_prefixed_data(b"02"), None);
    assert_eq!(cipher_by_prefixed_data(b"01x"), None);
    assert_eq!(Cipher::Uuid.version(), VERSION_00_UUID);
    assert_eq!(Cipher::User.version(), VERSION_02_USER);
}

#[test]
fn options_decide_about_passwords() {
    assert_eq!(
        verification_method("use-temporary-password"),
        VerificationMethod::OnlyUseTemporaryPassword
    );
    assert_eq!(
        verification_method("use-permanent-password"),
        VerificationMethod::OnlyUsePermanentPassword
    );
    assert_eq!(verification_method(""), VerificationMethod::UseBothPasswords);
    assert_eq!(temporary_password_length("8"), 8);
    assert_eq!(temporary_password_length("10"), 10);
    assert_eq!(temporary_password_length("12"), 6);
    assert_eq!(get_auto_password("10", true), PasswordRequest { numeric: true, len: 10 });
    assert!(temporary_enabled("") && permanent_enabled(""));
    assert!(!temporary_enabled("use-permanent-password"));
    assert!(!permanent_enabled("use-temporary-password"));
    assert_eq!(approve_mode("password"), ApproveMode::Password);
    assert_eq!(approve_mode("click"), ApproveMode::Click);
    assert_eq!(approve_mode("password-click"), ApproveMode::Both);
    assert!(hide_cm("password", "use-permanent-password", true));
    assert!(!hide_cm("password", "use-permanent-password", false));
    assert!(!hide_cm("click", "use-permanent-password", true));
    assert!(!hide_cm("password", "", true));
}

#[test]
fn temporary_password_is_replaced() {
    let mut current = TemporaryPassword { password: String::new() };
    assert!(!has_valid_password("use-temporary-password", &current, true));
    assert!(has_valid_password("", &current, true));
    update_temporary_password(&mut current, "abc123".to_string());
    assert_eq!(temporary_password(&current), "abc123");
    assert!(has_valid_password("use-temporary-password", &current, false));
    assert!(!has_valid_password("use-permanent-password", &current, false));
}
