use hbb_common::secret_store::{
    get_or_create_master_key, is_encrypted_user_data, secretbox_decrypt_user_data_raw,
    secretbox_encrypt_user_data_raw, secretbox_encrypt_user_data_with_nonce,
    secretbox_user_data_min_len, store_fresh_master_key, user_data_add_magic_header,
    user_data_has_magic_header, user_data_magic_header, user_data_strip_magic_header, with_expected_len, MasterKey,
    MasterKeyAction, MasterKeyEvent, SecretStoreError, SecretStoreResult, MASTER_KEY_LEN,
};
use hbb_common::password_security::CryptError;
use hbb_common::secretbox::{KEYBYTES, MACBYTES, NONCEBYTES};
use once_cell::sync::OnceCell;
use sodiumoxide::crypto::secretbox;
use std::sync::atomic::{AtomicUsize, Ordering};

#[test]
fn test_once_cell_get_or_try_init_retries_after_error() {
    let cache = OnceCell::new();
    let init_calls = AtomicUsize::new(0);

    let first = cache.get_or_try_init(|| {
        init_calls.fetch_add(1, Ordering::SeqCst);
        Err(SecretStoreError::backend_message(
            "test init",
            "temporary failure",
        ))
    });
    assert!(first.is_err());
    assert!(cache.get().is_none());

    let second = cache
        .get_or_try_init(|| {
            init_calls.fetch_add(1, Ordering::SeqCst);
            Ok::<Vec<u8>, SecretStoreError>(vec![7; MASTER_KEY_LEN])
        })
        .cloned()
        .unwrap();

    assert_eq!(init_calls.load(Ordering::SeqCst), 2);
    assert_eq!(second, vec![7; MASTER_KEY_LEN]);
    assert_eq!(cache.get(), Some(&second));
}

#[test]
fn lengths_are_those_of_the_cipher() {
    assert_eq!(KEYBYTES, secretbox::KEYBYTES);
    assert_eq!(NONCEBYTES, secretbox::NONCEBYTES);
    assert_eq!(MACBYTES, secretbox::MACBYTES);
    assert_eq!(MASTER_KEY_LEN, secretbox::KEYBYTES);
    assert_eq!(secretbox_user_data_min_len(), 40);
}

#[test]
fn messages() {
    assert_eq!(SecretStoreError::NotFound.message(), "secret not found");
    assert_eq!(
        SecretStoreError::InvalidLength { expected: 32, actual: 7 }.message(),
        "invalid secret length: expected 32, got 7"
    );
    assert_eq!(
        SecretStoreError::backend("while testing", "it broke".to_string()).message(),
        "while testing: it broke"
    );
    assert_eq!(
        SecretStoreError::backend_message("while testing", "it broke"),
        SecretStoreError::backend("while testing", "it broke".to_string())
    );
}

#[test]
fn header_is_added_found_and_stripped() {
    let header = user_data_magic_header();
    assert_eq!(header.len(), 16);
    assert_eq!(header[..4], [0xbe, 0xb6, 0x88, 0x39]);
    let payload = user_data_add_magic_header(b"abc".to_vec());
    assert_eq!(payload.len(), 19);
    assert!(user_data_has_magic_header(&payload));
    assert!(is_encrypted_user_data(&payload));
    assert_eq!(user_data_strip_magic_header(&payload), (&b"abc"[..], true));
    assert_eq!(user_data_strip_magic_header(b"abc"), (&b"abc"[..], false));
    assert!(!user_data_has_magic_header(&header[..15]));
    assert!(user_data_has_magic_header(&header));
}

#[test]
fn length_is_checked() {
    assert_eq!(with_expected_len(Ok(vec![1, 2]), 2), Ok(vec![1, 2]));
    assert_eq!(
        with_expected_len(Ok(vec![1, 2]), 3),
        Err(SecretStoreError::InvalidLength { expected: 3, actual: 2 })
    );
    assert_eq!(
        with_expected_len(Err(SecretStoreError::NotFound), 3),
        Err(SecretStoreError::NotFound)
    );
}

#[test]
fn user_data_round_trips_under_the_master_key() {
    let key = Some(vec![4u8; 32]);
    let data = secretbox_encrypt_user_data_raw(b"hello", &key).unwrap();
    assert_eq!(data.len(), 24 + 16 + 5);
    assert_eq!(secretbox_decrypt_user_data_raw(&data, &key).unwrap(), b"hello");
    assert_eq!(
        secretbox_decrypt_user_data_raw(&data, &Some(vec![5u8; 32])).unwrap_err(),
        CryptError::DecryptionFailed
    );
    assert_eq!(
        secretbox_decrypt_user_data_raw(&data, &Some(vec![5u8; 33])).unwrap_err(),
        CryptError::InvalidData
    );
    assert_eq!(
        secretbox_decrypt_user_data_raw(&data, &None).unwrap_err(),
        CryptError::DecryptionFailed
    );
    assert_eq!(
        secretbox_decrypt_user_data_raw(&data[..39], &None).unwrap_err(),
        CryptError::InvalidData
    );
    assert_eq!(
        secretbox_encrypt_user_data_raw(b"hello", &None).unwrap_err(),
        CryptError::EncryptionFailed
    );
    assert_eq!(
        secretbox_encrypt_user_data_raw(b"hello", &Some(vec![1])).unwrap_err(),
        CryptError::InvalidData
    );
    let nonce = [9u8; 24];
    let expected = secretbox::seal(b"hello", &secretbox::Nonce(nonce), &secretbox::Key([4; 32]));
    let data = secretbox_encrypt_user_data_with_nonce(b"hello", &key, &nonce).unwrap();
    assert_eq!(&data[..24], &nonce);
    assert_eq!(&data[24..], &expected[..]);
}

#[test]
fn nonces_differ() {
    let key = Some(vec![4u8; 32]);
    let a = secretbox_encrypt_user_data_raw(b"hello", &key).unwrap();
    let b = secretbox_encrypt_user_data_raw(b"hello", &key).unwrap();
    assert_ne!(a, b);
}

fn answer(action: MasterKeyAction) -> SecretStoreResult<Vec<u8>> {
    match action {
        MasterKeyAction::Finish(result) => result,
        _ => panic!("the request is not answered"),
    }
}

#[test]
fn master_key_is_loaded_once() {
    let mut state = MasterKey::new();
    let action = get_or_create_master_key(&mut state, MasterKeyEvent::Requested);
    assert!(matches!(action, MasterKeyAction::Load { account: "master_key" }));
    let loaded = MasterKeyEvent::Loaded(Ok(vec![3; 32]));
    assert_eq!(answer(get_or_create_master_key(&mut state, loaded)), Ok(vec![3; 32]));
    let action = get_or_create_master_key(&mut state, MasterKeyEvent::Requested);
    assert_eq!(answer(action), Ok(vec![3; 32]));
}

#[test]
fn missing_master_key_is_created_and_stored() {
    let mut state = MasterKey::new();
    let missing = MasterKeyEvent::Loaded(Err(SecretStoreError::NotFound));
    let key = match get_or_create_master_key(&mut state, missing) {
        MasterKeyAction::Store { account, key } => {
            assert_eq!(account, "master_key");
            key
        }
        _ => panic!("the key is not stored"),
    };
    assert_eq!(key.len(), 32);
    assert_ne!(key, vec![0; 32]);
    let stored = get_or_create_master_key(&mut state, MasterKeyEvent::Stored(Ok(())));
    assert_eq!(answer(stored), Ok(key.clone()));
    let again = get_or_create_master_key(&mut state, MasterKeyEvent::Requested);
    assert_eq!(answer(again), Ok(key));
}

#[test]
fn master_key_errors_are_not_kept() {
    let mut state = MasterKey::new();
    let failed = MasterKeyEvent::Loaded(Err(SecretStoreError::backend_message("load", "no")));
    assert_eq!(
        answer(get_or_create_master_key(&mut state, failed)),
        Err(SecretStoreError::backend_message("load", "no"))
    );
    let short = MasterKeyEvent::Loaded(Ok(vec![1; 31]));
    assert_eq!(
        answer(get_or_create_master_key(&mut state, short)),
        Err(SecretStoreError::InvalidLength { expected: 32, actual: 31 })
    );
    let missing = MasterKeyEvent::Loaded(Err(SecretStoreError::NotFound));
    assert!(matches!(
        get_or_create_master_key(&mut state, missing),
        MasterKeyAction::Store { .. }
    ));
    let refused = MasterKeyEvent::Stored(Err(SecretStoreError::backend_message("store", "no")));
    assert_eq!(
        answer(get_or_create_master_key(&mut state, refused)),
        Err(SecretStoreError::backend_message("store", "no"))
    );
    assert!(matches!(
        get_or_create_master_key(&mut state, MasterKeyEvent::Requested),
        MasterKeyAction::Load { account: "master_key" }
    ));
}

#[test]
fn fresh_master_key_is_stored_and_waits() {
    let mut state = MasterKey::new();
    let fresh: Vec<u8> = (0..32).collect();
    match store_fresh_master_key(&mut state, fresh.clone()) {
        MasterKeyAction::Store { account, key } => {
            assert_eq!((account, &key), ("master_key", &fresh));
        }
        _ => panic!("the key is not stored"),
    }
    assert_eq!(state.pending, Some(fresh.clone()));
    assert_eq!(state.cached, None);
    let stored = get_or_create_master_key(&mut state, MasterKeyEvent::Stored(Ok(())));
    assert_eq!(answer(stored), Ok(fresh));
}
