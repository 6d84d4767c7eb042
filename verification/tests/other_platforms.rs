use hbb_common::platform::android;
use hbb_common::platform::android::{
    frame_payload, get_or_create_secret_key, split_payload, store_name, KeyAction, KeyEvent,
    Presence,
};
use hbb_common::platform::apple;
use hbb_common::platform::apple::{
    KeychainError, KeychainLoadAction, KeychainLoadEvent, KeychainResult, KeychainStoreAction,
    KeychainStoreEvent,
};
use hbb_common::platform::command_line::CommandLine;
use hbb_common::platform::macos;
use hbb_common::platform::macos::{
    CommandAction, CommandEnd, CommandEvent, KeychainAccess, LoadAction, LoadEvent, StoreAction,
    StoreEvent,
};
use hbb_common::platform::windows;
use hbb_common::platform::windows::{
    blob_to_vec, cpu_uage_one_minute, credential_target_name, to_wide_null, Blob, CpuWindow,
    CredentialLoadAction, CredentialLoadEvent, CredentialRead, CredentialStoreAction, CredentialStoreEvent, DpapiReadAction, DpapiReadEvent,
    DpapiWriteAction, DpapiWriteEvent, FileRead,
};
use hbb_common::secret_store::{SecretStoreError, SecretStoreResult};

fn backend<T>(context: &'static str, source: &str) -> SecretStoreResult<T> {
    Err(SecretStoreError::backend_message(context, source))
}

fn err<T>() -> Result<T, String> {
    Err("e".to_string())
}

#[test]
fn android_key_is_generated_once() {
    assert_eq!(store_name("RustDesk"), "RustDesk.secret-store");
    match get_or_create_secret_key("s", KeyEvent::Requested) {
        KeyAction::Ask { provider, alias } => {
            assert_eq!((provider, alias.as_str()), ("AndroidKeyStore", "s.secret-store"))
        }
        _ => panic!("the Keystore is not asked"),
    }
    assert!(matches!(
        get_or_create_secret_key("s", KeyEvent::Asked(None)),
        KeyAction::Fail
    ));
    assert!(matches!(
        get_or_create_secret_key("s", KeyEvent::Asked(Some(true))),
        KeyAction::UseExisting
    ));
    match get_or_create_secret_key("s", KeyEvent::Asked(Some(false))) {
        KeyAction::Generate(spec) => {
            assert_eq!(spec.alias, "s.secret-store");
            assert_eq!(spec.purposes, 3);
            assert_eq!((spec.block_mode, spec.padding), ("GCM", "NoPadding"));
            assert_eq!((spec.algorithm, spec.provider), ("AES", "AndroidKeyStore"));
            assert!(!spec.user_authentication_required);
        }
        _ => panic!("no key is generated"),
    }
}

#[test]
fn android_payload_round_trips() {
    let payload = frame_payload(&[1, 2, 3], &[9, 8]).unwrap();
    assert_eq!(payload, [3, 1, 2, 3, 9, 8]);
    assert_eq!(split_payload(&payload), Some((vec![1, 2, 3], vec![9, 8])));
    assert_eq!(split_payload(&[]), None);
    assert_eq!(split_payload(&[2, 1]), None);
    assert_eq!(split_payload(&[0]), Some((vec![], vec![])));
    assert!(frame_payload(&[0; 255], &[]).is_some());
    assert!(frame_payload(&[0; 256], &[]).is_none());
}

fn android_load(replies: Vec<android::LoadReply>) -> SecretStoreResult<Vec<u8>> {
    let (mut load, mut call) = android::load_secret("Service", "acc");
    for reply in replies {
        match &call {
            android::LoadCall::OpenPreferences { name, mode } => {
                assert_eq!((name.as_str(), *mode), ("Service.secret-store", 0))
            }
            android::LoadCall::Contains(key) | android::LoadCall::GetString(key) => {
                assert_eq!(key, "acc")
            }
            android::LoadCall::GetOrCreateKey(service) => assert_eq!(service, "Service"),
            android::LoadCall::Decrypt(decryption) => {
                assert_eq!(decryption.transformation, "AES/GCM/NoPadding");
                assert_eq!((decryption.mode, decryption.tag_bits), (2, 128));
                assert_eq!(decryption.iv, [1, 2]);
                assert_eq!(decryption.ciphertext, [3]);
            }
            _ => {}
        }
        call = load.step(reply);
    }
    match call {
        android::LoadCall::Finish(result) => result,
        _ => panic!("the load is not over"),
    }
}

#[test]
fn android_secret_is_loaded() {
    let present = || {
        vec![
            android::LoadReply::Jvm(Ok(())),
            android::LoadReply::Thread(Ok(())),
            android::LoadReply::Preferences(true),
            android::LoadReply::Presence(Presence::Known(true)),
        ]
    };
    let with = |more: Vec<android::LoadReply>| {
        let mut replies = present();
        replies.extend(more);
        android_load(replies)
    };
    let stored = || android::LoadReply::Stored(Some("AgECAw==".to_string()));
    assert_eq!(with(vec![stored(), android::LoadReply::Key(true), android::LoadReply::Decrypted(Some(vec![7]))]), Ok(vec![7]));
    assert_eq!(
        with(vec![stored(), android::LoadReply::Key(true), android::LoadReply::Decrypted(None)]),
        backend("failed to decrypt Android secret payload", "alias Service.secret-store")
    );
    assert_eq!(
        with(vec![android::LoadReply::Stored(Some("Ag==".to_string())), android::LoadReply::Key(true)]),
        backend("failed to decrypt Android secret payload", "alias Service.secret-store")
    );
    assert_eq!(
        with(vec![android::LoadReply::Stored(Some(String::new())), android::LoadReply::Key(true)]),
        backend("failed to decrypt Android secret payload", "alias Service.secret-store")
    );
    assert_eq!(
        with(vec![stored(), android::LoadReply::Key(false)]),
        backend("failed to access Android Keystore key", "missing alias Service.secret-store")
    );
    assert_eq!(
        with(vec![android::LoadReply::Stored(None)]),
        backend("failed to read Android secret payload", "missing string value for key acc")
    );
    let error = with(vec![android::LoadReply::Stored(Some("?".to_string()))]).unwrap_err().message();
    assert!(error.starts_with("failed to decode Android secret payload: "));
}

#[test]
fn android_load_errors() {
    assert_eq!(android_load(vec![android::LoadReply::Jvm(err())]), backend("failed to attach to Android JVM", "e"));
    assert_eq!(
        android_load(vec![android::LoadReply::Jvm(Ok(())), android::LoadReply::Thread(err())]),
        backend("failed to attach Android thread to JVM", "e")
    );
    assert_eq!(
        android_load(vec![android::LoadReply::Jvm(Ok(())), android::LoadReply::Thread(Ok(())), android::LoadReply::Preferences(false)]),
        backend("failed to open Android SharedPreferences", "Service.secret-store")
    );
    let presence = |p| {
        android_load(vec![
            android::LoadReply::Jvm(Ok(())),
            android::LoadReply::Thread(Ok(())),
            android::LoadReply::Preferences(true),
            android::LoadReply::Presence(p),
        ])
    };
    assert_eq!(presence(Presence::Known(false)), Err(SecretStoreError::NotFound));
    assert_eq!(
        presence(Presence::NoKey("e".to_string())),
        backend("failed to allocate Android preference key", "e")
    );
    assert_eq!(
        presence(Presence::NoAnswer("e".to_string())),
        backend("failed to query Android preference key presence", "e")
    );
    assert_eq!(
        presence(Presence::NoValue("e".to_string())),
        backend("failed to decode Android preference key presence", "e")
    );
}

fn android_store(replies: Vec<android::StoreReply>) -> (SecretStoreResult<()>, String) {
    let (mut store, mut call) = android::store_secret("Service", "acc", b"abcd");
    let mut put = String::new();
    for reply in replies {
        match &call {
            android::StoreCall::GetOrCreateKey(service) => assert_eq!(service, "Service"),
            android::StoreCall::Encrypt(encryption) => {
                assert_eq!(encryption.transformation, "AES/GCM/NoPadding");
                assert_eq!(encryption.mode, 1);
                assert_eq!(encryption.plaintext, b"abcd");
            }
            android::StoreCall::OpenPreferences { name, mode } => {
                assert_eq!((name.as_str(), *mode), ("Service.secret-store", 0))
            }
            android::StoreCall::PutString { key, value } => {
                assert_eq!(key, "acc");
                put = value.clone();
            }
            _ => {}
        }
        call = store.step(reply);
    }
    match call {
        android::StoreCall::Finish(result) => (result, put),
        _ => panic!("the store is not over"),
    }
}

#[test]
fn android_secret_is_stored() {
    let with = |more: Vec<android::StoreReply>| {
        let mut replies = vec![android::StoreReply::Jvm(Ok(())), android::StoreReply::Thread(Ok(()))];
        replies.extend(more);
        android_store(replies)
    };
    let parts = || android::StoreReply::Encrypted(Some((vec![1, 2], vec![3])));
    assert_eq!(
        with(vec![android::StoreReply::Key(true), parts(), android::StoreReply::Preferences(true), android::StoreReply::Persisted(true)]),
        (Ok(()), "AgECAw==".to_string())
    );
    assert_eq!(
        with(vec![android::StoreReply::Key(true), parts(), android::StoreReply::Preferences(true), android::StoreReply::Persisted(false)]).0,
        backend("failed to persist Android secret payload", "key acc")
    );
    assert_eq!(
        with(vec![android::StoreReply::Key(true), parts(), android::StoreReply::Preferences(false)]).0,
        backend("failed to open Android SharedPreferences", "Service.secret-store")
    );
    for failed in [None, Some((vec![0; 256], vec![]))] {
        assert_eq!(
            with(vec![android::StoreReply::Key(true), android::StoreReply::Encrypted(failed)]).0,
            backend("failed to encrypt Android secret payload", "alias Service.secret-store")
        );
    }
    assert_eq!(
        with(vec![android::StoreReply::Key(false)]).0,
        backend("failed to access Android Keystore key", "missing alias Service.secret-store")
    );
    assert_eq!(
        android_store(vec![android::StoreReply::Jvm(err())]).0,
        backend("failed to attach to Android JVM", "e")
    );
    assert_eq!(
        android_store(vec![android::StoreReply::Jvm(Ok(())), android::StoreReply::Thread(err())]).0,
        backend("failed to attach Android thread to JVM", "e")
    );
}

fn keychain_error<T>(code: i32) -> KeychainResult<T> {
    Err(KeychainError { code, message: "e".to_string() })
}

fn apple_loaded(action: KeychainLoadAction) -> SecretStoreResult<Vec<u8>> {
    match action {
        KeychainLoadAction::Finish(result) => result,
        KeychainLoadAction::Read(_) => panic!("the load is not over"),
    }
}

fn apple_stored(action: KeychainStoreAction) -> SecretStoreResult<()> {
    match action {
        KeychainStoreAction::Finish(result) => result,
        _ => panic!("the store is not over"),
    }
}

#[test]
fn apple_passwords_are_loaded() {
    let generic = |event| apple::load_secret_keychain_generic("s", "a", event);
    let protected = |event| apple::load_secret_keychain_protected("s", "a", event);
    for (action, in_protected) in [
        (generic(KeychainLoadEvent::Requested), false),
        (protected(KeychainLoadEvent::Requested), true),
    ] {
        match action {
            KeychainLoadAction::Read(query) => {
                assert_eq!((query.service.as_str(), query.account.as_str()), ("s", "a"));
                assert_eq!(query.protected, in_protected);
            }
            KeychainLoadAction::Finish(_) => panic!("nothing is read"),
        }
    }
    assert_eq!(apple_loaded(generic(KeychainLoadEvent::Read(Ok(vec![1])))), Ok(vec![1]));
    assert_eq!(
        apple_loaded(generic(KeychainLoadEvent::Read(keychain_error(-25300)))),
        Err(SecretStoreError::NotFound)
    );
    assert_eq!(
        apple_loaded(generic(KeychainLoadEvent::Read(keychain_error(-1)))),
        backend("failed to read secret from Apple generic keychain", "e")
    );
    assert_eq!(
        apple_loaded(protected(KeychainLoadEvent::Read(keychain_error(-1)))),
        backend("failed to read secret from Apple protected keychain", "e")
    );
    assert_eq!(apple::map_keychain_result(Ok(5), "x"), Ok(5));
}

#[test]
fn apple_passwords_are_stored() {
    let generic = |event| apple::store_secret_keychain_generic("s", "a", b"x", event);
    let protected = |event| apple::store_secret_keychain_protected("s", "a", b"x", event);
    assert!(matches!(
        protected(KeychainStoreEvent::Requested),
        KeychainStoreAction::CreateAccessControl
    ));
    for (action, in_protected) in [
        (generic(KeychainStoreEvent::Requested), false),
        (protected(KeychainStoreEvent::AccessControlCreated(Ok(()))), true),
    ] {
        match action {
            KeychainStoreAction::Write { query, secret } => {
                assert_eq!((query.service.as_str(), query.account.as_str()), ("s", "a"));
                assert_eq!(query.protected, in_protected);
                assert_eq!(secret, b"x");
            }
            _ => panic!("nothing is written"),
        }
    }
    assert_eq!(
        apple_stored(protected(KeychainStoreEvent::AccessControlCreated(err()))),
        backend("failed to create Apple keychain access control", "e")
    );
    assert_eq!(apple_stored(generic(KeychainStoreEvent::Written(Ok(())))), Ok(()));
    assert_eq!(
        apple_stored(generic(KeychainStoreEvent::Written(keychain_error(-1)))),
        backend("failed to write secret to Apple generic keychain", "e")
    );
    assert_eq!(
        apple_stored(protected(KeychainStoreEvent::Written(keychain_error(-1)))),
        backend("failed to write secret to Apple protected keychain", "e")
    );
}

fn mac_load(access: &mut KeychainAccess, event: LoadEvent) -> SecretStoreResult<Vec<u8>> {
    match macos::load_secret(access, "s", "a", event) {
        LoadAction::Finish(result) => result,
        _ => panic!("the load is not over"),
    }
}

#[test]
fn mac_secret_is_loaded() {
    let mut access = KeychainAccess { denied: false };
    assert!(matches!(
        macos::load_secret_keychain_mac_generic(&mut access, "s", "a", LoadEvent::Requested),
        LoadAction::OpenDefault
    ));
    assert!(matches!(
        macos::load_secret(&mut access, "s", "a", LoadEvent::Opened(Ok(()))),
        LoadAction::GetState
    ));
    let state = |status, flags| LoadEvent::State { status, flags };
    match macos::load_secret(&mut access, "s", "a", state(0, 7)) {
        LoadAction::CopyMatching(query) => {
            assert_eq!((query.class, query.authentication_ui), ("genp", "fail"));
            assert_eq!((query.service.as_str(), query.account.as_str()), ("s", "a"));
            assert!(query.return_data);
        }
        _ => panic!("the item is not asked for"),
    }
    let copied = |status, data| LoadEvent::Copied { status, data };
    assert_eq!(mac_load(&mut access, copied(0, Some(vec![1]))), Ok(vec![1]));
    assert_eq!(
        mac_load(&mut access, copied(0, None)),
        backend("keychain read failed", "SecItemCopyMatching returned null result")
    );
    assert_eq!(
        mac_load(&mut access, LoadEvent::Opened(err())),
        backend("keychain access failed", "Failed to get default keychain: e")
    );
    assert_eq!(
        mac_load(&mut access, state(-5, 1)),
        backend("keychain access failed", "Failed to get keychain status: -5")
    );
    assert_eq!(
        mac_load(&mut access, state(0, 6)),
        backend(
            "keychain is locked",
            "The keychain is locked and cannot be accessed without user interaction"
        )
    );
    assert_eq!(
        mac_load(&mut access, copied(-25300, None)),
        backend(
            "secret not found",
            "No keychain item found for service 's' and account 'a'"
        )
    );
    assert_eq!(
        mac_load(&mut access, copied(-25293, None)),
        backend(
            "keychain access denied",
            "Application does not have permission to access this keychain item"
        )
    );
    assert_eq!(
        mac_load(&mut access, copied(-25308, None)),
        backend(
            "keychain interaction required",
            "Keychain access requires user interaction but it was disabled"
        )
    );
    assert_eq!(
        mac_load(&mut access, copied(-50, None)),
        backend("keychain read failed", "SecItemCopyMatching failed with error code: -50")
    );
    assert!(!access.denied);
}

#[test]
fn mac_refusal_is_remembered() {
    let denied = || {
        backend(
            "keychain access denied by user",
            "User previously denied keychain password prompt in this session",
        )
    };
    let mut access = KeychainAccess { denied: false };
    assert_eq!(
        mac_load(&mut access, LoadEvent::Copied { status: -128, data: None }),
        backend("keychain access denied by user", "User canceled keychain password prompt")
    );
    assert!(access.denied);
    assert_eq!(mac_load(&mut access, LoadEvent::Requested), denied());
    match macos::store_secret(&mut access, "s", "a", b"x", CommandEvent::Requested) {
        CommandAction::Finish(result) => assert_eq!(result.map(|_| vec![]), denied()),
        CommandAction::Run(_) => panic!("the command is run"),
    }
    let stored = macos::store_secret_keychain_mac_generic(
        &mut access,
        "s",
        "a",
        b"x",
        StoreEvent::Requested,
    );
    match stored {
        StoreAction::Finish(result) => assert_eq!(result.map(|_| vec![]), denied()),
        _ => panic!("the keychain is asked"),
    }
}

#[test]
fn mac_secret_is_stored_by_the_keychain() {
    let mut access = KeychainAccess { denied: false };
    let mut step =
        |event| macos::store_secret_keychain_mac_generic(&mut access, "s", "a", b"x", event);
    let finished = |action| match action {
        StoreAction::Finish(result) => result,
        _ => panic!("the store is not over"),
    };
    assert!(matches!(step(StoreEvent::Requested), StoreAction::OpenDefault));
    match step(StoreEvent::Opened(Ok(()))) {
        StoreAction::SetPassword(new) => {
            assert_eq!((new.service.as_str(), new.account.as_str()), ("s", "a"));
            assert_eq!(new.password, b"x");
        }
        _ => panic!("no password is written"),
    }
    assert_eq!(finished(step(StoreEvent::Written(Ok(())))), Ok(()));
    assert_eq!(
        finished(step(StoreEvent::Opened(keychain_error(-1)))),
        backend("failed to open default macOS keychain", "e")
    );
    assert_eq!(
        finished(step(StoreEvent::Opened(keychain_error(-25300)))),
        Err(SecretStoreError::NotFound)
    );
    assert_eq!(
        finished(step(StoreEvent::Written(keychain_error(-1)))),
        backend("failed to write secret to macOS login keychain", "e")
    );
    assert_eq!(
        finished(step(StoreEvent::Written(keychain_error(-128)))),
        backend("keychain access denied by user", "User canceled keychain password prompt")
    );
    assert!(access.denied);
}

#[test]
fn mac_secret_is_stored_by_a_command() {
    let mut access = KeychainAccess { denied: false };
    match macos::store_secret(&mut access, "s", "a", b"p\xff", CommandEvent::Requested) {
        CommandAction::Run(command) => assert_eq!(
            command,
            CommandLine {
                program: "security".to_string(),
                args: ["add-generic-password", "-a", "a", "-s", "s", "-w", "p\u{fffd}", "-U"]
                    .iter()
                    .map(|a| a.to_string())
                    .collect(),
            }
        ),
        CommandAction::Finish(_) => panic!("the command is not run"),
    }
    let mut ran = |end| match macos::store_secret(&mut access, "s", "a", b"", CommandEvent::Ran(end))
    {
        CommandAction::Finish(result) => result,
        CommandAction::Run(_) => panic!("the command is run again"),
    };
    let end = |success, code, stderr: &[u8]| {
        Ok(CommandEnd { success, code, stderr: stderr.to_vec() })
    };
    assert_eq!(ran(end(true, Some(0), b"")), Ok(()));
    assert_eq!(
        ran(err()),
        backend("failed to execute security command", "Could not run security command: e")
    );
    assert_eq!(
        ran(end(false, Some(44), b"bad")),
        backend(
            "failed to write secret to macOS login keychain",
            "security command failed with exit code Some(44): bad"
        )
    );
    assert_eq!(
        ran(end(false, None, b"")),
        backend(
            "failed to write secret to macOS login keychain",
            "security command failed with exit code None: "
        )
    );
    assert_eq!(
        ran(end(false, Some(128), b"")),
        backend("keychain access denied by user", "User canceled keychain password prompt")
    );
    assert!(access.denied);
}

#[test]
fn mac_alert_script() {
    let script = macos::alert("Finder");
    assert_eq!(
        script,
        format!(
            "
    var App = Application('{}');
    App.includeStandardAdditions = true;
    return App.displayAlert($params.title, {{
        message: $params.message,
        'as': $params.alert_type,
        buttons: $params.buttons,
    }});
    ",
            "Finder"
        )
    );
}

#[test]
fn wide_text_ends_with_zero() {
    for s in ["", "abc", "ä中", "a😀b", "\u{ffff}\u{10000}\u{10ffff}"] {
        let mut expected: Vec<u16> = s.encode_utf16().collect();
        expected.push(0);
        assert_eq!(to_wide_null(s), expected);
    }
    assert_eq!(credential_target_name("s", "a"), "s:a");
}

#[test]
fn windows_credentials() {
    match windows::load_secret("s", "a", CredentialLoadEvent::Requested) {
        CredentialLoadAction::Read { target, kind } => {
            assert_eq!((target, kind), (to_wide_null("s:a"), 1))
        }
        CredentialLoadAction::Finish(_) => panic!("nothing is read"),
    }
    let load = |read| {
        match windows::load_secret_credential("s", "a", CredentialLoadEvent::Read(read)) {
            CredentialLoadAction::Finish(result) => result,
            CredentialLoadAction::Read { .. } => panic!("the load is not over"),
        }
    };
    assert_eq!(load(CredentialRead::Found(Some(vec![1]))), Ok(vec![1]));
    assert_eq!(load(CredentialRead::Found(None)), Ok(vec![]));
    let failed = |not_found| CredentialRead::Failed { not_found, message: "e".to_string() };
    assert_eq!(load(failed(true)), Err(SecretStoreError::NotFound));
    assert_eq!(
        load(failed(false)),
        backend("failed to read Windows Credential Manager secret", "e")
    );
    assert_eq!(
        load(CredentialRead::Null),
        backend(
            "failed to read Windows Credential Manager secret",
            "CredReadW returned a null credential pointer"
        )
    );
    let step = |event| windows::store_secret("s", "a", b"abc", event);
    match step(CredentialStoreEvent::Requested) {
        CredentialStoreAction::Write(write) => {
            assert_eq!((write.kind, write.persist), (1, 2));
            assert_eq!((write.blob.as_slice(), write.size), (b"abc".as_slice(), 3));
            assert_eq!(write.target, to_wide_null("s:a"));
            assert_eq!(write.username, to_wide_null("a"));
        }
        CredentialStoreAction::Finish(_) => panic!("nothing is written"),
    }
    let finished = |action| match action {
        CredentialStoreAction::Finish(result) => result,
        CredentialStoreAction::Write(_) => panic!("the store is not over"),
    };
    assert_eq!(windows::credential_blob_size(u32::MAX as usize), Ok(u32::MAX));
    assert_eq!(
        windows::credential_blob_size(u32::MAX as usize + 1),
        backend(
            "failed to prepare Windows Credential Manager secret",
            "secret is too large for CredentialBlobSize"
        )
    );
    assert_eq!(finished(step(CredentialStoreEvent::Written(Ok(())))), Ok(()));
    assert_eq!(
        finished(step(CredentialStoreEvent::Written(err()))),
        backend("failed to write Windows Credential Manager secret", "e")
    );
}

fn blob(bytes: &[u8]) -> Blob {
    Blob { size: bytes.len() as u32, data: Some(bytes.to_vec()) }
}

#[test]
fn windows_blobs() {
    assert_eq!(blob_to_vec(blob(&[1, 2])), Ok(vec![1, 2]));
    assert_eq!(blob_to_vec(Blob { size: 0, data: None }), Ok(vec![]));
    assert_eq!(
        blob_to_vec(Blob { size: 1, data: None }),
        backend("failed to read Windows blob", "blob pointer was null")
    );
}

#[test]
fn windows_decrypted_bytes() {
    assert_eq!(windows::dpapi_decrypt_bytes(Ok(blob(&[1, 2]))), Ok(vec![1, 2]));
    assert_eq!(
        windows::dpapi_decrypt_bytes(err()),
        backend("failed to decrypt Windows DPAPI payload", "e")
    );
}

#[test]
fn windows_key_is_written_to_a_file() {
    let finished = |action| match action {
        DpapiWriteAction::Finish(result) => result,
        _ => panic!("the file is not done"),
    };
    match windows::dpapi_write_file(b"key", DpapiWriteEvent::Requested) {
        DpapiWriteAction::Protect { key, size } => {
            assert_eq!((key.as_slice(), size), (b"key".as_slice(), 3))
        }
        _ => panic!("nothing is encrypted"),
    }
    let size = |len| windows::blob_size("failed to prepare Windows DPAPI plaintext blob", len);
    assert_eq!(size(u32::MAX as usize), Ok(u32::MAX));
    assert_eq!(
        size(u32::MAX as usize + 1),
        backend(
            "failed to prepare Windows DPAPI plaintext blob",
            "input is too large for CRYPT_INTEGER_BLOB"
        )
    );
    let protected = |has_parent| DpapiWriteEvent::Protected { protected: Ok(blob(&[5])), has_parent };
    match windows::dpapi_write_file(b"key", protected(true)) {
        DpapiWriteAction::CreateDirectory(bytes) => assert_eq!(bytes, [5]),
        _ => panic!("no directory is created"),
    }
    match windows::dpapi_write_file(b"key", protected(false)) {
        DpapiWriteAction::WriteFile(bytes) => assert_eq!(bytes, [5]),
        _ => panic!("no file is written"),
    }
    match windows::dpapi_write_file(b"key", DpapiWriteEvent::DirectoryCreated { created: Ok(()), encrypted: vec![5] }) {
        DpapiWriteAction::WriteFile(bytes) => assert_eq!(bytes, [5]),
        _ => panic!("no file is written"),
    }
    assert_eq!(
        finished(windows::dpapi_write_file(b"key", DpapiWriteEvent::Protected { protected: err(), has_parent: true })),
        backend("failed to encrypt Windows DPAPI payload", "e")
    );
    assert_eq!(
        finished(windows::dpapi_write_file(b"key", DpapiWriteEvent::DirectoryCreated { created: err(), encrypted: vec![] })),
        backend("failed to create Windows DPAPI output directory", "e")
    );
    assert_eq!(
        finished(windows::dpapi_write_file(b"key", DpapiWriteEvent::Written(err()))),
        backend("failed to write Windows DPAPI output file", "e")
    );
    assert_eq!(finished(windows::dpapi_write_file(b"key", DpapiWriteEvent::Written(Ok(())))), Ok(()));
}

#[test]
fn windows_key_is_read_from_a_file() {
    let finished = |action| match action {
        DpapiReadAction::Finish(result) => result,
        DpapiReadAction::Unprotect(_) => panic!("the file is not done"),
    };
    match windows::dpapi_read_file(DpapiReadEvent::Read(FileRead::Bytes(vec![5]))) {
        DpapiReadAction::Unprotect(bytes) => assert_eq!(bytes, [5]),
        DpapiReadAction::Finish(_) => panic!("nothing is decrypted"),
    }
    let failed = |not_found| {
        DpapiReadEvent::Read(FileRead::Failed { not_found, message: "e".to_string() })
    };
    assert_eq!(finished(windows::dpapi_read_file(failed(true))), Err(SecretStoreError::NotFound));
    assert_eq!(
        finished(windows::dpapi_read_file(failed(false))),
        backend("failed to read Windows DPAPI input file", "e")
    );
    let unprotected = |unprotected, expected_len| {
        finished(windows::dpapi_read_file(DpapiReadEvent::Unprotected { unprotected, expected_len }))
    };
    assert_eq!(unprotected(Ok(blob(&[1, 2])), 2), Ok(vec![1, 2]));
    assert_eq!(
        unprotected(Ok(blob(&[1, 2])), 3),
        Err(SecretStoreError::InvalidLength { expected: 3, actual: 2 })
    );
    assert_eq!(unprotected(err(), 3), backend("failed to decrypt Windows DPAPI payload", "e"));
}

#[test]
fn cpu_load_is_averaged_while_attempts_succeed() {
    let mut window: CpuWindow<f64> = CpuWindow::new();
    assert!(!window.may_average());
    for n in 0..40 {
        window.record(Some(n as f64));
        assert!(window.may_average());
    }
    assert_eq!(window.queue.len(), 30);
    assert_eq!(window.queue.front(), Some(&10.0));
    for n in 0..15 {
        window.record(None);
        assert_eq!(window.may_average(), n < 14, "{n}");
    }
    assert_eq!(window.queue.len(), 30);
    assert_eq!(cpu_uage_one_minute(Some((0.5, 29))), Some(0.5));
    assert_eq!(cpu_uage_one_minute(Some((0.5, 30))), None);
    assert_eq!(cpu_uage_one_minute::<f64>(None), None);
}
