use hbb_common::platform::linux::kwallet::{
    WalletCall, WalletEntry, WalletFolder, WalletReply, WalletSession,
};
use hbb_common::platform::linux::portal::{
    check_response, secret_buffer_name, take_matching_flatpak_portal_response, PortalCall,
    PortalReply, PortalRequest, PortalSignal,
};
use hbb_common::platform::linux::secret_service::{
    LoadCall, LoadReply, ServiceLoad, ServiceStore, StoreCall, StoreReply,
};
use hbb_common::platform::linux::{
    derive_flatpak_secret, load_flatpak_secret_store_key, load_kwallet_secret_store_key,
    load_secret_store_key, retrieve_flatpak_portal_secret, store_flatpak_secret_store_key,
    store_kwallet_secret_store_key, store_secret_store_key, KWalletService,
};
use hbb_common::secret_store::{SecretStoreError, SecretStoreResult};
use sha2::{Digest, Sha256};

fn backend<T>(context: &'static str, source: &str) -> SecretStoreResult<T> {
    Err(SecretStoreError::backend_message(context, source))
}

#[test]
fn test_flatpak_secret_derivation_is_stable() {
    let a = derive_flatpak_secret("RustDesk Safe Storage", "RustDesk", b"portal-secret");
    let b = derive_flatpak_secret("RustDesk Safe Storage", "RustDesk", b"portal-secret");
    let c = derive_flatpak_secret("RustDesk Safe Storage", "RustDesk 2", b"portal-secret");
    assert_eq!(a, b);
    assert_ne!(a, c);
    assert_eq!(a.len(), 32);
}

#[test]
fn flatpak_keys_differ_by_service_account_and_secret() {
    let key = derive_flatpak_secret("ab", "c", b"d");
    assert_ne!(derive_flatpak_secret("a", "bc", b"d"), key);
    assert_ne!(derive_flatpak_secret("ab", "", b"cd"), key);
    assert_ne!(derive_flatpak_secret("ab", "c", b"e"), key);
    // With a zero character in a name two of them can meet.
    assert_eq!(
        derive_flatpak_secret("a\0b", "c", b"d"),
        derive_flatpak_secret("a", "b\0c", b"d")
    );
}

#[test]
fn flatpak_key_is_a_digest() {
    let mut hasher = Sha256::new();
    hasher.update(b"hbb-common-flatpak-secret-v1\0service\0account\0portal");
    let expected = hasher.finalize().to_vec();
    assert_eq!(derive_flatpak_secret("service", "account", b"portal"), expected);
    assert_eq!(
        load_flatpak_secret_store_key("service", "account", Ok(b"portal".to_vec())),
        Ok(expected.clone())
    );
    assert_eq!(
        store_flatpak_secret_store_key("service", "account", &expected, Ok(b"portal".to_vec())),
        Ok(())
    );
    assert_eq!(
        store_flatpak_secret_store_key("service", "account", b"x", Ok(b"portal".to_vec())),
        backend(
            "Flatpak secret backend is read-only",
            "requested secret does not match the portal-derived secret"
        )
    );
    assert_eq!(
        load_flatpak_secret_store_key("service", "account", backend("portal", "no")),
        backend("portal", "no")
    );
    assert_eq!(
        store_flatpak_secret_store_key("service", "account", b"x", backend("portal", "no")),
        backend("portal", "no")
    );
}

fn shown_folder(folder: &WalletFolder) -> String {
    format!("{}/{} as {}", folder.handle, folder.folder, folder.app_name)
}

fn shown_entry(entry: &WalletEntry) -> String {
    format!("{}/{}/{} as {}", entry.handle, entry.folder, entry.key, entry.app_name)
}

/// A wallet daemon that replies from a list and notes what it is asked.
struct Daemon {
    replies: Vec<WalletReply>,
    calls: Vec<String>,
}

impl Daemon {
    /// A daemon on a bus that can be had.
    fn new(mut replies: Vec<WalletReply>) -> Self {
        replies.insert(0, WalletReply::Connected(Ok(())));
        replies.reverse();
        Self { replies, calls: vec![] }
    }

    fn run(&mut self, begun: (WalletSession, WalletCall)) -> SecretStoreResult<Vec<u8>> {
        let (mut session, mut call) = begun;
        loop {
            let name = match &call {
                WalletCall::Connect => "connect".to_string(),
                WalletCall::IsEnabled => "enabled".to_string(),
                WalletCall::NetworkWallet => "name".to_string(),
                WalletCall::StartDaemon(daemon) => format!("start {daemon}"),
                WalletCall::Open { wallet, app_name } => format!("open {wallet} as {app_name}"),
                WalletCall::HasFolder(folder) => format!("folder {}", shown_folder(folder)),
                WalletCall::CreateFolder(folder) => format!("create {}", shown_folder(folder)),
                WalletCall::HasEntry(entry) => format!("entry {}", shown_entry(entry)),
                WalletCall::EntryType(entry) => format!("type {}", shown_entry(entry)),
                WalletCall::RemoveEntry(entry) => format!("remove {}", shown_entry(entry)),
                WalletCall::ReadPassword(entry) => format!("read {}", shown_entry(entry)),
                WalletCall::WritePassword { entry, password } => {
                    format!("write {} {password}", shown_entry(entry))
                }
                WalletCall::Close { handle, app_name } => format!("close {handle} as {app_name}"),
                WalletCall::Finish(_) => String::new(),
            };
            if let WalletCall::Finish(result) = call {
                assert!(self.replies.is_empty());
                return result;
            }
            self.calls.push(name);
            call = session.step(self.replies.pop().unwrap());
        }
    }
}

/// The calls by which the wallet is opened.
const WALLET_OPENED: &str = "connect,enabled,name,open kdewallet as App";

fn opened() -> Vec<WalletReply> {
    vec![
        WalletReply::Enabled(Ok(true)),
        WalletReply::Name(Ok("kdewallet".to_string())),
        WalletReply::Opened(Ok(42)),
    ]
}

fn load(replies: Vec<WalletReply>) -> (SecretStoreResult<Vec<u8>>, String) {
    let mut daemon = Daemon::new(replies);
    let result =
        daemon.run(load_kwallet_secret_store_key(KWalletService::KWallet5, "Service", "acc", "App"));
    (result, daemon.calls.join(","))
}

fn store(replies: Vec<WalletReply>) -> (SecretStoreResult<Vec<u8>>, String) {
    let mut daemon = Daemon::new(replies);
    let result = daemon.run(store_kwallet_secret_store_key(
        KWalletService::KWallet5,
        "Service",
        "acc",
        b"abcd",
        "App",
    ));
    (result, daemon.calls.join(","))
}

fn with(mut replies: Vec<WalletReply>, more: Vec<WalletReply>) -> Vec<WalletReply> {
    replies.extend(more);
    replies
}

#[test]
fn wallet_secret_is_loaded() {
    let (result, calls) = load(with(
        opened(),
        vec![
            WalletReply::HasFolder(Ok(true)),
            WalletReply::HasEntry(Ok(true)),
            WalletReply::EntryType(Ok(1)),
            WalletReply::Password(Ok("YWJjZA==".to_string())),
            WalletReply::Closed,
        ],
    ));
    assert_eq!(result, Ok(b"abcd".to_vec()));
    assert_eq!(
        calls,
        WALLET_OPENED.to_string()
            + ",folder 42/Service as App,entry 42/Service/acc as App,type 42/Service/acc as App"
            + ",read 42/Service/acc as App,close 42 as App"
    );
}

#[test]
fn wallet_without_the_secret() {
    let (result, calls) =
        load(with(opened(), vec![WalletReply::HasFolder(Ok(false)), WalletReply::Closed]));
    assert_eq!(result, Err(SecretStoreError::NotFound));
    assert_eq!(
        calls,
        WALLET_OPENED.to_string() + ",folder 42/Service as App,close 42 as App"
    );
    let (result, _) = load(with(
        opened(),
        vec![WalletReply::HasFolder(Ok(true)), WalletReply::HasEntry(Ok(false)), WalletReply::Closed],
    ));
    assert_eq!(result, Err(SecretStoreError::NotFound));
}

#[test]
fn wallet_load_errors() {
    let entry = || with(opened(), vec![WalletReply::HasFolder(Ok(true)), WalletReply::HasEntry(Ok(true))]);
    let (result, _) = load(with(entry(), vec![WalletReply::EntryType(Ok(2)), WalletReply::Closed]));
    assert_eq!(
        result,
        backend(
            "failed to read Linux KWallet secret",
            "unexpected entry type 2 for folder Service key acc"
        )
    );
    let password = |p: Result<String, String>| {
        load(with(
            entry(),
            vec![WalletReply::EntryType(Ok(1)), WalletReply::Password(p), WalletReply::Closed],
        ))
        .0
    };
    assert_eq!(
        password(Ok(String::new())),
        backend(
            "failed to read Linux KWallet secret",
            "empty password for folder Service key acc"
        )
    );
    assert_eq!(
        password(Err("gone".to_string())),
        backend("failed to read Linux KWallet password", "gone")
    );
    let error = password(Ok("YWJjZA".to_string())).unwrap_err().message();
    assert!(error.starts_with("failed to decode Linux KWallet secret payload: "));
    let first = |replies: Vec<WalletReply>| load(replies).0;
    assert_eq!(
        first(with(opened(), vec![WalletReply::HasFolder(Err("e".to_string())), WalletReply::Closed])),
        backend("failed to query Linux KWallet folder", "e")
    );
    assert_eq!(
        first(with(
            opened(),
            vec![
                WalletReply::HasFolder(Ok(true)),
                WalletReply::HasEntry(Err("e".to_string())),
                WalletReply::Closed
            ]
        )),
        backend("failed to query Linux KWallet entry", "e")
    );
    assert_eq!(
        first(with(entry(), vec![WalletReply::EntryType(Err("e".to_string())), WalletReply::Closed])),
        backend("failed to query Linux KWallet entry type", "e")
    );
    let name = || {
        vec![WalletReply::Enabled(Ok(true)), WalletReply::Name(Ok("kdewallet".to_string()))]
    };
    assert_eq!(
        first(with(name(), vec![WalletReply::Opened(Ok(-1))])),
        backend(
            "failed to open Linux KWallet wallet",
            "kwalletd5 returned an invalid wallet handle"
        )
    );
    assert_eq!(
        first(with(name(), vec![WalletReply::Opened(Err("e".to_string()))])),
        backend("failed to open Linux KWallet wallet", "e")
    );
}

#[test]
fn wallet_without_a_bus() {
    let (mut session, call) =
        load_kwallet_secret_store_key(KWalletService::Legacy, "Service", "acc", "App");
    assert!(matches!(call, WalletCall::Connect));
    match session.step(WalletReply::Connected(Err("e".to_string()))) {
        WalletCall::Finish(result) => {
            assert_eq!(result, backend("failed to connect to Linux KWallet session bus", "e"))
        }
        _ => panic!("the session is not over"),
    }
}

#[test]
fn wallet_daemon_is_started_once() {
    let started = |more: Vec<WalletReply>| {
        load(with(
            vec![
                WalletReply::Enabled(Err("not running".to_string())),
                WalletReply::Started(Ok((0, String::new()))),
            ],
            more,
        ))
    };
    let (result, calls) =
        started(with(opened(), vec![WalletReply::HasFolder(Ok(false)), WalletReply::Closed]));
    assert_eq!(result, Err(SecretStoreError::NotFound));
    assert_eq!(
        calls,
        "connect,enabled,start kwalletd5,enabled,name,open kdewallet as App,\
         folder 42/Service as App,close 42 as App"
    );
    let (result, _) = started(vec![WalletReply::Enabled(Ok(false))]);
    assert_eq!(result, backend("failed to query Linux KWallet enabled state", "not running"));
    let (result, _) = load(vec![
        WalletReply::Enabled(Ok(false)),
        WalletReply::Started(Ok((0, String::new()))),
        WalletReply::Enabled(Ok(true)),
        WalletReply::Name(Ok(String::new())),
    ]);
    assert_eq!(
        result,
        backend("Linux KWallet is disabled", "kwalletd5 reports that KWallet is not enabled")
    );
    let (result, _) = load(vec![
        WalletReply::Enabled(Ok(true)),
        WalletReply::Name(Ok(String::new())),
        WalletReply::Started(Err("e".to_string())),
    ]);
    assert_eq!(result, backend("failed to start Linux KWallet daemon", "e"));
    let (result, _) = load(vec![
        WalletReply::Enabled(Ok(true)),
        WalletReply::Name(Err("e".to_string())),
        WalletReply::Started(Ok((-3, "bad".to_string()))),
    ]);
    assert_eq!(
        result,
        backend(
            "failed to start Linux KWallet daemon",
            "kwalletd5 returned error 'bad' (code -3)"
        )
    );
}

#[test]
fn wallet_secret_is_stored() {
    let (result, calls) = store(with(
        opened(),
        vec![
            WalletReply::HasFolder(Ok(false)),
            WalletReply::Created(Ok(true)),
            WalletReply::HasEntry(Ok(false)),
            WalletReply::Written(Ok(0)),
            WalletReply::Closed,
        ],
    ));
    assert_eq!(result, Ok(vec![]));
    assert_eq!(
        calls,
        WALLET_OPENED.to_string()
            + ",folder 42/Service as App,create 42/Service as App,entry 42/Service/acc as App"
            + ",write 42/Service/acc as App YWJjZA==,close 42 as App"
    );
    let (result, calls) = store(with(
        opened(),
        vec![
            WalletReply::HasFolder(Ok(true)),
            WalletReply::HasEntry(Ok(true)),
            WalletReply::EntryType(Ok(3)),
            WalletReply::Removed(Ok(0)),
            WalletReply::Written(Ok(0)),
            WalletReply::Closed,
        ],
    ));
    assert_eq!(result, Ok(vec![]));
    assert_eq!(
        calls,
        WALLET_OPENED.to_string()
            + ",folder 42/Service as App,entry 42/Service/acc as App,type 42/Service/acc as App"
            + ",remove 42/Service/acc as App,write 42/Service/acc as App YWJjZA==,close 42 as App"
    );
}

#[test]
fn wallet_store_errors() {
    let (result, _) = store(with(
        opened(),
        vec![WalletReply::HasFolder(Ok(false)), WalletReply::Created(Ok(false)), WalletReply::Closed],
    ));
    assert_eq!(
        result,
        backend(
            "failed to create Linux KWallet folder",
            "KWallet returned false for folder Service"
        )
    );
    let (result, _) = store(with(
        opened(),
        vec![
            WalletReply::HasFolder(Ok(false)),
            WalletReply::Created(Err("e".to_string())),
            WalletReply::Closed,
        ],
    ));
    assert_eq!(result, backend("failed to create Linux KWallet folder", "e"));
    let other = |removed: Result<i32, String>| {
        store(with(
            opened(),
            vec![
                WalletReply::HasFolder(Ok(true)),
                WalletReply::HasEntry(Ok(true)),
                WalletReply::EntryType(Ok(3)),
                WalletReply::Removed(removed),
                WalletReply::Closed,
            ],
        ))
        .0
    };
    assert_eq!(
        other(Ok(-2)),
        backend(
            "failed to remove Linux KWallet entry",
            "KWallet removeEntry returned error code -2"
        )
    );
    assert_eq!(other(Err("e".to_string())), backend("failed to remove Linux KWallet entry", "e"));
    let written = |written: Result<i32, String>| {
        store(with(
            opened(),
            vec![
                WalletReply::HasFolder(Ok(true)),
                WalletReply::HasEntry(Ok(false)),
                WalletReply::Written(written),
                WalletReply::Closed,
            ],
        ))
        .0
    };
    assert_eq!(
        written(Ok(5)),
        backend(
            "failed to write Linux KWallet password",
            "KWallet writePassword returned error code 5"
        )
    );
    assert_eq!(
        written(Err("e".to_string())),
        backend("failed to write Linux KWallet password", "e")
    );
}

fn service_load(replies: Vec<LoadReply>) -> SecretStoreResult<Vec<u8>> {
    let (mut load, mut call): (ServiceLoad, LoadCall) =
        load_secret_store_key("Service", "acc");
    let mut expected_item = 0;
    for reply in replies {
        match &call {
            LoadCall::SearchItems(attributes) => {
                assert_eq!(attributes.service, "Service");
                assert_eq!(attributes.account, "acc");
            }
            LoadCall::GetSecret(item) => {
                assert_eq!(*item, expected_item);
                expected_item += 1;
            }
            _ => {}
        }
        call = load.step(reply);
    }
    match call {
        LoadCall::Finish(result) => result,
        _ => panic!("the load is not over"),
    }
}

#[test]
fn service_secret_is_loaded() {
    assert_eq!(
        service_load(vec![
            LoadReply::Connected(Ok(())),
            LoadReply::Found(Ok((1, 2))),
            LoadReply::Unlocked(Ok(())),
            LoadReply::Secret(Err("first".to_string())),
            LoadReply::Secret(Ok(vec![1, 2, 3])),
        ]),
        Ok(vec![1, 2, 3])
    );
    assert_eq!(
        service_load(vec![LoadReply::Connected(Ok(())), LoadReply::Found(Ok((0, 0)))]),
        Err(SecretStoreError::NotFound)
    );
    assert_eq!(
        service_load(vec![
            LoadReply::Connected(Ok(())),
            LoadReply::Found(Ok((2, 0))),
            LoadReply::Secret(Err("first".to_string())),
            LoadReply::Secret(Err("last".to_string())),
        ]),
        backend("failed to read secret from Linux Secret Service", "last")
    );
}

#[test]
fn service_load_errors() {
    assert_eq!(
        service_load(vec![LoadReply::Connected(Err("e".to_string()))]),
        backend("failed to connect to Linux Secret Service", "e")
    );
    assert_eq!(
        service_load(vec![LoadReply::Connected(Ok(())), LoadReply::Found(Err("e".to_string()))]),
        backend("failed to search Linux Secret Service items", "e")
    );
    assert_eq!(
        service_load(vec![
            LoadReply::Connected(Ok(())),
            LoadReply::Found(Ok((1, 1))),
            LoadReply::Unlocked(Err("e".to_string())),
        ]),
        backend("failed to unlock Linux Secret Service items", "e")
    );
}

fn service_store(replies: Vec<StoreReply>) -> (SecretStoreResult<()>, Option<String>) {
    let (mut store, mut call): (ServiceStore, StoreCall) =
        store_secret_store_key("Service", "acc", b"abcd");
    let mut label = None;
    for reply in replies {
        if let StoreCall::CreateItem(item) = call {
            assert_eq!(item.attributes.service, "Service");
            assert_eq!(item.attributes.account, "acc");
            assert_eq!(item.secret, b"abcd");
            assert!(item.replace);
            assert_eq!(item.content_type, "application/octet-stream");
            label = Some(item.label);
        }
        call = store.step(reply);
    }
    match call {
        StoreCall::Finish(result) => (result, label),
        _ => panic!("the store is not over"),
    }
}

#[test]
fn service_secret_is_stored() {
    assert_eq!(
        service_store(vec![
            StoreReply::Connected(Ok(())),
            StoreReply::Collection(Ok(())),
            StoreReply::Locked(Ok(true)),
            StoreReply::Unlocked(Ok(())),
            StoreReply::Created(Ok(())),
        ]),
        (Ok(()), Some("Service acc".to_string()))
    );
    assert_eq!(
        service_store(vec![
            StoreReply::Connected(Ok(())),
            StoreReply::Collection(Ok(())),
            StoreReply::Locked(Ok(false)),
            StoreReply::Created(Err("e".to_string())),
        ])
        .0,
        backend("failed to create Linux Secret Service item", "e")
    );
    let mut replies = vec![StoreReply::Connected(Err("e".to_string()))];
    assert_eq!(
        service_store(replies).0,
        backend("failed to connect to Linux Secret Service", "e")
    );
    replies = vec![StoreReply::Connected(Ok(())), StoreReply::Collection(Err("e".to_string()))];
    assert_eq!(
        service_store(replies).0,
        backend("failed to get Linux Secret Service collection", "e")
    );
    replies = vec![
        StoreReply::Connected(Ok(())),
        StoreReply::Collection(Ok(())),
        StoreReply::Locked(Err("e".to_string())),
    ];
    assert_eq!(
        service_store(replies).0,
        backend("failed to query Linux Secret Service lock state", "e")
    );
    replies = vec![
        StoreReply::Connected(Ok(())),
        StoreReply::Collection(Ok(())),
        StoreReply::Locked(Ok(true)),
        StoreReply::Unlocked(Err("e".to_string())),
    ];
    assert_eq!(
        service_store(replies).0,
        backend("failed to unlock Linux Secret Service collection", "e")
    );
}

fn signal(path: Option<&str>, response: u32, result_fields: usize) -> Option<PortalSignal> {
    Some(PortalSignal { path: path.map(str::to_string), response, result_fields })
}

/// Runs a request up to the wait for its response, which is replied to from a list and then with
/// silence. Gives the outcome, the number of seconds waited and whether the subscription was
/// removed.
fn portal(
    requested: Result<String, String>,
    mut waiting: Vec<PortalReply>,
    read: Result<Vec<u8>, String>,
) -> (SecretStoreResult<Vec<u8>>, usize, bool) {
    waiting.reverse();
    let (mut request, mut call): (PortalRequest, PortalCall) = retrieve_flatpak_portal_secret();
    let mut seconds = 0;
    let mut unsubscribed = false;
    let mut requested = Some(requested);
    let mut read = Some(read);
    loop {
        let reply = match call {
            PortalCall::Connect => PortalReply::Connected(Ok(())),
            PortalCall::Subscribe => PortalReply::Subscribed(Ok(())),
            PortalCall::CreateBuffer => PortalReply::Created(Ok(())),
            PortalCall::UnlinkBuffer => PortalReply::Unlinked(Ok(())),
            PortalCall::DuplicateDescriptor => PortalReply::Duplicated(Ok(())),
            PortalCall::RetrieveSecret => PortalReply::Requested(requested.take().unwrap()),
            PortalCall::Look => waiting.pop().unwrap_or(PortalReply::Looked(None)),
            PortalCall::Process => {
                seconds += 1;
                waiting.pop().unwrap_or(PortalReply::Processed(Ok(false)))
            }
            PortalCall::Unsubscribe => {
                unsubscribed = true;
                PortalReply::Unsubscribed
            }
            PortalCall::RewindBuffer => PortalReply::Rewound(Ok(())),
            PortalCall::ReadBuffer => PortalReply::Read(read.take().unwrap()),
            PortalCall::Finish(result) => return (result, seconds, unsubscribed),
        };
        call = request.step(reply);
    }
}

#[test]
fn portal_secret_is_retrieved() {
    let waiting = vec![
        PortalReply::Looked(None),
        PortalReply::Processed(Ok(true)),
        PortalReply::Looked(signal(Some("/other"), 1, 0)),
        PortalReply::Looked(signal(Some("/request"), 0, 0)),
    ];
    assert_eq!(
        portal(Ok("/request".to_string()), waiting, Ok(vec![1, 2])),
        (Ok(vec![1, 2]), 1, true)
    );
}

#[test]
fn portal_request_times_out() {
    let (result, seconds, unsubscribed) = portal(Ok("/request".to_string()), vec![], Ok(vec![1]));
    assert_eq!(
        result,
        backend(
            "timed out waiting for xdg-desktop-portal secret response",
            "portal request exceeded 15 seconds"
        )
    );
    assert_eq!(seconds, 15);
    assert!(unsubscribed);
}

#[test]
fn portal_errors() {
    assert_eq!(
        portal(Err("e".to_string()), vec![], Ok(vec![])),
        (backend("failed to request xdg-desktop-portal secret", "e"), 0, true)
    );
    let looked = |s| portal(Ok("/r".to_string()), vec![PortalReply::Looked(s)], Ok(vec![])).0;
    assert_eq!(
        looked(signal(None, 0, 0)),
        backend(
            "failed to retrieve xdg-desktop-portal secret",
            "portal response did not include a request path"
        )
    );
    assert_eq!(
        looked(signal(Some("/r"), 2, 0)),
        backend(
            "failed to retrieve xdg-desktop-portal secret",
            "request failed with response code 2"
        )
    );
    assert_eq!(
        looked(signal(Some("/r"), 1, 3)),
        backend(
            "failed to retrieve xdg-desktop-portal secret",
            "request failed with response code 1 and 3 result fields"
        )
    );
    assert_eq!(
        looked(signal(Some("/r"), 0, 0)),
        backend(
            "failed to retrieve xdg-desktop-portal secret",
            "portal returned an empty secret buffer"
        )
    );
    let broken = vec![PortalReply::Looked(None), PortalReply::Processed(Err("e".to_string()))];
    assert_eq!(
        portal(Ok("/r".to_string()), broken, Ok(vec![])).0,
        backend("failed while waiting for xdg-desktop-portal secret response", "e")
    );
    let found = vec![PortalReply::Looked(signal(Some("/r"), 0, 0))];
    assert_eq!(
        portal(Ok("/r".to_string()), found, Err("e".to_string())).0,
        backend("failed to read xdg-desktop-portal secret buffer", "e")
    );
}

#[test]
fn portal_preparation_errors() {
    let fail = |n: usize| {
        let e = || Err("e".to_string());
        let ok = || Ok(());
        let replies = vec![
            PortalReply::Connected(if n == 0 { e() } else { ok() }),
            PortalReply::Subscribed(if n == 1 { e() } else { ok() }),
            PortalReply::Created(if n == 2 { e() } else { ok() }),
            PortalReply::Unlinked(if n == 3 { e() } else { ok() }),
            PortalReply::Duplicated(if n == 4 { e() } else { ok() }),
            PortalReply::Requested(Ok("/r".to_string())),
            PortalReply::Looked(signal(Some("/r"), 0, 0)),
            PortalReply::Unsubscribed,
            PortalReply::Rewound(e()),
        ];
        let (mut request, _) = retrieve_flatpak_portal_secret();
        for reply in replies {
            if let PortalCall::Finish(result) = request.step(reply) {
                return result;
            }
        }
        panic!("the request is not over");
    };
    for (n, context) in [
        "failed to connect to xdg-desktop-portal session bus",
        "failed to subscribe to xdg-desktop-portal secret response",
        "failed to create xdg-desktop-portal secret buffer",
        "failed to unlink xdg-desktop-portal secret buffer",
        "failed to duplicate xdg-desktop-portal secret file descriptor",
        "failed to rewind xdg-desktop-portal secret buffer",
    ]
    .into_iter()
    .enumerate()
    {
        assert_eq!(fail(n), backend(context, "e"));
    }
}

#[test]
fn portal_signals_are_matched() {
    assert!(take_matching_flatpak_portal_response(None, "/r").is_none());
    assert!(take_matching_flatpak_portal_response(signal(Some("/s"), 0, 0), "/r").is_none());
    assert_eq!(
        take_matching_flatpak_portal_response(signal(Some("/r"), 0, 0), "/r"),
        Some(Ok(()))
    );
    assert_eq!(check_response(0, 7), Ok(()));
    assert_eq!(secret_buffer_name(12, "ab"), ".hbb-flatpak-secret-12-ab");
}
