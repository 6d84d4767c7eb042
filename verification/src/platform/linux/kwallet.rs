//! A secret in KDE's wallet, loaded or stored by one call on the bus after another.
//!
//! The secret is kept as a password, in base64: the folder is the service and the key is the
//! account.
use crate::base64;
use crate::base64::{decode_standard, encode_standard};
use crate::platform::linux::desktop;
use crate::platform::linux::desktop::KWalletService;
use crate::platform::reply;
use crate::platform::reply::{LoadOutcome, Reply, ReplyView};
use crate::secret_store::{ErrorView, SecretStoreError, SecretStoreResult};
use crate::text;
use crate::text::push_signed_decimal;
use vstd::prelude::*;
use vstd::slice::slice_to_vec;
use vstd::string::*;

verus! {

/// The handle that stands for no wallet.
pub const KWALLET_INVALID_HANDLE: i32 = -1;

/// The type of an entry that is a password.
pub const KWALLET_ENTRY_TYPE_PASSWORD: i32 = 1;

/// What the wallet daemon would reply to each call.
pub struct Wallet {
    /// Whether the session bus could be had.
    pub connected: ReplyView<()>,
    /// Whether wallets are enabled: at first, and after the daemon was started.
    pub enabled: (ReplyView<bool>, ReplyView<bool>),
    /// The name of the network wallet: at first, and after the daemon was started.
    pub name: (ReplyView<Seq<char>>, ReplyView<Seq<char>>),
    /// The code and the error with which the daemon was started.
    pub started: ReplyView<(i32, Seq<char>)>,
    pub opened: ReplyView<i32>,
    pub has_folder: ReplyView<bool>,
    pub created: ReplyView<bool>,
    pub has_entry: ReplyView<bool>,
    pub entry_type: ReplyView<i32>,
    pub removed: ReplyView<i32>,
    pub password: ReplyView<Seq<char>>,
    pub written: ReplyView<i32>,
}

/// What is asked of the wallet.
pub struct WalletTask {
    pub backend: KWalletService,
    pub service: Seq<char>,
    pub account: Seq<char>,
    /// The secret that is to be stored; without one, the secret is to be loaded.
    pub secret: Option<Seq<u8>>,
    /// The name under which the application makes its calls.
    pub app_name: Seq<char>,
}

/// A failure of the backend.
pub open spec fn failed(context: Seq<char>, source: Seq<char>) -> LoadOutcome {
    Err(reply::backend_error(context, source))
}

/// What becomes of a password that was read.
pub open spec fn decoded_password(password: Seq<char>, outcome: LoadOutcome) -> bool {
    match outcome {
        Ok(secret) => base64::base64(secret) == vstd::utf8::encode_utf8(password),
        Err(e) => {
            &&& e == (ErrorView::Backend {
                context: "failed to decode Linux KWallet secret payload"@,
                source: base64::decode_error(password),
            })
            &&& forall|secret: Seq<u8>| #[trigger]
                base64::base64(secret) != vstd::utf8::encode_utf8(password)
        },
    }
}

/// What is to be made of the entry's password.
pub open spec fn from_password(task: WalletTask, wallet: Wallet, outcome: LoadOutcome) -> bool {
    match wallet.password {
        Err(e) => outcome == failed("failed to read Linux KWallet password"@, e),
        Ok(password) => if password.len() == 0 {
            outcome == failed(
                "failed to read Linux KWallet secret"@,
                "empty password for folder "@ + task.service + " key "@ + task.account,
            )
        } else {
            decoded_password(password, outcome)
        },
    }
}

/// What comes of writing the password.
pub open spec fn from_written(task: WalletTask, wallet: Wallet, outcome: LoadOutcome) -> bool {
    match wallet.written {
        Err(e) => outcome == failed("failed to write Linux KWallet password"@, e),
        Ok(code) => if code != 0 {
            outcome == failed(
                "failed to write Linux KWallet password"@,
                "KWallet writePassword returned error code "@ + text::signed_decimal(code as int),
            )
        } else {
            outcome == Ok::<Seq<u8>, ErrorView>(seq![])
        },
    }
}

/// What comes of removing an entry that is no password.
pub open spec fn from_removed(task: WalletTask, wallet: Wallet, outcome: LoadOutcome) -> bool {
    match wallet.removed {
        Err(e) => outcome == failed("failed to remove Linux KWallet entry"@, e),
        Ok(code) => if code != 0 {
            outcome == failed(
                "failed to remove Linux KWallet entry"@,
                "KWallet removeEntry returned error code "@ + text::signed_decimal(code as int),
            )
        } else {
            from_written(task, wallet, outcome)
        },
    }
}

/// What follows from the type of the entry: only a password is loaded, and an entry of another
/// type is removed before one is stored.
pub open spec fn from_entry_type(task: WalletTask, wallet: Wallet, outcome: LoadOutcome) -> bool {
    match wallet.entry_type {
        Err(e) => outcome == failed("failed to query Linux KWallet entry type"@, e),
        Ok(entry_type) => if task.secret is Some {
            if entry_type != KWALLET_ENTRY_TYPE_PASSWORD {
                from_removed(task, wallet, outcome)
            } else {
                from_written(task, wallet, outcome)
            }
        } else if entry_type != KWALLET_ENTRY_TYPE_PASSWORD {
            outcome == failed(
                "failed to read Linux KWallet secret"@,
                "unexpected entry type "@ + text::signed_decimal(entry_type as int)
                    + " for folder "@ + task.service + " key "@ + task.account,
            )
        } else {
            from_password(task, wallet, outcome)
        },
    }
}

/// What follows from whether there is an entry.
pub open spec fn from_has_entry(task: WalletTask, wallet: Wallet, outcome: LoadOutcome) -> bool {
    match wallet.has_entry {
        Err(e) => outcome == failed("failed to query Linux KWallet entry"@, e),
        Ok(has_entry) => if has_entry {
            from_entry_type(task, wallet, outcome)
        } else if task.secret is Some {
            from_written(task, wallet, outcome)
        } else {
            outcome == Err::<Seq<u8>, ErrorView>(ErrorView::NotFound)
        },
    }
}

/// What comes of creating the folder.
pub open spec fn from_created(task: WalletTask, wallet: Wallet, outcome: LoadOutcome) -> bool {
    match wallet.created {
        Err(e) => outcome == failed("failed to create Linux KWallet folder"@, e),
        Ok(created) => if created {
            from_has_entry(task, wallet, outcome)
        } else {
            outcome == failed(
                "failed to create Linux KWallet folder"@,
                "KWallet returned false for folder "@ + task.service,
            )
        },
    }
}

/// What follows from whether there is a folder.
pub open spec fn from_has_folder(task: WalletTask, wallet: Wallet, outcome: LoadOutcome) -> bool {
    match wallet.has_folder {
        Err(e) => outcome == failed("failed to query Linux KWallet folder"@, e),
        Ok(has_folder) => if has_folder {
            from_has_entry(task, wallet, outcome)
        } else if task.secret is Some {
            from_created(task, wallet, outcome)
        } else {
            outcome == Err::<Seq<u8>, ErrorView>(ErrorView::NotFound)
        },
    }
}

/// Whether the wallet was opened, and with which handle.
pub open spec fn open_handle(wallet: Wallet) -> Option<i32> {
    match wallet.opened {
        Ok(handle) => if handle != KWALLET_INVALID_HANDLE {
            Some(handle)
        } else {
            None
        },
        Err(_) => None,
    }
}

/// What comes of opening the wallet.
pub open spec fn from_opened(task: WalletTask, wallet: Wallet, outcome: LoadOutcome) -> bool {
    match wallet.opened {
        Err(e) => outcome == failed("failed to open Linux KWallet wallet"@, e),
        Ok(handle) => if handle == KWALLET_INVALID_HANDLE {
            outcome == failed(
                "failed to open Linux KWallet wallet"@,
                desktop::wallet_daemon(task.backend) + " returned an invalid wallet handle"@,
            )
        } else {
            from_has_folder(task, wallet, outcome)
        },
    }
}

/// The name of the network wallet, or what went wrong.
pub open spec fn named(name: ReplyView<Seq<char>>) -> Result<Seq<char>, ErrorView> {
    match name {
        Err(e) => Err(
            ErrorView::Backend {
                context: "failed to query Linux KWallet network wallet"@,
                source: e,
            },
        ),
        Ok(name) => if name.len() == 0 {
            Err(
                ErrorView::Backend {
                    context: "failed to query Linux KWallet network wallet"@,
                    source: "KWallet returned an empty network wallet name"@,
                },
            )
        } else {
            Ok(name)
        },
    }
}

/// The name of the network wallet where wallets are enabled, or what went wrong.
pub open spec fn network_wallet(
    task: WalletTask,
    enabled: ReplyView<bool>,
    name: ReplyView<Seq<char>>,
) -> Result<Seq<char>, ErrorView> {
    match enabled {
        Err(e) => Err(
            ErrorView::Backend {
                context: "failed to query Linux KWallet enabled state"@,
                source: e,
            },
        ),
        Ok(enabled) => if enabled {
            named(name)
        } else {
            Err(
                ErrorView::Backend {
                    context: "Linux KWallet is disabled"@,
                    source: desktop::wallet_daemon(task.backend)
                        + " reports that KWallet is not enabled"@,
                },
            )
        },
    }
}

/// What follows once the daemon was asked again. If it fails again, the first error stands.
pub open spec fn from_second(
    task: WalletTask,
    wallet: Wallet,
    first: ErrorView,
    outcome: LoadOutcome,
) -> bool {
    match network_wallet(task, wallet.enabled.1, wallet.name.1) {
        Ok(_) => from_opened(task, wallet, outcome),
        Err(_) => outcome == Err::<Seq<u8>, ErrorView>(first),
    }
}

/// What comes of starting the daemon.
pub open spec fn from_started(
    task: WalletTask,
    wallet: Wallet,
    first: ErrorView,
    outcome: LoadOutcome,
) -> bool {
    match wallet.started {
        Err(e) => outcome == failed("failed to start Linux KWallet daemon"@, e),
        Ok((code, error)) => if code != 0 || error.len() > 0 {
            outcome == failed(
                "failed to start Linux KWallet daemon"@,
                desktop::wallet_daemon(task.backend) + " returned error '"@ + error
                    + "' (code "@ + text::signed_decimal(code as int) + ")"@,
            )
        } else {
            from_second(task, wallet, first, outcome)
        },
    }
}

/// What comes of asking for the wallet's name: the daemon is started where it does not give it at
/// first.
pub open spec fn from_connected(task: WalletTask, wallet: Wallet, outcome: LoadOutcome) -> bool {
    match network_wallet(task, wallet.enabled.0, wallet.name.0) {
        Ok(_) => from_opened(task, wallet, outcome),
        Err(first) => from_started(task, wallet, first, outcome),
    }
}

/// What a task comes to.
pub open spec fn task_outcome(task: WalletTask, wallet: Wallet, outcome: LoadOutcome) -> bool {
    match wallet.connected {
        Err(e) => outcome == failed("failed to connect to Linux KWallet session bus"@, e),
        Ok(_) => from_connected(task, wallet, outcome),
    }
}

/// Which reply a session waits for.
pub enum WalletStage {
    Connected,
    Enabled,
    Name,
    Started,
    Opened,
    HasFolder,
    Created,
    HasEntry,
    EntryType,
    Removed,
    Password,
    Written,
    /// The wallet is being closed, after which this is the outcome.
    Closed(SecretStoreResult<Vec<u8>>),
    Over,
}

/// A session with the wallet daemon.
pub struct WalletSession {
    pub backend: KWalletService,
    pub service: String,
    pub account: String,
    pub secret: Option<Vec<u8>>,
    pub app_name: String,
    pub stage: WalletStage,
    /// Why the daemon had to be started.
    pub first_error: Option<SecretStoreError>,
    /// The handle of the wallet, once it is open.
    pub handle: i32,
}

/// A reply of the daemon.
pub enum WalletReply {
    Connected(Reply<()>),
    Enabled(Reply<bool>),
    Name(Reply<String>),
    Started(Reply<(i32, String)>),
    Opened(Reply<i32>),
    HasFolder(Reply<bool>),
    Created(Reply<bool>),
    HasEntry(Reply<bool>),
    EntryType(Reply<i32>),
    Removed(Reply<i32>),
    Password(Reply<String>),
    Written(Reply<i32>),
    /// The wallet was closed, or could not be.
    Closed,
}

/// A folder of an open wallet, as a call names it.
pub struct WalletFolder {
    pub handle: i32,
    pub folder: String,
    pub app_name: String,
}

/// An entry of an open wallet, as a call names it.
pub struct WalletEntry {
    pub handle: i32,
    pub folder: String,
    pub key: String,
    pub app_name: String,
}

/// The call that is to be made next, or the outcome.
pub enum WalletCall {
    /// Connect to the session bus.
    Connect,
    IsEnabled,
    NetworkWallet,
    /// Have the service with this desktop name started.
    StartDaemon(&'static str),
    Open { wallet: String, app_name: String },
    HasFolder(WalletFolder),
    CreateFolder(WalletFolder),
    HasEntry(WalletEntry),
    EntryType(WalletEntry),
    RemoveEntry(WalletEntry),
    ReadPassword(WalletEntry),
    WritePassword { entry: WalletEntry, password: String },
    /// Close the wallet, without force.
    Close { handle: i32, app_name: String },
    Finish(SecretStoreResult<Vec<u8>>),
}

/// What a reply says.
pub open spec fn start_reply(reply: Reply<(i32, String)>) -> ReplyView<(i32, Seq<char>)> {
    match reply {
        Ok((code, error)) => Ok((code, error@)),
        Err(e) => Err(e@),
    }
}

impl WalletSession {
    /// What is asked of the wallet.
    pub open spec fn task(self) -> WalletTask {
        WalletTask {
            backend: self.backend,
            service: self.service@,
            account: self.account@,
            secret: text::maybe_bytes(self.secret),
            app_name: self.app_name@,
        }
    }

    /// Whether this is the service's folder in the wallet that is open.
    pub open spec fn is_folder(self, folder: WalletFolder) -> bool {
        &&& folder.handle == self.handle
        &&& folder.folder@ == self.service@
        &&& folder.app_name@ == self.app_name@
    }

    /// Whether this is the account's entry in the service's folder of the wallet that is open.
    pub open spec fn is_entry(self, entry: WalletEntry) -> bool {
        &&& entry.handle == self.handle
        &&& entry.folder@ == self.service@
        &&& entry.key@ == self.account@
        &&& entry.app_name@ == self.app_name@
    }

    /// Whether the wallet is open.
    pub open spec fn is_open(self) -> bool {
        match self.stage {
            WalletStage::Connected
            | WalletStage::Enabled
            | WalletStage::Name
            | WalletStage::Started
            | WalletStage::Opened
            | WalletStage::Over => false,
            _ => true,
        }
    }

    /// The stages that only loading or only storing goes through, and what must be known in them.
    pub open spec fn wf(self) -> bool {
        &&& self.stage is Connected ==> self.first_error is None
        &&& self.stage is Started ==> self.first_error is Some
        &&& self.is_open() ==> self.handle != KWALLET_INVALID_HANDLE
        &&& self.secret matches Some(secret) ==> base64::base64_len(secret@.len()) <= isize::MAX
        &&& self.stage is Password ==> self.secret is None
        &&& self.stage is Created || self.stage is Removed || self.stage is Written
            ==> self.secret is Some
    }

    /// Whether a reply is one to the call that was made.
    pub open spec fn expects(self, reply: WalletReply) -> bool {
        match reply {
            WalletReply::Connected(_) => self.stage is Connected,
            WalletReply::Enabled(_) => self.stage is Enabled,
            WalletReply::Name(_) => self.stage is Name,
            WalletReply::Started(_) => self.stage is Started,
            WalletReply::Opened(_) => self.stage is Opened,
            WalletReply::HasFolder(_) => self.stage is HasFolder,
            WalletReply::Created(_) => self.stage is Created,
            WalletReply::HasEntry(_) => self.stage is HasEntry,
            WalletReply::EntryType(_) => self.stage is EntryType,
            WalletReply::Removed(_) => self.stage is Removed,
            WalletReply::Password(_) => self.stage is Password,
            WalletReply::Written(_) => self.stage is Written,
            WalletReply::Closed => self.stage is Closed,
        }
    }

    /// Whether a reply is the one that the daemon gives.
    pub open spec fn agrees(self, reply: WalletReply, wallet: Wallet) -> bool {
        let again = self.first_error is Some;
        match reply {
            WalletReply::Connected(r) => reply::plain_reply(r) == wallet.connected,
            WalletReply::Enabled(r) => reply::plain_reply(r) == (if again {
                wallet.enabled.1
            } else {
                wallet.enabled.0
            }),
            WalletReply::Name(r) => reply::text_reply(r) == (if again {
                wallet.name.1
            } else {
                wallet.name.0
            }),
            WalletReply::Started(r) => start_reply(r) == wallet.started,
            WalletReply::Opened(r) => reply::plain_reply(r) == wallet.opened,
            WalletReply::HasFolder(r) => reply::plain_reply(r) == wallet.has_folder,
            WalletReply::Created(r) => reply::plain_reply(r) == wallet.created,
            WalletReply::HasEntry(r) => reply::plain_reply(r) == wallet.has_entry,
            WalletReply::EntryType(r) => reply::plain_reply(r) == wallet.entry_type,
            WalletReply::Removed(r) => reply::plain_reply(r) == wallet.removed,
            WalletReply::Password(r) => reply::text_reply(r) == wallet.password,
            WalletReply::Written(r) => reply::plain_reply(r) == wallet.written,
            WalletReply::Closed => true,
        }
    }

    /// What the session will come to.
    pub open spec fn will_come_to(self, wallet: Wallet, outcome: LoadOutcome) -> bool {
        let task = self.task();
        let again = self.first_error is Some;
        match self.stage {
            WalletStage::Connected => task_outcome(task, wallet, outcome),
            WalletStage::Enabled => if again {
                from_second(task, wallet, self.first_error->0@, outcome)
            } else {
                from_connected(task, wallet, outcome)
            },
            WalletStage::Name => match named(
                if again {
                    wallet.name.1
                } else {
                    wallet.name.0
                },
            ) {
                Ok(_) => from_opened(task, wallet, outcome),
                Err(e) => if again {
                    outcome == Err::<Seq<u8>, ErrorView>(self.first_error->0@)
                } else {
                    from_started(task, wallet, e, outcome)
                },
            },
            WalletStage::Started => from_started(
                task,
                wallet,
                self.first_error->0@,
                outcome,
            ),
            WalletStage::Opened => from_opened(task, wallet, outcome),
            WalletStage::HasFolder => from_has_folder(task, wallet, outcome),
            WalletStage::Created => from_created(task, wallet, outcome),
            WalletStage::HasEntry => from_has_entry(task, wallet, outcome),
            WalletStage::EntryType => from_entry_type(task, wallet, outcome),
            WalletStage::Removed => from_removed(task, wallet, outcome),
            WalletStage::Password => from_password(task, wallet, outcome),
            WalletStage::Written => from_written(task, wallet, outcome),
            WalletStage::Closed(result) => outcome == reply::load_view(result),
            WalletStage::Over => true,
        }
    }

    /// Whether a call is the one whose reply the session waits for.
    pub open spec fn calls(self, call: WalletCall) -> bool {
        match call {
            WalletCall::Connect => self.stage is Connected,
            WalletCall::IsEnabled => self.stage is Enabled,
            WalletCall::NetworkWallet => self.stage is Name,
            WalletCall::StartDaemon(daemon) => self.stage is Started && daemon@
                == desktop::wallet_daemon(self.backend),
            WalletCall::Open { wallet, app_name } => self.stage is Opened && wallet@.len() > 0
                && app_name@ == self.app_name@,
            WalletCall::HasFolder(folder) => self.stage is HasFolder && self.is_folder(folder),
            WalletCall::CreateFolder(folder) => self.stage is Created && self.is_folder(folder),
            WalletCall::HasEntry(entry) => self.stage is HasEntry && self.is_entry(entry),
            WalletCall::EntryType(entry) => self.stage is EntryType && self.is_entry(entry),
            WalletCall::RemoveEntry(entry) => self.stage is Removed && self.is_entry(entry),
            WalletCall::ReadPassword(entry) => self.stage is Password && self.is_entry(entry),
            WalletCall::WritePassword { entry, password } => {
                &&& self.stage is Written
                &&& self.is_entry(entry)
                &&& self.secret matches Some(secret)
                &&& vstd::utf8::encode_utf8(password@) == base64::base64(secret@)
            },
            WalletCall::Close { handle, app_name } => self.stage is Closed && handle == self.handle
                && app_name@ == self.app_name@,
            WalletCall::Finish(_) => self.stage is Over,
        }
    }

    /// How many calls are left at most.
    pub open spec fn left(self) -> nat {
        let again = self.first_error is Some;
        match self.stage {
            WalletStage::Connected => 16,
            WalletStage::Enabled => if again {
                12
            } else {
                15
            },
            WalletStage::Name => if again {
                11
            } else {
                14
            },
            WalletStage::Started => 13,
            WalletStage::Opened => 10,
            WalletStage::HasFolder => 9,
            WalletStage::Created => 8,
            WalletStage::HasEntry => 7,
            WalletStage::EntryType => 6,
            WalletStage::Removed => 5,
            WalletStage::Password => 4,
            WalletStage::Written => 3,
            WalletStage::Closed(_) => 1,
            WalletStage::Over => 0,
        }
    }
}

/// Whether a session was carried on well: whatever the wallet is, if the reply agrees with it, the
/// session will come only to what it would have come to before, or it has ended with that.
pub open spec fn session_carried_on(
    before: WalletSession,
    reply: WalletReply,
    after: WalletSession,
    call: WalletCall,
) -> bool {
    &&& after.task() == before.task()
    &&& after.calls(call)
    &&& forall|wallet: Wallet, outcome: LoadOutcome|
        #![trigger before.agrees(reply, wallet), before.will_come_to(wallet, outcome)]
        before.agrees(reply, wallet) && (match call {
            WalletCall::Finish(result) => outcome == reply::load_view(result),
            _ => after.will_come_to(wallet, outcome),
        }) ==> before.will_come_to(wallet, outcome)
    &&& call matches WalletCall::Open { wallet, .. } ==> (reply matches WalletReply::Name(Ok(n))
        && n@ == wallet@)
}

/// A failure of the backend, with a message.
fn failure(context: &'static str, source: String) -> (result: SecretStoreResult<Vec<u8>>)
    ensures
        reply::load_view(result) == failed(context@, source@),
{
    Err(SecretStoreError::backend(context, source))
}

/// A message that ends with the folder and the key.
fn about_entry(start: String, service: &str, account: &str) -> (message: String)
    ensures
        message@ == start@ + service@ + " key "@ + account@,
{
    let mut message = start;
    message.append(service);
    message.append(" key ");
    message.append(account);
    message
}

/// A message that ends with a code.
fn about_code(start: &str, code: i32) -> (message: String)
    ensures
        message@ == start@ + text::signed_decimal(code as int),
{
    let mut message = start.to_owned();
    push_signed_decimal(&mut message, code);
    message
}

/// Begins to load a secret from the wallet.
pub fn load_kwallet_secret_store_key(
    backend: KWalletService,
    service: &str,
    account: &str,
    app_name: &str,
) -> (out: (WalletSession, WalletCall))
    ensures
        out.0.wf(),
        out.0.calls(out.1),
        out.0.task() == (WalletTask {
            backend,
            service: service@,
            account: account@,
            secret: None,
            app_name: app_name@,
        }),
        forall|wallet: Wallet, outcome: LoadOutcome|
            out.0.will_come_to(wallet, outcome) == #[trigger] task_outcome(
                out.0.task(),
                wallet,
                outcome,
            ),
{
    let session = WalletSession {
        backend,
        service: service.to_owned(),
        account: account.to_owned(),
        secret: None,
        app_name: app_name.to_owned(),
        stage: WalletStage::Connected,
        first_error: None,
        handle: KWALLET_INVALID_HANDLE,
    };
    (session, WalletCall::Connect)
}

/// Begins to store a secret in the wallet.
pub fn store_kwallet_secret_store_key(
    backend: KWalletService,
    service: &str,
    account: &str,
    secret: &[u8],
    app_name: &str,
) -> (out: (WalletSession, WalletCall))
    requires
        base64::base64_len(secret@.len()) <= isize::MAX,
    ensures
        out.0.wf(),
        out.0.calls(out.1),
        out.0.task() == (WalletTask {
            backend,
            service: service@,
            account: account@,
            secret: Some(secret@),
            app_name: app_name@,
        }),
        forall|wallet: Wallet, outcome: LoadOutcome|
            out.0.will_come_to(wallet, outcome) == #[trigger] task_outcome(
                out.0.task(),
                wallet,
                outcome,
            ),
{
    let session = WalletSession {
        backend,
        service: service.to_owned(),
        account: account.to_owned(),
        secret: Some(slice_to_vec(secret)),
        app_name: app_name.to_owned(),
        stage: WalletStage::Connected,
        first_error: None,
        handle: KWALLET_INVALID_HANDLE,
    };
    (session, WalletCall::Connect)
}

impl WalletSession {
    /// The service's folder in the wallet that is open.
    fn folder(&self) -> (folder: WalletFolder)
        ensures
            self.is_folder(folder),
    {
        WalletFolder {
            handle: self.handle,
            folder: self.service.clone(),
            app_name: self.app_name.clone(),
        }
    }

    /// The account's entry in the service's folder of the wallet that is open.
    fn entry(&self) -> (entry: WalletEntry)
        ensures
            self.is_entry(entry),
    {
        WalletEntry {
            handle: self.handle,
            folder: self.service.clone(),
            key: self.account.clone(),
            app_name: self.app_name.clone(),
        }
    }

    /// Closes the wallet, after which this is the outcome.
    fn close(&mut self, result: SecretStoreResult<Vec<u8>>) -> (call: WalletCall)
        ensures
            *final(self) == (WalletSession { stage: WalletStage::Closed(result), ..*old(self) }),
            final(self).calls(call),
            call is Close,
    {
        self.stage = WalletStage::Closed(result);
        WalletCall::Close { handle: self.handle, app_name: self.app_name.clone() }
    }

    /// Ends the session.
    fn finish(&mut self, result: SecretStoreResult<Vec<u8>>) -> (call: WalletCall)
        ensures
            *final(self) == (WalletSession { stage: WalletStage::Over, ..*old(self) }),
            call == WalletCall::Finish(result),
    {
        self.stage = WalletStage::Over;
        WalletCall::Finish(result)
    }

    /// Goes on after the daemon did not give the wallet's name: it is started, unless it was
    /// already.
    fn no_wallet(&mut self, error: SecretStoreError) -> (call: WalletCall)
        ensures
            old(self).first_error matches Some(first) ==> *final(self) == (WalletSession {
                stage: WalletStage::Over,
                first_error: None,
                ..*old(self)
            }) && call == WalletCall::Finish(Err(first)),
            old(self).first_error is None ==> *final(self) == (WalletSession {
                stage: WalletStage::Started,
                first_error: Some(error),
                ..*old(self)
            }) && call is StartDaemon && final(self).calls(call),
    {
        match self.first_error.take() {
            Some(first) => {
                self.stage = WalletStage::Over;
                WalletCall::Finish(Err(first))
            },
            None => {
                self.first_error = Some(error);
                self.stage = WalletStage::Started;
                WalletCall::StartDaemon(self.backend.daemon_name())
            },
        }
    }

    /// Writes the password.
    fn write(&mut self) -> (call: WalletCall)
        requires
            old(self).secret matches Some(secret) && base64::base64_len(secret@.len())
                <= isize::MAX,
        ensures
            *final(self) == (WalletSession { stage: WalletStage::Written, ..*old(self) }),
            final(self).calls(call),
            call is WritePassword,
    {
        self.stage = WalletStage::Written;
        let password: String = match &self.secret {
            Some(secret) => encode_standard(secret.as_slice()),
            None => String::new(),
        };
        WalletCall::WritePassword { entry: self.entry(), password }
    }

    /// Carries a session on with a reply.
    pub fn step(&mut self, reply: WalletReply) -> (call: WalletCall)
        requires
            old(self).wf(),
            old(self).expects(reply),
        ensures
            final(self).wf(),
            session_carried_on(*old(self), reply, *final(self), call),
            final(self).left() < old(self).left(),
            old(self).is_open() && !(old(self).stage is Closed) ==> final(self).is_open()
                && final(self).handle == old(self).handle,
            reply matches WalletReply::Opened(Ok(handle)) ==> handle != KWALLET_INVALID_HANDLE
                ==> final(self).is_open() && final(self).handle == handle,
    {
        match reply {
            WalletReply::Connected(Err(e)) => {
                self.finish(failure("failed to connect to Linux KWallet session bus", e))
            },
            WalletReply::Connected(Ok(_)) => {
                self.stage = WalletStage::Enabled;
                WalletCall::IsEnabled
            },
            WalletReply::Enabled(Err(e)) => {
                self.no_wallet(
                    SecretStoreError::backend("failed to query Linux KWallet enabled state", e),
                )
            },
            WalletReply::Enabled(Ok(enabled)) => {
                if !enabled {
                    let message = self.backend.daemon_name().to_owned().concat(
                        " reports that KWallet is not enabled",
                    );
                    return self.no_wallet(
                        SecretStoreError::backend("Linux KWallet is disabled", message),
                    );
                }
                self.stage = WalletStage::Name;
                WalletCall::NetworkWallet
            },
            WalletReply::Name(Err(e)) => {
                self.no_wallet(
                    SecretStoreError::backend("failed to query Linux KWallet network wallet", e),
                )
            },
            WalletReply::Name(Ok(name)) => {
                if name.as_str().is_empty() {
                    return self.no_wallet(
                        SecretStoreError::backend_message(
                            "failed to query Linux KWallet network wallet",
                            "KWallet returned an empty network wallet name",
                        ),
                    );
                }
                self.stage = WalletStage::Opened;
                WalletCall::Open { wallet: name, app_name: self.app_name.clone() }
            },
            WalletReply::Started(Err(e)) => {
                self.finish(failure("failed to start Linux KWallet daemon", e))
            },
            WalletReply::Started(Ok((code, error))) => {
                if code != 0 || !error.as_str().is_empty() {
                    let mut message = self.backend.daemon_name().to_owned();
                    message.append(" returned error '");
                    message.append(error.as_str());
                    message.append("' (code ");
                    push_signed_decimal(&mut message, code);
                    message.append(")");
                    return self.finish(failure("failed to start Linux KWallet daemon", message));
                }
                self.stage = WalletStage::Enabled;
                WalletCall::IsEnabled
            },
            WalletReply::Opened(Err(e)) => {
                self.finish(failure("failed to open Linux KWallet wallet", e))
            },
            WalletReply::Opened(Ok(handle)) => {
                if handle == KWALLET_INVALID_HANDLE {
                    let message = self.backend.daemon_name().to_owned().concat(
                        " returned an invalid wallet handle",
                    );
                    return self.finish(failure("failed to open Linux KWallet wallet", message));
                }
                self.handle = handle;
                self.stage = WalletStage::HasFolder;
                WalletCall::HasFolder(self.folder())
            },
            WalletReply::HasFolder(Err(e)) => {
                self.close(failure("failed to query Linux KWallet folder", e))
            },
            WalletReply::HasFolder(Ok(has_folder)) => {
                if has_folder {
                    self.stage = WalletStage::HasEntry;
                    WalletCall::HasEntry(self.entry())
                } else if self.secret.is_some() {
                    self.stage = WalletStage::Created;
                    WalletCall::CreateFolder(self.folder())
                } else {
                    self.close(Err(SecretStoreError::NotFound))
                }
            },
            WalletReply::Created(Err(e)) => {
                self.close(failure("failed to create Linux KWallet folder", e))
            },
            WalletReply::Created(Ok(created)) => {
                if !created {
                    let message = "KWallet returned false for folder ".to_owned().concat(
                        self.service.as_str(),
                    );
                    return self.close(failure("failed to create Linux KWallet folder", message));
                }
                self.stage = WalletStage::HasEntry;
                WalletCall::HasEntry(self.entry())
            },
            WalletReply::HasEntry(Err(e)) => {
                self.close(failure("failed to query Linux KWallet entry", e))
            },
            WalletReply::HasEntry(Ok(has_entry)) => {
                if has_entry {
                    self.stage = WalletStage::EntryType;
                    WalletCall::EntryType(self.entry())
                } else if self.secret.is_some() {
                    self.write()
                } else {
                    self.close(Err(SecretStoreError::NotFound))
                }
            },
            WalletReply::EntryType(Err(e)) => {
                self.close(failure("failed to query Linux KWallet entry type", e))
            },
            WalletReply::EntryType(Ok(entry_type)) => {
                if self.secret.is_some() {
                    if entry_type != KWALLET_ENTRY_TYPE_PASSWORD {
                        self.stage = WalletStage::Removed;
                        WalletCall::RemoveEntry(self.entry())
                    } else {
                        self.write()
                    }
                } else if entry_type != KWALLET_ENTRY_TYPE_PASSWORD {
                    let mut start = about_code("unexpected entry type ", entry_type);
                    start.append(" for folder ");
                    let message = about_entry(start, self.service.as_str(), self.account.as_str());
                    self.close(failure("failed to read Linux KWallet secret", message))
                } else {
                    self.stage = WalletStage::Password;
                    WalletCall::ReadPassword(self.entry())
                }
            },
            WalletReply::Removed(Err(e)) => {
                self.close(failure("failed to remove Linux KWallet entry", e))
            },
            WalletReply::Removed(Ok(code)) => {
                if code != 0 {
                    let message = about_code("KWallet removeEntry returned error code ", code);
                    return self.close(failure("failed to remove Linux KWallet entry", message));
                }
                self.write()
            },
            WalletReply::Password(Err(e)) => {
                self.close(failure("failed to read Linux KWallet password", e))
            },
            WalletReply::Password(Ok(password)) => {
                if password.as_str().is_empty() {
                    let message = about_entry(
                        "empty password for folder ".to_owned(),
                        self.service.as_str(),
                        self.account.as_str(),
                    );
                    return self.close(failure("failed to read Linux KWallet secret", message));
                }
                let result: SecretStoreResult<Vec<u8>> = match decode_standard(
                    password.as_str(),
                ) {
                    Ok(secret) => Ok(secret),
                    Err(e) => failure("failed to decode Linux KWallet secret payload", e),
                };
                assert(decoded_password(password@, reply::load_view(result)));
                self.close(result)
            },
            WalletReply::Written(Err(e)) => {
                self.close(failure("failed to write Linux KWallet password", e))
            },
            WalletReply::Written(Ok(code)) => {
                if code != 0 {
                    let message = about_code("KWallet writePassword returned error code ", code);
                    return self.close(failure("failed to write Linux KWallet password", message));
                }
                self.close(Ok(Vec::new()))
            },
            WalletReply::Closed => {
                let mut stage = WalletStage::Over;
                std::mem::swap(&mut stage, &mut self.stage);
                match stage {
                    WalletStage::Closed(result) => WalletCall::Finish(result),
                    _ => WalletCall::Finish(Err(SecretStoreError::NotFound)),
                }
            },
        }
    }
}

/// A secret is reported missing only where the wallet itself said that there is no such folder or
/// no such entry: never because something failed.
pub proof fn law_not_found_means_missing(task: WalletTask, wallet: Wallet)
    requires
        task_outcome(task, wallet, Err(ErrorView::NotFound)),
    ensures
        task.secret is None,
        open_handle(wallet) is Some,
        wallet.has_folder == Ok::<bool, Seq<char>>(false) || (wallet.has_folder == Ok::<
            bool,
            Seq<char>,
        >(true) && wallet.has_entry == Ok::<bool, Seq<char>>(false)),
{
}

/// What was stored is loaded: from a wallet that opens and holds, as a password, the base64 text
/// of a secret that is not empty, that secret is loaded and nothing else.
pub proof fn law_stored_secret_is_loaded(
    task: WalletTask,
    wallet: Wallet,
    password: Seq<char>,
    secret: Seq<u8>,
    outcome: LoadOutcome,
)
    requires
        task.secret is None,
        secret.len() > 0,
        wallet.connected is Ok,
        network_wallet(task, wallet.enabled.0, wallet.name.0) is Ok,
        open_handle(wallet) is Some,
        wallet.has_folder == Ok::<bool, Seq<char>>(true),
        wallet.has_entry == Ok::<bool, Seq<char>>(true),
        wallet.entry_type == Ok::<i32, Seq<char>>(KWALLET_ENTRY_TYPE_PASSWORD),
        wallet.password == Ok::<Seq<char>, Seq<char>>(password),
        vstd::utf8::encode_utf8(password) == base64::base64(secret),
        task_outcome(task, wallet, outcome),
    ensures
        outcome == Ok::<Seq<u8>, ErrorView>(secret),
{
    base64::law_base64_text(secret);
    text::lemma_empty_bytes(password);
    if let Ok(loaded) = outcome {
        base64::law_base64_is_injective(loaded, secret);
    }
}

/// A store succeeds exactly where the wallet could be opened, the folder was there or was created,
/// an entry of another type was removed, and the password was written: whatever entry was there
/// before, nothing but the reply to the write makes it a success. It is never reported missing.
pub proof fn law_store_succeeds_by_writing(
    task: WalletTask,
    wallet: Wallet,
    outcome: LoadOutcome,
)
    requires
        task.secret is Some,
        task_outcome(task, wallet, outcome),
    ensures
        outcome is Ok <==> {
            &&& wallet.connected is Ok
            &&& (wallet.enabled.0 == Ok::<bool, Seq<char>>(true) && (wallet.name.0 matches Ok(n)
                && n.len() > 0)) || (wallet.started matches Ok((code, error)) && code == 0
                && error.len() == 0 && wallet.enabled.1 == Ok::<bool, Seq<char>>(true) && (
            wallet.name.1 matches Ok(n) && n.len() > 0))
            &&& wallet.opened matches Ok(handle) && handle != -1
            &&& wallet.has_folder == Ok::<bool, Seq<char>>(true) || (wallet.has_folder == Ok::<
                bool,
                Seq<char>,
            >(false) && wallet.created == Ok::<bool, Seq<char>>(true))
            &&& wallet.has_entry == Ok::<bool, Seq<char>>(false) || (wallet.has_entry == Ok::<
                bool,
                Seq<char>,
            >(true) && (wallet.entry_type == Ok::<i32, Seq<char>>(1) || (wallet.entry_type is Ok
                && wallet.removed == Ok::<i32, Seq<char>>(0))))
            &&& wallet.written == Ok::<i32, Seq<char>>(0)
        },
        outcome != Err::<Seq<u8>, ErrorView>(ErrorView::NotFound),
{
}

/// A load succeeds exactly where the wallet could be opened and the folder holds an entry that is a
/// password and the base64 text of something, and then it is that which is loaded. What the daemon
/// would reply to a write, to a removal or to the creation of a folder makes no difference.
pub proof fn law_load_succeeds_by_reading(task: WalletTask, wallet: Wallet, outcome: LoadOutcome)
    requires
        task.secret is None,
        task_outcome(task, wallet, outcome),
    ensures
        outcome is Ok <==> {
            &&& wallet.connected is Ok
            &&& (wallet.enabled.0 == Ok::<bool, Seq<char>>(true) && (wallet.name.0 matches Ok(n)
                && n.len() > 0)) || (wallet.started matches Ok((code, error)) && code == 0
                && error.len() == 0 && wallet.enabled.1 == Ok::<bool, Seq<char>>(true) && (
            wallet.name.1 matches Ok(n) && n.len() > 0))
            &&& wallet.opened matches Ok(handle) && handle != -1
            &&& wallet.has_folder == Ok::<bool, Seq<char>>(true)
            &&& wallet.has_entry == Ok::<bool, Seq<char>>(true)
            &&& wallet.entry_type == Ok::<i32, Seq<char>>(1)
            &&& wallet.password matches Ok(password) && password.len() > 0 && exists|
                secret: Seq<u8>,
            | #[trigger] base64::base64(secret) == vstd::utf8::encode_utf8(password)
        },
        outcome matches Ok(secret) ==> (wallet.password matches Ok(password)
            && vstd::utf8::encode_utf8(password) == base64::base64(secret)),
        outcome == Err::<Seq<u8>, ErrorView>(ErrorView::NotFound) <==> {
            &&& wallet.connected is Ok
            &&& (wallet.enabled.0 == Ok::<bool, Seq<char>>(true) && (wallet.name.0 matches Ok(n)
                && n.len() > 0)) || (wallet.started matches Ok((code, error)) && code == 0
                && error.len() == 0 && wallet.enabled.1 == Ok::<bool, Seq<char>>(true) && (
            wallet.name.1 matches Ok(n) && n.len() > 0))
            &&& wallet.opened matches Ok(handle) && handle != -1
            &&& wallet.has_folder == Ok::<bool, Seq<char>>(false) || (wallet.has_folder == Ok::<
                bool,
                Seq<char>,
            >(true) && wallet.has_entry == Ok::<bool, Seq<char>>(false))
        },
{
}

/// Before the wallet is open, the first call that fails decides what is reported: its own words,
/// or what its reply amounts to. Where the daemon has no wallet at first it is started and asked
/// once more, and if it has none then either, what it said at first stands.
pub proof fn law_wallet_must_open(task: WalletTask, wallet: Wallet, outcome: LoadOutcome)
    requires
        task_outcome(task, wallet, outcome),
    ensures
        wallet.connected matches Err(e) ==> outcome == Err::<Seq<u8>, ErrorView>(
            ErrorView::Backend { context: "failed to connect to Linux KWallet session bus"@, source: e },
        ),
        wallet.connected is Ok && !(wallet.enabled.0 == Ok::<bool, Seq<char>>(true) && (
        wallet.name.0 matches Ok(n) && n.len() > 0)) ==> {
            &&& wallet.started matches Err(e) ==> outcome == Err::<Seq<u8>, ErrorView>(
            ErrorView::Backend { context: "failed to start Linux KWallet daemon"@, source: e },
        )
            &&& wallet.started matches Ok((code, error)) ==> code != 0 || error.len() > 0
                ==> outcome == Err::<Seq<u8>, ErrorView>(
            ErrorView::Backend { context: "failed to start Linux KWallet daemon"@, source: desktop::wallet_daemon(task.backend) + " returned error '"@ + error + "' (code "@
                    + text::signed_decimal(code as int) + ")"@ },
        )
            &&& wallet.started matches Ok((code, error)) ==> code == 0 && error.len() == 0 && !(
            wallet.enabled.1 == Ok::<bool, Seq<char>>(true) && (wallet.name.1 matches Ok(n)
                && n.len() > 0)) ==> {
                &&& wallet.enabled.0 matches Err(e) ==> outcome == Err::<Seq<u8>, ErrorView>(
            ErrorView::Backend { context: "failed to query Linux KWallet enabled state"@, source: e },
        )
                &&& wallet.enabled.0 == Ok::<bool, Seq<char>>(false) ==> outcome == Err::<Seq<u8>, ErrorView>(
            ErrorView::Backend { context: "Linux KWallet is disabled"@, source: desktop::wallet_daemon(task.backend) + " reports that KWallet is not enabled"@ },
        )
                &&& wallet.enabled.0 == Ok::<bool, Seq<char>>(true) ==> match wallet.name.0 {
                    Err(e) => outcome == Err::<Seq<u8>, ErrorView>(
            ErrorView::Backend { context: "failed to query Linux KWallet network wallet"@, source: e },
        ),
                    Ok(_) => outcome == Err::<Seq<u8>, ErrorView>(
            ErrorView::Backend { context: "failed to query Linux KWallet network wallet"@, source: "KWallet returned an empty network wallet name"@ },
        ),
                }
            }
        },
        wallet.connected is Ok && ((wallet.enabled.0 == Ok::<bool, Seq<char>>(true) && (
        wallet.name.0 matches Ok(n) && n.len() > 0)) || (wallet.started matches Ok((code, error))
            && code == 0 && error.len() == 0 && wallet.enabled.1 == Ok::<bool, Seq<char>>(true)
            && (wallet.name.1 matches Ok(n) && n.len() > 0))) ==> {
            &&& wallet.opened matches Err(e) ==> outcome == Err::<Seq<u8>, ErrorView>(
            ErrorView::Backend { context: "failed to open Linux KWallet wallet"@, source: e },
        )
            &&& wallet.opened matches Ok(handle) ==> handle == -1 ==> outcome == Err::<Seq<u8>, ErrorView>(
            ErrorView::Backend { context: "failed to open Linux KWallet wallet"@, source: desktop::wallet_daemon(task.backend) + " returned an invalid wallet handle"@ },
        )
        },
{
}

/// Once the wallet is open, the first call that fails decides what is reported: its own words, or
/// what its reply amounts to.
pub proof fn law_first_failure_in_an_open_wallet_is_reported(
    task: WalletTask,
    wallet: Wallet,
    outcome: LoadOutcome,
    folder: bool,
    entry: bool,
)
    requires
        task_outcome(task, wallet, outcome),
        wallet.connected is Ok,
        (wallet.enabled.0 == Ok::<bool, Seq<char>>(true) && (wallet.name.0 matches Ok(n) && n.len()
            > 0)) || (wallet.started matches Ok((code, error)) && code == 0 && error.len() == 0
            && wallet.enabled.1 == Ok::<bool, Seq<char>>(true) && (wallet.name.1 matches Ok(n)
            && n.len() > 0)),
        wallet.opened matches Ok(handle) && handle != -1,
        folder <==> wallet.has_folder == Ok::<bool, Seq<char>>(true) || (task.secret is Some
            && wallet.has_folder == Ok::<bool, Seq<char>>(false) && wallet.created == Ok::<
            bool,
            Seq<char>,
        >(true)),
        entry <==> folder && wallet.has_entry == Ok::<bool, Seq<char>>(true),
    ensures
        wallet.has_folder matches Err(e) ==> outcome == Err::<Seq<u8>, ErrorView>(
            ErrorView::Backend { context: "failed to query Linux KWallet folder"@, source: e },
        ),
        task.secret is Some && wallet.has_folder == Ok::<bool, Seq<char>>(false) ==> {
            &&& wallet.created matches Err(e) ==> outcome == Err::<Seq<u8>, ErrorView>(
            ErrorView::Backend { context: "failed to create Linux KWallet folder"@, source: e },
        )
            &&& wallet.created == Ok::<bool, Seq<char>>(false) ==> outcome == Err::<Seq<u8>, ErrorView>(
            ErrorView::Backend { context: "failed to create Linux KWallet folder"@, source: "KWallet returned false for folder "@ + task.service },
        )
        },
        folder ==> (wallet.has_entry matches Err(e) ==> outcome == Err::<Seq<u8>, ErrorView>(
            ErrorView::Backend { context: "failed to query Linux KWallet entry"@, source: e },
        )),
        entry ==> (wallet.entry_type matches Err(e) ==> outcome == Err::<Seq<u8>, ErrorView>(
            ErrorView::Backend { context: "failed to query Linux KWallet entry type"@, source: e },
        )),
        entry && task.secret is None ==> (wallet.entry_type matches Ok(t) ==> t != 1
            ==> outcome == Err::<Seq<u8>, ErrorView>(
            ErrorView::Backend { context: "failed to read Linux KWallet secret"@, source: "unexpected entry type "@ + text::signed_decimal(t as int) + " for folder "@
                + task.service + " key "@ + task.account },
        )),
        entry && task.secret is None && wallet.entry_type == Ok::<i32, Seq<char>>(1) ==> match
        wallet.password {
            Err(e) => outcome == Err::<Seq<u8>, ErrorView>(
            ErrorView::Backend { context: "failed to read Linux KWallet password"@, source: e },
        ),
            Ok(password) => {
                &&& password.len() == 0 ==> outcome == Err::<Seq<u8>, ErrorView>(
            ErrorView::Backend { context: "failed to read Linux KWallet secret"@, source: "empty password for folder "@ + task.service + " key "@ + task.account },
        )
                &&& password.len() > 0 && outcome is Err ==> outcome == Err::<Seq<u8>, ErrorView>(
            ErrorView::Backend { context: "failed to decode Linux KWallet secret payload"@, source: base64::decode_error(password) },
        )
            },
        },
        entry && task.secret is Some ==> (wallet.entry_type matches Ok(t) ==> t != 1 ==> match
        wallet.removed {
            Err(e) => outcome == Err::<Seq<u8>, ErrorView>(
            ErrorView::Backend { context: "failed to remove Linux KWallet entry"@, source: e },
        ),
            Ok(code) => code != 0 ==> outcome == Err::<Seq<u8>, ErrorView>(
            ErrorView::Backend { context: "failed to remove Linux KWallet entry"@, source: "KWallet removeEntry returned error code "@ + text::signed_decimal(code as int) },
        ),
        }),
        folder && task.secret is Some && (wallet.has_entry == Ok::<bool, Seq<char>>(false) || (
        entry && wallet.entry_type is Ok && (wallet.entry_type->Ok_0 == 1 || wallet.removed
            == Ok::<i32, Seq<char>>(0)))) ==> match wallet.written {
            Err(e) => outcome == Err::<Seq<u8>, ErrorView>(
            ErrorView::Backend { context: "failed to write Linux KWallet password"@, source: e },
        ),
            Ok(code) => code != 0 ==> outcome == Err::<Seq<u8>, ErrorView>(
            ErrorView::Backend { context: "failed to write Linux KWallet password"@, source: "KWallet writePassword returned error code "@ + text::signed_decimal(code as int) },
        ),
        },
{
}

/// Each reply that a session takes is the reply to the call that it made, and that call names the
/// wallet that was opened, the folder of the service and the key of the account.
pub proof fn law_calls_name_the_entry(session: WalletSession, call: WalletCall, reply: WalletReply)
    requires
        session.calls(call),
        session.expects(reply),
    ensures
        match reply {
            WalletReply::Connected(_) => call is Connect,
            WalletReply::Enabled(_) => call is IsEnabled,
            WalletReply::Name(_) => call is NetworkWallet,
            WalletReply::Started(_) => call matches WalletCall::StartDaemon(daemon) && daemon@
                == (match session.backend {
                KWalletService::Legacy => "kwalletd"@,
                KWalletService::KWallet5 => "kwalletd5"@,
                KWalletService::KWallet6 => "kwalletd6"@,
            }),
            WalletReply::Opened(_) => call matches WalletCall::Open { wallet, app_name }
                && wallet@.len() > 0 && app_name@ == session.app_name@,
            WalletReply::HasFolder(_) => call matches WalletCall::HasFolder(folder)
                && folder.handle == session.handle && folder.folder@ == session.service@
                && folder.app_name@ == session.app_name@,
            WalletReply::Created(_) => call matches WalletCall::CreateFolder(folder)
                && folder.handle == session.handle && folder.folder@ == session.service@
                && folder.app_name@ == session.app_name@,
            WalletReply::HasEntry(_) => call matches WalletCall::HasEntry(entry) && entry.handle
                == session.handle && entry.folder@ == session.service@ && entry.key@
                == session.account@ && entry.app_name@ == session.app_name@,
            WalletReply::EntryType(_) => call matches WalletCall::EntryType(entry) && entry.handle
                == session.handle && entry.folder@ == session.service@ && entry.key@
                == session.account@ && entry.app_name@ == session.app_name@,
            WalletReply::Removed(_) => call matches WalletCall::RemoveEntry(entry) && entry.handle
                == session.handle && entry.folder@ == session.service@ && entry.key@
                == session.account@ && entry.app_name@ == session.app_name@,
            WalletReply::Password(_) => call matches WalletCall::ReadPassword(entry)
                && entry.handle == session.handle && entry.folder@ == session.service@
                && entry.key@ == session.account@ && entry.app_name@ == session.app_name@,
            WalletReply::Written(_) => call matches WalletCall::WritePassword { entry, password }
                && entry.handle == session.handle && entry.folder@ == session.service@
                && entry.key@ == session.account@ && entry.app_name@ == session.app_name@ && (
            session.secret matches Some(secret) && vstd::utf8::encode_utf8(password@)
                == base64::base64(secret@)),
            WalletReply::Closed => call matches WalletCall::Close { handle, app_name } && handle
                == session.handle && app_name@ == session.app_name@,
        },
{
}

/// What a session that may still fail comes to, where it comes to a success: a store to the
/// password written, a load to the password read.
proof fn lemma_success_is_written_or_read(
    session: WalletSession,
    wallet: Wallet,
    outcome: LoadOutcome,
)
    requires
        session.wf(),
        !(session.stage is Closed),
        !(session.stage is Over),
        session.will_come_to(wallet, outcome),
        outcome is Ok,
    ensures
        session.secret is Some ==> wallet.written == Ok::<i32, Seq<char>>(0),
        session.secret is None ==> (wallet.password matches Ok(password) && password.len() > 0
            && base64::base64(outcome->Ok_0) == vstd::utf8::encode_utf8(password)),
{
}

/// A session turns to success at one reply only: a store at the reply `0` to its call that writes
/// the base64 text of the secret, and a load at the reply with a password that is the base64 text
/// of what is loaded. After that it closes the wallet, and ends with what it had come to.
pub proof fn law_success_follows_the_last_call(
    before: WalletSession,
    made: WalletCall,
    reply: WalletReply,
    after: WalletSession,
    call: WalletCall,
)
    requires
        before.wf(),
        before.calls(made),
        before.expects(reply),
        session_carried_on(before, reply, after, call),
        after.left() < before.left(),
        before.is_open() && !(before.stage is Closed) ==> after.is_open(),
    ensures
        after.stage matches WalletStage::Closed(Ok(result)) ==> (match before.secret {
            Some(secret) => {
                &&& made matches WalletCall::WritePassword { password, .. }
                &&& vstd::utf8::encode_utf8(password@) == base64::base64(secret@)
                &&& reply == WalletReply::Written(Ok(0))
            },
            None => {
                &&& made is ReadPassword
                &&& reply matches WalletReply::Password(Ok(password))
                &&& vstd::utf8::encode_utf8(password@) == base64::base64(result@)
            },
        }),
        call matches WalletCall::Finish(Ok(result)) ==> made is Close && (
        before.stage matches WalletStage::Closed(Ok(earlier)) && earlier@ == result@),
{
    let no = Err::<i32, Seq<char>>(seq![]);
    let wallet = Wallet {
        connected: if let WalletReply::Connected(r) = reply {
            reply::plain_reply(r)
        } else {
            Err(seq![])
        },
        enabled: if let WalletReply::Enabled(r) = reply {
            (reply::plain_reply(r), reply::plain_reply(r))
        } else {
            (Err(seq![]), Err(seq![]))
        },
        name: if let WalletReply::Name(r) = reply {
            (reply::text_reply(r), reply::text_reply(r))
        } else {
            (Err(seq![]), Err(seq![]))
        },
        started: if let WalletReply::Started(r) = reply {
            start_reply(r)
        } else {
            Err(seq![])
        },
        opened: if let WalletReply::Opened(r) = reply {
            reply::plain_reply(r)
        } else {
            no
        },
        has_folder: if let WalletReply::HasFolder(r) = reply {
            reply::plain_reply(r)
        } else {
            Err(seq![])
        },
        created: if let WalletReply::Created(r) = reply {
            reply::plain_reply(r)
        } else {
            Err(seq![])
        },
        has_entry: if let WalletReply::HasEntry(r) = reply {
            reply::plain_reply(r)
        } else {
            Err(seq![])
        },
        entry_type: if let WalletReply::EntryType(r) = reply {
            reply::plain_reply(r)
        } else {
            no
        },
        removed: if let WalletReply::Removed(r) = reply {
            reply::plain_reply(r)
        } else {
            no
        },
        password: if let WalletReply::Password(r) = reply {
            reply::text_reply(r)
        } else {
            Err(seq![])
        },
        written: if let WalletReply::Written(r) = reply {
            reply::plain_reply(r)
        } else {
            no
        },
    };
    assert(before.agrees(reply, wallet));
    if let WalletStage::Closed(Ok(result)) = after.stage {
        let outcome = Ok::<Seq<u8>, ErrorView>(result@);
        assert(!(call is Finish));
        assert(after.will_come_to(wallet, outcome));
        assert(before.will_come_to(wallet, outcome));
        lemma_success_is_written_or_read(before, wallet, outcome);
        law_calls_name_the_entry(before, made, reply);
    }
    if let WalletCall::Finish(Ok(result)) = call {
        let outcome = Ok::<Seq<u8>, ErrorView>(result@);
        assert(before.will_come_to(wallet, outcome));
        law_calls_name_the_entry(before, made, reply);
        if !(before.stage is Closed) {
            lemma_success_is_written_or_read(before, wallet, outcome);
        }
    }
}

/// A reply is the one that the daemon gives exactly where it says, word for word, what it would
/// reply to this call; it says nothing of any other call.
pub proof fn law_session_hears_the_daemon(
    session: WalletSession,
    answer: WalletReply,
    wallet: Wallet,
)
    ensures
        match answer {
            WalletReply::Connected(r) => session.agrees(answer, wallet) <==> (match r {
                Ok(v) => wallet.connected == Ok::<(), Seq<char>>(v),
                Err(e) => wallet.connected == Err::<(), Seq<char>>(e@),
            }),
            WalletReply::Opened(r) => session.agrees(answer, wallet) <==> (match r {
                Ok(v) => wallet.opened == Ok::<i32, Seq<char>>(v),
                Err(e) => wallet.opened == Err::<i32, Seq<char>>(e@),
            }),
            WalletReply::HasFolder(r) => session.agrees(answer, wallet) <==> (match r {
                Ok(v) => wallet.has_folder == Ok::<bool, Seq<char>>(v),
                Err(e) => wallet.has_folder == Err::<bool, Seq<char>>(e@),
            }),
            WalletReply::Created(r) => session.agrees(answer, wallet) <==> (match r {
                Ok(v) => wallet.created == Ok::<bool, Seq<char>>(v),
                Err(e) => wallet.created == Err::<bool, Seq<char>>(e@),
            }),
            WalletReply::HasEntry(r) => session.agrees(answer, wallet) <==> (match r {
                Ok(v) => wallet.has_entry == Ok::<bool, Seq<char>>(v),
                Err(e) => wallet.has_entry == Err::<bool, Seq<char>>(e@),
            }),
            WalletReply::EntryType(r) => session.agrees(answer, wallet) <==> (match r {
                Ok(v) => wallet.entry_type == Ok::<i32, Seq<char>>(v),
                Err(e) => wallet.entry_type == Err::<i32, Seq<char>>(e@),
            }),
            WalletReply::Removed(r) => session.agrees(answer, wallet) <==> (match r {
                Ok(v) => wallet.removed == Ok::<i32, Seq<char>>(v),
                Err(e) => wallet.removed == Err::<i32, Seq<char>>(e@),
            }),
            WalletReply::Written(r) => session.agrees(answer, wallet) <==> (match r {
                Ok(v) => wallet.written == Ok::<i32, Seq<char>>(v),
                Err(e) => wallet.written == Err::<i32, Seq<char>>(e@),
            }),
            WalletReply::Password(r) => session.agrees(answer, wallet) <==> (match r {
                Ok(v) => wallet.password == Ok::<Seq<char>, Seq<char>>(v@),
                Err(e) => wallet.password == Err::<Seq<char>, Seq<char>>(e@),
            }),
            WalletReply::Started(r) => session.agrees(answer, wallet) <==> (match r {
                Ok((code, error)) => wallet.started == Ok::<(i32, Seq<char>), Seq<char>>(
                    (code, error@),
                ),
                Err(e) => wallet.started == Err::<(i32, Seq<char>), Seq<char>>(e@),
            }),
            WalletReply::Enabled(r) => session.agrees(answer, wallet) <==> (match (session.first_error, r) {
                (None, Ok(v)) => wallet.enabled.0 == Ok::<bool, Seq<char>>(v),
                (None, Err(e)) => wallet.enabled.0 == Err::<bool, Seq<char>>(e@),
                (Some(_), Ok(v)) => wallet.enabled.1 == Ok::<bool, Seq<char>>(v),
                (Some(_), Err(e)) => wallet.enabled.1 == Err::<bool, Seq<char>>(e@),
            }),
            WalletReply::Name(r) => session.agrees(answer, wallet) <==> (match (session.first_error, r) {
                (None, Ok(v)) => wallet.name.0 == Ok::<Seq<char>, Seq<char>>(v@),
                (None, Err(e)) => wallet.name.0 == Err::<Seq<char>, Seq<char>>(e@),
                (Some(_), Ok(v)) => wallet.name.1 == Ok::<Seq<char>, Seq<char>>(v@),
                (Some(_), Err(e)) => wallet.name.1 == Err::<Seq<char>, Seq<char>>(e@),
            }),
            WalletReply::Closed => session.agrees(answer, wallet) <==> (true),
        },
{
}

} // verus!
