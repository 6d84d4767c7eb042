//! macOS: secrets in the login keychain.
//!
//! Once the user has refused access to the keychain, nothing is asked of it again.
use crate::platform::apple;
use crate::platform::apple::{map_keychain_result, KeychainResult, ERR_SEC_ITEM_NOT_FOUND};
use crate::platform::command_line;
use crate::platform::command_line::{command, CommandLine};
use crate::platform::reply;
use crate::platform::reply::{LoadOutcome, Reply, ReplyView, StoreOutcome};
use crate::secret_store::{ErrorView, SecretStoreError, SecretStoreResult};
use crate::text;
use crate::text::{from_utf8_lossy, push_signed_decimal};
use vstd::prelude::*;
use vstd::slice::slice_to_vec;
use vstd::string::*;

verus! {

/// `errSecUserCanceled`.
pub const ERR_SEC_USER_CANCELED: i32 = -128;

/// `errSecAuthFailed`.
pub const ERR_SEC_AUTH_FAILED: i32 = -25293;

/// `errSecInteractionNotAllowed`.
pub const ERR_SEC_INTERACTION_NOT_ALLOWED: i32 = -25308;

/// The exit code of the `security` command after the user has refused.
pub const EXIT_USER_CANCELED: i32 = 128;

/// Whether the user has refused access to the keychain.
pub struct KeychainAccess {
    pub denied: bool,
}

/// The error once the user has refused.
pub open spec fn denied_before() -> ErrorView {
    reply::backend_error(
        "keychain access denied by user"@,
        "User previously denied keychain password prompt in this session"@,
    )
}

/// The error when the user refuses.
pub open spec fn denied_now() -> ErrorView {
    reply::backend_error(
        "keychain access denied by user"@,
        "User canceled keychain password prompt"@,
    )
}

fn denied_before_error() -> (error: SecretStoreError)
    ensures
        error@ == denied_before(),
{
    SecretStoreError::backend_message(
        "keychain access denied by user",
        "User previously denied keychain password prompt in this session",
    )
}

fn denied_now_error() -> (error: SecretStoreError)
    ensures
        error@ == denied_now(),
{
    SecretStoreError::backend_message(
        "keychain access denied by user",
        "User canceled keychain password prompt",
    )
}

/// What the keychain would reply to each call that loading makes.
pub struct LoginKeychain {
    /// Whether the default keychain could be had.
    pub opened: ReplyView<()>,
    /// The status of asking for its state, and the state.
    pub state: (i32, u32),
    /// The status of asking for the item, and the item.
    pub copied: (i32, Option<Seq<u8>>),
}

/// What asking for the item comes to.
pub open spec fn copied_outcome(
    service: Seq<char>,
    account: Seq<char>,
    status: i32,
    data: Option<Seq<u8>>,
) -> LoadOutcome {
    if status == 0 {
        match data {
            Some(secret) => Ok(secret),
            None => Err(
                reply::backend_error(
                    "keychain read failed"@,
                    "SecItemCopyMatching returned null result"@,
                ),
            ),
        }
    } else if status == ERR_SEC_USER_CANCELED {
        Err(denied_now())
    } else if status == ERR_SEC_ITEM_NOT_FOUND {
        Err(
            reply::backend_error(
                "secret not found"@,
                "No keychain item found for service '"@ + service + "' and account '"@ + account
                    + "'"@,
            ),
        )
    } else if status == ERR_SEC_AUTH_FAILED {
        Err(
            reply::backend_error(
                "keychain access denied"@,
                "Application does not have permission to access this keychain item"@,
            ),
        )
    } else if status == ERR_SEC_INTERACTION_NOT_ALLOWED {
        Err(
            reply::backend_error(
                "keychain interaction required"@,
                "Keychain access requires user interaction but it was disabled"@,
            ),
        )
    } else {
        Err(
            reply::backend_error(
                "keychain read failed"@,
                "SecItemCopyMatching failed with error code: "@ + text::signed_decimal(
                    status as int,
                ),
            ),
        )
    }
}

/// What a load comes to, once the keychain's state is asked for. The lowest bit of the state says
/// that it is unlocked.
pub open spec fn state_outcome(
    service: Seq<char>,
    account: Seq<char>,
    keychain: LoginKeychain,
) -> LoadOutcome {
    if keychain.state.0 != 0 {
        Err(
            reply::backend_error(
                "keychain access failed"@,
                "Failed to get keychain status: "@ + text::signed_decimal(
                    keychain.state.0 as int,
                ),
            ),
        )
    } else if keychain.state.1 % 2 == 0 {
        Err(
            reply::backend_error(
                "keychain is locked"@,
                "The keychain is locked and cannot be accessed without user interaction"@,
            ),
        )
    } else {
        copied_outcome(service, account, keychain.copied.0, keychain.copied.1)
    }
}

/// What a load comes to. Nothing is asked of the keychain once the user has refused, and nothing of
/// a keychain that is locked.
pub open spec fn load_outcome(
    service: Seq<char>,
    account: Seq<char>,
    denied: bool,
    keychain: LoginKeychain,
) -> LoadOutcome {
    if denied {
        Err(denied_before())
    } else {
        match keychain.opened {
            Err(e) => Err(
                reply::backend_error(
                    "keychain access failed"@,
                    "Failed to get default keychain: "@ + e,
                ),
            ),
            Ok(_) => state_outcome(service, account, keychain),
        }
    }
}

/// What has happened during a load.
pub enum LoadEvent {
    Requested,
    /// The default keychain was asked for.
    Opened(Reply<()>),
    /// Its state was asked for.
    State { status: i32, flags: u32 },
    /// The item was asked for, without a prompt.
    Copied { status: i32, data: Option<Vec<u8>> },
}

/// A query for an item of the keychain. The names are the values of the constants given.
pub struct ItemQuery {
    /// `kSecClass`.
    pub class: &'static str,
    /// `kSecAttrService`.
    pub service: String,
    /// `kSecAttrAccount`.
    pub account: String,
    /// `kSecReturnData`.
    pub return_data: bool,
    /// `kSecUseAuthenticationUI`.
    pub authentication_ui: &'static str,
}

/// Whether a query asks for the data of the service's and account's password, and fails rather than
/// prompt.
pub open spec fn asks_silently(query: ItemQuery, service: Seq<char>, account: Seq<char>) -> bool {
    &&& query.class@ == "genp"@
    &&& query.service@ == service
    &&& query.account@ == account
    &&& query.return_data
    &&& query.authentication_ui@ == "fail"@
}

/// What a load does next.
pub enum LoadAction {
    /// Open the user's default keychain.
    OpenDefault,
    /// Get its state.
    GetState,
    /// Get the item that the query asks for.
    CopyMatching(ItemQuery),
    Finish(SecretStoreResult<Vec<u8>>),
}

/// What is known when an event comes, of what the keychain replies.
pub open spec fn load_agrees(event: LoadEvent, denied: bool, keychain: LoginKeychain) -> bool {
    match event {
        LoadEvent::Requested => true,
        LoadEvent::Opened(r) => !denied && reply::plain_reply(r) == keychain.opened,
        LoadEvent::State { status, flags } => !denied && keychain.opened is Ok && keychain.state
            == (status, flags),
        LoadEvent::Copied { status, data } => {
            &&& !denied
            &&& keychain.opened is Ok
            &&& keychain.state.0 == 0
            &&& keychain.state.1 % 2 == 1
            &&& keychain.copied == (status, text::maybe_bytes(data))
        },
    }
}

/// Whether an action is right: it ends with what the load comes to, or it asks what is needed for
/// that.
pub open spec fn load_right(
    action: LoadAction,
    service: Seq<char>,
    account: Seq<char>,
    denied: bool,
    keychain: LoginKeychain,
) -> bool {
    match action {
        LoadAction::OpenDefault => !denied,
        LoadAction::GetState => !denied && keychain.opened is Ok,
        LoadAction::CopyMatching(query) => {
            &&& asks_silently(query, service, account)
            &&& !denied
            &&& keychain.opened is Ok
            &&& keychain.state.0 == 0
            &&& keychain.state.1 % 2 == 1
        },
        LoadAction::Finish(result) => reply::load_view(result) == load_outcome(
            service,
            account,
            denied,
            keychain,
        ),
    }
}

/// How far a load has come.
pub open spec fn load_event_rank(event: LoadEvent) -> int {
    match event {
        LoadEvent::Requested => 0,
        LoadEvent::Opened(_) => 1,
        LoadEvent::State { .. } => 2,
        LoadEvent::Copied { .. } => 3,
    }
}

/// How far a load will have come when an action has been performed.
pub open spec fn load_action_rank(action: LoadAction) -> int {
    match action {
        LoadAction::OpenDefault => 1,
        LoadAction::GetState => 2,
        LoadAction::CopyMatching(_) => 3,
        LoadAction::Finish(_) => 4,
    }
}

/// What asking for the item came to.
pub fn keychain_item(service: &str, account: &str, status: i32, data: Option<Vec<u8>>) -> (out:
    SecretStoreResult<Vec<u8>>)
    ensures
        reply::load_view(out) == copied_outcome(
            service@,
            account@,
            status,
            text::maybe_bytes(data),
        ),
{
    if status == 0 {
        return match data {
            Some(secret) => Ok(secret),
            None => Err(
                SecretStoreError::backend_message(
                    "keychain read failed",
                    "SecItemCopyMatching returned null result",
                ),
            ),
        };
    }
    if status == ERR_SEC_USER_CANCELED {
        return Err(denied_now_error());
    }
    if status == ERR_SEC_ITEM_NOT_FOUND {
        let mut message = "No keychain item found for service '".to_owned();
        message.append(service);
        message.append("' and account '");
        message.append(account);
        message.append("'");
        return Err(SecretStoreError::backend("secret not found", message));
    }
    if status == ERR_SEC_AUTH_FAILED {
        return Err(
            SecretStoreError::backend_message(
                "keychain access denied",
                "Application does not have permission to access this keychain item",
            ),
        );
    }
    if status == ERR_SEC_INTERACTION_NOT_ALLOWED {
        return Err(
            SecretStoreError::backend_message(
                "keychain interaction required",
                "Keychain access requires user interaction but it was disabled",
            ),
        );
    }
    let mut message = "SecItemCopyMatching failed with error code: ".to_owned();
    push_signed_decimal(&mut message, status);
    Err(SecretStoreError::backend("keychain read failed", message))
}

/// One step of a load from the login keychain, without a prompt: whatever the keychain is, if the
/// event agrees with it, the action is right, and the load has come further. A refusal by the user
/// is remembered.
pub fn load_secret_keychain_mac_generic_silent(
    access: &mut KeychainAccess,
    service: &str,
    account: &str,
    event: LoadEvent,
) -> (action: LoadAction)
    ensures
        forall|keychain: LoginKeychain| #[trigger]
            load_agrees(event, old(access).denied, keychain) ==> load_right(
                action,
                service@,
                account@,
                old(access).denied,
                keychain,
            ),
        load_action_rank(action) > load_event_rank(event),
        final(access).denied == (old(access).denied || (event matches LoadEvent::Copied {
            status,
            ..
        } && status == ERR_SEC_USER_CANCELED)),
{
    match event {
        LoadEvent::Requested => {
            if access.denied {
                LoadAction::Finish(Err(denied_before_error()))
            } else {
                LoadAction::OpenDefault
            }
        },
        LoadEvent::Opened(Err(e)) => {
            let message = "Failed to get default keychain: ".to_owned().concat(e.as_str());
            LoadAction::Finish(Err(SecretStoreError::backend("keychain access failed", message)))
        },
        LoadEvent::Opened(Ok(_)) => LoadAction::GetState,
        LoadEvent::State { status, flags } => {
            if status != 0 {
                let mut message = "Failed to get keychain status: ".to_owned();
                push_signed_decimal(&mut message, status);
                return LoadAction::Finish(
                    Err(SecretStoreError::backend("keychain access failed", message)),
                );
            }
            assert(flags & 1 == flags % 2) by (bit_vector);
            if (flags & 1) == 0 {
                return LoadAction::Finish(
                    Err(
                        SecretStoreError::backend_message(
                            "keychain is locked",
                            "The keychain is locked and cannot be accessed without user interaction",
                        ),
                    ),
                );
            }
            LoadAction::CopyMatching(
                ItemQuery {
                    class: "genp",
                    service: service.to_owned(),
                    account: account.to_owned(),
                    return_data: true,
                    authentication_ui: "fail",
                },
            )
        },
        LoadEvent::Copied { status, data } => {
            if status == ERR_SEC_USER_CANCELED {
                access.denied = true;
            }
            LoadAction::Finish(keychain_item(service, account, status, data))
        },
    }
}

/// One step of a load from the login keychain: without a prompt.
pub fn load_secret_keychain_mac_generic(
    access: &mut KeychainAccess,
    service: &str,
    account: &str,
    event: LoadEvent,
) -> (action: LoadAction)
    ensures
        forall|keychain: LoginKeychain| #[trigger]
            load_agrees(event, old(access).denied, keychain) ==> load_right(
                action,
                service@,
                account@,
                old(access).denied,
                keychain,
            ),
        load_action_rank(action) > load_event_rank(event),
        final(access).denied == (old(access).denied || (event matches LoadEvent::Copied {
            status,
            ..
        } && status == ERR_SEC_USER_CANCELED)),
{
    load_secret_keychain_mac_generic_silent(access, service, account, event)
}

/// One step of a load: the login keychain is used, not the Data Protection Keychain, which an
/// ordinary desktop process may not be allowed to use.
pub fn load_secret(
    access: &mut KeychainAccess,
    service: &str,
    account: &str,
    event: LoadEvent,
) -> (action: LoadAction)
    ensures
        forall|keychain: LoginKeychain| #[trigger]
            load_agrees(event, old(access).denied, keychain) ==> load_right(
                action,
                service@,
                account@,
                old(access).denied,
                keychain,
            ),
        load_action_rank(action) > load_event_rank(event),
        final(access).denied == (old(access).denied || (event matches LoadEvent::Copied {
            status,
            ..
        } && status == ERR_SEC_USER_CANCELED)),
{
    load_secret_keychain_mac_generic_silent(access, service, account, event)
}

/// What has happened during a store through the keychain's own calls.
pub enum StoreEvent {
    Requested,
    /// The default keychain was asked for.
    Opened(KeychainResult<()>),
    /// The item was written.
    Written(KeychainResult<()>),
}

/// A password that is to be written to the keychain.
pub struct NewPassword {
    pub service: String,
    pub account: String,
    pub password: Vec<u8>,
}

/// What such a store does next.
pub enum StoreAction {
    /// Open the user's default keychain.
    OpenDefault,
    /// Write the password, in place of the one there is.
    SetPassword(NewPassword),
    Finish(SecretStoreResult<()>),
}

/// What writing the item comes to.
pub open spec fn written_outcome(written: KeychainResult<()>) -> StoreOutcome {
    match written {
        Ok(_) => Ok(()),
        Err(e) => if e.code == ERR_SEC_USER_CANCELED {
            Err(denied_now())
        } else {
            Err(
                reply::backend_error(
                    "failed to write secret to macOS login keychain"@,
                    e.message@,
                ),
            )
        },
    }
}

/// How a store through the keychain's own calls goes on.
pub open spec fn store_step(
    event: StoreEvent,
    denied: bool,
    service: Seq<char>,
    account: Seq<char>,
    secret: Seq<u8>,
    action: StoreAction,
) -> bool {
    match event {
        StoreEvent::Requested => if denied {
            action matches StoreAction::Finish(result) && reply::store_view(result) == Err::<
                (),
                ErrorView,
            >(denied_before())
        } else {
            action is OpenDefault
        },
        StoreEvent::Opened(opened) => match opened {
            Ok(_) => {
                &&& action matches StoreAction::SetPassword(new)
                &&& new.service@ == service
                &&& new.account@ == account
                &&& new.password@ == secret
            },
            Err(_) => action matches StoreAction::Finish(result) && reply::store_view(result)
                == apple::keychain_store(opened, "failed to open default macOS keychain"@),
        },
        StoreEvent::Written(written) => action matches StoreAction::Finish(result)
            && reply::store_view(result) == written_outcome(written),
    }
}

/// Whether the user has refused while the item was written.
pub open spec fn write_denied(event: StoreEvent) -> bool {
    event matches StoreEvent::Written(Err(e)) && e.code == ERR_SEC_USER_CANCELED
}

/// One step of a store through the keychain's own calls. A refusal by the user is remembered.
pub fn store_secret_keychain_mac_generic(
    access: &mut KeychainAccess,
    service: &str,
    account: &str,
    secret: &[u8],
    event: StoreEvent,
) -> (action: StoreAction)
    ensures
        store_step(event, old(access).denied, service@, account@, secret@, action),
        final(access).denied == (old(access).denied || write_denied(event)),
{
    match event {
        StoreEvent::Requested => {
            if access.denied {
                StoreAction::Finish(Err(denied_before_error()))
            } else {
                StoreAction::OpenDefault
            }
        },
        StoreEvent::Opened(opened) => match map_keychain_result(
            opened,
            "failed to open default macOS keychain",
        ) {
            Ok(_) => StoreAction::SetPassword(
                NewPassword {
                    service: service.to_owned(),
                    account: account.to_owned(),
                    password: slice_to_vec(secret),
                },
            ),
            Err(e) => StoreAction::Finish(Err(e)),
        },
        StoreEvent::Written(Ok(_)) => StoreAction::Finish(Ok(())),
        StoreEvent::Written(Err(e)) => {
            if e.code == ERR_SEC_USER_CANCELED {
                access.denied = true;
                return StoreAction::Finish(Err(denied_now_error()));
            }
            StoreAction::Finish(
                Err(
                    SecretStoreError::backend(
                        "failed to write secret to macOS login keychain",
                        e.message,
                    ),
                ),
            )
        },
    }
}

/// How the `security` command ended.
pub struct CommandEnd {
    pub success: bool,
    pub code: Option<i32>,
    pub stderr: Vec<u8>,
}

/// What has happened during a store through the `security` command.
pub enum CommandEvent {
    Requested,
    Ran(Reply<CommandEnd>),
}

/// What such a store does next.
pub enum CommandAction {
    Run(CommandLine),
    Finish(SecretStoreResult<()>),
}

/// The command that stores a secret, or replaces the one there is.
pub open spec fn store_command(service: Seq<char>, account: Seq<char>, secret: Seq<u8>) -> command_line::CommandView {
    command_line::CommandView {
        program: "security"@,
        args: seq![
            "add-generic-password"@,
            "-a"@,
            account,
            "-s"@,
            service,
            "-w"@,
            text::text_of(secret),
            "-U"@,
        ],
    }
}

/// An exit code as it is shown: there is none after a signal.
pub open spec fn shown_code(code: Option<i32>) -> Seq<char> {
    match code {
        Some(code) => "Some("@ + text::signed_decimal(code as int) + ")"@,
        None => "None"@,
    }
}

/// What running the command comes to.
pub open spec fn command_outcome(ran: Reply<CommandEnd>) -> StoreOutcome {
    match ran {
        Err(e) => Err(
            reply::backend_error(
                "failed to execute security command"@,
                "Could not run security command: "@ + e@,
            ),
        ),
        Ok(end) => if end.success {
            Ok(())
        } else if end.code == Some(EXIT_USER_CANCELED) {
            Err(denied_now())
        } else {
            Err(
                reply::backend_error(
                    "failed to write secret to macOS login keychain"@,
                    "security command failed with exit code "@ + shown_code(end.code) + ": "@
                        + text::text_of(end.stderr@),
                ),
            )
        },
    }
}

/// Whether the user has refused while the command ran.
pub open spec fn command_denied(event: CommandEvent) -> bool {
    event matches CommandEvent::Ran(Ok(end)) && !end.success && end.code == Some(
        EXIT_USER_CANCELED,
    )
}

/// How a store through the `security` command goes on.
pub open spec fn command_step(
    event: CommandEvent,
    denied: bool,
    service: Seq<char>,
    account: Seq<char>,
    secret: Seq<u8>,
    action: CommandAction,
) -> bool {
    match event {
        CommandEvent::Requested => if denied {
            action matches CommandAction::Finish(result) && reply::store_view(result) == Err::<
                (),
                ErrorView,
            >(denied_before())
        } else {
            action matches CommandAction::Run(c) && c@ == store_command(service, account, secret)
        },
        CommandEvent::Ran(ran) => action matches CommandAction::Finish(result)
            && reply::store_view(result) == command_outcome(ran),
    }
}

/// One step of a store through the `security` command, which lets only this application read the
/// item. A refusal by the user is remembered.
pub fn store_secret_keychain_mac_generic_accessible(
    access: &mut KeychainAccess,
    service: &str,
    account: &str,
    secret: &[u8],
    event: CommandEvent,
) -> (action: CommandAction)
    ensures
        command_step(event, old(access).denied, service@, account@, secret@, action),
        final(access).denied == (old(access).denied || command_denied(event)),
{
    match event {
        CommandEvent::Requested => {
            if access.denied {
                return CommandAction::Finish(Err(denied_before_error()));
            }
            let secret = from_utf8_lossy(secret);
            let args: Vec<&str> = vec![
                "add-generic-password",
                "-a",
                account,
                "-s",
                service,
                "-w",
                secret.as_str(),
                "-U",
            ];
            let out = command("security", args.as_slice());
            assert(command_line::slices_view(args@) =~= seq![
                "add-generic-password"@,
                "-a"@,
                account@,
                "-s"@,
                service@,
                "-w"@,
                secret@,
                "-U"@,
            ]);
            CommandAction::Run(out)
        },
        CommandEvent::Ran(Err(e)) => {
            let message = "Could not run security command: ".to_owned().concat(e.as_str());
            CommandAction::Finish(
                Err(SecretStoreError::backend("failed to execute security command", message)),
            )
        },
        CommandEvent::Ran(Ok(end)) => {
            if end.success {
                return CommandAction::Finish(Ok(()));
            }
            let mut message = "security command failed with exit code ".to_owned();
            match end.code {
                Some(code) => {
                    if code == EXIT_USER_CANCELED {
                        access.denied = true;
                        return CommandAction::Finish(Err(denied_now_error()));
                    }
                    message.append("Some(");
                    push_signed_decimal(&mut message, code);
                    message.append(")");
                },
                None => {
                    message.append("None");
                },
            }
            message.append(": ");
            message.append(from_utf8_lossy(end.stderr.as_slice()).as_str());
            assert(message@ =~= "security command failed with exit code "@ + shown_code(end.code)
                + ": "@ + text::text_of(end.stderr@));
            CommandAction::Finish(
                Err(
                    SecretStoreError::backend(
                        "failed to write secret to macOS login keychain",
                        message,
                    ),
                ),
            )
        },
    }
}

/// One step of a store: through the `security` command.
pub fn store_secret(
    access: &mut KeychainAccess,
    service: &str,
    account: &str,
    secret: &[u8],
    event: CommandEvent,
) -> (action: CommandAction)
    ensures
        command_step(event, old(access).denied, service@, account@, secret@, action),
        final(access).denied == (old(access).denied || command_denied(event)),
{
    store_secret_keychain_mac_generic_accessible(access, service, account, secret, event)
}

/// The script that shows an alert in an application and returns the button that was clicked.
pub open spec fn script_of(app: Seq<char>) -> Seq<char> {
    "\n    var App = Application('"@ + app
        + "');\n    App.includeStandardAdditions = true;\n    return App.displayAlert($params.title, {\n        message: $params.message,\n        'as': $params.alert_type,\n        buttons: $params.buttons,\n    });\n    "@
}

/// The script that shows an alert in an application and returns the button that was clicked.
pub fn alert(app: &str) -> (script: String)
    ensures
        script@ == script_of(app@),
{
    let mut script = "\n    var App = Application('".to_owned();
    script.append(app);
    script.append(
        "');\n    App.includeStandardAdditions = true;\n    return App.displayAlert($params.title, {\n        message: $params.message,\n        'as': $params.alert_type,\n        buttons: $params.buttons,\n    });\n    ",
    );
    script
}

/// Once the user has refused, every load and every store ends at once with that error, whatever the
/// keychain is.
pub proof fn law_refusal_is_final(
    service: Seq<char>,
    account: Seq<char>,
    secret: Seq<u8>,
    keychain: LoginKeychain,
    written: StoreAction,
    run: CommandAction,
)
    requires
        store_step(StoreEvent::Requested, true, service, account, secret, written),
        command_step(CommandEvent::Requested, true, service, account, secret, run),
    ensures
        load_outcome(service, account, true, keychain) == Err::<Seq<u8>, ErrorView>(
            denied_before(),
        ),
        written matches StoreAction::Finish(result) && reply::store_view(result) == Err::<
            (),
            ErrorView,
        >(denied_before()),
        run matches CommandAction::Finish(result) && reply::store_view(result) == Err::<
            (),
            ErrorView,
        >(denied_before()),
{
}

/// A load that fails, fails with an error of the backend: an item that is not there is not reported
/// as a secret that is missing.
pub proof fn law_load_never_reports_missing(
    service: Seq<char>,
    account: Seq<char>,
    denied: bool,
    keychain: LoginKeychain,
)
    ensures
        load_outcome(service, account, denied, keychain) != Err::<Seq<u8>, ErrorView>(
            ErrorView::NotFound,
        ),
{
}

/// A load succeeds exactly where the user has not refused before, the default keychain could be had,
/// is unlocked, and gave the item; it is what the keychain gave that is loaded.
pub proof fn law_load_succeeds_by_copying(
    service: Seq<char>,
    account: Seq<char>,
    denied: bool,
    keychain: LoginKeychain,
)
    ensures
        load_outcome(service, account, denied, keychain) is Ok <==> {
            &&& !denied
            &&& keychain.opened is Ok
            &&& keychain.state.0 == 0
            &&& keychain.state.1 % 2 == 1
            &&& keychain.copied.0 == 0
            &&& keychain.copied.1 is Some
        },
        load_outcome(service, account, denied, keychain) matches Ok(secret) ==> keychain.copied.1
            == Some(secret),
{
}

/// The first thing in the way decides what a load reports: a refusal before, a keychain that could
/// not be had, whose state could not be had or that is locked, and then the status of the item.
pub proof fn law_failed_load_says_why(
    service: Seq<char>,
    account: Seq<char>,
    denied: bool,
    keychain: LoginKeychain,
)
    ensures
        denied ==> load_outcome(service, account, denied, keychain) == Err::<Seq<u8>, ErrorView>(
            ErrorView::Backend { context: "keychain access denied by user"@, source: "User previously denied keychain password prompt in this session"@ },
        ),
        !denied ==> (keychain.opened matches Err(e) ==> load_outcome(
            service,
            account,
            denied,
            keychain,
        ) == Err::<Seq<u8>, ErrorView>(
            ErrorView::Backend { context: "keychain access failed"@, source: "Failed to get default keychain: "@ + e },
        )),
        !denied && keychain.opened is Ok && keychain.state.0 != 0 ==> load_outcome(
            service,
            account,
            denied,
            keychain,
        ) == Err::<Seq<u8>, ErrorView>(
            ErrorView::Backend { context: "keychain access failed"@, source: "Failed to get keychain status: "@ + text::signed_decimal(keychain.state.0 as int) },
        ),
        !denied && keychain.opened is Ok && keychain.state.0 == 0 && keychain.state.1 % 2 == 0
            ==> load_outcome(service, account, denied, keychain) == Err::<Seq<u8>, ErrorView>(
            ErrorView::Backend { context: "keychain is locked"@, source: "The keychain is locked and cannot be accessed without user interaction"@ },
        ),
        !denied && keychain.opened is Ok && keychain.state.0 == 0 && keychain.state.1 % 2 == 1
            ==> load_outcome(service, account, denied, keychain) == copied_outcome(
            service,
            account,
            keychain.copied.0,
            keychain.copied.1,
        ),
{
}

/// What the status of the item says, by its number.
pub proof fn law_item_status_is_explained(
    service: Seq<char>,
    account: Seq<char>,
    status: i32,
    data: Option<Seq<u8>>,
)
    ensures
        status == 0 ==> (data matches Some(secret) ==> copied_outcome(service, account, status, data) == Ok::<Seq<u8>, ErrorView>(secret)),
        status == 0 && data is None ==> copied_outcome(service, account, status, data) == Err::<Seq<u8>, ErrorView>(
            ErrorView::Backend { context: "keychain read failed"@, source: "SecItemCopyMatching returned null result"@ },
        ),
        status == -128 ==> copied_outcome(service, account, status, data) == Err::<Seq<u8>, ErrorView>(
            ErrorView::Backend { context: "keychain access denied by user"@, source: "User canceled keychain password prompt"@ },
        ),
        status == -25300 ==> copied_outcome(service, account, status, data) == Err::<Seq<u8>, ErrorView>(
            ErrorView::Backend { context: "secret not found"@, source: "No keychain item found for service '"@ + service + "' and account '"@ + account
                    + "'"@ },
        ),
        status == -25293 ==> copied_outcome(service, account, status, data) == Err::<Seq<u8>, ErrorView>(
            ErrorView::Backend { context: "keychain access denied"@, source: "Application does not have permission to access this keychain item"@ },
        ),
        status == -25308 ==> copied_outcome(service, account, status, data) == Err::<Seq<u8>, ErrorView>(
            ErrorView::Backend { context: "keychain interaction required"@, source: "Keychain access requires user interaction but it was disabled"@ },
        ),
        status != 0 && status != -128 && status != -25300 && status != -25293 && status != -25308
            ==> copied_outcome(service, account, status, data) == Err::<Seq<u8>, ErrorView>(
            ErrorView::Backend { context: "keychain read failed"@, source: "SecItemCopyMatching failed with error code: "@ + text::signed_decimal(status as int) },
        ),
{
}

/// Loading asks for the item silently, by the service and the account, and only of a keychain that is
/// unlocked; once the user has refused it asks for nothing.
pub proof fn law_load_asks_silently(
    action: LoadAction,
    service: Seq<char>,
    account: Seq<char>,
    denied: bool,
    keychain: LoginKeychain,
)
    requires
        load_right(action, service, account, denied, keychain),
    ensures
        denied ==> action is Finish,
        action matches LoadAction::CopyMatching(query) ==> {
            &&& query.class@ == "genp"@
            &&& query.service@ == service
            &&& query.account@ == account
            &&& query.return_data
            &&& query.authentication_ui@ == "fail"@
            &&& keychain.opened is Ok
            &&& keychain.state.0 == 0
            &&& keychain.state.1 % 2 == 1
        },
        action is GetState ==> keychain.opened is Ok,
{
}

/// A store through the keychain's own calls writes the secret once the keychain was opened, and
/// succeeds exactly where the write did. A refusal is told apart from other errors, and it alone is
/// remembered.
pub proof fn law_store_succeeds_by_writing(
    event: StoreEvent,
    denied: bool,
    service: Seq<char>,
    account: Seq<char>,
    secret: Seq<u8>,
    action: StoreAction,
)
    requires
        store_step(event, denied, service, account, secret, action),
    ensures
        event is Requested && !denied ==> action is OpenDefault,
        event matches StoreEvent::Opened(Ok(_)) ==> (action matches StoreAction::SetPassword(new)
            && new.service@ == service && new.account@ == account && new.password@ == secret),
        event matches StoreEvent::Opened(Err(e)) ==> (action matches StoreAction::Finish(
            Err(error),
        ) && (e.code == -25300 ==> error@ is NotFound) && (e.code != -25300 ==> error@ == (
        ErrorView::Backend { context: "failed to open default macOS keychain"@, source: e.message@ }))),
        event matches StoreEvent::Written(Ok(_)) ==> (action matches StoreAction::Finish(result)
            && result is Ok),
        event matches StoreEvent::Written(Err(e)) ==> (action matches StoreAction::Finish(
            Err(error),
        ) && (e.code == -128 ==> error@ == (
        ErrorView::Backend { context: "keychain access denied by user"@, source: "User canceled keychain password prompt"@ })) && (e.code != -128 ==> error@ == (
        ErrorView::Backend { context: "failed to write secret to macOS login keychain"@, source: e.message@ }))),
        write_denied(event) <==> (event matches StoreEvent::Written(Err(e)) && e.code == -128),
{
}

/// A store through the `security` command replaces the password of the service and the account by
/// the secret, and succeeds exactly where the command did. A refusal is told apart from other
/// failures, and it alone is remembered.
pub proof fn law_command_stores_the_secret(
    event: CommandEvent,
    denied: bool,
    service: Seq<char>,
    account: Seq<char>,
    secret: Seq<u8>,
    action: CommandAction,
)
    requires
        command_step(event, denied, service, account, secret, action),
    ensures
        event is Requested && !denied ==> (action matches CommandAction::Run(line) && {
            &&& line@.program == "security"@
            &&& line@.args == seq![
                "add-generic-password"@,
                "-a"@,
                account,
                "-s"@,
                service,
                "-w"@,
                text::text_of(secret),
                "-U"@,
            ]
        }),
        event matches CommandEvent::Ran(Err(e)) ==> (action matches CommandAction::Finish(
            Err(error),
        ) && error@ == (
        ErrorView::Backend { context: "failed to execute security command"@, source: "Could not run security command: "@ + e@ })),
        event matches CommandEvent::Ran(Ok(end)) ==> {
            &&& end.success ==> (action matches CommandAction::Finish(result) && result is Ok)
            &&& !end.success && end.code == Some(128i32) ==> (
            action matches CommandAction::Finish(Err(error)) && error@ == (
            ErrorView::Backend { context: "keychain access denied by user"@, source: "User canceled keychain password prompt"@ }))
            &&& !end.success && end.code != Some(128i32) ==> (
            action matches CommandAction::Finish(Err(error)) && error@ == (
            ErrorView::Backend {
                context: "failed to write secret to macOS login keychain"@,
                source: "security command failed with exit code "@ + (match end.code {
                    Some(code) => "Some("@ + text::signed_decimal(code as int) + ")"@,
                    None => "None"@,
                }) + ": "@ + text::text_of(end.stderr@),
            }))
        },
        command_denied(event) <==> (event matches CommandEvent::Ran(Ok(end)) && !end.success
            && end.code == Some(128i32)),
{
}

/// An event is known of where it says what the keychain replied, and where all that was asked before
/// came out so that it was asked at all.
pub proof fn law_load_hears_the_keychain(
    event: LoadEvent,
    denied: bool,
    keychain: LoginKeychain,
)
    ensures
        match event {
            LoadEvent::Requested => load_agrees(event, denied, keychain) <==> (true),
            LoadEvent::Opened(r) => load_agrees(event, denied, keychain) <==> (!denied && match r {
                Ok(v) => keychain.opened == Ok::<(), Seq<char>>(v),
                Err(e) => keychain.opened == Err::<(), Seq<char>>(e@),
            }),
            LoadEvent::State { status, flags } => load_agrees(event, denied, keychain) <==> (!denied && keychain.opened is Ok && keychain.state.0 == status && keychain.state.1 == flags),
            LoadEvent::Copied { status, data } => load_agrees(event, denied, keychain) <==> ({
                &&& !denied
                &&& keychain.opened is Ok
                &&& keychain.state.0 == 0
                &&& keychain.state.1 % 2 == 1
                &&& keychain.copied.0 == status
                &&& match data {
                    Some(v) => keychain.copied.1 == Some(v@),
                    None => keychain.copied.1 is None,
                }
            }),
        },
{
}

} // verus!
