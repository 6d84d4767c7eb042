//! Apple's keychains, as far as macOS and iOS share them.
use crate::platform::reply;
use crate::platform::reply::{LoadOutcome, Reply, StoreOutcome};
use crate::secret_store::{ErrorView, SecretStoreError, SecretStoreResult};
use vstd::prelude::*;
use vstd::slice::slice_to_vec;
use vstd::string::*;

verus! {

/// `errSecItemNotFound`.
pub const ERR_SEC_ITEM_NOT_FOUND: i32 = -25300;

/// An error of the keychain.
pub struct KeychainError {
    pub code: i32,
    pub message: String,
}

/// What a call to the keychain returned.
pub type KeychainResult<T> = Result<T, KeychainError>;

/// What an error of the keychain is reported as.
pub open spec fn keychain_error(error: KeychainError, context: Seq<char>) -> ErrorView {
    if error.code == ERR_SEC_ITEM_NOT_FOUND {
        ErrorView::NotFound
    } else {
        reply::backend_error(context, error.message@)
    }
}

/// What reading from the keychain comes to.
pub open spec fn keychain_load(result: KeychainResult<Vec<u8>>, context: Seq<char>) -> LoadOutcome {
    match result {
        Ok(secret) => Ok(secret@),
        Err(e) => Err(keychain_error(e, context)),
    }
}

/// What writing to the keychain comes to.
pub open spec fn keychain_store(result: KeychainResult<()>, context: Seq<char>) -> StoreOutcome {
    match result {
        Ok(_) => Ok(()),
        Err(e) => Err(keychain_error(e, context)),
    }
}

/// Reports what the keychain returned: an item that is not there as such, any other error with
/// what was being done.
pub fn map_keychain_result<T>(result: KeychainResult<T>, context: &'static str) -> (out:
    SecretStoreResult<T>)
    ensures
        match result {
            Ok(value) => out == Ok::<T, SecretStoreError>(value),
            Err(e) => out matches Err(error) && error@ == keychain_error(e, context@),
        },
{
    match result {
        Ok(value) => Ok(value),
        Err(e) => {
            if e.code == ERR_SEC_ITEM_NOT_FOUND {
                Err(SecretStoreError::NotFound)
            } else {
                Err(SecretStoreError::backend(context, e.message))
            }
        },
    }
}

/// A password in the keychain.
pub struct PasswordQuery {
    pub service: String,
    pub account: String,
    /// Whether it is in the Data Protection Keychain.
    pub protected: bool,
}

/// Whether a query names the password of a service and an account.
pub open spec fn names_password(
    query: PasswordQuery,
    service: Seq<char>,
    account: Seq<char>,
    protected: bool,
) -> bool {
    query.service@ == service && query.account@ == account && query.protected == protected
}

/// The query that names the password of a service and an account.
fn password_query(service: &str, account: &str, protected: bool) -> (query: PasswordQuery)
    ensures
        names_password(query, service@, account@, protected),
{
    PasswordQuery { service: service.to_owned(), account: account.to_owned(), protected }
}

/// What has happened while a secret is loaded.
pub enum KeychainLoadEvent {
    Requested,
    /// The password was read.
    Read(KeychainResult<Vec<u8>>),
}

/// What is to be done next to load a secret.
pub enum KeychainLoadAction {
    Read(PasswordQuery),
    Finish(SecretStoreResult<Vec<u8>>),
}

/// How a load goes on.
pub open spec fn keychain_load_step(
    service: Seq<char>,
    account: Seq<char>,
    protected: bool,
    context: Seq<char>,
    event: KeychainLoadEvent,
    action: KeychainLoadAction,
) -> bool {
    match event {
        KeychainLoadEvent::Requested => action matches KeychainLoadAction::Read(query)
            && names_password(query, service, account, protected),
        KeychainLoadEvent::Read(read) => action matches KeychainLoadAction::Finish(result)
            && reply::load_view(result) == keychain_load(read, context),
    }
}

/// What has happened while a secret is stored.
pub enum KeychainStoreEvent {
    Requested,
    /// The access control that goes with the item was created.
    AccessControlCreated(Reply<()>),
    /// The password was written.
    Written(KeychainResult<()>),
}

/// What is to be done next to store a secret.
pub enum KeychainStoreAction {
    /// Create an access control by which the item can be used while the device is unlocked.
    CreateAccessControl,
    Write { query: PasswordQuery, secret: Vec<u8> },
    Finish(SecretStoreResult<()>),
}

/// How a store goes on: an access control goes with what is written to the Data Protection
/// Keychain, and only with that.
pub open spec fn keychain_store_step(
    service: Seq<char>,
    account: Seq<char>,
    secret: Seq<u8>,
    protected: bool,
    context: Seq<char>,
    event: KeychainStoreEvent,
    action: KeychainStoreAction,
) -> bool {
    match event {
        KeychainStoreEvent::Requested => if protected {
            action is CreateAccessControl
        } else {
            writes_password(action, service, account, secret, protected)
        },
        KeychainStoreEvent::AccessControlCreated(created) => match reply::plain_reply(created) {
            Ok(_) => writes_password(action, service, account, secret, protected),
            Err(e) => action matches KeychainStoreAction::Finish(result) && reply::store_view(result)
                == Err::<(), ErrorView>(
                reply::backend_error("failed to create Apple keychain access control"@, e),
            ),
        },
        KeychainStoreEvent::Written(written) => action matches KeychainStoreAction::Finish(result)
            && reply::store_view(result) == keychain_store(written, context),
    }
}

/// Whether an action writes a secret as the password of a service and an account.
pub open spec fn writes_password(
    action: KeychainStoreAction,
    service: Seq<char>,
    account: Seq<char>,
    secret: Seq<u8>,
    protected: bool,
) -> bool {
    action matches KeychainStoreAction::Write { query, secret: bytes } && names_password(
        query,
        service,
        account,
        protected,
    ) && bytes@ == secret
}

/// One step of a load of a generic password.
pub fn load_secret_keychain_generic(service: &str, account: &str, event: KeychainLoadEvent) -> (action:
    KeychainLoadAction)
    ensures
        keychain_load_step(
            service@,
            account@,
            false,
            "failed to read secret from Apple generic keychain"@,
            event,
            action,
        ),
{
    match event {
        KeychainLoadEvent::Requested => KeychainLoadAction::Read(
            password_query(service, account, false),
        ),
        KeychainLoadEvent::Read(read) => KeychainLoadAction::Finish(
            map_keychain_result(read, "failed to read secret from Apple generic keychain"),
        ),
    }
}

/// One step of a store of a generic password.
pub fn store_secret_keychain_generic(
    service: &str,
    account: &str,
    secret: &[u8],
    event: KeychainStoreEvent,
) -> (action: KeychainStoreAction)
    requires
        !(event is AccessControlCreated),
    ensures
        keychain_store_step(
            service@,
            account@,
            secret@,
            false,
            "failed to write secret to Apple generic keychain"@,
            event,
            action,
        ),
{
    match event {
        KeychainStoreEvent::Requested
        | KeychainStoreEvent::AccessControlCreated(_) => KeychainStoreAction::Write {
            query: password_query(service, account, false),
            secret: slice_to_vec(secret),
        },
        KeychainStoreEvent::Written(written) => KeychainStoreAction::Finish(
            map_keychain_result(written, "failed to write secret to Apple generic keychain"),
        ),
    }
}

/// One step of a load from the Data Protection Keychain.
pub fn load_secret_keychain_protected(service: &str, account: &str, event: KeychainLoadEvent) -> (action:
    KeychainLoadAction)
    ensures
        keychain_load_step(
            service@,
            account@,
            true,
            "failed to read secret from Apple protected keychain"@,
            event,
            action,
        ),
{
    match event {
        KeychainLoadEvent::Requested => KeychainLoadAction::Read(
            password_query(service, account, true),
        ),
        KeychainLoadEvent::Read(read) => KeychainLoadAction::Finish(
            map_keychain_result(read, "failed to read secret from Apple protected keychain"),
        ),
    }
}

/// One step of a store in the Data Protection Keychain.
pub fn store_secret_keychain_protected(
    service: &str,
    account: &str,
    secret: &[u8],
    event: KeychainStoreEvent,
) -> (action: KeychainStoreAction)
    ensures
        keychain_store_step(
            service@,
            account@,
            secret@,
            true,
            "failed to write secret to Apple protected keychain"@,
            event,
            action,
        ),
{
    match event {
        KeychainStoreEvent::Requested => KeychainStoreAction::CreateAccessControl,
        KeychainStoreEvent::AccessControlCreated(Ok(_)) => KeychainStoreAction::Write {
            query: password_query(service, account, true),
            secret: slice_to_vec(secret),
        },
        KeychainStoreEvent::AccessControlCreated(Err(e)) => KeychainStoreAction::Finish(
            Err(SecretStoreError::backend("failed to create Apple keychain access control", e)),
        ),
        KeychainStoreEvent::Written(written) => KeychainStoreAction::Finish(
            map_keychain_result(written, "failed to write secret to Apple protected keychain"),
        ),
    }
}

/// A secret is reported missing exactly where the keychain said that it has no such item.
pub proof fn law_not_found_means_no_item(error: KeychainError, context: Seq<char>)
    ensures
        keychain_error(error, context) is NotFound <==> error.code == ERR_SEC_ITEM_NOT_FOUND,
{
}

/// Of what the keychain returned, a value stays what it is; the one code for an item that is not
/// there is reported as a missing secret, and every other error in the keychain's own words.
pub proof fn law_keychain_results_are_told_apart(
    secret: Vec<u8>,
    error: KeychainError,
    context: Seq<char>,
)
    ensures
        keychain_load(Ok(secret), context) == Ok::<Seq<u8>, ErrorView>(secret@),
        keychain_store(Ok(()), context) == Ok::<(), ErrorView>(()),
        error.code == -25300 ==> {
            &&& keychain_load(Err(error), context) == Err::<Seq<u8>, ErrorView>(
                ErrorView::NotFound,
            )
            &&& keychain_store(Err(error), context) == Err::<(), ErrorView>(ErrorView::NotFound)
        },
        error.code != -25300 ==> {
            &&& keychain_load(Err(error), context) == Err::<Seq<u8>, ErrorView>(
                ErrorView::Backend { context, source: error.message@ },
            )
            &&& keychain_store(Err(error), context) == Err::<(), ErrorView>(
                ErrorView::Backend { context, source: error.message@ },
            )
        },
{
}

/// A secret is read and written as the password of the service and the account, in the keychain that
/// was asked for. Into the Data Protection Keychain it is written only once its access control was
/// created, and elsewhere without one.
pub proof fn law_passwords_go_by_service_and_account(
    service: Seq<char>,
    account: Seq<char>,
    secret: Seq<u8>,
    protected: bool,
    context: Seq<char>,
    load: KeychainLoadAction,
    store: KeychainStoreAction,
    event: KeychainStoreEvent,
)
    requires
        keychain_load_step(
            service,
            account,
            protected,
            context,
            KeychainLoadEvent::Requested,
            load,
        ),
        keychain_store_step(service, account, secret, protected, context, event, store),
    ensures
        load matches KeychainLoadAction::Read(query) && query.service@ == service && query.account@
            == account && query.protected == protected,
        event is Requested && protected ==> store is CreateAccessControl,
        event is Requested && !protected ==> (
        store matches KeychainStoreAction::Write { query, secret: written } && {
            &&& query.service@ == service
            &&& query.account@ == account
            &&& query.protected == protected
            &&& written@ == secret
        }),
        event matches KeychainStoreEvent::AccessControlCreated(Ok(_)) ==> (
        store matches KeychainStoreAction::Write { query, secret: written } && {
            &&& query.service@ == service
            &&& query.account@ == account
            &&& query.protected == protected
            &&& written@ == secret
        }),
        event matches KeychainStoreEvent::AccessControlCreated(Err(e)) ==> (
        store matches KeychainStoreAction::Finish(Err(error)) && error@ == (
        ErrorView::Backend { context: "failed to create Apple keychain access control"@, source: e@ })),
        event matches KeychainStoreEvent::Written(Ok(_)) ==> (
        store matches KeychainStoreAction::Finish(result) && result is Ok),
        event matches KeychainStoreEvent::Written(Err(_)) ==> (
        store matches KeychainStoreAction::Finish(result) && result is Err),
{
}

} // verus!
