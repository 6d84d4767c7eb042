//! Secrets kept by the operating system, and the user data that is encrypted under them.
use crate::password_security::CryptError;
use crate::secretbox::{gen_nonce, open, randombytes, seal, KEYBYTES, MACBYTES, NONCEBYTES};
use crate::text;
use crate::text::{bytes_start_with, push_decimal};
use vstd::prelude::*;
use vstd::string::*;

verus! {

/// The length of the master key.
pub const MASTER_KEY_LEN: usize = 32;

/// The account under which the master key is kept.
pub const ACCOUNT_NAME: &'static str = "master_key";

pub type SecretStoreResult<T> = Result<T, SecretStoreError>;

/// Why a secret store did not do what was asked.
#[derive(Debug, PartialEq, Eq)]
pub enum SecretStoreError {
    NotFound,
    InvalidLength { expected: usize, actual: usize },
    Backend { context: &'static str, source: String },
}

/// What a `SecretStoreError` says.
pub enum ErrorView {
    NotFound,
    InvalidLength { expected: nat, actual: nat },
    Backend { context: Seq<char>, source: Seq<char> },
}

impl View for SecretStoreError {
    type V = ErrorView;

    open spec fn view(&self) -> ErrorView {
        match *self {
            SecretStoreError::NotFound => ErrorView::NotFound,
            SecretStoreError::InvalidLength { expected, actual } => ErrorView::InvalidLength {
                expected: expected as nat,
                actual: actual as nat,
            },
            SecretStoreError::Backend { context, source } => ErrorView::Backend {
                context: context@,
                source: source@,
            },
        }
    }
}

/// The message of an error.
pub open spec fn error_message(error: ErrorView) -> Seq<char> {
    match error {
        ErrorView::NotFound => "secret not found"@,
        ErrorView::InvalidLength { expected, actual } => "invalid secret length: expected "@
            + text::decimal(expected) + ", got "@ + text::decimal(actual),
        ErrorView::Backend { context, source } => context + ": "@ + source,
    }
}

impl SecretStoreError {
    /// A failure of the backend, with what was being done and the backend's own words.
    pub fn backend(context: &'static str, source: String) -> (error: Self)
        ensures
            error@ == (ErrorView::Backend { context: context@, source: source@ }),
    {
        Self::Backend { context, source }
    }

    /// A failure of the backend, with what was being done and a message.
    pub fn backend_message(context: &'static str, message: &str) -> (error: Self)
        ensures
            error@ == (ErrorView::Backend { context: context@, source: message@ }),
    {
        Self::Backend { context, source: message.to_owned() }
    }

    /// The message that a user is shown.
    pub fn message(&self) -> (message: String)
        ensures
            message@ == error_message(self@),
    {
        match self {
            SecretStoreError::NotFound => "secret not found".to_owned(),
            SecretStoreError::InvalidLength { expected, actual } => {
                let mut out = "invalid secret length: expected ".to_owned();
                push_decimal(&mut out, *expected);
                out.append(", got ");
                push_decimal(&mut out, *actual);
                out
            },
            SecretStoreError::Backend { context, source } => {
                let context: &'static str = *context;
                let mut out = context.to_owned();
                out.append(": ");
                out.append(source.as_str());
                out
            },
        }
    }
}

/// The bytes with which encrypted user data begins.
pub open spec fn magic_header() -> Seq<u8> {
    seq![
        0xbe,
        0xb6,
        0x88,
        0x39,
        0x41,
        0x15,
        0x4b,
        0xe7,
        0x8d,
        0x94,
        0x10,
        0x23,
        0x59,
        0x8f,
        0x8b,
        0x24,
    ]
}

/// The bytes with which encrypted user data begins.
pub fn user_data_magic_header() -> (header: Vec<u8>)
    ensures
        header@ == magic_header(),
{
    vec![
        0xbe,
        0xb6,
        0x88,
        0x39,
        0x41,
        0x15,
        0x4b,
        0xe7,
        0x8d,
        0x94,
        0x10,
        0x23,
        0x59,
        0x8f,
        0x8b,
        0x24,
    ]
}

/// Whether the payload begins with the header.
pub fn user_data_has_magic_header(payload: &[u8]) -> (found: bool)
    ensures
        found == magic_header().is_prefix_of(payload@),
{
    let header = user_data_magic_header();
    bytes_start_with(payload, header.as_slice())
}

/// Puts the header before the payload.
pub fn user_data_add_magic_header(payload: Vec<u8>) -> (out: Vec<u8>)
    ensures
        out@ == magic_header() + payload@,
{
    let mut payload = payload;
    let mut out = user_data_magic_header();
    out.append(&mut payload);
    out
}

/// The payload without its header and `true`, or the payload as it is and `false`.
pub fn user_data_strip_magic_header(payload: &[u8]) -> (out: (&[u8], bool))
    ensures
        out.1 == magic_header().is_prefix_of(payload@),
        out.0@ == (if out.1 {
            payload@.skip(magic_header().len() as int)
        } else {
            payload@
        }),
{
    if user_data_has_magic_header(payload) {
        (vstd::slice::slice_subrange(payload, 16, payload.len()), true)
    } else {
        (payload, false)
    }
}

/// Whether the payload is encrypted user data, by its header.
pub fn is_encrypted_user_data(payload: &[u8]) -> (encrypted: bool)
    ensures
        encrypted == magic_header().is_prefix_of(payload@),
{
    user_data_has_magic_header(payload)
}

/// Stripping the header undoes adding it.
pub proof fn law_strip_inverts_add(payload: Seq<u8>)
    ensures
        magic_header().is_prefix_of(magic_header() + payload),
        (magic_header() + payload).skip(magic_header().len() as int) == payload,
{
    assert((magic_header() + payload).take(magic_header().len() as int) =~= magic_header());
    assert((magic_header() + payload).skip(magic_header().len() as int) =~= payload);
}

/// A secret of the length that was expected; one of another length is an error.
pub fn with_expected_len(
    secret: SecretStoreResult<Vec<u8>>,
    expected_len: usize,
) -> (out: SecretStoreResult<Vec<u8>>)
    ensures
        out == expected_secret(secret, expected_len),
{
    match secret {
        Ok(secret) => {
            if secret.len() == expected_len {
                Ok(secret)
            } else {
                Err(
                    SecretStoreError::InvalidLength {
                        expected: expected_len,
                        actual: secret.len(),
                    },
                )
            }
        },
        Err(e) => Err(e),
    }
}

/// A secret of the length that was expected; one of another length is an error.
pub open spec fn expected_secret(
    secret: SecretStoreResult<Vec<u8>>,
    expected_len: usize,
) -> SecretStoreResult<Vec<u8>> {
    match secret {
        Ok(s) => if s.len() == expected_len {
            Ok(s)
        } else {
            Err(SecretStoreError::InvalidLength { expected: expected_len, actual: s.len() })
        },
        Err(e) => Err(e),
    }
}

/// What is known of the master key: the key once it has been loaded or stored, and a fresh key
/// while the store is asked to keep it.
pub struct MasterKey {
    pub cached: Option<Vec<u8>>,
    pub pending: Option<Vec<u8>>,
}

/// What has happened.
pub enum MasterKeyEvent {
    /// Someone needs the key.
    Requested,
    /// The platform's secret store was asked for the key.
    Loaded(SecretStoreResult<Vec<u8>>),
    /// The platform's secret store was asked to keep the key.
    Stored(SecretStoreResult<()>),
}

/// What is to be done next.
pub enum MasterKeyAction {
    /// Load the key of this account from the platform's secret store.
    Load { account: &'static str },
    /// Have the platform's secret store keep this key under this account.
    Store { account: &'static str, key: Vec<u8> },
    /// Answer the request.
    Finish(SecretStoreResult<Vec<u8>>),
}

impl MasterKey {
    /// Every key that is held has the length of a master key.
    pub open spec fn wf(self) -> bool {
        &&& self.cached matches Some(key) ==> key@.len() == MASTER_KEY_LEN
        &&& self.pending matches Some(key) ==> key@.len() == MASTER_KEY_LEN
    }

    /// Whether an event can come now: the store is asked only while there is no key, and to keep
    /// a key only once there is a fresh one.
    pub open spec fn expects(self, event: MasterKeyEvent) -> bool {
        match event {
            MasterKeyEvent::Requested => self.pending is None,
            MasterKeyEvent::Loaded(_) => self.cached is None && self.pending is None,
            MasterKeyEvent::Stored(_) => self.cached is None && self.pending is Some,
        }
    }

    /// No key yet.
    pub fn new() -> (state: Self)
        ensures
            state.wf(),
            state.cached is None,
            state.pending is None,
    {
        MasterKey { cached: None, pending: None }
    }
}

/// Whether an action is to load the key, under the account of the master key.
pub open spec fn loads(action: MasterKeyAction) -> bool {
    action matches MasterKeyAction::Load { account } && account@ == "master_key"@
}

/// How the state and the action follow from a fresh key: it is to be stored under the account of
/// the master key, and it waits for that.
pub open spec fn fresh_key_stored(
    fresh: Seq<u8>,
    after: MasterKey,
    action: MasterKeyAction,
) -> bool {
    &&& after.cached is None
    &&& text::maybe_bytes(after.pending) == Some(fresh)
    &&& action matches MasterKeyAction::Store { account, key }
    &&& account@ == "master_key"@
    &&& key@ == fresh
}

/// How the state and the action follow from the state before and the event.
pub open spec fn master_key_step(
    before: MasterKey,
    event: MasterKeyEvent,
    after: MasterKey,
    action: MasterKeyAction,
) -> bool {
    match event {
        MasterKeyEvent::Requested => {
            &&& after == before
            &&& match before.cached {
                Some(key) => {
                    &&& action matches MasterKeyAction::Finish(Ok(k))
                    &&& k@ == key@
                },
                None => loads(action),
            }
        },
        MasterKeyEvent::Loaded(loaded) => match expected_secret(loaded, MASTER_KEY_LEN) {
            Ok(key) => {
                &&& after.pending is None
                &&& text::maybe_bytes(after.cached) == Some(key@)
                &&& action == MasterKeyAction::Finish(Ok(key))
            },
            Err(SecretStoreError::NotFound) => {
                &&& action matches MasterKeyAction::Store { account, key }
                &&& key@.len() == MASTER_KEY_LEN
                &&& fresh_key_stored(key@, after, action)
            },
            Err(e) => {
                &&& after == before
                &&& action == MasterKeyAction::Finish(Err(e))
            },
        },
        MasterKeyEvent::Stored(Ok(_)) => {
            &&& after.pending is None
            &&& text::maybe_bytes(after.cached) == text::maybe_bytes(before.pending)
            &&& action matches MasterKeyAction::Finish(Ok(key))
            &&& Some(key@) == text::maybe_bytes(before.pending)
        },
        MasterKeyEvent::Stored(Err(e)) => {
            &&& after.pending is None
            &&& after.cached is None
            &&& action == MasterKeyAction::Finish(Err(e))
        },
    }
}

/// The step that a fresh key takes, once it is drawn: it is to be stored, and it waits for that.
pub fn store_fresh_master_key(state: &mut MasterKey, fresh: Vec<u8>) -> (action: MasterKeyAction)
    requires
        old(state).cached is None,
        old(state).pending is None,
        fresh@.len() == MASTER_KEY_LEN,
    ensures
        final(state).wf(),
        fresh_key_stored(fresh@, *final(state), action),
{
    state.pending = Some(vstd::slice::slice_to_vec(fresh.as_slice()));
    MasterKeyAction::Store { account: ACCOUNT_NAME, key: fresh }
}

/// One step towards the master key. The key is loaded where the store has it; where the store has
/// none, a fresh one is drawn at random and stored. A key is kept from then on, an error is not.
pub fn get_or_create_master_key(state: &mut MasterKey, event: MasterKeyEvent) -> (action:
    MasterKeyAction)
    requires
        old(state).wf(),
        old(state).expects(event),
    ensures
        final(state).wf(),
        master_key_step(*old(state), event, *final(state), action),
{
    match event {
        MasterKeyEvent::Requested => match &state.cached {
            Some(key) => MasterKeyAction::Finish(Ok(vstd::slice::slice_to_vec(key.as_slice()))),
            None => MasterKeyAction::Load { account: ACCOUNT_NAME },
        },
        MasterKeyEvent::Loaded(loaded) => match with_expected_len(loaded, MASTER_KEY_LEN) {
            Ok(key) => {
                state.cached = Some(vstd::slice::slice_to_vec(key.as_slice()));
                MasterKeyAction::Finish(Ok(key))
            },
            Err(SecretStoreError::NotFound) => {
                let fresh = randombytes(MASTER_KEY_LEN);
                store_fresh_master_key(state, fresh)
            },
            Err(e) => MasterKeyAction::Finish(Err(e)),
        },
        MasterKeyEvent::Stored(stored) => {
            let pending = state.pending.take();
            match (stored, pending) {
                (Ok(_), Some(key)) => {
                    state.cached = Some(vstd::slice::slice_to_vec(key.as_slice()));
                    MasterKeyAction::Finish(Ok(key))
                },
                (Ok(_), None) => MasterKeyAction::Load { account: ACCOUNT_NAME },
                (Err(e), _) => MasterKeyAction::Finish(Err(e)),
            }
        },
    }
}

/// Once a request has been answered with a key, every later request is answered with that key.
pub proof fn law_master_key_is_kept(
    before: MasterKey,
    event: MasterKeyEvent,
    after: MasterKey,
    key: Vec<u8>,
    last: MasterKey,
    answer: MasterKeyAction,
)
    requires
        before.wf(),
        before.expects(event),
        master_key_step(before, event, after, MasterKeyAction::Finish(Ok(key))),
        master_key_step(after, MasterKeyEvent::Requested, last, answer),
    ensures
        last == after,
        answer matches MasterKeyAction::Finish(Ok(k)) && k@ == key@,
        key@.len() == MASTER_KEY_LEN,
{
}

/// A request that failed leaves nothing behind: the next one asks the store again.
pub proof fn law_master_key_errors_are_not_kept(
    before: MasterKey,
    event: MasterKeyEvent,
    after: MasterKey,
    error: SecretStoreError,
    last: MasterKey,
    answer: MasterKeyAction,
)
    requires
        before.wf(),
        before.expects(event),
        master_key_step(before, event, after, MasterKeyAction::Finish(Err(error))),
        master_key_step(after, MasterKeyEvent::Requested, last, answer),
    ensures
        after.expects(MasterKeyEvent::Requested),
        loads(answer),
{
}

/// A fresh key is handed out only after the store has kept it, and it is the key that was stored.
pub proof fn law_master_key_is_stored_first(
    before: MasterKey,
    loaded: SecretStoreResult<Vec<u8>>,
    between: MasterKey,
    account: &'static str,
    fresh: Vec<u8>,
    after: MasterKey,
    answer: MasterKeyAction,
)
    requires
        before.wf(),
        before.expects(MasterKeyEvent::Loaded(loaded)),
        master_key_step(
            before,
            MasterKeyEvent::Loaded(loaded),
            between,
            MasterKeyAction::Store { account, key: fresh },
        ),
        master_key_step(between, MasterKeyEvent::Stored(Ok(())), after, answer),
    ensures
        loaded == Err::<Vec<u8>, SecretStoreError>(SecretStoreError::NotFound),
        account@ == "master_key"@,
        answer matches MasterKeyAction::Finish(Ok(key)) && key@ == fresh@,
        text::maybe_bytes(after.cached) == Some(fresh@),
{
}

/// What encrypting user data gives: the nonce, then the sealed data.
pub open spec fn raw_encrypted(
    data: Seq<u8>,
    master_key: Option<Seq<u8>>,
    nonce: Seq<u8>,
) -> Result<Seq<u8>, CryptError> {
    match master_key {
        None => Err(CryptError::EncryptionFailed),
        Some(key) => if key.len() != KEYBYTES {
            Err(CryptError::InvalidData)
        } else {
            Ok(nonce + crate::secretbox::sealed(data, nonce, key))
        },
    }
}

/// What decrypting user data gives.
pub open spec fn raw_decrypted(data: Seq<u8>, master_key: Option<Seq<u8>>) -> Result<
    Seq<u8>,
    CryptError,
> {
    if data.len() < NONCEBYTES + MACBYTES {
        Err(CryptError::InvalidData)
    } else {
        match master_key {
            None => Err(CryptError::DecryptionFailed),
            Some(key) => if key.len() != KEYBYTES {
                Err(CryptError::InvalidData)
            } else {
                match crate::secretbox::opened(
                    data.skip(NONCEBYTES as int),
                    data.take(NONCEBYTES as int),
                    key,
                ) {
                    Some(message) => Ok(message),
                    None => Err(CryptError::DecryptionFailed),
                }
            },
        }
    }
}

/// Encrypts user data under the master key and a given nonce.
pub fn secretbox_encrypt_user_data_with_nonce(
    data: &[u8],
    master_key: &Option<Vec<u8>>,
    nonce: &[u8],
) -> (out: Result<Vec<u8>, CryptError>)
    requires
        nonce@.len() == NONCEBYTES,
        data@.len() + NONCEBYTES + MACBYTES <= isize::MAX,
    ensures
        text::result_bytes(out) == raw_encrypted(data@, text::maybe_bytes(*master_key), nonce@),
        out matches Ok(o) ==> o@.len() == data@.len() + NONCEBYTES + MACBYTES,
        out matches Ok(o) ==> raw_decrypted(o@, text::maybe_bytes(*master_key)) == Ok::<
            Seq<u8>,
            CryptError,
        >(data@),
{
    match master_key {
        None => Err(CryptError::EncryptionFailed),
        Some(key) => {
            if key.len() != KEYBYTES {
                return Err(CryptError::InvalidData);
            }
            let mut out = vstd::slice::slice_to_vec(nonce);
            let mut sealed = seal(data, nonce, key.as_slice());
            let ghost tail = sealed@;
            out.append(&mut sealed);
            assert(out@.skip(NONCEBYTES as int) =~= tail);
            assert(out@.take(NONCEBYTES as int) =~= nonce@);
            Ok(out)
        },
    }
}

/// Encrypts user data under the master key and a nonce drawn at random. The master key is `None`
/// where it could not be had.
pub fn secretbox_encrypt_user_data_raw(data: &[u8], master_key: &Option<Vec<u8>>) -> (out: Result<
    Vec<u8>,
    CryptError,
>)
    requires
        data@.len() + NONCEBYTES + MACBYTES <= isize::MAX,
    ensures
        exists|nonce: Seq<u8>|
            nonce.len() == NONCEBYTES && text::result_bytes(out) == #[trigger] raw_encrypted(
                data@,
                text::maybe_bytes(*master_key),
                nonce,
            ),
        out matches Ok(o) ==> raw_decrypted(o@, text::maybe_bytes(*master_key)) == Ok::<
            Seq<u8>,
            CryptError,
        >(data@),
{
    let nonce = gen_nonce();
    secretbox_encrypt_user_data_with_nonce(data, master_key, nonce.as_slice())
}

/// Decrypts user data under the master key, which is `None` where it could not be had.
pub fn secretbox_decrypt_user_data_raw(data: &[u8], master_key: &Option<Vec<u8>>) -> (out: Result<
    Vec<u8>,
    CryptError,
>)
    ensures
        text::result_bytes(out) == raw_decrypted(data@, text::maybe_bytes(*master_key)),
        out matches Ok(o) ==> o@.len() + NONCEBYTES + MACBYTES == data@.len(),
{
    if data.len() < secretbox_user_data_min_len() {
        return Err(CryptError::InvalidData);
    }
    match master_key {
        None => Err(CryptError::DecryptionFailed),
        Some(key) => {
            if key.len() != KEYBYTES {
                return Err(CryptError::InvalidData);
            }
            let nonce = vstd::slice::slice_subrange(data, 0, NONCEBYTES);
            let sealed = vstd::slice::slice_subrange(data, NONCEBYTES, data.len());
            assert(nonce@ =~= data@.take(NONCEBYTES as int));
            assert(sealed@ =~= data@.skip(NONCEBYTES as int));
            match open(sealed, nonce, key.as_slice()) {
                Some(message) => Ok(message),
                None => Err(CryptError::DecryptionFailed),
            }
        },
    }
}

/// The length below which no encrypted user data can be.
pub fn secretbox_user_data_min_len() -> (n: usize)
    ensures
        n == NONCEBYTES + MACBYTES,
{
    NONCEBYTES + MACBYTES
}

/// A key that the store has is handed out and kept if it has thirty-two bytes; one of another length
/// is an error that says so. Only where the store says that it has none, a fresh one is made, which
/// has thirty-two bytes too; any other error is handed on, and nothing is made or kept.
pub proof fn law_loaded_key_decides(
    before: MasterKey,
    loaded: SecretStoreResult<Vec<u8>>,
    after: MasterKey,
    action: MasterKeyAction,
)
    requires
        before.wf(),
        before.expects(MasterKeyEvent::Loaded(loaded)),
        master_key_step(before, MasterKeyEvent::Loaded(loaded), after, action),
    ensures
        match loaded {
            Ok(key) => if key@.len() == 32 {
                &&& action == MasterKeyAction::Finish(Ok(key))
                &&& after.cached matches Some(kept) && kept@ == key@
                &&& after.pending is None
            } else {
                &&& action matches MasterKeyAction::Finish(
                    Err(SecretStoreError::InvalidLength { expected, actual }),
                )
                &&& expected == 32 && actual == key@.len()
                &&& after == before
            },
            Err(SecretStoreError::NotFound) => {
                &&& action matches MasterKeyAction::Store { account, key }
                &&& account@ == "master_key"@
                &&& key@.len() == 32
                &&& after.pending matches Some(waiting) && waiting@ == key@
                &&& after.cached is None
            },
            Err(e) => {
                &&& action == MasterKeyAction::Finish(Err(e))
                &&& after == before
            },
        },
{
}

/// A request is answered with the key that is kept; without one, the store is asked for the account
/// of the master key. A fresh key is handed out and kept once the store has taken it; where the
/// store has not, its error is handed on and the key is forgotten.
pub proof fn law_request_and_store_decide(
    before: MasterKey,
    event: MasterKeyEvent,
    after: MasterKey,
    action: MasterKeyAction,
)
    requires
        before.wf(),
        before.expects(event),
        master_key_step(before, event, after, action),
    ensures
        match event {
            MasterKeyEvent::Requested => {
                &&& after == before
                &&& before.cached matches Some(key) ==> (action matches MasterKeyAction::Finish(
                    Ok(k),
                ) && k@ == key@)
                &&& before.cached is None ==> (action matches MasterKeyAction::Load { account }
                    && account@ == "master_key"@)
            },
            MasterKeyEvent::Stored(Ok(_)) => {
                &&& action matches MasterKeyAction::Finish(Ok(k)) && k@ == before.pending->0@
                &&& after.cached matches Some(kept) && kept@ == before.pending->0@
                &&& after.pending is None
            },
            MasterKeyEvent::Stored(Err(e)) => {
                &&& action == MasterKeyAction::Finish(Err(e))
                &&& after.cached is None
                &&& after.pending is None
            },
            MasterKeyEvent::Loaded(_) => true,
        },
{
}

/// What a user is shown of an error.
pub proof fn law_messages_say_what_went_wrong(
    expected: nat,
    actual: nat,
    context: Seq<char>,
    source: Seq<char>,
)
    ensures
        error_message(ErrorView::NotFound) == "secret not found"@,
        error_message(ErrorView::InvalidLength { expected, actual })
            == "invalid secret length: expected "@ + text::decimal(expected) + ", got "@
            + text::decimal(actual),
        error_message(ErrorView::Backend { context, source }) == context + ": "@ + source,
{
}

/// Data is encrypted under a master key of thirty-two bytes to the nonce and the sealed data, and
/// decrypted by the first twenty-four bytes as the nonce. A missing key, a key of another length,
/// data that is too short and data that does not open are told apart.
pub proof fn law_master_key_seals_and_opens(
    data: Seq<u8>,
    master_key: Option<Seq<u8>>,
    nonce: Seq<u8>,
)
    ensures
        master_key is None ==> raw_encrypted(data, master_key, nonce) == Err::<
            Seq<u8>,
            CryptError,
        >(CryptError::EncryptionFailed),
        master_key matches Some(key) ==> {
            &&& key.len() == 32 ==> raw_encrypted(data, master_key, nonce) == Ok::<
                Seq<u8>,
                CryptError,
            >(nonce + crate::secretbox::sealed(data, nonce, key))
            &&& key.len() != 32 ==> raw_encrypted(data, master_key, nonce) == Err::<
                Seq<u8>,
                CryptError,
            >(CryptError::InvalidData)
        },
        data.len() < 40 ==> raw_decrypted(data, master_key) == Err::<Seq<u8>, CryptError>(
            CryptError::InvalidData,
        ),
        data.len() >= 40 && master_key is None ==> raw_decrypted(data, master_key) == Err::<
            Seq<u8>,
            CryptError,
        >(CryptError::DecryptionFailed),
        data.len() >= 40 ==> (master_key matches Some(key) ==> {
            &&& key.len() != 32 ==> raw_decrypted(data, master_key) == Err::<Seq<u8>, CryptError>(
                CryptError::InvalidData,
            )
            &&& key.len() == 32 ==> raw_decrypted(data, master_key) == (
            match crate::secretbox::opened(data.subrange(24, data.len() as int), data.subrange(0, 24), key) {
                Some(message) => Ok::<Seq<u8>, CryptError>(message),
                None => Err(CryptError::DecryptionFailed),
            })
        }),
{
    if data.len() >= 40 {
        assert(data.skip(24) =~= data.subrange(24, data.len() as int));
        assert(data.take(24) =~= data.subrange(0, 24));
    }
}

/// It is the fresh key itself that the store is asked to keep, under the account of the master key,
/// and that waits for it; it is not used before.
pub proof fn law_fresh_key_is_stored_as_it_is(
    fresh: Seq<u8>,
    after: MasterKey,
    action: MasterKeyAction,
)
    requires
        fresh_key_stored(fresh, after, action),
    ensures
        action matches MasterKeyAction::Store { account, key } && account@ == "master_key"@ && key@
            == fresh,
        after.pending matches Some(waiting) && waiting@ == fresh,
        after.cached is None,
{
}

} // verus!
