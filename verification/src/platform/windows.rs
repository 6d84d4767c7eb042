//! Windows: the Credential Manager, the Data Protection API and the processor's load.
use crate::platform::reply;
use crate::platform::reply::{LoadOutcome, Reply};
use crate::secret_store::{with_expected_len, ErrorView, SecretStoreError, SecretStoreResult};
use crate::text;
use crate::text::to_chars;
use std::collections::VecDeque;
use vstd::prelude::*;
use vstd::slice::slice_to_vec;
use vstd::string::*;

verus! {

/// `CRED_TYPE_GENERIC`.
pub const CRED_TYPE_GENERIC: u32 = 1;

/// `CRED_PERSIST_LOCAL_MACHINE`.
pub const CRED_PERSIST_LOCAL_MACHINE: u32 = 2;

/// The name that a secret has in the Credential Manager.
pub open spec fn target_name(service: Seq<char>, account: Seq<char>) -> Seq<char> {
    service + ":"@ + account
}

/// The name that a secret has in the Credential Manager.
pub fn credential_target_name(service: &str, account: &str) -> (name: String)
    ensures
        name@ == target_name(service@, account@),
{
    service.to_owned().concat(":").concat(account)
}

/// The UTF-16 code units of a character.
pub open spec fn utf16_units(c: char) -> Seq<u16> {
    let n = c as u32;
    if n < 0x1_0000 {
        seq![n as u16]
    } else {
        seq![
            (0xD800 + (n - 0x1_0000) / 0x400) as u16,
            (0xDC00 + (n - 0x1_0000) % 0x400) as u16,
        ]
    }
}

/// The UTF-16 code units of a text.
pub open spec fn utf16(s: Seq<char>) -> Seq<u16>
    decreases s.len(),
{
    if s.len() == 0 {
        seq![]
    } else {
        utf16(s.drop_last()) + utf16_units(s.last())
    }
}

/// The UTF-16 code units of a text, with a zero at the end.
pub fn to_wide_null(s: &str) -> (units: Vec<u16>)
    ensures
        units@ == utf16(s@).push(0),
{
    let chars = to_chars(s);
    let mut units: Vec<u16> = Vec::new();
    let mut i: usize = 0;
    while i < chars.len()
        invariant
            i <= chars@.len(),
            units@ == utf16(chars@.take(i as int)),
        decreases chars@.len() - i,
    {
        let ghost before = units@;
        let n: u32 = chars[i] as u32;
        if n < 0x1_0000 {
            units.push(n as u16);
        } else {
            let rest: u32 = n - 0x1_0000;
            units.push((0xD800 + rest / 0x400) as u16);
            units.push((0xDC00 + rest % 0x400) as u16);
        }
        i += 1;
        assert(chars@.take(i as int).drop_last() =~= chars@.take(i - 1));
        assert(units@ =~= before + utf16_units(chars@[i - 1]));
    }
    assert(chars@.take(i as int) =~= chars@);
    units.push(0);
    units
}

/// What reading from the Credential Manager gave.
pub enum CredentialRead {
    Failed { not_found: bool, message: String },
    /// Success, but without a credential.
    Null,
    /// A credential, whose secret may be absent.
    Found(Option<Vec<u8>>),
}

/// What reading from the Credential Manager comes to.
pub open spec fn credential_outcome(read: CredentialRead) -> LoadOutcome {
    match read {
        CredentialRead::Failed { not_found, message } => if not_found {
            Err(ErrorView::NotFound)
        } else {
            Err(
                reply::backend_error(
                    "failed to read Windows Credential Manager secret"@,
                    message@,
                ),
            )
        },
        CredentialRead::Null => Err(
            reply::backend_error(
                "failed to read Windows Credential Manager secret"@,
                "CredReadW returned a null credential pointer"@,
            ),
        ),
        CredentialRead::Found(Some(secret)) => Ok(secret@),
        CredentialRead::Found(None) => Ok(seq![]),
    }
}

/// What has happened while a secret is loaded.
pub enum CredentialLoadEvent {
    Requested,
    /// The credential was read.
    Read(CredentialRead),
}

/// What is to be done next to load a secret.
pub enum CredentialLoadAction {
    /// Read the credential with this name, which is in UTF-16 with a zero at the end, and of this
    /// type.
    Read { target: Vec<u16>, kind: u32 },
    Finish(SecretStoreResult<Vec<u8>>),
}

/// How a load from the Credential Manager goes on: the credential under the name of the service
/// and account is read.
pub open spec fn credential_load_step(
    service: Seq<char>,
    account: Seq<char>,
    event: CredentialLoadEvent,
    action: CredentialLoadAction,
) -> bool {
    match event {
        CredentialLoadEvent::Requested => action matches CredentialLoadAction::Read { target, kind }
            && target@ == utf16(target_name(service, account)).push(0) && kind
            == CRED_TYPE_GENERIC,
        CredentialLoadEvent::Read(read) => action matches CredentialLoadAction::Finish(result)
            && reply::load_view(result) == credential_outcome(read),
    }
}

/// One step of a load from the Credential Manager.
pub fn load_secret_credential(service: &str, account: &str, event: CredentialLoadEvent) -> (action:
    CredentialLoadAction)
    ensures
        credential_load_step(service@, account@, event, action),
{
    match event {
        CredentialLoadEvent::Requested => {
            let name = credential_target_name(service, account);
            CredentialLoadAction::Read {
                target: to_wide_null(name.as_str()),
                kind: CRED_TYPE_GENERIC,
            }
        },
        CredentialLoadEvent::Read(CredentialRead::Failed { not_found, message }) => {
            if not_found {
                CredentialLoadAction::Finish(Err(SecretStoreError::NotFound))
            } else {
                CredentialLoadAction::Finish(
                    Err(
                        SecretStoreError::backend(
                            "failed to read Windows Credential Manager secret",
                            message,
                        ),
                    ),
                )
            }
        },
        CredentialLoadEvent::Read(CredentialRead::Null) => CredentialLoadAction::Finish(
            Err(
                SecretStoreError::backend_message(
                    "failed to read Windows Credential Manager secret",
                    "CredReadW returned a null credential pointer",
                ),
            ),
        ),
        CredentialLoadEvent::Read(CredentialRead::Found(Some(secret))) => {
            CredentialLoadAction::Finish(Ok(secret))
        },
        CredentialLoadEvent::Read(CredentialRead::Found(None)) => {
            CredentialLoadAction::Finish(Ok(Vec::new()))
        },
    }
}

/// One step of a load: from the Credential Manager.
pub fn load_secret(service: &str, account: &str, event: CredentialLoadEvent) -> (action:
    CredentialLoadAction)
    ensures
        credential_load_step(service@, account@, event, action),
{
    load_secret_credential(service, account, event)
}

/// What is stored is looked for under the name and the type that it was stored under.
pub proof fn law_stored_credential_is_looked_for(
    service: Seq<char>,
    account: Seq<char>,
    secret: Seq<u8>,
    stored: CredentialStoreAction,
    loaded: CredentialLoadAction,
)
    requires
        secret.len() <= u32::MAX,
        credential_store_step(service, account, secret, CredentialStoreEvent::Requested, stored),
        credential_load_step(service, account, CredentialLoadEvent::Requested, loaded),
    ensures
        stored matches CredentialStoreAction::Write(write) && write.blob@ == secret && (
        loaded matches CredentialLoadAction::Read { target, kind } && write.target@ == target@
            && write.kind == kind),
{
}

/// A credential that is to be written.
pub struct CredentialWrite {
    pub kind: u32,
    pub persist: u32,
    /// The name, in UTF-16 with a zero at the end.
    pub target: Vec<u16>,
    /// The user, in UTF-16 with a zero at the end.
    pub username: Vec<u16>,
    /// The secret.
    pub blob: Vec<u8>,
    /// The secret's length.
    pub size: u32,
}

/// What has happened while a secret is stored.
pub enum CredentialStoreEvent {
    Requested,
    /// The credential was written.
    Written(Reply<()>),
}

/// What is to be done next to store a secret.
pub enum CredentialStoreAction {
    Write(CredentialWrite),
    Finish(SecretStoreResult<()>),
}

/// How a store in the Credential Manager goes on: a secret that is not too long is written under
/// the name of its service and account.
pub open spec fn credential_store_step(
    service: Seq<char>,
    account: Seq<char>,
    secret: Seq<u8>,
    event: CredentialStoreEvent,
    action: CredentialStoreAction,
) -> bool {
    match event {
        CredentialStoreEvent::Requested => if secret.len() <= u32::MAX {
            &&& action matches CredentialStoreAction::Write(write)
            &&& write.kind == CRED_TYPE_GENERIC
            &&& write.persist == CRED_PERSIST_LOCAL_MACHINE
            &&& write.blob@ == secret
            &&& write.size == secret.len()
            &&& write.target@ == utf16(target_name(service, account)).push(0)
            &&& write.username@ == utf16(account).push(0)
        } else {
            action matches CredentialStoreAction::Finish(result) && reply::store_view(result)
                == Err::<(), ErrorView>(
                reply::backend_error(
                    "failed to prepare Windows Credential Manager secret"@,
                    "secret is too large for CredentialBlobSize"@,
                ),
            )
        },
        CredentialStoreEvent::Written(written) => {
            &&& action matches CredentialStoreAction::Finish(result)
            &&& reply::store_view(result) == (match reply::plain_reply(written) {
                Ok(_) => Ok::<(), ErrorView>(()),
                Err(e) => Err(
                    reply::backend_error("failed to write Windows Credential Manager secret"@, e),
                ),
            })
        },
    }
}

/// The size of a secret of this length as a credential's blob, unless it is too long for one.
pub fn credential_blob_size(len: usize) -> (out: SecretStoreResult<u32>)
    ensures
        match out {
            Ok(size) => size == len,
            Err(e) => len > u32::MAX && e@ == reply::backend_error(
                "failed to prepare Windows Credential Manager secret"@,
                "secret is too large for CredentialBlobSize"@,
            ),
        },
{
    if len > u32::MAX as usize {
        Err(
            SecretStoreError::backend_message(
                "failed to prepare Windows Credential Manager secret",
                "secret is too large for CredentialBlobSize",
            ),
        )
    } else {
        Ok(len as u32)
    }
}

/// One step of a store in the Credential Manager.
pub fn store_secret_credential(
    service: &str,
    account: &str,
    secret: &[u8],
    event: CredentialStoreEvent,
) -> (action: CredentialStoreAction)
    ensures
        credential_store_step(service@, account@, secret@, event, action),
{
    match event {
        CredentialStoreEvent::Requested => {
            let size: u32 = match credential_blob_size(secret.len()) {
                Ok(size) => size,
                Err(e) => return CredentialStoreAction::Finish(Err(e)),
            };
            let name = credential_target_name(service, account);
            CredentialStoreAction::Write(
                CredentialWrite {
                    kind: CRED_TYPE_GENERIC,
                    persist: CRED_PERSIST_LOCAL_MACHINE,
                    target: to_wide_null(name.as_str()),
                    username: to_wide_null(account),
                    blob: slice_to_vec(secret),
                    size,
                },
            )
        },
        CredentialStoreEvent::Written(Ok(_)) => CredentialStoreAction::Finish(Ok(())),
        CredentialStoreEvent::Written(Err(e)) => CredentialStoreAction::Finish(
            Err(SecretStoreError::backend("failed to write Windows Credential Manager secret", e)),
        ),
    }
}

/// One step of a store: in the Credential Manager.
pub fn store_secret(
    service: &str,
    account: &str,
    secret: &[u8],
    event: CredentialStoreEvent,
) -> (action: CredentialStoreAction)
    ensures
        credential_store_step(service@, account@, secret@, event, action),
{
    store_secret_credential(service, account, secret, event)
}

/// A blob that the Data Protection API returned: its size, and its bytes where the pointer to them
/// is not null.
pub struct Blob {
    pub size: u32,
    pub data: Option<Vec<u8>>,
}

/// The bytes of a blob. One of size zero needs none.
pub open spec fn blob_bytes(blob: Blob) -> LoadOutcome {
    if blob.size == 0 {
        Ok(seq![])
    } else {
        match blob.data {
            Some(data) => Ok(data@),
            None => Err(
                reply::backend_error("failed to read Windows blob"@, "blob pointer was null"@),
            ),
        }
    }
}

/// The bytes of a blob.
pub fn blob_to_vec(blob: Blob) -> (out: SecretStoreResult<Vec<u8>>)
    ensures
        reply::load_view(out) == blob_bytes(blob),
{
    if blob.size == 0 {
        return Ok(Vec::new());
    }
    match blob.data {
        Some(data) => Ok(data),
        None => Err(
            SecretStoreError::backend_message(
                "failed to read Windows blob",
                "blob pointer was null",
            ),
        ),
    }
}

/// The size of a blob, unless the bytes are too many for one.
pub fn blob_size(context: &'static str, len: usize) -> (out: SecretStoreResult<u32>)
    ensures
        match out {
            Ok(size) => size == len,
            Err(e) => len > u32::MAX && e@ == reply::backend_error(
                context@,
                "input is too large for CRYPT_INTEGER_BLOB"@,
            ),
        },
{
    if len > u32::MAX as usize {
        Err(
            SecretStoreError::backend_message(
                context,
                "input is too large for CRYPT_INTEGER_BLOB",
            ),
        )
    } else {
        Ok(len as u32)
    }
}

/// What encrypting with the Data Protection API comes to.
pub open spec fn protected_bytes(protected: Reply<Blob>) -> LoadOutcome {
    match protected {
        Err(e) => Err(reply::backend_error("failed to encrypt Windows DPAPI payload"@, e@)),
        Ok(blob) => blob_bytes(blob),
    }
}

/// What has happened while a key is written to a file.
pub enum DpapiWriteEvent {
    Requested,
    /// The key was encrypted. The path of the file may have a parent.
    Protected { protected: Reply<Blob>, has_parent: bool },
    /// The directory was created, for these bytes.
    DirectoryCreated { created: Reply<()>, encrypted: Vec<u8> },
    /// The file was written.
    Written(Reply<()>),
}

/// What is to be done next to write a key to a file.
pub enum DpapiWriteAction {
    /// Encrypt the key, which has this size.
    Protect { key: Vec<u8>, size: u32 },
    /// Create the directory for these bytes.
    CreateDirectory(Vec<u8>),
    /// Write these bytes.
    WriteFile(Vec<u8>),
    Finish(SecretStoreResult<()>),
}

/// The outcome of writing a key to a file, where it fails.
pub open spec fn write_failed(action: DpapiWriteAction, error: ErrorView) -> bool {
    action matches DpapiWriteAction::Finish(result) && reply::store_view(result) == Err::<
        (),
        ErrorView,
    >(error)
}

/// One step of writing a key to a file, encrypted by the Data Protection API.
pub fn dpapi_write_file(key: &[u8], event: DpapiWriteEvent) -> (action: DpapiWriteAction)
    ensures
        match event {
            DpapiWriteEvent::Requested => if key@.len() <= u32::MAX {
                action matches DpapiWriteAction::Protect { key: bytes, size } && bytes@ == key@
                    && size == key@.len()
            } else {
                write_failed(
                    action,
                    reply::backend_error(
                        "failed to prepare Windows DPAPI plaintext blob"@,
                        "input is too large for CRYPT_INTEGER_BLOB"@,
                    ),
                )
            },
            DpapiWriteEvent::Protected { protected, has_parent } => match protected_bytes(
                protected,
            ) {
                Err(e) => write_failed(action, e),
                Ok(encrypted) => if has_parent {
                    action matches DpapiWriteAction::CreateDirectory(bytes) && bytes@ == encrypted
                } else {
                    action matches DpapiWriteAction::WriteFile(bytes) && bytes@ == encrypted
                },
            },
            DpapiWriteEvent::DirectoryCreated { created, encrypted } => match created {
                Err(e) => write_failed(
                    action,
                    reply::backend_error(
                        "failed to create Windows DPAPI output directory"@,
                        e@,
                    ),
                ),
                Ok(_) => action == DpapiWriteAction::WriteFile(encrypted),
            },
            DpapiWriteEvent::Written(written) => match written {
                Err(e) => write_failed(
                    action,
                    reply::backend_error("failed to write Windows DPAPI output file"@, e@),
                ),
                Ok(_) => action == DpapiWriteAction::Finish(Ok(())),
            },
        },
{
    match event {
        DpapiWriteEvent::Requested => match blob_size(
            "failed to prepare Windows DPAPI plaintext blob",
            key.len(),
        ) {
            Ok(size) => DpapiWriteAction::Protect { key: slice_to_vec(key), size },
            Err(e) => DpapiWriteAction::Finish(Err(e)),
        },
        DpapiWriteEvent::Protected { protected: Err(e), .. } => DpapiWriteAction::Finish(
            Err(SecretStoreError::backend("failed to encrypt Windows DPAPI payload", e)),
        ),
        DpapiWriteEvent::Protected { protected: Ok(blob), has_parent } => match blob_to_vec(blob) {
            Err(e) => DpapiWriteAction::Finish(Err(e)),
            Ok(encrypted) => {
                if has_parent {
                    DpapiWriteAction::CreateDirectory(encrypted)
                } else {
                    DpapiWriteAction::WriteFile(encrypted)
                }
            },
        },
        DpapiWriteEvent::DirectoryCreated { created: Err(e), .. } => DpapiWriteAction::Finish(
            Err(SecretStoreError::backend("failed to create Windows DPAPI output directory", e)),
        ),
        DpapiWriteEvent::DirectoryCreated { created: Ok(_), encrypted } => {
            DpapiWriteAction::WriteFile(encrypted)
        },
        DpapiWriteEvent::Written(Err(e)) => DpapiWriteAction::Finish(
            Err(SecretStoreError::backend("failed to write Windows DPAPI output file", e)),
        ),
        DpapiWriteEvent::Written(Ok(_)) => DpapiWriteAction::Finish(Ok(())),
    }
}

/// What reading a file gave.
pub enum FileRead {
    Failed { not_found: bool, message: String },
    Bytes(Vec<u8>),
}

/// What has happened while a key is read from a file.
pub enum DpapiReadEvent {
    /// The file was read.
    Read(FileRead),
    /// What stands in it was decrypted.
    Unprotected { unprotected: Reply<Blob>, expected_len: usize },
}

/// What is to be done next to read a key from a file.
pub enum DpapiReadAction {
    /// Decrypt these bytes.
    Unprotect(Vec<u8>),
    Finish(SecretStoreResult<Vec<u8>>),
}

/// What decrypting with the Data Protection API comes to.
pub open spec fn unprotected_bytes(unprotected: Reply<Blob>) -> LoadOutcome {
    match unprotected {
        Err(e) => Err(reply::backend_error("failed to decrypt Windows DPAPI payload"@, e@)),
        Ok(blob) => blob_bytes(blob),
    }
}

/// What was decrypted by the Data Protection API.
pub fn dpapi_decrypt_bytes(unprotected: Reply<Blob>) -> (out: SecretStoreResult<Vec<u8>>)
    ensures
        reply::load_view(out) == unprotected_bytes(unprotected),
{
    match unprotected {
        Err(e) => Err(SecretStoreError::backend("failed to decrypt Windows DPAPI payload", e)),
        Ok(blob) => blob_to_vec(blob),
    }
}

/// What decrypting comes to: a key of the length that was expected.
pub open spec fn unprotected_key(unprotected: Reply<Blob>, expected_len: usize) -> LoadOutcome {
    match unprotected_bytes(unprotected) {
        Err(e) => Err(e),
        Ok(key) => if key.len() == expected_len {
            Ok(key)
        } else {
            Err(ErrorView::InvalidLength { expected: expected_len as nat, actual: key.len() })
        },
    }
}

/// The outcome of reading a key from a file.
pub open spec fn read_finished(action: DpapiReadAction, outcome: LoadOutcome) -> bool {
    action matches DpapiReadAction::Finish(result) && reply::load_view(result) == outcome
}

/// One step of reading a key from a file, decrypted by the Data Protection API.
pub fn dpapi_read_file(event: DpapiReadEvent) -> (action: DpapiReadAction)
    ensures
        match event {
            DpapiReadEvent::Read(FileRead::Failed { not_found, message }) => read_finished(
                action,
                Err(
                    if not_found {
                        ErrorView::NotFound
                    } else {
                        reply::backend_error("failed to read Windows DPAPI input file"@, message@)
                    },
                ),
            ),
            DpapiReadEvent::Read(FileRead::Bytes(bytes)) => if bytes@.len() <= u32::MAX {
                action == DpapiReadAction::Unprotect(bytes)
            } else {
                read_finished(
                    action,
                    Err(
                        reply::backend_error(
                            "failed to prepare Windows DPAPI ciphertext blob"@,
                            "input is too large for CRYPT_INTEGER_BLOB"@,
                        ),
                    ),
                )
            },
            DpapiReadEvent::Unprotected { unprotected, expected_len } => read_finished(
                action,
                unprotected_key(unprotected, expected_len),
            ),
        },
{
    match event {
        DpapiReadEvent::Read(FileRead::Failed { not_found, message }) => {
            if not_found {
                DpapiReadAction::Finish(Err(SecretStoreError::NotFound))
            } else {
                DpapiReadAction::Finish(
                    Err(
                        SecretStoreError::backend(
                            "failed to read Windows DPAPI input file",
                            message,
                        ),
                    ),
                )
            }
        },
        DpapiReadEvent::Read(FileRead::Bytes(bytes)) => match blob_size(
            "failed to prepare Windows DPAPI ciphertext blob",
            bytes.len(),
        ) {
            Ok(_) => DpapiReadAction::Unprotect(bytes),
            Err(e) => DpapiReadAction::Finish(Err(e)),
        },
        DpapiReadEvent::Unprotected { unprotected, expected_len } => DpapiReadAction::Finish(
            with_expected_len(dpapi_decrypt_bytes(unprotected), expected_len),
        ),
    }
}

/// How many samples one minute has, at one in two seconds.
pub const CPU_WINDOW: usize = 31;

/// For how many seconds an average stands.
pub const CPU_USAGE_FRESH_SECS: u64 = 30;

/// The samples of the processor's load in the last minute, and which of the last attempts to take
/// one succeeded.
pub struct CpuWindow<T> {
    pub queue: VecDeque<T>,
    pub recent_valid: VecDeque<bool>,
}

/// How many of some attempts succeeded.
pub open spec fn successes(attempts: Seq<bool>) -> nat
    decreases attempts.len(),
{
    if attempts.len() == 0 {
        0
    } else {
        successes(attempts.drop_last()) + (if attempts.last() {
            1nat
        } else {
            0
        })
    }
}

/// A window without its oldest entry, where it is full.
pub open spec fn without_oldest<T>(window: Seq<T>) -> Seq<T> {
    if window.len() == CPU_WINDOW {
        window.drop_first()
    } else {
        window
    }
}

impl<T> CpuWindow<T> {
    /// There are never more entries than a window has, never more samples than attempts, and never
    /// more successes than samples.
    pub open spec fn wf(self) -> bool {
        &&& self.recent_valid@.len() <= CPU_WINDOW
        &&& self.queue@.len() <= self.recent_valid@.len()
        &&& successes(self.recent_valid@) <= self.queue@.len()
    }

    /// No samples yet.
    pub fn new() -> (window: Self)
        ensures
            window.wf(),
            window.queue@ == Seq::<T>::empty(),
            window.recent_valid@ == Seq::<bool>::empty(),
    {
        CpuWindow { queue: VecDeque::new(), recent_valid: VecDeque::new() }
    }

    /// Drops what is older than a minute, and says whether the samples that are left may be
    /// averaged: more of the recent attempts must have succeeded than half the samples.
    pub fn may_average(&mut self) -> (yes: bool)
        requires
            old(self).wf(),
        ensures
            final(self).wf(),
            final(self).recent_valid@.len() < CPU_WINDOW,
            final(self).queue@ == without_oldest(old(self).queue@),
            final(self).recent_valid@ == without_oldest(old(self).recent_valid@),
            yes == (final(self).queue@.len() > 0 && successes(final(self).recent_valid@)
                > final(self).queue@.len() / 2),
    {
        if self.queue.len() == CPU_WINDOW {
            let _ = self.queue.pop_front();
        }
        if self.recent_valid.len() == CPU_WINDOW {
            let ghost before = self.recent_valid@;
            let _ = self.recent_valid.pop_front();
            proof {
                lemma_successes_drop_first(before);
                lemma_successes_bound(self.recent_valid@);
                assert(self.recent_valid@ =~= before.drop_first());
            }
        }
        assert(self.queue@ =~= without_oldest(old(self).queue@));
        assert(self.recent_valid@ =~= without_oldest(old(self).recent_valid@));
        let n: usize = self.recent_valid.len();
        let mut valid: usize = 0;
        let mut i: usize = 0;
        while i < n
            invariant
                n == self.recent_valid@.len(),
                i <= n,
                valid <= i,
                valid == successes(self.recent_valid@.take(i as int)),
            decreases n - i,
        {
            if self.recent_valid[i] {
                valid += 1;
            }
            i += 1;
            assert(self.recent_valid@.take(i as int).drop_last() =~= self.recent_valid@.take(
                i - 1,
            ));
        }
        assert(self.recent_valid@.take(i as int) =~= self.recent_valid@);
        self.queue.len() > 0 && valid > self.queue.len() / 2
    }

    /// Takes in the outcome of an attempt.
    pub fn record(&mut self, sample: Option<T>)
        requires
            old(self).wf(),
            old(self).recent_valid@.len() < CPU_WINDOW,
        ensures
            final(self).wf(),
            final(self).recent_valid@ == old(self).recent_valid@.push(sample is Some),
            final(self).queue@ == (match sample {
                Some(s) => old(self).queue@.push(s),
                None => old(self).queue@,
            }),
    {
        let ghost before = self.recent_valid@;
        match sample {
            Some(s) => {
                self.queue.push_back(s);
                self.recent_valid.push_back(true);
            },
            None => {
                self.recent_valid.push_back(false);
            },
        }
        assert(self.recent_valid@.drop_last() =~= before);
    }
}

proof fn lemma_successes_drop_first(attempts: Seq<bool>)
    requires
        attempts.len() > 0,
    ensures
        successes(attempts) == successes(attempts.drop_first()) + (if attempts[0] {
            1nat
        } else {
            0
        }),
    decreases attempts.len(),
{
    if attempts.len() > 1 {
        lemma_successes_drop_first(attempts.drop_last());
        assert(attempts.drop_last().drop_first() =~= attempts.drop_first().drop_last());
    } else {
        assert(attempts.drop_last() =~= seq![]);
        assert(attempts.drop_first() =~= seq![]);
    }
}

proof fn lemma_successes_bound(attempts: Seq<bool>)
    ensures
        successes(attempts) <= attempts.len(),
    decreases attempts.len(),
{
    if attempts.len() > 0 {
        lemma_successes_bound(attempts.drop_last());
    }
}

/// The average that was taken, with its age in seconds, as long as it stands.
pub fn cpu_uage_one_minute<T>(last: Option<(T, u64)>) -> (usage: Option<T>)
    ensures
        usage == (match last {
            Some((value, age)) => if age < CPU_USAGE_FRESH_SECS {
                Some(value)
            } else {
                None
            },
            None => None,
        }),
{
    match last {
        Some((value, age)) => {
            if age < CPU_USAGE_FRESH_SECS {
                Some(value)
            } else {
                None
            }
        },
        None => None,
    }
}

/// A text in UTF-16 is that of its parts, one after another; a character of the basic plane is one
/// unit, and any other a pair of surrogates from which it can be had back.
pub proof fn law_utf16_goes_character_by_character(s: Seq<char>, c: char)
    ensures
        utf16(Seq::<char>::empty()).len() == 0,
        (c as u32) < 0x1_0000 ==> utf16(s.push(c)) == utf16(s).push((c as u32) as u16),
        (c as u32) >= 0x1_0000 ==> ({
            let all = utf16(s.push(c));
            let high = all[all.len() - 2];
            let low = all[all.len() - 1];
            &&& all.len() == utf16(s).len() + 2
            &&& all.take(all.len() - 2) == utf16(s)
            &&& 0xD800 <= high < 0xDC00
            &&& 0xDC00 <= low < 0xE000
            &&& 0x1_0000 + 0x400 * (high - 0xD800) + (low - 0xDC00) == c as u32
        }),
{
    vstd::utf8::char_is_scalar(c);
    assert(s.push(c).drop_last() =~= s);
    if (c as u32) >= 0x1_0000 {
        let all = utf16(s.push(c));
        assert(all.take(all.len() - 2) =~= utf16(s));
    } else {
        assert(utf16(s.push(c)) =~= utf16(s).push((c as u32) as u16));
    }
}

/// A credential is kept under the service and the account with a colon between them, as a generic
/// one on this machine, with the secret as its bytes; a secret that is too long for that is refused.
/// A load reads it under the same name and hands out its bytes.
pub proof fn law_credentials_go_by_service_and_account(
    service: Seq<char>,
    account: Seq<char>,
    secret: Seq<u8>,
    load_event: CredentialLoadEvent,
    load: CredentialLoadAction,
    store_event: CredentialStoreEvent,
    store: CredentialStoreAction,
)
    requires
        credential_load_step(service, account, load_event, load),
        credential_store_step(service, account, secret, store_event, store),
    ensures
        load_event is Requested ==> (load matches CredentialLoadAction::Read { target, kind }
            && target@ == utf16(service + ":"@ + account).push(0) && kind == 1),
        load_event matches CredentialLoadEvent::Read(read) ==> (
        load matches CredentialLoadAction::Finish(result) && (match read {
            CredentialRead::Found(Some(found)) => result matches Ok(bytes) && bytes@ == found@,
            CredentialRead::Found(None) => result matches Ok(bytes) && bytes@.len() == 0,
            CredentialRead::Null => result matches Err(error) && error@ == (
            ErrorView::Backend { context: "failed to read Windows Credential Manager secret"@, source: "CredReadW returned a null credential pointer"@ }),
            CredentialRead::Failed { not_found, message } => result matches Err(error) && (not_found
                ==> error@ is NotFound) && (!not_found ==> error@ == (
            ErrorView::Backend { context: "failed to read Windows Credential Manager secret"@, source: message@ })),
        })),
        store_event is Requested && secret.len() <= 0xFFFF_FFFF ==> (
        store matches CredentialStoreAction::Write(write) && {
            &&& write.target@ == utf16(service + ":"@ + account).push(0)
            &&& write.username@ == utf16(account).push(0)
            &&& write.blob@ == secret
            &&& write.size == secret.len()
            &&& write.kind == 1
            &&& write.persist == 2
        }),
        store_event is Requested && secret.len() > 0xFFFF_FFFF ==> (
        store matches CredentialStoreAction::Finish(Err(error)) && error@ == (
        ErrorView::Backend { context: "failed to prepare Windows Credential Manager secret"@, source: "secret is too large for CredentialBlobSize"@ })),
        store_event matches CredentialStoreEvent::Written(Ok(_)) ==> (
        store matches CredentialStoreAction::Finish(result) && result is Ok),
        store_event matches CredentialStoreEvent::Written(Err(e)) ==> (
        store matches CredentialStoreAction::Finish(Err(error)) && error@ == (
        ErrorView::Backend { context: "failed to write Windows Credential Manager secret"@, source: e@ })),
{
}

/// A blob is its bytes, one of size zero is empty whatever its pointer is, and one of another size
/// must have a pointer. What the Data Protection API has encrypted or decrypted is its blob, and of
/// a key in a file the length must be right.
pub proof fn law_blobs_are_their_bytes(blob: Blob, message: String, expected_len: usize)
    ensures
        blob.size == 0 ==> blob_bytes(blob) == Ok::<Seq<u8>, ErrorView>(seq![]),
        blob.size > 0 ==> (blob.data matches Some(data) ==> blob_bytes(blob) == Ok::<
            Seq<u8>,
            ErrorView,
        >(data@)),
        blob.size > 0 && blob.data is None ==> blob_bytes(blob) == Err::<Seq<u8>, ErrorView>(
            ErrorView::Backend { context: "failed to read Windows blob"@, source: "blob pointer was null"@ },
        ),
        protected_bytes(Ok(blob)) == blob_bytes(blob),
        unprotected_bytes(Ok(blob)) == blob_bytes(blob),
        protected_bytes(Err(message)) == Err::<Seq<u8>, ErrorView>(
            ErrorView::Backend { context: "failed to encrypt Windows DPAPI payload"@, source: message@ },
        ),
        unprotected_bytes(Err(message)) == Err::<Seq<u8>, ErrorView>(
            ErrorView::Backend { context: "failed to decrypt Windows DPAPI payload"@, source: message@ },
        ),
        blob_bytes(blob) matches Ok(key) ==> {
            &&& key.len() == expected_len ==> unprotected_key(Ok(blob), expected_len) == Ok::<
                Seq<u8>,
                ErrorView,
            >(key)
            &&& key.len() != expected_len ==> unprotected_key(Ok(blob), expected_len) == Err::<
                Seq<u8>,
                ErrorView,
            >(ErrorView::InvalidLength { expected: expected_len as nat, actual: key.len() })
        },
{
}

/// Of a window that is full, with its thirty-one entries, the oldest is dropped, and of no other; the
/// successes among some attempts are those of each.
pub proof fn law_full_windows_lose_their_oldest<T>(window: Seq<T>, attempts: Seq<bool>, last: bool)
    ensures
        window.len() == 31 ==> without_oldest(window) == window.subrange(1, 31),
        window.len() != 31 ==> without_oldest(window) == window,
        successes(Seq::<bool>::empty()) == 0,
        successes(attempts.push(last)) == successes(attempts) + (if last {
            1nat
        } else {
            0
        }),
{
    if window.len() == 31 {
        assert(window.drop_first() =~= window.subrange(1, 31));
    }
    assert(attempts.push(last).drop_last() =~= attempts);
}

} // verus!
