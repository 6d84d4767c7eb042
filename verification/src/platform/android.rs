//! Android: a secret in the application's preferences, encrypted under a key in the Keystore.
use crate::base64;
use crate::base64::{decode_standard, encode_standard};
use crate::platform::reply;
use crate::platform::reply::{LoadOutcome, Reply, ReplyView, StoreOutcome};
use crate::secret_store::{ErrorView, SecretStoreError, SecretStoreResult};
use crate::text;
use vstd::prelude::*;
use vstd::slice::{slice_subrange, slice_to_vec};
use vstd::string::*;

verus! {

/// `Context.MODE_PRIVATE`.
pub const MODE_PRIVATE: i32 = 0;

/// `KeyProperties.PURPOSE_ENCRYPT`.
pub const KEYSTORE_PURPOSE_ENCRYPT: i32 = 1;

/// `KeyProperties.PURPOSE_DECRYPT`.
pub const KEYSTORE_PURPOSE_DECRYPT: i32 = 2;

/// `Cipher.ENCRYPT_MODE`.
pub const CIPHER_ENCRYPT_MODE: i32 = 1;

/// `Cipher.DECRYPT_MODE`.
pub const CIPHER_DECRYPT_MODE: i32 = 2;

/// The length of the authentication tag.
pub const GCM_TAG_BITS: i32 = 128;

/// The name of a service's preferences, and of its key.
pub open spec fn store_name_of(service: Seq<char>) -> Seq<char> {
    service + ".secret-store"@
}

/// The name of a service's preferences, and of its key.
pub fn store_name(service: &str) -> (name: String)
    ensures
        name@ == store_name_of(service@),
{
    service.to_owned().concat(".secret-store")
}

/// What a key in the Keystore is to be.
pub struct KeySpec {
    pub alias: String,
    pub purposes: i32,
    pub block_mode: &'static str,
    pub padding: &'static str,
    pub user_authentication_required: bool,
    pub algorithm: &'static str,
    pub provider: &'static str,
}

/// What has happened while a service's key is looked for.
#[derive(Debug, Clone, Copy, PartialEq, Eq, Structural)]
pub enum KeyEvent {
    Requested,
    /// The Keystore was asked whether it has the key. `None` means that it could not be asked.
    Asked(Option<bool>),
}

/// What is to be done about a service's key.
pub enum KeyAction {
    /// Ask the Keystore of this provider for the key under this alias.
    Ask { provider: &'static str, alias: String },
    /// There is a key: use it.
    UseExisting,
    /// There is none: generate one.
    Generate(KeySpec),
    /// The Keystore could not be asked.
    Fail,
}

/// How a service's key is come by.
pub open spec fn key_step(service: Seq<char>, event: KeyEvent, action: KeyAction) -> bool {
    match event {
        KeyEvent::Requested => {
            &&& action matches KeyAction::Ask { provider, alias }
            &&& provider@ == "AndroidKeyStore"@
            &&& alias@ == store_name_of(service)
        },
        KeyEvent::Asked(None) => action is Fail,
        KeyEvent::Asked(Some(true)) => action is UseExisting,
        KeyEvent::Asked(Some(false)) => {
            &&& action matches KeyAction::Generate(spec)
            &&& spec.alias@ == store_name_of(service)
            &&& spec.purposes == KEYSTORE_PURPOSE_ENCRYPT + KEYSTORE_PURPOSE_DECRYPT
            &&& spec.block_mode@ == "GCM"@
            &&& spec.padding@ == "NoPadding"@
            &&& !spec.user_authentication_required
            &&& spec.algorithm@ == "AES"@
            &&& spec.provider@ == "AndroidKeyStore"@
        },
    }
}

/// What is to be done next about a service's key: the one that the Keystore has under the service's
/// name is used, and where it has none, one is generated under that name.
pub fn get_or_create_secret_key(service: &str, event: KeyEvent) -> (action: KeyAction)
    ensures
        key_step(service@, event, action),
{
    match event {
        KeyEvent::Requested => KeyAction::Ask {
            provider: "AndroidKeyStore",
            alias: store_name(service),
        },
        KeyEvent::Asked(None) => KeyAction::Fail,
        KeyEvent::Asked(Some(true)) => KeyAction::UseExisting,
        KeyEvent::Asked(Some(false)) => KeyAction::Generate(
            KeySpec {
                alias: store_name(service),
                purposes: KEYSTORE_PURPOSE_ENCRYPT + KEYSTORE_PURPOSE_DECRYPT,
                block_mode: "GCM",
                padding: "NoPadding",
                user_authentication_required: false,
                algorithm: "AES",
                provider: "AndroidKeyStore",
            },
        ),
    }
}

/// A key is generated under the alias under which it is asked for.
pub proof fn law_generated_key_is_found(service: Seq<char>, asked: KeyAction, made: KeyAction)
    requires
        key_step(service, KeyEvent::Requested, asked),
        key_step(service, KeyEvent::Asked(Some(false)), made),
    ensures
        asked matches KeyAction::Ask { provider, alias } && (
        made matches KeyAction::Generate(spec) && spec.alias@ == alias@ && spec.provider@
            == provider@),
{
}

/// What a cipher is asked to encrypt, and how.
pub struct Encryption {
    pub transformation: &'static str,
    pub mode: i32,
    pub plaintext: Vec<u8>,
}

/// What a cipher is asked to decrypt, and how.
pub struct Decryption {
    pub transformation: &'static str,
    pub mode: i32,
    pub tag_bits: i32,
    pub iv: Vec<u8>,
    pub ciphertext: Vec<u8>,
}

/// A payload: the length of the initialization vector, the vector and the ciphertext.
pub open spec fn payload_of(iv: Seq<u8>, ciphertext: Seq<u8>) -> Seq<u8> {
    seq![iv.len() as u8] + iv + ciphertext
}

/// The parts of a payload, where it is whole.
pub open spec fn payload_parts(payload: Seq<u8>) -> Option<(Seq<u8>, Seq<u8>)> {
    if payload.len() == 0 || payload.len() < 1 + payload[0] {
        None
    } else {
        Some((payload.subrange(1, 1 + payload[0]), payload.skip(1 + payload[0])))
    }
}

/// Puts a payload together. The vector must not be longer than a byte can say.
pub fn frame_payload(iv: &[u8], ciphertext: &[u8]) -> (payload: Option<Vec<u8>>)
    ensures
        text::maybe_bytes(payload) == (if iv@.len() <= 255 {
            Some(payload_of(iv@, ciphertext@))
        } else {
            None
        }),
{
    if iv.len() > 255 {
        return None;
    }
    let mut payload: Vec<u8> = Vec::new();
    payload.push(iv.len() as u8);
    payload.append(&mut slice_to_vec(iv));
    payload.append(&mut slice_to_vec(ciphertext));
    assert(payload@ =~= payload_of(iv@, ciphertext@));
    Some(payload)
}

/// Takes a payload apart, where it is whole.
pub fn split_payload(payload: &[u8]) -> (parts: Option<(Vec<u8>, Vec<u8>)>)
    ensures
        match parts {
            Some((iv, ciphertext)) => payload_parts(payload@) == Some((iv@, ciphertext@)),
            None => payload_parts(payload@) is None,
        },
{
    if payload.len() == 0 {
        return None;
    }
    let iv_len: usize = payload[0] as usize;
    if payload.len() < 1 + iv_len {
        return None;
    }
    let iv = slice_to_vec(slice_subrange(payload, 1, 1 + iv_len));
    let ciphertext = slice_to_vec(slice_subrange(payload, 1 + iv_len, payload.len()));
    assert(ciphertext@ =~= payload@.skip(1 + iv_len));
    Some((iv, ciphertext))
}

/// Taking a payload apart gives the parts that it was put together of.
pub proof fn law_payload_round_trip(iv: Seq<u8>, ciphertext: Seq<u8>)
    requires
        iv.len() <= 255,
    ensures
        payload_parts(payload_of(iv, ciphertext)) == Some((iv, ciphertext)),
{
    let payload = payload_of(iv, ciphertext);
    assert(payload.subrange(1, iv.len() as int + 1) =~= iv);
    assert(payload.skip(iv.len() as int + 1) =~= ciphertext);
}

/// What asking the preferences for an account gave.
pub enum Presence {
    /// The account's name could not be handed over.
    NoKey(String),
    /// The preferences could not be asked.
    NoAnswer(String),
    /// The answer could not be read.
    NoValue(String),
    Known(bool),
}

/// What a `Presence` says.
pub open spec fn presence_view(presence: Presence) -> Result<bool, ErrorView> {
    match presence {
        Presence::NoKey(e) => Err(
            reply::backend_error("failed to allocate Android preference key"@, e@),
        ),
        Presence::NoAnswer(e) => Err(
            reply::backend_error("failed to query Android preference key presence"@, e@),
        ),
        Presence::NoValue(e) => Err(
            reply::backend_error("failed to decode Android preference key presence"@, e@),
        ),
        Presence::Known(found) => Ok(found),
    }
}

/// Whether the preferences have an account, or what went wrong.
pub fn preferences_contains(presence: Presence) -> (out: SecretStoreResult<bool>)
    ensures
        match out {
            Ok(found) => presence_view(presence) == Ok::<bool, ErrorView>(found),
            Err(e) => presence_view(presence) == Err::<bool, ErrorView>(e@),
        },
{
    match presence {
        Presence::NoKey(e) => Err(
            SecretStoreError::backend("failed to allocate Android preference key", e),
        ),
        Presence::NoAnswer(e) => Err(
            SecretStoreError::backend("failed to query Android preference key presence", e),
        ),
        Presence::NoValue(e) => Err(
            SecretStoreError::backend("failed to decode Android preference key presence", e),
        ),
        Presence::Known(found) => Ok(found),
    }
}

/// What Android would reply to each call.
pub struct Device {
    pub jvm: ReplyView<()>,
    pub thread: ReplyView<()>,
    /// Whether the preferences could be opened.
    pub preferences: bool,
    pub presence: Result<bool, ErrorView>,
    /// The text that is stored for the account.
    pub stored: Option<Seq<char>>,
    /// Whether the service's key could be had.
    pub key: bool,
    /// What the Keystore makes of an initialization vector and a ciphertext.
    pub decrypted: spec_fn(Seq<u8>, Seq<u8>) -> Option<Seq<u8>>,
    /// The initialization vector and the ciphertext that the Keystore makes of the secret.
    pub encrypted: Option<(Seq<u8>, Seq<u8>)>,
    /// Whether the preferences kept the text.
    pub persisted: bool,
}

/// What the device makes of a payload: nothing where it is not whole, otherwise what the Keystore
/// makes of its initialization vector and its ciphertext.
pub open spec fn payload_decrypted(device: Device, payload: Seq<u8>) -> Option<Seq<u8>> {
    match payload_parts(payload) {
        Some((iv, ciphertext)) => (device.decrypted)(iv, ciphertext),
        None => None,
    }
}

/// What the device makes of the secret: a payload, where the Keystore encrypts it and the
/// initialization vector is not longer than a byte can say.
pub open spec fn payload_encrypted(device: Device) -> Option<Seq<u8>> {
    match device.encrypted {
        Some((iv, ciphertext)) if iv.len() <= 255 => Some(payload_of(iv, ciphertext)),
        _ => None,
    }
}

/// The error where the preferences could not be opened.
pub open spec fn no_preferences(service: Seq<char>) -> ErrorView {
    reply::backend_error("failed to open Android SharedPreferences"@, store_name_of(service))
}

/// The error where the key could not be had.
pub open spec fn no_key(service: Seq<char>) -> ErrorView {
    reply::backend_error(
        "failed to access Android Keystore key"@,
        "missing alias "@ + store_name_of(service),
    )
}

/// The error where a payload could not be decrypted.
pub open spec fn not_decrypted(service: Seq<char>) -> ErrorView {
    reply::backend_error(
        "failed to decrypt Android secret payload"@,
        "alias "@ + store_name_of(service),
    )
}

/// What comes of decrypting the parts of a payload.
pub open spec fn load_decrypted(
    service: Seq<char>,
    device: Device,
    iv: Seq<u8>,
    ciphertext: Seq<u8>,
) -> LoadOutcome {
    match (device.decrypted)(iv, ciphertext) {
        Some(secret) => Ok(secret),
        None => Err(not_decrypted(service)),
    }
}

/// What comes of a payload.
pub open spec fn load_payload(service: Seq<char>, device: Device, payload: Seq<u8>) -> LoadOutcome {
    if !device.key {
        Err(no_key(service))
    } else {
        match payload_decrypted(device, payload) {
            None => Err(not_decrypted(service)),
            Some(secret) => Ok(secret),
        }
    }
}

/// What comes of the text that is stored.
pub open spec fn load_stored(
    service: Seq<char>,
    account: Seq<char>,
    device: Device,
    outcome: LoadOutcome,
) -> bool {
    match device.stored {
        None => outcome == Err::<Seq<u8>, ErrorView>(
            reply::backend_error(
                "failed to read Android secret payload"@,
                "missing string value for key "@ + account,
            ),
        ),
        Some(encoded) => {
            ||| exists|payload: Seq<u8>|
                #[trigger] base64::base64(payload) == vstd::utf8::encode_utf8(encoded) && outcome
                    == load_payload(service, device, payload)
            ||| {
                &&& forall|payload: Seq<u8>| #[trigger]
                    base64::base64(payload) != vstd::utf8::encode_utf8(encoded)
                &&& outcome == Err::<Seq<u8>, ErrorView>(
                    reply::backend_error(
                        "failed to decode Android secret payload"@,
                        base64::decode_error(encoded),
                    ),
                )
            }
        },
    }
}

/// What follows from whether the preferences have the account.
pub open spec fn load_present(
    service: Seq<char>,
    account: Seq<char>,
    device: Device,
    outcome: LoadOutcome,
) -> bool {
    match device.presence {
        Err(e) => outcome == Err::<Seq<u8>, ErrorView>(e),
        Ok(found) => if found {
            load_stored(service, account, device, outcome)
        } else {
            outcome == Err::<Seq<u8>, ErrorView>(ErrorView::NotFound)
        },
    }
}

/// What follows from whether the preferences could be opened.
pub open spec fn load_opened(
    service: Seq<char>,
    account: Seq<char>,
    device: Device,
    outcome: LoadOutcome,
) -> bool {
    if device.preferences {
        load_present(service, account, device, outcome)
    } else {
        outcome == Err::<Seq<u8>, ErrorView>(no_preferences(service))
    }
}

/// What follows once there is a JVM.
pub open spec fn load_attached(
    service: Seq<char>,
    account: Seq<char>,
    device: Device,
    outcome: LoadOutcome,
) -> bool {
    match device.thread {
        Err(e) => outcome == Err::<Seq<u8>, ErrorView>(
            reply::backend_error("failed to attach Android thread to JVM"@, e),
        ),
        Ok(_) => load_opened(service, account, device, outcome),
    }
}

/// What a load comes to.
pub open spec fn load_outcome(
    service: Seq<char>,
    account: Seq<char>,
    device: Device,
    outcome: LoadOutcome,
) -> bool {
    match device.jvm {
        Err(e) => outcome == Err::<Seq<u8>, ErrorView>(
            reply::backend_error("failed to attach to Android JVM"@, e),
        ),
        Ok(_) => load_attached(service, account, device, outcome),
    }
}

/// Which reply a load waits for.
pub enum LoadStage {
    Jvm,
    Thread,
    Preferences,
    Presence,
    Stored,
    /// The key, for this payload.
    Key(Vec<u8>),
    /// What the Keystore makes of this vector and this ciphertext.
    Decrypted(Vec<u8>, Vec<u8>),
    Over,
}

/// A load in progress.
pub struct SecretLoad {
    pub service: String,
    pub account: String,
    pub stage: LoadStage,
}

/// A reply to a call that loading makes.
pub enum LoadReply {
    Jvm(Reply<()>),
    Thread(Reply<()>),
    Preferences(bool),
    Presence(Presence),
    Stored(Option<String>),
    Key(bool),
    Decrypted(Option<Vec<u8>>),
}

/// The call that loading makes next, or the outcome.
pub enum LoadCall {
    FindJvm,
    AttachThread,
    /// Open the preferences with this name, in this mode.
    OpenPreferences { name: String, mode: i32 },
    /// Find out whether the preferences have this key.
    Contains(String),
    /// Get what the preferences have for this key.
    GetString(String),
    /// Come by the key of this service.
    GetOrCreateKey(String),
    Decrypt(Decryption),
    Finish(SecretStoreResult<Vec<u8>>),
}

impl SecretLoad {
    /// Whether a reply is one to the call that was made.
    pub open spec fn expects(self, reply: LoadReply) -> bool {
        match reply {
            LoadReply::Jvm(_) => self.stage is Jvm,
            LoadReply::Thread(_) => self.stage is Thread,
            LoadReply::Preferences(_) => self.stage is Preferences,
            LoadReply::Presence(_) => self.stage is Presence,
            LoadReply::Stored(_) => self.stage is Stored,
            LoadReply::Key(_) => self.stage is Key,
            LoadReply::Decrypted(_) => self.stage is Decrypted,
        }
    }

    /// Whether a reply is the one that the device gives.
    pub open spec fn agrees(self, answer: LoadReply, device: Device) -> bool {
        match answer {
            LoadReply::Jvm(r) => reply::plain_reply(r) == device.jvm,
            LoadReply::Thread(r) => reply::plain_reply(r) == device.thread,
            LoadReply::Preferences(opened) => opened == device.preferences,
            LoadReply::Presence(presence) => presence_view(presence) == device.presence,
            LoadReply::Stored(stored) => reply::maybe_string(stored) == device.stored,
            LoadReply::Key(key) => key == device.key,
            LoadReply::Decrypted(secret) => {
                &&& self.stage matches LoadStage::Decrypted(iv, ciphertext)
                &&& text::maybe_bytes(secret) == (device.decrypted)(iv@, ciphertext@)
            },
        }
    }

    /// What the load will come to.
    pub open spec fn will_come_to(self, device: Device, outcome: LoadOutcome) -> bool {
        let service = self.service@;
        let account = self.account@;
        match self.stage {
            LoadStage::Jvm => load_outcome(service, account, device, outcome),
            LoadStage::Thread => load_attached(service, account, device, outcome),
            LoadStage::Preferences => load_opened(service, account, device, outcome),
            LoadStage::Presence => load_present(service, account, device, outcome),
            LoadStage::Stored => load_stored(service, account, device, outcome),
            LoadStage::Key(payload) => outcome == load_payload(service, device, payload@),
            LoadStage::Decrypted(iv, ciphertext) => outcome == load_decrypted(
                service,
                device,
                iv@,
                ciphertext@,
            ),
            LoadStage::Over => true,
        }
    }

    /// Whether a call is the one whose reply the load waits for.
    pub open spec fn calls(self, call: LoadCall) -> bool {
        match call {
            LoadCall::FindJvm => self.stage is Jvm,
            LoadCall::AttachThread => self.stage is Thread,
            LoadCall::OpenPreferences { name, mode } => self.stage is Preferences && name@
                == store_name_of(self.service@) && mode == MODE_PRIVATE,
            LoadCall::Contains(key) => self.stage is Presence && key@ == self.account@,
            LoadCall::GetString(key) => self.stage is Stored && key@ == self.account@,
            LoadCall::GetOrCreateKey(service) => self.stage is Key && service@ == self.service@,
            LoadCall::Decrypt(decryption) => {
                &&& self.stage matches LoadStage::Decrypted(iv, ciphertext)
                &&& decryption.transformation@ == "AES/GCM/NoPadding"@
                &&& decryption.mode == CIPHER_DECRYPT_MODE
                &&& decryption.tag_bits == GCM_TAG_BITS
                &&& decryption.iv@ == iv@
                &&& decryption.ciphertext@ == ciphertext@
            },
            LoadCall::Finish(_) => self.stage is Over,
        }
    }

    /// How many calls are left at most.
    pub open spec fn left(self) -> nat {
        match self.stage {
            LoadStage::Jvm => 7,
            LoadStage::Thread => 6,
            LoadStage::Preferences => 5,
            LoadStage::Presence => 4,
            LoadStage::Stored => 3,
            LoadStage::Key(_) => 2,
            LoadStage::Decrypted(_, _) => 1,
            LoadStage::Over => 0,
        }
    }

    /// Ends the load.
    fn finish(&mut self, result: SecretStoreResult<Vec<u8>>) -> (call: LoadCall)
        ensures
            *final(self) == (SecretLoad { stage: LoadStage::Over, ..*old(self) }),
            call == LoadCall::Finish(result),
    {
        self.stage = LoadStage::Over;
        LoadCall::Finish(result)
    }

    /// The error where a payload could not be decrypted.
    fn decrypt_error(&self) -> (error: SecretStoreError)
        ensures
            error@ == not_decrypted(self.service@),
    {
        let message = "alias ".to_owned().concat(store_name(self.service.as_str()).as_str());
        SecretStoreError::backend("failed to decrypt Android secret payload", message)
    }

    /// Carries a load on with a reply.
    pub fn step(&mut self, answer: LoadReply) -> (call: LoadCall)
        requires
            old(self).expects(answer),
        ensures
            final(self).service@ == old(self).service@,
            final(self).account@ == old(self).account@,
            final(self).calls(call),
            final(self).left() < old(self).left(),
            forall|device: Device, outcome: LoadOutcome|
                #![trigger old(self).agrees(answer, device), old(self).will_come_to(device, outcome)]
                old(self).agrees(answer, device) && (match call {
                    LoadCall::Finish(result) => outcome == reply::load_view(result),
                    _ => final(self).will_come_to(device, outcome),
                }) ==> old(self).will_come_to(device, outcome),
    {
        match answer {
            LoadReply::Jvm(Err(e)) => self.finish(
                Err(SecretStoreError::backend("failed to attach to Android JVM", e)),
            ),
            LoadReply::Jvm(Ok(_)) => {
                self.stage = LoadStage::Thread;
                LoadCall::AttachThread
            },
            LoadReply::Thread(Err(e)) => self.finish(
                Err(SecretStoreError::backend("failed to attach Android thread to JVM", e)),
            ),
            LoadReply::Thread(Ok(_)) => {
                self.stage = LoadStage::Preferences;
                LoadCall::OpenPreferences {
                    name: store_name(self.service.as_str()),
                    mode: MODE_PRIVATE,
                }
            },
            LoadReply::Preferences(opened) => {
                if !opened {
                    let name = store_name(self.service.as_str());
                    return self.finish(
                        Err(
                            SecretStoreError::backend(
                                "failed to open Android SharedPreferences",
                                name,
                            ),
                        ),
                    );
                }
                self.stage = LoadStage::Presence;
                LoadCall::Contains(self.account.clone())
            },
            LoadReply::Presence(presence) => match preferences_contains(presence) {
                Err(e) => self.finish(Err(e)),
                Ok(found) => {
                    if found {
                        self.stage = LoadStage::Stored;
                        LoadCall::GetString(self.account.clone())
                    } else {
                        self.finish(Err(SecretStoreError::NotFound))
                    }
                },
            },
            LoadReply::Stored(None) => {
                let message = "missing string value for key ".to_owned().concat(
                    self.account.as_str(),
                );
                self.finish(
                    Err(SecretStoreError::backend("failed to read Android secret payload", message)),
                )
            },
            LoadReply::Stored(Some(encoded)) => match decode_standard(encoded.as_str()) {
                Err(e) => self.finish(
                    Err(SecretStoreError::backend("failed to decode Android secret payload", e)),
                ),
                Ok(payload) => {
                    assert(base64::base64(payload@) == vstd::utf8::encode_utf8(encoded@));
                    self.stage = LoadStage::Key(payload);
                    LoadCall::GetOrCreateKey(self.service.clone())
                },
            },
            LoadReply::Key(key) => {
                let mut stage = LoadStage::Over;
                std::mem::swap(&mut stage, &mut self.stage);
                if !key {
                    let message = "missing alias ".to_owned().concat(
                        store_name(self.service.as_str()).as_str(),
                    );
                    return self.finish(
                        Err(
                            SecretStoreError::backend(
                                "failed to access Android Keystore key",
                                message,
                            ),
                        ),
                    );
                }
                let payload: Vec<u8> = match stage {
                    LoadStage::Key(payload) => payload,
                    _ => Vec::new(),
                };
                match split_payload(payload.as_slice()) {
                    Some((iv, ciphertext)) => {
                        let call = LoadCall::Decrypt(
                            Decryption {
                                transformation: "AES/GCM/NoPadding",
                                mode: CIPHER_DECRYPT_MODE,
                                tag_bits: GCM_TAG_BITS,
                                iv: slice_to_vec(iv.as_slice()),
                                ciphertext: slice_to_vec(ciphertext.as_slice()),
                            },
                        );
                        self.stage = LoadStage::Decrypted(iv, ciphertext);
                        call
                    },
                    None => {
                        let error = self.decrypt_error();
                        self.finish(Err(error))
                    },
                }
            },
            LoadReply::Decrypted(Some(secret)) => self.finish(Ok(secret)),
            LoadReply::Decrypted(None) => {
                let error = self.decrypt_error();
                self.finish(Err(error))
            },
        }
    }
}

/// Begins to load a secret.
pub fn load_secret(service: &str, account: &str) -> (out: (SecretLoad, LoadCall))
    ensures
        out.0.service@ == service@,
        out.0.account@ == account@,
        out.0.calls(out.1),
        forall|device: Device, outcome: LoadOutcome|
            out.0.will_come_to(device, outcome) == #[trigger] load_outcome(
                service@,
                account@,
                device,
                outcome,
            ),
{
    let load = SecretLoad {
        service: service.to_owned(),
        account: account.to_owned(),
        stage: LoadStage::Jvm,
    };
    (load, LoadCall::FindJvm)
}

/// What comes of persisting the text.
pub open spec fn store_persisted(account: Seq<char>, device: Device) -> StoreOutcome {
    if device.persisted {
        Ok(())
    } else {
        Err(
            reply::backend_error(
                "failed to persist Android secret payload"@,
                "key "@ + account,
            ),
        )
    }
}

/// What follows from whether the preferences could be opened.
pub open spec fn store_opened(
    service: Seq<char>,
    account: Seq<char>,
    device: Device,
) -> StoreOutcome {
    if device.preferences {
        store_persisted(account, device)
    } else {
        Err(no_preferences(service))
    }
}

/// What comes of encrypting the secret.
pub open spec fn store_encrypted(
    service: Seq<char>,
    account: Seq<char>,
    device: Device,
) -> StoreOutcome {
    match payload_encrypted(device) {
        Some(_) => store_opened(service, account, device),
        None => Err(
            reply::backend_error(
                "failed to encrypt Android secret payload"@,
                "alias "@ + store_name_of(service),
            ),
        ),
    }
}

/// What follows from whether the key could be had.
pub open spec fn store_keyed(
    service: Seq<char>,
    account: Seq<char>,
    device: Device,
) -> StoreOutcome {
    if device.key {
        store_encrypted(service, account, device)
    } else {
        Err(no_key(service))
    }
}

/// What follows once there is a JVM.
pub open spec fn store_attached(
    service: Seq<char>,
    account: Seq<char>,
    device: Device,
) -> StoreOutcome {
    match device.thread {
        Err(e) => Err(reply::backend_error("failed to attach Android thread to JVM"@, e)),
        Ok(_) => store_keyed(service, account, device),
    }
}

/// What a store comes to.
pub open spec fn store_outcome(
    service: Seq<char>,
    account: Seq<char>,
    device: Device,
) -> StoreOutcome {
    match device.jvm {
        Err(e) => Err(reply::backend_error("failed to attach to Android JVM"@, e)),
        Ok(_) => store_attached(service, account, device),
    }
}

/// Which reply a store waits for.
pub enum StoreStage {
    Jvm,
    Thread,
    Key,
    Encrypted,
    /// The preferences, in which this text is to be persisted.
    Preferences(String),
    Persisted,
    Over,
}

/// A store in progress.
pub struct SecretStore {
    pub service: String,
    pub account: String,
    pub secret: Vec<u8>,
    pub stage: StoreStage,
}

/// A reply to a call that storing makes.
pub enum StoreReply {
    Jvm(Reply<()>),
    Thread(Reply<()>),
    Key(bool),
    /// The initialization vector and the ciphertext.
    Encrypted(Option<(Vec<u8>, Vec<u8>)>),
    Preferences(bool),
    Persisted(bool),
}

/// The call that storing makes next, or the outcome.
pub enum StoreCall {
    FindJvm,
    AttachThread,
    /// Come by the key of this service.
    GetOrCreateKey(String),
    Encrypt(Encryption),
    /// Open the preferences with this name, in this mode.
    OpenPreferences { name: String, mode: i32 },
    /// Persist this text in the preferences.
    PutString { key: String, value: String },
    Finish(SecretStoreResult<()>),
}

/// The initialization vector and the ciphertext that may be there.
pub open spec fn maybe_parts(parts: Option<(Vec<u8>, Vec<u8>)>) -> Option<(Seq<u8>, Seq<u8>)> {
    match parts {
        Some((iv, ciphertext)) => Some((iv@, ciphertext@)),
        None => None,
    }
}

impl SecretStore {
    /// Whether a reply is one to the call that was made. What the Keystore returns must leave room
    /// for its text.
    pub open spec fn expects(self, reply: StoreReply) -> bool {
        match reply {
            StoreReply::Jvm(_) => self.stage is Jvm,
            StoreReply::Thread(_) => self.stage is Thread,
            StoreReply::Key(_) => self.stage is Key,
            StoreReply::Encrypted(parts) => {
                &&& self.stage is Encrypted
                &&& parts matches Some((iv, ciphertext)) ==> base64::base64_len(
                    1 + iv@.len() + ciphertext@.len(),
                ) <= isize::MAX
            },
            StoreReply::Preferences(_) => self.stage is Preferences,
            StoreReply::Persisted(_) => self.stage is Persisted,
        }
    }

    /// Whether a reply is the one that the device gives.
    pub open spec fn agrees(self, answer: StoreReply, device: Device) -> bool {
        match answer {
            StoreReply::Jvm(r) => reply::plain_reply(r) == device.jvm,
            StoreReply::Thread(r) => reply::plain_reply(r) == device.thread,
            StoreReply::Key(key) => key == device.key,
            StoreReply::Encrypted(parts) => maybe_parts(parts) == device.encrypted,
            StoreReply::Preferences(opened) => opened == device.preferences,
            StoreReply::Persisted(persisted) => persisted == device.persisted,
        }
    }

    /// What the store will come to.
    pub open spec fn outcome(self, device: Device) -> StoreOutcome {
        let service = self.service@;
        let account = self.account@;
        match self.stage {
            StoreStage::Jvm => store_outcome(service, account, device),
            StoreStage::Thread => store_attached(service, account, device),
            StoreStage::Key => store_keyed(service, account, device),
            StoreStage::Encrypted => store_encrypted(service, account, device),
            StoreStage::Preferences(_) => store_opened(service, account, device),
            StoreStage::Persisted => store_persisted(account, device),
            StoreStage::Over => Ok(()),
        }
    }

    /// Whether a call is the one whose reply the store waits for.
    pub open spec fn calls(self, call: StoreCall) -> bool {
        match call {
            StoreCall::FindJvm => self.stage is Jvm,
            StoreCall::AttachThread => self.stage is Thread,
            StoreCall::GetOrCreateKey(service) => self.stage is Key && service@ == self.service@,
            StoreCall::Encrypt(encryption) => {
                &&& self.stage is Encrypted
                &&& encryption.transformation@ == "AES/GCM/NoPadding"@
                &&& encryption.mode == CIPHER_ENCRYPT_MODE
                &&& encryption.plaintext@ == self.secret@
            },
            StoreCall::OpenPreferences { name, mode } => self.stage is Preferences && name@
                == store_name_of(self.service@) && mode == MODE_PRIVATE,
            StoreCall::PutString { key, .. } => self.stage is Persisted && key@ == self.account@,
            StoreCall::Finish(_) => self.stage is Over,
        }
    }

    /// How many calls are left at most.
    pub open spec fn left(self) -> nat {
        match self.stage {
            StoreStage::Jvm => 6,
            StoreStage::Thread => 5,
            StoreStage::Key => 4,
            StoreStage::Encrypted => 3,
            StoreStage::Preferences(_) => 2,
            StoreStage::Persisted => 1,
            StoreStage::Over => 0,
        }
    }

    /// Ends the store with an error of the backend.
    fn fail(&mut self, context: &'static str, source: String) -> (call: StoreCall)
        ensures
            *final(self) == (SecretStore { stage: StoreStage::Over, ..*old(self) }),
            call matches StoreCall::Finish(result) && reply::store_view(result) == Err::<
                (),
                ErrorView,
            >(reply::backend_error(context@, source@)),
    {
        self.stage = StoreStage::Over;
        StoreCall::Finish(Err(SecretStoreError::backend(context, source)))
    }

    /// Carries a store on with a reply.
    pub fn step(&mut self, answer: StoreReply) -> (call: StoreCall)
        requires
            old(self).expects(answer),
        ensures
            final(self).service@ == old(self).service@,
            final(self).account@ == old(self).account@,
            final(self).secret@ == old(self).secret@,
            final(self).calls(call),
            final(self).left() < old(self).left(),
            forall|device: Device| #[trigger]
                old(self).agrees(answer, device) ==> match call {
                    StoreCall::Finish(result) => reply::store_view(result) == old(self).outcome(
                        device,
                    ),
                    _ => final(self).outcome(device) == old(self).outcome(device),
                },
            answer matches StoreReply::Encrypted(Some((iv, ciphertext))) ==> iv@.len() <= 255 ==> (
            final(self).stage matches StoreStage::Preferences(encoded)
                && vstd::utf8::encode_utf8(encoded@) == base64::base64(
                payload_of(iv@, ciphertext@),
            )),
            call matches StoreCall::PutString { value, .. } ==> (old(
                self).stage matches StoreStage::Preferences(encoded) && encoded@ == value@),
    {
        match answer {
            StoreReply::Jvm(Err(e)) => self.fail("failed to attach to Android JVM", e),
            StoreReply::Jvm(Ok(_)) => {
                self.stage = StoreStage::Thread;
                StoreCall::AttachThread
            },
            StoreReply::Thread(Err(e)) => self.fail("failed to attach Android thread to JVM", e),
            StoreReply::Thread(Ok(_)) => {
                self.stage = StoreStage::Key;
                StoreCall::GetOrCreateKey(self.service.clone())
            },
            StoreReply::Key(key) => {
                if !key {
                    let message = "missing alias ".to_owned().concat(
                        store_name(self.service.as_str()).as_str(),
                    );
                    return self.fail("failed to access Android Keystore key", message);
                }
                self.stage = StoreStage::Encrypted;
                StoreCall::Encrypt(
                    Encryption {
                        transformation: "AES/GCM/NoPadding",
                        mode: CIPHER_ENCRYPT_MODE,
                        plaintext: slice_to_vec(self.secret.as_slice()),
                    },
                )
            },
            StoreReply::Encrypted(parts) => {
                let payload: Option<Vec<u8>> = match parts {
                    Some((iv, ciphertext)) => frame_payload(iv.as_slice(), ciphertext.as_slice()),
                    None => None,
                };
                match payload {
                    Some(payload) => {
                        self.stage = StoreStage::Preferences(encode_standard(payload.as_slice()));
                        StoreCall::OpenPreferences {
                            name: store_name(self.service.as_str()),
                            mode: MODE_PRIVATE,
                        }
                    },
                    None => {
                        let message = "alias ".to_owned().concat(
                            store_name(self.service.as_str()).as_str(),
                        );
                        self.fail("failed to encrypt Android secret payload", message)
                    },
                }
            },
            StoreReply::Preferences(opened) => {
                if !opened {
                    let name = store_name(self.service.as_str());
                    return self.fail("failed to open Android SharedPreferences", name);
                }
                let mut stage = StoreStage::Persisted;
                std::mem::swap(&mut stage, &mut self.stage);
                let encoded: String = match stage {
                    StoreStage::Preferences(encoded) => encoded,
                    _ => String::new(),
                };
                StoreCall::PutString { key: self.account.clone(), value: encoded }
            },
            StoreReply::Persisted(persisted) => {
                if !persisted {
                    let message = "key ".to_owned().concat(self.account.as_str());
                    return self.fail("failed to persist Android secret payload", message);
                }
                self.stage = StoreStage::Over;
                StoreCall::Finish(Ok(()))
            },
        }
    }
}

/// Begins to store a secret.
pub fn store_secret(service: &str, account: &str, secret: &[u8]) -> (out: (SecretStore, StoreCall))
    ensures
        out.0.service@ == service@,
        out.0.account@ == account@,
        out.0.secret@ == secret@,
        out.0.calls(out.1),
        forall|device: Device|
            out.0.outcome(device) == #[trigger] store_outcome(service@, account@, device),
{
    let store = SecretStore {
        service: service.to_owned(),
        account: account.to_owned(),
        secret: slice_to_vec(secret),
        stage: StoreStage::Jvm,
    };
    (store, StoreCall::FindJvm)
}

/// A secret is reported missing only where the preferences themselves said that they do not have
/// it: never because something failed.
pub proof fn law_not_found_means_absent(service: Seq<char>, account: Seq<char>, device: Device)
    requires
        load_outcome(service, account, device, Err(ErrorView::NotFound)),
        exists|presence: Presence| device.presence == #[trigger] presence_view(presence),
    ensures
        device.presence == Ok::<bool, ErrorView>(false),
        device.preferences,
{
}

/// A payload that is empty or shorter than its first byte says is refused, whatever the Keystore
/// is; of any other the vector follows the first byte, and the ciphertext the vector.
pub proof fn law_payload_is_split_or_refused(device: Device, payload: Seq<u8>)
    ensures
        payload.len() == 0 || payload.len() < 1 + payload[0] ==> payload_decrypted(
            device,
            payload,
        ) is None,
        payload.len() > 0 && payload.len() >= 1 + payload[0] ==> payload_decrypted(device, payload)
            == (device.decrypted)(
            payload.subrange(1, 1 + payload[0]),
            payload.skip(1 + payload[0]),
        ),
{
}

/// Decrypting inverts encrypting: where the Keystore undoes what it has made of a secret, the
/// payload that was made of the secret gives the secret again.
pub proof fn law_decrypt_inverts_encrypt(
    device: Device,
    iv: Seq<u8>,
    ciphertext: Seq<u8>,
    payload: Seq<u8>,
    secret: Seq<u8>,
)
    requires
        device.encrypted == Some((iv, ciphertext)),
        payload_encrypted(device) == Some(payload),
        (device.decrypted)(iv, ciphertext) == Some(secret),
    ensures
        payload_decrypted(device, payload) == Some(secret),
{
    law_payload_round_trip(iv, ciphertext);
}

/// What was stored is loaded: where the preferences hold the text of what the Keystore made of a
/// secret, and the Keystore undoes what it made, that secret is loaded and nothing else.
pub proof fn law_stored_secret_is_loaded(
    service: Seq<char>,
    account: Seq<char>,
    device: Device,
    encoded: Seq<char>,
    iv: Seq<u8>,
    ciphertext: Seq<u8>,
    secret: Seq<u8>,
    outcome: LoadOutcome,
)
    requires
        iv.len() <= 255,
        vstd::utf8::encode_utf8(encoded) == base64::base64(payload_of(iv, ciphertext)),
        device.jvm is Ok,
        device.thread is Ok,
        device.preferences,
        device.presence == Ok::<bool, ErrorView>(true),
        device.stored == Some(encoded),
        device.key,
        (device.decrypted)(iv, ciphertext) == Some(secret),
        load_outcome(service, account, device, outcome),
    ensures
        outcome == Ok::<Seq<u8>, ErrorView>(secret),
{
    law_payload_round_trip(iv, ciphertext);
    let payload = payload_of(iv, ciphertext);
    assert(base64::base64(payload) == vstd::utf8::encode_utf8(encoded));
    let other = choose|other: Seq<u8>|
        #[trigger] base64::base64(other) == vstd::utf8::encode_utf8(encoded) && outcome
            == load_payload(service, device, other);
    base64::law_base64_is_injective(other, payload);
}

/// A payload is one byte for the length of the vector, the vector, and the ciphertext; it is taken
/// apart by that byte wherever it is long enough for it.
pub proof fn law_payload_begins_with_a_length(
    iv: Seq<u8>,
    ciphertext: Seq<u8>,
    payload: Seq<u8>,
)
    ensures
        iv.len() <= 255 ==> {
            &&& payload_of(iv, ciphertext).len() == 1 + iv.len() + ciphertext.len()
            &&& payload_of(iv, ciphertext)[0] == iv.len()
            &&& payload_of(iv, ciphertext).subrange(1, 1 + iv.len() as int) == iv
            &&& payload_of(iv, ciphertext).skip(1 + iv.len() as int) == ciphertext
        },
        payload_parts(payload) is None <==> payload.len() == 0 || payload.len() < 1 + payload[0],
        payload.len() > 0 && payload.len() >= 1 + payload[0] ==> payload_parts(payload) == Some(
            (payload.subrange(1, 1 + payload[0]), payload.skip(1 + payload[0])),
        ),
{
    if iv.len() <= 255 {
        assert(payload_of(iv, ciphertext).subrange(1, 1 + iv.len() as int) =~= iv);
        assert(payload_of(iv, ciphertext).skip(1 + iv.len() as int) =~= ciphertext);
    }
}

/// A load succeeds exactly where every call does, the preferences have the account, what they have
/// for it is the base64 text of a whole payload, and the Keystore decrypts that; it is what the
/// Keystore made of it that is loaded. It is reported missing exactly where the preferences were
/// opened and said that they do not have the account.
pub proof fn law_load_succeeds_by_decrypting(
    service: Seq<char>,
    account: Seq<char>,
    device: Device,
    outcome: LoadOutcome,
    encoded: Seq<char>,
    payload: Seq<u8>,
)
    requires
        load_outcome(service, account, device, outcome),
        device.stored matches Some(text) ==> text == encoded && base64::base64(payload)
            == vstd::utf8::encode_utf8(encoded),
        device.presence matches Err(e) ==> e is Backend,
    ensures
        outcome is Ok <==> {
            &&& device.jvm is Ok
            &&& device.thread is Ok
            &&& device.preferences
            &&& device.presence == Ok::<bool, ErrorView>(true)
            &&& device.stored is Some
            &&& device.key
            &&& payload.len() > 0
            &&& payload.len() >= 1 + payload[0]
            &&& (device.decrypted)(
                payload.subrange(1, 1 + payload[0]),
                payload.skip(1 + payload[0]),
            ) is Some
        },
        outcome matches Ok(secret) ==> (device.decrypted)(
            payload.subrange(1, 1 + payload[0]),
            payload.skip(1 + payload[0]),
        ) == Some(secret),
        outcome == Err::<Seq<u8>, ErrorView>(ErrorView::NotFound) <==> {
            &&& device.jvm is Ok
            &&& device.thread is Ok
            &&& device.preferences
            &&& device.presence == Ok::<bool, ErrorView>(false)
        },
{
    if device.stored is Some && device.presence == Ok::<bool, ErrorView>(true) && device.preferences
        && device.jvm is Ok && device.thread is Ok {
        assert(base64::base64(payload) == vstd::utf8::encode_utf8(encoded));
        let other = choose|other: Seq<u8>|
            #[trigger] base64::base64(other) == vstd::utf8::encode_utf8(encoded) && outcome
                == load_payload(service, device, other);
        base64::law_base64_is_injective(other, payload);
    }
}

/// The first call that fails decides what a load reports: its own words, or what was missing under
/// which name.
pub proof fn law_failed_load_says_what_failed(
    service: Seq<char>,
    account: Seq<char>,
    device: Device,
    outcome: LoadOutcome,
    payload: Seq<u8>,
)
    requires
        load_outcome(service, account, device, outcome),
    ensures
        device.jvm matches Err(e) ==> outcome == Err::<Seq<u8>, ErrorView>(
            ErrorView::Backend { context: "failed to attach to Android JVM"@, source: e },
        ),
        device.jvm is Ok ==> (device.thread matches Err(e) ==> outcome == Err::<Seq<u8>, ErrorView>(
            ErrorView::Backend { context: "failed to attach Android thread to JVM"@, source: e },
        )),
        device.jvm is Ok && device.thread is Ok && !device.preferences ==> outcome == Err::<Seq<u8>, ErrorView>(
            ErrorView::Backend { context: "failed to open Android SharedPreferences"@, source: service + ".secret-store"@ },
        ),
        device.jvm is Ok && device.thread is Ok && device.preferences ==> (
        device.presence matches Err(e) ==> outcome == Err::<Seq<u8>, ErrorView>(e)),
        device.jvm is Ok && device.thread is Ok && device.preferences && device.presence == Ok::<
            bool,
            ErrorView,
        >(true) ==> {
            &&& device.stored is None ==> outcome == Err::<Seq<u8>, ErrorView>(
            ErrorView::Backend { context: "failed to read Android secret payload"@, source: "missing string value for key "@ + account },
        )
            &&& device.stored matches Some(encoded) ==> {
                &&& (forall|p: Seq<u8>| #[trigger]
                    base64::base64(p) != vstd::utf8::encode_utf8(encoded)) ==> outcome == Err::<Seq<u8>, ErrorView>(
            ErrorView::Backend { context: "failed to decode Android secret payload"@, source: base64::decode_error(encoded) },
        )
                &&& base64::base64(payload) == vstd::utf8::encode_utf8(encoded) && !device.key
                    ==> outcome == Err::<Seq<u8>, ErrorView>(
            ErrorView::Backend { context: "failed to access Android Keystore key"@, source: "missing alias "@ + service + ".secret-store"@ },
        )
                &&& base64::base64(payload) == vstd::utf8::encode_utf8(encoded) && device.key
                    && outcome is Err ==> outcome == Err::<Seq<u8>, ErrorView>(
            ErrorView::Backend { context: "failed to decrypt Android secret payload"@, source: "alias "@ + service + ".secret-store"@ },
        )
            }
        },
{
    assert("missing alias "@ + store_name_of(service) =~= "missing alias "@ + service
        + ".secret-store"@);
    assert("alias "@ + store_name_of(service) =~= "alias "@ + service + ".secret-store"@);
}

/// A store succeeds exactly where every call does and the vector is not longer than a byte can say;
/// otherwise the first call that fails decides what is reported.
pub proof fn law_store_succeeds_by_persisting(
    service: Seq<char>,
    account: Seq<char>,
    device: Device,
)
    ensures
        store_outcome(service, account, device) is Ok <==> {
            &&& device.jvm is Ok
            &&& device.thread is Ok
            &&& device.key
            &&& device.encrypted matches Some((iv, _)) && iv.len() <= 255
            &&& device.preferences
            &&& device.persisted
        },
        device.jvm matches Err(e) ==> store_outcome(service, account, device) == Err::<(), ErrorView>(
            ErrorView::Backend { context: "failed to attach to Android JVM"@, source: e },
        ),
        device.jvm is Ok ==> (device.thread matches Err(e) ==> store_outcome(service, account, device) == Err::<(), ErrorView>(
            ErrorView::Backend { context: "failed to attach Android thread to JVM"@, source: e },
        )),
        device.jvm is Ok && device.thread is Ok && !device.key ==> store_outcome(service, account, device) == Err::<(), ErrorView>(
            ErrorView::Backend { context: "failed to access Android Keystore key"@, source: "missing alias "@ + service + ".secret-store"@ },
        ),
        device.jvm is Ok && device.thread is Ok && device.key && !(
        device.encrypted matches Some((iv, _)) && iv.len() <= 255) ==> store_outcome(service, account, device) == Err::<(), ErrorView>(
            ErrorView::Backend { context: "failed to encrypt Android secret payload"@, source: "alias "@ + service + ".secret-store"@ },
        ),
        device.jvm is Ok && device.thread is Ok && device.key && (
        device.encrypted matches Some((iv, _)) && iv.len() <= 255) && !device.preferences
            ==> store_outcome(service, account, device) == Err::<(), ErrorView>(
            ErrorView::Backend { context: "failed to open Android SharedPreferences"@, source: service + ".secret-store"@ },
        ),
        device.jvm is Ok && device.thread is Ok && device.key && (
        device.encrypted matches Some((iv, _)) && iv.len() <= 255) && device.preferences
            && !device.persisted ==> store_outcome(service, account, device) == Err::<(), ErrorView>(
            ErrorView::Backend { context: "failed to persist Android secret payload"@, source: "key "@ + account },
        ),
{
    assert("missing alias "@ + store_name_of(service) =~= "missing alias "@ + service
        + ".secret-store"@);
    assert("alias "@ + store_name_of(service) =~= "alias "@ + service + ".secret-store"@);
}

/// Each reply that a load takes is the reply to the call that it made: the preferences are those of
/// the service, private to the application, the entry is the account's, and the cipher is told how
/// the payload was made.
pub proof fn law_load_calls_name_the_account(load: SecretLoad, call: LoadCall, reply: LoadReply)
    requires
        load.calls(call),
        load.expects(reply),
    ensures
        match reply {
            LoadReply::Jvm(_) => call is FindJvm,
            LoadReply::Thread(_) => call is AttachThread,
            LoadReply::Preferences(_) => call matches LoadCall::OpenPreferences { name, mode }
                && name@ == load.service@ + ".secret-store"@ && mode == 0,
            LoadReply::Presence(_) => call matches LoadCall::Contains(key) && key@
                == load.account@,
            LoadReply::Stored(_) => call matches LoadCall::GetString(key) && key@ == load.account@,
            LoadReply::Key(_) => call matches LoadCall::GetOrCreateKey(service) && service@
                == load.service@,
            LoadReply::Decrypted(_) => call matches LoadCall::Decrypt(decryption) && {
                &&& decryption.transformation@ == "AES/GCM/NoPadding"@
                &&& decryption.mode == 2
                &&& decryption.tag_bits == 128
                &&& load.stage matches LoadStage::Decrypted(iv, ciphertext)
                &&& decryption.iv@ == iv@
                &&& decryption.ciphertext@ == ciphertext@
            },
        },
{
}

/// Each reply that a store takes is the reply to the call that it made: the key is the service's, it
/// is the secret that is encrypted, and it goes to the service's preferences under the account.
pub proof fn law_store_calls_name_the_account(
    store: SecretStore,
    call: StoreCall,
    reply: StoreReply,
)
    requires
        store.calls(call),
        store.expects(reply),
    ensures
        match reply {
            StoreReply::Jvm(_) => call is FindJvm,
            StoreReply::Thread(_) => call is AttachThread,
            StoreReply::Key(_) => call matches StoreCall::GetOrCreateKey(service) && service@
                == store.service@,
            StoreReply::Encrypted(_) => call matches StoreCall::Encrypt(encryption) && {
                &&& encryption.transformation@ == "AES/GCM/NoPadding"@
                &&& encryption.mode == 1
                &&& encryption.plaintext@ == store.secret@
            },
            StoreReply::Preferences(_) => call matches StoreCall::OpenPreferences { name, mode }
                && name@ == store.service@ + ".secret-store"@ && mode == 0,
            StoreReply::Persisted(_) => call matches StoreCall::PutString { key, .. } && key@
                == store.account@,
        },
{
}

/// The service's key is asked for under the service's own name and used where it is there; where it
/// is not, one is generated under that name that can encrypt and decrypt, without asking the user.
pub proof fn law_keys_are_the_services_own(
    service: Seq<char>,
    event: KeyEvent,
    action: KeyAction,
)
    requires
        key_step(service, event, action),
    ensures
        event is Requested ==> (action matches KeyAction::Ask { provider, alias } && provider@
            == "AndroidKeyStore"@ && alias@ == service + ".secret-store"@),
        event == KeyEvent::Asked(None) ==> action is Fail,
        event == KeyEvent::Asked(Some(true)) ==> action is UseExisting,
        event == KeyEvent::Asked(Some(false)) ==> (action matches KeyAction::Generate(spec) && {
            &&& spec.alias@ == service + ".secret-store"@
            &&& spec.purposes == 3
            &&& spec.block_mode@ == "GCM"@
            &&& spec.padding@ == "NoPadding"@
            &&& !spec.user_authentication_required
            &&& spec.algorithm@ == "AES"@
            &&& spec.provider@ == "AndroidKeyStore"@
        }),
{
}

/// A reply is the one that the device gives exactly where it says, word for word, what it would
/// reply to this call; it says nothing of any other call.
pub proof fn law_load_hears_the_device(
    load: SecretLoad,
    answer: LoadReply,
    device: Device,
)
    ensures
        match answer {
            LoadReply::Jvm(r) => load.agrees(answer, device) <==> (match r {
                Ok(v) => device.jvm == Ok::<(), Seq<char>>(v),
                Err(e) => device.jvm == Err::<(), Seq<char>>(e@),
            }),
            LoadReply::Thread(r) => load.agrees(answer, device) <==> (match r {
                Ok(v) => device.thread == Ok::<(), Seq<char>>(v),
                Err(e) => device.thread == Err::<(), Seq<char>>(e@),
            }),
            LoadReply::Preferences(opened) => load.agrees(answer, device) <==> (device.preferences == opened),
            LoadReply::Presence(presence) => load.agrees(answer, device) <==> (match presence {
                Presence::Known(found) => device.presence == Ok::<bool, ErrorView>(found),
                Presence::NoKey(e) => device.presence == Err::<bool, ErrorView>(
                    ErrorView::Backend { context: "failed to allocate Android preference key"@, source: e@ },
                ),
                Presence::NoAnswer(e) => device.presence == Err::<bool, ErrorView>(
                    ErrorView::Backend { context: "failed to query Android preference key presence"@, source: e@ },
                ),
                Presence::NoValue(e) => device.presence == Err::<bool, ErrorView>(
                    ErrorView::Backend { context: "failed to decode Android preference key presence"@, source: e@ },
                ),
            }),
            LoadReply::Stored(stored) => load.agrees(answer, device) <==> (match stored {
                Some(s) => device.stored == Some(s@),
                None => device.stored is None,
            }),
            LoadReply::Key(key) => load.agrees(answer, device) <==> (device.key == key),
            LoadReply::Decrypted(secret) => load.agrees(answer, device) <==> (load.stage matches LoadStage::Decrypted(iv, ciphertext) && match secret {
                Some(s) => (device.decrypted)(iv@, ciphertext@) == Some(s@),
                None => (device.decrypted)(iv@, ciphertext@) is None,
            }),
        },
{
}

/// A reply is the one that the device gives exactly where it says, word for word, what it would
/// reply to this call; it says nothing of any other call.
pub proof fn law_store_hears_the_device(
    store: SecretStore,
    answer: StoreReply,
    device: Device,
)
    ensures
        match answer {
            StoreReply::Jvm(r) => store.agrees(answer, device) <==> (match r {
                Ok(v) => device.jvm == Ok::<(), Seq<char>>(v),
                Err(e) => device.jvm == Err::<(), Seq<char>>(e@),
            }),
            StoreReply::Thread(r) => store.agrees(answer, device) <==> (match r {
                Ok(v) => device.thread == Ok::<(), Seq<char>>(v),
                Err(e) => device.thread == Err::<(), Seq<char>>(e@),
            }),
            StoreReply::Key(key) => store.agrees(answer, device) <==> (device.key == key),
            StoreReply::Encrypted(parts) => store.agrees(answer, device) <==> (match parts {
                Some((iv, ciphertext)) => device.encrypted == Some((iv@, ciphertext@)),
                None => device.encrypted is None,
            }),
            StoreReply::Preferences(opened) => store.agrees(answer, device) <==> (device.preferences == opened),
            StoreReply::Persisted(persisted) => store.agrees(answer, device) <==> (device.persisted == persisted),
        },
{
}

} // verus!
