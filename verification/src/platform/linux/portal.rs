//! The secret that a Flatpak application has from the desktop portal, and the keys derived from
//! it.
use crate::digest;
use crate::digest::digest_sha256;
use crate::platform::reply;
use crate::platform::reply::{LoadOutcome, Reply, ReplyView, StoreOutcome};
use crate::secret_store::{ErrorView, SecretStoreError, SecretStoreResult};
use crate::text;
use crate::text::{bytes_eq, push_decimal, str_eq};
use vstd::prelude::*;
use vstd::slice::slice_to_vec;
use vstd::string::*;

verus! {

/// For how many rounds, of a second each, the portal's response is waited for.
pub const FLATPAK_PORTAL_REQUEST_TIMEOUT_SECS: u64 = 15;

/// What a derived key is for.
pub const FLATPAK_SECRET_DERIVE_INFO: &'static str = "hbb-common-flatpak-secret-v1";

/// What a key is derived from: what it is for, the service, the account and the portal's secret,
/// with a zero byte between each two.
pub open spec fn derivation_input(
    service: Seq<char>,
    account: Seq<char>,
    portal_secret: Seq<u8>,
) -> Seq<u8> {
    vstd::utf8::encode_utf8("hbb-common-flatpak-secret-v1"@) + seq![0u8]
        + vstd::utf8::encode_utf8(service) + seq![0u8] + vstd::utf8::encode_utf8(account)
        + seq![0u8] + portal_secret
}

/// The key for a service and an account.
pub open spec fn flatpak_key(
    service: Seq<char>,
    account: Seq<char>,
    portal_secret: Seq<u8>,
) -> Seq<u8> {
    digest::sha256(derivation_input(service, account, portal_secret))
}

/// Derives the key for a service and an account from the portal's secret.
pub fn derive_flatpak_secret(service: &str, account: &str, portal_secret: &[u8]) -> (key: Vec<u8>)
    ensures
        key@ == flatpak_key(service@, account@, portal_secret@),
        key@.len() == 32,
{
    let mut input = slice_to_vec(FLATPAK_SECRET_DERIVE_INFO.as_bytes());
    input.push(0);
    input.append(&mut slice_to_vec(service.as_bytes()));
    input.push(0);
    input.append(&mut slice_to_vec(account.as_bytes()));
    input.push(0);
    input.append(&mut slice_to_vec(portal_secret));
    assert(input@ =~= derivation_input(service@, account@, portal_secret@));
    digest_sha256(input.as_slice())
}

/// Another service, account or portal secret gives another input, as long as the names hold no zero
/// character: no two of them share what their keys are derived from.
pub proof fn law_derivation_inputs_differ(
    service: Seq<char>,
    account: Seq<char>,
    portal_secret: Seq<u8>,
    other_service: Seq<char>,
    other_account: Seq<char>,
    other_secret: Seq<u8>,
)
    requires
        !service.contains('\0'),
        !account.contains('\0'),
        !other_service.contains('\0'),
        !other_account.contains('\0'),
    ensures
        derivation_input(service, account, portal_secret) == derivation_input(
            other_service,
            other_account,
            other_secret,
        ) <==> service == other_service && account == other_account && portal_secret
            == other_secret,
{
    let input = derivation_input(service, account, portal_secret);
    let other = derivation_input(other_service, other_account, other_secret);
    if input == other {
        let info = vstd::utf8::encode_utf8("hbb-common-flatpak-secret-v1"@) + seq![0u8];
        let (s, t) = (vstd::utf8::encode_utf8(service), vstd::utf8::encode_utf8(other_service));
        let (a, b) = (vstd::utf8::encode_utf8(account), vstd::utf8::encode_utf8(other_account));
        let after_s = a + seq![0u8] + portal_secret;
        let after_t = b + seq![0u8] + other_secret;
        text::lemma_no_zero_bytes(service);
        text::lemma_no_zero_bytes(other_service);
        text::lemma_no_zero_bytes(account);
        text::lemma_no_zero_bytes(other_account);
        assert(input.skip(info.len() as int) =~= s + seq![0u8] + after_s);
        assert(other.skip(info.len() as int) =~= t + seq![0u8] + after_t);
        text::lemma_split_at_zero(s, after_s, t, after_t);
        text::lemma_split_at_zero(a, portal_secret, b, other_secret);
        text::lemma_same_bytes_same_text(service, other_service);
        text::lemma_same_bytes_same_text(account, other_account);
    }
}

/// The key for a service and an account, or why the portal did not give its secret.
pub open spec fn flatpak_loaded(
    service: Seq<char>,
    account: Seq<char>,
    portal_secret: LoadOutcome,
) -> LoadOutcome {
    match portal_secret {
        Ok(secret) => Ok(flatpak_key(service, account, secret)),
        Err(e) => Err(e),
    }
}

/// What comes of storing a key: nothing is kept, so it must be the key that is derived anyway.
pub open spec fn flatpak_stored(
    service: Seq<char>,
    account: Seq<char>,
    key: Seq<u8>,
    portal_secret: LoadOutcome,
) -> StoreOutcome {
    match flatpak_loaded(service, account, portal_secret) {
        Ok(expected) => if key == expected {
            Ok(())
        } else {
            Err(
                reply::backend_error(
                    "Flatpak secret backend is read-only"@,
                    "requested secret does not match the portal-derived secret"@,
                ),
            )
        },
        Err(e) => Err(e),
    }
}

/// The key for a service and an account, given what the portal answered.
pub fn load_flatpak_secret_store_key(
    service: &str,
    account: &str,
    portal_secret: SecretStoreResult<Vec<u8>>,
) -> (key: SecretStoreResult<Vec<u8>>)
    ensures
        reply::load_view(key) == flatpak_loaded(
            service@,
            account@,
            reply::load_view(portal_secret),
        ),
{
    match portal_secret {
        Ok(secret) => Ok(derive_flatpak_secret(service, account, secret.as_slice())),
        Err(e) => Err(e),
    }
}

/// Stores a key, given what the portal answered: only the key that is derived can be stored.
pub fn store_flatpak_secret_store_key(
    service: &str,
    account: &str,
    secret: &[u8],
    portal_secret: SecretStoreResult<Vec<u8>>,
) -> (out: SecretStoreResult<()>)
    ensures
        reply::store_view(out) == flatpak_stored(
            service@,
            account@,
            secret@,
            reply::load_view(portal_secret),
        ),
{
    match load_flatpak_secret_store_key(service, account, portal_secret) {
        Ok(expected) => {
            if bytes_eq(secret, expected.as_slice()) {
                Ok(())
            } else {
                Err(
                    SecretStoreError::backend_message(
                        "Flatpak secret backend is read-only",
                        "requested secret does not match the portal-derived secret",
                    ),
                )
            }
        },
        Err(e) => Err(e),
    }
}

/// A key that was loaded can be stored, and no other can.
pub proof fn law_only_the_loaded_key_is_stored(
    service: Seq<char>,
    account: Seq<char>,
    portal_secret: LoadOutcome,
    loaded: Seq<u8>,
    key: Seq<u8>,
)
    requires
        flatpak_loaded(service, account, portal_secret) == Ok::<Seq<u8>, ErrorView>(loaded),
    ensures
        flatpak_stored(service, account, key, portal_secret) is Ok <==> key == loaded,
{
}

/// The name of the file that the portal writes the secret to, which is unlinked at once.
pub fn secret_buffer_name(pid: u32, id: &str) -> (name: String)
    ensures
        name@ == ".hbb-flatpak-secret-"@ + text::decimal(pid as nat) + "-"@ + id@,
{
    let mut name = ".hbb-flatpak-secret-".to_owned();
    push_decimal(&mut name, pid as usize);
    name.append("-");
    name.append(id);
    name
}

/// A response of the portal.
pub struct PortalSignal {
    /// The request that it is for.
    pub path: Option<String>,
    /// Zero where the request succeeded.
    pub response: u32,
    /// How many results come with it.
    pub result_fields: usize,
}

/// What a `PortalSignal` says.
pub struct SignalView {
    pub path: Option<Seq<char>>,
    pub response: nat,
    pub result_fields: nat,
}

impl View for PortalSignal {
    type V = SignalView;

    open spec fn view(&self) -> SignalView {
        SignalView {
            path: reply::maybe_string(self.path),
            response: self.response as nat,
            result_fields: self.result_fields as nat,
        }
    }
}

/// What a signal that was received says.
pub open spec fn maybe_signal(signal: Option<PortalSignal>) -> Option<SignalView> {
    match signal {
        Some(s) => Some(s@),
        None => None,
    }
}

/// What the desktop would reply to each call.
pub struct Portal {
    pub connected: ReplyView<()>,
    pub subscribed: ReplyView<()>,
    pub created: ReplyView<()>,
    pub unlinked: ReplyView<()>,
    pub duplicated: ReplyView<()>,
    /// The path of the request.
    pub requested: ReplyView<Seq<char>>,
    /// The signal that is there at each look, if any.
    pub received: spec_fn(int) -> Option<SignalView>,
    /// Whether anything arrived in each round.
    pub processed: spec_fn(int) -> ReplyView<bool>,
    pub rewound: ReplyView<()>,
    pub read: ReplyView<Seq<u8>>,
}

/// What a look at the signals gives: the one for this request, none, or an error.
pub open spec fn matching(signal: Option<SignalView>, path: Seq<char>) -> Result<
    Option<SignalView>,
    ErrorView,
> {
    match signal {
        None => Ok(None),
        Some(s) => match s.path {
            None => Err(
                reply::backend_error(
                    "failed to retrieve xdg-desktop-portal secret"@,
                    "portal response did not include a request path"@,
                ),
            ),
            Some(p) => if p == path {
                Ok(Some(s))
            } else {
                Ok(None)
            },
        },
    }
}

/// What is said of a response that is no success.
pub open spec fn refusal(response: nat, result_fields: nat) -> Seq<char> {
    if result_fields == 0 {
        "request failed with response code "@ + text::decimal(response)
    } else {
        "request failed with response code "@ + text::decimal(response) + " and "@
            + text::decimal(result_fields) + " result fields"@
    }
}

/// Whether a response is a success.
pub open spec fn accepted(signal: SignalView) -> StoreOutcome {
    if signal.response != 0 {
        Err(
            reply::backend_error(
                "failed to retrieve xdg-desktop-portal secret"@,
                refusal(signal.response, signal.result_fields),
            ),
        )
    } else {
        Ok(())
    }
}

/// The error after the last round.
pub open spec fn timed_out() -> ErrorView {
    reply::backend_error(
        "timed out waiting for xdg-desktop-portal secret response"@,
        "portal request exceeded "@ + text::decimal(15) + " seconds"@,
    )
}

/// What follows from a look at the signals, where it goes on otherwise as given.
pub open spec fn after_look(
    signal: Option<SignalView>,
    path: Seq<char>,
    otherwise: StoreOutcome,
) -> StoreOutcome {
    match matching(signal, path) {
        Err(e) => Err(e),
        Ok(Some(signal)) => accepted(signal),
        Ok(None) => otherwise,
    }
}

/// What follows from a second's wait, where it goes on as given if anything arrived or not.
pub open spec fn after_wait(
    processed: ReplyView<bool>,
    arrived: StoreOutcome,
    otherwise: StoreOutcome,
) -> StoreOutcome {
    match processed {
        Err(e) => Err(
            reply::backend_error(
                "failed while waiting for xdg-desktop-portal secret response"@,
                e,
            ),
        ),
        Ok(any) => if any {
            arrived
        } else {
            otherwise
        },
    }
}

/// Whether the response to a request comes, and is a success: from a round on, with so many looks
/// already taken. In each round there is a look, a second's wait and, where anything arrived in it,
/// another look.
pub open spec fn awaited(portal: Portal, path: Seq<char>, round: int, looks: int) -> StoreOutcome
    decreases FLATPAK_PORTAL_REQUEST_TIMEOUT_SECS - round,
{
    if round >= FLATPAK_PORTAL_REQUEST_TIMEOUT_SECS {
        Err(timed_out())
    } else {
        after_look(
            (portal.received)(looks),
            path,
            after_wait(
                (portal.processed)(round),
                after_look(
                    (portal.received)(looks + 1),
                    path,
                    awaited(portal, path, round + 1, looks + 2),
                ),
                awaited(portal, path, round + 1, looks + 1),
            ),
        )
    }
}

/// What comes of reading the secret.
pub open spec fn from_read(portal: Portal) -> LoadOutcome {
    match portal.read {
        Err(e) => Err(
            reply::backend_error("failed to read xdg-desktop-portal secret buffer"@, e),
        ),
        Ok(secret) => if secret.len() == 0 {
            Err(
                reply::backend_error(
                    "failed to retrieve xdg-desktop-portal secret"@,
                    "portal returned an empty secret buffer"@,
                ),
            )
        } else {
            Ok(secret)
        },
    }
}

/// What comes of rewinding the buffer.
pub open spec fn from_rewound(portal: Portal) -> LoadOutcome {
    match portal.rewound {
        Err(e) => Err(
            reply::backend_error("failed to rewind xdg-desktop-portal secret buffer"@, e),
        ),
        Ok(_) => from_read(portal),
    }
}

/// What comes of the response.
pub open spec fn from_response(portal: Portal, response: StoreOutcome) -> LoadOutcome {
    match response {
        Err(e) => Err(e),
        Ok(_) => from_rewound(portal),
    }
}

/// What comes of the request.
pub open spec fn from_requested(portal: Portal) -> LoadOutcome {
    match portal.requested {
        Err(e) => Err(reply::backend_error("failed to request xdg-desktop-portal secret"@, e)),
        Ok(path) => from_response(portal, awaited(portal, path, 0, 0)),
    }
}

/// What comes of duplicating the buffer's descriptor.
pub open spec fn from_duplicated(portal: Portal) -> LoadOutcome {
    match portal.duplicated {
        Err(e) => Err(
            reply::backend_error(
                "failed to duplicate xdg-desktop-portal secret file descriptor"@,
                e,
            ),
        ),
        Ok(_) => from_requested(portal),
    }
}

/// What comes of unlinking the buffer.
pub open spec fn from_unlinked(portal: Portal) -> LoadOutcome {
    match portal.unlinked {
        Err(e) => Err(
            reply::backend_error("failed to unlink xdg-desktop-portal secret buffer"@, e),
        ),
        Ok(_) => from_duplicated(portal),
    }
}

/// What comes of creating the buffer.
pub open spec fn from_created(portal: Portal) -> LoadOutcome {
    match portal.created {
        Err(e) => Err(
            reply::backend_error("failed to create xdg-desktop-portal secret buffer"@, e),
        ),
        Ok(_) => from_unlinked(portal),
    }
}

/// What comes of subscribing to the response.
pub open spec fn from_subscribed(portal: Portal) -> LoadOutcome {
    match portal.subscribed {
        Err(e) => Err(
            reply::backend_error(
                "failed to subscribe to xdg-desktop-portal secret response"@,
                e,
            ),
        ),
        Ok(_) => from_created(portal),
    }
}

/// The secret that the portal gives, or what goes wrong.
pub open spec fn portal_outcome(portal: Portal) -> LoadOutcome {
    match portal.connected {
        Err(e) => Err(
            reply::backend_error("failed to connect to xdg-desktop-portal session bus"@, e),
        ),
        Ok(_) => from_subscribed(portal),
    }
}

/// Which reply a request waits for.
pub enum PortalStage {
    Connected,
    Subscribed,
    Created,
    Unlinked,
    Duplicated,
    Requested,
    /// The round's first look.
    FirstLook,
    Processed,
    /// The round's second look.
    SecondLook,
    /// The subscription is being removed, after which this is what came of the response.
    Unsubscribed(SecretStoreResult<()>),
    Rewound,
    Read,
    Over,
}

/// A request for the portal's secret.
pub struct PortalRequest {
    pub stage: PortalStage,
    pub path: String,
    pub round: u64,
    /// How many looks were taken at the signals.
    pub looks: u64,
}

/// A reply.
pub enum PortalReply {
    Connected(Reply<()>),
    Subscribed(Reply<()>),
    Created(Reply<()>),
    Unlinked(Reply<()>),
    Duplicated(Reply<()>),
    Requested(Reply<String>),
    /// The signal that was there, if any.
    Looked(Option<PortalSignal>),
    /// Whether anything arrived.
    Processed(Reply<bool>),
    /// The subscription was removed, or could not be.
    Unsubscribed,
    Rewound(Reply<()>),
    Read(Reply<Vec<u8>>),
}

/// The call that is to be made next, or the outcome.
pub enum PortalCall {
    Connect,
    Subscribe,
    CreateBuffer,
    UnlinkBuffer,
    DuplicateDescriptor,
    RetrieveSecret,
    /// Take a signal, if there is one.
    Look,
    /// Wait a second for anything to arrive.
    Process,
    Unsubscribe,
    RewindBuffer,
    ReadBuffer,
    Finish(SecretStoreResult<Vec<u8>>),
}

impl PortalRequest {
    /// Whether a round is in progress.
    pub open spec fn in_round(self) -> bool {
        self.stage is FirstLook || self.stage is Processed || self.stage is SecondLook
    }

    /// A round in progress is one of those allowed for, and no round takes more than two looks.
    pub open spec fn wf(self) -> bool {
        &&& self.in_round() ==> self.round < FLATPAK_PORTAL_REQUEST_TIMEOUT_SECS
        &&& self.looks <= 2 * self.round + (if self.stage is FirstLook {
            0int
        } else if self.in_round() {
            1
        } else {
            2
        })
        &&& self.round <= FLATPAK_PORTAL_REQUEST_TIMEOUT_SECS
        &&& self.stage is Requested ==> self.round == 0 && self.looks == 0
    }

    /// Whether the subscription is to be removed before the request ends.
    pub open spec fn is_subscribed(self) -> bool {
        self.in_round() || self.stage is Unsubscribed
    }

    /// Whether a reply is one to the call that was made.
    pub open spec fn expects(self, reply: PortalReply) -> bool {
        match reply {
            PortalReply::Connected(_) => self.stage is Connected,
            PortalReply::Subscribed(_) => self.stage is Subscribed,
            PortalReply::Created(_) => self.stage is Created,
            PortalReply::Unlinked(_) => self.stage is Unlinked,
            PortalReply::Duplicated(_) => self.stage is Duplicated,
            PortalReply::Requested(_) => self.stage is Requested,
            PortalReply::Looked(_) => self.stage is FirstLook || self.stage is SecondLook,
            PortalReply::Processed(_) => self.stage is Processed,
            PortalReply::Unsubscribed => self.stage is Unsubscribed,
            PortalReply::Rewound(_) => self.stage is Rewound,
            PortalReply::Read(_) => self.stage is Read,
        }
    }

    /// Whether a reply is the one that the desktop gives.
    pub open spec fn agrees(self, answer: PortalReply, portal: Portal) -> bool {
        match answer {
            PortalReply::Connected(r) => reply::plain_reply(r) == portal.connected,
            PortalReply::Subscribed(r) => reply::plain_reply(r) == portal.subscribed,
            PortalReply::Created(r) => reply::plain_reply(r) == portal.created,
            PortalReply::Unlinked(r) => reply::plain_reply(r) == portal.unlinked,
            PortalReply::Duplicated(r) => reply::plain_reply(r) == portal.duplicated,
            PortalReply::Requested(r) => reply::text_reply(r) == portal.requested,
            PortalReply::Looked(signal) => maybe_signal(signal) == (portal.received)(
                self.looks as int,
            ),
            PortalReply::Processed(r) => reply::plain_reply(r) == (portal.processed)(
                self.round as int,
            ),
            PortalReply::Unsubscribed => true,
            PortalReply::Rewound(r) => reply::plain_reply(r) == portal.rewound,
            PortalReply::Read(r) => reply::bytes_reply(r) == portal.read,
        }
    }

    /// What the response will come to, from a round in progress on.
    pub open spec fn response(self, portal: Portal) -> StoreOutcome {
        let path = self.path@;
        let round = self.round as int;
        let looks = self.looks as int;
        match self.stage {
            PortalStage::Processed => after_wait(
                (portal.processed)(round),
                after_look(
                    (portal.received)(looks),
                    path,
                    awaited(portal, path, round + 1, looks + 1),
                ),
                awaited(portal, path, round + 1, looks),
            ),
            PortalStage::SecondLook => after_look(
                (portal.received)(looks),
                path,
                awaited(portal, path, round + 1, looks + 1),
            ),
            _ => awaited(portal, path, round, looks),
        }
    }

    /// What the request will come to.
    pub open spec fn outcome(self, portal: Portal) -> LoadOutcome {
        match self.stage {
            PortalStage::Connected => portal_outcome(portal),
            PortalStage::Subscribed => from_subscribed(portal),
            PortalStage::Created => from_created(portal),
            PortalStage::Unlinked => from_unlinked(portal),
            PortalStage::Duplicated => from_duplicated(portal),
            PortalStage::Requested => from_requested(portal),
            PortalStage::Unsubscribed(result) => from_response(
                portal,
                reply::store_view(result),
            ),
            PortalStage::Rewound => from_rewound(portal),
            PortalStage::Read => from_read(portal),
            PortalStage::Over => Err(ErrorView::NotFound),
            _ => from_response(portal, self.response(portal)),
        }
    }

    /// Whether a call is the one whose reply the request waits for.
    pub open spec fn calls(self, call: PortalCall) -> bool {
        match call {
            PortalCall::Connect => self.stage is Connected,
            PortalCall::Subscribe => self.stage is Subscribed,
            PortalCall::CreateBuffer => self.stage is Created,
            PortalCall::UnlinkBuffer => self.stage is Unlinked,
            PortalCall::DuplicateDescriptor => self.stage is Duplicated,
            PortalCall::RetrieveSecret => self.stage is Requested,
            PortalCall::Look => self.stage is FirstLook || self.stage is SecondLook,
            PortalCall::Process => self.stage is Processed,
            PortalCall::Unsubscribe => self.stage is Unsubscribed,
            PortalCall::RewindBuffer => self.stage is Rewound,
            PortalCall::ReadBuffer => self.stage is Read,
            PortalCall::Finish(_) => self.stage is Over,
        }
    }

    /// How many calls are left at most.
    pub open spec fn left(self) -> nat {
        let rounds = 3 * (FLATPAK_PORTAL_REQUEST_TIMEOUT_SECS - self.round);
        match self.stage {
            PortalStage::Connected => 60,
            PortalStage::Subscribed => 59,
            PortalStage::Created => 58,
            PortalStage::Unlinked => 57,
            PortalStage::Duplicated => 56,
            PortalStage::Requested => 55,
            PortalStage::FirstLook => (4 + rounds) as nat,
            PortalStage::Processed => (3 + rounds) as nat,
            PortalStage::SecondLook => (2 + rounds) as nat,
            PortalStage::Unsubscribed(_) => 3,
            PortalStage::Rewound => 2,
            PortalStage::Read => 1,
            PortalStage::Over => 0,
        }
    }

    /// Ends the request with an error.
    fn fail(&mut self, context: &'static str, source: String) -> (call: PortalCall)
        ensures
            *final(self) == (PortalRequest { stage: PortalStage::Over, ..*old(self) }),
            call matches PortalCall::Finish(result) && reply::load_view(result) == Err::<
                Seq<u8>,
                ErrorView,
            >(reply::backend_error(context@, source@)),
    {
        self.stage = PortalStage::Over;
        PortalCall::Finish(Err(SecretStoreError::backend(context, source)))
    }

    /// Removes the subscription, after which this is what came of the response.
    fn unsubscribe(&mut self, result: SecretStoreResult<()>) -> (call: PortalCall)
        ensures
            *final(self) == (PortalRequest {
                stage: PortalStage::Unsubscribed(result),
                ..*old(self)
            }),
            call is Unsubscribe,
    {
        self.stage = PortalStage::Unsubscribed(result);
        PortalCall::Unsubscribe
    }

    /// Begins the next round, if there is one.
    fn next_round(&mut self) -> (call: PortalCall)
        requires
            old(self).round < FLATPAK_PORTAL_REQUEST_TIMEOUT_SECS,
        ensures
            final(self).path == old(self).path,
            final(self).looks == old(self).looks,
            final(self).round == old(self).round + 1,
            final(self).calls(call),
            final(self).round < FLATPAK_PORTAL_REQUEST_TIMEOUT_SECS ==> final(
                self).stage is FirstLook,
            final(self).round >= FLATPAK_PORTAL_REQUEST_TIMEOUT_SECS ==> (final(
                self).stage matches PortalStage::Unsubscribed(result) && reply::store_view(result)
                == Err::<(), ErrorView>(timed_out())),
    {
        self.round = self.round + 1;
        if self.round < FLATPAK_PORTAL_REQUEST_TIMEOUT_SECS {
            self.stage = PortalStage::FirstLook;
            PortalCall::Look
        } else {
            let mut message = "portal request exceeded ".to_owned();
            push_decimal(&mut message, 15);
            message.append(" seconds");
            self.unsubscribe(
                Err(
                    SecretStoreError::backend(
                        "timed out waiting for xdg-desktop-portal secret response",
                        message,
                    ),
                ),
            )
        }
    }
}

/// What a look at the signals gives: whether there is a response to this request, and whether it
/// is a success.
pub fn take_matching_flatpak_portal_response(signal: Option<PortalSignal>, path: &str) -> (out:
    Option<SecretStoreResult<()>>)
    ensures
        match out {
            None => matching(maybe_signal(signal), path@) == Ok::<Option<SignalView>, ErrorView>(
                None,
            ),
            Some(result) => match matching(maybe_signal(signal), path@) {
                Err(e) => reply::store_view(result) == Err::<(), ErrorView>(e),
                Ok(Some(s)) => reply::store_view(result) == accepted(s),
                Ok(None) => false,
            },
        },
{
    match signal {
        None => None,
        Some(signal) => match &signal.path {
            None => Some(
                Err(
                    SecretStoreError::backend_message(
                        "failed to retrieve xdg-desktop-portal secret",
                        "portal response did not include a request path",
                    ),
                ),
            ),
            Some(p) => {
                if str_eq(p.as_str(), path) {
                    Some(check_response(signal.response, signal.result_fields))
                } else {
                    None
                }
            },
        },
    }
}

/// Whether a response is a success; if not, what is said of it.
pub fn check_response(response: u32, result_fields: usize) -> (out: SecretStoreResult<()>)
    ensures
        reply::store_view(out) == accepted(
            (SignalView {
                path: None,
                response: response as nat,
                result_fields: result_fields as nat,
            }),
        ),
{
    if response == 0 {
        return Ok(());
    }
    let mut detail = "request failed with response code ".to_owned();
    push_decimal(&mut detail, response as usize);
    if result_fields > 0 {
        detail.append(" and ");
        push_decimal(&mut detail, result_fields);
        detail.append(" result fields");
    }
    Err(SecretStoreError::backend("failed to retrieve xdg-desktop-portal secret", detail))
}

/// Begins to retrieve the portal's secret.
pub fn retrieve_flatpak_portal_secret() -> (out: (PortalRequest, PortalCall))
    ensures
        out.0.wf(),
        out.0.calls(out.1),
        forall|portal: Portal| out.0.outcome(portal) == #[trigger] portal_outcome(portal),
{
    let request = PortalRequest {
        stage: PortalStage::Connected,
        path: String::new(),
        round: 0,
        looks: 0,
    };
    (request, PortalCall::Connect)
}

/// Whether a request was carried on well: whatever the desktop is, if the reply agrees with it, the
/// request will come to the same, or it has ended with that.
pub open spec fn request_carried_on(
    before: PortalRequest,
    answer: PortalReply,
    after: PortalRequest,
    call: PortalCall,
) -> bool {
    &&& after.calls(call)
    &&& forall|portal: Portal| #[trigger]
        before.agrees(answer, portal) ==> match call {
            PortalCall::Finish(result) => reply::load_view(result) == before.outcome(portal),
            _ => after.outcome(portal) == before.outcome(portal),
        }
}

impl PortalRequest {
    /// Carries a request on with a reply.
    pub fn step(&mut self, answer: PortalReply) -> (call: PortalCall)
        requires
            old(self).wf(),
            old(self).expects(answer),
        ensures
            final(self).wf(),
            request_carried_on(*old(self), answer, *final(self), call),
            final(self).left() < old(self).left(),
            old(self).in_round() ==> final(self).is_subscribed(),
            answer matches PortalReply::Requested(_) ==> final(self).is_subscribed(),
    {
        match answer {
            PortalReply::Connected(Err(e)) => self.fail(
                "failed to connect to xdg-desktop-portal session bus",
                e,
            ),
            PortalReply::Connected(Ok(_)) => {
                self.stage = PortalStage::Subscribed;
                PortalCall::Subscribe
            },
            PortalReply::Subscribed(Err(e)) => self.fail(
                "failed to subscribe to xdg-desktop-portal secret response",
                e,
            ),
            PortalReply::Subscribed(Ok(_)) => {
                self.stage = PortalStage::Created;
                PortalCall::CreateBuffer
            },
            PortalReply::Created(Err(e)) => self.fail(
                "failed to create xdg-desktop-portal secret buffer",
                e,
            ),
            PortalReply::Created(Ok(_)) => {
                self.stage = PortalStage::Unlinked;
                PortalCall::UnlinkBuffer
            },
            PortalReply::Unlinked(Err(e)) => self.fail(
                "failed to unlink xdg-desktop-portal secret buffer",
                e,
            ),
            PortalReply::Unlinked(Ok(_)) => {
                self.stage = PortalStage::Duplicated;
                PortalCall::DuplicateDescriptor
            },
            PortalReply::Duplicated(Err(e)) => self.fail(
                "failed to duplicate xdg-desktop-portal secret file descriptor",
                e,
            ),
            PortalReply::Duplicated(Ok(_)) => {
                self.round = 0;
                self.looks = 0;
                self.stage = PortalStage::Requested;
                PortalCall::RetrieveSecret
            },
            PortalReply::Requested(Err(e)) => self.unsubscribe(
                Err(SecretStoreError::backend("failed to request xdg-desktop-portal secret", e)),
            ),
            PortalReply::Requested(Ok(path)) => {
                self.path = path;
                self.stage = PortalStage::FirstLook;
                PortalCall::Look
            },
            PortalReply::Looked(signal) => {
                self.looks = self.looks + 1;
                match take_matching_flatpak_portal_response(signal, self.path.as_str()) {
                    Some(result) => self.unsubscribe(result),
                    None => {
                        if let PortalStage::FirstLook = self.stage {
                            self.stage = PortalStage::Processed;
                            PortalCall::Process
                        } else {
                            self.next_round()
                        }
                    },
                }
            },
            PortalReply::Processed(Err(e)) => self.unsubscribe(
                Err(
                    SecretStoreError::backend(
                        "failed while waiting for xdg-desktop-portal secret response",
                        e,
                    ),
                ),
            ),
            PortalReply::Processed(Ok(arrived)) => {
                if arrived {
                    self.stage = PortalStage::SecondLook;
                    PortalCall::Look
                } else {
                    self.next_round()
                }
            },
            PortalReply::Unsubscribed => {
                let mut stage = PortalStage::Rewound;
                std::mem::swap(&mut stage, &mut self.stage);
                match stage {
                    PortalStage::Unsubscribed(Err(e)) => {
                        self.stage = PortalStage::Over;
                        PortalCall::Finish(Err(e))
                    },
                    _ => PortalCall::RewindBuffer,
                }
            },
            PortalReply::Rewound(Err(e)) => self.fail(
                "failed to rewind xdg-desktop-portal secret buffer",
                e,
            ),
            PortalReply::Rewound(Ok(_)) => {
                self.stage = PortalStage::Read;
                PortalCall::ReadBuffer
            },
            PortalReply::Read(Err(e)) => self.fail(
                "failed to read xdg-desktop-portal secret buffer",
                e,
            ),
            PortalReply::Read(Ok(secret)) => {
                if secret.len() == 0 {
                    return self.fail(
                        "failed to retrieve xdg-desktop-portal secret",
                        "portal returned an empty secret buffer".to_owned(),
                    );
                }
                self.stage = PortalStage::Over;
                PortalCall::Finish(Ok(secret))
            },
        }
    }
}

/// A response to another request is passed over, as if it had not come.
pub proof fn law_other_responses_are_passed_over(
    signal: SignalView,
    path: Seq<char>,
    otherwise: StoreOutcome,
)
    requires
        signal.path matches Some(p) && p != path,
    ensures
        after_look(Some(signal), path, otherwise) == after_look(None, path, otherwise),
{
}

/// Where no response ever comes, the request times out.
pub proof fn law_silence_times_out(portal: Portal, path: Seq<char>, round: int, looks: int)
    requires
        forall|i: int| #[trigger] (portal.received)(i) is None,
        forall|i: int| #[trigger] (portal.processed)(i) is Ok,
    ensures
        awaited(portal, path, round, looks) == Err::<(), ErrorView>(timed_out()),
    decreases FLATPAK_PORTAL_REQUEST_TIMEOUT_SECS - round,
{
    if round < FLATPAK_PORTAL_REQUEST_TIMEOUT_SECS {
        law_silence_times_out(portal, path, round + 1, looks + 1);
        law_silence_times_out(portal, path, round + 1, looks + 2);
        assert((portal.received)(looks) is None);
        assert((portal.received)(looks + 1) is None);
        assert((portal.processed)(round) is Ok);
    }
}

/// The portal's secret is never empty, and it is never reported missing: what stands in its way is
/// an error of the backend.
pub proof fn law_portal_secret_is_not_empty(portal: Portal)
    ensures
        portal_outcome(portal) matches Ok(secret) ==> secret.len() > 0,
        portal_outcome(portal) != Err::<Seq<u8>, ErrorView>(ErrorView::NotFound),
{
    if let Ok(path) = portal.requested {
        lemma_awaited_is_not_missing(portal, path, 0, 0);
    }
}

/// Waiting for a response never ends with the secret reported missing.
proof fn lemma_awaited_is_not_missing(portal: Portal, path: Seq<char>, round: int, looks: int)
    ensures
        awaited(portal, path, round, looks) != Err::<(), ErrorView>(ErrorView::NotFound),
    decreases FLATPAK_PORTAL_REQUEST_TIMEOUT_SECS - round,
{
    if round < FLATPAK_PORTAL_REQUEST_TIMEOUT_SECS {
        lemma_awaited_is_not_missing(portal, path, round + 1, looks + 1);
        lemma_awaited_is_not_missing(portal, path, round + 1, looks + 2);
    }
}

/// The key for a service and an account is the SHA-256 digest of what it is for, the service, the
/// account and the portal's secret, each closed off by a zero byte; where the portal gave no
/// secret, its error stands.
pub proof fn law_key_is_the_digest(
    service: Seq<char>,
    account: Seq<char>,
    secret: Seq<u8>,
    error: ErrorView,
    key: Seq<u8>,
)
    ensures
        flatpak_loaded(service, account, Ok(secret)) == Ok::<Seq<u8>, ErrorView>(
            digest::sha256(
                vstd::utf8::encode_utf8("hbb-common-flatpak-secret-v1"@) + seq![0u8]
                    + vstd::utf8::encode_utf8(service) + seq![0u8] + vstd::utf8::encode_utf8(
                    account,
                ) + seq![0u8] + secret,
            ),
        ),
        flatpak_loaded(service, account, Err(error)) == Err::<Seq<u8>, ErrorView>(error),
        flatpak_stored(service, account, key, Err(error)) == Err::<(), ErrorView>(error),
        flatpak_stored(service, account, key, Ok(secret)) is Err ==> flatpak_stored(
            service,
            account,
            key,
            Ok(secret),
        ) == Err::<(), ErrorView>(
            ErrorView::Backend { context: "Flatpak secret backend is read-only"@, source: "requested secret does not match the portal-derived secret"@ },
        ),
{
}

/// The first signal that is a response to the request decides, in whichever round it comes: zero is
/// success, anything else is refused with its code. Signals for other requests are passed over, and
/// one that names no request ends the wait.
pub proof fn law_first_response_decides(
    portal: Portal,
    path: Seq<char>,
    round: int,
    looks: int,
    at: int,
    signal: SignalView,
)
    requires
        0 <= round,
        looks <= at < looks + (15 - round),
        forall|i: int| #[trigger] (portal.processed)(i) is Ok,
        forall|j: int|
            looks <= j < at ==> (#[trigger] (portal.received)(j) matches Some(s)
                ==> s.path matches Some(p) && p != path),
        (portal.received)(at) == Some(signal),
        signal.path matches Some(p) ==> p == path,
    ensures
        signal.path is Some && signal.response == 0 ==> awaited(portal, path, round, looks) is Ok,
        signal.path is Some && signal.response != 0 && signal.result_fields == 0 ==> awaited(
            portal,
            path,
            round,
            looks,
        ) == Err::<(), ErrorView>(
            ErrorView::Backend { context: "failed to retrieve xdg-desktop-portal secret"@, source: "request failed with response code "@ + text::decimal(signal.response) },
        ),
        signal.path is Some && signal.response != 0 && signal.result_fields > 0 ==> awaited(
            portal,
            path,
            round,
            looks,
        ) == Err::<(), ErrorView>(
            ErrorView::Backend { context: "failed to retrieve xdg-desktop-portal secret"@, source: "request failed with response code "@ + text::decimal(signal.response) + " and "@
                    + text::decimal(signal.result_fields) + " result fields"@ },
        ),
        signal.path is None ==> awaited(portal, path, round, looks) == Err::<(), ErrorView>(
            ErrorView::Backend { context: "failed to retrieve xdg-desktop-portal secret"@, source: "portal response did not include a request path"@ },
        ),
    decreases at - looks,
{
    assert((portal.processed)(round) is Ok);
    if looks < at {
        assert(matching((portal.received)(looks), path) == Ok::<Option<SignalView>, ErrorView>(
            None,
        ));
        law_first_response_decides(portal, path, round + 1, looks + 1, at, signal);
        if looks + 1 < at {
            assert(matching((portal.received)(looks + 1), path) == Ok::<
                Option<SignalView>,
                ErrorView,
            >(None));
            law_first_response_decides(portal, path, round + 1, looks + 2, at, signal);
        }
    }
}

/// There is no success without a response: where the wait succeeds, a signal for this very request
/// with the code zero has come, and none before it was for this request.
pub proof fn law_success_needs_a_response(
    portal: Portal,
    path: Seq<char>,
    round: int,
    looks: int,
) -> (at: int)
    requires
        awaited(portal, path, round, looks) is Ok,
    ensures
        at >= looks,
        (portal.received)(at) matches Some(s) && s.path == Some(path) && s.response == 0,
        forall|j: int|
            looks <= j < at ==> (#[trigger] (portal.received)(j) matches Some(s)
                ==> s.path matches Some(p) && p != path),
    decreases 15 - round,
{
    match matching((portal.received)(looks), path) {
        Ok(Some(_)) => looks,
        _ => {
            if (portal.processed)(round) == Ok::<bool, Seq<char>>(true) {
                match matching((portal.received)(looks + 1), path) {
                    Ok(Some(_)) => looks + 1,
                    _ => law_success_needs_a_response(portal, path, round + 1, looks + 2),
                }
            } else {
                law_success_needs_a_response(portal, path, round + 1, looks + 1)
            }
        },
    }
}

/// The wait ends with the error of the first round in which waiting fails, and after fifteen rounds
/// without a response with the report of a timeout.
pub proof fn law_wait_fails_or_times_out(
    portal: Portal,
    path: Seq<char>,
    round: int,
    looks: int,
    failing: int,
    error: Seq<char>,
)
    requires
        0 <= round <= failing <= 15,
        forall|j: int|
            looks <= j ==> (#[trigger] (portal.received)(j) matches Some(s)
                ==> s.path matches Some(p) && p != path),
        forall|i: int| round <= i < failing ==> #[trigger] (portal.processed)(i) is Ok,
        failing < 15 ==> (portal.processed)(failing) == Err::<bool, Seq<char>>(error),
    ensures
        failing < 15 ==> awaited(portal, path, round, looks) == Err::<(), ErrorView>(
            ErrorView::Backend { context: "failed while waiting for xdg-desktop-portal secret response"@, source: error },
        ),
        failing == 15 ==> awaited(portal, path, round, looks) == Err::<(), ErrorView>(
            ErrorView::Backend { context: "timed out waiting for xdg-desktop-portal secret response"@, source: "portal request exceeded "@ + seq!['1', '5'] + " seconds"@ },
        ),
    decreases 15 - round,
{
    reveal_with_fuel(text::decimal, 3);
    assert(text::decimal(15) =~= seq!['1', '5']);
    if round < 15 {
        assert(matching((portal.received)(looks), path) == Ok::<Option<SignalView>, ErrorView>(
            None,
        ));
        assert(matching((portal.received)(looks + 1), path) == Ok::<
            Option<SignalView>,
            ErrorView,
        >(None));
        if round < failing {
            assert((portal.processed)(round) is Ok);
            law_wait_fails_or_times_out(portal, path, round + 1, looks + 1, failing, error);
            law_wait_fails_or_times_out(portal, path, round + 1, looks + 2, failing, error);
        }
    }
}

/// The portal's secret is what was read from the buffer, once every call has succeeded and the
/// response to the request has come; an empty buffer is refused. Otherwise the first call that
/// failed decides what is reported, in its own words.
pub proof fn law_secret_is_what_was_read(portal: Portal)
    ensures
        portal.connected matches Err(e) ==> portal_outcome(portal) == Err::<Seq<u8>, ErrorView>(
            ErrorView::Backend { context: "failed to connect to xdg-desktop-portal session bus"@, source: e },
        ),
        portal.connected is Ok ==> (portal.subscribed matches Err(e) ==> portal_outcome(portal) == Err::<Seq<u8>, ErrorView>(
            ErrorView::Backend { context: "failed to subscribe to xdg-desktop-portal secret response"@, source: e },
        )),
        portal.connected is Ok && portal.subscribed is Ok ==> (portal.created matches Err(e) ==> portal_outcome(portal) == Err::<Seq<u8>, ErrorView>(
            ErrorView::Backend { context: "failed to create xdg-desktop-portal secret buffer"@, source: e },
        )),
        portal.connected is Ok && portal.subscribed is Ok && portal.created is Ok ==> (portal.unlinked matches Err(e) ==> portal_outcome(portal) == Err::<Seq<u8>, ErrorView>(
            ErrorView::Backend { context: "failed to unlink xdg-desktop-portal secret buffer"@, source: e },
        )),
        portal.connected is Ok && portal.subscribed is Ok && portal.created is Ok && portal.unlinked is Ok ==> (portal.duplicated matches Err(e) ==> portal_outcome(portal) == Err::<Seq<u8>, ErrorView>(
            ErrorView::Backend { context: "failed to duplicate xdg-desktop-portal secret file descriptor"@, source: e },
        )),
        portal.connected is Ok && portal.subscribed is Ok && portal.created is Ok && portal.unlinked is Ok && portal.duplicated is Ok ==> (portal.requested matches Err(e) ==> portal_outcome(portal) == Err::<Seq<u8>, ErrorView>(
            ErrorView::Backend { context: "failed to request xdg-desktop-portal secret"@, source: e },
        )),
        portal.connected is Ok && portal.subscribed is Ok && portal.created is Ok && portal.unlinked is Ok && portal.duplicated is Ok ==> (portal.requested matches Ok(path) ==> match
        awaited(portal, path, 0, 0) {
            Err(e) => portal_outcome(portal) == Err::<Seq<u8>, ErrorView>(e),
            Ok(_) => match (portal.rewound, portal.read) {
                (Err(e), _) => portal_outcome(portal) == Err::<Seq<u8>, ErrorView>(
            ErrorView::Backend { context: "failed to rewind xdg-desktop-portal secret buffer"@, source: e },
        ),
                (Ok(_), Err(e)) => portal_outcome(portal) == Err::<Seq<u8>, ErrorView>(
            ErrorView::Backend { context: "failed to read xdg-desktop-portal secret buffer"@, source: e },
        ),
                (Ok(_), Ok(secret)) => {
                    &&& secret.len() > 0 ==> portal_outcome(portal) == Ok::<Seq<u8>, ErrorView>(
                        secret,
                    )
                    &&& secret.len() == 0 ==> portal_outcome(portal) == Err::<Seq<u8>, ErrorView>(
            ErrorView::Backend { context: "failed to retrieve xdg-desktop-portal secret"@, source: "portal returned an empty secret buffer"@ },
        )
                },
            },
        }),
{
}

/// Each reply that a request takes is the reply to the call that it made.
pub proof fn law_replies_answer_the_calls(
    request: PortalRequest,
    call: PortalCall,
    answer: PortalReply,
)
    requires
        request.calls(call),
        request.expects(answer),
    ensures
        match answer {
            PortalReply::Connected(_) => call is Connect,
            PortalReply::Subscribed(_) => call is Subscribe,
            PortalReply::Created(_) => call is CreateBuffer,
            PortalReply::Unlinked(_) => call is UnlinkBuffer,
            PortalReply::Duplicated(_) => call is DuplicateDescriptor,
            PortalReply::Requested(_) => call is RetrieveSecret,
            PortalReply::Looked(_) => call is Look,
            PortalReply::Processed(_) => call is Process,
            PortalReply::Unsubscribed => call is Unsubscribe,
            PortalReply::Rewound(_) => call is RewindBuffer,
            PortalReply::Read(_) => call is ReadBuffer,
        },
{
}

/// A request ends with a secret only upon the reply that holds this very secret.
pub proof fn law_retrieved_secret_is_the_reply(
    before: PortalRequest,
    answer: PortalReply,
    after: PortalRequest,
    result: SecretStoreResult<Vec<u8>>,
)
    requires
        before.wf(),
        before.expects(answer),
        request_carried_on(before, answer, after, PortalCall::Finish(result)),
        result is Ok,
    ensures
        answer matches PortalReply::Read(Ok(secret)) && secret@ == result->Ok_0@ && secret@.len()
            > 0,
{
    let portal = Portal {
        connected: Err(seq![]),
        subscribed: Err(seq![]),
        created: Err(seq![]),
        unlinked: Err(seq![]),
        duplicated: Err(seq![]),
        requested: Err(seq![]),
        received: |i: int| if let PortalReply::Looked(signal) = answer {
            maybe_signal(signal)
        } else {
            None
        },
        processed: |i: int| if let PortalReply::Processed(r) = answer {
            reply::plain_reply(r)
        } else {
            Err(seq![])
        },
        rewound: Err(seq![]),
        read: Err(seq![]),
    };
    let portal = match answer {
        PortalReply::Connected(r) => Portal { connected: reply::plain_reply(r), ..portal },
        PortalReply::Subscribed(r) => Portal { subscribed: reply::plain_reply(r), ..portal },
        PortalReply::Created(r) => Portal { created: reply::plain_reply(r), ..portal },
        PortalReply::Unlinked(r) => Portal { unlinked: reply::plain_reply(r), ..portal },
        PortalReply::Duplicated(r) => Portal { duplicated: reply::plain_reply(r), ..portal },
        PortalReply::Requested(r) => Portal { requested: reply::text_reply(r), ..portal },
        PortalReply::Rewound(r) => Portal { rewound: reply::plain_reply(r), ..portal },
        PortalReply::Read(r) => Portal { read: reply::bytes_reply(r), ..portal },
        _ => portal,
    };
    assert(before.agrees(answer, portal));
}

/// A reply is the one that the desktop gives exactly where it says, word for word, what it would
/// reply to this call; it says nothing of any other call.
pub proof fn law_request_hears_the_desktop(
    request: PortalRequest,
    answer: PortalReply,
    portal: Portal,
)
    ensures
        match answer {
            PortalReply::Connected(r) => request.agrees(answer, portal) <==> (match r {
                Ok(v) => portal.connected == Ok::<(), Seq<char>>(v),
                Err(e) => portal.connected == Err::<(), Seq<char>>(e@),
            }),
            PortalReply::Subscribed(r) => request.agrees(answer, portal) <==> (match r {
                Ok(v) => portal.subscribed == Ok::<(), Seq<char>>(v),
                Err(e) => portal.subscribed == Err::<(), Seq<char>>(e@),
            }),
            PortalReply::Created(r) => request.agrees(answer, portal) <==> (match r {
                Ok(v) => portal.created == Ok::<(), Seq<char>>(v),
                Err(e) => portal.created == Err::<(), Seq<char>>(e@),
            }),
            PortalReply::Unlinked(r) => request.agrees(answer, portal) <==> (match r {
                Ok(v) => portal.unlinked == Ok::<(), Seq<char>>(v),
                Err(e) => portal.unlinked == Err::<(), Seq<char>>(e@),
            }),
            PortalReply::Duplicated(r) => request.agrees(answer, portal) <==> (match r {
                Ok(v) => portal.duplicated == Ok::<(), Seq<char>>(v),
                Err(e) => portal.duplicated == Err::<(), Seq<char>>(e@),
            }),
            PortalReply::Rewound(r) => request.agrees(answer, portal) <==> (match r {
                Ok(v) => portal.rewound == Ok::<(), Seq<char>>(v),
                Err(e) => portal.rewound == Err::<(), Seq<char>>(e@),
            }),
            PortalReply::Requested(r) => request.agrees(answer, portal) <==> (match r {
                Ok(v) => portal.requested == Ok::<Seq<char>, Seq<char>>(v@),
                Err(e) => portal.requested == Err::<Seq<char>, Seq<char>>(e@),
            }),
            PortalReply::Read(r) => request.agrees(answer, portal) <==> (match r {
                Ok(v) => portal.read == Ok::<Seq<u8>, Seq<char>>(v@),
                Err(e) => portal.read == Err::<Seq<u8>, Seq<char>>(e@),
            }),
            PortalReply::Looked(signal) => request.agrees(answer, portal) <==> ((portal.received)(request.looks as int) == maybe_signal(signal)),
            PortalReply::Processed(r) => request.agrees(answer, portal) <==> (match r {
                Ok(v) => (portal.processed)(request.round as int) == Ok::<bool, Seq<char>>(v),
                Err(e) => (portal.processed)(request.round as int) == Err::<bool, Seq<char>>(e@),
            }),
            PortalReply::Unsubscribed => request.agrees(answer, portal) <==> (true),
        },
{
}

} // verus!
