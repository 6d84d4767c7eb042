//! A secret in the Secret Service, loaded or stored by one call after another.
use crate::platform::reply;
use crate::platform::reply::{LoadOutcome, Reply, ReplyView, StoreOutcome};
use crate::secret_store::{ErrorView, SecretStoreError, SecretStoreResult};
use vstd::prelude::*;
use vstd::slice::slice_to_vec;
use vstd::string::*;

verus! {

/// What the Secret Service would reply to each call that loading makes.
pub struct Items {
    pub connected: ReplyView<()>,
    /// How many items were found unlocked, and how many locked.
    pub found: ReplyView<(usize, usize)>,
    pub unlocked: ReplyView<()>,
    /// The secret of each item: those that were unlocked first, then the others.
    pub secrets: spec_fn(int) -> ReplyView<Seq<u8>>,
}

/// The first secret from an item on that can be read; where there is none, the last error.
pub open spec fn first_secret(
    items: Items,
    i: int,
    n: int,
    last_error: Option<Seq<char>>,
) -> LoadOutcome
    decreases n - i,
{
    if i < n {
        match (items.secrets)(i) {
            Ok(secret) => Ok(secret),
            Err(e) => first_secret(items, i + 1, n, Some(e)),
        }
    } else if n > 0 {
        Err(
            reply::backend_error(
                "failed to read secret from Linux Secret Service"@,
                match last_error {
                    Some(e) => e,
                    None => "unknown secret read error"@,
                },
            ),
        )
    } else {
        Err(ErrorView::NotFound)
    }
}

/// What a load comes to, once the items have been found.
pub open spec fn load_found(items: Items, unlocked: usize, locked: usize) -> LoadOutcome {
    if locked > 0 {
        match items.unlocked {
            Err(e) => Err(reply::backend_error("failed to unlock Linux Secret Service items"@, e)),
            Ok(_) => first_secret(items, 0, unlocked + locked, None),
        }
    } else {
        first_secret(items, 0, unlocked + locked, None)
    }
}

/// What a load comes to, once the service is connected.
pub open spec fn load_connected(items: Items) -> LoadOutcome {
    match items.found {
        Err(e) => Err(reply::backend_error("failed to search Linux Secret Service items"@, e)),
        Ok((unlocked, locked)) => load_found(items, unlocked, locked),
    }
}

/// What a load comes to: locked items are unlocked, and the first secret that can be read is
/// taken.
pub open spec fn load_outcome(items: Items) -> LoadOutcome {
    match items.connected {
        Err(e) => Err(reply::backend_error("failed to connect to Linux Secret Service"@, e)),
        Ok(_) => load_connected(items),
    }
}

/// Which reply a load waits for.
#[derive(Debug, Clone, Copy)]
pub enum LoadStage {
    Connected,
    Found,
    Unlocked { unlocked: usize, locked: usize },
    /// The secret of the item with this number, of so many.
    Secret { item: usize, count: usize },
    Over,
}

/// The attributes by which an item is found again.
pub struct ItemAttributes {
    pub service: String,
    pub account: String,
}

/// Whether these are the attributes of a service and an account.
pub open spec fn attributes_of(
    attributes: ItemAttributes,
    service: Seq<char>,
    account: Seq<char>,
) -> bool {
    attributes.service@ == service && attributes.account@ == account
}

/// A load in progress.
pub struct ServiceLoad {
    pub service: String,
    pub account: String,
    pub stage: LoadStage,
    pub last_error: Option<String>,
}

/// A reply of the Secret Service.
pub enum LoadReply {
    Connected(Reply<()>),
    /// How many items were found unlocked, and how many locked.
    Found(Reply<(usize, usize)>),
    Unlocked(Reply<()>),
    Secret(Reply<Vec<u8>>),
}

/// The call that is to be made next, or the outcome.
pub enum LoadCall {
    Connect,
    /// Search for the items with these attributes.
    SearchItems(ItemAttributes),
    /// Unlock all items that were found locked.
    UnlockAll,
    /// Get the secret of the item with this number.
    GetSecret(usize),
    Finish(SecretStoreResult<Vec<u8>>),
}

impl ServiceLoad {
    /// The numbers that a load counts with fit, and an error is kept only while secrets are read.
    pub open spec fn wf(self) -> bool {
        match self.stage {
            LoadStage::Unlocked { unlocked, locked } => unlocked + locked <= usize::MAX && locked
                > 0 && self.last_error is None,
            LoadStage::Secret { item, count } => item < count,
            LoadStage::Over => true,
            _ => self.last_error is None,
        }
    }

    /// Whether a reply is one to the call that was made.
    pub open spec fn expects(self, reply: LoadReply) -> bool {
        match reply {
            LoadReply::Connected(_) => self.stage is Connected,
            LoadReply::Found(found) => self.stage is Found && (found matches Ok((unlocked, locked))
                ==> unlocked + locked <= usize::MAX),
            LoadReply::Unlocked(_) => self.stage is Unlocked,
            LoadReply::Secret(_) => self.stage is Secret,
        }
    }

    /// Whether a reply is the one that the service gives.
    pub open spec fn agrees(self, reply: LoadReply, items: Items) -> bool {
        match reply {
            LoadReply::Connected(r) => reply::plain_reply(r) == items.connected,
            LoadReply::Found(r) => reply::plain_reply(r) == items.found,
            LoadReply::Unlocked(r) => reply::plain_reply(r) == items.unlocked,
            LoadReply::Secret(r) => self.stage matches LoadStage::Secret { item, .. } && reply::bytes_reply(
                r,
            ) == (items.secrets)(item as int),
        }
    }

    /// What the load will come to.
    pub open spec fn outcome(self, items: Items) -> LoadOutcome {
        match self.stage {
            LoadStage::Connected => load_outcome(items),
            LoadStage::Found => load_connected(items),
            LoadStage::Unlocked { unlocked, locked } => load_found(items, unlocked, locked),
            LoadStage::Secret { item, count } => first_secret(
                items,
                item as int,
                count as int,
                reply::maybe_string(self.last_error),
            ),
            LoadStage::Over => Err(ErrorView::NotFound),
        }
    }

    /// Whether a call is the one whose reply the load waits for.
    pub open spec fn calls(self, call: LoadCall) -> bool {
        match call {
            LoadCall::Connect => self.stage is Connected,
            LoadCall::SearchItems(attributes) => self.stage is Found && attributes_of(
                attributes,
                self.service@,
                self.account@,
            ),
            LoadCall::UnlockAll => self.stage is Unlocked,
            LoadCall::GetSecret(i) => self.stage matches LoadStage::Secret { item, .. } && item
                == i,
            LoadCall::Finish(_) => self.stage is Over,
        }
    }

    /// How many calls are left at most. How many items there are is known once they are found.
    pub open spec fn left(self) -> nat {
        match self.stage {
            LoadStage::Connected => (usize::MAX + 3) as nat,
            LoadStage::Found => (usize::MAX + 2) as nat,
            LoadStage::Unlocked { .. } => (usize::MAX + 1) as nat,
            LoadStage::Secret { item, count } => (count - item) as nat,
            LoadStage::Over => 0,
        }
    }

    /// Reads the first secret, if there is any item.
    fn read_items(&mut self, count: usize) -> (call: LoadCall)
        requires
            old(self).last_error is None,
        ensures
            final(self).wf(),
            final(self).service == old(self).service,
            final(self).account == old(self).account,
            final(self).calls(call),
            !(call is Finish) ==> final(self).stage is Secret,
            forall|items: Items|
                #![trigger first_secret(items, 0, count as int, None)]
                match call {
                    LoadCall::Finish(result) => reply::load_view(result) == first_secret(
                        items,
                        0,
                        count as int,
                        None,
                    ),
                    _ => final(self).outcome(items) == first_secret(items, 0, count as int, None),
                },
    {
        if count == 0 {
            self.stage = LoadStage::Over;
            LoadCall::Finish(Err(SecretStoreError::NotFound))
        } else {
            self.stage = LoadStage::Secret { item: 0, count };
            LoadCall::GetSecret(0)
        }
    }

    /// Ends the load with an error of the backend.
    fn fail(&mut self, context: &'static str, source: String) -> (call: LoadCall)
        ensures
            final(self).wf(),
            final(self).service == old(self).service,
            final(self).account == old(self).account,
            final(self).stage is Over,
            call matches LoadCall::Finish(result) && reply::load_view(result) == Err::<
                Seq<u8>,
                ErrorView,
            >(reply::backend_error(context@, source@)),
    {
        self.stage = LoadStage::Over;
        LoadCall::Finish(Err(SecretStoreError::backend(context, source)))
    }

    /// Carries a load on with a reply.
    pub fn step(&mut self, reply: LoadReply) -> (call: LoadCall)
        requires
            old(self).wf(),
            old(self).expects(reply),
        ensures
            final(self).wf(),
            final(self).service == old(self).service,
            final(self).account == old(self).account,
            final(self).calls(call),
            final(self).left() < old(self).left(),
            forall|items: Items| #[trigger]
                old(self).agrees(reply, items) ==> match call {
                    LoadCall::Finish(result) => reply::load_view(result) == old(self).outcome(items),
                    _ => final(self).outcome(items) == old(self).outcome(items),
                },
    {
        match reply {
            LoadReply::Connected(Err(e)) => self.fail(
                "failed to connect to Linux Secret Service",
                e,
            ),
            LoadReply::Connected(Ok(_)) => {
                self.stage = LoadStage::Found;
                let attributes = ItemAttributes {
                    service: self.service.clone(),
                    account: self.account.clone(),
                };
                LoadCall::SearchItems(attributes)
            },
            LoadReply::Found(Err(e)) => self.fail(
                "failed to search Linux Secret Service items",
                e,
            ),
            LoadReply::Found(Ok((unlocked, locked))) => {
                if locked > 0 {
                    self.stage = LoadStage::Unlocked { unlocked, locked };
                    LoadCall::UnlockAll
                } else {
                    self.read_items(unlocked)
                }
            },
            LoadReply::Unlocked(Err(e)) => self.fail(
                "failed to unlock Linux Secret Service items",
                e,
            ),
            LoadReply::Unlocked(Ok(_)) => {
                let count: usize = match self.stage {
                    LoadStage::Unlocked { unlocked, locked } => unlocked + locked,
                    _ => 0,
                };
                self.read_items(count)
            },
            LoadReply::Secret(Ok(secret)) => {
                self.stage = LoadStage::Over;
                LoadCall::Finish(Ok(secret))
            },
            LoadReply::Secret(Err(e)) => {
                let (item, count): (usize, usize) = match self.stage {
                    LoadStage::Secret { item, count } => (item, count),
                    _ => (0, 1),
                };
                if item + 1 < count {
                    self.last_error = Some(e);
                    self.stage = LoadStage::Secret { item: item + 1, count };
                    LoadCall::GetSecret(item + 1)
                } else {
                    proof {
                        reveal_with_fuel(first_secret, 2);
                    }
                    self.fail("failed to read secret from Linux Secret Service", e)
                }
            },
        }
    }
}

/// Begins to load a secret from the Secret Service.
pub fn load_secret_store_key(service: &str, account: &str) -> (out: (ServiceLoad, LoadCall))
    ensures
        out.0.wf(),
        out.0.service@ == service@,
        out.0.account@ == account@,
        out.0.calls(out.1),
        forall|items: Items| out.0.outcome(items) == #[trigger] load_outcome(items),
{
    let load = ServiceLoad {
        service: service.to_owned(),
        account: account.to_owned(),
        stage: LoadStage::Connected,
        last_error: None,
    };
    (load, LoadCall::Connect)
}

/// A secret is reported missing only where the service said that it has no such item: never
/// because something failed.
pub proof fn law_not_found_means_no_items(items: Items)
    requires
        load_outcome(items) == Err::<Seq<u8>, ErrorView>(ErrorView::NotFound),
    ensures
        items.connected is Ok,
        items.found == Ok::<(usize, usize), Seq<char>>((0, 0)),
{
    if let Ok((unlocked, locked)) = items.found {
        if unlocked + locked > 0 {
            lemma_items_are_found(items, 0, unlocked + locked, None);
        }
    }
}

/// Where there is an item, the outcome is not that there is none.
proof fn lemma_items_are_found(items: Items, i: int, n: int, last_error: Option<Seq<char>>)
    requires
        0 <= i <= n,
        n > 0,
    ensures
        first_secret(items, i, n, last_error) != Err::<Seq<u8>, ErrorView>(ErrorView::NotFound),
    decreases n - i,
{
    if i < n {
        if let Err(e) = (items.secrets)(i) {
            lemma_items_are_found(items, i + 1, n, Some(e));
        }
    }
}

/// Items whose secret cannot be read are passed over: from an item on, the first secret that can
/// be read is loaded.
pub proof fn law_first_readable_secret_is_loaded(
    items: Items,
    i: int,
    found: int,
    n: int,
    last_error: Option<Seq<char>>,
    secret: Seq<u8>,
)
    requires
        i <= found < n,
        forall|j: int| i <= j < found ==> #[trigger] (items.secrets)(j) is Err,
        (items.secrets)(found) == Ok::<Seq<u8>, Seq<char>>(secret),
    ensures
        first_secret(items, i, n, last_error) == Ok::<Seq<u8>, ErrorView>(secret),
    decreases found - i,
{
    if i < found {
        assert((items.secrets)(i) is Err);
        law_first_readable_secret_is_loaded(
            items,
            i + 1,
            found,
            n,
            Some((items.secrets)(i)->Err_0),
            secret,
        );
    }
}

/// What the Secret Service would reply to each call that storing makes.
pub struct Collection {
    pub connected: ReplyView<()>,
    pub collection: ReplyView<()>,
    pub locked: ReplyView<bool>,
    pub unlocked: ReplyView<()>,
    pub created: ReplyView<()>,
}

/// What comes of creating the item.
pub open spec fn store_created(c: Collection) -> StoreOutcome {
    match c.created {
        Err(e) => Err(reply::backend_error("failed to create Linux Secret Service item"@, e)),
        Ok(_) => Ok(()),
    }
}

/// What comes of unlocking the collection.
pub open spec fn store_unlocked(c: Collection) -> StoreOutcome {
    match c.unlocked {
        Err(e) => Err(reply::backend_error("failed to unlock Linux Secret Service collection"@, e)),
        Ok(_) => store_created(c),
    }
}

/// What follows from whether the collection is locked.
pub open spec fn store_locked(c: Collection) -> StoreOutcome {
    match c.locked {
        Err(e) => Err(reply::backend_error("failed to query Linux Secret Service lock state"@, e)),
        Ok(locked) => if locked {
            store_unlocked(c)
        } else {
            store_created(c)
        },
    }
}

/// What comes of asking for the collection.
pub open spec fn store_collection(c: Collection) -> StoreOutcome {
    match c.collection {
        Err(e) => Err(reply::backend_error("failed to get Linux Secret Service collection"@, e)),
        Ok(_) => store_locked(c),
    }
}

/// What a store comes to: the default collection is unlocked where it is locked, and the item is
/// created in it.
pub open spec fn store_outcome(c: Collection) -> StoreOutcome {
    match c.connected {
        Err(e) => Err(reply::backend_error("failed to connect to Linux Secret Service"@, e)),
        Ok(_) => store_collection(c),
    }
}

/// Which reply a store waits for.
#[derive(Debug, Clone, Copy, PartialEq, Eq, Structural)]
pub enum StoreStage {
    Connected,
    Collection,
    Locked,
    Unlocked,
    Created,
    Over,
}

/// A store in progress.
pub struct ServiceStore {
    pub service: String,
    pub account: String,
    pub secret: Vec<u8>,
    pub stage: StoreStage,
}

/// A reply of the Secret Service.
pub enum StoreReply {
    Connected(Reply<()>),
    Collection(Reply<()>),
    Locked(Reply<bool>),
    Unlocked(Reply<()>),
    Created(Reply<()>),
}

/// An item that is to be created.
pub struct NewItem {
    pub label: String,
    pub attributes: ItemAttributes,
    pub secret: Vec<u8>,
    /// Whether it replaces an item with the same attributes.
    pub replace: bool,
    pub content_type: &'static str,
}

/// The call that is to be made next, or the outcome.
pub enum StoreCall {
    Connect,
    DefaultCollection,
    IsLocked,
    Unlock,
    CreateItem(NewItem),
    Finish(SecretStoreResult<()>),
}

/// The label of an item.
pub open spec fn item_label(service: Seq<char>, account: Seq<char>) -> Seq<char> {
    service + " "@ + account
}

impl ServiceStore {
    /// Whether a reply is one to the call that was made.
    pub open spec fn expects(self, reply: StoreReply) -> bool {
        match reply {
            StoreReply::Connected(_) => self.stage is Connected,
            StoreReply::Collection(_) => self.stage is Collection,
            StoreReply::Locked(_) => self.stage is Locked,
            StoreReply::Unlocked(_) => self.stage is Unlocked,
            StoreReply::Created(_) => self.stage is Created,
        }
    }

    /// Whether a reply is the one that the service gives.
    pub open spec fn agrees(self, reply: StoreReply, c: Collection) -> bool {
        match reply {
            StoreReply::Connected(r) => reply::plain_reply(r) == c.connected,
            StoreReply::Collection(r) => reply::plain_reply(r) == c.collection,
            StoreReply::Locked(r) => reply::plain_reply(r) == c.locked,
            StoreReply::Unlocked(r) => reply::plain_reply(r) == c.unlocked,
            StoreReply::Created(r) => reply::plain_reply(r) == c.created,
        }
    }

    /// What the store will come to.
    pub open spec fn outcome(self, c: Collection) -> StoreOutcome {
        match self.stage {
            StoreStage::Connected => store_outcome(c),
            StoreStage::Collection => store_collection(c),
            StoreStage::Locked => store_locked(c),
            StoreStage::Unlocked => store_unlocked(c),
            StoreStage::Created => store_created(c),
            StoreStage::Over => Ok(()),
        }
    }

    /// Whether a call is the one whose reply the store waits for.
    pub open spec fn calls(self, call: StoreCall) -> bool {
        match call {
            StoreCall::Connect => self.stage is Connected,
            StoreCall::DefaultCollection => self.stage is Collection,
            StoreCall::IsLocked => self.stage is Locked,
            StoreCall::Unlock => self.stage is Unlocked,
            StoreCall::CreateItem(item) => {
                &&& self.stage is Created
                &&& item.label@ == item_label(self.service@, self.account@)
                &&& attributes_of(item.attributes, self.service@, self.account@)
                &&& item.secret@ == self.secret@
                &&& item.replace
                &&& item.content_type@ == "application/octet-stream"@
            },
            StoreCall::Finish(_) => self.stage is Over,
        }
    }

    /// How many calls are left at most.
    pub open spec fn left(self) -> nat {
        match self.stage {
            StoreStage::Connected => 5,
            StoreStage::Collection => 4,
            StoreStage::Locked => 3,
            StoreStage::Unlocked => 2,
            StoreStage::Created => 1,
            StoreStage::Over => 0,
        }
    }

    /// Ends the store with an error of the backend.
    fn fail(&mut self, context: &'static str, source: String) -> (call: StoreCall)
        ensures
            final(self).service == old(self).service,
            final(self).account == old(self).account,
            final(self).secret == old(self).secret,
            final(self).stage is Over,
            call matches StoreCall::Finish(result) && reply::store_view(result) == Err::<(), ErrorView>(
                reply::backend_error(context@, source@),
            ),
    {
        self.stage = StoreStage::Over;
        StoreCall::Finish(Err(SecretStoreError::backend(context, source)))
    }

    /// Creates the item.
    fn create(&mut self) -> (call: StoreCall)
        ensures
            *final(self) == (ServiceStore { stage: StoreStage::Created, ..*old(self) }),
            final(self).calls(call),
            call is CreateItem,
    {
        self.stage = StoreStage::Created;
        let label = self.service.clone().concat(" ").concat(self.account.as_str());
        StoreCall::CreateItem(
            NewItem {
                label,
                attributes: ItemAttributes {
                    service: self.service.clone(),
                    account: self.account.clone(),
                },
                secret: slice_to_vec(self.secret.as_slice()),
                replace: true,
                content_type: "application/octet-stream",
            },
        )
    }

    /// Carries a store on with a reply.
    pub fn step(&mut self, reply: StoreReply) -> (call: StoreCall)
        requires
            old(self).expects(reply),
        ensures
            final(self).service@ == old(self).service@,
            final(self).account@ == old(self).account@,
            final(self).secret@ == old(self).secret@,
            final(self).calls(call),
            final(self).left() < old(self).left(),
            forall|c: Collection| #[trigger]
                old(self).agrees(reply, c) ==> match call {
                    StoreCall::Finish(result) => reply::store_view(result) == old(self).outcome(c),
                    _ => final(self).outcome(c) == old(self).outcome(c),
                },
    {
        match reply {
            StoreReply::Connected(Err(e)) => self.fail(
                "failed to connect to Linux Secret Service",
                e,
            ),
            StoreReply::Connected(Ok(_)) => {
                self.stage = StoreStage::Collection;
                StoreCall::DefaultCollection
            },
            StoreReply::Collection(Err(e)) => self.fail(
                "failed to get Linux Secret Service collection",
                e,
            ),
            StoreReply::Collection(Ok(_)) => {
                self.stage = StoreStage::Locked;
                StoreCall::IsLocked
            },
            StoreReply::Locked(Err(e)) => self.fail(
                "failed to query Linux Secret Service lock state",
                e,
            ),
            StoreReply::Locked(Ok(locked)) => {
                if locked {
                    self.stage = StoreStage::Unlocked;
                    StoreCall::Unlock
                } else {
                    self.create()
                }
            },
            StoreReply::Unlocked(Err(e)) => self.fail(
                "failed to unlock Linux Secret Service collection",
                e,
            ),
            StoreReply::Unlocked(Ok(_)) => self.create(),
            StoreReply::Created(Err(e)) => self.fail(
                "failed to create Linux Secret Service item",
                e,
            ),
            StoreReply::Created(Ok(_)) => {
                self.stage = StoreStage::Over;
                StoreCall::Finish(Ok(()))
            },
        }
    }
}

/// Begins to store a secret in the Secret Service.
pub fn store_secret_store_key(service: &str, account: &str, secret: &[u8]) -> (out: (
    ServiceStore,
    StoreCall,
))
    ensures
        out.0.service@ == service@,
        out.0.account@ == account@,
        out.0.secret@ == secret@,
        out.0.calls(out.1),
        forall|c: Collection| out.0.outcome(c) == #[trigger] store_outcome(c),
{
    let store = ServiceStore {
        service: service.to_owned(),
        account: account.to_owned(),
        secret: slice_to_vec(secret),
        stage: StoreStage::Connected,
    };
    (store, StoreCall::Connect)
}

/// Where no secret from an item on can be read, the last error is reported.
proof fn lemma_last_error_is_reported(
    items: Items,
    i: int,
    n: int,
    last_error: Option<Seq<char>>,
)
    requires
        0 <= i < n,
        forall|j: int| i <= j < n ==> #[trigger] (items.secrets)(j) is Err,
    ensures
        first_secret(items, i, n, last_error) == Err::<Seq<u8>, ErrorView>(
            ErrorView::Backend {
                context: "failed to read secret from Linux Secret Service"@,
                source: (items.secrets)(n - 1)->Err_0,
            },
        ),
    decreases n - i,
{
    reveal_with_fuel(first_secret, 2);
    assert((items.secrets)(i) is Err);
    if i + 1 < n {
        lemma_last_error_is_reported(items, i + 1, n, Some((items.secrets)(i)->Err_0));
    }
}

/// A load succeeds with the secret of the first item that can be read, be it one that was found
/// unlocked or one that was found locked and has been unlocked. Unlocking matters only where an
/// item was found locked.
pub proof fn law_first_readable_item_is_loaded(
    items: Items,
    unlocked: usize,
    locked: usize,
    found: int,
)
    requires
        items.connected is Ok,
        items.found == Ok::<(usize, usize), Seq<char>>((unlocked, locked)),
        locked == 0 || items.unlocked is Ok,
        0 <= found <= unlocked + locked,
        forall|j: int| 0 <= j < found ==> #[trigger] (items.secrets)(j) is Err,
        found < unlocked + locked ==> (items.secrets)(found) is Ok,
    ensures
        found < unlocked + locked ==> load_outcome(items) == Ok::<Seq<u8>, ErrorView>(
            (items.secrets)(found)->Ok_0,
        ),
        unlocked + locked == 0 ==> load_outcome(items) == Err::<Seq<u8>, ErrorView>(
            ErrorView::NotFound,
        ),
        found == unlocked + locked && found > 0 ==> load_outcome(items) == Err::<
            Seq<u8>,
            ErrorView,
        >(
            ErrorView::Backend {
                context: "failed to read secret from Linux Secret Service"@,
                source: (items.secrets)(found - 1)->Err_0,
            },
        ),
{
    let n = unlocked + locked;
    if found < n {
        law_first_readable_secret_is_loaded(
            items,
            0,
            found,
            n,
            None,
            (items.secrets)(found)->Ok_0,
        );
    } else if n > 0 {
        lemma_last_error_is_reported(items, 0, n, None);
    }
}

/// The first call that fails decides what a load reports, in that call's own words; nothing is
/// loaded then, whatever the later replies would be.
pub proof fn law_failed_load_reports_the_call(items: Items)
    ensures
        items.connected matches Err(e) ==> load_outcome(items) == Err::<Seq<u8>, ErrorView>(
            ErrorView::Backend { context: "failed to connect to Linux Secret Service"@, source: e },
        ),
        items.connected is Ok ==> (items.found matches Err(e) ==> load_outcome(items) == Err::<Seq<u8>, ErrorView>(
            ErrorView::Backend { context: "failed to search Linux Secret Service items"@, source: e },
        )),
        items.connected is Ok ==> (items.found matches Ok((unlocked, locked)) ==> locked > 0 ==> (
        items.unlocked matches Err(e) ==> load_outcome(items) == Err::<Seq<u8>, ErrorView>(
            ErrorView::Backend { context: "failed to unlock Linux Secret Service items"@, source: e },
        ))),
{
}

/// A store succeeds exactly where the item was created, in a collection that was not locked or has
/// been unlocked.
pub proof fn law_store_succeeds_by_creating(c: Collection)
    ensures
        store_outcome(c) is Ok <==> {
            &&& c.connected is Ok
            &&& c.collection is Ok
            &&& c.locked == Ok::<bool, Seq<char>>(false) || (c.locked == Ok::<bool, Seq<char>>(
                true,
            ) && c.unlocked is Ok)
            &&& c.created is Ok
        },
        store_outcome(c) != Err::<(), ErrorView>(ErrorView::NotFound),
{
}

/// The first call that fails decides what a store reports, in that call's own words. Unlocking
/// matters only where the collection is locked.
pub proof fn law_failed_store_reports_the_call(c: Collection)
    ensures
        c.connected matches Err(e) ==> store_outcome(c) == Err::<(), ErrorView>(
            ErrorView::Backend { context: "failed to connect to Linux Secret Service"@, source: e },
        ),
        c.connected is Ok ==> (c.collection matches Err(e) ==> store_outcome(c) == Err::<(), ErrorView>(
            ErrorView::Backend { context: "failed to get Linux Secret Service collection"@, source: e },
        )),
        c.connected is Ok && c.collection is Ok ==> (c.locked matches Err(e) ==> store_outcome(c) == Err::<(), ErrorView>(
            ErrorView::Backend { context: "failed to query Linux Secret Service lock state"@, source: e },
        )),
        c.connected is Ok && c.collection is Ok && c.locked == Ok::<bool, Seq<char>>(true) ==> (
        c.unlocked matches Err(e) ==> store_outcome(c) == Err::<(), ErrorView>(
            ErrorView::Backend { context: "failed to unlock Linux Secret Service collection"@, source: e },
        )),
        c.connected is Ok && c.collection is Ok && (c.locked == Ok::<bool, Seq<char>>(false) || (
        c.locked == Ok::<bool, Seq<char>>(true) && c.unlocked is Ok)) ==> (
        c.created matches Err(e) ==> store_outcome(c) == Err::<(), ErrorView>(
            ErrorView::Backend { context: "failed to create Linux Secret Service item"@, source: e },
        )),
{
}

/// Each reply that a load takes is the reply to the call that it made; the items are searched for by
/// the service and the account, and each secret is asked for by the item's own number.
pub proof fn law_load_calls_name_the_item(load: ServiceLoad, call: LoadCall, reply: LoadReply)
    requires
        load.wf(),
        load.calls(call),
        load.expects(reply),
    ensures
        match reply {
            LoadReply::Connected(_) => call is Connect,
            LoadReply::Found(_) => call matches LoadCall::SearchItems(attributes)
                && attributes.service@ == load.service@ && attributes.account@ == load.account@,
            LoadReply::Unlocked(_) => call is UnlockAll,
            LoadReply::Secret(_) => call matches LoadCall::GetSecret(i) && (
            load.stage matches LoadStage::Secret { item, count } && i == item && item < count),
        },
{
}

/// Each reply that a store takes is the reply to the call that it made. The item that is created
/// holds the secret and is found again by the service and the account, under which it replaces
/// any other.
pub proof fn law_store_calls_name_the_item(store: ServiceStore, call: StoreCall, reply: StoreReply)
    requires
        store.calls(call),
        store.expects(reply),
    ensures
        match reply {
            StoreReply::Connected(_) => call is Connect,
            StoreReply::Collection(_) => call is DefaultCollection,
            StoreReply::Locked(_) => call is IsLocked,
            StoreReply::Unlocked(_) => call is Unlock,
            StoreReply::Created(_) => call matches StoreCall::CreateItem(item) && {
                &&& item.label@ == store.service@ + " "@ + store.account@
                &&& item.attributes.service@ == store.service@
                &&& item.attributes.account@ == store.account@
                &&& item.secret@ == store.secret@
                &&& item.replace
                &&& item.content_type@ == "application/octet-stream"@
            },
        },
{
}

/// A load ends with a secret only upon the reply that holds this very secret.
pub proof fn law_loaded_secret_is_the_reply(
    before: ServiceLoad,
    reply: LoadReply,
    result: SecretStoreResult<Vec<u8>>,
)
    requires
        before.wf(),
        before.expects(reply),
        forall|items: Items| #[trigger]
            before.agrees(reply, items) ==> reply::load_view(result) == before.outcome(items),
        result is Ok,
    ensures
        reply matches LoadReply::Secret(Ok(secret)) && secret@ == result->Ok_0@,
{
    let items = Items {
        connected: if let LoadReply::Connected(r) = reply {
            reply::plain_reply(r)
        } else {
            Err(seq![])
        },
        found: if let LoadReply::Found(r) = reply {
            reply::plain_reply(r)
        } else {
            Err(seq![])
        },
        unlocked: if let LoadReply::Unlocked(r) = reply {
            reply::plain_reply(r)
        } else {
            Err(seq![])
        },
        secrets: |i: int|
            if let LoadReply::Secret(r) = reply {
                if before.stage matches LoadStage::Secret { item, .. } && i == item {
                    reply::bytes_reply(r)
                } else {
                    Err(seq![])
                }
            } else {
                Err(seq![])
            },
    };
    assert(before.agrees(reply, items));
    if !(reply matches LoadReply::Secret(Ok(_))) {
        match before.stage {
            LoadStage::Secret { item, count } => {
                lemma_last_error_is_reported(
                    items,
                    item as int,
                    count as int,
                    reply::maybe_string(before.last_error),
                );
            },
            LoadStage::Unlocked { unlocked, locked } => {
                lemma_last_error_is_reported(items, 0, unlocked + locked, None);
            },
            LoadStage::Found => {
                if let Ok((unlocked, locked)) = items.found {
                    if unlocked + locked > 0 {
                        lemma_last_error_is_reported(items, 0, unlocked + locked, None);
                    }
                }
            },
            _ => {},
        }
    }
}

/// A store ends well only upon the reply that the item was created.
pub proof fn law_stored_secret_was_created(
    before: ServiceStore,
    made: StoreCall,
    reply: StoreReply,
    result: SecretStoreResult<()>,
)
    requires
        before.calls(made),
        before.expects(reply),
        forall|c: Collection| #[trigger]
            before.agrees(reply, c) ==> reply::store_view(result) == before.outcome(c),
        result is Ok,
    ensures
        reply == StoreReply::Created(Ok(())),
        made matches StoreCall::CreateItem(item) && item.secret@ == before.secret@,
{
    let c = Collection {
        connected: if let StoreReply::Connected(r) = reply {
            reply::plain_reply(r)
        } else {
            Err(seq![])
        },
        collection: if let StoreReply::Collection(r) = reply {
            reply::plain_reply(r)
        } else {
            Err(seq![])
        },
        locked: if let StoreReply::Locked(r) = reply {
            reply::plain_reply(r)
        } else {
            Err(seq![])
        },
        unlocked: if let StoreReply::Unlocked(r) = reply {
            reply::plain_reply(r)
        } else {
            Err(seq![])
        },
        created: if let StoreReply::Created(r) = reply {
            reply::plain_reply(r)
        } else {
            Err(seq![])
        },
    };
    assert(before.agrees(reply, c));
    law_store_calls_name_the_item(before, made, reply);
}

/// A reply is the one that the service gives exactly where it says, word for word, what it would
/// reply to this call; it says nothing of any other call.
pub proof fn law_load_hears_the_service(
    load: ServiceLoad,
    answer: LoadReply,
    items: Items,
)
    ensures
        match answer {
            LoadReply::Connected(r) => load.agrees(answer, items) <==> (match r {
                Ok(v) => items.connected == Ok::<(), Seq<char>>(v),
                Err(e) => items.connected == Err::<(), Seq<char>>(e@),
            }),
            LoadReply::Found(r) => load.agrees(answer, items) <==> (match r {
                Ok(v) => items.found == Ok::<(usize, usize), Seq<char>>(v),
                Err(e) => items.found == Err::<(usize, usize), Seq<char>>(e@),
            }),
            LoadReply::Unlocked(r) => load.agrees(answer, items) <==> (match r {
                Ok(v) => items.unlocked == Ok::<(), Seq<char>>(v),
                Err(e) => items.unlocked == Err::<(), Seq<char>>(e@),
            }),
            LoadReply::Secret(r) => load.agrees(answer, items) <==> (load.stage matches LoadStage::Secret { item, .. } && match r {
                Ok(v) => (items.secrets)(item as int) == Ok::<Seq<u8>, Seq<char>>(v@),
                Err(e) => (items.secrets)(item as int) == Err::<Seq<u8>, Seq<char>>(e@),
            }),
        },
{
}

/// A reply is the one that the service gives exactly where it says, word for word, what it would
/// reply to this call; it says nothing of any other call.
pub proof fn law_store_hears_the_service(
    store: ServiceStore,
    answer: StoreReply,
    c: Collection,
)
    ensures
        match answer {
            StoreReply::Connected(r) => store.agrees(answer, c) <==> (match r {
                Ok(v) => c.connected == Ok::<(), Seq<char>>(v),
                Err(e) => c.connected == Err::<(), Seq<char>>(e@),
            }),
            StoreReply::Collection(r) => store.agrees(answer, c) <==> (match r {
                Ok(v) => c.collection == Ok::<(), Seq<char>>(v),
                Err(e) => c.collection == Err::<(), Seq<char>>(e@),
            }),
            StoreReply::Locked(r) => store.agrees(answer, c) <==> (match r {
                Ok(v) => c.locked == Ok::<bool, Seq<char>>(v),
                Err(e) => c.locked == Err::<bool, Seq<char>>(e@),
            }),
            StoreReply::Unlocked(r) => store.agrees(answer, c) <==> (match r {
                Ok(v) => c.unlocked == Ok::<(), Seq<char>>(v),
                Err(e) => c.unlocked == Err::<(), Seq<char>>(e@),
            }),
            StoreReply::Created(r) => store.agrees(answer, c) <==> (match r {
                Ok(v) => c.created == Ok::<(), Seq<char>>(v),
                Err(e) => c.created == Err::<(), Seq<char>>(e@),
            }),
        },
{
}

} // verus!
