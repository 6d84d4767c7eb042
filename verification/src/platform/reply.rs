//! Replies of the operating system's services.
use crate::secret_store::{ErrorView, SecretStoreResult};
use vstd::prelude::*;

verus! {

/// What a call returned, or the message of its error.
pub type Reply<T> = Result<T, String>;

/// What a call would return, or the message of its error.
pub type ReplyView<T> = Result<T, Seq<char>>;

/// What is loaded from a secret store, or what goes wrong.
pub type LoadOutcome = Result<Seq<u8>, ErrorView>;

/// Nothing where a secret is stored, or what goes wrong.
pub type StoreOutcome = Result<(), ErrorView>;

/// What a reply says.
pub open spec fn plain_reply<T>(reply: Reply<T>) -> ReplyView<T> {
    match reply {
        Ok(v) => Ok(v),
        Err(e) => Err(e@),
    }
}

/// What a reply says.
pub open spec fn text_reply(reply: Reply<String>) -> ReplyView<Seq<char>> {
    match reply {
        Ok(s) => Ok(s@),
        Err(e) => Err(e@),
    }
}

/// What a reply says.
pub open spec fn bytes_reply(reply: Reply<Vec<u8>>) -> ReplyView<Seq<u8>> {
    match reply {
        Ok(v) => Ok(v@),
        Err(e) => Err(e@),
    }
}

/// What a result says.
pub open spec fn load_view(result: SecretStoreResult<Vec<u8>>) -> LoadOutcome {
    match result {
        Ok(secret) => Ok(secret@),
        Err(e) => Err(e@),
    }
}

/// What a result says.
pub open spec fn store_view(result: SecretStoreResult<()>) -> StoreOutcome {
    match result {
        Ok(_) => Ok(()),
        Err(e) => Err(e@),
    }
}

/// A failure of the backend.
pub open spec fn backend_error(context: Seq<char>, source: Seq<char>) -> ErrorView {
    ErrorView::Backend { context, source }
}

/// The text of a string that may be there.
pub open spec fn maybe_string(s: Option<String>) -> Option<Seq<char>> {
    match s {
        Some(s) => Some(s@),
        None => None,
    }
}

} // verus!
