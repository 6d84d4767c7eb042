//! Authenticated encryption with a shared key, from `sodiumoxide::crypto::secretbox`, and random
//! bytes.
use crate::text;
use sodiumoxide::crypto::secretbox;
use vstd::prelude::*;

verus! {

/// The length of a key.
pub const KEYBYTES: usize = 32;

/// The length of a nonce.
pub const NONCEBYTES: usize = 24;

/// By how much a sealed message is longer than the message.
pub const MACBYTES: usize = 16;

/// What `secretbox::seal` makes of a message under a nonce and a key.
pub uninterp spec fn sealed(message: Seq<u8>, nonce: Seq<u8>, key: Seq<u8>) -> Seq<u8>;

/// What `secretbox::open` makes of a sealed message under a nonce and a key: the message, or
/// nothing where the message is not authentic.
pub uninterp spec fn opened(sealed: Seq<u8>, nonce: Seq<u8>, key: Seq<u8>) -> Option<Seq<u8>>;

/// `sodiumoxide::crypto::secretbox::seal`: the message encrypted and authenticated, which is
/// longer by the authenticator, and which opens under the same nonce and key to the message. The
/// result must fit an allocation.
#[verifier::external_body]
pub(crate) fn seal(message: &[u8], nonce: &[u8], key: &[u8]) -> (out: Vec<u8>)
    requires
        nonce@.len() == NONCEBYTES,
        key@.len() == KEYBYTES,
        message@.len() + MACBYTES <= isize::MAX,
    ensures
        out@ == sealed(message@, nonce@, key@),
        out@.len() == message@.len() + MACBYTES,
        opened(out@, nonce@, key@) == Some(message@),
{
    let nonce = secretbox::Nonce::from_slice(nonce).unwrap();
    let key = secretbox::Key::from_slice(key).unwrap();
    secretbox::seal(message, &nonce, &key)
}

/// `sodiumoxide::crypto::secretbox::open`: the message that was sealed, or `None` where the
/// sealed message is shorter than an authenticator or fails to authenticate.
#[verifier::external_body]
pub(crate) fn open(sealed: &[u8], nonce: &[u8], key: &[u8]) -> (message: Option<Vec<u8>>)
    requires
        nonce@.len() == NONCEBYTES,
        key@.len() == KEYBYTES,
    ensures
        text::maybe_bytes(message) == opened(sealed@, nonce@, key@),
        message matches Some(m) ==> m@.len() + MACBYTES == sealed@.len(),
{
    let nonce = secretbox::Nonce::from_slice(nonce).unwrap();
    let key = secretbox::Key::from_slice(key).unwrap();
    secretbox::open(sealed, &nonce, &key).ok()
}

/// `sodiumoxide::crypto::secretbox::gen_nonce`: a nonce at random, of which only the length is
/// known.
#[verifier::external_body]
pub(crate) fn gen_nonce() -> (nonce: Vec<u8>)
    ensures
        nonce@.len() == NONCEBYTES,
{
    secretbox::gen_nonce().0.to_vec()
}

/// `sodiumoxide::randombytes::randombytes`: `n` bytes at random, of which only the number is
/// known.
#[verifier::external_body]
pub(crate) fn randombytes(n: usize) -> (bytes: Vec<u8>)
    requires
        n <= isize::MAX,
    ensures
        bytes@.len() == n,
{
    sodiumoxide::randombytes::randombytes(n)
}

} // verus!
