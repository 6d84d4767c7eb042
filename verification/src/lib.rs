//! What a remote desktop shares between its parts: how packets are framed on the wire, how
//! passwords and other secrets are encrypted before they are stored, and how each operating system
//! keeps the key for that.
//!
//! The library decides and computes. Where something must be asked of the operating system in
//! between, a function takes what has happened and says what is to be done next; its contract says
//! what that comes to in the end, whatever the operating system replies.
pub mod base64;
pub mod buffer;
pub mod bytes_codec;
pub mod digest;
pub mod encryption_laws;
pub mod password_security;
pub mod platform;
pub mod proto_ext;
pub mod secret_store;
pub mod secretbox;
pub mod text;
