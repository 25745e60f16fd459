//! A clipygo plugin that shares the clipboard through a relay, encrypted end to end.
//!
//! Contacts are known by their X25519 public keys. A message is encrypted for one of them
//! ([`envelope`]) under a key made for that message alone, padded so that its length shows little
//! ([`padding`]), and handed to the relay under a token that changes with time ([`token`]). The
//! recipient proves to the relay who they are, and listens ([`session`]). [`protocol`] answers the
//! requests of clipygo.
pub mod clock;
pub mod config;
pub mod crypto;
pub mod encoding;
pub mod envelope;
pub mod identity;
pub mod json;
pub mod padding;
pub mod paths;
pub mod protocol;
pub mod schema;
pub mod session;
pub mod text;
pub mod token;
