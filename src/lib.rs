//! Session and credential handling for a small messaging service: salted
//! one-way password digests, and a keyring that issues, validates and revokes
//! session tokens held in a key-value store.
pub mod codec;
pub mod store;
pub mod hasher;
pub mod redis_store;
pub mod keyring;
