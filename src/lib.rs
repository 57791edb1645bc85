//! A key-value store addressed by Ed25519 public keys.
//!
//! - `identity`: keypairs, public keys, their z-base-32 text form and signatures.
//! - `storage`: the index from (owner key, path) to an opaque byte payload.
//! - `service`: what each request on `/<key>/<path>` does to the index.
pub mod identity;
pub mod storage;
pub mod service;
