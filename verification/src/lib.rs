//! Verified core of the Capsule Node daemon: capsule identifiers and
//! manifests, the in-memory registry, the on-disk keyring and payload
//! formats, wallet derivation, and the decisions the HTTP surfaces make.

pub mod manifest;
pub mod crypto;
pub mod bytes;
pub mod text;
pub mod wallet;
pub mod paths;
pub mod keyring;
pub mod payload;
pub mod registry;
pub mod order;
pub mod slot;
pub mod clock;
pub mod api;
pub mod autolock;
pub mod watcher;
pub mod config;
pub mod vault;
