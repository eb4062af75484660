//! Configuration, relay-list handling and user registry of a nostr sync
//! service, with their contracts proved by Verus.

pub mod assoc;
pub mod config;
pub mod error;
pub mod relay;
pub mod router;
pub mod state;
pub mod text;
