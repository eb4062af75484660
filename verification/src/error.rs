use vstd::prelude::*;

use nostr::error::Error as NostrError;

verus! {

/// What the configuration logic can refuse.
#[derive(Debug)]
pub enum Error {
    /// The working directory exists but is not a directory.
    NotADirectory,
    /// A relay of the discovery list is not a valid relay URL: the trimmed
    /// entry, and what the relay URL parser said of it.
    InvalidRelayUrl(String, NostrError),
}

} // verus!
