//! Identifiers, timestamps and the fixed parameters of the import pipeline.

use vstd::prelude::*;

verus! {

/// Identifies a group actor whose history is being imported.
pub type GroupId = u64;

/// Identifies a channel inside the community.
pub type ChannelId = u64;

/// Identifies a user.
pub type UserId = u64;

/// Milliseconds since the epoch.
pub type TimestampMillis = u64;

/// Position of a message in a chat's main event list.
pub type MessageIndex = u32;

/// Upper bound on the bytes requested from a group actor in one export call,
/// roughly 1.9 MB, chosen to stay below the per-call payload limit.
pub const PAGE_SIZE: u32 = 19 * 102 * 1024;

/// Delay after which the fallback trigger checks whether a completed transfer
/// has been finalized.
pub const FINALIZE_FALLBACK_MILLIS: u64 = 10_000;

/// Number of failed principal lookups after which reconciliation gives up
/// retrying and completes with nobody added.
pub const MAX_LOOKUP_RETRIES: u32 = 30;

/// The system actor to which removals made during an import are attributed.
pub const SYSTEM_USER_ID: UserId = 0;

/// A file stored on behalf of a message.
#[derive(Clone, Copy, Debug)]
pub struct BlobReference {
    /// The storage actor that holds the file.
    pub canister_id: u64,
    pub blob_id: u128,
}

/// Text in an export failure that marks the source group as unrecoverable.
pub open spec fn violation_marker() -> Seq<char> {
    "violated contract"@
}

} // verus!
