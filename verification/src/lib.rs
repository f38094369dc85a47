//! Import of a group's history and membership into a community channel:
//! the ledger of transfers in progress, the batch scheduler's decisions, the
//! handling of each export outcome, finalization, membership reconciliation
//! and the completion notice. Beside it stands what the community decides
//! when a member sends a message to a channel.
//!
//! The executable functions state their effect on the community's state
//! through transition functions over its mathematical value; `laws` proves
//! what holds of those transitions taken together.

pub mod channels;
pub mod chat;
pub mod complete;
pub mod events;
pub mod finalize;
pub mod idset;
pub mod jobs;
pub mod keyed;
pub mod laws;
pub mod ledger;
pub mod members;
pub mod messaging;
pub mod reconcile;
pub mod scheduler;
pub mod state;
pub mod transfer;
pub mod types;
