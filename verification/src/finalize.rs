//! Finalization: a completed transfer becomes a channel of the community.

use crate::channels::{Channel, ChannelModel};
use crate::chat::{ChatModel, GroupChatCore};
use crate::jobs::{JobModel, ScheduledJobModel, TimerJob};
use crate::state::{CommunityState, StateModel};
use crate::types::{GroupId, TimestampMillis};
use vstd::prelude::*;

verus! {

/// The state after the bytes received for `group_id` were decoded into `chat`
/// at `now`: the group has left the ledger, the channel named in its record
/// holds `chat` and is not yet marked as imported, and the reconciliation of
/// its members is scheduled with its attempt counter at zero. A group that
/// is not in the ledger leaves the state as it is.
pub open spec fn after_finalize(
    s: StateModel,
    group_id: GroupId,
    chat: ChatModel,
    now: TimestampMillis,
) -> StateModel {
    if s.ledger.contains_key(group_id) {
        let channel_id = s.ledger[group_id].channel_id;
        StateModel {
            ledger: s.ledger.remove(group_id),
            channels: s.channels.insert(channel_id, ChannelModel { chat, date_imported: None }),
            jobs: s.jobs.push(
                ScheduledJobModel {
                    job: JobModel::ProcessGroupImportChannelMembers {
                        group_id,
                        channel_id,
                        attempt: 0,
                    },
                    due: now,
                },
            ),
            ..s
        }
    } else {
        s
    }
}

/// Turns the bytes received for `group_id` into a channel.
///
/// `decode` is called once, on exactly the bytes accumulated in the group's
/// record, while the record is still in the ledger; only when it has returned
/// does the record leave the ledger, and the chat it returned is installed
/// under the record's channel id. Returns whether the group was in the
/// ledger; if it was not, `decode` is not called and nothing changes.
pub fn finalize_group_import<F: FnOnce(&Vec<u8>) -> GroupChatCore>(
    state: &mut CommunityState,
    group_id: GroupId,
    now: TimestampMillis,
    decode: F,
) -> (finalized: bool)
    requires
        old(state).wf(),
        forall|bytes: &Vec<u8>| #[trigger] decode.requires((bytes,)),
        forall|bytes: &Vec<u8>, chat: GroupChatCore| #[trigger]
            decode.ensures((bytes,), chat) ==> chat@.wf(),
    ensures
        final(state).wf(),
        finalized == old(state)@.ledger.contains_key(group_id),
        !finalized ==> final(state)@ == old(state)@,
        finalized ==> exists|bytes: &Vec<u8>, chat: GroupChatCore|
            {
                &&& bytes@ == old(state)@.ledger[group_id].bytes
                &&& #[trigger] decode.ensures((bytes,), chat)
                &&& final(state)@ == after_finalize(old(state)@, group_id, chat@, now)
            },
{
    let (channel_id, chat) = match state.groups_being_imported.get(group_id) {
        Some(group) => {
            let bytes = group.bytes();
            let chat = decode(bytes);
            proof {
                let ghost decoded = chat;
                assert(decode.ensures((bytes,), decoded));
            }
            (group.channel_id(), chat)
        },
        None => {
            return false;
        },
    };
    let ghost chat_model = chat@;
    state.groups_being_imported.take(group_id);
    state.channels.add(Channel::new(channel_id, chat, None));
    state.timer_jobs.enqueue_job(
        TimerJob::ProcessGroupImportChannelMembers { group_id, channel_id, attempt: 0 },
        now,
        now,
    );
    proof {
        assert(state@ == after_finalize(old(state)@, group_id, chat_model, now));
    }
    true
}

} // verus!
