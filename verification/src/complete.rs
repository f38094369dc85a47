//! Completion: the imported channel is stamped and the notice for the
//! group's registry is put together.

use crate::channels::{channels_after_stamp, ChannelModel, ChannelsModel};
use crate::keyed::lists_keys_where;
use crate::state::{CommunityState, StateModel};
use crate::types::{ChannelId, GroupId, MessageIndex, TimestampMillis, UserId};
use vstd::prelude::*;

verus! {

/// A channel and the index of its latest message.
#[derive(Clone, Copy, Debug)]
pub struct ChannelLatestMessageIndex {
    pub channel_id: ChannelId,
    pub latest_message_index: Option<MessageIndex>,
}

/// The notice that tells a group's registry that the group now lives in a
/// channel of this community.
#[derive(Debug)]
pub struct ImportCompleteArgs {
    pub community_name: String,
    /// The channel that received the group.
    pub channel: ChannelLatestMessageIndex,
    pub group_id: GroupId,
    pub group_name: String,
    /// Everybody in the imported channel.
    pub members: Vec<UserId>,
    /// The community's other public channels.
    pub other_public_channels: Vec<ChannelLatestMessageIndex>,
    /// For how long the registry should count the community as active.
    pub mark_active_duration: Option<u64>,
}

/// Mathematical value of an [`ImportCompleteArgs`].
pub struct NoticeModel {
    pub community_name: Seq<char>,
    pub channel: ChannelLatestMessageIndex,
    pub group_id: GroupId,
    pub group_name: Seq<char>,
    pub members: Seq<UserId>,
    pub other_public_channels: Seq<ChannelLatestMessageIndex>,
    pub mark_active_duration: Option<u64>,
}

impl View for ImportCompleteArgs {
    type V = NoticeModel;

    open spec fn view(&self) -> NoticeModel {
        NoticeModel {
            community_name: self.community_name@,
            channel: self.channel,
            group_id: self.group_id,
            group_name: self.group_name@,
            members: self.members@,
            other_public_channels: self.other_public_channels@,
            mark_active_duration: self.mark_active_duration,
        }
    }
}

/// The state after the import into `channel_id` was marked finished at `now`.
pub open spec fn after_complete(s: StateModel, channel_id: ChannelId, now: TimestampMillis)
    -> StateModel {
    StateModel { channels: channels_after_stamp(s.channels, channel_id, now), ..s }
}

/// `list` names, once each and with the index of their latest message,
/// exactly the public channels of `m` other than `excluded`.
pub open spec fn lists_other_public(
    list: Seq<ChannelLatestMessageIndex>,
    m: ChannelsModel,
    excluded: ChannelId,
) -> bool {
    &&& forall|a: int, b: int|
        0 <= a < list.len() && 0 <= b < list.len() && a != b ==> list[a].channel_id
            != list[b].channel_id
    &&& forall|k: int|
        0 <= k < list.len() ==> {
            &&& (#[trigger] list[k]).channel_id != excluded
            &&& m.contains_key(list[k].channel_id)
            &&& m[list[k].channel_id].chat.is_public
            &&& list[k].latest_message_index == m[list[k].channel_id].chat.latest_message_index
        }
    &&& forall|id: ChannelId|
        id != excluded && m.contains_key(id) && (#[trigger] m[id]).chat.is_public ==> exists|
            k: int,
        |
            0 <= k < list.len() && (#[trigger] list[k]).channel_id == id
}

/// The notice sent when the import of `group_id` into `channel_id` is finished.
pub open spec fn is_notice_of(
    n: NoticeModel,
    s: StateModel,
    group_id: GroupId,
    channel_id: ChannelId,
    mark_active_duration: Option<u64>,
) -> bool {
    let chat = s.channels[channel_id].chat;
    &&& n.community_name == s.name
    &&& n.channel == (ChannelLatestMessageIndex {
        channel_id,
        latest_message_index: chat.latest_message_index,
    })
    &&& n.group_id == group_id
    &&& n.group_name == chat.name
    &&& n.members == chat.member_ids()
    &&& lists_other_public(n.other_public_channels, s.channels, channel_id)
    &&& n.mark_active_duration == mark_active_duration
}

/// Lists the public channels other than `excluded`.
fn other_public_channels(state: &CommunityState, excluded: ChannelId) -> (list: Vec<
    ChannelLatestMessageIndex,
>)
    requires
        state.wf(),
    ensures
        lists_other_public(list@, state@.channels, excluded),
{
    let ids = state.channels.public_channel_ids();
    let ghost m = state@.channels;
    let mut list: Vec<ChannelLatestMessageIndex> = Vec::new();
    let mut i: usize = 0;
    while i < ids.len()
        invariant
            i <= ids@.len(),
            state.wf(),
            m == state@.channels,
            lists_keys_where(ids@, m, |c: ChannelModel| c.chat.is_public),
            forall|k: int|
                0 <= k < list@.len() ==> {
                    &&& (#[trigger] list@[k]).channel_id != excluded
                    &&& m.contains_key(list@[k].channel_id)
                    &&& m[list@[k].channel_id].chat.is_public
                    &&& list@[k].latest_message_index
                        == m[list@[k].channel_id].chat.latest_message_index
                    &&& exists|j: int| 0 <= j < i && #[trigger] ids@[j] == list@[k].channel_id
                },
            forall|a: int, b: int|
                0 <= a < list@.len() && 0 <= b < list@.len() && a != b ==> list@[a].channel_id
                    != list@[b].channel_id,
            forall|j: int|
                0 <= j < i && #[trigger] ids@[j] != excluded ==> exists|k: int|
                    0 <= k < list@.len() && (#[trigger] list@[k]).channel_id == ids@[j],
        decreases ids@.len() - i,
    {
        let id: ChannelId = ids[i];
        proof {
            assert(ids@.contains(id));
        }
        if id != excluded {
            let ghost prev = list@;
            let channel = state.channels.get(id).unwrap();
            list.push(
                ChannelLatestMessageIndex {
                    channel_id: id,
                    latest_message_index: channel.chat().latest_message_index(),
                },
            );
            proof {
                let n = prev.len() as int;
                assert(list@[n].channel_id == id);
                assert forall|k: int| 0 <= k < n implies list@[k].channel_id != id by {
                    let j = choose|j: int| 0 <= j < i && #[trigger] ids@[j] == prev[k].channel_id;
                    assert(ids@[j] != ids@[i as int]);
                }
                assert forall|k: int| 0 <= k < list@.len() implies exists|j: int|
                    0 <= j < i + 1 && #[trigger] ids@[j] == (#[trigger] list@[k]).channel_id by {
                    if k < n {
                        let j = choose|j: int|
                            0 <= j < i && #[trigger] ids@[j] == prev[k].channel_id;
                        assert(ids@[j] == list@[k].channel_id);
                    } else {
                        assert(ids@[i as int] == list@[k].channel_id);
                    }
                }
                assert forall|j: int| 0 <= j < i + 1 && #[trigger] ids@[j] != excluded implies exists|
                    k: int,
                | 0 <= k < list@.len() && (#[trigger] list@[k]).channel_id == ids@[j] by {
                    if j < i {
                        let k = choose|k: int|
                            0 <= k < prev.len() && (#[trigger] prev[k]).channel_id == ids@[j];
                        assert(list@[k].channel_id == ids@[j]);
                    } else {
                        assert(list@[n].channel_id == ids@[j]);
                    }
                }
            }
        }
        i += 1;
    }
    proof {
        assert forall|id: ChannelId|
            id != excluded && m.contains_key(id) && (#[trigger] m[id]).chat.is_public implies exists|
            k: int,
        | 0 <= k < list@.len() && (#[trigger] list@[k]).channel_id == id by {
            assert(ids@.contains(id));
            let j = ids@.index_of(id);
            assert(ids@[j] != excluded);
        }
    }
    list
}

/// Marks the import of `group_id` into `channel_id` as finished at `now` and
/// returns the notice that the caller sends, without waiting for an answer,
/// to the group's registry.
pub fn mark_import_complete(
    state: &mut CommunityState,
    group_id: GroupId,
    channel_id: ChannelId,
    now: TimestampMillis,
    mark_active_duration: Option<u64>,
) -> (notice: ImportCompleteArgs)
    requires
        old(state).wf(),
        old(state)@.channels.contains_key(channel_id),
    ensures
        final(state).wf(),
        final(state)@ == after_complete(old(state)@, channel_id, now),
        is_notice_of(notice@, old(state)@, group_id, channel_id, mark_active_duration),
{
    let other_public_channels = other_public_channels(state, channel_id);
    let channel = state.channels.get(channel_id).unwrap();
    let notice = ImportCompleteArgs {
        community_name: state.name.clone(),
        channel: ChannelLatestMessageIndex {
            channel_id,
            latest_message_index: channel.chat().latest_message_index(),
        },
        group_id,
        group_name: channel.chat().name().clone(),
        members: channel.chat().member_ids(),
        other_public_channels,
        mark_active_duration,
    };
    state.channels.set_date_imported(channel_id, now);
    notice
}

} // verus!
