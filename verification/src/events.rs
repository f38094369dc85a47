//! The community's append-only event log.

use crate::types::{ChannelId, GroupId, TimestampMillis, UserId};
use vstd::prelude::*;

verus! {

/// Mathematical value of a logged event.
pub struct EventModel {
    /// The group that was imported.
    pub group_id: GroupId,
    /// The channel that received it.
    pub channel_id: ChannelId,
    /// The users who joined the community through the import.
    pub members_added: Seq<UserId>,
    pub timestamp: TimestampMillis,
}

/// The record that a group has been imported into a channel.
#[derive(Debug)]
pub struct GroupImported {
    group_id: GroupId,
    channel_id: ChannelId,
    members_added: Vec<UserId>,
    timestamp: TimestampMillis,
}

impl View for GroupImported {
    type V = EventModel;

    closed spec fn view(&self) -> EventModel {
        EventModel {
            group_id: self.group_id,
            channel_id: self.channel_id,
            members_added: self.members_added@,
            timestamp: self.timestamp,
        }
    }
}

impl GroupImported {
    pub fn group_id(&self) -> (r: GroupId)
        ensures
            r == self@.group_id,
    {
        self.group_id
    }

    pub fn channel_id(&self) -> (r: ChannelId)
        ensures
            r == self@.channel_id,
    {
        self.channel_id
    }

    pub fn members_added(&self) -> (r: &Vec<UserId>)
        ensures
            r@ == self@.members_added,
    {
        &self.members_added
    }

    pub fn timestamp(&self) -> (r: TimestampMillis)
        ensures
            r == self@.timestamp,
    {
        self.timestamp
    }
}

/// The events of a community, oldest first.
#[derive(Debug)]
pub struct CommunityEvents {
    events: Vec<GroupImported>,
}

impl View for CommunityEvents {
    type V = Seq<EventModel>;

    closed spec fn view(&self) -> Seq<EventModel> {
        self.events@.map_values(|e: GroupImported| e@)
    }
}

impl CommunityEvents {
    pub fn new() -> (r: CommunityEvents)
        ensures
            r@ == Seq::<EventModel>::empty(),
    {
        let r = CommunityEvents { events: Vec::new() };
        assert(r@ =~= Seq::<EventModel>::empty());
        r
    }

    pub fn len(&self) -> (r: usize)
        ensures
            r == self@.len(),
    {
        self.events.len()
    }

    /// The event at position `i`.
    pub fn get(&self, i: usize) -> (r: Option<&GroupImported>)
        ensures
            r is Some == (i < self@.len()),
            r matches Some(e) ==> e@ == self@[i as int],
    {
        if i < self.events.len() {
            Some(&self.events[i])
        } else {
            None
        }
    }

    /// Appends the record that `group_id` was imported into `channel_id`.
    pub fn push_group_imported(
        &mut self,
        group_id: GroupId,
        channel_id: ChannelId,
        members_added: Vec<UserId>,
        now: TimestampMillis,
    )
        ensures
            final(self)@ == old(self)@.push(
                EventModel { group_id, channel_id, members_added: members_added@, timestamp: now },
            ),
    {
        let e = GroupImported { group_id, channel_id, members_added, timestamp: now };
        self.events.push(e);
        assert(self@ =~= old(self)@.push(e@));
    }
}

} // verus!
