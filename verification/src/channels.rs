//! The community's channels, by channel id.

use crate::chat::{lemma_joined, lemma_removed, ChatModel, GroupChatCore};
use crate::keyed::{
    keyed_map, lemma_keyed_at, lemma_keyed_empty, lemma_keyed_map_values, lemma_keyed_push,
    lemma_keyed_update, lemma_select_keys, lemma_select_step, lists_keys_where, select_keys,
};
use crate::types::{ChannelId, TimestampMillis, UserId};
use vstd::prelude::*;

verus! {

/// Mathematical value of a channel.
pub struct ChannelModel {
    pub chat: ChatModel,
    /// When the import of this channel was finished; `None` for a channel whose
    /// import is still under way.
    pub date_imported: Option<TimestampMillis>,
}

impl ChannelModel {
    /// The channel after `user_id` joined it.
    pub open spec fn joined(self, user_id: UserId, is_bot: bool) -> ChannelModel {
        ChannelModel { chat: self.chat.joined(user_id, is_bot), ..self }
    }

    /// The channel after `removed_by` removed `user_id` from it.
    pub open spec fn removed(self, user_id: UserId, removed_by: UserId) -> ChannelModel {
        ChannelModel { chat: self.chat.removed(user_id, removed_by), ..self }
    }

    /// The channel once its import is marked finished at `now`.
    pub open spec fn stamped(self, now: TimestampMillis) -> ChannelModel {
        ChannelModel { date_imported: Some(now), ..self }
    }
}

/// The channel table's mathematical value.
pub type ChannelsModel = Map<ChannelId, ChannelModel>;

/// Every channel's member list is free of repetition.
pub open spec fn channels_wf(m: ChannelsModel) -> bool {
    forall|id: ChannelId| m.contains_key(id) ==> (#[trigger] m[id]).chat.wf()
}

/// The table after `user_id` was enrolled in every open channel.
pub open spec fn channels_after_enroll(m: ChannelsModel, user_id: UserId, is_bot: bool)
    -> ChannelsModel {
    m.map_values(
        |c: ChannelModel|
            if c.chat.is_open() {
                c.joined(user_id, is_bot)
            } else {
                c
            },
    )
}

/// The table after `removed_by` removed `user_id` from channel `id`.
pub open spec fn channels_after_removal(
    m: ChannelsModel,
    id: ChannelId,
    user_id: UserId,
    removed_by: UserId,
) -> ChannelsModel {
    if m.contains_key(id) {
        m.insert(id, m[id].removed(user_id, removed_by))
    } else {
        m
    }
}

/// The table after the import of channel `id` was marked finished at `now`.
pub open spec fn channels_after_stamp(m: ChannelsModel, id: ChannelId, now: TimestampMillis)
    -> ChannelsModel {
    if m.contains_key(id) {
        m.insert(id, m[id].stamped(now))
    } else {
        m
    }
}

/// A channel of the community.
#[derive(Debug)]
pub struct Channel {
    id: ChannelId,
    chat: GroupChatCore,
    date_imported: Option<TimestampMillis>,
}

impl View for Channel {
    type V = ChannelModel;

    closed spec fn view(&self) -> ChannelModel {
        ChannelModel { chat: self.chat@, date_imported: self.date_imported }
    }
}

impl Channel {
    /// The channel's id.
    pub closed spec fn key(&self) -> ChannelId {
        self.id
    }

    /// A channel holding `chat`.
    pub fn new(id: ChannelId, chat: GroupChatCore, date_imported: Option<TimestampMillis>) -> (r:
        Channel)
        ensures
            r.key() == id,
            r@ == (ChannelModel { chat: chat@, date_imported }),
    {
        Channel { id, chat, date_imported }
    }

    pub fn id(&self) -> (r: ChannelId)
        ensures
            r == self.key(),
    {
        self.id
    }

    pub fn chat(&self) -> (r: &GroupChatCore)
        ensures
            r@ == self@.chat,
    {
        &self.chat
    }

    pub fn date_imported(&self) -> (r: Option<TimestampMillis>)
        ensures
            r == self@.date_imported,
    {
        self.date_imported
    }
}

/// The channels of a community, at most one for each id.
#[derive(Debug)]
pub struct Channels {
    channels: Vec<Channel>,
}

impl View for Channels {
    type V = ChannelsModel;

    closed spec fn view(&self) -> ChannelsModel {
        keyed_map(self.keys(), self.vals())
    }
}

impl Channels {
    closed spec fn keys(&self) -> Seq<u64> {
        self.channels@.map_values(|c: Channel| c.id)
    }

    closed spec fn vals(&self) -> Seq<ChannelModel> {
        self.channels@.map_values(|c: Channel| c@)
    }

    /// No id occurs twice and every channel's member list is free of repetition.
    pub closed spec fn wf(&self) -> bool {
        &&& self.keys().no_duplicates()
        &&& forall|i: int| 0 <= i < self.channels@.len() ==> (#[trigger] self.channels@[i])@.chat.wf()
    }

    /// A well-formed table holds well-formed channels.
    proof fn lemma_wf(&self)
        requires
            self.wf(),
        ensures
            channels_wf(self@),
    {
        assert forall|id: ChannelId| self@.contains_key(id) implies (#[trigger] self@[id]).chat.wf() by {
            let i = self.keys().index_of(id);
            self.lemma_row(i);
            assert(self.channels@[i]@.chat.wf());
        }
    }

    proof fn lemma_row(&self, i: int)
        requires
            self.keys().no_duplicates(),
            0 <= i < self.channels@.len(),
        ensures
            self@.contains_key(self.channels@[i].id),
            self@[self.channels@[i].id] == self.channels@[i]@,
    {
        lemma_keyed_at(self.keys(), self.vals(), i);
    }

    pub fn new() -> (r: Channels)
        ensures
            r.wf(),
            r@ == ChannelsModel::empty(),
            channels_wf(r@),
    {
        let r = Channels { channels: Vec::new() };
        proof {
            lemma_keyed_empty(r.keys(), r.vals());
        }
        r
    }

    fn position(&self, id: ChannelId) -> (r: Option<usize>)
        requires
            self.wf(),
        ensures
            r is Some == self@.contains_key(id),
            r matches Some(i) ==> i < self.channels@.len() && self.channels@[i as int].id == id
                && self@[id] == self.channels@[i as int]@,
            r is None ==> !self.keys().contains(id),
    {
        let mut i: usize = 0;
        while i < self.channels.len()
            invariant
                self.wf(),
                i <= self.channels@.len(),
                forall|j: int| 0 <= j < i ==> self.channels@[j].id != id,
            decreases self.channels@.len() - i,
        {
            if self.channels[i].id == id {
                proof {
                    self.lemma_row(i as int);
                }
                return Some(i);
            }
            i += 1;
        }
        proof {
            if self.keys().contains(id) {
                let k = self.keys().index_of(id);
                assert(self.channels@[k].id == id);
            }
        }
        None
    }

    pub fn contains(&self, id: ChannelId) -> (r: bool)
        requires
            self.wf(),
        ensures
            r == self@.contains_key(id),
    {
        self.position(id).is_some()
    }

    pub fn get(&self, id: ChannelId) -> (r: Option<&Channel>)
        requires
            self.wf(),
        ensures
            r is Some == self@.contains_key(id),
            r matches Some(c) ==> c@ == self@[id] && c.key() == id && c@.chat.wf(),
    {
        match self.position(id) {
            Some(i) => Some(&self.channels[i]),
            None => None,
        }
    }

    /// Puts `channel` into the table, in place of any channel with the same id.
    pub fn add(&mut self, channel: Channel)
        requires
            old(self).wf(),
            channel@.chat.wf(),
        ensures
            final(self).wf(),
            final(self)@ == old(self)@.insert(channel.key(), channel@),
            channels_wf(final(self)@),
    {
        let ghost before = *self;
        match self.position(channel.id) {
            Some(i) => {
                proof {
                    lemma_keyed_update(self.keys(), self.vals(), i as int, channel@);
                }
                self.channels[i] = channel;
                proof {
                    assert(self.keys() =~= before.keys());
                    assert(self.vals() =~= before.vals().update(i as int, channel@));
                }
            },
            None => {
                proof {
                    lemma_keyed_push(self.keys(), self.vals(), channel.id, channel@);
                }
                self.channels.push(channel);
                proof {
                    assert(self.keys() =~= before.keys().push(channel.id));
                    assert(self.vals() =~= before.vals().push(channel@));
                }
            },
        }
        proof {
            self.lemma_wf();
        }
    }

    /// The ids of the public channels.
    pub fn public_channel_ids(&self) -> (r: Vec<ChannelId>)
        requires
            self.wf(),
        ensures
            lists_keys_where(r@, self@, |c: ChannelModel| c.chat.is_public),
    {
        let ghost p = |c: ChannelModel| c.chat.is_public;
        let mut ids: Vec<ChannelId> = Vec::new();
        let mut i: usize = 0;
        while i < self.channels.len()
            invariant
                i <= self.channels@.len(),
                p == (|c: ChannelModel| c.chat.is_public),
                ids@ == select_keys(self.keys().take(i as int), self.vals().take(i as int), p),
            decreases self.channels@.len() - i,
        {
            proof {
                lemma_select_step(self.keys(), self.vals(), p, i as int);
            }
            if self.channels[i].chat.is_public() {
                ids.push(self.channels[i].id);
            }
            i += 1;
        }
        proof {
            assert(self.keys().take(i as int) =~= self.keys());
            assert(self.vals().take(i as int) =~= self.vals());
            lemma_select_keys(self.keys(), self.vals(), p);
        }
        ids
    }

    /// Makes `user_id` a member of every open channel and returns their ids.
    pub fn enroll_in_open_channels(&mut self, user_id: UserId, is_bot: bool) -> (r: Vec<ChannelId>)
        requires
            old(self).wf(),
        ensures
            final(self).wf(),
            final(self)@ == channels_after_enroll(old(self)@, user_id, is_bot),
            channels_wf(final(self)@),
            lists_keys_where(r@, old(self)@, |c: ChannelModel| c.chat.is_open()),
    {
        let ghost before = *self;
        let ghost p = |c: ChannelModel| c.chat.is_open();
        let ghost f = |c: ChannelModel|
            if c.chat.is_open() {
                c.joined(user_id, is_bot)
            } else {
                c
            };
        let mut ids: Vec<ChannelId> = Vec::new();
        let mut i: usize = 0;
        while i < self.channels.len()
            invariant
                before.wf(),
                i <= self.channels@.len(),
                self.channels@.len() == before.channels@.len(),
                self.keys() == before.keys(),
                p == (|c: ChannelModel| c.chat.is_open()),
                f == (|c: ChannelModel|
                    if c.chat.is_open() {
                        c.joined(user_id, is_bot)
                    } else {
                        c
                    }),
                ids@ == select_keys(before.keys().take(i as int), before.vals().take(i as int), p),
                forall|j: int| 0 <= j < i ==> (#[trigger] self.channels@[j])@ == f(before.channels@[j]@),
                forall|j: int|
                    i <= j < self.channels@.len() ==> #[trigger] self.channels@[j]
                        == before.channels@[j],
            decreases self.channels@.len() - i,
        {
            proof {
                lemma_select_step(before.keys(), before.vals(), p, i as int);
                lemma_joined(before.channels@[i as int]@.chat, user_id, is_bot);
            }
            if self.channels[i].chat.is_open() {
                let ghost prev = *self;
                let id: ChannelId = self.channels[i].id;
                self.channels[i].chat.add_member(user_id, is_bot);
                ids.push(id);
                proof {
                    assert(self.keys() =~= prev.keys());
                }
            }
            i += 1;
        }
        proof {
            assert(before.keys().take(i as int) =~= before.keys());
            assert(before.vals().take(i as int) =~= before.vals());
            lemma_select_keys(before.keys(), before.vals(), p);
            assert forall|j: int| 0 <= j < before.vals().len() implies self.vals()[j] == f(
                before.vals()[j],
            ) by {
                assert(self.channels@[j]@ == f(before.channels@[j]@));
            }
            lemma_keyed_map_values(before.keys(), before.vals(), self.vals(), f);
            assert forall|j: int| 0 <= j < self.channels@.len() implies (
            #[trigger] self.channels@[j])@.chat.wf() by {
                assert(self.channels@[j]@ == f(before.channels@[j]@));
                assert(before.channels@[j]@.chat.wf());
                lemma_joined(before.channels@[j]@.chat, user_id, is_bot);
            }
            self.lemma_wf();
        }
        ids
    }

    /// Removes `user_id` from channel `id` on behalf of `removed_by`.
    pub fn remove_member(&mut self, id: ChannelId, removed_by: UserId, user_id: UserId)
        requires
            old(self).wf(),
        ensures
            final(self).wf(),
            final(self)@ == channels_after_removal(old(self)@, id, user_id, removed_by),
            channels_wf(final(self)@),
    {
        let ghost before = *self;
        match self.position(id) {
            Some(i) => {
                self.channels[i].chat.remove_member(removed_by, user_id);
                proof {
                    let v = before.channels@[i as int]@.removed(user_id, removed_by);
                    assert(self.channels@[i as int]@ == v);
                    assert(self.keys() =~= before.keys());
                    assert(self.vals() =~= before.vals().update(i as int, v));
                    lemma_keyed_update(before.keys(), before.vals(), i as int, v);
                    assert forall|j: int| 0 <= j < self.channels@.len() implies (
                    #[trigger] self.channels@[j])@.chat.wf() by {
                        if j != i {
                            assert(self.channels@[j] == before.channels@[j]);
                        }
                    }
                }
            },
            None => {},
        }
        proof {
            self.lemma_wf();
        }
    }

    /// Marks the import of channel `id` as finished at `now`.
    pub fn set_date_imported(&mut self, id: ChannelId, now: TimestampMillis)
        requires
            old(self).wf(),
        ensures
            final(self).wf(),
            final(self)@ == channels_after_stamp(old(self)@, id, now),
            channels_wf(final(self)@),
    {
        let ghost before = *self;
        match self.position(id) {
            Some(i) => {
                self.channels[i].date_imported = Some(now);
                proof {
                    let v = before.channels@[i as int]@.stamped(now);
                    assert(self.channels@[i as int]@ == v);
                    assert(self.keys() =~= before.keys());
                    assert(self.vals() =~= before.vals().update(i as int, v));
                    lemma_keyed_update(before.keys(), before.vals(), i as int, v);
                    assert forall|j: int| 0 <= j < self.channels@.len() implies (
                    #[trigger] self.channels@[j])@.chat.wf() by {
                        if j != i {
                            assert(self.channels@[j] == before.channels@[j]);
                        }
                    }
                }
            },
            None => {},
        }
        proof {
            self.lemma_wf();
        }
    }
}

} // verus!
