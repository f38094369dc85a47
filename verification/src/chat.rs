//! The part of a chat's state that the import pipeline reads and changes:
//! its name, visibility, access gate, member list and membership history.

use crate::types::{MessageIndex, UserId};
use vstd::prelude::*;

verus! {

/// A member of a chat.
#[derive(Clone, Copy, Debug)]
pub struct ChatMember {
    pub user_id: UserId,
    pub is_bot: bool,
}

/// A change of membership recorded in a chat's history.
#[derive(Clone, Copy, Debug)]
pub enum ChatEvent {
    /// `user_id` joined the chat.
    ParticipantJoined { user_id: UserId },
    /// `user_id` was removed from the chat by `removed_by`.
    MemberRemoved { user_id: UserId, removed_by: UserId },
}

/// Mathematical value of a chat.
pub struct ChatModel {
    pub name: Seq<char>,
    pub is_public: bool,
    /// Joining requires passing an access gate.
    pub gated: bool,
    /// The members, each user at most once.
    pub members: Seq<ChatMember>,
    pub latest_message_index: Option<MessageIndex>,
    /// Membership changes, oldest first.
    pub events: Seq<ChatEvent>,
}

impl ChatModel {
    /// The user ids of the members, in member order.
    pub open spec fn member_ids(self) -> Seq<UserId> {
        self.members.map_values(|m: ChatMember| m.user_id)
    }

    /// No user is listed twice.
    pub open spec fn wf(self) -> bool {
        self.member_ids().no_duplicates()
    }

    pub open spec fn has_member(self, user_id: UserId) -> bool {
        self.member_ids().contains(user_id)
    }

    /// Anybody in the community may join: the chat is public and has no gate.
    pub open spec fn is_open(self) -> bool {
        self.is_public && !self.gated
    }

    /// The chat after `user_id` joined; nothing changes for somebody who is
    /// already a member.
    pub open spec fn joined(self, user_id: UserId, is_bot: bool) -> ChatModel {
        if self.has_member(user_id) {
            self
        } else {
            ChatModel {
                members: self.members.push(ChatMember { user_id, is_bot }),
                events: self.events.push(ChatEvent::ParticipantJoined { user_id }),
                ..self
            }
        }
    }

    /// The chat after `removed_by` removed `user_id`; nothing changes for
    /// somebody who is not a member.
    pub open spec fn removed(self, user_id: UserId, removed_by: UserId) -> ChatModel {
        if self.has_member(user_id) {
            ChatModel {
                members: self.members.remove(self.member_ids().index_of(user_id)),
                events: self.events.push(ChatEvent::MemberRemoved { user_id, removed_by }),
                ..self
            }
        } else {
            self
        }
    }
}

/// Joining keeps the member list free of repetition and makes the user a member.
pub proof fn lemma_joined(c: ChatModel, user_id: UserId, is_bot: bool)
    requires
        c.wf(),
    ensures
        c.joined(user_id, is_bot).wf(),
        c.joined(user_id, is_bot).has_member(user_id),
        forall|u: UserId| c.has_member(u) ==> #[trigger] c.joined(user_id, is_bot).has_member(u),
        forall|u: UserId|
            u != user_id ==> (#[trigger] c.joined(user_id, is_bot).has_member(u) == c.has_member(u)),
{
    let d = c.joined(user_id, is_bot);
    if !c.has_member(user_id) {
        let ids = c.member_ids();
        assert(d.member_ids() =~= ids.push(user_id));
        assert(d.member_ids()[ids.len() as int] == user_id);
        assert forall|i: int, j: int|
            0 <= i < d.member_ids().len() && 0 <= j < d.member_ids().len() && i != j implies d.member_ids()[i]
            != d.member_ids()[j] by {
            if i < ids.len() {
                assert(ids.contains(ids[i]));
            }
            if j < ids.len() {
                assert(ids.contains(ids[j]));
            }
        }
        assert forall|u: UserId| c.has_member(u) implies #[trigger] d.has_member(u) by {
            let i = ids.index_of(u);
            assert(d.member_ids()[i] == u);
        }
        assert forall|u: UserId| u != user_id implies (#[trigger] d.has_member(u) == c.has_member(
            u,
        )) by {
            if d.has_member(u) {
                let i = d.member_ids().index_of(u);
                assert(ids[i] == u);
            }
        }
    }
}

/// Removal keeps the member list free of repetition, drops exactly that user
/// and keeps everybody else.
pub proof fn lemma_removed(c: ChatModel, user_id: UserId, removed_by: UserId)
    requires
        c.wf(),
    ensures
        c.removed(user_id, removed_by).wf(),
        !c.removed(user_id, removed_by).has_member(user_id),
        forall|u: UserId|
            u != user_id ==> (#[trigger] c.removed(user_id, removed_by).has_member(u)
                == c.has_member(u)),
{
    let d = c.removed(user_id, removed_by);
    if c.has_member(user_id) {
        let ids = c.member_ids();
        let k = ids.index_of(user_id);
        assert(d.member_ids() =~= ids.remove(k));
        assert(d.wf());
        assert(!d.has_member(user_id)) by {
            if d.has_member(user_id) {
                let i = d.member_ids().index_of(user_id);
                if i < k {
                    assert(ids[i] == user_id);
                } else {
                    assert(ids[i + 1] == user_id);
                }
            }
        }
        assert forall|u: UserId| u != user_id implies (#[trigger] d.has_member(u) == c.has_member(
            u,
        )) by {
            if d.has_member(u) {
                let i = d.member_ids().index_of(u);
                if i < k {
                    assert(ids[i] == u);
                } else {
                    assert(ids[i + 1] == u);
                }
            }
            if c.has_member(u) {
                let i = ids.index_of(u);
                if i < k {
                    assert(d.member_ids()[i] == u);
                } else {
                    assert(d.member_ids()[i - 1] == u);
                }
            }
        }
    }
}

/// A chat as the import pipeline sees it.
#[derive(Debug)]
pub struct GroupChatCore {
    name: String,
    is_public: bool,
    gated: bool,
    members: Vec<ChatMember>,
    latest_message_index: Option<MessageIndex>,
    events: Vec<ChatEvent>,
}

impl View for GroupChatCore {
    type V = ChatModel;

    closed spec fn view(&self) -> ChatModel {
        ChatModel {
            name: self.name@,
            is_public: self.is_public,
            gated: self.gated,
            members: self.members@,
            latest_message_index: self.latest_message_index,
            events: self.events@,
        }
    }
}

impl GroupChatCore {
    /// A chat without members or history.
    pub fn new(
        name: String,
        is_public: bool,
        gated: bool,
        latest_message_index: Option<MessageIndex>,
    ) -> (r: GroupChatCore)
        ensures
            r@ == (ChatModel {
                name: name@,
                is_public,
                gated,
                members: Seq::empty(),
                latest_message_index,
                events: Seq::empty(),
            }),
            r@.wf(),
    {
        GroupChatCore {
            name,
            is_public,
            gated,
            members: Vec::new(),
            latest_message_index,
            events: Vec::new(),
        }
    }

    pub fn name(&self) -> (r: &String)
        ensures
            r@ == self@.name,
    {
        &self.name
    }

    pub fn is_public(&self) -> (r: bool)
        ensures
            r == self@.is_public,
    {
        self.is_public
    }

    pub fn is_gated(&self) -> (r: bool)
        ensures
            r == self@.gated,
    {
        self.gated
    }

    pub fn is_open(&self) -> (r: bool)
        ensures
            r == self@.is_open(),
    {
        self.is_public && !self.gated
    }

    pub fn latest_message_index(&self) -> (r: Option<MessageIndex>)
        ensures
            r == self@.latest_message_index,
    {
        self.latest_message_index
    }

    pub fn members(&self) -> (r: &Vec<ChatMember>)
        ensures
            r@ == self@.members,
    {
        &self.members
    }

    pub fn events(&self) -> (r: &Vec<ChatEvent>)
        ensures
            r@ == self@.events,
    {
        &self.events
    }

    /// The user ids of the members, in member order.
    pub fn member_ids(&self) -> (r: Vec<UserId>)
        ensures
            r@ == self@.member_ids(),
    {
        let mut ids: Vec<UserId> = Vec::new();
        let mut i: usize = 0;
        while i < self.members.len()
            invariant
                i <= self.members@.len(),
                ids@ == self.members@.take(i as int).map_values(|m: ChatMember| m.user_id),
            decreases self.members@.len() - i,
        {
            ids.push(self.members[i].user_id);
            proof {
                assert(self.members@.take(i + 1).map_values(|m: ChatMember| m.user_id)
                    =~= self.members@.take(i as int).map_values(|m: ChatMember| m.user_id).push(
                    self.members@[i as int].user_id,
                ));
            }
            i += 1;
        }
        proof {
            assert(self.members@.take(i as int) =~= self.members@);
        }
        ids
    }

    fn position(&self, user_id: UserId) -> (r: Option<usize>)
        requires
            self@.wf(),
        ensures
            r is Some == self@.has_member(user_id),
            r matches Some(i) ==> i < self@.members.len() && i == self@.member_ids().index_of(
                user_id,
            ),
    {
        let mut i: usize = 0;
        while i < self.members.len()
            invariant
                self@.wf(),
                i <= self.members@.len(),
                forall|j: int| 0 <= j < i ==> self.members@[j].user_id != user_id,
            decreases self.members@.len() - i,
        {
            if self.members[i].user_id == user_id {
                proof {
                    let ids = self@.member_ids();
                    assert(ids[i as int] == user_id);
                    let k = ids.index_of(user_id);
                    assert(0 <= k < ids.len() && ids[k] == user_id);
                }
                return Some(i);
            }
            i += 1;
        }
        proof {
            if self@.has_member(user_id) {
                let k = self@.member_ids().index_of(user_id);
                assert(self.members@[k].user_id == user_id);
            }
        }
        None
    }

    pub fn has_member(&self, user_id: UserId) -> (r: bool)
        requires
            self@.wf(),
        ensures
            r == self@.has_member(user_id),
    {
        self.position(user_id).is_some()
    }

    /// Makes `user_id` a member. Returns whether the user was not one before.
    pub fn add_member(&mut self, user_id: UserId, is_bot: bool) -> (added: bool)
        requires
            old(self)@.wf(),
        ensures
            final(self)@.wf(),
            final(self)@ == old(self)@.joined(user_id, is_bot),
            added == !old(self)@.has_member(user_id),
    {
        proof {
            lemma_joined(self@, user_id, is_bot);
        }
        if self.position(user_id).is_some() {
            return false;
        }
        self.members.push(ChatMember { user_id, is_bot });
        self.events.push(ChatEvent::ParticipantJoined { user_id });
        true
    }

    /// Removes `user_id` on behalf of `removed_by`. Returns whether the user
    /// was a member.
    pub fn remove_member(&mut self, removed_by: UserId, user_id: UserId) -> (removed: bool)
        requires
            old(self)@.wf(),
        ensures
            final(self)@.wf(),
            final(self)@ == old(self)@.removed(user_id, removed_by),
            removed == old(self)@.has_member(user_id),
    {
        proof {
            lemma_removed(self@, user_id, removed_by);
        }
        match self.position(user_id) {
            Some(i) => {
                self.members.remove(i);
                self.events.push(ChatEvent::MemberRemoved { user_id, removed_by });
                true
            },
            None => false,
        }
    }
}

} // verus!
