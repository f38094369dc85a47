//! The community's members, the users barred from it and the pending invitations.

use crate::idset::IdSet;
use crate::keyed::{
    keyed_map, lemma_keyed_at, lemma_keyed_empty, lemma_keyed_push, lemma_keyed_update,
};
use crate::types::{ChannelId, TimestampMillis, UserId};
use vstd::prelude::*;

verus! {

/// The version of the community's rules that a member accepted, and when.
#[derive(Clone, Copy, Debug)]
pub struct RulesAccepted {
    pub version: u32,
    pub at: TimestampMillis,
}

/// Mathematical value of a member record.
pub struct MemberModel {
    /// The principal under which the user authenticates.
    pub principal: Seq<u8>,
    pub is_bot: bool,
    pub suspended: bool,
    pub date_added: TimestampMillis,
    /// The channels the user belongs to.
    pub channels: Set<ChannelId>,
    /// The latest version of the rules the user accepted, if any.
    pub rules_accepted: Option<RulesAccepted>,
}

impl MemberModel {
    /// The record of somebody who has just joined the community.
    pub open spec fn fresh(principal: Seq<u8>, is_bot: bool, now: TimestampMillis) -> MemberModel {
        MemberModel {
            principal,
            is_bot,
            suspended: false,
            date_added: now,
            channels: Set::empty(),
            rules_accepted: None,
        }
    }

    /// This version of the rules, or a later one, has been accepted.
    pub open spec fn has_accepted(self, version: u32) -> bool {
        self.rules_accepted matches Some(accepted) && version <= accepted.version
    }

    /// The record after the user accepted `version` of the rules at `now`;
    /// accepting a version that is not newer than the accepted one changes
    /// nothing.
    pub open spec fn accepting(self, version: u32, now: TimestampMillis) -> MemberModel {
        if self.has_accepted(version) {
            self
        } else {
            MemberModel { rules_accepted: Some(RulesAccepted { version, at: now }), ..self }
        }
    }

    /// The record after the user joined the channels `ids`.
    pub open spec fn with_channels(self, ids: Set<ChannelId>) -> MemberModel {
        MemberModel { channels: self.channels.union(ids), ..self }
    }
}

/// Mathematical value of the member table.
pub struct MembersModel {
    pub members: Map<UserId, MemberModel>,
    /// Users barred from the community.
    pub blocked: Set<UserId>,
}

/// What became of an attempt to add a user to the community.
#[derive(Clone, Copy, Debug, PartialEq, Eq, Structural)]
pub enum AddResult {
    /// The user is now a member.
    Success,
    /// The user was a member already; nothing changed.
    AlreadyInCommunity,
    /// The user is barred from the community; nothing changed.
    Blocked,
}

impl MembersModel {
    /// The outcome of adding `user_id`.
    pub open spec fn add_result(self, user_id: UserId) -> AddResult {
        if self.blocked.contains(user_id) {
            AddResult::Blocked
        } else if self.members.contains_key(user_id) {
            AddResult::AlreadyInCommunity
        } else {
            AddResult::Success
        }
    }

    /// The table after an attempt to add `user_id`.
    pub open spec fn added(
        self,
        user_id: UserId,
        principal: Seq<u8>,
        is_bot: bool,
        now: TimestampMillis,
    ) -> MembersModel {
        if self.add_result(user_id) == AddResult::Success {
            MembersModel {
                members: self.members.insert(user_id, MemberModel::fresh(principal, is_bot, now)),
                ..self
            }
        } else {
            self
        }
    }

    /// `user_id` is a member who authenticates as `principal`.
    pub open spec fn is_principal_of(self, principal: Seq<u8>, user_id: UserId) -> bool {
        self.members.contains_key(user_id) && self.members[user_id].principal == principal
    }

    /// The table after member `user_id` accepted `version` of the rules at
    /// `now`; nothing changes if there is no such member.
    pub open spec fn accepted(self, user_id: UserId, version: u32, now: TimestampMillis)
        -> MembersModel {
        if self.members.contains_key(user_id) {
            MembersModel {
                members: self.members.insert(
                    user_id,
                    self.members[user_id].accepting(version, now),
                ),
                ..self
            }
        } else {
            self
        }
    }

    /// The table after member `user_id` joined the channels `ids`; nothing
    /// changes if there is no such member.
    pub open spec fn joined(self, user_id: UserId, ids: Set<ChannelId>) -> MembersModel {
        if self.members.contains_key(user_id) {
            MembersModel {
                members: self.members.insert(user_id, self.members[user_id].with_channels(ids)),
                ..self
            }
        } else {
            self
        }
    }
}

/// Whether two byte strings are the same.
fn bytes_equal(a: &Vec<u8>, b: &Vec<u8>) -> (r: bool)
    ensures
        r == (a@ == b@),
{
    if a.len() != b.len() {
        return false;
    }
    let mut i: usize = 0;
    while i < a.len()
        invariant
            i <= a@.len(),
            a@.len() == b@.len(),
            forall|j: int| 0 <= j < i ==> a@[j] == b@[j],
        decreases a@.len() - i,
    {
        if a[i] != b[i] {
            return false;
        }
        i += 1;
    }
    assert(a@ =~= b@);
    true
}

/// A member of the community.
#[derive(Debug)]
pub struct CommunityMember {
    user_id: UserId,
    principal: Vec<u8>,
    is_bot: bool,
    suspended: bool,
    date_added: TimestampMillis,
    channels: IdSet,
    rules_accepted: Option<RulesAccepted>,
}

impl View for CommunityMember {
    type V = MemberModel;

    closed spec fn view(&self) -> MemberModel {
        MemberModel {
            principal: self.principal@,
            is_bot: self.is_bot,
            suspended: self.suspended,
            date_added: self.date_added,
            channels: self.channels@,
            rules_accepted: self.rules_accepted,
        }
    }
}

impl CommunityMember {
    /// The member's user id.
    pub closed spec fn key(&self) -> UserId {
        self.user_id
    }

    pub fn user_id(&self) -> (r: UserId)
        ensures
            r == self.key(),
    {
        self.user_id
    }

    pub fn principal(&self) -> (r: &Vec<u8>)
        ensures
            r@ == self@.principal,
    {
        &self.principal
    }

    pub fn is_bot(&self) -> (r: bool)
        ensures
            r == self@.is_bot,
    {
        self.is_bot
    }

    pub fn is_suspended(&self) -> (r: bool)
        ensures
            r == self@.suspended,
    {
        self.suspended
    }

    pub fn date_added(&self) -> (r: TimestampMillis)
        ensures
            r == self@.date_added,
    {
        self.date_added
    }

    pub fn rules_accepted(&self) -> (r: Option<RulesAccepted>)
        ensures
            r == self@.rules_accepted,
    {
        self.rules_accepted
    }

    pub fn is_in_channel(&self, channel_id: ChannelId) -> (r: bool)
        ensures
            r == self@.channels.contains(channel_id),
    {
        self.channels.contains(channel_id)
    }

    /// The channels the member belongs to, each once.
    pub fn channel_ids(&self) -> (r: Vec<ChannelId>)
        ensures
            r@.no_duplicates(),
            r@.to_set() == self@.channels,
    {
        self.channels.to_vec()
    }
}

/// The members of a community, at most one record for each user, and the
/// users barred from it.
#[derive(Debug)]
pub struct CommunityMembers {
    members: Vec<CommunityMember>,
    blocked: IdSet,
}

impl View for CommunityMembers {
    type V = MembersModel;

    closed spec fn view(&self) -> MembersModel {
        MembersModel { members: keyed_map(self.keys(), self.vals()), blocked: self.blocked@ }
    }
}

impl CommunityMembers {
    closed spec fn keys(&self) -> Seq<u64> {
        self.members@.map_values(|m: CommunityMember| m.user_id)
    }

    closed spec fn vals(&self) -> Seq<MemberModel> {
        self.members@.map_values(|m: CommunityMember| m@)
    }

    /// No user has two records.
    pub closed spec fn wf(&self) -> bool {
        self.keys().no_duplicates()
    }

    pub fn new() -> (r: CommunityMembers)
        ensures
            r.wf(),
            r@ == (MembersModel { members: Map::empty(), blocked: Set::empty() }),
    {
        let r = CommunityMembers { members: Vec::new(), blocked: IdSet::new() };
        proof {
            lemma_keyed_empty(r.keys(), r.vals());
        }
        r
    }

    fn position(&self, user_id: UserId) -> (r: Option<usize>)
        requires
            self.wf(),
        ensures
            r is Some == self@.members.contains_key(user_id),
            r matches Some(i) ==> i < self.members@.len() && self.members@[i as int].user_id
                == user_id && self@.members[user_id] == self.members@[i as int]@,
            r is None ==> !self.keys().contains(user_id),
    {
        let mut i: usize = 0;
        while i < self.members.len()
            invariant
                self.wf(),
                i <= self.members@.len(),
                forall|j: int| 0 <= j < i ==> self.members@[j].user_id != user_id,
            decreases self.members@.len() - i,
        {
            if self.members[i].user_id == user_id {
                proof {
                    lemma_keyed_at(self.keys(), self.vals(), i as int);
                }
                return Some(i);
            }
            i += 1;
        }
        proof {
            if self.keys().contains(user_id) {
                let k = self.keys().index_of(user_id);
                assert(self.members@[k].user_id == user_id);
            }
        }
        None
    }

    pub fn contains(&self, user_id: UserId) -> (r: bool)
        requires
            self.wf(),
        ensures
            r == self@.members.contains_key(user_id),
    {
        self.position(user_id).is_some()
    }

    pub fn get_by_user_id(&self, user_id: UserId) -> (r: Option<&CommunityMember>)
        requires
            self.wf(),
        ensures
            r is Some == self@.members.contains_key(user_id),
            r matches Some(m) ==> m@ == self@.members[user_id] && m.key() == user_id,
    {
        match self.position(user_id) {
            Some(i) => Some(&self.members[i]),
            None => None,
        }
    }

    /// The member who authenticates as `principal`, if there is one.
    pub fn get_by_principal(&self, principal: &Vec<u8>) -> (r: Option<&CommunityMember>)
        requires
            self.wf(),
        ensures
            r matches Some(m) ==> self@.is_principal_of(principal@, m.key()) && m@
                == self@.members[m.key()],
            r is None ==> forall|u: UserId| !self@.is_principal_of(principal@, u),
    {
        let mut i: usize = 0;
        while i < self.members.len()
            invariant
                self.wf(),
                i <= self.members@.len(),
                forall|j: int| 0 <= j < i ==> self.members@[j].principal@ != principal@,
            decreases self.members@.len() - i,
        {
            if bytes_equal(&self.members[i].principal, principal) {
                proof {
                    lemma_keyed_at(self.keys(), self.vals(), i as int);
                }
                return Some(&self.members[i]);
            }
            i += 1;
        }
        proof {
            assert forall|u: UserId| !self@.is_principal_of(principal@, u) by {
                if self@.members.contains_key(u) {
                    let k = self.keys().index_of(u);
                    lemma_keyed_at(self.keys(), self.vals(), k);
                    assert(self.members@[k].principal@ != principal@);
                }
            }
        }
        None
    }

    /// Records that member `user_id` accepted `version` of the rules at `now`.
    pub fn accept_rules(&mut self, user_id: UserId, version: u32, now: TimestampMillis)
        requires
            old(self).wf(),
        ensures
            final(self).wf(),
            final(self)@ == old(self)@.accepted(user_id, version, now),
    {
        let ghost before = *self;
        match self.position(user_id) {
            Some(i) => {
                let already = match self.members[i].rules_accepted {
                    Some(accepted) => version <= accepted.version,
                    None => false,
                };
                if !already {
                    self.members[i].rules_accepted = Some(RulesAccepted { version, at: now });
                }
                proof {
                    let v = before.members@[i as int]@.accepting(version, now);
                    assert(self.members@[i as int]@ == v);
                    assert(self.keys() =~= before.keys());
                    assert(self.vals() =~= before.vals().update(i as int, v));
                    lemma_keyed_update(before.keys(), before.vals(), i as int, v);
                }
            },
            None => {},
        }
    }

    pub fn is_blocked(&self, user_id: UserId) -> (r: bool)
        ensures
            r == self@.blocked.contains(user_id),
    {
        self.blocked.contains(user_id)
    }

    /// Bars `user_id` from the community.
    pub fn block(&mut self, user_id: UserId)
        requires
            old(self).wf(),
        ensures
            final(self).wf(),
            final(self)@ == (MembersModel {
                blocked: old(self)@.blocked.insert(user_id),
                ..old(self)@
            }),
    {
        self.blocked.insert(user_id);
    }

    /// Adds `user_id` to the community unless the user is barred from it or a
    /// member already.
    pub fn add(
        &mut self,
        user_id: UserId,
        principal: Vec<u8>,
        is_bot: bool,
        now: TimestampMillis,
    ) -> (r: AddResult)
        requires
            old(self).wf(),
        ensures
            final(self).wf(),
            r == old(self)@.add_result(user_id),
            final(self)@ == old(self)@.added(user_id, principal@, is_bot, now),
    {
        if self.blocked.contains(user_id) {
            return AddResult::Blocked;
        }
        if self.position(user_id).is_some() {
            return AddResult::AlreadyInCommunity;
        }
        let member = CommunityMember {
            user_id,
            principal,
            is_bot,
            suspended: false,
            date_added: now,
            channels: IdSet::new(),
            rules_accepted: None,
        };
        let ghost before = *self;
        proof {
            lemma_keyed_push(self.keys(), self.vals(), user_id, member@);
        }
        self.members.push(member);
        proof {
            assert(self.keys() =~= before.keys().push(user_id));
            assert(self.vals() =~= before.vals().push(member@));
        }
        AddResult::Success
    }

    /// Records that member `user_id` belongs to the channels `ids`. Returns
    /// whether there is such a member.
    pub fn join_channels(&mut self, user_id: UserId, ids: &Vec<ChannelId>) -> (r: bool)
        requires
            old(self).wf(),
        ensures
            final(self).wf(),
            r == old(self)@.members.contains_key(user_id),
            final(self)@ == old(self)@.joined(user_id, ids@.to_set()),
    {
        let ghost before = *self;
        match self.position(user_id) {
            Some(i) => {
                self.members[i].channels.insert_all(ids);
                proof {
                    let v = before.members@[i as int]@.with_channels(ids@.to_set());
                    assert(self.members@[i as int]@ == v);
                    assert(self.keys() =~= before.keys());
                    assert(self.vals() =~= before.vals().update(i as int, v));
                    lemma_keyed_update(before.keys(), before.vals(), i as int, v);
                }
                true
            },
            None => false,
        }
    }

    /// Records that member `user_id` belongs to `channel_id`. Returns whether
    /// there is such a member.
    pub fn join_channel(&mut self, user_id: UserId, channel_id: ChannelId) -> (r: bool)
        requires
            old(self).wf(),
        ensures
            final(self).wf(),
            r == old(self)@.members.contains_key(user_id),
            final(self)@ == old(self)@.joined(user_id, set![channel_id]),
    {
        let ghost before = *self;
        match self.position(user_id) {
            Some(i) => {
                self.members[i].channels.insert(channel_id);
                proof {
                    let v = before.members@[i as int]@.with_channels(set![channel_id]);
                    assert(before.members@[i as int]@.channels.insert(channel_id)
                        =~= before.members@[i as int]@.channels.union(set![channel_id]));
                    assert(self.members@[i as int]@ == v);
                    assert(self.keys() =~= before.keys());
                    assert(self.vals() =~= before.vals().update(i as int, v));
                    lemma_keyed_update(before.keys(), before.vals(), i as int, v);
                }
                true
            },
            None => false,
        }
    }

    /// Suspends or reinstates member `user_id`.
    pub fn set_suspended(&mut self, user_id: UserId, suspended: bool)
        requires
            old(self).wf(),
        ensures
            final(self).wf(),
            final(self)@ == (if old(self)@.members.contains_key(user_id) {
                MembersModel {
                    members: old(self)@.members.insert(
                        user_id,
                        MemberModel { suspended, ..old(self)@.members[user_id] },
                    ),
                    ..old(self)@
                }
            } else {
                old(self)@
            }),
    {
        let ghost before = *self;
        match self.position(user_id) {
            Some(i) => {
                self.members[i].suspended = suspended;
                proof {
                    let v = MemberModel { suspended, ..before.members@[i as int]@ };
                    assert(self.members@[i as int]@ == v);
                    assert(self.keys() =~= before.keys());
                    assert(self.vals() =~= before.vals().update(i as int, v));
                    lemma_keyed_update(before.keys(), before.vals(), i as int, v);
                }
            },
            None => {},
        }
    }
}

/// The users who have been invited to the community and have not joined yet.
#[derive(Debug)]
pub struct InvitedUsers {
    users: IdSet,
}

impl View for InvitedUsers {
    type V = Set<UserId>;

    closed spec fn view(&self) -> Set<UserId> {
        self.users@
    }
}

impl InvitedUsers {
    pub fn new() -> (r: InvitedUsers)
        ensures
            r@ == Set::<UserId>::empty(),
    {
        InvitedUsers { users: IdSet::new() }
    }

    pub fn contains(&self, user_id: UserId) -> (r: bool)
        ensures
            r == self@.contains(user_id),
    {
        self.users.contains(user_id)
    }

    /// Records an invitation for `user_id`.
    pub fn add(&mut self, user_id: UserId)
        ensures
            final(self)@ == old(self)@.insert(user_id),
    {
        self.users.insert(user_id);
    }

    /// Withdraws the invitation of `user_id`. Returns whether there was one.
    pub fn remove(&mut self, user_id: UserId) -> (r: bool)
        ensures
            final(self)@ == old(self)@.remove(user_id),
            r == old(self)@.contains(user_id),
    {
        self.users.remove(user_id)
    }
}

} // verus!
