//! Membership reconciliation: the members of an imported channel become
//! members of the community, with a bounded number of retries when their
//! principals cannot be looked up.

use crate::channels::{channels_after_enroll, channels_after_removal, ChannelModel};
use crate::chat::ChatMember;
use crate::events::EventModel;
use crate::jobs::{JobModel, ScheduledJobModel, TimerJob};
use crate::keyed::lists_keys_where;
use crate::members::{AddResult, CommunityMembers, MemberModel, MembersModel};
use crate::state::{CommunityState, StateModel};
use crate::types::{
    ChannelId, GroupId, TimestampMillis, UserId, MAX_LOOKUP_RETRIES, SYSTEM_USER_ID,
};
use vstd::prelude::*;

verus! {

/// A user together with the principal the directory resolved for them.
#[derive(Debug)]
pub struct UserPrincipal {
    pub user_id: UserId,
    pub principal: Vec<u8>,
}

/// Mathematical value of a [`UserPrincipal`].
pub struct UserPrincipalModel {
    pub user_id: UserId,
    pub principal: Seq<u8>,
}

impl View for UserPrincipal {
    type V = UserPrincipalModel;

    open spec fn view(&self) -> UserPrincipalModel {
        UserPrincipalModel { user_id: self.user_id, principal: self.principal@ }
    }
}

/// What became of the lookup of the principals of the users to add.
#[derive(Debug)]
pub enum PrincipalLookup {
    /// Nobody had to be looked up, so no call was made.
    NotNeeded,
    /// The directory could not be reached or did not answer with principals.
    Failed,
    /// The directory resolved these users.
    Resolved(Vec<UserPrincipal>),
}

/// Mathematical value of a [`PrincipalLookup`].
pub enum LookupModel {
    NotNeeded,
    Failed,
    Resolved(Seq<UserPrincipalModel>),
}

impl View for PrincipalLookup {
    type V = LookupModel;

    open spec fn view(&self) -> LookupModel {
        match self {
            PrincipalLookup::NotNeeded => LookupModel::NotNeeded,
            PrincipalLookup::Failed => LookupModel::Failed,
            PrincipalLookup::Resolved(users) => LookupModel::Resolved(
                users@.map_values(|u: UserPrincipal| u@),
            ),
        }
    }
}

/// How a reconciliation step ended.
#[derive(Clone, Copy, Debug, PartialEq, Eq, Structural)]
pub enum MembersOutcome {
    /// The lookup failed; the step is scheduled again with this attempt count.
    Retry { attempt: u32 },
    /// Reconciliation is over and the import event is logged. The caller
    /// schedules the completion step without delay.
    Completed,
}

/// The members after every community member listed in `users` joined `channel_id`.
pub open spec fn joined_where(
    m: Map<UserId, MemberModel>,
    users: Seq<UserId>,
    channel_id: ChannelId,
) -> Map<UserId, MemberModel> {
    Map::new(
        |u: UserId| m.contains_key(u),
        |u: UserId|
            if users.contains(u) {
                m[u].with_channels(set![channel_id])
            } else {
                m[u]
            },
    )
}

/// The state after the first half of a reconciliation step: every member of
/// channel `channel_id` who belongs to the community has the channel in their
/// record.
pub open spec fn after_prepare(s: StateModel, channel_id: ChannelId) -> StateModel {
    StateModel {
        members: MembersModel {
            members: joined_where(
                s.members.members,
                s.channels[channel_id].chat.member_ids(),
                channel_id,
            ),
            ..s.members
        },
        ..s
    }
}

/// The members of channel `channel_id` who do not belong to the community, in
/// member order.
pub open spec fn members_to_add(s: StateModel, channel_id: ChannelId) -> Seq<ChatMember> {
    s.channels[channel_id].chat.members.filter(
        |m: ChatMember| !s.members.members.contains_key(m.user_id),
    )
}

/// Whether `user_id` is listed in `to_add` as a bot; somebody who is not
/// listed is taken for a person.
pub open spec fn bot_flag(to_add: Seq<ChatMember>, user_id: UserId) -> bool
    decreases to_add.len(),
{
    if to_add.len() == 0 {
        false
    } else if to_add[0].user_id == user_id {
        to_add[0].is_bot
    } else {
        bot_flag(to_add.skip(1), user_id)
    }
}

/// The ids of the channels that anybody in the community may join.
pub open spec fn open_channel_ids(channels: Map<ChannelId, ChannelModel>) -> Set<ChannelId> {
    Set::new(|id: ChannelId| channels.contains_key(id) && channels[id].chat.is_open())
}

/// The state after one resolved user was processed for channel `channel_id`.
///
/// Somebody new joins the community, every open channel and the imported
/// channel, and loses any pending invitation. Somebody who is a member
/// already changes nothing. Somebody who is barred from the community is
/// removed from the imported channel by the system actor.
pub open spec fn admitted(
    s: StateModel,
    channel_id: ChannelId,
    user: UserPrincipalModel,
    is_bot: bool,
    now: TimestampMillis,
) -> StateModel {
    match s.members.add_result(user.user_id) {
        AddResult::Success => StateModel {
            members: s.members.added(user.user_id, user.principal, is_bot, now).joined(
                user.user_id,
                open_channel_ids(s.channels).insert(channel_id),
            ),
            invited: s.invited.remove(user.user_id),
            channels: channels_after_enroll(s.channels, user.user_id, is_bot),
            ..s
        },
        AddResult::AlreadyInCommunity => s,
        AddResult::Blocked => StateModel {
            channels: channels_after_removal(s.channels, channel_id, user.user_id, SYSTEM_USER_ID),
            ..s
        },
    }
}

/// The state after the resolved `users` were processed in order, and the
/// users among them who joined the community, in that order.
pub open spec fn after_lookup(
    s: StateModel,
    channel_id: ChannelId,
    to_add: Seq<ChatMember>,
    users: Seq<UserPrincipalModel>,
    now: TimestampMillis,
) -> (StateModel, Seq<UserId>)
    decreases users.len(),
{
    if users.len() == 0 {
        (s, Seq::empty())
    } else {
        let (s1, added) = after_lookup(s, channel_id, to_add, users.drop_last(), now);
        let user = users.last();
        (
            admitted(s1, channel_id, user, bot_flag(to_add, user.user_id), now),
            if s1.members.add_result(user.user_id) == AddResult::Success {
                added.push(user.user_id)
            } else {
                added
            },
        )
    }
}

/// The step is scheduled again: the lookup failed and retries are left.
pub open spec fn retries(attempt: u32, lookup: LookupModel) -> bool {
    lookup is Failed && attempt < MAX_LOOKUP_RETRIES
}

/// The users the lookup resolved; none if it failed or was not needed.
pub open spec fn resolved_users(lookup: LookupModel) -> Seq<UserPrincipalModel> {
    match lookup {
        LookupModel::Resolved(users) => users,
        _ => Seq::empty(),
    }
}

/// The state after the second half of a reconciliation step.
///
/// If the lookup failed and fewer than the allowed number of attempts have
/// failed before, the step is scheduled again for `now` with the next
/// attempt count and nothing else changes. Otherwise the resolved users are
/// processed and the import event, which lists the users who joined the
/// community, is logged.
pub open spec fn after_members(
    s: StateModel,
    group_id: GroupId,
    channel_id: ChannelId,
    attempt: u32,
    to_add: Seq<ChatMember>,
    lookup: LookupModel,
    now: TimestampMillis,
) -> StateModel {
    if retries(attempt, lookup) {
        StateModel {
            jobs: s.jobs.push(
                ScheduledJobModel {
                    job: JobModel::ProcessGroupImportChannelMembers {
                        group_id,
                        channel_id,
                        attempt: (attempt + 1) as u32,
                    },
                    due: now,
                },
            ),
            ..s
        }
    } else {
        let (s1, added) = after_lookup(s, channel_id, to_add, resolved_users(lookup), now);
        StateModel {
            events: s1.events.push(
                EventModel { group_id, channel_id, members_added: added, timestamp: now },
            ),
            ..s1
        }
    }
}

/// The outcome of the second half of a reconciliation step.
pub open spec fn members_outcome(attempt: u32, lookup: LookupModel) -> MembersOutcome {
    if retries(attempt, lookup) {
        MembersOutcome::Retry { attempt: (attempt + 1) as u32 }
    } else {
        MembersOutcome::Completed
    }
}

/// Adds `channel_id` to the record of everybody in `chat_members` who belongs
/// to the community and returns the others.
fn link_members(
    members: &mut CommunityMembers,
    chat_members: &Vec<ChatMember>,
    channel_id: ChannelId,
) -> (to_add: Vec<ChatMember>)
    requires
        old(members).wf(),
        chat_members@.map_values(|m: ChatMember| m.user_id).no_duplicates(),
    ensures
        final(members).wf(),
        final(members)@.blocked == old(members)@.blocked,
        final(members)@.members == joined_where(
            old(members)@.members,
            chat_members@.map_values(|m: ChatMember| m.user_id),
            channel_id,
        ),
        to_add@ == chat_members@.filter(
            |m: ChatMember| !old(members)@.members.contains_key(m.user_id),
        ),
{
    let ghost m0 = members@.members;
    let ghost pred = |m: ChatMember| !m0.contains_key(m.user_id);
    let ghost ids = chat_members@.map_values(|m: ChatMember| m.user_id);
    let mut to_add: Vec<ChatMember> = Vec::new();
    let mut i: usize = 0;
    proof {
        reveal(Seq::filter);
        assert(chat_members@.take(0).filter(pred) =~= Seq::<ChatMember>::empty());
        assert(members@.members =~= joined_where(m0, ids.take(0), channel_id));
    }
    while i < chat_members.len()
        invariant
            i <= chat_members@.len(),
            members.wf(),
            ids == chat_members@.map_values(|m: ChatMember| m.user_id),
            ids.no_duplicates(),
            pred == (|m: ChatMember| !m0.contains_key(m.user_id)),
            to_add@ == chat_members@.take(i as int).filter(pred),
            members@.blocked == old(members)@.blocked,
            members@.members == joined_where(m0, ids.take(i as int), channel_id),
        decreases chat_members@.len() - i,
    {
        let member = chat_members[i];
        let ghost prev = to_add@;
        proof {
            reveal(Seq::filter);
            assert(chat_members@.take(i + 1).drop_last() =~= chat_members@.take(i as int));
            assert(chat_members@.take(i + 1).last() == member);
            assert(ids[i as int] == member.user_id);
            assert(members@.members.contains_key(member.user_id) == m0.contains_key(
                member.user_id,
            ));
            assert(chat_members@.take(i + 1).filter(pred) == (if pred(member) {
                prev.push(member)
            } else {
                prev
            }));
        }
        if !members.join_channel(member.user_id, channel_id) {
            to_add.push(member);
        }
        proof {
            let u0 = member.user_id;
            let target = joined_where(m0, ids.take(i + 1), channel_id);
            assert(!ids.take(i as int).contains(u0)) by {
                if ids.take(i as int).contains(u0) {
                    let k = ids.take(i as int).index_of(u0);
                    assert(ids[k] == ids[i as int]);
                }
            }
            assert forall|u: UserId| #[trigger]
                target.contains_key(u) implies members@.members[u] == target[u] by {
                if u == u0 {
                    assert(ids.take(i + 1)[i as int] == u0);
                } else {
                    if ids.take(i as int).contains(u) {
                        let k = ids.take(i as int).index_of(u);
                        assert(ids.take(i + 1)[k] == u);
                    }
                    if ids.take(i + 1).contains(u) {
                        let k = ids.take(i + 1).index_of(u);
                        assert(ids.take(i as int)[k] == u);
                    }
                }
            }
            assert(members@.members.dom() =~= target.dom());
            assert forall|u: UserId| members@.members.contains_key(u) implies #[trigger] members@.members[u] == target[u] by {
                assert(target.contains_key(u));
            }
            assert(members@.members =~= target);
        }
        i += 1;
    }
    proof {
        assert(chat_members@.take(i as int) =~= chat_members@);
        assert(ids.take(i as int) =~= ids);
    }
    to_add
}

/// First half of a reconciliation step, before the principal lookup.
///
/// Every member of the channel who belongs to the community gets the channel
/// added to their record. Returns the members who do not belong to the
/// community yet.
pub fn prepare_channel_members(state: &mut CommunityState, channel_id: ChannelId) -> (to_add: Vec<
    ChatMember,
>)
    requires
        old(state).wf(),
        old(state)@.channels.contains_key(channel_id),
    ensures
        final(state).wf(),
        final(state)@ == after_prepare(old(state)@, channel_id),
        to_add@ == members_to_add(old(state)@, channel_id),
{
    let channel = state.channels.get(channel_id).unwrap();
    link_members(&mut state.members, channel.chat().members(), channel_id)
}

/// The users whose principals have to be looked up, or `None` if there is
/// nobody to look up and no call is to be made.
pub fn principal_lookup_args(to_add: &Vec<ChatMember>) -> (user_ids: Option<Vec<UserId>>)
    ensures
        user_ids is None <==> to_add@.len() == 0,
        user_ids matches Some(ids) ==> ids@ == to_add@.map_values(|m: ChatMember| m.user_id),
{
    if to_add.len() == 0 {
        return None;
    }
    let mut ids: Vec<UserId> = Vec::new();
    let mut i: usize = 0;
    while i < to_add.len()
        invariant
            i <= to_add@.len(),
            ids@ == to_add@.take(i as int).map_values(|m: ChatMember| m.user_id),
        decreases to_add@.len() - i,
    {
        ids.push(to_add[i].user_id);
        proof {
            assert(to_add@.take(i + 1).map_values(|m: ChatMember| m.user_id) =~= to_add@.take(
                i as int,
            ).map_values(|m: ChatMember| m.user_id).push(to_add@[i as int].user_id));
        }
        i += 1;
    }
    proof {
        assert(to_add@.take(i as int) =~= to_add@);
    }
    Some(ids)
}

fn lookup_bot_flag(to_add: &Vec<ChatMember>, user_id: UserId) -> (r: bool)
    ensures
        r == bot_flag(to_add@, user_id),
{
    let mut i: usize = 0;
    proof {
        assert(to_add@.skip(0) =~= to_add@);
    }
    while i < to_add.len()
        invariant
            i <= to_add@.len(),
            bot_flag(to_add@, user_id) == bot_flag(to_add@.skip(i as int), user_id),
        decreases to_add@.len() - i,
    {
        proof {
            assert(to_add@.skip(i as int)[0] == to_add@[i as int]);
            assert(to_add@.skip(i as int).skip(1) =~= to_add@.skip(i + 1));
        }
        if to_add[i].user_id == user_id {
            return to_add[i].is_bot;
        }
        i += 1;
    }
    false
}

fn copy_bytes(bytes: &Vec<u8>) -> (r: Vec<u8>)
    ensures
        r@ == bytes@,
{
    let mut out: Vec<u8> = Vec::new();
    let mut i: usize = 0;
    while i < bytes.len()
        invariant
            i <= bytes@.len(),
            out@ == bytes@.take(i as int),
        decreases bytes@.len() - i,
    {
        out.push(bytes[i]);
        proof {
            assert(bytes@.take(i + 1) =~= bytes@.take(i as int).push(bytes@[i as int]));
        }
        i += 1;
    }
    proof {
        assert(bytes@.take(i as int) =~= bytes@);
    }
    out
}

/// Processes one resolved user. Returns whether the user joined the community.
fn admit_user(
    state: &mut CommunityState,
    channel_id: ChannelId,
    user: &UserPrincipal,
    is_bot: bool,
    now: TimestampMillis,
) -> (joined: bool)
    requires
        old(state).wf(),
    ensures
        final(state).wf(),
        final(state)@ == admitted(old(state)@, channel_id, user@, is_bot, now),
        joined == (old(state)@.members.add_result(user.user_id) == AddResult::Success),
{
    let user_id: UserId = user.user_id;
    match state.members.add(user_id, copy_bytes(&user.principal), is_bot, now) {
        AddResult::Success => {
            state.invited_users.remove(user_id);
            let ids = state.channels.enroll_in_open_channels(user_id, is_bot);
            state.members.join_channels(user_id, &ids);
            state.members.join_channel(user_id, channel_id);
            proof {
                let s0 = old(state)@;
                let open = open_channel_ids(s0.channels);
                assert(ids@.to_set() =~= open) by {
                    assert(lists_keys_where(
                        ids@,
                        s0.channels,
                        |c: ChannelModel| c.chat.is_open(),
                    ));
                }
                let m1 = s0.members.added(user_id, user@.principal, is_bot, now);
                let rec = m1.members[user_id];
                assert(rec.with_channels(open).with_channels(set![channel_id]).channels
                    =~= rec.with_channels(open.insert(channel_id)).channels);
                assert(state@.members.members =~= m1.joined(
                    user_id,
                    open.insert(channel_id),
                ).members);
            }
            true
        },
        AddResult::AlreadyInCommunity => false,
        AddResult::Blocked => {
            state.channels.remove_member(channel_id, SYSTEM_USER_ID, user_id);
            false
        },
    }
}

/// Second half of a reconciliation step, after the principal lookup.
///
/// `to_add` is what the first half returned, `lookup` what came of looking
/// those users up, and `attempt` the number of lookups that failed before.
pub fn process_channel_members(
    state: &mut CommunityState,
    group_id: GroupId,
    channel_id: ChannelId,
    attempt: u32,
    to_add: &Vec<ChatMember>,
    lookup: &PrincipalLookup,
    now: TimestampMillis,
) -> (outcome: MembersOutcome)
    requires
        old(state).wf(),
        old(state)@.channels.contains_key(channel_id),
    ensures
        final(state).wf(),
        final(state)@ == after_members(
            old(state)@,
            group_id,
            channel_id,
            attempt,
            to_add@,
            lookup@,
            now,
        ),
        outcome == members_outcome(attempt, lookup@),
{
    let mut members_added: Vec<UserId> = Vec::new();
    match lookup {
        PrincipalLookup::Resolved(users) => {
            let ghost s0 = state@;
            let ghost models = users@.map_values(|u: UserPrincipal| u@);
            let mut i: usize = 0;
            proof {
                assert(models.take(0) =~= Seq::<UserPrincipalModel>::empty());
            }
            while i < users.len()
                invariant
                    i <= users@.len(),
                    state.wf(),
                    models == users@.map_values(|u: UserPrincipal| u@),
                    (state@, members_added@) == after_lookup(
                        s0,
                        channel_id,
                        to_add@,
                        models.take(i as int),
                        now,
                    ),
                decreases users@.len() - i,
            {
                proof {
                    assert(models.take(i + 1).drop_last() =~= models.take(i as int));
                    assert(models.take(i + 1).last() == users@[i as int]@);
                }
                let is_bot = lookup_bot_flag(to_add, users[i].user_id);
                if admit_user(state, channel_id, &users[i], is_bot, now) {
                    members_added.push(users[i].user_id);
                }
                i += 1;
            }
            proof {
                assert(models.take(i as int) =~= models);
            }
        },
        PrincipalLookup::Failed => {
            if attempt < MAX_LOOKUP_RETRIES {
                state.timer_jobs.enqueue_job(
                    TimerJob::ProcessGroupImportChannelMembers {
                        group_id,
                        channel_id,
                        attempt: attempt + 1,
                    },
                    now,
                    now,
                );
                return MembersOutcome::Retry { attempt: attempt + 1 };
            }
        },
        PrincipalLookup::NotNeeded => {},
    }
    state.events.push_group_imported(group_id, channel_id, members_added, now);
    MembersOutcome::Completed
}

} // verus!
