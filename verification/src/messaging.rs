//! Sending a message to a channel: who may send, and what follows in the
//! community once the channel's chat has taken the message.

use crate::jobs::{JobModel, ScheduledJobModel, TimerJob, TimerJobs};
use crate::members::MembersModel;
use crate::state::{CommunityState, StateModel};
use crate::types::{BlobReference, ChannelId, MessageIndex, TimestampMillis, UserId};
use vstd::prelude::*;

verus! {

/// Why a poll was refused.
#[derive(Clone, Copy, Debug, PartialEq, Eq, Structural)]
pub enum InvalidPollReason {
    TooFewOptions(u32),
    TooManyOptions(u32),
    OptionTooLong(u32),
    DuplicateOptions,
    EndDateInThePast,
    PollsNotValidForDirectChats,
}

/// What the chat recorded for a message it took.
#[derive(Debug)]
pub struct SentMessage {
    pub event_index: u32,
    pub message_index: MessageIndex,
    /// When the message disappears, if it does.
    pub expires_at: Option<TimestampMillis>,
    /// When the poll in the message closes, if the message is a poll that closes.
    pub poll_end_date: Option<TimestampMillis>,
    /// The files the message refers to.
    pub files: Vec<BlobReference>,
    /// The members of the chat who should hear of the message.
    pub users_to_notify: Vec<UserId>,
}

/// Mathematical value of a [`SentMessage`].
pub struct SentModel {
    pub event_index: u32,
    pub message_index: MessageIndex,
    pub expires_at: Option<TimestampMillis>,
    pub poll_end_date: Option<TimestampMillis>,
    pub files: Seq<BlobReference>,
    pub users_to_notify: Seq<UserId>,
}

impl View for SentMessage {
    type V = SentModel;

    open spec fn view(&self) -> SentModel {
        SentModel {
            event_index: self.event_index,
            message_index: self.message_index,
            expires_at: self.expires_at,
            poll_end_date: self.poll_end_date,
            files: self.files@,
            users_to_notify: self.users_to_notify@,
        }
    }
}

/// What a channel's chat made of a message.
#[derive(Debug)]
pub enum SendMessageResult {
    Success(SentMessage),
    ThreadMessageNotFound,
    MessageEmpty,
    TextTooLong(u32),
    InvalidPoll(InvalidPollReason),
    NotAuthorized,
    UserNotInGroup,
    UserSuspended,
    RulesNotAccepted,
    InvalidRequest(String),
}

/// Mathematical value of a [`SendMessageResult`].
pub enum ResultModel {
    Success(SentModel),
    ThreadMessageNotFound,
    MessageEmpty,
    TextTooLong(u32),
    InvalidPoll(InvalidPollReason),
    NotAuthorized,
    UserNotInGroup,
    UserSuspended,
    RulesNotAccepted,
    InvalidRequest(Seq<char>),
}

impl View for SendMessageResult {
    type V = ResultModel;

    open spec fn view(&self) -> ResultModel {
        match self {
            SendMessageResult::Success(m) => ResultModel::Success(m@),
            SendMessageResult::ThreadMessageNotFound => ResultModel::ThreadMessageNotFound,
            SendMessageResult::MessageEmpty => ResultModel::MessageEmpty,
            SendMessageResult::TextTooLong(n) => ResultModel::TextTooLong(*n),
            SendMessageResult::InvalidPoll(r) => ResultModel::InvalidPoll(*r),
            SendMessageResult::NotAuthorized => ResultModel::NotAuthorized,
            SendMessageResult::UserNotInGroup => ResultModel::UserNotInGroup,
            SendMessageResult::UserSuspended => ResultModel::UserSuspended,
            SendMessageResult::RulesNotAccepted => ResultModel::RulesNotAccepted,
            SendMessageResult::InvalidRequest(e) => ResultModel::InvalidRequest(e@),
        }
    }
}

/// Where a message that was taken stands in the chat.
#[derive(Clone, Copy, Debug, PartialEq, Eq, Structural)]
pub struct SuccessResult {
    pub event_index: u32,
    pub message_index: MessageIndex,
    pub timestamp: TimestampMillis,
    pub expires_at: Option<TimestampMillis>,
}

/// The answer to somebody who sent a message.
#[derive(Debug)]
pub enum Response {
    Success(SuccessResult),
    ChannelNotFound,
    ThreadMessageNotFound,
    MessageEmpty,
    TextTooLong(u32),
    InvalidPoll(InvalidPollReason),
    NotAuthorized,
    UserNotInCommunity,
    UserNotInChannel,
    UserSuspended,
    CommunityFrozen,
    RulesNotAccepted,
    InvalidRequest(String),
}

/// Mathematical value of a [`Response`].
pub enum ReplyModel {
    Success(SuccessResult),
    ChannelNotFound,
    ThreadMessageNotFound,
    MessageEmpty,
    TextTooLong(u32),
    InvalidPoll(InvalidPollReason),
    NotAuthorized,
    UserNotInCommunity,
    UserNotInChannel,
    UserSuspended,
    CommunityFrozen,
    RulesNotAccepted,
    InvalidRequest(Seq<char>),
}

impl View for Response {
    type V = ReplyModel;

    open spec fn view(&self) -> ReplyModel {
        match self {
            Response::Success(r) => ReplyModel::Success(*r),
            Response::ChannelNotFound => ReplyModel::ChannelNotFound,
            Response::ThreadMessageNotFound => ReplyModel::ThreadMessageNotFound,
            Response::MessageEmpty => ReplyModel::MessageEmpty,
            Response::TextTooLong(n) => ReplyModel::TextTooLong(*n),
            Response::InvalidPoll(r) => ReplyModel::InvalidPoll(*r),
            Response::NotAuthorized => ReplyModel::NotAuthorized,
            Response::UserNotInCommunity => ReplyModel::UserNotInCommunity,
            Response::UserNotInChannel => ReplyModel::UserNotInChannel,
            Response::UserSuspended => ReplyModel::UserSuspended,
            Response::CommunityFrozen => ReplyModel::CommunityFrozen,
            Response::RulesNotAccepted => ReplyModel::RulesNotAccepted,
            Response::InvalidRequest(e) => ReplyModel::InvalidRequest(e@),
        }
    }
}

/// The answer to the sender together with the users to notify.
#[derive(Debug)]
pub struct SendOutcome {
    pub response: Response,
    /// The users who are to be notified of the message.
    pub notify: Vec<UserId>,
}

/// Mathematical value of a [`SendOutcome`].
pub struct OutcomeModel {
    pub response: ReplyModel,
    pub notify: Seq<UserId>,
}

impl View for SendOutcome {
    type V = OutcomeModel;

    open spec fn view(&self) -> OutcomeModel {
        OutcomeModel { response: self.response@, notify: self.notify@ }
    }
}

/// The queue after the jobs that a message calls for were scheduled: the end
/// of its poll at the poll's end date, and the release of its files at its
/// expiry, in that order.
pub open spec fn with_message_jobs(
    q: Seq<ScheduledJobModel>,
    channel_id: ChannelId,
    thread_root_message_index: Option<MessageIndex>,
    message_index: MessageIndex,
    poll_end_date: Option<TimestampMillis>,
    files: Seq<BlobReference>,
    expires_at: Option<TimestampMillis>,
) -> Seq<ScheduledJobModel> {
    let q1 = match poll_end_date {
        Some(end_date) => q.push(
            ScheduledJobModel {
                job: JobModel::EndPoll { channel_id, thread_root_message_index, message_index },
                due: end_date,
            },
        ),
        None => q,
    };
    match expires_at {
        Some(expiry) if files.len() > 0 => q1.push(
            ScheduledJobModel { job: JobModel::DeleteFileReferences { files }, due: expiry },
        ),
        _ => q1,
    }
}

/// Schedules the jobs that a message calls for: closing its poll, if it is
/// a poll with an end date, and releasing its files, if it has any and expires.
pub fn register_timer_jobs(
    channel_id: ChannelId,
    thread_root_message_index: Option<MessageIndex>,
    message_index: MessageIndex,
    poll_end_date: Option<TimestampMillis>,
    files: Vec<BlobReference>,
    expires_at: Option<TimestampMillis>,
    now: TimestampMillis,
    timer_jobs: &mut TimerJobs,
)
    ensures
        final(timer_jobs)@ == with_message_jobs(
            old(timer_jobs)@,
            channel_id,
            thread_root_message_index,
            message_index,
            poll_end_date,
            files@,
            expires_at,
        ),
{
    if let Some(end_date) = poll_end_date {
        timer_jobs.enqueue_job(
            TimerJob::EndPoll { channel_id, thread_root_message_index, message_index },
            end_date,
            now,
        );
    }
    if files.len() > 0 {
        if let Some(expiry) = expires_at {
            timer_jobs.enqueue_job(TimerJob::DeleteFileReferences { files }, expiry, now);
        }
    }
}

/// `user_id` is a member of the community who is not suspended.
pub open spec fn hears_of_messages(members: MembersModel, user_id: UserId) -> bool {
    members.members.contains_key(user_id) && !members.members[user_id].suspended
}

/// The answer that passes on what the chat made of a message sent at `now`.
pub open spec fn reply_for(result: ResultModel, now: TimestampMillis) -> ReplyModel {
    match result {
        ResultModel::Success(m) => ReplyModel::Success(
            SuccessResult {
                event_index: m.event_index,
                message_index: m.message_index,
                timestamp: now,
                expires_at: m.expires_at,
            },
        ),
        ResultModel::ThreadMessageNotFound => ReplyModel::ThreadMessageNotFound,
        ResultModel::MessageEmpty => ReplyModel::MessageEmpty,
        ResultModel::TextTooLong(max_length) => ReplyModel::TextTooLong(max_length),
        ResultModel::InvalidPoll(reason) => ReplyModel::InvalidPoll(reason),
        ResultModel::NotAuthorized => ReplyModel::NotAuthorized,
        ResultModel::UserNotInGroup => ReplyModel::UserNotInChannel,
        ResultModel::UserSuspended => ReplyModel::UserSuspended,
        ResultModel::RulesNotAccepted => ReplyModel::RulesNotAccepted,
        ResultModel::InvalidRequest(error) => ReplyModel::InvalidRequest(error),
    }
}

/// The users to notify of what the chat made of a message: for a message
/// that was taken, those the chat named who are members of the community
/// and not suspended; otherwise nobody.
pub open spec fn recipients(s: StateModel, result: ResultModel) -> Seq<UserId> {
    match result {
        ResultModel::Success(m) => m.users_to_notify.filter(
            |u: UserId| hears_of_messages(s.members, u),
        ),
        _ => Seq::empty(),
    }
}

/// The state after the chat of `channel_id` made `result` of a message.
pub open spec fn after_sent(
    s: StateModel,
    channel_id: ChannelId,
    thread_root_message_index: Option<MessageIndex>,
    result: ResultModel,
) -> StateModel {
    match result {
        ResultModel::Success(m) => StateModel {
            jobs: with_message_jobs(
                s.jobs,
                channel_id,
                thread_root_message_index,
                m.message_index,
                m.poll_end_date,
                m.files,
                m.expires_at,
            ),
            ..s
        },
        _ => s,
    }
}

/// Why `sender`, the member who is sending if there is one, may not send to
/// `channel_id`; `None` if nothing stands in the way.
pub open spec fn refusal(s: StateModel, sender: Option<UserId>, channel_id: ChannelId) -> Option<
    ReplyModel,
> {
    if s.frozen {
        Some(ReplyModel::CommunityFrozen)
    } else {
        match sender {
            None => Some(ReplyModel::UserNotInCommunity),
            Some(user_id) => if s.members.members[user_id].suspended {
                Some(ReplyModel::UserSuspended)
            } else if !s.channels.contains_key(channel_id) {
                Some(ReplyModel::ChannelNotFound)
            } else {
                None
            },
        }
    }
}

/// The state after the sender was checked: a member who is not suspended,
/// in a community that is not frozen, has accepted the version of the rules
/// that came with the message, if one did. Nothing else changes.
pub open spec fn after_sender_check(
    s: StateModel,
    sender: Option<UserId>,
    community_rules_accepted: Option<u32>,
    now: TimestampMillis,
) -> StateModel {
    match (sender, community_rules_accepted) {
        (Some(user_id), Some(version)) if !s.frozen && !s.members.members[user_id].suspended
            => StateModel { members: s.members.accepted(user_id, version, now), ..s },
        _ => s,
    }
}

/// `sender` is the member who authenticates as `caller`, or `None` and
/// nobody does.
pub open spec fn is_sender(s: StateModel, caller: Seq<u8>, sender: Option<UserId>) -> bool {
    match sender {
        Some(user_id) => s.members.is_principal_of(caller, user_id),
        None => forall|u: UserId| !s.members.is_principal_of(caller, u),
    }
}

/// Passes on what the chat made of a message: schedules the jobs that a
/// message which was taken calls for and picks the users to notify of it.
pub fn message_sent(
    state: &mut CommunityState,
    channel_id: ChannelId,
    thread_root_message_index: Option<MessageIndex>,
    result: SendMessageResult,
    now: TimestampMillis,
) -> (outcome: SendOutcome)
    requires
        old(state).wf(),
    ensures
        final(state).wf(),
        final(state)@ == after_sent(old(state)@, channel_id, thread_root_message_index, result@),
        outcome@.response == reply_for(result@, now),
        outcome@.notify == recipients(old(state)@, result@),
{
    match result {
        SendMessageResult::Success(message) => {
            let SentMessage {
                event_index,
                message_index,
                expires_at,
                poll_end_date,
                files,
                users_to_notify,
            } = message;
            register_timer_jobs(
                channel_id,
                thread_root_message_index,
                message_index,
                poll_end_date,
                files,
                expires_at,
                now,
                &mut state.timer_jobs,
            );
            let ghost members = state@.members;
            let ghost pred = |u: UserId| hears_of_messages(members, u);
            let mut notify: Vec<UserId> = Vec::new();
            let mut i: usize = 0;
            proof {
                reveal(Seq::filter);
                assert(users_to_notify@.take(0).filter(pred) =~= Seq::<UserId>::empty());
            }
            while i < users_to_notify.len()
                invariant
                    i <= users_to_notify@.len(),
                    state.members.wf(),
                    members == state@.members,
                    pred == (|u: UserId| hears_of_messages(members, u)),
                    notify@ == users_to_notify@.take(i as int).filter(pred),
                decreases users_to_notify@.len() - i,
            {
                let user_id: UserId = users_to_notify[i];
                proof {
                    reveal(Seq::filter);
                    assert(users_to_notify@.take(i + 1).drop_last() =~= users_to_notify@.take(
                        i as int,
                    ));
                }
                let hears = match state.members.get_by_user_id(user_id) {
                    Some(member) => !member.is_suspended(),
                    None => false,
                };
                if hears {
                    notify.push(user_id);
                }
                i += 1;
            }
            proof {
                assert(users_to_notify@.take(i as int) =~= users_to_notify@);
            }
            SendOutcome {
                response: Response::Success(
                    SuccessResult { event_index, message_index, timestamp: now, expires_at },
                ),
                notify,
            }
        },
        SendMessageResult::ThreadMessageNotFound => refused(Response::ThreadMessageNotFound),
        SendMessageResult::MessageEmpty => refused(Response::MessageEmpty),
        SendMessageResult::TextTooLong(max_length) => refused(Response::TextTooLong(max_length)),
        SendMessageResult::InvalidPoll(reason) => refused(Response::InvalidPoll(reason)),
        SendMessageResult::NotAuthorized => refused(Response::NotAuthorized),
        SendMessageResult::UserNotInGroup => refused(Response::UserNotInChannel),
        SendMessageResult::UserSuspended => refused(Response::UserSuspended),
        SendMessageResult::RulesNotAccepted => refused(Response::RulesNotAccepted),
        SendMessageResult::InvalidRequest(error) => refused(Response::InvalidRequest(error)),
    }
}

fn refused(response: Response) -> (outcome: SendOutcome)
    ensures
        outcome.response == response,
        outcome.notify@ == Seq::<UserId>::empty(),
{
    SendOutcome { response, notify: Vec::new() }
}

/// Handles a message that `caller` sends to `channel_id`.
///
/// A frozen community takes no message, nor does it take one from somebody
/// who is not a member or is suspended, or for a channel that does not
/// exist; `send` is then not called. A member who is not suspended accepts
/// the version of the community's rules that comes with the message, if one
/// does, whether or not the channel exists. Otherwise `send` is called once
/// with the sender's user id and hands the message to the channel's chat;
/// what the chat made of it is passed on as by [`message_sent`].
pub fn send_message_impl<F: FnOnce(UserId) -> SendMessageResult>(
    state: &mut CommunityState,
    caller: &Vec<u8>,
    channel_id: ChannelId,
    thread_root_message_index: Option<MessageIndex>,
    community_rules_accepted: Option<u32>,
    now: TimestampMillis,
    send: F,
) -> (outcome: SendOutcome)
    requires
        old(state).wf(),
        forall|user_id: UserId| #[trigger] send.requires((user_id,)),
    ensures
        final(state).wf(),
        exists|sender: Option<UserId>|
            {
                let checked = after_sender_check(
                    old(state)@,
                    sender,
                    community_rules_accepted,
                    now,
                );
                &&& #[trigger] is_sender(old(state)@, caller@, sender)
                &&& match refusal(old(state)@, sender, channel_id) {
                    Some(reply) => {
                        &&& final(state)@ == checked
                        &&& outcome@ == (OutcomeModel { response: reply, notify: Seq::empty() })
                    },
                    None => exists|result: SendMessageResult|
                        {
                            &&& #[trigger] send.ensures((sender->Some_0,), result)
                            &&& final(state)@ == after_sent(
                                checked,
                                channel_id,
                                thread_root_message_index,
                                result@,
                            )
                            &&& outcome@.response == reply_for(result@, now)
                            &&& outcome@.notify == recipients(checked, result@)
                        },
                }
            },
{
    if state.frozen {
        proof {
            let sender = if exists|u: UserId| state@.members.is_principal_of(caller@, u) {
                Some(choose|u: UserId| state@.members.is_principal_of(caller@, u))
            } else {
                None
            };
            assert(is_sender(state@, caller@, sender));
        }
        return refused(Response::CommunityFrozen);
    }
    let user_id: UserId = match state.members.get_by_principal(caller) {
        Some(member) => {
            if member.is_suspended() {
                proof {
                    assert(is_sender(state@, caller@, Some(member.key())));
                }
                return refused(Response::UserSuspended);
            }
            member.user_id()
        },
        None => {
            proof {
                assert(is_sender(state@, caller@, None));
            }
            return refused(Response::UserNotInCommunity);
        },
    };
    proof {
        assert(is_sender(state@, caller@, Some(user_id)));
    }
    if let Some(version) = community_rules_accepted {
        state.members.accept_rules(user_id, version, now);
    }
    if !state.channels.contains(channel_id) {
        return refused(Response::ChannelNotFound);
    }
    let result = send(user_id);
    let ghost taken = result;
    let outcome = message_sent(state, channel_id, thread_root_message_index, result, now);
    proof {
        assert(send.ensures((user_id,), taken));
    }
    outcome
}

} // verus!
