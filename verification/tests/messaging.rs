use group_import::channels::Channel;
use group_import::chat::GroupChatCore;
use group_import::jobs::{TimerJob, TimerJobs};
use group_import::messaging::{
    message_sent, register_timer_jobs, send_message_impl, InvalidPollReason, Response,
    SendMessageResult, SentMessage, SuccessResult,
};
use group_import::state::CommunityState;
use group_import::types::BlobReference;
use std::cell::Cell;

const ALICE: u64 = 1;
const BOB: u64 = 2;
const CAROL: u64 = 3;
const CHANNEL: u64 = 10;

fn community() -> CommunityState {
    let mut state = CommunityState::new("c".to_string());
    state.members.add(ALICE, vec![0xA], false, 0);
    state.members.add(BOB, vec![0xB], false, 0);
    state.members.add(CAROL, vec![0xC], false, 0);
    state.members.set_suspended(CAROL, true);
    let mut chat = GroupChatCore::new("general".to_string(), true, false, None);
    chat.add_member(ALICE, false);
    state.channels.add(Channel::new(CHANNEL, chat, None));
    state
}

fn sent(
    poll_end_date: Option<u64>,
    files: Vec<BlobReference>,
    expires_at: Option<u64>,
    users_to_notify: Vec<u64>,
) -> SentMessage {
    SentMessage {
        event_index: 40,
        message_index: 7,
        expires_at,
        poll_end_date,
        files,
        users_to_notify,
    }
}

fn file(blob_id: u128) -> BlobReference {
    BlobReference { canister_id: 99, blob_id }
}

#[test]
fn poll_with_end_date_schedules_its_end() {
    let mut jobs = TimerJobs::new();
    register_timer_jobs(CHANNEL, Some(3), 7, Some(500), vec![], Some(900), 100, &mut jobs);
    assert_eq!(jobs.len(), 1);
    let job = jobs.get(0).unwrap();
    assert_eq!(job.due, 500);
    assert!(matches!(
        job.job,
        TimerJob::EndPoll { channel_id: CHANNEL, thread_root_message_index: Some(3), message_index: 7 }
    ));
}

#[test]
fn files_of_an_expiring_message_are_released_at_expiry() {
    let mut jobs = TimerJobs::new();
    register_timer_jobs(CHANNEL, None, 7, None, vec![file(1), file(2)], Some(900), 100, &mut jobs);
    assert_eq!(jobs.len(), 1);
    let job = jobs.get(0).unwrap();
    assert_eq!(job.due, 900);
    match &job.job {
        TimerJob::DeleteFileReferences { files } => {
            let ids: Vec<(u64, u128)> = files.iter().map(|f| (f.canister_id, f.blob_id)).collect();
            assert_eq!(ids, vec![(99, 1), (99, 2)]);
        }
        other => panic!("unexpected job {:?}", other),
    }
}

#[test]
fn poll_job_comes_before_file_job() {
    let mut jobs = TimerJobs::new();
    register_timer_jobs(CHANNEL, None, 7, Some(500), vec![file(1)], Some(400), 100, &mut jobs);
    assert_eq!(jobs.len(), 2);
    assert!(matches!(jobs.get(0).unwrap().job, TimerJob::EndPoll { .. }));
    assert!(matches!(jobs.get(1).unwrap().job, TimerJob::DeleteFileReferences { .. }));
}

#[test]
fn nothing_is_scheduled_without_end_date_files_or_expiry() {
    let mut jobs = TimerJobs::new();
    register_timer_jobs(CHANNEL, None, 7, None, vec![], Some(900), 100, &mut jobs);
    register_timer_jobs(CHANNEL, None, 7, None, vec![file(1)], None, 100, &mut jobs);
    register_timer_jobs(CHANNEL, None, 7, None, vec![], None, 100, &mut jobs);
    assert_eq!(jobs.len(), 0);
}

#[test]
fn taken_message_is_answered_and_announced_to_active_members() {
    let mut state = community();
    let result = SendMessageResult::Success(sent(
        Some(500),
        vec![file(1)],
        Some(900),
        vec![CAROL, BOB, 77, ALICE],
    ));
    let outcome = message_sent(&mut state, CHANNEL, None, result, 123);
    match outcome.response {
        Response::Success(r) => assert_eq!(
            r,
            SuccessResult { event_index: 40, message_index: 7, timestamp: 123, expires_at: Some(900) }
        ),
        other => panic!("unexpected response {:?}", other),
    }
    assert_eq!(outcome.notify, vec![BOB, ALICE]);
    assert_eq!(state.timer_jobs.len(), 2);
}

#[test]
fn refusals_of_the_chat_are_passed_on() {
    let mut state = community();
    let cases: Vec<(SendMessageResult, fn(&Response) -> bool)> = vec![
        (SendMessageResult::ThreadMessageNotFound, |r| matches!(r, Response::ThreadMessageNotFound)),
        (SendMessageResult::MessageEmpty, |r| matches!(r, Response::MessageEmpty)),
        (SendMessageResult::TextTooLong(5000), |r| matches!(r, Response::TextTooLong(5000))),
        (SendMessageResult::InvalidPoll(InvalidPollReason::TooFewOptions(2)), |r| {
            matches!(r, Response::InvalidPoll(InvalidPollReason::TooFewOptions(2)))
        }),
        (SendMessageResult::NotAuthorized, |r| matches!(r, Response::NotAuthorized)),
        (SendMessageResult::UserNotInGroup, |r| matches!(r, Response::UserNotInChannel)),
        (SendMessageResult::UserSuspended, |r| matches!(r, Response::UserSuspended)),
        (SendMessageResult::RulesNotAccepted, |r| matches!(r, Response::RulesNotAccepted)),
        (SendMessageResult::InvalidRequest("bad".to_string()), |r| {
            matches!(r, Response::InvalidRequest(e) if e == "bad")
        }),
    ];
    for (result, expected) in cases {
        let outcome = message_sent(&mut state, CHANNEL, None, result, 1);
        assert!(expected(&outcome.response), "unexpected response {:?}", outcome.response);
        assert!(outcome.notify.is_empty());
    }
    assert_eq!(state.timer_jobs.len(), 0);
}

#[test]
fn member_sends_and_accepts_the_rules() {
    let mut state = community();
    let seen = Cell::new(None);
    let outcome = send_message_impl(&mut state, &vec![0xA], CHANNEL, Some(2), Some(5), 50, |user_id| {
        seen.set(Some(user_id));
        SendMessageResult::Success(sent(Some(70), vec![], None, vec![BOB]))
    });
    assert_eq!(seen.get(), Some(ALICE));
    assert!(matches!(
        outcome.response,
        Response::Success(SuccessResult {
            event_index: 40,
            message_index: 7,
            timestamp: 50,
            expires_at: None
        })
    ));
    assert_eq!(outcome.notify, vec![BOB]);
    let accepted = state.members.get_by_user_id(ALICE).unwrap().rules_accepted().unwrap();
    assert_eq!((accepted.version, accepted.at), (5, 50));
    let job = state.timer_jobs.get(0).unwrap();
    assert_eq!(job.due, 70);
    assert!(matches!(
        job.job,
        TimerJob::EndPoll { channel_id: CHANNEL, thread_root_message_index: Some(2), message_index: 7 }
    ));
}

#[test]
fn frozen_community_takes_no_message() {
    let mut state = community();
    state.frozen = true;
    let called = Cell::new(false);
    let outcome = send_message_impl(&mut state, &vec![0xA], CHANNEL, None, Some(5), 50, |_| {
        called.set(true);
        SendMessageResult::MessageEmpty
    });
    assert!(matches!(outcome.response, Response::CommunityFrozen));
    assert!(!called.get());
    assert!(state.members.get_by_user_id(ALICE).unwrap().rules_accepted().is_none());
}

#[test]
fn stranger_may_not_send() {
    let mut state = community();
    let called = Cell::new(false);
    let outcome = send_message_impl(&mut state, &vec![0xD], CHANNEL, None, None, 50, |_| {
        called.set(true);
        SendMessageResult::MessageEmpty
    });
    assert!(matches!(outcome.response, Response::UserNotInCommunity));
    assert!(!called.get());
}

#[test]
fn suspended_member_may_not_send_and_accepts_nothing() {
    let mut state = community();
    let called = Cell::new(false);
    let outcome = send_message_impl(&mut state, &vec![0xC], CHANNEL, None, Some(5), 50, |_| {
        called.set(true);
        SendMessageResult::MessageEmpty
    });
    assert!(matches!(outcome.response, Response::UserSuspended));
    assert!(!called.get());
    assert!(state.members.get_by_user_id(CAROL).unwrap().rules_accepted().is_none());
}

#[test]
fn unknown_channel_is_reported_after_the_rules_are_accepted() {
    let mut state = community();
    let called = Cell::new(false);
    let outcome = send_message_impl(&mut state, &vec![0xB], 11, None, Some(5), 50, |_| {
        called.set(true);
        SendMessageResult::MessageEmpty
    });
    assert!(matches!(outcome.response, Response::ChannelNotFound));
    assert!(!called.get());
    let accepted = state.members.get_by_user_id(BOB).unwrap().rules_accepted().unwrap();
    assert_eq!((accepted.version, accepted.at), (5, 50));
}

#[test]
fn refusal_of_the_chat_reaches_the_sender() {
    let mut state = community();
    let outcome = send_message_impl(&mut state, &vec![0xB], CHANNEL, None, None, 50, |user_id| {
        assert_eq!(user_id, BOB);
        SendMessageResult::UserNotInGroup
    });
    assert!(matches!(outcome.response, Response::UserNotInChannel));
    assert!(outcome.notify.is_empty());
    assert_eq!(state.timer_jobs.len(), 0);
}
