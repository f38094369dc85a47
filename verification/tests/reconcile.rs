use group_import::channels::Channel;
use group_import::chat::{ChatEvent, ChatMember, GroupChatCore};
use group_import::jobs::TimerJob;
use group_import::reconcile::{
    prepare_channel_members, principal_lookup_args, process_channel_members, MembersOutcome,
    PrincipalLookup, UserPrincipal,
};
use group_import::state::CommunityState;
use group_import::types::{MAX_LOOKUP_RETRIES, SYSTEM_USER_ID};

const GROUP: u64 = 1;
const CHANNEL: u64 = 10;

fn chat(name: &str, is_public: bool, gated: bool, members: &[(u64, bool)]) -> GroupChatCore {
    let mut chat = GroupChatCore::new(name.to_string(), is_public, gated, None);
    for (user_id, is_bot) in members {
        chat.add_member(*user_id, *is_bot);
    }
    chat
}

fn resolved(users: &[u64]) -> PrincipalLookup {
    PrincipalLookup::Resolved(
        users.iter().map(|u| UserPrincipal { user_id: *u, principal: vec![*u as u8, 0xAA] }).collect(),
    )
}

/// Channel 10 imported with members 1..=4 (4 is a bot); 1 is a community member;
/// channel 20 is open, 21 gated, 22 private.
fn state_with_import() -> CommunityState {
    let mut state = CommunityState::new("c".to_string());
    state.members.add(1, vec![1], false, 0);
    state.channels.add(Channel::new(20, chat("open", true, false, &[(1, false)]), None));
    state.channels.add(Channel::new(21, chat("gated", true, true, &[]), None));
    state.channels.add(Channel::new(22, chat("private", false, false, &[]), None));
    state.channels.add(Channel::new(
        CHANNEL,
        chat("imported", false, false, &[(1, false), (2, false), (3, false), (4, true)]),
        None,
    ));
    state
}

#[test]
fn prepare_links_existing_members_and_returns_the_rest() {
    let mut state = state_with_import();
    let to_add = prepare_channel_members(&mut state, CHANNEL);
    let ids: Vec<(u64, bool)> = to_add.iter().map(|m| (m.user_id, m.is_bot)).collect();
    assert_eq!(ids, vec![(2, false), (3, false), (4, true)]);
    assert!(state.members.get_by_user_id(1).unwrap().is_in_channel(CHANNEL));
    assert!(!state.members.contains(2));
    assert_eq!(principal_lookup_args(&to_add), Some(vec![2, 3, 4]));
}

#[test]
fn nobody_to_look_up_means_no_call() {
    let mut state = CommunityState::new("c".to_string());
    state.members.add(1, vec![1], false, 0);
    state.channels.add(Channel::new(CHANNEL, chat("i", false, false, &[(1, false)]), None));
    let to_add = prepare_channel_members(&mut state, CHANNEL);
    assert!(to_add.is_empty());
    assert_eq!(principal_lookup_args(&to_add), None);
    let outcome = process_channel_members(
        &mut state,
        GROUP,
        CHANNEL,
        0,
        &to_add,
        &PrincipalLookup::NotNeeded,
        5,
    );
    assert_eq!(outcome, MembersOutcome::Completed);
    assert_eq!(state.events.len(), 1);
    assert!(state.events.get(0).unwrap().members_added().is_empty());
    assert_eq!(state.timer_jobs.len(), 0);
}

#[test]
fn resolved_users_join_community_open_channels_and_imported_channel() {
    let mut state = state_with_import();
    state.invited_users.add(2);
    state.invited_users.add(9);
    let to_add = prepare_channel_members(&mut state, CHANNEL);
    let outcome =
        process_channel_members(&mut state, GROUP, CHANNEL, 0, &to_add, &resolved(&[2, 3, 4]), 50);
    assert_eq!(outcome, MembersOutcome::Completed);
    for user in [2u64, 3, 4] {
        let m = state.members.get_by_user_id(user).unwrap();
        assert_eq!(m.principal(), &vec![user as u8, 0xAA]);
        assert_eq!(m.date_added(), 50);
        assert_eq!(m.is_bot(), user == 4);
        assert_eq!(m.channel_ids(), vec![20, CHANNEL]);
    }
    assert_eq!(state.channels.get(20).unwrap().chat().member_ids(), vec![1, 2, 3, 4]);
    assert!(state.channels.get(20).unwrap().chat().members()[3].is_bot);
    assert!(state.channels.get(21).unwrap().chat().member_ids().is_empty());
    assert!(state.channels.get(22).unwrap().chat().member_ids().is_empty());
    assert_eq!(state.channels.get(CHANNEL).unwrap().chat().member_ids(), vec![1, 2, 3, 4]);
    assert!(!state.invited_users.contains(2));
    assert!(state.invited_users.contains(9));
    assert_eq!(state.events.len(), 1);
    let event = state.events.get(0).unwrap();
    assert_eq!(event.group_id(), GROUP);
    assert_eq!(event.channel_id(), CHANNEL);
    assert_eq!(event.members_added(), &vec![2, 3, 4]);
    assert_eq!(event.timestamp(), 50);
    assert_eq!(state.channels.get(CHANNEL).unwrap().date_imported(), None);
}

#[test]
fn user_who_joined_meanwhile_is_left_alone() {
    let mut state = state_with_import();
    let to_add = prepare_channel_members(&mut state, CHANNEL);
    state.members.add(2, vec![9, 9], false, 40);
    process_channel_members(&mut state, GROUP, CHANNEL, 0, &to_add, &resolved(&[2, 3]), 50);
    let m = state.members.get_by_user_id(2).unwrap();
    assert_eq!(m.principal(), &vec![9, 9]);
    assert_eq!(m.date_added(), 40);
    assert!(m.channel_ids().is_empty());
    assert_eq!(state.events.get(0).unwrap().members_added(), &vec![3]);
}

#[test]
fn blocked_user_is_removed_from_the_imported_channel_by_the_system() {
    let mut state = state_with_import();
    state.members.block(3);
    let to_add = prepare_channel_members(&mut state, CHANNEL);
    process_channel_members(&mut state, GROUP, CHANNEL, 0, &to_add, &resolved(&[2, 3]), 50);
    assert!(!state.members.contains(3));
    let chat = state.channels.get(CHANNEL).unwrap().chat();
    assert_eq!(chat.member_ids(), vec![1, 2, 4]);
    assert!(matches!(
        chat.events().last().unwrap(),
        ChatEvent::MemberRemoved { user_id: 3, removed_by: SYSTEM_USER_ID }
    ));
    assert_eq!(state.channels.get(20).unwrap().chat().member_ids(), vec![1, 2]);
    assert_eq!(state.events.get(0).unwrap().members_added(), &vec![2]);
}

#[test]
fn user_resolved_twice_is_added_once() {
    let mut state = state_with_import();
    let to_add = prepare_channel_members(&mut state, CHANNEL);
    process_channel_members(&mut state, GROUP, CHANNEL, 0, &to_add, &resolved(&[2, 2]), 50);
    assert_eq!(state.events.get(0).unwrap().members_added(), &vec![2]);
}

#[test]
fn user_not_asked_for_is_taken_for_a_person() {
    let mut state = state_with_import();
    let to_add: Vec<ChatMember> = vec![ChatMember { user_id: 4, is_bot: true }];
    process_channel_members(&mut state, GROUP, CHANNEL, 0, &to_add, &resolved(&[4, 77]), 50);
    assert!(state.members.get_by_user_id(4).unwrap().is_bot());
    assert!(!state.members.get_by_user_id(77).unwrap().is_bot());
    assert_eq!(state.members.get_by_user_id(77).unwrap().channel_ids(), vec![20, CHANNEL]);
}

#[test]
fn imported_channel_that_is_open_is_joined_like_the_others() {
    let mut state = CommunityState::new("c".to_string());
    state.channels.add(Channel::new(CHANNEL, chat("i", true, false, &[(2, false)]), None));
    let to_add = prepare_channel_members(&mut state, CHANNEL);
    process_channel_members(&mut state, GROUP, CHANNEL, 0, &to_add, &resolved(&[2]), 50);
    assert_eq!(state.members.get_by_user_id(2).unwrap().channel_ids(), vec![CHANNEL]);
    assert_eq!(state.channels.get(CHANNEL).unwrap().chat().member_ids(), vec![2]);
}

#[test]
fn failed_lookup_is_retried_with_next_attempt() {
    let mut state = state_with_import();
    let to_add = prepare_channel_members(&mut state, CHANNEL);
    let outcome =
        process_channel_members(&mut state, GROUP, CHANNEL, 0, &to_add, &PrincipalLookup::Failed, 50);
    assert_eq!(outcome, MembersOutcome::Retry { attempt: 1 });
    assert_eq!(state.events.len(), 0);
    assert_eq!(state.timer_jobs.len(), 1);
    let job = state.timer_jobs.get(0).unwrap();
    assert_eq!(job.due, 50);
    assert!(matches!(
        job.job,
        TimerJob::ProcessGroupImportChannelMembers { group_id: GROUP, channel_id: CHANNEL, attempt: 1 }
    ));
    let outcome =
        process_channel_members(&mut state, GROUP, CHANNEL, 29, &to_add, &PrincipalLookup::Failed, 51);
    assert_eq!(outcome, MembersOutcome::Retry { attempt: 30 });
}

#[test]
fn thirty_one_failed_lookups_complete_with_nobody_added() {
    assert_eq!(MAX_LOOKUP_RETRIES, 30);
    let mut state = state_with_import();
    state.timer_jobs.enqueue_job(
        TimerJob::ProcessGroupImportChannelMembers { group_id: GROUP, channel_id: CHANNEL, attempt: 0 },
        0,
        0,
    );
    let mut failures = 0;
    let mut now = 0;
    loop {
        now += 1;
        let attempt = match state.timer_jobs.take_due(now) {
            Some(TimerJob::ProcessGroupImportChannelMembers { group_id, channel_id, attempt }) => {
                assert_eq!((group_id, channel_id), (GROUP, CHANNEL));
                attempt
            }
            other => panic!("unexpected job {:?}", other),
        };
        assert_eq!(attempt, failures);
        let to_add = prepare_channel_members(&mut state, CHANNEL);
        assert_eq!(to_add.len(), 3);
        failures += 1;
        match process_channel_members(
            &mut state,
            GROUP,
            CHANNEL,
            attempt,
            &to_add,
            &PrincipalLookup::Failed,
            now,
        ) {
            MembersOutcome::Retry { attempt: next } => assert_eq!(next, attempt + 1),
            MembersOutcome::Completed => break,
        }
        assert_eq!(state.events.len(), 0);
    }
    assert_eq!(failures, 31);
    assert_eq!(state.timer_jobs.len(), 0);
    assert_eq!(state.events.len(), 1);
    assert!(state.events.get(0).unwrap().members_added().is_empty());
    assert!(!state.members.contains(2));
    assert_eq!(state.channels.get(CHANNEL).unwrap().chat().member_ids(), vec![1, 2, 3, 4]);
}

#[test]
fn success_after_failures_adds_everybody() {
    let mut state = state_with_import();
    for attempt in 0..30u32 {
        let to_add = prepare_channel_members(&mut state, CHANNEL);
        let outcome = process_channel_members(
            &mut state,
            GROUP,
            CHANNEL,
            attempt,
            &to_add,
            &PrincipalLookup::Failed,
            1,
        );
        assert_eq!(outcome, MembersOutcome::Retry { attempt: attempt + 1 });
    }
    let to_add = prepare_channel_members(&mut state, CHANNEL);
    let outcome =
        process_channel_members(&mut state, GROUP, CHANNEL, 30, &to_add, &resolved(&[2, 3, 4]), 2);
    assert_eq!(outcome, MembersOutcome::Completed);
    for user in [1u64, 2, 3, 4] {
        assert!(state.members.get_by_user_id(user).unwrap().is_in_channel(CHANNEL));
    }
    assert_eq!(state.events.get(0).unwrap().members_added(), &vec![2, 3, 4]);
}
