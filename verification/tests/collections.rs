use group_import::channels::{Channel, Channels};
use group_import::chat::{ChatEvent, GroupChatCore};
use group_import::events::CommunityEvents;
use group_import::idset::IdSet;
use group_import::jobs::{TimerJob, TimerJobs};
use group_import::members::{AddResult, CommunityMembers, InvitedUsers};

fn chat(name: &str, is_public: bool, gated: bool, members: &[(u64, bool)]) -> GroupChatCore {
    let mut chat = GroupChatCore::new(name.to_string(), is_public, gated, Some(3));
    for (user_id, is_bot) in members {
        chat.add_member(*user_id, *is_bot);
    }
    chat
}

#[test]
fn id_set_behaves_like_a_set() {
    let mut set = IdSet::new();
    assert!(!set.contains(4));
    assert!(set.insert(4));
    assert!(!set.insert(4));
    assert!(set.insert(9));
    assert!(set.contains(4));
    assert_eq!(set.to_vec(), vec![4, 9]);
    assert!(set.remove(4));
    assert!(!set.remove(4));
    assert!(!set.contains(4));
    set.insert_all(&vec![1, 9, 1, 2]);
    assert_eq!(set.to_vec(), vec![9, 1, 2]);
}

#[test]
fn timer_jobs_hand_out_due_jobs_in_order() {
    let mut jobs = TimerJobs::new();
    assert!(jobs.take_due(100).is_none());
    jobs.enqueue_job(TimerJob::FinalizeGroupImport { group_id: 1 }, 50, 0);
    jobs.enqueue_job(TimerJob::FinalizeGroupImport { group_id: 2 }, 10, 0);
    jobs.enqueue_job(TimerJob::FinalizeGroupImport { group_id: 3 }, 10, 0);
    assert_eq!(jobs.len(), 3);
    assert!(jobs.take_due(9).is_none());
    assert!(matches!(jobs.take_due(10), Some(TimerJob::FinalizeGroupImport { group_id: 2 })));
    assert!(matches!(jobs.take_due(60), Some(TimerJob::FinalizeGroupImport { group_id: 1 })));
    assert!(matches!(jobs.take_due(60), Some(TimerJob::FinalizeGroupImport { group_id: 3 })));
    assert!(jobs.take_due(60).is_none());
    assert_eq!(jobs.len(), 0);
    assert!(jobs.get(0).is_none());
}

#[test]
fn chat_members_join_once_and_leave() {
    let mut c = chat("g", true, false, &[(1, false), (2, true)]);
    assert!(c.has_member(1));
    assert!(!c.add_member(1, true));
    assert_eq!(c.member_ids(), vec![1, 2]);
    assert!(!c.members()[0].is_bot);
    assert!(c.members()[1].is_bot);
    assert!(c.remove_member(0, 1));
    assert!(!c.remove_member(0, 1));
    assert_eq!(c.member_ids(), vec![2]);
    assert_eq!(c.events().len(), 3);
    assert!(matches!(c.events()[2], ChatEvent::MemberRemoved { user_id: 1, removed_by: 0 }));
    assert_eq!(c.name(), "g");
    assert!(c.is_public());
    assert!(!c.is_gated());
    assert!(c.is_open());
    assert_eq!(c.latest_message_index(), Some(3));
}

#[test]
fn gated_or_private_chats_are_not_open() {
    assert!(!chat("a", true, true, &[]).is_open());
    assert!(!chat("b", false, false, &[]).is_open());
    assert!(!chat("c", false, true, &[]).is_open());
}

#[test]
fn channels_are_found_by_id_and_replaced_on_add() {
    let mut channels = Channels::new();
    assert!(!channels.contains(1));
    channels.add(Channel::new(1, chat("one", true, false, &[]), None));
    channels.add(Channel::new(2, chat("two", false, false, &[]), Some(5)));
    channels.add(Channel::new(3, chat("three", true, true, &[]), None));
    assert!(channels.contains(2));
    assert_eq!(channels.get(2).unwrap().date_imported(), Some(5));
    assert_eq!(channels.get(2).unwrap().id(), 2);
    assert_eq!(channels.public_channel_ids(), vec![1, 3]);
    channels.add(Channel::new(1, chat("uno", false, false, &[]), None));
    assert_eq!(channels.get(1).unwrap().chat().name(), "uno");
    assert_eq!(channels.public_channel_ids(), vec![3]);
}

#[test]
fn enroll_joins_every_open_channel_and_no_other() {
    let mut channels = Channels::new();
    channels.add(Channel::new(1, chat("open", true, false, &[(7, false)]), None));
    channels.add(Channel::new(2, chat("gated", true, true, &[]), None));
    channels.add(Channel::new(3, chat("private", false, false, &[]), None));
    channels.add(Channel::new(4, chat("open too", true, false, &[]), None));
    assert_eq!(channels.enroll_in_open_channels(7, false), vec![1, 4]);
    assert_eq!(channels.get(1).unwrap().chat().member_ids(), vec![7]);
    assert_eq!(channels.get(4).unwrap().chat().member_ids(), vec![7]);
    assert!(channels.get(2).unwrap().chat().member_ids().is_empty());
    assert!(channels.get(3).unwrap().chat().member_ids().is_empty());
}

#[test]
fn channel_member_removal_and_stamp() {
    let mut channels = Channels::new();
    channels.add(Channel::new(1, chat("c", true, false, &[(7, false), (8, false)]), None));
    channels.remove_member(1, 0, 7);
    channels.remove_member(9, 0, 8);
    assert_eq!(channels.get(1).unwrap().chat().member_ids(), vec![8]);
    channels.set_date_imported(1, 77);
    channels.set_date_imported(9, 78);
    assert_eq!(channels.get(1).unwrap().date_imported(), Some(77));
    assert!(!channels.contains(9));
}

#[test]
fn members_add_reports_each_outcome() {
    let mut members = CommunityMembers::new();
    assert_eq!(members.add(1, vec![1, 1], false, 10), AddResult::Success);
    assert_eq!(members.add(1, vec![2, 2], true, 11), AddResult::AlreadyInCommunity);
    members.block(2);
    assert!(members.is_blocked(2));
    assert_eq!(members.add(2, vec![3], false, 12), AddResult::Blocked);
    assert!(!members.contains(2));
    let m = members.get_by_user_id(1).unwrap();
    assert_eq!(m.user_id(), 1);
    assert_eq!(m.principal(), &vec![1, 1]);
    assert!(!m.is_bot());
    assert!(!m.is_suspended());
    assert_eq!(m.date_added(), 10);
    assert!(m.channel_ids().is_empty());
    assert!(m.rules_accepted().is_none());
}

#[test]
fn members_are_found_by_principal() {
    let mut members = CommunityMembers::new();
    members.add(1, vec![1, 1], false, 10);
    members.add(2, vec![1, 1, 0], false, 10);
    assert_eq!(members.get_by_principal(&vec![1, 1, 0]).unwrap().user_id(), 2);
    assert_eq!(members.get_by_principal(&vec![1, 1]).unwrap().user_id(), 1);
    assert!(members.get_by_principal(&vec![1]).is_none());
    assert!(members.get_by_principal(&vec![]).is_none());
    assert!(members.get_by_principal(&vec![1, 2]).is_none());
}

#[test]
fn only_a_newer_version_of_the_rules_replaces_the_accepted_one() {
    let mut members = CommunityMembers::new();
    members.add(1, vec![1], false, 10);
    members.accept_rules(1, 3, 20);
    let accepted = members.get_by_user_id(1).unwrap().rules_accepted().unwrap();
    assert_eq!((accepted.version, accepted.at), (3, 20));
    members.accept_rules(1, 3, 30);
    members.accept_rules(1, 2, 31);
    let accepted = members.get_by_user_id(1).unwrap().rules_accepted().unwrap();
    assert_eq!((accepted.version, accepted.at), (3, 20));
    members.accept_rules(1, 4, 40);
    let accepted = members.get_by_user_id(1).unwrap().rules_accepted().unwrap();
    assert_eq!((accepted.version, accepted.at), (4, 40));
    members.accept_rules(9, 1, 50);
    assert!(!members.contains(9));
}

#[test]
fn blocked_wins_over_membership() {
    let mut members = CommunityMembers::new();
    members.add(1, vec![1], false, 10);
    members.block(1);
    assert_eq!(members.add(1, vec![1], false, 11), AddResult::Blocked);
}

#[test]
fn members_join_channels() {
    let mut members = CommunityMembers::new();
    members.add(1, vec![1], false, 10);
    assert!(members.join_channel(1, 5));
    assert!(members.join_channel(1, 5));
    assert!(!members.join_channel(2, 5));
    assert!(members.join_channels(1, &vec![6, 5, 7]));
    assert!(!members.join_channels(2, &vec![6]));
    let m = members.get_by_user_id(1).unwrap();
    assert_eq!(m.channel_ids(), vec![5, 6, 7]);
    assert!(m.is_in_channel(6));
    assert!(!m.is_in_channel(8));
    members.set_suspended(1, true);
    assert!(members.get_by_user_id(1).unwrap().is_suspended());
}

#[test]
fn invitations_are_added_and_withdrawn() {
    let mut invited = InvitedUsers::new();
    invited.add(3);
    assert!(invited.contains(3));
    assert!(invited.remove(3));
    assert!(!invited.remove(3));
    assert!(!invited.contains(3));
}

#[test]
fn event_log_appends() {
    let mut events = CommunityEvents::new();
    assert_eq!(events.len(), 0);
    events.push_group_imported(1, 2, vec![3, 4], 99);
    assert_eq!(events.len(), 1);
    let e = events.get(0).unwrap();
    assert_eq!(e.group_id(), 1);
    assert_eq!(e.channel_id(), 2);
    assert_eq!(e.members_added(), &vec![3, 4]);
    assert_eq!(e.timestamp(), 99);
    assert!(events.get(1).is_none());
}
