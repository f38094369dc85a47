use group_import::chat::GroupChatCore;
use group_import::finalize::finalize_group_import;
use group_import::jobs::TimerJob;
use group_import::state::CommunityState;
use group_import::transfer::{import_group, ExportResponse};

fn chat_named_by(bytes: &Vec<u8>) -> GroupChatCore {
    let name = String::from_utf8(bytes.clone()).unwrap();
    let mut chat = GroupChatCore::new(name, false, false, None);
    chat.add_member(1, false);
    chat
}

#[test]
fn finalize_installs_the_decoded_chat_without_import_date() {
    let mut state = CommunityState::new("c".to_string());
    state.groups_being_imported.add(1, 10, 5);
    import_group(&mut state, 1, ExportResponse::Success(b"hel".to_vec()), 1);
    import_group(&mut state, 1, ExportResponse::Success(b"lo".to_vec()), 2);
    assert!(matches!(state.timer_jobs.take_due(2), Some(TimerJob::FinalizeGroupImport { group_id: 1 })));
    assert!(finalize_group_import(&mut state, 1, 3, chat_named_by));
    assert!(!state.groups_being_imported.contains(1));
    let channel = state.channels.get(10).unwrap();
    assert_eq!(channel.chat().name(), "hello");
    assert_eq!(channel.date_imported(), None);
    assert_eq!(channel.chat().member_ids(), vec![1]);
    assert_eq!(state.timer_jobs.len(), 1);
    let job = state.timer_jobs.get(0).unwrap();
    assert_eq!(job.due, 3);
    assert!(matches!(
        job.job,
        TimerJob::ProcessGroupImportChannelMembers { group_id: 1, channel_id: 10, attempt: 0 }
    ));
}

#[test]
fn finalize_twice_is_a_no_op_the_second_time() {
    let mut state = CommunityState::new("c".to_string());
    state.groups_being_imported.add(1, 10, 2);
    import_group(&mut state, 1, ExportResponse::Success(b"ab".to_vec()), 1);
    assert!(finalize_group_import(&mut state, 1, 3, chat_named_by));
    let jobs = state.timer_jobs.len();
    let calls = std::cell::Cell::new(0);
    let finalized = finalize_group_import(&mut state, 1, 4, |bytes: &Vec<u8>| {
        calls.set(calls.get() + 1);
        chat_named_by(bytes)
    });
    assert!(!finalized);
    assert_eq!(calls.get(), 0);
    assert_eq!(state.timer_jobs.len(), jobs);
    assert_eq!(state.channels.get(10).unwrap().chat().name(), "ab");
    assert_eq!(state.channels.get(10).unwrap().date_imported(), None);
}

#[test]
fn finalize_of_unknown_group_changes_nothing() {
    let mut state = CommunityState::new("c".to_string());
    assert!(!finalize_group_import(&mut state, 7, 1, chat_named_by));
    assert_eq!(state.timer_jobs.len(), 0);
    assert!(!state.channels.contains(10));
}

#[test]
fn decoder_sees_the_chunks_in_offset_order() {
    let mut state = CommunityState::new("c".to_string());
    state.groups_being_imported.add(1, 10, 6);
    for chunk in [vec![1u8, 2], vec![3], vec![4, 5, 6]] {
        match group_import::scheduler::run(&mut state, 1) {
            group_import::scheduler::RunAction::Import(_) => {}
            other => panic!("unexpected action {:?}", other),
        }
        import_group(&mut state, 1, ExportResponse::Success(chunk), 1);
    }
    let seen = std::cell::RefCell::new(Vec::new());
    finalize_group_import(&mut state, 1, 2, |bytes: &Vec<u8>| {
        *seen.borrow_mut() = bytes.clone();
        GroupChatCore::new("g".to_string(), true, false, None)
    });
    assert_eq!(*seen.borrow(), vec![1, 2, 3, 4, 5, 6]);
}
