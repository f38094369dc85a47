use group_import::channels::Channel;
use group_import::chat::GroupChatCore;
use group_import::complete::mark_import_complete;
use group_import::state::CommunityState;

fn chat(name: &str, is_public: bool, latest: Option<u32>, members: &[u64]) -> GroupChatCore {
    let mut chat = GroupChatCore::new(name.to_string(), is_public, false, latest);
    for user_id in members {
        chat.add_member(*user_id, false);
    }
    chat
}

#[test]
fn completion_stamps_the_channel_and_builds_the_notice() {
    let mut state = CommunityState::new("Rustaceans".to_string());
    state.channels.add(Channel::new(20, chat("general", true, Some(41), &[]), Some(1)));
    state.channels.add(Channel::new(21, chat("secret", false, Some(7), &[]), None));
    state.channels.add(Channel::new(10, chat("old group", true, Some(99), &[5, 6, 7]), None));
    state.channels.add(Channel::new(22, chat("empty", true, None, &[]), None));
    let notice = mark_import_complete(&mut state, 1, 10, 1234, Some(60_000));
    assert_eq!(state.channels.get(10).unwrap().date_imported(), Some(1234));
    assert_eq!(state.channels.get(20).unwrap().date_imported(), Some(1));
    assert_eq!(state.channels.get(21).unwrap().date_imported(), None);
    assert_eq!(notice.community_name, "Rustaceans");
    assert_eq!(notice.channel.channel_id, 10);
    assert_eq!(notice.channel.latest_message_index, Some(99));
    assert_eq!(notice.group_id, 1);
    assert_eq!(notice.group_name, "old group");
    assert_eq!(notice.members, vec![5, 6, 7]);
    let others: Vec<(u64, Option<u32>)> = notice
        .other_public_channels
        .iter()
        .map(|c| (c.channel_id, c.latest_message_index))
        .collect();
    assert_eq!(others, vec![(20, Some(41)), (22, None)]);
    assert_eq!(notice.mark_active_duration, Some(60_000));
}

#[test]
fn private_imported_channel_lists_all_public_channels() {
    let mut state = CommunityState::new("c".to_string());
    state.channels.add(Channel::new(10, chat("g", false, None, &[1]), None));
    state.channels.add(Channel::new(20, chat("general", true, Some(2), &[]), None));
    let notice = mark_import_complete(&mut state, 1, 10, 5, None);
    assert_eq!(notice.channel.latest_message_index, None);
    assert_eq!(notice.other_public_channels.len(), 1);
    assert_eq!(notice.other_public_channels[0].channel_id, 20);
    assert_eq!(notice.mark_active_duration, None);
}
