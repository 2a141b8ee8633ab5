use yuttari::channel::{get_default_channels, Channel};
use yuttari::message::{Message, MessageType};

#[test]
fn default_channels() {
    let channels = get_default_channels();
    assert_eq!(channels.len(), 2);
    assert_eq!(channels[0].name, "general");
    assert_eq!(channels[1].name, "random");
    assert!(channels[0].messages.is_empty());
}

#[test]
fn members_join_and_leave() {
    let mut c = Channel::new("general".to_string());
    c.add_user(10);
    c.add_user(20);
    c.add_user(10);
    assert_eq!(c.users, vec![10, 20, 10]);
    c.remove_user(10);
    assert_eq!(c.users, vec![20]);
}

#[test]
fn only_chat_messages_are_kept() {
    let mut c = Channel::new("general".to_string());
    let evicted = c.add_message(Message::create_all(1, MessageType::Login, Vec::new()));
    assert!(evicted.is_none());
    assert!(c.messages.is_empty());
    let evicted = c.add_message(Message::create_all(2, MessageType::Message, vec![1]));
    assert!(evicted.is_none());
    assert_eq!(c.messages.len(), 1);
}

#[test]
fn window_evicts_oldest_at_one_hundred() {
    let mut c = Channel::new("general".to_string());
    for i in 0..100u64 {
        let evicted = c.add_message(Message::create_all(i, MessageType::Message, Vec::new()));
        assert!(evicted.is_none());
    }
    assert_eq!(c.messages.len(), 100);
    let evicted = c.add_message(Message::create_all(100, MessageType::Message, Vec::new()));
    let evicted = evicted.expect("the oldest message should be handed back");
    assert_eq!(evicted.id, 0);
    assert_eq!(c.messages.len(), 100);
    assert_eq!(c.messages[0].id, 1);
    assert_eq!(c.messages[99].id, 100);
}

#[test]
fn adding_a_channel_replaces_its_namesake() {
    let mut server = yuttari::server::Server::default();
    let mut replacement = Channel::new("general".to_string());
    replacement.add_user(7);
    server.add_channel(replacement);
    assert_eq!(server.channels.len(), 2);
    assert_eq!(server.channels[0].name, "random");
    assert_eq!(server.channels[1].name, "general");
    assert_eq!(server.channels[1].users, vec![7]);
    server.remove_channel(Channel::new("general".to_string()));
    assert_eq!(server.channels.len(), 1);
    assert_eq!(server.channels[0].name, "random");
}

#[test]
fn refresh_clears_the_window() {
    let mut c = Channel::new("general".to_string());
    c.add_message(Message::create_all(1, MessageType::Message, Vec::new()));
    c.refresh_messages();
    assert!(c.messages.is_empty());
}
