use yuttari::client::{Client, ClientAction};
use yuttari::crypt::{create_private_key, decrypt_data};
use yuttari::message::{Message, MessagePayload, MessageType};
use yuttari::server::{HandleOutcome, Server};
use yuttari::user::User;

/// Builds a client around a fresh key pair and logs it into the server over
/// the in-memory handshake, returning the client ready to chat.
fn connect_client(server: &mut Server, addr: u64, name: &str) -> Client {
    let secret = create_private_key();
    let user = User::new(name.to_string(), User::create_public_key(&secret));
    let mut client = Client::new(user, secret);
    let greeting = server.accept(addr);
    match client.handle_server_frame(&greeting) {
        ClientAction::SendLogin(login) => {
            assert_eq!(server.handle_frame(addr, &login), HandleOutcome::Continue);
        }
        _ => panic!("greeting was not answered with a login"),
    }
    client
}

fn drain(server: &mut Server, addr: u64) -> Vec<Vec<u8>> {
    server.take_outbound(addr)
}

/// Decrypts one queued frame with the receiving client's shared key.
fn read_chat(client: &Client, frame: &[u8]) -> (String, Vec<u8>) {
    let msg = Message::from_bytes(frame.to_vec());
    assert_eq!(msg.message_type, MessageType::Message);
    let payload = MessagePayload::from_bytes(msg.payload);
    let body = decrypt_data(&payload.message, &client.get_shared_key())
        .expect("recipient could not decrypt its own copy");
    (payload.username, body)
}

#[test]
fn end_to_end_two_clients() {
    let mut server = Server::default();
    let alice = connect_client(&mut server, 1, "alice");
    drain(&mut server, 1);
    let bob = connect_client(&mut server, 2, "bob");

    // alice is told that bob joined, through her own shared key
    let to_alice = drain(&mut server, 1);
    assert_eq!(to_alice.len(), 1);
    let (from, body) = read_chat(&alice, &to_alice[0]);
    assert_eq!(from, "SERVER");
    assert_eq!(body, b"bob has joined the server".to_vec());

    // alice says hi; bob receives it decryptable under his own key
    let chat = alice.compose_chat_frame(&b"hi".to_vec());
    assert_eq!(server.handle_frame(1, &chat), HandleOutcome::Continue);
    let to_bob = drain(&mut server, 2);
    assert_eq!(to_bob.len(), 1);
    let (from, body) = read_chat(&bob, &to_bob[0]);
    assert_eq!(from, "alice");
    assert_eq!(body, b"hi".to_vec());

    // the sender receives nothing back
    assert!(drain(&mut server, 1).is_empty());
}

#[test]
fn broadcast_fans_out_to_all_other_sessions() {
    let mut server = Server::default();
    let alice = connect_client(&mut server, 1, "alice");
    let bob = connect_client(&mut server, 2, "bob");
    let carol = connect_client(&mut server, 3, "carol");
    for a in [1, 2, 3] {
        drain(&mut server, a);
    }
    assert_ne!(alice.get_shared_key(), bob.get_shared_key());
    assert_ne!(bob.get_shared_key(), carol.get_shared_key());

    let chat = alice.compose_chat_frame(&b"to everyone".to_vec());
    assert_eq!(server.handle_frame(1, &chat), HandleOutcome::Continue);

    for (addr, client) in [(2u64, &bob), (3u64, &carol)] {
        let frames = drain(&mut server, addr);
        assert_eq!(frames.len(), 1);
        let (from, body) = read_chat(client, &frames[0]);
        assert_eq!(from, "alice");
        assert_eq!(body, b"to everyone".to_vec());
    }
    assert!(drain(&mut server, 1).is_empty());
}

#[test]
fn closed_channel_does_not_block_others() {
    let mut server = Server::default();
    let alice = connect_client(&mut server, 1, "alice");
    let _bob = connect_client(&mut server, 2, "bob");
    let carol = connect_client(&mut server, 3, "carol");
    for a in [1, 2, 3] {
        drain(&mut server, a);
    }

    server.close_channel(2);
    let chat = alice.compose_chat_frame(&b"still here?".to_vec());
    assert_eq!(server.handle_frame(1, &chat), HandleOutcome::Continue);

    assert!(drain(&mut server, 2).is_empty());
    let frames = drain(&mut server, 3);
    assert_eq!(frames.len(), 1);
    let (from, body) = read_chat(&carol, &frames[0]);
    assert_eq!(from, "alice");
    assert_eq!(body, b"still here?".to_vec());
}

#[test]
fn chat_before_login_closes_session() {
    let mut server = Server::default();
    let _greeting = server.accept(5);
    let premature = Message::create_all(9, MessageType::Message, vec![1, 2, 3]).to_bytes();
    assert_eq!(server.handle_frame(5, &premature), HandleOutcome::Disconnect);
    assert!(server.sessions.iter().all(|s| s.addr != 5));
}

#[test]
fn unreadable_identity_closes_session() {
    let mut server = Server::default();
    let _greeting = server.accept(6);
    let bogus_login = Message::create_all(1, MessageType::Login, vec![1, 2, 3]).to_bytes();
    assert_eq!(server.handle_frame(6, &bogus_login), HandleOutcome::Disconnect);
    assert!(server.sessions.iter().all(|s| s.addr != 6));
}

#[test]
fn garbage_frame_before_login_closes_session() {
    let mut server = Server::default();
    let _greeting = server.accept(7);
    assert_eq!(
        server.handle_frame(7, &b"not a frame at all".to_vec()),
        HandleOutcome::Disconnect
    );
    assert!(server.sessions.iter().all(|s| s.addr != 7));
}

#[test]
fn non_chat_frame_after_login_closes_session() {
    let mut server = Server::default();
    let _alice = connect_client(&mut server, 1, "alice");
    let bob = connect_client(&mut server, 2, "bob");
    drain(&mut server, 1);
    let stray_login = Message::create_all(1, MessageType::Login, Vec::new()).to_bytes();
    assert_eq!(server.handle_frame(2, &stray_login), HandleOutcome::Disconnect);
    assert!(server.sessions.iter().all(|s| s.addr != 2));

    // the remaining session is told that a user left
    let frames = drain(&mut server, 1);
    assert_eq!(frames.len(), 1);
    let _ = bob;
}

#[test]
fn undecryptable_chat_after_login_closes_session() {
    let mut server = Server::default();
    let _alice = connect_client(&mut server, 1, "alice");
    drain(&mut server, 1);
    let bogus_chat = Message::create_all(
        1,
        MessageType::Message,
        MessagePayload::new("alice".to_string(), vec![0u8; 15]).to_bytes(),
    )
    .to_bytes();
    assert_eq!(server.handle_frame(1, &bogus_chat), HandleOutcome::Disconnect);
    assert!(server.sessions.iter().all(|s| s.addr != 1));
}

#[test]
fn disconnect_tells_the_others() {
    let mut server = Server::default();
    let _alice = connect_client(&mut server, 1, "alice");
    let bob = connect_client(&mut server, 2, "bob");
    drain(&mut server, 1);
    drain(&mut server, 2);

    server.disconnect(1);
    assert!(server.sessions.iter().all(|s| s.addr != 1));
    let frames = drain(&mut server, 2);
    assert_eq!(frames.len(), 1);
    let (from, body) = read_chat(&bob, &frames[0]);
    assert_eq!(from, "SERVER");
    assert_eq!(body, b"User has left the chat".to_vec());
}

#[test]
fn disconnect_before_login_is_silent() {
    let mut server = Server::default();
    let _alice = connect_client(&mut server, 1, "alice");
    drain(&mut server, 1);
    let _greeting = server.accept(9);
    server.disconnect(9);
    assert!(drain(&mut server, 1).is_empty());
}

#[test]
fn client_ignores_stray_kinds() {
    let secret = create_private_key();
    let user = User::new("alice".to_string(), User::create_public_key(&secret));
    let mut client = Client::new(user, secret);
    let login = Message::create_all(1, MessageType::Login, Vec::new()).to_bytes();
    assert!(matches!(client.handle_server_frame(&login), ClientAction::Ignore));
    assert!(matches!(
        client.handle_server_frame(&b"garbage".to_vec()),
        ClientAction::Ignore
    ));
}

#[test]
fn client_rejects_chat_before_key_exchange() {
    let secret = create_private_key();
    let user = User::new("alice".to_string(), User::create_public_key(&secret));
    let mut client = Client::new(user, secret);
    let chat = Message::create_all(
        1,
        MessageType::Message,
        MessagePayload::new("bob".to_string(), vec![0u8; 32]).to_bytes(),
    )
    .to_bytes();
    assert!(matches!(client.handle_server_frame(&chat), ClientAction::Disconnect));
}

#[test]
fn client_shared_key_accessors() {
    let secret = create_private_key();
    let user = User::new("alice".to_string(), User::create_public_key(&secret));
    let mut client = Client::new(user, secret);
    assert!(client.get_shared_key().is_empty());
    client.set_shared_key(vec![9u8; 32]);
    assert_eq!(client.get_shared_key(), vec![9u8; 32]);
}

#[test]
fn server_default_state() {
    let server = Server::default();
    assert!(server.sessions.is_empty());
    assert_eq!(server.channels.len(), 2);
    assert_eq!(server.channels[0].name, "general");
    assert_eq!(server.channels[1].name, "random");
    assert!(server.channels[0].messages.is_empty());
    assert!(server.channels[1].users.is_empty());
    assert_eq!(server.channels[0].max_messages, 100);
    assert!(server.channels[1].backup_messages);
    assert_eq!(server.get_private_key().len(), 32);
}

#[test]
fn server_registry_operations() {
    let mut server = Server::default();
    server.add_client(1);
    server.add_client(2);
    assert_eq!(server.sessions.len(), 2);
    server.add_client(1); // re-registering replaces the session
    assert_eq!(server.sessions.len(), 2);
    server.remove_client(1);
    assert_eq!(server.sessions.len(), 1);
    assert!(server.sessions.iter().all(|s| s.addr != 1));
    server.add_shared_key(2, vec![1u8; 32]);
    assert_eq!(server.get_shared_key(2), vec![1u8; 32]);
}
