//! Client-side session state: the local identity and private key, the shared
//! secret once the server's greeting has arrived, and the client half of the
//! handshake: greeting in, login out, then encrypted chat frames both ways.

use crate::codec::clone_bytes;
use crate::crypt::{
    create_shared_key, decrypt_data, serialize_private_key, shared_of, PrivateKey,
};
use crate::id::{create_id, IdType};
use crate::message::{spec_encode_message, Message, MessageType, MessageView};
use crate::server::{
    build_chat_frame, spec_chat_frame, spec_inbound_chat, spec_inbound_message, spec_plain_of,
};
use crate::user::{spec_encode_user, User};
use vstd::prelude::*;

verus! {

/// A transmitted public key zero-padded at the end to its full 32 bytes.
pub open spec fn spec_padded_key(b: Seq<u8>) -> Seq<u8> {
    Seq::new(32, |i: int| if i < b.len() { b[i] } else { 0u8 })
}

/// What the client asks of its transport after one inbound frame.
pub enum ClientAction {
    /// Send this login frame: the greeting arrived and the key is derived.
    SendLogin(Vec<u8>),
    /// Show this chat line, already decrypted.
    DisplayChat { username: String, body: Vec<u8> },
    /// Nothing to do for this frame.
    Ignore,
    /// Close the connection: protocol violation or crypto fault.
    Disconnect,
}

/// The client's local state.
pub struct Client {
    pub user: User,
    pub channels: Vec<crate::channel::Channel>,
    pub secret: Vec<u8>,
    pub shared_key: Vec<u8>,
}

impl Client {
    /// A fresh client around an identity and its private key; no shared key
    /// is derived until the server's greeting arrives.
    pub fn new(user: User, secret: PrivateKey) -> (r: Client)
        requires
            secret.wf(),
        ensures
            r.user == user,
            r.channels@.len() == 0,
            r.secret@ == secret.bytes@,
            r.shared_key@.len() == 0,
    {
        Client {
            user,
            channels: Vec::new(),
            secret: serialize_private_key(secret),
            shared_key: Vec::new(),
        }
    }

    /// Stores a shared key.
    pub fn set_shared_key(&mut self, shared_key: Vec<u8>)
        ensures
            final(self).shared_key == shared_key,
            final(self).user == old(self).user,
            final(self).channels == old(self).channels,
            final(self).secret == old(self).secret,
    {
        self.shared_key = shared_key;
    }

    /// Hands out a copy of the shared key.
    pub fn get_shared_key(&self) -> (r: Vec<u8>)
        ensures
            r@ == self.shared_key@,
    {
        clone_bytes(&self.shared_key)
    }

    /// Runs one step of the client state machine on an inbound frame.  A
    /// greeting derives the shared secret from the server's public key and
    /// answers with the login record; a chat frame is decrypted for display;
    /// any undecryptable chat closes the connection; everything else is
    /// ignored.
    pub fn handle_server_frame(&mut self, bytes: &Vec<u8>) -> (r: ClientAction)
        requires
            old(self).secret@.len() == 32,
        ensures
            final(self).user == old(self).user,
            final(self).channels == old(self).channels,
            final(self).secret == old(self).secret,
            ({
                let m = spec_inbound_message(bytes@);
                &&& (m.kind is ConnectionReceive && m.payload.len() <= 32 ==> {
                    &&& final(self).shared_key@ == shared_of(
                        old(self).secret@,
                        spec_padded_key(m.payload),
                    )
                    &&& (r matches ClientAction::SendLogin(f) && exists|lid: u64|
                        f@ == #[trigger] spec_encode_message(
                            MessageView {
                                id: lid,
                                kind: MessageType::Login,
                                payload: spec_encode_user(old(self).user@),
                            },
                        ))
                })
                &&& (m.kind is ConnectionReceive && m.payload.len() > 32 ==> r
                    is Disconnect && final(self).shared_key == old(self).shared_key)
                &&& (m.kind is Message ==> {
                    let p = spec_inbound_chat(m.payload);
                    let plain = spec_plain_of(p.message, old(self).shared_key@);
                    &&& final(self).shared_key == old(self).shared_key
                    &&& (old(self).shared_key@.len() == 32 && plain is Some ==> (
                    r matches ClientAction::DisplayChat { username, body } && username@
                        == p.username && body@ == plain.unwrap()))
                    &&& (!(old(self).shared_key@.len() == 32 && plain is Some) ==> r
                        is Disconnect)
                })
                &&& (m.kind is Login || m.kind is Unknown ==> r is Ignore && final(self).shared_key == old(self).shared_key)
            }),
    {
        let msg = Message::from_bytes(clone_bytes(bytes));
        match msg.message_type {
            MessageType::ConnectionReceive => {
                if msg.payload.len() > 32 {
                    return ClientAction::Disconnect;
                }
                let server_key = User::deserialize_public_key(msg.payload);
                proof {
                    assert(server_key.bytes@ =~= spec_padded_key(
                        spec_inbound_message(bytes@).payload,
                    ));
                }
                let sk = crate::crypt::deserialize_private_key(clone_bytes(&self.secret));
                let shared = create_shared_key(&sk, &server_key);
                self.shared_key = shared;
                let login = Message::new(MessageType::Login, self.user.to_bytes());
                let frame = login.to_bytes();
                proof {
                    assert(frame@ == spec_encode_message(
                        MessageView {
                            id: login.id,
                            kind: MessageType::Login,
                            payload: spec_encode_user(old(self).user@),
                        },
                    ));
                }
                ClientAction::SendLogin(frame)
            },
            MessageType::Message => {
                if self.shared_key.len() != 32 {
                    return ClientAction::Disconnect;
                }
                let payload = crate::message::MessagePayload::from_bytes(msg.payload);
                let dec = decrypt_data(&payload.message, &self.shared_key);
                match dec {
                    Ok(body) => ClientAction::DisplayChat { username: payload.username, body },
                    Err(_) => ClientAction::Disconnect,
                }
            },
            MessageType::Login => ClientAction::Ignore,
            MessageType::Unknown => ClientAction::Ignore,
        }
    }

    /// Builds one outbound chat frame: the body encrypted under the shared
    /// key with a fresh vector, under the client's own username and a fresh
    /// message identifier.
    pub fn compose_chat_frame(&self, body: &Vec<u8>) -> (r: Vec<u8>)
        requires
            self.shared_key@.len() == 32,
        ensures
            exists|cid: u64, iv: Seq<u8>|
                iv.len() == 16 && r@ == #[trigger] spec_chat_frame(
                    cid,
                    self.user.username@,
                    body@,
                    self.shared_key@,
                    iv,
                ),
    {
        let cid = create_id(IdType::Message);
        build_chat_frame(cid, &self.user.username, body, &self.shared_key)
    }
}

} // verus!
