//! The relay engine: the server-side registry of connected sessions and their
//! shared keys, the per-connection handshake, and the decrypt-then-re-encrypt
//! fan-out broadcast.
//!
//! Every client shares its secret with the server's one static key pair, not
//! with other clients: the relay decrypts each inbound chat body and
//! re-encrypts it per recipient (hub-and-spoke trust, not end-to-end).
//! Delivery is at-most-once and best-effort: a closed outbound queue is
//! skipped and the remaining recipients still receive theirs.

use crate::channel::{get_default_channels, Channel};
use crate::codec::clone_bytes;
use crate::crypt::{
    cbc_decrypt_of, cbc_encrypt_of, create_private_key, create_public_key, create_shared_key,
    decrypt_data, deserialize_private_key, deserialize_public_key, encrypt_data, public_of,
    serialize_private_key, serialize_public_key, shared_of, CryptoError,
};
use crate::id::{create_id, IdType};
use crate::message::{
    spec_chat_sentinel_body, spec_decode_chat, spec_decode_message, spec_encode_chat,
    spec_encode_message, spec_valid_chat, spec_valid_frame, Message, MessagePayload,
    MessagePayloadView, MessageType, MessageView,
};
use crate::user::{spec_decode_user, spec_valid_user, User, UserView};
use vstd::prelude::*;
use vstd::string::{StrSliceExecFns, StringExecFns};
use vstd::utf8::encode_utf8;

verus! {

/// One connected client's server-side state: its address, the shared key once
/// login has derived it, the handshake progress, and the outbound frame queue
/// drained by the transport writer.
pub struct Session {
    pub addr: u64,
    pub shared_key: Option<Vec<u8>>,
    pub logged_in: bool,
    pub outbound: Vec<Vec<u8>>,
    pub open: bool,
}

impl Session {
    /// A logged-in session always has a 32-byte shared key.
    pub open spec fn wf(&self) -> bool {
        &&& self.logged_in ==> self.shared_key is Some
        &&& self.shared_key matches Some(k) ==> k@.len() == 32
    }

    /// Whether a broadcast that excludes `excl` is addressed to this session:
    /// it must have completed login and not be the excluded sender.
    pub open spec fn is_recipient(&self, excl: Option<u64>) -> bool {
        self.logged_in && !(excl matches Some(a) && self.addr == a)
    }
}

/// The one frame a recipient with shared key `key` gets out of a broadcast of
/// plaintext `plain` from `username`, re-encrypted under `iv`.
pub open spec fn spec_chat_frame(
    id: u64,
    username: Seq<char>,
    plain: Seq<u8>,
    key: Seq<u8>,
    iv: Seq<u8>,
) -> Seq<u8> {
    spec_encode_message(
        MessageView {
            id,
            kind: MessageType::Message,
            payload: spec_encode_chat(
                MessagePayloadView { username, message: cbc_encrypt_of(plain, key, iv) + iv },
            ),
        },
    )
}

/// Exactly one new frame was appended to a recipient's queue: the broadcast
/// message re-encrypted under the recipient's own key with some fresh
/// initialization vector.
pub open spec fn spec_delivered(
    frames_old: Seq<Vec<u8>>,
    frames_new: Seq<Vec<u8>>,
    id: u64,
    username: Seq<char>,
    plain: Seq<u8>,
    key: Seq<u8>,
) -> bool {
    &&& frames_new.len() == frames_old.len() + 1
    &&& forall|j: int| 0 <= j < frames_old.len() ==> frames_new[j] == frames_old[j]
    &&& exists|iv: Seq<u8>|
        iv.len() == 16 && frames_new.last()@ == #[trigger] spec_chat_frame(
            id,
            username,
            plain,
            key,
            iv,
        )
}

/// How one broadcast changes one session: address, key, login state and open
/// flag are untouched; an open recipient's queue grows by its own
/// re-encrypted frame; any other queue is untouched.
pub open spec fn spec_session_updated(
    so: Session,
    sn: Session,
    excl: Option<u64>,
    id: u64,
    username: Seq<char>,
    plain: Seq<u8>,
) -> bool {
    &&& sn.addr == so.addr
    &&& sn.shared_key == so.shared_key
    &&& sn.logged_in == so.logged_in
    &&& sn.open == so.open
    &&& (so.is_recipient(excl) && so.open ==> spec_delivered(
        so.outbound@,
        sn.outbound@,
        id,
        username,
        plain,
        so.shared_key.unwrap()@,
    ))
    &&& (!(so.is_recipient(excl) && so.open) ==> sn.outbound == so.outbound)
}

/// How one broadcast changes the session list: every session individually as
/// `spec_session_updated` says.
pub open spec fn spec_fanned_out(
    olds: Seq<Session>,
    news: Seq<Session>,
    excl: Option<u64>,
    id: u64,
    username: Seq<char>,
    plain: Seq<u8>,
) -> bool {
    &&& news.len() == olds.len()
    &&& forall|i: int|
        0 <= i < olds.len() ==> #[trigger] spec_session_updated(
            olds[i],
            news[i],
            excl,
            id,
            username,
            plain,
        )
}

/// A delivered frame is readable by its recipient: it decodes to a chat
/// message with the broadcast identifier, from the broadcast sender, whose
/// body is exactly the broadcast plaintext encrypted under the recipient's
/// own key with the vector appended — the shape `decrypt_data` inverts.
pub proof fn lemma_chat_frame_decodes(
    id: u64,
    username: Seq<char>,
    plain: Seq<u8>,
    key: Seq<u8>,
    iv: Seq<u8>,
)
    requires
        encode_utf8(username).len() <= 0xffffffffffffffff,
        spec_encode_chat(
            MessagePayloadView { username, message: cbc_encrypt_of(plain, key, iv) + iv },
        ).len() <= 0xffffffffffffffff,
    ensures
        spec_valid_frame(spec_chat_frame(id, username, plain, key, iv)),
        ({
            let m = spec_decode_message(spec_chat_frame(id, username, plain, key, iv));
            &&& m.id == id
            &&& m.kind is Message
            &&& spec_valid_chat(m.payload)
            &&& spec_decode_chat(m.payload).username == username
            &&& spec_decode_chat(m.payload).message == cbc_encrypt_of(plain, key, iv) + iv
        }),
{
    let pv = MessagePayloadView { username, message: cbc_encrypt_of(plain, key, iv) + iv };
    let mv = MessageView { id, kind: MessageType::Message, payload: spec_encode_chat(pv) };
    crate::message::lemma_chat_roundtrip(pv);
    crate::message::lemma_message_roundtrip(mv);
}

/// What one broadcast from `sender` means for each single session, read off
/// `spec_fanned_out` (which `broadcast` and `handle_frame` ensure): the
/// sender's own queue is untouched; a session that has not completed login,
/// or whose channel is closed, keeps its queue untouched and never disturbs
/// the others; and every remaining session got exactly one new frame on top
/// of its unchanged queue, which decodes to a chat message carrying the
/// broadcast identifier and sender name, whose body is the plaintext
/// encrypted under that recipient's own shared key with the vector appended
/// — exactly the shape `decrypt_data` inverts.
pub proof fn lemma_fan_out_properties(
    olds: Seq<Session>,
    news: Seq<Session>,
    sender: u64,
    id: u64,
    username: Seq<char>,
    plain: Seq<u8>,
    i: int,
)
    requires
        spec_fanned_out(olds, news, Some(sender), id, username, plain),
        0 <= i < olds.len(),
    ensures
        news.len() == olds.len(),
        olds[i].addr == sender ==> news[i].outbound == olds[i].outbound,
        !(olds[i].logged_in && olds[i].open) ==> news[i].outbound == olds[i].outbound,
        olds[i].logged_in && olds[i].open && olds[i].addr != sender ==> {
            let key = olds[i].shared_key.unwrap()@;
            &&& news[i].outbound@.len() == olds[i].outbound@.len() + 1
            &&& (forall|j: int|
                0 <= j < olds[i].outbound@.len() ==> news[i].outbound@[j]
                    == olds[i].outbound@[j])
            &&& exists|iv: Seq<u8>|
                iv.len() == 16 && {
                    let f = news[i].outbound@.last()@;
                    &&& spec_valid_frame(f)
                    &&& spec_decode_message(f).id == id
                    &&& spec_decode_message(f).kind is Message
                    &&& spec_valid_chat(spec_decode_message(f).payload)
                    &&& spec_decode_chat(spec_decode_message(f).payload).username == username
                    &&& spec_decode_chat(spec_decode_message(f).payload).message == #[trigger]
                        cbc_encrypt_of(plain, key, iv) + iv
                }
        },
{
    assert(spec_session_updated(olds[i], news[i], Some(sender), id, username, plain));
    if olds[i].logged_in && olds[i].open && olds[i].addr != sender {
        let key = olds[i].shared_key.unwrap()@;
        let fvec = news[i].outbound@.last();
        let f = fvec@;
        let iv = choose|iv: Seq<u8>|
            iv.len() == 16 && f == #[trigger] spec_chat_frame(id, username, plain, key, iv);
        vstd::std_specs::vec::axiom_spec_len(&fvec);
        let pv = MessagePayloadView { username, message: cbc_encrypt_of(plain, key, iv) + iv };
        assert(f.len() == 17 + spec_encode_chat(pv).len());
        assert(spec_encode_chat(pv).len() == 8 + encode_utf8(username).len()
            + pv.message.len());
        lemma_chat_frame_decodes(id, username, plain, key, iv);
    }
}

/// The chat payload read out of an inbound frame's payload bytes: the decoded
/// payload, or the sentinel payload where decoding failed.
pub open spec fn spec_inbound_chat(payload: Seq<u8>) -> MessagePayloadView {
    if spec_valid_chat(payload) {
        spec_decode_chat(payload)
    } else {
        MessagePayloadView { username: Seq::empty(), message: spec_chat_sentinel_body() }
    }
}

/// What decrypting an encrypted chat body under `key` yields: the body is
/// split into ciphertext and trailing initialization vector first.
pub open spec fn spec_plain_of(body: Seq<u8>, key: Seq<u8>) -> Option<Seq<u8>> {
    if body.len() < 16 {
        None
    } else {
        cbc_decrypt_of(
            body.subrange(0, body.len() - 16),
            key,
            body.subrange(body.len() - 16, body.len() as int),
        )
    }
}

/// The body of the system notice broadcast when `username` joins.
pub open spec fn spec_join_notice(username: Seq<char>) -> Seq<u8> {
    encode_utf8(username + " has joined the server"@)
}

/// The body of the system notice broadcast when a client leaves.
pub open spec fn spec_leave_notice() -> Seq<u8> {
    encode_utf8("User has left the chat"@)
}

/// The message read out of an inbound frame: the decoded message, or the
/// `Unknown` sentinel where decoding failed.
pub open spec fn spec_inbound_message(b: Seq<u8>) -> MessageView {
    if spec_valid_frame(b) {
        spec_decode_message(b)
    } else {
        MessageView { id: 0, kind: MessageType::Unknown, payload: Seq::empty() }
    }
}

/// The identity read out of a login payload: the decoded identity, or the
/// `"Unknown"` sentinel where decoding failed.
pub open spec fn spec_inbound_user(b: Seq<u8>) -> UserView {
    if spec_valid_user(b) {
        spec_decode_user(b)
    } else {
        UserView { id: 0, username: "Unknown"@, public_key: Seq::empty() }
    }
}

/// What the session loop asks of the transport after a frame was handled.
#[derive(Clone, Copy, Debug, PartialEq, Eq, Structural)]
pub enum HandleOutcome {
    /// Keep the connection and read the next frame.
    Continue,
    /// Close the connection: protocol violation or crypto fault.
    Disconnect,
}

/// The channel list with every channel named `name` removed.
pub open spec fn spec_channels_without(chs: Seq<Channel>, name: Seq<char>) -> Seq<Channel> {
    chs.filter(|c: Channel| c.name@ != name)
}

/// Removing channels by name never lengthens the list.
proof fn lemma_channels_without_len(chs: Seq<Channel>, name: Seq<char>)
    ensures
        spec_channels_without(chs, name).len() <= chs.len(),
    decreases chs.len(),
{
    reveal_with_fuel(Seq::filter, 2);
    if chs.len() != 0 {
        lemma_channels_without_len(chs.drop_last(), name);
    }
}

/// The relay's whole state: the channel list, the session registry, and the
/// server's one long-lived private key.
pub struct Server {
    pub channels: Vec<Channel>,
    pub sessions: Vec<Session>,
    pub private_key: Vec<u8>,
}

impl Server {
    /// The registry's invariant: a 32-byte static key, well-formed sessions,
    /// and pairwise distinct addresses.
    pub open spec fn wf(&self) -> bool {
        &&& self.private_key@.len() == 32
        &&& forall|i: int| 0 <= i < self.sessions@.len() ==> (#[trigger] self.sessions@[i]).wf()
        &&& forall|i: int, j: int|
            0 <= i < j < self.sessions@.len() ==> self.sessions@[i].addr != self.sessions@[j].addr
    }

    /// Whether some session is registered at `addr`.
    pub open spec fn spec_has_session(&self, addr: u64) -> bool {
        exists|i: int|
            0 <= i < self.sessions@.len() && (#[trigger] self.sessions@[i]).addr == addr
    }

    /// The index of the session registered at `addr`.
    pub open spec fn spec_session_index(&self, addr: u64) -> int {
        choose|i: int| 0 <= i < self.sessions@.len() && (#[trigger] self.sessions@[i]).addr == addr
    }

    /// The session registered at `addr`.
    pub open spec fn spec_session(&self, addr: u64) -> Session {
        self.sessions@[self.spec_session_index(addr)]
    }

    /// Whether the session at `addr` exists and has derived its shared key.
    pub open spec fn spec_has_key(&self, addr: u64) -> bool {
        self.spec_has_session(addr) && self.spec_session(addr).shared_key is Some
    }

    /// The shared key of the session at `addr`.
    pub open spec fn spec_key(&self, addr: u64) -> Seq<u8> {
        self.spec_session(addr).shared_key.unwrap()@
    }

    /// Finds the position of the session registered at `addr`.
    fn session_index(&self, addr: u64) -> (r: Option<usize>)
        requires
            self.wf(),
        ensures
            r is Some <==> self.spec_has_session(addr),
            r matches Some(i) ==> i < self.sessions@.len() && self.sessions@[i as int].addr
                == addr && i == self.spec_session_index(addr),
    {
        let n = self.sessions.len();
        let mut i: usize = 0;
        while i < n
            invariant
                i <= n,
                n == self.sessions@.len(),
                self.wf(),
                forall|j: int| 0 <= j < i ==> (#[trigger] self.sessions@[j]).addr != addr,
            decreases n - i,
        {
            if self.sessions[i].addr == addr {
                proof {
                    let k = self.spec_session_index(addr);
                    assert(0 <= k < self.sessions@.len() && self.sessions@[k].addr == addr);
                    if k != i {
                        assert(self.sessions@[if k < i {
                            k
                        } else {
                            i as int
                        }].addr != self.sessions@[if k < i {
                            i as int
                        } else {
                            k
                        }].addr);
                    }
                }
                return Some(i);
            }
            i = i + 1;
        }
        proof {
            assert(!self.spec_has_session(addr));
        }
        None
    }

    /// Adds a channel, replacing any channel already carrying its name, so
    /// that the list holds at most one channel per name.
    pub fn add_channel(&mut self, channel: Channel)
        ensures
            final(self).channels@ == spec_channels_without(
                old(self).channels@,
                channel.name@,
            ).push(channel),
            final(self).sessions == old(self).sessions,
            final(self).private_key == old(self).private_key,
    {
        self.remove_channels_named(&channel.name);
        self.channels.push(channel);
    }

    /// Removes every channel that shares the given channel's name.
    pub fn remove_channel(&mut self, channel: Channel)
        ensures
            final(self).channels@ == spec_channels_without(old(self).channels@, channel.name@),
            final(self).sessions == old(self).sessions,
            final(self).private_key == old(self).private_key,
    {
        self.remove_channels_named(&channel.name);
    }

    /// Removes every channel named `name`.
    #[verifier::loop_isolation(false)]
    fn remove_channels_named(&mut self, name: &String)
        ensures
            final(self).channels@ == spec_channels_without(old(self).channels@, name@),
            final(self).sessions == old(self).sessions,
            final(self).private_key == old(self).private_key,
    {
        let ghost olds = old(self).channels@;
        let ghost nm = name@;
        let ghost mut j: int = 0;
        let mut i: usize = 0;
        proof {
            assert(spec_channels_without(olds.subrange(0, 0), nm) =~= Seq::<Channel>::empty());
            assert(self.channels@ =~= spec_channels_without(olds.subrange(0, 0), nm)
                + olds.subrange(0, olds.len() as int));
        }
        while i < self.channels.len()
            invariant
                0 <= j <= olds.len(),
                i == spec_channels_without(olds.subrange(0, j), nm).len(),
                self.channels@ == spec_channels_without(olds.subrange(0, j), nm) + olds.subrange(
                    j,
                    olds.len() as int,
                ),
                self.sessions == old(self).sessions,
                self.private_key == old(self).private_key,
            decreases olds.len() - j,
        {
            proof {
                lemma_channels_without_len(olds.subrange(0, j), nm);
                assert(self.channels@[i as int] == olds[j]);
            }
            let ghost pre = olds.subrange(0, j);
            let ghost cur = olds.subrange(0, j + 1);
            let matches_name = self.channels[i].name == *name;
            if matches_name {
                self.channels.remove(i);
            } else {
                i = i + 1;
            }
            proof {
                reveal_with_fuel(Seq::filter, 2);
                assert(cur.drop_last() =~= pre);
                assert(cur.last() == olds[j]);
                if matches_name {
                    assert(spec_channels_without(cur, nm) == spec_channels_without(pre, nm));
                    assert(self.channels@ =~= spec_channels_without(cur, nm) + olds.subrange(
                        j + 1,
                        olds.len() as int,
                    ));
                } else {
                    assert(spec_channels_without(cur, nm) == spec_channels_without(
                        pre,
                        nm,
                    ).push(olds[j]));
                    assert(self.channels@ =~= spec_channels_without(cur, nm) + olds.subrange(
                        j + 1,
                        olds.len() as int,
                    ));
                }
                j = j + 1;
            }
        }
        proof {
            lemma_channels_without_len(olds.subrange(0, j), nm);
            assert(j == olds.len());
            assert(olds.subrange(j, olds.len() as int) =~= Seq::<Channel>::empty());
            assert(olds.subrange(0, j) =~= olds);
            assert(self.channels@ =~= spec_channels_without(olds, nm));
        }
    }

    /// Registers a fresh session at `addr`, replacing any session already
    /// registered there.  The fresh session has no key yet, has not logged
    /// in, and starts with an empty open outbound queue.
    pub fn add_client(&mut self, addr: u64)
        requires
            old(self).wf(),
        ensures
            final(self).wf(),
            final(self).channels == old(self).channels,
            final(self).private_key == old(self).private_key,
            final(self).spec_has_session(addr),
            final(self).sessions@.len() >= 1,
            ({
                let s = final(self).sessions@.last();
                s.addr == addr && s.shared_key is None && !s.logged_in && s.outbound@.len() == 0
                    && s.open
            }),
            !old(self).spec_has_session(addr) ==> final(self).sessions@.drop_last() == old(self).sessions@,
            old(self).spec_has_session(addr) ==> final(self).sessions@.drop_last() == old(self).sessions@.remove(old(self).spec_session_index(addr)),
    {
        self.remove_client(addr);
        let fresh = Session {
            addr,
            shared_key: None,
            logged_in: false,
            outbound: Vec::new(),
            open: true,
        };
        self.sessions.push(fresh);
        proof {
            assert(final(self).sessions@.drop_last() =~= final(self).sessions@.subrange(
                0,
                final(self).sessions@.len() - 1,
            ));
            assert(final(self).sessions@.last().addr == addr);
        }
    }

    /// Removes the session registered at `addr`, if any.
    pub fn remove_client(&mut self, addr: u64)
        requires
            old(self).wf(),
        ensures
            final(self).wf(),
            final(self).channels == old(self).channels,
            final(self).private_key == old(self).private_key,
            !final(self).spec_has_session(addr),
            !old(self).spec_has_session(addr) ==> final(self).sessions@ == old(self).sessions@,
            old(self).spec_has_session(addr) ==> final(self).sessions@ == old(self).sessions@.remove(old(self).spec_session_index(addr)),
    {
        let found = self.session_index(addr);
        match found {
            None => {
                proof {
                    assert(!self.spec_has_session(addr));
                }
            },
            Some(i) => {
                let ghost olds = self.sessions@;
                self.sessions.remove(i);
                proof {
                    assert forall|j: int|
                        0 <= j < self.sessions@.len() implies (#[trigger] self.sessions@[j]).wf()
                        && self.sessions@[j].addr != addr by {
                        if j < i {
                            assert(self.sessions@[j] == olds[j]);
                            if olds[j].addr == addr {
                                assert(olds.remove(i as int)[j] == olds[j]);
                            }
                            assert(olds[j].addr != olds[i as int].addr);
                        } else {
                            assert(self.sessions@[j] == olds[j + 1]);
                            assert(olds[i as int].addr != olds[j + 1].addr);
                        }
                    }
                    assert forall|p: int, q: int|
                        0 <= p < q < self.sessions@.len() implies self.sessions@[p].addr
                        != self.sessions@[q].addr by {
                        let po = if p < i {
                            p
                        } else {
                            p + 1
                        };
                        let qo = if q < i {
                            q
                        } else {
                            q + 1
                        };
                        assert(self.sessions@[p] == olds[po]);
                        assert(self.sessions@[q] == olds[qo]);
                        assert(olds[po].addr != olds[qo].addr);
                    }
                }
            },
        }
    }

    /// Stores the per-client shared key on the session registered at `addr`.
    pub fn add_shared_key(&mut self, addr: u64, shared_key: Vec<u8>)
        requires
            old(self).wf(),
            old(self).spec_has_session(addr),
            shared_key@.len() == 32,
        ensures
            final(self).wf(),
            final(self).channels == old(self).channels,
            final(self).private_key == old(self).private_key,
            final(self).sessions@.len() == old(self).sessions@.len(),
            forall|i: int|
                0 <= i < old(self).sessions@.len() && i != old(self).spec_session_index(addr)
                    ==> final(self).sessions@[i] == old(self).sessions@[i],
            ({
                let k = old(self).spec_session_index(addr);
                let so = old(self).sessions@[k];
                let sn = final(self).sessions@[k];
                sn.addr == so.addr && sn.logged_in == so.logged_in && sn.outbound == so.outbound
                    && sn.open == so.open && sn.shared_key == Some(shared_key)
            }),
            final(self).spec_has_key(addr),
            final(self).spec_key(addr) == shared_key@,
    {
        let found = self.session_index(addr);
        match found {
            None => {
                proof {
                    assert(false);
                }
            },
            Some(i) => {
                let ghost olds = self.sessions@;
                let mut s = self.sessions.remove(i);
                s.shared_key = Some(shared_key);
                self.sessions.insert(i, s);
                proof {
                    assert(self.sessions@ =~= olds.update(i as int, s));
                    assert(self.spec_session_index(addr) == i as int) by {
                        let k = self.spec_session_index(addr);
                        assert(self.sessions@[i as int].addr == addr);
                        assert(0 <= k < self.sessions@.len() && self.sessions@[k].addr == addr);
                        if k != i {
                            let p = if k < i {
                                k
                            } else {
                                i as int
                            };
                            let q = if k < i {
                                i as int
                            } else {
                                k
                            };
                            assert(olds[p].addr == olds.update(i as int, s)[p].addr || p == i);
                            assert(olds[p].addr != olds[q].addr);
                        }
                    }
                }
            },
        }
    }

    /// Hands out a copy of the server's static private key bytes.
    pub fn get_private_key(&self) -> (r: Vec<u8>)
        ensures
            r@ == self.private_key@,
    {
        clone_bytes(&self.private_key)
    }

    /// Hands out a copy of the shared key of the session at `addr`.
    pub fn get_shared_key(&self, addr: u64) -> (r: Vec<u8>)
        requires
            self.wf(),
            self.spec_has_key(addr),
        ensures
            r@ == self.spec_key(addr),
    {
        let found = self.session_index(addr);
        match found {
            None => {
                proof {
                    assert(false);
                }
                Vec::new()
            },
            Some(i) => {
                match &self.sessions[i].shared_key {
                    Some(k) => clone_bytes(k),
                    None => {
                        proof {
                            assert(false);
                        }
                        Vec::new()
                    },
                }
            },
        }
    }
    /// Re-encrypts `plain` once per addressed session and enqueues the frame
    /// on each open outbound queue; closed queues and the excluded sender are
    /// skipped, and one skipped recipient never blocks the others.
    fn fan_out(&mut self, excl: Option<u64>, id: u64, username: &String, plain: &Vec<u8>)
        requires
            old(self).wf(),
        ensures
            final(self).wf(),
            final(self).channels == old(self).channels,
            final(self).private_key == old(self).private_key,
            spec_fanned_out(
                old(self).sessions@,
                final(self).sessions@,
                excl,
                id,
                username@,
                plain@,
            ),
    {
        let n = self.sessions.len();
        let mut i: usize = 0;
        while i < n
            invariant
                i <= n,
                n == old(self).sessions@.len(),
                self.sessions@.len() == n,
                self.wf(),
                self.channels == old(self).channels,
                self.private_key == old(self).private_key,
                forall|k: int| i <= k < n ==> self.sessions@[k] == old(self).sessions@[k],
                forall|k: int|
                    0 <= k < i ==> #[trigger] spec_session_updated(
                        old(self).sessions@[k],
                        self.sessions@[k],
                        excl,
                        id,
                        username@,
                        plain@,
                    ),
            decreases n - i,
        {
            let wanted = self.sessions[i].logged_in && self.sessions[i].open && (match excl {
                Some(a) => self.sessions[i].addr != a,
                None => true,
            });
            if wanted {
                let ghost prev = self.sessions@;
                let mut s = self.sessions.remove(i);
                let frame = match &s.shared_key {
                    Some(k) => build_chat_frame(id, username, plain, k),
                    None => {
                        proof {
                            assert(false);
                        }
                        Vec::new()
                    },
                };
                s.outbound.push(frame);
                self.sessions.insert(i, s);
                proof {
                    assert(self.sessions@ =~= prev.update(i as int, s));
                    assert(spec_delivered(
                        prev[i as int].outbound@,
                        s.outbound@,
                        id,
                        username@,
                        plain@,
                        prev[i as int].shared_key.unwrap()@,
                    ));
                }
            }
            i = i + 1;
        }
    }

    /// Marks the session at `addr`, which must already hold its shared key,
    /// as having completed login.
    fn mark_logged_in(&mut self, addr: u64)
        requires
            old(self).wf(),
            old(self).spec_has_key(addr),
        ensures
            final(self).wf(),
            final(self).channels == old(self).channels,
            final(self).private_key == old(self).private_key,
            final(self).sessions@.len() == old(self).sessions@.len(),
            forall|i: int|
                0 <= i < old(self).sessions@.len() && i != old(self).spec_session_index(addr)
                    ==> final(self).sessions@[i] == old(self).sessions@[i],
            ({
                let k = old(self).spec_session_index(addr);
                let so = old(self).sessions@[k];
                let sn = final(self).sessions@[k];
                sn.addr == so.addr && sn.logged_in && sn.outbound == so.outbound && sn.open
                    == so.open && sn.shared_key == so.shared_key
            }),
    {
        let found = self.session_index(addr);
        match found {
            None => {
                proof {
                    assert(false);
                }
            },
            Some(i) => {
                let ghost olds = self.sessions@;
                let mut s = self.sessions.remove(i);
                s.logged_in = true;
                self.sessions.insert(i, s);
                proof {
                    assert(self.sessions@ =~= olds.update(i as int, s));
                    assert(olds[i as int].shared_key is Some);
                }
            },
        }
    }

    /// Hands the queued outbound frames of the session at `addr` over to the
    /// transport writer, leaving the queue empty.
    pub fn take_outbound(&mut self, addr: u64) -> (r: Vec<Vec<u8>>)
        requires
            old(self).wf(),
            old(self).spec_has_session(addr),
        ensures
            final(self).wf(),
            final(self).channels == old(self).channels,
            final(self).private_key == old(self).private_key,
            final(self).sessions@.len() == old(self).sessions@.len(),
            forall|i: int|
                0 <= i < old(self).sessions@.len() && i != old(self).spec_session_index(addr)
                    ==> final(self).sessions@[i] == old(self).sessions@[i],
            ({
                let k = old(self).spec_session_index(addr);
                let so = old(self).sessions@[k];
                let sn = final(self).sessions@[k];
                sn.addr == so.addr && sn.logged_in == so.logged_in && sn.open == so.open
                    && sn.shared_key == so.shared_key && sn.outbound@.len() == 0 && r
                    == so.outbound
            }),
    {
        let found = self.session_index(addr);
        match found {
            None => {
                proof {
                    assert(false);
                }
                Vec::new()
            },
            Some(i) => {
                let ghost olds = self.sessions@;
                let mut s = self.sessions.remove(i);
                let mut taken: Vec<Vec<u8>> = Vec::new();
                core::mem::swap(&mut taken, &mut s.outbound);
                self.sessions.insert(i, s);
                proof {
                    assert(self.sessions@ =~= olds.update(i as int, s));
                }
                taken
            },
        }
    }

    /// Marks the outbound channel of the session at `addr` closed: later
    /// broadcasts skip it without disturbing the other recipients.
    pub fn close_channel(&mut self, addr: u64)
        requires
            old(self).wf(),
            old(self).spec_has_session(addr),
        ensures
            final(self).wf(),
            final(self).channels == old(self).channels,
            final(self).private_key == old(self).private_key,
            final(self).sessions@.len() == old(self).sessions@.len(),
            forall|i: int|
                0 <= i < old(self).sessions@.len() && i != old(self).spec_session_index(addr)
                    ==> final(self).sessions@[i] == old(self).sessions@[i],
            ({
                let k = old(self).spec_session_index(addr);
                let so = old(self).sessions@[k];
                let sn = final(self).sessions@[k];
                sn.addr == so.addr && sn.logged_in == so.logged_in && !sn.open && sn.shared_key
                    == so.shared_key && sn.outbound == so.outbound
            }),
    {
        let found = self.session_index(addr);
        match found {
            None => {
                proof {
                    assert(false);
                }
            },
            Some(i) => {
                let ghost olds = self.sessions@;
                let mut s = self.sessions.remove(i);
                s.open = false;
                self.sessions.insert(i, s);
                proof {
                    assert(self.sessions@ =~= olds.update(i as int, s));
                }
            },
        }
    }

    /// Decrypts an inbound chat message's body with the sender's shared key,
    /// then re-encrypts and enqueues it once per other logged-in session
    /// (`sender` of `Some`); or fans a server-built plaintext notice out to
    /// every logged-in session (`sender` of `None`).  On a decryption error
    /// nothing is delivered and the state is unchanged.
    pub fn broadcast(&mut self, sender: Option<u64>, msg: &Message) -> (r: Result<(), CryptoError>)
        requires
            old(self).wf(),
            sender matches Some(a) ==> old(self).spec_has_key(a),
        ensures
            final(self).wf(),
            final(self).channels == old(self).channels,
            final(self).private_key == old(self).private_key,
            sender is None ==> r is Ok && spec_fanned_out(
                old(self).sessions@,
                final(self).sessions@,
                None,
                msg.id,
                spec_inbound_chat(msg.payload@).username,
                spec_inbound_chat(msg.payload@).message,
            ),
            sender matches Some(a) ==> {
                let p = spec_inbound_chat(msg.payload@);
                let plain = spec_plain_of(p.message, old(self).spec_key(a));
                &&& (r is Ok <==> plain is Some)
                &&& (r is Ok ==> spec_fanned_out(
                    old(self).sessions@,
                    final(self).sessions@,
                    Some(a),
                    msg.id,
                    p.username,
                    plain.unwrap(),
                ))
                &&& (r is Err ==> *final(self) == *old(self))
            },
    {
        let payload = MessagePayload::from_bytes(clone_bytes(&msg.payload));
        proof {
            assert(payload@ == spec_inbound_chat(msg.payload@));
        }
        match sender {
            None => {
                self.fan_out(None, msg.id, &payload.username, &payload.message);
                Ok(())
            },
            Some(a) => {
                let key = self.get_shared_key(a);
                proof {
                    let k = self.spec_session_index(a);
                    assert(self.sessions@[k].wf());
                }
                let dec = decrypt_data(&payload.message, &key);
                match dec {
                    Ok(plain) => {
                        self.fan_out(Some(a), msg.id, &payload.username, &plain);
                        Ok(())
                    },
                    Err(e) => Err(e),
                }
            },
        }
    }

    /// Registers a new connection and builds the greeting frame that carries
    /// the server's public key; the fresh session then awaits the client's
    /// login.
    pub fn accept(&mut self, addr: u64) -> (frame: Vec<u8>)
        requires
            old(self).wf(),
        ensures
            final(self).wf(),
            final(self).channels == old(self).channels,
            final(self).private_key == old(self).private_key,
            final(self).spec_has_session(addr),
            final(self).sessions@.len() >= 1,
            ({
                let s = final(self).sessions@.last();
                s.addr == addr && s.shared_key is None && !s.logged_in && s.outbound@.len() == 0
                    && s.open
            }),
            !old(self).spec_has_session(addr) ==> final(self).sessions@.drop_last() == old(self).sessions@,
            old(self).spec_has_session(addr) ==> final(self).sessions@.drop_last() == old(self).sessions@.remove(old(self).spec_session_index(addr)),
            exists|mid: u64|
                frame@ == #[trigger] spec_encode_message(
                    MessageView {
                        id: mid,
                        kind: MessageType::ConnectionReceive,
                        payload: public_of(old(self).private_key@),
                    },
                ),
    {
        self.add_client(addr);
        let sk = deserialize_private_key(self.get_private_key());
        let pk = create_public_key(&sk);
        let pub_bytes = serialize_public_key(pk);
        let msg = Message::new(MessageType::ConnectionReceive, pub_bytes);
        let frame = msg.to_bytes();
        proof {
            assert(frame@ == spec_encode_message(
                MessageView {
                    id: msg.id,
                    kind: MessageType::ConnectionReceive,
                    payload: public_of(old(self).private_key@),
                },
            ));
        }
        frame
    }

    /// Tears the session at `addr` down, on transport close or a protocol
    /// fault: the session is removed, and if it had completed login the
    /// remaining sessions are told that a user left.
    pub fn disconnect(&mut self, addr: u64)
        requires
            old(self).wf(),
        ensures
            final(self).wf(),
            final(self).channels == old(self).channels,
            final(self).private_key == old(self).private_key,
            !final(self).spec_has_session(addr),
            !old(self).spec_has_session(addr) ==> final(self).sessions@ == old(self).sessions@,
            old(self).spec_has_session(addr) && !old(self).spec_session(addr).logged_in ==> final(self).sessions@ == old(self).sessions@.remove(old(self).spec_session_index(addr)),
            old(self).spec_has_session(addr) && old(self).spec_session(addr).logged_in ==> exists|
                nid: u64,
            |
                spec_fanned_out(
                    old(self).sessions@.remove(old(self).spec_session_index(addr)),
                    final(self).sessions@,
                    None,
                    nid,
                    "SERVER"@,
                    spec_leave_notice(),
                ),
    {
        let found = self.session_index(addr);
        let was_logged = match found {
            Some(i) => self.sessions[i].logged_in,
            None => false,
        };
        self.remove_client(addr);
        if was_logged {
            let ghost mid = self.sessions@;
            let nid = create_id(IdType::Message);
            let server_name = String::from_str("SERVER");
            let body = leave_body();
            self.fan_out(None, nid, &server_name, &body);
            proof {
                assert(spec_fanned_out(
                    old(self).sessions@.remove(old(self).spec_session_index(addr)),
                    self.sessions@,
                    None,
                    nid,
                    "SERVER"@,
                    spec_leave_notice(),
                ));
                assert forall|i: int| 0 <= i < self.sessions@.len() implies (#[trigger]
                    self.sessions@[i]).addr != addr by {
                    assert(spec_session_updated(
                        mid[i],
                        self.sessions@[i],
                        None,
                        nid,
                        server_name@,
                        body@,
                    ));
                }
            }
        }
    }
}

impl Server {
    /// Runs one step of the per-connection state machine on an inbound
    /// frame.  Before login, only a `Login` frame with a readable identity is
    /// accepted: it derives the client's shared key, marks the session
    /// logged in, and tells the other sessions that the user joined; any
    /// other frame closes the session.  After login, a chat frame is
    /// broadcast to the other sessions; any other frame, or a body that does
    /// not decrypt, closes the session and tells the others that the user
    /// left.
    pub fn handle_frame(&mut self, addr: u64, bytes: &Vec<u8>) -> (r: HandleOutcome)
        requires
            old(self).wf(),
            old(self).spec_has_session(addr),
        ensures
            final(self).wf(),
            final(self).channels == old(self).channels,
            final(self).private_key == old(self).private_key,
            ({
                let m = spec_inbound_message(bytes@);
                let s = old(self).spec_session(addr);
                let k = old(self).spec_session_index(addr);
                &&& (!s.logged_in && !(m.kind is Login && spec_inbound_user(m.payload).username
                    != "Unknown"@) ==> r == HandleOutcome::Disconnect && final(self).sessions@
                    == old(self).sessions@.remove(k))
                &&& (!s.logged_in && m.kind is Login && spec_inbound_user(m.payload).username
                    != "Unknown"@ ==> {
                    let u = spec_inbound_user(m.payload);
                    let sn = final(self).sessions@[k];
                    &&& r == HandleOutcome::Continue
                    &&& final(self).sessions@.len() == old(self).sessions@.len()
                    &&& sn.addr == addr
                    &&& sn.logged_in
                    &&& sn.open == s.open
                    &&& sn.outbound == s.outbound
                    &&& (sn.shared_key matches Some(kv) && kv@ == shared_of(
                        old(self).private_key@,
                        u.public_key,
                    ))
                    &&& exists|nid: u64|
                        spec_fanned_out(
                            old(self).sessions@.update(k, final(self).sessions@[k]),
                            final(self).sessions@,
                            Some(addr),
                            nid,
                            "SERVER"@,
                            spec_join_notice(u.username),
                        )
                })
                &&& (s.logged_in && m.kind is Message ==> {
                    let p = spec_inbound_chat(m.payload);
                    let plain = spec_plain_of(p.message, s.shared_key.unwrap()@);
                    &&& (plain is Some ==> r == HandleOutcome::Continue && spec_fanned_out(
                        old(self).sessions@,
                        final(self).sessions@,
                        Some(addr),
                        m.id,
                        p.username,
                        plain.unwrap(),
                    ))
                    &&& (plain is None ==> r == HandleOutcome::Disconnect && exists|nid: u64|
                        spec_fanned_out(
                            old(self).sessions@.remove(k),
                            final(self).sessions@,
                            None,
                            nid,
                            "SERVER"@,
                            spec_leave_notice(),
                        ))
                })
                &&& (s.logged_in && !(m.kind is Message) ==> r == HandleOutcome::Disconnect
                    && exists|nid: u64|
                    spec_fanned_out(
                        old(self).sessions@.remove(k),
                        final(self).sessions@,
                        None,
                        nid,
                        "SERVER"@,
                        spec_leave_notice(),
                    ))
            }),
    {
        let msg = Message::from_bytes(clone_bytes(bytes));
        let idx = match self.session_index(addr) {
            Some(i) => i,
            None => {
                proof {
                    assert(false);
                }
                0
            },
        };
        let logged = self.sessions[idx].logged_in;
        if !logged {
            if matches!(msg.message_type, MessageType::Login) {
                let user = User::from_bytes(clone_bytes(&msg.payload));
                let unknown = String::from_str("Unknown");
                if user.username == unknown {
                    self.disconnect(addr);
                    return HandleOutcome::Disconnect;
                }
                proof {
                    assert(spec_valid_user(msg.payload@));
                    assert(user@ == spec_inbound_user(spec_inbound_message(bytes@).payload));
                    assert(user.public_key@.len() == 32);
                }
                let sk = deserialize_private_key(self.get_private_key());
                let peer = deserialize_public_key(clone_bytes(&user.public_key));
                let key = create_shared_key(&sk, &peer);
                self.add_shared_key(addr, key);
                self.mark_logged_in(addr);
                let ghost mid = self.sessions@;
                let mut note = user.username;
                note.append(" has joined the server");
                let body = note.as_str().as_bytes_vec();
                let nid = create_id(IdType::Message);
                let server_name = String::from_str("SERVER");
                self.fan_out(Some(addr), nid, &server_name, &body);
                proof {
                    let k = old(self).spec_session_index(addr);
                    assert(self.sessions@[k] == mid[k]) by {
                        assert(spec_session_updated(
                            mid[k],
                            self.sessions@[k],
                            Some(addr),
                            nid,
                            server_name@,
                            body@,
                        ));
                        assert(!mid[k].is_recipient(Some(addr)));
                    }
                    assert(mid =~= old(self).sessions@.update(k, self.sessions@[k]));
                    assert(spec_fanned_out(
                        old(self).sessions@.update(k, self.sessions@[k]),
                        self.sessions@,
                        Some(addr),
                        nid,
                        "SERVER"@,
                        spec_join_notice(spec_inbound_user(
                            spec_inbound_message(bytes@).payload,
                        ).username),
                    ));
                }
                HandleOutcome::Continue
            } else {
                self.disconnect(addr);
                HandleOutcome::Disconnect
            }
        } else {
            if matches!(msg.message_type, MessageType::Message) {
                proof {
                    let k = self.spec_session_index(addr);
                    assert(self.sessions@[k].wf());
                }
                let res = self.broadcast(Some(addr), &msg);
                match res {
                    Ok(()) => HandleOutcome::Continue,
                    Err(_) => {
                        self.disconnect(addr);
                        HandleOutcome::Disconnect
                    },
                }
            } else {
                self.disconnect(addr);
                HandleOutcome::Disconnect
            }
        }
    }
}

/// Builds the frame one recipient gets out of a broadcast: the plaintext
/// re-encrypted under the recipient's own key with a fresh initialization
/// vector, framed as a chat payload inside a `Message` envelope.
pub(crate) fn build_chat_frame(id: u64, username: &String, plain: &Vec<u8>, key: &Vec<u8>) -> (r: Vec<u8>)
    requires
        key@.len() == 32,
    ensures
        exists|iv: Seq<u8>|
            iv.len() == 16 && r@ == #[trigger] spec_chat_frame(id, username@, plain@, key@, iv),
{
    let enc = encrypt_data(plain, key);
    let ghost iv = choose|iv: Seq<u8>|
        iv.len() == 16 && enc@ == #[trigger] cbc_encrypt_of(plain@, key@, iv) + iv;
    let payload = MessagePayload::new(username.clone(), enc);
    let pbytes = payload.to_bytes();
    let msg = Message::create_all(id, MessageType::Message, pbytes);
    let r = msg.to_bytes();
    proof {
        assert(iv.len() == 16 && r@ == spec_chat_frame(id, username@, plain@, key@, iv));
    }
    r
}

/// The leave-notice body as bytes.
fn leave_body() -> (r: Vec<u8>)
    ensures
        r@ == spec_leave_notice(),
{
    ("User has left the chat").as_bytes_vec()
}

impl Default for Server {
    /// A fresh relay: the two default channels (`general` and `random`, both
    /// empty, default cap, backups on), no sessions, and a fresh static key
    /// pair held for the whole server lifetime.
    fn default() -> (s: Server)
        ensures
            s.wf(),
            s.sessions@.len() == 0,
            s.channels@.len() == 2,
            s.channels@[0].name@ == "general"@,
            s.channels@[1].name@ == "random"@,
            s.channels@[0].messages@.len() == 0,
            s.channels@[1].messages@.len() == 0,
            s.channels@[0].users@.len() == 0,
            s.channels@[1].users@.len() == 0,
            s.channels@[0].max_messages == 100,
            s.channels@[1].max_messages == 100,
            s.channels@[0].backup_messages,
            s.channels@[1].backup_messages,
            s.private_key@.len() == 32,
    {
        Server {
            channels: get_default_channels(),
            sessions: Vec::new(),
            private_key: serialize_private_key(create_private_key()),
        }
    }
}

} // verus!
