//! The `Message` envelope and its wire codec, and the chat payload carried by
//! `Message` frames.
//!
//! A frame is `id` (8 bytes big-endian), a kind tag (1 byte), the payload
//! length (8 bytes big-endian) and the payload itself.  Decoding never fails:
//! a malformed frame yields the `Unknown` sentinel with an empty payload, so
//! the session loop can treat all inbound bytes uniformly.

use crate::codec::{
    copy_range, copy_tail, lemma_u64_bytes_roundtrip, push_bytes, push_u64_be, read_u64_be,
    spec_bytes_to_u64, spec_u64_to_bytes, string_from_utf8,
};
use crate::crypt::{cbc_decrypt_of, cbc_encrypt_of, decrypt_data, encrypt_data, CryptoError};
use crate::id::{create_id, spec_compose_id, spec_id_tag, IdType};
use vstd::prelude::*;
use vstd::string::StrSliceExecFns;
use vstd::utf8::{decode_utf8, encode_utf8, encode_utf8_decode_utf8, encode_utf8_valid_utf8,
    valid_utf8};

verus! {

/// Kind of a `Message` envelope.  `Unknown` is the deserialization-failure
/// sentinel and always carries an empty payload.
#[derive(Clone, Copy, Debug, PartialEq, Eq, Structural)]
pub enum MessageType {
    Unknown,
    Message,
    ConnectionReceive,
    Login,
}

/// The one-byte wire tag of a message kind.
pub open spec fn spec_kind_tag(k: MessageType) -> u8 {
    match k {
        MessageType::Unknown => 0,
        MessageType::Message => 1,
        MessageType::ConnectionReceive => 2,
        MessageType::Login => 3,
    }
}

/// The message kind read back from a wire tag.
pub open spec fn spec_tag_kind(t: u8) -> MessageType
    recommends
        t < 4,
{
    if t == 1 {
        MessageType::Message
    } else if t == 2 {
        MessageType::ConnectionReceive
    } else if t == 3 {
        MessageType::Login
    } else {
        MessageType::Unknown
    }
}

fn kind_tag(k: MessageType) -> (t: u8)
    ensures
        t == spec_kind_tag(k),
{
    match k {
        MessageType::Unknown => 0,
        MessageType::Message => 1,
        MessageType::ConnectionReceive => 2,
        MessageType::Login => 3,
    }
}

fn tag_kind(t: u8) -> (k: MessageType)
    ensures
        k == spec_tag_kind(t),
{
    if t == 1 {
        MessageType::Message
    } else if t == 2 {
        MessageType::ConnectionReceive
    } else if t == 3 {
        MessageType::Login
    } else {
        MessageType::Unknown
    }
}

/// The message envelope exchanged over the wire.
#[derive(Debug, Clone)]
pub struct Message {
    pub id: u64,
    pub message_type: MessageType,
    pub payload: Vec<u8>,
}

/// Mathematical value of a `Message`.
pub ghost struct MessageView {
    pub id: u64,
    pub kind: MessageType,
    pub payload: Seq<u8>,
}

impl View for Message {
    type V = MessageView;

    open spec fn view(&self) -> MessageView {
        MessageView { id: self.id, kind: self.message_type, payload: self.payload@ }
    }
}

/// A message the codec is meant for: `Unknown` only as the empty sentinel,
/// and a payload whose length fits the 8-byte length field.
pub open spec fn spec_message_wf(m: MessageView) -> bool {
    &&& m.kind is Unknown ==> m.payload.len() == 0
    &&& m.payload.len() <= 0xffffffffffffffff
}

/// The frame encoding of a message.
pub open spec fn spec_encode_message(m: MessageView) -> Seq<u8> {
    spec_u64_to_bytes(m.id) + seq![spec_kind_tag(m.kind)] + spec_u64_to_bytes(
        m.payload.len() as u64,
    ) + m.payload
}

/// Whether a byte string is a well-formed message frame: long enough, a known
/// kind tag, a length field that matches the actual payload length, and an
/// empty payload for the `Unknown` tag.
pub open spec fn spec_valid_frame(b: Seq<u8>) -> bool {
    &&& b.len() >= 17
    &&& b[8] < 4
    &&& spec_bytes_to_u64(b.subrange(9, 17)) == b.len() - 17
    &&& (b[8] == 0 ==> b.len() == 17)
}

/// The message read back from a well-formed frame.
pub open spec fn spec_decode_message(b: Seq<u8>) -> MessageView
    recommends
        spec_valid_frame(b),
{
    MessageView {
        id: spec_bytes_to_u64(b.subrange(0, 8)),
        kind: spec_tag_kind(b[8]),
        payload: b.subrange(17, b.len() as int),
    }
}

/// Round-trip: every well-formed message decodes from its own encoding back
/// to itself.
pub proof fn lemma_message_roundtrip(m: MessageView)
    requires
        spec_message_wf(m),
    ensures
        spec_valid_frame(spec_encode_message(m)),
        spec_decode_message(spec_encode_message(m)) == m,
{
    let e = spec_encode_message(m);
    assert(e.len() == 17 + m.payload.len());
    assert(e.subrange(0, 8) =~= spec_u64_to_bytes(m.id));
    assert(e[8] == spec_kind_tag(m.kind));
    assert(e.subrange(9, 17) =~= spec_u64_to_bytes(m.payload.len() as u64));
    assert(e.subrange(17, e.len() as int) =~= m.payload);
    lemma_u64_bytes_roundtrip(m.id);
    lemma_u64_bytes_roundtrip(m.payload.len() as u64);
}

impl Message {
    /// Builds a message with a freshly minted identifier: 48 bits of mint
    /// time, the chat entity tag, and 14 random bits.
    pub fn new(message_type: MessageType, payload: Vec<u8>) -> (r: Message)
        ensures
            r.message_type == message_type,
            r.payload == payload,
            exists|ts: u64, rnd: u64|
                ts < 0x1000000000000 && rnd < 0x4000 && r.id == spec_compose_id(
                    ts,
                    spec_id_tag(IdType::Message),
                    rnd,
                ),
    {
        let id = create_id(IdType::Message);
        Message { id, message_type, payload }
    }

    /// Builds a message from all three fields.
    pub fn create_all(id: u64, message_type: MessageType, payload: Vec<u8>) -> (r: Message)
        ensures
            r.id == id,
            r.message_type == message_type,
            r.payload == payload,
    {
        Message { id, message_type, payload }
    }

    /// Replaces the payload, keeping identifier and kind.
    pub fn change_payload(&mut self, payload: Vec<u8>)
        ensures
            final(self).id == old(self).id,
            final(self).message_type == old(self).message_type,
            final(self).payload == payload,
    {
        self.payload = payload;
    }

    /// Encodes the message as one wire frame.
    pub fn to_bytes(&self) -> (r: Vec<u8>)
        ensures
            r@ == spec_encode_message(self@),
    {
        let mut out: Vec<u8> = Vec::new();
        push_u64_be(&mut out, self.id);
        out.push(kind_tag(self.message_type));
        push_u64_be(&mut out, self.payload.len() as u64);
        push_bytes(&mut out, &self.payload);
        proof {
            assert(out@ =~= spec_encode_message(self@));
        }
        out
    }

    /// Decodes a wire frame.  A malformed frame is never an error: it yields
    /// a fresh `Unknown` message with an empty payload.
    pub fn from_bytes(bytes: Vec<u8>) -> (r: Message)
        ensures
            spec_valid_frame(bytes@) ==> r@ == spec_decode_message(bytes@),
            !spec_valid_frame(bytes@) ==> r.message_type is Unknown && r.payload@ == Seq::<
                u8,
            >::empty(),
    {
        let n = bytes.len();
        if n < 17 {
            return Message::new(MessageType::Unknown, Vec::new());
        }
        let tag = bytes[8];
        if tag >= 4 {
            return Message::new(MessageType::Unknown, Vec::new());
        }
        let declared = read_u64_be(&bytes, 9);
        if declared != (n - 17) as u64 {
            return Message::new(MessageType::Unknown, Vec::new());
        }
        if tag == 0 && n != 17 {
            return Message::new(MessageType::Unknown, Vec::new());
        }
        let id = read_u64_be(&bytes, 0);
        let payload = copy_tail(&bytes, 17);
        Message { id, message_type: tag_kind(tag), payload }
    }

    /// Length in bytes of this message's wire frame.
    pub fn length(&self) -> (r: usize)
        ensures
            r == spec_encode_message(self@).len(),
    {
        self.to_bytes().len()
    }
}

/// The payload of a chat message: the sender's self-asserted username and the
/// message body.  When encrypted, the body holds the ciphertext with the
/// 16-byte initialization vector appended after it.
#[derive(Debug, Clone)]
pub struct MessagePayload {
    pub username: String,
    pub message: Vec<u8>,
}

/// Mathematical value of a `MessagePayload`.
pub ghost struct MessagePayloadView {
    pub username: Seq<char>,
    pub message: Seq<u8>,
}

impl View for MessagePayload {
    type V = MessagePayloadView;

    open spec fn view(&self) -> MessagePayloadView {
        MessagePayloadView { username: self.username@, message: self.message@ }
    }
}

/// The encoding of a chat payload: the username's UTF-8 length (8 bytes
/// big-endian), the username's UTF-8 bytes, then the body as the remainder.
pub open spec fn spec_encode_chat(p: MessagePayloadView) -> Seq<u8> {
    spec_u64_to_bytes(encode_utf8(p.username).len() as u64) + encode_utf8(p.username) + p.message
}

/// Whether a byte string is a well-formed chat payload encoding.
pub open spec fn spec_valid_chat(b: Seq<u8>) -> bool {
    &&& b.len() >= 8
    &&& spec_bytes_to_u64(b.subrange(0, 8)) + 8 <= b.len()
    &&& valid_utf8(b.subrange(8, 8 + spec_bytes_to_u64(b.subrange(0, 8)) as int))
}

/// The chat payload read back from a well-formed encoding.
pub open spec fn spec_decode_chat(b: Seq<u8>) -> MessagePayloadView
    recommends
        spec_valid_chat(b),
{
    let n = spec_bytes_to_u64(b.subrange(0, 8)) as int;
    MessagePayloadView {
        username: decode_utf8(b.subrange(8, 8 + n)),
        message: b.subrange(8 + n, b.len() as int),
    }
}

/// The body that stands in for an undecodable chat payload.
pub open spec fn spec_chat_sentinel_body() -> Seq<u8> {
    seq![48u8, 48u8, 48u8, 48u8, 48u8, 48u8, 48u8, 48u8]
}

/// Round-trip: every chat payload whose username encoding fits the length
/// field decodes from its own encoding back to itself.
pub proof fn lemma_chat_roundtrip(p: MessagePayloadView)
    requires
        encode_utf8(p.username).len() <= 0xffffffffffffffff,
    ensures
        spec_valid_chat(spec_encode_chat(p)),
        spec_decode_chat(spec_encode_chat(p)) == p,
{
    let u = encode_utf8(p.username);
    let e = spec_encode_chat(p);
    assert(e.len() == 8 + u.len() + p.message.len());
    assert(e.subrange(0, 8) =~= spec_u64_to_bytes(u.len() as u64));
    lemma_u64_bytes_roundtrip(u.len() as u64);
    assert(e.subrange(8, 8 + u.len() as int) =~= u);
    assert(e.subrange(8 + u.len() as int, e.len() as int) =~= p.message);
    encode_utf8_valid_utf8(p.username);
    encode_utf8_decode_utf8(p.username);
}

impl MessagePayload {
    /// Builds a chat payload from its two fields.
    pub fn new(username: String, message: Vec<u8>) -> (r: MessagePayload)
        ensures
            r.username == username,
            r.message == message,
    {
        MessagePayload { username, message }
    }

    /// Encodes the payload for carriage inside a `Message` frame.
    pub fn to_bytes(&self) -> (r: Vec<u8>)
        ensures
            r@ == spec_encode_chat(self@),
    {
        let ub = self.username.as_str().as_bytes_vec();
        let mut out: Vec<u8> = Vec::new();
        push_u64_be(&mut out, ub.len() as u64);
        push_bytes(&mut out, &ub);
        push_bytes(&mut out, &self.message);
        proof {
            assert(out@ =~= spec_encode_chat(self@));
        }
        out
    }

    /// Decodes a chat payload.  A malformed encoding yields the sentinel
    /// payload: an empty username and a body of eight zero digits.
    pub fn from_bytes(bytes: Vec<u8>) -> (r: MessagePayload)
        ensures
            spec_valid_chat(bytes@) ==> r@ == spec_decode_chat(bytes@),
            !spec_valid_chat(bytes@) ==> r.username@ == Seq::<char>::empty() && r.message@
                == spec_chat_sentinel_body(),
    {
        let len = bytes.len();
        if len < 8 {
            return Self::sentinel();
        }
        let n = read_u64_be(&bytes, 0);
        if n > (len - 8) as u64 {
            return Self::sentinel();
        }
        let nn = n as usize;
        let useg = copy_range(&bytes, 8, nn);
        match string_from_utf8(useg) {
            Some(username) => {
                let message = copy_tail(&bytes, 8 + nn);
                MessagePayload { username, message }
            },
            None => Self::sentinel(),
        }
    }

    /// Encrypts the body in place under a 32-byte shared key, leaving the
    /// ciphertext with a fresh initialization vector appended after it.
    pub fn encrypt(&mut self, key: &Vec<u8>)
        requires
            key@.len() == 32,
        ensures
            final(self).username == old(self).username,
            exists|iv: Seq<u8>|
                iv.len() == 16 && final(self).message@ == #[trigger] cbc_encrypt_of(
                    old(self).message@,
                    key@,
                    iv,
                ) + iv,
            final(self).message@.len() == (old(self).message@.len() / 16 + 1) * 16 + 16,
    {
        let enc = encrypt_data(&self.message, key);
        self.message = enc;
    }

    /// Decrypts the body in place under a 32-byte shared key.  Decrypting a
    /// body that `encrypt` produced under the same key restores the original
    /// body; on an error the payload is left unchanged.
    pub fn decrypt(&mut self, key: &Vec<u8>) -> (r: Result<(), CryptoError>)
        ensures
            final(self).username == old(self).username,
            r is Err ==> final(self).message == old(self).message,
            key@.len() != 32 ==> r == Err::<(), CryptoError>(CryptoError::InvalidKeyLength),
            r is Ok ==> key@.len() == 32 && old(self).message@.len() >= 16 && Some(
                final(self).message@,
            ) == cbc_decrypt_of(
                old(self).message@.subrange(0, old(self).message@.len() - 16),
                key@,
                old(self).message@.subrange(
                    old(self).message@.len() - 16,
                    old(self).message@.len() as int,
                ),
            ),
            forall|plain: Seq<u8>, iv: Seq<u8>|
                iv.len() == 16 && key@.len() == 32 && old(self).message@ == #[trigger]
                    cbc_encrypt_of(plain, key@, iv) + iv ==> (r is Ok && final(self).message@
                    == plain),
    {
        let res = decrypt_data(&self.message, key);
        proof {
            let m = self.message@;
            assert forall|plain: Seq<u8>, iv: Seq<u8>|
                iv.len() == 16 && key@.len() == 32 && m == #[trigger] cbc_encrypt_of(
                    plain,
                    key@,
                    iv,
                ) + iv implies res is Ok && (res->Ok_0)@ == plain by {
                assert(m.subrange(0, m.len() - 16) =~= cbc_encrypt_of(plain, key@, iv));
                assert(m.subrange(m.len() - 16, m.len() as int) =~= iv);
            }
        }
        match res {
            Ok(p) => {
                self.message = p;
                Ok(())
            },
            Err(e) => Err(e),
        }
    }

    fn sentinel() -> (r: MessagePayload)
        ensures
            r.username@ == Seq::<char>::empty(),
            r.message@ == spec_chat_sentinel_body(),
    {
        let mut body: Vec<u8> = Vec::new();
        let mut i: usize = 0;
        while i < 8
            invariant
                i <= 8,
                body@.len() == i,
                forall|j: int| 0 <= j < i ==> body@[j] == 48u8,
            decreases 8 - i,
        {
            body.push(48u8);
            i = i + 1;
        }
        proof {
            assert(body@ =~= spec_chat_sentinel_body());
        }
        MessagePayload { username: String::new(), message: body }
    }
}

} // verus!
