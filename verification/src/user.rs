//! The `User` identity record: a minted identifier, a self-asserted username
//! and a 32-byte Curve25519 public key, with its wire codec.
//!
//! Decoding never fails: a malformed record yields the sentinel user named
//! `"Unknown"`, which the handshake treats as a failed identity parse.

use crate::codec::{
    copy_range, lemma_u64_bytes_roundtrip, push_bytes, push_u64_be, read_u64_be, spec_bytes_to_u64,
    spec_u64_to_bytes, string_from_utf8,
};
use crate::crypt::{create_public_key, public_of, PrivateKey, PublicKey};
use crate::id::{create_id, spec_compose_id, spec_id_tag, IdType};
use vstd::prelude::*;
use vstd::string::{StrSliceExecFns, StringExecFns};
use vstd::utf8::{decode_utf8, encode_utf8, encode_utf8_decode_utf8, encode_utf8_valid_utf8,
    valid_utf8};

verus! {

/// A user identity.
#[derive(Debug, Clone)]
pub struct User {
    pub id: u64,
    pub username: String,
    pub public_key: Vec<u8>,
}

/// Mathematical value of a `User`.
pub ghost struct UserView {
    pub id: u64,
    pub username: Seq<char>,
    pub public_key: Seq<u8>,
}

impl View for User {
    type V = UserView;

    open spec fn view(&self) -> UserView {
        UserView { id: self.id, username: self.username@, public_key: self.public_key@ }
    }
}

/// Two identities are the same user exactly when their identifiers match;
/// username and key may differ across renames and records.
impl PartialEq for User {
    fn eq(&self, other: &User) -> bool {
        self.id == other.id
    }
}

impl vstd::std_specs::cmp::PartialEqSpecImpl for User {
    open spec fn obeys_eq_spec() -> bool {
        true
    }

    open spec fn eq_spec(&self, other: &User) -> bool {
        self.id == other.id
    }
}

/// An identity the codec is meant for: a 32-byte public key and a username
/// whose UTF-8 encoding fits the length field.
pub open spec fn spec_user_wf(u: UserView) -> bool {
    &&& u.public_key.len() == 32
    &&& encode_utf8(u.username).len() <= 0xffffffffffffffff
}

/// The record encoding of an identity: identifier (8 bytes big-endian), the
/// username's UTF-8 length (8 bytes big-endian), the username's UTF-8 bytes,
/// then the 32 public-key bytes.
pub open spec fn spec_encode_user(u: UserView) -> Seq<u8> {
    spec_u64_to_bytes(u.id) + spec_u64_to_bytes(encode_utf8(u.username).len() as u64)
        + encode_utf8(u.username) + u.public_key
}

/// Whether a byte string is a well-formed identity record.
pub open spec fn spec_valid_user(b: Seq<u8>) -> bool {
    &&& b.len() >= 48
    &&& 16 + spec_bytes_to_u64(b.subrange(8, 16)) + 32 == b.len()
    &&& valid_utf8(b.subrange(16, 16 + spec_bytes_to_u64(b.subrange(8, 16)) as int))
}

/// The identity read back from a well-formed record.
pub open spec fn spec_decode_user(b: Seq<u8>) -> UserView
    recommends
        spec_valid_user(b),
{
    let n = spec_bytes_to_u64(b.subrange(8, 16)) as int;
    UserView {
        id: spec_bytes_to_u64(b.subrange(0, 8)),
        username: decode_utf8(b.subrange(16, 16 + n)),
        public_key: b.subrange(16 + n, b.len() as int),
    }
}

/// Round-trip: every well-formed identity decodes from its own encoding back
/// to itself.
pub proof fn lemma_user_roundtrip(u: UserView)
    requires
        spec_user_wf(u),
    ensures
        spec_valid_user(spec_encode_user(u)),
        spec_decode_user(spec_encode_user(u)) == u,
{
    let n = encode_utf8(u.username);
    let e = spec_encode_user(u);
    assert(e.len() == 16 + n.len() + 32);
    assert(e.subrange(0, 8) =~= spec_u64_to_bytes(u.id));
    assert(e.subrange(8, 16) =~= spec_u64_to_bytes(n.len() as u64));
    lemma_u64_bytes_roundtrip(u.id);
    lemma_u64_bytes_roundtrip(n.len() as u64);
    assert(e.subrange(16, 16 + n.len() as int) =~= n);
    assert(e.subrange(16 + n.len() as int, e.len() as int) =~= u.public_key);
    encode_utf8_valid_utf8(u.username);
    encode_utf8_decode_utf8(u.username);
}

impl User {
    /// Builds an identity with a freshly minted identifier: 48 bits of mint
    /// time, the user entity tag, and 14 random bits.
    pub fn new(username: String, public_key: Vec<u8>) -> (r: User)
        ensures
            r.username == username,
            r.public_key == public_key,
            exists|ts: u64, rnd: u64|
                ts < 0x1000000000000 && rnd < 0x4000 && r.id == spec_compose_id(
                    ts,
                    spec_id_tag(IdType::User),
                    rnd,
                ),
    {
        let id = create_id(IdType::User);
        User { id, username, public_key }
    }

    /// Builds an identity from all three fields.
    pub fn create_all(id: u64, username: String, public_key: Vec<u8>) -> (r: User)
        ensures
            r.id == id,
            r.username == username,
            r.public_key == public_key,
    {
        User { id, username, public_key }
    }

    /// Replaces the username, keeping identifier and public key.
    pub fn change_username(&mut self, username: String)
        ensures
            final(self).id == old(self).id,
            final(self).username == username,
            final(self).public_key == old(self).public_key,
    {
        self.username = username;
    }

    /// Encodes the identity as one record.
    pub fn to_bytes(&self) -> (r: Vec<u8>)
        ensures
            r@ == spec_encode_user(self@),
    {
        let ub = self.username.as_str().as_bytes_vec();
        let mut out: Vec<u8> = Vec::new();
        push_u64_be(&mut out, self.id);
        push_u64_be(&mut out, ub.len() as u64);
        push_bytes(&mut out, &ub);
        push_bytes(&mut out, &self.public_key);
        proof {
            assert(out@ =~= spec_encode_user(self@));
        }
        out
    }

    /// Decodes an identity record.  A malformed record is never an error: it
    /// yields a fresh sentinel user named `"Unknown"` with an empty key.
    pub fn from_bytes(bytes: Vec<u8>) -> (r: User)
        ensures
            spec_valid_user(bytes@) ==> r@ == spec_decode_user(bytes@),
            !spec_valid_user(bytes@) ==> r.username@ == "Unknown"@ && r.public_key@ == Seq::<
                u8,
            >::empty(),
    {
        let len = bytes.len();
        if len < 48 {
            return Self::sentinel();
        }
        let n = read_u64_be(&bytes, 8);
        if n != (len - 48) as u64 {
            return Self::sentinel();
        }
        let nn = n as usize;
        let useg = copy_range(&bytes, 16, nn);
        match string_from_utf8(useg) {
            Some(username) => {
                let id = read_u64_be(&bytes, 0);
                let public_key = copy_range(&bytes, 16 + nn, 32);
                proof {
                    assert(bytes@.subrange(16 + nn as int, bytes@.len() as int) =~= bytes@.subrange(
                        16 + nn as int,
                        16 + nn as int + 32,
                    ));
                }
                User { id, username, public_key }
            },
            None => Self::sentinel(),
        }
    }

    fn sentinel() -> (r: User)
        ensures
            r.username@ == "Unknown"@,
            r.public_key@ == Seq::<u8>::empty(),
    {
        User::new(String::from_str("Unknown"), Vec::new())
    }

    /// Reads a peer's public key out of its at most 32 transmitted bytes,
    /// zero-padding a short key at the end to the full width.
    pub fn deserialize_public_key(public_key: Vec<u8>) -> (r: PublicKey)
        requires
            public_key@.len() <= 32,
        ensures
            r.wf(),
            r.bytes@.subrange(0, public_key@.len() as int) == public_key@,
            forall|i: int| public_key@.len() <= i < 32 ==> r.bytes@[i] == 0u8,
    {
        let mut bytes = public_key;
        while bytes.len() < 32
            invariant
                bytes@.len() <= 32,
                bytes@.subrange(0, public_key@.len() as int) =~= public_key@,
                forall|i: int| public_key@.len() <= i < bytes@.len() ==> bytes@[i] == 0u8,
                bytes@.len() >= public_key@.len(),
            decreases 32 - bytes@.len(),
        {
            bytes.push(0u8);
        }
        PublicKey { bytes }
    }

    /// Derives the 32 public-key bytes of a private key.
    pub fn create_public_key(secret: &PrivateKey) -> (r: Vec<u8>)
        requires
            secret.wf(),
        ensures
            r@ == public_of(secret.bytes@),
            r@.len() == 32,
    {
        let public_key = crate::crypt::create_public_key(secret);
        public_key.bytes
    }
}

} // verus!
