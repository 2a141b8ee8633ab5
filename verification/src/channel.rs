//! Chat channels: a named room with member identifiers and an in-memory
//! window of the most recent chat messages, capped at one hundred.  The
//! oldest message is evicted when the cap is reached and handed back to the
//! caller, which may persist it elsewhere.

use crate::message::{Message, MessageType};
use vstd::prelude::*;
use vstd::string::StringExecFns;

verus! {

/// A chat room.
pub struct Channel {
    pub name: String,
    pub users: Vec<u64>,
    pub messages: Vec<Message>,
    pub max_messages: usize,
    pub backup_messages: bool,
}

impl Channel {
    /// A fresh empty channel with the default cap.
    pub fn new(name: String) -> (r: Channel)
        ensures
            r.name == name,
            r.users@.len() == 0,
            r.messages@.len() == 0,
            r.max_messages == 100,
            r.backup_messages,
    {
        Channel {
            name,
            users: Vec::new(),
            messages: Vec::new(),
            max_messages: 100,
            backup_messages: true,
        }
    }

    /// Adds a member.
    pub fn add_user(&mut self, user: u64)
        ensures
            final(self).users@ == old(self).users@.push(user),
            final(self).name == old(self).name,
            final(self).messages == old(self).messages,
            final(self).max_messages == old(self).max_messages,
            final(self).backup_messages == old(self).backup_messages,
    {
        self.users.push(user);
    }

    /// Removes every occurrence of a member.
    #[verifier::loop_isolation(false)]
    pub fn remove_user(&mut self, user: u64)
        ensures
            final(self).users@ == old(self).users@.filter(|x: u64| x != user),
            final(self).name == old(self).name,
            final(self).messages == old(self).messages,
            final(self).max_messages == old(self).max_messages,
            final(self).backup_messages == old(self).backup_messages,
    {
        let ghost pred = |x: u64| x != user;
        let mut kept: Vec<u64> = Vec::new();
        let mut i: usize = 0;
        proof {
            assert(old(self).users@.subrange(0, 0).filter(pred) =~= kept@);
        }
        while i < self.users.len()
            invariant
                i <= self.users@.len(),
                self == old(self),
                kept@ == old(self).users@.subrange(0, i as int).filter(pred),
            decreases self.users@.len() - i,
        {
            let x = self.users[i];
            if x != user {
                kept.push(x);
            }
            i = i + 1;
            proof {
                reveal_with_fuel(Seq::filter, 2);
                let pre = old(self).users@.subrange(0, i - 1);
                let cur = old(self).users@.subrange(0, i as int);
                assert(cur.drop_last() =~= pre);
                assert(cur.last() == x);
                assert(pred(x) == (x != user));
                assert(cur.filter(pred) == if pred(x) {
                    pre.filter(pred).push(x)
                } else {
                    pre.filter(pred)
                });
                assert(kept@ == cur.filter(pred));
            }
        }
        proof {
            assert(old(self).users@.subrange(0, old(self).users@.len() as int) =~= old(
                self,
            ).users@);
        }
        self.users = kept;
    }

    /// Appends a chat message to the in-memory window.  Messages of any other
    /// kind are ignored.  When the window already holds one hundred messages,
    /// the oldest is evicted first and handed back for persistence.
    pub fn add_message(&mut self, message: Message) -> (evicted: Option<Message>)
        ensures
            final(self).name == old(self).name,
            final(self).users == old(self).users,
            final(self).max_messages == old(self).max_messages,
            final(self).backup_messages == old(self).backup_messages,
            !(message.message_type is Message) ==> final(self).messages == old(self).messages
                && evicted is None,
            message.message_type is Message && old(self).messages@.len() != 100 ==> final(self).messages@ == old(self).messages@.push(message) && evicted is None,
            message.message_type is Message && old(self).messages@.len() == 100 ==> final(self).messages@ == old(self).messages@.subrange(1, 100).push(message) && evicted == Some(old(self).messages@[0]),
    {
        if !matches!(message.message_type, MessageType::Message) {
            return None;
        }
        let mut evicted: Option<Message> = None;
        if self.messages.len() == 100 {
            let first = self.messages.remove(0);
            evicted = Some(first);
        }
        self.messages.push(message);
        evicted
    }

    /// Clears the in-memory message window.
    pub fn refresh_messages(&mut self)
        ensures
            final(self).messages@.len() == 0,
            final(self).name == old(self).name,
            final(self).users == old(self).users,
            final(self).max_messages == old(self).max_messages,
            final(self).backup_messages == old(self).backup_messages,
    {
        self.messages = Vec::new();
    }
}

/// The two channels a fresh server starts with: `general` and `random`, both
/// empty, with the default cap and backups on.
pub fn get_default_channels() -> (r: Vec<Channel>)
    ensures
        r@.len() == 2,
        r@[0].name@ == "general"@,
        r@[1].name@ == "random"@,
        r@[0].messages@.len() == 0,
        r@[1].messages@.len() == 0,
        r@[0].users@.len() == 0,
        r@[1].users@.len() == 0,
        r@[0].max_messages == 100,
        r@[1].max_messages == 100,
        r@[0].backup_messages,
        r@[1].backup_messages,
{
    let mut channels: Vec<Channel> = Vec::new();
    channels.push(Channel::new(String::from_str("general")));
    channels.push(Channel::new(String::from_str("random")));
    channels
}

} // verus!
