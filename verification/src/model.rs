//! Data model of the messaging core: chats, messages with their rich payload
//! variants, reactions, notifications and profiles. Coordinates and times are
//! held as plain integers (microdegrees, milliseconds since the epoch);
//! identifiers are opaque 64-bit values rendered as hex where text is needed.

use vstd::prelude::*;

verus! {

/// A shared place, as part of a message or on a profile. Coordinates are in
/// microdegrees so the model stays within plain integers.
pub struct Location {
    pub latitude_microdeg: i64,
    pub longitude_microdeg: i64,
    pub label: Option<String>,
    pub is_live: Option<bool>,
    pub expires_at: Option<i64>,
}

/// A contact card attached to a message.
pub struct Contact {
    pub username: String,
    pub full_name: Option<String>,
    pub avatar_url: Option<String>,
}

/// One poll choice and the users who currently vote for it.
pub struct PollOption {
    pub text: String,
    pub voter_ids: Vec<u64>,
}

/// A poll carried by a message.
pub struct Poll {
    pub question: String,
    pub options: Vec<PollOption>,
    pub is_multiple: bool,
    pub is_closed: bool,
    pub created_at: i64,
}

/// One (user, emoji) reaction on a message.
pub struct MessageReaction {
    pub user_id: u64,
    pub emoji: String,
    pub created_at: i64,
}

/// The primary rich payload of a message: plain text (possibly with an
/// attachment), or exactly one of a poll, a location or a contact card.
pub enum RichPayload {
    Plain,
    Poll(Poll),
    Location(Location),
    Contact(Contact),
}

/// One unit of chat content.
pub struct Message {
    pub id: u64,
    pub chat_id: u64,
    pub sender_id: u64,
    pub content: String,
    pub encrypted_content: Option<String>,
    pub encryption_iv: Option<String>,
    pub attachment_url: Option<String>,
    pub attachment_type: Option<String>,
    pub reply_to_id: Option<u64>,
    pub reactions: Vec<MessageReaction>,
    pub is_deleted: bool,
    pub deleted_at: Option<i64>,
    pub read_at: Option<i64>,
    pub payload: RichPayload,
    pub is_view_once: bool,
    pub viewed_at: Option<i64>,
    pub expires_at: Option<i64>,
    pub created_at: i64,
}

/// A 1:1 or group conversation container.
pub struct Chat {
    pub id: u64,
    pub participants: Vec<u64>,
    pub is_group: bool,
    pub name: Option<String>,
    pub avatar_url: Option<String>,
    pub admins: Vec<u64>,
    pub last_message: Option<String>,
    pub last_message_time: i64,
    pub disappearing_duration: Option<i64>,
    pub created_at: i64,
}

/// A durable notification record addressed to one recipient.
pub struct Notification {
    pub id: u64,
    pub user_id: u64,
    pub actor_id: u64,
    pub notification_type: String,
    pub target_id: Option<u64>,
    pub content: String,
    pub is_read: bool,
    pub created_at: i64,
}

/// The profile data this core reads: identity, verification, block and mute
/// lists, and the durable last-seen state.
pub struct Profile {
    pub user_id: u64,
    pub username: String,
    pub full_name: Option<String>,
    pub avatar_url: Option<String>,
    pub public_key: Option<String>,
    pub is_verified: bool,
    pub blocked_users: Vec<u64>,
    pub muted_chats: Vec<u64>,
    pub last_seen_at: Option<i64>,
    pub last_location: Option<Location>,
}

/// The state a message is in when read at time `now`, derived from the stored
/// nullable fields so callers never branch on raw nulls.
#[derive(Clone, Copy, Debug, PartialEq, Eq, Structural)]
pub enum MessageState {
    Active,
    Deleted,
    Expired,
}

/// Whether the message's lifetime, fixed at send time, has passed.
pub open spec fn spec_is_expired(m: Message, now: i64) -> bool {
    match m.expires_at {
        Some(t) => t < now,
        None => false,
    }
}

/// The derived read-time state: expiry wins over deletion, since expired
/// messages are filtered out of every read path.
pub open spec fn spec_message_state(m: Message, now: i64) -> MessageState {
    if spec_is_expired(m, now) {
        MessageState::Expired
    } else if m.is_deleted {
        MessageState::Deleted
    } else {
        MessageState::Active
    }
}

impl Message {
    /// The derived state of this message when read at time `now`.
    pub fn state(&self, now: i64) -> (s: MessageState)
        ensures
            s == spec_message_state(*self, now),
    {
        let expired = match self.expires_at {
            Some(t) => t < now,
            None => false,
        };
        if expired {
            MessageState::Expired
        } else if self.is_deleted {
            MessageState::Deleted
        } else {
            MessageState::Active
        }
    }

    /// Structural consistency of one message: the deletion flag and timestamp
    /// agree, only view-once messages carry a viewed time, and reactions are
    /// unique per (user, emoji).
    pub open spec fn wf(&self) -> bool {
        &&& self.is_deleted <==> self.deleted_at is Some
        &&& self.viewed_at is Some ==> self.is_view_once
        &&& reactions_unique(self.reactions@)
    }
}

/// Whether a reaction by `user` with `emoji` is present.
pub open spec fn has_reaction(rs: Seq<MessageReaction>, user: u64, emoji: Seq<char>) -> bool {
    exists|i: int| 0 <= i < rs.len() && rs[i].user_id == user && rs[i].emoji@ == emoji
}

/// Reactions are a toggle, not a counter: at most one per (user, emoji).
pub open spec fn reactions_unique(rs: Seq<MessageReaction>) -> bool {
    forall|i: int, j: int|
        0 <= i < j < rs.len() ==> !(rs[i].user_id == rs[j].user_id && rs[i].emoji@ == rs[j].emoji@)
}

/// Whether `target` is on `p`'s block list.
pub open spec fn spec_has_blocked(p: Profile, target: u64) -> bool {
    p.blocked_users@.contains(target)
}

impl Profile {
    /// Whether this profile's owner has blocked `target`.
    pub fn has_blocked(&self, target: u64) -> (r: bool)
        ensures
            r == spec_has_blocked(*self, target),
    {
        contains_u64(&self.blocked_users, target)
    }
}

/// Linear membership test on a vector of identifiers.
pub fn contains_u64(v: &Vec<u64>, x: u64) -> (r: bool)
    ensures
        r == v@.contains(x),
{
    let mut i: usize = 0;
    while i < v.len()
        invariant
            i <= v@.len(),
            forall|j: int| 0 <= j < i ==> v@[j] != x,
        decreases v@.len() - i,
    {
        if v[i] == x {
            return true;
        }
        i = i + 1;
    }
    false
}

} // verus!
