//! The durable store: chats, messages, notifications and profiles, addressed
//! by opaque 64-bit identifiers handed out by a single counter. All mutation
//! goes through the engine operations, which keep the store well-formed:
//! identifiers are strictly increasing within each collection and below the
//! counter, profiles are unique by user and by username, and every message is
//! structurally consistent.

use vstd::prelude::*;
use crate::model::{Chat, Message, Notification, Profile};
use crate::strutil::{lowercase, lower_of, str_eq};

verus! {

/// How an operation is rejected: invalid input, missing authority, or a
/// missing record. Dependency failures live outside this core: the store is
/// the authority, so its operations fail for these reasons alone.
#[derive(Clone, Copy, Debug, PartialEq, Eq, Structural)]
pub enum EngineError {
    BadRequest,
    Forbidden,
    NotFound,
}

/// The collections of the messaging core.
pub struct Store {
    pub chats: Vec<Chat>,
    pub messages: Vec<Message>,
    pub notifications: Vec<Notification>,
    pub profiles: Vec<Profile>,
    pub next_id: u64,
}

/// Identifiers of chats are strictly increasing and below the counter.
pub open spec fn chat_ids_ok(chats: Seq<Chat>, next_id: u64) -> bool {
    &&& forall|i: int, j: int| 0 <= i < j < chats.len() ==> chats[i].id < chats[j].id
    &&& forall|i: int| 0 <= i < chats.len() ==> chats[i].id < next_id
}

/// Identifiers of messages are strictly increasing and below the counter.
pub open spec fn message_ids_ok(msgs: Seq<Message>, next_id: u64) -> bool {
    &&& forall|i: int, j: int| 0 <= i < j < msgs.len() ==> msgs[i].id < msgs[j].id
    &&& forall|i: int| 0 <= i < msgs.len() ==> msgs[i].id < next_id
}

/// Identifiers of notifications are strictly increasing and below the counter.
pub open spec fn notification_ids_ok(ns: Seq<Notification>, next_id: u64) -> bool {
    &&& forall|i: int, j: int| 0 <= i < j < ns.len() ==> ns[i].id < ns[j].id
    &&& forall|i: int| 0 <= i < ns.len() ==> ns[i].id < next_id
}

/// The first profile with the given user id, if any.
pub open spec fn profile_for(ps: Seq<Profile>, user_id: u64) -> Option<Profile>
    decreases ps.len(),
{
    if ps.len() == 0 {
        None
    } else if ps[0].user_id == user_id {
        Some(ps[0])
    } else {
        profile_for(ps.drop_first(), user_id)
    }
}

/// `profile_for` returns the first matching profile.
pub proof fn lemma_profile_for_first(ps: Seq<Profile>, user_id: u64, i: int)
    requires
        0 <= i < ps.len(),
        ps[i].user_id == user_id,
        forall|j: int| 0 <= j < i ==> ps[j].user_id != user_id,
    ensures
        profile_for(ps, user_id) == Some(ps[i]),
    decreases ps.len(),
{
    if i == 0 {
    } else {
        lemma_profile_for_first(ps.drop_first(), user_id, i - 1);
    }
}

/// `profile_for` finds nothing when no profile matches.
pub proof fn lemma_profile_for_none(ps: Seq<Profile>, user_id: u64)
    requires
        forall|j: int| 0 <= j < ps.len() ==> ps[j].user_id != user_id,
    ensures
        profile_for(ps, user_id) is None,
    decreases ps.len(),
{
    if ps.len() == 0 {
    } else {
        lemma_profile_for_none(ps.drop_first(), user_id);
    }
}

/// The first chat with the given id, if any.
pub open spec fn chat_for(cs: Seq<Chat>, chat_id: u64) -> Option<Chat>
    decreases cs.len(),
{
    if cs.len() == 0 {
        None
    } else if cs[0].id == chat_id {
        Some(cs[0])
    } else {
        chat_for(cs.drop_first(), chat_id)
    }
}

/// `chat_for` returns the first matching chat.
pub proof fn lemma_chat_for_first(cs: Seq<Chat>, chat_id: u64, i: int)
    requires
        0 <= i < cs.len(),
        cs[i].id == chat_id,
        forall|j: int| 0 <= j < i ==> cs[j].id != chat_id,
    ensures
        chat_for(cs, chat_id) == Some(cs[i]),
    decreases cs.len(),
{
    if i == 0 {
    } else {
        lemma_chat_for_first(cs.drop_first(), chat_id, i - 1);
    }
}

/// `chat_for` finds nothing when no chat matches.
pub proof fn lemma_chat_for_none(cs: Seq<Chat>, chat_id: u64)
    requires
        forall|j: int| 0 <= j < cs.len() ==> cs[j].id != chat_id,
    ensures
        chat_for(cs, chat_id) is None,
    decreases cs.len(),
{
    if cs.len() == 0 {
    } else {
        lemma_chat_for_none(cs.drop_first(), chat_id);
    }
}

/// Under the store invariant the chat at any index is the one its id finds.
pub proof fn lemma_chat_for_at(cs: Seq<Chat>, next_id: u64, i: int)
    requires
        chat_ids_ok(cs, next_id),
        0 <= i < cs.len(),
    ensures
        chat_for(cs, cs[i].id) == Some(cs[i]),
{
    assert(forall|j: int| 0 <= j < i ==> cs[j].id != cs[i].id);
    lemma_chat_for_first(cs, cs[i].id, i);
}

/// The first message with the given id, if any.
pub open spec fn message_for(ms: Seq<Message>, msg_id: u64) -> Option<Message>
    decreases ms.len(),
{
    if ms.len() == 0 {
        None
    } else if ms[0].id == msg_id {
        Some(ms[0])
    } else {
        message_for(ms.drop_first(), msg_id)
    }
}

/// `message_for` returns the first matching message.
pub proof fn lemma_message_for_first(ms: Seq<Message>, msg_id: u64, i: int)
    requires
        0 <= i < ms.len(),
        ms[i].id == msg_id,
        forall|j: int| 0 <= j < i ==> ms[j].id != msg_id,
    ensures
        message_for(ms, msg_id) == Some(ms[i]),
    decreases ms.len(),
{
    if i > 0 {
        lemma_message_for_first(ms.drop_first(), msg_id, i - 1);
    }
}

/// `message_for` finds nothing when no message matches.
pub proof fn lemma_message_for_none(ms: Seq<Message>, msg_id: u64)
    requires
        forall|j: int| 0 <= j < ms.len() ==> ms[j].id != msg_id,
    ensures
        message_for(ms, msg_id) is None,
    decreases ms.len(),
{
    if ms.len() > 0 {
        lemma_message_for_none(ms.drop_first(), msg_id);
    }
}

/// The first profile with the given username, if any.
pub open spec fn profile_for_username(ps: Seq<Profile>, name: Seq<char>) -> Option<Profile>
    decreases ps.len(),
{
    if ps.len() == 0 {
        None
    } else if ps[0].username@ == name {
        Some(ps[0])
    } else {
        profile_for_username(ps.drop_first(), name)
    }
}

/// `profile_for_username` returns the first matching profile.
pub proof fn lemma_profile_for_username_first(ps: Seq<Profile>, name: Seq<char>, i: int)
    requires
        0 <= i < ps.len(),
        ps[i].username@ == name,
        forall|j: int| 0 <= j < i ==> ps[j].username@ != name,
    ensures
        profile_for_username(ps, name) == Some(ps[i]),
    decreases ps.len(),
{
    if i > 0 {
        lemma_profile_for_username_first(ps.drop_first(), name, i - 1);
    }
}

/// `profile_for_username` finds nothing when no profile matches.
pub proof fn lemma_profile_for_username_none(ps: Seq<Profile>, name: Seq<char>)
    requires
        forall|j: int| 0 <= j < ps.len() ==> ps[j].username@ != name,
    ensures
        profile_for_username(ps, name) is None,
    decreases ps.len(),
{
    if ps.len() > 0 {
        lemma_profile_for_username_none(ps.drop_first(), name);
    }
}

/// The first profile whose username matches up to case, if any.
pub open spec fn profile_for_username_ci(ps: Seq<Profile>, name: Seq<char>) -> Option<Profile>
    decreases ps.len(),
{
    if ps.len() == 0 {
        None
    } else if lower_of(ps[0].username@) == lower_of(name) {
        Some(ps[0])
    } else {
        profile_for_username_ci(ps.drop_first(), name)
    }
}

/// `profile_for_username_ci` returns the first matching profile.
pub proof fn lemma_profile_for_username_ci_first(ps: Seq<Profile>, name: Seq<char>, i: int)
    requires
        0 <= i < ps.len(),
        lower_of(ps[i].username@) == lower_of(name),
        forall|j: int| 0 <= j < i ==> lower_of(ps[j].username@) != lower_of(name),
    ensures
        profile_for_username_ci(ps, name) == Some(ps[i]),
    decreases ps.len(),
{
    if i > 0 {
        lemma_profile_for_username_ci_first(ps.drop_first(), name, i - 1);
    }
}

/// `profile_for_username_ci` finds nothing when no profile matches.
pub proof fn lemma_profile_for_username_ci_none(ps: Seq<Profile>, name: Seq<char>)
    requires
        forall|j: int| 0 <= j < ps.len() ==> lower_of(ps[j].username@) != lower_of(name),
    ensures
        profile_for_username_ci(ps, name) is None,
    decreases ps.len(),
{
    if ps.len() > 0 {
        lemma_profile_for_username_ci_none(ps.drop_first(), name);
    }
}

/// Inserting an element anywhere adds exactly it to the sequence's multiset.
pub proof fn lemma_to_multiset_insert<A>(s: Seq<A>, p: int, x: A)
    requires
        0 <= p <= s.len(),
    ensures
        s.insert(p, x).to_multiset() =~= s.to_multiset().insert(x),
{
    broadcast use vstd::seq_lib::group_to_multiset_ensures;

    let t = s.insert(p, x);
    assert(t.remove(p) =~= s);
    assert(t[p] == x);
    assert(t.remove(p).to_multiset() =~= t.to_multiset().remove(t[p]));
    assert(t.contains(x));
    assert(t.to_multiset().count(x) > 0);
    assert(t.to_multiset() =~= t.to_multiset().remove(x).insert(x));
}

/// Profiles are unique by user id and by username.
pub open spec fn profiles_ok(ps: Seq<Profile>) -> bool {
    forall|i: int, j: int|
        0 <= i < j < ps.len() ==> ps[i].user_id != ps[j].user_id && ps[i].username@
            != ps[j].username@
}

impl Store {
    /// Well-formedness of the whole store.
    pub open spec fn wf(&self) -> bool {
        &&& chat_ids_ok(self.chats@, self.next_id)
        &&& message_ids_ok(self.messages@, self.next_id)
        &&& notification_ids_ok(self.notifications@, self.next_id)
        &&& profiles_ok(self.profiles@)
        &&& forall|i: int| 0 <= i < self.messages@.len() ==> self.messages@[i].wf()
    }

    /// An empty store.
    pub fn new() -> (s: Store)
        ensures
            s.wf(),
            s.chats@ == Seq::<Chat>::empty(),
            s.messages@ == Seq::<Message>::empty(),
            s.notifications@ == Seq::<Notification>::empty(),
            s.profiles@ == Seq::<Profile>::empty(),
            s.next_id == 1,
    {
        Store {
            chats: Vec::new(),
            messages: Vec::new(),
            notifications: Vec::new(),
            profiles: Vec::new(),
            next_id: 1,
        }
    }

    /// The index of the chat with the given id, if any.
    pub fn find_chat(&self, chat_id: u64) -> (r: Option<usize>)
        ensures
            match r {
                Some(i) => i < self.chats@.len() && self.chats@[i as int].id == chat_id
                    && chat_for(self.chats@, chat_id) == Some(self.chats@[i as int]),
                None => forall|j: int| 0 <= j < self.chats@.len() ==> self.chats@[j].id != chat_id,
            },
            r is None ==> chat_for(self.chats@, chat_id) is None,
    {
        let mut i: usize = 0;
        while i < self.chats.len()
            invariant
                i <= self.chats@.len(),
                forall|j: int| 0 <= j < i ==> self.chats@[j].id != chat_id,
            decreases self.chats@.len() - i,
        {
            if self.chats[i].id == chat_id {
                proof {
                    lemma_chat_for_first(self.chats@, chat_id, i as int);
                }
                return Some(i);
            }
            i = i + 1;
        }
        proof {
            lemma_chat_for_none(self.chats@, chat_id);
        }
        None
    }

    /// The index of the message with the given id, if any.
    pub fn find_message(&self, msg_id: u64) -> (r: Option<usize>)
        ensures
            match r {
                Some(i) => i < self.messages@.len() && self.messages@[i as int].id == msg_id
                    && message_for(self.messages@, msg_id) == Some(self.messages@[i as int]),
                None => forall|j: int|
                    0 <= j < self.messages@.len() ==> self.messages@[j].id != msg_id,
            },
            r is None ==> message_for(self.messages@, msg_id) is None,
    {
        let mut i: usize = 0;
        while i < self.messages.len()
            invariant
                i <= self.messages@.len(),
                forall|j: int| 0 <= j < i ==> self.messages@[j].id != msg_id,
            decreases self.messages@.len() - i,
        {
            if self.messages[i].id == msg_id {
                proof {
                    lemma_message_for_first(self.messages@, msg_id, i as int);
                }
                return Some(i);
            }
            i = i + 1;
        }
        proof {
            lemma_message_for_none(self.messages@, msg_id);
        }
        None
    }

    /// The index of the profile of the given user, if any.
    pub fn find_profile(&self, user_id: u64) -> (r: Option<usize>)
        ensures
            match r {
                Some(i) => i < self.profiles@.len() && self.profiles@[i as int].user_id == user_id
                    && profile_for(self.profiles@, user_id) == Some(self.profiles@[i as int]),
                None => forall|j: int|
                    0 <= j < self.profiles@.len() ==> self.profiles@[j].user_id != user_id,
            },
            r is None ==> profile_for(self.profiles@, user_id) is None,
    {
        let mut i: usize = 0;
        while i < self.profiles.len()
            invariant
                i <= self.profiles@.len(),
                forall|j: int| 0 <= j < i ==> self.profiles@[j].user_id != user_id,
            decreases self.profiles@.len() - i,
        {
            if self.profiles[i].user_id == user_id {
                proof {
                    lemma_profile_for_first(self.profiles@, user_id, i as int);
                }
                return Some(i);
            }
            i = i + 1;
        }
        proof {
            lemma_profile_for_none(self.profiles@, user_id);
        }
        None
    }

    /// The index of the first profile whose username matches exactly.
    pub fn find_profile_by_username(&self, username: &String) -> (r: Option<usize>)
        ensures
            match r {
                Some(i) => i < self.profiles@.len() && self.profiles@[i as int].username@
                    == username@ && profile_for_username(self.profiles@, username@) == Some(
                    self.profiles@[i as int],
                ),
                None => forall|j: int|
                    0 <= j < self.profiles@.len() ==> self.profiles@[j].username@ != username@,
            },
            r is None ==> profile_for_username(self.profiles@, username@) is None,
    {
        let mut i: usize = 0;
        while i < self.profiles.len()
            invariant
                i <= self.profiles@.len(),
                forall|j: int| 0 <= j < i ==> self.profiles@[j].username@ != username@,
            decreases self.profiles@.len() - i,
        {
            if str_eq(&self.profiles[i].username, username) {
                proof {
                    lemma_profile_for_username_first(self.profiles@, username@, i as int);
                }
                return Some(i);
            }
            i = i + 1;
        }
        proof {
            lemma_profile_for_username_none(self.profiles@, username@);
        }
        None
    }

    /// The index of the first profile whose username matches up to case.
    pub fn find_profile_by_username_ci(&self, username: &String) -> (r: Option<usize>)
        ensures
            match r {
                Some(i) => i < self.profiles@.len() && lower_of(
                    self.profiles@[i as int].username@,
                ) == lower_of(username@) && profile_for_username_ci(self.profiles@, username@)
                    == Some(self.profiles@[i as int]),
                None => forall|j: int|
                    0 <= j < self.profiles@.len() ==> lower_of(self.profiles@[j].username@)
                        != lower_of(username@),
            },
            r is None ==> profile_for_username_ci(self.profiles@, username@) is None,
    {
        let wanted = lowercase(username.as_str());
        let mut i: usize = 0;
        while i < self.profiles.len()
            invariant
                wanted@ == lower_of(username@),
                i <= self.profiles@.len(),
                forall|j: int|
                    0 <= j < i ==> lower_of(self.profiles@[j].username@) != lower_of(username@),
            decreases self.profiles@.len() - i,
        {
            let candidate = lowercase(self.profiles[i].username.as_str());
            if str_eq(&candidate, &wanted) {
                proof {
                    lemma_profile_for_username_ci_first(self.profiles@, username@, i as int);
                }
                return Some(i);
            }
            i = i + 1;
        }
        proof {
            lemma_profile_for_username_ci_none(self.profiles@, username@);
        }
        None
    }

    /// Adds a profile; rejected when the user id or username is taken.
    pub fn add_profile(&mut self, p: Profile) -> (r: bool)
        requires
            old(self).wf(),
        ensures
            final(self).wf(),
            r == (forall|j: int|
                0 <= j < old(self).profiles@.len() ==> old(self).profiles@[j].user_id != p.user_id
                    && old(self).profiles@[j].username@ != p.username@),
            r ==> final(self).profiles@ == old(self).profiles@.push(p),
            !r ==> final(self).profiles@ == old(self).profiles@,
            final(self).chats@ == old(self).chats@,
            final(self).messages@ == old(self).messages@,
            final(self).notifications@ == old(self).notifications@,
            final(self).next_id == old(self).next_id,
    {
        if self.profile_conflicts(&p) {
            false
        } else {
            self.profiles.push(p);
            true
        }
    }

    /// Whether some existing profile already uses this user id or username.
    fn profile_conflicts(&self, p: &Profile) -> (r: bool)
        ensures
            r == !(forall|j: int|
                0 <= j < self.profiles@.len() ==> self.profiles@[j].user_id != p.user_id
                    && self.profiles@[j].username@ != p.username@),
    {
        let mut i: usize = 0;
        while i < self.profiles.len()
            invariant
                i <= self.profiles@.len(),
                forall|j: int|
                    0 <= j < i ==> self.profiles@[j].user_id != p.user_id
                        && self.profiles@[j].username@ != p.username@,
            decreases self.profiles@.len() - i,
        {
            if self.profiles[i].user_id == p.user_id || str_eq(
                &self.profiles[i].username,
                &p.username,
            ) {
                return true;
            }
            i = i + 1;
        }
        false
    }
}

} // verus!
