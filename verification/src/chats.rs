//! Chat containers: creating direct chats and groups, and the group
//! administration operations, each restricted to a current admin. Changing
//! the disappearing policy only affects messages sent afterwards, since a
//! message's lifetime is fixed once at send time.

use vstd::prelude::*;
use crate::model::{Chat, Location, Profile};
use crate::store::{chat_for, profile_for_username, profile_for_username_ci, EngineError, Store};

verus! {

/// The first direct chat both users share, if any.
pub open spec fn direct_chat_between(cs: Seq<Chat>, a: u64, b: u64) -> Option<Chat>
    decreases cs.len(),
{
    if cs.len() == 0 {
        None
    } else if !cs[0].is_group && cs[0].participants@.contains(a) && cs[0].participants@.contains(b) {
        Some(cs[0])
    } else {
        direct_chat_between(cs.drop_first(), a, b)
    }
}

/// `direct_chat_between` returns the first match.
proof fn lemma_direct_chat_between_first(cs: Seq<Chat>, a: u64, b: u64, i: int)
    requires
        0 <= i < cs.len(),
        !cs[i].is_group && cs[i].participants@.contains(a) && cs[i].participants@.contains(b),
        forall|j: int|
            0 <= j < i ==> !(!cs[j].is_group && (#[trigger] cs[j].participants@).contains(a)
                && cs[j].participants@.contains(b)),
    ensures
        direct_chat_between(cs, a, b) == Some(cs[i]),
    decreases cs.len(),
{
    if i > 0 {
        lemma_direct_chat_between_first(cs.drop_first(), a, b, i - 1);
    }
}

/// `direct_chat_between` finds nothing when no chat matches.
proof fn lemma_direct_chat_between_none(cs: Seq<Chat>, a: u64, b: u64)
    requires
        forall|j: int|
            0 <= j < cs.len() ==> !(!cs[j].is_group && (#[trigger] cs[j].participants@).contains(a)
                && cs[j].participants@.contains(b)),
    ensures
        direct_chat_between(cs, a, b) is None,
    decreases cs.len(),
{
    if cs.len() > 0 {
        lemma_direct_chat_between_none(cs.drop_first(), a, b);
    }
}

/// The participant list a group request resolves to: the ids of the named
/// profiles, in order, each at most once, after the accumulated ones.
pub open spec fn resolved_members(ps: Seq<Profile>, names: Seq<String>, acc: Seq<u64>) -> Seq<u64>
    decreases names.len(),
{
    if names.len() == 0 {
        acc
    } else {
        let rest = names.drop_first();
        match profile_for_username(ps, names[0]@) {
            Some(p) => if acc.contains(p.user_id) {
                resolved_members(ps, rest, acc)
            } else {
                resolved_members(ps, rest, acc.push(p.user_id))
            },
            None => resolved_members(ps, rest, acc),
        }
    }
}

/// The ids added to a group for the given usernames: each resolvable name
/// whose user is not already a participant, in request order.
pub open spec fn added_member_ids(ps: Seq<Profile>, parts0: Seq<u64>, names: Seq<String>) -> Seq<
    u64,
>
    decreases names.len(),
{
    if names.len() == 0 {
        Seq::empty()
    } else {
        let rest = names.drop_first();
        let tail = added_member_ids(ps, parts0, rest);
        match profile_for_username(ps, names[0]@) {
            Some(p) => if parts0.contains(p.user_id) {
                tail
            } else {
                seq![p.user_id] + tail
            },
            None => tail,
        }
    }
}

/// The predicate a member must satisfy to survive removal of `user`.
pub open spec fn keeps_member(user: u64) -> spec_fn(u64) -> bool {
    |m: u64| m != user
}

/// The members left after removing `user`.
pub open spec fn without_member(ms: Seq<u64>, user: u64) -> Seq<u64> {
    ms.filter(keeps_member(user))
}

/// The members of `ms` without `user`, executably.
fn remove_member_vec(ms: &Vec<u64>, user: u64) -> (out: Vec<u64>)
    ensures
        out@ == without_member(ms@, user),
{
    let mut out: Vec<u64> = Vec::new();
    let mut i: usize = 0;
    proof {
        reveal(Seq::filter);
        assert(ms@.subrange(0, 0).filter(keeps_member(user)) =~= Seq::<u64>::empty());
    }
    while i < ms.len()
        invariant
            i <= ms@.len(),
            out@ == ms@.subrange(0, i as int).filter(keeps_member(user)),
        decreases ms@.len() - i,
    {
        if ms[i] != user {
            out.push(ms[i]);
        }
        proof {
            reveal(Seq::filter);
            let pre = ms@.subrange(0, i as int);
            let ext = ms@.subrange(0, i + 1);
            assert(ext.drop_last() =~= pre);
            assert(ext.last() == ms@[i as int]);
            assert(out@ =~= ext.filter(keeps_member(user)));
        }
        i = i + 1;
    }
    proof {
        assert(ms@.subrange(0, ms@.len() as int) =~= ms@);
    }
    out
}

impl Store {
    /// The index of the first direct chat both users share, if any.
    fn find_direct_chat(&self, a: u64, b: u64) -> (r: Option<usize>)
        ensures
            match r {
                Some(i) => i < self.chats@.len() && direct_chat_between(self.chats@, a, b) == Some(
                    self.chats@[i as int],
                ),
                None => direct_chat_between(self.chats@, a, b) is None,
            },
    {
        let mut i: usize = 0;
        while i < self.chats.len()
            invariant
                i <= self.chats@.len(),
                forall|j: int|
                    0 <= j < i ==> !(!self.chats@[j].is_group && (
                    #[trigger] self.chats@[j].participants@).contains(a)
                        && self.chats@[j].participants@.contains(b)),
            decreases self.chats@.len() - i,
        {
            let c = &self.chats[i];
            if !c.is_group && crate::model::contains_u64(&c.participants, a)
                && crate::model::contains_u64(&c.participants, b) {
                proof {
                    lemma_direct_chat_between_first(self.chats@, a, b, i as int);
                }
                return Some(i);
            }
            i = i + 1;
        }
        proof {
            lemma_direct_chat_between_none(self.chats@, a, b);
        }
        None
    }

    /// Creates the direct chat between the caller and the named user, or
    /// returns the one they already share. The recipient is found by
    /// username up to case; chatting with oneself is rejected. Returns the
    /// chat id and whether it was newly created.
    pub fn create_chat(&mut self, me: u64, recipient_username: &String, now: i64) -> (r: Result<
        (u64, bool),
        EngineError,
    >)
        requires
            old(self).wf(),
            old(self).next_id < u64::MAX,
        ensures
            final(self).wf(),
            final(self).messages@ == old(self).messages@,
            final(self).notifications@ == old(self).notifications@,
            final(self).profiles@ == old(self).profiles@,
            match r {
                Ok((chat_id, created)) => {
                    let rp = profile_for_username_ci(old(self).profiles@, recipient_username@);
                    &&& rp is Some
                    &&& rp->Some_0.user_id != me
                    &&& if created {
                        let c = final(self).chats@.last();
                        &&& direct_chat_between(old(self).chats@, me, rp->Some_0.user_id) is None
                        &&& chat_id == old(self).next_id
                        &&& final(self).next_id == old(self).next_id + 1
                        &&& final(self).chats@.len() == old(self).chats@.len() + 1
                        &&& final(self).chats@.drop_last() == old(self).chats@
                        &&& c.id == chat_id
                        &&& c.participants@ == seq![me, rp->Some_0.user_id]
                        &&& !c.is_group
                        &&& c.name is None
                        &&& c.avatar_url is None
                        &&& c.admins@ == Seq::<u64>::empty()
                        &&& c.last_message is None
                        &&& c.last_message_time == now
                        &&& c.disappearing_duration is None
                        &&& c.created_at == now
                    } else {
                        &&& direct_chat_between(old(self).chats@, me, rp->Some_0.user_id)
                            == Some(chat_for(old(self).chats@, chat_id)->Some_0)
                        &&& chat_for(old(self).chats@, chat_id) is Some
                        &&& *final(self) == *old(self)
                    }
                },
                Err(e) => {
                    &&& *final(self) == *old(self)
                    &&& if profile_for_username_ci(old(self).profiles@, recipient_username@)
                        is None {
                        e == EngineError::NotFound
                    } else {
                        &&& e == EngineError::BadRequest
                        &&& profile_for_username_ci(
                            old(self).profiles@,
                            recipient_username@,
                        )->Some_0.user_id == me
                    }
                },
            },
    {
        let pi = match self.find_profile_by_username_ci(recipient_username) {
            Some(pi) => pi,
            None => { return Err(EngineError::NotFound) },
        };
        let recipient = self.profiles[pi].user_id;
        if recipient == me {
            return Err(EngineError::BadRequest);
        }
        if let Some(ei) = self.find_direct_chat(me, recipient) {
            let existing_id = self.chats[ei].id;
            proof {
                crate::store::lemma_chat_for_at(self.chats@, self.next_id, ei as int);
            }
            return Ok((existing_id, false));
        }
        let id = self.next_id;
        self.next_id = self.next_id + 1;
        let mut participants: Vec<u64> = Vec::new();
        participants.push(me);
        participants.push(recipient);
        proof {
            assert(participants@ =~= seq![me, recipient]);
        }
        let ghost old_chats = self.chats@;
        self.chats.push(
            Chat {
                id,
                participants,
                is_group: false,
                name: None,
                avatar_url: None,
                admins: Vec::new(),
                last_message: None,
                last_message_time: now,
                disappearing_duration: None,
                created_at: now,
            },
        );
        proof {
            assert(self.chats@.drop_last() =~= old_chats);
        }
        Ok((id, true))
    }

    /// Creates a group chat: the caller plus every resolvable named user,
    /// each once, with the caller as the only admin. A group of fewer than
    /// two people is rejected.
    pub fn create_group(&mut self, creator: u64, name: String, participants: Vec<String>, now: i64) -> (r:
        Result<u64, EngineError>)
        requires
            old(self).wf(),
            old(self).next_id < u64::MAX,
        ensures
            final(self).wf(),
            final(self).messages@ == old(self).messages@,
            final(self).notifications@ == old(self).notifications@,
            final(self).profiles@ == old(self).profiles@,
            match r {
                Ok(chat_id) => {
                    let members = resolved_members(
                        old(self).profiles@,
                        participants@,
                        seq![creator],
                    );
                    let c = final(self).chats@.last();
                    &&& members.len() >= 2
                    &&& chat_id == old(self).next_id
                    &&& final(self).next_id == old(self).next_id + 1
                    &&& final(self).chats@.len() == old(self).chats@.len() + 1
                    &&& final(self).chats@.drop_last() == old(self).chats@
                    &&& c.id == chat_id
                    &&& c.participants@ == members
                    &&& c.is_group
                    &&& c.name is Some
                    &&& c.name->0@ == name@
                    &&& c.admins@ == seq![creator]
                    &&& c.last_message is None
                    &&& c.last_message_time == now
                    &&& c.disappearing_duration is None
                    &&& c.created_at == now
                },
                Err(e) => {
                    &&& *final(self) == *old(self)
                    &&& e == EngineError::BadRequest
                    &&& resolved_members(old(self).profiles@, participants@, seq![creator]).len()
                        < 2
                },
            },
    {
        let mut ids: Vec<u64> = Vec::new();
        ids.push(creator);
        let mut i: usize = 0;
        proof {
            assert(ids@ =~= seq![creator]);
            assert(participants@.subrange(i as int, participants@.len() as int)
                =~= participants@);
        }
        while i < participants.len()
            invariant
                i <= participants@.len(),
                resolved_members(self.profiles@, participants@, seq![creator])
                    == resolved_members(
                    self.profiles@,
                    participants@.subrange(i as int, participants@.len() as int),
                    ids@,
                ),
            decreases participants@.len() - i,
        {
            let ghost rest = participants@.subrange(i as int, participants@.len() as int);
            proof {
                assert(rest[0] == participants@[i as int]);
                assert(rest.drop_first() =~= participants@.subrange(
                    i + 1,
                    participants@.len() as int,
                ));
            }
            match self.find_profile_by_username(&participants[i]) {
                Some(pi) => {
                    let uid = self.profiles[pi].user_id;
                    if !crate::model::contains_u64(&ids, uid) {
                        ids.push(uid);
                    }
                },
                None => {},
            }
            i = i + 1;
        }
        proof {
            assert(participants@.subrange(
                participants@.len() as int,
                participants@.len() as int,
            ).len() == 0);
        }
        if ids.len() < 2 {
            return Err(EngineError::BadRequest);
        }
        let id = self.next_id;
        self.next_id = self.next_id + 1;
        let mut admins: Vec<u64> = Vec::new();
        admins.push(creator);
        proof {
            assert(admins@ =~= seq![creator]);
        }
        let ghost old_chats = self.chats@;
        self.chats.push(
            Chat {
                id,
                participants: ids,
                is_group: true,
                name: Some(name),
                avatar_url: None,
                admins,
                last_message: None,
                last_message_time: now,
                disappearing_duration: None,
                created_at: now,
            },
        );
        proof {
            assert(self.chats@.drop_last() =~= old_chats);
        }
        Ok(id)
    }

    /// Whether the chat exists, is a group, and has the caller as an admin,
    /// which every group administration operation demands.
    fn admin_gate(&self, chat_id: u64, caller: u64) -> (r: Option<usize>)
        ensures
            match r {
                Some(i) => i < self.chats@.len() && self.chats@[i as int].id == chat_id
                    && chat_for(self.chats@, chat_id) == Some(self.chats@[i as int])
                    && self.chats@[i as int].is_group && self.chats@[i as int].admins@.contains(
                    caller,
                ),
                None => !admin_gate_open(self.chats@, chat_id, caller),
            },
            r is Some ==> admin_gate_open(self.chats@, chat_id, caller),
    {
        match self.find_chat(chat_id) {
            Some(i) => {
                if self.chats[i].is_group && crate::model::contains_u64(
                    &self.chats[i].admins,
                    caller,
                ) {
                    Some(i)
                } else {
                    None
                }
            },
            None => None,
        }
    }

    /// Adds every resolvable named user who is not yet a participant to the
    /// group, in request order. Only a current admin may do this; a request
    /// that adds nobody still succeeds.
    pub fn add_participants(&mut self, chat_id: u64, caller: u64, usernames: Vec<String>) -> (r:
        Result<(), EngineError>)
        requires
            old(self).wf(),
        ensures
            final(self).wf(),
            final(self).messages@ == old(self).messages@,
            final(self).notifications@ == old(self).notifications@,
            final(self).profiles@ == old(self).profiles@,
            final(self).next_id == old(self).next_id,
            match r {
                Ok(()) => {
                    &&& admin_gate_open(old(self).chats@, chat_id, caller)
                    &&& exists|ci: int|
                        {
                            &&& 0 <= ci < old(self).chats@.len()
                            &&& old(self).chats@[ci].id == chat_id
                            &&& final(self).chats@ == old(self).chats@.update(
                                ci,
                                Chat {
                                    participants: final(self).chats@[ci].participants,
                                    ..old(self).chats@[ci]
                                },
                            )
                            &&& final(self).chats@[ci].participants@ == old(
                                self,
                            ).chats@[ci].participants@ + added_member_ids(
                                old(self).profiles@,
                                old(self).chats@[ci].participants@,
                                usernames@,
                            )
                        }
                },
                Err(e) => {
                    &&& *final(self) == *old(self)
                    &&& e == EngineError::Forbidden
                    &&& !admin_gate_open(old(self).chats@, chat_id, caller)
                },
            },
    {
        let ci = match self.admin_gate(chat_id, caller) {
            Some(ci) => ci,
            None => { return Err(EngineError::Forbidden) },
        };
        let ghost old_chats = self.chats@;
        let ghost parts0 = self.chats@[ci as int].participants@;
        let mut new_ids: Vec<u64> = Vec::new();
        let mut i: usize = 0;
        proof {
            assert(usernames@.subrange(0, usernames@.len() as int) =~= usernames@);
            assert(new_ids@ + added_member_ids(self.profiles@, parts0, usernames@)
                =~= added_member_ids(self.profiles@, parts0, usernames@));
        }
        while i < usernames.len()
            invariant
                self.wf(),
                *self == *old(self),
                i <= usernames@.len(),
                (ci as int) < self.chats@.len(),
                parts0 == self.chats@[ci as int].participants@,
                added_member_ids(self.profiles@, parts0, usernames@) == new_ids@
                    + added_member_ids(
                    self.profiles@,
                    parts0,
                    usernames@.subrange(i as int, usernames@.len() as int),
                ),
            decreases usernames@.len() - i,
        {
            let ghost rest = usernames@.subrange(i as int, usernames@.len() as int);
            proof {
                assert(rest[0] == usernames@[i as int]);
                assert(rest.drop_first() =~= usernames@.subrange(
                    i + 1,
                    usernames@.len() as int,
                ));
            }
            match self.find_profile_by_username(&usernames[i]) {
                Some(pi) => {
                    let uid = self.profiles[pi].user_id;
                    if !crate::model::contains_u64(&self.chats[ci].participants, uid) {
                        new_ids.push(uid);
                        proof {
                            let tail = added_member_ids(
                                self.profiles@,
                                parts0,
                                rest.drop_first(),
                            );
                            assert(new_ids@ + tail =~= new_ids@.drop_last() + (seq![uid] + tail));
                        }
                    }
                },
                None => {},
            }
            i = i + 1;
        }
        proof {
            assert(usernames@.subrange(usernames@.len() as int, usernames@.len() as int).len()
                == 0);
            assert(new_ids@ + Seq::<u64>::empty() =~= new_ids@);
        }
        let mut chat = self.chats.remove(ci);
        proof {
            assert(chat.participants@ =~= parts0 + new_ids@.subrange(0, 0));
        }
        let mut k: usize = 0;
        while k < new_ids.len()
            invariant
                k <= new_ids@.len(),
                (ci as int) < old_chats.len(),
                chat == (Chat { participants: chat.participants, ..old_chats[ci as int] }),
                chat.participants@ == parts0 + new_ids@.subrange(0, k as int),
            decreases new_ids@.len() - k,
        {
            chat.participants.push(new_ids[k]);
            proof {
                assert(chat.participants@ =~= parts0 + new_ids@.subrange(0, k + 1));
            }
            k = k + 1;
        }
        proof {
            assert(new_ids@.subrange(0, new_ids@.len() as int) =~= new_ids@);
        }
        let ghost gchat = chat;
        self.chats.insert(ci, chat);
        proof {
            assert(self.chats@ =~= old_chats.update(ci as int, gchat));
            assert((ci as int) < old_chats.len());
            assert(old_chats[ci as int].id == chat_id);
            assert(self.chats@[ci as int] == gchat);
            assert(gchat == (Chat { participants: gchat.participants, ..old_chats[ci as int] }));
            assert(gchat.participants@ == parts0 + added_member_ids(
                self.profiles@,
                parts0,
                usernames@,
            ));
        }
        Ok(())
    }

    /// Removes the named user from the group's participants and admins. Only
    /// a current admin may do this, the target must exist, and an admin
    /// cannot remove themself.
    pub fn remove_participant(&mut self, chat_id: u64, caller: u64, username: &String) -> (r:
        Result<(), EngineError>)
        requires
            old(self).wf(),
        ensures
            final(self).wf(),
            final(self).messages@ == old(self).messages@,
            final(self).notifications@ == old(self).notifications@,
            final(self).profiles@ == old(self).profiles@,
            final(self).next_id == old(self).next_id,
            match r {
                Ok(()) => {
                    let target = profile_for_username(old(self).profiles@, username@);
                    &&& admin_gate_open(old(self).chats@, chat_id, caller)
                    &&& target is Some
                    &&& target->Some_0.user_id != caller
                    &&& exists|ci: int|
                        {
                            &&& 0 <= ci < old(self).chats@.len()
                            &&& old(self).chats@[ci].id == chat_id
                            &&& final(self).chats@ == old(self).chats@.update(
                                ci,
                                Chat {
                                    participants: final(self).chats@[ci].participants,
                                    admins: final(self).chats@[ci].admins,
                                    ..old(self).chats@[ci]
                                },
                            )
                            &&& final(self).chats@[ci].participants@ == without_member(
                                old(self).chats@[ci].participants@,
                                target->Some_0.user_id,
                            )
                            &&& final(self).chats@[ci].admins@ == without_member(
                                old(self).chats@[ci].admins@,
                                target->Some_0.user_id,
                            )
                        }
                },
                Err(e) => {
                    &&& *final(self) == *old(self)
                    &&& if !admin_gate_open(old(self).chats@, chat_id, caller) {
                        e == EngineError::Forbidden
                    } else if profile_for_username(old(self).profiles@, username@) is None {
                        e == EngineError::NotFound
                    } else {
                        &&& e == EngineError::BadRequest
                        &&& profile_for_username(old(self).profiles@, username@)->Some_0.user_id
                            == caller
                    }
                },
            },
    {
        let ci = match self.admin_gate(chat_id, caller) {
            Some(ci) => ci,
            None => { return Err(EngineError::Forbidden) },
        };
        let pi = match self.find_profile_by_username(username) {
            Some(pi) => pi,
            None => { return Err(EngineError::NotFound) },
        };
        let target = self.profiles[pi].user_id;
        if target == caller {
            return Err(EngineError::BadRequest);
        }
        let ghost old_chats = self.chats@;
        let mut chat = self.chats.remove(ci);
        chat.participants = remove_member_vec(&chat.participants, target);
        chat.admins = remove_member_vec(&chat.admins, target);
        let ghost gchat = chat;
        self.chats.insert(ci, chat);
        proof {
            assert(self.chats@ =~= old_chats.update(ci as int, gchat));
            assert((ci as int) < old_chats.len());
            assert(old_chats[ci as int].id == chat_id);
            assert(self.chats@[ci as int] == gchat);
            assert(gchat == (Chat {
                participants: gchat.participants,
                admins: gchat.admins,
                ..old_chats[ci as int]
            }));
            assert(gchat.participants@ == without_member(
                old_chats[ci as int].participants@,
                target,
            ));
            assert(gchat.admins@ == without_member(old_chats[ci as int].admins@, target));
        }
        Ok(())
    }

    /// Takes the caller out of a group's participants and admins. A missing
    /// chat, or one that is not a group, is left alone and the call still
    /// succeeds.
    pub fn leave_group(&mut self, chat_id: u64, user: u64) -> (r: Result<(), EngineError>)
        requires
            old(self).wf(),
        ensures
            final(self).wf(),
            final(self).messages@ == old(self).messages@,
            final(self).notifications@ == old(self).notifications@,
            final(self).profiles@ == old(self).profiles@,
            final(self).next_id == old(self).next_id,
            r is Ok,
            (exists|ci: int|
                {
                    &&& 0 <= ci < old(self).chats@.len()
                    &&& old(self).chats@[ci].id == chat_id
                    &&& old(self).chats@[ci].is_group
                    &&& final(self).chats@ == old(self).chats@.update(
                        ci,
                        Chat {
                            participants: final(self).chats@[ci].participants,
                            admins: final(self).chats@[ci].admins,
                            ..old(self).chats@[ci]
                        },
                    )
                    &&& final(self).chats@[ci].participants@ == without_member(
                        old(self).chats@[ci].participants@,
                        user,
                    )
                    &&& final(self).chats@[ci].admins@ == without_member(
                        old(self).chats@[ci].admins@,
                        user,
                    )
                }) || (final(self).chats@ == old(self).chats@ && !(exists|ci: int|
                0 <= ci < old(self).chats@.len() && old(self).chats@[ci].id == chat_id && old(
                    self,
                ).chats@[ci].is_group)),
    {
        let ci = match self.find_chat(chat_id) {
            Some(ci) => ci,
            None => { return Ok(()) },
        };
        if !self.chats[ci].is_group {
            return Ok(());
        }
        let ghost old_chats = self.chats@;
        let mut chat = self.chats.remove(ci);
        chat.participants = remove_member_vec(&chat.participants, user);
        chat.admins = remove_member_vec(&chat.admins, user);
        let ghost gchat = chat;
        self.chats.insert(ci, chat);
        proof {
            assert(self.chats@ =~= old_chats.update(ci as int, gchat));
        }
        Ok(())
    }

    /// Updates the group's name and avatar, where given. Only a current
    /// admin may do this.
    pub fn update_group(
        &mut self,
        chat_id: u64,
        caller: u64,
        name: Option<String>,
        avatar_url: Option<String>,
    ) -> (r: Result<(), EngineError>)
        requires
            old(self).wf(),
        ensures
            final(self).wf(),
            final(self).messages@ == old(self).messages@,
            final(self).notifications@ == old(self).notifications@,
            final(self).profiles@ == old(self).profiles@,
            final(self).next_id == old(self).next_id,
            match r {
                Ok(()) => {
                    &&& admin_gate_open(old(self).chats@, chat_id, caller)
                    &&& exists|ci: int|
                        {
                            &&& 0 <= ci < old(self).chats@.len()
                            &&& old(self).chats@[ci].id == chat_id
                            &&& final(self).chats@ == old(self).chats@.update(
                                ci,
                                Chat {
                                    name: if name is Some {
                                        name
                                    } else {
                                        old(self).chats@[ci].name
                                    },
                                    avatar_url: if avatar_url is Some {
                                        avatar_url
                                    } else {
                                        old(self).chats@[ci].avatar_url
                                    },
                                    ..old(self).chats@[ci]
                                },
                            )
                        }
                },
                Err(e) => {
                    &&& *final(self) == *old(self)
                    &&& e == EngineError::Forbidden
                    &&& !admin_gate_open(old(self).chats@, chat_id, caller)
                },
            },
    {
        let ci = match self.admin_gate(chat_id, caller) {
            Some(ci) => ci,
            None => { return Err(EngineError::Forbidden) },
        };
        let ghost old_chats = self.chats@;
        let mut chat = self.chats.remove(ci);
        if let Some(n) = name {
            chat.name = Some(n);
        }
        if let Some(a) = avatar_url {
            chat.avatar_url = Some(a);
        }
        let ghost gchat = chat;
        self.chats.insert(ci, chat);
        proof {
            assert(self.chats@ =~= old_chats.update(ci as int, gchat));
            assert((ci as int) < old_chats.len());
            assert(old_chats[ci as int].id == chat_id);
        }
        Ok(())
    }

    /// Promotes the named user to group admin, or demotes them when they
    /// already are one. Only a current admin may do this, and not on
    /// themself.
    pub fn toggle_admin(&mut self, chat_id: u64, caller: u64, username: &String) -> (r: Result<
        (),
        EngineError,
    >)
        requires
            old(self).wf(),
        ensures
            final(self).wf(),
            final(self).messages@ == old(self).messages@,
            final(self).notifications@ == old(self).notifications@,
            final(self).profiles@ == old(self).profiles@,
            final(self).next_id == old(self).next_id,
            match r {
                Ok(()) => {
                    let target = profile_for_username(old(self).profiles@, username@);
                    &&& admin_gate_open(old(self).chats@, chat_id, caller)
                    &&& target is Some
                    &&& target->Some_0.user_id != caller
                    &&& exists|ci: int|
                        {
                            &&& 0 <= ci < old(self).chats@.len()
                            &&& old(self).chats@[ci].id == chat_id
                            &&& final(self).chats@ == old(self).chats@.update(
                                ci,
                                Chat {
                                    admins: final(self).chats@[ci].admins,
                                    ..old(self).chats@[ci]
                                },
                            )
                            &&& final(self).chats@[ci].admins@ == (if old(
                                self,
                            ).chats@[ci].admins@.contains(target->Some_0.user_id) {
                                without_member(
                                    old(self).chats@[ci].admins@,
                                    target->Some_0.user_id,
                                )
                            } else {
                                old(self).chats@[ci].admins@.push(target->Some_0.user_id)
                            })
                        }
                },
                Err(e) => {
                    &&& *final(self) == *old(self)
                    &&& if !admin_gate_open(old(self).chats@, chat_id, caller) {
                        e == EngineError::Forbidden
                    } else if profile_for_username(old(self).profiles@, username@) is None {
                        e == EngineError::NotFound
                    } else {
                        &&& e == EngineError::BadRequest
                        &&& profile_for_username(old(self).profiles@, username@)->Some_0.user_id
                            == caller
                    }
                },
            },
    {
        let ci = match self.admin_gate(chat_id, caller) {
            Some(ci) => ci,
            None => { return Err(EngineError::Forbidden) },
        };
        let pi = match self.find_profile_by_username(username) {
            Some(pi) => pi,
            None => { return Err(EngineError::NotFound) },
        };
        let target = self.profiles[pi].user_id;
        if target == caller {
            return Err(EngineError::BadRequest);
        }
        let ghost old_chats = self.chats@;
        let mut chat = self.chats.remove(ci);
        if crate::model::contains_u64(&chat.admins, target) {
            chat.admins = remove_member_vec(&chat.admins, target);
        } else {
            chat.admins.push(target);
        }
        let ghost gchat = chat;
        self.chats.insert(ci, chat);
        proof {
            assert(self.chats@ =~= old_chats.update(ci as int, gchat));
            assert((ci as int) < old_chats.len());
            assert(old_chats[ci as int].id == chat_id);
            assert(self.chats@[ci as int] == gchat);
            assert(gchat == (Chat { admins: gchat.admins, ..old_chats[ci as int] }));
        }
        Ok(())
    }

    /// Sets the chat's disappearing policy; messages already sent keep the
    /// lifetime they were given. Any participant may change it on a direct
    /// chat, only an admin on a group.
    pub fn set_disappearing(&mut self, chat_id: u64, caller: u64, duration: Option<i64>) -> (r:
        Result<(), EngineError>)
        requires
            old(self).wf(),
        ensures
            final(self).wf(),
            final(self).messages@ == old(self).messages@,
            final(self).notifications@ == old(self).notifications@,
            final(self).profiles@ == old(self).profiles@,
            final(self).next_id == old(self).next_id,
            match r {
                Ok(()) => {
                    let c0 = chat_for(old(self).chats@, chat_id);
                    &&& c0 is Some
                    &&& c0->Some_0.participants@.contains(caller)
                    &&& (c0->Some_0.is_group ==> c0->Some_0.admins@.contains(caller))
                    &&& exists|ci: int|
                        {
                            &&& 0 <= ci < old(self).chats@.len()
                            &&& old(self).chats@[ci].id == chat_id
                            &&& final(self).chats@ == old(self).chats@.update(
                                ci,
                                Chat {
                                    disappearing_duration: duration,
                                    ..old(self).chats@[ci]
                                },
                            )
                        }
                },
                Err(e) => {
                    &&& *final(self) == *old(self)
                    &&& if !(chat_for(old(self).chats@, chat_id) is Some && chat_for(
                        old(self).chats@,
                        chat_id,
                    )->Some_0.participants@.contains(caller)) {
                        e == EngineError::NotFound
                    } else {
                        &&& e == EngineError::Forbidden
                        &&& chat_for(old(self).chats@, chat_id)->Some_0.is_group
                        &&& !chat_for(old(self).chats@, chat_id)->Some_0.admins@.contains(caller)
                    }
                },
            },
    {
        let ci = match self.find_chat(chat_id) {
            Some(ci) => ci,
            None => { return Err(EngineError::NotFound) },
        };
        if !crate::model::contains_u64(&self.chats[ci].participants, caller) {
            return Err(EngineError::NotFound);
        }
        if self.chats[ci].is_group && !crate::model::contains_u64(&self.chats[ci].admins, caller) {
            return Err(EngineError::Forbidden);
        }
        let ghost old_chats = self.chats@;
        let mut chat = self.chats.remove(ci);
        chat.disappearing_duration = duration;
        let ghost gchat = chat;
        self.chats.insert(ci, chat);
        proof {
            assert(self.chats@ =~= old_chats.update(ci as int, gchat));
            assert((ci as int) < old_chats.len());
            assert(old_chats[ci as int].id == chat_id);
            assert(gchat == (Chat {
                disappearing_duration: duration,
                ..old_chats[ci as int]
            }));
        }
        Ok(())
    }

    /// Stores the caller's live location on their profile. A caller with no
    /// profile changes nothing and still succeeds.
    pub fn update_live_location(
        &mut self,
        user: u64,
        latitude_microdeg: i64,
        longitude_microdeg: i64,
        label: Option<String>,
    ) -> (r: Result<(), EngineError>)
        requires
            old(self).wf(),
        ensures
            final(self).wf(),
            final(self).chats@ == old(self).chats@,
            final(self).messages@ == old(self).messages@,
            final(self).notifications@ == old(self).notifications@,
            final(self).next_id == old(self).next_id,
            r is Ok,
            (exists|i: int|
                {
                    &&& 0 <= i < old(self).profiles@.len()
                    &&& old(self).profiles@[i].user_id == user
                    &&& final(self).profiles@ == old(self).profiles@.update(
                        i,
                        Profile {
                            last_location: final(self).profiles@[i].last_location,
                            ..old(self).profiles@[i]
                        },
                    )
                    &&& match final(self).profiles@[i].last_location {
                        Some(l) => {
                            &&& l.latitude_microdeg == latitude_microdeg
                            &&& l.longitude_microdeg == longitude_microdeg
                            &&& l.label == label
                            &&& l.is_live == Some(true)
                            &&& l.expires_at is None
                        },
                        None => false,
                    }
                }) || (final(self).profiles@ == old(self).profiles@ && !(exists|i: int|
                0 <= i < old(self).profiles@.len() && old(self).profiles@[i].user_id == user)),
    {
        let pi = match self.find_profile(user) {
            Some(pi) => pi,
            None => { return Ok(()) },
        };
        let ghost old_profiles = self.profiles@;
        let mut p = self.profiles.remove(pi);
        p.last_location = Some(
            Location {
                latitude_microdeg,
                longitude_microdeg,
                label,
                is_live: Some(true),
                expires_at: None,
            },
        );
        let ghost gp = p;
        self.profiles.insert(pi, p);
        proof {
            assert(self.profiles@ =~= old_profiles.update(pi as int, gp));
        }
        Ok(())
    }
}

/// Whether the chat exists, is a group, and counts the caller among its
/// admins.
pub open spec fn admin_gate_open(cs: Seq<Chat>, chat_id: u64, caller: u64) -> bool {
    match chat_for(cs, chat_id) {
        Some(c) => c.is_group && c.admins@.contains(caller),
        None => false,
    }
}

/// A direct chat request, addressed by username.
pub struct CreateChatRequest {
    pub recipient_username: String,
}

/// A group chat request: its name and the usernames to include.
pub struct CreateGroupRequest {
    pub name: String,
    pub participants: Vec<String>,
}

/// A change of the disappearing policy, in seconds; nothing turns it off.
pub struct DisappearingRequest {
    pub duration: Option<i64>,
}

/// A participant named in a group operation.
pub struct ParticipantRequest {
    pub username: String,
}

/// Edits to a group chat's metadata.
pub struct UpdateGroupRequest {
    pub name: Option<String>,
    pub avatar_url: Option<String>,
}

/// Participants to add to a group chat.
pub struct UpdateGroupParticipantsRequest {
    pub usernames: Vec<String>,
}

} // verus!
