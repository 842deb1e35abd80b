//! The rules layer over the store for single messages: reaction toggling,
//! read receipts, view-once marking and deletion. Each operation states
//! exactly which store it leaves behind and when it is rejected.

use vstd::prelude::*;
use crate::model::{has_reaction, reactions_unique, Message, MessageReaction};
use crate::store::{EngineError, Store};

verus! {

/// The predicate a reaction must satisfy to survive removal by (user, emoji).
pub open spec fn keeps_reaction(user: u64, emoji: Seq<char>) -> spec_fn(MessageReaction) -> bool {
    |r: MessageReaction| !(r.user_id == user && r.emoji@ == emoji)
}

/// The reactions left after removing every reaction by (user, emoji).
pub open spec fn without_reaction(
    rs: Seq<MessageReaction>,
    user: u64,
    emoji: Seq<char>,
) -> Seq<MessageReaction> {
    rs.filter(keeps_reaction(user, emoji))
}

/// How one react call changes a reaction list: present toggles off, absent
/// toggles on with the given creation time.
pub open spec fn reaction_toggled(
    old_rs: Seq<MessageReaction>,
    new_rs: Seq<MessageReaction>,
    user: u64,
    emoji: Seq<char>,
    now: i64,
) -> bool {
    if has_reaction(old_rs, user, emoji) {
        new_rs == without_reaction(old_rs, user, emoji)
    } else {
        &&& new_rs.len() == old_rs.len() + 1
        &&& new_rs.drop_last() == old_rs
        &&& new_rs.last().user_id == user
        &&& new_rs.last().emoji@ == emoji
        &&& new_rs.last().created_at == now
    }
}

/// Removal keeps reactions inside the original list, keeps them unique, and
/// leaves no reaction by (user, emoji).
pub proof fn lemma_without_reaction(rs: Seq<MessageReaction>, user: u64, emoji: Seq<char>)
    requires
        reactions_unique(rs),
    ensures
        reactions_unique(without_reaction(rs, user, emoji)),
        !has_reaction(without_reaction(rs, user, emoji), user, emoji),
        forall|k: int|
            0 <= k < without_reaction(rs, user, emoji).len() ==> rs.contains(
                #[trigger] without_reaction(rs, user, emoji)[k],
            ),
    decreases rs.len(),
{
    reveal(Seq::filter);
    let pred = keeps_reaction(user, emoji);
    if rs.len() == 0 {
        assert(rs.filter(pred) =~= Seq::<MessageReaction>::empty());
    } else {
        let dl = rs.drop_last();
        assert(reactions_unique(dl)) by {
            assert(forall|i: int| 0 <= i < dl.len() ==> dl[i] == rs[i]);
        }
        lemma_without_reaction(dl, user, emoji);
        let f = dl.filter(pred);
        if pred(rs.last()) {
            assert(rs.filter(pred) == f.push(rs.last()));
            assert(forall|k: int| 0 <= k < f.len() ==> dl.contains(#[trigger] f[k]));
            assert forall|k: int| 0 <= k < f.push(rs.last()).len() implies rs.contains(
                #[trigger] f.push(rs.last())[k],
            ) by {
                if k < f.len() {
                    let j = choose|j: int| 0 <= j < dl.len() && dl[j] == f[k];
                    assert(rs[j] == f.push(rs.last())[k]);
                } else {
                    assert(rs[rs.len() - 1] == f.push(rs.last())[k]);
                }
            }
            assert(reactions_unique(f.push(rs.last()))) by {
                assert forall|i: int, j: int| 0 <= i < j < f.push(rs.last()).len() implies !(
                f.push(rs.last())[i].user_id == f.push(rs.last())[j].user_id && f.push(
                    rs.last(),
                )[i].emoji@ == f.push(rs.last())[j].emoji@) by {
                    if j < f.len() {
                    } else {
                        let a = f.push(rs.last())[i];
                        let m = choose|m: int| 0 <= m < dl.len() && dl[m] == a;
                        assert(rs[m] == a);
                        assert(!(rs[m].user_id == rs.last().user_id && rs[m].emoji@
                            == rs.last().emoji@)) by {
                            assert(rs.last() == rs[rs.len() - 1]);
                        }
                    }
                }
            }
        } else {
            assert(rs.filter(pred) == f);
            assert forall|k: int| 0 <= k < f.len() implies rs.contains(#[trigger] f[k]) by {
                let j = choose|j: int| 0 <= j < dl.len() && dl[j] == f[k];
                assert(rs[j] == f[k]);
            }
        }
    }
}

/// Removing by (user, emoji) from a list with no such reaction changes
/// nothing.
pub proof fn lemma_without_reaction_absent(rs: Seq<MessageReaction>, user: u64, emoji: Seq<char>)
    requires
        !has_reaction(rs, user, emoji),
    ensures
        without_reaction(rs, user, emoji) == rs,
    decreases rs.len(),
{
    reveal(Seq::filter);
    let pred = keeps_reaction(user, emoji);
    if rs.len() == 0 {
        assert(rs.filter(pred) =~= rs);
    } else {
        let dl = rs.drop_last();
        assert(!has_reaction(dl, user, emoji)) by {
            assert(forall|i: int| 0 <= i < dl.len() ==> dl[i] == rs[i]);
        }
        lemma_without_reaction_absent(dl, user, emoji);
        assert(pred(rs.last())) by {
            assert(rs.last() == rs[rs.len() - 1]);
        }
        assert(rs.filter(pred) == dl.filter(pred).push(rs.last()));
        assert(dl.push(rs.last()) =~= rs);
    }
}

/// Reacting twice with the same emoji, starting from a message that carries
/// no such reaction, first adds it and then removes it: the reaction list is
/// exactly what it was.
pub proof fn lemma_react_toggle_round_trip(
    rs0: Seq<MessageReaction>,
    rs1: Seq<MessageReaction>,
    rs2: Seq<MessageReaction>,
    user: u64,
    emoji: Seq<char>,
    t1: i64,
    t2: i64,
)
    requires
        !has_reaction(rs0, user, emoji),
        reaction_toggled(rs0, rs1, user, emoji, t1),
        reaction_toggled(rs1, rs2, user, emoji, t2),
    ensures
        rs2 == rs0,
        !has_reaction(rs2, user, emoji),
{
    assert(rs1[rs1.len() - 1] == rs1.last());
    assert(has_reaction(rs1, user, emoji));
    assert(rs2 == without_reaction(rs1, user, emoji));
    reveal(Seq::filter);
    let pred = keeps_reaction(user, emoji);
    assert(rs1.drop_last() == rs0);
    assert(!pred(rs1.last()));
    assert(rs2 == rs0.filter(pred));
    lemma_without_reaction_absent(rs0, user, emoji);
}

/// Whether a reaction by (user, emoji) is present, executably.
pub fn has_reaction_exec(rs: &Vec<MessageReaction>, user: u64, emoji: &String) -> (r: bool)
    ensures
        r == has_reaction(rs@, user, emoji@),
{
    let mut i: usize = 0;
    while i < rs.len()
        invariant
            i <= rs@.len(),
            forall|j: int| 0 <= j < i ==> !(rs@[j].user_id == user && rs@[j].emoji@ == emoji@),
        decreases rs@.len() - i,
    {
        if rs[i].user_id == user && crate::strutil::str_eq(&rs[i].emoji, emoji) {
            return true;
        }
        i = i + 1;
    }
    false
}

/// The reaction list without every reaction by (user, emoji).
fn remove_reaction(rs: &Vec<MessageReaction>, user: u64, emoji: &String) -> (out: Vec<
    MessageReaction,
>)
    ensures
        out@ == without_reaction(rs@, user, emoji@),
{
    let ghost pred = keeps_reaction(user, emoji@);
    let mut out: Vec<MessageReaction> = Vec::new();
    let mut i: usize = 0;
    proof {
        reveal(Seq::filter);
        assert(rs@.subrange(0, 0).filter(pred) =~= Seq::<MessageReaction>::empty());
    }
    while i < rs.len()
        invariant
            i <= rs@.len(),
            out@ == rs@.subrange(0, i as int).filter(keeps_reaction(user, emoji@)),
        decreases rs@.len() - i,
    {
        let keep = !(rs[i].user_id == user && crate::strutil::str_eq(&rs[i].emoji, emoji));
        if keep {
            out.push(
                MessageReaction {
                    user_id: rs[i].user_id,
                    emoji: rs[i].emoji.clone(),
                    created_at: rs[i].created_at,
                },
            );
        }
        proof {
            reveal(Seq::filter);
            let pre = rs@.subrange(0, i as int);
            let ext = rs@.subrange(0, i + 1);
            assert(ext.drop_last() =~= pre);
            assert(ext.last() == rs@[i as int]);
            if keep {
                assert(out@ =~= ext.filter(keeps_reaction(user, emoji@)));
            } else {
                assert(out@ =~= ext.filter(keeps_reaction(user, emoji@)));
            }
        }
        i = i + 1;
    }
    proof {
        assert(rs@.subrange(0, rs@.len() as int) =~= rs@);
    }
    out
}

impl Store {
    /// Toggles the (user, emoji) reaction on the message with the given id:
    /// removes it when present, adds it otherwise. Rejected as not-found when
    /// no such message exists; every other record is untouched.
    pub fn react_message(&mut self, msg_id: u64, user: u64, emoji: String, now: i64) -> (r: Result<
        (),
        EngineError,
    >)
        requires
            old(self).wf(),
        ensures
            final(self).wf(),
            final(self).chats@ == old(self).chats@,
            final(self).notifications@ == old(self).notifications@,
            final(self).profiles@ == old(self).profiles@,
            final(self).next_id == old(self).next_id,
            match r {
                Ok(()) => {
                    &&& final(self).messages@.len() == old(self).messages@.len()
                    &&& exists|i: int|
                        {
                            &&& 0 <= i < old(self).messages@.len()
                            &&& old(self).messages@[i].id == msg_id
                            &&& (forall|k: int|
                                0 <= k < old(self).messages@.len() && k != i
                                    ==> final(self).messages@[k] == old(self).messages@[k])
                            &&& final(self).messages@[i] == (Message {
                                reactions: final(self).messages@[i].reactions,
                                ..old(self).messages@[i]
                            })
                            &&& reaction_toggled(
                                old(self).messages@[i].reactions@,
                                final(self).messages@[i].reactions@,
                                user,
                                emoji@,
                                now,
                            )
                        }
                },
                Err(e) => {
                    &&& e == EngineError::NotFound
                    &&& *final(self) == *old(self)
                    &&& forall|j: int|
                        0 <= j < old(self).messages@.len() ==> old(self).messages@[j].id != msg_id
                },
            },
    {
        let ghost e = emoji@;
        let found = self.find_message(msg_id);
        if let Some(idx) = found {
            let ghost i = idx as int;
            let ghost old_msgs = self.messages@;
            let mut msg = self.messages.remove(idx);
            let had = has_reaction_exec(&msg.reactions, user, &emoji);
            if had {
                proof {
                    lemma_without_reaction(msg.reactions@, user, e);
                }
                msg.reactions = remove_reaction(&msg.reactions, user, &emoji);
            } else {
                msg.reactions.push(MessageReaction { user_id: user, emoji, created_at: now });
                proof {
                    assert(msg.reactions@.drop_last() =~= old_msgs[i].reactions@);
                    assert(reactions_unique(msg.reactions@)) by {
                        let rs = msg.reactions@;
                        assert forall|a: int, b: int| 0 <= a < b < rs.len() implies !(rs[a].user_id
                            == rs[b].user_id && rs[a].emoji@ == rs[b].emoji@) by {
                            if b == rs.len() - 1 {
                                assert(old_msgs[i].reactions@[a] == rs[a]);
                            } else {
                                assert(old_msgs[i].reactions@[a] == rs[a]);
                                assert(old_msgs[i].reactions@[b] == rs[b]);
                            }
                        }
                    }
                }
            }
            let ghost gmsg = msg;
            self.messages.insert(idx, msg);
            proof {
                assert(self.messages@ =~= old_msgs.update(i, gmsg));
                assert(gmsg == (Message { reactions: gmsg.reactions, ..old_msgs[i] }));
                assert(reaction_toggled(old_msgs[i].reactions@, gmsg.reactions@, user, e, now));
                assert(forall|k: int|
                    0 <= k < old_msgs.len() && k != i ==> self.messages@[k] == old_msgs[k]);
                assert(self.messages@[i] == gmsg);
                assert(forall|k: int| 0 <= k < self.messages@.len() ==> self.messages@[k].wf());
            }
            Ok(())
        } else {
            Err(EngineError::NotFound)
        }
    }

    /// Sets the read receipt the first time a non-sender reads the message;
    /// idempotent, and a no-op for the sender. Rejected as not-found when no
    /// such message exists.
    ///
    /// The transition itself is `read_mark`, so callers can reason about
    /// repeated calls.
    pub fn mark_read(&mut self, msg_id: u64, user: u64, now: i64) -> (r: Result<(), EngineError>)
        requires
            old(self).wf(),
        ensures
            final(self).wf(),
            final(self).chats@ == old(self).chats@,
            final(self).notifications@ == old(self).notifications@,
            final(self).profiles@ == old(self).profiles@,
            final(self).next_id == old(self).next_id,
            match r {
                Ok(()) => exists|i: int|
                    {
                        &&& 0 <= i < old(self).messages@.len()
                        &&& old(self).messages@[i].id == msg_id
                        &&& final(self).messages@ == old(self).messages@.update(
                            i,
                            read_mark(old(self).messages@[i], user, now),
                        )
                    },
                Err(e) => {
                    &&& e == EngineError::NotFound
                    &&& *final(self) == *old(self)
                    &&& forall|j: int|
                        0 <= j < old(self).messages@.len() ==> old(self).messages@[j].id != msg_id
                },
            },
    {
        let found = self.find_message(msg_id);
        if let Some(idx) = found {
            let ghost i = idx as int;
            let ghost old_msgs = self.messages@;
            if self.messages[idx].sender_id != user && self.messages[idx].read_at.is_none() {
                let mut msg = self.messages.remove(idx);
                msg.read_at = Some(now);
                let ghost gmsg = msg;
                self.messages.insert(idx, msg);
                proof {
                    assert(self.messages@ =~= old_msgs.update(i, gmsg));
                    assert(gmsg == read_mark(old_msgs[i], user, now));
                    assert(forall|k: int|
                        0 <= k < self.messages@.len() ==> self.messages@[k].wf());
                }
            } else {
                proof {
                    assert(old_msgs.update(i, read_mark(old_msgs[i], user, now)) =~= old_msgs);
                }
            }
            Ok(())
        } else {
            Err(EngineError::NotFound)
        }
    }

    /// Sets the viewed time the first time a non-sender views a view-once
    /// message; idempotent, a no-op for the sender and for messages that are
    /// not view-once. Rejected as not-found when no such message exists.
    pub fn mark_viewed(&mut self, msg_id: u64, user: u64, now: i64) -> (r: Result<(), EngineError>)
        requires
            old(self).wf(),
        ensures
            final(self).wf(),
            final(self).chats@ == old(self).chats@,
            final(self).notifications@ == old(self).notifications@,
            final(self).profiles@ == old(self).profiles@,
            final(self).next_id == old(self).next_id,
            match r {
                Ok(()) => exists|i: int|
                    {
                        &&& 0 <= i < old(self).messages@.len()
                        &&& old(self).messages@[i].id == msg_id
                        &&& final(self).messages@ == old(self).messages@.update(
                            i,
                            viewed_mark(old(self).messages@[i], user, now),
                        )
                    },
                Err(e) => {
                    &&& e == EngineError::NotFound
                    &&& *final(self) == *old(self)
                    &&& forall|j: int|
                        0 <= j < old(self).messages@.len() ==> old(self).messages@[j].id != msg_id
                },
            },
    {
        let found = self.find_message(msg_id);
        if let Some(idx) = found {
            let ghost i = idx as int;
            let ghost old_msgs = self.messages@;
            if self.messages[idx].sender_id != user && self.messages[idx].is_view_once
                && self.messages[idx].viewed_at.is_none() {
                let mut msg = self.messages.remove(idx);
                msg.viewed_at = Some(now);
                let ghost gmsg = msg;
                self.messages.insert(idx, msg);
                proof {
                    assert(self.messages@ =~= old_msgs.update(i, gmsg));
                    assert(gmsg == viewed_mark(old_msgs[i], user, now));
                    assert(forall|k: int|
                        0 <= k < self.messages@.len() ==> self.messages@[k].wf());
                }
            } else {
                proof {
                    assert(old_msgs.update(i, viewed_mark(old_msgs[i], user, now)) =~= old_msgs);
                }
            }
            Ok(())
        } else {
            Err(EngineError::NotFound)
        }
    }
}

/// How one mark-read call changes a message: the receipt is set the first
/// time a non-sender reads, and nothing changes otherwise.
pub open spec fn read_mark(m: Message, user: u64, now: i64) -> Message {
    if m.sender_id != user && m.read_at is None {
        Message { read_at: Some(now), ..m }
    } else {
        m
    }
}

/// How one mark-viewed call changes a message: the viewed time is set the
/// first time a non-sender views a view-once message, and nothing changes
/// otherwise.
pub open spec fn viewed_mark(m: Message, user: u64, now: i64) -> Message {
    if m.sender_id != user && m.is_view_once && m.viewed_at is None {
        Message { viewed_at: Some(now), ..m }
    } else {
        m
    }
}

/// Marking a view-once message viewed is idempotent: once a non-sender has
/// marked it, a second call by anyone changes nothing.
pub proof fn lemma_mark_viewed_idempotent(m: Message, u1: u64, t1: i64, u2: u64, t2: i64)
    requires
        m.sender_id != u1,
    ensures
        viewed_mark(viewed_mark(m, u1, t1), u2, t2) == viewed_mark(m, u1, t1),
{
}

/// Marking a message read is idempotent in the same way.
pub proof fn lemma_mark_read_idempotent(m: Message, u: u64, t1: i64, t2: i64)
    ensures
        read_mark(read_mark(m, u, t1), u, t2) == read_mark(m, u, t1),
{
}

/// The two deletion modes. `Everyone` soft-deletes in place; `Me` removes the
/// row entirely. Both are restricted to the sender, an asymmetry kept as the
/// design has it.
#[derive(Clone, Copy, Debug, PartialEq, Eq, Structural)]
pub enum DeleteMode {
    Me,
    Everyone,
}

/// The text a soft-deleted message shows in place of its content.
pub open spec fn deleted_text() -> Seq<char> {
    "This message was deleted"@
}

impl Store {
    /// Deletes a message. Mode `Everyone` is sender-only: it replaces the
    /// content with a fixed placeholder, clears the attachment and marks the
    /// record deleted, irreversibly; a non-sender is rejected as forbidden
    /// with the store untouched. Mode `Me` removes the row when the caller is
    /// the sender and is a silent no-op otherwise.
    pub fn delete_message(&mut self, msg_id: u64, user: u64, mode: DeleteMode, now: i64) -> (r:
        Result<(), EngineError>)
        requires
            old(self).wf(),
        ensures
            final(self).wf(),
            final(self).chats@ == old(self).chats@,
            final(self).notifications@ == old(self).notifications@,
            final(self).profiles@ == old(self).profiles@,
            final(self).next_id == old(self).next_id,
            match r {
                Ok(()) => exists|i: int|
                    {
                        &&& 0 <= i < old(self).messages@.len()
                        &&& old(self).messages@[i].id == msg_id
                        &&& if mode == DeleteMode::Everyone {
                            &&& old(self).messages@[i].sender_id == user
                            &&& final(self).messages@.len() == old(self).messages@.len()
                            &&& (forall|k: int|
                                0 <= k < old(self).messages@.len() && k != i
                                    ==> final(self).messages@[k] == old(self).messages@[k])
                            &&& final(self).messages@[i] == (Message {
                                content: final(self).messages@[i].content,
                                attachment_url: None,
                                attachment_type: None,
                                is_deleted: true,
                                deleted_at: Some(now),
                                ..old(self).messages@[i]
                            })
                            &&& final(self).messages@[i].content@ == deleted_text()
                        } else if old(self).messages@[i].sender_id == user {
                            final(self).messages@ == old(self).messages@.remove(i)
                        } else {
                            final(self).messages@ == old(self).messages@
                        }
                    },
                Err(e) => {
                    &&& *final(self) == *old(self)
                    &&& if e == EngineError::NotFound {
                        forall|j: int|
                            0 <= j < old(self).messages@.len() ==> old(self).messages@[j].id
                                != msg_id
                    } else {
                        &&& e == EngineError::Forbidden
                        &&& mode == DeleteMode::Everyone
                        &&& exists|i: int|
                            0 <= i < old(self).messages@.len() && old(self).messages@[i].id
                                == msg_id && old(self).messages@[i].sender_id != user
                    }
                },
            },
    {
        let found = self.find_message(msg_id);
        if let Some(idx) = found {
            let ghost i = idx as int;
            let ghost old_msgs = self.messages@;
            match mode {
                DeleteMode::Everyone => {
                    if self.messages[idx].sender_id != user {
                        return Err(EngineError::Forbidden);
                    }
                    let mut msg = self.messages.remove(idx);
                    msg.content = placeholder_deleted();
                    msg.attachment_url = None;
                    msg.attachment_type = None;
                    msg.is_deleted = true;
                    msg.deleted_at = Some(now);
                    let ghost gmsg = msg;
                    self.messages.insert(idx, msg);
                    proof {
                        assert(self.messages@ =~= old_msgs.update(i, gmsg));
                        assert(forall|k: int|
                            0 <= k < self.messages@.len() ==> self.messages@[k].wf());
                    }
                    Ok(())
                },
                DeleteMode::Me => {
                    if self.messages[idx].sender_id == user {
                        let _removed = self.messages.remove(idx);
                        proof {
                            let msgs = self.messages@;
                            assert(forall|k: int|
                                0 <= k < msgs.len() ==> msgs[k] == (if k < i {
                                    old_msgs[k]
                                } else {
                                    old_msgs[k + 1]
                                }));
                            assert(forall|k: int| 0 <= k < msgs.len() ==> msgs[k].wf());
                        }
                    }
                    Ok(())
                },
            }
        } else {
            Err(EngineError::NotFound)
        }
    }
}

/// The placeholder stored in place of deleted content.
fn placeholder_deleted() -> (s: String)
    ensures
        s@ == deleted_text(),
{
    String::from_str("This message was deleted")
}

/// A reaction toggle.
pub struct ReactRequest {
    pub emoji: String,
}

/// A deletion request; the mode word is either for everyone or for oneself.
pub struct DeleteRequest {
    pub mode: String,
}

impl DeleteRequest {
    /// The deletion mode the request names: the word for an everyone-delete
    /// selects it, and anything else is a delete for oneself.
    pub fn delete_mode(&self) -> (m: DeleteMode)
        ensures
            m == (if self.mode@ == "everyone"@ {
                DeleteMode::Everyone
            } else {
                DeleteMode::Me
            }),
    {
        let word = String::from_str("everyone");
        if crate::strutil::str_eq(&self.mode, &word) {
            DeleteMode::Everyone
        } else {
            DeleteMode::Me
        }
    }
}

} // verus!
