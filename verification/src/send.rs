//! Sending a message: the authoritative write. The sender must be a verified
//! account and a participant of the chat, and must not be blocked by the
//! other side of a direct chat. The message is persisted with its lifetime
//! fixed from the chat's disappearing policy, the chat summary is updated,
//! and one notification is created per eligible participant; push delivery to
//! the returned recipients is the caller's best-effort concern.

use vstd::prelude::*;
use crate::model::{Chat, Contact, Location, Message, Poll, PollOption, Profile, RichPayload};
use crate::notify::skip_notification;
use crate::poll::{keeps_voter, remove_voter};
use crate::store::{chat_for, profile_for, EngineError, Store};

verus! {

/// A poll as a client asks for it.
pub struct CreatePollRequest {
    pub question: String,
    pub options: Vec<String>,
    pub is_multiple: bool,
}

/// A contact card as a client sends it.
pub struct ContactRequest {
    pub username: String,
    pub full_name: Option<String>,
    pub avatar_url: Option<String>,
}

/// A location as a client sends it, in microdegrees; a live share may carry a
/// lifetime in minutes.
pub struct LocationRequest {
    pub latitude_microdeg: i64,
    pub longitude_microdeg: i64,
    pub label: Option<String>,
    pub is_live: Option<bool>,
    pub duration_minutes: Option<i32>,
}

/// The one rich payload a draft carries, with an explicit discriminant.
pub enum DraftPayload {
    Text,
    Poll(CreatePollRequest),
    Location(LocationRequest),
    Contact(ContactRequest),
}

/// A message draft: text (and optionally an attachment or ciphertext)
/// together with at most one rich payload.
pub struct SendMessageRequest {
    pub content: String,
    pub attachment_url: Option<String>,
    pub attachment_type: Option<String>,
    pub reply_to_id: Option<u64>,
    pub encrypted_content: Option<String>,
    pub encryption_iv: Option<String>,
    pub payload: DraftPayload,
    pub is_view_once: Option<bool>,
}

/// What a successful send reports back: the new message id and the other
/// participants, to whom the caller may push the message best-effort.
#[derive(Debug, PartialEq, Eq)]
pub struct SendReceipt {
    pub message_id: u64,
    pub recipients: Vec<u64>,
}

/// The first participant other than `user`, the peer of a direct chat.
pub open spec fn direct_other(parts: Seq<u64>, user: u64) -> Option<u64>
    decreases parts.len(),
{
    if parts.len() == 0 {
        None
    } else if parts[0] != user {
        Some(parts[0])
    } else {
        direct_other(parts.drop_first(), user)
    }
}

/// Whether sending into this chat is rejected because the other side of a
/// direct chat has blocked the sender.
pub open spec fn blocked_in_direct(profiles: Seq<Profile>, c: Chat, sender: u64) -> bool {
    !c.is_group && match direct_other(c.participants@, sender) {
        Some(o) => match profile_for(profiles, o) {
            Some(p) => p.blocked_users@.contains(sender),
            None => false,
        },
        None => false,
    }
}

/// The recipients that actually get a notification: every other participant
/// not skipped by the fan-out rules.
pub open spec fn eligible_pred(profiles: Seq<Profile>, actor: u64) -> spec_fn(u64) -> bool {
    |p: u64| !skip_notification(profiles, p, actor)
}

/// The participants, in order, that receive a notification for a message by
/// `actor`.
pub open spec fn eligible_recipients(
    profiles: Seq<Profile>,
    others: Seq<u64>,
    actor: u64,
) -> Seq<u64> {
    others.filter(eligible_pred(profiles, actor))
}

/// The text of the notification a new message produces.
pub open spec fn message_notif_text(c: Chat) -> Seq<char> {
    if c.is_group {
        "sent a message to "@ + match c.name {
            Some(n) => n@,
            None => "group"@,
        }
    } else {
        "sent you a message"@
    }
}

/// Whether the stored payload is the one the draft asked for.
pub open spec fn payload_matches(dp: DraftPayload, mp: RichPayload, now: i64) -> bool {
    match dp {
        DraftPayload::Text => mp is Plain,
        DraftPayload::Poll(req) => match mp {
            RichPayload::Poll(p) => {
                &&& p.question@ == req.question@
                &&& p.is_multiple == req.is_multiple
                &&& !p.is_closed
                &&& p.created_at == now
                &&& p.options@.len() == req.options@.len()
                &&& forall|j: int|
                    0 <= j < req.options@.len() ==> (#[trigger] p.options@[j]).text@
                        == req.options@[j]@ && p.options@[j].voter_ids@ == Seq::<u64>::empty()
            },
            _ => false,
        },
        DraftPayload::Location(req) => match mp {
            RichPayload::Location(l) => {
                &&& l.latitude_microdeg == req.latitude_microdeg
                &&& l.longitude_microdeg == req.longitude_microdeg
                &&& l.label == req.label
                &&& l.is_live == req.is_live
                &&& l.expires_at == match req.duration_minutes {
                    Some(m) => Some((now + m as i64 * 60000) as i64),
                    None => None,
                }
            },
            _ => false,
        },
        DraftPayload::Contact(req) => match mp {
            RichPayload::Contact(c) => {
                &&& c.username == req.username
                &&& c.full_name == req.full_name
                &&& c.avatar_url == req.avatar_url
            },
            _ => false,
        },
    }
}

/// The machine limits a send must fit in: enough identifier headroom for the
/// message and one notification per participant, and no overflow when the
/// disappearing policy or a live-location lifetime is added to `now`.
pub open spec fn send_fits(s: Store, chat_id: u64, draft: SendMessageRequest, now: i64) -> bool {
    &&& s.next_id as int + 1 + (match chat_for(s.chats@, chat_id) {
        Some(c) => c.participants@.len() as int,
        None => 0,
    }) <= u64::MAX as int
    &&& (match chat_for(s.chats@, chat_id) {
        Some(c) => match c.disappearing_duration {
            Some(d) => i64::MIN as int <= now as int + d as int <= i64::MAX as int,
            None => true,
        },
        None => true,
    })
    &&& (match draft.payload {
        DraftPayload::Location(lr) => match lr.duration_minutes {
            Some(m) => i64::MIN as int <= now as int + m as int * 60000 <= i64::MAX as int,
            None => true,
        },
        _ => true,
    })
}

/// The first participant other than `user`, executably.
pub(crate) fn direct_other_exec(parts: &Vec<u64>, user: u64) -> (r: Option<u64>)
    ensures
        r == direct_other(parts@, user),
{
    let mut i: usize = 0;
    proof {
        assert(parts@.subrange(0, parts@.len() as int) =~= parts@);
    }
    while i < parts.len()
        invariant
            i <= parts@.len(),
            direct_other(parts@, user) == direct_other(
                parts@.subrange(i as int, parts@.len() as int),
                user,
            ),
            forall|j: int| 0 <= j < i ==> parts@[j] == user,
        decreases parts@.len() - i,
    {
        if parts[i] != user {
            proof {
                let rest = parts@.subrange(i as int, parts@.len() as int);
                assert(rest[0] == parts@[i as int]);
            }
            return Some(parts[i]);
        }
        proof {
            let rest = parts@.subrange(i as int, parts@.len() as int);
            assert(rest[0] == parts@[i as int]);
            assert(rest.drop_first() =~= parts@.subrange(i + 1, parts@.len() as int));
        }
        i = i + 1;
    }
    proof {
        assert(parts@.subrange(parts@.len() as int, parts@.len() as int).len() == 0);
    }
    None
}

/// The stored poll a poll request creates.
fn build_poll(req: CreatePollRequest, now: i64) -> (p: Poll)
    ensures
        payload_matches(
            DraftPayload::Poll(req),
            RichPayload::Poll(p),
            now,
        ),
{
    let CreatePollRequest { question, options, is_multiple } = req;
    let mut built: Vec<PollOption> = Vec::new();
    let mut i: usize = 0;
    while i < options.len()
        invariant
            i <= options@.len(),
            built@.len() == i,
            forall|j: int|
                0 <= j < i ==> (#[trigger] built@[j]).text@ == options@[j]@
                    && built@[j].voter_ids@ == Seq::<u64>::empty(),
        decreases options@.len() - i,
    {
        built.push(PollOption { text: options[i].clone(), voter_ids: Vec::new() });
        i = i + 1;
    }
    Poll { question, options: built, is_multiple, is_closed: false, created_at: now }
}

impl Store {
    /// Persists one message from `sender` into the chat, updates the chat's
    /// last-message summary, and creates one notification per eligible other
    /// participant. Rejected as forbidden when the sender is unverified or
    /// blocked by the peer of a direct chat, and as not-found when the chat
    /// does not exist or the sender is no participant; rejections leave the
    /// store untouched.
    pub fn send_message(
        &mut self,
        chat_id: u64,
        sender: u64,
        draft: SendMessageRequest,
        now: i64,
    ) -> (r: Result<SendReceipt, EngineError>)
        requires
            old(self).wf(),
            send_fits(*old(self), chat_id, draft, now),
        ensures
            final(self).wf(),
            final(self).profiles@ == old(self).profiles@,
            match r {
                Ok(receipt) => {
                    let chat0 = chat_for(old(self).chats@, chat_id)->Some_0;
                    let others = remove_voter(chat0.participants@, sender);
                    let elig = eligible_recipients(old(self).profiles@, others, sender);
                    let m = final(self).messages@.last();
                    &&& profile_for(old(self).profiles@, sender) is Some
                    &&& profile_for(old(self).profiles@, sender)->Some_0.is_verified
                    &&& chat_for(old(self).chats@, chat_id) is Some
                    &&& chat0.participants@.contains(sender)
                    &&& !blocked_in_direct(old(self).profiles@, chat0, sender)
                    &&& receipt.message_id == old(self).next_id
                    &&& receipt.recipients@ == others
                    &&& final(self).messages@.len() == old(self).messages@.len() + 1
                    &&& final(self).messages@.drop_last() == old(self).messages@
                    &&& m.id == old(self).next_id
                    &&& m.chat_id == chat_id
                    &&& m.sender_id == sender
                    &&& m.content@ == draft.content@
                    &&& m.attachment_url == draft.attachment_url
                    &&& m.attachment_type == draft.attachment_type
                    &&& m.reply_to_id == draft.reply_to_id
                    &&& m.encrypted_content == draft.encrypted_content
                    &&& m.encryption_iv == draft.encryption_iv
                    &&& m.reactions@ == Seq::<crate::model::MessageReaction>::empty()
                    &&& !m.is_deleted
                    &&& m.deleted_at is None
                    &&& m.read_at is None
                    &&& m.viewed_at is None
                    &&& m.is_view_once == (draft.is_view_once == Some(true))
                    &&& m.created_at == now
                    &&& m.expires_at == (match chat0.disappearing_duration {
                        Some(d) => Some((now + d) as i64),
                        None => None,
                    })
                    &&& payload_matches(draft.payload, m.payload, now)
                    &&& (exists|ci: int|
                        {
                            &&& 0 <= ci < old(self).chats@.len()
                            &&& old(self).chats@[ci] == chat0
                            &&& final(self).chats@ == old(self).chats@.update(
                                ci,
                                Chat {
                                    last_message: final(self).chats@[ci].last_message,
                                    last_message_time: now,
                                    ..chat0
                                },
                            )
                            &&& final(self).chats@[ci].last_message is Some
                            &&& final(self).chats@[ci].last_message->0@ == draft.content@
                        })
                    &&& final(self).notifications@.len() == old(self).notifications@.len()
                        + elig.len()
                    &&& final(self).notifications@.subrange(
                        0,
                        old(self).notifications@.len() as int,
                    ) == old(self).notifications@
                    &&& (forall|j: int|
                        0 <= j < elig.len() ==> {
                            let n = #[trigger] final(self).notifications@[old(
                                self,
                            ).notifications@.len() + j];
                            &&& n.id == old(self).next_id + 1 + j
                            &&& n.user_id == elig[j]
                            &&& n.actor_id == sender
                            &&& n.notification_type@ == "message"@
                            &&& n.target_id == Some(chat_id)
                            &&& n.content@ == message_notif_text(chat0)
                            &&& !n.is_read
                            &&& n.created_at == now
                        })
                    &&& final(self).next_id == old(self).next_id + 1 + elig.len()
                },
                Err(e) => {
                    &&& *final(self) == *old(self)
                    &&& if !(profile_for(old(self).profiles@, sender) is Some && profile_for(
                        old(self).profiles@,
                        sender,
                    )->Some_0.is_verified) {
                        e == EngineError::Forbidden
                    } else if chat_for(old(self).chats@, chat_id) is None {
                        e == EngineError::NotFound
                    } else if !chat_for(old(self).chats@, chat_id)->Some_0.participants@.contains(
                        sender,
                    ) {
                        e == EngineError::Forbidden
                    } else {
                        &&& e == EngineError::Forbidden
                        &&& blocked_in_direct(
                            old(self).profiles@,
                            chat_for(old(self).chats@, chat_id)->Some_0,
                            sender,
                        )
                    }
                },
            },
    {
        // Account verification, an external collaborator's mark on the profile.
        let verified = match self.find_profile(sender) {
            Some(i) => self.profiles[i].is_verified,
            None => false,
        };
        if !verified {
            return Err(EngineError::Forbidden);
        }
        // Participation: an absent chat is not found, an existing chat the
        // sender does not belong to is off limits.
        let ci = match self.find_chat(chat_id) {
            Some(ci) => ci,
            None => { return Err(EngineError::NotFound) },
        };
        if !crate::model::contains_u64(&self.chats[ci].participants, sender) {
            return Err(EngineError::Forbidden);
        }
        // Block check for direct chats.
        if !self.chats[ci].is_group {
            let other = direct_other_exec(&self.chats[ci].participants, sender);
            if let Some(o) = other {
                let blocked = match self.find_profile(o) {
                    Some(pi) => self.profiles[pi].has_blocked(sender),
                    None => false,
                };
                if blocked {
                    return Err(EngineError::Forbidden);
                }
            }
        }

        let ghost old_store = *self;
        let ghost gdraft = draft;
        let ghost chat0 = self.chats@[ci as int];
        let msg_id = self.next_id;
        self.next_id = self.next_id + 1;

        // Build and persist the message: the authoritative write comes first.
        let expires_at = match self.chats[ci].disappearing_duration {
            Some(d) => Some(now + d),
            None => None,
        };
        let SendMessageRequest {
            content,
            attachment_url,
            attachment_type,
            reply_to_id,
            encrypted_content,
            encryption_iv,
            payload,
            is_view_once,
        } = draft;
        let ghost draft_payload = payload;
        let stored_payload = match payload {
            DraftPayload::Text => RichPayload::Plain,
            DraftPayload::Poll(req) => RichPayload::Poll(build_poll(req, now)),
            DraftPayload::Location(req) => {
                let LocationRequest {
                    latitude_microdeg,
                    longitude_microdeg,
                    label,
                    is_live,
                    duration_minutes,
                } = req;
                let loc_expires = match duration_minutes {
                    Some(m) => Some(now + (m as i64) * 60000),
                    None => None,
                };
                RichPayload::Location(
                    Location {
                        latitude_microdeg,
                        longitude_microdeg,
                        label,
                        is_live,
                        expires_at: loc_expires,
                    },
                )
            },
            DraftPayload::Contact(req) => {
                let ContactRequest { username, full_name, avatar_url } = req;
                RichPayload::Contact(Contact { username, full_name, avatar_url })
            },
        };
        let last_message_text = content.clone();
        let view_once = match is_view_once {
            Some(true) => true,
            _ => false,
        };
        let new_msg = Message {
            id: msg_id,
            chat_id,
            sender_id: sender,
            content,
            encrypted_content,
            encryption_iv,
            attachment_url,
            attachment_type,
            reply_to_id,
            reactions: Vec::new(),
            is_deleted: false,
            deleted_at: None,
            read_at: None,
            payload: stored_payload,
            is_view_once: view_once,
            viewed_at: None,
            expires_at,
            created_at: now,
        };
        let ghost gmsg = new_msg;
        self.messages.push(new_msg);
        proof {
            assert(self.messages@.drop_last() =~= old_store.messages@);
            assert(payload_matches(gdraft.payload, gmsg.payload, now));
        }

        // Update the chat's last-message summary.
        let ghost chats_before = self.chats@;
        let mut chat = self.chats.remove(ci);
        chat.last_message = Some(last_message_text);
        chat.last_message_time = now;
        let ghost gchat = chat;
        self.chats.insert(ci, chat);
        proof {
            assert(self.chats@ =~= old_store.chats@.update(ci as int, gchat));
            assert(forall|k: int|
                0 <= k < self.chats@.len() ==> self.chats@[k].id == old_store.chats@[k].id);
            assert(crate::store::chat_ids_ok(self.chats@, self.next_id));
            assert(crate::model::reactions_unique(gmsg.reactions@)) by {
                assert(gmsg.reactions@.len() == 0);
            }
            assert(forall|k: int|
                0 <= k < self.messages@.len() ==> #[trigger] self.messages@[k].wf());
            assert(crate::store::message_ids_ok(self.messages@, self.next_id));
            assert(self.wf());
        }

        // Fan out one notification per eligible participant and collect the
        // push recipients.
        let parts = clone_u64_vec(&self.chats[ci].participants);
        proof {
            assert(parts@ == chat0.participants@);
        }
        let notif_type = String::from_str("message");
        let group_label = String::from_str("group");
        let text = if self.chats[ci].is_group {
            let name = match &self.chats[ci].name {
                Some(n) => n.clone(),
                None => group_label,
            };
            String::from_str("sent a message to ").concat(name.as_str())
        } else {
            String::from_str("sent you a message")
        };
        proof {
            assert(text@ == message_notif_text(chat0));
        }
        let mut recipients: Vec<u64> = Vec::new();
        let ghost base_len = old_store.notifications@.len() as int;
        let ghost base_next = old_store.next_id;
        let mut k: usize = 0;
        proof {
            reveal(Seq::filter);
            assert(parts@.subrange(0, 0).filter(keeps_voter(sender)) =~= Seq::<u64>::empty());
            assert(remove_voter(parts@.subrange(0, 0), sender).filter(
                eligible_pred(old_store.profiles@, sender),
            ) =~= Seq::<u64>::empty());
        }
        while k < parts.len()
            invariant
                self.wf(),
                k <= parts@.len(),
                (ci as int) < old_store.chats@.len(),
                parts@ == chat0.participants@,
                base_len == old_store.notifications@.len() as int,
                base_next == old_store.next_id,
                old_store.next_id as int + 1 + parts@.len() <= u64::MAX as int,
                self.chats@ == old_store.chats@.update(ci as int, gchat),
                self.messages@ == old_store.messages@.push(gmsg),
                self.profiles@ == old_store.profiles@,
                text@ == message_notif_text(chat0),
                notif_type@ == "message"@,
                recipients@ == remove_voter(parts@.subrange(0, k as int), sender),
                ({
                    let elig_pref = eligible_recipients(
                        old_store.profiles@,
                        remove_voter(parts@.subrange(0, k as int), sender),
                        sender,
                    );
                    &&& self.notifications@.len() == base_len + elig_pref.len()
                    &&& self.notifications@.subrange(0, base_len)
                        == old_store.notifications@
                    &&& self.next_id as int == base_next as int + 1 + elig_pref.len()
                    &&& (forall|j: int|
                        0 <= j < elig_pref.len() ==> {
                            let n = #[trigger] self.notifications@[base_len + j];
                            &&& n.id == base_next + 1 + j
                            &&& n.user_id == elig_pref[j]
                            &&& n.actor_id == sender
                            &&& n.notification_type@ == "message"@
                            &&& n.target_id == Some(chat_id)
                            &&& n.content@ == message_notif_text(chat0)
                            &&& !n.is_read
                            &&& n.created_at == now
                        })
                }),
            decreases parts@.len() - k,
        {
            let ghost pre = parts@.subrange(0, k as int);
            let ghost ext = parts@.subrange(0, k as int + 1);
            let ghost others_pre = remove_voter(pre, sender);
            let ghost others_ext = remove_voter(ext, sender);
            let ghost epred = eligible_pred(old_store.profiles@, sender);
            proof {
                reveal(Seq::filter);
                assert(ext.drop_last() =~= pre);
                assert(ext.last() == parts@[k as int]);
            }
            let p = parts[k];
            if p != sender {
                proof {
                    reveal(Seq::filter);
                    assert(others_ext == others_pre.push(p));
                    assert(others_ext.drop_last() =~= others_pre);
                    pre.lemma_filter_len(keeps_voter(sender));
                    others_pre.lemma_filter_len(epred);
                    let elig_pref = eligible_recipients(old_store.profiles@, others_pre, sender);
                    assert(elig_pref.len() <= others_pre.len());
                    assert(others_pre.len() <= pre.len());
                    assert(pre.len() == k as int);
                    assert(self.next_id as int == base_next as int + 1 + elig_pref.len());
                    assert(self.next_id < u64::MAX);
                }
                recipients.push(p);
                let ghost notifs_pre = self.notifications@;
                let created = self.create_notification(
                    p,
                    sender,
                    notif_type.clone(),
                    Some(chat_id),
                    text.clone(),
                    now,
                );
                proof {
                    reveal(Seq::filter);
                    let elig_pre = others_pre.filter(epred);
                    let elig_ext = others_ext.filter(epred);
                    assert(elig_ext == if epred(p) {
                        elig_pre.push(p)
                    } else {
                        elig_pre
                    });
                    if epred(p) {
                        assert(created is Some);
                        assert(self.notifications@.drop_last() == notifs_pre);
                        assert(self.notifications@ =~= notifs_pre.push(
                            self.notifications@.last(),
                        ));
                        assert(notifs_pre.len() >= base_len);
                        assert(self.notifications@.subrange(0, base_len) =~= notifs_pre.subrange(
                            0,
                            base_len,
                        ));
                        assert(forall|j: int|
                            0 <= j < elig_pre.len() ==> #[trigger] self.notifications@[base_len
                                + j] == notifs_pre[base_len + j]);
                    } else {
                        assert(created is None);
                    }
                }
            } else {
                proof {
                    reveal(Seq::filter);
                    assert(others_ext =~= others_pre);
                }
            }
            k = k + 1;
        }
        proof {
            assert(parts@.subrange(0, parts@.len() as int) =~= parts@);
            assert(self.messages@.last() == gmsg);
            assert((ci as int) < old_store.chats@.len());
            assert(old_store.chats@[ci as int] == chat0);
            assert(gchat == (Chat {
                last_message: gchat.last_message,
                last_message_time: now,
                ..chat0
            }));
            assert(self.chats@[ci as int] == gchat);
            assert(self.chats@[ci as int].last_message is Some);
            assert(self.chats@[ci as int].last_message->0@ == gdraft.content@);
        }
        Ok(SendReceipt { message_id: msg_id, recipients })
    }
}

/// A copy of a vector of identifiers.
fn clone_u64_vec(v: &Vec<u64>) -> (out: Vec<u64>)
    ensures
        out@ == v@,
{
    let mut out: Vec<u64> = Vec::new();
    let mut i: usize = 0;
    while i < v.len()
        invariant
            i <= v@.len(),
            out@ == v@.subrange(0, i as int),
        decreases v@.len() - i,
    {
        out.push(v[i]);
        proof {
            assert(out@ =~= v@.subrange(0, i + 1));
        }
        i = i + 1;
    }
    proof {
        assert(out@ =~= v@);
    }
    out
}

} // verus!
