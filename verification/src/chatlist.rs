//! The chat overview a user sees: one entry per chat they belong to, with
//! the unread count, mute state, the other side's profile and live presence
//! for a direct chat, and the member and admin lists for a group. A direct
//! chat whose peer has no profile is omitted, as its entry could not be
//! rendered.

use vstd::prelude::*;
use vstd::multiset::Multiset;
use crate::model::{Chat, Message, Profile};
use crate::presence::{online_at, PresenceTracker};
use crate::render::LocationResponse;
use crate::send::direct_other;
use crate::store::{profile_for, Store};
use crate::strutil::{hex16_of, id_hex};

verus! {

/// One member of a group, as shown in the overview.
pub struct ChatParticipant {
    pub user_id: String,
    pub username: String,
    pub avatar_url: Option<String>,
}

/// The other side of a direct chat, as shown in the overview.
pub struct ProfileSummary {
    pub user_id: String,
    pub username: String,
    pub avatar_url: Option<String>,
    pub public_key: Option<String>,
    pub is_online: bool,
    pub last_seen: Option<i64>,
    pub last_location: Option<LocationResponse>,
}

/// One chat in the overview.
pub struct ChatResponse {
    pub id: String,
    pub is_group: bool,
    pub name: String,
    pub avatar_url: Option<String>,
    pub participant: Option<ProfileSummary>,
    pub last_message: Option<String>,
    pub last_message_time: i64,
    pub unread_count: u64,
    pub group_participants: Option<Vec<ChatParticipant>>,
    pub admins: Option<Vec<String>>,
    pub is_muted: bool,
    pub disappearing_duration: Option<i64>,
}

/// How many messages of this chat the user has not read: sent by someone
/// else and without a read receipt.
pub open spec fn unread_count(ms: Seq<Message>, chat_id: u64, user: u64) -> int
    decreases ms.len(),
{
    if ms.len() == 0 {
        0
    } else {
        unread_count(ms.drop_last(), chat_id, user) + if ms.last().chat_id == chat_id
            && ms.last().sender_id != user && ms.last().read_at is None {
            1int
        } else {
            0int
        }
    }
}

/// The unread count never exceeds the number of messages.
pub proof fn lemma_unread_count_le_len(ms: Seq<Message>, chat_id: u64, user: u64)
    ensures
        0 <= unread_count(ms, chat_id, user) <= ms.len(),
    decreases ms.len(),
{
    if ms.len() > 0 {
        lemma_unread_count_le_len(ms.drop_last(), chat_id, user);
    }
}

/// The peer shown for a direct chat: the first participant who is not the
/// user, or the user themself when there is no other.
pub open spec fn peer_of(parts: Seq<u64>, user: u64) -> u64 {
    match direct_other(parts, user) {
        Some(o) => o,
        None => user,
    }
}

/// Whether a chat produces an entry in the user's overview.
pub open spec fn chat_listed(ps: Seq<Profile>, user: u64) -> spec_fn(Chat) -> bool {
    |c: Chat| c.participants@.contains(user) && (c.is_group || profile_for(ps, peer_of(c.participants@, user))
        is Some)
}

/// Whether a participant has a profile to show.
pub open spec fn has_profile(ps: Seq<Profile>) -> spec_fn(u64) -> bool {
    |uid: u64| profile_for(ps, uid) is Some
}

/// Whether the user has muted this chat.
pub open spec fn chat_muted(ps: Seq<Profile>, user: u64, chat_id: u64) -> bool {
    match profile_for(ps, user) {
        Some(p) => p.muted_chats@.contains(chat_id),
        None => false,
    }
}

/// What a correct overview entry looks like.
pub open spec fn chat_view_ok(
    c: Chat,
    user: u64,
    ps: Seq<Profile>,
    ms: Seq<Message>,
    presence: Seq<(u64, i64)>,
    now: i64,
    r: ChatResponse,
) -> bool {
    &&& r.id@ == hex16_of(c.id)
    &&& r.is_group == c.is_group
    &&& r.last_message == c.last_message
    &&& r.last_message_time == c.last_message_time
    &&& r.unread_count == unread_count(ms, c.id, user)
    &&& r.is_muted == chat_muted(ps, user, c.id)
    &&& r.disappearing_duration == c.disappearing_duration
    &&& if c.is_group {
        &&& r.name@ == (match c.name {
            Some(n) => n@,
            None => "Untitled Group"@,
        })
        &&& r.avatar_url == c.avatar_url
        &&& r.participant is None
        &&& (match r.group_participants {
            Some(gps) => {
                let present = c.participants@.filter(has_profile(ps));
                &&& gps@.len() == present.len()
                &&& forall|j: int|
                    0 <= j < present.len() ==> {
                        let p = profile_for(ps, present[j])->Some_0;
                        &&& (#[trigger] gps@[j]).user_id@ == hex16_of(present[j])
                        &&& gps@[j].username@ == p.username@
                        &&& gps@[j].avatar_url == p.avatar_url
                    }
            },
            None => false,
        })
        &&& (match r.admins {
            Some(adm) => adm@.len() == c.admins@.len() && forall|j: int|
                0 <= j < c.admins@.len() ==> (#[trigger] adm@[j])@ == hex16_of(c.admins@[j]),
            None => false,
        })
    } else {
        let peer = peer_of(c.participants@, user);
        match profile_for(ps, peer) {
            Some(p) => {
                &&& r.name@ == p.username@
                &&& r.avatar_url == p.avatar_url
                &&& r.group_participants is None
                &&& r.admins is None
                &&& (match r.participant {
                    Some(s) => {
                        &&& s.user_id@ == hex16_of(peer)
                        &&& s.username@ == p.username@
                        &&& s.avatar_url == p.avatar_url
                        &&& s.public_key == p.public_key
                        &&& s.is_online == online_at(presence, peer, now)
                        &&& s.last_seen == p.last_seen_at
                        &&& (match p.last_location {
                            Some(l) => match s.last_location {
                                Some(lr) => {
                                    &&& lr.latitude_microdeg == l.latitude_microdeg
                                    &&& lr.longitude_microdeg == l.longitude_microdeg
                                    &&& lr.label == l.label
                                    &&& lr.is_live == l.is_live
                                    &&& lr.expires_at == l.expires_at
                                },
                                None => false,
                            },
                            None => s.last_location is None,
                        })
                    },
                    None => false,
                })
            },
            None => false,
        }
    }
}

/// The first participant other than `user`, executably; reused from the
/// sending path's peer lookup.
fn peer_of_exec(parts: &Vec<u64>, user: u64) -> (r: u64)
    ensures
        r == peer_of(parts@, user),
{
    match crate::send::direct_other_exec(parts, user) {
        Some(o) => o,
        None => user,
    }
}

impl Store {
    /// Counts the chat's messages the user has not read.
    fn count_unread(&self, chat_id: u64, user: u64) -> (r: u64)
        ensures
            r == unread_count(self.messages@, chat_id, user),
    {
        let mut count: u64 = 0;
        let mut i: usize = 0;
        proof {
            assert(self.messages@.subrange(0, 0).len() == 0);
        }
        while i < self.messages.len()
            invariant
                i <= self.messages@.len(),
                count == unread_count(self.messages@.subrange(0, i as int), chat_id, user),
                count <= i,
            decreases self.messages@.len() - i,
        {
            let ghost pre = self.messages@.subrange(0, i as int);
            let ghost ext = self.messages@.subrange(0, i + 1);
            proof {
                assert(ext.drop_last() =~= pre);
                assert(ext.last() == self.messages@[i as int]);
                lemma_unread_count_le_len(pre, chat_id, user);
            }
            let m = &self.messages[i];
            if m.chat_id == chat_id && m.sender_id != user && m.read_at.is_none() {
                count = count + 1;
            }
            i = i + 1;
        }
        proof {
            assert(self.messages@.subrange(0, self.messages@.len() as int) =~= self.messages@);
        }
        count
    }

    /// Whether the user has muted this chat.
    fn is_muted(&self, user: u64, chat_id: u64) -> (r: bool)
        ensures
            r == chat_muted(self.profiles@, user, chat_id),
    {
        match self.find_profile(user) {
            Some(i) => crate::model::contains_u64(&self.profiles[i].muted_chats, chat_id),
            None => false,
        }
    }

    /// Renders one overview entry of a chat that can be shown: a group, or a
    /// direct chat whose peer has a profile.
    fn render_chat(&self, c: &Chat, user: u64, presence: &PresenceTracker, now: i64) -> (r:
        ChatResponse)
        requires
            c.is_group || profile_for(self.profiles@, peer_of(c.participants@, user)) is Some,
        ensures
            chat_view_ok(
                *c,
                user,
                self.profiles@,
                self.messages@,
                presence.entries@,
                now,
                r,
            ),
    {
        let unread = self.count_unread(c.id, user);
        let muted = self.is_muted(user, c.id);
        if c.is_group {
            let mut gps: Vec<ChatParticipant> = Vec::new();
            let mut i: usize = 0;
            proof {
                reveal(Seq::filter);
                assert(c.participants@.subrange(0, 0).filter(has_profile(self.profiles@))
                    =~= Seq::<u64>::empty());
            }
            while i < c.participants.len()
                invariant
                    i <= c.participants@.len(),
                    ({
                        let present = c.participants@.subrange(0, i as int).filter(
                            has_profile(self.profiles@),
                        );
                        &&& gps@.len() == present.len()
                        &&& forall|j: int|
                            0 <= j < present.len() ==> {
                                let p = profile_for(self.profiles@, present[j])->Some_0;
                                &&& (#[trigger] gps@[j]).user_id@ == hex16_of(present[j])
                                &&& gps@[j].username@ == p.username@
                                &&& gps@[j].avatar_url == p.avatar_url
                            }
                    }),
                decreases c.participants@.len() - i,
            {
                let ghost pre = c.participants@.subrange(0, i as int);
                let ghost ext = c.participants@.subrange(0, i + 1);
                proof {
                    reveal(Seq::filter);
                    assert(ext.drop_last() =~= pre);
                    assert(ext.last() == c.participants@[i as int]);
                }
                let pid = c.participants[i];
                match self.find_profile(pid) {
                    Some(pi) => {
                        gps.push(
                            ChatParticipant {
                                user_id: id_hex(pid),
                                username: self.profiles[pi].username.clone(),
                                avatar_url: self.profiles[pi].avatar_url.clone(),
                            },
                        );
                        proof {
                            assert(has_profile(self.profiles@)(pid));
                            assert(ext.filter(has_profile(self.profiles@)) == pre.filter(
                                has_profile(self.profiles@),
                            ).push(pid));
                        }
                    },
                    None => {
                        proof {
                            assert(!has_profile(self.profiles@)(pid));
                            assert(ext.filter(has_profile(self.profiles@)) == pre.filter(
                                has_profile(self.profiles@),
                            ));
                        }
                    },
                }
                i = i + 1;
            }
            proof {
                assert(c.participants@.subrange(0, c.participants@.len() as int)
                    =~= c.participants@);
            }
            let mut adm: Vec<String> = Vec::new();
            let mut k: usize = 0;
            while k < c.admins.len()
                invariant
                    k <= c.admins@.len(),
                    adm@.len() == k,
                    forall|j: int|
                        0 <= j < k ==> (#[trigger] adm@[j])@ == hex16_of(c.admins@[j]),
                decreases c.admins@.len() - k,
            {
                adm.push(id_hex(c.admins[k]));
                k = k + 1;
            }
            let name = match &c.name {
                Some(n) => n.clone(),
                None => String::from_str("Untitled Group"),
            };
            ChatResponse {
                id: id_hex(c.id),
                is_group: true,
                name,
                avatar_url: c.avatar_url.clone(),
                participant: None,
                last_message: c.last_message.clone(),
                last_message_time: c.last_message_time,
                unread_count: unread,
                group_participants: Some(gps),
                admins: Some(adm),
                is_muted: muted,
                disappearing_duration: c.disappearing_duration,
            }
        } else {
            let peer = peer_of_exec(&c.participants, user);
            let pi = match self.find_profile(peer) {
                Some(pi) => pi,
                None => {
                    proof {
                        assert(false);
                    }
                    0
                },
            };
            let p = &self.profiles[pi];
            let last_location = match &p.last_location {
                Some(l) => Some(
                    LocationResponse {
                        latitude_microdeg: l.latitude_microdeg,
                        longitude_microdeg: l.longitude_microdeg,
                        label: l.label.clone(),
                        is_live: l.is_live,
                        expires_at: l.expires_at,
                    },
                ),
                None => None,
            };
            let summary = ProfileSummary {
                user_id: id_hex(peer),
                username: p.username.clone(),
                avatar_url: p.avatar_url.clone(),
                public_key: p.public_key.clone(),
                is_online: presence.is_online(peer, now),
                last_seen: p.last_seen_at,
                last_location,
            };
            ChatResponse {
                id: id_hex(c.id),
                is_group: false,
                name: p.username.clone(),
                avatar_url: p.avatar_url.clone(),
                participant: Some(summary),
                last_message: c.last_message.clone(),
                last_message_time: c.last_message_time,
                unread_count: unread,
                group_participants: None,
                admins: None,
                is_muted: muted,
                disappearing_duration: c.disappearing_duration,
            }
        }
    }

    /// The indices of the chats the user's overview shows, arranged most
    /// recent first.
    fn sorted_chat_indices(&self, user: u64) -> (idxs: Vec<usize>)
        ensures
            forall|k: int| 0 <= k < idxs@.len() ==> (#[trigger] idxs@[k]) < self.chats@.len(),
            forall|k: int|
                0 <= k < idxs@.len() ==> {
                    let c = self.chats@[#[trigger] idxs@[k] as int];
                    c.participants@.contains(user) && (c.is_group || profile_for(
                        self.profiles@,
                        peer_of(c.participants@, user),
                    ) is Some)
                },
            chats_at(self.chats@, idxs@).to_multiset() == self.chats@.filter(
                chat_listed(self.profiles@, user),
            ).to_multiset(),
            recency_sorted(chats_at(self.chats@, idxs@)),
    {
        let mut idxs: Vec<usize> = Vec::new();
        let mut i: usize = 0;
        proof {
            reveal(Seq::filter);
            broadcast use vstd::seq_lib::group_to_multiset_ensures;

            assert(chats_at(self.chats@, idxs@) =~= Seq::<Chat>::empty());
            assert(self.chats@.subrange(0, 0).filter(chat_listed(self.profiles@, user))
                =~= Seq::<Chat>::empty());
            assert(Seq::<Chat>::empty().to_multiset() =~= Multiset::<Chat>::empty());
        }
        while i < self.chats.len()
            invariant
                i <= self.chats@.len(),
                forall|k: int| 0 <= k < idxs@.len() ==> (#[trigger] idxs@[k]) < self.chats@.len(),
                forall|k: int|
                    0 <= k < idxs@.len() ==> {
                        let c = self.chats@[#[trigger] idxs@[k] as int];
                        c.participants@.contains(user) && (c.is_group || profile_for(
                            self.profiles@,
                            peer_of(c.participants@, user),
                        ) is Some)
                    },
                chats_at(self.chats@, idxs@).to_multiset() == self.chats@.subrange(
                    0,
                    i as int,
                ).filter(chat_listed(self.profiles@, user)).to_multiset(),
                recency_sorted(chats_at(self.chats@, idxs@)),
            decreases self.chats@.len() - i,
        {
            let ghost pre = self.chats@.subrange(0, i as int);
            let ghost ext = self.chats@.subrange(0, i + 1);
            let ghost lpred = chat_listed(self.profiles@, user);
            proof {
                reveal(Seq::filter);
                assert(ext.drop_last() =~= pre);
                assert(ext.last() == self.chats@[i as int]);
            }
            let c = &self.chats[i];
            let listed = crate::model::contains_u64(&c.participants, user) && (c.is_group
                || self.find_profile(peer_of_exec(&c.participants, user)).is_some());
            if listed {
                let key = c.last_message_time;
                let ghost old_idxs = idxs@;
                let mut j: usize = 0;
                while j < idxs.len() && self.chats[idxs[j]].last_message_time >= key
                    invariant
                        idxs@ == old_idxs,
                        j <= idxs@.len(),
                        forall|k: int|
                            0 <= k < idxs@.len() ==> (#[trigger] idxs@[k]) < self.chats@.len(),
                        forall|jj: int|
                            0 <= jj < j ==> self.chats@[#[trigger] idxs@[jj] as int].last_message_time
                                >= key,
                    decreases idxs@.len() - j,
                {
                    j = j + 1;
                }
                idxs.insert(j, i);
                proof {
                    broadcast use vstd::seq_lib::group_to_multiset_ensures;

                    let mapped_old = chats_at(self.chats@, old_idxs);
                    let mapped_new = chats_at(self.chats@, idxs@);
                    assert(mapped_new =~= mapped_old.insert(j as int, self.chats@[i as int]));
                    crate::store::lemma_to_multiset_insert(
                        mapped_old,
                        j as int,
                        self.chats@[i as int],
                    );
                    assert(lpred(ext.last()));
                    assert(ext.filter(lpred) == pre.filter(lpred).push(self.chats@[i as int]));
                    assert(recency_sorted(mapped_new)) by {
                        assert forall|k1: int, k2: int|
                            0 <= k1 < k2 < mapped_new.len() implies mapped_new[k1].last_message_time
                            >= mapped_new[k2].last_message_time by {
                            if k2 < j {
                            } else if k1 < j && k2 == j {
                                assert(mapped_old[k1] == mapped_new[k1]);
                            } else if k1 < j && k2 > j {
                                assert(mapped_new[k2] == mapped_old[k2 - 1]);
                            } else if k1 == j {
                                assert(mapped_new[k2] == mapped_old[k2 - 1]);
                                if (j as int) < old_idxs.len() {
                                    assert(mapped_old[j as int].last_message_time < key);
                                }
                            } else {
                                assert(mapped_new[k1] == mapped_old[k1 - 1]);
                                assert(mapped_new[k2] == mapped_old[k2 - 1]);
                            }
                        }
                    }
                }
            } else {
                proof {
                    reveal(Seq::filter);
                    assert(!lpred(ext.last()));
                    assert(ext.filter(lpred) == pre.filter(lpred));
                }
            }
            i = i + 1;
        }
        proof {
            assert(self.chats@.subrange(0, self.chats@.len() as int) =~= self.chats@);
        }
        idxs
    }

    /// The user's chat overview: one entry per chat they belong to that can
    /// be shown, most recent first.
    pub fn list_chats(&self, user: u64, presence: &PresenceTracker, now: i64) -> (out: Vec<
        ChatResponse,
    >)
        ensures
            exists|sorted: Seq<Chat>|
                {
                    &&& sorted.to_multiset() == self.chats@.filter(
                        chat_listed(self.profiles@, user),
                    ).to_multiset()
                    &&& recency_sorted(sorted)
                    &&& out@.len() == sorted.len()
                    &&& forall|k: int|
                        0 <= k < sorted.len() ==> chat_view_ok(
                            sorted[k],
                            user,
                            self.profiles@,
                            self.messages@,
                            presence.entries@,
                            now,
                            #[trigger] out@[k],
                        )
                },
            forall|k1: int, k2: int|
                0 <= k1 < k2 < out@.len() ==> (#[trigger] out@[k1]).last_message_time
                    >= (#[trigger] out@[k2]).last_message_time,
    {
        let idxs = self.sorted_chat_indices(user);
        let mut out: Vec<ChatResponse> = Vec::new();
        let mut k: usize = 0;
        while k < idxs.len()
            invariant
                k <= idxs@.len(),
                out@.len() == k,
                forall|j: int| 0 <= j < idxs@.len() ==> (#[trigger] idxs@[j]) < self.chats@.len(),
                forall|j: int|
                    0 <= j < idxs@.len() ==> {
                        let c = self.chats@[#[trigger] idxs@[j] as int];
                        c.participants@.contains(user) && (c.is_group || profile_for(
                            self.profiles@,
                            peer_of(c.participants@, user),
                        ) is Some)
                    },
                forall|j: int|
                    0 <= j < k ==> chat_view_ok(
                        self.chats@[idxs@[j] as int],
                        user,
                        self.profiles@,
                        self.messages@,
                        presence.entries@,
                        now,
                        #[trigger] out@[j],
                    ),
            decreases idxs@.len() - k,
        {
            let ci = idxs[k];
            let entry = self.render_chat(&self.chats[ci], user, presence, now);
            out.push(entry);
            k = k + 1;
        }
        proof {
            let sorted = chats_at(self.chats@, idxs@);
            assert(out@.len() == sorted.len());
            assert(forall|j: int|
                0 <= j < sorted.len() ==> chat_view_ok(
                    sorted[j],
                    user,
                    self.profiles@,
                    self.messages@,
                    presence.entries@,
                    now,
                    #[trigger] out@[j],
                ));
            assert forall|k1: int, k2: int|
                0 <= k1 < k2 < out@.len() implies (#[trigger] out@[k1]).last_message_time
                >= (#[trigger] out@[k2]).last_message_time by {
                assert(out@[k1].last_message_time == sorted[k1].last_message_time);
                assert(out@[k2].last_message_time == sorted[k2].last_message_time);
            }
        }
        out
    }
}

/// The chats standing at the given indices, in that order.
pub open spec fn chats_at(cs: Seq<Chat>, idxs: Seq<usize>) -> Seq<Chat> {
    Seq::new(idxs.len(), |k: int| cs[idxs[k] as int])
}

/// Most recent first: earlier entries never carry an older last message.
pub open spec fn recency_sorted(cs: Seq<Chat>) -> bool {
    forall|k1: int, k2: int|
        0 <= k1 < k2 < cs.len() ==> (#[trigger] cs[k1]).last_message_time
            >= (#[trigger] cs[k2]).last_message_time
}

} // verus!
