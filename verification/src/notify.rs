//! Notification fan-out: durable notification records, created once per
//! qualifying event, never for oneself and never across a block, and only
//! ever flipped to read afterwards.

use vstd::prelude::*;
use vstd::multiset::Multiset;
use crate::model::{Notification, Profile};
use crate::strutil::{hex16_of, id_hex};
use crate::store::{profile_for, EngineError, Store};

verus! {

/// Whether fan-out skips this recipient entirely: one never notifies oneself,
/// and never a recipient who has blocked the actor.
pub open spec fn skip_notification(profiles: Seq<Profile>, recipient: u64, actor: u64) -> bool {
    recipient == actor || match profile_for(profiles, recipient) {
        Some(p) => p.blocked_users@.contains(actor),
        None => false,
    }
}

impl Store {
    /// Creates exactly one notification for `recipient`, unless fan-out skips
    /// it, in which case nothing changes. Returns the id of the new record.
    pub fn create_notification(
        &mut self,
        recipient: u64,
        actor: u64,
        notification_type: String,
        target_id: Option<u64>,
        content: String,
        now: i64,
    ) -> (r: Option<u64>)
        requires
            old(self).wf(),
            old(self).next_id < u64::MAX,
        ensures
            final(self).wf(),
            final(self).chats@ == old(self).chats@,
            final(self).messages@ == old(self).messages@,
            final(self).profiles@ == old(self).profiles@,
            if skip_notification(old(self).profiles@, recipient, actor) {
                &&& r is None
                &&& *final(self) == *old(self)
            } else {
                &&& r == Some(old(self).next_id)
                &&& final(self).next_id == old(self).next_id + 1
                &&& final(self).notifications@.len() == old(self).notifications@.len() + 1
                &&& final(self).notifications@.drop_last() == old(self).notifications@
                &&& final(self).notifications@.last() == (Notification {
                    id: old(self).next_id,
                    user_id: recipient,
                    actor_id: actor,
                    notification_type: final(self).notifications@.last().notification_type,
                    target_id,
                    content: final(self).notifications@.last().content,
                    is_read: false,
                    created_at: now,
                })
                &&& final(self).notifications@.last().notification_type@ == notification_type@
                &&& final(self).notifications@.last().content@ == content@
            },
    {
        if recipient == actor {
            return None;
        }
        let blocked = match self.find_profile(recipient) {
            Some(i) => self.profiles[i].has_blocked(actor),
            None => false,
        };
        if blocked {
            return None;
        }
        let ghost old_notifs = self.notifications@;
        let id = self.next_id;
        self.notifications.push(
            Notification {
                id,
                user_id: recipient,
                actor_id: actor,
                notification_type,
                target_id,
                content,
                is_read: false,
                created_at: now,
            },
        );
        self.next_id = self.next_id + 1;
        proof {
            assert(self.notifications@.drop_last() =~= old_notifs);
        }
        Some(id)
    }

    /// The index of the notification with the given id, if any.
    fn find_notification(&self, notif_id: u64) -> (r: Option<usize>)
        ensures
            match r {
                Some(i) => i < self.notifications@.len() && self.notifications@[i as int].id
                    == notif_id,
                None => forall|j: int|
                    0 <= j < self.notifications@.len() ==> self.notifications@[j].id != notif_id,
            },
    {
        let mut i: usize = 0;
        while i < self.notifications.len()
            invariant
                i <= self.notifications@.len(),
                forall|j: int| 0 <= j < i ==> self.notifications@[j].id != notif_id,
            decreases self.notifications@.len() - i,
        {
            if self.notifications[i].id == notif_id {
                return Some(i);
            }
            i = i + 1;
        }
        None
    }

    /// Flips one notification to read, when it exists and belongs to the
    /// caller; otherwise nothing changes and the call still succeeds.
    pub fn mark_notification_read(&mut self, notif_id: u64, user: u64) -> (r: Result<
        (),
        EngineError,
    >)
        requires
            old(self).wf(),
        ensures
            final(self).wf(),
            final(self).chats@ == old(self).chats@,
            final(self).messages@ == old(self).messages@,
            final(self).profiles@ == old(self).profiles@,
            final(self).next_id == old(self).next_id,
            r is Ok,
            (exists|i: int|
                0 <= i < old(self).notifications@.len() && old(self).notifications@[i].id
                    == notif_id && old(self).notifications@[i].user_id == user
                    && final(self).notifications@ == old(self).notifications@.update(
                    i,
                    Notification { is_read: true, ..old(self).notifications@[i] },
                )) || (final(self).notifications@ == old(self).notifications@ && !(exists|i: int|
                0 <= i < old(self).notifications@.len() && old(self).notifications@[i].id
                    == notif_id && old(self).notifications@[i].user_id == user)),
    {
        let found = self.find_notification(notif_id);
        if let Some(idx) = found {
            if self.notifications[idx].user_id == user {
                let ghost i = idx as int;
                let ghost old_notifs = self.notifications@;
                let mut n = self.notifications.remove(idx);
                n.is_read = true;
                let ghost gn = n;
                self.notifications.insert(idx, n);
                proof {
                    assert(self.notifications@ =~= old_notifs.update(i, gn));
                }
            }
        }
        Ok(())
    }

    /// Flips every notification of the caller to read.
    pub fn mark_all_notifications_read(&mut self, user: u64) -> (r: Result<(), EngineError>)
        requires
            old(self).wf(),
        ensures
            final(self).wf(),
            final(self).chats@ == old(self).chats@,
            final(self).messages@ == old(self).messages@,
            final(self).profiles@ == old(self).profiles@,
            final(self).next_id == old(self).next_id,
            r is Ok,
            final(self).notifications@.len() == old(self).notifications@.len(),
            forall|k: int|
                0 <= k < old(self).notifications@.len() ==> final(self).notifications@[k]
                    == (Notification {
                    is_read: old(self).notifications@[k].is_read || old(
                        self,
                    ).notifications@[k].user_id == user,
                    ..old(self).notifications@[k]
                }),
    {
        let ghost old_notifs = self.notifications@;
        let mut out: Vec<Notification> = Vec::new();
        let mut i: usize = 0;
        while i < self.notifications.len()
            invariant
                self.notifications@ == old_notifs,
                i <= old_notifs.len(),
                out@.len() == i,
                forall|k: int|
                    0 <= k < i ==> out@[k] == (Notification {
                        is_read: old_notifs[k].is_read || old_notifs[k].user_id == user,
                        ..old_notifs[k]
                    }),
            decreases old_notifs.len() - i,
        {
            let n = &self.notifications[i];
            out.push(
                Notification {
                    id: n.id,
                    user_id: n.user_id,
                    actor_id: n.actor_id,
                    notification_type: n.notification_type.clone(),
                    target_id: n.target_id,
                    content: n.content.clone(),
                    is_read: n.is_read || n.user_id == user,
                    created_at: n.created_at,
                },
            );
            i = i + 1;
        }
        self.notifications = out;
        Ok(())
    }

    /// Removes one notification, when it exists and belongs to the caller;
    /// otherwise nothing changes and the call still succeeds.
    pub fn delete_notification(&mut self, notif_id: u64, user: u64) -> (r: Result<(), EngineError>)
        requires
            old(self).wf(),
        ensures
            final(self).wf(),
            final(self).chats@ == old(self).chats@,
            final(self).messages@ == old(self).messages@,
            final(self).profiles@ == old(self).profiles@,
            final(self).next_id == old(self).next_id,
            r is Ok,
            (exists|i: int|
                0 <= i < old(self).notifications@.len() && old(self).notifications@[i].id
                    == notif_id && old(self).notifications@[i].user_id == user
                    && final(self).notifications@ == old(self).notifications@.remove(i)) || (
            final(self).notifications@ == old(self).notifications@ && !(exists|i: int|
                0 <= i < old(self).notifications@.len() && old(self).notifications@[i].id
                    == notif_id && old(self).notifications@[i].user_id == user)),
    {
        let found = self.find_notification(notif_id);
        if let Some(idx) = found {
            if self.notifications[idx].user_id == user {
                let ghost i = idx as int;
                let ghost old_notifs = self.notifications@;
                let _removed = self.notifications.remove(idx);
                proof {
                    let ns = self.notifications@;
                    assert(forall|k: int|
                        0 <= k < ns.len() ==> ns[k] == (if k < i {
                            old_notifs[k]
                        } else {
                            old_notifs[k + 1]
                        }));
                }
            }
        }
        Ok(())
    }
}

/// One notification as its recipient sees it, with the actor's profile
/// resolved at read time.
pub struct NotificationResponse {
    pub id: String,
    pub actor_username: String,
    pub actor_avatar_url: Option<String>,
    pub notification_type: String,
    pub target_id: Option<String>,
    pub content: String,
    pub is_read: bool,
    pub created_at: i64,
}

/// What a correctly rendered notification looks like.
pub open spec fn notification_view_ok(
    n: Notification,
    ps: Seq<Profile>,
    r: NotificationResponse,
) -> bool {
    &&& r.id@ == hex16_of(n.id)
    &&& r.actor_username@ == (match crate::store::profile_for(ps, n.actor_id) {
        Some(p) => p.username@,
        None => "Someone"@,
    })
    &&& r.actor_avatar_url == (match crate::store::profile_for(ps, n.actor_id) {
        Some(p) => p.avatar_url,
        None => None,
    })
    &&& r.notification_type@ == n.notification_type@
    &&& (match n.target_id {
        Some(t) => r.target_id is Some && r.target_id->0@ == hex16_of(t),
        None => r.target_id is None,
    })
    &&& r.content@ == n.content@
    &&& r.is_read == n.is_read
    &&& r.created_at == n.created_at
}

/// Which notifications the user's listing shows.
pub open spec fn notif_owned(user: u64) -> spec_fn(Notification) -> bool {
    |n: Notification| n.user_id == user
}

/// Newest first: creation times never increase along the listing.
pub open spec fn notif_recency_sorted(ns: Seq<Notification>) -> bool {
    forall|k1: int, k2: int|
        0 <= k1 < k2 < ns.len() ==> (#[trigger] ns[k1]).created_at >= (#[trigger] ns[k2]).created_at
}

/// How many entries one page of the listing holds: everything up to the page
/// limit of fifty.
pub open spec fn notification_page_of(len: int) -> int {
    if len <= 50 {
        len
    } else {
        50
    }
}

/// The notifications standing at the given indices, in that order.
pub open spec fn notifs_at(ns: Seq<Notification>, idxs: Seq<usize>) -> Seq<Notification> {
    Seq::new(idxs.len(), |k: int| ns[idxs[k] as int])
}

impl Store {
    /// The indices of the user's notifications, arranged newest first.
    fn sorted_notification_indices(&self, user: u64) -> (idxs: Vec<usize>)
        ensures
            forall|k: int|
                0 <= k < idxs@.len() ==> (#[trigger] idxs@[k]) < self.notifications@.len(),
            notifs_at(self.notifications@, idxs@).to_multiset() == self.notifications@.filter(
                notif_owned(user),
            ).to_multiset(),
            notif_recency_sorted(notifs_at(self.notifications@, idxs@)),
    {
        let mut idxs: Vec<usize> = Vec::new();
        let mut i: usize = 0;
        proof {
            reveal(Seq::filter);
            broadcast use vstd::seq_lib::group_to_multiset_ensures;

            assert(notifs_at(self.notifications@, idxs@) =~= Seq::<Notification>::empty());
            assert(self.notifications@.subrange(0, 0).filter(notif_owned(user))
                =~= Seq::<Notification>::empty());
            assert(Seq::<Notification>::empty().to_multiset()
                =~= Multiset::<Notification>::empty());
        }
        while i < self.notifications.len()
            invariant
                i <= self.notifications@.len(),
                forall|k: int|
                    0 <= k < idxs@.len() ==> (#[trigger] idxs@[k]) < self.notifications@.len(),
                notifs_at(self.notifications@, idxs@).to_multiset()
                    == self.notifications@.subrange(0, i as int).filter(
                    notif_owned(user),
                ).to_multiset(),
                notif_recency_sorted(notifs_at(self.notifications@, idxs@)),
            decreases self.notifications@.len() - i,
        {
            let ghost pre = self.notifications@.subrange(0, i as int);
            let ghost ext = self.notifications@.subrange(0, i + 1);
            let ghost opred = notif_owned(user);
            proof {
                reveal(Seq::filter);
                assert(ext.drop_last() =~= pre);
                assert(ext.last() == self.notifications@[i as int]);
            }
            if self.notifications[i].user_id == user {
                let key = self.notifications[i].created_at;
                let ghost old_idxs = idxs@;
                let mut j: usize = 0;
                while j < idxs.len() && self.notifications[idxs[j]].created_at >= key
                    invariant
                        idxs@ == old_idxs,
                        j <= idxs@.len(),
                        forall|k: int|
                            0 <= k < idxs@.len() ==> (#[trigger] idxs@[k])
                                < self.notifications@.len(),
                        forall|jj: int|
                            0 <= jj < j ==> self.notifications@[#[trigger] idxs@[jj] as int].created_at
                                >= key,
                    decreases idxs@.len() - j,
                {
                    j = j + 1;
                }
                idxs.insert(j, i);
                proof {
                    broadcast use vstd::seq_lib::group_to_multiset_ensures;

                    let mapped_old = notifs_at(self.notifications@, old_idxs);
                    let mapped_new = notifs_at(self.notifications@, idxs@);
                    assert(mapped_new =~= mapped_old.insert(
                        j as int,
                        self.notifications@[i as int],
                    ));
                    crate::store::lemma_to_multiset_insert(
                        mapped_old,
                        j as int,
                        self.notifications@[i as int],
                    );
                    assert(opred(ext.last()));
                    assert(ext.filter(opred) == pre.filter(opred).push(
                        self.notifications@[i as int],
                    ));
                    assert(notif_recency_sorted(mapped_new)) by {
                        assert forall|k1: int, k2: int|
                            0 <= k1 < k2 < mapped_new.len() implies (#[trigger] mapped_new[k1]).created_at
                            >= (#[trigger] mapped_new[k2]).created_at by {
                            if k2 < j {
                            } else if k1 < j && k2 == j {
                                assert(mapped_old[k1] == mapped_new[k1]);
                            } else if k1 < j && k2 > j {
                                assert(mapped_new[k2] == mapped_old[k2 - 1]);
                            } else if k1 == j {
                                assert(mapped_new[k2] == mapped_old[k2 - 1]);
                                if (j as int) < old_idxs.len() {
                                    assert(mapped_old[j as int].created_at < key);
                                }
                            } else {
                                assert(mapped_new[k1] == mapped_old[k1 - 1]);
                                assert(mapped_new[k2] == mapped_old[k2 - 1]);
                            }
                        }
                    }
                }
            } else {
                proof {
                    reveal(Seq::filter);
                    assert(!opred(ext.last()));
                    assert(ext.filter(opred) == pre.filter(opred));
                }
            }
            i = i + 1;
        }
        proof {
            assert(self.notifications@.subrange(0, self.notifications@.len() as int)
                =~= self.notifications@);
        }
        idxs
    }

    /// One page of the user's notifications, newest first, up to fifty of
    /// them, each with its actor resolved against the profiles as they stand
    /// now.
    pub fn list_notifications(&self, user: u64) -> (out: Vec<NotificationResponse>)
        ensures
            exists|sorted: Seq<Notification>|
                #![trigger sorted.to_multiset()]
                {
                    let page = sorted.subrange(0, notification_page_of(sorted.len() as int));
                    &&& sorted.to_multiset() == self.notifications@.filter(
                        notif_owned(user),
                    ).to_multiset()
                    &&& notif_recency_sorted(sorted)
                    &&& out@.len() == page.len()
                    &&& (forall|k: int|
                        0 <= k < page.len() ==> notification_view_ok(
                            page[k],
                            self.profiles@,
                            #[trigger] out@[k],
                        ))
                },
            forall|k1: int, k2: int|
                0 <= k1 < k2 < out@.len() ==> (#[trigger] out@[k1]).created_at
                    >= (#[trigger] out@[k2]).created_at,
    {
        let idxs = self.sorted_notification_indices(user);
        let page = if idxs.len() > 50 {
            50
        } else {
            idxs.len()
        };
        let ghost sorted = notifs_at(self.notifications@, idxs@);
        let mut out: Vec<NotificationResponse> = Vec::new();
        let mut k: usize = 0;
        while k < page
            invariant
                k <= page,
                page == notification_page_of(idxs@.len() as int),
                page <= idxs@.len(),
                sorted == notifs_at(self.notifications@, idxs@),
                forall|j: int|
                    0 <= j < idxs@.len() ==> (#[trigger] idxs@[j]) < self.notifications@.len(),
                out@.len() == k,
                forall|j: int|
                    0 <= j < k ==> notification_view_ok(
                        sorted[j],
                        self.profiles@,
                        #[trigger] out@[j],
                    ),
            decreases page - k,
        {
            proof {
                assert(sorted[k as int] == self.notifications@[idxs@[k as int] as int]);
            }
            let n = &self.notifications[idxs[k]];
            let actor = self.find_profile(n.actor_id);
            let (actor_username, actor_avatar_url) = match actor {
                Some(pi) => (
                    self.profiles[pi].username.clone(),
                    self.profiles[pi].avatar_url.clone(),
                ),
                None => (String::from_str("Someone"), None),
            };
            let target_id = match n.target_id {
                Some(t) => Some(id_hex(t)),
                None => None,
            };
            out.push(
                NotificationResponse {
                    id: id_hex(n.id),
                    actor_username,
                    actor_avatar_url,
                    notification_type: n.notification_type.clone(),
                    target_id,
                    content: n.content.clone(),
                    is_read: n.is_read,
                    created_at: n.created_at,
                },
            );
            k = k + 1;
        }
        proof {
            let page_seq = sorted.subrange(0, notification_page_of(sorted.len() as int));
            assert(page_seq =~= sorted.subrange(0, page as int));
            assert(forall|j: int| 0 <= j < page_seq.len() ==> page_seq[j] == sorted[j]);
            assert forall|k1: int, k2: int|
                0 <= k1 < k2 < out@.len() implies (#[trigger] out@[k1]).created_at
                >= (#[trigger] out@[k2]).created_at by {
                assert(out@[k1].created_at == sorted[k1].created_at);
                assert(out@[k2].created_at == sorted[k2].created_at);
            }
        }
        out
    }
}

} // verus!
