//! Ephemeral presence: a TTL-bound "online" flag per user, refreshed on
//! every authenticated activity, and a coarser throttle that bounds how often
//! the durable last-seen timestamp may be written. Nothing here is durable;
//! expiry is a read-time comparison, exactly like a TTL store's.

use vstd::prelude::*;

verus! {

/// How long a presence entry stays alive after a touch, in milliseconds.
pub const PRESENCE_TTL_MILLIS: i64 = 300000;

/// How long the durable last-seen write is suppressed after one has been
/// allowed, in milliseconds.
pub const LAST_SEEN_THROTTLE_MILLIS: i64 = 60000;

/// Whether `user` reads as online at `now`: some entry for the user has not
/// yet expired.
pub open spec fn online_at(entries: Seq<(u64, i64)>, user: u64, now: i64) -> bool {
    exists|i: int| 0 <= i < entries.len() && entries[i].0 == user && now < entries[i].1
}

/// At most one entry per user.
pub open spec fn keys_unique(entries: Seq<(u64, i64)>) -> bool {
    forall|i: int, j: int| 0 <= i < j < entries.len() ==> entries[i].0 != entries[j].0
}

/// The TTL store backing presence and the last-seen throttle: user to expiry
/// time, one entry per user.
pub struct PresenceTracker {
    pub entries: Vec<(u64, i64)>,
    pub last_seen_marks: Vec<(u64, i64)>,
}

impl PresenceTracker {
    /// Well-formedness: one entry per user in each table.
    pub open spec fn wf(&self) -> bool {
        keys_unique(self.entries@) && keys_unique(self.last_seen_marks@)
    }

    /// An empty tracker: nobody is online.
    pub fn new() -> (t: PresenceTracker)
        ensures
            t.wf(),
            t.entries@ == Seq::<(u64, i64)>::empty(),
            t.last_seen_marks@ == Seq::<(u64, i64)>::empty(),
    {
        PresenceTracker { entries: Vec::new(), last_seen_marks: Vec::new() }
    }

    /// Marks the user online until `now` plus the TTL, replacing any earlier
    /// entry; no other user's entry changes.
    pub fn touch(&mut self, user: u64, now: i64)
        requires
            old(self).wf(),
            now <= i64::MAX - PRESENCE_TTL_MILLIS,
        ensures
            final(self).wf(),
            final(self).last_seen_marks@ == old(self).last_seen_marks@,
            online_at(final(self).entries@, user, now),
            forall|u: u64, t: i64|
                u != user ==> online_at(final(self).entries@, u, t) == online_at(
                    old(self).entries@,
                    u,
                    t,
                ),
            forall|t: i64|
                online_at(final(self).entries@, user, t) == (t < now + PRESENCE_TTL_MILLIS),
    {
        let expiry = now + PRESENCE_TTL_MILLIS;
        let ghost old_entries = self.entries@;
        let found = find_key(&self.entries, user);
        match found {
            Some(i) => {
                self.entries.set(i, (user, expiry));
                proof {
                    let es = self.entries@;
                    assert forall|u: u64, t: i64| u != user implies online_at(es, u, t)
                        == online_at(old_entries, u, t) by {
                        if online_at(es, u, t) {
                            let j = choose|j: int|
                                0 <= j < es.len() && es[j].0 == u && t < es[j].1;
                            assert(old_entries[j].0 == u && t < old_entries[j].1);
                        }
                        if online_at(old_entries, u, t) {
                            let j = choose|j: int|
                                0 <= j < old_entries.len() && old_entries[j].0 == u && t
                                    < old_entries[j].1;
                            assert(es[j].0 == u && t < es[j].1);
                        }
                    }
                    assert forall|t: i64| online_at(es, user, t) == (t < now
                        + PRESENCE_TTL_MILLIS) by {
                        assert(es[i as int] == (user, expiry));
                        if online_at(es, user, t) {
                            let j = choose|j: int|
                                0 <= j < es.len() && es[j].0 == user && t < es[j].1;
                            assert(j == i as int);
                        }
                    }
                }
            },
            None => {
                self.entries.push((user, expiry));
                proof {
                    let es = self.entries@;
                    assert forall|u: u64, t: i64| u != user implies online_at(es, u, t)
                        == online_at(old_entries, u, t) by {
                        if online_at(es, u, t) {
                            let j = choose|j: int|
                                0 <= j < es.len() && es[j].0 == u && t < es[j].1;
                            assert(j < old_entries.len());
                            assert(old_entries[j].0 == u && t < old_entries[j].1);
                        }
                        if online_at(old_entries, u, t) {
                            let j = choose|j: int|
                                0 <= j < old_entries.len() && old_entries[j].0 == u && t
                                    < old_entries[j].1;
                            assert(es[j].0 == u && t < es[j].1);
                        }
                    }
                    assert forall|t: i64| online_at(es, user, t) == (t < now
                        + PRESENCE_TTL_MILLIS) by {
                        assert(es[es.len() - 1] == (user, expiry));
                        if online_at(es, user, t) {
                            let j = choose|j: int|
                                0 <= j < es.len() && es[j].0 == user && t < es[j].1;
                            assert(j == es.len() - 1);
                        }
                    }
                }
            },
        }
    }

    /// Whether the user reads as online at `now`. Eventually consistent by
    /// design: a user who disconnected may still read as online until the TTL
    /// runs out.
    pub fn is_online(&self, user: u64, now: i64) -> (r: bool)
        ensures
            r == online_at(self.entries@, user, now),
    {
        let mut i: usize = 0;
        while i < self.entries.len()
            invariant
                i <= self.entries@.len(),
                forall|j: int|
                    0 <= j < i ==> !(self.entries@[j].0 == user && now < self.entries@[j].1),
            decreases self.entries@.len() - i,
        {
            let e = self.entries[i];
            if e.0 == user && now < e.1 {
                return true;
            }
            i = i + 1;
        }
        false
    }

    /// Decides whether the durable last-seen timestamp may be written now:
    /// true at most once per throttle window per user. A true answer records
    /// the throttle mark, so a second call inside the same window answers
    /// false; no other user's mark changes. The write itself is the caller's
    /// best-effort concern and never blocks anything here.
    pub fn should_write_last_seen(&mut self, user: u64, now: i64) -> (r: bool)
        requires
            old(self).wf(),
            now <= i64::MAX - LAST_SEEN_THROTTLE_MILLIS,
        ensures
            final(self).wf(),
            final(self).entries@ == old(self).entries@,
            r == !throttled(old(self).last_seen_marks@, user, now),
            r ==> forall|t: i64|
                throttled(final(self).last_seen_marks@, user, t) == (t < now
                    + LAST_SEEN_THROTTLE_MILLIS),
            !r ==> final(self).last_seen_marks@ == old(self).last_seen_marks@,
            forall|u: u64, t: i64|
                u != user ==> throttled(final(self).last_seen_marks@, u, t) == throttled(
                    old(self).last_seen_marks@,
                    u,
                    t,
                ),
    {
        let expiry = now + LAST_SEEN_THROTTLE_MILLIS;
        let ghost old_marks = self.last_seen_marks@;
        let found = find_key(&self.last_seen_marks, user);
        match found {
            Some(i) => {
                let mark = self.last_seen_marks[i];
                if now < mark.1 {
                    false
                } else {
                    self.last_seen_marks.set(i, (user, expiry));
                    proof {
                        let ms = self.last_seen_marks@;
                        assert forall|u: u64, t: i64| u != user implies throttled(ms, u, t)
                            == throttled(old_marks, u, t) by {
                            if throttled(ms, u, t) {
                                let j = choose|j: int|
                                    0 <= j < ms.len() && ms[j].0 == u && t < ms[j].1;
                                assert(old_marks[j].0 == u && t < old_marks[j].1);
                            }
                            if throttled(old_marks, u, t) {
                                let j = choose|j: int|
                                    0 <= j < old_marks.len() && old_marks[j].0 == u && t
                                        < old_marks[j].1;
                                assert(ms[j].0 == u && t < ms[j].1);
                            }
                        }
                        assert forall|t: i64| throttled(ms, user, t) == (t < now
                            + LAST_SEEN_THROTTLE_MILLIS) by {
                            assert(ms[i as int] == (user, expiry));
                            if throttled(ms, user, t) {
                                let j = choose|j: int|
                                    0 <= j < ms.len() && ms[j].0 == user && t < ms[j].1;
                                assert(j == i as int) by {
                                    if j != i as int {
                                        assert(old_marks[j].0 == user);
                                    }
                                }
                            }
                        }
                    }
                    true
                }
            },
            None => {
                self.last_seen_marks.push((user, expiry));
                proof {
                    let ms = self.last_seen_marks@;
                    assert forall|u: u64, t: i64| u != user implies throttled(ms, u, t)
                        == throttled(old_marks, u, t) by {
                        if throttled(ms, u, t) {
                            let j = choose|j: int|
                                0 <= j < ms.len() && ms[j].0 == u && t < ms[j].1;
                            assert(j < old_marks.len());
                            assert(old_marks[j].0 == u && t < old_marks[j].1);
                        }
                        if throttled(old_marks, u, t) {
                            let j = choose|j: int|
                                0 <= j < old_marks.len() && old_marks[j].0 == u && t
                                    < old_marks[j].1;
                            assert(ms[j].0 == u && t < ms[j].1);
                        }
                    }
                    assert forall|t: i64| throttled(ms, user, t) == (t < now
                        + LAST_SEEN_THROTTLE_MILLIS) by {
                        assert(ms[ms.len() - 1] == (user, expiry));
                        if throttled(ms, user, t) {
                            let j = choose|j: int|
                                0 <= j < ms.len() && ms[j].0 == user && t < ms[j].1;
                            assert(j == ms.len() - 1) by {
                                if j < ms.len() - 1 {
                                    assert(old_marks[j].0 == user);
                                }
                            }
                        }
                    }
                }
                true
            },
        }
    }
}

/// Whether a throttle mark for `user` is still alive at `now`: some mark has
/// not yet expired.
pub open spec fn throttled(marks: Seq<(u64, i64)>, user: u64, now: i64) -> bool {
    exists|i: int| 0 <= i < marks.len() && marks[i].0 == user && now < marks[i].1
}

/// The index of the entry for `user`, if any.
fn find_key(entries: &Vec<(u64, i64)>, user: u64) -> (r: Option<usize>)
    ensures
        match r {
            Some(i) => i < entries@.len() && entries@[i as int].0 == user,
            None => forall|j: int| 0 <= j < entries@.len() ==> entries@[j].0 != user,
        },
{
    let mut i: usize = 0;
    while i < entries.len()
        invariant
            i <= entries@.len(),
            forall|j: int| 0 <= j < i ==> entries@[j].0 != user,
        decreases entries@.len() - i,
    {
        if entries[i].0 == user {
            return Some(i);
        }
        i = i + 1;
    }
    None
}

} // verus!
