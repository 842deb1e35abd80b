//! The connection registry: the in-memory map from a user to that user's
//! live socket handles (one user may hold several, one per device or tab).
//! It is backed by a concurrency-safe sharded map so unrelated users never
//! contend; the map's operations are trusted against its source, and the
//! registry's own logic is verified over the map's contents. Delivery is
//! best-effort: fan-out hands back the handles registered at that moment and
//! an offline user simply has none.

use vstd::prelude::*;

verus! {

#[verifier::external_type_specification]
#[verifier::external_body]
#[verifier::reject_recursive_types(K)]
#[verifier::reject_recursive_types(V)]
#[verifier::reject_recursive_types(S)]
pub struct ExDashMap<K, V, S>(dashmap::DashMap<K, V, S>);

/// What the sharded map holds: each present user's handle list.
pub uninterp spec fn dash_contents(m: dashmap::DashMap<u64, Vec<u64>>) -> Map<u64, Seq<u64>>;

/// Relies on dashmap::DashMap::new: a freshly created map holds nothing.
#[verifier::external_body]
fn dm_new() -> (m: dashmap::DashMap<u64, Vec<u64>>)
    ensures
        dash_contents(m) =~= Map::empty(),
{
    dashmap::DashMap::new()
}

/// Relies on dashmap::DashMap::insert: the map afterwards associates the key
/// with the given value and is otherwise unchanged.
#[verifier::external_body]
fn dm_insert(m: &mut dashmap::DashMap<u64, Vec<u64>>, key: u64, value: Vec<u64>)
    ensures
        dash_contents(*final(m)) == dash_contents(*old(m)).insert(key, value@),
{
    m.insert(key, value);
}

/// Relies on dashmap::DashMap::get: returns a copy of the value the map
/// associates with the key, or nothing when the key is absent.
#[verifier::external_body]
fn dm_get(m: &dashmap::DashMap<u64, Vec<u64>>, key: u64) -> (r: Option<Vec<u64>>)
    ensures
        match r {
            Some(v) => dash_contents(*m).dom().contains(key) && v@ == dash_contents(*m)[key],
            None => !dash_contents(*m).dom().contains(key),
        },
{
    m.get(&key).map(|r| r.value().clone())
}

/// Relies on dashmap::DashMap::remove: the key is absent afterwards and the
/// map is otherwise unchanged.
#[verifier::external_body]
fn dm_remove(m: &mut dashmap::DashMap<u64, Vec<u64>>, key: u64)
    ensures
        dash_contents(*final(m)) == dash_contents(*old(m)).remove(key),
{
    m.remove(&key);
}

/// The predicate a handle must satisfy to survive removal of `handle`.
pub open spec fn keeps_handle(handle: u64) -> spec_fn(u64) -> bool {
    |h: u64| h != handle
}

/// The handles left after removing every occurrence of `handle`.
pub open spec fn without_handle(hs: Seq<u64>, handle: u64) -> Seq<u64> {
    hs.filter(keeps_handle(handle))
}

/// The handles registered for `user`, empty when the user is absent.
pub open spec fn handles_of_map(m: Map<u64, Seq<u64>>, user: u64) -> Seq<u64> {
    if m.dom().contains(user) {
        m[user]
    } else {
        Seq::empty()
    }
}

/// The registry of live connections.
pub struct ConnectionRegistry {
    pub map: dashmap::DashMap<u64, Vec<u64>>,
}

impl ConnectionRegistry {
    /// What the registry holds.
    pub open spec fn connections(&self) -> Map<u64, Seq<u64>> {
        dash_contents(self.map)
    }

    /// An empty registry.
    pub fn new() -> (r: ConnectionRegistry)
        ensures
            r.connections() =~= Map::<u64, Seq<u64>>::empty(),
    {
        ConnectionRegistry { map: dm_new() }
    }

    /// Adds one handle for the user; the user's other handles, and every
    /// other user, stay as they were.
    pub fn register(&mut self, user: u64, handle: u64)
        ensures
            final(self).connections() == old(self).connections().insert(
                user,
                handles_of_map(old(self).connections(), user).push(handle),
            ),
    {
        let mut handles = match dm_get(&self.map, user) {
            Some(v) => v,
            None => Vec::new(),
        };
        handles.push(handle);
        dm_insert(&mut self.map, user, handles);
    }

    /// Removes one handle of the user, dropping the user's entry entirely
    /// when it was the last; part of connection cleanup, so no stale handle
    /// ever leaks.
    pub fn unregister(&mut self, user: u64, handle: u64)
        ensures
            ({
                let remaining = without_handle(
                    handles_of_map(old(self).connections(), user),
                    handle,
                );
                if !old(self).connections().dom().contains(user) {
                    final(self).connections() == old(self).connections()
                } else if remaining.len() == 0 {
                    final(self).connections() == old(self).connections().remove(user)
                } else {
                    final(self).connections() == old(self).connections().insert(user, remaining)
                }
            }),
    {
        let current = dm_get(&self.map, user);
        match current {
            Some(v) => {
                let remaining = remove_handle_vec(&v, handle);
                if remaining.len() == 0 {
                    dm_remove(&mut self.map, user);
                } else {
                    dm_insert(&mut self.map, user, remaining);
                }
            },
            None => {},
        }
    }

    /// The handles to which a payload for `user` should be delivered right
    /// now: all the user's live handles, or none when the user is offline.
    /// Delivery itself is best-effort and happens outside the registry.
    pub fn handles_of(&self, user: u64) -> (r: Vec<u64>)
        ensures
            r@ == handles_of_map(self.connections(), user),
    {
        match dm_get(&self.map, user) {
            Some(v) => v,
            None => Vec::new(),
        }
    }
}

/// The handles of `hs` without `handle`.
fn remove_handle_vec(hs: &Vec<u64>, handle: u64) -> (out: Vec<u64>)
    ensures
        out@ == without_handle(hs@, handle),
{
    let mut out: Vec<u64> = Vec::new();
    let mut i: usize = 0;
    proof {
        reveal(Seq::filter);
        assert(hs@.subrange(0, 0).filter(keeps_handle(handle)) =~= Seq::<u64>::empty());
    }
    while i < hs.len()
        invariant
            i <= hs@.len(),
            out@ == hs@.subrange(0, i as int).filter(keeps_handle(handle)),
        decreases hs@.len() - i,
    {
        if hs[i] != handle {
            out.push(hs[i]);
        }
        proof {
            reveal(Seq::filter);
            let pre = hs@.subrange(0, i as int);
            let ext = hs@.subrange(0, i + 1);
            assert(ext.drop_last() =~= pre);
            assert(ext.last() == hs@[i as int]);
            assert(out@ =~= ext.filter(keeps_handle(handle)));
        }
        i = i + 1;
    }
    proof {
        assert(hs@.subrange(0, hs@.len() as int) =~= hs@);
    }
    out
}

} // verus!
