//! Who currently has a worker or session: a map from integer keys to the
//! handles (such as message senders) of the running tasks.
use vstd::prelude::*;

use std::collections::HashMap;

verus! {

broadcast use {vstd::std_specs::hash::group_hash_axioms, vstd::std_specs::hash::axiom_u128_obeys_hash_table_key_model};

/// The key of a user in a channel.
pub open spec fn user_channel_key(user: u64, channel: u64) -> u128 {
    (user as int * 0x1_0000_0000_0000_0000 + channel as int) as u128
}

/// Different (user, channel) pairs have different keys.
pub proof fn lemma_user_channel_key_injective(u1: u64, c1: u64, u2: u64, c2: u64)
    ensures
        user_channel_key(u1, c1) == user_channel_key(u2, c2) ==> u1 == u2 && c1 == c2,
{
    assert(u1 as int * 0x1_0000_0000_0000_0000 + c1 as int <= u128::MAX);
    assert(u2 as int * 0x1_0000_0000_0000_0000 + c2 as int <= u128::MAX);
    if user_channel_key(u1, c1) == user_channel_key(u2, c2) {
        assert(u1 == u2 && c1 == c2) by (nonlinear_arith)
            requires
                u1 as int * 0x1_0000_0000_0000_0000 + c1 as int == u2 as int
                    * 0x1_0000_0000_0000_0000 + c2 as int,
                0 <= c1 < 0x1_0000_0000_0000_0000,
                0 <= c2 < 0x1_0000_0000_0000_0000,
                0 <= u1,
                0 <= u2,
        ;
    }
}

/// The key of user `user` in channel `channel`.
pub fn user_channel(user: u64, channel: u64) -> (r: u128)
    ensures
        r == user_channel_key(user, channel),
{
    (user as u128) * 0x1_0000_0000_0000_0000u128 + (channel as u128)
}

/// Handles of running tasks, at most one per key.
pub struct Registry<V> {
    map: HashMap<u128, V>,
}

impl<V> Registry<V> {
    /// The running tasks by key.
    pub closed spec fn view(&self) -> Map<u128, V> {
        self.map@
    }

    /// No tasks.
    pub fn new() -> (r: Self)
        ensures
            r.view() == Map::<u128, V>::empty(),
    {
        Registry { map: HashMap::new() }
    }

    /// Whether a task runs for `key`.
    pub fn contains(&self, key: u128) -> (r: bool)
        ensures
            r == self.view().contains_key(key),
    {
        self.map.contains_key(&key)
    }

    /// The handle of the task for `key`, if one runs.
    pub fn get(&self, key: u128) -> (r: Option<&V>)
        ensures
            self.view().contains_key(key) ==> r == Some(&self.view()[key]),
            !self.view().contains_key(key) ==> r is None,
    {
        self.map.get(&key)
    }

    /// Records the task `handle` for `key` unless one already runs there:
    /// `true` when recorded, `false` (and nothing changes) otherwise.
    pub fn try_insert(&mut self, key: u128, handle: V) -> (r: bool)
        ensures
            r == !old(self).view().contains_key(key),
            r ==> final(self).view() == old(self).view().insert(key, handle),
            !r ==> final(self).view() == old(self).view(),
    {
        if self.map.contains_key(&key) {
            false
        } else {
            self.map.insert(key, handle);
            true
        }
    }

    /// Forgets the task for `key`, handing back its handle.
    pub fn remove(&mut self, key: u128) -> (r: Option<V>)
        ensures
            final(self).view() == old(self).view().remove(key),
            old(self).view().contains_key(key) ==> r == Some(old(self).view()[key]),
            !old(self).view().contains_key(key) ==> r is None,
    {
        self.map.remove(&key)
    }
}

} // verus!
