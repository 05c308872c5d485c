//! Per-user voice selection.
//!
//! A user registers at most one synthesis voice.  Registration follows a
//! first-wins rule: `set_if_absent` never overwrites an existing profile.
//! Removal is idempotent.  Validation of a requested voice name against the
//! gateway's catalog is the caller's business (see `voices`); the store holds
//! whatever profile it is given.

use crate::models::Voice;
use std::collections::HashMap;
use vstd::prelude::*;

verus! {

broadcast use vstd::std_specs::hash::group_hash_axioms;

/// The profile map after `set_if_absent(user, p)`: unchanged when the user
/// already has a profile, extended by `user -> p` otherwise.
pub open spec fn set_if_absent_spec(m: Map<u64, Voice>, user: u64, p: Voice) -> Map<u64, Voice> {
    if m.contains_key(user) {
        m
    } else {
        m.insert(user, p)
    }
}

/// The profile map after `clear(user)`.
pub open spec fn clear_spec(m: Map<u64, Voice>, user: u64) -> Map<u64, Voice> {
    m.remove(user)
}

/// What `get(user)` answers on a profile map.
pub open spec fn get_spec(m: Map<u64, Voice>, user: u64) -> Option<Voice> {
    if m.contains_key(user) {
        Some(m[user])
    } else {
        None
    }
}

/// Maps each user to their selected synthesis voice.
pub struct VoiceProfileStore {
    profiles: HashMap<u64, Voice>,
}

impl View for VoiceProfileStore {
    type V = Map<u64, Voice>;

    closed spec fn view(&self) -> Map<u64, Voice> {
        self.profiles@
    }
}

impl VoiceProfileStore {
    /// A fresh store: nobody has registered a voice.
    pub fn new() -> (s: Self)
        ensures
            s@ == Map::<u64, Voice>::empty(),
    {
        VoiceProfileStore { profiles: HashMap::new() }
    }

    /// Registers `profile` for `user` unless the user already has one; the
    /// first registration wins.  Returns `true` exactly when the profile was
    /// stored.
    pub fn set_if_absent(&mut self, user: u64, profile: Voice) -> (stored: bool)
        ensures
            final(self)@ == set_if_absent_spec(old(self)@, user, profile),
            stored == !old(self)@.contains_key(user),
    {
        if self.profiles.contains_key(&user) {
            false
        } else {
            self.profiles.insert(user, profile);
            true
        }
    }

    /// Removes the profile of `user`, if any.  Idempotent.
    pub fn clear(&mut self, user: u64)
        ensures
            final(self)@ == clear_spec(old(self)@, user),
    {
        self.profiles.remove(&user);
    }

    /// The profile of `user`, or `None` when the user never registered.
    pub fn get(&self, user: u64) -> (profile: Option<&Voice>)
        ensures
            match profile {
                Some(p) => get_spec(self@, user) == Some(*p),
                None => get_spec(self@, user) is None,
            },
    {
        self.profiles.get(&user)
    }
}

/// First registration wins: a second `set_if_absent` for the same user
/// changes nothing, so after registering `p1` and then `p2`, the user's
/// profile reads back as `p1`.
pub proof fn lemma_first_registration_wins(m: Map<u64, Voice>, user: u64, p1: Voice, p2: Voice)
    requires
        p1 != p2,
    ensures
        set_if_absent_spec(set_if_absent_spec(m, user, p1), user, p2) == set_if_absent_spec(
            m,
            user,
            p1,
        ),
        !m.contains_key(user) ==> get_spec(
            set_if_absent_spec(set_if_absent_spec(m, user, p1), user, p2),
            user,
        ) == Some(p1),
{
}

} // verus!
