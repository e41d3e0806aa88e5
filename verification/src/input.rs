//! Which keys are held down.
//!
//! Keys are named by their key codes.

use std::collections::HashMap;
use vstd::prelude::*;
use vstd::std_specs::iter::IteratorSpec;

verus! {

broadcast use vstd::std_specs::hash::group_hash_axioms;

/// For each key seen so far, whether it is held down.
pub struct KeyInputHashMap {
    hashmap: HashMap<u32, bool>,
}

impl View for KeyInputHashMap {
    type V = Map<u32, bool>;

    closed spec fn view(&self) -> Map<u32, bool> {
        self.hashmap@
    }
}

/// Whether `key` is held down according to `keys`: a key never seen is not.
pub open spec fn is_pressed(keys: Map<u32, bool>, key: u32) -> bool {
    keys.contains_key(key) && keys[key]
}

/// The keys of `keys`, all released.
pub open spec fn released(keys: Map<u32, bool>) -> Map<u32, bool> {
    Map::new(|k: u32| keys.contains_key(k), |k: u32| false)
}

impl KeyInputHashMap {
    /// No key seen yet.
    pub fn new() -> (m: Self)
        ensures
            m@ == Map::<u32, bool>::empty(),
    {
        KeyInputHashMap { hashmap: HashMap::new() }
    }

    /// Every key seen so far is released; the keys seen stay known.
    pub fn reset(&mut self)
        ensures
            final(self)@ == released(old(self)@),
            final(self)@.dom() == old(self)@.dom(),
            forall|k: u32| #[trigger] final(self)@.contains_key(k) ==> !final(self)@[k],
    {
        let mut seen: Vec<u32> = Vec::new();
        let ghost ks = vstd::std_specs::hash::spec_keys_iter(&self.hashmap).remaining();
        for k in it: self.hashmap.keys()
            invariant
                it.seq() == ks,
                seen@.len() == it.index(),
                forall|i: int| 0 <= i < it.index() ==> seen@[i] == *ks[i],
        {
            seen.push(*k);
        }
        assert(seen@ =~= ks.unref());
        let ghost before = self.hashmap@;
        let n = seen.len();
        let mut i: usize = 0;
        while i < n
            invariant
                n == seen@.len(),
                i <= n,
                seen@.to_set() == before.dom(),
                self.hashmap@.dom() == before.dom(),
                forall|j: int| 0 <= j < i ==> !self.hashmap@[#[trigger] seen@[j]],
            decreases n - i,
        {
            let k = seen[i];
            assert(seen@.to_set().contains(k));
            self.hashmap.insert(k, false);
            assert(self.hashmap@.dom() =~= before.dom());
            i = i + 1;
        }
        assert forall|k: u32| #[trigger] self.hashmap@.contains_key(k) implies !self.hashmap@[k] by {
            assert(seen@.to_set().contains(k));
            let j = choose|j: int| 0 <= j < seen@.len() && seen@[j] == k;
        }
        assert(self.hashmap@ =~= released(before));
    }

    /// Whether `key` is held down.
    pub fn pressed(&self, key: u32) -> (b: bool)
        ensures
            b == is_pressed(self@, key),
    {
        match self.hashmap.get(&key) {
            Some(p) => *p,
            None => false,
        }
    }

    /// `key` went down.
    pub fn set_down(&mut self, key: u32)
        ensures
            final(self)@ == old(self)@.insert(key, true),
    {
        self.hashmap.insert(key, true);
    }

    /// `key` went up.
    pub fn set_up(&mut self, key: u32)
        ensures
            final(self)@ == old(self)@.insert(key, false),
    {
        self.hashmap.insert(key, false);
    }
}

/// A key reads as held down right after it went down and as released right
/// after it went up, whatever came before; the other keys are unaffected;
/// a key never seen reads as released.
pub proof fn lemma_key_events(keys: Map<u32, bool>, key: u32, other: u32, down: bool)
    requires
        key != other,
    ensures
        is_pressed(keys.insert(key, true), key),
        !is_pressed(keys.insert(key, false), key),
        is_pressed(keys.insert(key, down), other) == is_pressed(keys, other),
        !keys.contains_key(other) ==> !is_pressed(keys, other),
{
}

/// After a reset no key reads as held down, and the keys seen stay known.
pub proof fn lemma_reset_releases_all(before: Map<u32, bool>, after: Map<u32, bool>, key: u32)
    requires
        after.dom() == before.dom(),
        forall|k: u32| #[trigger] after.contains_key(k) ==> !after[k],
    ensures
        !is_pressed(after, key),
        after.contains_key(key) == before.contains_key(key),
{
}

/// An event that changes which keys are held down.
pub enum KeyEvent {
    /// `set_down` of the key.
    Down(u32),
    /// `set_up` of the key.
    Up(u32),
    /// `reset`.
    Reset,
}

/// The key states after `event`, from `keys`: what `set_down`, `set_up`
/// and `reset` do.
pub open spec fn after_event(keys: Map<u32, bool>, event: KeyEvent) -> Map<u32, bool> {
    match event {
        KeyEvent::Down(k) => keys.insert(k, true),
        KeyEvent::Up(k) => keys.insert(k, false),
        KeyEvent::Reset => released(keys),
    }
}

/// The key states after `events`, starting from no key seen.
pub open spec fn after_events(events: Seq<KeyEvent>) -> Map<u32, bool>
    decreases events.len(),
{
    if events.len() == 0 {
        Map::empty()
    } else {
        after_event(after_events(events.drop_last()), events.last())
    }
}

/// `key` went down at some point of `events`, and neither went up nor was
/// reset afterwards.
pub open spec fn held_since(events: Seq<KeyEvent>, key: u32) -> bool {
    exists|i: int|
        0 <= i < events.len() && events[i] == KeyEvent::Down(key) && forall|j: int|
            i < j < events.len() ==> events[j] != KeyEvent::Up(key) && events[j] != KeyEvent::Reset
}

/// After any history of events from a fresh map, a key reads as held down
/// exactly when it went down and neither went up nor was reset since; so a
/// key never pressed reads as released, and events of other keys never
/// change it.
pub proof fn lemma_key_history(events: Seq<KeyEvent>, key: u32)
    ensures
        is_pressed(after_events(events), key) == held_since(events, key),
    decreases events.len(),
{
    if events.len() > 0 {
        let rest = events.drop_last();
        let n = events.len() - 1;
        lemma_key_history(rest, key);
        match events.last() {
            KeyEvent::Down(k) => {
                if k == key {
                    assert(events[n] == KeyEvent::Down(key));
                } else {
                    lemma_other_event_keeps_history(events, key);
                }
            },
            KeyEvent::Up(k) => {
                if k == key {
                    assert forall|i: int| 0 <= i < events.len() && events[i] == KeyEvent::Down(key)
                        implies !(forall|j: int|
                        i < j < events.len() ==> events[j] != KeyEvent::Up(key) && events[j]
                            != KeyEvent::Reset) by {
                        assert(i < n);
                        assert(events[n] == KeyEvent::Up(key));
                    }
                } else {
                    lemma_other_event_keeps_history(events, key);
                }
            },
            KeyEvent::Reset => {
                assert forall|i: int| 0 <= i < events.len() && events[i] == KeyEvent::Down(key)
                    implies !(forall|j: int|
                    i < j < events.len() ==> events[j] != KeyEvent::Up(key) && events[j]
                        != KeyEvent::Reset) by {
                    assert(i < n);
                    assert(events[n] == KeyEvent::Reset);
                }
            },
        }
    }
}

proof fn lemma_other_event_keeps_history(events: Seq<KeyEvent>, key: u32)
    requires
        events.len() > 0,
        events.last() != KeyEvent::Down(key),
        events.last() != KeyEvent::Up(key),
        events.last() != KeyEvent::Reset,
    ensures
        held_since(events, key) == held_since(events.drop_last(), key),
        is_pressed(after_events(events), key) == is_pressed(after_events(events.drop_last()), key),
{
    let rest = events.drop_last();
    let n = events.len() - 1;
    if held_since(events, key) {
        let i = choose|i: int|
            0 <= i < events.len() && events[i] == KeyEvent::Down(key) && forall|j: int|
                i < j < events.len() ==> events[j] != KeyEvent::Up(key) && events[j]
                    != KeyEvent::Reset;
        assert(i < n);
        assert(rest[i] == KeyEvent::Down(key));
        assert forall|j: int| i < j < rest.len() implies rest[j] != KeyEvent::Up(key) && rest[j]
            != KeyEvent::Reset by {
            assert(rest[j] == events[j]);
        }
    }
    if held_since(rest, key) {
        let i = choose|i: int|
            0 <= i < rest.len() && rest[i] == KeyEvent::Down(key) && forall|j: int|
                i < j < rest.len() ==> rest[j] != KeyEvent::Up(key) && rest[j] != KeyEvent::Reset;
        assert(events[i] == KeyEvent::Down(key));
        assert forall|j: int| i < j < events.len() implies events[j] != KeyEvent::Up(key)
            && events[j] != KeyEvent::Reset by {
            if j < n {
                assert(rest[j] == events[j]);
            }
        }
    }
}

} // verus!
