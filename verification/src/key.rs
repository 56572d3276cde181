//! Keyboard identifiers, the set of keys the host reports as down, and the
//! latch that turns a held key into a single press.

use std::collections::HashMap;
use vstd::prelude::*;

verus! {

broadcast use vstd::std_specs::hash::group_hash_axioms;

/// Number of distinct keys the game listens to.
pub const KEY_COUNT: usize = 16;

/// The keys the game listens to.
#[derive(Clone, Copy, Debug, PartialEq, Eq, Structural)]
pub enum KeyCode {
    Left,
    Right,
    Up,
    Down,
    Return,
    P,
    Q,
    X,
    Key1,
    Key2,
    Key3,
    Key4,
    Key5,
    Key6,
    Key7,
    Key8,
}

impl KeyCode {
    /// Position of the key in a table of `KEY_COUNT` entries.
    pub open spec fn slot(self) -> int {
        match self {
            KeyCode::Left => 0,
            KeyCode::Right => 1,
            KeyCode::Up => 2,
            KeyCode::Down => 3,
            KeyCode::Return => 4,
            KeyCode::P => 5,
            KeyCode::Q => 6,
            KeyCode::X => 7,
            KeyCode::Key1 => 8,
            KeyCode::Key2 => 9,
            KeyCode::Key3 => 10,
            KeyCode::Key4 => 11,
            KeyCode::Key5 => 12,
            KeyCode::Key6 => 13,
            KeyCode::Key7 => 14,
            KeyCode::Key8 => 15,
        }
    }

    /// Position of the key in a table of `KEY_COUNT` entries.
    pub fn index(self) -> (i: usize)
        ensures
            i == self.slot(),
            i < KEY_COUNT,
    {
        match self {
            KeyCode::Left => 0,
            KeyCode::Right => 1,
            KeyCode::Up => 2,
            KeyCode::Down => 3,
            KeyCode::Return => 4,
            KeyCode::P => 5,
            KeyCode::Q => 6,
            KeyCode::X => 7,
            KeyCode::Key1 => 8,
            KeyCode::Key2 => 9,
            KeyCode::Key3 => 10,
            KeyCode::Key4 => 11,
            KeyCode::Key5 => 12,
            KeyCode::Key6 => 13,
            KeyCode::Key7 => 14,
            KeyCode::Key8 => 15,
        }
    }
}

/// Two keys with the same slot are the same key.
pub proof fn lemma_slot_injective(a: KeyCode, b: KeyCode)
    ensures
        a.slot() == b.slot() <==> a == b,
        0 <= a.slot() < KEY_COUNT,
{
}

/// A table with one flag per key.
pub open spec fn table_set(flags: Seq<bool>) -> Set<KeyCode> {
    Set::new(|k: KeyCode| flags[k.slot()])
}

/// The keys that are down at one instant, as the host polled them.
#[derive(Clone, Debug)]
pub struct KeySet {
    flags: [bool; 16],
}

impl View for KeySet {
    type V = Set<KeyCode>;

    closed spec fn view(&self) -> Set<KeyCode> {
        table_set(self.flags@)
    }
}

impl KeySet {
    /// No key is down.
    pub fn new() -> (s: KeySet)
        ensures
            s@ == Set::<KeyCode>::empty(),
    {
        let s = KeySet { flags: [false; 16] };
        assert(s@ =~= Set::<KeyCode>::empty());
        s
    }

    /// Adds `key` to the set.
    pub fn insert(&mut self, key: KeyCode)
        ensures
            final(self)@ == old(self)@.insert(key),
    {
        let i = key.index();
        self.flags[i] = true;
        proof {
            assert forall|k: KeyCode| final(self)@.contains(k) <==> old(self)@.insert(key).contains(k) by {
                lemma_slot_injective(k, key);
            }
            assert(final(self)@ =~= old(self)@.insert(key));
        }
    }

    /// Takes `key` out of the set.
    pub fn remove(&mut self, key: KeyCode)
        ensures
            final(self)@ == old(self)@.remove(key),
    {
        let i = key.index();
        self.flags[i] = false;
        proof {
            assert forall|k: KeyCode| final(self)@.contains(k) <==> old(self)@.remove(key).contains(k) by {
                lemma_slot_injective(k, key);
            }
            assert(final(self)@ =~= old(self)@.remove(key));
        }
    }

    /// Whether `key` is in the set.
    pub fn contains(&self, key: KeyCode) -> (b: bool)
        ensures
            b == self@.contains(key),
    {
        self.flags[key.index()]
    }
}

/// Answer of the latch to a press of `key` when `latched` are the keys already
/// used: the press counts only if the key was not latched.
pub open spec fn press_counts(latched: Set<KeyCode>, key: KeyCode) -> bool {
    !latched.contains(key)
}

/// The latch after a press of `key`.
pub open spec fn after_press(latched: Set<KeyCode>, key: KeyCode) -> Set<KeyCode> {
    latched.insert(key)
}

/// The latch after `key` was seen up.
pub open spec fn after_release(latched: Set<KeyCode>, key: KeyCode) -> Set<KeyCode> {
    latched.remove(key)
}

/// Edge detector over polled keys: remembers which keys have already been
/// reported as pressed and have not been seen up since. The status of a
/// key is kept under its slot.
#[derive(Clone, Debug)]
pub struct KeyScan {
    key_status: HashMap<usize, bool>,
}

/// The keys whose status in `status` is set.
pub open spec fn status_set(status: Map<usize, bool>) -> Set<KeyCode> {
    Set::new(|k: KeyCode| status.contains_key(k.slot() as usize) && status[k.slot() as usize])
}

impl View for KeyScan {
    type V = Set<KeyCode>;

    /// The latched keys.
    closed spec fn view(&self) -> Set<KeyCode> {
        status_set(self.key_status@)
    }
}

impl KeyScan {
    /// A latch with no key held.
    pub fn new() -> (scan: KeyScan)
        ensures
            scan@ == Set::<KeyCode>::empty(),
    {
        let scan = KeyScan { key_status: HashMap::new() };
        assert(scan@ =~= Set::<KeyCode>::empty());
        scan
    }

    /// Reports a press of `key`, which the caller has seen down: `true` the
    /// first time, `false` for as long as the key is not released in between.
    pub fn just_pressed(&mut self, key: KeyCode) -> (pressed: bool)
        ensures
            pressed == press_counts(old(self)@, key),
            final(self)@ == after_press(old(self)@, key),
    {
        let slot = key.index();
        let status = match self.key_status.get(&slot) {
            Some(held) => *held,
            None => false,
        };
        if status == false {
            self.key_status.insert(slot, true);
            proof {
                assert forall|k: KeyCode| final(self)@.contains(k) <==> old(self)@.insert(key).contains(
                    k,
                ) by {
                    lemma_slot_injective(k, key);
                }
                assert(final(self)@ =~= old(self)@.insert(key));
            }
            true
        } else {
            assert(self@.insert(key) =~= self@);
            false
        }
    }

    /// Records that `key` was seen up, so that its next press counts again.
    pub fn just_released(&mut self, key: KeyCode)
        ensures
            final(self)@ == after_release(old(self)@, key),
    {
        let slot = key.index();
        self.key_status.insert(slot, false);
        proof {
            assert forall|k: KeyCode| final(self)@.contains(k) <==> old(self)@.remove(key).contains(k) by {
                lemma_slot_injective(k, key);
            }
            assert(final(self)@ =~= old(self)@.remove(key));
        }
    }
}

/// A key that stays down counts once: whatever the latch held, a second
/// press straight after a first does not count, and a first press on a latch
/// that does not hold the key does.
pub proof fn lemma_press_counts_once(latched: Set<KeyCode>, key: KeyCode)
    ensures
        !latched.contains(key) ==> press_counts(latched, key),
        !press_counts(after_press(latched, key), key),
        !press_counts(after_press(after_press(latched, key), key), key),
{
}

/// Once a key was seen up its next press counts again, however often it was
/// pressed before.
pub proof fn lemma_release_rearms(latched: Set<KeyCode>, key: KeyCode)
    ensures
        press_counts(after_release(latched, key), key),
        press_counts(after_release(after_press(latched, key), key), key),
{
}

/// Pressing or releasing one key leaves the latch of every other key alone.
pub proof fn lemma_keys_independent(latched: Set<KeyCode>, key: KeyCode, other: KeyCode)
    requires
        key != other,
    ensures
        press_counts(after_press(latched, key), other) == press_counts(latched, other),
        press_counts(after_release(latched, key), other) == press_counts(latched, other),
{
}

} // verus!
