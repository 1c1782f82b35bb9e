use std::collections::HashMap;

use vstd::prelude::*;

use crate::cmd::Cmd;
use crate::input::keyboard::modifier_bits;
use crate::input::{Key, KeyModifiers};

verus! {

broadcast use vstd::std_specs::hash::group_hash_axioms;

/// The commands bound to key combinations (a key code with the bits of its
/// modifiers, see `Key::with_modifiers`).
pub struct Keybinds {
    binds: HashMap<u32, Cmd>,
}

impl View for Keybinds {
    type V = Map<u32, Cmd>;

    closed spec fn view(&self) -> Map<u32, Cmd> {
        self.binds@
    }
}

impl Keybinds {
    /// No bindings.
    pub fn new() -> (k: Self)
        ensures
            k@ == Map::<u32, Cmd>::empty(),
    {
        Keybinds { binds: HashMap::new() }
    }

    /// Binds `key` to `command`, in place of what it was bound to before;
    /// tells whether it was bound before.
    pub fn bind(&mut self, key: u32, command: Cmd) -> (redefined: bool)
        ensures
            final(self)@ == old(self)@.insert(key, command),
            redefined == old(self)@.contains_key(key),
    {
        let previous = self.binds.insert(key, command);
        previous.is_some()
    }

    /// The command bound to `key`.
    pub fn get(&self, key: u32) -> (c: Option<&Cmd>)
        ensures
            self@.contains_key(key) ==> c == Some(&self@[key]),
            !self@.contains_key(key) ==> c is None,
    {
        self.binds.get(&key)
    }

    /// The command that a key event leads to: on a press, the command bound
    /// to the key with its modifiers, which the keyboard then keeps from the
    /// client; on a release, or where nothing is bound, none, and the key
    /// goes on to the client.
    pub fn on_key(&self, pressed: bool, keysym: u32, modifiers: &KeyModifiers) -> (c: Option<&Cmd>)
        ensures
            !pressed ==> c is None,
            pressed && self@.contains_key(keysym | modifier_bits(*modifiers)) ==> c == Some(
                &self@[keysym | modifier_bits(*modifiers)],
            ),
            pressed && !self@.contains_key(keysym | modifier_bits(*modifiers)) ==> c is None,
    {
        if !pressed {
            return None;
        }
        let key = Key::with_modifiers(keysym, modifiers);
        self.get(key)
    }
}

/// A command bound to a key is what a press of that key leads to, and
/// binding a key leaves the other bindings as they were.
pub proof fn lemma_bind_then_lookup(binds: Map<u32, Cmd>, key: u32, command: Cmd, other: u32)
    requires
        other != key,
    ensures
        binds.insert(key, command).contains_key(key),
        binds.insert(key, command)[key] == command,
        binds.insert(key, command).contains_key(other) == binds.contains_key(other),
        binds.contains_key(other) ==> binds.insert(key, command)[other] == binds[other],
{
}

} // verus!
