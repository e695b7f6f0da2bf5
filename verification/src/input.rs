//! When a key binding fires.
//!
//! A binding either fires on every frame in which its key is held, or once
//! per press. What firing does is up to the caller; here is only the rule
//! that decides it, and the pressed state it keeps.

use vstd::prelude::*;

verus! {

/// What a key did, or is doing.
#[derive(Debug, PartialEq, Eq, Structural, Clone, Copy, Hash)]
pub enum Action {
    Release,
    Press,
    Repeat,
}

/// A key, by its key code, bound to something that runs when the binding
/// fires.
#[derive(Debug, PartialEq, Eq, Structural, Clone, Copy, Hash)]
pub struct KeyBinding {
    /// The code of the bound key.
    pub key: i32,
    /// Whether a press has fired the binding and the key has not been
    /// released since. Only bindings that fire once per press keep it.
    pub state: bool,
    /// Whether the binding fires on every frame in which its key is held,
    /// rather than once per press.
    pub run_every_frame: bool,
}

/// The pressed state of a binding after it has seen `action` on `key`.
pub open spec fn state_after(
    bound: i32,
    run_every_frame: bool,
    state: bool,
    key: i32,
    action: Action,
) -> bool {
    if key != bound || run_every_frame {
        state
    } else {
        match action {
            Action::Press => true,
            Action::Release => false,
            Action::Repeat => state,
        }
    }
}

/// Whether a binding fires when it sees `action` on `key`: only for a press
/// of its own key, and, unless it runs every frame, only if no earlier press
/// is still held.
pub open spec fn fires(
    bound: i32,
    run_every_frame: bool,
    state: bool,
    key: i32,
    action: Action,
) -> bool {
    key == bound && action == Action::Press && (run_every_frame || !state)
}

impl KeyBinding {
    /// A binding of `key` whose key is not held.
    pub fn new(key: i32, run_every_frame: bool) -> (r: KeyBinding)
        ensures
            r == (KeyBinding { key, state: false, run_every_frame }),
    {
        KeyBinding { key, state: false, run_every_frame }
    }

    /// Takes note of what a key is doing and says whether the binding fires.
    pub fn update(&mut self, key: i32, action: Action) -> (fire: bool)
        ensures
            fire == fires(old(self).key, old(self).run_every_frame, old(self).state, key, action),
            final(self).state == state_after(
                old(self).key,
                old(self).run_every_frame,
                old(self).state,
                key,
                action,
            ),
            final(self).key == old(self).key,
            final(self).run_every_frame == old(self).run_every_frame,
    {
        if self.key != key {
            return false;
        }
        if self.run_every_frame {
            match action {
                Action::Press => true,
                _ => false,
            }
        } else {
            match action {
                Action::Press => {
                    if !self.state {
                        self.state = true;
                        true
                    } else {
                        false
                    }
                },
                Action::Release => {
                    self.state = false;
                    false
                },
                Action::Repeat => false,
            }
        }
    }
}

/// Whether a key is down or up, as two flags that are flipped together.
#[derive(Debug, PartialEq, Eq, Structural, Clone, Copy, Hash)]
pub struct DigitalInputState {
    pub pressed: bool,
    pub released: bool,
}

impl DigitalInputState {
    /// The state in which neither flag is set.
    pub fn new() -> (r: DigitalInputState)
        ensures
            !r.pressed,
            !r.released,
    {
        DigitalInputState { pressed: false, released: false }
    }

    /// Flips both flags.
    pub fn toggle(&mut self)
        ensures
            final(self).pressed == !old(self).pressed,
            final(self).released == !old(self).released,
    {
        self.pressed = !self.pressed;
        self.released = !self.released;
    }
}

/// A key press fires a once-per-press binding once: after it has fired, it
/// does not fire again until it has seen the key released.
pub proof fn lemma_fires_once_per_press(bound: i32, state: bool, action: Action)
    ensures
        fires(bound, false, state, bound, Action::Press) ==> !fires(
            bound,
            false,
            state_after(bound, false, state, bound, Action::Press),
            bound,
            action,
        ),
        fires(bound, false, state_after(bound, false, state, bound, Action::Release), bound, Action::Press),
{
}

} // verus!
