//! Settings a player can change while the game runs.

use vstd::prelude::*;

verus! {

/// The artificial network delay, in milliseconds.
#[derive(Debug, Clone, Copy, PartialEq, Eq, Structural)]
pub struct SettingsState {
    pub delay: u64,
}

impl SettingsState {
    /// Settings without delay.
    pub fn new() -> (s: SettingsState)
        ensures
            s.delay == 0,
    {
        SettingsState { delay: 0 }
    }

    /// Sets the delay.
    pub fn set_delay(&mut self, delay: u64)
        ensures
            final(self).delay == delay,
    {
        self.delay = delay;
    }

    /// The delay.
    pub fn get_delay(&self) -> (delay: u64)
        ensures
            delay == self.delay,
    {
        self.delay
    }
}

impl Default for SettingsState {
    fn default() -> (s: SettingsState)
        ensures
            s.delay == 0,
    {
        SettingsState { delay: 0 }
    }
}

} // verus!
