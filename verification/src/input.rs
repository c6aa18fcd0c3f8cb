//! Edge detection over sampled button levels: a press or release event fires
//! only when the sampled level changes.

use vstd::prelude::*;

verus! {

/// A discrete input event derived from a level change.
#[derive(Debug, Clone, Copy, PartialEq, Eq, Structural)]
pub enum Action {
    Pressed,
    Released,
}

/// One button's remembered level.
#[derive(Debug, Clone, Copy, PartialEq, Eq, Structural)]
pub struct Input {
    pub on: bool,
}

impl Default for Input {
    /// A button that starts out released.
    fn default() -> (i: Input)
        ensures
            i == (Input { on: false }),
    {
        Input { on: false }
    }
}

impl Input {
    /// Fold one sampled level into the state: a rising edge yields a press, a
    /// falling edge a release, and an unchanged level nothing.
    pub fn probe(&mut self, level: bool) -> (a: Option<Action>)
        ensures
            final(self).on == level,
            a == (if level && !old(self).on {
                Some(Action::Pressed)
            } else if !level && old(self).on {
                Some(Action::Released)
            } else {
                None::<Action>
            }),
    {
        if level {
            if !self.on {
                self.on = true;
                return Some(Action::Pressed);
            }
        } else if self.on {
            self.on = false;
            return Some(Action::Released);
        }
        None
    }
}

} // verus!
