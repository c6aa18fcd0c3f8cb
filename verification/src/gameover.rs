//! The game-over screen: the final score and a two-item decision the player
//! toggles and then confirms.

use vstd::prelude::*;

verus! {

/// What the player chooses to do after a game ends.
#[derive(Debug, Clone, Copy, PartialEq, Eq, Structural)]
pub enum Decision {
    Quit,
    Restart,
}

impl Decision {
    /// The other item of the two-item menu.
    pub open spec fn spec_toggled(self) -> Decision {
        match self {
            Decision::Quit => Decision::Restart,
            Decision::Restart => Decision::Quit,
        }
    }

    /// Flip the selection to the other item.
    pub fn toggle(&mut self)
        ensures
            *final(self) == old(self).spec_toggled(),
    {
        *self = match self {
            Decision::Quit => Decision::Restart,
            Decision::Restart => Decision::Quit,
        };
    }
}

/// The game-over screen's state.
#[derive(Debug, Clone, Copy, PartialEq, Eq, Structural)]
pub struct Gameover {
    pub score: u32,
    pub decision: Decision,
    pub confirmed: bool,
}

impl Gameover {
    /// A fresh game-over screen: quitting selected, nothing confirmed.
    pub fn new(score: u32) -> (g: Gameover)
        ensures
            g == (Gameover { score, decision: Decision::Quit, confirmed: false }),
    {
        Gameover { score, decision: Decision::Quit, confirmed: false }
    }

    /// The decision, observable only once the player has confirmed it.
    pub open spec fn spec_decision(self) -> Option<Decision> {
        if self.confirmed {
            Some(self.decision)
        } else {
            None
        }
    }

    /// Report the confirmed decision, if any.
    pub fn decision(&self) -> (r: Option<Decision>)
        ensures
            r == self.spec_decision(),
    {
        if self.confirmed {
            Some(self.decision)
        } else {
            None
        }
    }

    /// Toggle the selection.
    pub fn button_up(&mut self)
        ensures
            *final(self) == (Gameover { decision: old(self).decision.spec_toggled(), ..*old(self) }),
    {
        self.decision.toggle();
    }

    /// Toggle the selection.
    pub fn button_down(&mut self)
        ensures
            *final(self) == (Gameover { decision: old(self).decision.spec_toggled(), ..*old(self) }),
    {
        self.decision.toggle();
    }

    /// Confirm the selection.
    pub fn button_right(&mut self)
        ensures
            *final(self) == (Gameover { confirmed: true, ..*old(self) }),
    {
        self.button_center();
    }

    /// Confirm the selection.
    pub fn button_center(&mut self)
        ensures
            *final(self) == (Gameover { confirmed: true, ..*old(self) }),
    {
        self.confirmed = true;
    }
}

} // verus!
