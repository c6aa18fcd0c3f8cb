//! The intro screen; a start press on it launches the first level.

use vstd::prelude::*;

verus! {

/// The intro screen's state: whether a start was requested.
#[derive(Debug, Clone, Copy, PartialEq, Eq, Structural)]
pub struct Intro {
    pub start: bool,
}

impl Intro {
    /// A fresh intro screen with no start requested yet.
    pub fn new() -> (i: Intro)
        ensures
            i == (Intro { start: false }),
    {
        Intro { start: false }
    }

    /// Request the game start.
    pub fn button_down(&mut self)
        ensures
            *final(self) == (Intro { start: true }),
    {
        self.button_center();
    }

    /// Request the game start.
    pub fn button_right(&mut self)
        ensures
            *final(self) == (Intro { start: true }),
    {
        self.button_center();
    }

    /// Request the game start.
    pub fn button_center(&mut self)
        ensures
            *final(self) == (Intro { start: true }),
    {
        self.start = true;
    }
}

} // verus!
