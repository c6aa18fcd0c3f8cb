//! Frame-counted countdown primitive used wherever the game needs a delay.

use vstd::prelude::*;

verus! {

/// A saturating frame counter with a firing threshold.
///
/// `tick` increments the counter (saturating at `u8::MAX`), `is_due` reports
/// whether the counter has reached the threshold, and `step` combines the two
/// with an automatic reset on firing. A timer built by `infinite` uses the
/// maximum threshold and never fires through ordinary ticking alone; it can
/// still be forced due with `set_due`.
#[derive(Debug, Clone, Copy, PartialEq, Eq, Structural)]
pub struct Timer {
    pub delay: u8,
    pub step: u8,
}

impl Timer {
    /// The timer after one saturating tick.
    pub open spec fn spec_ticked(self) -> Timer {
        Timer {
            delay: self.delay,
            step: if self.step == u8::MAX {
                u8::MAX
            } else {
                (self.step + 1) as u8
            },
        }
    }

    /// The timer forced due.
    pub open spec fn spec_set_due(self) -> Timer {
        Timer { delay: self.delay, step: u8::MAX }
    }

    /// The timer with its counter started over.
    pub open spec fn spec_reset(self) -> Timer {
        Timer { delay: self.delay, step: 0 }
    }

    /// Whether one more tick makes the timer due.
    pub open spec fn spec_fires(self) -> bool {
        self.step + 1 >= self.delay
    }

    /// The timer after `step`: ticked, then reset if that made it due.
    pub open spec fn spec_stepped(self) -> Timer {
        if self.spec_fires() {
            self.spec_reset()
        } else {
            self.spec_ticked()
        }
    }

    /// Create a timer that fires once the counter reaches `delay`.
    pub fn new(delay: u8) -> (t: Timer)
        ensures
            t.delay == delay,
            t.step == 0,
    {
        Timer { delay, step: 0 }
    }

    /// Create a timer whose threshold is the maximum counter value.
    pub fn infinite() -> (t: Timer)
        ensures
            t.delay == u8::MAX,
            t.step == 0,
    {
        Timer::new(u8::MAX)
    }

    /// Start the timer with the counter already at `step`.
    pub fn start_at(self, step: u8) -> (t: Timer)
        ensures
            t.delay == self.delay,
            t.step == step,
    {
        Timer { delay: self.delay, step }
    }

    /// Read the current counter value.
    pub fn get(&self) -> (v: u8)
        ensures
            v == self.step,
    {
        self.step
    }

    /// Read the configured threshold.
    pub fn delay(&self) -> (v: u8)
        ensures
            v == self.delay,
    {
        self.delay
    }

    /// Advance the counter by one frame, saturating at the maximum.
    pub fn tick(&mut self)
        ensures
            *final(self) == old(self).spec_ticked(),
    {
        self.step = self.step.saturating_add(1);
    }

    /// Whether the counter has reached the threshold.
    pub fn is_due(&self) -> (due: bool)
        ensures
            due == (self.step >= self.delay),
    {
        self.step >= self.delay
    }

    /// Force the timer due regardless of the threshold.
    pub fn set_due(&mut self)
        ensures
            *final(self) == old(self).spec_set_due(),
    {
        self.step = u8::MAX;
    }

    /// Start the countdown over.
    pub fn reset(&mut self)
        ensures
            *final(self) == old(self).spec_reset(),
    {
        self.step = 0;
    }

    /// Advance by one frame; if that makes the timer due, reset the counter
    /// and report that it fired.
    pub fn step(&mut self) -> (fired: bool)
        ensures
            fired == old(self).spec_fires(),
            *final(self) == old(self).spec_stepped(),
    {
        self.tick();
        if self.is_due() {
            self.reset();
            true
        } else {
            false
        }
    }
}

} // verus!
