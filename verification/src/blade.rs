//! The falling cut-line that destroys obstacles; its exit past the bottom of
//! the display signals level completion.

use crate::gfx::DISPLAY_HEIGHT;
use crate::timer::Timer;
use vstd::prelude::*;

verus! {

/// Height of the blade polygon in pixels.
pub const HEIGHT: u32 = 18;

/// Width of the blade polygon in pixels.
pub const WIDTH: u32 = 32;

/// Vertical rise of the blade's slanted edge.
pub const ANGLE: u32 = 5;

/// Thickness of the blade's sharp edge.
pub const SHARP: i32 = 1;

/// Gap kept between the blade's resting edge and its target row.
pub const PADDING: i32 = 2;

/// Horizontal position of the blade's right edge on the display.
pub const X_OFFSET: i32 = 20;

/// Fastest descent in pixels per tick the blade's easing reaches.
pub const TOP_SPEED: u8 = 4;

/// The obstacle-cutting cursor: the vertical position of its bottom-right
/// corner, and the ramping timer that eases its fall up to `TOP_SPEED`.
#[derive(Debug, Clone, Copy, PartialEq, Eq, Structural)]
pub struct Blade {
    pub y: i32,
    pub speed: Timer,
}

impl Blade {
    /// Pixels the blade would fall this tick: the ramp counter, capped.
    pub open spec fn spec_speed(self) -> int {
        if self.speed.step < TOP_SPEED {
            self.speed.step as int
        } else {
            TOP_SPEED as int
        }
    }

    /// The blade after one movement tick toward `height`: when already there
    /// it only resets its ramp; otherwise it steps toward the target, capped
    /// by the ramping speed, and the ramp counter advances.
    pub open spec fn spec_moved(self, height: int) -> Blade {
        if self.y == height {
            Blade { y: self.y, speed: self.speed.spec_reset() }
        } else {
            let stepped = if self.y + self.spec_speed() < height {
                self.y + self.spec_speed()
            } else {
                height
            };
            Blade { y: stepped as i32, speed: self.speed.spec_ticked() }
        }
    }

    /// Whether the blade's top edge has passed the bottom of the display.
    pub open spec fn spec_off_screen(self) -> bool {
        self.y - HEIGHT > DISPLAY_HEIGHT
    }

    /// A blade resting at the top of the display with its ramp at zero.
    pub fn new() -> (b: Blade)
        ensures
            b.y == 0,
            b.speed.delay == TOP_SPEED,
            b.speed.step == 0,
    {
        Blade { y: 0, speed: Timer::new(TOP_SPEED) }
    }

    /// Move one tick toward `height`; report whether the blade already rested
    /// there (in which case it does not move and its ramp starts over).
    pub fn move_towards(&mut self, height: i32) -> (settled: bool)
        requires
            old(self).y != height ==> old(self).y <= i32::MAX - 4 && i32::MIN + 4 <= height,
        ensures
            settled == (old(self).y == height),
            *final(self) == old(self).spec_moved(height as int),
    {
        if self.y == height {
            self.speed.reset();
            return true;
        }

        let ramp = self.speed.get();
        let speed: i32 = if ramp > TOP_SPEED {
            TOP_SPEED as i32
        } else {
            ramp as i32
        };
        let candidate = self.y + speed;
        let next_height = if candidate < height {
            candidate
        } else {
            height
        };
        self.speed.tick();
        self.y = next_height;
        false
    }

    /// The seven vertices of the blade polygon, as (x, y) pixel pairs: the
    /// closed outline followed by the sharp double edge.
    pub open spec fn spec_points(self) -> Seq<(i32, i32)> {
        seq![
            (X_OFFSET, self.y),
            (X_OFFSET, (self.y - 18) as i32),
            ((X_OFFSET - 32) as i32, (self.y - 18) as i32),
            ((X_OFFSET - 32) as i32, (self.y - 5) as i32),
            (X_OFFSET, self.y),
            (X_OFFSET, (self.y - 1) as i32),
            ((X_OFFSET - 32) as i32, (self.y - 6) as i32),
        ]
    }

    /// Compute the blade polygon's vertices for the current position.
    pub fn points(&self) -> (pts: [(i32, i32); 7])
        requires
            i32::MIN + 32 <= self.y,
        ensures
            pts@ == self.spec_points(),
    {
        let y = self.y;
        let pts = [
            (X_OFFSET, y),
            (X_OFFSET, y - 18),
            (X_OFFSET - 32, y - 18),
            (X_OFFSET - 32, y - 5),
            (X_OFFSET, y),
            (X_OFFSET, y - 1),
            (X_OFFSET - 32, y - 6),
        ];
        proof {
            assert(pts@ =~= self.spec_points());
        }
        pts
    }

    /// Whether the blade has left the display past its bottom edge.
    pub fn is_off_screen(&self) -> (off: bool)
        requires
            i32::MIN + 18 <= self.y,
        ensures
            off == self.spec_off_screen(),
    {
        self.y - 18 > DISPLAY_HEIGHT
    }
}

} // verus!
