//! The top-level mode state machine: intro, one game level in play, or the
//! game-over screen. Exactly one mode is owned at a time, and a mode switch
//! replaces it wholesale.

use crate::game::spec_fresh;
use crate::game::Game;
use crate::game::SwitchTo;
use crate::game::NUM_LANES;
use crate::game::NUM_ROWS;
use crate::gameover::Decision;
use crate::gameover::Gameover;
use crate::intro::Intro;
use crate::random::Random;
use crate::tile::Tile;
use vstd::prelude::*;

verus! {

/// The current mode.
pub enum Context {
    Intro(Intro),
    Game(Game),
    Gameover(Gameover),
}

/// The obstacle, if any, that the level layout seeds at row `y` of the two
/// reserved lanes: levels 0 through 5 have fixed layouts, later levels cycle
/// through four patterns. The payload says whether the obstacle is tough.
pub open spec fn spec_obstacle_at(level: u32, y: int) -> Option<bool> {
    if level == 0 {
        if y == 14 {
            Some(false)
        } else {
            None
        }
    } else if level == 1 {
        if y == 19 {
            Some(false)
        } else {
            None
        }
    } else if level == 2 {
        if y == 8 || y == 14 {
            Some(false)
        } else {
            None
        }
    } else if level == 3 {
        if y == 6 || y == 17 || y == 20 {
            Some(false)
        } else {
            None
        }
    } else if level == 4 {
        if y == 17 {
            Some(false)
        } else if y == 14 {
            Some(true)
        } else {
            None
        }
    } else if level == 5 {
        if y == 17 {
            Some(true)
        } else if y == 14 {
            Some(false)
        } else {
            None
        }
    } else if level % 4 == 0 {
        if y == 15 || y == 16 || y == 17 || y == 18 {
            Some(false)
        } else {
            None
        }
    } else if level % 4 == 1 {
        if y == 17 {
            Some(true)
        } else if y == 16 {
            Some(false)
        } else {
            None
        }
    } else if level % 4 == 2 {
        if y == 7 || y == 15 || y == 19 {
            Some(false)
        } else {
            None
        }
    } else {
        if y == 16 || y == 20 {
            Some(false)
        } else if y == 8 {
            Some(true)
        } else {
            None
        }
    }
}

/// The cell a freshly laid-out level `level` holds at (`x`, `y`): the level's
/// obstacles in the two reserved lanes over the base field, whose lane 1 is
/// all wall.
pub open spec fn spec_layout_cell(level: u32, x: int, y: int) -> Option<Tile> {
    if x == 0 || x == 1 {
        match spec_obstacle_at(level, y) {
            Some(tough) => Some(Tile { wall: tough }),
            None => if x == 1 {
                Some(Tile { wall: true })
            } else {
                None
            },
        }
    } else {
        None
    }
}

/// Whether `c` is a freshly started level `level` with its layout applied.
pub open spec fn spec_started_level(c: Context, level: u32) -> bool {
    &&& c matches Context::Game(g)
    &&& (c matches Context::Game(g) ==> spec_fresh(g, level) && forall|x: int, y: int|
        0 <= x < NUM_LANES && 0 <= y < NUM_ROWS ==> #[trigger] g.cell(x, y) == spec_layout_cell(
            level,
            x,
            y,
        ))
}

impl Context {
    /// The owned mode is internally well-formed.
    pub open spec fn wf(self) -> bool {
        match self {
            Context::Game(g) => g.wf(),
            _ => true,
        }
    }

    /// Start at the intro screen.
    pub fn new() -> (c: Context)
        ensures
            c == Context::Intro(Intro { start: false }),
    {
        Context::Intro(Intro::new())
    }

    /// Replace the owned mode with a fresh game at `level`, seeded with the
    /// level's obstacle layout.
    fn start_game(&mut self, level: u32)
        ensures
            spec_started_level(*final(self), level),
            final(self).wf(),
    {
        let mut game = Game::new(level);
        if level == 0 {
            game.add_obstacle_at_row(7);
        } else if level == 1 {
            game.add_obstacle_at_row(2);
        } else if level == 2 {
            game.add_obstacle_at_row(13);
            game.add_obstacle_at_row(7);
        } else if level == 3 {
            game.add_obstacle_at_row(15);
            game.add_obstacle_at_row(4);
            game.add_obstacle_at_row(1);
        } else if level == 4 {
            game.add_obstacle_at_row(4);
            game.add_tough_obstacle_at_row(7);
        } else if level == 5 {
            game.add_tough_obstacle_at_row(4);
            game.add_obstacle_at_row(7);
        } else {
            let num = level % 4;
            if num == 0 {
                game.add_obstacle_at_row(3);
                game.add_obstacle_at_row(4);
                game.add_obstacle_at_row(5);
                game.add_obstacle_at_row(6);
            } else if num == 1 {
                game.add_tough_obstacle_at_row(4);
                game.add_obstacle_at_row(5);
            } else if num == 2 {
                game.add_obstacle_at_row(2);
                game.add_obstacle_at_row(6);
                game.add_obstacle_at_row(14);
            } else {
                game.add_obstacle_at_row(1);
                game.add_obstacle_at_row(5);
                game.add_tough_obstacle_at_row(13);
            }
        }
        *self = Context::Game(game);
    }

    /// Route an up press to the owned mode: nothing on the intro, a
    /// speculative rotation in the game, a menu toggle on the game-over
    /// screen.
    pub fn button_up(&mut self)
        requires
            old(self).wf(),
        ensures
            final(self).wf(),
            *old(self) matches Context::Intro(_) ==> *final(self) == *old(self),
            *old(self) matches Context::Game(g) ==> (*final(self) matches Context::Game(g2)
                && Game::spec_button_up_rel(g, g2)),
            *old(self) matches Context::Gameover(go) ==> *final(self) == Context::Gameover(
                (Gameover {
                    score: go.score,
                    decision: go.decision.spec_toggled(),
                    confirmed: go.confirmed,
                }),
            ),
    {
        match self {
            Context::Intro(_intro) => (),
            Context::Game(game) => game.button_up(),
            Context::Gameover(gameover) => gameover.button_up(),
        }
    }

    /// Route a down press to the owned mode: a start request on the intro, a
    /// narrator press or hard drop in the game, a menu toggle on the
    /// game-over screen.
    pub fn button_down(&mut self)
        requires
            old(self).wf(),
        ensures
            final(self).wf(),
            *old(self) matches Context::Intro(_) ==> *final(self) == Context::Intro(
                (Intro { start: true }),
            ),
            *old(self) matches Context::Game(g) ==> (*final(self) matches Context::Game(g2)
                && Game::spec_button_down_rel(g, g2)),
            *old(self) matches Context::Gameover(go) ==> *final(self) == Context::Gameover(
                (Gameover {
                    score: go.score,
                    decision: go.decision.spec_toggled(),
                    confirmed: go.confirmed,
                }),
            ),
    {
        match self {
            Context::Intro(intro) => intro.button_down(),
            Context::Game(game) => game.button_down(),
            Context::Gameover(gameover) => gameover.button_down(),
        }
    }

    /// Route a right press to the owned mode: a start request on the intro,
    /// a speculative lane shift in the game, a confirmation on the game-over
    /// screen.
    pub fn button_right(&mut self)
        requires
            old(self).wf(),
        ensures
            final(self).wf(),
            *old(self) matches Context::Intro(_) ==> *final(self) == Context::Intro(
                (Intro { start: true }),
            ),
            *old(self) matches Context::Game(g) ==> (*final(self) matches Context::Game(g2)
                && Game::spec_button_right_rel(g, g2)),
            *old(self) matches Context::Gameover(go) ==> *final(self) == Context::Gameover(
                (Gameover { score: go.score, decision: go.decision, confirmed: true }),
            ),
    {
        match self {
            Context::Intro(intro) => intro.button_right(),
            Context::Game(game) => game.button_right(),
            Context::Gameover(gameover) => gameover.button_right(),
        }
    }

    /// Route a left press to the owned mode: only the game reacts, with a
    /// speculative lane shift.
    pub fn button_left(&mut self)
        requires
            old(self).wf(),
        ensures
            final(self).wf(),
            *old(self) matches Context::Intro(_) ==> *final(self) == *old(self),
            *old(self) matches Context::Game(g) ==> (*final(self) matches Context::Game(g2)
                && Game::spec_button_left_rel(g, g2)),
            *old(self) matches Context::Gameover(_) ==> *final(self) == *old(self),
    {
        match self {
            Context::Intro(_intro) => (),
            Context::Game(game) => game.button_left(),
            Context::Gameover(_gameover) => (),
        }
    }

    /// Route a center press to the owned mode: a start request on the intro,
    /// the down press's effect in the game, a confirmation on the game-over
    /// screen.
    pub fn button_center(&mut self)
        requires
            old(self).wf(),
        ensures
            final(self).wf(),
            *old(self) matches Context::Intro(_) ==> *final(self) == Context::Intro(
                (Intro { start: true }),
            ),
            *old(self) matches Context::Game(g) ==> (*final(self) matches Context::Game(g2)
                && Game::spec_button_down_rel(g, g2)),
            *old(self) matches Context::Gameover(go) ==> *final(self) == Context::Gameover(
                (Gameover { score: go.score, decision: go.decision, confirmed: true }),
            ),
    {
        match self {
            Context::Intro(intro) => intro.button_center(),
            Context::Game(game) => game.button_center(),
            Context::Gameover(gameover) => gameover.button_center(),
        }
    }

    /// Advance the owned mode by one frame and act on its outcome: the intro
    /// starts level 0 once a start was requested; a game advances and its due
    /// transition starts the next level or the game-over screen; a confirmed
    /// game-over decision restarts at level 0 or returns to the intro.
    pub fn tick(&mut self, random: &mut Random)
        requires
            old(self).wf(),
        ensures
            final(self).wf(),
            match *old(self) {
                Context::Intro(i) => if i.start {
                    spec_started_level(*final(self), 0)
                } else {
                    *final(self) == *old(self)
                },
                Context::Game(_) => exists|g2: Game|
                    {
                        &&& #[trigger] Game::spec_tick_rel(old(self)->Game_0, g2)
                        &&& g2.wf()
                        &&& match g2.spec_transition() {
                            Some(SwitchTo::NextLevel(l)) => spec_started_level(*final(self), l),
                            Some(SwitchTo::GameOver(l)) => *final(self) == Context::Gameover(
                                Gameover { score: l, decision: Decision::Quit, confirmed: false },
                            ),
                            None => *final(self) == Context::Game(g2),
                        }
                    },
                Context::Gameover(go) => match go.spec_decision() {
                    Some(Decision::Quit) => *final(self) == Context::Intro(Intro { start: false }),
                    Some(Decision::Restart) => spec_started_level(*final(self), 0),
                    None => *final(self) == *old(self),
                },
            },
    {
        let mut cur = Context::Intro(Intro { start: false });
        core::mem::swap(&mut cur, self);
        match cur {
            Context::Intro(intro) => {
                if intro.start {
                    self.start_game(0);
                } else {
                    *self = Context::Intro(intro);
                }
            },
            Context::Game(mut game) => {
                game.tick(random);
                let tr = game.transition();
                match tr {
                    Some(SwitchTo::NextLevel(level)) => {
                        self.start_game(level);
                    },
                    Some(SwitchTo::GameOver(level)) => {
                        *self = Context::Gameover(Gameover::new(level));
                    },
                    None => {
                        *self = Context::Game(game);
                    },
                }
            },
            Context::Gameover(gameover) => {
                match gameover.decision() {
                    Some(Decision::Quit) => {
                        *self = Context::Intro(Intro::new());
                    },
                    Some(Decision::Restart) => {
                        self.start_game(0);
                    },
                    None => {
                        *self = Context::Gameover(gameover);
                    },
                }
            },
        }
    }
}

} // verus!
