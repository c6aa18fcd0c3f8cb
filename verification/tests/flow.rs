use bladefall::blade::Blade;
use bladefall::ctx::Context;
use bladefall::game::Game;
use bladefall::game::SwitchTo;
use bladefall::gameover::Decision;
use bladefall::gameover::Gameover;
use bladefall::gfx::centered;
use bladefall::input::Action;
use bladefall::input::Input;
use bladefall::narrator::Narrator;
use bladefall::pieces::Grid;
use bladefall::pieces::Piece;
use bladefall::random::Random;
use bladefall::tile::Tile;
use bladefall::timer::Timer;

#[test]
fn blade_settles_without_moving_when_already_at_the_target() {
    let mut b = Blade::new();
    b.y = 82;
    assert!(b.move_towards(82));
    assert_eq!(b.y, 82);
    // the ramp was reset
    assert_eq!(b.speed.get(), 0);
}

#[test]
fn blade_eases_toward_its_target() {
    let mut b = Blade::new();
    let mut positions = Vec::new();
    while !b.move_towards(10) {
        positions.push(b.y);
        assert!(positions.len() < 32, "blade never settled");
    }
    assert_eq!(positions, vec![0, 1, 3, 6, 10]);
    assert_eq!(b.y, 10);
}

#[test]
fn blade_off_screen_boundary() {
    let mut b = Blade::new();
    b.y = 146;
    assert!(!b.is_off_screen());
    b.y = 147;
    assert!(b.is_off_screen());
}

#[test]
fn blade_points_outline() {
    let mut b = Blade::new();
    b.y = 100;
    let pts = b.points();
    assert_eq!(
        pts,
        [
            (20, 100),
            (20, 82),
            (-12, 82),
            (-12, 95),
            (20, 100),
            (20, 99),
            (-12, 94),
        ]
    );
}

#[test]
fn narrator_reveals_and_releases() {
    let mut n = Narrator::level0();
    assert_eq!(n.length(), 37);
    assert!(!n.started());

    // a press before the start delay elapsed is swallowed
    n = n.button_pressed().expect("still owned");
    assert!(!n.started());

    for _ in 0..3 {
        n.tick();
    }
    assert!(n.started());
    assert!(!n.done());

    // the reveal advances one character per tick
    n.tick();
    assert!(!n.done());

    // a press while revealing fast-forwards
    n = n.button_pressed().expect("still owned");
    assert!(n.done());

    // a press once done releases the narrator
    assert!(n.button_pressed().is_none());
}

#[test]
fn narrator_reveal_walks_the_lines_in_order() {
    let mut n = Narrator::level0();
    // line lengths: 6, 11, 1, 16, 3
    assert_eq!(n.reveal_len(0), Some(0));
    assert_eq!(n.reveal_len(1), None);

    for _ in 0..3 {
        n.tick();
    }
    for _ in 0..6 {
        n.tick();
    }
    // the first line is exactly used up; the second is not reached yet
    assert_eq!(n.reveal_len(0), Some(6));
    assert_eq!(n.reveal_len(1), None);

    n.tick();
    assert_eq!(n.reveal_len(0), Some(6));
    assert_eq!(n.reveal_len(1), Some(1));
    assert_eq!(n.reveal_len(2), None);

    n = n.button_pressed().expect("still owned");
    assert_eq!(n.reveal_len(0), Some(6));
    assert_eq!(n.reveal_len(1), Some(11));
    assert_eq!(n.reveal_len(2), Some(1));
    assert_eq!(n.reveal_len(3), Some(16));
    assert_eq!(n.reveal_len(4), Some(3));
}

#[test]
fn narrator_finishes_by_ticking_through_the_text() {
    let mut n = Narrator::level0();
    for _ in 0..3 {
        n.tick();
    }
    for _ in 0..36 {
        n.tick();
        assert!(!n.done());
    }
    n.tick();
    assert!(n.done());
}

#[test]
fn input_probe_detects_edges() {
    let mut i = Input::default();
    assert_eq!(i.probe(false), None);
    assert_eq!(i.probe(true), Some(Action::Pressed));
    assert_eq!(i.probe(true), None);
    assert_eq!(i.probe(false), Some(Action::Released));
    assert_eq!(i.probe(false), None);
}

#[test]
fn centered_puts_a_box_in_the_middle() {
    assert_eq!(centered(64, 37), 14);
    assert_eq!(centered(64, 64), 0);
    assert_eq!(centered(128, 6), 61);
}

#[test]
fn decision_toggles_between_the_two_items() {
    let mut d = Decision::Quit;
    d.toggle();
    assert_eq!(d, Decision::Restart);
    d.toggle();
    assert_eq!(d, Decision::Quit);
}

#[test]
fn gameover_confirms_a_decision_once() {
    let mut g = Gameover::new(12);
    assert_eq!(g.decision(), None);
    g.button_up();
    assert_eq!(g.decision(), None);
    g.button_center();
    assert_eq!(g.decision(), Some(Decision::Restart));
    assert_eq!(g.score, 12);
}

fn assert_level0_layout(ctx: &Context) {
    match ctx {
        Context::Game(game) => {
            assert_eq!(game.level, 0);
            assert!(game.narrator.is_some());
            assert_eq!(game.lanes[0][14], Some(Tile { wall: false }));
            assert_eq!(game.lanes[1][14], Some(Tile { wall: false }));
            for y in 0..21 {
                if y != 14 {
                    assert_eq!(game.lanes[0][y], None);
                    assert_eq!(game.lanes[1][y], Some(Tile { wall: true }));
                }
            }
        },
        _ => panic!("expected a running game"),
    }
}

#[test]
fn scenario_intro_starts_level_zero() {
    let mut random = Random::from_seed(1);
    let mut ctx = Context::new();
    assert!(matches!(ctx, Context::Intro(_)));
    ctx.button_center();
    ctx.tick(&mut random);
    assert_level0_layout(&ctx);
}

#[test]
fn scenario_piece_locks_and_the_next_one_spawns() {
    let mut random = Random::from_seed(2);
    let mut g = Game::new(1);
    // give the blade a resting target so the drop logic runs
    g.add_obstacle_at_row(1);
    g.blade.y = 20 * 6 - 2;
    // the piece sits one descent step above the floor
    g.piece = Grid::new(Piece::T);
    g.lane = 4;
    g.drop = 107;
    g.drop_speed = i32::MAX;

    g.tick(&mut random);

    // the piece persisted into the field as soft tiles
    assert_eq!(g.lanes[4][19], Some(Tile { wall: false }));
    assert_eq!(g.lanes[5][19], Some(Tile { wall: false }));
    assert_eq!(g.lanes[6][19], Some(Tile { wall: false }));
    assert_eq!(g.lanes[5][20], Some(Tile { wall: false }));
    // the next piece spawned above the field at the initial lane
    assert_ne!(g.piece.piece, Piece::O);
    assert_eq!(g.lane, 4);
    assert_eq!(g.drop, -(g.piece.lowest_point() as i32) * 6);
    assert_eq!(g.drop_speed, 1);
    assert!(g.pending.is_none());
}

#[test]
fn scenario_game_over_countdown_fires_and_repeats() {
    let mut random = Random::from_seed(3);
    let mut g = Game::new(4);
    g.pending = Some((SwitchTo::GameOver(4), Timer::new(3)));
    assert!(g.transition().is_none());
    g.tick(&mut random);
    assert!(g.transition().is_none());
    g.tick(&mut random);
    assert!(g.transition().is_none());
    g.tick(&mut random);
    assert!(matches!(g.transition(), Some(SwitchTo::GameOver(4))));
    // the report repeats while the game still owns the token
    g.tick(&mut random);
    assert!(matches!(g.transition(), Some(SwitchTo::GameOver(4))));
}

#[test]
fn scenario_game_over_menu_restarts_at_level_zero() {
    let mut random = Random::from_seed(4);
    let mut ctx = Context::Gameover(Gameover::new(9));
    ctx.button_up();
    ctx.tick(&mut random);
    assert!(matches!(ctx, Context::Gameover(_)));
    ctx.button_center();
    ctx.tick(&mut random);
    assert_level0_layout(&ctx);
}

#[test]
fn gameover_quit_returns_to_the_intro() {
    let mut random = Random::from_seed(5);
    let mut ctx = Context::Gameover(Gameover::new(9));
    ctx.button_center();
    ctx.tick(&mut random);
    assert!(matches!(ctx, Context::Intro(_)));
}

#[test]
fn a_full_level_reaches_game_over_by_itself() {
    // keep dropping pieces without input; the stack must eventually top out
    let mut random = Random::from_seed(6);
    let mut ctx = Context::new();
    ctx.button_center();
    let mut saw_game = false;
    for _ in 0..100000 {
        ctx.button_down();
        ctx.tick(&mut random);
        match &ctx {
            Context::Game(_) => saw_game = true,
            Context::Gameover(_) => break,
            Context::Intro(_) => {},
        }
    }
    assert!(saw_game);
    assert!(matches!(ctx, Context::Gameover(_)));
}
