use bladefall::game::Game;
use bladefall::pieces::Grid;
use bladefall::pieces::Piece;
use bladefall::pieces::Rotation;
use bladefall::tile::Tile;

#[test]
fn lane_shifts_are_validated_against_the_walls() {
    let mut g = Game::new(1);
    // T spans columns 0..=2, so lanes 2 through 5 are playable
    assert_eq!(g.lane, 4);
    g.button_right();
    assert_eq!(g.lane, 5);
    g.button_right();
    assert_eq!(g.lane, 5);
    for _ in 0..5 {
        g.button_left();
    }
    assert_eq!(g.lane, 2);
}

#[test]
fn rotation_is_rejected_when_it_would_collide() {
    let mut g = Game::new(1);
    g.piece = Grid::new(Piece::I);
    g.drop = 0;
    // the horizontal bar only fits up to lane 4; park it there
    g.lane = 4;
    g.button_up();
    // the vertical bar (columns pad 2 left, 1 right) fits at lane 4
    assert_eq!(g.piece.rotation, Rotation::R90);

    // block the cell the bar would rotate back into
    g.lanes[4][3] = Some(Tile { wall: false });
    g.button_up();
    assert_eq!(g.piece.rotation, Rotation::R90);
}

#[test]
fn lane_shift_is_rejected_when_blocked_by_a_tile() {
    let mut g = Game::new(1);
    g.piece = Grid::new(Piece::T);
    g.lane = 3;
    g.drop = 0;
    // offset row 1: the piece occupies rows 2 and 3; block (7, 2)
    g.lanes[7][2] = Some(Tile { wall: false });
    g.button_right();
    assert_eq!(g.lane, 4);
    g.button_right();
    // lane 5 would put the piece's column 2 into lane 7's blocked cell
    assert_eq!(g.lane, 4);
}

#[test]
fn down_press_arms_the_hard_drop() {
    let mut g = Game::new(1);
    assert_eq!(g.drop_speed, 1);
    g.button_down();
    assert_eq!(g.drop_speed, i32::MAX);
}

#[test]
fn down_press_goes_to_the_narrator_while_present() {
    let mut g = Game::new(0);
    assert!(g.narrator.is_some());
    g.button_down();
    // the press was swallowed by the unstarted narrator, not used to drop
    assert!(g.narrator.is_some());
    assert_eq!(g.drop_speed, 1);
}

#[test]
fn center_press_acts_like_down() {
    let mut g = Game::new(1);
    g.button_center();
    assert_eq!(g.drop_speed, i32::MAX);
}

#[test]
fn obstacles_above_the_field_height_land_on_the_top_row() {
    let mut g = Game::new(1);
    g.add_obstacle_at_row(40);
    assert_eq!(g.lanes[0][0], Some(Tile { wall: false }));
    assert_eq!(g.lanes[1][0], Some(Tile { wall: false }));
}
