use bladefall::game::select_piece;
use bladefall::game::Game;
use bladefall::pieces::Grid;
use bladefall::pieces::Piece;
use bladefall::random::Random;
use bladefall::tile::Tile;

const ALL_PIECES: [Piece; 7] = [
    Piece::O,
    Piece::I,
    Piece::J,
    Piece::L,
    Piece::T,
    Piece::S,
    Piece::Z,
];

#[test]
fn fresh_field_has_only_the_wall_lane() {
    let g = Game::new(1);
    for x in 0..8 {
        for y in 0..21 {
            let expected = if x == 1 { Some(Tile { wall: true }) } else { None };
            assert_eq!(g.lanes[x][y], expected);
        }
    }
    assert!(g.narrator.is_none());
    assert_eq!(g.level, 1);
    assert_eq!(g.lane, 4);
    assert_eq!(g.drop, -24);
    assert_eq!(g.drop_speed, 1);
    assert!(g.pending.is_none());
}

#[test]
fn level_zero_comes_with_a_narrator() {
    let g = Game::new(0);
    assert!(g.narrator.is_some());
}

#[test]
fn collides_matches_the_span_rule_on_an_empty_field() {
    // exhaustive over every shape, rotation and lane on the fixed field
    for piece in ALL_PIECES {
        let mut grid = Grid::new(piece);
        for _ in 0..4 {
            for lane in 0u32..10 {
                let mut g = Game::new(1);
                g.piece = grid;
                g.lane = lane;
                g.drop = 0;
                let pl = grid.padding_left();
                let pr = grid.padding_right();
                let expected = lane + pl < 2 || lane + 4 - pr > 8;
                assert_eq!(
                    g.collides(),
                    expected,
                    "span rule for {:?} {:?} at lane {}",
                    piece,
                    grid.rotation,
                    lane
                );
            }
            grid.rotate();
        }
    }
}

#[test]
fn collides_on_an_occupied_cell() {
    let mut g = Game::new(1);
    g.lanes[4][10] = Some(Tile { wall: false });
    // T at lane 3 with row offset 9 covers (4, 10)
    g.piece = Grid::new(Piece::T);
    g.lane = 3;
    g.drop = 48;
    assert!(g.collides());
    // one lane to the right it no longer overlaps
    g.lane = 5;
    assert!(!g.collides());
}

#[test]
fn cells_above_the_field_never_collide() {
    let mut g = Game::new(1);
    // a full top row does not collide with a piece still above the field
    for x in 2..8 {
        g.lanes[x][0] = Some(Tile { wall: false });
    }
    g.piece = Grid::new(Piece::T);
    g.lane = 4;
    g.drop = -24;
    assert!(!g.collides());
}

#[test]
fn completed_row_clears_and_shifts_rows_down() {
    let mut g = Game::new(1);
    for x in 2..8 {
        g.lanes[x][20] = Some(Tile { wall: false });
    }
    // markers above the completed row
    g.lanes[3][19] = Some(Tile { wall: false });
    g.lanes[5][18] = Some(Tile { wall: true });
    // a soft obstacle in the reserved lane on the completed row
    g.lanes[0][20] = Some(Tile { wall: false });

    g.check_completed_rows();

    // the completed row now holds what was one row above
    assert_eq!(g.lanes[3][20], Some(Tile { wall: false }));
    for x in [2, 4, 5, 6, 7] {
        assert_eq!(g.lanes[x][20], None);
    }
    // the row above shifted down too, hard tiles included
    assert_eq!(g.lanes[5][19], Some(Tile { wall: true }));
    assert_eq!(g.lanes[5][18], None);
    // the top row of the shifted lanes is empty
    for x in 2..8 {
        assert_eq!(g.lanes[x][0], None);
    }
    // the wall lane is never shifted
    for y in 0..21 {
        assert_eq!(g.lanes[1][y], Some(Tile { wall: true }));
    }
    // the reserved lane's soft tile on the completed row was cleared
    assert_eq!(g.lanes[0][20], None);
}

#[test]
fn incomplete_row_is_left_alone() {
    let mut g = Game::new(1);
    for x in 2..7 {
        g.lanes[x][20] = Some(Tile { wall: false });
    }
    let before = g.lanes.clone();
    g.check_completed_rows();
    assert_eq!(g.lanes, before);
}

#[test]
fn stacked_completed_rows_both_clear_in_one_pass() {
    let mut g = Game::new(1);
    for x in 2..8 {
        g.lanes[x][19] = Some(Tile { wall: false });
        g.lanes[x][20] = Some(Tile { wall: false });
    }
    g.check_completed_rows();
    for x in 2..8 {
        assert_eq!(g.lanes[x][19], None);
        assert_eq!(g.lanes[x][20], None);
    }
}

#[test]
fn wall_tiles_survive_row_completion() {
    let mut g = Game::new(1);
    for x in 2..8 {
        g.lanes[x][20] = Some(Tile { wall: false });
    }
    g.lanes[4][20] = Some(Tile { wall: true });
    g.check_completed_rows();
    // the hard tile was not cleared; it received the (empty) row from above
    // only in lanes beyond the reserved ones, so after the shift the lane 4
    // cell holds what row 19 held: nothing
    assert_eq!(g.lanes[4][20], None);

    // a hard tile in the reserved lanes is never cleared by completion
    let mut g2 = Game::new(1);
    for x in 2..8 {
        g2.lanes[x][20] = Some(Tile { wall: false });
    }
    g2.lanes[0][20] = Some(Tile { wall: true });
    g2.check_completed_rows();
    assert_eq!(g2.lanes[0][20], Some(Tile { wall: true }));
}

#[test]
fn obstacles_seed_rows_from_the_bottom() {
    let mut g = Game::new(1);
    g.add_obstacle_at_row(7);
    assert_eq!(g.lanes[0][14], Some(Tile { wall: false }));
    assert_eq!(g.lanes[1][14], Some(Tile { wall: false }));
    g.add_tough_obstacle_at_row(1);
    assert_eq!(g.lanes[0][20], Some(Tile { wall: true }));
    assert_eq!(g.lanes[1][20], Some(Tile { wall: true }));
    assert_eq!((g.next_obstacle().0), Some(14));
    assert_eq!(g.next_obstacle().1, 14 * 6 - 2);
}

#[test]
fn next_obstacle_on_an_empty_reserved_lane() {
    let g = Game::new(1);
    let (row, height) = g.next_obstacle();
    assert_eq!(row, None);
    assert_eq!(height, i32::MAX);
}

#[test]
fn blade_cut_clears_the_wall_flag_in_place() {
    let mut g = Game::new(1);
    g.add_tough_obstacle_at_row(7);
    g.blade_hits_row(14);
    assert_eq!(g.lanes[0][14], Some(Tile { wall: false }));
    assert_eq!(g.lanes[1][14], Some(Tile { wall: false }));
    // an empty row has nothing to cut
    g.blade_hits_row(10);
    assert_eq!(g.lanes[0][10], None);
}

#[test]
fn selection_mapping_is_exact() {
    assert_eq!(select_piece(0, None), None);
    assert_eq!(select_piece(1, None), Some(Piece::I));
    assert_eq!(select_piece(2, None), Some(Piece::J));
    assert_eq!(select_piece(3, None), Some(Piece::L));
    assert_eq!(select_piece(4, None), Some(Piece::T));
    assert_eq!(select_piece(5, None), Some(Piece::S));
    assert_eq!(select_piece(6, None), Some(Piece::Z));
    assert_eq!(select_piece(7, None), None);
    assert_eq!(select_piece(9, None), Some(Piece::I));
    // a draw equal to the falling shape is discarded
    assert_eq!(select_piece(1, Some(Piece::I)), None);
    assert_eq!(select_piece(1, Some(Piece::J)), Some(Piece::I));
}

#[test]
fn selection_never_yields_the_square() {
    for v in 0..64u64 {
        for current in [None, Some(Piece::O), Some(Piece::T)] {
            assert_ne!(select_piece(v, current), Some(Piece::O));
        }
    }
}

#[test]
fn seeded_draws_follow_the_discard_rule() {
    let mut random = Random::from_seed(42);
    let mut current = Some(Piece::T);
    let mut accepted: u32 = 0;
    for i in 0..200u64 {
        let value = random.squeeze_word(i);
        let expected = {
            let shape = match value % 8 {
                1 => Some(Piece::I),
                2 => Some(Piece::J),
                3 => Some(Piece::L),
                4 => Some(Piece::T),
                5 => Some(Piece::S),
                6 => Some(Piece::Z),
                _ => None,
            };
            if shape == current { None } else { shape }
        };
        let got = select_piece(value, current);
        assert_eq!(got, expected);
        assert_ne!(got, Some(Piece::O));
        if current.is_some() {
            assert_ne!(got, current);
        }
        current = None;
        if got.is_some() {
            accepted += 1;
        }
    }
    assert!(accepted > 0);
}

#[test]
fn spawn_places_the_next_piece_above_the_field() {
    let mut g = Game::new(1);
    g.drop_speed = i32::MAX;
    g.lane = 6;
    let mut random = Random::from_seed(7);
    g.spawn_next_piece(&mut random);
    assert_ne!(g.piece.piece, Piece::O);
    assert_eq!(g.lane, 4);
    assert_eq!(g.drop, -(g.piece.lowest_point() as i32) * 6);
    assert_eq!(g.drop_speed, 1);
}
