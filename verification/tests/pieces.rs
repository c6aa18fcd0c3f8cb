use bladefall::pieces::Grid;
use bladefall::pieces::Piece;
use bladefall::pieces::Rotation;

const ALL_PIECES: [Piece; 7] = [
    Piece::O,
    Piece::I,
    Piece::J,
    Piece::L,
    Piece::T,
    Piece::S,
    Piece::Z,
];

fn mask(g: &Grid) -> [[bool; 4]; 4] {
    let mut m = [[false; 4]; 4];
    for x in 0..4 {
        for y in 0..4 {
            m[x][y] = g.occupied_at(x, y);
        }
    }
    m
}

#[test]
fn every_mask_is_nonempty_and_returns_after_four_rotations() {
    for piece in ALL_PIECES {
        let mut g = Grid::new(piece);
        let original = mask(&g);
        for turn in 0..4 {
            let m = mask(&g);
            let count = m.iter().flatten().filter(|c| **c).count();
            assert_eq!(count, 4, "mask of {:?} after {} turns is no tetromino", piece, turn);
            g.rotate();
        }
        assert_eq!(mask(&g), original, "mask of {:?} after four turns", piece);
    }
}

#[test]
fn t_piece_initial_mask_is_exact() {
    let g = Grid::new(Piece::T);
    assert!(g.occupied_at(0, 1));
    assert!(g.occupied_at(1, 1));
    assert!(g.occupied_at(2, 1));
    assert!(g.occupied_at(1, 2));
    assert!(!g.occupied_at(1, 0));
    assert!(!g.occupied_at(3, 1));
    assert_eq!(
        mask(&g).iter().flatten().filter(|c| **c).count(),
        4
    );
}

#[test]
fn rotation_state_cycles() {
    let mut r = Rotation::R0;
    r.rotate();
    assert_eq!(r, Rotation::R90);
    r.rotate();
    assert_eq!(r, Rotation::R180);
    r.rotate();
    assert_eq!(r, Rotation::R270);
    r.rotate();
    assert_eq!(r, Rotation::R0);
}

#[test]
fn paddings_of_the_i_piece() {
    let mut g = Grid::new(Piece::I);
    // horizontal bar fills the row
    assert_eq!(g.padding_left(), 0);
    assert_eq!(g.padding_right(), 0);
    assert_eq!(g.lowest_point(), 2);
    g.rotate();
    // vertical bar sits in column 2
    assert_eq!(g.padding_left(), 2);
    assert_eq!(g.padding_right(), 1);
    assert_eq!(g.lowest_point(), 3);
}

#[test]
fn collision_points_of_the_t_piece() {
    let g = Grid::new(Piece::T);
    assert_eq!(g.collision_points(), [Some(1), Some(2), Some(1), None]);
}

#[test]
fn vertical_z_mask_is_exact() {
    let mut g = Grid::new(Piece::Z);
    g.rotate();
    assert!(g.occupied_at(2, 0));
    assert!(g.occupied_at(1, 1));
    assert!(g.occupied_at(2, 1));
    assert!(g.occupied_at(1, 2));
}

#[test]
fn into_grid_starts_unrotated() {
    let g = Piece::S.into_grid();
    assert_eq!(g.piece, Piece::S);
    assert_eq!(g.rotation, Rotation::R0);
}
