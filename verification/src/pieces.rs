//! The seven tetromino shapes, their four rotation states, and the 4x4
//! occupancy grid a falling piece is tracked in.

use vstd::prelude::*;

verus! {

/// Width (and height) of the occupancy grid of a single piece.
pub const GRID_WIDTH: u32 = 4;

/// One of the seven standard tetromino shapes.
#[derive(Debug, Clone, Copy, PartialEq, Eq, Structural)]
pub enum Piece {
    O,
    I,
    J,
    L,
    T,
    S,
    Z,
}

/// A rotation state; a quarter turn advances it cyclically.
#[derive(Debug, Clone, Copy, PartialEq, Eq, Structural)]
pub enum Rotation {
    R0,
    R90,
    R180,
    R270,
}

/// The fixed occupancy table: whether cell (`x`, `y`) of the 4x4 grid is
/// occupied for the given shape and rotation state. `x` counts columns from
/// the left, `y` rows from the top.
pub open spec fn occupied(p: Piece, r: Rotation, x: int, y: int) -> bool {
    match (p, r) {
        (Piece::O, _) => (x == 1 || x == 2) && (y == 1 || y == 2),
        (Piece::I, Rotation::R0) | (Piece::I, Rotation::R180) => y == 2 && 0 <= x < 4,
        (Piece::I, Rotation::R90) | (Piece::I, Rotation::R270) => x == 2 && 0 <= y < 4,
        (Piece::J, Rotation::R0) => (y == 1 && (x == 0 || x == 1 || x == 2)) || (x == 2 && y == 2),
        (Piece::J, Rotation::R90) => (x == 0 && y == 2) || (x == 1 && (y == 0 || y == 1 || y == 2)),
        (Piece::J, Rotation::R180) => (x == 0 && y == 0) || (y == 1 && (x == 0 || x == 1 || x == 2)),
        (Piece::J, Rotation::R270) => (x == 1 && (y == 0 || y == 1 || y == 2)) || (x == 2 && y == 0),
        (Piece::L, Rotation::R0) => (y == 1 && (x == 0 || x == 1 || x == 2)) || (x == 0 && y == 2),
        (Piece::L, Rotation::R90) => (x == 0 && y == 0) || (x == 1 && (y == 0 || y == 1 || y == 2)),
        (Piece::L, Rotation::R180) => (x == 2 && y == 0) || (y == 1 && (x == 0 || x == 1 || x == 2)),
        (Piece::L, Rotation::R270) => (x == 1 && (y == 0 || y == 1 || y == 2)) || (x == 2 && y == 2),
        (Piece::T, Rotation::R0) => (y == 1 && (x == 0 || x == 1 || x == 2)) || (x == 1 && y == 2),
        (Piece::T, Rotation::R90) => (x == 1 && (y == 0 || y == 1 || y == 2)) || (x == 0 && y == 1),
        (Piece::T, Rotation::R180) => (x == 1 && y == 0) || (y == 1 && (x == 0 || x == 1 || x == 2)),
        (Piece::T, Rotation::R270) => (x == 1 && (y == 0 || y == 1 || y == 2)) || (x == 2 && y == 1),
        (Piece::S, Rotation::R0) | (Piece::S, Rotation::R180) =>
            (y == 1 && (x == 1 || x == 2)) || (y == 2 && (x == 0 || x == 1)),
        (Piece::S, Rotation::R90) | (Piece::S, Rotation::R270) =>
            (x == 1 && (y == 0 || y == 1)) || (x == 2 && (y == 1 || y == 2)),
        (Piece::Z, Rotation::R0) | (Piece::Z, Rotation::R180) =>
            (y == 1 && (x == 0 || x == 1)) || (y == 2 && (x == 1 || x == 2)),
        (Piece::Z, Rotation::R90) | (Piece::Z, Rotation::R270) =>
            (x == 2 && (y == 0 || y == 1)) || (x == 1 && (y == 1 || y == 2)),
    }
}

/// Whether column `x` of the mask holds any occupied cell.
pub open spec fn col_occupied(p: Piece, r: Rotation, x: int) -> bool {
    occupied(p, r, x, 0) || occupied(p, r, x, 1) || occupied(p, r, x, 2) || occupied(p, r, x, 3)
}

/// Number of leading all-empty columns of the mask, scanned from the left.
pub open spec fn spec_padding_left(p: Piece, r: Rotation) -> int {
    if col_occupied(p, r, 0) {
        0
    } else if col_occupied(p, r, 1) {
        1
    } else if col_occupied(p, r, 2) {
        2
    } else if col_occupied(p, r, 3) {
        3
    } else {
        4
    }
}

/// Number of trailing all-empty columns of the mask, scanned from the right.
pub open spec fn spec_padding_right(p: Piece, r: Rotation) -> int {
    if col_occupied(p, r, 3) {
        0
    } else if col_occupied(p, r, 2) {
        1
    } else if col_occupied(p, r, 1) {
        2
    } else if col_occupied(p, r, 0) {
        3
    } else {
        4
    }
}

/// Lowest occupied row of column `x` of the mask, if the column holds any cell.
pub open spec fn spec_col_lowest(p: Piece, r: Rotation, x: int) -> Option<u8> {
    if occupied(p, r, x, 3) {
        Some(3u8)
    } else if occupied(p, r, x, 2) {
        Some(2u8)
    } else if occupied(p, r, x, 1) {
        Some(1u8)
    } else if occupied(p, r, x, 0) {
        Some(0u8)
    } else {
        None
    }
}

/// Whether row `y` of the mask holds any occupied cell.
pub open spec fn row_occupied(p: Piece, r: Rotation, y: int) -> bool {
    occupied(p, r, 0, y) || occupied(p, r, 1, y) || occupied(p, r, 2, y) || occupied(p, r, 3, y)
}

/// Lowest occupied row over the whole mask, or 0 for an empty mask.
pub open spec fn spec_lowest_point(p: Piece, r: Rotation) -> u8 {
    if row_occupied(p, r, 3) {
        3u8
    } else if row_occupied(p, r, 2) {
        2u8
    } else if row_occupied(p, r, 1) {
        1u8
    } else {
        0u8
    }
}

impl Piece {
    /// Place the shape on a fresh occupancy grid in its initial rotation.
    pub fn into_grid(self) -> (g: Grid)
        ensures
            g.piece == self,
            g.rotation == Rotation::R0,
    {
        Grid::new(self)
    }
}

impl Rotation {
    /// The rotation state after one quarter turn.
    pub open spec fn next(self) -> Rotation {
        match self {
            Rotation::R0 => Rotation::R90,
            Rotation::R90 => Rotation::R180,
            Rotation::R180 => Rotation::R270,
            Rotation::R270 => Rotation::R0,
        }
    }

    /// Advance by one quarter turn.
    pub fn rotate(&mut self)
        ensures
            *final(self) == old(self).next(),
    {
        *self = match self {
            Rotation::R0 => Rotation::R90,
            Rotation::R90 => Rotation::R180,
            Rotation::R180 => Rotation::R270,
            Rotation::R270 => Rotation::R0,
        }
    }
}

/// Four quarter turns return every rotation state to where it started.
pub proof fn lemma_rotation_cycle(r: Rotation)
    ensures
        r.next().next().next().next() == r,
{
}

/// Every shape occupies at least one cell in every rotation state.
pub proof fn lemma_mask_nonempty(p: Piece, r: Rotation)
    ensures
        exists|x: int, y: int| 0 <= x < 4 && 0 <= y < 4 && occupied(p, r, x, y),
{
    if p == Piece::I {
        if r == Rotation::R0 || r == Rotation::R180 {
            assert(occupied(p, r, 1, 2));
        } else {
            assert(occupied(p, r, 2, 1));
        }
    } else {
        assert(occupied(p, r, 1, 1));
    }
}

/// Number of occupied cells of the mask of shape `p` in rotation state `r`.
pub open spec fn mask_size(p: Piece, r: Rotation) -> int {
    (if occupied(p, r, 0, 0) { 1int } else { 0 }) + (if occupied(p, r, 0, 1) { 1int } else { 0 })
        + (if occupied(p, r, 0, 2) { 1int } else { 0 }) + (if occupied(p, r, 0, 3) { 1int } else { 0 })
        + (if occupied(p, r, 1, 0) { 1int } else { 0 }) + (if occupied(p, r, 1, 1) { 1int } else { 0 })
        + (if occupied(p, r, 1, 2) { 1int } else { 0 }) + (if occupied(p, r, 1, 3) { 1int } else { 0 })
        + (if occupied(p, r, 2, 0) { 1int } else { 0 }) + (if occupied(p, r, 2, 1) { 1int } else { 0 })
        + (if occupied(p, r, 2, 2) { 1int } else { 0 }) + (if occupied(p, r, 2, 3) { 1int } else { 0 })
        + (if occupied(p, r, 3, 0) { 1int } else { 0 }) + (if occupied(p, r, 3, 1) { 1int } else { 0 })
        + (if occupied(p, r, 3, 2) { 1int } else { 0 }) + (if occupied(p, r, 3, 3) { 1int } else { 0 })
}

/// Every shape is a tetromino: its mask occupies exactly four cells in every
/// rotation state.
pub proof fn lemma_mask_is_a_tetromino(p: Piece, r: Rotation)
    ensures
        mask_size(p, r) == 4,
{
}

/// Four quarter turns return every piece to its original occupancy grid.
pub proof fn lemma_four_rotations_identity(g: Grid)
    ensures
        g.rotated().rotated().rotated().rotated() == g,
{
}

/// A falling piece: a shape together with its current rotation state.
#[derive(Debug, Clone, Copy)]
pub struct Grid {
    pub piece: Piece,
    pub rotation: Rotation,
}

impl Grid {
    /// The grid after one quarter turn.
    pub open spec fn rotated(self) -> Grid {
        Grid { piece: self.piece, rotation: self.rotation.next() }
    }

    /// A fresh grid for `piece` in its initial rotation.
    pub fn new(piece: Piece) -> (g: Grid)
        ensures
            g.piece == piece,
            g.rotation == Rotation::R0,
    {
        Grid { piece, rotation: Rotation::R0 }
    }

    /// Advance the piece by one quarter turn.
    pub fn rotate(&mut self)
        ensures
            *final(self) == old(self).rotated(),
    {
        self.rotation.rotate();
    }

    /// Whether cell (`x`, `y`) of the piece's 4x4 grid is occupied.
    pub fn occupied_at(&self, x: usize, y: usize) -> (b: bool)
        requires
            x < 4,
            y < 4,
        ensures
            b == occupied(self.piece, self.rotation, x as int, y as int),
    {
        match (self.piece, self.rotation) {
            (Piece::O, _) => (x == 1 || x == 2) && (y == 1 || y == 2),
            (Piece::I, Rotation::R0) | (Piece::I, Rotation::R180) => y == 2,
            (Piece::I, Rotation::R90) | (Piece::I, Rotation::R270) => x == 2,
            (Piece::J, Rotation::R0) => (y == 1 && x <= 2) || (x == 2 && y == 2),
            (Piece::J, Rotation::R90) => (x == 0 && y == 2) || (x == 1 && y <= 2),
            (Piece::J, Rotation::R180) => (x == 0 && y == 0) || (y == 1 && x <= 2),
            (Piece::J, Rotation::R270) => (x == 1 && y <= 2) || (x == 2 && y == 0),
            (Piece::L, Rotation::R0) => (y == 1 && x <= 2) || (x == 0 && y == 2),
            (Piece::L, Rotation::R90) => (x == 0 && y == 0) || (x == 1 && y <= 2),
            (Piece::L, Rotation::R180) => (x == 2 && y == 0) || (y == 1 && x <= 2),
            (Piece::L, Rotation::R270) => (x == 1 && y <= 2) || (x == 2 && y == 2),
            (Piece::T, Rotation::R0) => (y == 1 && x <= 2) || (x == 1 && y == 2),
            (Piece::T, Rotation::R90) => (x == 1 && y <= 2) || (x == 0 && y == 1),
            (Piece::T, Rotation::R180) => (x == 1 && y == 0) || (y == 1 && x <= 2),
            (Piece::T, Rotation::R270) => (x == 1 && y <= 2) || (x == 2 && y == 1),
            (Piece::S, Rotation::R0) | (Piece::S, Rotation::R180) =>
                (y == 1 && (x == 1 || x == 2)) || (y == 2 && (x == 0 || x == 1)),
            (Piece::S, Rotation::R90) | (Piece::S, Rotation::R270) =>
                (x == 1 && (y == 0 || y == 1)) || (x == 2 && (y == 1 || y == 2)),
            (Piece::Z, Rotation::R0) | (Piece::Z, Rotation::R180) =>
                (y == 1 && (x == 0 || x == 1)) || (y == 2 && (x == 1 || x == 2)),
            (Piece::Z, Rotation::R90) | (Piece::Z, Rotation::R270) =>
                (x == 2 && (y == 0 || y == 1)) || (x == 1 && (y == 1 || y == 2)),
        }
    }

    fn col_occupied_at(&self, x: usize) -> (b: bool)
        requires
            x < 4,
        ensures
            b == col_occupied(self.piece, self.rotation, x as int),
    {
        self.occupied_at(x, 0) || self.occupied_at(x, 1) || self.occupied_at(x, 2)
            || self.occupied_at(x, 3)
    }

    /// Leading all-empty columns of the mask, from the left edge.
    pub fn padding_left(&self) -> (p: u32)
        ensures
            p == spec_padding_left(self.piece, self.rotation),
    {
        if self.col_occupied_at(0) {
            0
        } else if self.col_occupied_at(1) {
            1
        } else if self.col_occupied_at(2) {
            2
        } else if self.col_occupied_at(3) {
            3
        } else {
            4
        }
    }

    /// Trailing all-empty columns of the mask, from the right edge.
    pub fn padding_right(&self) -> (p: u32)
        ensures
            p == spec_padding_right(self.piece, self.rotation),
    {
        if self.col_occupied_at(3) {
            0
        } else if self.col_occupied_at(2) {
            1
        } else if self.col_occupied_at(1) {
            2
        } else if self.col_occupied_at(0) {
            3
        } else {
            4
        }
    }

    fn col_lowest(&self, x: usize) -> (p: Option<u8>)
        requires
            x < 4,
        ensures
            p == spec_col_lowest(self.piece, self.rotation, x as int),
    {
        if self.occupied_at(x, 3) {
            Some(3)
        } else if self.occupied_at(x, 2) {
            Some(2)
        } else if self.occupied_at(x, 1) {
            Some(1)
        } else if self.occupied_at(x, 0) {
            Some(0)
        } else {
            None
        }
    }

    fn row_occupied_at(&self, y: usize) -> (b: bool)
        requires
            y < 4,
        ensures
            b == row_occupied(self.piece, self.rotation, y as int),
    {
        self.occupied_at(0, y) || self.occupied_at(1, y) || self.occupied_at(2, y)
            || self.occupied_at(3, y)
    }

    /// Lowest occupied row over the whole mask, or 0 for an empty mask.
    pub fn lowest_point(&self) -> (p: u8)
        ensures
            p == spec_lowest_point(self.piece, self.rotation),
            p < 4,
    {
        if self.row_occupied_at(3) {
            3
        } else if self.row_occupied_at(2) {
            2
        } else if self.row_occupied_at(1) {
            1
        } else {
            0
        }
    }

    /// Per-column lowest occupied rows, used as the piece's collision profile.
    pub fn collision_points(&self) -> (pts: [Option<u8>; 4])
        ensures
            pts@ == seq![
                spec_col_lowest(self.piece, self.rotation, 0),
                spec_col_lowest(self.piece, self.rotation, 1),
                spec_col_lowest(self.piece, self.rotation, 2),
                spec_col_lowest(self.piece, self.rotation, 3),
            ],
    {
        let pts = [self.col_lowest(0), self.col_lowest(1), self.col_lowest(2), self.col_lowest(3)];
        proof {
            assert(pts@ =~= seq![
                spec_col_lowest(self.piece, self.rotation, 0),
                spec_col_lowest(self.piece, self.rotation, 1),
                spec_col_lowest(self.piece, self.rotation, 2),
                spec_col_lowest(self.piece, self.rotation, 3),
            ]);
        }
        pts
    }
}

} // verus!
