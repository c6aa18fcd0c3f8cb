//! One playable level: the play field, the falling piece, the blade, the
//! optional narrator, and the pending level-transition token.

use crate::blade::Blade;
use crate::blade::PADDING;
use crate::blade::TOP_SPEED;
use crate::gfx::UDISPLAY_HEIGHT;
use crate::narrator::Narrator;
use crate::pieces::occupied;
use crate::pieces::GRID_WIDTH;
use crate::pieces::spec_lowest_point;
use crate::pieces::spec_padding_left;
use crate::pieces::spec_padding_right;
use crate::pieces::Grid;
use crate::pieces::Piece;
use crate::pieces::Rotation;
use crate::random::Random;
use crate::tile::Tile;
use crate::timer::Timer;
use vstd::prelude::*;

verus! {

/// Lanes 0 and 1 are reserved for obstacles; pieces may not enter them.
pub const MIN_LANE: u32 = 2;

/// Number of lanes of the play field.
pub const NUM_LANES: u32 = 8;

/// Side length of one cell in pixels.
pub const LANE_WIDTH: u32 = 6;

/// Number of rows of the play field.
pub const NUM_ROWS: u32 = UDISPLAY_HEIGHT / LANE_WIDTH;

/// Width of the border drawn right of the play field.
pub const RIGHT_BORDER: i32 = 1;

/// Threshold of the drop timer: ticks per descent step.
pub const DROP_SPEED: u8 = 1;

/// Vertical pixel offset a fresh level's piece starts at, above the field.
pub const INITIAL_DROP_POSITION: i32 = -(4 * 6);

/// Lane a freshly spawned piece starts in.
pub const INITIAL_LANE: u32 = MIN_LANE + 2;

/// Countdown frames between arming a next-level switch and its firing.
pub const NEXT_LEVEL_DELAY: u8 = 18;

/// Countdown frames between arming a game-over switch and its firing.
pub const GAME_OVER_DELAY: u8 = 3;

/// The transition a finished level asks its owner to make.
#[derive(Debug, Clone, Copy, PartialEq, Eq, Structural)]
pub enum SwitchTo {
    NextLevel(u32),
    GameOver(u32),
}

/// The state of one level in play.
#[derive(Debug, Clone)]
pub struct Game {
    pub level: u32,
    pub blade: Blade,
    pub lane: u32,
    pub piece: Grid,
    pub drop: i32,
    pub drop_timer: Timer,
    pub drop_speed: i32,
    pub narrator: Option<Narrator>,
    pub lanes: Vec<Vec<Option<Tile>>>,
    pub pending: Option<(SwitchTo, Timer)>,
}

/// Whether a play-field model has the fixed lane and row counts.
pub open spec fn grid_dims(g: Seq<Seq<Option<Tile>>>) -> bool {
    &&& g.len() == NUM_LANES
    &&& forall|x: int| 0 <= x < NUM_LANES ==> (#[trigger] g[x]).len() == NUM_ROWS
}

/// Whether row `y` is complete: every lane beyond the reserved ones holds a
/// tile there.
pub open spec fn spec_row_complete(g: Seq<Seq<Option<Tile>>>, y: int) -> bool {
    forall|x: int| MIN_LANE <= x < NUM_LANES ==> (#[trigger] g[x])[y] is Some
}

/// Row `y` with its soft tiles cleared to empty, in every lane; wall tiles
/// stay in place.
pub open spec fn spec_clear_row(g: Seq<Seq<Option<Tile>>>, y: int) -> Seq<Seq<Option<Tile>>> {
    Seq::new(
        g.len(),
        |x: int|
            Seq::new(
                g[x].len(),
                |r: int|
                    if r == y && g[x][r] == Some(Tile { wall: false }) {
                        None
                    } else {
                        g[x][r]
                    },
            ),
    )
}

/// Every row strictly above `y` shifted one row down in the lanes beyond the
/// reserved ones, with row 0 cleared; the reserved lanes are untouched.
pub open spec fn spec_shift_rows(g: Seq<Seq<Option<Tile>>>, y: int) -> Seq<Seq<Option<Tile>>> {
    Seq::new(
        g.len(),
        |x: int|
            Seq::new(
                g[x].len(),
                |r: int|
                    if x < MIN_LANE {
                        g[x][r]
                    } else if r == 0 {
                        None
                    } else if r <= y {
                        g[x][r - 1]
                    } else {
                        g[x][r]
                    },
            ),
    )
}

/// Whether the piece cell (`px`, `py`) collides on field `g`: it is
/// occupied, maps to a visible row, and lands outside the field or on a
/// present cell.
pub open spec fn spec_cell_collides_g(
    g: Seq<Seq<Option<Tile>>>,
    pc: Grid,
    lane: int,
    drop: int,
    px: int,
    py: int,
) -> bool {
    &&& occupied(pc.piece, pc.rotation, px, py)
    &&& Game::spec_row_offset(drop) + py >= 0
    &&& (lane + px >= NUM_LANES || Game::spec_row_offset(drop) + py >= NUM_ROWS || g[lane + px][
        Game::spec_row_offset(drop) + py
    ] is Some)
}

/// Whether the piece `pc`, at lane offset `lane` and vertical pixel offset
/// `drop`, collides on field `g`.
pub open spec fn spec_collides_g(g: Seq<Seq<Option<Tile>>>, pc: Grid, lane: int, drop: int) -> bool {
    ||| lane + spec_padding_left(pc.piece, pc.rotation) < MIN_LANE
    ||| lane + 4 - spec_padding_right(pc.piece, pc.rotation) > NUM_LANES
    ||| exists|px: int, py: int|
        0 <= px < 4 && 0 <= py < 4 && #[trigger] spec_cell_collides_g(g, pc, lane, drop, px, py)
}

/// The completion pass's steps for rows `y` up to, but not including,
/// `stop`.
pub open spec fn spec_row_pass_upto(g: Seq<Seq<Option<Tile>>>, y: int, stop: int) -> Seq<
    Seq<Option<Tile>>,
>
    decreases stop - y,
{
    if y < 0 || y >= stop {
        g
    } else {
        let g2 = if spec_row_complete(g, y) {
            spec_shift_rows(spec_clear_row(g, y), y)
        } else {
            g
        };
        spec_row_pass_upto(g2, y + 1, stop)
    }
}

/// The completion pass is its steps up to row `z`, followed by the pass
/// from row `z` on.
proof fn lemma_pass_decompose(g: Seq<Seq<Option<Tile>>>, y: int, z: int)
    requires
        0 <= y <= z <= NUM_ROWS,
    ensures
        spec_row_pass(g, y) == spec_row_pass(spec_row_pass_upto(g, y, z), z),
    decreases z - y,
{
    if y < z {
        let g2 = if spec_row_complete(g, y) {
            spec_shift_rows(spec_clear_row(g, y), y)
        } else {
            g
        };
        lemma_pass_decompose(g2, y + 1, z);
    }
}

/// A pass step at a row only changes that row and the rows above it, so the
/// steps up to row `z` leave rows `z` and below untouched.
proof fn lemma_pass_upto_preserves_from(g: Seq<Seq<Option<Tile>>>, y: int, z: int)
    requires
        grid_dims(g),
        0 <= y <= z <= NUM_ROWS,
    ensures
        grid_dims(spec_row_pass_upto(g, y, z)),
        forall|x: int, r: int|
            0 <= x < NUM_LANES && z <= r < NUM_ROWS ==> #[trigger] spec_row_pass_upto(g, y, z)[x][r]
                == g[x][r],
    decreases z - y,
{
    if y < z {
        let g2 = if spec_row_complete(g, y) {
            spec_shift_rows(spec_clear_row(g, y), y)
        } else {
            g
        };
        assert(g2.len() == NUM_LANES);
        assert forall|x: int| 0 <= x < NUM_LANES implies (#[trigger] g2[x]).len() == NUM_ROWS by {
            if spec_row_complete(g, y) {
                assert(spec_clear_row(g, y)[x].len() == g[x].len());
            }
        }
        assert forall|x: int, r: int|
            0 <= x < NUM_LANES && z <= r < NUM_ROWS implies #[trigger] g2[x][r] == g[x][r] by {
            if spec_row_complete(g, y) {
                assert(spec_clear_row(g, y)[x][r] == g[x][r]);
            }
        }
        lemma_pass_upto_preserves_from(g2, y + 1, z);
    }
}

/// Every row that is complete when the pass starts is still complete when
/// the top-to-bottom scan reaches it — earlier steps only move rows above
/// their own — so its clear-and-shift step is always taken within that same
/// pass.
pub proof fn lemma_pass_processes_complete_row(g: Seq<Seq<Option<Tile>>>, z: int)
    requires
        grid_dims(g),
        0 <= z < NUM_ROWS,
        spec_row_complete(g, z),
    ensures
        spec_row_complete(spec_row_pass_upto(g, 0, z), z),
        spec_row_pass(g, 0) == spec_row_pass(
            spec_shift_rows(spec_clear_row(spec_row_pass_upto(g, 0, z), z), z),
            z + 1,
        ),
{
    let reached = spec_row_pass_upto(g, 0, z);
    lemma_pass_upto_preserves_from(g, 0, z);
    assert forall|x: int| MIN_LANE <= x < NUM_LANES implies (#[trigger] reached[x])[z] is Some by {
        assert(reached[x][z] == g[x][z]);
        assert(g[x][z] is Some);
    }
    lemma_pass_decompose(g, 0, z);
}

/// A piece collides whenever one of its occupied cells maps onto a present
/// field cell.
pub proof fn lemma_collides_on_overlap(
    g: Seq<Seq<Option<Tile>>>,
    pc: Grid,
    lane: int,
    drop: int,
    px: int,
    py: int,
)
    requires
        0 <= px < 4,
        0 <= py < 4,
        occupied(pc.piece, pc.rotation, px, py),
        Game::spec_row_offset(drop) + py >= 0,
        g[lane + px][Game::spec_row_offset(drop) + py] is Some,
    ensures
        spec_collides_g(g, pc, lane, drop),
{
    assert(spec_cell_collides_g(g, pc, lane, drop, px, py));
}

/// A piece collides whenever its occupied span would cross the reserved
/// lanes on the left or leave the field on the right.
pub proof fn lemma_collides_out_of_span(g: Seq<Seq<Option<Tile>>>, pc: Grid, lane: int, drop: int)
    requires
        lane + spec_padding_left(pc.piece, pc.rotation) < MIN_LANE || lane + 4 - spec_padding_right(
            pc.piece,
            pc.rotation,
        ) > NUM_LANES,
    ensures
        spec_collides_g(g, pc, lane, drop),
{
}

/// One pass step at a complete row `y`: the row is cleared and every row
/// strictly above it shifts down by one, with row 0 left empty; the reserved
/// lanes are never shifted, and a wall tile there is never cleared.
pub proof fn lemma_completed_row_step(g: Seq<Seq<Option<Tile>>>, y: int)
    requires
        grid_dims(g),
        0 <= y < NUM_ROWS,
        spec_row_complete(g, y),
    ensures
        ({
            let r = spec_shift_rows(spec_clear_row(g, y), y);
            &&& grid_dims(r)
            &&& (forall|x: int, j: int|
                MIN_LANE <= x < NUM_LANES && 1 <= j <= y ==> #[trigger] r[x][j] == g[x][j - 1])
            &&& (forall|x: int| MIN_LANE <= x < NUM_LANES ==> (#[trigger] r[x])[0] is None)
            &&& (forall|x: int, j: int|
                MIN_LANE <= x < NUM_LANES && y < j < NUM_ROWS ==> #[trigger] r[x][j] == g[x][j])
            &&& (forall|x: int, j: int|
                0 <= x < MIN_LANE && 0 <= j < NUM_ROWS && j != y ==> #[trigger] r[x][j]
                    == g[x][j])
            &&& (forall|x: int|
                0 <= x < MIN_LANE ==> (#[trigger] r[x])[y] == (if g[x][y] == Some(
                    Tile { wall: false },
                ) {
                    None
                } else {
                    g[x][y]
                }))
        }),
{
    let c = spec_clear_row(g, y);
    let r = spec_shift_rows(c, y);
    assert(r.len() == NUM_LANES);
    assert forall|x: int| 0 <= x < NUM_LANES implies (#[trigger] r[x]).len() == NUM_ROWS by {
        assert(c[x].len() == g[x].len());
    }
}

/// Whether cell (`i`, `j`) of a 4x4 scan comes strictly before point
/// (`a`, `b`) in row-major order.
pub open spec fn lex_before(i: int, j: int, a: int, b: int) -> bool {
    i < a || (i == a && j < b)
}

/// Whether the piece `g`, at lane offset `lane` and vertical offset `drop`,
/// covers field cell (`x`, `y`) with one of its occupied cells scanned
/// strictly before point (`nx`, `ny`).
pub open spec fn spec_piece_covers_before(
    g: Grid,
    lane: int,
    drop: int,
    x: int,
    y: int,
    nx: int,
    ny: int,
) -> bool {
    exists|i: int, j: int|
        0 <= i < 4 && 0 <= j < 4 && lex_before(i, j, nx, ny) && #[trigger] occupied(
            g.piece,
            g.rotation,
            i,
            j,
        ) && x == lane + i && y == Game::spec_row_offset(drop) + j
}

/// Whether some occupied cell scanned strictly before point (`nx`, `ny`)
/// resolves to row 0 or above when the piece locks.
pub open spec fn spec_over_top_before(g: Grid, drop: int, nx: int, ny: int) -> bool {
    exists|i: int, j: int|
        0 <= i < 4 && 0 <= j < 4 && lex_before(i, j, nx, ny) && #[trigger] occupied(
            g.piece,
            g.rotation,
            i,
            j,
        ) && Game::spec_row_offset(drop) + j <= 0
}

/// Whether locking the piece `pc` at vertical offset `drop` keeps every
/// occupied cell strictly below row 0.
pub open spec fn spec_persist_ok_g(pc: Grid, drop: int) -> bool {
    forall|px: int, py: int|
        0 <= px < 4 && 0 <= py < 4 && #[trigger] occupied(pc.piece, pc.rotation, px, py)
            ==> Game::spec_row_offset(drop) + py > 0
}

/// The field `g` after the occupied cells of piece `pc`, at lane offset
/// `lane` and vertical offset `drop`, that resolve to rows and lanes inside
/// the field are written as soft tiles.
pub open spec fn spec_persisted_grid_g(
    g: Seq<Seq<Option<Tile>>>,
    pc: Grid,
    lane: int,
    drop: int,
) -> Seq<Seq<Option<Tile>>> {
    Seq::new(
        g.len(),
        |x: int|
            Seq::new(
                g[x].len(),
                |y: int|
                    if spec_piece_covers_before(pc, lane, drop, x, y, 4, 0) {
                        Some(Tile { wall: false })
                    } else {
                        g[x][y]
                    },
            ),
    )
}

/// The shape a draw maps to: remainders 1 through 6 name the six playable
/// shapes, 0 and 7 none; a draw equal to the still-falling shape is
/// discarded.
pub open spec fn spec_select(value: u64, current: Option<Piece>) -> Option<Piece> {
    let shape: Option<Piece> = if value % 8 == 1 {
        Some(Piece::I)
    } else if value % 8 == 2 {
        Some(Piece::J)
    } else if value % 8 == 3 {
        Some(Piece::L)
    } else if value % 8 == 4 {
        Some(Piece::T)
    } else if value % 8 == 5 {
        Some(Piece::S)
    } else if value % 8 == 6 {
        Some(Piece::Z)
    } else {
        None
    };
    if shape == current {
        None
    } else {
        shape
    }
}

/// The shape the final draw picks directly when every retry was discarded:
/// one of the six playable shapes, by the draw's remainder.
pub open spec fn spec_fallback(value: u64) -> Piece {
    if value % 6 == 0 {
        Piece::I
    } else if value % 6 == 1 {
        Piece::J
    } else if value % 6 == 2 {
        Piece::L
    } else if value % 6 == 3 {
        Piece::T
    } else if value % 6 == 4 {
        Piece::S
    } else {
        Piece::Z
    }
}

/// Map one squeezed word to the next shape, or to nothing when the draw is
/// discarded: remainder 0 or 7, or a first draw equal to `current`.
pub fn select_piece(value: u64, current: Option<Piece>) -> (r: Option<Piece>)
    ensures
        r == spec_select(value, current),
{
    let m = value % 8;
    let shape: Option<Piece> = if m == 1 {
        Some(Piece::I)
    } else if m == 2 {
        Some(Piece::J)
    } else if m == 3 {
        Some(Piece::L)
    } else if m == 4 {
        Some(Piece::T)
    } else if m == 5 {
        Some(Piece::S)
    } else if m == 6 {
        Some(Piece::Z)
    } else {
        None
    };
    let duplicate = match (shape, current) {
        (Some(a), Some(b)) => a == b,
        (None, None) => true,
        _ => false,
    };
    if duplicate {
        None
    } else {
        shape
    }
}

/// Map the final draw to a shape directly.
fn fallback_piece(value: u64) -> (p: Piece)
    ensures
        p == spec_fallback(value),
{
    let m = value % 6;
    if m == 0 {
        Piece::I
    } else if m == 1 {
        Piece::J
    } else if m == 2 {
        Piece::L
    } else if m == 3 {
        Piece::T
    } else if m == 4 {
        Piece::S
    } else {
        Piece::Z
    }
}

/// Piece selection never yields the square shape — neither from a draw nor
/// from the fallback — and a draw equal to the still-falling shape is
/// discarded rather than repeated.
pub proof fn lemma_selection_no_square_no_repeat(value: u64, current: Option<Piece>)
    ensures
        spec_select(value, current) != Some(Piece::O),
        current is Some ==> spec_select(value, current) != current,
        spec_fallback(value) != Piece::O,
{
}

/// Number of discarded draws after which the next shape is taken from the
/// final draw directly, keeping piece selection total.
pub const PIECE_RETRY_LIMIT: u32 = 64;

/// The next level number, saturating.
pub open spec fn spec_next_level(level: u32) -> u32 {
    if level == u32::MAX {
        u32::MAX
    } else {
        (level + 1) as u32
    }
}

/// The field `g` after the blade cuts row `row`: the reserved-lane cells
/// there lose their wall flag but stay occupied.
pub open spec fn spec_cut_grid(g: Seq<Seq<Option<Tile>>>, row: int) -> Seq<Seq<Option<Tile>>> {
    Seq::new(
        g.len(),
        |x: int|
            Seq::new(
                g[x].len(),
                |r: int|
                    if x < MIN_LANE && r == row && g[x][r] is Some {
                        Some(Tile { wall: false })
                    } else {
                        g[x][r]
                    },
            ),
    )
}

/// The vertical offset after `j` saturating one-pixel descents.
pub open spec fn spec_sat_drop(drop: i32, j: int) -> int {
    if drop + j > i32::MAX {
        i32::MAX as int
    } else {
        drop + j
    }
}

/// One top-to-bottom completion pass over the field, starting at row `y`:
/// each complete row met is cleared and the rows above it are shifted down,
/// and the scan moves on without re-checking the row that shifted into the
/// index just handled.
pub open spec fn spec_row_pass(g: Seq<Seq<Option<Tile>>>, y: int) -> Seq<Seq<Option<Tile>>>
    decreases NUM_ROWS - y,
{
    if y < 0 || y >= NUM_ROWS {
        g
    } else {
        let g2 = if spec_row_complete(g, y) {
            spec_shift_rows(spec_clear_row(g, y), y)
        } else {
            g
        };
        spec_row_pass(g2, y + 1)
    }
}

/// Whether `g` is a freshly constructed level `level`, up to its play field:
/// the starting piece above the field, idle timers, no pending switch, and
/// the narrator exactly on the first level.
pub open spec fn spec_fresh(g: Game, level: u32) -> bool {
    &&& g.wf()
    &&& g.level == level
    &&& g.blade == (Blade { y: 0, speed: Timer { delay: TOP_SPEED, step: 0 } })
    &&& g.lane == INITIAL_LANE
    &&& g.piece == (Grid { piece: Piece::T, rotation: Rotation::R0 })
    &&& g.drop == INITIAL_DROP_POSITION
    &&& g.drop_timer == (Timer { delay: DROP_SPEED, step: 0 })
    &&& g.drop_speed == 1
    &&& (g.narrator is Some) == (level == 0)
    &&& (g.narrator matches Some(n) ==> (n.wf() && !n.spec_started() && n.delay == (
    Timer { delay: 3, step: 0 }) && n.scroll == (Timer { delay: u8::MAX, step: 0 })
        && n.lines@.len() == 5 && n.lines@[0]@ == "Oh no,"@ && n.lines@[1]@ == "it's stuck!"@
        && n.lines@[2]@ == " "@ && n.lines@[3]@ == "Can you help us?"@ && n.lines@[4]@ == "._."@))
    &&& g.pending is None
}

impl Game {
    /// The play field as a sequence of lanes, each a sequence of rows.
    pub open spec fn grid(self) -> Seq<Seq<Option<Tile>>> {
        Seq::new(self.lanes@.len(), |x: int| self.lanes@[x]@)
    }

    /// Two games over the same lanes have the same play-field model.
    proof fn lemma_same_lanes_same_grid(a: Game, b: Game)
        requires
            a.lanes == b.lanes,
        ensures
            a.grid() == b.grid(),
    {
        assert forall|x: int| 0 <= x < a.grid().len() implies a.grid()[x] == b.grid()[x] by {}
        assert(a.grid() =~= b.grid());
    }

    /// A game whose lanes agree pointwise with a field model has that model.
    proof fn lemma_grid_from_lanes(a: Game, g: Seq<Seq<Option<Tile>>>)
        requires
            g.len() == a.lanes@.len(),
            forall|x: int| 0 <= x < g.len() ==> g[x] == a.lanes@[x]@,
        ensures
            a.grid() == g,
    {
        assert forall|x: int| 0 <= x < a.grid().len() implies a.grid()[x] == g[x] by {}
        assert(a.grid() =~= g);
    }

    /// A play field whose cells agree pointwise with a well-dimensioned
    /// model is that model.
    proof fn lemma_grid_is(self, b: Seq<Seq<Option<Tile>>>)
        requires
            self.lanes@.len() == NUM_LANES,
            forall|x: int| 0 <= x < NUM_LANES ==> (#[trigger] self.lanes@[x])@.len() == NUM_ROWS,
            b.len() == NUM_LANES,
            forall|x: int| 0 <= x < NUM_LANES ==> (#[trigger] b[x]).len() == NUM_ROWS,
            forall|x: int, j: int|
                0 <= x < NUM_LANES && 0 <= j < NUM_ROWS ==> #[trigger] self.cell(x, j) == b[x][j],
        ensures
            self.grid() == b,
    {
        assert forall|x: int| 0 <= x < NUM_LANES implies self.grid()[x] =~= b[x] by {
            assert forall|j: int| 0 <= j < NUM_ROWS implies self.grid()[x][j] == b[x][j] by {
                assert(self.cell(x, j) == b[x][j]);
            }
        }
        assert(self.grid() =~~= b);
    }

    /// The cell of lane `x` at row `y`.
    pub open spec fn cell(self, x: int, y: int) -> Option<Tile> {
        self.lanes@[x]@[y]
    }

    /// Structural well-formedness: field dimensions and the bounds the
    /// arithmetic of the per-tick logic relies on.
    pub open spec fn wf(self) -> bool {
        &&& self.lanes@.len() == NUM_LANES
        &&& (forall|x: int| 0 <= x < NUM_LANES ==> (#[trigger] self.lanes@[x])@.len() == NUM_ROWS)
        &&& self.lane <= NUM_LANES
        &&& self.drop >= INITIAL_DROP_POSITION
        &&& self.drop_speed >= 1
        &&& -2 <= self.blade.y <= 154
        &&& (self.pending is None ==> self.blade.y <= 150)
        &&& (self.narrator matches Some(n) ==> n.wf())
    }

    /// A fresh level: empty field except the wall lane, the starting piece
    /// above the field, and the level-0 narrator on the first level.
    pub fn new(level: u32) -> (g: Game)
        ensures
            spec_fresh(g, level),
            forall|x: int, y: int|
                0 <= x < NUM_LANES && 0 <= y < NUM_ROWS ==> g.cell(x, y) == (if x == 1 {
                    Some(Tile { wall: true })
                } else {
                    None::<Tile>
                }),
    {
        let narrator = if level == 0 {
            Some(Narrator::level0())
        } else {
            None
        };

        let mut lanes: Vec<Vec<Option<Tile>>> = Vec::new();
        let mut x: usize = 0;
        while x < 8
            invariant
                x <= 8,
                lanes@.len() == x,
                forall|i: int| 0 <= i < x ==> (#[trigger] lanes@[i])@.len() == NUM_ROWS,
                forall|i: int, y: int|
                    0 <= i < x && 0 <= y < NUM_ROWS ==> lanes@[i]@[y] == (if i == 1 {
                        Some(Tile { wall: true })
                    } else {
                        None::<Tile>
                    }),
            decreases 8 - x,
        {
            let mut lane: Vec<Option<Tile>> = Vec::new();
            let mut y: usize = 0;
            while y < 21
                invariant
                    y <= 21,
                    lane@.len() == y,
                    forall|j: int| 0 <= j < y ==> lane@[j] == (if x == 1 {
                        Some(Tile { wall: true })
                    } else {
                        None::<Tile>
                    }),
                decreases 21 - y,
            {
                if x == 1 {
                    lane.push(Some(Tile { wall: true }));
                } else {
                    lane.push(None);
                }
                y += 1;
            }
            lanes.push(lane);
            x += 1;
        }

        Game {
            level,
            blade: Blade::new(),
            lane: INITIAL_LANE,
            piece: Piece::T.into_grid(),
            drop: INITIAL_DROP_POSITION,
            drop_timer: Timer::new(DROP_SPEED),
            drop_speed: 1,
            narrator,
            lanes,
            pending: None,
        }
    }

    /// Overwrite one cell of the play field.
    fn set_cell(&mut self, x: usize, y: usize, t: Option<Tile>)
        requires
            old(self).wf(),
            x < NUM_LANES,
            y < NUM_ROWS,
        ensures
            final(self).wf(),
            forall|i: int, j: int|
                0 <= i < NUM_LANES && 0 <= j < NUM_ROWS ==> final(self).cell(i, j) == (if i == x
                    && j == y {
                    t
                } else {
                    old(self).cell(i, j)
                }),
            Game::eq_nongrid(*old(self), *final(self)),
    {
        self.lanes[x][y] = t;
    }

    /// The row index, from the top, at which an obstacle asked for at height
    /// `row` above the field's bottom edge is seeded.
    pub open spec fn spec_obstacle_row(row: u32) -> int {
        if row >= NUM_ROWS {
            0
        } else {
            NUM_ROWS - row
        }
    }

    /// Seed a soft obstacle pair into the two reserved lanes, `row` rows up
    /// from the bottom of the field.
    pub fn add_obstacle_at_row(&mut self, row: u32)
        requires
            old(self).wf(),
            1 <= row,
        ensures
            final(self).wf(),
            forall|i: int, j: int|
                0 <= i < NUM_LANES && 0 <= j < NUM_ROWS ==> final(self).cell(i, j) == (if (i == 0
                    || i == 1) && j == Game::spec_obstacle_row(row) {
                    Some(Tile { wall: false })
                } else {
                    old(self).cell(i, j)
                }),
            Game::eq_nongrid(*old(self), *final(self)),
    {
        let r = if row >= NUM_ROWS {
            0
        } else {
            (NUM_ROWS - row) as usize
        };
        self.set_cell(0, r, Some(Tile { wall: false }));
        self.set_cell(1, r, Some(Tile { wall: false }));
    }

    /// Seed an indestructible obstacle pair into the two reserved lanes,
    /// `row` rows up from the bottom of the field.
    pub fn add_tough_obstacle_at_row(&mut self, row: u32)
        requires
            old(self).wf(),
            1 <= row,
        ensures
            final(self).wf(),
            forall|i: int, j: int|
                0 <= i < NUM_LANES && 0 <= j < NUM_ROWS ==> final(self).cell(i, j) == (if (i == 0
                    || i == 1) && j == Game::spec_obstacle_row(row) {
                    Some(Tile { wall: true })
                } else {
                    old(self).cell(i, j)
                }),
            Game::eq_nongrid(*old(self), *final(self)),
    {
        let r = if row >= NUM_ROWS {
            0
        } else {
            (NUM_ROWS - row) as usize
        };
        self.set_cell(0, r, Some(Tile { wall: true }));
        self.set_cell(1, r, Some(Tile { wall: true }));
    }

    /// The first row, from the top, that still holds an obstacle in the
    /// reserved lane, scanning from row `i` down.
    pub open spec fn spec_first_obstacle_from(g: Seq<Seq<Option<Tile>>>, i: int) -> Option<int>
        decreases NUM_ROWS - i,
    {
        if i < 0 || i >= NUM_ROWS {
            None
        } else if g[0][i] is Some {
            Some(i)
        } else {
            Game::spec_first_obstacle_from(g, i + 1)
        }
    }

    /// The first remaining obstacle row, if any.
    pub open spec fn spec_first_obstacle(g: Seq<Seq<Option<Tile>>>) -> Option<int> {
        Game::spec_first_obstacle_from(g, 0)
    }

    /// The height the blade currently falls toward: just above the first
    /// remaining obstacle, or past the bottom of the display if none is left.
    pub open spec fn spec_obstacle_height(g: Seq<Seq<Option<Tile>>>) -> int {
        match Game::spec_first_obstacle(g) {
            Some(i) => i * LANE_WIDTH - PADDING,
            None => i32::MAX as int,
        }
    }

    /// Find the next obstacle row and the blade height it defines.
    pub fn next_obstacle(&self) -> (r: (Option<usize>, i32))
        requires
            self.wf(),
        ensures
            r.0 matches Some(i) ==> (Game::spec_first_obstacle(self.grid()) == Some(i as int) && i
                < NUM_ROWS),
            r.0 is None ==> Game::spec_first_obstacle(self.grid()) is None,
            r.1 == Game::spec_obstacle_height(self.grid()),
            r.1 >= -2,
    {
        let mut idx: usize = 0;
        while idx < 21
            invariant
                self.wf(),
                idx <= 21,
                Game::spec_first_obstacle(self.grid()) == Game::spec_first_obstacle_from(
                    self.grid(),
                    idx as int,
                ),
            decreases 21 - idx,
        {
            if self.lanes[0][idx].is_some() {
                let height = (idx as i32) * 6 - PADDING;
                return (Some(idx), height);
            }
            idx += 1;
        }
        (None, i32::MAX)
    }

    /// The row index the piece's local row 0 maps to, for a vertical pixel
    /// offset `drop`: pixel offsets are converted to whole rows truncating
    /// toward zero, then shifted one row down.
    pub open spec fn spec_row_offset(drop: int) -> int {
        if drop >= 0 {
            drop / 6 + 1
        } else {
            1 - (-drop) / 6
        }
    }

    /// Convert the vertical pixel offset to the field row of local row 0.
    fn row_offset(drop: i32) -> (r: i32)
        requires
            drop >= INITIAL_DROP_POSITION,
        ensures
            r == Game::spec_row_offset(drop as int),
            -3 <= r <= 0x20000000,
    {
        if drop >= 0 {
            ((drop as u32) / LANE_WIDTH) as i32 + 1
        } else {
            1 - (((-drop) as u32) / LANE_WIDTH) as i32
        }
    }

    /// Whether the piece `g`, at lane offset `lane` and vertical pixel offset
    /// `drop`, collides: its span would cross the reserved lanes on the left,
    /// exit the field on the right, or an occupied cell of it would land
    /// outside the field or on a present cell. Cells above the field do not
    /// collide.
    pub open spec fn spec_collides(self, g: Grid, lane: int, drop: int) -> bool {
        spec_collides_g(self.grid(), g, lane, drop)
    }

    /// Whether the piece collides in its current position.
    pub open spec fn spec_collides_now(self) -> bool {
        self.spec_collides(self.piece, self.lane as int, self.drop as int)
    }

    /// Collision test for a speculative position of the piece.
    pub fn collides_with(&self, piece: &Grid, lane: u32, drop: i32) -> (c: bool)
        requires
            self.wf(),
            lane <= NUM_LANES + 1,
            drop >= INITIAL_DROP_POSITION,
        ensures
            c == self.spec_collides(*piece, lane as int, drop as int),
    {
        if lane + piece.padding_left() < MIN_LANE {
            return true;
        }
        if lane + GRID_WIDTH - piece.padding_right() > NUM_LANES {
            return true;
        }

        let offset_y = Game::row_offset(drop);
        let mut px: usize = 0;
        while px < 4
            invariant
                self.wf(),
                lane <= NUM_LANES + 1,
                drop >= INITIAL_DROP_POSITION,
                px <= 4,
                offset_y == Game::spec_row_offset(drop as int),
                -3 <= offset_y <= 0x20000000,
                forall|i: int, j: int|
                    0 <= i < px && 0 <= j < 4 ==> !#[trigger] spec_cell_collides_g(
                        self.grid(),
                        *piece,
                        lane as int,
                        drop as int,
                        i,
                        j,
                    ),
            decreases 4 - px,
        {
            let mut py: usize = 0;
            while py < 4
                invariant
                    self.wf(),
                    lane <= NUM_LANES + 1,
                    drop >= INITIAL_DROP_POSITION,
                    px < 4,
                    py <= 4,
                    offset_y == Game::spec_row_offset(drop as int),
                    -3 <= offset_y <= 0x20000000,
                    forall|i: int, j: int|
                        0 <= i < px && 0 <= j < 4 ==> !#[trigger] spec_cell_collides_g(
                            self.grid(),
                            *piece,
                            lane as int,
                            drop as int,
                            i,
                            j,
                        ),
                    forall|j: int|
                        0 <= j < py ==> !#[trigger] spec_cell_collides_g(
                            self.grid(),
                            *piece,
                            lane as int,
                            drop as int,
                            px as int,
                            j,
                        ),
                decreases 4 - py,
            {
                if piece.occupied_at(px, py) {
                    let row = offset_y + py as i32;
                    if row >= 0 {
                        let x = (lane as usize) + px;
                        if x >= 8 {
                            proof {
                                assert(spec_cell_collides_g(
                                    self.grid(),
                                    *piece,
                                    lane as int,
                                    drop as int,
                                    px as int,
                                    py as int,
                                ));
                            }
                            return true;
                        }
                        if row >= 21 {
                            proof {
                                assert(spec_cell_collides_g(
                                    self.grid(),
                                    *piece,
                                    lane as int,
                                    drop as int,
                                    px as int,
                                    py as int,
                                ));
                            }
                            return true;
                        }
                        if self.lanes[x][row as usize].is_some() {
                            proof {
                                assert(spec_cell_collides_g(
                                    self.grid(),
                                    *piece,
                                    lane as int,
                                    drop as int,
                                    px as int,
                                    py as int,
                                ));
                            }
                            return true;
                        }
                    }
                }
                py += 1;
            }
            px += 1;
        }
        false
    }

    /// Whether `b` agrees with `a` on everything but the play-field grid.
    pub open spec fn eq_nongrid(a: Game, b: Game) -> bool {
        &&& b.level == a.level
        &&& b.blade == a.blade
        &&& b.lane == a.lane
        &&& b.piece == a.piece
        &&& b.drop == a.drop
        &&& b.drop_timer == a.drop_timer
        &&& b.drop_speed == a.drop_speed
        &&& b.narrator == a.narrator
        &&& b.pending == a.pending
    }

    /// Whether `b` agrees with `a` on everything a speculative move of the
    /// falling piece cannot touch.
    pub open spec fn eq_nonfall(a: Game, b: Game) -> bool {
        &&& b.level == a.level
        &&& b.blade == a.blade
        &&& b.drop_timer == a.drop_timer
        &&& b.narrator == a.narrator
        &&& b.lanes == a.lanes
        &&& b.pending == a.pending
    }


    /// What an up press does to a level: the piece turns a quarter unless
    /// the turned piece would collide; a rejected turn changes nothing.
    pub open spec fn spec_button_up_rel(pre: Game, post: Game) -> bool {
        &&& Game::eq_nonfall(pre, post)
        &&& post.lane == pre.lane
        &&& post.drop == pre.drop
        &&& post.drop_speed == pre.drop_speed
        &&& post.piece == (if !pre.spec_collides(
            pre.piece.rotated(),
            pre.lane as int,
            pre.drop as int,
        ) {
            pre.piece.rotated()
        } else {
            pre.piece
        })
    }

    /// What a right press does to a level: the piece shifts one lane right
    /// unless the shifted piece would collide.
    pub open spec fn spec_button_right_rel(pre: Game, post: Game) -> bool {
        &&& Game::eq_nonfall(pre, post)
        &&& post.piece == pre.piece
        &&& post.drop == pre.drop
        &&& post.drop_speed == pre.drop_speed
        &&& post.lane == (if !pre.spec_collides(pre.piece, pre.lane + 1, pre.drop as int) {
            pre.lane + 1
        } else {
            pre.lane as int
        })
    }

    /// What a left press does to a level: the piece shifts one lane left
    /// unless the shifted piece would collide.
    pub open spec fn spec_button_left_rel(pre: Game, post: Game) -> bool {
        &&& Game::eq_nonfall(pre, post)
        &&& post.piece == pre.piece
        &&& post.drop == pre.drop
        &&& post.drop_speed == pre.drop_speed
        &&& post.lane == ({
            let cand: int = if pre.lane == 0 {
                0
            } else {
                pre.lane - 1
            };
            if !pre.spec_collides(pre.piece, cand, pre.drop as int) {
                cand
            } else {
                pre.lane as int
            }
        })
    }

    /// What a down or center press does to a level: while the narrator owns
    /// the screen the press goes to it; otherwise the drop speed rises to
    /// its maximum unless the piece currently collides.
    pub open spec fn spec_button_down_rel(pre: Game, post: Game) -> bool {
        &&& post.level == pre.level
        &&& post.blade == pre.blade
        &&& post.lane == pre.lane
        &&& post.piece == pre.piece
        &&& post.drop == pre.drop
        &&& post.drop_timer == pre.drop_timer
        &&& post.lanes == pre.lanes
        &&& post.pending == pre.pending
        &&& (pre.narrator matches Some(n) ==> (post.narrator == n.spec_button_pressed()
            && post.drop_speed == pre.drop_speed))
        &&& (pre.narrator is None ==> (post.narrator is None && post.drop_speed == (
        if !pre.spec_collides_now() {
            i32::MAX as int
        } else {
            pre.drop_speed as int
        })))
    }

    /// Rotate the falling piece a quarter turn, unless the rotated piece
    /// would collide; a rejected rotation leaves the game untouched.
    pub fn button_up(&mut self)
        requires
            old(self).wf(),
        ensures
            final(self).wf(),
            Game::spec_button_up_rel(*old(self), *final(self)),
    {
        let mut cand = self.piece;
        cand.rotate();
        if !self.collides_with(&cand, self.lane, self.drop) {
            self.piece = cand;
        }
    }

    /// Shift the falling piece one lane to the right, unless the shifted
    /// piece would collide; a rejected shift leaves the game untouched.
    pub fn button_right(&mut self)
        requires
            old(self).wf(),
        ensures
            final(self).wf(),
            Game::spec_button_right_rel(*old(self), *final(self)),
    {
        let cand = self.lane.saturating_add(1);
        let piece = self.piece;
        if !self.collides_with(&piece, cand, self.drop) {
            proof {
                assert(spec_padding_right(piece.piece, piece.rotation) <= 4);
            }
            self.lane = cand;
        }
    }

    /// Shift the falling piece one lane to the left, unless the shifted
    /// piece would collide; a rejected shift leaves the game untouched.
    pub fn button_left(&mut self)
        requires
            old(self).wf(),
        ensures
            final(self).wf(),
            Game::spec_button_left_rel(*old(self), *final(self)),
    {
        let cand = self.lane.saturating_sub(1);
        let piece = self.piece;
        if !self.collides_with(&piece, cand, self.drop) {
            self.lane = cand;
        }
    }

    /// While the narrator owns the screen, route the press to it; otherwise
    /// raise the drop speed to its maximum — an immediate hard drop — unless
    /// the piece currently collides.
    pub fn button_down(&mut self)
        requires
            old(self).wf(),
        ensures
            final(self).wf(),
            Game::spec_button_down_rel(*old(self), *final(self)),
    {
        let mut narr: Option<Narrator> = None;
        core::mem::swap(&mut narr, &mut self.narrator);
        match narr {
            Some(n) => {
                self.narrator = n.button_pressed();
            },
            None => {
                if !self.collides() {
                    self.drop_speed = i32::MAX;
                }
            },
        }
    }

    /// Same effect as the down button.
    pub fn button_center(&mut self)
        requires
            old(self).wf(),
        ensures
            final(self).wf(),
            Game::spec_button_down_rel(*old(self), *final(self)),
    {
        self.button_down();
    }

    /// Collision test for the piece's current position.
    pub fn collides(&self) -> (c: bool)
        requires
            self.wf(),
        ensures
            c == self.spec_collides_now(),
    {
        let piece = self.piece;
        self.collides_with(&piece, self.lane, self.drop)
    }

    /// Clear the soft tiles of row `y` in every lane; wall tiles stay.
    fn clear_row(&mut self, y: usize)
        requires
            old(self).wf(),
            y < NUM_ROWS,
        ensures
            final(self).wf(),
            final(self).grid() == spec_clear_row(old(self).grid(), y as int),
            Game::eq_nongrid(*old(self), *final(self)),
    {
        let mut x: usize = 0;
        while x < 8
            invariant
                self.wf(),
                y < NUM_ROWS,
                x <= 8,
                Game::eq_nongrid(*old(self), *self),
                forall|i: int, j: int|
                    0 <= i < NUM_LANES && 0 <= j < NUM_ROWS ==> self.cell(i, j) == (if i < x && j
                        == y && old(self).cell(i, j) == Some(Tile { wall: false }) {
                        None
                    } else {
                        old(self).cell(i, j)
                    }),
            decreases 8 - x,
        {
            let soft = match self.lanes[x][y] {
                Some(t) => !t.wall,
                None => false,
            };
            if soft {
                self.set_cell(x, y, None);
            }
            x += 1;
        }
        proof {
            let b = spec_clear_row(old(self).grid(), y as int);
            assert forall|x: int| 0 <= x < NUM_LANES implies (#[trigger] b[x]).len()
                == NUM_ROWS by {
                assert(old(self).grid()[x] == old(self).lanes@[x]@);
            }
            assert forall|x: int, j: int| 0 <= x < NUM_LANES && 0 <= j < NUM_ROWS implies #[trigger]
            self.cell(x, j) == b[x][j] by {
                assert(old(self).grid()[x][j] == old(self).cell(x, j));
            }
            self.lemma_grid_is(b);
        }
    }

    /// Shift every row strictly above `y` one row down, in the lanes beyond
    /// the reserved ones, and clear row 0 there; the reserved lanes keep all
    /// their rows.
    fn shift_previous_rows(&mut self, y: usize)
        requires
            old(self).wf(),
            y < NUM_ROWS,
        ensures
            final(self).wf(),
            final(self).grid() == spec_shift_rows(old(self).grid(), y as int),
            Game::eq_nongrid(*old(self), *final(self)),
            forall|x: int, j: int|
                MIN_LANE <= x < NUM_LANES && 1 <= j <= y ==> #[trigger] final(self).cell(x, j)
                    == old(self).cell(x, j - 1),
            forall|x: int| MIN_LANE <= x < NUM_LANES ==> #[trigger] final(self).cell(x, 0) is None,
            forall|x: int, j: int|
                MIN_LANE <= x < NUM_LANES && y < j < NUM_ROWS ==> #[trigger] final(self).cell(x, j)
                    == old(self).cell(x, j),
            forall|x: int, j: int|
                0 <= x < MIN_LANE && 0 <= j < NUM_ROWS ==> #[trigger] final(self).cell(x, j)
                    == old(self).cell(x, j),
    {
        let mut yy = y;
        while yy > 0
            invariant
                self.wf(),
                y < NUM_ROWS,
                yy <= y,
                Game::eq_nongrid(*old(self), *self),
                forall|i: int, j: int|
                    0 <= i < NUM_LANES && 0 <= j < NUM_ROWS ==> self.cell(i, j) == (if 2 <= i
                        && yy < j <= y {
                        old(self).cell(i, j - 1)
                    } else {
                        old(self).cell(i, j)
                    }),
            decreases yy,
        {
            yy -= 1;
            let mut x: usize = 2;
            while x < 8
                invariant
                    self.wf(),
                    y < NUM_ROWS,
                    yy < y,
                    2 <= x <= 8,
                    Game::eq_nongrid(*old(self), *self),
                    forall|i: int, j: int|
                        0 <= i < NUM_LANES && 0 <= j < NUM_ROWS ==> self.cell(i, j) == (if 2 <= i
                            < x && j == yy + 1 {
                            old(self).cell(i, j - 1)
                        } else if 2 <= i && yy + 1 < j <= y {
                            old(self).cell(i, j - 1)
                        } else {
                            old(self).cell(i, j)
                        }),
                decreases 8 - x,
            {
                let v = self.lanes[x][yy];
                proof {
                    assert(self.cell(x as int, yy as int) == old(self).cell(x as int, yy as int));
                }
                self.set_cell(x, yy + 1, v);
                x += 1;
            }
        }
        let mut x: usize = 2;
        while x < 8
            invariant
                self.wf(),
                y < NUM_ROWS,
                2 <= x <= 8,
                Game::eq_nongrid(*old(self), *self),
                forall|i: int, j: int|
                    0 <= i < NUM_LANES && 0 <= j < NUM_ROWS ==> self.cell(i, j) == (if 2 <= i < x
                        && j == 0 {
                        None
                    } else if 2 <= i && 0 < j <= y {
                        old(self).cell(i, j - 1)
                    } else {
                        old(self).cell(i, j)
                    }),
            decreases 8 - x,
        {
            self.set_cell(x, 0, None);
            x += 1;
        }
        proof {
            let b = spec_shift_rows(old(self).grid(), y as int);
            assert forall|x: int| 0 <= x < NUM_LANES implies (#[trigger] b[x]).len()
                == NUM_ROWS by {
                assert(old(self).grid()[x] == old(self).lanes@[x]@);
            }
            assert forall|x: int, j: int| 0 <= x < NUM_LANES && 0 <= j < NUM_ROWS implies #[trigger]
            self.cell(x, j) == b[x][j] by {
                assert(old(self).grid()[x] == old(self).lanes@[x]@);
                if 0 < j <= y && 2 <= x {
                    assert(old(self).grid()[x][j - 1] == old(self).cell(x, j - 1));
                }
            }
            self.lemma_grid_is(b);
        }
    }

    /// Scan the field top to bottom once; clear each complete row met and
    /// shift the rows above it down by one. A row that shifts into an index
    /// the scan has already passed is not re-checked within the same pass.
    pub fn check_completed_rows(&mut self)
        requires
            old(self).wf(),
        ensures
            final(self).wf(),
            final(self).grid() == spec_row_pass(old(self).grid(), 0),
            Game::eq_nongrid(*old(self), *final(self)),
    {
        let mut y: usize = 0;
        while y < 21
            invariant
                self.wf(),
                y <= 21,
                Game::eq_nongrid(*old(self), *self),
                spec_row_pass(old(self).grid(), 0) == spec_row_pass(self.grid(), y as int),
            decreases 21 - y,
        {
            let mut complete = true;
            let mut x: usize = 2;
            while x < 8
                invariant
                    self.wf(),
                    y < 21,
                    2 <= x <= 8,
                    complete == (forall|i: int|
                        2 <= i < x ==> #[trigger] self.cell(i, y as int) is Some),
                decreases 8 - x,
            {
                let present = self.lanes[x][y].is_some();
                proof {
                    assert(present == (self.cell(x as int, y as int) is Some));
                }
                complete = complete && present;
                x += 1;
            }

            let ghost g_before = self.grid();
            if complete {
                proof {
                    assert forall|i: int| MIN_LANE <= i < NUM_LANES implies (#[trigger] g_before[
                    i])[y as int] is Some by {
                        assert(self.cell(i, y as int) is Some);
                        assert(g_before[i] == self.lanes@[i]@);
                    }
                    assert(spec_row_complete(g_before, y as int));
                }
                self.clear_row(y);
                self.shift_previous_rows(y);
                proof {
                    assert(self.grid() == spec_shift_rows(
                        spec_clear_row(g_before, y as int),
                        y as int,
                    ));
                    assert(spec_row_pass(g_before, y as int) == spec_row_pass(
                        self.grid(),
                        y as int + 1,
                    ));
                }
            } else {
                proof {
                    let ghost wit = choose|i: int|
                        2 <= i < 8 && !(#[trigger] self.cell(i, y as int) is Some);
                    assert(g_before[wit] == self.lanes@[wit]@);
                    assert(!spec_row_complete(g_before, y as int));
                    assert(spec_row_pass(g_before, y as int) == spec_row_pass(
                        self.grid(),
                        y as int + 1,
                    ));
                }
            }
            y += 1;
        }
    }

    /// Whether locking the piece here keeps every occupied cell strictly
    /// below row 0 — the condition under which play continues.
    pub open spec fn spec_persist_ok(self) -> bool {
        spec_persist_ok_g(self.piece, self.drop as int)
    }

    /// The field after the piece's occupied cells that resolve to rows and
    /// lanes inside the field are written as soft tiles.
    pub open spec fn spec_persisted_grid(self) -> Seq<Seq<Option<Tile>>> {
        spec_persisted_grid_g(self.grid(), self.piece, self.lane as int, self.drop as int)
    }

    /// Write the piece into the field as soft tiles and report whether play
    /// goes on: locking with any occupied cell at or above row 0 means the
    /// piece never fully entered the field, which ends the level. Cells above
    /// the top or outside the lanes are simply not written.
    fn persist_piece(&mut self) -> (ok: bool)
        requires
            old(self).wf(),
        ensures
            final(self).wf(),
            ok == old(self).spec_persist_ok(),
            final(self).grid() == old(self).spec_persisted_grid(),
            Game::eq_nongrid(*old(self), *final(self)),
    {
        let ghost g0 = *old(self);
        let mut gameover = false;
        let offset_y = Game::row_offset(self.drop);
        let mut px: usize = 0;
        while px < 4
            invariant
                self.wf(),
                px <= 4,
                Game::eq_nongrid(g0, *self),
                offset_y == Game::spec_row_offset(g0.drop as int),
                -3 <= offset_y <= 0x20000000,
                gameover == spec_over_top_before(g0.piece, g0.drop as int, px as int, 0),
                forall|i: int, j: int|
                    0 <= i < NUM_LANES && 0 <= j < NUM_ROWS ==> self.cell(i, j) == (
                    if spec_piece_covers_before(
                        g0.piece,
                        g0.lane as int,
                        g0.drop as int,
                        i,
                        j,
                        px as int,
                        0,
                    ) {
                        Some(Tile { wall: false })
                    } else {
                        g0.cell(i, j)
                    }),
            decreases 4 - px,
        {
            let mut py: usize = 0;
            while py < 4
                invariant
                    self.wf(),
                    px < 4,
                    py <= 4,
                    Game::eq_nongrid(g0, *self),
                    offset_y == Game::spec_row_offset(g0.drop as int),
                    -3 <= offset_y <= 0x20000000,
                    gameover == spec_over_top_before(
                        g0.piece,
                        g0.drop as int,
                        px as int,
                        py as int,
                    ),
                    forall|i: int, j: int|
                        0 <= i < NUM_LANES && 0 <= j < NUM_ROWS ==> self.cell(i, j) == (
                        if spec_piece_covers_before(
                            g0.piece,
                            g0.lane as int,
                            g0.drop as int,
                            i,
                            j,
                            px as int,
                            py as int,
                        ) {
                            Some(Tile { wall: false })
                        } else {
                            g0.cell(i, j)
                        }),
                decreases 4 - py,
            {
                if self.piece.occupied_at(px, py) {
                    let row = offset_y + py as i32;
                    if row <= 0 {
                        gameover = true;
                    }
                    if row >= 0 && row < 21 {
                        let x = (self.lane as usize) + px;
                        if x < 8 {
                            self.set_cell(x, row as usize, Some(Tile { wall: false }));
                        }
                    }
                }
                py += 1;
            }
            px += 1;
            proof {
                assert(spec_over_top_before(g0.piece, g0.drop as int, px as int, 0)
                    == spec_over_top_before(g0.piece, g0.drop as int, px - 1, 4));
                assert forall|i: int, j: int| 0 <= i < NUM_LANES && 0 <= j < NUM_ROWS implies (
                spec_piece_covers_before(
                    g0.piece,
                    g0.lane as int,
                    g0.drop as int,
                    i,
                    j,
                    px as int,
                    0,
                ) == spec_piece_covers_before(
                    g0.piece,
                    g0.lane as int,
                    g0.drop as int,
                    i,
                    j,
                    px - 1,
                    4,
                )) by {
                    assert(forall|a: int, b: int|
                        0 <= a < 4 && 0 <= b < 4 ==> (lex_before(a, b, px as int, 0) == lex_before(
                            a,
                            b,
                            px - 1,
                            4,
                        )));
                }
            }
        }
        proof {
            let b = g0.spec_persisted_grid();
            assert forall|x: int| 0 <= x < NUM_LANES implies (#[trigger] b[x]).len()
                == NUM_ROWS by {
                assert(g0.grid()[x] == g0.lanes@[x]@);
            }
            assert forall|x: int, j: int| 0 <= x < NUM_LANES && 0 <= j < NUM_ROWS implies #[trigger]
            self.cell(x, j) == b[x][j] by {
                assert(g0.grid()[x][j] == g0.cell(x, j));
            }
            self.lemma_grid_is(b);
            assert(!gameover == g0.spec_persist_ok());
        }
        !gameover
    }

    /// Spawn the next piece: draw shapes from the generator until one is
    /// accepted, then place it in the spawn lane with its lowest occupied
    /// cell just above the field, and reset the drop speed.
    pub fn spawn_next_piece(&mut self, random: &mut Random)
        requires
            old(self).wf(),
        ensures
            final(self).wf(),
            final(self).piece.piece != Piece::O,
            final(self).piece.rotation == Rotation::R0,
            final(self).lane == INITIAL_LANE,
            final(self).drop == -6 * spec_lowest_point(final(self).piece.piece, Rotation::R0),
            final(self).drop_speed == 1,
            final(self).level == old(self).level,
            final(self).blade == old(self).blade,
            final(self).drop_timer == old(self).drop_timer,
            final(self).narrator == old(self).narrator,
            final(self).lanes == old(self).lanes,
            final(self).pending == old(self).pending,
    {
        let mut current: Option<Piece> = Some(self.piece.piece);
        let mut chosen: Option<Piece> = None;
        let mut tries: u32 = 0;
        while tries < PIECE_RETRY_LIMIT && chosen.is_none()
            invariant
                *self == *old(self),
                chosen matches Some(p) ==> p != Piece::O,
            decreases PIECE_RETRY_LIMIT - tries,
        {
            let value = random.squeeze();
            let prev = current;
            chosen = select_piece(value, prev);
            current = None;
            tries += 1;
            proof {
                lemma_selection_no_square_no_repeat(value, prev);
            }
        }
        let piece = match chosen {
            Some(p) => p,
            None => {
                let value = random.squeeze();
                proof {
                    lemma_selection_no_square_no_repeat(value, None);
                }
                fallback_piece(value)
            },
        };
        self.piece = Grid::new(piece);
        self.lane = INITIAL_LANE;
        let lp = self.piece.lowest_point();
        self.drop = -((lp as i32) * 6);
        self.drop_speed = 1;
    }

    /// Whether `post` carries the non-grid fields of `fields` over the play
    /// field `g`.
    pub open spec fn fields_with_grid(post: Game, fields: Game, g: Seq<Seq<Option<Tile>>>) -> bool {
        &&& Game::eq_nongrid(fields, post)
        &&& post.grid() == g
    }

    /// The countdown delay a switch target uses.
    pub open spec fn spec_switch_delay(target: SwitchTo) -> u8 {
        match target {
            SwitchTo::NextLevel(_) => NEXT_LEVEL_DELAY,
            SwitchTo::GameOver(_) => GAME_OVER_DELAY,
        }
    }

    /// A pending switch armed with `target`: set only while none is pending.
    pub open spec fn spec_arm(
        pending: Option<(SwitchTo, Timer)>,
        target: SwitchTo,
    ) -> Option<(SwitchTo, Timer)> {
        if pending is Some {
            pending
        } else {
            Some((target, Timer { delay: Game::spec_switch_delay(target), step: 0 }))
        }
    }

    /// The descent phase of one tick: from fields `gd` over field `gin`,
    /// exactly `j` one-pixel descents succeed. Either that exhausts the drop
    /// speed and the completion pass runs, or the next descent collides and
    /// the piece locks — followed by the next spawn and the completion pass,
    /// or, when the piece never fully entered the field, by arming the
    /// game-over switch.
    pub open spec fn spec_drop_phase_j(
        gd: Game,
        gin: Seq<Seq<Option<Tile>>>,
        post: Game,
        j: int,
    ) -> bool {
        &&& 0 <= j <= gd.drop_speed
        &&& (forall|i: int|
            1 <= i <= j ==> !spec_collides_g(
                gin,
                gd.piece,
                gd.lane as int,
                #[trigger] spec_sat_drop(gd.drop, i),
            ))
        &&& if j == gd.drop_speed {
            Game::fields_with_grid(
                post,
                Game { drop: spec_sat_drop(gd.drop, j) as i32, ..gd },
                spec_row_pass(gin, 0),
            )
        } else {
            &&& spec_collides_g(gin, gd.piece, gd.lane as int, spec_sat_drop(gd.drop, j + 1))
            &&& ({
                let drop_after = spec_sat_drop(gd.drop, j) as i32;
                let persisted = spec_persisted_grid_g(
                    gin,
                    gd.piece,
                    gd.lane as int,
                    drop_after as int,
                );
                if spec_persist_ok_g(gd.piece, drop_after as int) {
                    exists|p: Piece|
                        p != Piece::O && #[trigger] Game::fields_with_grid(
                            post,
                            Game {
                                piece: Grid { piece: p, rotation: Rotation::R0 },
                                lane: INITIAL_LANE,
                                drop: (-6 * spec_lowest_point(p, Rotation::R0)) as i32,
                                drop_speed: 1,
                                ..gd
                            },
                            spec_row_pass(persisted, 0),
                        )
                } else {
                    Game::fields_with_grid(
                        post,
                        Game {
                            drop: drop_after,
                            pending: Game::spec_arm(gd.pending, SwitchTo::GameOver(gd.level)),
                            ..gd
                        },
                        persisted,
                    )
                }
            })
        }
    }

    /// The descent phase of one tick, for some number of descents.
    pub open spec fn spec_drop_phase(gd: Game, gin: Seq<Seq<Option<Tile>>>, post: Game) -> bool {
        exists|j: int| #[trigger] Game::spec_drop_phase_j(gd, gin, post, j)
    }

    /// The descent phase only reads the non-grid fields of its carrier, so
    /// any carrier with the same non-grid fields describes the same phase.
    proof fn lemma_drop_phase_carrier(gd1: Game, gd2: Game, gin: Seq<Seq<Option<Tile>>>, post: Game, j: int)
        requires
            Game::eq_nongrid(gd1, gd2),
            Game::spec_drop_phase_j(gd1, gin, post, j),
        ensures
            Game::spec_drop_phase_j(gd2, gin, post, j),
    {
        if j == gd1.drop_speed {
            assert(Game::fields_with_grid(
                post,
                Game { drop: spec_sat_drop(gd2.drop, j) as i32, ..gd2 },
                spec_row_pass(gin, 0),
            ));
        } else {
            let drop_after = spec_sat_drop(gd1.drop, j) as i32;
            let persisted = spec_persisted_grid_g(gin, gd1.piece, gd1.lane as int, drop_after as int);
            if spec_persist_ok_g(gd1.piece, drop_after as int) {
                let p = choose|p: Piece|
                    p != Piece::O && #[trigger] Game::fields_with_grid(
                        post,
                        Game {
                            piece: Grid { piece: p, rotation: Rotation::R0 },
                            lane: INITIAL_LANE,
                            drop: (-6 * spec_lowest_point(p, Rotation::R0)) as i32,
                            drop_speed: 1,
                            ..gd1
                        },
                        spec_row_pass(persisted, 0),
                    );
                assert(Game::fields_with_grid(
                    post,
                    Game {
                        piece: Grid { piece: p, rotation: Rotation::R0 },
                        lane: INITIAL_LANE,
                        drop: (-6 * spec_lowest_point(p, Rotation::R0)) as i32,
                        drop_speed: 1,
                        ..gd2
                    },
                    spec_row_pass(
                        spec_persisted_grid_g(gin, gd2.piece, gd2.lane as int, drop_after as int),
                        0,
                    ),
                ));
            } else {
                assert(Game::fields_with_grid(
                    post,
                    Game {
                        drop: drop_after,
                        pending: Game::spec_arm(gd2.pending, SwitchTo::GameOver(gd2.level)),
                        ..gd2
                    },
                    spec_persisted_grid_g(gin, gd2.piece, gd2.lane as int, drop_after as int),
                ));
            }
        }
    }

    /// The per-tick transition relation of a level, with the tick's entropy
    /// draws left free.
    pub open spec fn spec_tick_rel(pre: Game, post: Game) -> bool {
        match pre.pending {
            Some((t, tm)) => post == (Game { pending: Some((t, tm.spec_ticked())), ..pre }),
            None => {
                let g1 = if pre.blade.spec_off_screen() {
                    Game {
                        pending: Some(
                            (
                                SwitchTo::NextLevel(spec_next_level(pre.level)),
                                Timer { delay: NEXT_LEVEL_DELAY, step: 0 },
                            ),
                        ),
                        ..pre
                    }
                } else {
                    pre
                };
                let height = Game::spec_obstacle_height(pre.grid());
                let g2 = Game { blade: pre.blade.spec_moved(height), ..g1 };
                if pre.blade.y != height {
                    post == g2
                } else {
                    let cutg = match Game::spec_first_obstacle(pre.grid()) {
                        Some(row) => spec_cut_grid(pre.grid(), row),
                        None => pre.grid(),
                    };
                    match pre.narrator {
                        Some(n) => Game::fields_with_grid(
                            post,
                            Game { narrator: Some(n.spec_ticked()), ..g2 },
                            cutg,
                        ),
                        None => {
                            if !pre.drop_timer.spec_fires() {
                                Game::fields_with_grid(
                                    post,
                                    Game { drop_timer: pre.drop_timer.spec_stepped(), ..g2 },
                                    cutg,
                                )
                            } else {
                                Game::spec_drop_phase(
                                    Game { drop_timer: pre.drop_timer.spec_stepped(), ..g2 },
                                    cutg,
                                    post,
                                )
                            }
                        },
                    }
                }
            },
        }
    }

    /// Arm the pending switch `target` with its countdown; while one is
    /// already pending, later requests are ignored.
    fn switch_to(&mut self, target: SwitchTo)
        requires
            old(self).wf(),
        ensures
            final(self).wf(),
            final(self).pending == Game::spec_arm(old(self).pending, target),
            final(self).level == old(self).level,
            final(self).blade == old(self).blade,
            final(self).lane == old(self).lane,
            final(self).piece == old(self).piece,
            final(self).drop == old(self).drop,
            final(self).drop_timer == old(self).drop_timer,
            final(self).drop_speed == old(self).drop_speed,
            final(self).narrator == old(self).narrator,
            final(self).lanes == old(self).lanes,
    {
        if self.pending.is_none() {
            let delay = match target {
                SwitchTo::NextLevel(_) => NEXT_LEVEL_DELAY,
                SwitchTo::GameOver(_) => GAME_OVER_DELAY,
            };
            self.pending = Some((target, Timer::new(delay)));
        }
    }

    /// The pending switch, observable once its countdown has elapsed.
    pub open spec fn spec_transition(self) -> Option<SwitchTo> {
        match self.pending {
            Some((t, tm)) => if tm.step >= tm.delay {
                Some(t)
            } else {
                None
            },
            None => None,
        }
    }

    /// Report the pending switch once its countdown has elapsed. The token
    /// stays owned here, so the report repeats on every later call.
    pub fn transition(&self) -> (r: Option<SwitchTo>)
        ensures
            r == self.spec_transition(),
    {
        match &self.pending {
            Some((t, tm)) => {
                if tm.is_due() {
                    Some(*t)
                } else {
                    None
                }
            },
            None => None,
        }
    }

    /// Advance the level by one frame, in order: a pending switch only
    /// counts down; a finished blade run arms the next level; the blade
    /// animation, then the narrator, may consume the frame; then the drop
    /// timer gates the piece descent, locking, spawning and row clearing.
    #[verifier::loop_isolation(false)]
    pub fn tick(&mut self, random: &mut Random)
        requires
            old(self).wf(),
        ensures
            final(self).wf(),
            Game::spec_tick_rel(*old(self), *final(self)),
    {
        // a pending switch freezes the level; only its countdown advances
        match self.pending {
            Some((t, tm)) => {
                let mut timer = tm;
                timer.tick();
                self.pending = Some((t, timer));
                return;
            },
            None => {},
        }

        // the level is complete once the blade has left the display
        if self.blade.is_off_screen() {
            let next_level = self.level.saturating_add(1);
            self.switch_to(SwitchTo::NextLevel(next_level));
        }

        // blade animation; a still-moving blade consumes the frame
        proof {
            Game::lemma_same_lanes_same_grid(*self, *old(self));
        }
        let (obstacle, height) = self.next_obstacle();
        let settled = self.blade.move_towards(height);
        if !settled {
            return;
        }

        // the blade rests on its target: cut the obstacle it reached
        if let Some(row) = obstacle {
            proof {
                Game::lemma_same_lanes_same_grid(*self, *old(self));
            }
            self.blade_hits_row(row);
            proof {
                let b = spec_cut_grid(old(self).grid(), row as int);
                assert forall|x: int| 0 <= x < NUM_LANES implies (#[trigger] b[x]).len()
                    == NUM_ROWS by {
                    assert(old(self).grid()[x] == old(self).lanes@[x]@);
                }
                assert forall|x: int, j: int|
                    0 <= x < NUM_LANES && 0 <= j < NUM_ROWS implies #[trigger] self.cell(x, j)
                    == b[x][j] by {
                    assert(old(self).grid()[x][j] == old(self).cell(x, j));
                }
                self.lemma_grid_is(b);
            }
        }
        let ghost gin = self.grid();
        proof {
            if obstacle is None {
                Game::lemma_same_lanes_same_grid(*self, *old(self));
            }
            assert(gin == (match Game::spec_first_obstacle(old(self).grid()) {
                Some(row) => spec_cut_grid(old(self).grid(), row),
                None => old(self).grid(),
            }));
            assert(gin.len() == self.lanes@.len());
            assert forall|x: int| 0 <= x < gin.len() implies gin[x] == self.lanes@[x]@ by {}
        }

        // the narrator, while present, consumes the frame
        let mut narr: Option<Narrator> = None;
        core::mem::swap(&mut narr, &mut self.narrator);
        if let Some(mut n) = narr {
            n.tick();
            self.narrator = Some(n);
            return;
        }

        // the drop timer gates piece descent
        if !self.drop_timer.step() {
            return;
        }

        // descend up to `drop_speed` pixels; a collision locks the piece
        let ghost gd = *self;
        proof {
            Game::lemma_grid_from_lanes(*self, gin);
        }
        let mut step_idx: i32 = 0;
        while step_idx < self.drop_speed
            invariant
                self.wf(),
                0 <= step_idx <= self.drop_speed,
                self.lanes == gd.lanes,
                self.level == gd.level,
                self.blade == gd.blade,
                self.lane == gd.lane,
                self.piece == gd.piece,
                self.drop_timer == gd.drop_timer,
                self.drop_speed == gd.drop_speed,
                self.narrator == gd.narrator,
                self.pending == gd.pending,
                self.drop == spec_sat_drop(gd.drop, step_idx as int),
                gin == self.grid(),
                gd.wf(),
                forall|i: int|
                    1 <= i <= step_idx ==> !spec_collides_g(
                        gin,
                        gd.piece,
                        gd.lane as int,
                        #[trigger] spec_sat_drop(gd.drop, i),
                    ),
            decreases self.drop_speed - step_idx,
        {
            let cand = if self.drop == i32::MAX {
                i32::MAX
            } else {
                self.drop + 1
            };
            let piece = self.piece;
            if !self.collides_with(&piece, self.lane, cand) {
                self.drop = cand;
                step_idx += 1;
            } else {
                // the piece locks here
                let ghost j = step_idx as int;
                let ok = self.persist_piece();
                if ok {
                    self.spawn_next_piece(random);
                    self.check_completed_rows();
                    proof {
                        let p = self.piece.piece;
                        let drop_after = spec_sat_drop(gd.drop, j) as i32;
                        let persisted = spec_persisted_grid_g(
                            gin,
                            gd.piece,
                            gd.lane as int,
                            drop_after as int,
                        );
                        assert(Game::fields_with_grid(
                            *self,
                            Game {
                                piece: Grid { piece: p, rotation: Rotation::R0 },
                                lane: INITIAL_LANE,
                                drop: (-6 * spec_lowest_point(p, Rotation::R0)) as i32,
                                drop_speed: 1,
                                ..gd
                            },
                            spec_row_pass(persisted, 0),
                        ));
                        assert(Game::spec_drop_phase_j(gd, gin, *self, j));
                        let pre = *old(self);
                        let g1 = if pre.blade.spec_off_screen() {
                            Game {
                                pending: Some(
                                    (
                                        SwitchTo::NextLevel(spec_next_level(pre.level)),
                                        Timer { delay: NEXT_LEVEL_DELAY, step: 0 },
                                    ),
                                ),
                                ..pre
                            }
                        } else {
                            pre
                        };
                        let height = Game::spec_obstacle_height(pre.grid());
                        let g2 = Game { blade: pre.blade.spec_moved(height), ..g1 };
                        let cutg = match Game::spec_first_obstacle(pre.grid()) {
                            Some(row) => spec_cut_grid(pre.grid(), row),
                            None => pre.grid(),
                        };
                        let gspec = Game { drop_timer: pre.drop_timer.spec_stepped(), ..g2 };
                        assert(Game::eq_nongrid(gd, gspec));
                        assert(gin == cutg);
                        Game::lemma_drop_phase_carrier(gd, gspec, gin, *self, j);
                        assert(Game::spec_drop_phase(gspec, cutg, *self));
                    }
                    return;
                } else {
                    let level = self.level;
                    self.switch_to(SwitchTo::GameOver(level));
                    proof {
                        assert(Game::spec_drop_phase_j(gd, gin, *self, j));
                        let pre = *old(self);
                        let g1 = if pre.blade.spec_off_screen() {
                            Game {
                                pending: Some(
                                    (
                                        SwitchTo::NextLevel(spec_next_level(pre.level)),
                                        Timer { delay: NEXT_LEVEL_DELAY, step: 0 },
                                    ),
                                ),
                                ..pre
                            }
                        } else {
                            pre
                        };
                        let height = Game::spec_obstacle_height(pre.grid());
                        let g2 = Game { blade: pre.blade.spec_moved(height), ..g1 };
                        let cutg = match Game::spec_first_obstacle(pre.grid()) {
                            Some(row) => spec_cut_grid(pre.grid(), row),
                            None => pre.grid(),
                        };
                        let gspec = Game { drop_timer: pre.drop_timer.spec_stepped(), ..g2 };
                        assert(Game::eq_nongrid(gd, gspec));
                        assert(gin == cutg);
                        Game::lemma_drop_phase_carrier(gd, gspec, gin, *self, j);
                        assert(Game::spec_drop_phase(gspec, cutg, *self));
                    }
                    return;
                }
            }
        }

        // the full drop speed was used without a collision
        self.check_completed_rows();
        proof {
            assert(Game::spec_drop_phase_j(gd, gin, *self, gd.drop_speed as int));
            let pre = *old(self);
            let g1 = if pre.blade.spec_off_screen() {
                Game {
                    pending: Some(
                        (
                            SwitchTo::NextLevel(spec_next_level(pre.level)),
                            Timer { delay: NEXT_LEVEL_DELAY, step: 0 },
                        ),
                    ),
                    ..pre
                }
            } else {
                pre
            };
            let height = Game::spec_obstacle_height(pre.grid());
            let g2 = Game { blade: pre.blade.spec_moved(height), ..g1 };
            let cutg = match Game::spec_first_obstacle(pre.grid()) {
                Some(row) => spec_cut_grid(pre.grid(), row),
                None => pre.grid(),
            };
            let gspec = Game { drop_timer: pre.drop_timer.spec_stepped(), ..g2 };
            assert(Game::eq_nongrid(gd, gspec));
            assert(gin == cutg);
            Game::lemma_drop_phase_carrier(gd, gspec, gin, *self, gd.drop_speed as int);
            assert(Game::spec_drop_phase(gspec, cutg, *self));
        }
    }

    /// Cut the obstacle pair at `row`: both reserved-lane cells lose their
    /// wall flag but stay occupied.
    pub fn blade_hits_row(&mut self, row: usize)
        requires
            old(self).wf(),
            row < NUM_ROWS,
        ensures
            final(self).wf(),
            forall|i: int, j: int|
                0 <= i < NUM_LANES && 0 <= j < NUM_ROWS ==> final(self).cell(i, j) == (if (i == 0
                    || i == 1) && j == row && old(self).cell(i, j) is Some {
                    Some(Tile { wall: false })
                } else {
                    old(self).cell(i, j)
                }),
            Game::eq_nongrid(*old(self), *final(self)),
    {
        if self.lanes[0][row].is_some() {
            self.set_cell(0, row, Some(Tile { wall: false }));
        }
        if self.lanes[1][row].is_some() {
            self.set_cell(1, row, Some(Tile { wall: false }));
        }
    }
}

} // verus!
