//! What each move does to the state of a game, as functions on the
//! mathematical state.

use vstd::prelude::*;
use crate::canvas::{leaves_field, placed, rows_drawn, seen, Grid};
use crate::piece::{PieceEnum, Pieces};
use crate::tetris::{Play, TetrisPiece};
use crate::tile::{Tile, TileColor, TileError, TILE_CANVAS_HEIGHT, TILE_CANVAS_WIDTH};

verus! {

/// The state of a move under way: the field so far, whether the piece has
/// come to rest on something, and whether a write has left the field. Once
/// a write has failed the move stops, and the steps that remain change
/// nothing.
pub struct Sweep {
    pub grid: Grid,
    pub landed: bool,
    pub failed: bool,
}

/// A coordinate after a step, as sixteen-bit arithmetic that wraps around
/// gives it.
pub open spec fn wrap16(v: int) -> int {
    v % 0x10000
}

/// Whether a piece finds support at (`x`, `y`): a settled cell, or the
/// floor.
pub open spec fn rests(g: Grid, x: int, y: int) -> bool {
    match seen(g, x, y) {
        Some(t) => !t.1,
        None => false,
    }
}

/// Whether a cell of the falling piece, met as `tile`, has support beside
/// it, met as `o_tile`.
pub open spec fn presses(tile: Option<Tile>, o_tile: Option<Tile>) -> bool {
    &&& tile matches Some(t)
    &&& t.0 != TileColor::Empty
    &&& o_tile matches Some(o)
    &&& o.0 == TileColor::Empty
}

/// The row that the sideways check reads for row `y`: rows wrap before the
/// floor row.
pub open spec fn probe_row(y: int) -> int {
    y % (TILE_CANVAS_HEIGHT - 1)
}

/// Whether the cell in row `i` and column `j` of the box of `p` is part of
/// the piece and has support right beside it, on the right for `side` 1 and
/// on the left for `side` -1.
pub open spec fn pressed_at(g: Grid, p: TetrisPiece, i: int, j: int, side: int) -> bool {
    presses(
        seen(g, p.x + j, probe_row(p.y + i)),
        seen(g, p.x + j + side, probe_row(p.y + i)),
    )
}

/// Whether the falling piece, stepping sideways in the direction of `dx`,
/// would run into support: some cell in the three columns of its box that
/// lead the step has support right beside it in that direction.
pub open spec fn side_blocked(g: Grid, p: TetrisPiece, dx: int) -> bool {
    if dx > 0 {
        exists|i: int, j: int| 0 <= i < 4 && 1 <= j < 4 && #[trigger] pressed_at(g, p, i, j, 1)
    } else if dx < 0 {
        exists|i: int, j: int| 0 <= i < 4 && 0 <= j < 3 && #[trigger] pressed_at(g, p, i, j, -1)
    } else {
        false
    }
}

/// Whether a step by (`dx`, `dy`) is taken at all: it must keep the piece
/// between the side walls and must not run sideways into support.
pub open spec fn step_allowed(g: Grid, p: TetrisPiece, dx: int) -> bool {
    &&& !(dx > 0 && p.x + (4 - p.buf.1) > TILE_CANVAS_WIDTH - 3)
    &&& !(dx < 0 && p.x + p.buf.0 < 3)
    &&& !side_blocked(g, p, dx)
}

/// The column of the box that a sweep visits as its `k`-th: the columns
/// that lead the step come first.
pub open spec fn sweep_col(k: int, dx: int) -> int {
    if dx < 0 {
        k
    } else {
        3 - k
    }
}

/// One step of a sweep, at cell (`x`, `y`) of the field. An active coloured
/// cell there is part of the piece: it is cleared and drawn again one step
/// on, and the piece has landed if there is support under its new place.
/// Any other cell is left alone.
pub open spec fn shift_cell(s: Sweep, x: int, y: int, dx: int, dy: int) -> Sweep {
    if s.failed {
        s
    } else {
        match seen(s.grid, x, y) {
            Some(t) => if t.1 {
                let landed = s.landed || rests(s.grid, wrap16(x + dx), wrap16(y + 1 + dy));
                let cleared = placed(s.grid, x, y, TileColor::Empty);
                if y >= TILE_CANVAS_HEIGHT {
                    Sweep { grid: s.grid, landed, failed: true }
                } else if wrap16(y + dy) >= TILE_CANVAS_HEIGHT {
                    Sweep { grid: cleared, landed, failed: true }
                } else {
                    Sweep {
                        grid: placed(cleared, wrap16(x + dx), wrap16(y + dy), t.0),
                        landed,
                        failed: false,
                    }
                }
            } else {
                s
            },
            None => s,
        }
    }
}

/// The sweep after the lowest `n` cells of column `x` of the field, from
/// row `py + 3` upwards, have had their step.
pub open spec fn column_swept(s: Sweep, x: int, py: int, dx: int, dy: int, n: int) -> Sweep
    decreases n,
{
    if n <= 0 {
        s
    } else {
        shift_cell(column_swept(s, x, py, dx, dy, n - 1), x, py + 4 - n, dx, dy)
    }
}

/// The sweep after the first `n` columns of the box at (`px`, `py`) have
/// been swept.
pub open spec fn swept(s: Sweep, px: int, py: int, dx: int, dy: int, n: int) -> Sweep
    decreases n,
{
    if n <= 0 {
        s
    } else {
        column_swept(swept(s, px, py, dx, dy, n - 1), px + sweep_col(n - 1, dx), py, dx, dy, 4)
    }
}

/// The state and the answer after a request to step by (`dx`, `dy`).
///
/// A step that is not allowed changes nothing and answers `Ok(false)`.
/// Otherwise the four columns of the box are swept; then the box moves
/// with them, and the answer is whether the piece has landed. A write off
/// the field stops the sweep where it is and is the answer.
pub open spec fn stepped(v: Play, dx: int, dy: int) -> (Play, Result<bool, TileError>) {
    if step_allowed(v.grid, v.piece, dx) {
        let s = swept(
            Sweep { grid: v.grid, landed: false, failed: false },
            v.piece.x as int,
            v.piece.y as int,
            dx,
            dy,
            4,
        );
        if s.failed {
            (Play { grid: s.grid, ..v }, Err(TileError::OutOfBounds))
        } else {
            (
                Play {
                    grid: s.grid,
                    piece: TetrisPiece {
                        x: wrap16(v.piece.x + dx) as u16,
                        y: wrap16(v.piece.y + dy) as u16,
                        ..v.piece
                    },
                    score: v.score,
                },
                Ok(s.landed),
            )
        }
    } else {
        (v, Ok(false))
    }
}

/// Once a sweep has failed, the cells that remain in a column change
/// nothing.
pub proof fn lemma_column_swept_failed(s: Sweep, x: int, py: int, dx: int, dy: int, m: int, n: int)
    requires
        0 <= m <= n,
        column_swept(s, x, py, dx, dy, m).failed,
    ensures
        column_swept(s, x, py, dx, dy, n) == column_swept(s, x, py, dx, dy, m),
    decreases n,
{
    if n > m {
        lemma_column_swept_failed(s, x, py, dx, dy, m, n - 1);
    }
}

/// Once a sweep has failed, the columns that remain change nothing.
pub proof fn lemma_swept_failed(s: Sweep, px: int, py: int, dx: int, dy: int, m: int, n: int)
    requires
        0 <= m <= n,
        swept(s, px, py, dx, dy, m).failed,
    ensures
        swept(s, px, py, dx, dy, n) == swept(s, px, py, dx, dy, m),
    decreases n,
{
    if n > m {
        lemma_swept_failed(s, px, py, dx, dy, m, n - 1);
        lemma_column_swept_failed(
            swept(s, px, py, dx, dy, n - 1),
            px + sweep_col(n - 1, dx),
            py,
            dx,
            dy,
            0,
            4,
        );
    }
}

/// Whether the falling piece may turn where it stands: its box must start
/// right of the left wall, and its right margin must leave it room before
/// the right wall, one column more for the long piece.
pub open spec fn turn_allowed(p: TetrisPiece) -> bool {
    &&& p.x >= 2
    &&& p.x + p.buf.1 + (if p.piece == PieceEnum::I { 1int } else { 0int }) < TILE_CANVAS_WIDTH - 2
}

/// Whether a piece meets nothing at any of the cells `offsets` of the box
/// at (`x`, `y`).
pub open spec fn cells_free(g: Grid, x: int, y: int, offsets: Seq<(u8, u8)>) -> bool {
    forall|k: int|
        0 <= k < offsets.len() ==> seen(g, x + (#[trigger] offsets[k]).1, y + offsets[k].0) is None
}

/// One cell of a turn vacated: a guarded write of `Empty` at (`x`, `y`).
pub open spec fn erase_cell(s: Sweep, x: int, y: int) -> Sweep {
    if s.failed {
        s
    } else if y >= TILE_CANVAS_HEIGHT {
        Sweep { failed: true, ..s }
    } else {
        Sweep { grid: placed(s.grid, x, y, TileColor::Empty), ..s }
    }
}

/// One cell of a turn filled: a guarded write of `color` at (`x`, `y`),
/// after which the piece has landed if there is support under that cell.
pub open spec fn draw_cell(s: Sweep, x: int, y: int, color: TileColor) -> Sweep {
    if s.failed {
        s
    } else if y >= TILE_CANVAS_HEIGHT {
        Sweep { failed: true, ..s }
    } else {
        let grid = placed(s.grid, x, y, color);
        Sweep { grid, landed: s.landed || rests(grid, x, y + 1), failed: false }
    }
}

/// The turn after the first `n` of the cells `offsets` of the box at
/// (`x`, `y`) are vacated.
pub open spec fn erased(s: Sweep, x: int, y: int, offsets: Seq<(u8, u8)>, n: int) -> Sweep
    decreases n,
{
    if n <= 0 {
        s
    } else {
        erase_cell(erased(s, x, y, offsets, n - 1), x + offsets[n - 1].1, y + offsets[n - 1].0)
    }
}

/// The turn after the first `n` of the cells `offsets` of the box at
/// (`x`, `y`) are filled with `color`.
pub open spec fn drawn(
    s: Sweep,
    x: int,
    y: int,
    offsets: Seq<(u8, u8)>,
    color: TileColor,
    n: int,
) -> Sweep
    decreases n,
{
    if n <= 0 {
        s
    } else {
        draw_cell(
            drawn(s, x, y, offsets, color, n - 1),
            x + offsets[n - 1].1,
            y + offsets[n - 1].0,
            color,
        )
    }
}

/// The orientation after a quarter turn out of `state`.
pub open spec fn next_state(state: u8) -> u8 {
    ((state + 1) % 4) as u8
}

/// The state and the answer after a request to turn the falling piece,
/// which is drawn in `color`.
///
/// Where the piece may not turn, or meets something at a cell that the
/// turn would fill, nothing changes and the answer is `Ok(false)`.
/// Otherwise the cells that the turn vacates are cleared, the cells that
/// it fills are drawn, the piece takes its next orientation with the
/// margins of that one, and the answer tells whether it has landed. A
/// write off the field stops the turn half way and is the answer.
pub open spec fn turned(v: Play, color: TileColor) -> (Play, Result<bool, TileError>) {
    let p = v.piece;
    let erase = p.piece.erase_offsets(p.state);
    let draw = p.piece.draw_offsets(p.state);
    if turn_allowed(p) && cells_free(v.grid, p.x as int, p.y as int, draw) {
        let vacated = erased(
            Sweep { grid: v.grid, landed: false, failed: false },
            p.x as int,
            p.y as int,
            erase,
            erase.len() as int,
        );
        let s = drawn(vacated, p.x as int, p.y as int, draw, color, draw.len() as int);
        if s.failed {
            (Play { grid: s.grid, ..v }, Err(TileError::OutOfBounds))
        } else {
            (
                Play {
                    grid: s.grid,
                    piece: TetrisPiece {
                        state: next_state(p.state),
                        buf: p.piece.margins(next_state(p.state)),
                        ..p
                    },
                    score: v.score,
                },
                Ok(s.landed),
            )
        }
    } else {
        (v, Ok(false))
    }
}

/// Once a turn has failed, the cells that remain to vacate change nothing.
pub proof fn lemma_erased_failed(s: Sweep, x: int, y: int, offsets: Seq<(u8, u8)>, m: int, n: int)
    requires
        0 <= m <= n,
        erased(s, x, y, offsets, m).failed,
    ensures
        erased(s, x, y, offsets, n) == erased(s, x, y, offsets, m),
    decreases n,
{
    if n > m {
        lemma_erased_failed(s, x, y, offsets, m, n - 1);
    }
}

/// Once a turn has failed, the cells that remain to fill change nothing.
pub proof fn lemma_drawn_failed(
    s: Sweep,
    x: int,
    y: int,
    offsets: Seq<(u8, u8)>,
    color: TileColor,
    m: int,
    n: int,
)
    requires
        0 <= m <= n,
        drawn(s, x, y, offsets, color, m).failed,
    ensures
        drawn(s, x, y, offsets, color, n) == drawn(s, x, y, offsets, color, m),
    decreases n,
{
    if n > m {
        lemma_drawn_failed(s, x, y, offsets, color, m, n - 1);
    }
}

/// The state and the answer after a piece of `kind` from `catalog` is made
/// the falling piece with its box at (`x`, `y`): it stands in its first
/// orientation and its shape is drawn, row by row. The answer is the box's
/// corner, or a failure where the shape reaches below the field.
pub open spec fn spawned(v: Play, catalog: Pieces, x: u16, y: u16, kind: PieceEnum) -> (
    Play,
    Result<(u16, u16), TileError>,
) {
    let entry = catalog.of(kind);
    (
        Play {
            grid: rows_drawn(v.grid, x as int, y as int, entry.rows(), entry.1, entry.rows().len() as int),
            piece: TetrisPiece::fresh(x, y, kind),
            score: v.score,
        },
        if leaves_field(y as int, entry.rows()) {
            Err(TileError::OutOfBounds)
        } else {
            Ok((x, y))
        },
    )
}

} // verus!
