//! What holds of every game: statements about the rules, each proved from
//! their definitions.

use vstd::prelude::*;
use crate::canvas::{grid_wf, seen, tile_at, Grid};
use crate::piece::{PieceEnum, Pieces};
use crate::rules::{
    next_state, pressed_at, probe_row, side_blocked, spawned, step_allowed, stepped, turn_allowed,
    turned, wrap16,
};
use crate::tetris::{Play, TetrisPiece};
use crate::tile::{TileColor, TileError, TILE_CANVAS_HEIGHT, TILE_CANVAS_WIDTH};

verus! {

/// A piece carries the margins of its kind in its orientation.
pub open spec fn margins_fit(p: TetrisPiece) -> bool {
    p.buf == p.piece.margins(p.state)
}

/// The columns that a piece fills lie between the side walls: the first
/// column after its left margin is right of the left wall, and the last
/// column before its right margin is left of the right wall.
pub open spec fn between_walls(p: TetrisPiece) -> bool {
    &&& 2 <= p.x + p.buf.0
    &&& p.x + 4 - p.buf.1 <= TILE_CANVAS_WIDTH - 2
}

/// A step never takes a piece out from between the side walls, whatever
/// the field holds and whether or not the step is taken; a step sideways
/// that would take it out is not taken and changes nothing.
pub proof fn lemma_step_stays_between_walls(v: Play, dx: int, dy: int)
    requires
        -1 <= dx <= 1,
        -1 <= dy <= 1,
        margins_fit(v.piece),
        between_walls(v.piece),
    ensures
        margins_fit(stepped(v, dx, dy).0.piece),
        between_walls(stepped(v, dx, dy).0.piece),
        !between_walls(TetrisPiece { x: wrap16(v.piece.x + dx) as u16, ..v.piece }) ==> stepped(
            v,
            dx,
            dy,
        ) == (v, Ok::<bool, TileError>(false)),
{
}

/// The piece as it is after a quarter turn: in its next orientation, with
/// the margins of that one.
pub open spec fn turned_piece(p: TetrisPiece) -> TetrisPiece {
    TetrisPiece { state: next_state(p.state), buf: p.piece.margins(next_state(p.state)), ..p }
}

/// A quarter turn never takes a piece out from between the side walls,
/// whatever the field holds and whether or not the turn is made, and the
/// piece carries the margins of its new orientation; a turn that would
/// take it out is not made and changes nothing.
pub proof fn lemma_turn_stays_between_walls(v: Play, color: TileColor)
    requires
        margins_fit(v.piece),
        between_walls(v.piece),
    ensures
        margins_fit(turned(v, color).0.piece),
        between_walls(turned(v, color).0.piece),
        turned(v, color).0.piece.x == v.piece.x,
        turned(v, color).0.piece.y == v.piece.y,
        turned(v, color).0.piece.piece == v.piece.piece,
        !between_walls(turned_piece(v.piece)) ==> turned(v, color) == (
            v,
            Ok::<bool, TileError>(false),
        ),
{
}

/// A turn that is refused leaves the state as it is and answers that
/// nothing has landed; so does a step that is refused.
pub proof fn lemma_refused_changes_nothing(v: Play, color: TileColor, dx: int, dy: int)
    ensures
        !turn_allowed(v.piece) ==> turned(v, color) == (v, Ok::<bool, TileError>(false)),
        !step_allowed(v.grid, v.piece, dx) ==> stepped(v, dx, dy) == (
            v,
            Ok::<bool, TileError>(false),
        ),
{
}

/// A new piece of any kind, with its box in a column from the third to the
/// fifteenth, stands between the side walls.
pub proof fn lemma_fresh_between_walls(x: u16, y: u16, kind: PieceEnum)
    requires
        2 <= x < TILE_CANVAS_WIDTH - 5,
    ensures
        margins_fit(TetrisPiece::fresh(x, y, kind)),
        between_walls(TetrisPiece::fresh(x, y, kind)),
{
}

/// Only a settled cell stops a step sideways: where a cell of the piece's
/// box is found pressed against its neighbour, that neighbour has settled
/// and shows a colour of a piece. An active cell, free or filled, never
/// stops the step.
pub proof fn lemma_only_settled_cells_block(g: Grid, p: TetrisPiece, i: int, j: int, side: int)
    requires
        pressed_at(g, p, i, j, side),
    ensures
        !tile_at(g, p.x + j + side, probe_row(p.y + i)).1,
        tile_at(g, p.x + j + side, probe_row(p.y + i)).0 != TileColor::Empty,
        tile_at(g, p.x + j + side, probe_row(p.y + i)).0 != TileColor::Gray,
{
}

/// On a field without settled cells no step sideways is stopped by what
/// the field holds.
pub proof fn lemma_active_field_never_blocks(g: Grid, p: TetrisPiece, dx: int)
    requires
        grid_wf(g),
        forall|x: int, y: int|
            0 <= x < TILE_CANVAS_WIDTH && 0 <= y < TILE_CANVAS_HEIGHT ==> (#[trigger] g[x][y]).1,
    ensures
        !side_blocked(g, p, dx),
{
    assert forall|i: int, j: int, side: int| !#[trigger] pressed_at(g, p, i, j, side) by {
        if pressed_at(g, p, i, j, side) {
            lemma_only_settled_cells_block(g, p, i, j, side);
            let x = (p.x + j + side) % 20;
            let y = probe_row(p.y + i) % 20;
            assert(g[x][y].1);
        }
    }
}

/// A free cell never stops a turn, active or settled, and neither does
/// wall above the floor row: a piece meets nothing there.
pub proof fn lemma_free_cells_never_block_turn(g: Grid, x: int, y: int)
    requires
        tile_at(g, x, y).0 == TileColor::Empty || (tile_at(g, x, y).0 == TileColor::Gray && y
            < TILE_CANVAS_HEIGHT - 1),
    ensures
        seen(g, x, y) is None,
{
}

/// Steps, turns and new pieces leave the score as it
/// is; only clearing rows changes it.
pub proof fn lemma_moves_keep_score(
    v: Play,
    catalog: Pieces,
    color: TileColor,
    dx: int,
    dy: int,
    x: u16,
    y: u16,
    kind: PieceEnum,
)
    ensures
        stepped(v, dx, dy).0.score == v.score,
        turned(v, color).0.score == v.score,
        spawned(v, catalog, x, y, kind).0.score == v.score,
{
}

/// A piece is valid: its orientation is one of the four, it carries the
/// margins of that orientation, and it stands between the side walls.
pub open spec fn valid_piece(p: TetrisPiece) -> bool {
    p.state < 4 && margins_fit(p) && between_walls(p)
}

/// A valid piece stays valid through every step and
/// every turn, granted or refused, whatever the field holds; and a new
/// piece with its box in a column from the third to the fifteenth is
/// valid.
pub proof fn lemma_piece_stays_valid(
    v: Play,
    catalog: Pieces,
    color: TileColor,
    dx: int,
    dy: int,
    x: u16,
    y: u16,
    kind: PieceEnum,
)
    requires
        -1 <= dx <= 1,
        -1 <= dy <= 1,
    ensures
        valid_piece(v.piece) ==> valid_piece(stepped(v, dx, dy).0.piece),
        valid_piece(v.piece) ==> valid_piece(turned(v, color).0.piece),
        2 <= x < TILE_CANVAS_WIDTH - 5 ==> valid_piece(spawned(v, catalog, x, y, kind).0.piece),
{
    if valid_piece(v.piece) {
        lemma_step_stays_between_walls(v, dx, dy);
        lemma_turn_stays_between_walls(v, color);
    }
    if 2 <= x < TILE_CANVAS_WIDTH - 5 {
        lemma_fresh_between_walls(x, y, kind);
    }
}

} // verus!
