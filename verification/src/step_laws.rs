//! What a step does to a piece that is free to take it: the piece moves as
//! a whole, and lands where it finds support under its new place.

use vstd::prelude::*;
use crate::canvas::{grid_wf, placed, seen, Grid};
use crate::rules::{pressed_at, probe_row, side_blocked};
use crate::shapes::{lemma_cells_within_margins, lemma_margins_tight};
use crate::turn_laws::stands_in_the_open;
use crate::rules::{
    column_swept, rests, shift_cell, step_allowed, stepped, sweep_col, swept, wrap16, Sweep,
};
use crate::tetris::{Play, TetrisPiece};
use crate::tile::{Tile, TileColor, TileError, TILE_CANVAS_HEIGHT, TILE_CANVAS_WIDTH};

verus! {

/// Whether the cell (`cx`, `cy`) of the field is one that the piece `p`
/// fills after `turns` quarter turns.
pub open spec fn is_body(p: TetrisPiece, turns: nat, cx: int, cy: int) -> bool {
    &&& p.x <= cx < p.x + 4
    &&& p.y <= cy < p.y + 4
    &&& p.piece.fills(turns, cy - p.y, cx - p.x)
}

/// Whether what a piece meets is an active coloured cell: a cell that a
/// sweep takes for part of the falling piece.
pub open spec fn live(found: Option<Tile>) -> bool {
    match found {
        Some(t) => t.1,
        None => false,
    }
}

/// Whether the cell of the field under the new place of the cell
/// (`cx`, `cy`) of the piece gives support.
pub open spec fn supported(g: Grid, p: TetrisPiece, turns: nat, dx: int, dy: int, cx: int, cy: int) -> bool {
    is_body(p, turns, cx, cy) && rests(g, cx + dx, cy + 1 + dy)
}

/// A piece is free to step by (`dx`, `dy`), sideways or down: the step is
/// allowed; the cells that the piece fills show its colour, a colour of a
/// piece, and are active; they and the cells that they step to lie on the
/// field, left of the last column but one; every cell that the piece steps
/// onto and does not fill itself is free and active; and no other cell of
/// its box is an active coloured cell.
pub open spec fn free_to_step(v: Play, color: TileColor, turns: nat, dx: int, dy: int) -> bool {
    let p = v.piece;
    &&& grid_wf(v.grid)
    &&& color != TileColor::Empty
    &&& color != TileColor::Gray
    &&& -1 <= dx <= 1
    &&& -1 <= dy <= 1
    &&& dx != 0 || dy == 1
    &&& 0 <= p.x + dx < TILE_CANVAS_WIDTH
    &&& 0 <= p.y + dy < TILE_CANVAS_HEIGHT
    &&& step_allowed(v.grid, p, dx)
    &&& forall|cx: int, cy: int| #[trigger]
        is_body(p, turns, cx, cy) ==> {
            &&& v.grid[cx][cy] == Tile(color, true)
            &&& cx < TILE_CANVAS_WIDTH - 2
            &&& cy < TILE_CANVAS_HEIGHT
            &&& 0 <= cx + dx < TILE_CANVAS_WIDTH - 2
            &&& 0 <= cy + dy < TILE_CANVAS_HEIGHT
            &&& !is_body(p, turns, cx + dx, cy + dy) ==> v.grid[cx + dx][cy + dy] == Tile(
                TileColor::Empty,
                true,
            )
        }
    &&& forall|i: int, j: int|
        0 <= i < 4 && 0 <= j < 4 && !#[trigger] p.piece.fills(turns, j, i) ==> !live(
            seen(v.grid, p.x + i, p.y + j),
        )
}

/// The place of column `i` of the box in the order of a sweep.
pub open spec fn col_rank(i: int, dx: int) -> int {
    if dx < 0 {
        i
    } else {
        3 - i
    }
}

/// Whether the cell (`cx`, `cy`) of the field lies in the box of `p` and has
/// had its step once a sweep has done `a` columns and the lowest `b` cells
/// of the next.
pub open spec fn swept_over(p: TetrisPiece, dx: int, a: int, b: int, cx: int, cy: int) -> bool {
    &&& p.x <= cx < p.x + 4
    &&& p.y <= cy < p.y + 4
    &&& col_rank(cx - p.x, dx) < a || (col_rank(cx - p.x, dx) == a && 3 - (cy - p.y) < b)
}

/// The cell (`cx`, `cy`) of the field once a sweep has done `a` columns and
/// the lowest `b` cells of the next: the colour of the piece where a cell
/// of the piece has stepped to, free where one has stepped away, and as it
/// was before otherwise.
pub open spec fn cell_in_step(
    v: Play,
    color: TileColor,
    turns: nat,
    dx: int,
    dy: int,
    a: int,
    b: int,
    cx: int,
    cy: int,
) -> Tile {
    let p = v.piece;
    if is_body(p, turns, cx - dx, cy - dy) && swept_over(p, dx, a, b, cx - dx, cy - dy) {
        Tile(color, true)
    } else if is_body(p, turns, cx, cy) && swept_over(p, dx, a, b, cx, cy) {
        Tile(TileColor::Empty, true)
    } else {
        v.grid[cx][cy]
    }
}

/// A sweep in progress is as the step of a free piece makes it: it has not
/// failed, every cell of the field is as `cell_in_step` says, and the piece
/// has landed if one of its cells that have had their step has support
/// under its new place.
pub open spec fn sweep_as_expected(
    s: Sweep,
    v: Play,
    color: TileColor,
    turns: nat,
    dx: int,
    dy: int,
    a: int,
    b: int,
) -> bool {
    &&& !s.failed
    &&& grid_wf(s.grid)
    &&& forall|cx: int, cy: int|
        0 <= cx < TILE_CANVAS_WIDTH && 0 <= cy < TILE_CANVAS_HEIGHT ==> #[trigger] s.grid[cx][cy]
            == cell_in_step(v, color, turns, dx, dy, a, b, cx, cy)
    &&& s.landed == support_found(v, turns, dx, dy, a, b)
}

/// The order of a sweep: the cell that has its step next has not had it
/// yet, and neither has the cell that would step onto it; after the step it
/// is the one cell more that has had it.
proof fn lemma_sweep_order(p: TetrisPiece, dx: int, dy: int, a: int, b: int, cx: int, cy: int)
    requires
        -1 <= dx <= 1,
        -1 <= dy <= 1,
        dx != 0 || dy == 1,
        0 <= a < 4,
        0 <= b < 4,
        cx == p.x + sweep_col(a, dx),
        cy == p.y + 3 - b,
    ensures
        !swept_over(p, dx, a, b, cx, cy),
        !swept_over(p, dx, a, b, cx - dx, cy - dy),
        !swept_over(p, dx, a, b + 1, cx - dx, cy - dy),
        forall|ox: int, oy: int|
            swept_over(p, dx, a, b + 1, ox, oy) <==> swept_over(p, dx, a, b, ox, oy) || (ox == cx
                && oy == cy),
{
}

/// A sweep that has done all four cells of a column has done the column.
proof fn lemma_column_done(p: TetrisPiece, dx: int, a: int, cx: int, cy: int)
    ensures
        swept_over(p, dx, a, 4, cx, cy) == swept_over(p, dx, a + 1, 0, cx, cy),
{
}

/// The step of a free piece changes no support: at every place the field
/// gives support during the sweep just where it did before.
proof fn lemma_support_kept(
    s: Sweep,
    v: Play,
    color: TileColor,
    turns: nat,
    dx: int,
    dy: int,
    a: int,
    b: int,
    tx: int,
    ty: int,
)
    requires
        free_to_step(v, color, turns, dx, dy),
        sweep_as_expected(s, v, color, turns, dx, dy, a, b),
        0 <= tx,
        0 <= ty,
    ensures
        rests(s.grid, tx, ty) == rests(v.grid, tx, ty),
{
    let wx = tx % 20;
    let wy = ty % 20;
    let p = v.piece;
    assert(s.grid[wx][wy] == cell_in_step(v, color, turns, dx, dy, a, b, wx, wy));
    if is_body(p, turns, wx - dx, wy - dy) {
    }
    if is_body(p, turns, wx, wy) {
    }
}

/// The cell that has its step next is still as it was when the step began,
/// seen from the sweep.
proof fn lemma_next_cell_untouched(
    s: Sweep,
    v: Play,
    color: TileColor,
    turns: nat,
    dx: int,
    dy: int,
    a: int,
    b: int,
)
    requires
        free_to_step(v, color, turns, dx, dy),
        sweep_as_expected(s, v, color, turns, dx, dy, a, b),
        0 <= a < 4,
        0 <= b < 4,
    ensures
        live(seen(s.grid, v.piece.x + sweep_col(a, dx), v.piece.y + 3 - b)) == v.piece.piece.fills(
            turns,
            3 - b,
            sweep_col(a, dx),
        ),
        v.piece.piece.fills(turns, 3 - b, sweep_col(a, dx)) ==> seen(
            s.grid,
            v.piece.x + sweep_col(a, dx),
            v.piece.y + 3 - b,
        ) == Some(Tile(color, true)),
{
    let p = v.piece;
    let i = sweep_col(a, dx);
    let j = 3 - b;
    let cx = p.x + i;
    let cy = p.y + j;
    let wx = cx % 20;
    let wy = cy % 20;
    lemma_sweep_order(p, dx, dy, a, b, cx, cy);
    assert(s.grid[wx][wy] == cell_in_step(v, color, turns, dx, dy, a, b, wx, wy));
    if p.piece.fills(turns, j, i) {
        assert(is_body(p, turns, cx, cy));
        assert(wx == cx && wy == cy);
    } else {
        assert(!live(seen(v.grid, cx, cy)));
        if is_body(p, turns, wx - dx, wy - dy) && swept_over(p, dx, a, b, wx - dx, wy - dy) {
            assert(wx - dx < 18 && wy - dy < 20);
            if wx != cx || wy != cy {
                assert(false);
            }
        }
        if is_body(p, turns, wx, wy) && swept_over(p, dx, a, b, wx, wy) {
        }
    }
}

/// The step of an active coloured cell that stays on the field: the cell
/// is cleared and drawn one step on, and the piece has landed if it had
/// before or there is support under the cell's new place.
proof fn lemma_shift_cell_moves(s: Sweep, cx: int, cy: int, dx: int, dy: int, t: Tile)
    requires
        !s.failed,
        seen(s.grid, cx, cy) == Some(t),
        t.1,
        0 <= cx < TILE_CANVAS_WIDTH,
        0 <= cy < TILE_CANVAS_HEIGHT,
        0 <= cx + dx < TILE_CANVAS_WIDTH,
        0 <= cy + dy < TILE_CANVAS_HEIGHT,
    ensures
        shift_cell(s, cx, cy, dx, dy) == (Sweep {
            grid: placed(placed(s.grid, cx, cy, TileColor::Empty), cx + dx, cy + dy, t.0),
            landed: s.landed || rests(s.grid, cx + dx, cy + 1 + dy),
            failed: false,
        }),
{
    assert(wrap16(cx + dx) == cx + dx);
    assert(wrap16(cy + dy) == cy + dy);
    assert(wrap16(cy + 1 + dy) == cy + 1 + dy);
}

/// The step of a cell of the piece: the sweep goes on, the cell is cleared
/// and drawn one step on, and the piece has landed if it had before or
/// finds support under the cell's new place.
proof fn lemma_body_step(
    s: Sweep,
    v: Play,
    color: TileColor,
    turns: nat,
    dx: int,
    dy: int,
    a: int,
    b: int,
)
    requires
        free_to_step(v, color, turns, dx, dy),
        sweep_as_expected(s, v, color, turns, dx, dy, a, b),
        0 <= a < 4,
        0 <= b < 4,
        v.piece.piece.fills(turns, 3 - b, sweep_col(a, dx)),
    ensures
        shift_cell(s, v.piece.x + sweep_col(a, dx), v.piece.y + 3 - b, dx, dy) == (Sweep {
            grid: placed(
                placed(
                    s.grid,
                    v.piece.x + sweep_col(a, dx),
                    v.piece.y + 3 - b,
                    TileColor::Empty,
                ),
                v.piece.x + sweep_col(a, dx) + dx,
                v.piece.y + 3 - b + dy,
                color,
            ),
            landed: s.landed || rests(
                v.grid,
                v.piece.x + sweep_col(a, dx) + dx,
                v.piece.y + 3 - b + 1 + dy,
            ),
            failed: false,
        }),
        s.grid[v.piece.x + sweep_col(a, dx)][v.piece.y + 3 - b].1,
        s.grid[v.piece.x + sweep_col(a, dx) + dx][v.piece.y + 3 - b + dy].1,
        is_body(v.piece, turns, v.piece.x + sweep_col(a, dx), v.piece.y + 3 - b),
{
    let p = v.piece;
    let cx = p.x + sweep_col(a, dx);
    let cy = p.y + 3 - b;
    assert(is_body(p, turns, cx, cy));
    assert(0 <= cx < TILE_CANVAS_WIDTH - 2 && 0 <= cy < TILE_CANVAS_HEIGHT && 0 <= cx + dx
        < TILE_CANVAS_WIDTH - 2 && 0 <= cy + dy < TILE_CANVAS_HEIGHT);
    assert(seen(s.grid, cx, cy) == Some(Tile(color, true))) by {
        lemma_next_cell_untouched(s, v, color, turns, dx, dy, a, b);
    }
    assert(rests(s.grid, cx + dx, cy + 1 + dy) == rests(v.grid, cx + dx, cy + 1 + dy)) by {
        lemma_support_kept(s, v, color, turns, dx, dy, a, b, cx + dx, cy + 1 + dy);
    }
    assert(!s.failed);
    lemma_shift_cell_moves(s, cx, cy, dx, dy, Tile(color, true));
    assert(s.grid[cx][cy].1 && s.grid[cx + dx][cy + dy].1) by {
        lemma_sweep_order(p, dx, dy, a, b, cx, cy);
        assert(s.grid[cx][cy] == cell_in_step(v, color, turns, dx, dy, a, b, cx, cy));
        assert(s.grid[cx + dx][cy + dy] == cell_in_step(
            v,
            color,
            turns,
            dx,
            dy,
            a,
            b,
            cx + dx,
            cy + dy,
        ));
    }
}

/// The field after the step of a cell of the piece is as expected.
proof fn lemma_body_step_cell(
    s: Sweep,
    v: Play,
    color: TileColor,
    turns: nat,
    dx: int,
    dy: int,
    a: int,
    b: int,
    ox: int,
    oy: int,
)
    requires
        free_to_step(v, color, turns, dx, dy),
        sweep_as_expected(s, v, color, turns, dx, dy, a, b),
        0 <= a < 4,
        0 <= b < 4,
        v.piece.piece.fills(turns, 3 - b, sweep_col(a, dx)),
        0 <= ox < TILE_CANVAS_WIDTH,
        0 <= oy < TILE_CANVAS_HEIGHT,
    ensures
        shift_cell(s, v.piece.x + sweep_col(a, dx), v.piece.y + 3 - b, dx, dy).grid[ox][oy]
            == cell_in_step(v, color, turns, dx, dy, a, b + 1, ox, oy),
        grid_wf(shift_cell(s, v.piece.x + sweep_col(a, dx), v.piece.y + 3 - b, dx, dy).grid),
{
    let p = v.piece;
    let cx = p.x + sweep_col(a, dx);
    let cy = p.y + 3 - b;
    lemma_body_step(s, v, color, turns, dx, dy, a, b);
    lemma_sweep_order(p, dx, dy, a, b, cx, cy);
    assert(s.grid[ox][oy] == cell_in_step(v, color, turns, dx, dy, a, b, ox, oy));
    assert(cx < TILE_CANVAS_WIDTH - 2 && cy < TILE_CANVAS_HEIGHT);
    assert(0 <= cx + dx < TILE_CANVAS_WIDTH - 2 && 0 <= cy + dy < TILE_CANVAS_HEIGHT);
}

/// Whether some cell of the piece that has had its step finds support
/// under its new place.
pub open spec fn support_found(
    v: Play,
    turns: nat,
    dx: int,
    dy: int,
    a: int,
    b: int,
) -> bool {
    exists|cx: int, cy: int|
        swept_over(v.piece, dx, a, b, cx, cy) && #[trigger] supported(
            v.grid,
            v.piece,
            turns,
            dx,
            dy,
            cx,
            cy,
        )
}

/// Support is found after one more cell just where it was found before or
/// is found at that cell.
proof fn lemma_support_found_next(v: Play, turns: nat, dx: int, dy: int, a: int, b: int)
    requires
        -1 <= dx <= 1,
        -1 <= dy <= 1,
        dx != 0 || dy == 1,
        0 <= a < 4,
        0 <= b < 4,
    ensures
        support_found(v, turns, dx, dy, a, b + 1) <==> support_found(v, turns, dx, dy, a, b)
            || supported(
            v.grid,
            v.piece,
            turns,
            dx,
            dy,
            v.piece.x + sweep_col(a, dx),
            v.piece.y + 3 - b,
        ),
{
    let p = v.piece;
    let cx = p.x + sweep_col(a, dx);
    let cy = p.y + 3 - b;
    lemma_sweep_order(p, dx, dy, a, b, cx, cy);
    if support_found(v, turns, dx, dy, a, b) {
        let (ox, oy) = choose|ox: int, oy: int|
            swept_over(p, dx, a, b, ox, oy) && #[trigger] supported(v.grid, p, turns, dx, dy, ox, oy);
        assert(swept_over(p, dx, a, b + 1, ox, oy));
    }
    if supported(v.grid, p, turns, dx, dy, cx, cy) {
        assert(swept_over(p, dx, a, b + 1, cx, cy));
    }
    if support_found(v, turns, dx, dy, a, b + 1) {
        let (ox, oy) = choose|ox: int, oy: int|
            swept_over(p, dx, a, b + 1, ox, oy) && #[trigger] supported(
                v.grid,
                p,
                turns,
                dx,
                dy,
                ox,
                oy,
            );
        if !(ox == cx && oy == cy) {
            assert(swept_over(p, dx, a, b, ox, oy));
        }
    }
}

/// One step of the sweep of a free piece keeps the sweep as expected.
proof fn lemma_step_cell(
    s: Sweep,
    v: Play,
    color: TileColor,
    turns: nat,
    dx: int,
    dy: int,
    a: int,
    b: int,
)
    requires
        free_to_step(v, color, turns, dx, dy),
        sweep_as_expected(s, v, color, turns, dx, dy, a, b),
        0 <= a < 4,
        0 <= b < 4,
    ensures
        sweep_as_expected(
            shift_cell(s, v.piece.x + sweep_col(a, dx), v.piece.y + 3 - b, dx, dy),
            v,
            color,
            turns,
            dx,
            dy,
            a,
            b + 1,
        ),
{
    let p = v.piece;
    let cx = p.x + sweep_col(a, dx);
    let cy = p.y + 3 - b;
    let next = shift_cell(s, cx, cy, dx, dy);
    lemma_support_found_next(v, turns, dx, dy, a, b);
    assert(s.landed == support_found(v, turns, dx, dy, a, b));
    if p.piece.fills(turns, 3 - b, sweep_col(a, dx)) {
        lemma_body_step(s, v, color, turns, dx, dy, a, b);
        lemma_body_step_cell(s, v, color, turns, dx, dy, a, b, 0, 0);
        assert forall|ox: int, oy: int|
            0 <= ox < TILE_CANVAS_WIDTH && 0 <= oy < TILE_CANVAS_HEIGHT implies #[trigger] next.grid[ox][oy]
            == cell_in_step(v, color, turns, dx, dy, a, b + 1, ox, oy) by {
            lemma_body_step_cell(s, v, color, turns, dx, dy, a, b, ox, oy);
        }
        assert(next.landed == support_found(v, turns, dx, dy, a, b + 1));
    } else {
        lemma_next_cell_untouched(s, v, color, turns, dx, dy, a, b);
        assert(next == s);
        lemma_sweep_order(p, dx, dy, a, b, cx, cy);
        assert forall|ox: int, oy: int|
            0 <= ox < TILE_CANVAS_WIDTH && 0 <= oy < TILE_CANVAS_HEIGHT implies #[trigger] next.grid[ox][oy]
            == cell_in_step(v, color, turns, dx, dy, a, b + 1, ox, oy) by {
            assert(s.grid[ox][oy] == cell_in_step(v, color, turns, dx, dy, a, b, ox, oy));
        }
        assert(next.landed == support_found(v, turns, dx, dy, a, b + 1));
    }
    assert(next.landed == support_found(v, turns, dx, dy, a, b + 1));
}

/// The sweep of a column of a free piece keeps the sweep as expected.
proof fn lemma_column_swept_expected(
    s: Sweep,
    v: Play,
    color: TileColor,
    turns: nat,
    dx: int,
    dy: int,
    a: int,
    b: int,
)
    requires
        free_to_step(v, color, turns, dx, dy),
        sweep_as_expected(s, v, color, turns, dx, dy, a, 0),
        0 <= a < 4,
        0 <= b <= 4,
    ensures
        sweep_as_expected(
            column_swept(s, v.piece.x + sweep_col(a, dx), v.piece.y as int, dx, dy, b),
            v,
            color,
            turns,
            dx,
            dy,
            a,
            b,
        ),
    decreases b,
{
    if b > 0 {
        lemma_column_swept_expected(s, v, color, turns, dx, dy, a, b - 1);
        let before = column_swept(s, v.piece.x + sweep_col(a, dx), v.piece.y as int, dx, dy, b - 1);
        lemma_step_cell(before, v, color, turns, dx, dy, a, b - 1);
    }
}

/// The sweep of the first `a` columns of a free piece is as expected.
proof fn lemma_swept_expected(v: Play, color: TileColor, turns: nat, dx: int, dy: int, a: int)
    requires
        free_to_step(v, color, turns, dx, dy),
        0 <= a <= 4,
    ensures
        sweep_as_expected(
            swept(
                Sweep { grid: v.grid, landed: false, failed: false },
                v.piece.x as int,
                v.piece.y as int,
                dx,
                dy,
                a,
            ),
            v,
            color,
            turns,
            dx,
            dy,
            a,
            0,
        ),
    decreases a,
{
    let start = Sweep { grid: v.grid, landed: false, failed: false };
    if a > 0 {
        lemma_swept_expected(v, color, turns, dx, dy, a - 1);
        let before = swept(start, v.piece.x as int, v.piece.y as int, dx, dy, a - 1);
        lemma_column_swept_expected(before, v, color, turns, dx, dy, a - 1, 4);
        let after = swept(start, v.piece.x as int, v.piece.y as int, dx, dy, a);
        assert(sweep_as_expected(after, v, color, turns, dx, dy, a - 1, 4));
        assert forall|cx: int, cy: int|
            0 <= cx < TILE_CANVAS_WIDTH && 0 <= cy < TILE_CANVAS_HEIGHT implies #[trigger] after.grid[cx][cy]
            == cell_in_step(v, color, turns, dx, dy, a, 0, cx, cy) by {
            assert(after.grid[cx][cy] == cell_in_step(v, color, turns, dx, dy, a - 1, 4, cx, cy));
            lemma_column_done(v.piece, dx, a - 1, cx, cy);
            lemma_column_done(v.piece, dx, a - 1, cx - dx, cy - dy);
        }
        assert(support_found(v, turns, dx, dy, a, 0) == support_found(v, turns, dx, dy, a - 1, 4)) by {
            if support_found(v, turns, dx, dy, a, 0) {
                let (ox, oy) = choose|ox: int, oy: int|
                    swept_over(v.piece, dx, a, 0, ox, oy) && #[trigger] supported(
                        v.grid,
                        v.piece,
                        turns,
                        dx,
                        dy,
                        ox,
                        oy,
                    );
                lemma_column_done(v.piece, dx, a - 1, ox, oy);
            }
            if support_found(v, turns, dx, dy, a - 1, 4) {
                let (ox, oy) = choose|ox: int, oy: int|
                    swept_over(v.piece, dx, a - 1, 4, ox, oy) && #[trigger] supported(
                        v.grid,
                        v.piece,
                        turns,
                        dx,
                        dy,
                        ox,
                        oy,
                    );
                lemma_column_done(v.piece, dx, a - 1, ox, oy);
            }
        }
    } else {
        assert(!support_found(v, turns, dx, dy, 0, 0));
    }
}

/// Whether the piece finds support under its new place after a step by
/// (`dx`, `dy`): whether the cell of the field under the new place of one
/// of its cells is settled, or is floor.
pub open spec fn lands_after(v: Play, turns: nat, dx: int, dy: int) -> bool {
    exists|cx: int, cy: int| #[trigger] supported(v.grid, v.piece, turns, dx, dy, cx, cy)
}

/// The cell (`cx`, `cy`) of the field after the piece has stepped by
/// (`dx`, `dy`) as a whole: the colour of the piece where one of its cells
/// has come, free where one has gone and none has come, and as before
/// otherwise.
pub open spec fn cell_after_step(
    v: Play,
    color: TileColor,
    turns: nat,
    dx: int,
    dy: int,
    cx: int,
    cy: int,
) -> Tile {
    if is_body(v.piece, turns, cx - dx, cy - dy) {
        Tile(color, true)
    } else if is_body(v.piece, turns, cx, cy) {
        Tile(TileColor::Empty, true)
    } else {
        v.grid[cx][cy]
    }
}

/// A piece that is free to step, sideways or down, steps as a whole: the
/// request does not fail, every cell of the piece moves by the step and
/// nothing else changes, the box moves with the piece, and the answer says
/// whether the piece has landed, that is whether it finds support under
/// its new place.
pub proof fn lemma_free_step(v: Play, color: TileColor, turns: nat, dx: int, dy: int)
    requires
        free_to_step(v, color, turns, dx, dy),
    ensures
        stepped(v, dx, dy).1 == Ok::<bool, TileError>(lands_after(v, turns, dx, dy)),
        stepped(v, dx, dy).0.piece == (TetrisPiece {
            x: (v.piece.x + dx) as u16,
            y: (v.piece.y + dy) as u16,
            ..v.piece
        }),
        stepped(v, dx, dy).0.score == v.score,
        grid_wf(stepped(v, dx, dy).0.grid),
        forall|cx: int, cy: int|
            0 <= cx < TILE_CANVAS_WIDTH && 0 <= cy < TILE_CANVAS_HEIGHT ==> #[trigger] stepped(
                v,
                dx,
                dy,
            ).0.grid[cx][cy] == cell_after_step(v, color, turns, dx, dy, cx, cy),
{
    let start = Sweep { grid: v.grid, landed: false, failed: false };
    let s = swept(start, v.piece.x as int, v.piece.y as int, dx, dy, 4);
    lemma_swept_expected(v, color, turns, dx, dy, 4);
    assert(wrap16(v.piece.x + dx) == v.piece.x + dx);
    assert(wrap16(v.piece.y + dy) == v.piece.y + dy);
    assert forall|cx: int, cy: int|
        0 <= cx < TILE_CANVAS_WIDTH && 0 <= cy < TILE_CANVAS_HEIGHT implies #[trigger] s.grid[cx][cy]
        == cell_after_step(v, color, turns, dx, dy, cx, cy) by {
        assert(s.grid[cx][cy] == cell_in_step(v, color, turns, dx, dy, 4, 0, cx, cy));
    }
    assert(support_found(v, turns, dx, dy, 4, 0) == lands_after(v, turns, dx, dy)) by {
        if lands_after(v, turns, dx, dy) {
            let (ox, oy) = choose|ox: int, oy: int| #[trigger]
                supported(v.grid, v.piece, turns, dx, dy, ox, oy);
            assert(swept_over(v.piece, dx, 4, 0, ox, oy));
        }
    }
}

/// A piece has room to step by (`dx`, `dy`): every cell outside its box
/// that one of its cells steps onto lies between the side walls and on the
/// field, and is free and active.
pub open spec fn room_to_step(v: Play, turns: nat, dx: int, dy: int) -> bool {
    let p = v.piece;
    forall|cx: int, cy: int| #[trigger]
        is_body(p, turns, cx, cy) && !(p.x <= cx + dx < p.x + 4 && p.y <= cy + dy < p.y + 4) ==> 2
            <= cx + dx < TILE_CANVAS_WIDTH - 2 && cy + dy < TILE_CANVAS_HEIGHT && v.grid[cx + dx][cy
            + dy] == Tile(TileColor::Empty, true)
}

/// Nothing presses against a piece that stands in the open and has room to
/// step sideways.
proof fn lemma_open_piece_not_pressed(
    v: Play,
    color: TileColor,
    turns: nat,
    dx: int,
    i: int,
    j: int,
)
    requires
        stands_in_the_open(v, color, turns),
        color != TileColor::Empty,
        color != TileColor::Gray,
        dx == 1 || dx == -1,
        room_to_step(v, turns, dx, 0),
        0 <= i < 4,
        0 <= j < 4,
    ensures
        !pressed_at(v.grid, v.piece, i, j, dx),
{
    let p = v.piece;
    let cx = p.x + j;
    let cy = p.y + i;
    assert(probe_row(cy) == cy) by {
        assert(TILE_CANVAS_HEIGHT - 1 == 19);
        assert(cy % 19 == cy);
    }
    assert(v.grid[cx][cy] == (if p.piece.fills(turns, i, j) {
        Tile(color, true)
    } else {
        Tile(TileColor::Empty, true)
    }));
    if p.piece.fills(turns, i, j) {
        assert(is_body(p, turns, cx, cy));
        if p.x <= cx + dx < p.x + 4 {
            assert(v.grid[cx + dx][cy].1);
        } else {
            assert(v.grid[cx + dx][cy] == Tile(TileColor::Empty, true));
        }
    }
}

/// A piece that stands in the open and has room to step sideways or down
/// is free to take that step.
pub proof fn lemma_open_piece_is_free(v: Play, color: TileColor, turns: nat, dx: int, dy: int)
    requires
        stands_in_the_open(v, color, turns),
        color != TileColor::Empty,
        color != TileColor::Gray,
        (dx == 0 && dy == 1) || ((dx == 1 || dx == -1) && dy == 0),
        room_to_step(v, turns, dx, dy),
    ensures
        free_to_step(v, color, turns, dx, dy),
{
    let p = v.piece;
    let kind = p.piece;
    lemma_margins_tight(kind, turns);
    let left = kind.margins(p.state).0 as int;
    let right = 3 - kind.margins(p.state).1;
    assert(!(dx > 0 && p.x + (4 - p.buf.1) > TILE_CANVAS_WIDTH - 3)) by {
        if dx > 0 {
            let r = if kind.fills(turns, 0, right) {
                0int
            } else if kind.fills(turns, 1, right) {
                1int
            } else if kind.fills(turns, 2, right) {
                2int
            } else {
                3int
            };
            assert(kind.fills(turns, r, right));
            lemma_cells_within_margins(kind, turns, r, right);
            assert(is_body(p, turns, p.x + right, p.y + r));
        }
    }
    assert(!(dx < 0 && p.x + p.buf.0 < 3)) by {
        if dx < 0 {
            let r = if kind.fills(turns, 0, left) {
                0int
            } else if kind.fills(turns, 1, left) {
                1int
            } else if kind.fills(turns, 2, left) {
                2int
            } else {
                3int
            };
            assert(kind.fills(turns, r, left));
            lemma_cells_within_margins(kind, turns, r, left);
            assert(is_body(p, turns, p.x + left, p.y + r));
        }
    }
    assert(!side_blocked(v.grid, p, dx)) by {
        if dx != 0 {
            assert forall|i: int, j: int| 0 <= i < 4 && 0 <= j < 4 implies !#[trigger] pressed_at(
                v.grid,
                p,
                i,
                j,
                dx,
            ) by {
                lemma_open_piece_not_pressed(v, color, turns, dx, i, j);
            }
        }
    }
    assert forall|cx: int, cy: int| #[trigger] is_body(p, turns, cx, cy) implies {
        &&& v.grid[cx][cy] == Tile(color, true)
        &&& cx < TILE_CANVAS_WIDTH - 2
        &&& cy < TILE_CANVAS_HEIGHT
        &&& 0 <= cx + dx < TILE_CANVAS_WIDTH - 2
        &&& 0 <= cy + dy < TILE_CANVAS_HEIGHT
        &&& !is_body(p, turns, cx + dx, cy + dy) ==> v.grid[cx + dx][cy + dy] == Tile(
            TileColor::Empty,
            true,
        )
    } by {
        assert(v.grid[cx][cy] == Tile(color, true));
        if p.x <= cx + dx < p.x + 4 && p.y <= cy + dy < p.y + 4 {
            assert(v.grid[cx + dx][cy + dy] == (if kind.fills(
                turns,
                cy + dy - p.y,
                cx + dx - p.x,
            ) {
                Tile(color, true)
            } else {
                Tile(TileColor::Empty, true)
            }));
        }
    }
    assert forall|i: int, j: int|
        0 <= i < 4 && 0 <= j < 4 && !#[trigger] kind.fills(turns, j, i) implies !live(
        seen(v.grid, p.x + i, p.y + j),
    ) by {
        assert(v.grid[p.x + i][p.y + j] == Tile(TileColor::Empty, true));
    }
}

/// The walls stay as they are: a step of a piece that stands in the open
/// and has room for it changes no cell in or outside the side walls.
pub proof fn lemma_open_step_spares_walls(
    v: Play,
    color: TileColor,
    turns: nat,
    dx: int,
    dy: int,
    cx: int,
    cy: int,
)
    requires
        stands_in_the_open(v, color, turns),
        color != TileColor::Empty,
        color != TileColor::Gray,
        (dx == 0 && dy == 1) || ((dx == 1 || dx == -1) && dy == 0),
        room_to_step(v, turns, dx, dy),
        0 <= cx < 2 || TILE_CANVAS_WIDTH - 2 <= cx < TILE_CANVAS_WIDTH,
        0 <= cy < TILE_CANVAS_HEIGHT,
    ensures
        stepped(v, dx, dy).0.grid[cx][cy] == v.grid[cx][cy],
{
    lemma_open_piece_is_free(v, color, turns, dx, dy);
    lemma_free_step(v, color, turns, dx, dy);
    assert(stepped(v, dx, dy).0.grid[cx][cy] == cell_after_step(v, color, turns, dx, dy, cx, cy));
    if is_body(v.piece, turns, cx - dx, cy - dy) {
        assert(!(v.piece.x <= cx < v.piece.x + 4));
    }
}

} // verus!
