//! What drawing a shape does to the field, and where a new piece of the
//! catalogue stands.

use vstd::prelude::*;
use crate::canvas::{
    floor_laid, grid_wf, leaves_field, placed, row_drawn, rows_drawn, walled, walls_raised,
    Grid,
};

use crate::piece::{PieceEnum, Pieces};
use crate::rules::spawned;
use crate::shapes::{lemma_cells_within_margins, names, state_after};
use crate::tetris::Play;
use crate::tile::{Tile, TileColor, TileError, TILE_CANVAS_HEIGHT, TILE_CANVAS_WIDTH};
use crate::turn_laws::stands_in_the_open;

verus! {

/// Whether one of the first `n` entries of the row `cols` is column `c`.
pub open spec fn names_upto(cols: Seq<u8>, n: int, c: int) -> bool {
    exists|k: int| 0 <= k < n && #[trigger] cols[k] == c
}

/// Drawing a row of a shape on the field, left of the last column but one,
/// changes just the cells named: each of them that is active takes the
/// colour.
pub proof fn lemma_row_drawn_cells(
    g: Grid,
    x: int,
    y: int,
    cols: Seq<u8>,
    color: TileColor,
    n: int,
    cx: int,
    cy: int,
)
    requires
        grid_wf(g),
        0 <= n <= cols.len(),
        0 <= x,
        0 <= y < TILE_CANVAS_HEIGHT,
        forall|k: int| 0 <= k < n ==> x + #[trigger] cols[k] < TILE_CANVAS_WIDTH - 2,
        0 <= cx < TILE_CANVAS_WIDTH,
        0 <= cy < TILE_CANVAS_HEIGHT,
    ensures
        grid_wf(row_drawn(g, x, y, cols, color, n)),
        row_drawn(g, x, y, cols, color, n)[cx][cy] == (if cy == y && names_upto(cols, n, cx - x)
            && g[cx][cy].1 {
            Tile(color, true)
        } else {
            g[cx][cy]
        }),
    decreases n,
{
    if n > 0 {
        lemma_row_drawn_cells(g, x, y, cols, color, n - 1, cx, cy);
        lemma_row_drawn_cells(g, x, y, cols, color, n - 1, x + cols[n - 1], y);
        let before = row_drawn(g, x, y, cols, color, n - 1);
        assert(row_drawn(g, x, y, cols, color, n) == placed(before, x + cols[n - 1], y, color));
        assert(names_upto(cols, n, cx - x) <==> names_upto(cols, n - 1, cx - x) || cols[n - 1] == cx
            - x);
    }
}

/// Drawing the first `n` rows of a shape whose cells lie on the field, left
/// of the last column but one, changes just the cells of the shape: each
/// of them that is active takes the colour.
pub proof fn lemma_rows_drawn_cells(
    g: Grid,
    x: int,
    y: int,
    rows: Seq<Seq<u8>>,
    color: TileColor,
    n: int,
    cx: int,
    cy: int,
)
    requires
        grid_wf(g),
        0 <= n <= rows.len(),
        0 <= x,
        0 <= y,
        y + n <= TILE_CANVAS_HEIGHT,
        forall|r: int, k: int|
            0 <= r < n && 0 <= k < rows[r].len() ==> x + #[trigger] rows[r][k] < TILE_CANVAS_WIDTH
                - 2,
        0 <= cx < TILE_CANVAS_WIDTH,
        0 <= cy < TILE_CANVAS_HEIGHT,
    ensures
        grid_wf(rows_drawn(g, x, y, rows, color, n)),
        rows_drawn(g, x, y, rows, color, n)[cx][cy] == (if y <= cy < y + n && names(
            rows[cy - y],
            cx - x,
        ) && g[cx][cy].1 {
            Tile(color, true)
        } else {
            g[cx][cy]
        }),
    decreases n,
{
    if n > 0 {
        lemma_rows_drawn_cells(g, x, y, rows, color, n - 1, cx, cy);
        let before = rows_drawn(g, x, y, rows, color, n - 1);
        let row = rows[n - 1];
        assert forall|k: int| 0 <= k < row.len() implies x + #[trigger] row[k] < TILE_CANVAS_WIDTH
            - 2 by {
            assert(x + rows[n - 1][k] < TILE_CANVAS_WIDTH - 2);
        }
        lemma_row_drawn_cells(before, x, y + n - 1, row, color, row.len() as int, cx, cy);
        assert(names_upto(row, row.len() as int, cx - x) == names(row, cx - x));
    }
}

/// The catalogue's shapes have three rows and name columns of the box only.
pub proof fn lemma_base_rows(kind: PieceEnum)
    ensures
        kind.base_rows().len() == 3,
        forall|r: int, k: int|
            0 <= r < 3 && 0 <= k < kind.base_rows()[r].len() ==> #[trigger] kind.base_rows()[r][k]
                < 4,
{
    assert forall|r: int, k: int| 0 <= r < 3 && 0 <= k < kind.base_rows()[r].len() implies
        #[trigger] kind.base_rows()[r][k] < 4 by {
        let c = kind.base_rows()[r][k] as int;
        assert(names(kind.base_rows()[r], c));
        assert(kind.fills(0, r, c));
        lemma_cells_within_margins(kind, 0, r, c);
    }
}

/// A new piece of the catalogue, drawn where its box is free and active,
/// between the side walls and above the floor row, stands in the open in
/// its first orientation; drawing it does not fail and changes nothing
/// outside its box.
pub proof fn lemma_spawn_in_the_open(v: Play, catalog: Pieces, x: u16, y: u16, kind: PieceEnum)
    requires
        grid_wf(v.grid),
        catalog.of(kind).is_base_of(kind),
        2 <= x <= TILE_CANVAS_WIDTH - 6,
        y + 4 <= TILE_CANVAS_HEIGHT - 1,
        forall|cx: int, cy: int|
            x <= cx < x + 4 && y <= cy < y + 4 ==> #[trigger] v.grid[cx][cy] == Tile(
                TileColor::Empty,
                true,
            ),
    ensures
        spawned(v, catalog, x, y, kind).1 == Ok::<(u16, u16), TileError>((x, y)),
        stands_in_the_open(spawned(v, catalog, x, y, kind).0, kind.color(), 0),
        forall|cx: int, cy: int|
            0 <= cx < TILE_CANVAS_WIDTH && 0 <= cy < TILE_CANVAS_HEIGHT && !(x <= cx < x + 4 && y
                <= cy < y + 4) ==> #[trigger] spawned(v, catalog, x, y, kind).0.grid[cx][cy]
                == v.grid[cx][cy],
{
    let rows = kind.base_rows();
    let color = kind.color();
    let after = spawned(v, catalog, x, y, kind).0;
    lemma_base_rows(kind);
    assert(after.grid == rows_drawn(v.grid, x as int, y as int, rows, color, 3));
    assert(!leaves_field(y as int, rows));
    lemma_rows_drawn_cells(v.grid, x as int, y as int, rows, color, 3, 0, 0);
    assert forall|cx: int, cy: int|
        0 <= cx < TILE_CANVAS_WIDTH && 0 <= cy < TILE_CANVAS_HEIGHT implies #[trigger] after.grid[cx][cy]
        == (if x <= cx < x + 4 && y <= cy < y + 4 {
        if kind.fills(0, cy - y, cx - x) {
            Tile(color, true)
        } else {
            Tile(TileColor::Empty, true)
        }
    } else {
        v.grid[cx][cy]
    }) by {
        lemma_rows_drawn_cells(v.grid, x as int, y as int, rows, color, 3, cx, cy);
        if y <= cy < y + 3 && names(rows[cy - y], cx - x) {
            assert(kind.fills(0, cy - y, cx - x));
            lemma_cells_within_margins(kind, 0, cy - y, cx - x);
        }
    }
    assert(state_after(0) == 0);
}

/// The colour of a cell after a guarded write of wall: wall where the cell
/// is active, and its own colour where it has settled.
pub open spec fn walled_color(t: Tile) -> TileColor {
    if t.1 {
        TileColor::Gray
    } else {
        t.0
    }
}

/// Laying the floor under the first `n` columns between the walls changes
/// just the bottom cells of these columns: each takes the wall's colour if
/// it is active, and settles.
pub proof fn lemma_floor_laid_cells(g: Grid, n: int, cx: int, cy: int)
    requires
        grid_wf(g),
        0 <= n <= TILE_CANVAS_WIDTH - 4,
        0 <= cx < TILE_CANVAS_WIDTH,
        0 <= cy < TILE_CANVAS_HEIGHT,
    ensures
        grid_wf(floor_laid(g, n)),
        floor_laid(g, n)[cx][cy] == (if cy == TILE_CANVAS_HEIGHT - 1 && 2 <= cx < 2 + n {
            Tile(walled_color(g[cx][cy]), false)
        } else {
            g[cx][cy]
        }),
    decreases n,
{
    if n > 0 {
        lemma_floor_laid_cells(g, n - 1, cx, cy);
        lemma_floor_laid_cells(g, n - 1, n + 1, TILE_CANVAS_HEIGHT - 1);
    }
}

/// Raising the side walls in the first `n` rows changes just the cells of
/// these rows in the second column and in the last but one: each takes the
/// wall's colour if it is active.
pub proof fn lemma_walls_raised_cells(g: Grid, n: int, cx: int, cy: int)
    requires
        grid_wf(g),
        0 <= n <= TILE_CANVAS_HEIGHT,
        0 <= cx < TILE_CANVAS_WIDTH,
        0 <= cy < TILE_CANVAS_HEIGHT,
    ensures
        grid_wf(walls_raised(g, n)),
        walls_raised(g, n)[cx][cy] == (if cy < n && (cx == 1 || cx == TILE_CANVAS_WIDTH - 2) {
            Tile(walled_color(g[cx][cy]), g[cx][cy].1)
        } else {
            g[cx][cy]
        }),
    decreases n,
{
    if n > 0 {
        lemma_walls_raised_cells(g, n - 1, cx, cy);
        lemma_walls_raised_cells(g, n - 1, 1, n - 1);
        lemma_walls_raised_cells(g, n - 1, TILE_CANVAS_WIDTH - 2, n - 1);
        let before = walls_raised(g, n - 1);
        let left = placed(before, 1, n - 1, TileColor::Gray);
        assert(walls_raised(g, n) == placed(left, TILE_CANVAS_WIDTH - 1, n - 1, TileColor::Gray));
    }
}

/// The field with its walls built: the second column and the last but one
/// are wall from top to bottom where they were active, the bottom row
/// between them is settled wall, and every other cell is as it was.
pub proof fn lemma_walled_cells(g: Grid, cx: int, cy: int)
    requires
        grid_wf(g),
        0 <= cx < TILE_CANVAS_WIDTH,
        0 <= cy < TILE_CANVAS_HEIGHT,
    ensures
        grid_wf(walled(g)),
        walled(g)[cx][cy] == (if cx == 1 || cx == TILE_CANVAS_WIDTH - 2 {
            Tile(walled_color(g[cx][cy]), g[cx][cy].1)
        } else if cy == TILE_CANVAS_HEIGHT - 1 && 2 <= cx < TILE_CANVAS_WIDTH - 2 {
            Tile(walled_color(g[cx][cy]), false)
        } else {
            g[cx][cy]
        }),
{
    let floored = floor_laid(g, TILE_CANVAS_WIDTH - 4);
    lemma_floor_laid_cells(g, TILE_CANVAS_WIDTH - 4, cx, cy);
    lemma_walls_raised_cells(floored, TILE_CANVAS_HEIGHT as int, cx, cy);
}

} // verus!
