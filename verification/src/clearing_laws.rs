//! What holds of clearing: where the cleared row goes, what drops into it,
//! and how the score follows.

use vstd::prelude::*;
use crate::canvas::{grid_wf, Grid};
use crate::clearing::{
    clear_step, cleared, column_dropped, disabled, drop_column, gap_above,
    lemma_rows_cleared_failed, occupied, row_dropped, row_full, rows_cleared, Tally,
};
use crate::rules::probe_row;
use crate::tetris::Play;
use crate::tile::{Tile, TILE_CANVAS_HEIGHT, TILE_CANVAS_WIDTH};

verus! {

/// The gap of a column lies at or above the row that the search starts
/// from, the column is not occupied there, and it is occupied in every row
/// between the gap and that row.
pub proof fn lemma_gap_above(g: Grid, n: int, m: int)
    requires
        0 <= m,
    ensures
        -1 <= gap_above(g, n, m) <= m,
        gap_above(g, n, m) >= 0 ==> !occupied(g, n, gap_above(g, n, m)),
        forall|k: int| gap_above(g, n, m) < k <= m ==> #[trigger] occupied(g, n, k),
    decreases m,
{
    if occupied(g, n, m) {
        if m > 0 {
            lemma_gap_above(g, n, m - 1);
        } else {
            assert(gap_above(g, n, -1) == -1);
        }
    }
}

/// Taking a row out of one column changes that column only, and in it no
/// colour below the row.
pub proof fn lemma_drop_column_frame(g: Grid, n: int, m: int)
    requires
        grid_wf(g),
        0 <= n < TILE_CANVAS_WIDTH,
        0 <= m < TILE_CANVAS_HEIGHT,
    ensures
        grid_wf(drop_column((g, false), n, m).0),
        forall|x: int|
            0 <= x < TILE_CANVAS_WIDTH && x != n ==> #[trigger] drop_column((g, false), n, m).0[x]
                == g[x],
        forall|k: int|
            m < k < TILE_CANVAS_HEIGHT ==> (#[trigger] drop_column((g, false), n, m).0[n][k]).0
                == g[n][k].0,
{
    lemma_gap_above(g, n, m);
}

/// The gap of a column depends on that column alone.
pub proof fn lemma_gap_same_column(g: Grid, h: Grid, n: int, m: int)
    requires
        0 <= n < TILE_CANVAS_WIDTH,
        m < TILE_CANVAS_HEIGHT,
        g[n] == h[n],
    ensures
        gap_above(g, n, m) == gap_above(h, n, m),
    decreases m + 1,
{
    if m >= 0 {
        lemma_gap_same_column(g, h, n, m - 1);
    }
}

/// Where a full row is taken out of a column with a gap above it, the
/// stack between the gap and the row drops by one: the cell right under
/// the gap becomes a free, active cell, every row from the second down to
/// the cleared one takes the colour of the row above it and stays occupied
/// where that row was, and no other flag changes.
pub proof fn lemma_column_dropped(g: Grid, n: int, m: int)
    requires
        grid_wf(g),
        2 <= n < TILE_CANVAS_WIDTH - 2,
        0 <= m < TILE_CANVAS_HEIGHT - 1,
        occupied(g, n, m),
        gap_above(g, n, m) >= 0,
    ensures
        0 <= gap_above(g, n, m) < m,
        column_dropped(g, n, m)[n][gap_above(g, n, m) + 1] == Tile(g[n][gap_above(g, n, m)].0, true),
        !occupied(column_dropped(g, n, m), n, gap_above(g, n, m) + 1),
        forall|k: int| 1 <= k <= m ==> (#[trigger] column_dropped(g, n, m)[n][k]).0 == g[n][k - 1].0,
        forall|k: int|
            gap_above(g, n, m) + 1 < k <= m ==> #[trigger] occupied(column_dropped(g, n, m), n, k),
        forall|k: int|
            0 <= k < TILE_CANVAS_HEIGHT && k != gap_above(g, n, m) + 1 ==> (#[trigger] column_dropped(
                g,
                n,
                m,
            )[n][k]).1 == g[n][k].1,
        forall|k: int|
            m < k < TILE_CANVAS_HEIGHT ==> #[trigger] column_dropped(g, n, m)[n][k] == g[n][k],
        column_dropped(g, n, m)[n][0].0 == g[n][0].0,
{
    lemma_gap_above(g, n, m);
    let top = gap_above(g, n, m);
    let d = column_dropped(g, n, m);
    assert forall|k: int| top + 1 < k <= m implies #[trigger] occupied(d, n, k) by {
        assert(occupied(g, n, k - 1));
    }
}

/// A clearing that has not failed has dropped each of its columns on its
/// own: a column that it has reached had a gap and is the column that
/// dropping it alone gives, and every other column is as it was.
pub proof fn lemma_row_dropped_column(g: Grid, m: int, cols: int, n: int)
    requires
        grid_wf(g),
        0 <= m < TILE_CANVAS_HEIGHT,
        0 <= cols <= TILE_CANVAS_WIDTH - 4,
        0 <= n < TILE_CANVAS_WIDTH,
        !row_dropped((g, false), m, cols).1,
    ensures
        grid_wf(row_dropped((g, false), m, cols).0),
        2 <= n < 2 + cols ==> gap_above(g, n, m) >= 0 && row_dropped((g, false), m, cols).0[n]
            == column_dropped(g, n, m)[n],
        !(2 <= n < 2 + cols) ==> row_dropped((g, false), m, cols).0[n] == g[n],
    decreases cols,
{
    if cols > 0 {
        let before = row_dropped((g, false), m, cols - 1);
        let last = cols + 1;
        lemma_row_dropped_column(g, m, cols - 1, n);
        lemma_row_dropped_column(g, m, cols - 1, last);
        lemma_gap_same_column(before.0, g, last, m);
        lemma_gap_above(g, last, m);
        lemma_drop_column_frame(before.0, last, m);
        assert(column_dropped(before.0, last, m)[last] =~= column_dropped(g, last, m)[last]);
    }
}

/// Where a full row above the floor is cleared and
/// the clearing does not fail, then in every column between the side
/// walls the stack that stood on the row's cell is one cell shorter: the
/// cell that was its top is free and active, all that lay above the row has
/// dropped by one row, the rest of the stack is still occupied, and
/// nothing below the row has changed.
pub proof fn lemma_full_row_cleared(g: Grid, m: int, n: int)
    requires
        grid_wf(g),
        0 <= m < TILE_CANVAS_HEIGHT - 1,
        row_full(g, m),
        2 <= n < TILE_CANVAS_WIDTH - 2,
        !row_dropped((g, false), m, TILE_CANVAS_WIDTH - 4).1,
    ensures
        0 <= gap_above(g, n, m) < m,
        forall|k: int| gap_above(g, n, m) < k <= m ==> #[trigger] occupied(g, n, k),
        row_dropped((g, false), m, TILE_CANVAS_WIDTH - 4).0[n][gap_above(g, n, m) + 1] == Tile(
            g[n][gap_above(g, n, m)].0,
            true,
        ),
        !occupied(row_dropped((g, false), m, TILE_CANVAS_WIDTH - 4).0, n, gap_above(g, n, m) + 1),
        forall|k: int|
            1 <= k <= m ==> (#[trigger] row_dropped((g, false), m, TILE_CANVAS_WIDTH - 4).0[n][k]).0
                == g[n][k - 1].0,
        forall|k: int|
            gap_above(g, n, m) + 1 < k <= m ==> #[trigger] occupied(
                row_dropped((g, false), m, TILE_CANVAS_WIDTH - 4).0,
                n,
                k,
            ),
        forall|k: int|
            0 <= k < TILE_CANVAS_HEIGHT && k != gap_above(g, n, m) + 1 ==> (#[trigger] row_dropped(
                (g, false),
                m,
                TILE_CANVAS_WIDTH - 4,
            ).0[n][k]).1 == g[n][k].1,
        forall|k: int|
            m < k < TILE_CANVAS_HEIGHT ==> #[trigger] row_dropped(
                (g, false),
                m,
                TILE_CANVAS_WIDTH - 4,
            ).0[n][k] == g[n][k],
        row_dropped((g, false), m, TILE_CANVAS_WIDTH - 4).0[n][0].0 == g[n][0].0,
{
    let d = row_dropped((g, false), m, TILE_CANVAS_WIDTH - 4).0;
    let alone = column_dropped(g, n, m);
    assert(occupied(g, n, m));
    lemma_row_dropped_column(g, m, TILE_CANVAS_WIDTH - 4, n);
    lemma_column_dropped(g, n, m);
    lemma_gap_above(g, n, m);
    assert(d[n] == alone[n]);
    assert forall|k: int| 0 <= k < TILE_CANVAS_HEIGHT implies occupied(d, n, k) == occupied(
        alone,
        n,
        k,
    ) by {
        assert(d[n][k] == alone[n][k]);
    }
}

/// Clearing a row leaves the side walls and all outside them as they were.
pub proof fn lemma_clearing_spares_walls(g: Grid, m: int, x: int)
    requires
        grid_wf(g),
        0 <= m < TILE_CANVAS_HEIGHT,
        0 <= x < 2 || TILE_CANVAS_WIDTH - 2 <= x < TILE_CANVAS_WIDTH,
        !row_dropped((g, false), m, TILE_CANVAS_WIDTH - 4).1,
    ensures
        row_dropped((g, false), m, TILE_CANVAS_WIDTH - 4).0[x] == g[x],
{
    lemma_row_dropped_column(g, m, TILE_CANVAS_WIDTH - 4, x);
}

/// Two fields show the same colours from row `from` down.
pub open spec fn same_colors_below(g: Grid, h: Grid, from: int) -> bool {
    forall|x: int, k: int|
        0 <= x < TILE_CANVAS_WIDTH && from <= k < TILE_CANVAS_HEIGHT ==> (#[trigger] g[x][k]).0
            == h[x][k].0
}

/// Whether a row is full depends on its colours alone.
pub proof fn lemma_row_full_by_colors(g: Grid, h: Grid, from: int, r: int)
    requires
        0 <= from <= r < TILE_CANVAS_HEIGHT,
        same_colors_below(g, h, from),
    ensures
        row_full(g, r) == row_full(h, r),
{
    assert forall|x: int| 2 <= x < TILE_CANVAS_WIDTH - 2 implies occupied(g, x, r) == occupied(
        h,
        x,
        r,
    ) by {
        assert(g[x][r].0 == h[x][r].0);
    }
    if row_full(g, r) {
        assert forall|x: int| 2 <= x < TILE_CANVAS_WIDTH - 2 implies #[trigger] occupied(h, x, r) by {
            assert(occupied(g, x, r));
        }
    }
    if row_full(h, r) {
        assert forall|x: int| 2 <= x < TILE_CANVAS_WIDTH - 2 implies #[trigger] occupied(g, x, r) by {
            assert(occupied(h, x, r));
        }
    }
}

/// The number of full rows among the `n` rows from row `y` down.
pub open spec fn full_rows(g: Grid, y: int, n: int) -> nat
    decreases n,
{
    if n <= 0 {
        0
    } else {
        full_rows(g, y, n - 1) + if row_full(g, y + n - 1) {
            1nat
        } else {
            0nat
        }
    }
}

/// Clearing the rows of a box that stands above the floor row counts each
/// row that was full when the clearing began, once, and changes no colour
/// below the rows that it has looked at.
pub proof fn lemma_rows_cleared_count(t: Tally, y: int, n: int)
    requires
        grid_wf(t.grid),
        !t.failed,
        0 <= y,
        0 <= n,
        y + n <= TILE_CANVAS_HEIGHT - 1,
        !rows_cleared(t, y, n).failed,
    ensures
        grid_wf(rows_cleared(t, y, n).grid),
        rows_cleared(t, y, n).score == t.score + full_rows(t.grid, y, n),
        same_colors_below(rows_cleared(t, y, n).grid, t.grid, y + n),
    decreases n,
{
    if n > 0 {
        let before = rows_cleared(t, y, n - 1);
        let row = y + n - 1;
        lemma_rows_cleared_count(t, y, n - 1);
        lemma_row_full_by_colors(before.grid, t.grid, row, row);
        assert(TILE_CANVAS_HEIGHT - 1 == 19);
        assert(row % 19 == row);
        assert(probe_row(row) == row);
        if row_full(before.grid, row) {
            let after = row_dropped((before.grid, false), row, TILE_CANVAS_WIDTH - 4);
            assert(rows_cleared(t, y, n).grid == after.0);
            assert forall|x: int, k: int|
                0 <= x < TILE_CANVAS_WIDTH && y + n <= k < TILE_CANVAS_HEIGHT implies (#[trigger] after.0[x][k]).0
                == t.grid[x][k].0 by {
                lemma_row_dropped_column(before.grid, row, TILE_CANVAS_WIDTH - 4, x);
                assert(before.grid[x][k].0 == t.grid[x][k].0);
                if 2 <= x < TILE_CANVAS_WIDTH - 2 {
                    lemma_drop_column_frame(before.grid, x, row);
                }
            }
            lemma_row_dropped_column(before.grid, row, TILE_CANVAS_WIDTH - 4, 0);
        }
    }
}

/// Clearing never lowers the score, whether or not it
/// fails.
pub proof fn lemma_clearing_never_lowers_score(t: Tally, y: int, n: int)
    ensures
        rows_cleared(t, y, n).score >= t.score,
    decreases n,
{
    if n > 0 {
        lemma_clearing_never_lowers_score(t, y, n - 1);
    }
}

/// Clearing a full row below the two top rows leaves the top row as full
/// or open as it was, and makes the second row as full or open as the top
/// row.
pub proof fn lemma_top_rows_after_clearing(g: Grid, m: int)
    requires
        grid_wf(g),
        2 <= m < TILE_CANVAS_HEIGHT - 1,
        row_full(g, m),
        !row_dropped((g, false), m, TILE_CANVAS_WIDTH - 4).1,
    ensures
        row_full(row_dropped((g, false), m, TILE_CANVAS_WIDTH - 4).0, 0) == row_full(g, 0),
        row_full(row_dropped((g, false), m, TILE_CANVAS_WIDTH - 4).0, 1) == row_full(g, 0),
{
    let d = row_dropped((g, false), m, TILE_CANVAS_WIDTH - 4).0;
    assert forall|x: int| 2 <= x < TILE_CANVAS_WIDTH - 2 implies occupied(d, x, 0) == occupied(
        g,
        x,
        0,
    ) && occupied(d, x, 1) == occupied(g, x, 0) by {
        lemma_full_row_cleared(g, m, x);
        assert(d[x][1].0 == g[x][0].0);
    }
    if row_full(g, 0) {
        assert forall|x: int| 2 <= x < TILE_CANVAS_WIDTH - 2 implies #[trigger] occupied(d, x, 0)
            && #[trigger] occupied(d, x, 1) by {
            assert(occupied(g, x, 0));
        }
    }
    if row_full(d, 0) {
        assert forall|x: int| 2 <= x < TILE_CANVAS_WIDTH - 2 implies #[trigger] occupied(g, x, 0) by {
            assert(occupied(d, x, 0));
        }
    }
    if row_full(d, 1) {
        assert forall|x: int| 2 <= x < TILE_CANVAS_WIDTH - 2 implies #[trigger] occupied(g, x, 0) by {
            assert(occupied(d, x, 1));
        }
    }
}

/// Clearing rows below the two top rows never fills a top row: where the
/// top row was open it stays open, and with it the second row where that
/// one was open too.
pub proof fn lemma_top_rows_stay_open(t: Tally, y: int, n: int)
    requires
        grid_wf(t.grid),
        !t.failed,
        2 <= y,
        0 <= n,
        y + n <= TILE_CANVAS_HEIGHT - 1,
        !rows_cleared(t, y, n).failed,
        !row_full(t.grid, 0),
    ensures
        !row_full(rows_cleared(t, y, n).grid, 0),
        !row_full(t.grid, 1) ==> !row_full(rows_cleared(t, y, n).grid, 1),
    decreases n,
{
    if n > 0 {
        let before = rows_cleared(t, y, n - 1);
        let row = y + n - 1;
        lemma_top_rows_stay_open(t, y, n - 1);
        lemma_rows_cleared_count(t, y, n - 1);
        assert(TILE_CANVAS_HEIGHT - 1 == 19);
        assert(row % 19 == row);
        assert(probe_row(row) == row);
        if row_full(before.grid, row) {
            lemma_top_rows_after_clearing(before.grid, row);
        }
    }
}

/// The rows of a box in row `y` that lie above the floor row.
pub open spec fn rows_above_floor(y: int) -> int {
    if y + 4 <= TILE_CANVAS_HEIGHT - 1 {
        4
    } else {
        TILE_CANVAS_HEIGHT - 1 - y
    }
}

/// Where the box of a piece reaches the floor row or below it, the rows of
/// the field that are looked at in place of the missing ones, the top row
/// and the second, are open.
pub open spec fn top_open(g: Grid, y: int) -> bool {
    &&& y + 4 > TILE_CANVAS_HEIGHT - 1 ==> !row_full(g, 0) && y >= 2
    &&& y + 4 > TILE_CANVAS_HEIGHT ==> !row_full(g, 1)
}

/// Laying a piece to rest never lowers the score; and
/// where its box begins above the last two rows, the top rows are open if
/// the box reaches the floor, and the clearing does not fail, the score
/// goes up by exactly the number of rows of the box above the floor row
/// that were full when the piece was laid to rest.
pub proof fn lemma_score_counts_full_rows(v: Play)
    ensures
        cleared(v).0.score >= v.score,
        disabled(v).0.score == cleared(v).0.score,
        grid_wf(v.grid) && v.piece.y + 2 <= TILE_CANVAS_HEIGHT - 1 && top_open(
            v.grid,
            v.piece.y as int,
        ) && cleared(v).1 is Ok ==> cleared(v).0.score == v.score + full_rows(
            v.grid,
            v.piece.y as int,
            rows_above_floor(v.piece.y as int),
        ),
{
    let t = Tally { grid: v.grid, score: v.score, failed: false };
    let y = v.piece.y as int;
    lemma_clearing_never_lowers_score(t, y, 4);
    if grid_wf(v.grid) && y + 2 <= TILE_CANVAS_HEIGHT - 1 && top_open(v.grid, y) && cleared(v).1 is Ok {
        let k = rows_above_floor(y);
        if rows_cleared(t, y, k).failed {
            lemma_rows_cleared_failed(t, y, k, 4);
        }
        lemma_rows_cleared_count(t, y, k);
        assert(TILE_CANVAS_HEIGHT - 1 == 19);
        if k < 4 {
            lemma_top_rows_stay_open(t, y, k);
            let reached = rows_cleared(t, y, k);
            assert(19int % 19 == 0 && 20int % 19 == 1);
            if k == 3 {
                assert(probe_row(y + 3) == 0);
                assert(rows_cleared(t, y, 4) == clear_step(reached, y + 3));
            } else {
                assert(k == 2);
                assert(probe_row(y + 2) == 0);
                assert(probe_row(y + 3) == 1);
                assert(rows_cleared(t, y, 3) == clear_step(reached, y + 2));
                assert(rows_cleared(t, y, 4) == clear_step(rows_cleared(t, y, 3), y + 3));
            }
        }
    }
}

} // verus!
