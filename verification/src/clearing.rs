//! Clearing full rows: what counts as a full row, and how the columns above
//! it drop into its place.

use vstd::prelude::*;
use crate::canvas::{grid_wf, seen, tile_at, with_flag, Grid, TileCanvas};
use crate::rules::probe_row;
use crate::tetris::Play;
use crate::tile::{
    Tile, TileError, FIELD_HEIGHT, FIELD_WIDTH, TILE_CANVAS_HEIGHT, TILE_CANVAS_WIDTH,
};

verus! {

/// Whether a piece meets something at (`x`, `y`).
pub open spec fn occupied(g: Grid, x: int, y: int) -> bool {
    seen(g, x, y) is Some
}

/// Whether every cell between the side walls is occupied in row `y`.
pub open spec fn row_full(g: Grid, y: int) -> bool {
    forall|x: int| 2 <= x < TILE_CANVAS_WIDTH - 2 ==> #[trigger] occupied(g, x, y)
}

/// The lowest row at or above row `m` in which column `n` is not occupied,
/// or -1 where the column is occupied all the way up.
pub open spec fn gap_above(g: Grid, n: int, m: int) -> int
    decreases m + 1,
{
    if m < 0 {
        -1
    } else if !occupied(g, n, m) {
        m
    } else {
        gap_above(g, n, m - 1)
    }
}

/// The grid with the colours of column `n` moved down by one row in the
/// rows below row `lo` down to row `hi`: each of these rows takes the colour
/// of the row above it and keeps its own flag.
pub open spec fn shifted_between(g: Grid, n: int, lo: int, hi: int) -> Grid {
    g.update(
        n,
        Seq::new(
            TILE_CANVAS_HEIGHT as nat,
            |k: int|
                if lo < k <= hi {
                    Tile(g[n][k - 1].0, g[n][k].1)
                } else {
                    g[n][k]
                },
        ),
    )
}

/// Column `n` after the row `m` is taken out of it, where the column has a
/// gap at or above that row: every row from the second to row `m` takes the
/// colour of the row above it, and the cell right under the gap, which has
/// become the free cell on top of the stack, is made active.
pub open spec fn column_dropped(g: Grid, n: int, m: int) -> Grid {
    with_flag(
        shifted_between(g, n, 0, m),
        n,
        (gap_above(g, n, m) + 1) % (TILE_CANVAS_HEIGHT as int),
        true,
    )
}

/// One column of a row being cleared. A clearing that has failed stays as
/// it is. A column without a gap has its colours moved down and then fails:
/// there is no row above the top one to take a colour from.
pub open spec fn drop_column(s: (Grid, bool), n: int, m: int) -> (Grid, bool) {
    if s.1 {
        s
    } else if gap_above(s.0, n, m) < 0 {
        (shifted_between(s.0, n, 0, m), true)
    } else {
        (column_dropped(s.0, n, m), false)
    }
}

/// The field, and whether the clearing has failed, after the first `cols`
/// columns between the walls have dropped into row `m`.
pub open spec fn row_dropped(s: (Grid, bool), m: int, cols: int) -> (Grid, bool)
    decreases cols,
{
    if cols <= 0 {
        s
    } else {
        drop_column(row_dropped(s, m, cols - 1), 2 + cols - 1, m)
    }
}

/// The field, and whether the clearing has failed, after row `m` is taken
/// out of every column between the side walls. Taking out a row that the
/// field does not have fails and changes nothing.
pub open spec fn row_compacted(g: Grid, m: int) -> (Grid, bool) {
    if m >= TILE_CANVAS_HEIGHT {
        (g, true)
    } else {
        row_dropped((g, false), m, TILE_CANVAS_WIDTH - 4)
    }
}

/// Once a clearing has failed, the columns that remain change nothing.
pub proof fn lemma_row_dropped_failed(s: (Grid, bool), m: int, k: int, cols: int)
    requires
        0 <= k <= cols,
        row_dropped(s, m, k).1,
    ensures
        row_dropped(s, m, cols) == row_dropped(s, m, k),
    decreases cols,
{
    if cols > k {
        lemma_row_dropped_failed(s, m, k, cols - 1);
    }
}

/// Takes row `m` out of column `n`, which lies between the side walls: the
/// colours of the column move down by one row from the top to row `m`, and
/// the cell right under the column's gap becomes active. Fails where the
/// column has no gap at or above row `m`; its colours have moved down all
/// the same.
fn drop_column_at(canvas: &mut TileCanvas, n: u32, m: u32) -> (done: Result<(), TileError>)
    requires
        n < TILE_CANVAS_WIDTH,
        m < TILE_CANVAS_HEIGHT,
    ensures
        (final(canvas)@, done is Err) == drop_column((old(canvas)@, false), n as int, m as int),
        done is Err ==> done == Err::<(), TileError>(TileError::OutOfBounds),
{
    let ghost g = canvas@;
    proof {
        canvas.lemma_view_wf();
        assert(g =~~= shifted_between(g, n as int, m as int, m as int));
    }
    let mut row: u32 = m;
    while canvas.look(n, row).is_some()
        invariant
            n < TILE_CANVAS_WIDTH,
            row <= m < TILE_CANVAS_HEIGHT,
            g == old(canvas)@,
            grid_wf(g),
            canvas@ == shifted_between(g, n as int, row as int, m as int),
            gap_above(g, n as int, m as int) == gap_above(g, n as int, row as int),
        decreases row,
    {
        if row == 0 {
            assert(gap_above(g, n as int, -1) == -1);
            return Err(TileError::OutOfBounds);
        }
        let above = canvas.look_through(n, row - 1).0;
        let _ = canvas.paint(n, row, above);
        assert(canvas@ =~~= shifted_between(g, n as int, row - 1, m as int));
        row -= 1;
    }
    let ghost top = row as int;
    canvas.mark(n, row + 1, true);
    let mut k: u32 = row;
    while k >= 1
        invariant
            n < TILE_CANVAS_WIDTH,
            k <= top <= m < TILE_CANVAS_HEIGHT,
            g == old(canvas)@,
            grid_wf(g),
            top == gap_above(g, n as int, m as int),
            canvas@ == with_flag(
                shifted_between(g, n as int, k as int, m as int),
                n as int,
                (top + 1) % 20,
                true,
            ),
        decreases k,
    {
        let above = canvas.look_through(n, k - 1).0;
        let _ = canvas.paint(n, k, above);
        assert(canvas@ =~~= with_flag(
            shifted_between(g, n as int, k - 1, m as int),
            n as int,
            (top + 1) % 20,
            true,
        ));
        k -= 1;
    }
    Ok(())
}

/// Takes row `m` out of every column between the side walls, from the left.
/// Fails at the first column that has no gap at or above row `m`; the
/// columns right of it are left as they were. Fails, changing nothing,
/// where the field has no row `m`.
pub fn compact_row(canvas: &mut TileCanvas, m: u32) -> (done: Result<(), TileError>)
    ensures
        (final(canvas)@, done is Err) == row_compacted(old(canvas)@, m as int),
        done is Err ==> done == Err::<(), TileError>(TileError::OutOfBounds),
{
    if m >= FIELD_HEIGHT {
        return Err(TileError::OutOfBounds);
    }
    let ghost start = (canvas@, false);
    let mut n: u32 = 2;
    while n < FIELD_WIDTH - 2
        invariant
            2 <= n <= FIELD_WIDTH - 2,
            m < TILE_CANVAS_HEIGHT,
            start == (old(canvas)@, false),
            (canvas@, false) == row_dropped(start, m as int, n - 2),
        decreases FIELD_WIDTH - 2 - n,
    {
        let done = drop_column_at(canvas, n, m);
        if let Err(e) = done {
            proof {
                lemma_row_dropped_failed(start, m as int, n - 1, TILE_CANVAS_WIDTH - 4);
            }
            return Err(e);
        }
        n += 1;
    }
    Ok(())
}

/// The state of a clearing under way: the field and the score so far, and
/// whether a write has left the field. Once it has failed, the rows that
/// remain change nothing.
pub struct Tally {
    pub grid: Grid,
    pub score: nat,
    pub failed: bool,
}

/// One row of the box looked at. The row of the field that is tested for
/// being full wraps before the floor row. A full row is taken out of every
/// column between the walls, and the score goes up by one once all of them
/// have dropped. The clearing fails where the row lies below the field, and
/// where a column has no gap to drop from.
pub open spec fn clear_step(t: Tally, row: int) -> Tally {
    if t.failed || !row_full(t.grid, probe_row(row)) {
        t
    } else {
        let dropped = row_compacted(t.grid, row);
        Tally {
            grid: dropped.0,
            score: if dropped.1 {
                t.score
            } else {
                t.score + 1
            },
            failed: dropped.1,
        }
    }
}

/// The clearing after the first `n` rows of the box that stands in row `y`
/// are looked at, top row first.
pub open spec fn rows_cleared(t: Tally, y: int, n: int) -> Tally
    decreases n,
{
    if n <= 0 {
        t
    } else {
        clear_step(rows_cleared(t, y, n - 1), y + n - 1)
    }
}

/// The state and the answer after the four rows of the falling piece's box
/// are cleared where they are full.
pub open spec fn cleared(v: Play) -> (Play, Result<(), TileError>) {
    let t = rows_cleared(Tally { grid: v.grid, score: v.score, failed: false }, v.piece.y as int, 4);
    (
        Play { grid: t.grid, piece: v.piece, score: t.score },
        if t.failed {
            Err(TileError::OutOfBounds)
        } else {
            Ok(())
        },
    )
}

/// Once a clearing has failed, the rows that remain change nothing.
pub proof fn lemma_rows_cleared_failed(t: Tally, y: int, k: int, n: int)
    requires
        0 <= k <= n,
        rows_cleared(t, y, k).failed,
    ensures
        rows_cleared(t, y, n) == rows_cleared(t, y, k),
    decreases n,
{
    if n > k {
        lemma_rows_cleared_failed(t, y, k, n - 1);
    }
}

/// Whether cell (`x`, `y`) of the field settles when the piece whose box
/// stands at (`px`, `py`) is laid to rest: it lies in the five columns and
/// five rows from the box's corner on, wrapped onto the field, and a piece
/// meets something there. Only the first `a` columns of the five, and the
/// first `b` rows of the next, are counted.
pub open spec fn settles(g: Grid, px: int, py: int, x: int, y: int, a: int, b: int) -> bool {
    let i = (x - px) % (TILE_CANVAS_WIDTH as int);
    let j = (y - py) % (TILE_CANVAS_HEIGHT as int);
    &&& i < 5
    &&& j < 5
    &&& i < a || (i == a && j < b)
    &&& occupied(g, px + i, py + j)
}

/// The field with the cells that settle made settled; see `settles`.
pub open spec fn settled_upto(g: Grid, px: int, py: int, a: int, b: int) -> Grid {
    Seq::new(
        TILE_CANVAS_WIDTH as nat,
        |x: int|
            Seq::new(
                TILE_CANVAS_HEIGHT as nat,
                |y: int|
                    if settles(g, px, py, x, y, a, b) {
                        Tile(g[x][y].0, false)
                    } else {
                        g[x][y]
                    },
            ),
    )
}

/// The field after the piece whose box stands at (`px`, `py`) is laid to
/// rest: every cell in the five columns and five rows from the box's corner
/// on at which a piece meets something is settled.
pub open spec fn settled(g: Grid, px: int, py: int) -> Grid {
    settled_upto(g, px, py, 5, 0)
}

/// The state and the answer after the falling piece is laid to rest: full
/// rows of its box are cleared, then its surroundings settle. Where the
/// clearing fails nothing settles.
pub open spec fn disabled(v: Play) -> (Play, Result<(), TileError>) {
    let c = cleared(v);
    if c.1 is Err {
        c
    } else {
        (Play { grid: settled(c.0.grid, v.piece.x as int, v.piece.y as int), ..c.0 }, Ok(()))
    }
}

/// Whether the stack has reached the top: a piece finds support in one of
/// the three top rows between the side walls.
pub open spec fn top_reached(g: Grid) -> bool {
    exists|x: int, y: int|
        2 <= x < TILE_CANVAS_WIDTH - 2 && 0 <= y < 3 && #[trigger] crate::rules::rests(g, x, y)
}

/// Whether every cell between the side walls is occupied in row `y`.
pub fn row_is_full(canvas: &TileCanvas, y: u32) -> (full: bool)
    ensures
        full == row_full(canvas@, y as int),
{
    let mut x: u32 = 2;
    while x < FIELD_WIDTH - 2
        invariant
            2 <= x <= FIELD_WIDTH - 2,
            forall|c: int| 2 <= c < x ==> #[trigger] occupied(canvas@, c, y as int),
        decreases FIELD_WIDTH - 2 - x,
    {
        if canvas.look(x, y).is_none() {
            assert(!occupied(canvas@, x as int, y as int));
            return false;
        }
        x += 1;
    }
    true
}

/// Counting one more cell of the box settles that cell, where a piece
/// meets something at it, and no other.
proof fn lemma_settle_step(g: Grid, px: int, py: int, i: int, j: int)
    requires
        grid_wf(g),
        0 <= px,
        0 <= py,
        0 <= i < 5,
        0 <= j < 5,
    ensures
        occupied(g, px + i, py + j) ==> settled_upto(g, px, py, i, j + 1) == with_flag(
            settled_upto(g, px, py, i, j),
            (px + i) % 20,
            (py + j) % 20,
            false,
        ),
        !occupied(g, px + i, py + j) ==> settled_upto(g, px, py, i, j + 1) == settled_upto(
            g,
            px,
            py,
            i,
            j,
        ),
        j == 4 ==> settled_upto(g, px, py, i, j + 1) == settled_upto(g, px, py, i + 1, 0),
{
    let cx = (px + i) % 20;
    let cy = (py + j) % 20;
    let before = settled_upto(g, px, py, i, j);
    let after = settled_upto(g, px, py, i, j + 1);
    assert forall|x: int, y: int| 0 <= x < 20 && 0 <= y < 20 implies (settles(
        g,
        px,
        py,
        x,
        y,
        i,
        j + 1,
    ) <==> settles(g, px, py, x, y, i, j) || (x == cx && y == cy && occupied(g, px + i, py + j))) by {
        let a = (x - px) % 20;
        let b = (y - py) % 20;
        assert((a == i) <==> (x == cx));
        assert((b == j) <==> (y == cy));
    }
    if occupied(g, px + i, py + j) {
        assert(after =~~= with_flag(before, cx, cy, false));
    } else {
        assert(after =~~= before);
    }
    if j == 4 {
        assert(after =~~= settled_upto(g, px, py, i + 1, 0));
    }
}

/// Lays the surroundings of the box at (`px`, `py`) to rest: see `settled`.
pub fn settle_box(canvas: &mut TileCanvas, px: u16, py: u16)
    ensures
        final(canvas)@ == settled(old(canvas)@, px as int, py as int),
{
    let ghost g = canvas@;
    proof {
        canvas.lemma_view_wf();
        assert(g =~~= settled_upto(g, px as int, py as int, 0, 0));
    }
    let mut i: u32 = 0;
    while i < 5
        invariant
            i <= 5,
            g == old(canvas)@,
            grid_wf(g),
            canvas@ == settled_upto(g, px as int, py as int, i as int, 0),
        decreases 5 - i,
    {
        let mut j: u32 = 0;
        while j < 5
            invariant
                i < 5,
                j <= 5,
                g == old(canvas)@,
                grid_wf(g),
                j < 5 ==> canvas@ == settled_upto(g, px as int, py as int, i as int, j as int),
                j == 5 ==> canvas@ == settled_upto(g, px as int, py as int, i + 1, 0),
            decreases 5 - j,
        {
            let x: u32 = px as u32 + i;
            let y: u32 = py as u32 + j;
            proof {
                lemma_settle_step(g, px as int, py as int, i as int, j as int);
                lemma_flags_keep_seen(g, canvas@, x as int, y as int);
            }
            if canvas.look(x, y).is_some() {
                canvas.mark(x, y, false);
            }
            j += 1;
        }
        i += 1;
    }
}

/// What a piece meets at a cell does not depend on the flags of cells that
/// show it nothing or that have settled: two fields with the same colours
/// are occupied at the same cells.
pub proof fn lemma_flags_keep_seen(g: Grid, h: Grid, x: int, y: int)
    requires
        tile_at(g, x, y).0 == tile_at(h, x, y).0,
    ensures
        occupied(g, x, y) == occupied(h, x, y),
{
}

} // verus!
