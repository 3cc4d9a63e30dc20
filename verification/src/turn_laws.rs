//! What a quarter turn does to a piece that stands in the open, and why
//! four of them change nothing.

use vstd::prelude::*;
use crate::canvas::{grid_wf, seen};
use crate::laws::margins_fit;
use crate::piece::PieceEnum;
use crate::rules::{cells_free, draw_cell, drawn, erase_cell, erased, turn_allowed, turned, Sweep};
use crate::shapes::{
    lemma_cells_within_margins, lemma_four_turns, lemma_turn_cells, lists, state_after,
};
use crate::tetris::Play;
use crate::tile::{Tile, TileColor, TILE_CANVAS_HEIGHT, TILE_CANVAS_WIDTH};

verus! {

/// Whether one of the first `n` entries of `offsets` is the cell of the box
/// at (`x`, `y`) that lies at (`cx`, `cy`) on the field.
pub open spec fn lists_upto(offsets: Seq<(u8, u8)>, n: int, x: int, y: int, cx: int, cy: int) -> bool {
    exists|k: int|
        0 <= k < n && x + (#[trigger] offsets[k]).1 == cx && y + offsets[k].0 == cy
}

/// All of the first `n` entries of `offsets` name cells of the box at
/// (`x`, `y`) that lie on the field and left of the last column but one.
pub open spec fn on_field(offsets: Seq<(u8, u8)>, n: int, x: int, y: int) -> bool {
    forall|k: int|
        0 <= k < n ==> 0 <= x + (#[trigger] offsets[k]).1 < TILE_CANVAS_WIDTH - 2 && 0 <= y
            + offsets[k].0 < TILE_CANVAS_HEIGHT
}

/// Vacating cells on the field never fails, and changes just the cells
/// named: each of them that is active becomes free.
pub proof fn lemma_erased_cells(s: Sweep, x: int, y: int, offsets: Seq<(u8, u8)>, n: int)
    requires
        grid_wf(s.grid),
        !s.failed,
        0 <= n <= offsets.len(),
        on_field(offsets, n, x, y),
    ensures
        !erased(s, x, y, offsets, n).failed,
        erased(s, x, y, offsets, n).landed == s.landed,
        grid_wf(erased(s, x, y, offsets, n).grid),
        forall|cx: int, cy: int|
            0 <= cx < TILE_CANVAS_WIDTH && 0 <= cy < TILE_CANVAS_HEIGHT ==> #[trigger] erased(
                s,
                x,
                y,
                offsets,
                n,
            ).grid[cx][cy] == (if lists_upto(offsets, n, x, y, cx, cy) && s.grid[cx][cy].1 {
                Tile(TileColor::Empty, true)
            } else {
                s.grid[cx][cy]
            }),
    decreases n,
{
    if n > 0 {
        lemma_erased_cells(s, x, y, offsets, n - 1);
        let before = erased(s, x, y, offsets, n - 1);
        let after = erased(s, x, y, offsets, n);
        let tx = x + offsets[n - 1].1;
        let ty = y + offsets[n - 1].0;
        assert(after == erase_cell(before, tx, ty));
        assert forall|cx: int, cy: int|
            0 <= cx < TILE_CANVAS_WIDTH && 0 <= cy < TILE_CANVAS_HEIGHT implies #[trigger] after.grid[cx][cy]
            == (if lists_upto(offsets, n, x, y, cx, cy) && s.grid[cx][cy].1 {
            Tile(TileColor::Empty, true)
        } else {
            s.grid[cx][cy]
        }) by {
            assert(lists_upto(offsets, n, x, y, cx, cy) <==> lists_upto(offsets, n - 1, x, y, cx, cy)
                || (cx == tx && cy == ty));
        }
    }
}

/// Filling cells on the field never fails, and changes just the cells
/// named: each of them that is active takes the colour.
pub proof fn lemma_drawn_cells(
    s: Sweep,
    x: int,
    y: int,
    offsets: Seq<(u8, u8)>,
    color: TileColor,
    n: int,
)
    requires
        grid_wf(s.grid),
        !s.failed,
        0 <= n <= offsets.len(),
        on_field(offsets, n, x, y),
    ensures
        !drawn(s, x, y, offsets, color, n).failed,
        grid_wf(drawn(s, x, y, offsets, color, n).grid),
        forall|cx: int, cy: int|
            0 <= cx < TILE_CANVAS_WIDTH && 0 <= cy < TILE_CANVAS_HEIGHT ==> #[trigger] drawn(
                s,
                x,
                y,
                offsets,
                color,
                n,
            ).grid[cx][cy] == (if lists_upto(offsets, n, x, y, cx, cy) && s.grid[cx][cy].1 {
                Tile(color, true)
            } else {
                s.grid[cx][cy]
            }),
    decreases n,
{
    if n > 0 {
        lemma_drawn_cells(s, x, y, offsets, color, n - 1);
        let before = drawn(s, x, y, offsets, color, n - 1);
        let after = drawn(s, x, y, offsets, color, n);
        let tx = x + offsets[n - 1].1;
        let ty = y + offsets[n - 1].0;
        assert(after == draw_cell(before, tx, ty, color));
        assert forall|cx: int, cy: int|
            0 <= cx < TILE_CANVAS_WIDTH && 0 <= cy < TILE_CANVAS_HEIGHT implies #[trigger] after.grid[cx][cy]
            == (if lists_upto(offsets, n, x, y, cx, cy) && s.grid[cx][cy].1 {
            Tile(color, true)
        } else {
            s.grid[cx][cy]
        }) by {
            assert(lists_upto(offsets, n, x, y, cx, cy) <==> lists_upto(offsets, n - 1, x, y, cx, cy)
                || (cx == tx && cy == ty));
        }
    }
}

/// A piece stands in the open: its box lies between the side walls and
/// above the floor row, the cells of the box that the piece fills after
/// `turns` quarter turns show its colour, and all other cells of the box
/// are free; all of them are active.
pub open spec fn stands_in_the_open(v: Play, color: TileColor, turns: nat) -> bool {
    let p = v.piece;
    &&& grid_wf(v.grid)
    &&& margins_fit(p)
    &&& p.state == state_after(turns)
    &&& 2 <= p.x <= TILE_CANVAS_WIDTH - 6
    &&& p.y + 4 <= TILE_CANVAS_HEIGHT - 1
    &&& forall|cx: int, cy: int|
        p.x <= cx < p.x + 4 && p.y <= cy < p.y + 4 ==> #[trigger] v.grid[cx][cy] == (if p.piece.fills(
            turns,
            cy - p.y,
            cx - p.x,
        ) {
            Tile(color, true)
        } else {
            Tile(TileColor::Empty, true)
        })
}

/// The state after `n` requests to turn, each made whatever the one before
/// has answered.
pub open spec fn turned_times(v: Play, color: TileColor, n: nat) -> Play
    decreases n,
{
    if n == 0 {
        v
    } else {
        turned(turned_times(v, color, (n - 1) as nat), color).0
    }
}

/// The cells that a turn vacates and fills lie in the piece's box.
proof fn lemma_offsets_in_box(kind: PieceEnum, turns: nat)
    ensures
        forall|k: int|
            0 <= k < kind.erase_offsets(state_after(turns)).len() ==> 0 <= (
            #[trigger] kind.erase_offsets(state_after(turns))[k]).1 < 4 && 0 <= kind.erase_offsets(
                state_after(turns),
            )[k].0 < 4,
        forall|k: int|
            0 <= k < kind.draw_offsets(state_after(turns)).len() ==> 0 <= (
            #[trigger] kind.draw_offsets(state_after(turns))[k]).1 < 4 && 0 <= kind.draw_offsets(
                state_after(turns),
            )[k].0 < 4,
{
    let erase = kind.erase_offsets(state_after(turns));
    let draw = kind.draw_offsets(state_after(turns));
    assert forall|k: int| 0 <= k < erase.len() implies 0 <= (#[trigger] erase[k]).1 < 4 && 0
        <= erase[k].0 < 4 by {
        let r = erase[k].0 as int;
        let c = erase[k].1 as int;
        assert(lists(erase, r, c));
        lemma_turn_cells(kind, turns, r, c);
        lemma_cells_within_margins(kind, turns, r, c);
    }
    assert forall|k: int| 0 <= k < draw.len() implies 0 <= (#[trigger] draw[k]).1 < 4 && 0
        <= draw[k].0 < 4 by {
        let r = draw[k].0 as int;
        let c = draw[k].1 as int;
        assert(lists(draw, r, c));
        lemma_turn_cells(kind, turns, r, c);
        lemma_cells_within_margins(kind, turns + 1, r, c);
    }
}

/// A list names a cell of the field just where it lists the cell's place in
/// the box.
proof fn lemma_lists_on_field(offsets: Seq<(u8, u8)>, x: int, y: int, cx: int, cy: int)
    ensures
        lists_upto(offsets, offsets.len() as int, x, y, cx, cy) <==> lists(offsets, cy - y, cx - x),
{
    if lists_upto(offsets, offsets.len() as int, x, y, cx, cy) {
        let k = choose|k: int|
            0 <= k < offsets.len() && x + (#[trigger] offsets[k]).1 == cx && y + offsets[k].0 == cy;
        assert(offsets[k].0 == cy - y && offsets[k].1 == cx - x);
    }
    if lists(offsets, cy - y, cx - x) {
        let k = choose|k: int|
            0 <= k < offsets.len() && (#[trigger] offsets[k]).0 == cy - y && offsets[k].1 == cx - x;
        assert(x + offsets[k].1 == cx && y + offsets[k].0 == cy);
    }
}

/// A piece that stands in the open may turn, and meets nothing where the
/// turn would fill.
proof fn lemma_open_turn_is_made(v: Play, color: TileColor, turns: nat)
    requires
        stands_in_the_open(v, color, turns),
    ensures
        turn_allowed(v.piece),
        cells_free(v.grid, v.piece.x as int, v.piece.y as int, v.piece.piece.draw_offsets(v.piece.state)),
        on_field(
            v.piece.piece.draw_offsets(v.piece.state),
            v.piece.piece.draw_offsets(v.piece.state).len() as int,
            v.piece.x as int,
            v.piece.y as int,
        ),
        on_field(
            v.piece.piece.erase_offsets(v.piece.state),
            v.piece.piece.erase_offsets(v.piece.state).len() as int,
            v.piece.x as int,
            v.piece.y as int,
        ),
{
    let p = v.piece;
    let x = p.x as int;
    let y = p.y as int;
    let kind = p.piece;
    let draw = kind.draw_offsets(p.state);
    lemma_offsets_in_box(kind, turns);
    assert forall|k: int| 0 <= k < draw.len() implies seen(
        v.grid,
        x + (#[trigger] draw[k]).1,
        y + draw[k].0,
    ) is None by {
        let r = draw[k].0 as int;
        let c = draw[k].1 as int;
        assert(lists(draw, r, c));
        lemma_turn_cells(kind, turns, r, c);
        assert(v.grid[x + c][y + r] == Tile(TileColor::Empty, true));
    }
}

/// The colour of a cell of the box after a turn in the open.
proof fn lemma_open_turn_cell(v: Play, color: TileColor, turns: nat, cx: int, cy: int)
    requires
        stands_in_the_open(v, color, turns),
        0 <= cx < TILE_CANVAS_WIDTH,
        0 <= cy < TILE_CANVAS_HEIGHT,
    ensures
        turned(v, color).1 is Ok,
        grid_wf(turned(v, color).0.grid),
        turned(v, color).0.grid[cx][cy] == (if v.piece.x <= cx < v.piece.x + 4 && v.piece.y <= cy
            < v.piece.y + 4 {
            if v.piece.piece.fills(turns + 1, cy - v.piece.y, cx - v.piece.x) {
                Tile(color, true)
            } else {
                Tile(TileColor::Empty, true)
            }
        } else {
            v.grid[cx][cy]
        }),
{
    let p = v.piece;
    let x = p.x as int;
    let y = p.y as int;
    let kind = p.piece;
    let erase = kind.erase_offsets(p.state);
    let draw = kind.draw_offsets(p.state);
    let r = cy - y;
    let c = cx - x;
    lemma_open_turn_is_made(v, color, turns);
    let start = Sweep { grid: v.grid, landed: false, failed: false };
    let vacated = erased(start, x, y, erase, erase.len() as int);
    lemma_erased_cells(start, x, y, erase, erase.len() as int);
    let s = drawn(vacated, x, y, draw, color, draw.len() as int);
    lemma_drawn_cells(vacated, x, y, draw, color, draw.len() as int);
    assert(turned(v, color).0.grid == s.grid);
    lemma_lists_on_field(erase, x, y, cx, cy);
    lemma_lists_on_field(draw, x, y, cx, cy);
    lemma_turn_cells(kind, turns, r, c);
    if lists(erase, r, c) {
        lemma_cells_within_margins(kind, turns, r, c);
    }
    if lists(draw, r, c) {
        lemma_cells_within_margins(kind, turns + 1, r, c);
    }
    assert(vacated.grid[cx][cy] == (if lists(erase, r, c) && v.grid[cx][cy].1 {
        Tile(TileColor::Empty, true)
    } else {
        v.grid[cx][cy]
    }));
    assert(s.grid[cx][cy] == (if lists(draw, r, c) && vacated.grid[cx][cy].1 {
        Tile(color, true)
    } else {
        vacated.grid[cx][cy]
    }));
    assert(kind.fills(turns + 1, r, c) == (lists(draw, r, c) || (kind.fills(turns, r, c) && !lists(
        erase,
        r,
        c,
    ))));
    if x <= cx < x + 4 && y <= cy < y + 4 {
        assert(v.grid[cx][cy] == (if kind.fills(turns, r, c) {
            Tile(color, true)
        } else {
            Tile(TileColor::Empty, true)
        }));
    }
}

/// A piece that stands in the open turns: the turn is made and does not
/// fail, the piece fills the cells of its next orientation and stands in
/// the open again, and nothing outside its box changes.
pub proof fn lemma_turn_in_the_open(v: Play, color: TileColor, turns: nat)
    requires
        stands_in_the_open(v, color, turns),
    ensures
        turned(v, color).1 is Ok,
        stands_in_the_open(turned(v, color).0, color, turns + 1),
        turned(v, color).0.piece.x == v.piece.x,
        turned(v, color).0.piece.y == v.piece.y,
        turned(v, color).0.piece.piece == v.piece.piece,
        turned(v, color).0.score == v.score,
        forall|cx: int, cy: int|
            0 <= cx < TILE_CANVAS_WIDTH && 0 <= cy < TILE_CANVAS_HEIGHT && !(v.piece.x <= cx
                < v.piece.x + 4 && v.piece.y <= cy < v.piece.y + 4) ==> #[trigger] turned(
                v,
                color,
            ).0.grid[cx][cy] == v.grid[cx][cy],
{
    let after = turned(v, color).0;
    lemma_open_turn_cell(v, color, turns, 0, 0);
    lemma_open_turn_is_made(v, color, turns);
    assert(state_after(turns + 1) == crate::rules::next_state(v.piece.state));
    assert forall|cx: int, cy: int|
        0 <= cx < TILE_CANVAS_WIDTH && 0 <= cy < TILE_CANVAS_HEIGHT implies #[trigger] after.grid[cx][cy]
        == (if v.piece.x <= cx < v.piece.x + 4 && v.piece.y <= cy < v.piece.y + 4 {
        if v.piece.piece.fills(turns + 1, cy - v.piece.y, cx - v.piece.x) {
            Tile(color, true)
        } else {
            Tile(TileColor::Empty, true)
        }
    } else {
        v.grid[cx][cy]
    }) by {
        lemma_open_turn_cell(v, color, turns, cx, cy);
    }
}

/// A piece that stands in the open keeps standing in the open however
/// often it is asked to turn: every request is granted, its box stays
/// where it is, and nothing outside the box changes.
pub proof fn lemma_turns_in_the_open(v: Play, color: TileColor, turns: nat, n: nat)
    requires
        stands_in_the_open(v, color, turns),
    ensures
        stands_in_the_open(turned_times(v, color, n), color, turns + n),
        turned_times(v, color, n).piece.x == v.piece.x,
        turned_times(v, color, n).piece.y == v.piece.y,
        turned_times(v, color, n).piece.piece == v.piece.piece,
        turned_times(v, color, n).score == v.score,
        forall|cx: int, cy: int|
            0 <= cx < TILE_CANVAS_WIDTH && 0 <= cy < TILE_CANVAS_HEIGHT && !(v.piece.x <= cx
                < v.piece.x + 4 && v.piece.y <= cy < v.piece.y + 4) ==> #[trigger] turned_times(
                v,
                color,
                n,
            ).grid[cx][cy] == v.grid[cx][cy],
    decreases n,
{
    if n > 0 {
        let before = turned_times(v, color, (n - 1) as nat);
        lemma_turns_in_the_open(v, color, turns, (n - 1) as nat);
        lemma_turn_in_the_open(before, color, turns + (n - 1) as nat);
        let after = turned_times(v, color, n);
        assert(after == turned(before, color).0);
        assert forall|cx: int, cy: int|
            0 <= cx < TILE_CANVAS_WIDTH && 0 <= cy < TILE_CANVAS_HEIGHT && !(v.piece.x <= cx
                < v.piece.x + 4 && v.piece.y <= cy < v.piece.y + 4) implies #[trigger] after.grid[cx][cy]
            == v.grid[cx][cy] by {
            assert(before.grid[cx][cy] == v.grid[cx][cy]);
        }
    }
}

/// A piece that stands in the open is turned four
/// times by four requests, and after them the field, the piece and the
/// score are what they were.
pub proof fn lemma_four_turns_restore(v: Play, color: TileColor, turns: nat)
    requires
        stands_in_the_open(v, color, turns),
    ensures
        turned_times(v, color, 4) == v,
{
    let last = turned_times(v, color, 4);
    lemma_turns_in_the_open(v, color, turns, 4);
    assert forall|cx: int, cy: int|
        0 <= cx < TILE_CANVAS_WIDTH && 0 <= cy < TILE_CANVAS_HEIGHT implies #[trigger] last.grid[cx][cy]
        == v.grid[cx][cy] by {
        if v.piece.x <= cx < v.piece.x + 4 && v.piece.y <= cy < v.piece.y + 4 {
            lemma_four_turns(v.piece.piece, turns, cy - v.piece.y, cx - v.piece.x);
        }
    }
    assert(last.grid =~~= v.grid);
    lemma_four_turns(v.piece.piece, turns, 0, 0);
    assert(last.piece == v.piece);
}

} // verus!
