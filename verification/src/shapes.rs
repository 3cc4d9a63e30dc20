//! The cells that a piece fills in each orientation, as the rotation tables
//! give them, and what the tables guarantee.

use vstd::prelude::*;
use crate::piece::PieceEnum;

verus! {

/// Whether `offsets` lists the cell in row `r` and column `c`.
pub open spec fn lists(offsets: Seq<(u8, u8)>, r: int, c: int) -> bool {
    exists|k: int| 0 <= k < offsets.len() && (#[trigger] offsets[k]).0 == r && offsets[k].1 == c
}

/// Whether the row `cols` of a shape names column `c`.
pub open spec fn names(cols: Seq<u8>, c: int) -> bool {
    exists|k: int| 0 <= k < cols.len() && #[trigger] cols[k] == c
}

/// The orientation that a piece is in after `turns` quarter turns.
pub open spec fn state_after(turns: nat) -> u8 {
    (turns % 4) as u8
}

impl PieceEnum {
    /// Whether a piece of this kind, after `turns` quarter turns out of its
    /// first orientation, fills the cell in row `r` and column `c` of its
    /// box: the first shape is the catalogue's, and each turn takes away
    /// the cells that it vacates and adds the cells that it fills.
    pub open spec fn fills(self, turns: nat, r: int, c: int) -> bool
        decreases turns,
    {
        if turns == 0 {
            0 <= r < self.base_rows().len() && names(self.base_rows()[r], c)
        } else {
            let state = state_after((turns - 1) as nat);
            lists(self.draw_offsets(state), r, c) || (self.fills((turns - 1) as nat, r, c) && !lists(
                self.erase_offsets(state),
                r,
                c,
            ))
        }
    }
}

/// A list of up to four cells lists just its entries.
proof fn lemma_lists(offsets: Seq<(u8, u8)>, r: int, c: int)
    requires
        offsets.len() <= 4,
    ensures
        lists(offsets, r, c) <==> (offsets.len() > 0 && offsets[0].0 == r && offsets[0].1 == c) || (
        offsets.len() > 1 && offsets[1].0 == r && offsets[1].1 == c) || (offsets.len() > 2
            && offsets[2].0 == r && offsets[2].1 == c) || (offsets.len() > 3 && offsets[3].0 == r
            && offsets[3].1 == c),
{
}

/// A row of up to four columns names just its entries.
proof fn lemma_names(cols: Seq<u8>, c: int)
    requires
        cols.len() <= 4,
    ensures
        names(cols, c) <==> (cols.len() > 0 && cols[0] == c) || (cols.len() > 1 && cols[1] == c) || (
        cols.len() > 2 && cols[2] == c) || (cols.len() > 3 && cols[3] == c),
{
}

/// What the tables say of the cell (`r`, `c`) for every orientation of
/// `kind`, with the lists spelled out.
proof fn lemma_tables(kind: PieceEnum, r: int, c: int)
    ensures
        forall|s: u8|
            s < 4 ==> (lists(#[trigger] kind.draw_offsets(s), r, c) <==> {
                let o = kind.draw_offsets(s);
                (o.len() > 0 && o[0].0 == r && o[0].1 == c) || (o.len() > 1 && o[1].0 == r && o[1].1
                    == c) || (o.len() > 2 && o[2].0 == r && o[2].1 == c)
            }),
        forall|s: u8|
            s < 4 ==> (lists(#[trigger] kind.erase_offsets(s), r, c) <==> {
                let o = kind.erase_offsets(s);
                (o.len() > 0 && o[0].0 == r && o[0].1 == c) || (o.len() > 1 && o[1].0 == r && o[1].1
                    == c) || (o.len() > 2 && o[2].0 == r && o[2].1 == c)
            }),
        forall|row: int|
            0 <= row < 3 ==> (names(#[trigger] kind.base_rows()[row], c) <==> {
                let o = kind.base_rows()[row];
                (o.len() > 0 && o[0] == c) || (o.len() > 1 && o[1] == c) || (o.len() > 2 && o[2] == c)
                    || (o.len() > 3 && o[3] == c)
            }),
        kind.base_rows().len() == 3,
{
    assert forall|s: u8| s < 4 implies (lists(#[trigger] kind.draw_offsets(s), r, c) <==> {
        let o = kind.draw_offsets(s);
        (o.len() > 0 && o[0].0 == r && o[0].1 == c) || (o.len() > 1 && o[1].0 == r && o[1].1 == c)
            || (o.len() > 2 && o[2].0 == r && o[2].1 == c)
    }) by {
        lemma_lists(kind.draw_offsets(s), r, c);
    }
    assert forall|s: u8| s < 4 implies (lists(#[trigger] kind.erase_offsets(s), r, c) <==> {
        let o = kind.erase_offsets(s);
        (o.len() > 0 && o[0].0 == r && o[0].1 == c) || (o.len() > 1 && o[1].0 == r && o[1].1 == c)
            || (o.len() > 2 && o[2].0 == r && o[2].1 == c)
    }) by {
        lemma_lists(kind.erase_offsets(s), r, c);
    }
    assert forall|row: int| 0 <= row < 3 implies (names(#[trigger] kind.base_rows()[row], c) <==> {
        let o = kind.base_rows()[row];
        (o.len() > 0 && o[0] == c) || (o.len() > 1 && o[1] == c) || (o.len() > 2 && o[2] == c) || (
        o.len() > 3 && o[3] == c)
    }) by {
        lemma_names(kind.base_rows()[row], c);
    }
}

/// Four quarter turns bring a piece back to the cells it started from.
pub proof fn lemma_four_turns_from_base(kind: PieceEnum, r: int, c: int)
    ensures
        kind.fills(4, r, c) == kind.fills(0, r, c),
{
    lemma_tables(kind, r, c);
    reveal_with_fuel(PieceEnum::fills, 5);
    assert(state_after(0) == 0 && state_after(1) == 1 && state_after(2) == 2 && state_after(3) == 3);
}

/// The cells that a piece fills depend on the number of its turns only
/// through the orientation that they lead to.
pub proof fn lemma_turns_cycle(kind: PieceEnum, turns: nat, r: int, c: int)
    ensures
        kind.fills(turns, r, c) == kind.fills(turns % 4, r, c),
    decreases turns,
{
    if turns >= 4 {
        let before = (turns - 1) as nat;
        lemma_turns_cycle(kind, before, r, c);
        assert(state_after(before) == state_after(before % 4));
        assert(kind.fills(turns, r, c) == kind.fills(before % 4 + 1, r, c));
        if before % 4 == 3 {
            lemma_four_turns_from_base(kind, r, c);
        }
    }
}

/// Four quarter turns, from any orientation, bring a
/// piece back to the cells it filled before them, and to its orientation.
pub proof fn lemma_four_turns(kind: PieceEnum, turns: nat, r: int, c: int)
    ensures
        kind.fills(turns + 4, r, c) == kind.fills(turns, r, c),
        state_after(turns + 4) == state_after(turns),
{
    lemma_turns_cycle(kind, turns + 4, r, c);
    lemma_turns_cycle(kind, turns, r, c);
}

/// A quarter turn vacates cells that the piece fills and fills cells that
/// it does not fill: no cell of the piece itself is among the cells that a
/// turn needs free, and every cell that the turn clears is the piece's
/// own.
pub proof fn lemma_turn_cells(kind: PieceEnum, turns: nat, r: int, c: int)
    ensures
        lists(kind.draw_offsets(state_after(turns)), r, c) ==> !kind.fills(turns, r, c) && kind.fills(
            turns + 1,
            r,
            c,
        ),
        lists(kind.erase_offsets(state_after(turns)), r, c) ==> kind.fills(turns, r, c) && !kind.fills(
            turns + 1,
            r,
            c,
        ),
{
    lemma_turns_cycle(kind, turns, r, c);
    lemma_tables(kind, r, c);
    reveal_with_fuel(PieceEnum::fills, 5);
    assert(state_after(0) == 0 && state_after(1) == 1 && state_after(2) == 2 && state_after(3) == 3);
    assert(state_after(turns) == state_after(turns % 4));
}

/// Every cell that a piece fills lies in its four-by-four box, between the
/// margins of its orientation.
pub proof fn lemma_cells_within_margins(kind: PieceEnum, turns: nat, r: int, c: int)
    requires
        kind.fills(turns, r, c),
    ensures
        0 <= r < 4,
        kind.margins(state_after(turns)).0 <= c <= 3 - kind.margins(state_after(turns)).1,
{
    lemma_turns_cycle(kind, turns, r, c);
    lemma_tables(kind, r, c);
    reveal_with_fuel(PieceEnum::fills, 5);
    assert(state_after(0) == 0 && state_after(1) == 1 && state_after(2) == 2 && state_after(3) == 3);
    assert(state_after(turns) == state_after(turns % 4));
}

/// Whether a piece fills some cell of column `c` of its box.
pub open spec fn fills_column(kind: PieceEnum, turns: nat, c: int) -> bool {
    kind.fills(turns, 0, c) || kind.fills(turns, 1, c) || kind.fills(turns, 2, c) || kind.fills(
        turns,
        3,
        c,
    )
}

/// The margins are tight: a piece fills a cell in the first column after
/// its left margin and in the last column before its right margin.
pub proof fn lemma_margins_tight(kind: PieceEnum, turns: nat)
    ensures
        fills_column(kind, turns, kind.margins(state_after(turns)).0 as int),
        fills_column(kind, turns, 3 - kind.margins(state_after(turns)).1),
{
    let left = kind.margins(state_after(turns)).0 as int;
    let right = 3 - kind.margins(state_after(turns)).1;
    lemma_turns_cycle(kind, turns, 0, left);
    lemma_turns_cycle(kind, turns, 1, left);
    lemma_turns_cycle(kind, turns, 2, left);
    lemma_turns_cycle(kind, turns, 3, left);
    lemma_turns_cycle(kind, turns, 0, right);
    lemma_turns_cycle(kind, turns, 1, right);
    lemma_turns_cycle(kind, turns, 2, right);
    lemma_turns_cycle(kind, turns, 3, right);
    assert(state_after(turns) == state_after(turns % 4));
    lemma_margins_tight_within(kind, turns % 4);
}

/// The margins are tight in each of the four orientations.
proof fn lemma_margins_tight_within(kind: PieceEnum, turns: nat)
    requires
        turns < 4,
    ensures
        fills_column(kind, turns, kind.margins(state_after(turns)).0 as int),
        fills_column(kind, turns, 3 - kind.margins(state_after(turns)).1),
{
    let left = kind.margins(state_after(turns)).0 as int;
    let right = 3 - kind.margins(state_after(turns)).1;
    assert(state_after(0) == 0 && state_after(1) == 1 && state_after(2) == 2 && state_after(3) == 3);
    assert(fills_column(kind, turns, left)) by {
        lemma_tables(kind, 0, left);
        lemma_tables(kind, 1, left);
        lemma_tables(kind, 2, left);
        lemma_tables(kind, 3, left);
        reveal_with_fuel(PieceEnum::fills, 5);
    }
    assert(fills_column(kind, turns, right)) by {
        lemma_tables(kind, 0, right);
        lemma_tables(kind, 1, right);
        lemma_tables(kind, 2, right);
        lemma_tables(kind, 3, right);
        reveal_with_fuel(PieceEnum::fills, 5);
    }
}

} // verus!
