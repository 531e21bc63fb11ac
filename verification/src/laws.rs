use vstd::prelude::*;

use crate::board::alive_at;
use crate::board::lemma_dims_positive;
use crate::board::lemma_flat_index_split;
use crate::board::lemma_row_col_in_range;
use crate::board::seeded;
use crate::board::spec_neighbour_count;
use crate::board::spec_step;
use crate::board::spec_step_cell;
use crate::cell::Cell;
use vstd::arithmetic::div_mod::lemma_fundamental_div_mod_converse;

verus! {

/// Round trip: for any flat index of a cell on a board of the given
/// dimensions, converting it to (row, column) and back gives the index
/// again.
pub proof fn lemma_index_position_round_trip(height: int, width: int, index: int)
    requires
        0 <= height,
        0 <= width,
        0 <= index < height * width,
    ensures
        (index / width) * width + (index % width) == index,
{
    lemma_dims_positive(height, width, index);
    lemma_flat_index_split(height, width, index);
}

/// On a board whose cells are all alive, a cell is alive at a position
/// exactly when the position is on the board.
proof fn lemma_alive_at_on_full_board(s: Seq<Cell>, height: int, width: int)
    requires
        0 <= height,
        0 <= width,
        s.len() == height * width,
        forall|i: int| 0 <= i < s.len() ==> (#[trigger] s[i]) is ALIVE,
    ensures
        forall|row: int, column: int|
            #[trigger] alive_at(s, height, width, row, column) <==> (0 <= row < height && 0
                <= column < width),
{
    assert forall|row: int, column: int|
        #[trigger] alive_at(s, height, width, row, column) <==> (0 <= row < height && 0 <= column
            < width) by {
        if 0 <= row < height && 0 <= column < width {
            lemma_row_col_in_range(height, width, row, column);
            assert(s[row * width + column] is ALIVE);
        }
    }
}

/// On an all-alive board, an interior cell (touching no edge) has 8 live
/// neighbours.
pub proof fn lemma_neighbour_count_interior(
    s: Seq<Cell>,
    height: int,
    width: int,
    row: int,
    column: int,
)
    requires
        0 <= height,
        0 <= width,
        s.len() == height * width,
        forall|i: int| 0 <= i < s.len() ==> (#[trigger] s[i]) is ALIVE,
        1 <= row <= height - 2,
        1 <= column <= width - 2,
    ensures
        spec_neighbour_count(s, height, width, row, column) == 8,
{
    lemma_alive_at_on_full_board(s, height, width);
}

/// On an all-alive board, a corner cell has 3 live neighbours.
pub proof fn lemma_neighbour_count_corner(
    s: Seq<Cell>,
    height: int,
    width: int,
    row: int,
    column: int,
)
    requires
        height >= 2,
        width >= 2,
        s.len() == height * width,
        forall|i: int| 0 <= i < s.len() ==> (#[trigger] s[i]) is ALIVE,
        row == 0 || row == height - 1,
        column == 0 || column == width - 1,
    ensures
        spec_neighbour_count(s, height, width, row, column) == 3,
{
    lemma_alive_at_on_full_board(s, height, width);
}

/// On an all-alive board, an edge cell that is not a corner has 5 live
/// neighbours.
pub proof fn lemma_neighbour_count_edge(
    s: Seq<Cell>,
    height: int,
    width: int,
    row: int,
    column: int,
)
    requires
        0 <= height,
        0 <= width,
        s.len() == height * width,
        forall|i: int| 0 <= i < s.len() ==> (#[trigger] s[i]) is ALIVE,
        ((row == 0 || row == height - 1) && height >= 2 && 1 <= column <= width - 2) || ((column
            == 0 || column == width - 1) && width >= 2 && 1 <= row <= height - 2),
    ensures
        spec_neighbour_count(s, height, width, row, column) == 5,
{
    lemma_alive_at_on_full_board(s, height, width);
}

/// A single live cell whose neighbours are all dead dies of
/// underpopulation, and no dead cell is born: one step leaves the board
/// all dead.
pub proof fn lemma_isolated_cell_dies(s: Seq<Cell>, height: int, width: int, k: int)
    requires
        0 <= height,
        0 <= width,
        s.len() == height * width,
        0 <= k < height * width,
        s[k] is ALIVE,
        forall|i: int| 0 <= i < s.len() && i != k ==> !((#[trigger] s[i]) is ALIVE),
    ensures
        forall|i: int|
            0 <= i < s.len() ==> !((#[trigger] spec_step(s, height, width)[i]) is ALIVE),
{
    lemma_dims_positive(height, width, k);
    lemma_flat_index_split(height, width, k);
    let live_row = k / width;
    let live_column = k % width;
    assert forall|row: int, column: int|
        #[trigger] alive_at(s, height, width, row, column) <==> (row == live_row && column
            == live_column) by {
        if 0 <= row < height && 0 <= column < width {
            lemma_row_col_in_range(height, width, row, column);
            if row * width + column == k {
                lemma_fundamental_div_mod_converse(k, width, row, column);
            } else {
                assert(!(s[row * width + column] is ALIVE));
            }
        }
    }
    assert forall|i: int| 0 <= i < s.len() implies !((#[trigger] spec_step(
        s,
        height,
        width,
    )[i]) is ALIVE) by {
        lemma_flat_index_split(height, width, i);
        if i != k {
            assert(!(s[i] is ALIVE));
        }
        assert(spec_step(s, height, width)[i] == spec_step_cell(s, height, width, i));
    }
}

/// A 2x2 block of live cells on an otherwise dead board is a still life:
/// one step leaves the whole board unchanged.
pub proof fn lemma_block_is_stable(
    s: Seq<Cell>,
    height: int,
    width: int,
    block_row: int,
    block_column: int,
)
    requires
        s.len() == height * width,
        0 <= block_row,
        block_row + 1 < height,
        0 <= block_column,
        block_column + 1 < width,
        forall|i: int|
            0 <= i < s.len() ==> ((#[trigger] s[i]) is ALIVE <==> (block_row <= i / width
                <= block_row + 1 && block_column <= i % width <= block_column + 1)),
    ensures
        spec_step(s, height, width) == s,
{
    assert forall|row: int, column: int|
        #[trigger] alive_at(s, height, width, row, column) <==> (block_row <= row <= block_row + 1
            && block_column <= column <= block_column + 1) by {
        if 0 <= row < height && 0 <= column < width {
            lemma_row_col_in_range(height, width, row, column);
            lemma_fundamental_div_mod_converse(row * width + column, width, row, column);
        }
    }
    assert forall|i: int| 0 <= i < s.len() implies (#[trigger] spec_step(s, height, width)[i])
        == s[i] by {
        lemma_dims_positive(height, width, i);
        lemma_flat_index_split(height, width, i);
        let row = i / width;
        let column = i % width;
        assert(alive_at(s, height, width, row, column) == (s[i] is ALIVE));
        assert(spec_step(s, height, width)[i] == spec_step_cell(s, height, width, i));
    }
    assert(spec_step(s, height, width) =~= s);
}

/// Seeding is idempotent: the alternating pattern determines every cell,
/// so any two seeded buffers of the same length are equal. In particular,
/// seeding twice in a row yields the same buffer as seeding once.
pub proof fn lemma_seed_idempotent(s1: Seq<Cell>, s2: Seq<Cell>)
    requires
        s1.len() == s2.len(),
        seeded(s1),
        seeded(s2),
    ensures
        s1 == s2,
{
    assert forall|i: int| 0 <= i < s1.len() implies s1[i] == s2[i] by {
        assert(s1[i] is ALIVE <==> i % 2 == 0);
        assert(s2[i] is ALIVE <==> i % 2 == 0);
    }
    assert(s1 =~= s2);
}

} // verus!
