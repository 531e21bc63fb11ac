use vstd::prelude::*;

use crate::cell::Cell;

verus! {

/// A grid position: `row` and `column`, both counted from zero.
///
/// Note on direction names used around the board: "UP" here means the row
/// index grows (which moves *down* visually in row-major order) and "DOWN"
/// means it shrinks. The index arithmetic, not the label, is what the board
/// relies on.
#[derive(Clone, Copy, Debug, PartialEq, Eq, Structural)]
pub struct Coordinates {
    pub row: usize,
    pub column: usize,
}

impl Coordinates {
    /// Packs a row and a column into a position value.
    pub fn new(row: usize, column: usize) -> (position: Coordinates)
        ensures
            position.row == row,
            position.column == column,
    {
        Coordinates { row, column }
    }
}

/// A fixed-size, non-wrapping Game of Life board: `height * width` cells in
/// row-major order (index = row * width + column).
pub struct Board {
    pub height: usize,
    pub width: usize,
    pub cells: Vec<Cell>,
}

/// The cell at (`row`, `column`) is on the board and alive. Off-board
/// positions count as dead, which is exactly the non-wrapping edge rule.
pub open spec fn alive_at(s: Seq<Cell>, height: int, width: int, row: int, column: int) -> bool {
    0 <= row < height && 0 <= column < width && s[row * width + column] is ALIVE
}

/// 1 for a live neighbour, 0 for a dead or off-board one.
pub open spec fn count_if(b: bool) -> int {
    if b {
        1
    } else {
        0
    }
}

/// How many of the up-to-8 grid-adjacent neighbours of (`row`, `column`)
/// are alive. Neighbours outside the board are not counted (no wraparound).
pub open spec fn spec_neighbour_count(
    s: Seq<Cell>,
    height: int,
    width: int,
    row: int,
    column: int,
) -> int {
    count_if(alive_at(s, height, width, row + 1, column)) + count_if(
        alive_at(s, height, width, row + 1, column + 1),
    ) + count_if(alive_at(s, height, width, row + 1, column - 1)) + count_if(
        alive_at(s, height, width, row - 1, column),
    ) + count_if(alive_at(s, height, width, row - 1, column + 1)) + count_if(
        alive_at(s, height, width, row - 1, column - 1),
    ) + count_if(alive_at(s, height, width, row, column + 1)) + count_if(
        alive_at(s, height, width, row, column - 1),
    )
}

/// The standard rule: a live cell survives with 2 or 3 live neighbours,
/// a dead cell comes alive with exactly 3.
pub open spec fn spec_next_alive(alive: bool, neighbours: int) -> bool {
    if alive {
        neighbours == 2 || neighbours == 3
    } else {
        neighbours == 3
    }
}

/// The cell at flat index `i` after one generation, computed against the
/// pre-step buffer `s`.
pub open spec fn spec_step_cell(s: Seq<Cell>, height: int, width: int, i: int) -> Cell {
    if spec_next_alive(s[i] is ALIVE, spec_neighbour_count(s, height, width, i / width, i % width)) {
        Cell::ALIVE
    } else {
        Cell::DEAD
    }
}

/// The whole buffer after one generation, every count taken against `s`.
pub open spec fn spec_step(s: Seq<Cell>, height: int, width: int) -> Seq<Cell> {
    Seq::new(s.len(), |i: int| spec_step_cell(s, height, width, i))
}

/// The deterministic seeding pattern: alive exactly at even flat indices.
pub open spec fn seeded(s: Seq<Cell>) -> bool {
    forall|i: int| 0 <= i < s.len() ==> ((#[trigger] s[i]) is ALIVE <==> i % 2 == 0)
}

/// A row-major position on the board names a flat index on the board.
pub(crate) proof fn lemma_row_col_in_range(height: int, width: int, row: int, column: int)
    by (nonlinear_arith)
    requires
        0 <= row < height,
        0 <= column < width,
    ensures
        0 <= row * width + column < height * width,
{
}

/// A board that holds at least one cell has a positive height and width.
pub(crate) proof fn lemma_dims_positive(height: int, width: int, i: int)
    by (nonlinear_arith)
    requires
        0 <= height,
        0 <= width,
        0 <= i < height * width,
    ensures
        0 < height,
        0 < width,
{
}

/// Splitting a flat index into row and column lands on the board, and
/// recombining them gives the index back.
pub(crate) proof fn lemma_flat_index_split(height: int, width: int, i: int)
    requires
        0 < width,
        0 <= i < height * width,
    ensures
        0 <= i / width < height,
        0 <= i % width < width,
        (i / width) * width + (i % width) == i,
{
    vstd::arithmetic::div_mod::lemma_fundamental_div_mod(i, width);
    vstd::arithmetic::div_mod::lemma_mod_bound(i, width);
    assert(0 <= i / width < height) by (nonlinear_arith)
        requires
            0 < width,
            0 <= i < height * width,
            i == width * (i / width) + (i % width),
            0 <= i % width < width,
    ;
    assert((i / width) * width + (i % width) == i) by (nonlinear_arith)
        requires
            i == width * (i / width) + (i % width),
    ;
}

impl Board {
    /// The board's dimensions fit the platform: their product is a valid
    /// cell count.
    pub open spec fn dims_fit(&self) -> bool {
        self.height * self.width <= usize::MAX
    }

    /// Structural invariant: the buffer holds exactly `height * width` cells.
    pub open spec fn well_formed(&self) -> bool {
        &&& self.dims_fit()
        &&& self.cells@.len() == self.height * self.width
    }

    /// The number of cells on the board, `height * width`.
    pub fn get_board_length(&self) -> (length: usize)
        requires
            self.dims_fit(),
        ensures
            length == self.height * self.width,
    {
        self.height * self.width
    }

    /// Builds a board of `height * width` cells, already seeded with the
    /// alternating pattern. The product of the dimensions must fit the
    /// platform's index range; nothing else is asked of them.
    pub fn new(height: usize, width: usize) -> (board: Board)
        requires
            height * width <= usize::MAX,
        ensures
            board.well_formed(),
            board.height == height,
            board.width == width,
            seeded(board.cells@),
    {
        let mut board = Board { height, width, cells: Vec::new() };
        board.set_cells();
        board
    }

    /// (Re)initializes every cell deterministically: alive at even flat
    /// indices, dead at odd ones, overwriting whatever the buffer held.
    pub fn set_cells(&mut self)
        requires
            old(self).dims_fit(),
        ensures
            final(self).well_formed(),
            final(self).height == old(self).height,
            final(self).width == old(self).width,
            seeded(final(self).cells@),
    {
        let length = self.get_board_length();
        let mut cells: Vec<Cell> = Vec::new();
        for index in 0..length
            invariant
                cells@.len() == index,
                forall|j: int| 0 <= j < index ==> ((#[trigger] cells@[j]) is ALIVE <==> j % 2 == 0),
        {
            match index % 2 {
                0 => cells.push(Cell::ALIVE),
                _ => cells.push(Cell::DEAD),
            }
        }
        self.cells = cells;
    }

    /// A read-only snapshot of the grid as flat bytes in row-major order:
    /// 0 for a dead cell, 1 for a live one.
    pub fn cells(&self) -> (buffer: Vec<u8>)
        ensures
            buffer@.len() == self.cells@.len(),
            forall|i: int|
                0 <= i < self.cells@.len() ==> buffer@[i] == (if self.cells@[i] is ALIVE {
                    1u8
                } else {
                    0u8
                }),
    {
        let mut buffer: Vec<u8> = Vec::new();
        let mut i: usize = 0;
        while i < self.cells.len()
            invariant
                i <= self.cells@.len(),
                buffer@.len() == i,
                forall|j: int|
                    0 <= j < i ==> (#[trigger] buffer@[j]) == (if self.cells@[j] is ALIVE {
                        1u8
                    } else {
                        0u8
                    }),
            decreases self.cells@.len() - i,
        {
            if self.cells[i].is_alive() {
                buffer.push(1);
            } else {
                buffer.push(0);
            }
            i += 1;
        }
        buffer
    }

    /// Converts a flat index to coordinates: row = index / width,
    /// column = index % width. The index must name a cell on the board.
    pub fn get_cell_position_by_index(&self, cell_index: usize) -> (position: Coordinates)
        requires
            self.dims_fit(),
            cell_index < self.height * self.width,
        ensures
            position.row == cell_index as int / self.width as int,
            position.column == cell_index as int % self.width as int,
            position.row < self.height,
            position.column < self.width,
            position.row * self.width + position.column == cell_index,
    {
        proof {
            lemma_dims_positive(self.height as int, self.width as int, cell_index as int);
            lemma_flat_index_split(self.height as int, self.width as int, cell_index as int);
        }
        Coordinates::new(cell_index / self.width, cell_index % self.width)
    }

    /// Converts coordinates back to the flat index row * width + column.
    /// The position must lie on the board.
    pub fn get_cell_index_by_position(&self, position: Coordinates) -> (cell_index: usize)
        requires
            self.dims_fit(),
            position.row < self.height,
            position.column < self.width,
        ensures
            cell_index == position.row * self.width + position.column,
            cell_index < self.height * self.width,
    {
        proof {
            lemma_row_col_in_range(
                self.height as int,
                self.width as int,
                position.row as int,
                position.column as int,
            );
        }
        position.row * self.width + position.column
    }

    /// Whether the cell at `cell_position` is alive, read through the
    /// row-major index.
    fn is_cell_alive_by_position(&self, cell_position: Coordinates) -> (alive: bool)
        requires
            self.well_formed(),
            cell_position.row < self.height,
            cell_position.column < self.width,
        ensures
            alive == alive_at(
                self.cells@,
                self.height as int,
                self.width as int,
                cell_position.row as int,
                cell_position.column as int,
            ),
    {
        let cell_index: usize = self.get_cell_index_by_position(cell_position);
        self.cells[cell_index].is_alive()
    }

    /// Counts the live cells among the up-to-8 neighbours of the cell at
    /// `cell_index`, never wrapping around an edge.
    ///
    /// "UP" here grows the row index (visually down in row-major order) and
    /// is valid below the upper bound; "DOWN" shrinks it and is valid above
    /// zero. A diagonal is only looked at when both of its edge directions
    /// are valid, which is exactly the bounds check on the diagonal itself.
    #[verifier::rlimit(60)]
    pub fn get_neighbours_count(&self, cell_index: usize) -> (count: usize)
        requires
            self.well_formed(),
            cell_index < self.height * self.width,
        ensures
            count == spec_neighbour_count(
                self.cells@,
                self.height as int,
                self.width as int,
                cell_index as int / self.width as int,
                cell_index as int % self.width as int,
            ),
            count <= 8,
    {
        let current_position = self.get_cell_position_by_index(cell_index);
        let row = current_position.row;
        let column = current_position.column;

        let up_valid = row + 1 < self.height;
        let down_valid = row > 0;
        let right_valid = column + 1 < self.width;
        let left_valid = column > 0;

        let mut neighbours_count: usize = 0;

        if up_valid {
            if self.is_cell_alive_by_position(Coordinates::new(row + 1, column)) {
                neighbours_count += 1;
            }
            if right_valid {
                if self.is_cell_alive_by_position(Coordinates::new(row + 1, column + 1)) {
                    neighbours_count += 1;
                }
            }
            if left_valid {
                if self.is_cell_alive_by_position(Coordinates::new(row + 1, column - 1)) {
                    neighbours_count += 1;
                }
            }
        }

        if down_valid {
            if self.is_cell_alive_by_position(Coordinates::new(row - 1, column)) {
                neighbours_count += 1;
            }
            if right_valid {
                if self.is_cell_alive_by_position(Coordinates::new(row - 1, column + 1)) {
                    neighbours_count += 1;
                }
            }
            if left_valid {
                if self.is_cell_alive_by_position(Coordinates::new(row - 1, column - 1)) {
                    neighbours_count += 1;
                }
            }
        }

        if right_valid {
            if self.is_cell_alive_by_position(Coordinates::new(row, column + 1)) {
                neighbours_count += 1;
            }
        }

        if left_valid {
            if self.is_cell_alive_by_position(Coordinates::new(row, column - 1)) {
                neighbours_count += 1;
            }
        }

        neighbours_count
    }

    /// Advances the board by exactly one generation. Every neighbour count
    /// is taken against the pre-step grid, and the new grid replaces the old
    /// one only after all of it is computed.
    #[verifier::loop_isolation(false)]
    pub fn toggle_cells(&mut self)
        requires
            old(self).well_formed(),
        ensures
            final(self).well_formed(),
            final(self).height == old(self).height,
            final(self).width == old(self).width,
            final(self).cells@ == spec_step(
                old(self).cells@,
                old(self).height as int,
                old(self).width as int,
            ),
    {
        let length = self.get_board_length();
        let mut next_cells: Vec<Cell> = Vec::new();

        for cell_index in 0..length
            invariant
                next_cells@.len() == cell_index,
                forall|j: int|
                    0 <= j < cell_index ==> (#[trigger] next_cells@[j]) == spec_step_cell(
                        self.cells@,
                        self.height as int,
                        self.width as int,
                        j,
                    ),
        {
            let neighbours_count = self.get_neighbours_count(cell_index);
            let mut next_cell = self.cells[cell_index];
            let is_alive = next_cell.is_alive();

            if is_alive {
                if neighbours_count != 2 && neighbours_count != 3 {
                    next_cell.toggle();
                }
            } else {
                if neighbours_count == 3 {
                    next_cell.toggle();
                }
            }

            next_cells.push(next_cell);
        }

        assert(next_cells@ =~= spec_step(
            self.cells@,
            self.height as int,
            self.width as int,
        ));
        self.cells = next_cells;
    }
}

} // verus!
