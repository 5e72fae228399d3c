//! A player's board: nine by nine cells, each free or occupied.

use vstd::prelude::*;
use crate::transform::cells_view;

verus! {

/// The number of columns, and of rows, of a board.
pub const BOARD_SIDE: usize = 9;

/// Whether `cell`, a pair `(col, row)`, is a cell of the board.
pub open spec fn on_board(cell: (int, int)) -> bool {
    0 <= cell.0 < BOARD_SIDE && 0 <= cell.1 < BOARD_SIDE
}

/// Those of `cells` that are cells of the board.
pub open spec fn board_part(cells: Seq<(int, int)>) -> Set<(int, int)> {
    cells.to_set().filter(|cell: (int, int)| on_board(cell))
}

/// Whether `(col, row)` is a cell of the board.
pub fn in_bounds(col: i64, row: i64) -> (inside: bool)
    ensures
        inside == on_board((col as int, row as int)),
{
    0 <= col && col < BOARD_SIDE as i64 && 0 <= row && row < BOARD_SIDE as i64
}

/// A cell of a board as the window knows it: the column and the row of the
/// square that the pointer is on.
#[derive(Clone, Copy, PartialEq, Eq, Debug)]
pub struct BlockInfo {
    pub col: usize,
    pub row: usize,
}

impl BlockInfo {
    /// The cell as the offset of a placement; `None` for a square that is
    /// not on the board.
    pub fn offset(&self) -> (offset: Option<(i32, i32)>)
        ensures
            offset is Some <==> on_board((self.col as int, self.row as int)),
            offset matches Some(cell) ==> cell.0 == self.col && cell.1 == self.row,
    {
        if self.col < BOARD_SIDE && self.row < BOARD_SIDE {
            Some((self.col as i32, self.row as i32))
        } else {
            None
        }
    }
}

/// The occupancy of one player's board. Its view is the set of the occupied
/// cells. Cells only ever become occupied.
#[derive(Debug)]
pub struct OccupancyGrid {
    columns: Vec<Vec<bool>>,
}

impl View for OccupancyGrid {
    type V = Set<(int, int)>;

    closed spec fn view(&self) -> Set<(int, int)> {
        Set::new(|cell: (int, int)| on_board(cell) && self.columns@[cell.0]@[cell.1])
    }
}

impl OccupancyGrid {
    /// The invariant of a grid: nine columns of nine cells.
    pub closed spec fn wf(&self) -> bool {
        &&& self.columns@.len() == BOARD_SIDE
        &&& forall|col: int| 0 <= col < BOARD_SIDE ==> (#[trigger] self.columns@[col])@.len() == BOARD_SIDE
    }

    /// Only cells of the board are occupied.
    pub proof fn lemma_occupied_on_board(&self, cell: (int, int))
        requires
            self@.contains(cell),
        ensures
            on_board(cell),
    {
    }

    /// A board on which every cell is free.
    pub fn new() -> (grid: OccupancyGrid)
        ensures
            grid.wf(),
            grid@ == Set::<(int, int)>::empty(),
    {
        let mut columns: Vec<Vec<bool>> = Vec::new();
        let mut col: usize = 0;
        while col < BOARD_SIDE
            invariant
                col <= BOARD_SIDE,
                columns@.len() == col,
                forall|c: int| 0 <= c < col ==> (#[trigger] columns@[c])@.len() == BOARD_SIDE,
                forall|c: int, r: int|
                    0 <= c < col && 0 <= r < BOARD_SIDE ==> !(#[trigger] columns@[c]@[r]),
            decreases BOARD_SIDE - col,
        {
            let mut column: Vec<bool> = Vec::new();
            let mut row: usize = 0;
            while row < BOARD_SIDE
                invariant
                    row <= BOARD_SIDE,
                    column@.len() == row,
                    forall|r: int| 0 <= r < row ==> !(#[trigger] column@[r]),
                decreases BOARD_SIDE - row,
            {
                column.push(false);
                row += 1;
            }
            columns.push(column);
            col += 1;
        }
        let grid = OccupancyGrid { columns };
        grid
    }

    /// Whether the cell `(col, row)` is occupied. A cell outside the board is
    /// not.
    pub fn is_occupied(&self, col: i64, row: i64) -> (occupied: bool)
        requires
            self.wf(),
        ensures
            occupied == self@.contains((col as int, row as int)),
    {
        if in_bounds(col, row) {
            self.columns[col as usize][row as usize]
        } else {
            false
        }
    }

    /// Marks the cell `(col, row)` as occupied. A cell outside the board is
    /// passed over.
    pub fn occupy(&mut self, col: i64, row: i64)
        requires
            old(self).wf(),
        ensures
            final(self).wf(),
            final(self)@ == if on_board((col as int, row as int)) {
                old(self)@.insert((col as int, row as int))
            } else {
                old(self)@
            },
    {
        if in_bounds(col, row) {
            self.columns[col as usize][row as usize] = true;
        }
    }

    /// Marks every one of `cells` that is on the board as occupied, and
    /// passes over the others.
    pub fn occupy_all(&mut self, cells: &Vec<(i64, i64)>)
        requires
            old(self).wf(),
        ensures
            final(self).wf(),
            final(self)@ == old(self)@.union(board_part(cells_view(cells@))),
    {
        let mut k: usize = 0;
        while k < cells.len()
            invariant
                k <= cells@.len(),
                self.wf(),
                self@ == old(self)@.union(board_part(cells_view(cells@).take(k as int))),
            decreases cells@.len() - k,
        {
            let ghost laid = cells_view(cells@).take(k as int);
            let ghost next = cells_view(cells@).take(k + 1);
            let cell = cells[k];
            self.occupy(cell.0, cell.1);
            proof {
                assert forall|c: (int, int)| next.contains(c) <==> laid.contains(c) || c == (
                    cell.0 as int,
                    cell.1 as int,
                ) by {
                    if laid.contains(c) {
                        let j = choose|j: int| 0 <= j < laid.len() && laid[j] == c;
                        assert(next[j] == c);
                    }
                    if c == (cell.0 as int, cell.1 as int) {
                        assert(next[k as int] == c);
                    }
                }
            }
            k += 1;
        }
        assert(cells_view(cells@).take(k as int) == cells_view(cells@));
    }
}

} // verus!
