//! Patches and the catalog of the patches of one game.

use std::collections::VecDeque;
use vstd::prelude::*;
use crate::direction::ShapeDirection;
use crate::transform::{cells_view, offset_view, transform, transform_spec};

verus! {

/// A filled cell in a shape.
pub const X: bool = true;

/// An empty cell in a shape.
pub const O: bool = false;

/// The number of patches in the catalog.
pub const CATALOG_LEN: usize = 33;

/// The number of columns in which the catalog writes its shapes.
pub const CATALOG_COLUMNS: usize = 3;

/// A patch: a tile of fixed shape with the price of acquiring it and the
/// income it brings once it lies on a board. A patch never changes.
#[derive(Debug)]
pub struct Patch {
    shape: Vec<bool>,
    footprint: (u8, u8),
    button_cost: u8,
    time_cost: u8,
    button_income: u8,
}

/// A patch as plain mathematical values.
pub struct PatchView {
    /// The cells of the shape grid, row by row; a trailing run of empty cells
    /// may be missing.
    pub shape: Seq<bool>,
    /// The number of columns of the shape grid.
    pub width: nat,
    /// The number of rows of the shape grid.
    pub height: nat,
    /// The buttons that acquiring the patch costs.
    pub button_cost: nat,
    /// The steps on the time track that acquiring the patch costs.
    pub time_cost: nat,
    /// The buttons that the patch adds to its owner's income.
    pub button_income: nat,
}

impl PatchView {
    /// The shape fits the grid of its footprint.
    pub open spec fn wf(self) -> bool {
        self.shape.len() <= self.width * self.height
    }

    /// The number of filled cells.
    pub open spec fn cell_count(self) -> nat {
        crate::transform::filled_count(self.shape)
    }

    /// The board cells that the patch covers when it is turned to `dir` and
    /// its anchor laid on `offset`.
    pub open spec fn cells(self, dir: ShapeDirection, offset: (int, int)) -> Seq<(int, int)> {
        transform_spec(self.shape, self.width as int, self.height as int, dir, offset)
    }
}

/// Rotation preserves the cell count: in every orientation and at every
/// offset a patch covers as many cells as its shape has filled cells, so
/// that any two placements of one patch cover equally many.
pub proof fn lemma_rotation_preserves_cell_count(
    patch: PatchView,
    dir: ShapeDirection,
    offset: (int, int),
    other_dir: ShapeDirection,
    other_offset: (int, int),
)
    ensures
        patch.cells(dir, offset).len() == patch.cell_count(),
        patch.cells(dir, offset).len() == patch.cells(other_dir, other_offset).len(),
{
    crate::transform::lemma_transform_len(patch.shape, patch.width as int, patch.height as int, dir, offset);
    crate::transform::lemma_transform_len(
        patch.shape,
        patch.width as int,
        patch.height as int,
        other_dir,
        other_offset,
    );
}

impl View for Patch {
    type V = PatchView;

    closed spec fn view(&self) -> PatchView {
        PatchView {
            shape: self.shape@,
            width: self.footprint.0 as nat,
            height: self.footprint.1 as nat,
            button_cost: self.button_cost as nat,
            time_cost: self.time_cost as nat,
            button_income: self.button_income as nat,
        }
    }
}

impl Patch {
    /// The invariant of a patch: its shape fits the grid of its footprint.
    pub open spec fn wf(&self) -> bool {
        self@.wf()
    }

    /// A patch of the given shape, footprint `(width, height)`, price and
    /// income; `None` if the shape has more cells than the footprint's grid.
    pub fn new(
        shape: Vec<bool>,
        footprint: (u8, u8),
        button_cost: u8,
        time_cost: u8,
        button_income: u8,
    ) -> (patch: Option<Patch>)
        ensures
            patch is Some <==> shape@.len() <= footprint.0 as int * footprint.1 as int,
            patch matches Some(p) ==> p.wf() && p@ == (PatchView {
                shape: shape@,
                width: footprint.0 as nat,
                height: footprint.1 as nat,
                button_cost: button_cost as nat,
                time_cost: time_cost as nat,
                button_income: button_income as nat,
            }),
    {
        assert(footprint.0 as int * footprint.1 as int <= 255 * 255) by (nonlinear_arith)
            requires
                0 <= footprint.0 as int <= 255,
                0 <= footprint.1 as int <= 255,
        ;
        if shape.len() <= (footprint.0 as usize) * (footprint.1 as usize) {
            Some(Patch { shape, footprint, button_cost, time_cost, button_income })
        } else {
            None
        }
    }

    /// The cells of the shape grid, row by row.
    pub fn shape(&self) -> (shape: &Vec<bool>)
        ensures
            shape@ == self@.shape,
    {
        &self.shape
    }

    /// The footprint: the width and the height of the shape grid.
    pub fn footprint(&self) -> (footprint: (u8, u8))
        ensures
            footprint.0 == self@.width,
            footprint.1 == self@.height,
    {
        self.footprint
    }

    /// The buttons that acquiring the patch costs.
    pub fn button_cost(&self) -> (cost: u8)
        ensures
            cost == self@.button_cost,
    {
        self.button_cost
    }

    /// The steps on the time track that acquiring the patch costs.
    pub fn time_cost(&self) -> (cost: u8)
        ensures
            cost == self@.time_cost,
    {
        self.time_cost
    }

    /// The buttons that the patch adds to its owner's income.
    pub fn button_income(&self) -> (income: u8)
        ensures
            income == self@.button_income,
    {
        self.button_income
    }

    /// The board cells that the patch covers when it is turned to `dir` and
    /// its anchor laid on `offset`, in the order of the shape's filled cells.
    pub fn get_pos(&self, offset: (i32, i32), dir: ShapeDirection) -> (cells: Vec<(i64, i64)>)
        requires
            self.wf(),
        ensures
            cells_view(cells@) == self@.cells(dir, offset_view(offset)),
            cells@.len() == self@.cell_count(),
    {
        transform(&self.shape, self.footprint, dir, offset)
    }
}

/// The shapes of the catalog, one line each: the five rows of a grid of three
/// columns, from the top row down.
pub const CATALOG_SHAPES: [[bool; 15]; 33] = [
    [X, X, O, O, X, O, O, X, O, O, X, X, O, O, O],
    [O, X, O, X, X, X, O, X, O, O, X, O, O, O, O],
    [O, O, X, O, X, X, X, X, O, O, O, O, O, O, O],
    [X, O, O, X, X, O, X, O, O, X, O, O, O, O, O],
    [X, X, O, O, X, O, O, O, O, O, O, O, O, O, O],
    [X, X, X, O, X, O, X, X, X, O, O, O, O, O, O],
    [O, X, O, X, X, O, X, X, O, X, O, O, O, O, O],
    [X, X, X, X, X, O, O, O, O, O, O, O, O, O, O],
    [O, X, X, X, X, O, O, X, X, O, O, O, O, O, O],
    [X, X, O, O, O, O, O, O, O, O, O, O, O, O, O],
    [X, X, O, X, O, O, X, O, O, X, O, O, O, O, O],
    [O, X, O, X, X, X, O, X, O, O, O, O, O, O, O],
    [X, X, X, O, X, O, O, X, O, O, X, O, O, O, O],
    [O, X, O, X, X, O, O, X, X, O, X, O, O, O, O],
    [X, X, O, X, X, X, O, O, X, O, O, O, O, O, O],
    [X, O, O, X, X, O, X, X, O, X, O, O, O, O, O],
    [X, X, O, O, X, O, O, X, O, O, O, O, O, O, O],
    [O, X, O, O, X, O, X, X, X, O, X, O, O, X, O],
    [X, X, O, O, X, O, O, X, O, X, X, O, O, O, O],
    [X, X, O, O, X, O, O, O, O, O, O, O, O, O, O],
    [X, O, O, X, O, O, X, O, O, X, O, O, O, O, O],
    [X, O, O, X, O, O, X, X, O, O, X, O, O, O, O],
    [O, X, X, X, X, O, O, O, O, O, O, O, O, O, O],
    [X, X, X, X, O, O, O, O, O, O, O, O, O, O, O],
    [X, X, X, X, O, X, O, O, O, O, O, O, O, O, O],
    [X, X, O, O, X, X, O, O, O, O, O, O, O, O, O],
    [O, X, O, X, X, X, X, X, X, O, X, O, O, O, O],
    [X, X, O, X, X, O, X, O, O, X, O, O, O, O, O],
    [X, O, O, X, X, X, X, O, O, O, O, O, O, O, O],
    [X, O, O, X, O, O, X, O, O, X, O, O, X, O, O],
    [X, X, X, O, X, O, O, O, O, O, O, O, O, O, O],
    [X, X, O, X, X, O, O, O, O, O, O, O, O, O, O],
    [X, X, X, O, O, O, O, O, O, O, O, O, O, O, O],
];

/// The button cost of each catalog entry.
pub const CATALOG_BUTTON_COSTS: [u8; 33] = [
    1, 0, 10, 3, 3, 2, 4, 2, 3, 2, 10,
    5, 7, 2, 8, 7, 4, 1, 1, 1, 3, 2,
    3, 4, 1, 7, 5, 10, 5, 7, 2, 6, 2,
];

/// The time cost of each catalog entry.
pub const CATALOG_TIME_COSTS: [u8; 33] = [
    2, 3, 4, 4, 1, 3, 2, 2, 6, 1, 3,
    4, 2, 1, 6, 4, 6, 4, 5, 3, 3, 3,
    2, 2, 2, 6, 3, 5, 5, 1, 2, 5, 2,
];

/// The button income of each catalog entry.
pub const CATALOG_BUTTON_INCOMES: [u8; 33] = [
    0, 1, 3, 1, 1, 0, 0, 0, 0, 0, 2,
    2, 2, 0, 3, 2, 2, 1, 1, 0, 1, 1,
    1, 1, 0, 3, 1, 3, 2, 1, 0, 2, 0,
];

/// The length of a row-major grid up to and including its last filled cell.
pub open spec fn trimmed_len(grid: Seq<bool>) -> nat
    decreases grid.len(),
{
    if grid.len() == 0 {
        0
    } else if grid.last() {
        grid.len()
    } else {
        trimmed_len(grid.drop_last())
    }
}

/// The shape of catalog entry `k`: its line of the table up to its last
/// filled cell.
pub open spec fn catalog_shape(k: int) -> Seq<bool> {
    CATALOG_SHAPES@[k]@.take(trimmed_len(CATALOG_SHAPES@[k]@) as int)
}

/// The width of the grid of a shape of `len` cells that is written in rows of
/// three: three columns, or fewer where the shape ends before the third.
pub open spec fn rows_of_three_width(len: nat) -> nat {
    if len < CATALOG_COLUMNS {
        len
    } else {
        CATALOG_COLUMNS as nat
    }
}

/// The number of rows that a shape of `len` cells takes in rows of three.
pub open spec fn rows_of_three_height(len: nat) -> nat {
    ((len + CATALOG_COLUMNS - 1) / CATALOG_COLUMNS as int) as nat
}

/// Catalog entry `k`, for `k` below [`CATALOG_LEN`].
pub open spec fn catalog_entry(k: int) -> PatchView {
    let shape = catalog_shape(k);
    PatchView {
        shape,
        width: rows_of_three_width(shape.len()),
        height: rows_of_three_height(shape.len()),
        button_cost: CATALOG_BUTTON_COSTS@[k] as nat,
        time_cost: CATALOG_TIME_COSTS@[k] as nat,
        button_income: CATALOG_BUTTON_INCOMES@[k] as nat,
    }
}

/// The trimmed length of a grid is at most its length.
pub proof fn lemma_trimmed_len_bound(grid: Seq<bool>)
    ensures
        trimmed_len(grid) <= grid.len(),
    decreases grid.len(),
{
    if grid.len() > 0 && !grid.last() {
        lemma_trimmed_len_bound(grid.drop_last());
    }
}

/// Every catalog entry fits its footprint, and its footprint, price and
/// income are small.
pub proof fn lemma_catalog_entry_wf(k: int)
    requires
        0 <= k < CATALOG_LEN,
    ensures
        catalog_entry(k).wf(),
        catalog_entry(k).shape.len() <= 15,
        catalog_entry(k).width <= 3,
        catalog_entry(k).height <= 5,
        catalog_entry(k).button_cost <= 255,
        catalog_entry(k).time_cost <= 255,
        catalog_entry(k).button_income <= 255,
{
    let grid = CATALOG_SHAPES@[k]@;
    lemma_trimmed_len_bound(grid);
    let len = catalog_shape(k).len();
    assert(len <= rows_of_three_width(len) * rows_of_three_height(len)) by (nonlinear_arith)
        requires
            len <= 15,
            rows_of_three_width(len) == if len < 3 {
                len
            } else {
                3
            },
            rows_of_three_height(len) == (len + 2) / 3,
    ;
}

/// Entry `k` of the catalog.
pub fn catalog_patch(k: usize) -> (patch: Patch)
    requires
        k < CATALOG_LEN,
    ensures
        patch.wf(),
        patch@ == catalog_entry(k as int),
{
    let grid = &CATALOG_SHAPES[k];
    let mut len: usize = grid.len();
    assert(grid@.take(len as int) == grid@);
    while len > 0 && !grid[len - 1]
        invariant
            len <= 15,
            grid@.len() == 15,
            trimmed_len(grid@) == trimmed_len(grid@.take(len as int)),
        decreases len,
    {
        assert(grid@.take(len as int).drop_last() == grid@.take(len - 1));
        len -= 1;
    }
    let mut shape: Vec<bool> = Vec::new();
    let mut i: usize = 0;
    while i < len
        invariant
            i <= len <= 15,
            grid@.len() == 15,
            shape@ == grid@.take(i as int),
        decreases len - i,
    {
        shape.push(grid[i]);
        i += 1;
    }
    let width: u8 = if len < CATALOG_COLUMNS {
        len as u8
    } else {
        CATALOG_COLUMNS as u8
    };
    let height: u8 = ((len + CATALOG_COLUMNS - 1) / CATALOG_COLUMNS) as u8;
    assert(len <= width * height) by (nonlinear_arith)
        requires
            len <= 15,
            width == if len < 3 {
                len as int
            } else {
                3
            },
            height == (len + 2) / 3,
    ;
    Patch {
        shape,
        footprint: (width, height),
        button_cost: CATALOG_BUTTON_COSTS[k],
        time_cost: CATALOG_TIME_COSTS[k],
        button_income: CATALOG_BUTTON_INCOMES[k],
    }
}

/// The catalog: the patches of a game, in the order in which they are laid
/// out round the boards. It is the same table in every game.
pub fn new_patches() -> (patches: Vec<Patch>)
    ensures
        patches@.len() == CATALOG_LEN,
        forall|k: int| 0 <= k < CATALOG_LEN ==> (#[trigger] patches@[k]).wf(),
        forall|k: int| 0 <= k < CATALOG_LEN ==> (#[trigger] patches@[k])@ == catalog_entry(k),
{
    let mut patches: Vec<Patch> = Vec::new();
    let mut k: usize = 0;
    while k < CATALOG_LEN
        invariant
            k <= CATALOG_LEN,
            patches@.len() == k,
            forall|j: int| 0 <= j < k ==> (#[trigger] patches@[j]).wf(),
            forall|j: int| 0 <= j < k ==> (#[trigger] patches@[j])@ == catalog_entry(j),
        decreases CATALOG_LEN - k,
    {
        patches.push(catalog_patch(k));
        k += 1;
    }
    patches
}

/// The number of places on the ring round the boards on which the patches are
/// laid out.
pub const PERIMETER_LEN: usize = 46;

/// The number of rows of the layout grid whose border is the ring.
pub const PERIMETER_ROWS: i32 = 9;

/// The number of columns of the layout grid whose border is the ring.
pub const PERIMETER_COLUMNS: i32 = 16;

/// The column of the top row at which the ring starts.
pub const PERIMETER_START_COLUMN: i32 = 7;

/// Place `k` of the ring, as `(row, column)` of the layout grid. The ring
/// starts in the top row at column 7, runs right to the corner, down the right
/// column, left along the bottom row, up the left column and right along the
/// top row until it closes before its start.
pub open spec fn perimeter_cell(k: int) -> (int, int) {
    if k < 8 {
        (0, 7 + k)
    } else if k < 16 {
        (k - 8, 15)
    } else if k < 31 {
        (8, 31 - k)
    } else if k < 39 {
        (39 - k, 0)
    } else {
        (0, k - 39)
    }
}

/// Every place of the ring lies on the border of the layout grid.
pub proof fn lemma_perimeter_on_border(k: int)
    requires
        0 <= k < PERIMETER_LEN,
    ensures
        0 <= perimeter_cell(k).0 < PERIMETER_ROWS,
        0 <= perimeter_cell(k).1 < PERIMETER_COLUMNS,
        perimeter_cell(k).0 == 0 || perimeter_cell(k).0 == PERIMETER_ROWS - 1 || perimeter_cell(
            k,
        ).1 == 0 || perimeter_cell(k).1 == PERIMETER_COLUMNS - 1,
{
}

/// No two places of the ring are the same cell.
pub proof fn lemma_perimeter_distinct(j: int, k: int)
    requires
        0 <= j < PERIMETER_LEN,
        0 <= k < PERIMETER_LEN,
        j != k,
    ensures
        perimeter_cell(j) != perimeter_cell(k),
{
}

/// Each place of the ring is next to the one before it, and the last is next
/// to the first: the ring is closed.
pub proof fn lemma_perimeter_is_ring(k: int)
    requires
        0 <= k < PERIMETER_LEN,
    ensures
        ({
            let a = perimeter_cell(k);
            let b = perimeter_cell((k + 1) % PERIMETER_LEN as int);
            (a.0 == b.0 && (a.1 - b.1 == 1 || b.1 - a.1 == 1)) || (a.1 == b.1 && (a.0 - b.0 == 1
                || b.0 - a.0 == 1))
        }),
{
}

/// The places of the first `n` patches on the ring round the boards, as
/// `(row, column)` of the layout grid; the ring has [`PERIMETER_LEN`] places,
/// and patches beyond them get none.
pub fn generate_perimeter_positions(n: usize) -> (positions: VecDeque<(i32, i32)>)
    ensures
        positions@.len() == if n < PERIMETER_LEN {
            n
        } else {
            PERIMETER_LEN
        },
        forall|k: int|
            0 <= k < positions@.len() ==> (#[trigger] positions@[k].0 as int, positions@[k].1 as int)
                == perimeter_cell(k),
{
    let mut i: i32 = 0;
    let mut j: i32 = PERIMETER_START_COLUMN;
    let mut idx: usize = 0;
    let mut ret: VecDeque<(i32, i32)> = VecDeque::new();
    while j < 15 && idx < n
        invariant
            i == 0,
            idx <= 8,
            idx <= n,
            j == 7 + idx,
            ret@.len() == idx,
            forall|k: int|
                0 <= k < ret@.len() ==> (#[trigger] ret@[k].0 as int, ret@[k].1 as int)
                    == perimeter_cell(k),
        decreases 15 - j,
    {
        ret.push_back((i, j));
        j += 1;
        idx += 1;
    }
    while i < 8 && idx < n
        invariant
            idx <= n,
            idx < 8 ==> idx == n,
            idx >= 8 ==> j == 15 && i == idx - 8,
            0 <= i <= 8,
            idx <= 16,
            ret@.len() == idx,
            forall|k: int|
                0 <= k < ret@.len() ==> (#[trigger] ret@[k].0 as int, ret@[k].1 as int)
                    == perimeter_cell(k),
        decreases 8 - i,
    {
        ret.push_back((i, j));
        i += 1;
        idx += 1;
    }
    while j >= 1 && idx < n
        invariant
            idx <= n,
            idx < 16 ==> idx == n,
            idx >= 16 ==> i == 8 && j == 31 - idx,
            0 <= j <= 15,
            idx <= 31,
            ret@.len() == idx,
            forall|k: int|
                0 <= k < ret@.len() ==> (#[trigger] ret@[k].0 as int, ret@[k].1 as int)
                    == perimeter_cell(k),
        decreases j,
    {
        ret.push_back((i, j));
        j -= 1;
        idx += 1;
    }
    while i >= 1 && idx < n
        invariant
            idx <= n,
            idx < 31 ==> idx == n,
            idx >= 31 ==> j == 0 && i == 39 - idx,
            0 <= i <= 8,
            idx <= 39,
            ret@.len() == idx,
            forall|k: int|
                0 <= k < ret@.len() ==> (#[trigger] ret@[k].0 as int, ret@[k].1 as int)
                    == perimeter_cell(k),
        decreases i,
    {
        ret.push_back((i, j));
        i -= 1;
        idx += 1;
    }
    while j < PERIMETER_START_COLUMN && idx < n
        invariant
            idx <= n,
            idx < 39 ==> idx == n,
            idx >= 39 ==> i == 0 && j == idx - 39,
            0 <= j <= 15,
            idx <= 46,
            ret@.len() == idx,
            forall|k: int|
                0 <= k < ret@.len() ==> (#[trigger] ret@[k].0 as int, ret@[k].1 as int)
                    == perimeter_cell(k),
        decreases 15 - j,
    {
        ret.push_back((i, j));
        j += 1;
        idx += 1;
    }
    ret
}

} // verus!
