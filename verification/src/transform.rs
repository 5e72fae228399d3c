//! The shape transform: from a patch's canonical shape, an orientation and an
//! offset to the board cells that the patch covers.
//!
//! A shape is a row-major grid of booleans, `width` columns by `height` rows,
//! of which a trailing run of empty cells may be left out. A cell is a pair
//! `(col, row)`. The anchor of a placement is the top-left corner of the
//! rotated bounding box: the offset is the board cell on which that corner
//! comes to lie, whatever the orientation.

use vstd::prelude::*;
use crate::direction::ShapeDirection;

verus! {

/// Column and row of entry `i` of a row-major grid that is `w` columns wide.
pub open spec fn cell_of_index(i: int, w: int) -> (int, int) {
    (i % w, i / w)
}

/// The cell `cell` of a `w` by `h` box after one clockwise quarter turn of the
/// box about itself. The turned box is `h` columns by `w` rows.
pub open spec fn quarter_turn(cell: (int, int), w: int, h: int) -> (int, int) {
    (h - 1 - cell.1, cell.0)
}

/// The cell `cell` of a `w` by `h` box after the box has been turned to `dir`.
pub open spec fn oriented(cell: (int, int), w: int, h: int, dir: ShapeDirection) -> (int, int) {
    match dir {
        ShapeDirection::East => cell,
        ShapeDirection::South => (h - 1 - cell.1, cell.0),
        ShapeDirection::West => (w - 1 - cell.0, h - 1 - cell.1),
        ShapeDirection::North => (cell.1, w - 1 - cell.0),
    }
}

/// The board cell on which entry `i` of a shape comes to lie.
pub open spec fn place(i: int, w: int, h: int, dir: ShapeDirection, offset: (int, int)) -> (
    int,
    int,
) {
    let local = oriented(cell_of_index(i, w), w, h, dir);
    (offset.0 + local.0, offset.1 + local.1)
}

/// The number of filled cells of a shape.
pub open spec fn filled_count(shape: Seq<bool>) -> nat
    decreases shape.len(),
{
    if shape.len() == 0 {
        0
    } else {
        filled_count(shape.drop_last()) + if shape.last() {
            1nat
        } else {
            0nat
        }
    }
}

/// The board cells that a shape covers, in the order of its filled entries.
/// Nothing is clamped or dropped: a cell may lie outside any board.
pub open spec fn transform_spec(
    shape: Seq<bool>,
    w: int,
    h: int,
    dir: ShapeDirection,
    offset: (int, int),
) -> Seq<(int, int)>
    decreases shape.len(),
{
    if shape.len() == 0 {
        Seq::empty()
    } else {
        let rest = transform_spec(shape.drop_last(), w, h, dir, offset);
        if shape.last() {
            rest.push(place(shape.len() - 1, w, h, dir, offset))
        } else {
            rest
        }
    }
}

/// Whether some filled entry of the shape comes to lie on `cell`.
pub open spec fn covers(
    shape: Seq<bool>,
    w: int,
    h: int,
    dir: ShapeDirection,
    offset: (int, int),
    cell: (int, int),
) -> bool {
    exists|i: int| 0 <= i < shape.len() && shape[i] && #[trigger] place(i, w, h, dir, offset) == cell
}

/// A list of cells as pairs of mathematical integers.
pub open spec fn cells_view(cells: Seq<(i64, i64)>) -> Seq<(int, int)> {
    cells.map_values(|c: (i64, i64)| (c.0 as int, c.1 as int))
}

/// An offset as a pair of mathematical integers.
pub open spec fn offset_view(offset: (i32, i32)) -> (int, int) {
    (offset.0 as int, offset.1 as int)
}

/// Each orientation is that many successive quarter turns, and a fourth
/// quarter turn brings every cell back.
pub proof fn lemma_oriented_is_successive_quarter_turns(cell: (int, int), w: int, h: int)
    ensures
        oriented(cell, w, h, ShapeDirection::East) == cell,
        oriented(cell, w, h, ShapeDirection::South) == quarter_turn(cell, w, h),
        oriented(cell, w, h, ShapeDirection::West) == quarter_turn(
            oriented(cell, w, h, ShapeDirection::South),
            h,
            w,
        ),
        oriented(cell, w, h, ShapeDirection::North) == quarter_turn(
            oriented(cell, w, h, ShapeDirection::West),
            w,
            h,
        ),
        quarter_turn(oriented(cell, w, h, ShapeDirection::North), h, w) == cell,
{
}

/// Rotation preserves the cell count: whatever the orientation and the
/// offset, the transform yields as many cells as the shape has filled entries.
pub proof fn lemma_transform_len(
    shape: Seq<bool>,
    w: int,
    h: int,
    dir: ShapeDirection,
    offset: (int, int),
)
    ensures
        transform_spec(shape, w, h, dir, offset).len() == filled_count(shape),
    decreases shape.len(),
{
    if shape.len() > 0 {
        lemma_transform_len(shape.drop_last(), w, h, dir, offset);
    }
}

/// A cell is among the transformed cells exactly if a filled entry of the
/// shape comes to lie on it.
pub proof fn lemma_transform_contains(
    shape: Seq<bool>,
    w: int,
    h: int,
    dir: ShapeDirection,
    offset: (int, int),
    cell: (int, int),
)
    ensures
        transform_spec(shape, w, h, dir, offset).contains(cell) <==> covers(
            shape,
            w,
            h,
            dir,
            offset,
            cell,
        ),
    decreases shape.len(),
{
    let cells = transform_spec(shape, w, h, dir, offset);
    if shape.len() > 0 {
        let init = shape.drop_last();
        let rest = transform_spec(init, w, h, dir, offset);
        let last = shape.len() - 1;
        lemma_transform_contains(init, w, h, dir, offset, cell);
        if covers(shape, w, h, dir, offset, cell) {
            let i = choose|i: int|
                0 <= i < shape.len() && shape[i] && #[trigger] place(i, w, h, dir, offset) == cell;
            if i == last {
                assert(cells[cells.len() - 1] == cell);
            } else {
                let k = choose|k: int| 0 <= k < rest.len() && rest[k] == cell;
                assert(cells[k] == cell);
            }
        }
        if cells.contains(cell) {
            let k = choose|k: int| 0 <= k < cells.len() && cells[k] == cell;
            if !(shape.last() && k == cells.len() - 1) {
                assert(rest[k] == cell);
                let i = choose|i: int|
                    0 <= i < init.len() && init[i] && #[trigger] place(i, w, h, dir, offset)
                        == cell;
                assert(shape[i]);
            }
        }
    }
}

/// The transform of a shape: the board cells that its filled entries cover
/// when the patch is turned to `dir` and its anchor laid on `offset`.
///
/// The cells come in the order of the shape's filled entries. Cells outside a
/// board are returned like any other.
pub fn transform(shape: &Vec<bool>, footprint: (u8, u8), dir: ShapeDirection, offset: (i32, i32)) -> (cells:
    Vec<(i64, i64)>)
    requires
        shape@.len() <= footprint.0 as int * footprint.1 as int,
    ensures
        cells_view(cells@) == transform_spec(
            shape@,
            footprint.0 as int,
            footprint.1 as int,
            dir,
            offset_view(offset),
        ),
        cells@.len() == filled_count(shape@),
{
    let w: usize = footprint.0 as usize;
    let h: i64 = footprint.1 as i64;
    let mut cells: Vec<(i64, i64)> = Vec::new();
    let mut i: usize = 0;
    while i < shape.len()
        invariant
            i <= shape@.len(),
            w == footprint.0,
            h == footprint.1,
            shape@.len() <= footprint.0 as int * footprint.1 as int,
            cells_view(cells@) == transform_spec(
                shape@.take(i as int),
                footprint.0 as int,
                footprint.1 as int,
                dir,
                offset_view(offset),
            ),
        decreases shape@.len() - i,
    {
        proof {
            lemma_index_in_grid(i as int, footprint.0 as int, footprint.1 as int);
            assert(shape@.take(i + 1).drop_last() == shape@.take(i as int));
        }
        let ghost before = cells_view(cells@);
        if shape[i] {
            let c: i64 = (i % w) as i64;
            let r: i64 = (i / w) as i64;
            let local: (i64, i64) = match dir {
                ShapeDirection::East => (c, r),
                ShapeDirection::South => (h - 1 - r, c),
                ShapeDirection::West => (w as i64 - 1 - c, h - 1 - r),
                ShapeDirection::North => (r, w as i64 - 1 - c),
            };
            cells.push((offset.0 as i64 + local.0, offset.1 as i64 + local.1));
            assert(cells_view(cells@) == before.push(
                place(i as int, footprint.0 as int, footprint.1 as int, dir, offset_view(offset)),
            ));
        }
        i += 1;
    }
    proof {
        assert(shape@.take(i as int) == shape@);
        lemma_transform_len(
            shape@,
            footprint.0 as int,
            footprint.1 as int,
            dir,
            offset_view(offset),
        );
    }
    cells
}

/// An index below `w * h` lies in a grid with at least one column, in a
/// column below `w` and a row below `h`.
pub proof fn lemma_index_in_grid(i: int, w: int, h: int)
    requires
        0 <= i < w * h,
        0 <= w,
        0 <= h,
    ensures
        0 < w,
        0 <= i % w < w,
        0 <= i / w < h,
{
    assert(w != 0) by (nonlinear_arith)
        requires
            0 <= i < w * h,
    ;
    assert(0 <= i / w < h && 0 <= i % w < w) by (nonlinear_arith)
        requires
            0 <= i < w * h,
            0 < w,
    ;
}

/// The width and the height of the bounding box of a `w` by `h` shape that
/// has been turned to `dir`: a quarter turn swaps them.
pub open spec fn turned_box(w: int, h: int, dir: ShapeDirection) -> (int, int) {
    match dir {
        ShapeDirection::East | ShapeDirection::West => (w, h),
        ShapeDirection::South | ShapeDirection::North => (h, w),
    }
}

/// Two entries of a shape never come to lie on one cell.
pub proof fn lemma_place_injective(
    i: int,
    j: int,
    w: int,
    h: int,
    dir: ShapeDirection,
    offset: (int, int),
)
    requires
        0 < w,
        i != j,
    ensures
        place(i, w, h, dir, offset) != place(j, w, h, dir, offset),
{
    vstd::arithmetic::div_mod::lemma_fundamental_div_mod(i, w);
    vstd::arithmetic::div_mod::lemma_fundamental_div_mod(j, w);
}

/// The transformed cells are pairwise distinct.
pub proof fn lemma_transform_no_duplicates(
    shape: Seq<bool>,
    w: int,
    h: int,
    dir: ShapeDirection,
    offset: (int, int),
)
    requires
        0 < w,
    ensures
        transform_spec(shape, w, h, dir, offset).no_duplicates(),
    decreases shape.len(),
{
    if shape.len() > 0 {
        let init = shape.drop_last();
        let rest = transform_spec(init, w, h, dir, offset);
        let last = shape.len() - 1;
        let cell = place(last, w, h, dir, offset);
        lemma_transform_no_duplicates(init, w, h, dir, offset);
        if shape.last() {
            lemma_transform_contains(init, w, h, dir, offset, cell);
            if rest.contains(cell) {
                let i = choose|i: int|
                    0 <= i < init.len() && init[i] && #[trigger] place(i, w, h, dir, offset)
                        == cell;
                lemma_place_injective(i, last, w, h, dir, offset);
            }
            assert forall|a: int, b: int|
                0 <= a < rest.push(cell).len() && 0 <= b < rest.push(cell).len() && a != b implies rest.push(
                cell,
            )[a] != rest.push(cell)[b] by {}
        }
    }
}

/// Every transformed cell lies in the turned bounding box, whose top-left
/// corner is the offset.
pub proof fn lemma_transform_in_box(
    shape: Seq<bool>,
    w: int,
    h: int,
    dir: ShapeDirection,
    offset: (int, int),
    cell: (int, int),
)
    requires
        0 <= w,
        0 <= h,
        shape.len() <= w * h,
        transform_spec(shape, w, h, dir, offset).contains(cell),
    ensures
        offset.0 <= cell.0 < offset.0 + turned_box(w, h, dir).0,
        offset.1 <= cell.1 < offset.1 + turned_box(w, h, dir).1,
{
    lemma_transform_contains(shape, w, h, dir, offset, cell);
    let i = choose|i: int|
        0 <= i < shape.len() && shape[i] && #[trigger] place(i, w, h, dir, offset) == cell;
    lemma_index_in_grid(i, w, h);
}

} // verus!
