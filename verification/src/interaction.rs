//! The selection of a patch before it is placed: which patch is chosen, how
//! it is turned, what it would cover, and the placing itself.

use vstd::prelude::*;
use crate::direction::ShapeDirection;
use crate::game_state::{BoardGame, GameView, PlacementError, PlayerId};
use crate::transform::cells_view;

verus! {

/// The patch that a player has chosen but not yet placed, and the orientation
/// chosen for it.
#[derive(Clone, Copy, Debug)]
pub struct InteractiveInfo {
    /// The index of the chosen patch in the catalog, if one is chosen.
    pub choosing_shape: Option<usize>,
    /// The orientation in which the chosen patch would be placed.
    pub choosing_shape_dir: ShapeDirection,
}

/// A list of board cells as pairs of mathematical integers.
pub open spec fn board_cells_view(cells: Seq<(i32, i32)>) -> Seq<(int, int)> {
    cells.map_values(|c: (i32, i32)| (c.0 as int, c.1 as int))
}

impl InteractiveInfo {
    /// Whether the chosen patch can be placed on the board of `owner` at
    /// `offset` in `game`, and if not, why: nothing is chosen, or the game
    /// refuses the placement.
    pub open spec fn check(self, game: GameView, owner: PlayerId, offset: (i32, i32)) -> Result<
        (),
        PlacementError,
    > {
        match self.choosing_shape {
            None => Err(PlacementError::NothingSelected),
            Some(idx) => game.check_put(owner, idx as int, offset, self.choosing_shape_dir),
        }
    }

    /// A selection in which nothing is chosen.
    pub fn new() -> (selection: InteractiveInfo)
        ensures
            selection.choosing_shape is None,
            selection.choosing_shape_dir == ShapeDirection::East,
    {
        InteractiveInfo { choosing_shape: None, choosing_shape_dir: ShapeDirection::East }
    }

    /// Chooses patch `idx`, turned as the catalog draws it.
    pub fn choose_patch(&mut self, idx: usize)
        ensures
            final(self).choosing_shape == Some(idx),
            final(self).choosing_shape_dir == ShapeDirection::East,
    {
        self.choosing_shape = Some(idx);
        self.choosing_shape_dir = ShapeDirection::East;
    }

    /// Turns the chosen patch to `dir`.
    pub fn set_orientation(&mut self, dir: ShapeDirection)
        ensures
            final(self).choosing_shape == old(self).choosing_shape,
            final(self).choosing_shape_dir == dir,
    {
        self.choosing_shape_dir = dir;
    }

    /// Gives up the choice.
    pub fn clear(&mut self)
        ensures
            final(self).choosing_shape is None,
            final(self).choosing_shape_dir == old(self).choosing_shape_dir,
    {
        self.choosing_shape = None;
    }

    /// The cells that the chosen patch would cover at `offset` on the board
    /// of `owner`, where it can be placed there; `None` where nothing is
    /// chosen or the placement is not allowed. Neither the selection nor the
    /// game is changed.
    pub fn preview(&self, game: &BoardGame, owner: PlayerId, offset: (i32, i32)) -> (cells: Option<
        Vec<(i32, i32)>,
    >)
        requires
            game.wf(),
        ensures
            cells is Some <==> self.check(game@, owner, offset) is Ok,
            cells matches Some(list) ==> board_cells_view(list@) == game@.footprint(
                self.choosing_shape->0 as int,
                offset,
                self.choosing_shape_dir,
            ),
    {
        let idx = match self.choosing_shape {
            None => {
                return None;
            },
            Some(idx) => idx,
        };
        if !game.can_put(owner, idx, offset, self.choosing_shape_dir) {
            return None;
        }
        let wide = game.patches()[idx].get_pos(offset, self.choosing_shape_dir);
        let ghost footprint = game@.footprint(idx as int, offset, self.choosing_shape_dir);
        let mut list: Vec<(i32, i32)> = Vec::new();
        let mut k: usize = 0;
        while k < wide.len()
            invariant
                k <= wide@.len(),
                cells_view(wide@) == footprint,
                forall|j: int|
                    0 <= j < footprint.len() ==> crate::chessboard::on_board(#[trigger] footprint[j]),
                board_cells_view(list@) == footprint.take(k as int),
            decreases wide@.len() - k,
        {
            let cell = wide[k];
            let ghost before = board_cells_view(list@);
            assert(cells_view(wide@)[k as int] == (cell.0 as int, cell.1 as int));
            list.push((cell.0 as i32, cell.1 as i32));
            assert(board_cells_view(list@) =~= before.push((cell.0 as int, cell.1 as int)));
            k += 1;
        }
        Some(list)
    }

    /// Places the chosen patch at `offset` on the board of `owner`, who makes
    /// the move.
    ///
    /// The placement is checked again. Where it is allowed, the move is made
    /// and settled and the choice given up. Where nothing is chosen or the
    /// placement is refused, the reason is returned and neither the game nor
    /// the selection is changed.
    pub fn commit(&mut self, game: &mut BoardGame, owner: PlayerId, offset: (i32, i32)) -> (verdict:
        Result<(), PlacementError>)
        requires
            old(game).wf(),
        ensures
            final(game).wf(),
            verdict == old(self).check(old(game)@, owner, offset),
            verdict is Ok ==> final(game)@ == old(game)@.after_put(
                owner,
                old(self).choosing_shape->0 as int,
                offset,
                old(self).choosing_shape_dir,
            ) && final(self).choosing_shape is None && final(self).choosing_shape_dir == old(
                self,
            ).choosing_shape_dir,
            verdict is Err ==> *final(game) == *old(game) && *final(self) == *old(self),
    {
        let idx = match self.choosing_shape {
            None => {
                return Err(PlacementError::NothingSelected);
            },
            Some(idx) => idx,
        };
        match game.check_put(owner, idx, offset, self.choosing_shape_dir) {
            Err(reason) => Err(reason),
            Ok(()) => {
                game.put(owner, idx, offset, self.choosing_shape_dir);
                self.choosing_shape = None;
                Ok(())
            },
        }
    }
}

impl Default for InteractiveInfo {
    fn default() -> (selection: InteractiveInfo)
        ensures
            selection.choosing_shape is None,
            selection.choosing_shape_dir == ShapeDirection::East,
    {
        InteractiveInfo::new()
    }
}

} // verus!
