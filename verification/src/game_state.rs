//! The state of a game: the two players' boards and purses, the bank, the
//! time track and the order of moves, and the placing of patches.
//!
//! A move is the placing of one patch on the board of one of the players,
//! who is the mover. Whose turn it is follows from the time track: the player
//! who is further back, and of two on one position the one who moved longer
//! ago. A placement is judged on the board on which it is tried. A move is
//! settled in this order: the patch is laid on the mover's board and recorded
//! as placed; its button cost goes from the mover to the bank and its button
//! income is added to the mover's income; the mover advances on the time
//! track by the patch's time cost, never past the end of the track; for every
//! button position that the advance reaches or passes the bank pays the mover
//! their income; every special patch that the advance reaches or passes goes
//! to the mover; the mover's last move tick becomes the move tick, and the
//! move tick advances by one.
//!
//! Neither a purse nor the bank is held at or above zero: a player may buy on
//! credit.

use vstd::prelude::*;
use crate::chessboard::{board_part, in_bounds, on_board, OccupancyGrid};
use crate::direction::ShapeDirection;
use crate::patches::{catalog_entry, new_patches, Patch, PatchView, CATALOG_LEN};
use crate::transform::{cells_view, offset_view};

verus! {

/// The last position of the time track. A player who has reached it has
/// finished.
pub const TRACK_END: usize = 53;

/// The buttons in the bank at the start: 32 of value 1, 12 of value 5, 5 of
/// value 10 and 1 of value 20.
pub const BANK_START: i64 = 32 + 12 * 5 + 5 * 10 + 1 * 20;

/// The buttons in each player's purse at the start.
pub const PLAYER_START_MONEY: i64 = 5;

/// All the buttons of a game: the bank's and the two purses'.
pub const TOTAL_BUTTONS: i64 = BANK_START + 2 * PLAYER_START_MONEY;

/// The move tick at the start. The first player counts as having moved at
/// tick 1 and the second at tick 0, so that the second player begins.
pub const FIRST_MOVE_TICK: u64 = 2;

/// The positions of the time track at which a player who reaches or passes
/// them is paid their income.
pub const BUTTON_POSITIONS: [usize; 9] = [4, 10, 16, 22, 28, 34, 40, 46, 52];

/// The positions of the time track on which a special patch lies at the
/// start, the one that is reached first written last.
pub const SPECIAL_PATCH_POSITIONS: [usize; 5] = [49, 43, 31, 25, 19];

/// The largest catalog that a game can hold.
pub const MAX_PATCHES: usize = 65535;

/// The most that one move can pay a player in income.
pub const MAX_PAYOUT: i64 = 9 * 255 * 65535;

/// The screen that the program shows.
#[derive(Clone, Copy, PartialEq, Eq, Structural, Hash, Debug)]
pub enum GameState {
    /// The start screen.
    HelloUI,
    /// A game is being played.
    InGame,
}

impl Default for GameState {
    fn default() -> (state: GameState)
        ensures
            state == GameState::HelloUI,
    {
        GameState::HelloUI
    }
}

/// One of the two players.
#[derive(Clone, Copy, PartialEq, Eq, Structural, Hash, Debug)]
pub enum PlayerId {
    First,
    Second,
}

impl PlayerId {
    /// The player's place in the lists of players and of boards.
    pub open spec fn slot(self) -> int {
        match self {
            PlayerId::First => 0,
            PlayerId::Second => 1,
        }
    }

    /// The player's place in the lists of players and of boards.
    pub fn index(self) -> (i: usize)
        ensures
            i == self.slot(),
    {
        match self {
            PlayerId::First => 0,
            PlayerId::Second => 1,
        }
    }

    /// The opponent.
    pub fn other(self) -> (opponent: PlayerId)
        ensures
            opponent != self,
    {
        match self {
            PlayerId::First => PlayerId::Second,
            PlayerId::Second => PlayerId::First,
        }
    }
}

/// Why a patch cannot be placed.
#[derive(Clone, Copy, PartialEq, Eq, Structural, Debug)]
pub enum PlacementError {
    /// The index is not below the number of patches in the catalog.
    IndexOutOfRange,
    /// The patch has been placed before.
    AlreadyPlaced,
    /// The patch would cover a cell that is occupied.
    Overlap,
    /// The patch would cover a cell that is not on the board.
    OutOfBounds,
    /// No patch is chosen.
    NothingSelected,
}

/// Where a placed patch lies: the offset of its anchor, its orientation, and
/// the player on whose board it lies.
#[derive(Clone, Copy, PartialEq, Eq, Debug)]
pub struct PlacementRecord {
    pub position: (i32, i32),
    pub orientation: ShapeDirection,
    pub owner: PlayerId,
}

/// A player's purse and place in the game.
#[derive(Clone, Copy, PartialEq, Eq, Debug)]
pub struct Player {
    /// The buttons in the purse; below zero where the player owes.
    pub money: i64,
    /// The position on the time track, from 0.
    pub track_position: usize,
    /// The move tick at which the player last moved.
    pub last_move_tick: u64,
    /// The income: the sum of the button incomes of the player's patches.
    pub button_income: u64,
    /// The number of special patches that the player has collected.
    pub special_patches: usize,
}

/// A player as plain mathematical values.
pub struct PlayerView {
    pub money: int,
    pub track_position: nat,
    pub last_move_tick: nat,
    pub button_income: nat,
    pub special_patches: nat,
}

impl View for Player {
    type V = PlayerView;

    open spec fn view(&self) -> PlayerView {
        PlayerView {
            money: self.money as int,
            track_position: self.track_position as nat,
            last_move_tick: self.last_move_tick as nat,
            button_income: self.button_income as nat,
            special_patches: self.special_patches as nat,
        }
    }
}

/// The number of the first `k` button positions that an advance from `from`
/// to `to` reaches or passes.
pub open spec fn buttons_crossed_among(from: int, to: int, k: nat) -> nat
    decreases k,
{
    if k == 0 {
        0
    } else {
        buttons_crossed_among(from, to, (k - 1) as nat) + if from < BUTTON_POSITIONS@[k - 1] <= to {
            1nat
        } else {
            0nat
        }
    }
}

/// The number of button positions that an advance from `from` to `to` reaches
/// or passes.
pub open spec fn buttons_crossed(from: int, to: int) -> nat {
    buttons_crossed_among(from, to, 9)
}

/// The number of placed patches among `placements`.
pub open spec fn placed_count(placements: Seq<Option<PlacementRecord>>) -> nat
    decreases placements.len(),
{
    if placements.len() == 0 {
        0
    } else {
        placed_count(placements.drop_last()) + if placements.last() is Some {
            1nat
        } else {
            0nat
        }
    }
}

/// The position that an advance by `steps` from `from` reaches: the track
/// ends at [`TRACK_END`].
pub open spec fn advance(from: nat, steps: nat) -> nat {
    if from + steps < TRACK_END {
        from + steps
    } else {
        TRACK_END as nat
    }
}

/// The track positions that lie beyond `to`.
pub open spec fn beyond(to: int) -> spec_fn(usize) -> bool {
    |position: usize| position > to
}

/// A game as plain mathematical values.
pub struct GameView {
    /// The buttons in the bank.
    pub bank_money: int,
    /// The two players.
    pub players: Seq<PlayerView>,
    /// The move tick: the number of moves made, from [`FIRST_MOVE_TICK`].
    pub global_move_tick: nat,
    /// The positions of the special patches that still lie on the track, the
    /// one that is reached first last.
    pub special_patches: Seq<usize>,
    /// The catalog.
    pub patches: Seq<PatchView>,
    /// For each patch of the catalog, where it lies, once it is placed.
    pub placements: Seq<Option<PlacementRecord>>,
    /// For each player, the occupied cells of their board.
    pub boards: Seq<Set<(int, int)>>,
}

impl GameView {
    /// The player whose turn it is: the one who is further back on the time
    /// track and, where both are on one position, the one who moved longer
    /// ago.
    pub open spec fn active_player(self) -> PlayerId {
        let first = self.players[0];
        let second = self.players[1];
        if first.track_position < second.track_position {
            PlayerId::First
        } else if second.track_position < first.track_position {
            PlayerId::Second
        } else if first.last_move_tick < second.last_move_tick {
            PlayerId::First
        } else {
            PlayerId::Second
        }
    }

    /// Whether the game is over: both players have reached the end of the
    /// track.
    pub open spec fn finished(self) -> bool {
        self.players[0].track_position == TRACK_END && self.players[1].track_position
            == TRACK_END
    }

    /// The cells that patch `idx` covers at `offset` in orientation `dir`.
    pub open spec fn footprint(self, idx: int, offset: (i32, i32), dir: ShapeDirection) -> Seq<
        (int, int),
    > {
        self.patches[idx].cells(dir, offset_view(offset))
    }

    /// Whether patch `idx` can be placed on the board of `owner` at `offset`
    /// in orientation `dir`, and if not, why. The index is looked at first,
    /// then whether the patch is placed already, then whether every cell is
    /// on the board, then whether every cell is free on that board.
    pub open spec fn check_put(
        self,
        owner: PlayerId,
        idx: int,
        offset: (i32, i32),
        dir: ShapeDirection,
    ) -> Result<(), PlacementError> {
        let cells = self.footprint(idx, offset, dir);
        let board = self.boards[owner.slot()];
        if idx < 0 || idx >= self.patches.len() {
            Err(PlacementError::IndexOutOfRange)
        } else if self.placements[idx] is Some {
            Err(PlacementError::AlreadyPlaced)
        } else if exists|k: int| 0 <= k < cells.len() && !on_board(#[trigger] cells[k]) {
            Err(PlacementError::OutOfBounds)
        } else if exists|k: int| 0 <= k < cells.len() && board.contains(#[trigger] cells[k]) {
            Err(PlacementError::Overlap)
        } else {
            Ok(())
        }
    }

    /// The number of moves made.
    pub open spec fn moves(self) -> int {
        self.global_move_tick - FIRST_MOVE_TICK
    }

    /// The special patches that still lie on the track after an advance to
    /// `to`: those beyond it.
    pub open spec fn specials_left(self, to: int) -> Seq<usize> {
        self.special_patches.filter(beyond(to))
    }

    /// The game after `mover` has placed patch `idx` on their board at
    /// `offset` in orientation `dir`.
    pub open spec fn after_put(
        self,
        mover: PlayerId,
        idx: int,
        offset: (i32, i32),
        dir: ShapeDirection,
    ) -> GameView {
        let player = self.players[mover.slot()];
        let patch = self.patches[idx];
        let income = player.button_income + patch.button_income;
        let to = advance(player.track_position, patch.time_cost);
        let payout = buttons_crossed(player.track_position as int, to as int) * income;
        let left = self.specials_left(to as int);
        let moved = PlayerView {
            money: player.money - patch.button_cost + payout,
            track_position: to,
            last_move_tick: self.global_move_tick,
            button_income: income,
            special_patches: (player.special_patches + self.special_patches.len() - left.len()) as nat,
        };
        GameView {
            bank_money: self.bank_money + patch.button_cost - payout,
            players: self.players.update(mover.slot(), moved),
            global_move_tick: self.global_move_tick + 1,
            special_patches: left,
            patches: self.patches,
            placements: self.placements.update(
                idx,
                Some(PlacementRecord { position: offset, orientation: dir, owner: mover }),
            ),
            boards: self.boards.update(
                mover.slot(),
                self.boards[mover.slot()].union(self.footprint(idx, offset, dir).to_set()),
            ),
        }
    }

    /// Whether patch `idx` lies on the board of player `slot` and covers
    /// `cell` there.
    pub open spec fn lies_on(self, idx: int, slot: int, cell: (int, int)) -> bool {
        self.placements[idx] matches Some(record) && record.owner.slot() == slot && self.footprint(
            idx,
            record.position,
            record.orientation,
        ).contains(cell)
    }

    /// Whether some placed patch covers `cell` on the board of player `slot`.
    pub open spec fn covered(self, slot: int, cell: (int, int)) -> bool {
        exists|idx: int| 0 <= idx < self.placements.len() && #[trigger] self.lies_on(idx, slot, cell)
    }

    /// The lists have their lengths, and every patch fits its footprint and
    /// has a footprint, a price and an income of at most 255.
    pub open spec fn well_shaped(self) -> bool {
        &&& self.players.len() == 2
        &&& self.boards.len() == 2
        &&& self.placements.len() == self.patches.len()
        &&& self.patches.len() <= MAX_PATCHES
        &&& forall|idx: int|
            0 <= idx < self.patches.len() ==> {
                let patch = #[trigger] self.patches[idx];
                &&& patch.wf()
                &&& patch.width <= 255
                &&& patch.height <= 255
                &&& patch.button_cost <= 255
                &&& patch.time_cost <= 255
                &&& patch.button_income <= 255
            }
    }

    /// Player `slot` is on the track, moved before the present tick, and has
    /// an income and a purse within what the moves made so far allow.
    pub open spec fn player_in_range(self, slot: int) -> bool {
        let player = self.players[slot];
        &&& player.track_position <= TRACK_END
        &&& player.last_move_tick < self.global_move_tick
        &&& player.button_income <= 255 * self.moves()
        &&& PLAYER_START_MONEY - 255 * self.moves() <= player.money
        &&& player.money <= PLAYER_START_MONEY + MAX_PAYOUT * self.moves()
    }

    /// The move tick counts the placed patches, and the two players never
    /// moved at the same tick.
    pub open spec fn ticks_in_order(self) -> bool {
        &&& self.global_move_tick == FIRST_MOVE_TICK + placed_count(self.placements)
        &&& self.player_in_range(0)
        &&& self.player_in_range(1)
        &&& self.players[0].last_move_tick != self.players[1].last_move_tick
    }

    /// No button is made or lost: the bank and the two purses together hold
    /// [`TOTAL_BUTTONS`].
    pub open spec fn buttons_conserved(self) -> bool {
        self.bank_money + self.players[0].money + self.players[1].money == TOTAL_BUTTONS
    }

    /// The special patches on the track lie ahead of both players, the
    /// nearest last, and each special patch is on the track or with a player.
    pub open spec fn specials_in_order(self) -> bool {
        &&& forall|i: int, j: int|
            0 <= i < j < self.special_patches.len() ==> self.special_patches[i]
                > self.special_patches[j]
        &&& forall|i: int|
            0 <= i < self.special_patches.len() ==> self.players[0].track_position
                < #[trigger] self.special_patches[i] && self.players[1].track_position
                < self.special_patches[i]
        &&& self.players[0].special_patches + self.players[1].special_patches
            + self.special_patches.len() == SPECIAL_PATCH_POSITIONS@.len()
    }

    /// A cell of a board is occupied exactly if a patch placed on that board
    /// covers it; occupied cells are on the board; and no cell is covered by
    /// two patches.
    pub open spec fn boards_match_placements(self) -> bool {
        &&& forall|slot: int, cell: (int, int)|
            0 <= slot < 2 ==> (#[trigger] self.boards[slot].contains(cell) <==> self.covered(
                slot,
                cell,
            ))
        &&& forall|slot: int, cell: (int, int)|
            0 <= slot < 2 && #[trigger] self.boards[slot].contains(cell) ==> on_board(cell)
        &&& forall|i: int, j: int, slot: int, cell: (int, int)|
            0 <= i < self.placements.len() && 0 <= j < self.placements.len() && i != j
                && #[trigger] self.lies_on(i, slot, cell) ==> !#[trigger] self.lies_on(
                j,
                slot,
                cell,
            )
    }

    /// The invariant of a game.
    pub open spec fn inv(self) -> bool {
        &&& self.well_shaped()
        &&& self.ticks_in_order()
        &&& self.buttons_conserved()
        &&& self.specials_in_order()
        &&& self.boards_match_placements()
    }

    /// The game at its start: the whole catalog unplaced, both boards empty,
    /// both players on position 0 with [`PLAYER_START_MONEY`] buttons, and the
    /// second player to move.
    pub open spec fn start() -> GameView {
        GameView {
            bank_money: BANK_START as int,
            players: seq![
                PlayerView {
                    money: PLAYER_START_MONEY as int,
                    track_position: 0,
                    last_move_tick: 1,
                    button_income: 0,
                    special_patches: 0,
                },
                PlayerView {
                    money: PLAYER_START_MONEY as int,
                    track_position: 0,
                    last_move_tick: 0,
                    button_income: 0,
                    special_patches: 0,
                },
            ],
            global_move_tick: FIRST_MOVE_TICK as nat,
            special_patches: SPECIAL_PATCH_POSITIONS@,
            patches: Seq::new(CATALOG_LEN as nat, |k: int| catalog_entry(k)),
            placements: Seq::new(CATALOG_LEN as nat, |k: int| None),
            boards: seq![Set::empty(), Set::empty()],
        }
    }
}

/// Among placements of which none is made, none is counted.
pub proof fn lemma_placed_count_none(placements: Seq<Option<PlacementRecord>>)
    requires
        forall|i: int| 0 <= i < placements.len() ==> placements[i] is None,
    ensures
        placed_count(placements) == 0,
    decreases placements.len(),
{
    if placements.len() > 0 {
        lemma_placed_count_none(placements.drop_last());
    }
}

/// Placing a patch that was not placed raises the count of placed patches by
/// one, and the count never exceeds the number of patches.
pub proof fn lemma_placed_count_update(
    placements: Seq<Option<PlacementRecord>>,
    idx: int,
    record: PlacementRecord,
)
    requires
        0 <= idx < placements.len(),
        placements[idx] is None,
    ensures
        placed_count(placements.update(idx, Some(record))) == placed_count(placements) + 1,
        placed_count(placements) < placements.len(),
    decreases placements.len(),
{
    let updated = placements.update(idx, Some(record));
    if idx == placements.len() - 1 {
        assert(updated.drop_last() == placements.drop_last());
        lemma_placed_count_bound(placements.drop_last());
    } else {
        assert(updated.drop_last() == placements.drop_last().update(idx, Some(record)));
        lemma_placed_count_update(placements.drop_last(), idx, record);
    }
}

/// No more patches are placed than there are.
pub proof fn lemma_placed_count_bound(placements: Seq<Option<PlacementRecord>>)
    ensures
        placed_count(placements) <= placements.len(),
    decreases placements.len(),
{
    if placements.len() > 0 {
        lemma_placed_count_bound(placements.drop_last());
    }
}

/// The game at its start meets the invariant.
pub proof fn lemma_start_inv()
    ensures
        GameView::start().inv(),
{
    let g = GameView::start();
    lemma_placed_count_none(g.placements);
    assert forall|idx: int| 0 <= idx < g.patches.len() implies {
        let patch = #[trigger] g.patches[idx];
        &&& patch.wf()
        &&& patch.width <= 255
        &&& patch.height <= 255
        &&& patch.button_cost <= 255
        &&& patch.time_cost <= 255
        &&& patch.button_income <= 255
    } by {
        crate::patches::lemma_catalog_entry_wf(idx);
    }
    assert forall|slot: int, cell: (int, int)| 0 <= slot < 2 implies (
    #[trigger] g.boards[slot].contains(cell) <==> g.covered(slot, cell)) by {
        assert forall|idx: int| 0 <= idx < g.placements.len() implies !g.lies_on(
            idx,
            slot,
            cell,
        ) by {}
    }
}

/// At most `k` of the first `k` button positions are reached or passed.
pub proof fn lemma_buttons_crossed_bound(from: int, to: int, k: nat)
    ensures
        buttons_crossed_among(from, to, k) <= k,
    decreases k,
{
    if k > 0 {
        lemma_buttons_crossed_bound(from, to, (k - 1) as nat);
    }
}

/// Of positions that are written from the farthest to the nearest, those
/// beyond `to` are the first ones: none of them is at or before `to`, and
/// every other one is.
pub proof fn lemma_beyond_is_prefix(positions: Seq<usize>, to: int)
    requires
        forall|i: int, j: int| 0 <= i < j < positions.len() ==> positions[i] > positions[j],
    ensures
        ({
            let left = positions.filter(beyond(to));
            &&& left.len() <= positions.len()
            &&& left == positions.take(left.len() as int)
            &&& forall|i: int| 0 <= i < left.len() ==> positions[i] > to
            &&& forall|i: int| left.len() <= i < positions.len() ==> positions[i] <= to
        }),
    decreases positions.len(),
{
    reveal(Seq::filter);
    if positions.len() > 0 {
        let init = positions.drop_last();
        lemma_beyond_is_prefix(init, to);
        assert forall|i: int| 0 <= i < init.len() implies init[i] == positions[i] by {}
    }
}

/// A move keeps the invariant of the game.
pub proof fn lemma_after_put_inv(
    g: GameView,
    mover: PlayerId,
    idx: int,
    offset: (i32, i32),
    dir: ShapeDirection,
)
    requires
        g.inv(),
        g.check_put(mover, idx, offset, dir) is Ok,
    ensures
        g.after_put(mover, idx, offset, dir).inv(),
{
    let after = g.after_put(mover, idx, offset, dir);
    let m = mover.slot();
    let player = g.players[m];
    let patch = g.patches[idx];
    let record = PlacementRecord { position: offset, orientation: dir, owner: mover };
    let to = advance(player.track_position, patch.time_cost);
    let crossed = buttons_crossed(player.track_position as int, to as int);
    let income = player.button_income + patch.button_income;
    let payout = crossed * income;

    lemma_placed_count_update(g.placements, idx, record);
    lemma_buttons_crossed_bound(player.track_position as int, to as int, 9);
    assert(0 <= payout <= MAX_PAYOUT) by (nonlinear_arith)
        requires
            payout == crossed * income,
            0 <= crossed <= 9,
            0 <= income <= 255 * 65535,
    ;
    assert(MAX_PAYOUT == 150402825);
    lemma_beyond_is_prefix(g.special_patches, to as int);
    lemma_after_put_boards(g, mover, idx, offset, dir);
}

/// A move keeps the boards in step with the placements.
proof fn lemma_after_put_boards(
    g: GameView,
    mover: PlayerId,
    idx: int,
    offset: (i32, i32),
    dir: ShapeDirection,
)
    requires
        g.inv(),
        g.check_put(mover, idx, offset, dir) is Ok,
    ensures
        g.after_put(mover, idx, offset, dir).boards_match_placements(),
{
    let after = g.after_put(mover, idx, offset, dir);
    let m = mover.slot();
    let cells = g.footprint(idx, offset, dir);
    assert forall|j: int, slot: int, cell: (int, int)| 0 <= j < g.placements.len() implies (
    #[trigger] after.lies_on(j, slot, cell) <==> (if j == idx {
        slot == m && cells.contains(cell)
    } else {
        g.lies_on(j, slot, cell)
    })) by {}
    assert forall|cell: (int, int)| cells.contains(cell) implies on_board(cell) && !g.boards[m].contains(
        cell,
    ) by {
        let k = choose|k: int| 0 <= k < cells.len() && cells[k] == cell;
        assert(on_board(cells[k]) && !g.boards[m].contains(cells[k]));
    }
    assert forall|slot: int, cell: (int, int)| 0 <= slot < 2 implies (
    #[trigger] after.boards[slot].contains(cell) <==> after.covered(slot, cell)) by {
        if after.boards[slot].contains(cell) {
            if slot == m && cells.contains(cell) {
                assert(after.lies_on(idx, slot, cell));
            } else {
                let j = choose|j: int| 0 <= j < g.placements.len() && #[trigger] g.lies_on(j, slot, cell);
                assert(after.lies_on(j, slot, cell));
            }
        }
        if after.covered(slot, cell) {
            let j = choose|j: int|
                0 <= j < after.placements.len() && #[trigger] after.lies_on(j, slot, cell);
            assert(j == idx || g.lies_on(j, slot, cell));
        }
    }
    assert forall|i: int, j: int, slot: int, cell: (int, int)|
        0 <= i < after.placements.len() && 0 <= j < after.placements.len() && i != j
            && #[trigger] after.lies_on(i, slot, cell) implies !#[trigger] after.lies_on(
        j,
        slot,
        cell,
    ) by {}
}

/// The number of button positions that an advance from `from` to `to`
/// reaches or passes.
pub fn count_buttons_crossed(from: usize, to: usize) -> (crossed: usize)
    ensures
        crossed == buttons_crossed(from as int, to as int),
        crossed <= 9,
{
    let mut crossed: usize = 0;
    let mut k: usize = 0;
    while k < BUTTON_POSITIONS.len()
        invariant
            k <= 9,
            crossed <= k,
            crossed == buttons_crossed_among(from as int, to as int, k as nat),
        decreases 9 - k,
    {
        if from < BUTTON_POSITIONS[k] && BUTTON_POSITIONS[k] <= to {
            crossed += 1;
        }
        k += 1;
    }
    crossed
}

/// Takes from the track the special patches that an advance to `to` reaches
/// or passes, and returns their number.
fn collect_specials(specials: &mut Vec<usize>, to: usize) -> (collected: usize)
    requires
        forall|i: int, j: int|
            0 <= i < j < old(specials)@.len() ==> old(specials)@[i] > old(specials)@[j],
    ensures
        final(specials)@ == old(specials)@.filter(beyond(to as int)),
        collected == old(specials)@.len() - final(specials)@.len(),
{
    let total = specials.len();
    let mut collected: usize = 0;
    while specials.len() > 0 && specials[specials.len() - 1] <= to
        invariant
            total == old(specials)@.len(),
            specials@.len() <= old(specials)@.len(),
            specials@ == old(specials)@.take(specials@.len() as int),
            collected == old(specials)@.len() - specials@.len(),
            forall|i: int| specials@.len() <= i < old(specials)@.len() ==> old(specials)@[i] <= to,
        decreases specials@.len(),
    {
        specials.pop();
        collected += 1;
    }
    proof {
        let all = old(specials)@;
        let left = all.filter(beyond(to as int));
        lemma_beyond_is_prefix(all, to as int);
        if specials@.len() < left.len() {
            assert(all[specials@.len() as int] > to);
        }
    }
    collected
}

/// A game in progress.
#[derive(Debug)]
pub struct BoardGame {
    bank_money: i64,
    players: [Player; 2],
    global_move_tick: u64,
    special_patches: Vec<usize>,
    patches: Vec<Patch>,
    patch_pos: Vec<Option<PlacementRecord>>,
    patch_occ: [OccupancyGrid; 2],
}

impl View for BoardGame {
    type V = GameView;

    closed spec fn view(&self) -> GameView {
        GameView {
            bank_money: self.bank_money as int,
            players: self.players@.map_values(|player: Player| player@),
            global_move_tick: self.global_move_tick as nat,
            special_patches: self.special_patches@,
            patches: self.patches@.map_values(|patch: Patch| patch@),
            placements: self.patch_pos@,
            boards: self.patch_occ@.map_values(|grid: OccupancyGrid| grid@),
        }
    }
}

impl BoardGame {
    /// Both boards are nine by nine.
    pub closed spec fn boards_wf(&self) -> bool {
        self.patch_occ[0].wf() && self.patch_occ[1].wf()
    }

    /// The invariant of a game in progress: that of its view, on boards of
    /// nine by nine cells.
    pub open spec fn wf(&self) -> bool {
        self@.inv() && self.boards_wf()
    }

    /// A new game: the whole catalog unplaced, both boards empty, and the
    /// second player to move.
    pub fn new() -> (game: BoardGame)
        ensures
            game.wf(),
            game@ == GameView::start(),
    {
        let patches = new_patches();
        let mut patch_pos: Vec<Option<PlacementRecord>> = Vec::new();
        let mut k: usize = 0;
        while k < patches.len()
            invariant
                k <= patches@.len(),
                patch_pos@.len() == k,
                forall|j: int| 0 <= j < k ==> patch_pos@[j] is None,
            decreases patches@.len() - k,
        {
            patch_pos.push(None);
            k += 1;
        }
        let mut special_patches: Vec<usize> = Vec::new();
        let mut s: usize = 0;
        while s < SPECIAL_PATCH_POSITIONS.len()
            invariant
                s <= SPECIAL_PATCH_POSITIONS@.len(),
                special_patches@ == SPECIAL_PATCH_POSITIONS@.take(s as int),
            decreases SPECIAL_PATCH_POSITIONS@.len() - s,
        {
            special_patches.push(SPECIAL_PATCH_POSITIONS[s]);
            assert(SPECIAL_PATCH_POSITIONS@.take(s + 1) == SPECIAL_PATCH_POSITIONS@.take(s as int).push(
                SPECIAL_PATCH_POSITIONS@[s as int],
            ));
            s += 1;
        }
        let game = BoardGame {
            bank_money: BANK_START,
            players: [
                Player {
                    money: PLAYER_START_MONEY,
                    track_position: 0,
                    last_move_tick: 1,
                    button_income: 0,
                    special_patches: 0,
                },
                Player {
                    money: PLAYER_START_MONEY,
                    track_position: 0,
                    last_move_tick: 0,
                    button_income: 0,
                    special_patches: 0,
                },
            ],
            global_move_tick: FIRST_MOVE_TICK,
            special_patches,
            patches,
            patch_pos,
            patch_occ: [OccupancyGrid::new(), OccupancyGrid::new()],
        };
        proof {
            let start = GameView::start();
            assert(SPECIAL_PATCH_POSITIONS@.take(5) == SPECIAL_PATCH_POSITIONS@);
            assert(game@.players =~= start.players);
            assert(game@.patches =~= start.patches);
            assert(game@.placements =~= start.placements);
            assert(game@.boards =~= start.boards);
            lemma_start_inv();
        }
        game
    }

    /// The player whose turn it is: the one who is further back on the time
    /// track and, where both are on one position, the one who moved longer
    /// ago.
    pub fn active_player(&self) -> (id: PlayerId)
        ensures
            id == self@.active_player(),
    {
        let first = &self.players[0];
        let second = &self.players[1];
        if first.track_position < second.track_position {
            PlayerId::First
        } else if second.track_position < first.track_position {
            PlayerId::Second
        } else if first.last_move_tick < second.last_move_tick {
            PlayerId::First
        } else {
            PlayerId::Second
        }
    }

    /// The buttons in the bank.
    pub fn bank_money(&self) -> (money: i64)
        ensures
            money == self@.bank_money,
    {
        self.bank_money
    }

    /// The move tick: [`FIRST_MOVE_TICK`] and the number of moves made.
    pub fn global_move_tick(&self) -> (tick: u64)
        ensures
            tick == self@.global_move_tick,
    {
        self.global_move_tick
    }

    /// The purse and the place in the game of player `id`.
    pub fn player_state(&self, id: PlayerId) -> (player: Player)
        ensures
            player@ == self@.players[id.slot()],
    {
        self.players[id.index()]
    }

    /// The catalog.
    pub fn patches(&self) -> (patches: &Vec<Patch>)
        ensures
            patches@.len() == self@.patches.len(),
            forall|idx: int| 0 <= idx < patches@.len() ==> (#[trigger] patches@[idx])@ == self@.patches[idx],
            self.wf() ==> forall|idx: int| 0 <= idx < patches@.len() ==> (#[trigger] patches@[idx]).wf(),
    {
        assert forall|idx: int| 0 <= idx < self.patches@.len() implies (#[trigger] self.patches@[idx])@
            == self@.patches[idx] by {}
        &self.patches
    }

    /// Where patch `idx` lies; `None` if it is not placed, or if there is no
    /// such patch.
    pub fn placement(&self, idx: usize) -> (record: Option<PlacementRecord>)
        ensures
            record == if idx < self@.placements.len() {
                self@.placements[idx as int]
            } else {
                None
            },
    {
        if idx < self.patch_pos.len() {
            self.patch_pos[idx]
        } else {
            None
        }
    }

    /// The board of player `id`.
    pub fn board(&self, id: PlayerId) -> (board: &OccupancyGrid)
        ensures
            board@ == self@.boards[id.slot()],
            self.wf() ==> board.wf(),
    {
        &self.patch_occ[id.index()]
    }

    /// The positions of the special patches that still lie on the track, the
    /// one that is reached first last.
    pub fn special_patches(&self) -> (positions: &Vec<usize>)
        ensures
            positions@ == self@.special_patches,
    {
        &self.special_patches
    }

    /// Whether the game is over: both players have reached the end of the
    /// track.
    pub fn is_finished(&self) -> (over: bool)
        ensures
            over == self@.finished(),
    {
        self.players[0].track_position == TRACK_END && self.players[1].track_position == TRACK_END
    }

    /// Whether patch `idx` can be placed on the board of `owner` at `offset`
    /// in orientation `dir`, and if not, why. Nothing is changed.
    ///
    /// The index is looked at first, then whether the patch is placed
    /// already; a patch that would cover a cell outside the board is refused
    /// as out of bounds, whether or not it would also cover an occupied cell.
    pub fn check_put(
        &self,
        owner: PlayerId,
        idx: usize,
        offset: (i32, i32),
        dir: ShapeDirection,
    ) -> (verdict: Result<(), PlacementError>)
        requires
            self.wf(),
        ensures
            verdict == self@.check_put(owner, idx as int, offset, dir),
    {
        if idx >= self.patches.len() {
            return Err(PlacementError::IndexOutOfRange);
        }
        if self.patch_pos[idx].is_some() {
            return Err(PlacementError::AlreadyPlaced);
        }
        assert(self@.patches[idx as int] == self.patches@[idx as int]@);
        let cells = self.patches[idx].get_pos(offset, dir);
        let board = &self.patch_occ[owner.index()];
        let ghost footprint = self@.footprint(idx as int, offset, dir);
        let mut overlap = false;
        let mut k: usize = 0;
        while k < cells.len()
            invariant
                k <= cells@.len(),
                board.wf(),
                board@ == self@.boards[owner.slot()],
                0 <= idx < self@.patches.len(),
                self@.placements[idx as int] is None,
                footprint == self@.footprint(idx as int, offset, dir),
                cells_view(cells@) == footprint,
                forall|j: int| 0 <= j < k ==> on_board(#[trigger] footprint[j]),
                overlap <==> exists|j: int| 0 <= j < k && board@.contains(#[trigger] footprint[j]),
            decreases cells@.len() - k,
        {
            let cell = cells[k];
            assert(footprint[k as int] == (cell.0 as int, cell.1 as int));
            if !in_bounds(cell.0, cell.1) {
                return Err(PlacementError::OutOfBounds);
            }
            if board.is_occupied(cell.0, cell.1) {
                overlap = true;
            }
            k += 1;
        }
        if overlap {
            Err(PlacementError::Overlap)
        } else {
            Ok(())
        }
    }

    /// Whether patch `idx` can be placed on the board of `owner` at `offset`
    /// in orientation `dir`.
    pub fn can_put(
        &self,
        owner: PlayerId,
        idx: usize,
        offset: (i32, i32),
        dir: ShapeDirection,
    ) -> (allowed: bool)
        requires
            self.wf(),
        ensures
            allowed == (self@.check_put(owner, idx as int, offset, dir) is Ok),
    {
        self.check_put(owner, idx, offset, dir).is_ok()
    }

    /// `mover` places patch `idx` on their board at `offset` in orientation
    /// `dir`, and the move is settled: the patch is laid and recorded, paid
    /// for and added to the income, the mover advances and is paid for the
    /// button positions reached, collects the special patches reached, and
    /// the move tick advances.
    ///
    /// The placement must be one that [`BoardGame::check_put`] allows on the
    /// mover's board. Whose turn it is tells [`BoardGame::active_player`];
    /// a placement is not refused for being out of turn.
    pub fn put(&mut self, mover: PlayerId, idx: usize, offset: (i32, i32), dir: ShapeDirection)
        requires
            old(self).wf(),
            old(self)@.check_put(mover, idx as int, offset, dir) is Ok,
        ensures
            final(self).wf(),
            final(self)@ == old(self)@.after_put(mover, idx as int, offset, dir),
    {
        let ghost before = self@;
        let m = mover.index();
        let player = self.players[m];
        proof {
            assert(before.patches[idx as int] == self.patches@[idx as int]@);
            lemma_placed_count_update(
                before.placements,
                idx as int,
                PlacementRecord { position: offset, orientation: dir, owner: mover },
            );
            assert(MAX_PAYOUT == 150402825);
        }
        let patch = &self.patches[idx];
        let cells = patch.get_pos(offset, dir);
        let cost = patch.button_cost() as i64;
        let income = player.button_income + patch.button_income() as u64;
        let from = player.track_position;
        let to = if from + (patch.time_cost() as usize) < TRACK_END {
            from + patch.time_cost() as usize
        } else {
            TRACK_END
        };
        let crossed = count_buttons_crossed(from, to);
        assert(0 <= crossed * income <= MAX_PAYOUT) by (nonlinear_arith)
            requires
                0 <= crossed <= 9,
                0 <= income <= 255 * 65535,
        ;
        let payout = (crossed as u64 * income) as i64;

        self.patch_occ[m].occupy_all(&cells);
        self.patch_pos[idx] = Some(PlacementRecord { position: offset, orientation: dir, owner: mover });
        let collected = collect_specials(&mut self.special_patches, to);
        self.bank_money = self.bank_money + cost - payout;
        self.players[m] = Player {
            money: player.money - cost + payout,
            track_position: to,
            last_move_tick: self.global_move_tick,
            button_income: income,
            special_patches: player.special_patches + collected,
        };
        self.global_move_tick = self.global_move_tick + 1;

        proof {
            let after = before.after_put(mover, idx as int, offset, dir);
            let footprint = before.footprint(idx as int, offset, dir);
            assert(board_part(footprint) =~= footprint.to_set()) by {
                assert forall|cell: (int, int)| footprint.contains(cell) implies on_board(cell) by {
                    let k = choose|k: int| 0 <= k < footprint.len() && footprint[k] == cell;
                    assert(on_board(footprint[k]));
                }
            }
            assert(self@.players =~= after.players);
            assert(self@.boards =~= after.boards);
            lemma_after_put_inv(before, mover, idx as int, offset, dir);
        }
    }
}

/// Once a patch is placed, it cannot be placed again: whatever the board,
/// the offset and the orientation, the attempt is refused as already placed.
pub proof fn lemma_no_double_placement(
    g: GameView,
    mover: PlayerId,
    idx: int,
    offset: (i32, i32),
    dir: ShapeDirection,
    again_owner: PlayerId,
    again_offset: (i32, i32),
    again_dir: ShapeDirection,
)
    requires
        g.inv(),
        g.check_put(mover, idx, offset, dir) is Ok,
    ensures
        g.after_put(mover, idx, offset, dir).check_put(
            again_owner,
            idx,
            again_offset,
            again_dir,
        ) == Err::<
            (),
            PlacementError,
        >(PlacementError::AlreadyPlaced),
{
}

/// A placement is never undone: a patch that is placed stays where it lies
/// through every later move.
pub proof fn lemma_placements_stay(
    g: GameView,
    mover: PlayerId,
    idx: int,
    offset: (i32, i32),
    dir: ShapeDirection,
    placed: int,
)
    requires
        g.inv(),
        g.check_put(mover, idx, offset, dir) is Ok,
        0 <= placed < g.placements.len(),
        g.placements[placed] is Some,
    ensures
        g.after_put(mover, idx, offset, dir).placements[placed] == g.placements[placed],
{
}

/// A patch of the catalog that is not placed and whose cells all lie on the
/// board is refused for overlap as soon as one of its cells is occupied on
/// the board on which it is tried.
pub proof fn lemma_overlap_rejected(
    g: GameView,
    mover: PlayerId,
    idx: int,
    offset: (i32, i32),
    dir: ShapeDirection,
    k: int,
)
    requires
        0 <= idx < g.patches.len(),
        g.placements[idx] is None,
        forall|j: int| 0 <= j < g.footprint(idx, offset, dir).len() ==> on_board(
            #[trigger] g.footprint(idx, offset, dir)[j],
        ),
        0 <= k < g.footprint(idx, offset, dir).len(),
        g.boards[mover.slot()].contains(g.footprint(idx, offset, dir)[k]),
    ensures
        g.check_put(mover, idx, offset, dir) == Err::<(), PlacementError>(PlacementError::Overlap),
{
}

/// Once a patch lies on a board, no other patch can be laid over it: a patch
/// that is not placed and whose cells all lie on the board is refused for
/// overlap on that board as soon as it would cover a cell of the patch just
/// placed.
pub proof fn lemma_overlap_after_put(
    g: GameView,
    mover: PlayerId,
    idx: int,
    offset: (i32, i32),
    dir: ShapeDirection,
    other: int,
    other_offset: (i32, i32),
    other_dir: ShapeDirection,
    k: int,
    j: int,
)
    requires
        g.inv(),
        g.check_put(mover, idx, offset, dir) is Ok,
        0 <= other < g.patches.len(),
        other != idx,
        g.placements[other] is None,
        forall|i: int|
            0 <= i < g.footprint(other, other_offset, other_dir).len() ==> on_board(
                #[trigger] g.footprint(other, other_offset, other_dir)[i],
            ),
        0 <= k < g.footprint(other, other_offset, other_dir).len(),
        0 <= j < g.footprint(idx, offset, dir).len(),
        g.footprint(other, other_offset, other_dir)[k] == g.footprint(idx, offset, dir)[j],
    ensures
        g.after_put(mover, idx, offset, dir).check_put(mover, other, other_offset, other_dir)
            == Err::<(), PlacementError>(PlacementError::Overlap),
{
    let after = g.after_put(mover, idx, offset, dir);
    let cell = g.footprint(idx, offset, dir)[j];
    assert(g.footprint(idx, offset, dir).contains(cell));
    assert(after.boards[mover.slot()].contains(after.footprint(other, other_offset, other_dir)[k]));
}

/// A patch of the catalog that is not placed is refused as out of bounds as
/// soon as one of its cells has a column or a row below 0 or above 8.
pub proof fn lemma_out_of_bounds_rejected(
    g: GameView,
    mover: PlayerId,
    idx: int,
    offset: (i32, i32),
    dir: ShapeDirection,
    k: int,
)
    requires
        0 <= idx < g.patches.len(),
        g.placements[idx] is None,
        0 <= k < g.footprint(idx, offset, dir).len(),
        ({
            let cell = g.footprint(idx, offset, dir)[k];
            cell.0 < 0 || cell.0 >= 9 || cell.1 < 0 || cell.1 >= 9
        }),
    ensures
        g.check_put(mover, idx, offset, dir) == Err::<(), PlacementError>(PlacementError::OutOfBounds),
{
}

/// Where both players are on one position of the track, it is the turn of
/// the one who moved longer ago.
pub proof fn lemma_tie_break(g: GameView)
    requires
        g.inv(),
        g.players[0].track_position == g.players[1].track_position,
    ensures
        g.players[g.active_player().slot()].last_move_tick < g.players[1
            - g.active_player().slot()].last_move_tick,
{
}

/// Where the players are on different positions of the track, it is the turn
/// of the one who is further back.
pub proof fn lemma_further_back_moves(g: GameView)
    requires
        g.inv(),
        g.players[0].track_position != g.players[1].track_position,
    ensures
        g.players[g.active_player().slot()].track_position < g.players[1
            - g.active_player().slot()].track_position,
{
}

/// A move advances the move tick by exactly one, and the mover's last move
/// tick becomes the tick that stood before the move; the opponent's stays.
pub proof fn lemma_move_ticks(
    g: GameView,
    mover: PlayerId,
    idx: int,
    offset: (i32, i32),
    dir: ShapeDirection,
)
    requires
        g.inv(),
        g.check_put(mover, idx, offset, dir) is Ok,
    ensures
        ({
            let after = g.after_put(mover, idx, offset, dir);
            &&& after.global_move_tick == g.global_move_tick + 1
            &&& after.players[mover.slot()].last_move_tick == g.global_move_tick
            &&& after.players[1 - mover.slot()] == g.players[1 - mover.slot()]
        }),
{
}

/// Where both players are on one position of the track and the one whose
/// turn it is moves, that is the one who moved longer ago; the move tick
/// advances by exactly one, and the mover's last move tick becomes the tick
/// that stood before the move.
pub proof fn lemma_tie_break_then_move(
    g: GameView,
    idx: int,
    offset: (i32, i32),
    dir: ShapeDirection,
)
    requires
        g.inv(),
        g.players[0].track_position == g.players[1].track_position,
        g.check_put(g.active_player(), idx, offset, dir) is Ok,
    ensures
        ({
            let mover = g.active_player();
            let after = g.after_put(mover, idx, offset, dir);
            &&& g.players[mover.slot()].last_move_tick < g.players[1 - mover.slot()].last_move_tick
            &&& after.global_move_tick == g.global_move_tick + 1
            &&& after.players[mover.slot()].last_move_tick == g.global_move_tick
            &&& after.placements[idx] is Some
            &&& after.placements[idx]->0.owner == mover
        }),
{
}

/// Cells only ever become occupied, and a move occupies exactly the cells of
/// the placed patch, on the mover's board alone.
pub proof fn lemma_boards_only_grow(
    g: GameView,
    mover: PlayerId,
    idx: int,
    offset: (i32, i32),
    dir: ShapeDirection,
    cell: (int, int),
)
    requires
        g.inv(),
        g.check_put(mover, idx, offset, dir) is Ok,
    ensures
        ({
            let after = g.after_put(mover, idx, offset, dir);
            let m = mover.slot();
            &&& g.boards[m].contains(cell) ==> after.boards[m].contains(cell)
            &&& after.boards[m].contains(cell) <==> g.boards[m].contains(cell) || g.footprint(
                idx,
                offset,
                dir,
            ).contains(cell)
            &&& after.boards[1 - m] == g.boards[1 - m]
        }),
{
}

/// No more moves are made than there are patches: a game ends.
pub proof fn lemma_moves_bounded(g: GameView)
    requires
        g.inv(),
    ensures
        0 <= g.moves() <= g.patches.len(),
        g.moves() == placed_count(g.placements),
{
    lemma_placed_count_bound(g.placements);
}

/// A move neither makes nor loses a button: what the mover pays the bank
/// receives, and what the bank pays out the mover receives.
pub proof fn lemma_move_conserves_buttons(
    g: GameView,
    mover: PlayerId,
    idx: int,
    offset: (i32, i32),
    dir: ShapeDirection,
)
    requires
        g.inv(),
        g.check_put(mover, idx, offset, dir) is Ok,
    ensures
        ({
            let after = g.after_put(mover, idx, offset, dir);
            after.bank_money + after.players[0].money + after.players[1].money == g.bank_money
                + g.players[0].money + g.players[1].money
        }),
{
}

} // verus!
