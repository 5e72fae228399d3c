use patchwork::chessboard::{in_bounds, BlockInfo, OccupancyGrid, BOARD_SIDE};
use patchwork::direction::ShapeDirection;
use patchwork::game_state::{BoardGame, GameState, PlacementError, PlacementRecord, PlayerId};

const BOARDS: [PlayerId; 2] = [PlayerId::First, PlayerId::Second];

const DIRECTIONS: [ShapeDirection; 4] =
    [ShapeDirection::East, ShapeDirection::South, ShapeDirection::West, ShapeDirection::North];

fn occupied_cells(game: &BoardGame, id: PlayerId) -> Vec<(i64, i64)> {
    let mut cells = Vec::new();
    for row in 0..9 {
        for col in 0..9 {
            if game.board(id).is_occupied(col, row) {
                cells.push((col, row));
            }
        }
    }
    cells
}

#[test]
fn new_game_has_empty_boards_and_no_placements() {
    let game = BoardGame::new();
    assert_eq!(game.patches().len(), 33);
    assert!(occupied_cells(&game, PlayerId::First).is_empty());
    assert!(occupied_cells(&game, PlayerId::Second).is_empty());
    for idx in 0..33 {
        assert_eq!(game.placement(idx), None);
    }
    assert_eq!(game.placement(33), None);
    assert!(!game.is_finished());
}

#[test]
fn end_to_end_scenario() {
    for board in BOARDS {
        let mut game = BoardGame::new();
        assert_eq!(game.patches()[9].shape(), &vec![true, true]);
        assert_eq!(game.patches()[9].footprint(), (2, 1));
        assert!(game.can_put(board, 9, (0, 0), ShapeDirection::East));
        game.put(board, 9, (0, 0), ShapeDirection::East);
        assert_eq!(occupied_cells(&game, board), vec![(0, 0), (1, 0)]);
        assert!(occupied_cells(&game, board.other()).is_empty());
        // Patch 9 cannot be placed a second time, anywhere.
        for on in BOARDS {
            for row in 0..9 {
                for col in 0..9 {
                    for dir in DIRECTIONS {
                        assert_eq!(
                            game.check_put(on, 9, (col, row), dir),
                            Err(PlacementError::AlreadyPlaced)
                        );
                    }
                }
            }
            assert_eq!(
                game.check_put(on, 9, (40, -7), ShapeDirection::East),
                Err(PlacementError::AlreadyPlaced)
            );
        }
        // Patch 4 covers (0,0), (1,0) and (1,1) from its offset.
        assert_eq!(patches_four_shape(&game), vec![true, true, false, false, true]);
        assert_eq!(game.check_put(board, 4, (0, 0), ShapeDirection::East), Err(PlacementError::Overlap));
        assert_eq!(game.check_put(board, 4, (1, 0), ShapeDirection::East), Err(PlacementError::Overlap));
        assert!(!game.can_put(board, 4, (0, 0), ShapeDirection::East));
        assert!(!game.can_put(board, 4, (1, 0), ShapeDirection::East));
        assert_eq!(game.check_put(board, 4, (2, 0), ShapeDirection::East), Ok(()));
        assert!(game.can_put(board, 4, (2, 0), ShapeDirection::East));
    }
}

fn patches_four_shape(game: &BoardGame) -> Vec<bool> {
    game.patches()[4].shape().clone()
}

#[test]
fn overlap_straight_after_a_placement() {
    for board in BOARDS {
        let mut game = BoardGame::new();
        game.put(board, 9, (2, 2), ShapeDirection::East);
        assert_eq!(occupied_cells(&game, board), vec![(2, 2), (3, 2)]);
        // Patch 4 at (1,2) would cover (1,2), (2,2) and (2,3).
        assert!(!game.can_put(board, 4, (1, 2), ShapeDirection::East));
        assert_eq!(game.check_put(board, 4, (1, 2), ShapeDirection::East), Err(PlacementError::Overlap));
    }
}

#[test]
fn overlap_rejection() {
    // Patch A of two cells is laid on (2,2) and (2,3); patch B would cover (2,2).
    for board in BOARDS {
        let mut game = BoardGame::new();
        game.put(board, 9, (2, 2), ShapeDirection::South);
        assert_eq!(occupied_cells(&game, board), vec![(2, 2), (2, 3)]);
        assert_eq!(game.check_put(board, 32, (0, 2), ShapeDirection::East), Err(PlacementError::Overlap));
        assert_eq!(game.check_put(board, 32, (2, 2), ShapeDirection::East), Err(PlacementError::Overlap));
        assert_eq!(game.check_put(board, 32, (2, 0), ShapeDirection::South), Err(PlacementError::Overlap));
        assert_eq!(game.check_put(board, 4, (1, 2), ShapeDirection::East), Err(PlacementError::Overlap));
        assert_eq!(game.check_put(board, 32, (3, 2), ShapeDirection::East), Ok(()));
        // Nothing was placed by the refused attempts.
        assert_eq!(game.placement(32), None);
        assert_eq!(game.placement(4), None);
        assert_eq!(occupied_cells(&game, board), vec![(2, 2), (2, 3)]);
    }
}

#[test]
fn overlap_is_judged_on_the_board_that_is_tried() {
    let mut game = BoardGame::new();
    game.put(PlayerId::Second, 9, (0, 0), ShapeDirection::East);
    assert_eq!(
        game.check_put(PlayerId::Second, 4, (0, 0), ShapeDirection::East),
        Err(PlacementError::Overlap)
    );
    // The first player's board is a board of its own, and still empty.
    assert_eq!(game.check_put(PlayerId::First, 4, (0, 0), ShapeDirection::East), Ok(()));
    // Whose turn it is does not change what a board holds.
    assert_eq!(game.active_player(), PlayerId::First);
    game.put(PlayerId::First, 13, (0, 0), ShapeDirection::East);
    assert_eq!(game.active_player(), PlayerId::Second);
    assert_eq!(
        game.check_put(PlayerId::Second, 4, (1, 0), ShapeDirection::East),
        Err(PlacementError::Overlap)
    );
    assert_eq!(game.check_put(PlayerId::Second, 4, (2, 0), ShapeDirection::East), Ok(()));
}

#[test]
fn bounds_rejection() {
    let game = BoardGame::new();
    for board in BOARDS {
        // Patch 9 covers the offset and the cell to its right.
        assert_eq!(game.check_put(board, 9, (8, 0), ShapeDirection::East), Err(PlacementError::OutOfBounds));
        assert_eq!(game.check_put(board, 9, (7, 0), ShapeDirection::East), Ok(()));
        assert_eq!(game.check_put(board, 9, (0, 8), ShapeDirection::South), Err(PlacementError::OutOfBounds));
        assert_eq!(game.check_put(board, 9, (0, 7), ShapeDirection::South), Ok(()));
        assert_eq!(game.check_put(board, 9, (9, 9), ShapeDirection::East), Err(PlacementError::OutOfBounds));
        assert_eq!(game.check_put(board, 9, (-1, 0), ShapeDirection::East), Err(PlacementError::OutOfBounds));
        assert_eq!(game.check_put(board, 9, (0, -1), ShapeDirection::East), Err(PlacementError::OutOfBounds));
        assert_eq!(
            game.check_put(board, 9, (i32::MAX, i32::MAX), ShapeDirection::West),
            Err(PlacementError::OutOfBounds)
        );
        assert_eq!(
            game.check_put(board, 9, (i32::MIN, i32::MIN), ShapeDirection::North),
            Err(PlacementError::OutOfBounds)
        );
        assert!(!game.can_put(board, 9, (8, 0), ShapeDirection::East));
        assert!(occupied_cells(&game, board).is_empty());
    }
}

#[test]
fn out_of_bounds_comes_before_overlap() {
    let mut game = BoardGame::new();
    game.put(PlayerId::First, 9, (7, 0), ShapeDirection::East);
    // Patch 32 at (7,0) covers (7,0), (8,0), which are occupied, and (9,0).
    assert_eq!(
        game.check_put(PlayerId::First, 32, (7, 0), ShapeDirection::East),
        Err(PlacementError::OutOfBounds)
    );
    assert_eq!(
        game.check_put(PlayerId::First, 32, (6, 0), ShapeDirection::East),
        Err(PlacementError::Overlap)
    );
}

#[test]
fn index_equal_to_the_catalog_length_is_out_of_range() {
    let game = BoardGame::new();
    for board in BOARDS {
        assert_eq!(
            game.check_put(board, 33, (0, 0), ShapeDirection::East),
            Err(PlacementError::IndexOutOfRange)
        );
        assert_eq!(
            game.check_put(board, 34, (0, 0), ShapeDirection::East),
            Err(PlacementError::IndexOutOfRange)
        );
        assert_eq!(
            game.check_put(board, usize::MAX, (0, 0), ShapeDirection::East),
            Err(PlacementError::IndexOutOfRange)
        );
        assert_eq!(game.check_put(board, 32, (0, 0), ShapeDirection::East), Ok(()));
        assert!(!game.can_put(board, 33, (0, 0), ShapeDirection::East));
    }
}

#[test]
fn index_is_looked_at_before_the_cells() {
    let game = BoardGame::new();
    assert_eq!(
        game.check_put(PlayerId::First, 33, (50, 50), ShapeDirection::East),
        Err(PlacementError::IndexOutOfRange)
    );
}

#[test]
fn already_placed_comes_before_the_cells() {
    let mut game = BoardGame::new();
    game.put(PlayerId::Second, 9, (0, 0), ShapeDirection::East);
    for board in BOARDS {
        assert_eq!(
            game.check_put(board, 9, (50, 50), ShapeDirection::East),
            Err(PlacementError::AlreadyPlaced)
        );
        assert_eq!(
            game.check_put(board, 9, (0, 0), ShapeDirection::East),
            Err(PlacementError::AlreadyPlaced)
        );
    }
}

#[test]
fn put_records_the_placement_with_its_owner() {
    let mut game = BoardGame::new();
    game.put(PlayerId::Second, 4, (3, 5), ShapeDirection::North);
    assert_eq!(
        game.placement(4),
        Some(PlacementRecord {
            position: (3, 5),
            orientation: ShapeDirection::North,
            owner: PlayerId::Second,
        })
    );
    assert_eq!(occupied_cells(&game, PlayerId::Second), vec![(3, 6), (4, 6), (3, 7)]);
    game.put(PlayerId::First, 9, (3, 5), ShapeDirection::East);
    assert_eq!(
        game.placement(9),
        Some(PlacementRecord {
            position: (3, 5),
            orientation: ShapeDirection::East,
            owner: PlayerId::First,
        })
    );
    assert_eq!(occupied_cells(&game, PlayerId::First), vec![(3, 5), (4, 5)]);
    assert_eq!(occupied_cells(&game, PlayerId::Second), vec![(3, 6), (4, 6), (3, 7)]);
    assert_eq!(game.placement(0), None);
}

#[test]
fn occupancy_grid_starts_empty_and_only_fills() {
    let mut grid = OccupancyGrid::new();
    for row in 0..9 {
        for col in 0..9 {
            assert!(!grid.is_occupied(col, row));
        }
    }
    grid.occupy(3, 4);
    assert!(grid.is_occupied(3, 4));
    assert!(!grid.is_occupied(4, 3));
    grid.occupy(3, 4);
    assert!(grid.is_occupied(3, 4));
    grid.occupy(9, 0);
    grid.occupy(-1, 2);
    grid.occupy(0, 9);
    assert!(!grid.is_occupied(9, 0));
    assert!(!grid.is_occupied(-1, 2));
    assert!(!grid.is_occupied(0, 9));
    grid.occupy_all(&vec![(0, 0), (8, 8), (9, 9), (-4, 1), (0, 0)]);
    let mut count = 0;
    for row in 0..9 {
        for col in 0..9 {
            if grid.is_occupied(col, row) {
                count += 1;
            }
        }
    }
    assert_eq!(count, 3);
    assert!(grid.is_occupied(0, 0) && grid.is_occupied(8, 8) && grid.is_occupied(3, 4));
}

#[test]
fn in_bounds_is_zero_to_eight() {
    assert_eq!(BOARD_SIDE, 9);
    assert!(in_bounds(0, 0));
    assert!(in_bounds(8, 8));
    assert!(!in_bounds(9, 0));
    assert!(!in_bounds(0, 9));
    assert!(!in_bounds(-1, 0));
    assert!(!in_bounds(0, -1));
    assert!(!in_bounds(i64::MAX, i64::MIN));
}

#[test]
fn the_program_starts_on_the_start_screen() {
    assert_eq!(GameState::default(), GameState::HelloUI);
    assert_ne!(GameState::default(), GameState::InGame);
}

#[test]
fn player_ids() {
    assert_eq!(PlayerId::First.index(), 0);
    assert_eq!(PlayerId::Second.index(), 1);
    assert_eq!(PlayerId::First.other(), PlayerId::Second);
    assert_eq!(PlayerId::Second.other(), PlayerId::First);
}

#[test]
fn a_square_of_the_board_is_an_offset() {
    assert_eq!(BlockInfo { col: 0, row: 0 }.offset(), Some((0, 0)));
    assert_eq!(BlockInfo { col: 8, row: 3 }.offset(), Some((8, 3)));
    assert_eq!(BlockInfo { col: 9, row: 3 }.offset(), None);
    assert_eq!(BlockInfo { col: 3, row: 9 }.offset(), None);
    assert_eq!(BlockInfo { col: usize::MAX, row: 0 }.offset(), None);
}
