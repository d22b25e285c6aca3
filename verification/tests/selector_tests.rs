use tictactoe::conditions::{CheckType, EmptyTile, GameError, Winner};
use tictactoe::game::GameState;
use tictactoe::tile::Tile;

#[test]
fn selector_takes_the_win() {
    // a line with two own marks and an empty cell is completed
    let mut game = GameState::new();
    game.make_ai_move(0, 0).unwrap();
    game.make_player_move(0, 1).unwrap();
    game.make_ai_move(1, 0).unwrap();
    game.make_player_move(1, 1).unwrap();

    assert_eq!(game.find_ai_move(), Ok((2, 0)));
}

#[test]
fn selector_blocks_the_opponent() {
    // no winning line of our own, so the opponent's threat is blocked
    let mut game = GameState::new();
    game.make_player_move(0, 0).unwrap();
    game.make_ai_move(1, 1).unwrap();
    game.make_player_move(0, 1).unwrap();

    assert_eq!(game.find_ai_move(), Ok((0, 2)));
}

#[test]
fn selector_prefers_win_over_block() {
    // both a win at (2, 0) and a block at (2, 1) are open; the win is taken
    let mut game = GameState::new();
    game.make_ai_move(0, 0).unwrap();
    game.make_player_move(0, 1).unwrap();
    game.make_ai_move(1, 0).unwrap();
    game.make_player_move(1, 1).unwrap();
    game.make_ai_move(0, 2).unwrap();
    game.make_player_move(2, 2).unwrap();

    assert_eq!(game.find_ai_move(), Ok((2, 0)));
}

#[test]
fn selector_creates_fork() {
    // neither side threatens a line yet, so the selector falls through
    // to the fork scan and takes the double threat at (2, 2)
    let mut game = GameState::new();
    game.make_ai_move(0, 0).unwrap();
    game.make_player_move(1, 0).unwrap();
    game.make_ai_move(2, 0).unwrap();
    game.make_player_move(0, 2).unwrap();

    assert_eq!(game.find_ai_move(), Ok((2, 2)));
}

#[test]
fn selector_takes_center_on_empty_board() {
    let game = GameState::new();
    assert_eq!(game.find_ai_move(), Ok((1, 1)));
}

#[test]
fn selector_reports_game_over_on_full_board() {
    let mut game = GameState::new();
    // fill all nine cells, alternating sides
    game.make_ai_move(0, 0).unwrap();
    game.make_player_move(1, 0).unwrap();
    game.make_ai_move(2, 0).unwrap();
    game.make_player_move(0, 1).unwrap();
    game.make_ai_move(1, 1).unwrap();
    game.make_player_move(2, 1).unwrap();
    game.make_ai_move(0, 2).unwrap();
    game.make_player_move(1, 2).unwrap();
    game.make_ai_move(2, 2).unwrap();

    assert_eq!(game.find_ai_move(), Err(GameError::GameOver));
}

#[test]
fn occupied_cell_rejected_and_state_kept() {
    let mut game = GameState::new();
    game.make_ai_move(0, 0).unwrap();

    assert_eq!(
        game.make_player_move(0, 0),
        Err(GameError::CellOccupied(Tile::X))
    );
    // the failed move left the game as it was: play continues normally
    assert_eq!(game.make_player_move(1, 1), Ok(()));
    assert_eq!(
        game.make_ai_move(0, 0),
        Err(GameError::CellOccupied(Tile::X))
    );
}

#[test]
fn out_of_bounds_move_rejected() {
    let mut game = GameState::new();
    assert_eq!(game.make_ai_move(0, 3), Err(GameError::OutOfBounds));
    assert_eq!(game.make_ai_move(5, 5), Err(GameError::OutOfBounds));
}

#[test]
fn find_empty_scans_row_major() {
    let game = GameState::new();
    // on an empty board the first corner-parity cell is (0, 0) and the
    // first side-parity cell is (1, 0)
    assert_eq!(game.find_empty(EmptyTile::Corner), Some((0, 0)));
    assert_eq!(game.find_empty(EmptyTile::Side), Some((1, 0)));
}

#[test]
fn find_empty_skips_occupied_cells() {
    let mut game = GameState::new();
    game.make_ai_move(0, 0).unwrap();
    game.make_player_move(1, 0).unwrap();
    assert_eq!(game.find_empty(EmptyTile::Corner), Some((2, 0)));
    assert_eq!(game.find_empty(EmptyTile::Side), Some((0, 1)));
}

#[test]
fn win_scan_takes_first_line_in_order() {
    // threats on row 0, row 1, both columns and the main diagonal;
    // rows are scanned first, so the row-0 cell is proposed
    let mut game = GameState::new();
    game.make_ai_move(0, 0).unwrap();
    game.make_ai_move(1, 0).unwrap();
    game.make_ai_move(0, 1).unwrap();
    game.make_ai_move(1, 1).unwrap();

    assert_eq!(game.check_win_block_condition(CheckType::Win), Some((2, 0)));
}

#[test]
fn fork_scan_takes_first_cell_in_order() {
    // (2, 1), (1, 2) and (2, 2) each leave at least two threat lines
    // open; the row-major scan settles on (2, 1)
    let mut game = GameState::new();
    game.make_ai_move(0, 0).unwrap();
    game.make_ai_move(2, 0).unwrap();
    game.make_ai_move(0, 2).unwrap();
    game.make_player_move(1, 1).unwrap();

    assert_eq!(game.check_fork_block_condition(CheckType::Win), Some((2, 1)));
}

#[test]
fn find_empty_on_full_board() {
    let mut game = GameState::new();
    game.make_ai_move(0, 0).unwrap();
    game.make_player_move(1, 0).unwrap();
    game.make_ai_move(2, 0).unwrap();
    game.make_player_move(0, 1).unwrap();
    game.make_ai_move(1, 1).unwrap();
    game.make_player_move(2, 1).unwrap();
    game.make_ai_move(0, 2).unwrap();
    game.make_player_move(1, 2).unwrap();
    game.make_ai_move(2, 2).unwrap();

    assert_eq!(game.find_empty(EmptyTile::Corner), None);
    assert_eq!(game.find_empty(EmptyTile::Side), None);
}

#[test]
fn game_won_by_ai_row() {
    let mut game = GameState::new();
    game.make_ai_move(0, 0).unwrap();
    game.make_player_move(0, 1).unwrap();
    game.make_ai_move(1, 0).unwrap();
    game.make_player_move(1, 1).unwrap();
    game.make_ai_move(2, 0).unwrap();
    game.make_player_move(0, 2).unwrap();

    assert_eq!(game.is_game_won(), Some(Winner::AI));
}

#[test]
fn game_won_by_player_row() {
    let mut game = GameState::new();
    game.make_player_move(0, 0).unwrap();
    game.make_ai_move(0, 1).unwrap();
    game.make_player_move(1, 0).unwrap();
    game.make_ai_move(1, 1).unwrap();
    game.make_player_move(2, 0).unwrap();
    game.make_ai_move(2, 2).unwrap();

    assert_eq!(game.is_game_won(), Some(Winner::Player));
}

#[test]
fn game_not_won_early() {
    let mut game = GameState::new();
    game.make_ai_move(0, 0).unwrap();
    game.make_player_move(1, 1).unwrap();

    assert_eq!(game.is_game_won(), None);
}

#[test]
fn set_player_token_swaps_marks() {
    let mut game = GameState::new();
    game.set_player_token(Tile::X);
    // the automated player now marks with O
    game.make_ai_move(2, 1).unwrap();
    let rejection = game.make_player_move(2, 1);
    assert_eq!(rejection, Err(GameError::CellOccupied(Tile::O)));
}

#[test]
fn corner_reply_ignores_side_and_center_moves() {
    let mut game = GameState::new();
    game.make_player_move(1, 0).unwrap();
    assert_eq!(game.check_corner(), None);

    let mut game = GameState::new();
    game.make_player_move(1, 1).unwrap();
    assert_eq!(game.check_corner(), None);
}

#[test]
fn corner_reply_needs_the_opposite_corner_empty() {
    let mut game = GameState::new();
    game.make_ai_move(2, 2).unwrap();
    game.make_player_move(0, 0).unwrap();
    assert_eq!(game.check_corner(), None);
}
