use tictactoe::board::Board;
use tictactoe::conditions::GameError;
use tictactoe::tile::Tile;

#[test]
fn new_board() {
    let board = Board::new();

    let mut count: usize = 0;
    for x in 0..3usize {
        for y in 0..3usize {
            if board.get(x, y) != None {
                panic!("Tile is not starting empty")
            }
            count += 1;
        }
    }

    if count != 9 {
        panic!("Board does not have 9 elements")
    }
}

#[test]
fn make_move_claims_cell() {
    let mut board = Board::new();
    assert_eq!(board.make_move(1, 2, Tile::X), Ok(()));
    assert_eq!(board.get(1, 2), Some(Tile::X));
}

#[test]
fn make_move_rejects_occupied_cell() {
    let mut board = Board::new();
    board.make_move(0, 0, Tile::O).unwrap();
    assert_eq!(
        board.make_move(0, 0, Tile::X),
        Err(GameError::CellOccupied(Tile::O))
    );
    // the failed move left the grid unchanged
    assert_eq!(board.get(0, 0), Some(Tile::O));
}

#[test]
fn make_move_rejects_out_of_bounds() {
    let mut board = Board::new();
    assert_eq!(board.make_move(3, 0, Tile::X), Err(GameError::OutOfBounds));
    assert_eq!(board.make_move(0, 7, Tile::X), Err(GameError::OutOfBounds));
}
