use tictactoe::conditions::CheckType;
use tictactoe::game::GameState;

#[test]
fn test_check_win_conditions_col() {
    let mut game = GameState::new();

    game.make_ai_move(0, 0).unwrap();
    game.make_player_move(0, 2).unwrap();
    game.make_ai_move(0, 1).unwrap();
    game.make_player_move(1, 1).unwrap();
    game.make_ai_move(2, 0).unwrap();

    if let Some(tuple) = game.check_win_block_condition(CheckType::Win) {
        let (x, y) = tuple;
        assert_eq!(x, 1);
        assert_eq!(y, 0);
    } else {
        panic!()
    }
}

#[test]
fn test_check_win_conditions_row() {
    let mut game = GameState::new();

    game.make_ai_move(0, 0).unwrap();
    game.make_ai_move(1, 0).unwrap();

    if let Some(tuple) = game.check_win_block_condition(CheckType::Win) {
        let (x, y) = tuple;
        assert_eq!(x, 2);
        assert_eq!(y, 0);
    } else {
        panic!()
    }
}

#[test]
fn test_check_win_conditions_diag() {
    let mut game = GameState::new();

    game.make_ai_move(0, 0).unwrap();
    game.make_ai_move(1, 1).unwrap();

    if let Some(tuple) = game.check_win_block_condition(CheckType::Win) {
        let (x, y) = tuple;
        assert_eq!(x, 2);
        assert_eq!(y, 2);
    } else {
        panic!()
    }
}

#[test]
fn test_check_win_conditions_rev_diag() {
    let mut game = GameState::new();

    game.make_ai_move(2, 0).unwrap();
    game.make_ai_move(1, 1).unwrap();

    if let Some(tuple) = game.check_win_block_condition(CheckType::Win) {
        let (x, y) = tuple;
        assert_eq!(x, 0);
        assert_eq!(y, 2);
    } else {
        panic!()
    }
}

#[test]
fn test_check_block_conditions_col() {
    let mut game = GameState::new();

    game.make_player_move(0, 0).unwrap();
    game.make_player_move(0, 1).unwrap();

    if let Some(tuple) = game.check_win_block_condition(CheckType::Block) {
        let (x, y) = tuple;
        assert_eq!(x, 0);
        assert_eq!(y, 2);
    } else {
        panic!()
    }
}

#[test]
fn test_check_block_conditions_row() {
    let mut game = GameState::new();

    game.make_player_move(0, 0).unwrap();
    game.make_player_move(1, 0).unwrap();

    if let Some(tuple) = game.check_win_block_condition(CheckType::Block) {
        let (x, y) = tuple;
        assert_eq!(x, 2);
        assert_eq!(y, 0);
    } else {
        panic!()
    }
}

#[test]
fn test_check_block_conditions_diag() {
    let mut game = GameState::new();

    game.make_player_move(0, 0).unwrap();
    game.make_player_move(1, 1).unwrap();

    if let Some(tuple) = game.check_win_block_condition(CheckType::Block) {
        let (x, y) = tuple;
        assert_eq!(x, 2);
        assert_eq!(y, 2);
    } else {
        panic!()
    }
}

#[test]
fn test_check_block_conditions_rev_diag() {
    let mut game = GameState::new();

    game.make_player_move(2, 0).unwrap();
    game.make_player_move(1, 1).unwrap();

    if let Some(tuple) = game.check_win_block_condition(CheckType::Block) {
        let (x, y) = tuple;
        assert_eq!(x, 0);
        assert_eq!(y, 2);
    } else {
        panic!()
    }
}

#[test]
fn test_check_center() {
    let game = GameState::new();

    if let Some(tuple) = game.check_center() {
        let (x, y) = tuple;
        assert_eq!(x, 1);
        assert_eq!(y, 1);
    } else {
        panic!()
    }
}

#[test]
fn test_check_opposite_corner() {
    let mut game = GameState::new();

    game.make_player_move(0, 0).unwrap();

    if let Some(tuple) = game.check_corner() {
        let (x, y) = tuple;
        assert_eq!(x, 2);
        assert_eq!(y, 2);
    } else {
        panic!()
    }
}

#[test]
fn test_check_opposite_corner_rev() {
    let mut game = GameState::new();

    game.make_player_move(2, 0).unwrap();

    if let Some(tuple) = game.check_corner() {
        let (x, y) = tuple;
        assert_eq!(x, 0);
        assert_eq!(y, 2);
    } else {
        panic!()
    }
}

#[test]
fn test_fork() {
    let mut game = GameState::new();

    game.make_ai_move(0, 0).unwrap();
    game.make_player_move(1, 0).unwrap();
    game.make_ai_move(2, 0).unwrap();
    game.make_player_move(0, 2).unwrap();

    if let Some(tuple) = game.check_fork_block_condition(CheckType::Win) {
        let (x, y) = tuple;
        println!("{} {}", x, y);
        assert_eq!(x, 2);
        assert_eq!(y, 2);
    } else {
        panic!()
    }
}

#[test]
fn test_fork_block() {
    let mut game = GameState::new();

    game.make_player_move(0, 0).unwrap();
    game.make_ai_move(1, 0).unwrap();
    game.make_player_move(2, 0).unwrap();
    game.make_ai_move(0, 2).unwrap();

    if let Some(tuple) = game.check_fork_block_condition(CheckType::Block) {
        let (x, y) = tuple;
        println!("{} {}", x, y);
        assert_eq!(x, 2);
        assert_eq!(y, 2);
    } else {
        panic!()
    }
}
