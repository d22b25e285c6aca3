use vstd::prelude::*;
use crate::tile::Tile;

verus! {

/// Identifies one of the eight winning lines of the board: a row (by its
/// row index), a column (by its column index), the main diagonal (cells
/// where column == row) or the anti-diagonal (cells where column + row == 2).
#[derive(Clone, Copy, Debug, PartialEq, Eq, Structural, Hash)]
pub enum Direction {
    Row(usize),
    Column(usize),
    MatchDiagonal,
    UnmatchDiagonal,
}

/// Which mark a threat scan targets: the automated player's own mark
/// (looking for a winning move) or the opponent's (looking for a block).
#[derive(Clone, Copy, Debug, PartialEq, Eq, Structural)]
pub enum CheckType {
    Win,
    Block,
}

/// Which kind of empty cell a positional scan looks for: a corner
/// (column + row even) or a side (column + row odd).
#[derive(Clone, Copy, Debug, PartialEq, Eq, Structural)]
pub enum EmptyTile {
    Corner,
    Side,
}

/// Who completed a line of three, if anyone has.
#[derive(Clone, Copy, Debug, PartialEq, Eq, Structural)]
pub enum Winner {
    AI,
    Player,
}

/// Everything that can go wrong when selecting or applying a move.
#[derive(Clone, Copy, Debug, PartialEq, Eq, Structural)]
pub enum GameError {
    /// A coordinate lies outside the 3x3 board.
    OutOfBounds,
    /// The addressed cell is already occupied, by the carried mark.
    CellOccupied(Tile),
    /// All nine cells are filled; no move can be selected.
    GameOver,
    /// The heuristic chain was exhausted without finding a move.
    NoMoveFound,
}

} // verus!
