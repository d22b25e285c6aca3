//! A heuristic move-selection engine for 3x3 tic-tac-toe.
//!
//! The engine picks the automated player's next move by trying a fixed
//! priority of classical heuristics: win, block, fork, block-fork, center,
//! opposite corner, empty corner, empty side. The board is a fixed 3x3 grid
//! of optional marks; all scanning is done over the eight winning lines
//! (three rows, three columns, two diagonals).

pub mod tile;
pub mod conditions;
pub mod board;
pub mod lines;
pub mod game;
