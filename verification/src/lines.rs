use vstd::prelude::*;
use crate::tile::{Tile, opposite};
use crate::conditions::Direction;
use crate::board::{Board, cell_at};

verus! {

/// A direction that names an actual line of the board: row and column
/// indices must lie in [0, 2].
pub open spec fn valid_direction(d: Direction) -> bool {
    match d {
        Direction::Row(y) => y < 3,
        Direction::Column(x) => x < 3,
        Direction::MatchDiagonal => true,
        Direction::UnmatchDiagonal => true,
    }
}

/// The column of the `i`-th cell (i in 0..3) of line `d`.
pub open spec fn line_x(d: Direction, i: int) -> int {
    match d {
        Direction::Row(_) => i,
        Direction::Column(x) => x as int,
        Direction::MatchDiagonal => i,
        Direction::UnmatchDiagonal => i,
    }
}

/// The row of the `i`-th cell (i in 0..3) of line `d`.
pub open spec fn line_y(d: Direction, i: int) -> int {
    match d {
        Direction::Row(y) => y as int,
        Direction::Column(_) => i,
        Direction::MatchDiagonal => i,
        Direction::UnmatchDiagonal => 2 - i,
    }
}

/// The mark in the `i`-th cell of line `d`.
pub open spec fn line_cell(b: Seq<Option<Tile>>, d: Direction, i: int) -> Option<Tile> {
    cell_at(b, line_x(d, i), line_y(d, i))
}

/// Whether (x, y) is one of the three cells of line `d`.
pub open spec fn on_line(d: Direction, x: int, y: int) -> bool {
    ||| x == line_x(d, 0) && y == line_y(d, 0)
    ||| x == line_x(d, 1) && y == line_y(d, 1)
    ||| x == line_x(d, 2) && y == line_y(d, 2)
}

/// How many cells of line `d` hold exactly the mark `t`.
pub open spec fn count_token(b: Seq<Option<Tile>>, d: Direction, t: Tile) -> int {
    (if line_cell(b, d, 0) == Some(t) { 1int } else { 0int })
        + (if line_cell(b, d, 1) == Some(t) { 1int } else { 0int })
        + (if line_cell(b, d, 2) == Some(t) { 1int } else { 0int })
}

/// How many cells of line `d` are empty.
pub open spec fn count_empty(b: Seq<Option<Tile>>, d: Direction) -> int {
    (if line_cell(b, d, 0) is None { 1int } else { 0int })
        + (if line_cell(b, d, 1) is None { 1int } else { 0int })
        + (if line_cell(b, d, 2) is None { 1int } else { 0int })
}

/// How many cells of line `d` hold a mark other than `t`.
pub open spec fn count_other(b: Seq<Option<Tile>>, d: Direction, t: Tile) -> int {
    (if line_cell(b, d, 0) is Some && line_cell(b, d, 0) != Some(t) { 1int } else { 0int })
        + (if line_cell(b, d, 1) is Some && line_cell(b, d, 1) != Some(t) { 1int } else { 0int })
        + (if line_cell(b, d, 2) is Some && line_cell(b, d, 2) != Some(t) { 1int } else { 0int })
}

/// The sum of the columns of the occupied cells of line `d`.
pub open spec fn occ_sum_x(b: Seq<Option<Tile>>, d: Direction) -> int {
    (if line_cell(b, d, 0) is Some { line_x(d, 0) } else { 0int })
        + (if line_cell(b, d, 1) is Some { line_x(d, 1) } else { 0int })
        + (if line_cell(b, d, 2) is Some { line_x(d, 2) } else { 0int })
}

/// The sum of the rows of the occupied cells of line `d`.
pub open spec fn occ_sum_y(b: Seq<Option<Tile>>, d: Direction) -> int {
    (if line_cell(b, d, 0) is Some { line_y(d, 0) } else { 0int })
        + (if line_cell(b, d, 1) is Some { line_y(d, 1) } else { 0int })
        + (if line_cell(b, d, 2) is Some { line_y(d, 2) } else { 0int })
}

/// A threat for `t` on line `d`: exactly two cells hold `t` and the third
/// is empty, so placing `t` on the empty cell completes the line.
pub open spec fn is_threat(b: Seq<Option<Tile>>, d: Direction, t: Tile) -> bool {
    valid_direction(d) && count_token(b, d, t) == 2 && count_empty(b, d) == 1
}

/// The line named by index `i` (i in 0..8), fixing the order in which
/// scans enumerate the eight lines: rows, then columns, then diagonals.
pub open spec fn line_of(i: int) -> Direction {
    if i == 0 { Direction::Row(0) }
    else if i == 1 { Direction::Row(1) }
    else if i == 2 { Direction::Row(2) }
    else if i == 3 { Direction::Column(0) }
    else if i == 4 { Direction::Column(1) }
    else if i == 5 { Direction::Column(2) }
    else if i == 6 { Direction::MatchDiagonal }
    else { Direction::UnmatchDiagonal }
}

/// Some line of the board is a threat for `t`.
pub open spec fn has_threat(b: Seq<Option<Tile>>, t: Tile) -> bool {
    exists|i: int| 0 <= i < 8 && is_threat(b, line_of(i), t)
}

/// (x, y) is the empty cell of some line that threatens to complete for
/// `t`: playing `t` there finishes that line.
pub open spec fn is_threat_cell(b: Seq<Option<Tile>>, t: Tile, x: int, y: int) -> bool {
    cell_at(b, x, y) is None
        && exists|i: int| 0 <= i < 8 && is_threat(b, line_of(i), t) && on_line(line_of(i), x, y)
}

/// Line index `i` names the first threat line for `t` in `line_of` order.
pub open spec fn is_first_threat_line(b: Seq<Option<Tile>>, t: Tile, i: int) -> bool {
    0 <= i < 8 && is_threat(b, line_of(i), t)
        && forall|j: int| 0 <= j < i ==> !is_threat(b, #[trigger] line_of(j), t)
}

/// How many of the first `k` lines (in `line_of` order) are threats for `t`.
pub open spec fn threat_count_upto(b: Seq<Option<Tile>>, t: Tile, k: int) -> int
    decreases k,
{
    if k <= 0 {
        0
    } else {
        threat_count_upto(b, t, k - 1) + if is_threat(b, line_of(k - 1), t) { 1int } else { 0int }
    }
}

/// How many of the eight lines are threats for `t`.
pub open spec fn threat_count(b: Seq<Option<Tile>>, t: Tile) -> int {
    threat_count_upto(b, t, 8)
}

/// (x, y) is a fork point for `t`: the cell is empty, and placing `t`
/// there yields a board with at least two threat lines for `t`.
pub open spec fn is_fork_cell(b: Seq<Option<Tile>>, t: Tile, x: int, y: int) -> bool {
    0 <= x < 3 && 0 <= y < 3 && cell_at(b, x, y) is None
        && threat_count(b.update(x + 3 * y, Some(t)), t) >= 2
}

/// Some empty cell of the board is a fork point for `t`.
pub open spec fn has_fork(b: Seq<Option<Tile>>, t: Tile) -> bool {
    exists|x: int, y: int| #[trigger] is_fork_cell(b, t, x, y)
}

/// All three cells of line `d` hold the mark `t`.
pub open spec fn line_won(b: Seq<Option<Tile>>, d: Direction, t: Tile) -> bool {
    valid_direction(d) && count_token(b, d, t) == 3
}

/// Some line of the board is completed by `t`.
pub open spec fn has_win(b: Seq<Option<Tile>>, t: Tile) -> bool {
    exists|i: int| 0 <= i < 8 && line_won(b, line_of(i), t)
}

/// With only two marks in play, the cells of a line holding a mark other
/// than `t` are exactly the cells holding the opposite of `t`.
pub proof fn lemma_other_counts_opposite(b: Seq<Option<Tile>>, d: Direction, t: Tile)
    ensures
        count_other(b, d, t) == count_token(b, d, opposite(t)),
{
    let c0 = line_cell(b, d, 0);
    let c1 = line_cell(b, d, 1);
    let c2 = line_cell(b, d, 2);
    assert(c0 is None || c0 == Some(Tile::X) || c0 == Some(Tile::O));
    assert(c1 is None || c1 == Some(Tile::X) || c1 == Some(Tile::O));
    assert(c2 is None || c2 == Some(Tile::X) || c2 == Some(Tile::O));
    match t {
        Tile::X => assert(count_other(b, d, Tile::X) == count_token(b, d, Tile::O)),
        Tile::O => assert(count_other(b, d, Tile::O) == count_token(b, d, Tile::X)),
    }
}

/// Coordinate recovery round-trips. A full line's columns sum to 3, as do
/// its rows (a column's three equal indices sum to 3x, which the modulus
/// folds back). So on any line holding exactly two `t`-marks and one empty
/// cell, subtracting the occupied cells' coordinate sums recovers a
/// coordinate that lies on that line and is currently empty.
pub proof fn lemma_recovery_round_trip(b: Seq<Option<Tile>>, d: Direction, t: Tile)
    requires
        b.len() == 9,
        is_threat(b, d, t),
    ensures
        on_line(d, (6 - occ_sum_x(b, d)) % 3, (6 - occ_sum_y(b, d)) % 3),
        cell_at(b, (6 - occ_sum_x(b, d)) % 3, (6 - occ_sum_y(b, d)) % 3) is None,
{
    let ex = (6 - occ_sum_x(b, d)) % 3;
    let ey = (6 - occ_sum_y(b, d)) % 3;
    match d {
        Direction::Row(y) => {
            assert(on_line(d, ex, ey) && line_cell(b, d, ex) is None);
        },
        Direction::Column(x) => {
            assert(on_line(d, ex, ey) && line_cell(b, d, ey) is None);
        },
        Direction::MatchDiagonal => {
            assert(on_line(d, ex, ey) && line_cell(b, d, ex) is None);
        },
        Direction::UnmatchDiagonal => {
            assert(on_line(d, ex, ey) && line_cell(b, d, ex) is None);
        },
    }
}

/// The column and row of the `i`-th cell of a valid line, as run-time
/// values.
pub fn line_coords(d: Direction, i: usize) -> (r: (usize, usize))
    requires
        valid_direction(d),
        i < 3,
    ensures
        r.0 == line_x(d, i as int),
        r.1 == line_y(d, i as int),
{
    match d {
        Direction::Row(y) => (i, y),
        Direction::Column(x) => (x, i),
        Direction::MatchDiagonal => (i, i),
        Direction::UnmatchDiagonal => (i, 2 - i),
    }
}

/// The line named by index `i`, as a run-time value, in the same order
/// as `line_of`.
pub fn direction_of(i: usize) -> (d: Direction)
    requires
        i < 8,
    ensures
        d == line_of(i as int),
        valid_direction(d),
{
    if i == 0 { Direction::Row(0) }
    else if i == 1 { Direction::Row(1) }
    else if i == 2 { Direction::Row(2) }
    else if i == 3 { Direction::Column(0) }
    else if i == 4 { Direction::Column(1) }
    else if i == 5 { Direction::Column(2) }
    else if i == 6 { Direction::MatchDiagonal }
    else { Direction::UnmatchDiagonal }
}

/// One pass over the three cells of line `d`: the coordinate sums of the
/// occupied cells, the number of cells holding `t`, and the number of
/// cells holding the other mark.
pub fn scan_line(b: &Board, d: Direction, t: Tile) -> (r: (usize, usize, usize, usize))
    requires
        b.wf(),
        valid_direction(d),
    ensures
        r.0 == occ_sum_x(b@, d),
        r.1 == occ_sum_y(b@, d),
        r.2 == count_token(b@, d, t),
        r.3 == count_other(b@, d, t),
{
    let mut sum_x: usize = 0;
    let mut sum_y: usize = 0;
    let mut n_target: usize = 0;
    let mut n_other: usize = 0;

    let (x0, y0) = line_coords(d, 0);
    match b.get(x0, y0) {
        Some(owner) => {
            sum_x = sum_x + x0;
            sum_y = sum_y + y0;
            if owner == t { n_target = n_target + 1; } else { n_other = n_other + 1; }
        },
        None => {},
    }

    let (x1, y1) = line_coords(d, 1);
    match b.get(x1, y1) {
        Some(owner) => {
            sum_x = sum_x + x1;
            sum_y = sum_y + y1;
            if owner == t { n_target = n_target + 1; } else { n_other = n_other + 1; }
        },
        None => {},
    }

    let (x2, y2) = line_coords(d, 2);
    match b.get(x2, y2) {
        Some(owner) => {
            sum_x = sum_x + x2;
            sum_y = sum_y + y2;
            if owner == t { n_target = n_target + 1; } else { n_other = n_other + 1; }
        },
        None => {},
    }

    (sum_x, sum_y, n_target, n_other)
}

/// How many of the eight lines currently threaten to complete for `t`,
/// counted in `line_of` order.
pub fn count_threats(b: &Board, t: Tile) -> (n: usize)
    requires
        b.wf(),
    ensures
        n == threat_count(b@, t),
{
    let mut n: usize = 0;
    let mut k: usize = 0;
    while k < 8
        invariant
            b.wf(),
            k <= 8,
            n <= k,
            n == threat_count_upto(b@, t, k as int),
        decreases 8 - k,
    {
        let d = direction_of(k);
        let (_sum_x, _sum_y, n_target, n_other) = scan_line(b, d, t);
        assert(count_token(b@, d, t) + count_other(b@, d, t) + count_empty(b@, d) == 3);
        if n_target == 2 && n_other == 0 {
            n = n + 1;
        }
        k = k + 1;
    }
    n
}

} // verus!
