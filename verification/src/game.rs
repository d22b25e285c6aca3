use vstd::prelude::*;
use crate::tile::{Tile, opposite};
use crate::board::{Board, cell_at};
use crate::conditions::{CheckType, EmptyTile, GameError, Winner};
use crate::lines::{
    count_threats, direction_of, has_fork, has_threat, has_win, is_fork_cell,
    is_first_threat_line, is_threat, is_threat_cell, lemma_other_counts_opposite,
    lemma_recovery_round_trip, line_of, line_won, on_line, scan_line, count_token,
    count_other, count_empty,
};

verus! {

/// How many of the first `k` cells of a board snapshot are occupied.
pub open spec fn occupied_prefix(b: Seq<Option<Tile>>, k: int) -> int
    decreases k,
{
    if k <= 0 {
        0
    } else {
        occupied_prefix(b, k - 1) + if b[k - 1] is Some { 1int } else { 0int }
    }
}

/// How many cells of a board snapshot are occupied.
pub open spec fn count_occupied(b: Seq<Option<Tile>>) -> int {
    occupied_prefix(b, b.len() as int)
}

proof fn lemma_occupied_prefix_bound(b: Seq<Option<Tile>>, k: int)
    requires
        0 <= k,
    ensures
        0 <= occupied_prefix(b, k) <= k,
    decreases k,
{
    if k > 0 {
        lemma_occupied_prefix_bound(b, k - 1);
    }
}

proof fn lemma_occupied_prefix_update(b: Seq<Option<Tile>>, i: int, t: Tile, k: int)
    requires
        0 <= i < b.len(),
        b[i] is None,
        0 <= k <= b.len(),
    ensures
        occupied_prefix(b.update(i, Some(t)), k)
            == occupied_prefix(b, k) + if i < k { 1int } else { 0int },
    decreases k,
{
    if k > 0 {
        lemma_occupied_prefix_update(b, i, t, k - 1);
    }
}

proof fn lemma_occupied_prefix_all_none(b: Seq<Option<Tile>>, k: int)
    requires
        0 <= k <= b.len(),
        forall|j: int| 0 <= j < b.len() ==> b[j] is None,
    ensures
        occupied_prefix(b, k) == 0,
    decreases k,
{
    if k > 0 {
        lemma_occupied_prefix_all_none(b, k - 1);
    }
}

proof fn lemma_not_full_has_empty(b: Seq<Option<Tile>>, k: int)
    requires
        0 <= k <= b.len(),
        occupied_prefix(b, k) < k,
    ensures
        exists|j: int| 0 <= j < k && b[j] is None,
    decreases k,
{
    if k > 0 {
        if b[k - 1] is None {
            assert(0 <= k - 1 < k && b[k - 1] is None);
        } else {
            lemma_not_full_has_empty(b, k - 1);
        }
    }
}

/// Whether (x, y) is one of the four corner cells.
pub open spec fn is_corner(x: int, y: int) -> bool {
    (x == 0 || x == 2) && (y == 0 || y == 2)
}

/// The reply the opposite-corner heuristic owes: if the recorded last
/// move was a corner and the diagonally opposite corner is empty, that
/// opposite corner; in every other case, no move.
pub open spec fn corner_reply(b: Seq<Option<Tile>>, last: Option<(usize, usize)>)
    -> Option<(usize, usize)> {
    match last {
        None => None,
        Some(m) => if is_corner(m.0 as int, m.1 as int)
            && cell_at(b, 2 - m.0 as int, 2 - m.1 as int) is None {
            Some(((2 - m.0) as usize, (2 - m.1) as usize))
        } else {
            None
        },
    }
}

/// The cell parity an empty-cell scan looks for: corners (and the
/// center) have even column + row, sides odd.
pub open spec fn parity_of(kind: EmptyTile) -> int {
    match kind {
        EmptyTile::Corner => 0,
        EmptyTile::Side => 1,
    }
}

/// (x, y) is an empty cell of the board whose parity matches `kind`.
pub open spec fn empty_kind_at(b: Seq<Option<Tile>>, kind: EmptyTile, x: int, y: int) -> bool {
    0 <= x < 3 && 0 <= y < 3 && cell_at(b, x, y) is None && (x + y) % 2 == parity_of(kind)
}

/// Some empty cell of the board has the parity of `kind`.
pub open spec fn exists_empty_kind(b: Seq<Option<Tile>>, kind: EmptyTile) -> bool {
    exists|x: int, y: int| #[trigger] empty_kind_at(b, kind, x, y)
}

/// (x, y) is the first empty cell of parity `kind` in row-major order.
pub open spec fn is_first_empty_kind(b: Seq<Option<Tile>>, kind: EmptyTile, x: int, y: int)
    -> bool {
    empty_kind_at(b, kind, x, y)
        && forall|u: int, v: int| 0 <= u < 3 && 0 <= v < 3 && u + 3 * v < x + 3 * y
            ==> !#[trigger] empty_kind_at(b, kind, u, v)
}

/// What the move selector owes for a given state: the heuristics are
/// owed in strict priority order (win, block, fork, block-fork, center,
/// opposite corner, empty corner, empty side), each falling through to
/// the next only when the earlier ones find nothing; a full board is
/// reported as game over before any heuristic runs, and an exhausted
/// chain as no move found.
pub open spec fn selection_ok(s: GameState, r: Result<(usize, usize), GameError>) -> bool {
    let b = s.grid();
    let me = s.ai();
    let opp = s.player();
    if s.filled() == 9 {
        r == Err::<(usize, usize), GameError>(GameError::GameOver)
    } else if has_threat(b, me) {
        r matches Ok(c) && c.0 < 3 && c.1 < 3 && is_threat_cell(b, me, c.0 as int, c.1 as int)
    } else if has_threat(b, opp) {
        r matches Ok(c) && c.0 < 3 && c.1 < 3 && is_threat_cell(b, opp, c.0 as int, c.1 as int)
    } else if s.filled() / 2 >= 2 && has_fork(b, me) {
        r matches Ok(c) && c.0 < 3 && c.1 < 3 && is_fork_cell(b, me, c.0 as int, c.1 as int)
    } else if s.filled() / 2 >= 2 && has_fork(b, opp) {
        r matches Ok(c) && c.0 < 3 && c.1 < 3 && is_fork_cell(b, opp, c.0 as int, c.1 as int)
    } else if cell_at(b, 1, 1) is None {
        r == Ok::<(usize, usize), GameError>((1, 1))
    } else {
        match corner_reply(b, s.last()) {
            Some(c) => r == Ok::<(usize, usize), GameError>(c),
            None => if exists_empty_kind(b, EmptyTile::Corner) {
                r matches Ok(c) && c.0 < 3 && c.1 < 3
                    && is_first_empty_kind(b, EmptyTile::Corner, c.0 as int, c.1 as int)
            } else if exists_empty_kind(b, EmptyTile::Side) {
                r matches Ok(c) && c.0 < 3 && c.1 < 3
                    && is_first_empty_kind(b, EmptyTile::Side, c.0 as int, c.1 as int)
            } else {
                r == Err::<(usize, usize), GameError>(GameError::NoMoveFound)
            },
        }
    }
}

/// Win priority: on a board that is not full, whenever some line holds
/// exactly two of the automated player's marks and one empty cell, the
/// selector's contract forces the chosen move to be the empty cell of
/// such a line, completing it.
pub proof fn lemma_win_priority(s: GameState, r: Result<(usize, usize), GameError>)
    requires
        s.wf(),
        s.filled() < 9,
        has_threat(s.grid(), s.ai()),
        selection_ok(s, r),
    ensures
        r matches Ok(c) && is_threat_cell(s.grid(), s.ai(), c.0 as int, c.1 as int),
{
}

/// Block priority: when no winning line exists for the automated player
/// but the opponent threatens to complete one, the selector's contract
/// forces the chosen move to be the cell that blocks it.
pub proof fn lemma_block_priority(s: GameState, r: Result<(usize, usize), GameError>)
    requires
        s.wf(),
        s.filled() < 9,
        !has_threat(s.grid(), s.ai()),
        has_threat(s.grid(), s.player()),
        selection_ok(s, r),
    ensures
        r matches Ok(c) && is_threat_cell(s.grid(), s.player(), c.0 as int, c.1 as int),
{
}

/// Win strictly outranks block: on a board offering both a winning cell
/// and a blocking cell for the automated player, the selector's contract
/// forces the winning cell.
pub proof fn lemma_win_outranks_block(s: GameState, r: Result<(usize, usize), GameError>)
    requires
        s.wf(),
        s.filled() < 9,
        has_threat(s.grid(), s.ai()),
        has_threat(s.grid(), s.player()),
        selection_ok(s, r),
    ensures
        r matches Ok(c) && is_threat_cell(s.grid(), s.ai(), c.0 as int, c.1 as int),
{
}

/// One game in progress: the board, which mark the automated player and
/// the opponent each use, the most recent move by either side, and how
/// many cells are filled.
pub struct GameState {
    board: Board,
    ai_token: Tile,
    player_token: Tile,
    last_move: Option<(usize, usize)>,
    filled_tiles: usize,
}

impl GameState {
    /// The board contents, row-major.
    pub closed spec fn grid(&self) -> Seq<Option<Tile>> {
        self.board@
    }

    /// The automated player's mark.
    pub closed spec fn ai(&self) -> Tile {
        self.ai_token
    }

    /// The opponent's mark.
    pub closed spec fn player(&self) -> Tile {
        self.player_token
    }

    /// The most recent move by either side, if any.
    pub closed spec fn last(&self) -> Option<(usize, usize)> {
        self.last_move
    }

    /// How many cells are filled.
    pub closed spec fn filled(&self) -> int {
        self.filled_tiles as int
    }

    /// The state invariant: nine cells, an accurate fill count, the two
    /// sides holding opposite marks, and a recorded last move (if any)
    /// lying on the board.
    pub open spec fn wf(&self) -> bool {
        &&& self.grid().len() == 9
        &&& self.filled() == count_occupied(self.grid())
        &&& self.player() == opposite(self.ai())
        &&& (self.last() matches Some(m) ==> m.0 < 3 && m.1 < 3)
    }

    /// A fresh game: an empty board, the automated player on `X`, the
    /// opponent on `O`, no move recorded yet.
    pub fn new() -> (s: GameState)
        ensures
            s.wf(),
            forall|i: int| 0 <= i < 9 ==> s.grid()[i] is None,
            s.ai() == Tile::X,
            s.player() == Tile::O,
            s.last() is None,
            s.filled() == 0,
    {
        let board = Board::new();
        proof {
            lemma_occupied_prefix_all_none(board@, 9);
        }
        GameState {
            board,
            ai_token: Tile::X,
            player_token: Tile::O,
            last_move: None,
            filled_tiles: 0,
        }
    }

    /// Assigns `tile` to the opponent; the automated player takes the
    /// opposite mark. Nothing else changes.
    pub fn set_player_token(&mut self, tile: Tile)
        requires
            old(self).wf(),
        ensures
            final(self).wf(),
            final(self).player() == tile,
            final(self).ai() == opposite(tile),
            final(self).grid() == old(self).grid(),
            final(self).last() == old(self).last(),
            final(self).filled() == old(self).filled(),
    {
        self.player_token = tile;
        match tile {
            Tile::X => self.ai_token = Tile::O,
            Tile::O => self.ai_token = Tile::X,
        }
    }

    /// The mark a scan targets: the automated player's own mark when
    /// looking for a win, the opponent's when looking for a block.
    pub open spec fn target(&self, check: CheckType) -> Tile {
        match check {
            CheckType::Win => self.ai(),
            CheckType::Block => self.player(),
        }
    }

    /// Looks for a line with exactly two target marks and one empty cell
    /// and proposes that empty cell: a winning move when the target is
    /// the automated player's mark, a block when it is the opponent's.
    /// The empty cell is recovered by subtracting the occupied cells'
    /// coordinate sums from a full line's sum of 3 (folded by a modulus).
    pub fn check_win_block_condition(&self, check: CheckType) -> (r: Option<(usize, usize)>)
        requires
            self.wf(),
        ensures
            r is Some <==> has_threat(self.grid(), self.target(check)),
            r matches Some(c) ==> c.0 < 3 && c.1 < 3
                && is_threat_cell(self.grid(), self.target(check), c.0 as int, c.1 as int)
                && exists|i: int| #[trigger] is_first_threat_line(
                    self.grid(), self.target(check), i)
                    && on_line(line_of(i), c.0 as int, c.1 as int),
    {
        let t = match check {
            CheckType::Win => self.ai_token,
            CheckType::Block => self.player_token,
        };
        let mut i: usize = 0;
        while i < 8
            invariant
                self.wf(),
                t == self.target(check),
                i <= 8,
                forall|j: int| 0 <= j < i ==> !is_threat(self.grid(), #[trigger] line_of(j), t),
            decreases 8 - i,
        {
            let d = direction_of(i);
            let (sum_x, sum_y, n_target, n_other) = scan_line(&self.board, d, t);
            proof {
                assert(count_token(self.grid(), d, t) + count_other(self.grid(), d, t)
                    + count_empty(self.grid(), d) == 3);
            }
            if n_target == 2 && n_other == 0 {
                proof {
                    lemma_recovery_round_trip(self.grid(), d, t);
                    assert(is_first_threat_line(self.grid(), t, i as int));
                }
                let ex = (6 - sum_x) % 3;
                let ey = (6 - sum_y) % 3;
                return Some((ex, ey));
            }
            i = i + 1;
        }
        None
    }

    /// Looks for a fork point for the target mark: an empty cell where
    /// placing that mark would create at least two simultaneous threat
    /// lines. Empty cells are tried in row-major order, each on an
    /// independent copy of the board. Forks are geometrically impossible
    /// before two full turns have elapsed, so the scan is skipped then.
    pub fn check_fork_block_condition(&self, check: CheckType) -> (r: Option<(usize, usize)>)
        requires
            self.wf(),
        ensures
            r is Some <==> self.filled() / 2 >= 2 && has_fork(self.grid(), self.target(check)),
            r matches Some(c) ==> c.0 < 3 && c.1 < 3
                && is_fork_cell(self.grid(), self.target(check), c.0 as int, c.1 as int)
                && forall|u: int, v: int| 0 <= u < 3 && 0 <= v < 3 && u + 3 * v < c.0 + 3 * c.1
                    ==> !#[trigger] is_fork_cell(self.grid(), self.target(check), u, v),
    {
        if self.filled_tiles / 2 < 2 {
            return None;
        }
        let t = match check {
            CheckType::Win => self.ai_token,
            CheckType::Block => self.player_token,
        };
        let mut i: usize = 0;
        while i < 9
            invariant
                self.wf(),
                t == self.target(check),
                self.filled() / 2 >= 2,
                i <= 9,
                forall|u: int, v: int| 0 <= u < 3 && 0 <= v < 3 && u + 3 * v < i
                    ==> !#[trigger] is_fork_cell(self.grid(), t, u, v),
            decreases 9 - i,
        {
            let x = i % 3;
            let y = i / 3;
            match self.board.get(x, y) {
                None => {
                    let mut hypothetical = self.board.duplicate();
                    let _ = hypothetical.make_move(x, y, t);
                    let n = count_threats(&hypothetical, t);
                    if n >= 2 {
                        proof {
                            assert(hypothetical@
                                == self.grid().update(x + 3 * y, Some(t)));
                            assert(is_fork_cell(self.grid(), t, x as int, y as int));
                        }
                        return Some((x, y));
                    }
                },
                Some(_) => {},
            }
            i = i + 1;
        }
        proof {
            assert forall|u: int, v: int| !#[trigger] is_fork_cell(self.grid(), t, u, v) by {
                if 0 <= u < 3 && 0 <= v < 3 {
                    assert(u + 3 * v < 9);
                }
            };
        }
        None
    }

    /// Reports who, if anyone, has completed a line of three. A win is
    /// impossible before the automated player's third turn, so the scan
    /// is skipped then. The caller must not hand in a board on which
    /// both sides have completed a line; alternating play never
    /// produces one.
    pub fn is_game_won(&self) -> (r: Option<Winner>)
        requires
            self.wf(),
            !(has_win(self.grid(), self.ai()) && has_win(self.grid(), self.player())),
        ensures
            self.filled() / 2 < 3 ==> r is None,
            self.filled() / 2 >= 3 ==> {
                &&& (r == Some(Winner::AI) <==> has_win(self.grid(), self.ai()))
                &&& (r == Some(Winner::Player) <==> has_win(self.grid(), self.player()))
                &&& (r is None <==> !has_win(self.grid(), self.ai())
                    && !has_win(self.grid(), self.player()))
            },
    {
        if self.filled_tiles / 2 < 3 {
            return None;
        }
        let me = self.ai_token;
        let mut i: usize = 0;
        while i < 8
            invariant
                self.wf(),
                me == self.ai(),
                self.filled() / 2 >= 3,
                !(has_win(self.grid(), self.ai()) && has_win(self.grid(), self.player())),
                i <= 8,
                forall|j: int| 0 <= j < i
                    ==> !line_won(self.grid(), #[trigger] line_of(j), self.ai())
                        && !line_won(self.grid(), line_of(j), self.player()),
            decreases 8 - i,
        {
            let d = direction_of(i);
            let (_sum_x, _sum_y, n_target, n_other) = scan_line(&self.board, d, me);
            proof {
                lemma_other_counts_opposite(self.grid(), d, me);
            }
            if n_target == 3 {
                proof {
                    assert(line_won(self.grid(), line_of(i as int), self.ai()));
                    assert(has_win(self.grid(), self.ai()));
                }
                return Some(Winner::AI);
            }
            if n_other == 3 {
                proof {
                    assert(line_won(self.grid(), line_of(i as int), self.player()));
                    assert(has_win(self.grid(), self.player()));
                }
                return Some(Winner::Player);
            }
            i = i + 1;
        }
        None
    }

    /// Proposes the center cell (1, 1) if it is still empty.
    pub fn check_center(&self) -> (r: Option<(usize, usize)>)
        requires
            self.wf(),
        ensures
            cell_at(self.grid(), 1, 1) is None ==> r == Some((1usize, 1usize)),
            cell_at(self.grid(), 1, 1) is Some ==> r is None,
    {
        match self.board.get(1, 1) {
            Some(_) => None,
            None => Some((1, 1)),
        }
    }

    /// Proposes the corner diagonally opposite the opponent's last move,
    /// if that last move was a corner and the opposite corner is empty;
    /// proposes nothing after a center or side move, or before any move.
    pub fn check_corner(&self) -> (r: Option<(usize, usize)>)
        requires
            self.wf(),
        ensures
            r == corner_reply(self.grid(), self.last()),
    {
        match self.last_move {
            None => None,
            Some((lx, ly)) => {
                if (lx == 0 || lx == 2) && (ly == 0 || ly == 2) {
                    let ox = 2 - lx;
                    let oy = 2 - ly;
                    match self.board.get(ox, oy) {
                        Some(_) => None,
                        None => Some((ox, oy)),
                    }
                } else {
                    None
                }
            },
        }
    }

    /// Scans the board in row-major order for the first empty cell of the
    /// requested kind: a corner-parity cell (column + row even) or a
    /// side-parity cell (column + row odd).
    pub fn find_empty(&self, empty: EmptyTile) -> (r: Option<(usize, usize)>)
        requires
            self.wf(),
        ensures
            r is Some <==> exists_empty_kind(self.grid(), empty),
            r matches Some(c) ==> c.0 < 3 && c.1 < 3
                && is_first_empty_kind(self.grid(), empty, c.0 as int, c.1 as int),
    {
        let want: usize = match empty {
            EmptyTile::Corner => 0,
            EmptyTile::Side => 1,
        };
        let mut i: usize = 0;
        while i < 9
            invariant
                self.wf(),
                i <= 9,
                want == parity_of(empty),
                forall|u: int, v: int| 0 <= u < 3 && 0 <= v < 3 && u + 3 * v < i
                    ==> !#[trigger] empty_kind_at(self.grid(), empty, u, v),
            decreases 9 - i,
        {
            let x = i % 3;
            let y = i / 3;
            if (x + y) % 2 == want {
                match self.board.get(x, y) {
                    None => {
                        proof {
                            assert(empty_kind_at(self.grid(), empty, x as int, y as int));
                        }
                        return Some((x, y));
                    },
                    Some(_) => {},
                }
            }
            i = i + 1;
        }
        proof {
            assert forall|u: int, v: int| !#[trigger] empty_kind_at(self.grid(), empty, u, v) by {
                if 0 <= u < 3 && 0 <= v < 3 {
                    assert(u + 3 * v < 9);
                    assert(!empty_kind_at(self.grid(), empty, u, v));
                }
            };
        }
        None
    }

    /// Selects the automated player's next move by trying each heuristic
    /// in strict priority order: win, block, fork, block-fork, center,
    /// opposite corner, empty corner, empty side. Reports `GameOver` on
    /// a full board before trying any heuristic. On a board that is not
    /// full a move is always found, because the two parity scans between
    /// them cover every empty cell.
    pub fn find_ai_move(&self) -> (r: Result<(usize, usize), GameError>)
        requires
            self.wf(),
        ensures
            selection_ok(*self, r),
            self.filled() == 9 <==> r == Err::<(usize, usize), GameError>(GameError::GameOver),
            self.filled() < 9 ==> r is Ok,
    {
        proof {
            lemma_occupied_prefix_bound(self.grid(), 9);
        }
        if self.filled_tiles == 9 {
            return Err(GameError::GameOver);
        }
        if let Some(c) = self.check_win_block_condition(CheckType::Win) {
            return Ok(c);
        }
        if let Some(c) = self.check_win_block_condition(CheckType::Block) {
            return Ok(c);
        }
        if let Some(c) = self.check_fork_block_condition(CheckType::Win) {
            return Ok(c);
        }
        if let Some(c) = self.check_fork_block_condition(CheckType::Block) {
            return Ok(c);
        }
        if let Some(c) = self.check_center() {
            return Ok(c);
        }
        if let Some(c) = self.check_corner() {
            return Ok(c);
        }
        if let Some(c) = self.find_empty(EmptyTile::Corner) {
            return Ok(c);
        }
        if let Some(c) = self.find_empty(EmptyTile::Side) {
            return Ok(c);
        }
        proof {
            lemma_not_full_has_empty(self.grid(), 9);
            let j = choose|j: int| 0 <= j < 9 && self.grid()[j] is None;
            let x = j % 3;
            let y = j / 3;
            assert(x + 3 * y == j);
            assert(cell_at(self.grid(), x, y) is None);
            if (x + y) % 2 == 0 {
                assert(empty_kind_at(self.grid(), EmptyTile::Corner, x, y));
            } else {
                assert(empty_kind_at(self.grid(), EmptyTile::Side, x, y));
            }
            assert(false);
        }
        Err(GameError::NoMoveFound)
    }

    /// Validates and applies one move: `tile` is placed at column `x`,
    /// row `y`. On any failure the state is left exactly as it was.
    fn place(&mut self, x: usize, y: usize, tile: Tile) -> (r: Result<(), GameError>)
        requires
            old(self).wf(),
        ensures
            final(self).wf(),
            final(self).ai() == old(self).ai(),
            final(self).player() == old(self).player(),
            !(x < 3 && y < 3) ==> r == Err::<(), GameError>(GameError::OutOfBounds)
                && *final(self) == *old(self),
            x < 3 && y < 3 ==> (cell_at(old(self).grid(), x as int, y as int) matches Some(owner)
                ==> r == Err::<(), GameError>(GameError::CellOccupied(owner))
                    && *final(self) == *old(self)),
            x < 3 && y < 3 && cell_at(old(self).grid(), x as int, y as int) is None ==> {
                &&& r == Ok::<(), GameError>(())
                &&& final(self).grid() == old(self).grid().update(x + 3 * y, Some(tile))
                &&& final(self).last() == Some((x, y))
                &&& final(self).filled() == old(self).filled() + 1
            },
    {
        if x >= 3 || y >= 3 {
            return Err(GameError::OutOfBounds);
        }
        match self.board.get(x, y) {
            Some(owner) => Err(GameError::CellOccupied(owner)),
            None => {
                proof {
                    lemma_occupied_prefix_bound(self.grid(), 9);
                    lemma_occupied_prefix_update(self.grid(), x + 3 * y as int, tile, 9);
                }
                let _ = self.board.make_move(x, y, tile);
                self.last_move = Some((x, y));
                self.filled_tiles = self.filled_tiles + 1;
                Ok(())
            },
        }
    }

    /// Applies the automated player's move at column `x`, row `y`,
    /// recording it as the last move and raising the fill count. On any
    /// failure the state is left exactly as it was.
    pub fn make_ai_move(&mut self, x: usize, y: usize) -> (r: Result<(), GameError>)
        requires
            old(self).wf(),
        ensures
            final(self).wf(),
            final(self).ai() == old(self).ai(),
            final(self).player() == old(self).player(),
            !(x < 3 && y < 3) ==> r == Err::<(), GameError>(GameError::OutOfBounds)
                && *final(self) == *old(self),
            x < 3 && y < 3 ==> (cell_at(old(self).grid(), x as int, y as int) matches Some(owner)
                ==> r == Err::<(), GameError>(GameError::CellOccupied(owner))
                    && *final(self) == *old(self)),
            x < 3 && y < 3 && cell_at(old(self).grid(), x as int, y as int) is None ==> {
                &&& r == Ok::<(), GameError>(())
                &&& final(self).grid() == old(self).grid().update(
                    x + 3 * y, Some(old(self).ai()))
                &&& final(self).last() == Some((x, y))
                &&& final(self).filled() == old(self).filled() + 1
            },
    {
        let tile = self.ai_token;
        self.place(x, y, tile)
    }

    /// Applies the opponent's move at column `x`, row `y`, recording it
    /// as the last move and raising the fill count. On any failure the
    /// state is left exactly as it was.
    pub fn make_player_move(&mut self, x: usize, y: usize) -> (r: Result<(), GameError>)
        requires
            old(self).wf(),
        ensures
            final(self).wf(),
            final(self).ai() == old(self).ai(),
            final(self).player() == old(self).player(),
            !(x < 3 && y < 3) ==> r == Err::<(), GameError>(GameError::OutOfBounds)
                && *final(self) == *old(self),
            x < 3 && y < 3 ==> (cell_at(old(self).grid(), x as int, y as int) matches Some(owner)
                ==> r == Err::<(), GameError>(GameError::CellOccupied(owner))
                    && *final(self) == *old(self)),
            x < 3 && y < 3 && cell_at(old(self).grid(), x as int, y as int) is None ==> {
                &&& r == Ok::<(), GameError>(())
                &&& final(self).grid() == old(self).grid().update(
                    x + 3 * y, Some(old(self).player()))
                &&& final(self).last() == Some((x, y))
                &&& final(self).filled() == old(self).filled() + 1
            },
    {
        let tile = self.player_token;
        self.place(x, y, tile)
    }
}

} // verus!

