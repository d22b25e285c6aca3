use vstd::prelude::*;
use crate::tile::Tile;
use crate::conditions::GameError;

verus! {

/// A 3x3 grid of cells, each either empty or claimed by a mark.
///
/// The cells are stored row-major: the cell at column `x`, row `y` is
/// entry `x + 3 * y`. The grid always holds exactly nine entries.
#[derive(Debug, PartialEq)]
pub struct Board {
    cells: Vec<Option<Tile>>,
}

/// The mark at column `x`, row `y` of a row-major board snapshot.
pub open spec fn cell_at(b: Seq<Option<Tile>>, x: int, y: int) -> Option<Tile> {
    b[x + 3 * y]
}

impl View for Board {
    type V = Seq<Option<Tile>>;

    closed spec fn view(&self) -> Seq<Option<Tile>> {
        self.cells@
    }
}

impl Board {
    /// The structural invariant: one entry per cell of the 3x3 grid.
    pub open spec fn wf(&self) -> bool {
        self@.len() == 9
    }

    /// A fresh board with all nine cells empty.
    pub fn new() -> (b: Board)
        ensures
            b.wf(),
            forall|i: int| 0 <= i < 9 ==> b@[i] is None,
    {
        let mut cells: Vec<Option<Tile>> = Vec::new();
        let mut i: usize = 0;
        while i < 9
            invariant
                i <= 9,
                cells@.len() == i,
                forall|j: int| 0 <= j < i ==> cells@[j] is None,
            decreases 9 - i,
        {
            cells.push(None);
            i = i + 1;
        }
        Board { cells }
    }

    /// The mark currently at column `x`, row `y`, or `None` if the cell
    /// is empty.
    pub fn get(&self, x: usize, y: usize) -> (r: Option<Tile>)
        requires
            self.wf(),
            x < 3,
            y < 3,
        ensures
            r == cell_at(self@, x as int, y as int),
    {
        self.cells[x + 3 * y]
    }

    /// An independent copy of the board, for exploring hypothetical
    /// moves without touching the live grid.
    pub fn duplicate(&self) -> (b: Board)
        requires
            self.wf(),
        ensures
            b.wf(),
            b@ == self@,
    {
        let mut cells: Vec<Option<Tile>> = Vec::new();
        let mut i: usize = 0;
        while i < 9
            invariant
                self.wf(),
                i <= 9,
                cells@.len() == i,
                forall|j: int| 0 <= j < i ==> cells@[j] == self@[j],
            decreases 9 - i,
        {
            cells.push(self.cells[i]);
            i = i + 1;
        }
        let b = Board { cells };
        proof {
            assert(b@ =~= self@);
        }
        b
    }

    /// Claims the cell at column `x`, row `y` for `tile`. Fails without
    /// touching the board if the coordinate is out of bounds or the cell
    /// is already occupied; the `CellOccupied` error carries the mark
    /// that holds the cell.
    pub fn make_move(&mut self, x: usize, y: usize, tile: Tile) -> (r: Result<(), GameError>)
        requires
            old(self).wf(),
        ensures
            final(self).wf(),
            x < 3 && y < 3 && cell_at(old(self)@, x as int, y as int) is None ==> {
                &&& r == Ok::<(), GameError>(())
                &&& final(self)@ == old(self)@.update(x + 3 * y, Some(tile))
            },
            !(x < 3 && y < 3) ==> r == Err::<(), GameError>(GameError::OutOfBounds),
            x < 3 && y < 3 ==> (cell_at(old(self)@, x as int, y as int) matches Some(owner)
                ==> r == Err::<(), GameError>(GameError::CellOccupied(owner))),
            r is Err ==> final(self)@ == old(self)@,
    {
        if x >= 3 || y >= 3 {
            return Err(GameError::OutOfBounds);
        }
        match self.cells[x + 3 * y] {
            Some(owner) => Err(GameError::CellOccupied(owner)),
            None => {
                self.cells[x + 3 * y] = Some(tile);
                Ok(())
            },
        }
    }
}

} // verus!
