use vstd::prelude::*;

verus! {

/// One of the two player marks that can occupy a cell.
#[derive(Clone, Copy, Debug, PartialEq, Eq, Structural, Hash)]
pub enum Tile {
    X,
    O,
}

/// The other mark: `X` and `O` are each other's opposite.
pub open spec fn opposite(t: Tile) -> Tile {
    match t {
        Tile::X => Tile::O,
        Tile::O => Tile::X,
    }
}

} // verus!
