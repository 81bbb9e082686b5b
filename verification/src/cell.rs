//! Cells of the grid: a position, a vitality and a species.

use vstd::prelude::*;

verus! {

/// Vitality of a cell: alive with an age counter, or dead.
///
/// Age starts at 1 on birth, is incremented on survival (or by the configured
/// aging rate for a hungry predator) and is reset to 1 on rebirth.
#[derive(Debug, Clone, Copy, PartialEq, Eq, Structural)]
pub enum CellState {
    Alive(usize),
    Dead,
}

/// The two species of the ecosystem.
#[derive(Debug, Clone, Copy, PartialEq, Eq, Structural)]
pub enum CellType {
    Prey,
    Predetor,
}

/// One cell of the grid. `x` and `y` always match the cell's position in the
/// grid that holds it.
#[derive(Debug, Clone, Copy, PartialEq, Eq, Structural)]
pub struct Cell {
    pub x: usize,
    pub y: usize,
    pub state: CellState,
    pub kind: CellType,
}

impl Cell {
    pub fn new(x: usize, y: usize, state: CellState, kind: CellType) -> (c: Cell)
        ensures
            c == (Cell { x, y, state, kind }),
    {
        Cell { x, y, state, kind }
    }

    /// A prey cell at the given position with the given vitality.
    pub fn prey(x: usize, y: usize, state: CellState) -> (c: Cell)
        ensures
            c == (Cell { x, y, state, kind: CellType::Prey }),
    {
        Cell { x, y, state, kind: CellType::Prey }
    }

    /// A predator cell at the given position with the given vitality.
    pub fn prededator(x: usize, y: usize, state: CellState) -> (c: Cell)
        ensures
            c == (Cell { x, y, state, kind: CellType::Predetor }),
    {
        Cell { x, y, state, kind: CellType::Predetor }
    }
}

impl Default for Cell {
    /// A dead prey cell at the origin.
    fn default() -> (c: Cell)
        ensures
            c == (Cell { x: 0usize, y: 0usize, state: CellState::Dead, kind: CellType::Prey }),
    {
        Cell { x: 0, y: 0, state: CellState::Dead, kind: CellType::Prey }
    }
}

} // verus!
