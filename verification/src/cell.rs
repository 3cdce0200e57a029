//! A single cell and the rule that decides its next state.

use vstd::prelude::*;

verus! {

/// The state of one position of the grid.
#[derive(Clone, Copy, Debug, PartialEq, Eq, Structural)]
pub enum Cell {
    Dead,
    Alive,
}

impl Cell {
    /// What a cell adds to the neighbor count of the cells around it:
    /// 1 when alive, 0 when dead.
    pub open spec fn population(self) -> int {
        if self is Alive {
            1
        } else {
            0
        }
    }

    /// The other state.
    pub open spec fn flipped(self) -> Cell {
        if self is Alive {
            Cell::Dead
        } else {
            Cell::Alive
        }
    }

    /// The state of a cell in the next generation, given how many of its
    /// neighbors are alive now.
    ///
    /// A live cell survives with two or three live neighbors and dies
    /// otherwise, of underpopulation or of overpopulation. A dead cell comes
    /// to life with exactly three live neighbors and stays dead otherwise.
    pub open spec fn successor(self, live_neighbors: int) -> Cell {
        match self {
            Cell::Alive => if live_neighbors == 2 || live_neighbors == 3 {
                Cell::Alive
            } else {
                Cell::Dead
            },
            Cell::Dead => if live_neighbors == 3 {
                Cell::Alive
            } else {
                Cell::Dead
            },
        }
    }

    /// The character that stands for the cell in a text picture of the grid:
    /// a hollow square for a dead cell, a solid square for a live one.
    pub open spec fn glyph(self) -> char {
        if self is Alive {
            '\u{25FC}'
        } else {
            '\u{25FB}'
        }
    }

    /// Whether the cell is alive.
    pub fn is_alive(self) -> (alive: bool)
        ensures
            alive == (self is Alive),
    {
        match self {
            Cell::Alive => true,
            Cell::Dead => false,
        }
    }

    /// The count that this cell adds to each of its neighbors.
    pub fn count(self) -> (n: u8)
        ensures
            n == self.population(),
    {
        match self {
            Cell::Alive => 1,
            Cell::Dead => 0,
        }
    }

    /// The other state: a live cell gives a dead one and a dead cell a live one.
    pub fn toggled(self) -> (other: Cell)
        ensures
            other == self.flipped(),
    {
        match self {
            Cell::Alive => Cell::Dead,
            Cell::Dead => Cell::Alive,
        }
    }

    /// The glyph of the cell, as a string of that one character.
    pub fn symbol(self) -> (symbol: &'static str)
        ensures
            symbol@ == seq![self.glyph()],
    {
        proof {
            reveal_strlit("\u{25FC}");
            reveal_strlit("\u{25FB}");
        }
        match self {
            Cell::Alive => {
                assert("\u{25FC}"@ =~= seq![self.glyph()]);
                "\u{25FC}"
            },
            Cell::Dead => {
                assert("\u{25FB}"@ =~= seq![self.glyph()]);
                "\u{25FB}"
            },
        }
    }

    /// Applies the transition rule to one cell.
    pub fn next(self, live_neighbors: u8) -> (next: Cell)
        ensures
            next == self.successor(live_neighbors as int),
    {
        match (self, live_neighbors) {
            (Cell::Alive, 2) | (Cell::Alive, 3) => Cell::Alive,
            (Cell::Dead, 3) => Cell::Alive,
            _ => Cell::Dead,
        }
    }
}

} // verus!
