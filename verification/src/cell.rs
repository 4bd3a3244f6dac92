//! The cell state, the named rule sets, and the per-cell transition rules.
//!
//! Each rule set is a pair of lookup tables over the live-neighbor count of
//! a cell, one table for currently alive cells and one for currently dead
//! cells. A neighbor count outside every table, or a rule-set name that is
//! not recognized, yields a dead cell.

use vstd::prelude::*;

verus! {

/// One grid position's state: alive or dead.
#[derive(Clone, Copy, Debug, PartialEq, Eq, Structural)]
pub enum Cell {
    Dead,
    Alive,
}

/// A named neighbor-counting rule set, or `Unknown` for any other name.
///
/// `Unknown` is deliberate: an unrecognized rule-set name is not an error
/// but a defined fallback under which every cell's next state is dead.
#[derive(Clone, Copy, Debug, PartialEq, Eq, Structural)]
pub enum Ruleset {
    Conway,
    Caves,
    SmoothCaves,
    Smooth,
    Lines,
    Unknown,
}

/// The opposite of a cell state.
pub open spec fn spec_swap(c: Cell) -> Cell {
    match c {
        Cell::Alive => Cell::Dead,
        Cell::Dead => Cell::Alive,
    }
}

/// Conway: an alive cell survives on 2 or 3 live neighbors; a dead cell
/// becomes alive on exactly 3.
pub open spec fn spec_conway(c: Cell, neighbors: int) -> Cell {
    match c {
        Cell::Alive => if neighbors == 2 || neighbors == 3 {
            Cell::Alive
        } else {
            Cell::Dead
        },
        Cell::Dead => if neighbors == 3 {
            Cell::Alive
        } else {
            Cell::Dead
        },
    }
}

/// Caves: an alive cell survives on 3 through 8 live neighbors; a dead cell
/// becomes alive on 6 through 8.
pub open spec fn spec_caves(c: Cell, neighbors: int) -> Cell {
    match c {
        Cell::Alive => if 3 <= neighbors <= 8 {
            Cell::Alive
        } else {
            Cell::Dead
        },
        Cell::Dead => if 6 <= neighbors <= 8 {
            Cell::Alive
        } else {
            Cell::Dead
        },
    }
}

/// Smooth caves: an alive cell survives on 4 through 8 live neighbors; a
/// dead cell becomes alive on 5 through 8.
pub open spec fn spec_smooth_caves(c: Cell, neighbors: int) -> Cell {
    match c {
        Cell::Alive => if 4 <= neighbors <= 8 {
            Cell::Alive
        } else {
            Cell::Dead
        },
        Cell::Dead => if 5 <= neighbors <= 8 {
            Cell::Alive
        } else {
            Cell::Dead
        },
    }
}

/// Smooth: any cell is alive next on 5 through 8 live neighbors,
/// whatever its current state.
pub open spec fn spec_smooth(c: Cell, neighbors: int) -> Cell {
    if 5 <= neighbors <= 8 {
        Cell::Alive
    } else {
        Cell::Dead
    }
}

/// Lines: an alive cell survives on 5 through 8 live neighbors; a dead cell
/// becomes alive on 4 through 8.
pub open spec fn spec_lines(c: Cell, neighbors: int) -> Cell {
    match c {
        Cell::Alive => if 5 <= neighbors <= 8 {
            Cell::Alive
        } else {
            Cell::Dead
        },
        Cell::Dead => if 4 <= neighbors <= 8 {
            Cell::Alive
        } else {
            Cell::Dead
        },
    }
}

/// The next state of a cell with the given live-neighbor count under the
/// given rule set; dead under `Unknown`.
pub open spec fn spec_transition(rs: Ruleset, c: Cell, neighbors: int) -> Cell {
    match rs {
        Ruleset::Conway => spec_conway(c, neighbors),
        Ruleset::Caves => spec_caves(c, neighbors),
        Ruleset::SmoothCaves => spec_smooth_caves(c, neighbors),
        Ruleset::Smooth => spec_smooth(c, neighbors),
        Ruleset::Lines => spec_lines(c, neighbors),
        Ruleset::Unknown => Cell::Dead,
    }
}

/// The rule set a name denotes; every unlisted name denotes `Unknown`.
pub open spec fn ruleset_of(name: Seq<char>) -> Ruleset {
    if name == "caves"@ {
        Ruleset::Caves
    } else if name == "smooth caves"@ {
        Ruleset::SmoothCaves
    } else if name == "conway"@ {
        Ruleset::Conway
    } else if name == "smooth"@ {
        Ruleset::Smooth
    } else if name == "lines"@ {
        Ruleset::Lines
    } else {
        Ruleset::Unknown
    }
}

/// Character-for-character equality of two string slices.
fn str_eq(a: &str, b: &str) -> (r: bool)
    ensures
        r == (a@ == b@),
{
    let a_owned: String = a.to_owned();
    let b_owned: String = b.to_owned();
    a_owned == b_owned
}

impl Ruleset {
    /// The rule set the given name denotes; `Unknown` for every other name.
    pub fn from_name(name: &str) -> (r: Ruleset)
        ensures
            r == ruleset_of(name@),
    {
        if str_eq(name, "caves") {
            Ruleset::Caves
        } else if str_eq(name, "smooth caves") {
            Ruleset::SmoothCaves
        } else if str_eq(name, "conway") {
            Ruleset::Conway
        } else if str_eq(name, "smooth") {
            Ruleset::Smooth
        } else if str_eq(name, "lines") {
            Ruleset::Lines
        } else {
            Ruleset::Unknown
        }
    }
}

impl Cell {
    /// Returns the opposite state.
    pub fn swap(&self) -> (r: Cell)
        ensures
            r == spec_swap(*self),
    {
        match self {
            Cell::Alive => Cell::Dead,
            Cell::Dead => Cell::Alive,
        }
    }

    /// Next state under the Conway tables.
    pub fn conway(&self, neighbors: usize) -> (r: Cell)
        ensures
            r == spec_conway(*self, neighbors as int),
    {
        match self {
            Cell::Alive => match neighbors {
                2 | 3 => Cell::Alive,
                _ => Cell::Dead,
            },
            Cell::Dead => match neighbors {
                3 => Cell::Alive,
                _ => Cell::Dead,
            },
        }
    }

    /// Next state under the caves tables.
    pub fn caves(&self, neighbors: usize) -> (r: Cell)
        ensures
            r == spec_caves(*self, neighbors as int),
    {
        match self {
            Cell::Alive => match neighbors {
                3 | 4 | 5 | 6 | 7 | 8 => Cell::Alive,
                _ => Cell::Dead,
            },
            Cell::Dead => match neighbors {
                6 | 7 | 8 => Cell::Alive,
                _ => Cell::Dead,
            },
        }
    }

    /// Next state under the smooth caves tables.
    pub fn smooth_caves(&self, neighbors: usize) -> (r: Cell)
        ensures
            r == spec_smooth_caves(*self, neighbors as int),
    {
        match self {
            Cell::Alive => match neighbors {
                4 | 5 | 6 | 7 | 8 => Cell::Alive,
                _ => Cell::Dead,
            },
            Cell::Dead => match neighbors {
                5 | 6 | 7 | 8 => Cell::Alive,
                _ => Cell::Dead,
            },
        }
    }

    /// Next state under the smooth tables.
    pub fn smooth(&self, neighbors: usize) -> (r: Cell)
        ensures
            r == spec_smooth(*self, neighbors as int),
    {
        match neighbors {
            5 | 6 | 7 | 8 => Cell::Alive,
            _ => Cell::Dead,
        }
    }

    /// Next state under the lines tables.
    pub fn lines(&self, neighbors: usize) -> (r: Cell)
        ensures
            r == spec_lines(*self, neighbors as int),
    {
        match self {
            Cell::Alive => match neighbors {
                5 | 6 | 7 | 8 => Cell::Alive,
                _ => Cell::Dead,
            },
            Cell::Dead => match neighbors {
                4 | 5 | 6 | 7 | 8 => Cell::Alive,
                _ => Cell::Dead,
            },
        }
    }

    /// Next state under the given rule set; dead under `Unknown`.
    pub fn transition(&self, rs: Ruleset, neighbors: usize) -> (r: Cell)
        ensures
            r == spec_transition(rs, *self, neighbors as int),
    {
        match rs {
            Ruleset::Conway => self.conway(neighbors),
            Ruleset::Caves => self.caves(neighbors),
            Ruleset::SmoothCaves => self.smooth_caves(neighbors),
            Ruleset::Smooth => self.smooth(neighbors),
            Ruleset::Lines => self.lines(neighbors),
            Ruleset::Unknown => Cell::Dead,
        }
    }
}

} // verus!
