use vstd::prelude::*;

verus! {

/// One grid position's binary state. `DEAD` renders as the byte 0 and
/// `ALIVE` as the byte 1 in the flat buffer the board hands out.
#[allow(non_camel_case_types)]
#[derive(Clone, Copy, Debug, PartialEq, Eq, Structural)]
pub enum Cell {
    DEAD,
    ALIVE,
}

impl Cell {
    /// Flips the state in place: dead becomes alive, alive becomes dead.
    pub fn toggle(&mut self)
        ensures
            *final(self) == (if *old(self) is ALIVE {
                Cell::DEAD
            } else {
                Cell::ALIVE
            }),
    {
        *self = match *self {
            Cell::DEAD => Cell::ALIVE,
            Cell::ALIVE => Cell::DEAD,
        };
    }

    /// True exactly when the state is `ALIVE`.
    pub fn is_alive(&self) -> (alive: bool)
        ensures
            alive == (*self is ALIVE),
    {
        match *self {
            Cell::DEAD => false,
            Cell::ALIVE => true,
        }
    }
}

} // verus!
