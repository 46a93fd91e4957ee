use vstd::prelude::*;

verus! {

/// A walking direction relative to the player's facing.
#[derive(Clone, Copy, PartialEq, Eq, Structural, Debug)]
pub enum Mov {
    North,
    South,
    West,
    East,
}

} // verus!
