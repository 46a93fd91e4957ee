use vstd::prelude::*;

verus! {

/// A gameplay event raised during an update pass and resolved by the
/// frame loop after all entities have moved.
#[derive(Clone, Copy, PartialEq, Eq, Structural, Debug)]
pub enum Event {
    /// An enemy attacks the player, dealing the carried damage.
    EnemyAttack(u32),
    /// The player's life reached zero.
    GameOver,
}

} // verus!
