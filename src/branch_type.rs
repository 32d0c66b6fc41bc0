use vstd::prelude::*;

verus! {

/// The kind of a branch: decides how it moves, what it spawns and how it looks.
#[derive(Debug, PartialEq, Eq, Clone, Copy, Structural)]
pub enum BranchType {
    Trunk,
    ShootLeft,
    ShootRight,
    Dying,
    Dead,
}

} // verus!
