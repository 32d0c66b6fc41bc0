use crate::branch_type::BranchType;
use crate::random::{roll, took, RandomSource};
use vstd::prelude::*;

verus! {

/// What a branch spawns at one step of its growth.
#[derive(Debug, PartialEq, Eq, Clone, Copy, Structural)]
pub enum Sprout {
    /// No child.
    Nothing,
    /// A dead leaf cluster with the branch's own life.
    Dead,
    /// A dying leaf cluster with the branch's own life.
    Dying,
    /// A new trunk with the given life.
    NewTrunk(i64),
    /// A shoot, whose side and life the caller decides.
    Shoot,
}

/// Trunks and shoots: the wooden branch types.
pub open spec fn is_wood(t: BranchType) -> bool {
    t == BranchType::Trunk || t == BranchType::ShootLeft || t == BranchType::ShootRight
}

/// What a branch of type `t` with `life` left (after this step's decrement)
/// spawns, with the multiplier `m` and the shoot cooldown `cooldown`, using
/// the draws of `ds` from `pos` on; and how many draws it took.
///
/// The checks come in a fixed order: dead first, then dying, then a
/// re-branch, which is a new trunk or else a shoot once the cooldown is over.
pub open spec fn sprout_of(t: BranchType, life: int, m: int, cooldown: int, ds: Seq<i32>, pos: int) -> (Sprout, int) {
    if life < 3 {
        (Sprout::Dead, 0)
    } else if is_wood(t) && life < m + 2 {
        (Sprout::Dying, 0)
    } else {
        let k: int = if t == BranchType::Trunk { 1 } else { 0 };
        let rebranch = (t == BranchType::Trunk && roll(ds[pos], 3) == 0) || life % m == 0;
        if !rebranch {
            (Sprout::Nothing, k)
        } else if roll(ds[pos + k], 8) == 0 && life > 7 {
            (Sprout::NewTrunk((life + roll(ds[pos + k + 1], 5) - 2) as i64), k + 2)
        } else if cooldown <= 0 {
            (Sprout::Shoot, k + 1)
        } else {
            (Sprout::Nothing, k + 1)
        }
    }
}

/// Decides what a branch spawns at this step.
pub fn choose_sprout(branch_type: BranchType, life: i64, multiplier: i32, shoot_cooldown: i64, rng: &mut RandomSource) -> (r: Sprout)
    requires
        old(rng).wf(),
        multiplier >= 1,
        life < i64::MAX - 2,
    ensures
        final(rng).wf(),
        took(old(rng)@, final(rng)@, sprout_of(branch_type, life as int, multiplier as int, shoot_cooldown as int, final(rng)@, old(rng)@.len() as int).1),
        r == sprout_of(branch_type, life as int, multiplier as int, shoot_cooldown as int, final(rng)@, old(rng)@.len() as int).0,
        r is NewTrunk ==> life - 2 <= r->0 <= life + 2 && life > 7,
        r is Shoot ==> shoot_cooldown <= 0,
{
    if life < 3 {
        Sprout::Dead
    } else if (branch_type == BranchType::Trunk || branch_type == BranchType::ShootLeft || branch_type == BranchType::ShootRight)
        && life < multiplier as i64 + 2 {
        Sprout::Dying
    } else if (branch_type == BranchType::Trunk && rng.dice(3) == 0) || life % (multiplier as i64) == 0 {
        if rng.dice(8) == 0 && life > 7 {
            let offset = rng.dice(5) - 2;
            Sprout::NewTrunk(life + offset as i64)
        } else if shoot_cooldown <= 0 {
            Sprout::Shoot
        } else {
            Sprout::Nothing
        }
    } else {
        Sprout::Nothing
    }
}

} // verus!
