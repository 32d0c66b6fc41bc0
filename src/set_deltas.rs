use crate::branch_type::BranchType;
use crate::random::{roll, took, RandomSource};
use vstd::prelude::*;

verus! {

/// Vertical step of a dead branch from a ten-sided roll.
pub open spec fn dead_dy(r: int) -> int {
    if r <= 2 {
        -1
    } else if r <= 6 {
        0
    } else {
        1
    }
}

/// Vertical step of a dying branch from a ten-sided roll.
pub open spec fn dying_dy(r: int) -> int {
    if r <= 1 {
        -1
    } else if r <= 8 {
        0
    } else {
        1
    }
}

/// Horizontal step of a dying branch from a fifteen-sided roll.
pub open spec fn dying_dx(r: int) -> int {
    if r == 0 {
        -3
    } else if r <= 2 {
        -2
    } else if r <= 5 {
        -1
    } else if r <= 8 {
        0
    } else if r <= 11 {
        1
    } else if r <= 13 {
        2
    } else {
        3
    }
}

/// Vertical step of a shoot from a ten-sided roll.
pub open spec fn shoot_dy(r: int) -> int {
    if r <= 1 {
        -1
    } else if r <= 7 {
        0
    } else {
        1
    }
}

/// Horizontal step of a left shoot from a ten-sided roll; a right shoot mirrors it.
pub open spec fn shoot_dx(r: int) -> int {
    if r <= 1 {
        -2
    } else if r <= 5 {
        -1
    } else if r <= 8 {
        0
    } else {
        1
    }
}

/// Horizontal step of a young trunk from a ten-sided roll.
pub open spec fn young_trunk_dx(r: int) -> int {
    if r == 0 {
        -2
    } else if r <= 3 {
        -1
    } else if r <= 5 {
        0
    } else if r <= 8 {
        1
    } else {
        2
    }
}

/// Vertical step of a mature trunk from a ten-sided roll.
pub open spec fn mature_trunk_dy(r: int) -> int {
    if r > 2 {
        -1
    } else {
        0
    }
}

/// A trunk just emerging or about to die.
pub open spec fn trunk_is_fresh_or_spent(life: int, age: int) -> bool {
    age <= 2 || life < 4
}

/// A trunk that still grows wide.
pub open spec fn trunk_is_young(age: int, m: int) -> bool {
    age < m * 3
}

/// How many draws the step of a branch takes.
pub open spec fn delta_draws(t: BranchType, life: int, age: int, m: int) -> int {
    if t == BranchType::Trunk && (trunk_is_fresh_or_spent(life, age) || trunk_is_young(age, m)) {
        1
    } else {
        2
    }
}

/// The step `(dx, dy)` of a branch, made with the draws of `ds` from `pos` on.
pub open spec fn delta_of(t: BranchType, life: int, age: int, m: int, ds: Seq<i32>, pos: int) -> (int, int) {
    let a = ds[pos];
    let b = ds[pos + 1];
    match t {
        BranchType::Trunk => {
            if trunk_is_fresh_or_spent(life, age) {
                (roll(a, 3) - 1, 0)
            } else if trunk_is_young(age, m) {
                (young_trunk_dx(roll(a, 10)), if age % (m / 2) == 0 { -1 } else { 0 })
            } else {
                (roll(b, 3) - 1, mature_trunk_dy(roll(a, 10)))
            }
        },
        BranchType::ShootLeft => (shoot_dx(roll(b, 10)), shoot_dy(roll(a, 10))),
        BranchType::ShootRight => (-shoot_dx(roll(b, 10)), shoot_dy(roll(a, 10))),
        BranchType::Dying => (dying_dx(roll(b, 15)), dying_dy(roll(a, 10))),
        BranchType::Dead => (roll(b, 3) - 1, dead_dy(roll(a, 10))),
    }
}

/// The step `(dx, dy)` of a branch of type `branch_type` with `life` left at
/// `age` steps: a biased random walk whose bias depends on the type.
pub fn set_deltas(branch_type: BranchType, life: i64, age: i64, multiplier: i32, rng: &mut RandomSource) -> (r: (i32, i32))
    requires
        old(rng).wf(),
        multiplier >= 1,
    ensures
        final(rng).wf(),
        took(old(rng)@, final(rng)@, delta_draws(branch_type, life as int, age as int, multiplier as int)),
        (r.0 as int, r.1 as int) == delta_of(
            branch_type,
            life as int,
            age as int,
            multiplier as int,
            final(rng)@,
            old(rng)@.len() as int,
        ),
        -3 <= r.0 <= 3,
        -1 <= r.1 <= 1,
{
    let mut dx: i32 = 0;
    let mut dy: i32 = 0;
    match branch_type {
        BranchType::Trunk => {
            set_delta_trunk(age, life, &mut dy, &mut dx, multiplier, rng);
        },
        BranchType::ShootLeft | BranchType::ShootRight => {
            set_delta_shoot(&mut dy, &mut dx, branch_type, rng);
        },
        BranchType::Dying => {
            set_deltas_dying(&mut dy, &mut dx, rng);
        },
        BranchType::Dead => {
            set_deltas_dead(&mut dy, &mut dx, rng);
        },
    }
    (dx, dy)
}

/// A dead branch fills in the area around it.
fn set_deltas_dead(dy: &mut i32, dx: &mut i32, rng: &mut RandomSource)
    requires
        old(rng).wf(),
    ensures
        final(rng).wf(),
        took(old(rng)@, final(rng)@, 2),
        (*final(dx) as int, *final(dy) as int) == delta_of(BranchType::Dead, 0, 0, 1, final(rng)@, old(rng)@.len() as int),
        -3 <= *final(dx) <= 3,
        -1 <= *final(dy) <= 1,
{
    let roll = rng.dice(10);
    if roll <= 2 {
        *dy = -1;
    } else if roll <= 6 {
        *dy = 0;
    } else {
        *dy = 1;
    }
    *dx = rng.dice(3) - 1;
}

/// A dying branch keeps mostly level and spreads sideways.
fn set_deltas_dying(dy: &mut i32, dx: &mut i32, rng: &mut RandomSource)
    requires
        old(rng).wf(),
    ensures
        final(rng).wf(),
        took(old(rng)@, final(rng)@, 2),
        (*final(dx) as int, *final(dy) as int) == delta_of(BranchType::Dying, 0, 0, 1, final(rng)@, old(rng)@.len() as int),
        -3 <= *final(dx) <= 3,
        -1 <= *final(dy) <= 1,
{
    let roll = rng.dice(10);
    if roll <= 1 {
        *dy = -1;
    } else if roll <= 8 {
        *dy = 0;
    } else {
        *dy = 1;
    }
    let roll = rng.dice(15);
    if roll == 0 {
        *dx = -3;
    } else if roll <= 2 {
        *dx = -2;
    } else if roll <= 5 {
        *dx = -1;
    } else if roll <= 8 {
        *dx = 0;
    } else if roll <= 11 {
        *dx = 1;
    } else if roll <= 13 {
        *dx = 2;
    } else {
        *dx = 3;
    }
}

/// A shoot trends to its side with little vertical movement.
fn set_delta_shoot(dy: &mut i32, dx: &mut i32, branch_type: BranchType, rng: &mut RandomSource)
    requires
        old(rng).wf(),
        branch_type == BranchType::ShootLeft || branch_type == BranchType::ShootRight,
    ensures
        final(rng).wf(),
        took(old(rng)@, final(rng)@, 2),
        (*final(dx) as int, *final(dy) as int) == delta_of(branch_type, 0, 0, 1, final(rng)@, old(rng)@.len() as int),
        -3 <= *final(dx) <= 3,
        -1 <= *final(dy) <= 1,
{
    let roll = rng.dice(10);
    if roll <= 1 {
        *dy = -1;
    } else if roll <= 7 {
        *dy = 0;
    } else {
        *dy = 1;
    }
    let roll = rng.dice(10);
    if roll <= 1 {
        *dx = -2;
    } else if roll <= 5 {
        *dx = -1;
    } else if roll <= 8 {
        *dx = 0;
    } else {
        *dx = 1;
    }
    if branch_type == BranchType::ShootRight {
        *dx = -*dx;
    }
}

/// A trunk rises: sideways only when fresh or spent, wide while young,
/// mostly upward once mature.
fn set_delta_trunk(age: i64, life: i64, dy: &mut i32, dx: &mut i32, multiplier: i32, rng: &mut RandomSource)
    requires
        old(rng).wf(),
        multiplier >= 1,
    ensures
        final(rng).wf(),
        took(old(rng)@, final(rng)@, delta_draws(BranchType::Trunk, life as int, age as int, multiplier as int)),
        (*final(dx) as int, *final(dy) as int) == delta_of(
            BranchType::Trunk,
            life as int,
            age as int,
            multiplier as int,
            final(rng)@,
            old(rng)@.len() as int,
        ),
        -3 <= *final(dx) <= 3,
        -1 <= *final(dy) <= 1,
{
    if age <= 2 || life < 4 {
        *dy = 0;
        *dx = (rng.rand() % 3) as i32 - 1;
    } else if age < multiplier as i64 * 3 {
        let half = multiplier as i64 / 2;
        if age % half == 0 {
            *dy = -1;
        } else {
            *dy = 0;
        }
        let roll = rng.dice(10);
        if roll == 0 {
            *dx = -2;
        } else if roll <= 3 {
            *dx = -1;
        } else if roll <= 5 {
            *dx = 0;
        } else if roll <= 8 {
            *dx = 1;
        } else {
            *dx = 2;
        }
    } else {
        let roll = rng.dice(10);
        if roll > 2 {
            *dy = -1;
        } else {
            *dy = 0;
        }
        *dx = rng.dice(3) - 1;
    }
}

} // verus!
