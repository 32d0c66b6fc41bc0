use crate::branch_type::BranchType;
use crate::config::GrowthParameters;
use crate::random::{roll, took, RandomSource};
use vstd::prelude::*;

verus! {

/// How a glyph is painted: a color pair of the terminal, bold or not.
#[derive(Debug, PartialEq, Eq, Clone, Copy, Structural)]
pub struct Style {
    pub bold: bool,
    pub color_pair: i16,
}

/// Foliage: a branch painted with leaves.
pub open spec fn is_foliage(t: BranchType) -> bool {
    t == BranchType::Dying || t == BranchType::Dead
}

/// The type a branch is painted as: near the end of its life every branch
/// is painted as dying.
pub open spec fn render_type(t: BranchType, life: int) -> BranchType {
    if life < 4 {
        BranchType::Dying
    } else {
        t
    }
}

/// The type a branch with `life` left is painted as.
pub fn effective_type(branch_type: BranchType, life: i64) -> (r: BranchType)
    ensures
        r == render_type(branch_type, life as int),
{
    if life < 4 {
        BranchType::Dying
    } else {
        branch_type
    }
}

/// The vertical step once the ground is near: a downward step within one
/// row of the bottom is reduced by one.
pub open spec fn clamped_dy(dy: int, y: int, max_y: int) -> int {
    if dy > 0 && y > max_y - 2 {
        dy - 1
    } else {
        dy
    }
}

/// Keeps a branch off the ground.
pub fn clamp_dy(dy: i32, y: i64, max_y: i32) -> (r: i32)
    ensures
        r as int == clamped_dy(dy as int, y as int, max_y as int),
{
    if dy > 0 && y > max_y as i64 - 2 {
        dy - 1
    } else {
        dy
    }
}

/// The die thrown to choose between the bold and the plain style.
pub open spec fn style_sides(t: BranchType) -> int {
    match t {
        BranchType::Dying => 10,
        BranchType::Dead => 3,
        _ => 2,
    }
}

/// The color pair of a branch type, bold or not.
pub open spec fn pair_of(t: BranchType, bold: bool) -> i16 {
    match t {
        BranchType::Dying => 2,
        BranchType::Dead => 10,
        _ => if bold {
            11
        } else {
            3
        },
    }
}

/// The style chosen for `t` with the draw at `pos`: bold on a zero roll.
pub open spec fn style_of(t: BranchType, ds: Seq<i32>, pos: int) -> Style {
    let bold = roll(ds[pos], style_sides(t)) == 0;
    Style { bold, color_pair: pair_of(t, bold) }
}

/// Chooses the style of the next glyph of a branch painted as `branch_type`.
pub fn choose_color(branch_type: BranchType, rng: &mut RandomSource) -> (r: Style)
    requires
        old(rng).wf(),
    ensures
        final(rng).wf(),
        took(old(rng)@, final(rng)@, 1),
        r == style_of(branch_type, final(rng)@, old(rng)@.len() as int),
{
    match branch_type {
        BranchType::Trunk | BranchType::ShootLeft | BranchType::ShootRight => {
            let bold = rng.dice(2) == 0;
            Style { bold, color_pair: if bold { 11 } else { 3 } }
        },
        BranchType::Dying => {
            let bold = rng.dice(10) == 0;
            Style { bold, color_pair: 2 }
        },
        BranchType::Dead => {
            let bold = rng.dice(3) == 0;
            Style { bold, color_pair: 10 }
        },
    }
}

/// The glyph of a trunk or a shoot after the step `(dx, dy)`.
pub open spec fn wood_glyph(t: BranchType, dx: int, dy: int) -> Seq<char> {
    match t {
        BranchType::ShootLeft => {
            if dy > 0 {
                "\\"@
            } else if dy == 0 {
                "\\_"@
            } else if dx < 0 {
                "\\|"@
            } else if dx == 0 {
                "/|"@
            } else {
                "/"@
            }
        },
        BranchType::ShootRight => {
            if dy > 0 {
                "/"@
            } else if dy == 0 {
                "_/"@
            } else if dx < 0 {
                "\\|"@
            } else if dx == 0 {
                "/|"@
            } else {
                "/"@
            }
        },
        _ => {
            if dy == 0 {
                "/~"@
            } else if dx < 0 {
                "\\|"@
            } else if dx == 0 {
                "/|\\"@
            } else {
                "|/"@
            }
        },
    }
}

/// How many draws the glyph of a branch takes: one leaf draw for foliage.
pub open spec fn glyph_draws(p: GrowthParameters, t: BranchType, life: int) -> int {
    if is_foliage(render_type(t, life)) && p.leaves_size > 0 {
        1
    } else {
        0
    }
}

/// The glyph painted for a branch of type `t` with `life` left after the
/// step `(dx, dy)`, with the draw at `pos` for a leaf.
pub open spec fn glyph_of(p: GrowthParameters, t: BranchType, life: int, dx: int, dy: int, ds: Seq<i32>, pos: int) -> Seq<char> {
    let rt = render_type(t, life);
    if is_foliage(rt) {
        if p.leaves_size > 0 {
            p.leaves@[roll(ds[pos], p.leaves_size as int)]@
        } else {
            Seq::empty()
        }
    } else {
        wood_glyph(rt, dx, dy)
    }
}

/// Chooses the text painted for a branch of type `branch_type` with `life`
/// left after the step `(dx, dy)`.
pub fn choose_string(params: &GrowthParameters, branch_type: BranchType, life: i64, dx: i32, dy: i32, rng: &mut RandomSource) -> (r: String)
    requires
        old(rng).wf(),
        params.wf(),
    ensures
        final(rng).wf(),
        took(old(rng)@, final(rng)@, glyph_draws(*params, branch_type, life as int)),
        r@ == glyph_of(*params, branch_type, life as int, dx as int, dy as int, final(rng)@, old(rng)@.len() as int),
{
    let t = effective_type(branch_type, life);
    match t {
        BranchType::Trunk => {
            if dy == 0 {
                "/~".to_owned()
            } else if dx < 0 {
                "\\|".to_owned()
            } else if dx == 0 {
                "/|\\".to_owned()
            } else {
                "|/".to_owned()
            }
        },
        BranchType::ShootLeft => {
            if dy > 0 {
                "\\".to_owned()
            } else if dy == 0 {
                "\\_".to_owned()
            } else if dx < 0 {
                "\\|".to_owned()
            } else if dx == 0 {
                "/|".to_owned()
            } else {
                "/".to_owned()
            }
        },
        BranchType::ShootRight => {
            if dy > 0 {
                "/".to_owned()
            } else if dy == 0 {
                "_/".to_owned()
            } else if dx < 0 {
                "\\|".to_owned()
            } else if dx == 0 {
                "/|".to_owned()
            } else {
                "/".to_owned()
            }
        },
        BranchType::Dying | BranchType::Dead => {
            if params.leaves_size > 0 {
                let k = rng.dice(params.leaves_size);
                params.leaves[k as usize].clone()
            } else {
                String::new()
            }
        },
    }
}

/// Near the end of its life (fewer than four steps left) a branch of any type
/// is painted as a dying branch: same glyph, same number of draws for it, and
/// same style.
pub proof fn lemma_near_end_paints_as_dying(
    p: GrowthParameters,
    t: BranchType,
    life: int,
    dx: int,
    dy: int,
    ds: Seq<i32>,
    pos: int,
)
    requires
        life < 4,
    ensures
        render_type(t, life) == BranchType::Dying,
        glyph_of(p, t, life, dx, dy, ds, pos) == glyph_of(p, BranchType::Dying, life, dx, dy, ds, pos),
        glyph_draws(p, t, life) == glyph_draws(p, BranchType::Dying, life),
        style_of(render_type(t, life), ds, pos) == style_of(BranchType::Dying, ds, pos),
{
}

} // verus!
