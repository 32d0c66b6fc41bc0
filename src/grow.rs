use crate::branch_type::BranchType;
use crate::config::GrowthParameters;
use crate::glyph::{
    choose_color, choose_string, clamp_dy, clamped_dy, effective_type, glyph_draws, glyph_of,
    render_type, style_of, Style,
};
use crate::random::{extends, magnitude, took, RandomSource};
use crate::set_deltas::{delta_draws, delta_of, set_deltas};
use crate::sprout::{choose_sprout, sprout_of, Sprout};
use vstd::prelude::*;

verus! {

/// The most steps one generation takes, all branches together: a bound
/// that makes every generation end, whatever the random source hands out.
pub const STEP_BUDGET: u64 = 1099511627776;

/// Bound on a branch's life plus the steps left to it.
pub const LIFE_CAP: i64 = 4611686018427387904;

/// Bound on a coordinate plus three times the steps left to it.
pub const POSITION_CAP: i64 = 4611686018427387904;

/// Running totals of one generation.
#[derive(Debug, PartialEq, Eq, Clone, Copy, Structural)]
pub struct GrowthCounters {
    /// Branch invocations, leaf clusters included.
    pub branches: u64,
    /// Shoots spawned.
    pub shoots: u64,
    /// Counter whose parity picks the side of the next shoot.
    pub shoot_sequence: u64,
}

/// One write onto the canvas, in the order the engine makes them.
#[derive(Debug)]
pub enum Paint {
    /// Text at a cell, in a style.
    Glyph { y: i64, x: i64, text: String, style: Style },
    /// Diagnostic: the canvas bounds.
    Bounds { max_x: i32, max_y: i32 },
    /// Diagnostic: the number of shoots so far.
    Shoots { count: u64 },
    /// Diagnostic: the step just taken by a branch.
    Step { dx: i32, dy: i32, branch_type: BranchType, shoot_cooldown: i64 },
}

/// A canvas write with its text as characters.
pub enum Stroke {
    Glyph { y: i64, x: i64, text: Seq<char>, style: Style },
    Bounds { max_x: i32, max_y: i32 },
    Shoots { count: u64 },
    Step { dx: i32, dy: i32, branch_type: BranchType, shoot_cooldown: i64 },
}

impl View for Paint {
    type V = Stroke;

    open spec fn view(&self) -> Stroke {
        match self {
            Paint::Glyph { y, x, text, style } => Stroke::Glyph { y: *y, x: *x, text: text@, style: *style },
            Paint::Bounds { max_x, max_y } => Stroke::Bounds { max_x: *max_x, max_y: *max_y },
            Paint::Shoots { count } => Stroke::Shoots { count: *count },
            Paint::Step { dx, dy, branch_type, shoot_cooldown } => Stroke::Step {
                dx: *dx,
                dy: *dy,
                branch_type: *branch_type,
                shoot_cooldown: *shoot_cooldown,
            },
        }
    }
}

/// The writes of a list of paints.
pub open spec fn strokes(v: Seq<Paint>) -> Seq<Stroke> {
    v.map_values(|w: Paint| w@)
}

/// What a generation has produced so far: its writes and its counters.
pub struct Growth {
    pub writes: Seq<Stroke>,
    pub counters: GrowthCounters,
}

/// The side of a shoot spawned when the shoot sequence reaches `sequence`.
pub open spec fn shoot_side(sequence: int) -> BranchType {
    if sequence % 2 == 0 {
        BranchType::ShootLeft
    } else {
        BranchType::ShootRight
    }
}

/// A branch invocation: one more branch counted, then its steps.
pub open spec fn branch_run(
    p: GrowthParameters,
    max_y: int,
    y: int,
    x: int,
    t: BranchType,
    life: int,
    budget: nat,
    g: Growth,
    ds: Seq<i32>,
    pos: int,
) -> (Growth, nat, int)
    decreases budget, 1int,
{
    let c = g.counters;
    let g1 = Growth {
        writes: g.writes,
        counters: GrowthCounters { branches: (c.branches + 1) as u64, ..c },
    };
    steps_run(p, max_y, y, x, t, life, p.multiplier as int, budget, g1, ds, pos)
}

/// The child branch that a sprout starts, with the steps `b` left and the
/// state `g` before it, as `steps_run` starts it.
pub open spec fn child_run(
    p: GrowthParameters,
    max_y: int,
    y: int,
    x: int,
    l: int,
    sprout: Sprout,
    b: nat,
    g: Growth,
    ds: Seq<i32>,
    pos: int,
) -> (Growth, nat, int) {
    let c = g.counters;
    let shot = Growth {
        writes: if p.verbose {
            g.writes.push(Stroke::Shoots { count: (c.shoots + 1) as u64 })
        } else {
            g.writes
        },
        counters: GrowthCounters {
            branches: c.branches,
            shoots: (c.shoots + 1) as u64,
            shoot_sequence: (c.shoot_sequence + 1) as u64,
        },
    };
    match sprout {
        Sprout::Nothing => (g, b, pos),
        Sprout::Dead => branch_run(p, max_y, y, x, BranchType::Dead, l, b, g, ds, pos),
        Sprout::Dying => branch_run(p, max_y, y, x, BranchType::Dying, l, b, g, ds, pos),
        Sprout::NewTrunk(cl) => branch_run(p, max_y, y, x, BranchType::Trunk, cl as int, b, g, ds, pos),
        Sprout::Shoot => branch_run(p, max_y, y, x, shoot_side(c.shoot_sequence + 1), l + p.multiplier, b, shot, ds, pos),
    }
}

/// The growth of a branch at `(y, x)` with `life` left and the shoot
/// cooldown `cooldown`, out of `budget` steps, from the state `g`, with the
/// draws of `ds` from `pos` on. Its result is the state at the end, the steps
/// left and the position of the next unused draw.
pub open spec fn steps_run(
    p: GrowthParameters,
    max_y: int,
    y: int,
    x: int,
    t: BranchType,
    life: int,
    cooldown: int,
    budget: nat,
    g: Growth,
    ds: Seq<i32>,
    pos: int,
) -> (Growth, nat, int)
    decreases budget, 0int,
{
    if life <= 0 || budget == 0 {
        (g, budget, pos)
    } else {
        let m = p.multiplier as int;
        let b = (budget - 1) as nat;
        let l = life - 1;
        let age = p.life_start - l;
        let (dx, dy0) = delta_of(t, l, age, m, ds, pos);
        let pos1 = pos + delta_draws(t, l, age, m);
        let dy = clamped_dy(dy0, y, max_y);
        let (sprout, k) = sprout_of(t, l, m, cooldown, ds, pos1);
        let pos2 = pos1 + k;
        let c = g.counters;
        let shot = Growth {
            writes: if p.verbose {
                g.writes.push(Stroke::Shoots { count: (c.shoots + 1) as u64 })
            } else {
                g.writes
            },
            counters: GrowthCounters {
                branches: c.branches,
                shoots: (c.shoots + 1) as u64,
                shoot_sequence: (c.shoot_sequence + 1) as u64,
            },
        };
        let child = match sprout {
            Sprout::Nothing => (g, b, pos2),
            Sprout::Dead => branch_run(p, max_y, y, x, BranchType::Dead, l, b, g, ds, pos2),
            Sprout::Dying => branch_run(p, max_y, y, x, BranchType::Dying, l, b, g, ds, pos2),
            Sprout::NewTrunk(cl) => branch_run(p, max_y, y, x, BranchType::Trunk, cl as int, b, g, ds, pos2),
            Sprout::Shoot => branch_run(p, max_y, y, x, shoot_side(c.shoot_sequence + 1), l + m, b, shot, ds, pos2),
        };
        let cd = (if sprout is NewTrunk || sprout is Shoot { 2 * m } else { cooldown }) - 1;
        let (g2, b2, pos3) = child;
        if b2 > b {
            child
        } else {
            let g3 = if p.verbose {
                g2.writes.push(Stroke::Step { dx: dx as i32, dy: dy as i32, branch_type: t, shoot_cooldown: cd as i64 })
            } else {
                g2.writes
            };
            let nx = x + dx;
            let ny = y + dy;
            let style = style_of(render_type(t, l), ds, pos3);
            let text = glyph_of(p, t, l, dx, dy, ds, pos3 + 1);
            let pos4 = pos3 + 1 + glyph_draws(p, t, l);
            let g4 = Growth {
                writes: g3.push(Stroke::Glyph { y: ny as i64, x: nx as i64, text, style }),
                counters: g2.counters,
            };
            steps_run(p, max_y, ny, nx, t, l, cd, b2, g4, ds, pos4)
        }
    }
}

proof fn lemma_extends_trans(a: Seq<i32>, b: Seq<i32>, c: Seq<i32>)
    requires
        extends(a, b),
        extends(b, c),
    ensures
        extends(a, c),
{
    assert forall|i: int| 0 <= i < c.len() implies a[i] == c[i] by {
        assert(a[i] == b[i]);
    }
}

proof fn lemma_delta_stable(t: BranchType, l: int, age: int, m: int, ds: Seq<i32>, h: Seq<i32>, pos: int)
    requires
        extends(ds, h),
        0 <= pos,
        pos + delta_draws(t, l, age, m) <= h.len(),
    ensures
        delta_of(t, l, age, m, ds, pos) == delta_of(t, l, age, m, h, pos),
{
    assert(ds[pos] == h[pos]);
    if delta_draws(t, l, age, m) == 2 {
        assert(ds[pos + 1] == h[pos + 1]);
    }
}

proof fn lemma_sprout_stable(t: BranchType, l: int, m: int, cd: int, ds: Seq<i32>, h: Seq<i32>, pos: int)
    requires
        extends(ds, h),
        0 <= pos,
        pos + sprout_of(t, l, m, cd, h, pos).1 <= h.len(),
    ensures
        sprout_of(t, l, m, cd, ds, pos) == sprout_of(t, l, m, cd, h, pos),
{
    let k = sprout_of(t, l, m, cd, h, pos).1;
    if k >= 1 {
        assert(ds[pos] == h[pos]);
    }
    if k >= 2 {
        assert(ds[pos + 1] == h[pos + 1]);
    }
    if k >= 3 {
        assert(ds[pos + 2] == h[pos + 2]);
    }
}

proof fn lemma_strokes_push(v: Seq<Paint>, w: Paint)
    ensures
        strokes(v.push(w)) == strokes(v).push(w@),
{
    assert(strokes(v.push(w)) =~= strokes(v).push(w@));
}

/// Grows one branch from `(y, x)` with `life` left, out of `budget` steps;
/// returns the steps left. Every write and counter change is the one
/// `branch_run` gives for the draws taken from `rng`.
fn branch(
    p: &GrowthParameters,
    max_y: i32,
    y0: i64,
    x0: i64,
    t: BranchType,
    life0: i64,
    budget0: u64,
    counters: &mut GrowthCounters,
    out: &mut Vec<Paint>,
    rng: &mut RandomSource,
) -> (rem: u64)
    requires
        p.wf(),
        old(rng).wf(),
        life0 + budget0 <= LIFE_CAP,
        -POSITION_CAP + 3 * budget0 <= x0 <= POSITION_CAP - 3 * budget0,
        -POSITION_CAP + 3 * budget0 <= y0 <= POSITION_CAP - 3 * budget0,
        old(counters).branches + 1 + 2 * budget0 <= u64::MAX,
        old(counters).shoots + budget0 <= u64::MAX,
        old(counters).shoot_sequence + budget0 <= u64::MAX,
    ensures
        final(rng).wf(),
        extends(final(rng)@, old(rng)@),
        rem <= budget0,
        old(counters).branches + 1 <= final(counters).branches <= old(counters).branches + 1 + 2 * (budget0 - rem),
        old(counters).shoots <= final(counters).shoots <= old(counters).shoots + (budget0 - rem),
        final(counters).shoot_sequence - final(counters).shoots == old(counters).shoot_sequence - old(counters).shoots,
        forall|ds: Seq<i32>|
            extends(ds, final(rng)@) ==> #[trigger] branch_run(
                *p,
                max_y as int,
                y0 as int,
                x0 as int,
                t,
                life0 as int,
                budget0 as nat,
                Growth { writes: strokes(old(out)@), counters: *old(counters) },
                ds,
                old(rng)@.len() as int,
            ) == (Growth { writes: strokes(final(out)@), counters: *final(counters) }, rem as nat, final(rng)@.len() as int),
    decreases budget0,
{
    counters.branches = counters.branches + 1;
    let m = p.multiplier;
    let mut shoot_cooldown: i64 = m as i64;
    let mut life = life0;
    let mut budget = budget0;
    let mut y = y0;
    let mut x = x0;
    let ghost g1 = Growth { writes: strokes(out@), counters: *counters };
    let ghost pos0 = rng@.len() as int;
    let ghost c0 = *old(counters);
    while life > 0 && budget > 0
        invariant
            p.wf(),
            m == p.multiplier,
            rng.wf(),
            extends(rng@, old(rng)@),
            pos0 == old(rng)@.len(),
            c0 == *old(counters),
            g1 == (Growth { writes: strokes(old(out)@), counters: GrowthCounters { branches: (c0.branches + 1) as u64, ..c0 } }),
            budget <= budget0,
            life <= life0,
            life0 + budget0 <= LIFE_CAP,
            life0 - life <= budget0 - budget,
            shoot_cooldown + (life0 - life) >= m,
            shoot_cooldown <= 2 * m,
            -POSITION_CAP + 3 * budget <= x <= POSITION_CAP - 3 * budget,
            -POSITION_CAP + 3 * budget <= y <= POSITION_CAP - 3 * budget,
            c0.branches + 1 + 2 * budget0 <= u64::MAX,
            c0.shoots + budget0 <= u64::MAX,
            c0.shoot_sequence + budget0 <= u64::MAX,
            c0.branches + 1 <= counters.branches <= c0.branches + 1 + 2 * (budget0 - budget),
            c0.shoots <= counters.shoots <= c0.shoots + (budget0 - budget),
            counters.shoot_sequence - counters.shoots == c0.shoot_sequence - c0.shoots,
            forall|ds: Seq<i32>|
                extends(ds, rng@) ==> #[trigger] steps_run(*p, max_y as int, y0 as int, x0 as int, t, life0 as int, m as int, budget0 as nat, g1, ds, pos0)
                    == steps_run(
                    *p,
                    max_y as int,
                    y as int,
                    x as int,
                    t,
                    life as int,
                    shoot_cooldown as int,
                    budget as nat,
                    Growth { writes: strokes(out@), counters: *counters },
                    ds,
                    rng@.len() as int,
                ),
        decreases life,
    {
        let ghost h0 = rng@;
        let ghost gcur = Growth { writes: strokes(out@), counters: *counters };
        let ghost cy = y;
        let ghost cx = x;
        let ghost clife = life;
        let ghost ccd = shoot_cooldown;
        let ghost cbudget = budget;
        budget = budget - 1;
        life = life - 1;
        let age: i64 = p.life_start as i64 - life;
        let (dx, dy0) = set_deltas(t, life, age, m, rng);
        let ghost h1 = rng@;
        let dy = clamp_dy(dy0, y, max_y);
        let sprout = choose_sprout(t, life, m, shoot_cooldown, rng);
        let ghost h2 = rng@;
        match sprout {
            Sprout::Nothing => {},
            Sprout::Dead => {
                budget = branch(p, max_y, y, x, BranchType::Dead, life, budget, counters, out, rng);
            },
            Sprout::Dying => {
                budget = branch(p, max_y, y, x, BranchType::Dying, life, budget, counters, out, rng);
            },
            Sprout::NewTrunk(child_life) => {
                shoot_cooldown = 2 * m as i64;
                budget = branch(p, max_y, y, x, BranchType::Trunk, child_life, budget, counters, out, rng);
            },
            Sprout::Shoot => {
                shoot_cooldown = 2 * m as i64;
                counters.shoots = counters.shoots + 1;
                counters.shoot_sequence = counters.shoot_sequence + 1;
                if p.verbose {
                    proof {
                        lemma_strokes_push(out@, Paint::Shoots { count: counters.shoots });
                    }
                    out.push(Paint::Shoots { count: counters.shoots });
                }
                let side = if counters.shoot_sequence % 2 == 0 {
                    BranchType::ShootLeft
                } else {
                    BranchType::ShootRight
                };
                budget = branch(p, max_y, y, x, side, life + m as i64, budget, counters, out, rng);
            },
        }
        let ghost h3 = rng@;
        let ghost g2 = Growth { writes: strokes(out@), counters: *counters };
        let ghost b2 = budget;
        shoot_cooldown = shoot_cooldown - 1;
        if p.verbose {
            proof {
                lemma_strokes_push(out@, Paint::Step { dx, dy, branch_type: t, shoot_cooldown });
            }
            out.push(Paint::Step { dx, dy, branch_type: t, shoot_cooldown });
        }
        x = x + dx as i64;
        y = y + dy as i64;
        let style = choose_color(effective_type(t, life), rng);
        let ghost h4 = rng@;
        let text = choose_string(p, t, life, dx, dy, rng);
        let ghost h5 = rng@;
        proof {
            lemma_strokes_push(out@, Paint::Glyph { y, x, text, style });
        }
        out.push(Paint::Glyph { y, x, text, style });
        proof {
            lemma_extends_trans(h5, h4, h3);
            lemma_extends_trans(h5, h3, h2);
            lemma_extends_trans(h5, h2, h1);
            lemma_extends_trans(h5, h1, h0);
            lemma_extends_trans(h5, h0, old(rng)@);
            assert forall|ds: Seq<i32>| extends(ds, rng@) implies
                steps_run(*p, max_y as int, cy as int, cx as int, t, clife as int, ccd as int, cbudget as nat, gcur, ds, h0.len() as int)
                    == steps_run(
                    *p,
                    max_y as int,
                    y as int,
                    x as int,
                    t,
                    life as int,
                    shoot_cooldown as int,
                    budget as nat,
                    Growth { writes: strokes(out@), counters: *counters },
                    ds,
                    rng@.len() as int,
                ) by {
                lemma_extends_trans(ds, h5, h4);
                lemma_extends_trans(ds, h5, h3);
                lemma_extends_trans(ds, h5, h2);
                lemma_extends_trans(ds, h5, h1);
                lemma_delta_stable(t, life as int, age as int, m as int, ds, h1, h0.len() as int);
                lemma_sprout_stable(t, life as int, m as int, ccd as int, ds, h2, h1.len() as int);
                assert(ds[h3.len() as int] == h4[h3.len() as int]);
                if glyph_draws(*p, t, life as int) == 1 {
                    assert(ds[h4.len() as int] == h5[h4.len() as int]);
                }
                assert(delta_of(t, life as int, age as int, m as int, ds, h0.len() as int) == (dx as int, dy0 as int));
                assert(sprout_of(t, life as int, m as int, ccd as int, ds, h1.len() as int) == (sprout, h2.len() - h1.len()));
                assert(style_of(render_type(t, life as int), ds, h3.len() as int) == style);
                assert(glyph_of(*p, t, life as int, dx as int, dy as int, ds, h3.len() + 1int) == text@);
                let child = child_run(*p, max_y as int, cy as int, cx as int, life as int, sprout, (cbudget - 1) as nat, gcur, ds, h2.len() as int);
                assert(child == (g2, b2 as nat, h3.len() as int));
            }
        }
    }
    proof {
        let gend = Growth { writes: strokes(out@), counters: *counters };
        assert forall|ds: Seq<i32>| extends(ds, rng@) implies #[trigger] branch_run(
            *p,
            max_y as int,
            y0 as int,
            x0 as int,
            t,
            life0 as int,
            budget0 as nat,
            Growth { writes: strokes(old(out)@), counters: *old(counters) },
            ds,
            pos0,
        ) == (gend, budget as nat, rng@.len() as int) by {
            assert(steps_run(*p, max_y as int, y0 as int, x0 as int, t, life0 as int, m as int, budget0 as nat, g1, ds, pos0)
                == steps_run(*p, max_y as int, y as int, x as int, t, life as int, shoot_cooldown as int, budget as nat, gend, ds, rng@.len() as int));
            assert(steps_run(*p, max_y as int, y as int, x as int, t, life as int, shoot_cooldown as int, budget as nat, gend, ds, rng@.len() as int)
                == (gend, budget as nat, rng@.len() as int));
        }
    }
    budget
}

/// A whole generation with the draws of `ds` from `pos` on: the first draw
/// seeds the shoot sequence, then a trunk grows from the bottom center of a
/// canvas of `max_x` columns and `max_y` rows. Its result is the state at the
/// end and the position of the next unused draw.
pub open spec fn grow_run(p: GrowthParameters, max_x: int, max_y: int, ds: Seq<i32>, pos: int) -> (Growth, int) {
    let c = GrowthCounters { branches: 0, shoots: 0, shoot_sequence: magnitude(ds[pos]) as u64 };
    let writes = if p.verbose {
        seq![Stroke::Bounds { max_x: max_x as i32, max_y: max_y as i32 }]
    } else {
        Seq::empty()
    };
    let r = branch_run(
        p,
        max_y,
        max_y - 1,
        max_x / 2,
        BranchType::Trunk,
        p.life_start as int,
        STEP_BUDGET as nat,
        Growth { writes, counters: c },
        ds,
        pos + 1,
    );
    (r.0, r.2)
}

/// Grows one tree on a canvas of `max_x` columns and `max_y` rows and
/// returns its canvas writes in order. The counters are reset first.
pub fn grow_tree(
    params: &GrowthParameters,
    max_x: i32,
    max_y: i32,
    counters: &mut GrowthCounters,
    rng: &mut RandomSource,
) -> (writes: Vec<Paint>)
    requires
        params.wf(),
        old(rng).wf(),
        max_x >= 0,
        max_y >= 0,
    ensures
        final(rng).wf(),
        extends(final(rng)@, old(rng)@),
        final(rng)@.len() > old(rng)@.len(),
        forall|ds: Seq<i32>|
            extends(ds, final(rng)@) ==> #[trigger] grow_run(*params, max_x as int, max_y as int, ds, old(rng)@.len() as int)
                == (Growth { writes: strokes(writes@), counters: *final(counters) }, final(rng)@.len() as int),
        final(counters).branches >= 1,
        final(counters).shoot_sequence == final(counters).shoots + magnitude(final(rng)@[old(rng)@.len() as int]),
{
    let ghost h0 = rng@;
    counters.shoots = 0;
    counters.branches = 0;
    counters.shoot_sequence = rng.rand() as u64;
    let ghost h1 = rng@;
    let mut writes: Vec<Paint> = Vec::new();
    if params.verbose {
        writes.push(Paint::Bounds { max_x, max_y });
    }
    let ghost g0 = Growth { writes: strokes(writes@), counters: *counters };
    proof {
        assert(strokes(writes@) =~= (if params.verbose {
            seq![Stroke::Bounds { max_x, max_y }]
        } else {
            Seq::empty()
        }));
    }
    branch(
        params,
        max_y,
        max_y as i64 - 1,
        max_x as i64 / 2,
        BranchType::Trunk,
        params.life_start as i64,
        STEP_BUDGET,
        counters,
        &mut writes,
        rng,
    );
    proof {
        lemma_extends_trans(rng@, h1, h0);
        assert forall|ds: Seq<i32>| extends(ds, rng@) implies #[trigger] grow_run(*params, max_x as int, max_y as int, ds, h0.len() as int)
            == (Growth { writes: strokes(writes@), counters: *counters }, rng@.len() as int) by {
            lemma_extends_trans(ds, rng@, h1);
            assert(ds[h0.len() as int] == h1[h0.len() as int]);
        }
    }
    writes
}

/// `ds1` and `ds2` hold the same draws at the positions from `lo` up to `hi`.
pub open spec fn agree(ds1: Seq<i32>, ds2: Seq<i32>, lo: int, hi: int) -> bool {
    forall|i: int| lo <= i < hi ==> #[trigger] ds1[i] == ds2[i]
}

proof fn lemma_branch_advances(
    p: GrowthParameters,
    max_y: int,
    y: int,
    x: int,
    t: BranchType,
    life: int,
    budget: nat,
    g: Growth,
    ds: Seq<i32>,
    pos: int,
)
    ensures
        branch_run(p, max_y, y, x, t, life, budget, g, ds, pos).2 >= pos,
        branch_run(p, max_y, y, x, t, life, budget, g, ds, pos).1 <= budget,
    decreases budget, 1int,
{
    let c = g.counters;
    let g1 = Growth { writes: g.writes, counters: GrowthCounters { branches: (c.branches + 1) as u64, ..c } };
    lemma_steps_advances(p, max_y, y, x, t, life, p.multiplier as int, budget, g1, ds, pos);
}

proof fn lemma_steps_advances(
    p: GrowthParameters,
    max_y: int,
    y: int,
    x: int,
    t: BranchType,
    life: int,
    cooldown: int,
    budget: nat,
    g: Growth,
    ds: Seq<i32>,
    pos: int,
)
    ensures
        steps_run(p, max_y, y, x, t, life, cooldown, budget, g, ds, pos).2 >= pos,
        steps_run(p, max_y, y, x, t, life, cooldown, budget, g, ds, pos).1 <= budget,
    decreases budget, 0int,
{
    if life <= 0 || budget == 0 {
    } else {
        let m = p.multiplier as int;
        let b = (budget - 1) as nat;
        let l = life - 1;
        let age = p.life_start - l;
        let (dx, dy0) = delta_of(t, l, age, m, ds, pos);
        let pos1 = pos + delta_draws(t, l, age, m);
        let dy = clamped_dy(dy0, y, max_y);
        let (sprout, k) = sprout_of(t, l, m, cooldown, ds, pos1);
        let pos2 = pos1 + k;
        let child = child_run(p, max_y, y, x, l, sprout, b, g, ds, pos2);
        lemma_child_advances(p, max_y, y, x, l, sprout, b, g, ds, pos2);
        let cd = (if sprout is NewTrunk || sprout is Shoot { 2 * m } else { cooldown }) - 1;
        let (g2, b2, pos3) = child;
        if b2 <= b {
            let g3 = if p.verbose {
                g2.writes.push(Stroke::Step { dx: dx as i32, dy: dy as i32, branch_type: t, shoot_cooldown: cd as i64 })
            } else {
                g2.writes
            };
            let style = style_of(render_type(t, l), ds, pos3);
            let text = glyph_of(p, t, l, dx, dy, ds, pos3 + 1);
            let pos4 = pos3 + 1 + glyph_draws(p, t, l);
            let g4 = Growth {
                writes: g3.push(Stroke::Glyph { y: (y + dy) as i64, x: (x + dx) as i64, text, style }),
                counters: g2.counters,
            };
            lemma_steps_advances(p, max_y, y + dy, x + dx, t, l, cd, b2, g4, ds, pos4);
        }
    }
}

proof fn lemma_child_advances(
    p: GrowthParameters,
    max_y: int,
    y: int,
    x: int,
    l: int,
    sprout: Sprout,
    b: nat,
    g: Growth,
    ds: Seq<i32>,
    pos: int,
)
    ensures
        child_run(p, max_y, y, x, l, sprout, b, g, ds, pos).2 >= pos,
        child_run(p, max_y, y, x, l, sprout, b, g, ds, pos).1 <= b,
    decreases b, 2int,
{
    let c = g.counters;
    let shot = Growth {
        writes: if p.verbose {
            g.writes.push(Stroke::Shoots { count: (c.shoots + 1) as u64 })
        } else {
            g.writes
        },
        counters: GrowthCounters {
            branches: c.branches,
            shoots: (c.shoots + 1) as u64,
            shoot_sequence: (c.shoot_sequence + 1) as u64,
        },
    };
    match sprout {
        Sprout::Nothing => {},
        Sprout::Dead => lemma_branch_advances(p, max_y, y, x, BranchType::Dead, l, b, g, ds, pos),
        Sprout::Dying => lemma_branch_advances(p, max_y, y, x, BranchType::Dying, l, b, g, ds, pos),
        Sprout::NewTrunk(cl) => lemma_branch_advances(p, max_y, y, x, BranchType::Trunk, cl as int, b, g, ds, pos),
        Sprout::Shoot => lemma_branch_advances(p, max_y, y, x, shoot_side(c.shoot_sequence + 1), l + p.multiplier, b, shot, ds, pos),
    }
}

proof fn lemma_branch_agree(
    p: GrowthParameters,
    max_y: int,
    y: int,
    x: int,
    t: BranchType,
    life: int,
    budget: nat,
    g: Growth,
    ds1: Seq<i32>,
    ds2: Seq<i32>,
    pos: int,
)
    requires
        agree(ds1, ds2, pos, branch_run(p, max_y, y, x, t, life, budget, g, ds1, pos).2),
    ensures
        branch_run(p, max_y, y, x, t, life, budget, g, ds1, pos) == branch_run(p, max_y, y, x, t, life, budget, g, ds2, pos),
    decreases budget, 1int,
{
    let c = g.counters;
    let g1 = Growth { writes: g.writes, counters: GrowthCounters { branches: (c.branches + 1) as u64, ..c } };
    lemma_steps_agree(p, max_y, y, x, t, life, p.multiplier as int, budget, g1, ds1, ds2, pos);
}

proof fn lemma_steps_agree(
    p: GrowthParameters,
    max_y: int,
    y: int,
    x: int,
    t: BranchType,
    life: int,
    cooldown: int,
    budget: nat,
    g: Growth,
    ds1: Seq<i32>,
    ds2: Seq<i32>,
    pos: int,
)
    requires
        agree(ds1, ds2, pos, steps_run(p, max_y, y, x, t, life, cooldown, budget, g, ds1, pos).2),
    ensures
        steps_run(p, max_y, y, x, t, life, cooldown, budget, g, ds1, pos) == steps_run(p, max_y, y, x, t, life, cooldown, budget, g, ds2, pos),
    decreases budget, 0int,
{
    if life <= 0 || budget == 0 {
    } else {
        let end = steps_run(p, max_y, y, x, t, life, cooldown, budget, g, ds1, pos).2;
        let m = p.multiplier as int;
        let b = (budget - 1) as nat;
        let l = life - 1;
        let age = p.life_start - l;
        let (dx, dy0) = delta_of(t, l, age, m, ds1, pos);
        let pos1 = pos + delta_draws(t, l, age, m);
        let dy = clamped_dy(dy0, y, max_y);
        let (sprout, k) = sprout_of(t, l, m, cooldown, ds1, pos1);
        let pos2 = pos1 + k;
        let child = child_run(p, max_y, y, x, l, sprout, b, g, ds1, pos2);
        lemma_child_advances(p, max_y, y, x, l, sprout, b, g, ds1, pos2);
        let cd = (if sprout is NewTrunk || sprout is Shoot { 2 * m } else { cooldown }) - 1;
        let (g2, b2, pos3) = child;
        let g3 = if p.verbose {
            g2.writes.push(Stroke::Step { dx: dx as i32, dy: dy as i32, branch_type: t, shoot_cooldown: cd as i64 })
        } else {
            g2.writes
        };
        let style = style_of(render_type(t, l), ds1, pos3);
        let text = glyph_of(p, t, l, dx, dy, ds1, pos3 + 1);
        let pos4 = pos3 + 1 + glyph_draws(p, t, l);
        let g4 = Growth {
            writes: g3.push(Stroke::Glyph { y: (y + dy) as i64, x: (x + dx) as i64, text, style }),
            counters: g2.counters,
        };
        if b2 <= b {
            lemma_steps_advances(p, max_y, y + dy, x + dx, t, l, cd, b2, g4, ds1, pos4);
            assert(ds1[pos3] == ds2[pos3]);
            if glyph_draws(p, t, l) == 1 {
                assert(ds1[pos3 + 1] == ds2[pos3 + 1]);
            }
        }
        assert(ds1[pos] == ds2[pos]);
        if delta_draws(t, l, age, m) == 2 {
            assert(ds1[pos + 1] == ds2[pos + 1]);
        }
        if k >= 1 {
            assert(ds1[pos1] == ds2[pos1]);
        }
        if k >= 2 {
            assert(ds1[pos1 + 1] == ds2[pos1 + 1]);
        }
        if k >= 3 {
            assert(ds1[pos1 + 2] == ds2[pos1 + 2]);
        }
        assert(delta_of(t, l, age, m, ds1, pos) == delta_of(t, l, age, m, ds2, pos));
        assert(sprout_of(t, l, m, cooldown, ds1, pos1) == sprout_of(t, l, m, cooldown, ds2, pos1));
        lemma_child_agree(p, max_y, y, x, l, sprout, b, g, ds1, ds2, pos2);
        if b2 <= b {
            lemma_steps_agree(p, max_y, y + dy, x + dx, t, l, cd, b2, g4, ds1, ds2, pos4);
        }
    }
}

proof fn lemma_child_agree(
    p: GrowthParameters,
    max_y: int,
    y: int,
    x: int,
    l: int,
    sprout: Sprout,
    b: nat,
    g: Growth,
    ds1: Seq<i32>,
    ds2: Seq<i32>,
    pos: int,
)
    requires
        agree(ds1, ds2, pos, child_run(p, max_y, y, x, l, sprout, b, g, ds1, pos).2),
    ensures
        child_run(p, max_y, y, x, l, sprout, b, g, ds1, pos) == child_run(p, max_y, y, x, l, sprout, b, g, ds2, pos),
    decreases b, 2int,
{
    let c = g.counters;
    let shot = Growth {
        writes: if p.verbose {
            g.writes.push(Stroke::Shoots { count: (c.shoots + 1) as u64 })
        } else {
            g.writes
        },
        counters: GrowthCounters {
            branches: c.branches,
            shoots: (c.shoots + 1) as u64,
            shoot_sequence: (c.shoot_sequence + 1) as u64,
        },
    };
    match sprout {
        Sprout::Nothing => {},
        Sprout::Dead => lemma_branch_agree(p, max_y, y, x, BranchType::Dead, l, b, g, ds1, ds2, pos),
        Sprout::Dying => lemma_branch_agree(p, max_y, y, x, BranchType::Dying, l, b, g, ds1, ds2, pos),
        Sprout::NewTrunk(cl) => lemma_branch_agree(p, max_y, y, x, BranchType::Trunk, cl as int, b, g, ds1, ds2, pos),
        Sprout::Shoot => lemma_branch_agree(
            p,
            max_y,
            y,
            x,
            shoot_side(c.shoot_sequence + 1),
            l + p.multiplier,
            b,
            shot,
            ds1,
            ds2,
            pos,
        ),
    }
}

/// A generation is determined by the draws it takes: two generations with
/// the same parameters and canvas whose random sources hand out the same
/// values, up to the last draw the first one takes, end with the same writes,
/// the same counters and the same number of draws taken.
pub proof fn lemma_generation_deterministic(p: GrowthParameters, max_x: int, max_y: int, ds1: Seq<i32>, ds2: Seq<i32>, pos: int)
    requires
        agree(ds1, ds2, pos, grow_run(p, max_x, max_y, ds1, pos).1),
    ensures
        grow_run(p, max_x, max_y, ds1, pos) == grow_run(p, max_x, max_y, ds2, pos),
{
    let c = GrowthCounters { branches: 0, shoots: 0, shoot_sequence: magnitude(ds1[pos]) as u64 };
    let writes = if p.verbose {
        seq![Stroke::Bounds { max_x: max_x as i32, max_y: max_y as i32 }]
    } else {
        Seq::empty()
    };
    let g = Growth { writes, counters: c };
    lemma_branch_advances(p, max_y, max_y - 1, max_x / 2, BranchType::Trunk, p.life_start as int, STEP_BUDGET as nat, g, ds1, pos + 1);
    assert(ds1[pos] == ds2[pos]);
    lemma_branch_agree(p, max_y, max_y - 1, max_x / 2, BranchType::Trunk, p.life_start as int, STEP_BUDGET as nat, g, ds1, ds2, pos + 1);
}

/// Shoots alternate sides: consecutive values of the shoot sequence pick
/// opposite sides, and values two apart pick the same side.
pub proof fn lemma_shoot_sides_alternate(sequence: int)
    ensures
        shoot_side(sequence) != shoot_side(sequence + 1),
        shoot_side(sequence) == shoot_side(sequence + 2),
{
}

} // verus!
