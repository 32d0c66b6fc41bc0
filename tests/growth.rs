use bonsai::branch_type::BranchType;
use bonsai::config::{split_leaves, BaseType, Config, ConfigError, GrowthParameters};
use bonsai::glyph::{choose_color, choose_string, clamp_dy, effective_type, Style};
use bonsai::grow::{grow_tree, GrowthCounters, Paint};
use bonsai::random::RandomSource;
use bonsai::set_deltas::set_deltas;
use bonsai::sprout::{choose_sprout, Sprout};

fn replay(values: &[i32]) -> RandomSource {
    RandomSource::replaying(values.to_vec(), 7)
}

fn params(leaves: &[&str], leaves_size: i32) -> GrowthParameters {
    GrowthParameters {
        life_start: 32,
        multiplier: 5,
        leaves: leaves.iter().map(|s| s.to_string()).collect(),
        leaves_size,
        verbose: false,
    }
}

fn zero_counters() -> GrowthCounters {
    GrowthCounters { branches: 0, shoots: 0, shoot_sequence: 0 }
}

#[test]
fn dice_is_absolute_value_modulo_sides() {
    let mut rng = replay(&[17, -17, i32::MIN]);
    assert_eq!(rng.dice(10), 7);
    assert_eq!(rng.dice(10), 7);
    assert_eq!(rng.dice(10), 8);
}

#[test]
fn replay_cycles_through_its_values() {
    let mut rng = replay(&[1, 2]);
    assert_eq!(rng.next_i32(), 1);
    assert_eq!(rng.next_i32(), 2);
    assert_eq!(rng.next_i32(), 1);
    assert_eq!(rng.rand(), 2);
}

#[test]
fn same_seed_same_stream() {
    let mut a = RandomSource::from_seed(42);
    let mut b = RandomSource::from_seed(42);
    for _ in 0..100 {
        assert_eq!(a.next_i32(), b.next_i32());
    }
}

#[test]
fn dead_deltas_follow_their_tables() {
    // roll 4 of ten: level; roll 5 % 3 = 2: right
    assert_eq!(set_deltas(BranchType::Dead, 10, 5, 5, &mut replay(&[4, 5])), (1, 0));
    // roll 2 of ten: up; roll 0 of three: left
    assert_eq!(set_deltas(BranchType::Dead, 10, 5, 5, &mut replay(&[2, 3])), (-1, -1));
    assert_eq!(set_deltas(BranchType::Dead, 10, 5, 5, &mut replay(&[7, 1])), (0, 1));
}

#[test]
fn dying_deltas_spread_wide() {
    assert_eq!(set_deltas(BranchType::Dying, 10, 5, 5, &mut replay(&[9, 14])), (3, 1));
    assert_eq!(set_deltas(BranchType::Dying, 10, 5, 5, &mut replay(&[1, 0])), (-3, -1));
    assert_eq!(set_deltas(BranchType::Dying, 10, 5, 5, &mut replay(&[5, 7])), (0, 0));
}

#[test]
fn shoot_deltas_mirror_for_right_shoots() {
    assert_eq!(set_deltas(BranchType::ShootLeft, 10, 5, 5, &mut replay(&[0, 0])), (-2, -1));
    assert_eq!(set_deltas(BranchType::ShootRight, 10, 5, 5, &mut replay(&[0, 0])), (2, -1));
    assert_eq!(set_deltas(BranchType::ShootLeft, 10, 5, 5, &mut replay(&[8, 9])), (1, 1));
    assert_eq!(set_deltas(BranchType::ShootRight, 10, 5, 5, &mut replay(&[4, 7])), (0, 0));
}

#[test]
fn trunk_deltas_by_age() {
    // fresh trunk: sideways only
    assert_eq!(set_deltas(BranchType::Trunk, 30, 1, 10, &mut replay(&[5])), (1, 0));
    // spent trunk: sideways only
    assert_eq!(set_deltas(BranchType::Trunk, 3, 20, 10, &mut replay(&[3])), (-1, 0));
    // young trunk, age a multiple of half the multiplier: rises
    assert_eq!(set_deltas(BranchType::Trunk, 30, 5, 10, &mut replay(&[7])), (1, -1));
    assert_eq!(set_deltas(BranchType::Trunk, 30, 6, 10, &mut replay(&[0])), (-2, 0));
    // mature trunk
    assert_eq!(set_deltas(BranchType::Trunk, 30, 40, 10, &mut replay(&[5, 2])), (1, -1));
    assert_eq!(set_deltas(BranchType::Trunk, 30, 40, 10, &mut replay(&[2, 1])), (0, 0));
}

#[test]
fn clamp_reduces_downward_step_near_ground() {
    assert_eq!(clamp_dy(1, 19, 20), 0);
    assert_eq!(clamp_dy(1, 18, 20), 1);
    assert_eq!(clamp_dy(0, 19, 20), 0);
    assert_eq!(clamp_dy(-1, 19, 20), -1);
}

#[test]
fn trunk_and_shoot_glyphs() {
    let p = params(&["&"], 1);
    let mut rng = replay(&[0]);
    assert_eq!(choose_string(&p, BranchType::Trunk, 10, 1, 0, &mut rng), "/~");
    assert_eq!(choose_string(&p, BranchType::Trunk, 10, -1, -1, &mut rng), "\\|");
    assert_eq!(choose_string(&p, BranchType::Trunk, 10, 0, -1, &mut rng), "/|\\");
    assert_eq!(choose_string(&p, BranchType::Trunk, 10, 1, -1, &mut rng), "|/");
    assert_eq!(choose_string(&p, BranchType::ShootLeft, 10, 0, 1, &mut rng), "\\");
    assert_eq!(choose_string(&p, BranchType::ShootLeft, 10, -1, 0, &mut rng), "\\_");
    assert_eq!(choose_string(&p, BranchType::ShootLeft, 10, 0, -1, &mut rng), "/|");
    assert_eq!(choose_string(&p, BranchType::ShootRight, 10, 0, 1, &mut rng), "/");
    assert_eq!(choose_string(&p, BranchType::ShootRight, 10, 1, 0, &mut rng), "_/");
    assert_eq!(choose_string(&p, BranchType::ShootRight, 10, -1, -1, &mut rng), "\\|");
    assert_eq!(rng.next_i32(), 0);
}

#[test]
fn near_end_of_life_renders_as_dying() {
    let p = params(&["a", "b", "c"], 3);
    assert_eq!(effective_type(BranchType::Trunk, 3), BranchType::Dying);
    assert_eq!(effective_type(BranchType::Trunk, 4), BranchType::Trunk);
    let mut rng = replay(&[4]);
    assert_eq!(choose_string(&p, BranchType::Trunk, 3, 0, -1, &mut rng), "b");
    assert_eq!(choose_string(&p, BranchType::ShootLeft, 0, 0, -1, &mut rng), "b");
}

#[test]
fn foliage_picks_a_listed_leaf() {
    let p = params(&["a", "b", "c"], 2);
    assert_eq!(choose_string(&p, BranchType::Dead, 10, 0, 0, &mut replay(&[5])), "b");
    assert_eq!(choose_string(&p, BranchType::Dying, 10, 0, 0, &mut replay(&[-4])), "a");
}

#[test]
fn no_leaves_render_empty_glyph() {
    let p = params(&[], 0);
    let mut rng = replay(&[3]);
    assert_eq!(choose_string(&p, BranchType::Dead, 10, 0, 0, &mut rng), "");
    assert_eq!(choose_string(&p, BranchType::Dying, 2, 0, 0, &mut rng), "");
    // no draw was taken
    assert_eq!(rng.next_i32(), 3);
}

#[test]
fn styles_by_type() {
    assert_eq!(choose_color(BranchType::Trunk, &mut replay(&[4])), Style { bold: true, color_pair: 11 });
    assert_eq!(choose_color(BranchType::ShootLeft, &mut replay(&[3])), Style { bold: false, color_pair: 3 });
    assert_eq!(choose_color(BranchType::Dying, &mut replay(&[10])), Style { bold: true, color_pair: 2 });
    assert_eq!(choose_color(BranchType::Dying, &mut replay(&[11])), Style { bold: false, color_pair: 2 });
    assert_eq!(choose_color(BranchType::Dead, &mut replay(&[6])), Style { bold: true, color_pair: 10 });
    assert_eq!(choose_color(BranchType::Dead, &mut replay(&[7])), Style { bold: false, color_pair: 10 });
}

#[test]
fn sprout_priority_order() {
    assert_eq!(choose_sprout(BranchType::Trunk, 2, 5, 0, &mut replay(&[0])), Sprout::Dead);
    assert_eq!(choose_sprout(BranchType::ShootLeft, 6, 5, 0, &mut replay(&[0])), Sprout::Dying);
    assert_eq!(choose_sprout(BranchType::Dying, 6, 5, 0, &mut replay(&[1])), Sprout::Nothing);
    // trunk roll of three hits, roll of eight hits, life above seven: new trunk, offset 4 % 5 - 2
    assert_eq!(choose_sprout(BranchType::Trunk, 20, 5, 3, &mut replay(&[3, 8, 4])), Sprout::NewTrunk(22));
    // every multiplier-th step re-branches; cooldown over: shoot
    assert_eq!(choose_sprout(BranchType::ShootRight, 20, 5, 0, &mut replay(&[1])), Sprout::Shoot);
    assert_eq!(choose_sprout(BranchType::ShootRight, 20, 5, 1, &mut replay(&[1])), Sprout::Nothing);
}

#[test]
fn zero_multiplier_is_rejected() {
    let mut c = Config::default();
    c.multiplier = 0;
    assert!(matches!(c.growth_parameters(), Err(ConfigError::InvalidMultiplier)));
}

#[test]
fn invalid_life_and_leaves_are_rejected() {
    let mut c = Config::default();
    c.life_start = -1;
    assert!(matches!(c.growth_parameters(), Err(ConfigError::InvalidLife)));
    let mut c = Config::default();
    c.leaves = "a,b".to_string();
    c.leaves_size = 3;
    assert!(matches!(c.growth_parameters(), Err(ConfigError::InvalidLeaves)));
    c.leaves_size = -1;
    assert!(matches!(c.growth_parameters(), Err(ConfigError::InvalidLeaves)));
}

#[test]
fn default_config_grows() {
    let c = Config::default();
    assert_eq!(c.life_start, 64);
    assert_eq!(c.multiplier, 10);
    assert_eq!(c.base_type, BaseType::Big);
    let p = c.growth_parameters().unwrap();
    assert_eq!(p.leaves, vec!["&".to_string()]);
    assert_eq!(p.leaves_size, 1);
}

#[test]
fn leaves_split_on_commas() {
    assert_eq!(split_leaves("a,b,,c"), vec!["a", "b", "", "c"]);
    assert_eq!(split_leaves(""), vec![""]);
    assert_eq!(split_leaves("&"), vec!["&"]);
}

fn generation(seed: u64, verbose: bool) -> (Vec<Paint>, GrowthCounters) {
    let mut p = params(&["&", "*"], 2);
    p.verbose = verbose;
    let mut counters = zero_counters();
    let mut rng = RandomSource::from_seed(seed);
    let writes = grow_tree(&p, 80, 24, &mut counters, &mut rng);
    (writes, counters)
}

#[test]
fn same_seed_same_tree() {
    for seed in [0u64, 1, 99, 123456789] {
        let (a, ca) = generation(seed, true);
        let (b, cb) = generation(seed, true);
        assert_eq!(format!("{:?}", a), format!("{:?}", b));
        assert_eq!(ca, cb);
    }
}

#[test]
fn counters_after_a_generation() {
    let p = params(&["&"], 1);
    let mut counters = GrowthCounters { branches: 9, shoots: 9, shoot_sequence: 9 };
    let mut rng = replay(&[-6, 3, 8, 1]);
    let _ = grow_tree(&p, 80, 24, &mut counters, &mut rng);
    assert!(counters.branches >= 1);
    assert_eq!(counters.shoot_sequence, counters.shoots + 6);
    for seed in 0..20u64 {
        let (_, c) = generation(seed, false);
        assert!(c.branches >= 1);
    }
}

#[test]
fn verbose_generation_starts_with_bounds() {
    let (writes, _) = generation(5, true);
    assert!(matches!(writes[0], Paint::Bounds { max_x: 80, max_y: 24 }));
    let (writes, _) = generation(5, false);
    assert!(writes.iter().all(|w| matches!(w, Paint::Glyph { .. })));
}

#[test]
fn straight_trunk_with_level_rolls() {
    // every draw is 4: dice(3) = 1, dice(10) = 4, dice(8) = 4, dice(2) = 0
    let p = GrowthParameters {
        life_start: 10,
        multiplier: 1,
        leaves: vec!["&".to_string()],
        leaves_size: 1,
        verbose: false,
    };
    let mut counters = zero_counters();
    let mut rng = replay(&[4]);
    let writes = grow_tree(&p, 40, 20, &mut counters, &mut rng);
    match &writes[0] {
        Paint::Glyph { y, x, text, style } => {
            assert_eq!((*y, *x), (19, 20));
            assert_eq!(text, "/~");
            assert_eq!(*style, Style { bold: true, color_pair: 11 });
        }
        _ => panic!("first write is a glyph"),
    }
    // the trunk never leaves its column: every glyph at column 20 is on or above the start
    let column: Vec<i64> = writes
        .iter()
        .filter_map(|w| match w {
            Paint::Glyph { y, x: 20, .. } => Some(*y),
            _ => None,
        })
        .collect();
    assert!(column.iter().all(|y| *y <= 19));
    assert!(column.iter().any(|y| *y < 19));
    // the tree ends in leaf clusters
    assert!(writes.iter().any(|w| matches!(w, Paint::Glyph { text, .. } if text == "&")));
    assert_eq!(counters.shoot_sequence, counters.shoots + 4);
    assert!(counters.shoots >= 1);
}

#[test]
fn different_seeds_different_streams() {
    let mut a = RandomSource::from_seed(1);
    let mut b = RandomSource::from_seed(2);
    let xs: Vec<i32> = (0..10).map(|_| a.next_i32()).collect();
    let ys: Vec<i32> = (0..10).map(|_| b.next_i32()).collect();
    assert_ne!(xs, ys);
}

#[test]
fn shoots_alternate_sides_by_sequence_parity() {
    let p = GrowthParameters {
        life_start: 40,
        multiplier: 3,
        leaves: vec!["&".to_string()],
        leaves_size: 1,
        verbose: true,
    };
    let mut counters = zero_counters();
    let mut rng = replay(&[7, 123, -55, 9, 1000, 42, 3, 88, -1, 17, 250, 64, 5]);
    let writes = grow_tree(&p, 80, 40, &mut counters, &mut rng);
    assert!(counters.shoots >= 2);
    let mut checked = 0;
    for (i, w) in writes.iter().enumerate() {
        if let Paint::Shoots { count } = w {
            let sequence = 7 + *count;
            let expected = if sequence % 2 == 0 { BranchType::ShootLeft } else { BranchType::ShootRight };
            for later in &writes[i + 1..] {
                match later {
                    Paint::Shoots { .. } => break,
                    Paint::Step { branch_type, .. }
                        if *branch_type == BranchType::ShootLeft || *branch_type == BranchType::ShootRight =>
                    {
                        assert_eq!(*branch_type, expected);
                        checked += 1;
                        break;
                    }
                    _ => {}
                }
            }
        }
    }
    assert!(checked >= 1);
}
