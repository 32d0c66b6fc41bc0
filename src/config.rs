use rand::Rng;
use vstd::prelude::*;
use vstd::string::*;

verus! {

/// The read-only configuration of one generation.
pub struct GrowthParameters {
    /// Initial life of the trunk.
    pub life_start: i32,
    /// Branching aggressiveness: how often branches re-branch and how much
    /// life a shoot gets on top of its parent's.
    pub multiplier: i32,
    /// Strings drawn for foliage.
    pub leaves: Vec<String>,
    /// How many of `leaves` may be drawn.
    pub leaves_size: i32,
    /// Whether diagnostics are painted alongside the tree.
    pub verbose: bool,
}

impl GrowthParameters {
    /// The parameters a generation can run with.
    pub open spec fn wf(&self) -> bool {
        &&& self.life_start >= 0
        &&& self.multiplier >= 1
        &&& 0 <= self.leaves_size <= self.leaves@.len()
    }
}

/// The ascii-art plant base drawn under the tree.
#[derive(Debug, PartialEq, Eq, Clone, Copy, Structural)]
pub enum BaseType {
    NoBase,
    Small,
    Big,
}

/// Everything a run is configured with.
pub struct Config {
    pub live: bool,
    pub infinite: bool,
    pub screensaver: bool,
    pub print_tree: bool,
    pub verbose: bool,
    pub life_start: i32,
    pub multiplier: i32,
    pub base_type: BaseType,
    pub seed: u64,
    pub leaves_size: i32,
    pub save: bool,
    pub load: bool,
    pub target_branch_count: i32,
    pub time_wait: i32,
    pub time_step: u64,
    pub message: String,
    /// Comma-delimited list of the strings drawn for leaves.
    pub leaves: String,
    pub save_file: String,
    pub load_file: String,
}

/// Relies on rand's `thread_rng().gen::<u64>()`: a fresh seed, any `u64`.
#[verifier::external_body]
fn fresh_seed() -> u64 {
    rand::thread_rng().gen::<u64>()
}

impl Default for Config {
    fn default() -> (r: Self)
        ensures
            !r.live && !r.infinite && !r.screensaver && !r.print_tree && !r.verbose,
            r.life_start == 64,
            r.multiplier == 10,
            r.base_type == BaseType::Big,
            r.leaves_size == 1,
            !r.save && !r.load,
            r.target_branch_count == 0,
            r.time_wait == 4,
            r.time_step == 30,
            r.message@ == Seq::<char>::empty(),
            r.leaves@ == seq!['&'],
            r.save_file@ == Seq::<char>::empty(),
            r.load_file@ == Seq::<char>::empty(),
    {
        let leaves = "&".to_owned();
        proof {
            reveal_strlit("&");
        }
        Config {
            live: false,
            infinite: false,
            screensaver: false,
            print_tree: false,
            verbose: false,
            life_start: 64,
            multiplier: 10,
            base_type: BaseType::Big,
            seed: fresh_seed(),
            leaves_size: 1,
            save: false,
            load: false,
            target_branch_count: 0,
            time_wait: 4,
            time_step: 30,
            message: String::new(),
            leaves,
            save_file: String::new(),
            load_file: String::new(),
        }
    }
}

/// Why a configuration cannot run a generation.
#[derive(Debug, PartialEq, Eq, Clone, Copy, Structural)]
pub enum ConfigError {
    /// The multiplier is below one: re-branching steps would divide by zero.
    InvalidMultiplier,
    /// The initial life is negative.
    InvalidLife,
    /// The leaf count is negative or exceeds the leaves listed.
    InvalidLeaves,
}

/// The pieces of `s` between commas, in order; a string without a comma is
/// one piece.
pub open spec fn split_commas(s: Seq<char>) -> Seq<Seq<char>>
    decreases s.len(),
{
    if s.len() == 0 {
        seq![Seq::<char>::empty()]
    } else {
        let rest = split_commas(s.drop_last());
        if s.last() == ',' {
            rest.push(Seq::empty())
        } else {
            rest.update(rest.len() - 1, rest.last().push(s.last()))
        }
    }
}

proof fn lemma_split_commas_nonempty(s: Seq<char>)
    ensures
        split_commas(s).len() >= 1,
    decreases s.len(),
{
    if s.len() > 0 {
        lemma_split_commas_nonempty(s.drop_last());
    }
}

/// Splits a comma-delimited list into its pieces.
pub fn split_leaves(list: &str) -> (r: Vec<String>)
    ensures
        r@.map_values(|piece: String| piece@) == split_commas(list@),
{
    let n = list.unicode_len();
    let mut pieces: Vec<String> = Vec::new();
    let mut start: usize = 0;
    let mut i: usize = 0;
    proof {
        assert(list@.subrange(0, 0) =~= Seq::<char>::empty());
        assert(pieces@.map_values(|piece: String| piece@).push(list@.subrange(0, 0)) =~= seq![Seq::<char>::empty()]);
    }
    while i < n
        invariant
            n == list@.len(),
            start <= i <= n,
            pieces@.map_values(|piece: String| piece@).push(list@.subrange(start as int, i as int))
                == split_commas(list@.subrange(0, i as int)),
        decreases n - i,
    {
        let c = list.get_char(i);
        let ghost pre = list@.subrange(0, i as int);
        let ghost next = list@.subrange(0, i + 1);
        proof {
            assert(next.drop_last() =~= pre);
            assert(next.last() == c);
            lemma_split_commas_nonempty(pre);
        }
        if c == ',' {
            let piece = list.substring_char(start, i).to_owned();
            pieces.push(piece);
            start = i + 1;
            proof {
                assert(list@.subrange(start as int, i + 1) =~= Seq::<char>::empty());
                            }
        } else {
            proof {
                assert(list@.subrange(start as int, i + 1) =~= list@.subrange(start as int, i as int).push(c));
            }
        }
        i = i + 1;
        proof {
            assert(pieces@.map_values(|piece: String| piece@).push(list@.subrange(start as int, i as int))
                =~= split_commas(list@.subrange(0, i as int)));
        }
    }
    let last = list.substring_char(start, n).to_owned();
    pieces.push(last);
    proof {
        assert(list@.subrange(0, n as int) =~= list@);
        assert(pieces@.map_values(|piece: String| piece@) =~= split_commas(list@));
    }
    pieces
}

impl Config {
    /// The parameters of a generation, once the configuration is checked:
    /// the multiplier must be at least one, the life non-negative, and the
    /// leaf count within the leaves listed.
    pub fn growth_parameters(&self) -> (r: Result<GrowthParameters, ConfigError>)
        ensures
            self.multiplier < 1 ==> r == Err::<GrowthParameters, ConfigError>(ConfigError::InvalidMultiplier),
            self.multiplier >= 1 && self.life_start < 0 ==> r == Err::<GrowthParameters, ConfigError>(ConfigError::InvalidLife),
            self.multiplier >= 1 && self.life_start >= 0 ==> (r is Err <==> !(0 <= self.leaves_size <= split_commas(self.leaves@).len())),
            r is Err && self.multiplier >= 1 && self.life_start >= 0 ==> r == Err::<GrowthParameters, ConfigError>(ConfigError::InvalidLeaves),
            r matches Ok(p) ==> {
                &&& p.wf()
                &&& p.life_start == self.life_start
                &&& p.multiplier == self.multiplier
                &&& p.leaves_size == self.leaves_size
                &&& p.verbose == self.verbose
                &&& p.leaves@.map_values(|piece: String| piece@) == split_commas(self.leaves@)
            },
    {
        if self.multiplier < 1 {
            return Err(ConfigError::InvalidMultiplier);
        }
        if self.life_start < 0 {
            return Err(ConfigError::InvalidLife);
        }
        let leaves = split_leaves(self.leaves.as_str());
        proof {
            assert(leaves@.map_values(|piece: String| piece@).len() == leaves@.len());
        }
        if self.leaves_size < 0 || self.leaves_size as usize > leaves.len() {
            return Err(ConfigError::InvalidLeaves);
        }
        Ok(GrowthParameters {
            life_start: self.life_start,
            multiplier: self.multiplier,
            leaves,
            leaves_size: self.leaves_size,
            verbose: self.verbose,
        })
    }
}

} // verus!
