use rand::rngs::StdRng;
use rand::Rng;
use rand::SeedableRng;
use vstd::prelude::*;

verus! {

#[verifier::external_type_specification]
#[verifier::external_body]
pub struct ExStdRng(StdRng);

/// Relies on rand's `SeedableRng::seed_from_u64` for `StdRng`: a generator seeded from `seed`.
#[verifier::external_body]
fn seeded_rng(seed: u64) -> StdRng {
    StdRng::seed_from_u64(seed)
}

/// Relies on rand's `Rng::gen::<i32>`: the next value of the generator, any `i32`.
#[verifier::external_body]
fn draw_i32(rng: &mut StdRng) -> i32 {
    rng.gen::<i32>()
}

/// The absolute value of a draw, as an integer.
pub open spec fn magnitude(raw: i32) -> int {
    if raw < 0 {
        -(raw as int)
    } else {
        raw as int
    }
}

/// The outcome of a die with `sides` faces thrown with the draw `raw`.
pub open spec fn roll(raw: i32, sides: int) -> int {
    magnitude(raw) % sides
}

/// `ds` starts with the draws of `h`.
pub open spec fn extends(ds: Seq<i32>, h: Seq<i32>) -> bool {
    &&& h.len() <= ds.len()
    &&& forall|i: int| 0 <= i < h.len() ==> #[trigger] ds[i] == h[i]
}

/// `after` is `before` followed by `k` more draws.
pub open spec fn took(before: Seq<i32>, after: Seq<i32>, k: int) -> bool {
    &&& after.len() == before.len() + k
    &&& extends(after, before)
}

/// The random source of a generation. Its view is the sequence of every
/// value drawn from it so far, in order.
pub struct RandomSource {
    rng: StdRng,
    script: Vec<i32>,
    next: usize,
    drawn: Ghost<Seq<i32>>,
}

impl View for RandomSource {
    type V = Seq<i32>;

    closed spec fn view(&self) -> Seq<i32> {
        self.drawn@
    }
}

impl RandomSource {
    pub closed spec fn wf(&self) -> bool {
        self.script.len() == 0 || self.next < self.script.len()
    }

    /// A source whose stream is fixed by `seed`.
    pub fn from_seed(seed: u64) -> (r: Self)
        ensures
            r.wf(),
            r@ == Seq::<i32>::empty(),
    {
        RandomSource { rng: seeded_rng(seed), script: Vec::new(), next: 0, drawn: Ghost(Seq::empty()) }
    }

    /// A source that hands out `values` in order, over and over; with no
    /// values it falls back to the stream fixed by `seed`.
    pub fn replaying(values: Vec<i32>, seed: u64) -> (r: Self)
        ensures
            r.wf(),
            r@ == Seq::<i32>::empty(),
            r.replays(values@),
    {
        proof {
            if values@.len() > 0 {
                assert(0int % (values@.len() as int) == 0) by (nonlinear_arith)
                    requires values@.len() > 0;
            }
        }
        RandomSource { rng: seeded_rng(seed), script: values, next: 0, drawn: Ghost(Seq::empty()) }
    }

    /// The source replays `values` from the start of what it has drawn.
    pub closed spec fn replays(&self, values: Seq<i32>) -> bool {
        &&& self.script@ == values
        &&& values.len() > 0 ==> self.next == (self.drawn@.len() as int) % (values.len() as int)
    }

    /// The next value of the stream.
    pub fn next_i32(&mut self) -> (r: i32)
        requires
            old(self).wf(),
        ensures
            final(self).wf(),
            final(self)@ == old(self)@.push(r),
            forall|values: Seq<i32>|
                #[trigger] old(self).replays(values) && values.len() > 0 ==> final(self).replays(values)
                    && r == values[(old(self)@.len() as int) % (values.len() as int)],
    {
        let r: i32;
        if self.script.len() > 0 {
            r = self.script[self.next];
            proof {
                let n = self.script@.len() as int;
                let k = self.drawn@.len() as int;
                assert((k + 1) % n == if k % n + 1 == n { 0 } else { k % n + 1 }) by (nonlinear_arith)
                    requires n > 0, k >= 0;
            }
            if self.next + 1 == self.script.len() {
                self.next = 0;
            } else {
                self.next = self.next + 1;
            }
        } else {
            r = draw_i32(&mut self.rng);
        }
        self.drawn = Ghost(self.drawn@.push(r));
        r
    }

    /// A non-negative value: the absolute value of the next draw.
    pub fn rand(&mut self) -> (r: i64)
        requires
            old(self).wf(),
        ensures
            final(self).wf(),
            took(old(self)@, final(self)@, 1),
            r == magnitude(final(self)@[old(self)@.len() as int]),
    {
        let v = self.next_i32();
        let w = v as i64;
        if w < 0 {
            -w
        } else {
            w
        }
    }

    /// A throw of a die with `sides` faces: a value in `[0, sides)`.
    pub fn dice(&mut self, sides: i32) -> (r: i32)
        requires
            old(self).wf(),
            sides > 0,
        ensures
            final(self).wf(),
            took(old(self)@, final(self)@, 1),
            r == roll(final(self)@[old(self)@.len() as int], sides as int),
            0 <= r < sides,
    {
        let a = self.rand();
        (a % (sides as i64)) as i32
    }
}

} // verus!
