//! The seeded random generator of the workload, with a record of its seed and
//! of every draw taken from it.
use vstd::prelude::*;
use rand::rngs::StdRng;
use rand::{Rng, SeedableRng};

verus! {

#[verifier::external_type_specification]
#[verifier::external_body]
pub struct ExStdRng(StdRng);

/// The integer type a draw was taken in; the generator's stream depends on it.
#[derive(Clone, Copy, Debug, PartialEq, Eq, Structural)]
pub enum DrawWidth {
    U32,
    U64,
}

/// One draw: the type it was taken in, the inclusive range asked for, and the
/// value that came back.
pub struct Draw {
    pub width: DrawWidth,
    pub low: int,
    pub high: int,
    pub value: int,
}

/// The number of bits of a draw's integer type.
pub open spec fn width_bits(w: DrawWidth) -> int {
    match w {
        DrawWidth::U32 => 32,
        DrawWidth::U64 => 64,
    }
}

/// What each draw asked for: the bits of its type and its inclusive range.
pub open spec fn requests(draws: Seq<Draw>) -> Seq<(int, int, int)> {
    draws.map_values(|d: Draw| (width_bits(d.width), d.low, d.high))
}

/// The value that a `StdRng` seeded from `seed` by `seed_from_u64`, after the
/// draws asked for in `history`, gives for a draw of `bits` bits from
/// `low..=high`. In rand 0.8.8 `StdRng` is ChaCha12 seeded through PCG32, and
/// `gen_range` samples it deterministically, so the value depends on these
/// arguments alone.
pub uninterp spec fn drawn_value(seed: u64, history: Seq<(int, int, int)>, bits: int, low: int, high: int) -> int;

/// A generator seeded by `StdRng::seed_from_u64`, with the seed it was made
/// from and the draws taken from it, oldest first. Only the constructor and
/// the two draw methods below, which make the calls into rand, change them.
pub struct WorkloadRng {
    rng: StdRng,
    seed: Ghost<u64>,
    draws: Ghost<Seq<Draw>>,
}

impl WorkloadRng {
    /// The seed the generator was made from.
    pub closed spec fn seed(&self) -> u64 {
        self.seed@
    }

    /// The draws taken so far, oldest first.
    pub closed spec fn draws(&self) -> Seq<Draw> {
        self.draws@
    }

    /// `StdRng::seed_from_u64` of rand: a generator seeded from `seed`, with no
    /// draws taken yet. Nothing is claimed of the values it will draw.
    #[verifier::external_body]
    pub(crate) fn seeded(seed: u64) -> (r: Self)
        ensures
            r.seed() == seed,
            r.draws() == Seq::<Draw>::empty(),
    {
        WorkloadRng { rng: StdRng::seed_from_u64(seed), seed: Ghost(seed), draws: Ghost(Seq::empty()) }
    }

    /// `Rng::gen_range` of rand on the inclusive range `low..=high` of `u32`:
    /// a value from the range, the one that the seed and the earlier draws
    /// give, recorded as a `u32` draw. It panics on an empty
    /// range, which `requires` rules out.
    #[verifier::external_body]
    pub(crate) fn draw_u32(&mut self, low: u32, high: u32) -> (r: u32)
        requires
            low <= high,
        ensures
            low <= r <= high,
            r as int == drawn_value(old(self).seed(), requests(old(self).draws()), 32, low as int, high as int),
            final(self).seed() == old(self).seed(),
            final(self).draws() == old(self).draws().push(
                Draw { width: DrawWidth::U32, low: low as int, high: high as int, value: r as int },
            ),
    {
        self.rng.gen_range(low..=high)
    }

    /// `Rng::gen_range` of rand on the inclusive range `low..=high` of `u64`:
    /// a value from the range, the one that the seed and the earlier draws
    /// give, recorded as a `u64` draw. It panics on an empty
    /// range, which `requires` rules out.
    #[verifier::external_body]
    pub(crate) fn draw_u64(&mut self, low: u64, high: u64) -> (r: u64)
        requires
            low <= high,
        ensures
            low <= r <= high,
            r as int == drawn_value(old(self).seed(), requests(old(self).draws()), 64, low as int, high as int),
            final(self).seed() == old(self).seed(),
            final(self).draws() == old(self).draws().push(
                Draw { width: DrawWidth::U64, low: low as int, high: high as int, value: r as int },
            ),
    {
        self.rng.gen_range(low..=high)
    }
}

} // verus!
