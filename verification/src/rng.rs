//! The deterministic random source: a ChaCha stream cipher generator seeded
//! from a single `u64`, drawn from strictly sequentially.
//!
//! The generator is opaque, so what it holds is given a name: an abstract
//! mathematical state (an `int`). Seeding and drawing are deterministic and
//! portable, so the state after seeding is a function of the seed alone, and
//! each draw's value and successor state are a function of the state before
//! the draw and the bounds alone. Every contract downstream pins its result
//! over these names, which makes a whole generation pass a function of the
//! seed and the settings.

use vstd::prelude::*;
use rand::Rng;
use rand::SeedableRng;
use crate::fixed::FP_ONE;

verus! {

#[verifier::external_type_specification]
#[verifier::external_body]
pub struct ExChaCha8Rng(rand_chacha::ChaCha8Rng);

/// The abstract state a `ChaCha8Rng` holds.
pub uninterp spec fn chacha_state(rng: rand_chacha::ChaCha8Rng) -> int;

/// The abstract generator state reached by seeding from `seed`.
pub uninterp spec fn seed_state(seed: u64) -> int;

/// The value drawn uniformly from `[low, high)` at abstract state `state`,
/// and the successor state: `.0` is the value, `.1` the state after the draw.
pub uninterp spec fn range_draw(state: int, low: u64, high: u64) -> (u64, int);

/// Relies on `rand::SeedableRng::seed_from_u64` for
/// `rand_chacha::ChaCha8Rng`: seeding is deterministic and portable, so the
/// generator state is a function of the seed alone.
#[verifier::external_body]
fn chacha_from_seed(seed: u64) -> (r: rand_chacha::ChaCha8Rng)
    ensures
        chacha_state(r) == seed_state(seed),
{
    rand_chacha::ChaCha8Rng::seed_from_u64(seed)
}

/// Relies on `rand::Rng::gen_range` over a `low..high` range of `u64` on
/// `rand_chacha::ChaCha8Rng`: the draw lies in `[low, high)`, and both the
/// value and the generator state after it are a function of the state before
/// it and the two bounds alone.
#[verifier::external_body]
fn chacha_range(rng: &mut rand_chacha::ChaCha8Rng, low: u64, high: u64) -> (r: u64)
    requires
        low < high,
    ensures
        r == range_draw(chacha_state(*old(rng)), low, high).0,
        low <= r < high,
        chacha_state(*final(rng)) == range_draw(chacha_state(*old(rng)), low, high).1,
{
    rng.gen_range(low..high)
}

/// A reseedable deterministic random source. All randomness of the field
/// generator flows through one value of this type, drawn in a fixed order.
pub struct MyRandom {
    rng: rand_chacha::ChaCha8Rng,
}

impl MyRandom {
    /// The abstract state of the underlying generator.
    pub closed spec fn model(self) -> int {
        chacha_state(self.rng)
    }

    /// A fresh source whose stream is determined by `seed` alone.
    pub fn seed_from_u64(seed: u64) -> (r: MyRandom)
        ensures
            r.model() == seed_state(seed),
    {
        MyRandom { rng: chacha_from_seed(seed) }
    }

    /// One uniform draw from `[low, high)`.
    pub fn from_range(&mut self, low: u64, high: u64) -> (r: u64)
        requires
            low < high,
        ensures
            r == range_draw(old(self).model(), low, high).0,
            low <= r < high,
            final(self).model() == range_draw(old(self).model(), low, high).1,
    {
        chacha_range(&mut self.rng, low, high)
    }

    /// One uniform fixed-point fraction in `[0, 1)`: the numerator of a draw
    /// from `[0, FP_ONE)`, quantized to units of `1/FP_ONE`.
    pub fn get_float(&mut self) -> (r: i64)
        ensures
            r as int == float_draw(old(self).model()).0,
            0 <= r < FP_ONE,
            final(self).model() == float_draw(old(self).model()).1,
    {
        let v = self.from_range(0, 100_000);
        v as i64
    }
}

/// The fixed-point fraction drawn at abstract state `state` and the state
/// after it, as `get_float` produces them.
pub open spec fn float_draw(state: int) -> (int, int) {
    let d = range_draw(state, 0u64, 100_000u64);
    (d.0 as int, d.1)
}

} // verus!
