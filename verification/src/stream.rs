//! The seeded stream of hash-function parameters.
//!
//! The words come from `rand`'s standard generator, seeded from one integer.
//! What the generator computes is not restated here: the words it yields are
//! named, and the stream is specified over those names.

use rand::rngs::StdRng;
use rand::RngCore;
use rand::SeedableRng;
use vstd::prelude::*;

verus! {

/// `rand::rngs::StdRng`, carried as an opaque value: nothing is known of its
/// fields.
#[verifier::external_type_specification]
#[verifier::external_body]
pub struct ExStdRng(rand::rngs::StdRng);

/// The word at position `index` of the sequence that a generator made by
/// `StdRng::seed_from_u64(seed)` yields through `next_u64`. The generator is
/// ChaCha with twelve rounds on every target, keyed from the seed, so the
/// word depends on the seed and the position alone.
pub uninterp spec fn seeded_word(seed: u64, index: nat) -> u64;

/// The word that `rng` yields through `next_u64` after `ahead` earlier calls:
/// what the generator holds in store, as a function of its state.
pub uninterp spec fn pending_word(rng: StdRng, ahead: nat) -> u64;

/// `StdRng::seed_from_u64`: expands the seed to a key and starts the
/// generator at its first block. The generator depends on the seed alone, so
/// the words it is going to yield are those named by `seeded_word`.
#[verifier::external_body]
fn rng_from_seed(seed: u64) -> (rng: StdRng)
    ensures
        forall|k: nat| #[trigger] pending_word(rng, k) == seeded_word(seed, k),
{
    StdRng::seed_from_u64(seed)
}

/// `StdRng::next_u64`: hands out the first pending word and moves the
/// generator one word on, so that every later word comes one call sooner.
/// It neither fails nor panics.
#[verifier::external_body]
fn rng_next_word(rng: &mut StdRng) -> (word: u64)
    ensures
        word == pending_word(*old(rng), 0),
        forall|k: nat| #[trigger] pending_word(*final(rng), k) == pending_word(*old(rng), k + 1),
{
    rng.next_u64()
}

/// The modulus of the universal hash functions: the Mersenne prime 2^61 - 1.
pub const PRIME: u64 = 0x1fff_ffff_ffff_ffff;

/// The pair `(a, b)` of the universal hash function `x -> (a * x + b) mod PRIME`.
#[derive(Clone, Copy, Debug, PartialEq, Eq, Structural)]
pub struct HashParams {
    pub a: u64,
    pub b: u64,
}

impl HashParams {
    /// Both coefficients are reduced, and the multiplier is not zero.
    pub open spec fn wf(self) -> bool {
        1 <= self.a < PRIME && self.b < PRIME
    }

    /// The parameters made from two raw words.
    pub open spec fn spec_from_words(first: u64, second: u64) -> HashParams {
        HashParams { a: (1 + first % ((PRIME - 1) as u64)) as u64, b: second % PRIME }
    }

    /// The value of the hash function at `x`.
    pub open spec fn spec_apply(self, x: u64) -> u64 {
        ((self.a * x + self.b) % (PRIME as int)) as u64
    }

    /// Reduces two raw words to a multiplier in `1 .. PRIME` and an offset in
    /// `0 .. PRIME`.
    pub fn from_words(first: u64, second: u64) -> (params: HashParams)
        ensures
            params == Self::spec_from_words(first, second),
            params.wf(),
    {
        HashParams { a: 1 + first % (PRIME - 1), b: second % PRIME }
    }

    /// Evaluates the hash function with a 128-bit intermediate, so that the
    /// multiply-add is exact before it is reduced.
    pub fn apply(&self, x: u64) -> (h: u64)
        ensures
            h == self.spec_apply(x),
            h < PRIME,
    {
        let a: u128 = self.a as u128;
        let wide_x: u128 = x as u128;
        let b: u128 = self.b as u128;
        assert(a * wide_x <= 0xffff_ffff_ffff_ffff * 0xffff_ffff_ffff_ffff) by (nonlinear_arith)
            requires
                a <= 0xffff_ffff_ffff_ffff,
                wide_x <= 0xffff_ffff_ffff_ffff,
        ;
        let reduced: u128 = (a * wide_x + b) % (PRIME as u128);
        reduced as u64
    }
}

/// The parameter pair at position `index` of the stream seeded with `seed`.
/// Each pair takes two consecutive words of the generator.
pub open spec fn draw_params(seed: u64, index: nat) -> HashParams {
    HashParams::spec_from_words(seeded_word(seed, 2 * index), seeded_word(seed, 2 * index + 1))
}

/// A pseudorandom sequence of hash-function parameters, fixed by its seed and
/// consumed strictly in order. Each row of a batch gets a stream of its own.
pub struct SeededHashStream {
    rng: StdRng,
}

impl SeededHashStream {
    /// The pair that the stream yields after `ahead` earlier draws.
    pub closed spec fn upcoming(&self, ahead: nat) -> HashParams {
        HashParams::spec_from_words(
            pending_word(self.rng, 2 * ahead),
            pending_word(self.rng, 2 * ahead + 1),
        )
    }

    /// Whether the stream stands `drawn` pairs into the sequence of `seed`.
    pub open spec fn at(&self, seed: u64, drawn: nat) -> bool {
        forall|k: nat| #[trigger] self.upcoming(k) == draw_params(seed, drawn + k)
    }

    /// A fresh stream at its first draw.
    pub fn new(seed: u64) -> (stream: SeededHashStream)
        ensures
            stream.at(seed, 0),
    {
        SeededHashStream { rng: rng_from_seed(seed) }
    }

    /// Draws the next parameter pair.
    pub fn next(&mut self) -> (params: HashParams)
        ensures
            params == old(self).upcoming(0),
            params.wf(),
            forall|k: nat| #[trigger] final(self).upcoming(k) == old(self).upcoming(k + 1),
    {
        let first = rng_next_word(&mut self.rng);
        let second = rng_next_word(&mut self.rng);
        HashParams::from_words(first, second)
    }
}

} // verus!
