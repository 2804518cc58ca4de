use vstd::prelude::*;
use rand::Rng;
use rand::RngCore;
use rand::SeedableRng;

verus! {

#[verifier::external_type_specification]
#[verifier::external_body]
pub struct ExChaCha8Rng(rand_chacha::ChaCha8Rng);

/// The value of one bounded uniform draw from a ChaCha8 stream: the draw
/// taken with upper bound `bound` after the draws whose bounds are listed in
/// `history`, on a stream seeded from `seed`. Each draw's outcome and stream
/// consumption depend only on the seed and on the bounds drawn so far, so
/// the whole stream is a function of these arguments.
pub uninterp spec fn chacha_draw(seed: u64, history: Seq<u64>, bound: u64) -> u64;

/// A deterministic pseudo-random stream seeded by a single 64-bit seed,
/// together with the list of bounds already drawn from it. The same seed and
/// draw sequence always reproduce the same values.
pub struct SeededRng {
    inner: rand_chacha::ChaCha8Rng,
    seed: u64,
    history: Vec<u64>,
}

impl SeededRng {
    /// The seed this stream was built from.
    pub closed spec fn seed(self) -> u64 {
        self.seed
    }

    /// The bounds of the draws already taken, oldest first.
    pub closed spec fn history(self) -> Seq<u64> {
        self.history@
    }

    /// Builds the reproducible stream for `seed`.
    ///
    /// Relies on `rand_chacha::ChaCha8Rng` via `SeedableRng::seed_from_u64`,
    /// which expands the seed into a ChaCha8 key deterministically.
    #[verifier::external_body]
    pub fn from_seed(seed: u64) -> (r: SeededRng)
        ensures
            r.seed() == seed,
            r.history() == Seq::<u64>::empty(),
    {
        SeededRng { inner: rand_chacha::ChaCha8Rng::seed_from_u64(seed), seed, history: Vec::new() }
    }

    /// Builds a stream for a fresh seed drawn from operating-system entropy:
    /// the result is exactly the stream `from_seed` would build for that
    /// seed, whose value is simply not known to the caller.
    ///
    /// Relies on `rand_core::RngCore::next_u64` on an OS-entropy-seeded
    /// `rand_chacha::ChaCha8Rng` (via `SeedableRng::from_os_rng`, which
    /// panics only if the operating system cannot supply entropy) to draw
    /// the seed, and on `SeedableRng::seed_from_u64` for the same
    /// deterministic expansion as `from_seed`.
    #[verifier::external_body]
    pub fn from_os_entropy() -> (r: SeededRng)
        ensures
            r.history() == Seq::<u64>::empty(),
    {
        let seed = rand_chacha::ChaCha8Rng::from_os_rng().next_u64();
        SeededRng { inner: rand_chacha::ChaCha8Rng::seed_from_u64(seed), seed, history: Vec::new() }
    }

    /// Draws one uniform value in `[0, bound)` and consumes it from the
    /// stream.
    ///
    /// Relies on `rand::Rng::random_range` over `0..bound`: it panics on an
    /// empty range, returns a value below `bound` otherwise, and both the
    /// value and the stream consumption are functions of the stream state
    /// and the bound alone.
    #[verifier::external_body]
    pub fn random_below(&mut self, bound: u64) -> (r: u64)
        requires
            bound > 0,
        ensures
            r == chacha_draw(old(self).seed(), old(self).history(), bound),
            r < bound,
            final(self).seed() == old(self).seed(),
            final(self).history() == old(self).history().push(bound),
    {
        self.history.push(bound);
        self.inner.random_range(0..bound)
    }
}

} // verus!
