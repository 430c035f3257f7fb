use vstd::prelude::*;

use crate::values::ValidRandomNumber;
use crate::values::ValidRandomRange;

verus! {

/// The `RandomAlgorithm` trait.
///
/// This trait defines what a struct needs to implement to be considered a
/// valid random algorithm: fallible construction from a seed and one
/// state-advancing draw reduced into a normalized range.
///
/// Each implementation exposes an abstract `Model` of its internal state and
/// three pure descriptions of its behaviour: `seed_model` (the state built
/// from a seed), `step_model` (the successor of a state) and `raw_from` (the
/// raw value drawn when stepping out of a state). The contracts of `new` and
/// `next_in_range` pin the concrete results to these descriptions, so a
/// generator's whole output stream is a mathematical function of its seed:
/// this is the determinism guarantee of the crate.
pub trait RandomAlgorithm: Sized {
    /// The seed the algorithm is constructed from.
    type Seed;

    /// The numeric domain the algorithm draws values in.
    type Number: ValidRandomNumber;

    /// The abstract state of the algorithm.
    type Model;

    /// The generator's state is well formed.
    spec fn wf(&self) -> bool;

    /// The abstract state of this generator.
    spec fn model(&self) -> Self::Model;

    /// Construction succeeds exactly on these seeds.
    spec fn seed_ok(seed: Self::Seed) -> bool;

    /// The abstract state built from an accepted seed.
    spec fn seed_model(seed: Self::Seed) -> Self::Model;

    /// The successor of an abstract state, advanced by one draw.
    spec fn step_model(m: Self::Model) -> Self::Model;

    /// The raw value produced by the draw that leaves state `m`, before
    /// range reduction.
    spec fn raw_from(m: Self::Model) -> nat;

    /// Creates a new algorithm with the given seed value.
    ///
    /// Returns a `Result`: construction fails exactly on the degenerate
    /// seeds the algorithm rejects, and otherwise yields the generator whose
    /// state is determined by the seed.
    fn new(seed: Self::Seed) -> (r: Result<Self, &'static str>)
        ensures
            (r is Ok) == Self::seed_ok(seed),
            r is Ok ==> (r->Ok_0).wf() && (r->Ok_0).model() == Self::seed_model(seed),
    ;

    /// Returns a random number in the given range.
    ///
    /// The internal state advances by exactly one step; the result is the
    /// raw draw reduced modulo the range width and offset by the range
    /// start, so it lies in the normalized half-open range.
    fn randrange<R: ValidRandomRange<Self::Number>>(&mut self, range: R) -> (r: Self::Number)
        requires
            old(self).wf(),
            range.representable(),
            range.spec_start() < range.spec_end(),
        ensures
            final(self).wf(),
            final(self).model() == Self::step_model(old(self).model()),
            r.as_int() == range.spec_start() + (Self::raw_from(old(self).model()) as int) % (
            range.spec_end() - range.spec_start()),
            range.spec_start() <= r.as_int() < range.spec_end(),
    ;
}

/// The abstract state reached from `m` after `n` draws.
pub open spec fn model_after<T: RandomAlgorithm>(m: T::Model, n: nat) -> T::Model
    decreases n,
{
    if n == 0 {
        m
    } else {
        T::step_model(model_after::<T>(m, (n - 1) as nat))
    }
}

/// The raw value produced by draw number `i` (counted from zero) of a
/// generator whose abstract state starts at `m`.
pub open spec fn raw_at<T: RandomAlgorithm>(m: T::Model, i: nat) -> nat {
    T::raw_from(model_after::<T>(m, i))
}

/// Determinism: a generator's stream of raw draws is a mathematical
/// function of its seed. Two generators built from equal seeds reach equal
/// abstract states after any number of draws and produce equal raw values
/// at every position of the stream.
pub proof fn lemma_determinism<T: RandomAlgorithm>(seed1: T::Seed, seed2: T::Seed, n: nat)
    requires
        seed1 == seed2,
    ensures
        model_after::<T>(T::seed_model(seed1), n) == model_after::<T>(T::seed_model(seed2), n),
        raw_at::<T>(T::seed_model(seed1), n) == raw_at::<T>(T::seed_model(seed2), n),
{
}

} // verus!
