use vstd::prelude::*;
use crate::scalar::{Scalar, UNIT_STEPS};

verus! {

/// What `fastrand::Rng::bool` returns on a generator in the given state, and
/// the state it leaves the generator in.
pub uninterp spec fn coin_step(state: u64) -> (bool, u64);

/// What `fastrand::Rng::u32` returns over the full range on a generator in
/// the given state, and the state it leaves the generator in.
pub uninterp spec fn word_step(state: u64) -> (u32, u64);

/// Calls `fastrand::Rng::bool` on a generator seeded with `state`.
///
/// The generator's whole state is one `u64`: `with_seed` stores it and
/// `get_seed` reads it back. The draw and the state after it therefore depend
/// on `state` alone; the contract gives them a name and claims nothing else.
#[verifier::external_body]
fn step_coin(state: u64) -> (r: (bool, u64))
    ensures
        r == coin_step(state),
{
    let rng = fastrand::Rng::with_seed(state);
    let coin = rng.bool();
    (coin, rng.get_seed())
}

/// Calls `fastrand::Rng::u32(..)` on a generator seeded with `state`.
///
/// As for the coin, the word drawn and the state after it depend on `state`
/// alone; the contract gives them a name and claims nothing else.
#[verifier::external_body]
fn step_word(state: u64) -> (r: (u32, u64))
    ensures
        r == word_step(state),
{
    let rng = fastrand::Rng::with_seed(state);
    let word = rng.u32(..);
    (word, rng.get_seed())
}

/// The number of unit-interval steps that a draw in `state` yields: the top
/// 23 bits of the word drawn.
pub open spec fn unit_steps(state: u64) -> u32 {
    word_step(state).0 / 512
}

/// The fair coin that a draw in `state` yields.
pub open spec fn coin(state: u64) -> bool {
    coin_step(state).0
}

/// The generator state after a coin was drawn in `state`.
pub open spec fn after_coin(state: u64) -> u64 {
    coin_step(state).1
}

/// The point of the unit interval that a draw in `state` yields.
pub open spec fn unit<S: Scalar>(state: u64) -> S {
    S::fraction_value(unit_steps(state))
}

/// The generator state after a point of the unit interval was drawn in
/// `state`.
pub open spec fn after_unit(state: u64) -> u64 {
    word_step(state).1
}

/// A draw of the unit interval is one of its `UNIT_STEPS` steps.
pub proof fn unit_steps_in_range(state: u64)
    ensures
        unit_steps(state) < UNIT_STEPS,
{
}

/// A seedable pseudorandom source, handed explicitly to every operation that
/// needs entropy. Its view is its state, and every draw is a function of
/// that state: two sources in the same state draw the same sequence.
#[derive(Debug)]
pub struct Prng {
    state: u64,
}

impl View for Prng {
    type V = u64;

    closed spec fn view(&self) -> u64 {
        self.state
    }
}

impl Prng {
    /// A source whose state is `seed`.
    pub fn with_seed(seed: u64) -> (r: Self)
        ensures
            r@ == seed,
    {
        Prng { state: seed }
    }

    /// The current state: seeding a new source with it continues this one's
    /// sequence of draws.
    pub fn seed(&self) -> (s: u64)
        ensures
            s == self@,
    {
        self.state
    }

    /// Draws a fair coin.
    pub fn flip(&mut self) -> (r: bool)
        ensures
            r == coin(old(self)@),
            final(self)@ == after_coin(old(self)@),
    {
        let (r, next) = step_coin(self.state);
        self.state = next;
        r
    }

    /// Draws a point of the unit interval `[0, 1)`, uniformly among its
    /// `UNIT_STEPS` steps: the top 23 bits of one 32-bit word, which is
    /// what `fastrand::Rng::f32` makes its result of.
    pub fn unit<S: Scalar>(&mut self) -> (r: S)
        ensures
            r == unit::<S>(old(self)@),
            final(self)@ == after_unit(old(self)@),
    {
        let (word, next) = step_word(self.state);
        self.state = next;
        let steps: u32 = word / 512;
        S::fraction(steps)
    }
}

} // verus!
