use vstd::prelude::*;
use crate::individual::{scores, Individual};
use crate::random::{after_unit, unit, Prng};
use crate::scalar::Scalar;

verus! {

/// A policy that chooses one individual of a population, weighted by
/// fitness.
pub trait SelectionMethod<S: Scalar> {
    /// Model of [`SelectionMethod::select`]: the position chosen among
    /// individuals with the given scores by a generator in `state`, and the
    /// generator's state afterwards.
    spec fn pick(&self, state: u64, scores: Seq<S>) -> (int, u64);

    /// Chooses one individual of a non-empty population.
    fn select<'a, I: Individual<S>>(&self, rng: &mut Prng, population: &'a [I]) -> (chosen: &'a I)
        requires
            population@.len() > 0,
        ensures
            0 <= self.pick(old(rng)@, scores(population@)).0 < population@.len(),
            *chosen == population@[self.pick(old(rng)@, scores(population@)).0],
            final(rng)@ == self.pick(old(rng)@, scores(population@)).1,
    ;
}

/// The sum of the first `count` scores, added up from zero in their order.
pub open spec fn running_total<S: Scalar>(scores: Seq<S>, count: int) -> S
    decreases count,
{
    if count <= 0 {
        S::zero_value()
    } else {
        running_total(scores, count - 1).sum(scores[count - 1])
    }
}

/// Whether the running total up to and including position `index` reaches
/// `choice`, that is, is not below it.
pub open spec fn reaches<S: Scalar>(scores: Seq<S>, index: int, choice: S) -> bool {
    !running_total(scores, index + 1).below(choice)
}

/// Where the wheel stops: the smallest position whose running total reaches
/// `choice`, or the last position if none does.
///
/// With non-negative scores and a choice that does not exceed their total,
/// the last running total reaches the choice, so the second case does not
/// arise. When every score is zero the wheel stops at position 0.
pub open spec fn wheel_stop<S: Scalar>(scores: Seq<S>, choice: S) -> int {
    if exists|i: int| 0 <= i < scores.len() && reaches(scores, i, choice) {
        choose|i: int|
            0 <= i < scores.len() && reaches(scores, i, choice) && forall|j: int|
                0 <= j < i ==> !reaches(scores, j, choice)
    } else {
        scores.len() - 1
    }
}

/// Characterises [`wheel_stop`]: a position is the stop exactly when it is
/// the first that reaches the choice, or is the last and none reaches it.
pub proof fn wheel_stop_is<S: Scalar>(scores: Seq<S>, choice: S, index: int)
    requires
        0 <= index < scores.len(),
        forall|j: int| 0 <= j < index ==> !reaches(scores, j, choice),
        reaches(scores, index, choice) || index == scores.len() - 1,
    ensures
        wheel_stop(scores, choice) == index,
{
    if exists|i: int| 0 <= i < scores.len() && reaches(scores, i, choice) {
        let first = first_reaching(scores, choice, scores.len() as int);
        let w = wheel_stop(scores, choice);
        assert(0 <= w < scores.len() && reaches(scores, w, choice) && forall|j: int|
            0 <= j < w ==> !reaches(scores, j, choice)) by {
            assert(0 <= first < scores.len() && reaches(scores, first, choice) && forall|j: int|
                0 <= j < first ==> !reaches(scores, j, choice));
        }
        if w < index {
            assert(!reaches(scores, w, choice));
        }
        if index < w {
            assert(reaches(scores, index, choice)) by {
                if !reaches(scores, index, choice) {
                    assert(index == scores.len() - 1);
                }
            }
        }
    } else {
        assert(!reaches(scores, index, choice));
    }
}

/// Where some position reaches the choice, the wheel stops at the first
/// that does.
pub proof fn wheel_stops_where_reached<S: Scalar>(scores: Seq<S>, choice: S)
    requires
        exists|i: int| 0 <= i < scores.len() && reaches(scores, i, choice),
    ensures
        0 <= wheel_stop(scores, choice) < scores.len(),
        reaches(scores, wheel_stop(scores, choice), choice),
        forall|j: int| 0 <= j < wheel_stop(scores, choice) ==> !reaches(scores, j, choice),
{
    let first = first_reaching(scores, choice, scores.len() as int);
    wheel_stop_is(scores, choice, first);
}

/// Among the first `bound` positions, of which one reaches the choice, the
/// first that does.
proof fn first_reaching<S: Scalar>(scores: Seq<S>, choice: S, bound: int) -> (first: int)
    requires
        0 <= bound <= scores.len(),
        exists|i: int| 0 <= i < bound && reaches(scores, i, choice),
    ensures
        0 <= first < bound,
        reaches(scores, first, choice),
        forall|j: int| 0 <= j < first ==> !reaches(scores, j, choice),
    decreases bound,
{
    if exists|i: int| 0 <= i < bound - 1 && reaches(scores, i, choice) {
        first_reaching(scores, choice, bound - 1)
    } else {
        let i = choose|i: int| 0 <= i < bound && reaches(scores, i, choice);
        assert(i == bound - 1);
        bound - 1
    }
}

/// Roulette-wheel selection: each individual is chosen with a probability
/// proportional to its share of the population's total fitness.
#[derive(Clone, Copy, Debug)]
pub struct RouletteWheelSelection;

impl RouletteWheelSelection {
    /// The roulette-wheel selection policy, which has no parameters.
    pub fn new() -> (r: Self) {
        RouletteWheelSelection
    }

    /// The point at which the wheel is read: the drawn fraction of the
    /// total of all scores.
    pub open spec fn choice<S: Scalar>(state: u64, scores: Seq<S>) -> S {
        unit::<S>(state).product(running_total(scores, scores.len() as int))
    }

    /// Where the wheel stops for a given choice: the position of the first
    /// individual whose running total of fitness is not below `choice`, or
    /// the last position if there is none.
    pub fn stop_at<S: Scalar, I: Individual<S>>(population: &[I], choice: S) -> (index: usize)
        requires
            population@.len() > 0,
        ensures
            index < population@.len(),
            index == wheel_stop(scores(population@), choice),
    {
        let ghost fitness = scores(population@);
        let mut total = S::zero();
        let mut index: usize = 0;
        loop
            invariant
                index < population@.len(),
                fitness == scores(population@),
                total == running_total(fitness, index as int),
                forall|j: int| 0 <= j < index ==> !reaches(fitness, j, choice),
            decreases population@.len() - index,
        {
            total = total.plus(population[index].fitness());
            assert(total == running_total(fitness, index + 1));
            if !total.less_than(choice) || index + 1 == population.len() {
                proof {
                    wheel_stop_is(fitness, choice, index as int);
                }
                return index;
            }
            index = index + 1;
        }
    }
}

impl<S: Scalar> SelectionMethod<S> for RouletteWheelSelection {
    open spec fn pick(&self, state: u64, scores: Seq<S>) -> (int, u64) {
        (wheel_stop(scores, Self::choice(state, scores)), after_unit(state))
    }

    fn select<'a, I: Individual<S>>(&self, rng: &mut Prng, population: &'a [I]) -> (chosen: &'a I) {
        let total = total_fitness(population);
        let draw: S = rng.unit();
        let index = Self::stop_at(population, draw.times(total));
        &population[index]
    }
}

/// The sum of all fitness scores of a population.
pub fn total_fitness<S: Scalar, I: Individual<S>>(population: &[I]) -> (total: S)
    ensures
        total == running_total(scores(population@), population@.len() as int),
{
    let ghost fitness = scores(population@);
    let mut total = S::zero();
    let mut index: usize = 0;
    while index < population.len()
        invariant
            index <= population@.len(),
            fitness == scores(population@),
            total == running_total(fitness, index as int),
        decreases population@.len() - index,
    {
        total = total.plus(population[index].fitness());
        index = index + 1;
    }
    total
}

} // verus!
