use vstd::prelude::*;
use vstd::arithmetic::div_mod::{lemma_fundamental_div_mod, lemma_mod_bound};
use vstd::set_lib::{lemma_int_range, set_int_range};
use crate::fixed::{fixed_view, Fixed};
use crate::random::unit_steps;
use crate::scalar::{Scalar, UNIT_STEPS};
use crate::select::{
    reaches, running_total, wheel_stop, wheel_stop_is, wheel_stops_where_reached,
    RouletteWheelSelection, SelectionMethod,
};

verus! {

/// Whether no score is negative.
pub open spec fn non_negative(scores: Seq<Fixed>) -> bool {
    forall|i: int| 0 <= i < scores.len() ==> (#[trigger] scores[i])@ >= 0
}

/// The running totals of scores that are not negative are not negative.
proof fn running_total_non_negative(scores: Seq<Fixed>, count: int)
    requires
        non_negative(scores),
        0 <= count <= scores.len(),
    ensures
        running_total(scores, count)@ >= 0,
    decreases count,
{
    if count > 0 {
        running_total_non_negative(scores, count - 1);
        assert(scores[count - 1]@ >= 0);
        fixed_view(running_total(scores, count - 1)@ + scores[count - 1]@);
    } else {
        fixed_view(0);
    }
}

/// With `Fixed` scores of which none is negative, the wheel always finds its
/// stop: whatever the generator draws, the choice does not exceed the total,
/// so the wheel stops at the first position whose running total reaches the
/// choice.
pub proof fn fixed_wheel_finds_its_stop(scores: Seq<Fixed>, state: u64)
    requires
        scores.len() > 0,
        non_negative(scores),
    ensures
        0 <= wheel_stop(scores, RouletteWheelSelection::choice(state, scores)) < scores.len(),
        reaches(
            scores,
            wheel_stop(scores, RouletteWheelSelection::choice(state, scores)),
            RouletteWheelSelection::choice(state, scores),
        ),
        forall|j: int|
            0 <= j < wheel_stop(scores, RouletteWheelSelection::choice(state, scores))
                ==> !reaches(scores, j, RouletteWheelSelection::choice(state, scores)),
{
    let choice = RouletteWheelSelection::choice(state, scores);
    let steps = unit_steps(state) as int;
    let total = running_total(scores, scores.len() as int)@;
    running_total_non_negative(scores, scores.len() as int);
    assert(0 <= (steps * total) / 8_388_608 <= total) by (nonlinear_arith)
        requires
            0 <= steps < 8_388_608,
            0 <= total,
    ;
    fixed_view(steps);
    fixed_view((steps * total) / 8_388_608);
    assert(choice@ <= total);
    assert(reaches(scores, scores.len() - 1, choice));
    wheel_stops_where_reached(scores, choice);
}

/// With `Fixed` scores that are all zero, the wheel stops at the first
/// position, whatever the generator draws.
pub proof fn fixed_wheel_without_fitness_stops_first(scores: Seq<Fixed>, state: u64)
    requires
        scores.len() > 0,
        forall|i: int| 0 <= i < scores.len() ==> (#[trigger] scores[i])@ == 0,
    ensures
        wheel_stop(scores, RouletteWheelSelection::choice(state, scores)) == 0,
{
    let choice = RouletteWheelSelection::choice(state, scores);
    totals_of_zeros(scores, scores.len() as int);
    totals_of_zeros(scores, 1);
    assert((unit_steps(state) as int * 0) / 8_388_608 == 0);
    fixed_view(unit_steps(state) as int);
    fixed_view(0);
    assert(choice@ == 0);
    wheel_stop_is(scores, choice, 0);
}

/// The running totals of zeros are zero.
proof fn totals_of_zeros(scores: Seq<Fixed>, count: int)
    requires
        0 <= count <= scores.len(),
        forall|i: int| 0 <= i < scores.len() ==> (#[trigger] scores[i])@ == 0,
    ensures
        running_total(scores, count)@ == 0,
    decreases count,
{
    fixed_view(0);
    if count > 0 {
        totals_of_zeros(scores, count - 1);
        assert(scores[count - 1]@ == 0);
    }
}

/// The sum of the first `count` scores in steps, without regard to range.
pub open spec fn exact_total(scores: Seq<Fixed>, count: int) -> int
    decreases count,
{
    if count <= 0 {
        0
    } else {
        exact_total(scores, count - 1) + scores[count - 1]@
    }
}

/// Whether the scores can be summed exactly: none is negative, and their
/// sum is in range.
pub open spec fn summable(scores: Seq<Fixed>) -> bool {
    non_negative(scores) && exact_total(scores, scores.len() as int) <= i64::MAX
}

/// Where the wheel stops when the generator draws the point of the unit
/// interval that lies `steps` steps above zero.
pub open spec fn stop_for(scores: Seq<Fixed>, steps: int) -> int {
    wheel_stop(
        scores,
        Fixed::fraction_value(steps as u32).product(running_total(scores, scores.len() as int)),
    )
}

/// The point at which the wheel is read for that draw, in steps: the drawn
/// fraction of the sum of all scores, rounded down.
pub open spec fn choice_for(scores: Seq<Fixed>, steps: int) -> int {
    (steps * exact_total(scores, scores.len() as int)) / (UNIT_STEPS as int)
}

/// The draws of the unit interval, as numbers of steps, for which the wheel
/// stops at `index`.
pub open spec fn share(scores: Seq<Fixed>, index: int) -> Set<int> {
    Set::new(|steps: int| 0 <= steps < UNIT_STEPS && stop_for(scores, steps) == index)
}

/// The number of draws of the unit interval whose fraction of `total`,
/// rounded down, does not exceed `prefix`: the quotient of
/// `(prefix + 1) * UNIT_STEPS` by `total`, rounded up, but at most all
/// `UNIT_STEPS` draws.
pub open spec fn draws_up_to(total: int, prefix: int) -> int {
    let bound = ((prefix + 1) * UNIT_STEPS + total - 1) / total;
    if bound < UNIT_STEPS {
        bound
    } else {
        UNIT_STEPS as int
    }
}

/// The first of the draws for which the wheel stops at `index`.
pub open spec fn share_start(scores: Seq<Fixed>, index: int) -> int {
    if index <= 0 {
        0
    } else {
        draws_up_to(exact_total(scores, scores.len() as int), exact_total(scores, index))
    }
}

/// Sums of scores that are not negative grow with the number of scores.
proof fn exact_total_grows(scores: Seq<Fixed>, fewer: int, more: int)
    requires
        non_negative(scores),
        0 <= fewer <= more <= scores.len(),
    ensures
        0 <= exact_total(scores, fewer) <= exact_total(scores, more),
    decreases more,
{
    if fewer < more {
        exact_total_grows(scores, fewer, more - 1);
        assert(scores[more - 1]@ >= 0);
    } else if more > 0 {
        exact_total_grows(scores, fewer - 1, more - 1);
        assert(scores[more - 1]@ >= 0);
    }
}

/// The running totals of summable scores are their exact sums.
proof fn running_total_is_exact(scores: Seq<Fixed>, count: int)
    requires
        summable(scores),
        0 <= count <= scores.len(),
    ensures
        running_total(scores, count)@ == exact_total(scores, count),
    decreases count,
{
    if count > 0 {
        running_total_is_exact(scores, count - 1);
        exact_total_grows(scores, count - 1, count);
        exact_total_grows(scores, count, scores.len() as int);
        fixed_view(exact_total(scores, count));
    } else {
        fixed_view(0);
    }
}

/// For positive `total`, an integer `k` has `k * total < amount` exactly
/// when it is below the quotient of `amount` by `total`, rounded up.
proof fn below_rounded_up_quotient(k: int, total: int, amount: int)
    requires
        total > 0,
    ensures
        k * total < amount <==> k < (amount + total - 1) / total,
{
    let q = (amount + total - 1) / total;
    let r = (amount + total - 1) % total;
    lemma_fundamental_div_mod(amount + total - 1, total);
    lemma_mod_bound(amount + total - 1, total);
    assert(amount + total - 1 == total * q + r);
    if k < q {
        assert(k * total <= total * q - total) by (nonlinear_arith)
            requires
                k <= q - 1,
                total > 0,
        ;
    } else {
        assert(k * total >= total * q) by (nonlinear_arith)
            requires
                k >= q,
                total > 0,
        ;
    }
}

/// A draw's fraction of `total`, rounded down, does not exceed `prefix`
/// exactly when the draw is one of the first `draws_up_to(total, prefix)`.
proof fn draws_up_to_is(total: int, prefix: int, steps: int)
    requires
        total > 0,
        0 <= steps < 8_388_608,
    ensures
        (steps * total) / 8_388_608 <= prefix <==> steps < draws_up_to(total, prefix),
{
    below_rounded_up_quotient(steps, total, (prefix + 1) * 8_388_608);
}

/// `draws_up_to` times the total lies between the prefix times the number
/// of draws and that plus one more prefix step and one more draw.
proof fn draws_up_to_bounds(total: int, prefix: int)
    requires
        0 <= prefix <= total,
        total > 0,
    ensures
        0 <= draws_up_to(total, prefix) <= 8_388_608,
        prefix * 8_388_608 <= draws_up_to(total, prefix) * total < (prefix + 1) * 8_388_608
            + total,
{
    let amount = (prefix + 1) * 8_388_608;
    let bound = (amount + total - 1) / total;
    let r = (amount + total - 1) % total;
    lemma_fundamental_div_mod(amount + total - 1, total);
    lemma_mod_bound(amount + total - 1, total);
    assert(amount + total - 1 == total * bound + r);
    assert(total * bound == bound * total) by (nonlinear_arith);
    assert(bound >= 0) by (nonlinear_arith)
        requires
            bound * total >= 0,
            total > 0,
    ;
    if bound >= 8_388_608 {
        assert(8_388_608 * total <= bound * total) by (nonlinear_arith)
            requires
                8_388_608 <= bound,
                total > 0,
        ;
        assert(prefix * 8_388_608 <= 8_388_608 * total) by (nonlinear_arith)
            requires
                prefix <= total,
        ;
    }
}

/// More draws stop at or before a larger prefix.
proof fn draws_up_to_grows(total: int, smaller: int, larger: int)
    requires
        total > 0,
        0 <= smaller <= larger,
    ensures
        0 <= draws_up_to(total, smaller) <= draws_up_to(total, larger) <= 8_388_608,
{
    let low = draws_up_to(total, smaller);
    let high = draws_up_to(total, larger);
    below_rounded_up_quotient(0, total, (smaller + 1) * 8_388_608);
    assert(0 * total == 0);
    if high < low {
        draws_up_to_is(total, larger, high);
        draws_up_to_is(total, smaller, high);
        assert((high * total) / 8_388_608 <= smaller);
    }
}

/// For summable scores, the wheel stops at `index` exactly when the choice
/// exceeds the sum of the scores before `index` and does not exceed that
/// sum with the score at `index`. At the first position only the second
/// condition counts.
pub proof fn stop_for_is(scores: Seq<Fixed>, steps: int, index: int)
    requires
        summable(scores),
        0 <= steps < UNIT_STEPS,
        0 <= index < scores.len(),
    ensures
        stop_for(scores, steps) == index <==> (index == 0 || exact_total(scores, index)
            < choice_for(scores, steps)) && choice_for(scores, steps) <= exact_total(
            scores,
            index + 1,
        ),
{
    let count = scores.len() as int;
    let total = exact_total(scores, count);
    let choice = choice_for(scores, steps);
    let point = Fixed::fraction_value(steps as u32).product(running_total(scores, count));
    exact_total_grows(scores, 0, count);
    running_total_is_exact(scores, count);
    assert(0 <= choice <= total) by (nonlinear_arith)
        requires
            0 <= steps < 8_388_608,
            0 <= total,
            choice == (steps * total) / 8_388_608,
    ;
    fixed_view(steps);
    fixed_view(choice);
    assert(point@ == choice);
    assert forall|j: int| 0 <= j < count implies (reaches(scores, j, point) <==> choice
        <= exact_total(scores, j + 1)) by {
        running_total_is_exact(scores, j + 1);
    }
    assert(reaches(scores, count - 1, point));
    wheel_stops_where_reached(scores, point);
    let stop = stop_for(scores, steps);
    if (index == 0 || exact_total(scores, index) < choice) && choice <= exact_total(
        scores,
        index + 1,
    ) {
        assert forall|j: int| 0 <= j < index implies !reaches(scores, j, point) by {
            exact_total_grows(scores, j + 1, index);
        }
        wheel_stop_is(scores, point, index);
    }
    if stop == index && index > 0 {
        assert(!reaches(scores, index - 1, point));
    }
}

/// For summable scores with a positive sum, the draws for which the wheel
/// stops at `index` are those from `draws_up_to` the sum before `index`
/// to `draws_up_to` the sum with the score at `index`.
proof fn share_is_a_range(scores: Seq<Fixed>, index: int)
    requires
        summable(scores),
        exact_total(scores, scores.len() as int) > 0,
        0 <= index < scores.len(),
    ensures
        share(scores, index) == set_int_range(
            share_start(scores, index),
            draws_up_to(
                exact_total(scores, scores.len() as int),
                exact_total(scores, index + 1),
            ),
        ),
        0 <= share_start(scores, index) <= draws_up_to(
            exact_total(scores, scores.len() as int),
            exact_total(scores, index + 1),
        ) <= 8_388_608,
{
    let total = exact_total(scores, scores.len() as int);
    let before = exact_total(scores, index);
    let with = exact_total(scores, index + 1);
    let low = share_start(scores, index);
    let high = draws_up_to(total, with);
    exact_total_grows(scores, index, index + 1);
    draws_up_to_grows(total, before, with);
    assert forall|steps: int| share(scores, index).contains(steps) <==> set_int_range(
        low,
        high,
    ).contains(steps) by {
        if 0 <= steps < 8_388_608 {
            stop_for_is(scores, steps, index);
            draws_up_to_is(total, with, steps);
            draws_up_to_is(total, before, steps);
        }
    }
    assert(share(scores, index) =~= set_int_range(low, high));
}

/// The wheel is fair to the draws. For summable scores with a positive sum,
/// the number of draws of the unit interval, among all `UNIT_STEPS`, for
/// which the wheel stops at `index` is the number of those up to the sum
/// with the score at `index`, less the number of those up to the sum
/// before it.
pub proof fn share_counts_draws(scores: Seq<Fixed>, index: int)
    requires
        summable(scores),
        exact_total(scores, scores.len() as int) > 0,
        0 <= index < scores.len(),
    ensures
        share(scores, index).finite(),
        share(scores, index).len() == draws_up_to(
            exact_total(scores, scores.len() as int),
            exact_total(scores, index + 1),
        ) - share_start(scores, index),
{
    share_is_a_range(scores, index);
    lemma_int_range(
        share_start(scores, index),
        draws_up_to(exact_total(scores, scores.len() as int), exact_total(scores, index + 1)),
    );
}

/// Selection is proportionate to fitness. For summable scores with a
/// positive sum, the share of draws for which the wheel stops at an
/// individual differs from the individual's share of the total fitness by
/// less than one step of the draw and one step of the fitness together:
/// with `n` of `UNIT_STEPS` draws stopping there, a score of `s` steps and a
/// total of `t` steps, `n * t` and `s * UNIT_STEPS` differ by less than
/// `t + UNIT_STEPS`.
pub proof fn share_is_proportionate(scores: Seq<Fixed>, index: int)
    requires
        summable(scores),
        exact_total(scores, scores.len() as int) > 0,
        0 <= index < scores.len(),
    ensures
        share(scores, index).finite(),
        scores[index]@ * UNIT_STEPS - (exact_total(scores, scores.len() as int) + UNIT_STEPS)
            < share(scores, index).len() * exact_total(scores, scores.len() as int)
            < scores[index]@ * UNIT_STEPS + (exact_total(scores, scores.len() as int)
            + UNIT_STEPS),
{
    let total = exact_total(scores, scores.len() as int);
    let before = exact_total(scores, index);
    let with = exact_total(scores, index + 1);
    let low = share_start(scores, index);
    let high = draws_up_to(total, with);
    share_counts_draws(scores, index);
    exact_total_grows(scores, index, index + 1);
    exact_total_grows(scores, index + 1, scores.len() as int);
    draws_up_to_bounds(total, with);
    if index > 0 {
        draws_up_to_bounds(total, before);
    } else {
        assert(low * total == 0);
    }
    assert(before * 8_388_608 <= low * total < (before + 1) * 8_388_608 + total);
    assert((high - low) * total == high * total - low * total) by (nonlinear_arith);
    assert(scores[index]@ == with - before);
}

/// The wheel stops where the selection picks: the position that
/// [`RouletteWheelSelection`] picks in a given generator state is the stop
/// for the draw that the generator makes in that state.
pub proof fn pick_is_stop_for_draw(state: u64, scores: Seq<Fixed>)
    ensures
        RouletteWheelSelection.pick(state, scores).0 == stop_for(
            scores,
            unit_steps(state) as int,
        ),
{
}

} // verus!
