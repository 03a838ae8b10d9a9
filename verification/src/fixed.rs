use vstd::prelude::*;
use crate::neuron::spread;
use crate::random::unit_steps;
use crate::scalar::{unit_interval_ordered, zero_annihilates, Scalar, UNIT_STEPS};

verus! {

/// An exact number type for the engine: a signed fixed-point number with 23
/// binary places, so that every point of the unit interval that the
/// generator can draw is represented exactly. Its view is the number of
/// steps of width `1 / UNIT_STEPS` that it stands for.
///
/// Sums, differences and products that leave the range stop at its end;
/// products are rounded down to the next step.
#[derive(Clone, Copy, Debug, PartialEq, Eq, Structural)]
pub struct Fixed {
    raw: i64,
}

impl View for Fixed {
    type V = int;

    closed spec fn view(&self) -> int {
        self.raw as int
    }
}

/// The number of steps nearest to `steps` that a `Fixed` can hold.
pub open spec fn clamped(steps: int) -> int {
    if steps < i64::MIN {
        i64::MIN as int
    } else if steps > i64::MAX {
        i64::MAX as int
    } else {
        steps
    }
}

/// The `Fixed` that stands for the given number of steps; only its view
/// matters.
pub closed spec fn fixed(steps: int) -> Fixed {
    Fixed { raw: clamped(steps) as i64 }
}

/// Two `Fixed` with the same view are the same, and `fixed` inverts the
/// view on every number of steps in range.
pub proof fn fixed_view(steps: int)
    ensures
        fixed(steps)@ == clamped(steps),
        forall|x: Fixed| x@ == clamped(steps) ==> x == fixed(steps),
{
}

impl Fixed {
    /// The number that is `steps` steps of width `1 / UNIT_STEPS` away from
    /// zero.
    pub fn from_steps(steps: i64) -> (r: Self)
        ensures
            r@ == steps,
    {
        Fixed { raw: steps }
    }

    /// The number of steps of width `1 / UNIT_STEPS` that the number is away
    /// from zero.
    pub fn steps(&self) -> (r: i64)
        ensures
            r == self@,
    {
        self.raw
    }

    /// The `Fixed` nearest to a number of steps that may lie out of range.
    fn saturate(steps: i128) -> (r: Self)
        ensures
            r == fixed(steps as int),
    {
        if steps < i64::MIN as i128 {
            Fixed { raw: i64::MIN }
        } else if steps > i64::MAX as i128 {
            Fixed { raw: i64::MAX }
        } else {
            Fixed { raw: steps as i64 }
        }
    }
}

impl Scalar for Fixed {
    open spec fn zero_value() -> Self {
        fixed(0)
    }

    open spec fn one_value() -> Self {
        fixed(UNIT_STEPS as int)
    }

    open spec fn fraction_value(steps: u32) -> Self {
        fixed(steps as int)
    }

    open spec fn sum(self, rhs: Self) -> Self {
        fixed(self@ + rhs@)
    }

    open spec fn difference(self, rhs: Self) -> Self {
        fixed(self@ - rhs@)
    }

    open spec fn product(self, rhs: Self) -> Self {
        fixed((self@ * rhs@) / (UNIT_STEPS as int))
    }

    open spec fn below(self, rhs: Self) -> bool {
        self@ < rhs@
    }

    fn zero() -> (r: Self) {
        Fixed { raw: 0 }
    }

    fn one() -> (r: Self) {
        Fixed { raw: 8_388_608 }
    }

    fn fraction(steps: u32) -> (r: Self) {
        Fixed { raw: steps as i64 }
    }

    fn plus(self, rhs: Self) -> (r: Self) {
        Self::saturate(self.raw as i128 + rhs.raw as i128)
    }

    fn minus(self, rhs: Self) -> (r: Self) {
        Self::saturate(self.raw as i128 - rhs.raw as i128)
    }

    fn times(self, rhs: Self) -> (r: Self) {
        let left = self.raw as i128;
        let right = rhs.raw as i128;
        assert(-0x4000_0000_0000_0000_0000_0000_0000_0000 <= left * right
            <= 0x4000_0000_0000_0000_0000_0000_0000_0000) by (nonlinear_arith)
            requires
                -0x8000_0000_0000_0000 <= left <= 0x8000_0000_0000_0000,
                -0x8000_0000_0000_0000 <= right <= 0x8000_0000_0000_0000,
        ;
        let exact: i128 = left * right;
        let whole: i128 = if exact >= 0 {
            exact / 8_388_608
        } else {
            -((8_388_607 - exact) / 8_388_608)
        };
        Self::saturate(whole)
    }

    fn less_than(self, rhs: Self) -> (r: bool) {
        self.raw < rhs.raw
    }
}

/// `Fixed` keeps the unit interval in order: no point of it is below zero,
/// and each is below one.
pub proof fn fixed_orders_unit_interval()
    ensures
        unit_interval_ordered::<Fixed>(),
{
}

/// In `Fixed`, a product with a factor zero in the middle is nothing.
pub proof fn fixed_zero_annihilates()
    ensures
        zero_annihilates::<Fixed>(),
{
    assert forall|x: Fixed, left: Fixed, right: Fixed| #[trigger]
        x.sum(left.product(Fixed::zero_value()).product(right)) == x by {
        assert(left@ * 0 == 0);
        assert(0 * right@ == 0);
        assert(left.product(Fixed::zero_value())@ == 0);
    }
}

/// In `Fixed`, every bias and weight that is drawn for a neuron lies in
/// `[-1, 1)`: it is twice the number of steps drawn, less one.
pub proof fn fixed_spread_in_range(state: u64)
    ensures
        spread::<Fixed>(state)@ == 2 * unit_steps(state) - UNIT_STEPS,
        -UNIT_STEPS <= spread::<Fixed>(state)@ < UNIT_STEPS,
{
    let steps = unit_steps(state) as int;
    assert((steps * 16_777_216) / 8_388_608 == 2 * steps);
}

} // verus!
