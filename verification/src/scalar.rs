use vstd::prelude::*;

verus! {

/// Number of equal steps into which the unit interval is divided.
pub const UNIT_STEPS: u32 = 8_388_608;

/// A number type the engine computes with: the type of genes, of fitness
/// scores, and of neuron weights.
///
/// Each operation is paired with a model function of the same meaning, and
/// promises only that it returns what its model says. The engine's contracts
/// are stated over the models, so they hold for any number type, exact or
/// rounded, whose operations are functions of their arguments.
pub trait Scalar: Copy {
    /// Model of [`Scalar::zero`].
    spec fn zero_value() -> Self;

    /// Model of [`Scalar::one`].
    spec fn one_value() -> Self;

    /// Model of [`Scalar::fraction`]: the number `steps / UNIT_STEPS`.
    spec fn fraction_value(steps: u32) -> Self;

    /// Model of [`Scalar::plus`].
    spec fn sum(self, rhs: Self) -> Self;

    /// Model of [`Scalar::minus`].
    spec fn difference(self, rhs: Self) -> Self;

    /// Model of [`Scalar::times`].
    spec fn product(self, rhs: Self) -> Self;

    /// Model of [`Scalar::less_than`].
    spec fn below(self, rhs: Self) -> bool;

    /// The number zero.
    fn zero() -> (r: Self)
        ensures
            r == Self::zero_value(),
    ;

    /// The number one.
    fn one() -> (r: Self)
        ensures
            r == Self::one_value(),
    ;

    /// The point of the unit interval `[0, 1)` that lies `steps` steps of
    /// width `1 / UNIT_STEPS` above zero.
    fn fraction(steps: u32) -> (r: Self)
        requires
            steps < UNIT_STEPS,
        ensures
            r == Self::fraction_value(steps),
    ;

    /// `self + rhs`.
    fn plus(self, rhs: Self) -> (r: Self)
        ensures
            r == self.sum(rhs),
    ;

    /// `self - rhs`.
    fn minus(self, rhs: Self) -> (r: Self)
        ensures
            r == self.difference(rhs),
    ;

    /// `self * rhs`.
    fn times(self, rhs: Self) -> (r: Self)
        ensures
            r == self.product(rhs),
    ;

    /// Whether `self < rhs`.
    fn less_than(self, rhs: Self) -> (r: bool)
        ensures
            r == self.below(rhs),
    ;
}

/// The number minus one, as `0 - 1`.
pub open spec fn minus_one_value<S: Scalar>() -> S {
    S::zero_value().difference(S::one_value())
}

/// The number two, as `1 + 1`.
pub open spec fn two_value<S: Scalar>() -> S {
    S::one_value().sum(S::one_value())
}

/// Whether every point of the unit interval lies in `[0, 1)` by the order
/// of `S`: none is below zero, and each is below one.
pub open spec fn unit_interval_ordered<S: Scalar>() -> bool {
    forall|steps: u32|
        steps < UNIT_STEPS ==> !(#[trigger] S::fraction_value(steps)).below(S::zero_value())
            && S::fraction_value(steps).below(S::one_value())
}

/// Whether, in `S`, a product with a factor zero in the middle is nothing:
/// added to a number, it leaves the number as it is.
pub open spec fn zero_annihilates<S: Scalar>() -> bool {
    forall|x: S, left: S, right: S| #[trigger]
        x.sum(left.product(S::zero_value()).product(right)) == x
}

} // verus!
