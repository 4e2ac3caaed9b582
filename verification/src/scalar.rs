//! The arithmetic a matrix element must offer.
use vstd::prelude::*;

verus! {

/// A number type the engine can compute with.
///
/// Each operation is paired with a specification function that names its
/// result; the engine's contracts are written over those names and assume
/// nothing else about the arithmetic (in particular no associativity, so that
/// rounding number types fit).
pub trait Scalar: Sized + Copy {
    /// The additive starting value of every accumulation.
    spec fn zero_value() -> Self;

    /// The value that marks a hot slot in a one-hot vector.
    spec fn unit_value() -> Self;

    /// `self + rhs`.
    spec fn sum(self, rhs: Self) -> Self;

    /// `self - rhs`.
    spec fn difference(self, rhs: Self) -> Self;

    /// `self * rhs`.
    spec fn product(self, rhs: Self) -> Self;

    /// The position of `self` in the total order used to pick a largest
    /// element.
    spec fn rank(self) -> i64;

    fn zero() -> (r: Self)
        ensures
            r == Self::zero_value(),
    ;

    fn one() -> (r: Self)
        ensures
            r == Self::unit_value(),
    ;

    fn plus(self, rhs: Self) -> (r: Self)
        ensures
            r == self.sum(rhs),
    ;

    fn minus(self, rhs: Self) -> (r: Self)
        ensures
            r == self.difference(rhs),
    ;

    fn times(self, rhs: Self) -> (r: Self)
        ensures
            r == self.product(rhs),
    ;

    fn order_key(self) -> (k: i64)
        ensures
            k == self.rank(),
    ;
}

/// Whether zero and one behave in `T` as they do in a ring: adding zero
/// changes nothing, multiplying by one changes nothing, and multiplying by
/// zero gives zero, each from either side.
pub open spec fn has_identities<T: Scalar>() -> bool {
    &&& forall|x: T| #[trigger] T::zero_value().sum(x) == x
    &&& forall|x: T| #[trigger] x.sum(T::zero_value()) == x
    &&& forall|x: T| #[trigger] x.product(T::unit_value()) == x
    &&& forall|x: T| #[trigger] T::unit_value().product(x) == x
    &&& forall|x: T| #[trigger] x.product(T::zero_value()) == T::zero_value()
    &&& forall|x: T| #[trigger] T::zero_value().product(x) == T::zero_value()
}

/// Exact integer arithmetic modulo 2^64.
impl Scalar for i64 {
    open spec fn zero_value() -> Self {
        0
    }

    open spec fn unit_value() -> Self {
        1
    }

    open spec fn sum(self, rhs: Self) -> Self {
        self.wrapping_add(rhs)
    }

    open spec fn difference(self, rhs: Self) -> Self {
        self.wrapping_sub(rhs)
    }

    open spec fn product(self, rhs: Self) -> Self {
        self.wrapping_mul(rhs)
    }

    open spec fn rank(self) -> i64 {
        self
    }

    fn zero() -> (r: Self) {
        0
    }

    fn one() -> (r: Self) {
        1
    }

    fn plus(self, rhs: Self) -> (r: Self) {
        self.wrapping_add(rhs)
    }

    fn minus(self, rhs: Self) -> (r: Self) {
        self.wrapping_sub(rhs)
    }

    fn times(self, rhs: Self) -> (r: Self) {
        self.wrapping_mul(rhs)
    }

    fn order_key(self) -> (k: i64) {
        self
    }
}

/// Wrapping 64-bit integers have zero and one as identities.
pub proof fn lemma_i64_has_identities()
    ensures
        has_identities::<i64>(),
{
    assert forall|x: i64| #[trigger] x.product(1i64) == x && #[trigger] 1i64.product(x) == x by {
        assert(x * 1 == x && 1 * x == x);
        assert(x as int % 0x1_0000_0000_0000_0000 == if x >= 0 {
            x as int
        } else {
            x + 0x1_0000_0000_0000_0000
        });
    }
    assert forall|x: i64| #[trigger] x.product(0i64) == 0i64 && #[trigger] 0i64.product(x) == 0i64 by {
        assert(x * 0 == 0 && 0 * x == 0);
    }
}

} // verus!
