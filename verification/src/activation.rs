//! The activation of a network: a scalar function together with its
//! derivative, the derivative taking the function's own output.
use crate::grid::{height, mapped, width};
use crate::matrix::Matrix;
use core::marker::PhantomData;
use vstd::prelude::*;

verus! {

/// `f` accepts every argument and, for each argument, has exactly one result.
pub open spec fn is_function<T, F: Fn(T) -> T>(f: F) -> bool {
    &&& forall|x: T| #[trigger] f.requires((x,))
    &&& forall|x: T, y1: T, y2: T|
        #![trigger f.ensures((x,), y1), f.ensures((x,), y2)]
        f.ensures((x,), y1) && f.ensures((x,), y2) ==> y1 == y2
}

/// The result of `f` at `x`, for an `f` that [`is_function`].
pub open spec fn value_of<T, F: Fn(T) -> T>(f: F, x: T) -> T {
    choose|y: T| f.ensures((x,), y)
}

/// `f` as a mathematical function.
pub open spec fn as_spec<T, F: Fn(T) -> T>(f: F) -> spec_fn(T) -> T {
    |x: T| value_of(f, x)
}

/// A pair of scalar functions: the activation, and its derivative expressed
/// in the activation's output (for the logistic function, `y * (1 - y)`).
#[verifier::reject_recursive_types(T)]
pub struct Activation<T, F: Fn(T) -> T, D: Fn(T) -> T> {
    forward: F,
    derivative: D,
    marker: PhantomData<T>,
}

impl<T, F: Fn(T) -> T, D: Fn(T) -> T> Activation<T, F, D> {
    #[verifier::type_invariant]
    spec fn both_are_functions(&self) -> bool {
        is_function(self.forward) && is_function(self.derivative)
    }

    /// The activation as a mathematical function.
    pub closed spec fn forward_fn(&self) -> spec_fn(T) -> T {
        as_spec(self.forward)
    }

    /// The derivative as a mathematical function.
    pub closed spec fn derivative_fn(&self) -> spec_fn(T) -> T {
        as_spec(self.derivative)
    }

    /// Pairs an activation with its derivative.
    pub fn new(forward: F, derivative: D) -> (a: Self)
        requires
            is_function(forward),
            is_function(derivative),
        ensures
            a.forward_fn() == as_spec(forward),
            a.derivative_fn() == as_spec(derivative),
    {
        Activation { forward, derivative, marker: PhantomData }
    }

    /// The activation at `x`.
    pub fn forward(&self, x: T) -> (y: T)
        ensures
            y == (self.forward_fn())(x),
    {
        proof {
            use_type_invariant(self);
        }
        (self.forward)(x)
    }

    /// The derivative at the activation output `y`.
    pub fn derivative(&self, y: T) -> (d: T)
        ensures
            d == (self.derivative_fn())(y),
    {
        proof {
            use_type_invariant(self);
        }
        (self.derivative)(y)
    }
}

impl<T: Copy, F: Fn(T) -> T, D: Fn(T) -> T> Activation<T, F, D> {
    /// The activation applied to every element of `m`.
    pub fn forward_all(&self, m: &Matrix<T>) -> (r: Matrix<T>)
        ensures
            r@ == mapped(m@, self.forward_fn()),
    {
        proof {
            use_type_invariant(self);
        }
        let r = m.map(&self.forward);
        proof {
            let g = mapped(m@, self.forward_fn());
            assert forall|i: int| 0 <= i < height(m@) implies #[trigger] r@[i] == g[i] by {
                assert(r@[i].len() == width(m@));
                assert forall|j: int| 0 <= j < width(m@) implies r@[i][j] == g[i][j] by {
                    assert(self.forward.ensures((m@[i][j],), r@[i][j]));
                }
                assert(r@[i] =~= g[i]);
            }
            assert(r@ =~= g);
        }
        r
    }

    /// The derivative applied to every element of `m`.
    pub fn derivative_all(&self, m: &Matrix<T>) -> (r: Matrix<T>)
        ensures
            r@ == mapped(m@, self.derivative_fn()),
    {
        proof {
            use_type_invariant(self);
        }
        let r = m.map(&self.derivative);
        proof {
            let g = mapped(m@, self.derivative_fn());
            assert forall|i: int| 0 <= i < height(m@) implies #[trigger] r@[i] == g[i] by {
                assert(r@[i].len() == width(m@));
                assert forall|j: int| 0 <= j < width(m@) implies r@[i][j] == g[i][j] by {
                    assert(self.derivative.ensures((m@[i][j],), r@[i][j]));
                }
                assert(r@[i] =~= g[i]);
            }
            assert(r@ =~= g);
        }
        r
    }
}

} // verus!
