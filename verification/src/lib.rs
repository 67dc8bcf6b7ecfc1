//! Preimage generators for a fixed set of integer operators.
//!
//! Given a *target* — a single `i64` or a half-open range `[start, end)` —
//! each operator produces the domain values (or pairs, for addition) that
//! map onto that target. Results are either a closed-form range or a lazy
//! cursor object that is pulled one element at a time.

use vstd::prelude::*;

pub mod range;

verus! {

/// Tagged single-value container: wraps a raw target value so that the
/// shape of the target (scalar vs. range) is carried by the wrapper's type
/// parameter and dispatch can be resolved unambiguously.
pub struct Item<T> {
    pub val: T,
}

/// Wraps a raw value. Wrapping and unwrapping round-trip exactly.
pub fn item<T>(val: T) -> (r: Item<T>)
    ensures
        r.val == val,
{
    Item { val }
}

impl<T> Item<T> {
    /// Returns the wrapped raw value unchanged.
    pub fn inner(self) -> (r: T)
        ensures
            r == self.val,
    {
        self.val
    }
}

/// The uniform preimage contract: `operator.hinto_iter(target)` yields the
/// sequence of domain elements that the operator maps into the target.
/// Each operator implements it twice — once for a scalar target and once
/// for a range target — and states its exact behaviour through the
/// `hinto_req` / `hinto_ens` specification functions of the implementation.
pub trait HigherIntoIterator<A>: Sized {
    /// Element type of the produced sequence.
    type Item;

    /// Concrete representation of the produced sequence.
    type IntoIter;

    /// Inputs the implementation accepts (machine-limit bounds only).
    spec fn hinto_req(self, arg: A) -> bool;

    /// Exact relation between the target and the produced sequence.
    spec fn hinto_ens(self, arg: A, r: Self::IntoIter) -> bool;

    /// Computes the preimage of `arg` under this operator.
    fn hinto_iter(self, arg: A) -> (r: Self::IntoIter)
        requires
            self.hinto_req(arg),
        ensures
            self.hinto_ens(arg, r),
    ;
}

} // verus!
