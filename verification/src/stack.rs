//! The pieces of the service stack that the recorders are built into.

use vstd::prelude::*;

verus! {

/// A target that holds a parameter of type `P`.
pub trait Param<P> {
    fn param(&self) -> P;
}

/// Pulls a parameter of type `P` out of a target of type `T`.
pub trait ExtractParam<P, T> {
    fn extract_param(&self, target: &T) -> P;
}

/// The extractor that asks the target itself.
impl<P, T: Param<P>> ExtractParam<P, T> for () {
    fn extract_param(&self, target: &T) -> (p: P)
        ensures
            call_ensures(T::param, (target,), p),
    {
        target.param()
    }
}

/// Builds a service for a target.
pub trait NewService<T> {
    type Service;

    fn new_service(&self, target: T) -> Self::Service;
}

} // verus!
