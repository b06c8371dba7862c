//! Body-data recording: the stack builder and its metrics handle.

use vstd::prelude::*;

verus! {

/// The metrics registry of the `prometheus-client` crate. Nothing is read
/// from it here; it is only passed along.
#[verifier::external_type_specification]
#[verifier::external_body]
pub struct ExRegistry(prometheus_client::registry::Registry);

/// Builds body-data recorders: `extract` pulls the recorder's parameters out
/// of a stack target, `inner` builds the service that is wrapped.
pub struct NewRecordBodyData<X, N> {
    extract: X,
    inner: N,
}

/// The metrics that body-data recorders report to. No series is kept yet, so
/// the handle carries nothing.
#[derive(Clone, Debug, Default)]
pub struct BodyDataMetrics();

impl<X, N> NewRecordBodyData<X, N> {
    /// The parameter extractor.
    pub closed spec fn extract(&self) -> X {
        self.extract
    }

    /// The inner stack.
    pub closed spec fn inner(&self) -> N {
        self.inner
    }

    /// Pairs an extractor with the inner stack.
    pub fn new(extract: X, inner: N) -> (r: Self)
        ensures
            r.extract() == extract,
            r.inner() == inner,
    {
        NewRecordBodyData { extract, inner }
    }
}

impl<X: Clone, N> NewRecordBodyData<X, N> {
    /// The layer that wraps a stack with this builder: a function from the
    /// inner stack to the builder around it, each with its own copy of
    /// `extract`.
    pub fn layer_via(extract: X) -> (layer: impl Fn(N) -> Self)
        ensures
            forall|inner: N| call_requires(layer, (inner,)),
            forall|inner: N, made: Self|
                call_ensures(layer, (inner,), made) ==> made.inner() == inner && cloned(
                    extract,
                    made.extract(),
                ),
    {
        move |inner: N| -> (made: Self)
            ensures
                made.inner() == inner,
                cloned(extract, made.extract()),
            { NewRecordBodyData { extract: extract.clone(), inner } }
    }
}

impl BodyDataMetrics {
    /// Makes the handle for a registry. No series is registered: the registry
    /// is left as it was.
    pub fn register(registry: &mut prometheus_client::registry::Registry) -> (r: Self)
        ensures
            *final(registry) == *old(registry),
    {
        BodyDataMetrics()
    }
}

} // verus!
