//! The conditions that routing and detection report to their caller.

use vstd::prelude::*;

verus! {

/// Why no backend was selected for a request.
#[derive(Clone, Copy, Debug, PartialEq, Eq, Structural)]
pub enum RoutingError {
    /// No rule of the route table applies to the request.
    NoRouteMatched,
    /// A rule applies, and none of its backends is available.
    NoBackendAvailable,
}

/// Why the protocol of a connection was not determined.
#[derive(Clone, Copy, Debug, PartialEq, Eq, Structural)]
pub enum DetectionError {
    /// The time budget ran out before the bytes read decided the protocol.
    DetectionTimeout,
    /// The connection was closed while detection was under way.
    ConnectionClosed,
}

} // verus!
