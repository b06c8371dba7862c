//! Routing and stream-observability core of a service-mesh sidecar proxy.
//!
//! For every outbound connection the proxy finds the policy of the
//! destination, settles whether the connection carries HTTP/1 or HTTP/2,
//! selects a rule for each request and a backend for the rule, and records
//! how long each exchange took until its stream truly ended.
//!
//! - [`policy`] holds the routing configuration, [`validate`] its invariants.
//! - [`detect`] settles the protocol of a connection within a time budget.
//! - [`matcher`] selects the rule of a request, [`distribution`] the backend
//!   of a rule, and [`resolve`] does both for a policy snapshot.
//! - [`record_response`] and [`body_data`] hold what the duration recorders
//!   remember and decide.
//! - [`identity`] and [`dns_name`] read endpoint identities.
//!
//! Nothing here reads a clock, a socket or a channel: callers hand in what
//! they read and carry out what they are handed back.

pub mod body_data;
pub mod detect;
pub mod distribution;
pub mod dns_name;
pub mod errors;
pub mod identity;
pub mod matcher;
pub mod octets;
pub mod patterns;
pub mod policy;
pub mod record_response;
pub mod request;
pub mod resolve;
pub mod seqs;
pub mod stack;
pub mod validate;
