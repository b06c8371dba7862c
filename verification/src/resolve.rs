//! Route resolution: from a policy snapshot and a request to one backend.
//!
//! The rule is chosen from the snapshot and the request alone; the backend is
//! then chosen from the rule's distribution and what the availability oracle
//! answers while the decision is made. What the oracle would answer later has
//! no part in it.

use vstd::prelude::*;
use crate::distribution::{chosen_backend, lemma_chosen_backend_error, selected_by};
use crate::errors::RoutingError;
use crate::matcher::{lemma_selected_in_table, select_rule, selected_rule, RuleRef};
use crate::policy::{
    ClientPolicy, ClientPolicyView, Distribution, Filter, RouteMetadata, WeightedBackend,
};
use crate::request::{HttpVersion, Request, RequestView};

verus! {

/// A routing decision: the rule that applies and the backend that takes the
/// request, by their indices in the snapshot, with what they refer to.
#[derive(Debug)]
pub struct Resolution<'a> {
    /// Index of the route in its table.
    pub route: usize,
    /// Index of the rule in its route.
    pub rule: usize,
    /// Index of the backend in the rule's distribution.
    pub backend: usize,
    /// The resource the route was made from.
    pub metadata: &'a RouteMetadata,
    /// The rule's filters, in the order in which they apply.
    pub filters: &'a Vec<Filter>,
    /// The backend that takes the request.
    pub target: &'a WeightedBackend,
}

/// A routing decision by its indices.
pub struct Decision {
    pub at: RuleRef,
    pub backend: int,
}

/// The decision for a request under a health snapshot of the backends of the
/// rule that applies.
pub open spec fn resolved(
    policy: ClientPolicyView,
    version: HttpVersion,
    req: RequestView,
    health: Seq<bool>,
    draw: u64,
) -> Result<Decision, RoutingError> {
    let table = policy.protocol.table(version);
    match selected_rule(table, req) {
        None => Err(RoutingError::NoRouteMatched),
        Some(at) => match chosen_backend(table[at.route].rules[at.rule].backends, health, draw) {
            Ok(backend) => Ok(Decision { at, backend }),
            Err(e) => Err(e),
        },
    }
}

/// The distribution of the rule at `at`, as the snapshot holds it.
pub open spec fn rule_distribution(
    policy: &ClientPolicy,
    version: HttpVersion,
    at: RuleRef,
) -> Distribution {
    policy.protocol.routes(version)[at.route].rules@[at.rule].backends
}

/// The backend that a resolution names, or the reason why it names none.
pub open spec fn backend_of(r: Result<Resolution<'_>, RoutingError>) -> Result<usize, RoutingError> {
    match r {
        Ok(found) => Ok(found.backend),
        Err(e) => Err(e),
    }
}

impl<'a> Resolution<'a> {
    /// The decision by its indices.
    pub open spec fn decision(&self) -> Decision {
        Decision {
            at: RuleRef { route: self.route as int, rule: self.rule as int },
            backend: self.backend as int,
        }
    }

    /// Whether the references are those of the indexed items of `policy`.
    pub open spec fn refers_to(&self, policy: &ClientPolicy, version: HttpVersion) -> bool {
        let routes = policy.protocol.routes(version);
        &&& self.route < routes.len()
        &&& self.rule < routes[self.route as int].rules@.len()
        &&& self.backend < routes[self.route as int].rules@[self.rule as int].backends.list().len()
        &&& *self.metadata == routes[self.route as int].metadata
        &&& *self.filters == routes[self.route as int].rules@[self.rule as int].filters
        &&& *self.target
            == routes[self.route as int].rules@[self.rule as int].backends.list()[self.backend as int]
    }
}

/// Resolves a request against a policy snapshot.
///
/// The route table is the one the snapshot binds to `version`. Where no rule
/// applies the result is `NoRouteMatched` and the oracle is not asked.
/// Otherwise the first rule that applies is taken and a backend of its
/// distribution is selected by asking `is_available` about as many of its
/// backends as the strategy asks about; `draw` is a random number for the
/// weighted strategy.
pub fn resolve<'a, F: Fn(&WeightedBackend) -> bool>(
    policy: &'a ClientPolicy,
    version: HttpVersion,
    req: &Request,
    is_available: &F,
    draw: u64,
) -> (r: Result<Resolution<'a>, RoutingError>)
    requires
        forall|b: WeightedBackend| call_requires(*is_available, (&b,)),
    ensures
        selected_rule(policy@.protocol.table(version), req@) is None <==> (r matches Err(e) && e
            == RoutingError::NoRouteMatched),
        selected_rule(policy@.protocol.table(version), req@) matches Some(at) ==> exists|
            health: Seq<bool>,
        | #[trigger]
            selected_by(
                is_available,
                &rule_distribution(policy, version, at),
                health,
                draw,
                backend_of(r),
            ) && match r {
                Ok(res) => resolved(policy@, version, req@, health, draw) == Ok::<
                    Decision,
                    RoutingError,
                >(res.decision()),
                Err(e) => resolved(policy@, version, req@, health, draw) == Err::<
                    Decision,
                    RoutingError,
                >(e),
            },
        r matches Ok(res) ==> res.refers_to(policy, version),
{
    let routes = policy.protocol.table(version);
    match select_rule(routes, req) {
        None => Err(RoutingError::NoRouteMatched),
        Some((route, rule)) => {
            let ghost table = policy@.protocol.table(version);
            let ghost at = RuleRef { route: route as int, rule: rule as int };
            proof {
                lemma_selected_in_table(table, req@);
            }
            let found = &routes[route];
            let taken = &found.rules[rule];
            let picked = taken.backends.select(is_available, draw);
            let r = match picked {
                Err(e) => Err(e),
                Ok(backend) => Ok(
                    Resolution {
                        route,
                        rule,
                        backend,
                        metadata: &found.metadata,
                        filters: &taken.filters,
                        target: &taken.backends.backends()[backend],
                    },
                ),
            };
            proof {
                let health = choose|health: Seq<bool>| #[trigger]
                    selected_by(is_available, &taken.backends, health, draw, picked);
                assert(table[at.route].rules[at.rule].backends == taken.backends@);
                assert(rule_distribution(policy, version, at) == taken.backends);
                assert(backend_of(r) == picked);
                assert(selected_by(
                    is_available,
                    &rule_distribution(policy, version, at),
                    health,
                    draw,
                    backend_of(r),
                ));
            }
            r
        },
    }
}

/// Resolution is consistent with one snapshot: which rule a request selects,
/// and whether it selects one at all, does not depend on the health of any
/// backend nor on the draw. Two resolutions of one request against one
/// policy, under any two health snapshots, fail for want of a route together
/// and, where both succeed, name the same rule.
pub proof fn lemma_rule_independent_of_health(
    policy: ClientPolicyView,
    version: HttpVersion,
    req: RequestView,
    health_a: Seq<bool>,
    draw_a: u64,
    health_b: Seq<bool>,
    draw_b: u64,
)
    ensures
        resolved(policy, version, req, health_a, draw_a) == Err::<Decision, RoutingError>(
            RoutingError::NoRouteMatched,
        ) <==> resolved(policy, version, req, health_b, draw_b) == Err::<Decision, RoutingError>(
            RoutingError::NoRouteMatched,
        ),
        resolved(policy, version, req, health_a, draw_a) matches Ok(a) ==> selected_rule(
            policy.protocol.table(version),
            req,
        ) == Some(a.at),
        (resolved(policy, version, req, health_a, draw_a) is Ok && resolved(
            policy,
            version,
            req,
            health_b,
            draw_b,
        ) is Ok) ==> resolved(policy, version, req, health_a, draw_a)->Ok_0.at == resolved(
            policy,
            version,
            req,
            health_b,
            draw_b,
        )->Ok_0.at,
{
    let table = policy.protocol.table(version);
    if let Some(at) = selected_rule(table, req) {
        let dist = table[at.route].rules[at.rule].backends;
        lemma_chosen_backend_error(dist, health_a, draw_a);
        lemma_chosen_backend_error(dist, health_b, draw_b);
    }
}

} // verus!
