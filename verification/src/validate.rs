//! Policy validation: the invariants a snapshot must meet before it is used
//! for routing.
//!
//! Three things are asked of every rule. A rule that lists match-sets lists
//! none without a predicate; a rule that a request can reach has at least
//! one backend; and every backend has a positive weight. A rule cannot be
//! reached where an earlier rule of its route has no match-set, or an
//! earlier route that takes every host holds such a rule.

use vstd::prelude::*;
use crate::matcher::{
    candidate_flags, candidates, lemma_candidate_position, lemma_candidates_grow,
    lemma_route_candidates, selected_rule, RuleRef,
};
use crate::policy::{
    table_view, ClientPolicy, ClientPolicyView, HttpRoute, HttpRouteView, ProxyProtocol,
    ProxyProtocolView, Rule, RuleView,
};
use crate::request::RequestView;
use crate::seqs::{first_true, lemma_first_true};

verus! {

/// The ways in which a policy can be malformed.
#[derive(Clone, Copy, Debug, PartialEq, Eq, Structural)]
pub enum MalformedPolicy {
    /// A rule lists a match-set without a predicate.
    EmptyMatchSet,
    /// A rule that can be reached has no backend.
    NoBackends,
    /// A backend has weight zero.
    ZeroWeight,
}

/// Whether some rule of `route` before index `upto` has no match-set, and so
/// takes every request that the route admits.
pub open spec fn shadowed_within(route: HttpRouteView, upto: int) -> bool {
    exists|j: int| 0 <= j < upto && j < route.rules.len() && (#[trigger] route.rules[j]).matches.len() == 0
}

/// Whether `route` takes every request: it admits every host and one of its
/// rules has no match-set.
pub open spec fn takes_all(route: HttpRouteView) -> bool {
    route.hosts.len() == 0 && shadowed_within(route, route.rules.len() as int)
}

/// Whether some route before index `upto` takes every request.
pub open spec fn shadowed_before(table: Seq<HttpRouteView>, upto: int) -> bool {
    exists|r: int| 0 <= r < upto && r < table.len() && takes_all(#[trigger] table[r])
}

/// Whether some request can reach rule `rule` of route `route`.
pub open spec fn reachable(table: Seq<HttpRouteView>, route: int, rule: int) -> bool {
    !shadowed_before(table, route) && !shadowed_within(table[route], rule)
}

/// A rule that cannot be reached is selected by no request: whatever the
/// request, a rule before it takes it first.
pub proof fn lemma_unreachable_never_selected(
    table: Seq<HttpRouteView>,
    req: RequestView,
    route: int,
    rule: int,
)
    requires
        0 <= route < table.len(),
        0 <= rule < table[route].rules.len(),
        !reachable(table, route, rule),
    ensures
        selected_rule(table, req) != Some(RuleRef { route, rule }),
{
    if selected_rule(table, req) == Some(RuleRef { route, rule }) {
        let flags = candidate_flags(table, req);
        lemma_first_true(flags);
        let k = first_true(flags)->0;
        lemma_candidate_position(table, req, k);
        let before = candidates(table.take(route), req).len();
        if shadowed_within(table[route], rule) {
            let j = choose|j: int|
                0 <= j < rule && j < table[route].rules.len() && (#[trigger] table[route].rules[j]).matches.len()
                    == 0;
            lemma_route_candidates(table, req, route);
            assert(candidates(table, req)[before + j] == (RuleRef { route, rule: j }));
            assert(flags[before + j]);
        } else {
            let r = choose|r: int| 0 <= r < route && r < table.len() && takes_all(#[trigger] table[r]);
            let j = choose|j: int|
                0 <= j < table[r].rules.len() && (#[trigger] table[r].rules[j]).matches.len() == 0;
            lemma_route_candidates(table, req, r);
            lemma_candidates_grow(table, req, r + 1, route);
            let ahead = candidates(table.take(r), req).len();
            assert(candidates(table, req)[ahead + j] == (RuleRef { route: r, rule: j }));
            assert(flags[ahead + j]);
        }
    }
}

/// Whether a rule meets the invariants.
pub open spec fn rule_valid(rule: RuleView, reachable: bool) -> bool {
    &&& forall|i: int| 0 <= i < rule.matches.len() ==> (#[trigger] rule.matches[i]).predicates.len() > 0
    &&& reachable ==> rule.backends.backends().len() > 0
    &&& forall|i: int|
        0 <= i < rule.backends.backends().len() ==> (#[trigger] rule.backends.backends()[i]).weight > 0
}

/// Whether every rule of a route table meets the invariants.
pub open spec fn table_valid(table: Seq<HttpRouteView>) -> bool {
    forall|r: int, j: int|
        0 <= r < table.len() && 0 <= j < table[r].rules.len() ==> rule_valid(
            #[trigger] table[r].rules[j],
            reachable(table, r, j),
        )
}

/// Whether a policy meets the invariants in each of its route tables.
pub open spec fn policy_valid(policy: ClientPolicyView) -> bool {
    match policy.protocol {
        ProxyProtocolView::Detect { timeout, http1_routes, http2_routes } => table_valid(http1_routes)
            && table_valid(http2_routes),
        ProxyProtocolView::Http1(routes) => table_valid(routes),
        ProxyProtocolView::Http2(routes) => table_valid(routes),
    }
}

/// What is wrong with a rule, if anything. The invariants are tested in the
/// order of the variants of [`MalformedPolicy`].
pub open spec fn rule_defect(rule: RuleView, reachable: bool) -> Option<MalformedPolicy> {
    if exists|i: int| 0 <= i < rule.matches.len() && (#[trigger] rule.matches[i]).predicates.len() == 0 {
        Some(MalformedPolicy::EmptyMatchSet)
    } else if reachable && rule.backends.backends().len() == 0 {
        Some(MalformedPolicy::NoBackends)
    } else if exists|i: int|
        0 <= i < rule.backends.backends().len() && (#[trigger] rule.backends.backends()[i]).weight == 0 {
        Some(MalformedPolicy::ZeroWeight)
    } else {
        None
    }
}

/// The defect of the first malformed rule among the first `upto` rules of
/// route `route`.
pub open spec fn rules_defect(table: Seq<HttpRouteView>, route: int, upto: int) -> Option<
    MalformedPolicy,
>
    decreases upto,
{
    if upto <= 0 {
        None
    } else {
        match rules_defect(table, route, upto - 1) {
            Some(d) => Some(d),
            None => rule_defect(table[route].rules[upto - 1], reachable(table, route, upto - 1)),
        }
    }
}

/// The defect of the first malformed rule among the first `upto` routes.
pub open spec fn routes_defect(table: Seq<HttpRouteView>, upto: int) -> Option<MalformedPolicy>
    decreases upto,
{
    if upto <= 0 {
        None
    } else {
        match routes_defect(table, upto - 1) {
            Some(d) => Some(d),
            None => rules_defect(table, upto - 1, table[upto - 1].rules.len() as int),
        }
    }
}

/// The defect of the first malformed rule of a route table, in table order.
pub open spec fn table_defect(table: Seq<HttpRouteView>) -> Option<MalformedPolicy> {
    routes_defect(table, table.len() as int)
}

/// The defect that validation reports: that of the first malformed rule, the
/// HTTP/1 table of a detecting policy before its HTTP/2 table.
pub open spec fn policy_defect(policy: ClientPolicyView) -> Option<MalformedPolicy> {
    match policy.protocol {
        ProxyProtocolView::Detect { timeout, http1_routes, http2_routes } => match table_defect(
            http1_routes,
        ) {
            Some(d) => Some(d),
            None => table_defect(http2_routes),
        },
        ProxyProtocolView::Http1(routes) => table_defect(routes),
        ProxyProtocolView::Http2(routes) => table_defect(routes),
    }
}

/// A rule has a defect exactly where it does not meet the invariants.
pub proof fn lemma_rule_defect(rule: RuleView, reachable: bool)
    ensures
        rule_defect(rule, reachable) is None <==> rule_valid(rule, reachable),
{
    if rule_valid(rule, reachable) {
        assert(rule_defect(rule, reachable) is None);
    }
}

proof fn lemma_rules_defect(table: Seq<HttpRouteView>, route: int, upto: int)
    requires
        0 <= route < table.len(),
        0 <= upto <= table[route].rules.len(),
    ensures
        rules_defect(table, route, upto) is None <==> forall|j: int|
            0 <= j < upto ==> rule_valid(#[trigger] table[route].rules[j], reachable(table, route, j)),
    decreases upto,
{
    if upto > 0 {
        lemma_rules_defect(table, route, upto - 1);
        lemma_rule_defect(table[route].rules[upto - 1], reachable(table, route, upto - 1));
    }
}

proof fn lemma_routes_defect(table: Seq<HttpRouteView>, upto: int)
    requires
        0 <= upto <= table.len(),
    ensures
        routes_defect(table, upto) is None <==> forall|r: int, j: int|
            0 <= r < upto && 0 <= j < table[r].rules.len() ==> rule_valid(
                #[trigger] table[r].rules[j],
                reachable(table, r, j),
            ),
    decreases upto,
{
    if upto > 0 {
        lemma_routes_defect(table, upto - 1);
        lemma_rules_defect(table, upto - 1, table[upto - 1].rules.len() as int);
    }
}

/// A policy has a defect exactly where it is not valid.
pub proof fn lemma_policy_defect(policy: ClientPolicyView)
    ensures
        policy_defect(policy) is None <==> policy_valid(policy),
{
    match policy.protocol {
        ProxyProtocolView::Detect { timeout, http1_routes, http2_routes } => {
            lemma_routes_defect(http1_routes, http1_routes.len() as int);
            lemma_routes_defect(http2_routes, http2_routes.len() as int);
        },
        ProxyProtocolView::Http1(routes) => {
            lemma_routes_defect(routes, routes.len() as int);
        },
        ProxyProtocolView::Http2(routes) => {
            lemma_routes_defect(routes, routes.len() as int);
        },
    }
}

/// Tests one rule against the invariants.
pub fn check_rule(rule: &Rule, reachable: bool) -> (r: Option<MalformedPolicy>)
    ensures
        r == rule_defect(rule@, reachable),
{
    let mut i: usize = 0;
    while i < rule.matches.len()
        invariant
            i <= rule.matches.len(),
            forall|k: int| 0 <= k < i ==> (#[trigger] rule@.matches[k]).predicates.len() > 0,
        decreases rule.matches.len() - i,
    {
        if rule.matches[i].predicates.len() == 0 {
            assert(rule@.matches[i as int].predicates.len() == 0);
            return Some(MalformedPolicy::EmptyMatchSet);
        }
        i += 1;
    }
    let backends = rule.backends.backends();
    assert(rule@.backends.backends().len() == backends@.len());
    if reachable && backends.len() == 0 {
        return Some(MalformedPolicy::NoBackends);
    }
    let mut i: usize = 0;
    while i < backends.len()
        invariant
            i <= backends.len(),
            crate::distribution::backends_view(backends@) == rule@.backends.backends(),
            forall|k: int|
                0 <= k < rule@.matches.len() ==> (#[trigger] rule@.matches[k]).predicates.len() > 0,
            !(reachable && rule@.backends.backends().len() == 0),
            forall|k: int| 0 <= k < i ==> (#[trigger] rule@.backends.backends()[k]).weight > 0,
        decreases backends.len() - i,
    {
        if backends[i].weight == 0 {
            assert(rule@.backends.backends()[i as int].weight == 0);
            return Some(MalformedPolicy::ZeroWeight);
        }
        i += 1;
    }
    None
}

/// Tests one route table against the invariants.
pub fn check_table(routes: &Vec<HttpRoute>) -> (r: Option<MalformedPolicy>)
    ensures
        r == table_defect(table_view(routes@)),
{
    let ghost table = table_view(routes@);
    let mut blocked = false;
    let mut n: usize = 0;
    while n < routes.len()
        invariant
            n <= routes.len(),
            table == table_view(routes@),
            blocked == shadowed_before(table, n as int),
            routes_defect(table, n as int) is None,
        decreases routes.len() - n,
    {
        let route = &routes[n];
        let mut open_rule = false;
        let mut j: usize = 0;
        while j < route.rules.len()
            invariant
                j <= route.rules.len(),
                n < routes.len(),
                table == table_view(routes@),
                *route == routes@[n as int],
                blocked == shadowed_before(table, n as int),
                open_rule == shadowed_within(table[n as int], j as int),
                routes_defect(table, n as int) is None,
                rules_defect(table, n as int, j as int) is None,
            decreases route.rules.len() - j,
        {
            let rule = &route.rules[j];
            assert(rule@ == table[n as int].rules[j as int]);
            let defect = check_rule(rule, !blocked && !open_rule);
            if defect.is_some() {
                proof {
                    lemma_first_defect(table, n as int, j as int);
                }
                return defect;
            }
            if rule.matches.len() == 0 {
                open_rule = true;
            }
            proof {
                let route_view = table[n as int];
                if shadowed_within(route_view, j as int + 1) && !shadowed_within(route_view, j as int) {
                    let w = choose|w: int|
                        0 <= w < j as int + 1 && w < route_view.rules.len() && (
                        #[trigger] route_view.rules[w]).matches.len() == 0;
                    assert(w == j);
                }
                if rule.matches.len() == 0 {
                    assert(route_view.rules[j as int].matches.len() == 0);
                }
            }
            j += 1;
        }
        if route.hosts.len() == 0 && open_rule {
            blocked = true;
        }
        proof {
            let upto = n as int + 1;
            if takes_all(table[n as int]) {
                assert(shadowed_before(table, upto));
            }
            if shadowed_before(table, upto) && !shadowed_before(table, n as int) {
                let w = choose|w: int| 0 <= w < upto && w < table.len() && takes_all(#[trigger] table[w]);
                assert(w == n);
            }
        }
        n += 1;
    }
    None
}

/// A defect of rule `rule` of route `route`, with none before it, is the
/// defect of the table.
proof fn lemma_first_defect(table: Seq<HttpRouteView>, route: int, rule: int)
    requires
        0 <= route < table.len(),
        0 <= rule < table[route].rules.len(),
        routes_defect(table, route) is None,
        rules_defect(table, route, rule) is None,
        rule_defect(table[route].rules[rule], reachable(table, route, rule)) is Some,
    ensures
        table_defect(table) == rule_defect(table[route].rules[rule], reachable(table, route, rule)),
{
    let d = rule_defect(table[route].rules[rule], reachable(table, route, rule));
    assert(rules_defect(table, route, rule + 1) == d);
    lemma_rules_defect_stays(table, route, rule + 1, table[route].rules.len() as int);
    assert(routes_defect(table, route + 1) == d);
    lemma_routes_defect_stays(table, route + 1, table.len() as int);
}

proof fn lemma_rules_defect_stays(table: Seq<HttpRouteView>, route: int, found: int, upto: int)
    requires
        0 <= found <= upto,
        rules_defect(table, route, found) is Some,
    ensures
        rules_defect(table, route, upto) == rules_defect(table, route, found),
    decreases upto - found,
{
    if found < upto {
        lemma_rules_defect_stays(table, route, found, upto - 1);
    }
}

proof fn lemma_routes_defect_stays(table: Seq<HttpRouteView>, found: int, upto: int)
    requires
        0 <= found <= upto,
        routes_defect(table, found) is Some,
    ensures
        routes_defect(table, upto) == routes_defect(table, found),
    decreases upto - found,
{
    if found < upto {
        lemma_routes_defect_stays(table, found, upto - 1);
    }
}

impl ClientPolicy {
    /// Validates the snapshot. A valid policy passes; a malformed one is
    /// reported with the defect of its first malformed rule.
    pub fn validate(&self) -> (r: Result<(), MalformedPolicy>)
        ensures
            r is Ok <==> policy_valid(self@),
            match r {
                Ok(_) => policy_defect(self@) is None,
                Err(d) => policy_defect(self@) == Some(d),
            },
    {
        proof {
            lemma_policy_defect(self@);
        }
        match &self.protocol {
            ProxyProtocol::Detect { timeout, http1_routes, http2_routes } => {
                match check_table(http1_routes) {
                    Some(d) => Err(d),
                    None => match check_table(http2_routes) {
                        Some(d) => Err(d),
                        None => Ok(()),
                    },
                }
            },
            ProxyProtocol::Http1(routes) => match check_table(routes) {
                Some(d) => Err(d),
                None => Ok(()),
            },
            ProxyProtocol::Http2(routes) => match check_table(routes) {
                Some(d) => Err(d),
                None => Ok(()),
            },
        }
    }
}

} // verus!
