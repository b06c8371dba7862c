use linkerd_proxy_core::policy::{
    ClientPolicy, Distribution, HostMatch, HttpRoute, MatchSet, Predicate, ProxyProtocol,
    RouteMetadata, Rule, WeightedBackend,
};
use linkerd_proxy_core::matcher::select_rule;
use linkerd_proxy_core::request::Request;
use linkerd_proxy_core::validate::{check_rule, check_table, MalformedPolicy};

fn backends(weights: &[u32]) -> Distribution {
    Distribution::FirstAvailable(
        weights.iter().map(|w| WeightedBackend { target: "b".to_string(), weight: *w }).collect(),
    )
}

fn method(name: &str) -> MatchSet {
    MatchSet { predicates: vec![Predicate::Method(name.as_bytes().to_vec())] }
}

fn rule(matches: Vec<MatchSet>, weights: &[u32]) -> Rule {
    Rule { matches, filters: Vec::new(), backends: backends(weights) }
}

fn route(hosts: Vec<HostMatch>, rules: Vec<Rule>) -> HttpRoute {
    HttpRoute {
        metadata: RouteMetadata {
            group: "".to_string(),
            kind: "".to_string(),
            name: "".to_string(),
            namespace: "".to_string(),
            section: "".to_string(),
        },
        hosts,
        rules,
    }
}

#[test]
fn rule_with_an_empty_match_set_is_malformed() {
    let bad = rule(vec![method("GET"), MatchSet { predicates: Vec::new() }], &[1]);
    assert_eq!(check_rule(&bad, true), Some(MalformedPolicy::EmptyMatchSet));
    assert_eq!(check_rule(&bad, false), Some(MalformedPolicy::EmptyMatchSet));
    assert_eq!(check_rule(&rule(Vec::new(), &[1]), true), None);
    assert_eq!(check_rule(&rule(vec![method("GET")], &[1]), true), None);
}

#[test]
fn reachable_rule_needs_a_backend() {
    let bare = rule(vec![method("GET")], &[]);
    assert_eq!(check_rule(&bare, true), Some(MalformedPolicy::NoBackends));
    assert_eq!(check_rule(&bare, false), None);
}

#[test]
fn backend_needs_a_positive_weight() {
    assert_eq!(check_rule(&rule(Vec::new(), &[1, 0, 2]), true), Some(MalformedPolicy::ZeroWeight));
    assert_eq!(check_rule(&rule(Vec::new(), &[0]), false), Some(MalformedPolicy::ZeroWeight));
    assert_eq!(check_rule(&rule(Vec::new(), &[1, u32::MAX]), true), None);
}

#[test]
fn defects_are_tested_in_order() {
    let bad = Rule {
        matches: vec![MatchSet { predicates: Vec::new() }],
        filters: Vec::new(),
        backends: backends(&[]),
    };
    assert_eq!(check_rule(&bad, true), Some(MalformedPolicy::EmptyMatchSet));
    let table = vec![route(
        Vec::new(),
        vec![rule(vec![method("GET")], &[0]), rule(vec![method("PUT")], &[])],
    )];
    assert_eq!(check_table(&table), Some(MalformedPolicy::ZeroWeight));
}

#[test]
fn rule_behind_a_catch_all_of_its_route_is_unreachable() {
    let table = vec![route(
        vec![HostMatch::Exact(b"a.test".to_vec())],
        vec![rule(vec![method("GET")], &[1]), rule(Vec::new(), &[1]), rule(vec![method("PUT")], &[])],
    )];
    assert_eq!(check_table(&table), None);
    let table = vec![route(
        Vec::new(),
        vec![rule(vec![method("PUT")], &[]), rule(Vec::new(), &[1])],
    )];
    assert_eq!(check_table(&table), Some(MalformedPolicy::NoBackends));
}

#[test]
fn rule_behind_a_route_that_takes_everything_is_unreachable() {
    let table = vec![
        route(Vec::new(), vec![rule(Vec::new(), &[1])]),
        route(Vec::new(), vec![rule(vec![method("GET")], &[])]),
    ];
    assert_eq!(check_table(&table), None);
    // A catch-all behind a host filter does not take requests for other hosts.
    let table = vec![
        route(vec![HostMatch::Exact(b"a.test".to_vec())], vec![rule(Vec::new(), &[1])]),
        route(Vec::new(), vec![rule(vec![method("GET")], &[])]),
    ];
    assert_eq!(check_table(&table), Some(MalformedPolicy::NoBackends));
    // A route that takes every host but has no catch-all shadows nothing.
    let table = vec![
        route(Vec::new(), vec![rule(vec![method("GET")], &[1])]),
        route(Vec::new(), vec![rule(Vec::new(), &[])]),
    ];
    assert_eq!(check_table(&table), Some(MalformedPolicy::NoBackends));
}

#[test]
fn unreachable_rules_are_still_held_to_the_other_invariants() {
    let table = vec![
        route(Vec::new(), vec![rule(Vec::new(), &[1])]),
        route(Vec::new(), vec![rule(vec![MatchSet { predicates: Vec::new() }], &[1])]),
    ];
    assert_eq!(check_table(&table), Some(MalformedPolicy::EmptyMatchSet));
    let table = vec![
        route(Vec::new(), vec![rule(Vec::new(), &[1])]),
        route(Vec::new(), vec![rule(Vec::new(), &[0])]),
    ];
    assert_eq!(check_table(&table), Some(MalformedPolicy::ZeroWeight));
}

#[test]
fn policy_is_validated_table_by_table() {
    let good = vec![route(Vec::new(), vec![rule(Vec::new(), &[1])])];
    let no_backends = vec![route(Vec::new(), vec![rule(Vec::new(), &[])])];
    let zero = vec![route(Vec::new(), vec![rule(Vec::new(), &[0])])];
    let detect = |h1: &Vec<HttpRoute>, h2: &Vec<HttpRoute>| ClientPolicy {
        protocol: ProxyProtocol::Detect { timeout: 10, http1_routes: h1.clone(), http2_routes: h2.clone() },
    };
    assert_eq!(detect(&good, &good).validate(), Ok(()));
    assert_eq!(detect(&Vec::new(), &Vec::new()).validate(), Ok(()));
    assert_eq!(detect(&good, &zero).validate(), Err(MalformedPolicy::ZeroWeight));
    assert_eq!(detect(&no_backends, &zero).validate(), Err(MalformedPolicy::NoBackends));
    assert_eq!(detect(&zero, &no_backends).validate(), Err(MalformedPolicy::ZeroWeight));
    assert_eq!(ClientPolicy { protocol: ProxyProtocol::Http1(good.clone()) }.validate(), Ok(()));
    assert_eq!(
        ClientPolicy { protocol: ProxyProtocol::Http2(no_backends) }.validate(),
        Err(MalformedPolicy::NoBackends)
    );
}

#[test]
fn empty_route_is_valid() {
    let table = vec![route(Vec::new(), Vec::new())];
    assert_eq!(check_table(&table), None);
    assert_eq!(check_table(&Vec::new()), None);
}

#[test]
fn unreachable_rule_is_never_selected() {
    let table = vec![
        route(
            vec![HostMatch::Exact(b"a.test".to_vec())],
            vec![rule(vec![method("GET")], &[1]), rule(Vec::new(), &[1]), rule(vec![method("PUT")], &[])],
        ),
        route(Vec::new(), vec![rule(Vec::new(), &[1])]),
        route(Vec::new(), vec![rule(vec![method("PUT")], &[])]),
    ];
    assert_eq!(check_table(&table), None);
    for authority in ["a.test", "b.test", ""] {
        for verb in ["GET", "PUT", "POST"] {
            let req = Request {
                method: verb.as_bytes().to_vec(),
                authority: authority.as_bytes().to_vec(),
                path: b"/".to_vec(),
                headers: Vec::new(),
            };
            let picked = select_rule(&table, &req).unwrap();
            assert!(picked != (0, 2) && picked != (2, 0));
        }
    }
}
