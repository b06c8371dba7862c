use linkerd_proxy_core::errors::RoutingError;
use linkerd_proxy_core::policy::{
    ClientPolicy, Distribution, HttpRoute, ProxyProtocol, RouteMetadata, Rule, WeightedBackend,
};
use linkerd_proxy_core::request::{HttpVersion, Request};
use linkerd_proxy_core::resolve::resolve;
use std::cell::RefCell;

fn backend(target: &str, weight: u32) -> WeightedBackend {
    WeightedBackend { target: target.to_string(), weight }
}

fn abc() -> Vec<WeightedBackend> {
    vec![backend("A", 1), backend("B", 2), backend("C", 3)]
}

#[test]
fn first_available_skips_unavailable_backends() {
    let dist = Distribution::FirstAvailable(abc());
    for draw in [0, 1, 2, 7, u64::MAX] {
        assert_eq!(dist.select_with(&[false, true, true], draw), Ok(1));
        assert_eq!(dist.select(&|b: &WeightedBackend| b.target != "A", draw), Ok(1));
    }
    assert_eq!(dist.select_with(&[true, true, true], 5), Ok(0));
    assert_eq!(dist.select_with(&[false, false, true], 0), Ok(2));
}

#[test]
fn first_available_fails_when_all_are_unavailable() {
    let dist = Distribution::FirstAvailable(abc());
    assert_eq!(dist.select_with(&[false, false, false], 0), Err(RoutingError::NoBackendAvailable));
    assert_eq!(dist.select(&|_: &WeightedBackend| false, 0), Err(RoutingError::NoBackendAvailable));
    let none = Distribution::FirstAvailable(Vec::new());
    assert_eq!(none.select_with(&[], 0), Err(RoutingError::NoBackendAvailable));
    assert_eq!(none.select(&|_: &WeightedBackend| true, 0), Err(RoutingError::NoBackendAvailable));
}

#[test]
fn backend_without_a_flag_counts_as_unavailable() {
    let dist = Distribution::FirstAvailable(abc());
    assert_eq!(dist.select_with(&[false], 0), Err(RoutingError::NoBackendAvailable));
    assert_eq!(dist.select_with(&[false, true], 0), Ok(1));
    assert_eq!(dist.select_with(&[false, false, false, true], 0), Err(RoutingError::NoBackendAvailable));
    let random = Distribution::RandomAvailable(abc());
    assert_eq!(random.select_with(&[], 3), Err(RoutingError::NoBackendAvailable));
    assert_eq!(random.select_with(&[false, true], 5), Ok(1));
}

#[test]
fn first_available_stops_asking_at_the_first_available() {
    let asked = RefCell::new(Vec::new());
    let dist = Distribution::FirstAvailable(abc());
    let picked = dist.select(
        &|b: &WeightedBackend| {
            asked.borrow_mut().push(b.target.clone());
            b.target == "B"
        },
        0,
    );
    assert_eq!(picked, Ok(1));
    assert_eq!(*asked.borrow(), vec!["A".to_string(), "B".to_string()]);
}

#[test]
fn availability_is_asked_anew_for_every_selection() {
    let up = RefCell::new(vec![true, true, true]);
    let dist = Distribution::FirstAvailable(abc());
    let oracle = |b: &WeightedBackend| up.borrow()[(b.weight - 1) as usize];
    assert_eq!(dist.select(&oracle, 0), Ok(0));
    up.borrow_mut()[0] = false;
    assert_eq!(dist.select(&oracle, 0), Ok(1));
    up.borrow_mut()[1] = false;
    up.borrow_mut()[2] = false;
    assert_eq!(dist.select(&oracle, 0), Err(RoutingError::NoBackendAvailable));
}

#[test]
fn weighted_draw_follows_the_weights() {
    let dist = Distribution::RandomAvailable(abc());
    let all = [true, true, true];
    let picks: Vec<usize> = (0..6).map(|draw| dist.select_with(&all, draw).unwrap()).collect();
    assert_eq!(picks, vec![0, 1, 1, 2, 2, 2]);
    assert_eq!(dist.select_with(&all, 6), Ok(0));
    assert_eq!(dist.select_with(&all, 11), Ok(2));
    // u64::MAX = 6 * 3074457345618258602 + 3
    assert_eq!(dist.select_with(&all, u64::MAX), Ok(2));
}

#[test]
fn weighted_draw_leaves_unavailable_backends_out() {
    let dist = Distribution::RandomAvailable(abc());
    let some = [true, false, true];
    let picks: Vec<usize> = (0..4).map(|draw| dist.select_with(&some, draw).unwrap()).collect();
    assert_eq!(picks, vec![0, 2, 2, 2]);
    assert_eq!(dist.select_with(&some, 4), Ok(0));
    for draw in 0..20 {
        assert_eq!(dist.select_with(&[false, true, false], draw), Ok(1));
        assert_eq!(dist.select(&|b: &WeightedBackend| b.target == "C", draw), Ok(2));
    }
}

#[test]
fn weighted_draw_fails_on_an_empty_pool() {
    let dist = Distribution::RandomAvailable(abc());
    assert_eq!(dist.select_with(&[false, false, false], 9), Err(RoutingError::NoBackendAvailable));
    assert_eq!(dist.select(&|_: &WeightedBackend| false, 9), Err(RoutingError::NoBackendAvailable));
    let none = Distribution::RandomAvailable(Vec::new());
    assert_eq!(none.select_with(&[], 9), Err(RoutingError::NoBackendAvailable));
    let weightless = Distribution::RandomAvailable(vec![backend("A", 0), backend("B", 0)]);
    assert_eq!(weightless.select_with(&[true, true], 9), Err(RoutingError::NoBackendAvailable));
}

#[test]
fn weighted_draw_never_takes_a_weightless_backend() {
    let dist = Distribution::RandomAvailable(vec![backend("A", 0), backend("B", 2), backend("C", 0)]);
    for draw in 0..10 {
        assert_eq!(dist.select_with(&[true, true, true], draw), Ok(1));
    }
}

#[test]
fn weighted_draw_holds_large_weights() {
    let dist = Distribution::RandomAvailable(vec![
        backend("A", u32::MAX),
        backend("B", u32::MAX),
        backend("C", 1),
    ]);
    let all = [true, true, true];
    assert_eq!(dist.select_with(&all, 0), Ok(0));
    assert_eq!(dist.select_with(&all, u32::MAX as u64 - 1), Ok(0));
    assert_eq!(dist.select_with(&all, u32::MAX as u64), Ok(1));
    assert_eq!(dist.select_with(&all, 2 * (u32::MAX as u64) - 1), Ok(1));
    assert_eq!(dist.select_with(&all, 2 * (u32::MAX as u64)), Ok(2));
    assert_eq!(dist.select_with(&all, 2 * (u32::MAX as u64) + 1), Ok(0));
}

fn policy(dist: Distribution) -> ClientPolicy {
    ClientPolicy {
        protocol: ProxyProtocol::Http1(vec![HttpRoute {
            metadata: RouteMetadata {
                group: "g".to_string(),
                kind: "k".to_string(),
                name: "n".to_string(),
                namespace: "ns".to_string(),
                section: "s".to_string(),
            },
            hosts: Vec::new(),
            rules: vec![Rule { matches: Vec::new(), filters: Vec::new(), backends: dist }],
        }]),
    }
}

fn get() -> Request {
    Request { method: b"GET".to_vec(), authority: b"a".to_vec(), path: b"/".to_vec(), headers: Vec::new() }
}

#[test]
fn resolution_names_route_rule_and_backend() {
    let policy = policy(Distribution::FirstAvailable(abc()));
    let found = resolve(&policy, HttpVersion::Http1, &get(), &|b: &WeightedBackend| b.target == "C", 0)
        .unwrap();
    assert_eq!((found.route, found.rule, found.backend), (0, 0, 2));
    assert_eq!(found.target.target, "C");
    assert_eq!(found.target.weight, 3);
    assert_eq!(found.metadata.name, "n");
    assert_eq!(found.metadata.namespace, "ns");
    assert!(found.filters.is_empty());
}

#[test]
fn resolution_fails_without_an_available_backend() {
    let policy = policy(Distribution::FirstAvailable(abc()));
    let failed = resolve(&policy, HttpVersion::Http1, &get(), &|_: &WeightedBackend| false, 0);
    assert_eq!(failed.err(), Some(RoutingError::NoBackendAvailable));
}

#[test]
fn resolution_does_not_ask_when_no_rule_applies() {
    let asked = RefCell::new(0);
    let policy = ClientPolicy { protocol: ProxyProtocol::Http2(Vec::new()) };
    let failed = resolve(
        &policy,
        HttpVersion::Http2,
        &get(),
        &|_: &WeightedBackend| {
            *asked.borrow_mut() += 1;
            true
        },
        0,
    );
    assert_eq!(failed.err(), Some(RoutingError::NoRouteMatched));
    assert_eq!(*asked.borrow(), 0);
}

#[test]
fn health_changes_after_resolution_do_not_change_the_rule() {
    let up = RefCell::new(true);
    let policy = policy(Distribution::FirstAvailable(abc()));
    let oracle = |_: &WeightedBackend| *up.borrow();
    let before = resolve(&policy, HttpVersion::Http1, &get(), &oracle, 0).unwrap();
    assert_eq!((before.route, before.rule, before.backend), (0, 0, 0));
    *up.borrow_mut() = false;
    assert_eq!((before.route, before.rule, before.backend), (0, 0, 0));
    let after = resolve(&policy, HttpVersion::Http1, &get(), &oracle, 0);
    assert_eq!(after.err(), Some(RoutingError::NoBackendAvailable));
}

#[test]
fn fixed_protocol_binds_to_its_table_whatever_the_version() {
    let policy = policy(Distribution::FirstAvailable(abc()));
    let up = |_: &WeightedBackend| true;
    assert!(resolve(&policy, HttpVersion::Http1, &get(), &up, 0).is_ok());
    assert!(resolve(&policy, HttpVersion::Http2, &get(), &up, 0).is_ok());
}

#[test]
fn weighted_draw_asks_about_every_backend_once() {
    let asked = RefCell::new(Vec::new());
    let dist = Distribution::RandomAvailable(abc());
    let picked = dist.select(
        &|b: &WeightedBackend| {
            asked.borrow_mut().push(b.target.clone());
            b.target != "B"
        },
        0,
    );
    assert_eq!(picked, Ok(0));
    assert_eq!(*asked.borrow(), vec!["A".to_string(), "B".to_string(), "C".to_string()]);
}

#[test]
fn first_available_asks_about_every_backend_before_it_fails() {
    let asked = RefCell::new(Vec::new());
    let dist = Distribution::FirstAvailable(abc());
    let picked = dist.select(
        &|b: &WeightedBackend| {
            asked.borrow_mut().push(b.target.clone());
            false
        },
        0,
    );
    assert_eq!(picked, Err(RoutingError::NoBackendAvailable));
    assert_eq!(*asked.borrow(), vec!["A".to_string(), "B".to_string(), "C".to_string()]);
}
