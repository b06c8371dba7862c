use linkerd_proxy_core::errors::RoutingError;
use linkerd_proxy_core::patterns::Pattern;
use linkerd_proxy_core::policy::{
    ClientPolicy, Distribution, HeaderMatch, HttpRoute, MatchSet, Predicate, ProxyProtocol,
    RouteMetadata, Rule, ValueMatch, WeightedBackend,
};
use linkerd_proxy_core::request::{HeaderField, HttpVersion, Request};
use linkerd_proxy_core::resolve::resolve;

const AUTHORITY: &str = "policy.test.svc.cluster.local";
const AUTHORITY_WORLD: &str = "world.test.svc.cluster.local";
const AUTHORITY_SF: &str = "sf.test.svc.cluster.local";
const AUTHORITY_AUSTIN: &str = "austin.test.svc.cluster.local";
const HEADER: &str = "x-hello-city";

fn metadata(name: &str) -> RouteMetadata {
    RouteMetadata {
        group: "gateway.networking.k8s.io".to_string(),
        kind: "HTTPRoute".to_string(),
        name: name.to_string(),
        namespace: "test".to_string(),
        section: "".to_string(),
    }
}

fn backend(dst: &str, weight: u32) -> WeightedBackend {
    WeightedBackend { target: dst.to_string(), weight }
}

fn first_available(dst: &str) -> Distribution {
    Distribution::FirstAvailable(vec![backend(dst, 1)])
}

fn default_route(dst: &str) -> HttpRoute {
    HttpRoute {
        metadata: RouteMetadata {
            group: "".to_string(),
            kind: "default".to_string(),
            name: "default".to_string(),
            namespace: "".to_string(),
            section: "".to_string(),
        },
        hosts: Vec::new(),
        rules: vec![Rule {
            matches: Vec::new(),
            filters: Vec::new(),
            backends: first_available(dst),
        }],
    }
}

fn empty_route() -> HttpRoute {
    HttpRoute { metadata: metadata("empty"), hosts: Vec::new(), rules: Vec::new() }
}

fn default_policy(dst: &str) -> ClientPolicy {
    ClientPolicy {
        protocol: ProxyProtocol::Detect {
            timeout: 10,
            http1_routes: vec![default_route(dst)],
            http2_routes: vec![default_route(dst)],
        },
    }
}

fn get(authority: &str, header: Option<&str>) -> Request {
    let mut headers = Vec::new();
    if let Some(value) = header {
        headers.push(HeaderField {
            name: HEADER.as_bytes().to_vec(),
            value: value.as_bytes().to_vec(),
        });
    }
    Request {
        method: b"GET".to_vec(),
        authority: authority.as_bytes().to_vec(),
        path: b"/".to_vec(),
        headers,
    }
}

fn up(_: &WeightedBackend) -> bool {
    true
}

fn target(policy: &ClientPolicy, version: HttpVersion, req: &Request) -> Result<String, RoutingError> {
    resolve(policy, version, req, &up, 0).map(|found| found.target.target.clone())
}

#[test]
fn default_http1_route() {
    let dst = format!("{AUTHORITY}:{}", 8080);
    let policy = default_policy(&dst);
    assert!(policy.validate().is_ok());
    assert_eq!(target(&policy, HttpVersion::Http1, &get(AUTHORITY, None)), Ok(dst));
}

#[test]
fn empty_http1_route() {
    let dst = format!("{AUTHORITY}:{}", 8080);
    let policy = ClientPolicy {
        protocol: ProxyProtocol::Detect {
            timeout: 10,
            http1_routes: vec![empty_route()],
            http2_routes: vec![default_route(&dst)],
        },
    };
    assert_eq!(
        target(&policy, HttpVersion::Http1, &get(AUTHORITY, None)),
        Err(RoutingError::NoRouteMatched)
    );
    assert_eq!(target(&policy, HttpVersion::Http2, &get(AUTHORITY, None)), Ok(dst));
}

#[test]
fn default_http2_route() {
    let dst = format!("{AUTHORITY}:{}", 8080);
    let policy = default_policy(&dst);
    assert_eq!(target(&policy, HttpVersion::Http2, &get(AUTHORITY, None)), Ok(dst));
}

#[test]
fn empty_http2_route() {
    let dst = format!("{AUTHORITY}:{}", 8080);
    let policy = ClientPolicy {
        protocol: ProxyProtocol::Detect {
            timeout: 10,
            http1_routes: vec![default_route(&dst)],
            http2_routes: vec![empty_route()],
        },
    };
    assert_eq!(
        target(&policy, HttpVersion::Http2, &get(AUTHORITY, None)),
        Err(RoutingError::NoRouteMatched)
    );
    assert_eq!(target(&policy, HttpVersion::Http1, &get(AUTHORITY, None)), Ok(dst));
}

fn header_rule(value: ValueMatch, dst: &str) -> Rule {
    Rule {
        matches: vec![MatchSet {
            predicates: vec![Predicate::Header(HeaderMatch {
                name: HEADER.as_bytes().to_vec(),
                value,
            })],
        }],
        filters: Vec::new(),
        backends: first_available(dst),
    }
}

#[test]
fn header_based_routing() {
    let dst_world = format!("{AUTHORITY_WORLD}:{}", 8080);
    let dst_sf = format!("{AUTHORITY_SF}:{}", 8081);
    let dst_austin = format!("{AUTHORITY_AUSTIN}:{}", 8081);

    // The first rule that applies wins, so the rule that takes everything
    // stands last.
    let route = HttpRoute {
        metadata: metadata("hello"),
        hosts: Vec::new(),
        rules: vec![
            // x-hello-city: sf | x-hello-city: san francisco
            header_rule(ValueMatch::Regex(Pattern::new("sf|san francisco").unwrap()), &dst_sf),
            // x-hello-city: austin
            header_rule(ValueMatch::Exact("austin".to_string().into_bytes()), &dst_austin),
            // generic hello world
            Rule { matches: Vec::new(), filters: Vec::new(), backends: first_available(&dst_world) },
        ],
    };
    let policy = ClientPolicy {
        protocol: ProxyProtocol::Detect {
            timeout: 10,
            http1_routes: vec![route.clone()],
            http2_routes: vec![route],
        },
    };
    assert!(policy.validate().is_ok());
    let req = |header: Option<&str>| {
        target(&policy, HttpVersion::Http1, &get(AUTHORITY_WORLD, header)).expect("request")
    };

    assert_eq!(req(None), dst_world);

    // matches SF route
    assert_eq!(req(Some("sf")), dst_sf);

    // unknown header value matches default route
    assert_eq!(req(Some("paris")), dst_world);

    // matches austin route
    assert_eq!(req(Some("austin")), dst_austin);

    // also matches sf route regex
    assert_eq!(req(Some("san francisco")), dst_sf);
}

#[test]
fn catch_all_rule_first_takes_every_request() {
    let dst_world = format!("{AUTHORITY_WORLD}:{}", 8080);
    let dst_sf = format!("{AUTHORITY_SF}:{}", 8081);
    let dst_austin = format!("{AUTHORITY_AUSTIN}:{}", 8081);

    // With the rule that takes everything in the first place, no request
    // reaches the rules behind it.
    let route = HttpRoute {
        metadata: metadata("hello"),
        hosts: Vec::new(),
        rules: vec![
            // generic hello world
            Rule { matches: Vec::new(), filters: Vec::new(), backends: first_available(&dst_world) },
            // x-hello-city: sf | x-hello-city: san francisco
            header_rule(ValueMatch::Regex(Pattern::new("sf|san francisco").unwrap()), &dst_sf),
            // x-hello-city: austin
            header_rule(ValueMatch::Exact("austin".to_string().into_bytes()), &dst_austin),
        ],
    };
    let policy = ClientPolicy {
        protocol: ProxyProtocol::Detect {
            timeout: 10,
            http1_routes: vec![route.clone()],
            http2_routes: vec![route],
        },
    };
    assert!(policy.validate().is_ok());
    let req = |header: Option<&str>| {
        target(&policy, HttpVersion::Http1, &get(AUTHORITY_WORLD, header)).expect("request")
    };

    assert_eq!(req(None), dst_world);
    assert_eq!(req(Some("sf")), dst_world);
    assert_eq!(req(Some("paris")), dst_world);
    assert_eq!(req(Some("austin")), dst_world);
    assert_eq!(req(Some("san francisco")), dst_world);
}
