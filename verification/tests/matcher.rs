use linkerd_proxy_core::matcher::{
    header_matches, host_len, host_matches, match_set_matches, path_matches, route_accepts,
    rule_applies, select_rule, value_matches,
};
use linkerd_proxy_core::patterns::{InvalidPattern, Pattern};
use linkerd_proxy_core::policy::{
    Distribution, HeaderMatch, HostMatch, HttpRoute, MatchSet, PathMatch, Predicate,
    RouteMetadata, Rule, ValueMatch, WeightedBackend,
};
use linkerd_proxy_core::request::{HeaderField, Request};

fn request(method: &str, authority: &str, path: &str, headers: &[(&str, &[u8])]) -> Request {
    Request {
        method: method.as_bytes().to_vec(),
        authority: authority.as_bytes().to_vec(),
        path: path.as_bytes().to_vec(),
        headers: headers
            .iter()
            .map(|(name, value)| HeaderField {
                name: name.as_bytes().to_vec(),
                value: value.to_vec(),
            })
            .collect(),
    }
}

fn re(source: &str) -> Pattern {
    Pattern::new(source).expect("a regular expression")
}

fn matches_fully(source: &str, value: &[u8]) -> bool {
    re(source).matches_fully(value)
}

fn header(name: &str, value: ValueMatch) -> HeaderMatch {
    HeaderMatch { name: name.as_bytes().to_vec(), value }
}

fn rule(matches: Vec<MatchSet>, dst: &str) -> Rule {
    Rule {
        matches,
        filters: Vec::new(),
        backends: Distribution::FirstAvailable(vec![WeightedBackend {
            target: dst.to_string(),
            weight: 1,
        }]),
    }
}

fn route(hosts: Vec<HostMatch>, rules: Vec<Rule>) -> HttpRoute {
    HttpRoute {
        metadata: RouteMetadata {
            group: "gateway.networking.k8s.io".to_string(),
            kind: "HTTPRoute".to_string(),
            name: "r".to_string(),
            namespace: "test".to_string(),
            section: "".to_string(),
        },
        hosts,
        rules,
    }
}

fn city(value: ValueMatch) -> MatchSet {
    MatchSet { predicates: vec![Predicate::Header(header("x-hello-city", value))] }
}

#[test]
fn exact_header_values_are_case_sensitive() {
    let test = header("x-hello-city", ValueMatch::Exact(b"austin".to_vec()));
    assert!(header_matches(&test, &request("GET", "a", "/", &[("x-hello-city", b"austin")])));
    assert!(!header_matches(&test, &request("GET", "a", "/", &[("x-hello-city", b"Austin")])));
    assert!(!header_matches(&test, &request("GET", "a", "/", &[("x-hello-city", b"AUSTIN")])));
    assert!(!header_matches(&test, &request("GET", "a", "/", &[("x-hello-city", b"austin ")])));
}

#[test]
fn regex_header_values_are_case_sensitive() {
    let test = header("x-hello-city", ValueMatch::Regex(re("sf|san francisco")));
    assert!(header_matches(&test, &request("GET", "a", "/", &[("x-hello-city", b"sf")])));
    assert!(!header_matches(&test, &request("GET", "a", "/", &[("x-hello-city", b"SF")])));
    assert!(!header_matches(&test, &request("GET", "a", "/", &[("x-hello-city", b"San Francisco")])));
}

#[test]
fn header_names_ignore_case() {
    let test = header("X-Hello-City", ValueMatch::Exact(b"austin".to_vec()));
    assert!(header_matches(&test, &request("GET", "a", "/", &[("x-hello-city", b"austin")])));
    let test = header("x-hello-city", ValueMatch::Regex(re("sf")));
    assert!(header_matches(&test, &request("GET", "a", "/", &[("X-HELLO-CITY", b"sf")])));
}

#[test]
fn absent_header_fails_every_test() {
    let none = request("GET", "a", "/", &[]);
    let other = request("GET", "a", "/", &[("x-hello-town", b"austin")]);
    for value in [
        ValueMatch::Exact(b"austin".to_vec()),
        ValueMatch::Exact(Vec::new()),
        ValueMatch::Regex(re("austin")),
        ValueMatch::Regex(re(".*")),
        ValueMatch::Present,
    ] {
        let test = header("x-hello-city", value);
        assert!(!header_matches(&test, &none));
        assert!(!header_matches(&test, &other));
    }
}

#[test]
fn present_takes_any_value() {
    let test = header("x-hello-city", ValueMatch::Present);
    assert!(header_matches(&test, &request("GET", "a", "/", &[("x-hello-city", b"")])));
    assert!(header_matches(&test, &request("GET", "a", "/", &[("x-hello-city", &[0xff, 0x00])])));
}

#[test]
fn any_line_of_a_repeated_header_may_match() {
    let test = header("x-hello-city", ValueMatch::Exact(b"austin".to_vec()));
    let req = request("GET", "a", "/", &[("x-hello-city", b"paris"), ("x-hello-city", b"austin")]);
    assert!(header_matches(&test, &req));
}

#[test]
fn regex_matches_the_whole_value_only() {
    assert!(matches_fully("sf|san francisco", b"sf"));
    assert!(matches_fully("sf|san francisco", b"san francisco"));
    assert!(!matches_fully("sf|san francisco", b"paris"));
    assert!(!matches_fully("sf|san francisco", b"sfo"));
    assert!(!matches_fully("sf|san francisco", b"in sf"));
    assert!(!matches_fully("sf", b""));
    assert!(matches_fully("", b""));
    assert!(matches_fully("a*", b"aaa"));
}

#[test]
fn regex_never_matches_invalid_utf8() {
    assert!(!matches_fully(".*", &[0xff, 0xfe]));
    assert!(!matches_fully("", &[0x80]));
    assert!(!value_matches(&ValueMatch::Regex(re(".*")), &[0xc3]));
    assert!(value_matches(&ValueMatch::Regex(re(".*")), "caf\u{e9}".as_bytes()));
}

#[test]
fn text_that_does_not_compile_is_no_pattern() {
    assert_eq!(Pattern::new("(").err(), Some(InvalidPattern));
    assert_eq!(Pattern::new("[").err(), Some(InvalidPattern));
    assert_eq!(Pattern::new("a{2,1}").err(), Some(InvalidPattern));
    assert_eq!(Pattern::new("sf|san francisco").unwrap().as_str(), "sf|san francisco");
    assert_eq!(Pattern::new("").unwrap().as_str(), "");
}

#[test]
fn every_way_to_match_the_whole_value_counts() {
    assert!(matches_fully("ab|a", b"ab"));
    assert!(matches_fully("a|ab", b"ab"));
    assert!(matches_fully("a*?", b"aaa"));
    assert!(matches_fully("(a|ab)(c|bcd)", b"abcd"));
    assert!(!matches_fully("a|ab", b"abc"));
}

#[test]
fn flags_and_anchors_of_a_pattern_stay_its_own() {
    assert!(matches_fully("(?i)sf", b"SF"));
    assert!(matches_fully("^sf$", b"sf"));
    assert!(matches_fully("(?m)^sf$", b"sf"));
    assert!(!matches_fully("(?m)^sf$", b"sf\nsf"));
    assert!(!matches_fully("sf", b"sf\n"));
    assert!(matches_fully("sf\\n", b"sf\n"));
    assert_eq!(Pattern::new("a)(b").err(), Some(InvalidPattern));
}

#[test]
fn host_is_authority_without_port() {
    assert_eq!(host_len(b"example.com:8080"), 11);
    assert_eq!(host_len(b"example.com"), 11);
    assert_eq!(host_len(b"example.com:"), 11);
    assert_eq!(host_len(b"[::1]:80"), 5);
    assert_eq!(host_len(b"[::1]"), 5);
    assert_eq!(host_len(b"8080"), 4);
    assert_eq!(host_len(b":8080"), 0);
    assert_eq!(host_len(b""), 0);
}

#[test]
fn host_patterns() {
    let exact = HostMatch::Exact(b"example.com".to_vec());
    assert!(host_matches(&exact, b"example.com"));
    assert!(host_matches(&exact, b"EXAMPLE.com:443"));
    assert!(!host_matches(&exact, b"www.example.com"));
    assert!(!host_matches(&exact, b"example.org"));
    let suffix = HostMatch::Suffix(b"example.com".to_vec());
    assert!(host_matches(&suffix, b"www.example.com"));
    assert!(host_matches(&suffix, b"a.b.Example.Com:80"));
    assert!(!host_matches(&suffix, b"example.com"));
    assert!(!host_matches(&suffix, b".example.com"));
    assert!(!host_matches(&suffix, b"wwwexample.com"));
}

#[test]
fn route_without_hosts_takes_any_authority() {
    let open = route(Vec::new(), Vec::new());
    assert!(route_accepts(&open, b"anything:1"));
    assert!(route_accepts(&open, b""));
    let closed = route(
        vec![HostMatch::Exact(b"a.test".to_vec()), HostMatch::Suffix(b"b.test".to_vec())],
        Vec::new(),
    );
    assert!(route_accepts(&closed, b"a.test"));
    assert!(route_accepts(&closed, b"x.b.test:80"));
    assert!(!route_accepts(&closed, b"c.test"));
}

#[test]
fn path_tests() {
    assert!(path_matches(&PathMatch::Exact(b"/a/b".to_vec()), b"/a/b"));
    assert!(!path_matches(&PathMatch::Exact(b"/a/b".to_vec()), b"/a/b/"));
    assert!(!path_matches(&PathMatch::Exact(b"/a/b".to_vec()), b"/A/b"));
    let prefix = PathMatch::Prefix(b"/foo".to_vec());
    assert!(path_matches(&prefix, b"/foo"));
    assert!(path_matches(&prefix, b"/foo/"));
    assert!(path_matches(&prefix, b"/foo/bar"));
    assert!(!path_matches(&prefix, b"/foobar"));
    assert!(!path_matches(&prefix, b"/fo"));
    let root = PathMatch::Prefix(b"/".to_vec());
    assert!(path_matches(&root, b"/"));
    assert!(path_matches(&root, b"/anything"));
    assert!(!path_matches(&root, b""));
    let users = PathMatch::Regex(re("/users/[0-9]+"));
    assert!(path_matches(&users, b"/users/42"));
    assert!(!path_matches(&users, b"/users/42/posts"));
    assert!(!path_matches(&users, b"/users/"));
}

#[test]
fn match_set_is_a_conjunction() {
    let set = MatchSet {
        predicates: vec![
            Predicate::Method(b"GET".to_vec()),
            Predicate::Path(PathMatch::Prefix(b"/api".to_vec())),
            Predicate::Header(header("x-env", ValueMatch::Exact(b"prod".to_vec()))),
        ],
    };
    assert!(match_set_matches(&set, &request("GET", "a", "/api/v1", &[("x-env", b"prod")])));
    assert!(!match_set_matches(&set, &request("POST", "a", "/api/v1", &[("x-env", b"prod")])));
    assert!(!match_set_matches(&set, &request("get", "a", "/api/v1", &[("x-env", b"prod")])));
    assert!(!match_set_matches(&set, &request("GET", "a", "/v1", &[("x-env", b"prod")])));
    assert!(!match_set_matches(&set, &request("GET", "a", "/api/v1", &[("x-env", b"dev")])));
    assert!(!match_set_matches(&set, &request("GET", "a", "/api/v1", &[])));
}

#[test]
fn empty_match_set_holds_of_every_request() {
    let set = MatchSet { predicates: Vec::new() };
    assert!(match_set_matches(&set, &request("", "", "", &[])));
    assert!(match_set_matches(&set, &request("DELETE", "x", "/y", &[("z", b"w")])));
}

#[test]
fn rule_is_a_disjunction_of_match_sets() {
    let either = rule(
        vec![
            city(ValueMatch::Exact(b"austin".to_vec())),
            MatchSet { predicates: vec![Predicate::Method(b"PUT".to_vec())] },
        ],
        "d",
    );
    assert!(rule_applies(&either, &request("GET", "a", "/", &[("x-hello-city", b"austin")])));
    assert!(rule_applies(&either, &request("PUT", "a", "/", &[])));
    assert!(!rule_applies(&either, &request("GET", "a", "/", &[])));
    let always = rule(Vec::new(), "d");
    assert!(rule_applies(&always, &request("GET", "a", "/", &[])));
}

#[test]
fn first_matching_rule_wins() {
    let table = vec![
        route(
            Vec::new(),
            vec![
                rule(vec![city(ValueMatch::Exact(b"austin".to_vec()))], "austin"),
                rule(vec![city(ValueMatch::Present)], "any-city"),
            ],
        ),
        route(Vec::new(), vec![rule(Vec::new(), "world"), rule(Vec::new(), "never")]),
    ];
    assert_eq!(select_rule(&table, &request("GET", "a", "/", &[("x-hello-city", b"austin")])), Some((0, 0)));
    assert_eq!(select_rule(&table, &request("GET", "a", "/", &[("x-hello-city", b"paris")])), Some((0, 1)));
    assert_eq!(select_rule(&table, &request("GET", "a", "/", &[])), Some((1, 0)));
}

#[test]
fn catch_all_rule_takes_whatever_reaches_it() {
    let table = vec![route(
        Vec::new(),
        vec![rule(vec![city(ValueMatch::Exact(b"austin".to_vec()))], "austin"), rule(Vec::new(), "world")],
    )];
    for req in [
        request("GET", "a", "/", &[]),
        request("POST", "b:1", "/x/y", &[("x-hello-city", b"paris")]),
        request("", "", "", &[("other", &[0xff])]),
    ] {
        assert_eq!(select_rule(&table, &req), Some((0, 1)));
    }
}

#[test]
fn host_filter_skips_routes() {
    let table = vec![
        route(vec![HostMatch::Exact(b"a.test".to_vec())], vec![rule(Vec::new(), "a")]),
        route(vec![HostMatch::Suffix(b"b.test".to_vec())], vec![rule(Vec::new(), "b")]),
        route(Vec::new(), Vec::new()),
        route(Vec::new(), vec![rule(Vec::new(), "rest")]),
    ];
    assert_eq!(select_rule(&table, &request("GET", "a.test:80", "/", &[])), Some((0, 0)));
    assert_eq!(select_rule(&table, &request("GET", "x.b.test", "/", &[])), Some((1, 0)));
    assert_eq!(select_rule(&table, &request("GET", "c.test", "/", &[])), Some((3, 0)));
}

#[test]
fn no_rule_no_selection() {
    assert_eq!(select_rule(&Vec::new(), &request("GET", "a", "/", &[])), None);
    let table = vec![
        route(Vec::new(), Vec::new()),
        route(vec![HostMatch::Exact(b"a.test".to_vec())], vec![rule(Vec::new(), "a")]),
        route(Vec::new(), vec![rule(vec![city(ValueMatch::Present)], "city")]),
    ];
    assert_eq!(select_rule(&table, &request("GET", "b.test", "/", &[])), None);
}
