//! The routing configuration in effect for one destination: protocols, route
//! tables, rules, match-sets and backend distributions.
//!
//! All of it is plain data. A snapshot replaces the one before it whole, and
//! the routing code only ever borrows one.

use vstd::prelude::*;
use crate::patterns::Pattern;
use crate::request::HttpVersion;

verus! {

/// How a header's value is tested.
#[derive(Clone, Debug)]
pub enum ValueMatch {
    /// The value equals these bytes.
    Exact(Vec<u8>),
    /// The whole value, as text, matches this pattern.
    Regex(Pattern),
    /// The header exists, whatever its value.
    Present,
}

/// The mathematical view of [`ValueMatch`].
pub enum ValueMatchView {
    Exact(Seq<u8>),
    Regex(Seq<char>),
    Present,
}

impl View for ValueMatch {
    type V = ValueMatchView;

    open spec fn view(&self) -> ValueMatchView {
        match self {
            ValueMatch::Exact(v) => ValueMatchView::Exact(v@),
            ValueMatch::Regex(p) => ValueMatchView::Regex(p@),
            ValueMatch::Present => ValueMatchView::Present,
        }
    }
}

/// A test on the header called `name`.
#[derive(Clone, Debug)]
pub struct HeaderMatch {
    pub name: Vec<u8>,
    pub value: ValueMatch,
}

/// The mathematical view of [`HeaderMatch`].
pub struct HeaderMatchView {
    pub name: Seq<u8>,
    pub value: ValueMatchView,
}

impl View for HeaderMatch {
    type V = HeaderMatchView;

    open spec fn view(&self) -> HeaderMatchView {
        HeaderMatchView { name: self.name@, value: self.value@ }
    }
}

/// How a request path is tested.
#[derive(Clone, Debug)]
pub enum PathMatch {
    /// The path equals these bytes.
    Exact(Vec<u8>),
    /// The path begins with these bytes, ending there or at a `/`.
    Prefix(Vec<u8>),
    /// The whole path, as text, matches this pattern.
    Regex(Pattern),
}

/// The mathematical view of [`PathMatch`].
pub enum PathMatchView {
    Exact(Seq<u8>),
    Prefix(Seq<u8>),
    Regex(Seq<char>),
}

impl View for PathMatch {
    type V = PathMatchView;

    open spec fn view(&self) -> PathMatchView {
        match self {
            PathMatch::Exact(p) => PathMatchView::Exact(p@),
            PathMatch::Prefix(p) => PathMatchView::Prefix(p@),
            PathMatch::Regex(p) => PathMatchView::Regex(p@),
        }
    }
}

/// One test on a request.
#[derive(Clone, Debug)]
pub enum Predicate {
    Header(HeaderMatch),
    Path(PathMatch),
    /// The request method equals these bytes.
    Method(Vec<u8>),
}

/// The mathematical view of [`Predicate`].
pub enum PredicateView {
    Header(HeaderMatchView),
    Path(PathMatchView),
    Method(Seq<u8>),
}

impl View for Predicate {
    type V = PredicateView;

    open spec fn view(&self) -> PredicateView {
        match self {
            Predicate::Header(h) => PredicateView::Header(h@),
            Predicate::Path(p) => PredicateView::Path(p@),
            Predicate::Method(m) => PredicateView::Method(m@),
        }
    }
}

/// A match-set: every predicate in it must hold. One with no predicate holds
/// of every request.
#[derive(Clone, Debug)]
pub struct MatchSet {
    pub predicates: Vec<Predicate>,
}

/// The mathematical view of [`MatchSet`].
pub struct MatchSetView {
    pub predicates: Seq<PredicateView>,
}

impl View for MatchSet {
    type V = MatchSetView;

    open spec fn view(&self) -> MatchSetView {
        MatchSetView { predicates: self.predicates@.map_values(|p: Predicate| p@) }
    }
}

/// A request or response transformation. Routing carries filters along in
/// order and never looks inside.
#[derive(Clone, Debug)]
pub struct Filter {
    pub descriptor: Vec<u8>,
}

/// The mathematical view of [`Filter`].
pub struct FilterView {
    pub descriptor: Seq<u8>,
}

impl View for Filter {
    type V = FilterView;

    open spec fn view(&self) -> FilterView {
        FilterView { descriptor: self.descriptor@ }
    }
}

/// A destination and its share of the traffic.
#[derive(Clone, Debug)]
pub struct WeightedBackend {
    /// The logical address of the destination.
    pub target: String,
    /// Positive in a valid policy; read by the weighted strategy only.
    pub weight: u32,
}

/// The mathematical view of [`WeightedBackend`].
pub struct WeightedBackendView {
    pub target: Seq<char>,
    pub weight: nat,
}

impl View for WeightedBackend {
    type V = WeightedBackendView;

    open spec fn view(&self) -> WeightedBackendView {
        WeightedBackendView { target: self.target@, weight: self.weight as nat }
    }
}

/// How one backend is picked for a rule.
#[derive(Clone, Debug)]
pub enum Distribution {
    /// The first backend, in list order, that is available.
    FirstAvailable(Vec<WeightedBackend>),
    /// One of the available backends, drawn in proportion to its weight.
    RandomAvailable(Vec<WeightedBackend>),
}

/// The mathematical view of [`Distribution`].
pub enum DistributionView {
    FirstAvailable(Seq<WeightedBackendView>),
    RandomAvailable(Seq<WeightedBackendView>),
}

impl DistributionView {
    /// The backends, whatever the strategy.
    pub open spec fn backends(self) -> Seq<WeightedBackendView> {
        match self {
            DistributionView::FirstAvailable(b) => b,
            DistributionView::RandomAvailable(b) => b,
        }
    }
}

impl View for Distribution {
    type V = DistributionView;

    open spec fn view(&self) -> DistributionView {
        match self {
            Distribution::FirstAvailable(b) => DistributionView::FirstAvailable(
                b@.map_values(|w: WeightedBackend| w@),
            ),
            Distribution::RandomAvailable(b) => DistributionView::RandomAvailable(
                b@.map_values(|w: WeightedBackend| w@),
            ),
        }
    }
}

/// One routing rule: it applies where any of its match-sets holds, or always
/// where it has none.
#[derive(Clone, Debug)]
pub struct Rule {
    pub matches: Vec<MatchSet>,
    pub filters: Vec<Filter>,
    pub backends: Distribution,
}

/// The mathematical view of [`Rule`].
pub struct RuleView {
    pub matches: Seq<MatchSetView>,
    pub filters: Seq<FilterView>,
    pub backends: DistributionView,
}

impl View for Rule {
    type V = RuleView;

    open spec fn view(&self) -> RuleView {
        RuleView {
            matches: self.matches@.map_values(|m: MatchSet| m@),
            filters: self.filters@.map_values(|f: Filter| f@),
            backends: self.backends@,
        }
    }
}

/// A pattern for the host a request is addressed to. Hosts are compared
/// without regard to ASCII case.
#[derive(Clone, Debug)]
pub enum HostMatch {
    /// The host is this name.
    Exact(Vec<u8>),
    /// The host is some label or labels, a dot, and this name.
    Suffix(Vec<u8>),
}

/// The mathematical view of [`HostMatch`].
pub enum HostMatchView {
    Exact(Seq<u8>),
    Suffix(Seq<u8>),
}

impl View for HostMatch {
    type V = HostMatchView;

    open spec fn view(&self) -> HostMatchView {
        match self {
            HostMatch::Exact(h) => HostMatchView::Exact(h@),
            HostMatch::Suffix(h) => HostMatchView::Suffix(h@),
        }
    }
}

/// The resource a route was made from. Used to attribute a decision, never to
/// make one.
#[derive(Clone, Debug)]
pub struct RouteMetadata {
    pub group: String,
    pub kind: String,
    pub name: String,
    pub namespace: String,
    pub section: String,
}

/// The mathematical view of [`RouteMetadata`].
pub struct RouteMetadataView {
    pub group: Seq<char>,
    pub kind: Seq<char>,
    pub name: Seq<char>,
    pub namespace: Seq<char>,
    pub section: Seq<char>,
}

impl View for RouteMetadata {
    type V = RouteMetadataView;

    open spec fn view(&self) -> RouteMetadataView {
        RouteMetadataView {
            group: self.group@,
            kind: self.kind@,
            name: self.name@,
            namespace: self.namespace@,
            section: self.section@,
        }
    }
}

/// A group of rules that share a resource and a host filter. A route with no
/// host pattern takes requests for any host.
#[derive(Clone, Debug)]
pub struct HttpRoute {
    pub metadata: RouteMetadata,
    pub hosts: Vec<HostMatch>,
    pub rules: Vec<Rule>,
}

/// The mathematical view of [`HttpRoute`].
pub struct HttpRouteView {
    pub metadata: RouteMetadataView,
    pub hosts: Seq<HostMatchView>,
    pub rules: Seq<RuleView>,
}

impl View for HttpRoute {
    type V = HttpRouteView;

    open spec fn view(&self) -> HttpRouteView {
        HttpRouteView {
            metadata: self.metadata@,
            hosts: self.hosts@.map_values(|h: HostMatch| h@),
            rules: self.rules@.map_values(|r: Rule| r@),
        }
    }
}

/// The view of a route table: the routes in table order.
pub open spec fn table_view(routes: Seq<HttpRoute>) -> Seq<HttpRouteView> {
    routes.map_values(|r: HttpRoute| r@)
}

/// How the protocol of a connection is settled, and the route table of each.
#[derive(Clone, Debug)]
pub enum ProxyProtocol {
    /// The protocol is sniffed from the first bytes, within `timeout`
    /// milliseconds; each HTTP version has a route table of its own.
    Detect { timeout: u64, http1_routes: Vec<HttpRoute>, http2_routes: Vec<HttpRoute> },
    /// Every connection is HTTP/1 and is routed by this table.
    Http1(Vec<HttpRoute>),
    /// Every connection is HTTP/2 and is routed by this table.
    Http2(Vec<HttpRoute>),
}

/// The mathematical view of [`ProxyProtocol`].
pub enum ProxyProtocolView {
    Detect { timeout: nat, http1_routes: Seq<HttpRouteView>, http2_routes: Seq<HttpRouteView> },
    Http1(Seq<HttpRouteView>),
    Http2(Seq<HttpRouteView>),
}

impl ProxyProtocolView {
    /// The route table that a connection of `version` is routed by. A fixed
    /// protocol has one table and binds to it whatever the version.
    pub open spec fn table(self, version: HttpVersion) -> Seq<HttpRouteView> {
        match self {
            ProxyProtocolView::Detect { timeout, http1_routes, http2_routes } => match version {
                HttpVersion::Http1 => http1_routes,
                HttpVersion::Http2 => http2_routes,
            },
            ProxyProtocolView::Http1(routes) => routes,
            ProxyProtocolView::Http2(routes) => routes,
        }
    }
}

impl View for ProxyProtocol {
    type V = ProxyProtocolView;

    open spec fn view(&self) -> ProxyProtocolView {
        match self {
            ProxyProtocol::Detect { timeout, http1_routes, http2_routes } => ProxyProtocolView::Detect {
                timeout: *timeout as nat,
                http1_routes: table_view(http1_routes@),
                http2_routes: table_view(http2_routes@),
            },
            ProxyProtocol::Http1(routes) => ProxyProtocolView::Http1(table_view(routes@)),
            ProxyProtocol::Http2(routes) => ProxyProtocolView::Http2(table_view(routes@)),
        }
    }
}

impl ProxyProtocol {
    /// The routes of the table that a connection of `version` is routed by.
    pub open spec fn routes(&self, version: HttpVersion) -> Seq<HttpRoute> {
        match self {
            ProxyProtocol::Detect { timeout, http1_routes, http2_routes } => match version {
                HttpVersion::Http1 => http1_routes@,
                HttpVersion::Http2 => http2_routes@,
            },
            ProxyProtocol::Http1(routes) => routes@,
            ProxyProtocol::Http2(routes) => routes@,
        }
    }

    /// The route table that a connection of `version` is routed by.
    pub fn table(&self, version: HttpVersion) -> (routes: &Vec<HttpRoute>)
        ensures
            routes@ == self.routes(version),
            table_view(routes@) == self@.table(version),
    {
        match self {
            ProxyProtocol::Detect { timeout, http1_routes, http2_routes } => match version {
                HttpVersion::Http1 => http1_routes,
                HttpVersion::Http2 => http2_routes,
            },
            ProxyProtocol::Http1(routes) => routes,
            ProxyProtocol::Http2(routes) => routes,
        }
    }
}

/// The routing configuration in effect for one destination at one instant.
/// Exactly one protocol is active in a snapshot.
#[derive(Clone, Debug)]
pub struct ClientPolicy {
    pub protocol: ProxyProtocol,
}

/// The mathematical view of [`ClientPolicy`].
pub struct ClientPolicyView {
    pub protocol: ProxyProtocolView,
}

impl View for ClientPolicy {
    type V = ClientPolicyView;

    open spec fn view(&self) -> ClientPolicyView {
        ClientPolicyView { protocol: self.protocol@ }
    }
}

} // verus!
