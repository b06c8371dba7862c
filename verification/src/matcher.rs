//! Rule matching: which rule of a route table a request selects.
//!
//! Routes whose host filter admits the request contribute their rules, in
//! table order, to one flat candidate sequence; the first candidate that
//! matches wins. The decision is a function of the table and the request and
//! of nothing else.

use vstd::prelude::*;
use crate::octets::{
    bytes_eq, ends_with_ignore_case, eq_ignore_case, folded, has_prefix, has_suffix, starts_with,
};
use crate::patterns::full_match;
use crate::policy::{
    table_view, HeaderMatch, HeaderMatchView, HostMatch, HostMatchView, HttpRoute, HttpRouteView,
    MatchSet, MatchSetView, PathMatch, PathMatchView, Predicate, PredicateView, Rule, RuleView,
    ValueMatch, ValueMatchView,
};
use crate::request::{HeaderFieldView, Request, RequestView};
use crate::seqs::{first_true, lemma_first_true, lemma_first_true_is, lemma_first_true_none};

verus! {

/// Whether a byte is an ASCII digit.
pub open spec fn is_digit(b: u8) -> bool {
    0x30 <= b <= 0x39
}

/// The number of ASCII digits that `s` ends with.
pub open spec fn trailing_digits(s: Seq<u8>) -> nat
    decreases s.len(),
{
    if s.len() > 0 && is_digit(s.last()) {
        1 + trailing_digits(s.drop_last())
    } else {
        0
    }
}

/// The host of an authority: the authority without its port, where it ends
/// with a colon and digits.
pub open spec fn host_of(authority: Seq<u8>) -> Seq<u8> {
    let digits = trailing_digits(authority);
    if digits < authority.len() && authority[authority.len() - digits - 1] == 0x3a {
        authority.subrange(0, authority.len() - digits - 1)
    } else {
        authority
    }
}

/// Whether a host pattern takes a request addressed to `authority`.
pub open spec fn host_holds(pattern: HostMatchView, authority: Seq<u8>) -> bool {
    let host = folded(host_of(authority));
    match pattern {
        HostMatchView::Exact(name) => host == folded(name),
        HostMatchView::Suffix(name) => {
            &&& host.len() > name.len() + 1
            &&& has_suffix(host, folded(name))
            &&& host[host.len() - name.len() - 1] == 0x2e
        },
    }
}

/// Whether a route takes requests addressed to `authority`: it has no host
/// pattern, or one of its patterns holds.
pub open spec fn route_admits(route: HttpRouteView, authority: Seq<u8>) -> bool {
    route.hosts.len() == 0 || exists|i: int|
        0 <= i < route.hosts.len() && host_holds(#[trigger] route.hosts[i], authority)
}

/// Whether a header value passes a value test.
pub open spec fn value_holds(test: ValueMatchView, value: Seq<u8>) -> bool {
    match test {
        ValueMatchView::Exact(expected) => value == expected,
        ValueMatchView::Regex(pattern) => full_match(pattern, value),
        ValueMatchView::Present => true,
    }
}

/// Whether header line `field` satisfies `test`: it carries the tested name
/// and its value passes.
pub open spec fn field_holds(test: HeaderMatchView, field: HeaderFieldView) -> bool {
    folded(field.name) == folded(test.name) && value_holds(test.value, field.value)
}

/// Whether some header line of the request satisfies `test`. A request without
/// the header fails every test on it.
pub open spec fn header_holds(test: HeaderMatchView, headers: Seq<HeaderFieldView>) -> bool {
    exists|i: int| 0 <= i < headers.len() && field_holds(test, #[trigger] headers[i])
}

/// Whether a path passes a path test.
pub open spec fn path_holds(test: PathMatchView, path: Seq<u8>) -> bool {
    match test {
        PathMatchView::Exact(expected) => path == expected,
        PathMatchView::Prefix(prefix) => {
            &&& has_prefix(path, prefix)
            &&& (path.len() == prefix.len() || path[prefix.len() as int] == 0x2f || (prefix.len() > 0
                && prefix.last() == 0x2f))
        },
        PathMatchView::Regex(pattern) => full_match(pattern, path),
    }
}

/// Whether one predicate holds of a request.
pub open spec fn predicate_holds(predicate: PredicateView, req: RequestView) -> bool {
    match predicate {
        PredicateView::Header(test) => header_holds(test, req.headers),
        PredicateView::Path(test) => path_holds(test, req.path),
        PredicateView::Method(method) => req.method == method,
    }
}

/// Whether every predicate of a match-set holds of a request.
pub open spec fn match_set_holds(set: MatchSetView, req: RequestView) -> bool {
    forall|i: int| 0 <= i < set.predicates.len() ==> predicate_holds(#[trigger] set.predicates[i], req)
}

/// Whether a rule applies to a request: it has no match-set, or one of its
/// match-sets holds.
pub open spec fn rule_matches(rule: RuleView, req: RequestView) -> bool {
    rule.matches.len() == 0 || exists|i: int|
        0 <= i < rule.matches.len() && match_set_holds(#[trigger] rule.matches[i], req)
}

/// The place of a rule in a route table.
pub struct RuleRef {
    pub route: int,
    pub rule: int,
}

/// The places of the rules of route `route`, in order.
pub open spec fn route_rules(route: int, count: nat) -> Seq<RuleRef> {
    Seq::new(count, |j: int| RuleRef { route, rule: j })
}

/// The flat candidate sequence for a request: the rules of every route that
/// admits it, in table order.
pub open spec fn candidates(table: Seq<HttpRouteView>, req: RequestView) -> Seq<RuleRef>
    decreases table.len(),
{
    if table.len() == 0 {
        Seq::empty()
    } else {
        let earlier = candidates(table.drop_last(), req);
        let last = table.len() - 1;
        if route_admits(table[last], req.authority) {
            earlier + route_rules(last, table[last].rules.len())
        } else {
            earlier
        }
    }
}

/// For each candidate, whether its rule applies to the request.
pub open spec fn candidate_flags(table: Seq<HttpRouteView>, req: RequestView) -> Seq<bool> {
    let c = candidates(table, req);
    Seq::new(c.len(), |k: int| rule_matches(table[c[k].route].rules[c[k].rule], req))
}

/// The rule a request selects: the first candidate that applies. `None` where
/// no candidate applies.
pub open spec fn selected_rule(table: Seq<HttpRouteView>, req: RequestView) -> Option<RuleRef> {
    match first_true(candidate_flags(table, req)) {
        Some(k) => Some(candidates(table, req)[k]),
        None => None,
    }
}

/// Every candidate names a rule of a route of the table that admits the
/// request, and stands where the flattening puts that rule: after the
/// candidates of the routes before its route, at the place of the rule in
/// its route.
pub proof fn lemma_candidate_position(table: Seq<HttpRouteView>, req: RequestView, k: int)
    requires
        0 <= k < candidates(table, req).len(),
    ensures
        ({
            let at = candidates(table, req)[k];
            &&& 0 <= at.route < table.len()
            &&& 0 <= at.rule < table[at.route].rules.len()
            &&& route_admits(table[at.route], req.authority)
            &&& k == candidates(table.take(at.route), req).len() + at.rule
        }),
    decreases table.len(),
{
    let init = table.drop_last();
    let earlier = candidates(init, req);
    if k < earlier.len() {
        lemma_candidate_position(init, req, k);
        assert(init.take(earlier[k].route) =~= table.take(earlier[k].route));
    } else {
        assert(table.take(table.len() - 1) =~= init);
    }
}

/// The candidates grow with the routes counted.
pub proof fn lemma_candidates_grow(table: Seq<HttpRouteView>, req: RequestView, a: int, b: int)
    requires
        0 <= a <= b <= table.len(),
    ensures
        candidates(table.take(a), req).len() <= candidates(table.take(b), req).len(),
    decreases b - a,
{
    if a < b {
        lemma_candidates_grow(table, req, a, b - 1);
        lemma_candidates_step(table, req, b - 1);
    }
}

/// The candidates of the first `n` routes open the candidates of the table.
pub proof fn lemma_candidates_prefix(table: Seq<HttpRouteView>, req: RequestView, n: int)
    requires
        0 <= n <= table.len(),
    ensures
        candidates(table.take(n), req).len() <= candidates(table, req).len(),
        candidates(table.take(n), req) == candidates(table, req).take(
            candidates(table.take(n), req).len() as int,
        ),
    decreases table.len() - n,
{
    if n == table.len() {
        assert(table.take(n) =~= table);
        assert(candidates(table, req).take(candidates(table, req).len() as int) =~= candidates(
            table,
            req,
        ));
    } else {
        lemma_candidates_prefix(table, req, n + 1);
        assert(table.take(n + 1).drop_last() =~= table.take(n));
        let short = candidates(table.take(n), req);
        let longer = candidates(table.take(n + 1), req);
        assert(short =~= longer.take(short.len() as int));
        assert(short =~= candidates(table, req).take(short.len() as int));
    }
}

/// The candidates of the first `n + 1` routes are those of the first `n`,
/// then the rules of route `n` where it admits the request.
pub proof fn lemma_candidates_step(table: Seq<HttpRouteView>, req: RequestView, n: int)
    requires
        0 <= n < table.len(),
    ensures
        candidates(table.take(n + 1), req) == if route_admits(table[n], req.authority) {
            candidates(table.take(n), req) + route_rules(n, table[n].rules.len())
        } else {
            candidates(table.take(n), req)
        },
{
    assert(table.take(n + 1).drop_last() =~= table.take(n));
}

/// Where the rules of route `n` stand among the candidates of the whole
/// table: directly after the candidates of the routes before it.
pub proof fn lemma_route_candidates(table: Seq<HttpRouteView>, req: RequestView, n: int)
    requires
        0 <= n < table.len(),
    ensures
        candidates(table.take(n), req).len() <= candidates(table.take(n + 1), req).len()
            <= candidates(table, req).len(),
        !route_admits(table[n], req.authority) ==> candidates(table.take(n + 1), req).len()
            == candidates(table.take(n), req).len(),
        route_admits(table[n], req.authority) ==> {
            let before = candidates(table.take(n), req).len();
            &&& candidates(table.take(n + 1), req).len() == before + table[n].rules.len()
            &&& forall|k: int|
                before <= k < before + table[n].rules.len() ==> #[trigger] candidates(table, req)[k]
                    == (RuleRef { route: n, rule: k - before })
        },
{
    lemma_candidates_step(table, req, n);
    lemma_candidates_prefix(table, req, n + 1);
    if route_admits(table[n], req.authority) {
        let before = candidates(table.take(n), req).len();
        let upto = candidates(table.take(n + 1), req);
        assert forall|k: int| before <= k < before + table[n].rules.len() implies #[trigger] candidates(
            table,
            req,
        )[k] == (RuleRef { route: n, rule: k - before }) by {
            assert(upto[k] == route_rules(n, table[n].rules.len())[k - before]);
            assert(candidates(table, req).take(upto.len() as int)[k] == candidates(table, req)[k]);
        }
    }
}

/// Finds where the host of an authority ends.
pub fn host_len(authority: &[u8]) -> (n: usize)
    ensures
        n <= authority.len(),
        authority@.subrange(0, n as int) == host_of(authority@),
{
    let mut i: usize = authority.len();
    assert(authority@.take(i as int) =~= authority@);
    while i > 0 && authority[i - 1] >= 0x30 && authority[i - 1] <= 0x39
        invariant
            i <= authority.len(),
            trailing_digits(authority@) == (authority.len() - i) + trailing_digits(
                authority@.take(i as int),
            ),
        decreases i,
    {
        assert(authority@.take(i as int).drop_last() =~= authority@.take(i - 1));
        i -= 1;
    }
    assert(trailing_digits(authority@) == authority.len() - i) by {
        if i > 0 {
            assert(authority@.take(i as int).last() == authority@[i - 1]);
        }
    }
    if i > 0 && authority[i - 1] == 0x3a {
        i - 1
    } else {
        assert(authority@.subrange(0, authority.len() as int) =~= authority@);
        authority.len()
    }
}

/// Decides whether a host pattern takes a request addressed to `authority`.
pub fn host_matches(pattern: &HostMatch, authority: &[u8]) -> (r: bool)
    ensures
        r == host_holds(pattern@, authority@),
{
    let n = host_len(authority);
    let host = vstd::slice::slice_subrange(authority, 0, n);
    match pattern {
        HostMatch::Exact(name) => eq_ignore_case(host, name.as_slice()),
        HostMatch::Suffix(name) => {
            if host.len() <= name.len() || host.len() - name.len() < 2 {
                return false;
            }
            let dot = host[host.len() - name.len() - 1];
            dot == 0x2e && ends_with_ignore_case(host, name.as_slice())
        },
    }
}

/// Decides whether a route takes requests addressed to `authority`.
pub fn route_accepts(route: &HttpRoute, authority: &[u8]) -> (r: bool)
    ensures
        r == route_admits(route@, authority@),
{
    if route.hosts.len() == 0 {
        return true;
    }
    let mut i: usize = 0;
    while i < route.hosts.len()
        invariant
            i <= route.hosts.len(),
            forall|j: int| 0 <= j < i ==> !host_holds(#[trigger] route@.hosts[j], authority@),
        decreases route.hosts.len() - i,
    {
        if host_matches(&route.hosts[i], authority) {
            assert(host_holds(route@.hosts[i as int], authority@));
            return true;
        }
        i += 1;
    }
    false
}

/// Decides whether a header value passes a value test.
pub fn value_matches(test: &ValueMatch, value: &[u8]) -> (r: bool)
    ensures
        r == value_holds(test@, value@),
{
    match test {
        ValueMatch::Exact(expected) => bytes_eq(value, expected.as_slice()),
        ValueMatch::Regex(pattern) => pattern.matches_fully(value),
        ValueMatch::Present => true,
    }
}

/// Decides whether some header line satisfies `test`.
pub fn header_matches(test: &HeaderMatch, req: &Request) -> (r: bool)
    ensures
        r == header_holds(test@, req@.headers),
{
    let mut i: usize = 0;
    while i < req.headers.len()
        invariant
            i <= req.headers.len(),
            forall|j: int| 0 <= j < i ==> !field_holds(test@, #[trigger] req@.headers[j]),
        decreases req.headers.len() - i,
    {
        let field = &req.headers[i];
        if eq_ignore_case(field.name.as_slice(), test.name.as_slice()) && value_matches(
            &test.value,
            field.value.as_slice(),
        ) {
            assert(field_holds(test@, req@.headers[i as int]));
            return true;
        }
        i += 1;
    }
    false
}

/// Decides whether a path passes a path test.
pub fn path_matches(test: &PathMatch, path: &[u8]) -> (r: bool)
    ensures
        r == path_holds(test@, path@),
{
    match test {
        PathMatch::Exact(expected) => bytes_eq(path, expected.as_slice()),
        PathMatch::Prefix(prefix) => {
            if !starts_with(path, prefix.as_slice()) {
                return false;
            }
            path.len() == prefix.len() || path[prefix.len()] == 0x2f || (prefix.len() > 0
                && prefix[prefix.len() - 1] == 0x2f)
        },
        PathMatch::Regex(pattern) => pattern.matches_fully(path),
    }
}

/// Decides whether one predicate holds of a request.
pub fn predicate_matches(predicate: &Predicate, req: &Request) -> (r: bool)
    ensures
        r == predicate_holds(predicate@, req@),
{
    match predicate {
        Predicate::Header(test) => header_matches(test, req),
        Predicate::Path(test) => path_matches(test, req.path.as_slice()),
        Predicate::Method(method) => bytes_eq(req.method.as_slice(), method.as_slice()),
    }
}

/// Decides whether every predicate of a match-set holds of a request.
pub fn match_set_matches(set: &MatchSet, req: &Request) -> (r: bool)
    ensures
        r == match_set_holds(set@, req@),
{
    let mut i: usize = 0;
    while i < set.predicates.len()
        invariant
            i <= set.predicates.len(),
            forall|j: int| 0 <= j < i ==> predicate_holds(#[trigger] set@.predicates[j], req@),
        decreases set.predicates.len() - i,
    {
        if !predicate_matches(&set.predicates[i], req) {
            assert(!predicate_holds(set@.predicates[i as int], req@));
            return false;
        }
        i += 1;
    }
    true
}

/// Decides whether a rule applies to a request.
pub fn rule_applies(rule: &Rule, req: &Request) -> (r: bool)
    ensures
        r == rule_matches(rule@, req@),
{
    if rule.matches.len() == 0 {
        return true;
    }
    let mut i: usize = 0;
    while i < rule.matches.len()
        invariant
            i <= rule.matches.len(),
            forall|j: int| 0 <= j < i ==> !match_set_holds(#[trigger] rule@.matches[j], req@),
        decreases rule.matches.len() - i,
    {
        if match_set_matches(&rule.matches[i], req) {
            assert(match_set_holds(rule@.matches[i as int], req@));
            return true;
        }
        i += 1;
    }
    false
}

/// Whether rule `rule` of route `route` can take the request: its route
/// admits the request and the rule applies to it.
pub open spec fn takes(table: Seq<HttpRouteView>, req: RequestView, route: int, rule: int) -> bool {
    &&& 0 <= route < table.len()
    &&& 0 <= rule < table[route].rules.len()
    &&& route_admits(table[route], req.authority)
    &&& rule_matches(table[route].rules[rule], req)
}

/// Whether one place in a table comes before another in table order.
pub open spec fn precedes(a: RuleRef, b: RuleRef) -> bool {
    a.route < b.route || (a.route == b.route && a.rule < b.rule)
}

/// The selected rule can take the request, and no rule before it in table
/// order can.
pub proof fn lemma_selected_in_table(table: Seq<HttpRouteView>, req: RequestView)
    ensures
        selected_rule(table, req) matches Some(at) ==> {
            &&& takes(table, req, at.route, at.rule)
            &&& forall|route: int, rule: int|
                precedes(RuleRef { route, rule }, at) ==> !#[trigger] takes(table, req, route, rule)
        },
{
    let flags = candidate_flags(table, req);
    lemma_first_true(flags);
    if let Some(k) = first_true(flags) {
        let at = candidates(table, req)[k];
        lemma_candidate_position(table, req, k);
        assert forall|route: int, rule: int| precedes(RuleRef { route, rule }, at) implies !#[trigger] takes(
            table,
            req,
            route,
            rule,
        ) by {
            if takes(table, req, route, rule) {
                lemma_route_candidates(table, req, route);
                let before = candidates(table.take(route), req).len();
                assert(candidates(table, req)[before + rule] == (RuleRef { route, rule }));
                assert(flags[before + rule]);
                if route < at.route {
                    lemma_candidates_grow(table, req, route + 1, at.route);
                }
            }
        }
    }
}

/// No rule is selected exactly where no rule of the table can take the
/// request.
pub proof fn lemma_no_selection(table: Seq<HttpRouteView>, req: RequestView)
    ensures
        selected_rule(table, req) is None <==> forall|route: int, rule: int|
            !#[trigger] takes(table, req, route, rule),
{
    let flags = candidate_flags(table, req);
    lemma_first_true(flags);
    lemma_selected_in_table(table, req);
    if selected_rule(table, req) is None {
        assert forall|route: int, rule: int| !#[trigger] takes(table, req, route, rule) by {
            if takes(table, req, route, rule) {
                lemma_route_candidates(table, req, route);
                let before = candidates(table.take(route), req).len();
                assert(candidates(table, req)[before + rule] == (RuleRef { route, rule }));
                assert(flags[before + rule]);
            }
        }
    }
}

/// Catch-all: a rule without match-sets is selected by every request that
/// reaches it. If candidate `k` of the request has no match-set and no
/// candidate before it applies, the request selects candidate `k`, whatever
/// its method, path and headers are.
pub proof fn lemma_catch_all(table: Seq<HttpRouteView>, req: RequestView, k: int)
    requires
        0 <= k < candidates(table, req).len(),
        table[candidates(table, req)[k].route].rules[candidates(table, req)[k].rule].matches.len()
            == 0,
        forall|i: int| 0 <= i < k ==> !candidate_flags(table, req)[i],
    ensures
        selected_rule(table, req) == Some(candidates(table, req)[k]),
{
    lemma_first_true_is(candidate_flags(table, req), k);
}

/// Header tests look at values byte for byte and at names without regard to
/// ASCII case, and a header that the request lacks fails every test on it.
pub proof fn lemma_header_tests(test: HeaderMatchView, headers: Seq<HeaderFieldView>)
    ensures
        (forall|i: int| 0 <= i < headers.len() ==> folded(#[trigger] headers[i].name) != folded(test.name))
            ==> !header_holds(test, headers),
        test.value matches ValueMatchView::Exact(expected) ==> (header_holds(test, headers) <==> exists|
            i: int,
        |
            0 <= i < headers.len() && folded(#[trigger] headers[i].name) == folded(test.name)
                && headers[i].value == expected),
{
    if let ValueMatchView::Exact(expected) = test.value {
        if header_holds(test, headers) {
            let i = choose|i: int| 0 <= i < headers.len() && field_holds(test, #[trigger] headers[i]);
            assert(folded(headers[i].name) == folded(test.name) && headers[i].value == expected);
        }
        if exists|i: int|
            0 <= i < headers.len() && folded(#[trigger] headers[i].name) == folded(test.name)
                && headers[i].value == expected {
            let i = choose|i: int|
                0 <= i < headers.len() && folded(#[trigger] headers[i].name) == folded(test.name)
                    && headers[i].value == expected;
            assert(field_holds(test, headers[i]));
        }
    }
}

/// The case of a header name does not matter: two tests that differ only in
/// the case of the name's ASCII letters hold of the same headers, and a test
/// holds of two header lists that differ only in the case of their names.
pub proof fn lemma_header_names_ignore_case(
    test: HeaderMatchView,
    other: HeaderMatchView,
    field: HeaderFieldView,
    same: HeaderFieldView,
)
    requires
        folded(test.name) == folded(other.name),
        test.value == other.value,
        folded(field.name) == folded(same.name),
        field.value == same.value,
    ensures
        field_holds(test, field) == field_holds(other, same),
{
}

/// Selects the rule that routes `req`: the first rule, in table order and
/// among the routes that admit the request, that applies to it. Returns the
/// index of the route and of the rule in it, or `None` where no rule applies.
pub fn select_rule(routes: &Vec<HttpRoute>, req: &Request) -> (r: Option<(usize, usize)>)
    ensures
        match r {
            Some((route, rule)) => selected_rule(table_view(routes@), req@) == Some(
                RuleRef { route: route as int, rule: rule as int },
            ),
            None => selected_rule(table_view(routes@), req@) is None,
        },
{
    let ghost table = table_view(routes@);
    let ghost flags = candidate_flags(table, req@);
    let mut n: usize = 0;
    assert(table.take(0) =~= Seq::<HttpRouteView>::empty());
    while n < routes.len()
        invariant
            n <= routes.len(),
            table == table_view(routes@),
            flags == candidate_flags(table, req@),
            candidates(table.take(n as int), req@).len() <= flags.len(),
            forall|k: int| 0 <= k < candidates(table.take(n as int), req@).len() ==> !flags[k],
        decreases routes.len() - n,
    {
        let route = &routes[n];
        let ghost before = candidates(table.take(n as int), req@).len();
        proof {
            lemma_route_candidates(table, req@, n as int);
        }
        if route_accepts(route, req.authority.as_slice()) {
            let mut j: usize = 0;
            while j < route.rules.len()
                invariant
                    j <= route.rules.len(),
                    n < routes.len(),
                    table == table_view(routes@),
                    *route == routes@[n as int],
                    flags == candidate_flags(table, req@),
                    before == candidates(table.take(n as int), req@).len(),
                    before + route.rules.len() <= flags.len(),
                    forall|k: int| 0 <= k < before ==> !flags[k],
                    forall|k: int|
                        before <= k < before + route.rules.len() ==> #[trigger] candidates(
                            table,
                            req@,
                        )[k] == (RuleRef { route: n as int, rule: k - before }),
                    forall|k: int| before <= k < before + j ==> !flags[k],
                decreases route.rules.len() - j,
            {
                let ghost at = before + j;
                assert(candidates(table, req@)[at] == (RuleRef { route: n as int, rule: j as int }));
                assert(flags[at] == rule_matches(route@.rules[j as int], req@));
                if rule_applies(&route.rules[j], req) {
                    proof {
                        lemma_first_true_is(flags, at);
                    }
                    return Some((n, j));
                }
                j += 1;
            }
        }
        n += 1;
    }
    proof {
        assert(table.take(n as int) =~= table);
        lemma_first_true_none(flags);
    }
    None
}

} // verus!
