//! The route table and the matcher.
//!
//! Routes are kept in the order in which they were registered. A request is
//! answered by the first route that has its method and whose pattern matches
//! its path: the order of registration decides, not how specific a pattern
//! looks.

use vstd::prelude::*;
use vstd::string::StringSliceAdditionalSpecFns;
use crate::params::Params;
use crate::path::{part_views, segments_of, split_path};
use crate::pattern::{
    bindings, described, fault, pattern_matches, Pattern, PatternError, SegmentView,
};

verus! {

/// The method of a request: one of the standard HTTP verbs.
#[derive(Clone, Copy, Debug, PartialEq, Eq, Structural)]
pub enum Method {
    Get,
    Head,
    Post,
    Put,
    Delete,
    Connect,
    Options,
    Trace,
    Patch,
}

/// What a route is: a method, a pattern and the handler it leads to.
pub struct RouteView {
    pub method: Method,
    pub pattern: Seq<SegmentView>,
    pub handler: usize,
}

/// What a successful match is: the place of the route in the table, its
/// handler, and the bindings of its parameters.
pub struct MatchView {
    pub route: int,
    pub handler: usize,
    pub params: Seq<(Seq<u8>, Seq<u8>)>,
}

/// Whether `route` answers a request with the method `method` and the path
/// segments `parts`.
pub open spec fn takes(route: RouteView, method: Method, parts: Seq<Seq<u8>>) -> bool {
    route.method == method && pattern_matches(route.pattern, parts)
}

/// Whether the route at `index` is the first of `routes` that answers the
/// request.
pub open spec fn is_first_taker(
    routes: Seq<RouteView>,
    method: Method,
    parts: Seq<Seq<u8>>,
    index: int,
) -> bool {
    &&& 0 <= index < routes.len()
    &&& takes(routes[index], method, parts)
    &&& forall|j: int| 0 <= j < index ==> !takes(#[trigger] routes[j], method, parts)
}

/// Whether no route of `routes` answers the request.
pub open spec fn none_takes(routes: Seq<RouteView>, method: Method, parts: Seq<Seq<u8>>) -> bool {
    forall|j: int| 0 <= j < routes.len() ==> !takes(#[trigger] routes[j], method, parts)
}

/// Whether `outcome` is what matching the request against `routes` gives:
/// the first route that answers it, with its handler and its bindings, or
/// nothing where no route answers it.
pub open spec fn resolves(
    routes: Seq<RouteView>,
    method: Method,
    parts: Seq<Seq<u8>>,
    outcome: Option<MatchView>,
) -> bool {
    match outcome {
        Some(found) => {
            &&& is_first_taker(routes, method, parts, found.route)
            &&& found.handler == routes[found.route].handler
            &&& found.params == bindings(routes[found.route].pattern, parts)
        },
        None => none_takes(routes, method, parts),
    }
}

/// Whether `routes` holds a route with the method `method` and the pattern
/// `pattern`.
pub open spec fn is_registered(
    routes: Seq<RouteView>,
    method: Method,
    pattern: Seq<SegmentView>,
) -> bool {
    exists|i: int|
        0 <= i < routes.len() && (#[trigger] routes[i]).method == method && routes[i].pattern
            == pattern
}

/// Whether no two routes of `routes` have the same method and pattern.
pub open spec fn no_duplicates(routes: Seq<RouteView>) -> bool {
    forall|i: int, j: int|
        0 <= i < j < routes.len() ==> !((#[trigger] routes[i]).method == (
        #[trigger] routes[j]).method && routes[i].pattern == routes[j].pattern)
}

/// One registered route.
#[derive(Debug)]
pub struct Route {
    method: Method,
    pattern: Pattern,
    handler: usize,
}

impl View for Route {
    type V = RouteView;

    closed spec fn view(&self) -> RouteView {
        RouteView { method: self.method, pattern: self.pattern@, handler: self.handler }
    }
}

impl Route {
    /// The method of the route.
    pub fn method(&self) -> (r: Method)
        ensures
            r == self@.method,
    {
        self.method
    }

    /// The pattern of the route.
    pub fn pattern(&self) -> (r: &Pattern)
        ensures
            r@ == self@.pattern,
    {
        &self.pattern
    }

    /// The handler that the route leads to.
    pub fn handler(&self) -> (r: usize)
        ensures
            r == self@.handler,
    {
        self.handler
    }
}

/// What the routes of a table are.
pub open spec fn route_views(routes: Seq<Route>) -> Seq<RouteView> {
    Seq::new(routes.len(), |i: int| routes[i]@)
}

/// The route that matched a request.
#[derive(Debug)]
pub struct RouteMatch {
    /// The place of the route in the table, counted from 0 in the order of
    /// registration.
    pub route: usize,
    /// The handler of the route.
    pub handler: usize,
    /// The bindings of the pattern's parameters.
    pub params: Params,
}

impl View for RouteMatch {
    type V = MatchView;

    open spec fn view(&self) -> MatchView {
        MatchView { route: self.route as int, handler: self.handler, params: self.params@ }
    }
}

/// No route answers the request.
#[derive(Clone, Copy, Debug, PartialEq, Eq, Structural)]
pub struct RouteNotFound;

/// Why a route was not registered.
#[derive(Clone, Copy, Debug, PartialEq, Eq, Structural)]
pub enum RegisterError {
    /// The text is not a pattern.
    Pattern(PatternError),
    /// A route with this method and this pattern is registered already. The
    /// earlier registration stands.
    Duplicate,
}

/// What a match gave, as a plain value.
pub open spec fn outcome_view(outcome: Result<RouteMatch, RouteNotFound>) -> Option<MatchView> {
    match outcome {
        Ok(found) => Some(found@),
        Err(_) => None,
    }
}

/// The routes of an application, in the order of their registration.
#[derive(Debug)]
pub struct RouteTable {
    routes: Vec<Route>,
}

impl View for RouteTable {
    type V = Seq<RouteView>;

    closed spec fn view(&self) -> Seq<RouteView> {
        route_views(self.routes@)
    }
}

impl RouteTable {
    /// Whether the patterns are free of faults and no route is registered
    /// twice. This holds of the empty table, and registering keeps it.
    pub open spec fn well_formed(self) -> bool {
        &&& no_duplicates(self@)
        &&& forall|i: int| 0 <= i < self@.len() ==> fault((#[trigger] self@[i]).pattern) is None
    }

    /// The table without routes.
    pub fn new() -> (r: RouteTable)
        ensures
            r@ == Seq::<RouteView>::empty(),
            r.well_formed(),
    {
        let r = RouteTable { routes: Vec::new() };
        assert(r@ =~= Seq::empty());
        r
    }

    /// The number of routes.
    pub fn len(&self) -> (r: usize)
        ensures
            r == self@.len(),
    {
        self.routes.len()
    }

    /// The route at `index`, if there is one.
    pub fn get(&self, index: usize) -> (r: Option<&Route>)
        ensures
            r is Some <==> index < self@.len(),
            r matches Some(route) ==> route@ == self@[index as int],
    {
        if index < self.routes.len() {
            Some(&self.routes[index])
        } else {
            None
        }
    }

    /// Whether a route with the method `method` and the pattern `pattern` is
    /// registered.
    pub fn contains(&self, method: Method, pattern: &Pattern) -> (r: bool)
        ensures
            r == is_registered(self@, method, pattern@),
    {
        let mut i: usize = 0;
        while i < self.routes.len()
            invariant
                i <= self.routes@.len(),
                forall|k: int|
                    0 <= k < i ==> !((#[trigger] self@[k]).method == method && self@[k].pattern
                        == pattern@),
            decreases self.routes@.len() - i,
        {
            if self.routes[i].method == method && self.routes[i].pattern.same_as(pattern) {
                assert(self@[i as int].method == method && self@[i as int].pattern == pattern@);
                return true;
            }
            i += 1;
        }
        false
    }

    /// Registers a route: reads `pattern` and adds the route after those
    /// that are there. A text that is no pattern is refused. So is a route
    /// whose method and pattern are registered already: the first
    /// registration wins. A refusal leaves the table as it was.
    pub fn register(&mut self, method: Method, pattern: &str, handler: usize) -> (r: Result<
        (),
        RegisterError,
    >)
        ensures
            old(self).well_formed() ==> final(self).well_formed(),
            match r {
                Ok(_) => {
                    &&& fault(described(pattern.spec_bytes())) is None
                    &&& !is_registered(old(self)@, method, described(pattern.spec_bytes()))
                    &&& final(self)@ == old(self)@.push(
                        RouteView { method, pattern: described(pattern.spec_bytes()), handler },
                    )
                },
                Err(RegisterError::Pattern(error)) => {
                    &&& fault(described(pattern.spec_bytes())) == Some(error)
                    &&& final(self)@ == old(self)@
                },
                Err(RegisterError::Duplicate) => {
                    &&& fault(described(pattern.spec_bytes())) is None
                    &&& is_registered(old(self)@, method, described(pattern.spec_bytes()))
                    &&& final(self)@ == old(self)@
                },
            },
    {
        let parsed = match Pattern::parse(pattern) {
            Ok(parsed) => parsed,
            Err(error) => {
                return Err(RegisterError::Pattern(error));
            },
        };
        if self.contains(method, &parsed) {
            return Err(RegisterError::Duplicate);
        }
        let ghost before = self@;
        let ghost added = RouteView { method, pattern: parsed@, handler };
        self.routes.push(Route { method, pattern: parsed, handler });
        assert(self@ =~= before.push(added));
        Ok(())
    }

    /// Matches a request: finds the first route, in the order of
    /// registration, that has the method `method` and whose pattern matches
    /// `path`, and binds the parameters of its pattern.
    pub fn match_route(&self, method: Method, path: &str) -> (r: Result<RouteMatch, RouteNotFound>)
        ensures
            resolves(self@, method, segments_of(path.spec_bytes()), outcome_view(r)),
    {
        let parts = split_path(path.as_bytes());
        let ghost given = part_views(parts@);
        let mut i: usize = 0;
        while i < self.routes.len()
            invariant
                i <= self.routes@.len(),
                given == part_views(parts@),
                given == segments_of(path.spec_bytes()),
                forall|k: int| 0 <= k < i ==> !takes(#[trigger] self@[k], method, given),
            decreases self.routes@.len() - i,
        {
            if self.routes[i].method == method {
                match self.routes[i].pattern.capture(&parts) {
                    Some(params) => {
                        assert(takes(self@[i as int], method, given));
                        return Ok(RouteMatch { route: i, handler: self.routes[i].handler, params });
                    },
                    None => {},
                }
            }
            i += 1;
        }
        Err(RouteNotFound)
    }
}

/// Matching is a function of the table and the request: two outcomes of
/// matching the same request against the same table are the same outcome,
/// with the same route, the same handler and the same bindings.
pub proof fn lemma_match_is_deterministic(
    routes: Seq<RouteView>,
    method: Method,
    parts: Seq<Seq<u8>>,
    first: Option<MatchView>,
    second: Option<MatchView>,
)
    requires
        resolves(routes, method, parts, first),
        resolves(routes, method, parts, second),
    ensures
        first == second,
{
    match (first, second) {
        (Some(a), Some(b)) => {
            if a.route < b.route {
                assert(!takes(routes[a.route], method, parts));
            } else if b.route < a.route {
                assert(!takes(routes[b.route], method, parts));
            }
        },
        (Some(a), None) => {
            assert(!takes(routes[a.route], method, parts));
        },
        (None, Some(b)) => {
            assert(!takes(routes[b.route], method, parts));
        },
        (None, None) => {},
    }
}

/// Matching always has an outcome: for every table and every request there
/// is one, and by the law above only one.
pub proof fn lemma_match_has_an_outcome(
    routes: Seq<RouteView>,
    method: Method,
    parts: Seq<Seq<u8>>,
) -> (outcome: Option<MatchView>)
    ensures
        resolves(routes, method, parts, outcome),
    decreases routes.len(),
{
    if routes.len() == 0 {
        None
    } else {
        let earlier = routes.drop_last();
        match lemma_match_has_an_outcome(earlier, method, parts) {
            Some(found) => {
                assert(routes[found.route] == earlier[found.route]);
                assert forall|j: int| 0 <= j < found.route implies !takes(
                    #[trigger] routes[j],
                    method,
                    parts,
                ) by {
                    assert(routes[j] == earlier[j]);
                }
                Some(found)
            },
            None => {
                assert forall|j: int| 0 <= j < routes.len() - 1 implies !takes(
                    #[trigger] routes[j],
                    method,
                    parts,
                ) by {
                    assert(routes[j] == earlier[j]);
                }
                if takes(routes.last(), method, parts) {
                    Some(
                        MatchView {
                            route: routes.len() - 1,
                            handler: routes.last().handler,
                            params: bindings(routes.last().pattern, parts),
                        },
                    )
                } else {
                    None
                }
            },
        }
    }
}

/// The order of registration decides: where the route at `index` answers a
/// request, the request is matched, and by that route or one registered
/// before it, never by one registered after it.
pub proof fn lemma_earlier_route_wins(
    routes: Seq<RouteView>,
    method: Method,
    parts: Seq<Seq<u8>>,
    index: int,
    outcome: Option<MatchView>,
)
    requires
        0 <= index < routes.len(),
        takes(routes[index], method, parts),
        resolves(routes, method, parts, outcome),
    ensures
        outcome matches Some(found) && found.route <= index,
{
    match outcome {
        Some(found) => {
            if index < found.route {
                assert(!takes(routes[index], method, parts));
            }
        },
        None => {
            assert(!takes(routes[index], method, parts));
        },
    }
}

/// A request that no route answers is not matched, whatever the table holds
/// for other methods and paths.
pub proof fn lemma_unregistered_is_not_found(
    routes: Seq<RouteView>,
    method: Method,
    parts: Seq<Seq<u8>>,
    outcome: Option<MatchView>,
)
    requires
        none_takes(routes, method, parts),
        resolves(routes, method, parts, outcome),
    ensures
        outcome is None,
{
    if let Some(found) = outcome {
        assert(!takes(routes[found.route], method, parts));
    }
}

/// The first registration wins: a route that is added to a table changes
/// nothing for the requests that the table matched before. In particular, a
/// second route with the method and pattern of an earlier one would never be
/// chosen.
pub proof fn lemma_later_route_changes_no_match(
    routes: Seq<RouteView>,
    added: RouteView,
    method: Method,
    parts: Seq<Seq<u8>>,
    found: MatchView,
)
    requires
        resolves(routes, method, parts, Some(found)),
    ensures
        resolves(routes.push(added), method, parts, Some(found)),
{
    let longer = routes.push(added);
    assert(longer[found.route] == routes[found.route]);
    assert forall|j: int| 0 <= j < found.route implies !takes(
        #[trigger] longer[j],
        method,
        parts,
    ) by {
        assert(longer[j] == routes[j]);
    }
}

} // verus!
