//! The life of one request.
//!
//! A request passes through the phases `Received`, then `Matched` or
//! `NotFound`, then `Dispatched`, `Converted` and `Sent`, in this order and
//! without leaving one out. The machine in this module keeps the phase,
//! decides what handles the request and walks the middleware chain. The
//! embedding program does what cannot be done here: it runs middlewares and
//! handlers, and reports back what happened.

use vstd::prelude::*;
use vstd::string::StringSliceAdditionalSpecFns;
use crate::chain::{first_step, is_step_of, next_step, Chain, Step};
use crate::params::Params;
use crate::path::segments_of;
use crate::response::{default_not_found, generic_error, IntoResponse, Response, ResponseView};
use crate::router::{
    lemma_match_is_deterministic, none_takes, resolves, MatchView, Method, RouteNotFound,
    RouteTable, RouteView,
};

verus! {

/// Where a request stands.
#[derive(Clone, Copy, Debug, PartialEq, Eq, Structural)]
pub enum Phase {
    /// The request has arrived.
    Received,
    /// A route answers the request.
    Matched,
    /// No route answers the request.
    NotFound,
    /// The context is built and the chain is running.
    Dispatched,
    /// The canonical response is at hand.
    Converted,
    /// The response has been handed to the transport.
    Sent,
}

/// What handles a request.
#[derive(Clone, Copy, Debug, PartialEq, Eq, Structural)]
pub enum Target {
    /// The matched route, by its place in the table, and its handler.
    Handler { route: usize, handler: usize },
    /// The not-found handler that the application installed.
    Fallback,
    /// The built-in answer to a request that no route answers.
    Default,
}

/// What can go wrong while a request is handled.
#[derive(Clone, Copy, Debug, PartialEq, Eq, Structural)]
pub enum ErrorKind {
    /// No route answers the request.
    RouteNotFound,
    /// A value could not be converted into a response.
    ConversionFailure,
    /// A handler returned an error.
    HandlerError,
    /// A handler broke off unexpectedly.
    HandlerPanic,
}

/// Whether a request in the phase `from` can be in the phase `to` next.
pub open spec fn follows(from: Phase, to: Phase) -> bool {
    match from {
        Phase::Received => to == Phase::Matched || to == Phase::NotFound,
        Phase::Matched => to == Phase::Dispatched,
        Phase::NotFound => to == Phase::Dispatched,
        Phase::Dispatched => to == Phase::Converted,
        Phase::Converted => to == Phase::Sent,
        Phase::Sent => false,
    }
}

/// Whether a request stays in its phase or goes on to the next.
pub open spec fn moves(from: Phase, to: Phase) -> bool {
    from == to || follows(from, to)
}

/// How far a phase is from the arrival of the request.
pub open spec fn rank(phase: Phase) -> int {
    match phase {
        Phase::Received => 0,
        Phase::Matched => 1,
        Phase::NotFound => 1,
        Phase::Dispatched => 2,
        Phase::Converted => 3,
        Phase::Sent => 4,
    }
}

/// What handles a request that no route answers.
pub open spec fn fallback_target(has_fallback: bool) -> Target {
    if has_fallback {
        Target::Fallback
    } else {
        Target::Default
    }
}

/// The response that stands for each kind of error. A request that no
/// route answers gets the built-in not-found response. Every other kind gets
/// the one generic error response, which tells nothing of what went wrong.
pub open spec fn error_view(kind: ErrorKind) -> ResponseView {
    match kind {
        ErrorKind::RouteNotFound => default_not_found(),
        ErrorKind::ConversionFailure => generic_error(),
        ErrorKind::HandlerError => generic_error(),
        ErrorKind::HandlerPanic => generic_error(),
    }
}

/// The response that stands for the error `kind`.
pub fn error_response(kind: ErrorKind) -> (r: Response)
    ensures
        r@ == error_view(kind),
        r@.well_formed(),
{
    match kind {
        ErrorKind::RouteNotFound => Response::not_found(),
        ErrorKind::ConversionFailure => Response::internal_error(),
        ErrorKind::HandlerError => Response::internal_error(),
        ErrorKind::HandlerPanic => Response::internal_error(),
    }
}

/// The response that ends a request: the one that the chain produced, or the
/// one that stands for the error that broke it off.
pub open spec fn final_view(outcome: Result<Response, ErrorKind>) -> ResponseView {
    match outcome {
        Ok(response) => response@,
        Err(kind) => error_view(kind),
    }
}

/// What a request context holds.
pub struct ContextView<S> {
    pub method: Option<Method>,
    pub path: Seq<char>,
    pub params: Seq<(Seq<u8>, Seq<u8>)>,
    pub state: S,
}

/// What a handler sees of a request: its method, if it is one of the
/// standard verbs, its path, the parameters that the matched route bound, and
/// the state that the application shares among all requests.
pub struct RequestContext<S> {
    method: Option<Method>,
    path: String,
    params: Params,
    state: S,
}

impl<S> View for RequestContext<S> {
    type V = ContextView<S>;

    closed spec fn view(&self) -> ContextView<S> {
        ContextView {
            method: self.method,
            path: self.path@,
            params: self.params@,
            state: self.state,
        }
    }
}

impl<S> RequestContext<S> {
    /// The method of the request, if it is one of the standard verbs.
    pub fn method(&self) -> (r: Option<Method>)
        ensures
            r == self@.method,
    {
        self.method
    }

    /// The path of the request.
    pub fn path(&self) -> (r: &str)
        ensures
            r@ == self@.path,
    {
        self.path.as_str()
    }

    /// The parameters that the matched route bound.
    pub fn params(&self) -> (r: &Params)
        ensures
            r@ == self@.params,
    {
        &self.params
    }

    /// The state that the application shares among all requests.
    pub fn state(&self) -> (r: &S)
        ensures
            *r == self@.state,
    {
        &self.state
    }
}

/// What the machine of one request holds.
pub struct DispatchView {
    pub phase: Phase,
    pub target: Target,
    pub middlewares: usize,
    pub step: Step,
}

impl DispatchView {
    /// The machine of a request that has just arrived.
    pub open spec fn received(middlewares: usize) -> DispatchView {
        DispatchView {
            phase: Phase::Received,
            target: Target::Default,
            middlewares,
            step: first_step(middlewares),
        }
    }

    /// The machine after matching has given `outcome`. Only a request that
    /// has just arrived is matched.
    pub open spec fn resolved(self, outcome: Option<MatchView>, has_fallback: bool) -> DispatchView {
        if self.phase != Phase::Received {
            self
        } else {
            match outcome {
                Some(found) => DispatchView {
                    phase: Phase::Matched,
                    target: Target::Handler { route: found.route as usize, handler: found.handler },
                    ..self
                },
                None => DispatchView {
                    phase: Phase::NotFound,
                    target: fallback_target(has_fallback),
                    ..self
                },
            }
        }
    }

    /// Whether the context can be built now.
    pub open spec fn can_dispatch(self) -> bool {
        self.phase == Phase::Matched || self.phase == Phase::NotFound
    }

    /// The machine after the context has been built.
    pub open spec fn dispatched(self) -> DispatchView {
        if self.can_dispatch() {
            DispatchView { phase: Phase::Dispatched, ..self }
        } else {
            self
        }
    }

    /// The machine after the current step of the chain has been performed.
    pub open spec fn advanced(self, answered: bool) -> DispatchView {
        if self.phase == Phase::Dispatched {
            DispatchView { step: next_step(self.middlewares, self.step, answered), ..self }
        } else {
            self
        }
    }

    /// Whether the request can be given its final response now: the chain
    /// has run to its end, or an error has broken it off.
    pub open spec fn can_complete(self, failed: bool) -> bool {
        self.phase == Phase::Dispatched && (failed || self.step == Step::Done)
    }

    /// The machine after the final response has been made.
    pub open spec fn completed(self, failed: bool) -> DispatchView {
        if self.can_complete(failed) {
            DispatchView { phase: Phase::Converted, ..self }
        } else {
            self
        }
    }

    /// The machine after the response has been handed to the transport.
    pub open spec fn sent(self) -> DispatchView {
        if self.phase == Phase::Converted {
            DispatchView { phase: Phase::Sent, ..self }
        } else {
            self
        }
    }
}

/// The outcome of matching that stands behind a target and the bindings that
/// came with it.
pub open spec fn outcome_of(target: Target, params: Seq<(Seq<u8>, Seq<u8>)>) -> Option<MatchView> {
    match target {
        Target::Handler { route, handler } => Some(
            MatchView { route: route as int, handler, params },
        ),
        _ => None,
    }
}

/// Whether `outcome` is what matching a request gives. A method that is none
/// of the standard verbs, for which `method` is `None`, is answered by no
/// route.
pub open spec fn answers_request(
    routes: Seq<RouteView>,
    method: Option<Method>,
    parts: Seq<Seq<u8>>,
    outcome: Option<MatchView>,
) -> bool {
    match method {
        Some(verb) => resolves(routes, verb, parts, outcome),
        None => outcome is None,
    }
}

/// The bindings that matching gave.
pub open spec fn bound_params(outcome: Option<MatchView>) -> Seq<(Seq<u8>, Seq<u8>)> {
    match outcome {
        Some(found) => found.params,
        None => Seq::empty(),
    }
}

/// The machine of one request.
#[derive(Clone, Copy, Debug)]
pub struct Dispatch {
    phase: Phase,
    target: Target,
    chain: Chain,
}

impl View for Dispatch {
    type V = DispatchView;

    closed spec fn view(&self) -> DispatchView {
        DispatchView {
            phase: self.phase,
            target: self.target,
            middlewares: self.chain.size(),
            step: self.chain.position(),
        }
    }
}

impl Dispatch {
    /// The machine of a request that has just arrived, in an application with
    /// `middlewares` middlewares.
    pub fn receive(middlewares: usize) -> (r: Dispatch)
        ensures
            r@ == DispatchView::received(middlewares),
    {
        Dispatch { phase: Phase::Received, target: Target::Default, chain: Chain::new(middlewares) }
    }

    /// The phase of the request.
    pub fn phase(&self) -> (r: Phase)
        ensures
            r == self@.phase,
    {
        self.phase
    }

    /// What handles the request. It is decided when the request is matched.
    pub fn target(&self) -> (r: Target)
        ensures
            r == self@.target,
    {
        self.target
    }

    /// The step of the chain that is to be performed now, while the chain is
    /// running.
    pub fn current_step(&self) -> (r: Option<Step>)
        ensures
            r == (if self@.phase == Phase::Dispatched {
                Some(self@.step)
            } else {
                None::<Step>
            }),
            r matches Some(step) ==> is_step_of(self@.middlewares, step),
    {
        match self.phase {
            Phase::Dispatched => Some(self.chain.current()),
            _ => None,
        }
    }

    /// Matches the request against `table`. Where a route answers it, the
    /// request is bound to the handler of the first such route and the result
    /// holds the bindings of its parameters. Where none does, the request is
    /// bound to the application's not-found handler if it has one
    /// (`has_fallback`), and to the built-in answer otherwise; never to a
    /// handler of the table. A request whose method is none of the standard
    /// verbs (`method` is `None`) is answered by no route. A request that has
    /// been matched before is left as it is.
    pub fn resolve(
        self,
        table: &RouteTable,
        has_fallback: bool,
        method: Option<Method>,
        path: &str,
    ) -> (r: (Dispatch, Params))
        ensures
            self@.phase != Phase::Received ==> r.0@ == self@ && r.1@ == Seq::<
                (Seq<u8>, Seq<u8>),
            >::empty(),
            self@.phase == Phase::Received ==> {
                &&& answers_request(
                    table@,
                    method,
                    segments_of(path.spec_bytes()),
                    outcome_of(r.0@.target, r.1@),
                )
                &&& r.0@ == self@.resolved(outcome_of(r.0@.target, r.1@), has_fallback)
                &&& r.1@ == bound_params(outcome_of(r.0@.target, r.1@))
            },
    {
        match self.phase {
            Phase::Received => {
                let found = match method {
                    Some(verb) => table.match_route(verb, path),
                    None => Err(RouteNotFound),
                };
                match found {
                    Ok(found) => (
                        Dispatch {
                            phase: Phase::Matched,
                            target: Target::Handler { route: found.route, handler: found.handler },
                            chain: self.chain,
                        },
                        found.params,
                    ),
                    Err(_) => {
                        let target = if has_fallback {
                            Target::Fallback
                        } else {
                            Target::Default
                        };
                        (Dispatch { phase: Phase::NotFound, target, chain: self.chain }, Params::new())
                    },
                }
            },
            _ => (self, Params::new()),
        }
    }

    /// Builds the context that the handler will see, from the request and
    /// the state that the application shares among all requests, and lets
    /// the chain start. This is done once the request has been matched, and
    /// at no other time.
    pub fn dispatch<S>(
        self,
        method: Option<Method>,
        path: &str,
        params: Params,
        state: S,
    ) -> (r: (
        Dispatch,
        Option<RequestContext<S>>,
    ))
        ensures
            r.0@ == self@.dispatched(),
            r.1 is Some <==> self@.can_dispatch(),
            r.1 matches Some(context) ==> context@ == (ContextView {
                method,
                path: path@,
                params: params@,
                state,
            }),
    {
        match self.phase {
            Phase::Matched | Phase::NotFound => (
                Dispatch { phase: Phase::Dispatched, target: self.target, chain: self.chain },
                Some(RequestContext { method, path: path.to_owned(), params, state }),
            ),
            _ => (self, None),
        }
    }

    /// Goes on to the next step of the chain, after the current one has been
    /// performed. `answered` says whether the middleware of that step
    /// answered the request itself. Outside the run of the chain nothing
    /// changes.
    pub fn advance(self, answered: bool) -> (r: Dispatch)
        ensures
            r@ == self@.advanced(answered),
    {
        match self.phase {
            Phase::Dispatched => Dispatch {
                phase: self.phase,
                target: self.target,
                chain: self.chain.advance(answered),
            },
            _ => self,
        }
    }

    /// Makes the final response of the request: the response that the chain
    /// produced, or the response that stands for the error that broke the
    /// chain off. A response is accepted once the chain has run to its end,
    /// an error at any step of the chain. At any other time there is no
    /// result and nothing changes.
    pub fn complete(self, outcome: Result<Response, ErrorKind>) -> (r: (Dispatch, Option<Response>))
        ensures
            r.0@ == self@.completed(outcome is Err),
            r.1 is Some <==> self@.can_complete(outcome is Err),
            r.1 matches Some(response) ==> response@ == final_view(outcome)
                && response@.well_formed(),
    {
        let ready = match self.phase {
            Phase::Dispatched => outcome.is_err() || self.chain.is_done(),
            _ => false,
        };
        if ready {
            let response = match outcome {
                Ok(response) => response.into_response(),
                Err(kind) => error_response(kind),
            };
            (
                Dispatch { phase: Phase::Converted, target: self.target, chain: self.chain },
                Some(response),
            )
        } else {
            (self, None)
        }
    }

    /// Records that the final response has been handed to the transport.
    pub fn sent(self) -> (r: Dispatch)
        ensures
            r@ == self@.sent(),
    {
        match self.phase {
            Phase::Converted => Dispatch {
                phase: Phase::Sent,
                target: self.target,
                chain: self.chain,
            },
            _ => self,
        }
    }
}

/// Whether the phase at `index` and the one after it are a move.
pub open spec fn is_move_at(phases: Seq<Phase>, index: int) -> bool {
    moves(phases[index], phases[index + 1])
}

/// Whether `phases` can be the phases of one request, as they are observed
/// one after the other from its arrival on.
pub open spec fn is_history(phases: Seq<Phase>) -> bool {
    &&& phases.len() > 0
    &&& phases[0] == Phase::Received
    &&& forall|i: int| 0 <= i < phases.len() - 1 ==> #[trigger] is_move_at(phases, i)
}

/// Every transition of the machine leaves the request in its phase or takes
/// it to the next one.
pub proof fn lemma_transitions_move(
    machine: DispatchView,
    outcome: Option<MatchView>,
    has_fallback: bool,
    answered: bool,
    failed: bool,
)
    ensures
        moves(machine.phase, machine.resolved(outcome, has_fallback).phase),
        moves(machine.phase, machine.dispatched().phase),
        moves(machine.phase, machine.advanced(answered).phase),
        moves(machine.phase, machine.completed(failed).phase),
        moves(machine.phase, machine.sent().phase),
{
}

/// In a history, every stretch of the way up to a phase has been gone: for
/// each rank up to that of the phase at `index` there is an earlier place
/// with a phase of that rank.
proof fn lemma_ranks_are_reached(phases: Seq<Phase>, index: int, wanted: int)
    requires
        is_history(phases),
        0 <= index < phases.len(),
        0 <= wanted <= rank(phases[index]),
    ensures
        exists|j: int| 0 <= j <= index && rank(#[trigger] phases[j]) == wanted,
    decreases index,
{
    if rank(phases[index]) == wanted {
    } else if index == 0 {
    } else {
        assert(is_move_at(phases, index - 1));
        lemma_ranks_are_reached(phases, index - 1, wanted);
    }
}

/// No phase is skipped: a request that has been sent was matched or found
/// to have no route, then dispatched, then converted, in this order.
pub proof fn lemma_no_phase_is_skipped(phases: Seq<Phase>)
    requires
        is_history(phases),
        phases.last() == Phase::Sent,
    ensures
        exists|a: int, b: int, c: int|
            0 < a < b < c < phases.len() - 1 && (#[trigger] phases[a] == Phase::Matched
                || phases[a] == Phase::NotFound) && #[trigger] phases[b] == Phase::Dispatched
                && #[trigger] phases[c] == Phase::Converted,
{
    let last = phases.len() - 1;
    lemma_ranks_are_reached(phases, last, 3);
    let c = choose|j: int| 0 <= j <= last && rank(#[trigger] phases[j]) == 3;
    lemma_ranks_are_reached(phases, c, 2);
    let b = choose|j: int| 0 <= j <= c && rank(#[trigger] phases[j]) == 2;
    lemma_ranks_are_reached(phases, b, 1);
    let a = choose|j: int| 0 <= j <= b && rank(#[trigger] phases[j]) == 1;
    assert(phases[a] == Phase::Matched || phases[a] == Phase::NotFound);
    assert(phases[b] == Phase::Dispatched);
    assert(phases[c] == Phase::Converted);
}

/// A request that no route answers falls back: it is bound to the not-found
/// handler where the application has one and to the built-in answer where it
/// has none, and in neither case to a handler of the table.
pub proof fn lemma_unmatched_request_falls_back(
    routes: Seq<RouteView>,
    method: Option<Method>,
    parts: Seq<Seq<u8>>,
    outcome: Option<MatchView>,
    has_fallback: bool,
    middlewares: usize,
)
    requires
        method matches Some(verb) ==> none_takes(routes, verb, parts),
        answers_request(routes, method, parts, outcome),
    ensures
        DispatchView::received(middlewares).resolved(outcome, has_fallback).phase
            == Phase::NotFound,
        DispatchView::received(middlewares).resolved(outcome, has_fallback).target
            == fallback_target(has_fallback),
        !(DispatchView::received(middlewares).resolved(outcome, has_fallback).target is Handler),
{
    if let Some(verb) = method {
        lemma_match_is_deterministic(routes, verb, parts, outcome, None);
    }
}

} // verus!
