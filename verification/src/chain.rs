//! The order in which the middlewares and the endpoint run.
//!
//! Middlewares are numbered from 0 in the order of their registration. Each
//! has a part that runs before the endpoint and a part that runs after it.
//! They surround the endpoint like nested calls: the first registered is the
//! outermost, so its first part runs first and its second part runs last. A
//! middleware that answers the request itself ends the way in: the endpoint
//! and the middlewares inside it do not run, and the way out starts with the
//! middleware just outside it.
//!
//! The chain is a small machine. The embedding program performs the step the
//! machine names, reports whether a middleware answered the request itself,
//! and asks for the next step.

use vstd::prelude::*;

verus! {

/// One step of the run of a chain.
#[derive(Clone, Copy, Debug, PartialEq, Eq, Structural)]
pub enum Step {
    /// The part of this middleware that runs before the endpoint.
    Before(usize),
    /// The endpoint itself.
    Endpoint,
    /// The part of this middleware that runs after the endpoint.
    After(usize),
    /// Nothing is left to run.
    Done,
}

/// Whether `step` can occur in the run of a chain of `len` middlewares.
pub open spec fn is_step_of(len: usize, step: Step) -> bool {
    match step {
        Step::Before(i) => i < len,
        Step::After(i) => i < len,
        _ => true,
    }
}

/// The step with which the run of a chain of `len` middlewares begins.
pub open spec fn first_step(len: usize) -> Step {
    if len == 0 {
        Step::Endpoint
    } else {
        Step::Before(0)
    }
}

/// The step that follows `step` in a chain of `len` middlewares. `answered`
/// says whether the middleware of `step` answered the request itself; it
/// counts only where `step` is the first part of a middleware.
pub open spec fn next_step(len: usize, step: Step, answered: bool) -> Step {
    match step {
        Step::Before(i) => if answered {
            if i == 0 {
                Step::Done
            } else {
                Step::After((i - 1) as usize)
            }
        } else if i + 1 < len {
            Step::Before((i + 1) as usize)
        } else {
            Step::Endpoint
        },
        Step::Endpoint => if len == 0 {
            Step::Done
        } else {
            Step::After((len - 1) as usize)
        },
        Step::After(i) => if i == 0 {
            Step::Done
        } else {
            Step::After((i - 1) as usize)
        },
        Step::Done => Step::Done,
    }
}

/// The whole run of a chain of `len` middlewares, step by step. `stop` names
/// the middleware that answers the request itself, if one does.
pub open spec fn run(len: usize, stop: Option<usize>) -> Seq<Step> {
    match stop {
        None => Seq::new(
            (2 * len + 1) as nat,
            |p: int|
                if p < len {
                    Step::Before(p as usize)
                } else if p == len {
                    Step::Endpoint
                } else {
                    Step::After((2 * len - p) as usize)
                },
        ),
        Some(k) => Seq::new(
            (2 * k + 1) as nat,
            |p: int|
                if p <= k {
                    Step::Before(p as usize)
                } else {
                    Step::After((2 * k - p) as usize)
                },
        ),
    }
}

/// Whether the middleware of `step` is the one that answers the request
/// itself.
pub open spec fn answers(stop: Option<usize>, step: Step) -> bool {
    match step {
        Step::Before(i) => stop == Some(i),
        _ => false,
    }
}

/// The machine that walks a chain.
#[derive(Clone, Copy, Debug)]
pub struct Chain {
    len: usize,
    step: Step,
}

impl Chain {
    /// The number of middlewares.
    pub closed spec fn size(self) -> usize {
        self.len
    }

    /// The step that is to be performed now.
    pub closed spec fn position(self) -> Step {
        self.step
    }

    /// The step of every chain is one of its own steps.
    #[verifier::type_invariant]
    pub open spec fn well_formed(self) -> bool {
        is_step_of(self.size(), self.position())
    }

    /// The chain of `len` middlewares, at its first step.
    pub fn new(len: usize) -> (r: Chain)
        ensures
            r.size() == len,
            r.position() == first_step(len),
            r.well_formed(),
    {
        if len == 0 {
            Chain { len, step: Step::Endpoint }
        } else {
            Chain { len, step: Step::Before(0) }
        }
    }

    /// The number of middlewares.
    pub fn len(&self) -> (r: usize)
        ensures
            r == self.size(),
    {
        self.len
    }

    /// The step that is to be performed now.
    pub fn current(&self) -> (r: Step)
        ensures
            r == self.position(),
            is_step_of(self.size(), r),
    {
        proof {
            use_type_invariant(self);
        }
        self.step
    }

    /// Whether nothing is left to run.
    pub fn is_done(&self) -> (r: bool)
        ensures
            r == (self.position() == Step::Done),
    {
        match self.step {
            Step::Done => true,
            _ => false,
        }
    }

    /// The chain after the current step has been performed. `answered` says
    /// whether the middleware of that step answered the request itself.
    pub fn advance(self, answered: bool) -> (r: Chain)
        ensures
            r.size() == self.size(),
            r.position() == next_step(self.size(), self.position(), answered),
            r.well_formed(),
    {
        proof {
            use_type_invariant(&self);
        }
        let len = self.len;
        let step = match self.step {
            Step::Before(i) => {
                if answered {
                    if i == 0 {
                        Step::Done
                    } else {
                        Step::After(i - 1)
                    }
                } else if i + 1 < len {
                    Step::Before(i + 1)
                } else {
                    Step::Endpoint
                }
            },
            Step::Endpoint => {
                if len == 0 {
                    Step::Done
                } else {
                    Step::After(len - 1)
                }
            },
            Step::After(i) => {
                if i == 0 {
                    Step::Done
                } else {
                    Step::After(i - 1)
                }
            },
            Step::Done => Step::Done,
        };
        Chain { len, step }
    }
}

/// The machine walks the run: the run begins with the machine's first step,
/// each step of the run is followed by the step that the machine takes next,
/// and after the last step of the run the machine is done.
pub proof fn lemma_chain_walks_the_run(len: usize, stop: Option<usize>, p: int)
    requires
        stop matches Some(k) ==> k < len,
        0 <= p < run(len, stop).len(),
    ensures
        run(len, stop)[0] == first_step(len),
        is_step_of(len, run(len, stop)[p]),
        next_step(len, run(len, stop)[p], answers(stop, run(len, stop)[p])) == (if p + 1 < run(
            len,
            stop,
        ).len() {
            run(len, stop)[p + 1]
        } else {
            Step::Done
        }),
{
}

/// Middlewares nest in the order of their registration. Where none answers
/// the request itself and `outer` was registered before `inner`, the first
/// part of `outer` runs before the first part of `inner`, both run before the
/// endpoint, and after the endpoint the second part of `inner` runs before the
/// second part of `outer`. Each of these steps occurs exactly once in the run.
pub proof fn lemma_middlewares_nest(len: usize, outer: usize, inner: usize)
    requires
        outer < inner < len,
    ensures
        run(len, None)[outer as int] == Step::Before(outer),
        run(len, None)[inner as int] == Step::Before(inner),
        run(len, None)[len as int] == Step::Endpoint,
        run(len, None)[2 * len - inner] == Step::After(inner),
        run(len, None)[2 * len - outer] == Step::After(outer),
        outer < inner < len < 2 * len - inner < 2 * len - outer < run(len, None).len(),
        forall|p: int, q: int|
            0 <= p < run(len, None).len() && 0 <= q < run(len, None).len() && run(len, None)[p]
                == run(len, None)[q] ==> p == q,
{
}

/// A middleware that answers the request itself cuts the run short. Where the
/// middleware `stop` does so, the first parts of the middlewares up to `stop`
/// run in the order of registration, the endpoint and the middlewares
/// registered after `stop` do not run at all, and the second parts of the
/// middlewares before `stop` run in the reverse order.
pub proof fn lemma_answer_cuts_the_run(len: usize, stop: usize, other: usize)
    requires
        stop < len,
        other < len,
    ensures
        other <= stop ==> run(len, Some(stop))[other as int] == Step::Before(other),
        other < stop ==> run(len, Some(stop))[2 * stop - other] == Step::After(other),
        forall|p: int|
            0 <= p < run(len, Some(stop)).len() ==> {
                &&& run(len, Some(stop))[p] != Step::Endpoint
                &&& run(len, Some(stop))[p] != Step::After(stop)
                &&& other > stop ==> run(len, Some(stop))[p] != Step::Before(other) && run(
                    len,
                    Some(stop),
                )[p] != Step::After(other)
            },
{
}

} // verus!
