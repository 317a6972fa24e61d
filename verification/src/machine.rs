//! The shape that every operation has: a step either asks for one HTTP call
//! and keeps the state to resume with, or ends the operation.

use crate::error::{ErrorView, MenderError};
use crate::wire::{Request, RequestView};
use vstd::prelude::*;

verus! {

/// One step of an operation.
#[derive(Debug, PartialEq)]
pub enum Step<S, T> {
    /// Perform `request`, then resume `state` with what came back.
    Call { state: S, request: Request },
    /// The operation is over.
    Done(Result<T, MenderError>),
}

/// Mathematical value of a [`Step`].
pub enum StepView<S, T> {
    Call { state: S, request: RequestView },
    Done(Result<T, ErrorView>),
}

impl<S: DeepView, T: DeepView> DeepView for Step<S, T> {
    type V = StepView<S::V, T::V>;

    open spec fn deep_view(&self) -> StepView<S::V, T::V> {
        match self {
            Step::Call { state, request } => StepView::Call {
                state: state.deep_view(),
                request: request@,
            },
            Step::Done(Ok(value)) => StepView::Done(Ok(value.deep_view())),
            Step::Done(Err(error)) => StepView::Done(Err(error@)),
        }
    }
}

impl<S: DeepView, T: DeepView> View for Step<S, T> {
    type V = StepView<S::V, T::V>;

    open spec fn view(&self) -> StepView<S::V, T::V> {
        self.deep_view()
    }
}

/// What an operation did with the events it was fed: the requests it
/// issued, in order, and how it ended (`None` while it still waits for the
/// answer to its last request).
pub struct Trace<T> {
    pub requests: Seq<RequestView>,
    pub outcome: Option<Result<T, ErrorView>>,
}

/// Runs an operation from its step `first`: each request is answered by the
/// next of `events`, and `advance` says how the operation moves on. Events
/// that are left when the operation ends are never asked for.
pub open spec fn run<S, E, T>(
    first: StepView<S, T>,
    advance: spec_fn(S, E) -> StepView<S, T>,
    events: Seq<E>,
) -> Trace<T>
    decreases events.len(),
{
    match first {
        StepView::Done(outcome) => Trace { requests: Seq::empty(), outcome: Some(outcome) },
        StepView::Call { state, request } => if events.len() == 0 {
            Trace { requests: seq![request], outcome: None }
        } else {
            let rest = run(advance(state, events[0]), advance, events.drop_first());
            Trace { requests: seq![request] + rest.requests, outcome: rest.outcome }
        },
    }
}

/// A run that has not ended has issued one request for each event it took
/// and one more, whose answer it waits for.
pub proof fn lemma_waiting_run<S, E, T>(
    first: StepView<S, T>,
    advance: spec_fn(S, E) -> StepView<S, T>,
    events: Seq<E>,
)
    requires
        run(first, advance, events).outcome is None,
    ensures
        first is Call,
        run(first, advance, events).requests.len() == events.len() + 1,
    decreases events.len(),
{
    if events.len() > 0 {
        lemma_waiting_run(advance(first->state, events[0]), advance, events.drop_first());
    }
}

/// An event that ends the operation wherever it stands ends the run at the
/// place where it is taken.
///
/// `good` is a relation between a state and the request it waits on that
/// holds at the first step and that `advance` keeps. Where the event
/// `events[k]` ends the operation, in every good state, with the outcome
/// that `ending` gives for the request waited on, and the operation has not
/// ended on the events before it, the run ends with that outcome for the
/// last request before the event, and no request follows.
pub proof fn lemma_run_ends_at<S, E, T>(
    first: StepView<S, T>,
    advance: spec_fn(S, E) -> StepView<S, T>,
    events: Seq<E>,
    k: int,
    good: spec_fn(S, RequestView) -> bool,
    ending: spec_fn(RequestView) -> Result<T, ErrorView>,
)
    requires
        0 <= k < events.len(),
        run(first, advance, events.take(k)).outcome is None,
        first matches StepView::Call { state, request } ==> good(state, request),
        forall|state: S, request: RequestView, event: E|
            #![trigger good(state, request), advance(state, event)]
            good(state, request) ==> (advance(state, event) matches StepView::Call {
                state: next,
                request: asked,
            } ==> good(next, asked)),
        forall|state: S, request: RequestView|
            #![trigger good(state, request)]
            good(state, request) ==> advance(state, events[k]) == StepView::<S, T>::Done(
                ending(request),
            ),
    ensures
        run(first, advance, events).outcome == Some(
            ending(run(first, advance, events.take(k)).requests.last()),
        ),
        run(first, advance, events).requests == run(first, advance, events.take(k)).requests,
    decreases k,
{
    let before = events.take(k);
    lemma_waiting_run(first, advance, before);
    let state = first->state;
    let request = first->request;
    let next = advance(state, events[0]);
    let later = events.drop_first();
    assert(good(state, request));
    if k == 0 {
        assert(before.len() == 0);
        assert(run(next, advance, later).requests =~= Seq::empty());
        assert(run(first, advance, events).requests =~= seq![request]);
    } else {
        assert(before[0] == events[0]);
        assert(before.drop_first() =~= later.take(k - 1));
        assert(later[k - 1] == events[k]);
        lemma_waiting_run(next, advance, later.take(k - 1));
        lemma_run_ends_at(next, advance, later, k - 1, good, ending);
        let tail = run(next, advance, later.take(k - 1));
        assert(run(first, advance, before).requests =~= seq![request] + tail.requests);
        assert(run(first, advance, events).requests =~= seq![request] + tail.requests);
        assert(run(first, advance, before).requests.last() == tail.requests.last());
    }
}

} // verus!
