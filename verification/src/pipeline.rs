//! The decisions of the dispatch pipeline: events, actions, and the function
//! from one to the other.
use vstd::prelude::*;
use crate::message::{not_found_view, Request, RequestView, Response, ResponseView};

verus! {

/// The class of stage that a failure came from.
#[derive(Clone, Copy, Debug, PartialEq, Eq, Structural)]
pub enum Stage {
    PreMiddleware,
    Route,
    PostMiddleware,
}

/// A stage's failure, with the class of the stage that failed.
#[derive(Clone, Debug, PartialEq, Eq)]
pub struct Failure {
    pub stage: Stage,
    pub cause: String,
}

/// The mathematical value of a [`Failure`].
pub struct FailureView {
    pub stage: Stage,
    pub cause: Seq<char>,
}

impl View for Failure {
    type V = FailureView;

    open spec fn view(&self) -> FailureView {
        FailureView { stage: self.stage, cause: self.cause@ }
    }
}

impl Failure {
    /// The sentence that says which class of stage failed.
    pub fn context(&self) -> (text: &'static str)
        ensures
            text@ == stage_context(self.stage),
    {
        match self.stage {
            Stage::PreMiddleware => "One of the pre middlewares couldn't process the request",
            Stage::Route => "One of the routes couldn't process the request",
            Stage::PostMiddleware => "One of the post middlewares couldn't process the response",
        }
    }
}

/// The sentence that goes with a failure of the class `stage`.
pub open spec fn stage_context(stage: Stage) -> Seq<char> {
    match stage {
        Stage::PreMiddleware => "One of the pre middlewares couldn't process the request"@,
        Stage::Route => "One of the routes couldn't process the request"@,
        Stage::PostMiddleware => "One of the post middlewares couldn't process the response"@,
    }
}

/// What happened last. An event that reports on a stage repeats the index
/// of the action that it answers.
#[derive(Debug, PartialEq, Eq)]
#[allow(inconsistent_fields)]
pub enum Event {
    /// A request came in.
    Arrived { request: Request },
    /// Pre-middleware `index` returned.
    PreDone { index: usize, outcome: Result<Request, String> },
    /// Route `index` was tested against the path and the request's method.
    Tested { index: usize, matched: bool, request: Request },
    /// The handler of the matched route returned.
    RouteDone { outcome: Result<Response, String> },
    /// Post-middleware `index` returned.
    PostDone { index: usize, outcome: Result<Response, String> },
}

/// What the caller is to do next.
#[derive(Debug, PartialEq, Eq)]
pub enum Action {
    /// Run pre-middleware `index` on `request`.
    RunPre { index: usize, request: Request },
    /// Test route `index` against the path and the method of `request`.
    TestRoute { index: usize, request: Request },
    /// Run the handler of route `index` on `request`.
    RunRoute { index: usize, request: Request },
    /// Run post-middleware `index` on `response`.
    RunPost { index: usize, response: Response },
    /// The pipeline is over: hand this to the caller.
    Finish { result: Result<Response, Failure> },
}

/// The mathematical value of an [`Event`].
#[allow(inconsistent_fields)]
pub enum EventView {
    Arrived { request: RequestView },
    PreDone { index: int, outcome: Result<RequestView, Seq<char>> },
    Tested { index: int, matched: bool, request: RequestView },
    RouteDone { outcome: Result<ResponseView, Seq<char>> },
    PostDone { index: int, outcome: Result<ResponseView, Seq<char>> },
}

/// The mathematical value of an [`Action`].
pub enum ActionView {
    RunPre { index: int, request: RequestView },
    TestRoute { index: int, request: RequestView },
    RunRoute { index: int, request: RequestView },
    RunPost { index: int, response: ResponseView },
    Finish { result: Result<ResponseView, FailureView> },
}

impl View for Event {
    type V = EventView;

    open spec fn view(&self) -> EventView {
        match *self {
            Event::Arrived { request } => EventView::Arrived { request: request@ },
            Event::PreDone { index, outcome } => EventView::PreDone {
                index: index as int,
                outcome: match outcome {
                    Ok(request) => Ok(request@),
                    Err(cause) => Err(cause@),
                },
            },
            Event::Tested { index, matched, request } => EventView::Tested {
                index: index as int,
                matched,
                request: request@,
            },
            Event::RouteDone { outcome } => EventView::RouteDone {
                outcome: match outcome {
                    Ok(response) => Ok(response@),
                    Err(cause) => Err(cause@),
                },
            },
            Event::PostDone { index, outcome } => EventView::PostDone {
                index: index as int,
                outcome: match outcome {
                    Ok(response) => Ok(response@),
                    Err(cause) => Err(cause@),
                },
            },
        }
    }
}

impl View for Action {
    type V = ActionView;

    open spec fn view(&self) -> ActionView {
        match *self {
            Action::RunPre { index, request } => ActionView::RunPre {
                index: index as int,
                request: request@,
            },
            Action::TestRoute { index, request } => ActionView::TestRoute {
                index: index as int,
                request: request@,
            },
            Action::RunRoute { index, request } => ActionView::RunRoute {
                index: index as int,
                request: request@,
            },
            Action::RunPost { index, response } => ActionView::RunPost {
                index: index as int,
                response: response@,
            },
            Action::Finish { result } => ActionView::Finish {
                result: match result {
                    Ok(response) => Ok(response@),
                    Err(failure) => Err(failure@),
                },
            },
        }
    }
}

/// How many stages of each class a router holds.
pub struct Counts {
    pub pre: nat,
    pub routes: nat,
    pub post: nat,
}

/// A failure of the given class.
pub open spec fn failed(stage: Stage, cause: Seq<char>) -> ActionView {
    ActionView::Finish { result: Err(FailureView { stage, cause }) }
}

/// The post-chain from position `index` on: the next post-middleware, or
/// the end of the pipeline where none is left.
pub open spec fn post_from(counts: Counts, index: int, response: ResponseView) -> ActionView {
    if 0 <= index < counts.post {
        ActionView::RunPost { index, response }
    } else {
        ActionView::Finish { result: Ok(response) }
    }
}

/// The route scan from position `index` on: the next route to test, or the
/// post-chain on the "not found" response where none is left.
pub open spec fn scan_from(counts: Counts, index: int, request: RequestView) -> ActionView {
    if 0 <= index < counts.routes {
        ActionView::TestRoute { index, request }
    } else {
        post_from(counts, 0, not_found_view())
    }
}

/// The pre-chain from position `index` on: the next pre-middleware, or the
/// route scan from its start where none is left.
pub open spec fn pre_from(counts: Counts, index: int, request: RequestView) -> ActionView {
    if 0 <= index < counts.pre {
        ActionView::RunPre { index, request }
    } else {
        scan_from(counts, 0, request)
    }
}

/// The action that answers an event.
pub open spec fn decide(counts: Counts, event: EventView) -> ActionView {
    match event {
        EventView::Arrived { request } => pre_from(counts, 0, request),
        EventView::PreDone { index, outcome } => match outcome {
            Ok(request) => pre_from(counts, index + 1, request),
            Err(cause) => failed(Stage::PreMiddleware, cause),
        },
        EventView::Tested { index, matched, request } => {
            if matched && 0 <= index < counts.routes {
                ActionView::RunRoute { index, request }
            } else {
                scan_from(counts, index + 1, request)
            }
        },
        EventView::RouteDone { outcome } => match outcome {
            Ok(response) => post_from(counts, 0, response),
            Err(cause) => failed(Stage::Route, cause),
        },
        EventView::PostDone { index, outcome } => match outcome {
            Ok(response) => post_from(counts, index + 1, response),
            Err(cause) => failed(Stage::PostMiddleware, cause),
        },
    }
}

/// A bound on the number of actions that can still follow `action`.
pub open spec fn rank(counts: Counts, action: ActionView) -> nat {
    match action {
        ActionView::Finish { result } => 0,
        ActionView::RunPost { index, response } => 1 + remaining(counts.post, index),
        ActionView::RunRoute { index, request } => 2 + counts.post,
        ActionView::TestRoute { index, request } => 3 + counts.post + 2 * remaining(
            counts.routes,
            index,
        ),
        ActionView::RunPre { index, request } => 4 + counts.post + 2 * counts.routes + remaining(
            counts.pre,
            index,
        ),
    }
}

/// How far `index` lies before the end of a sequence of `len` items.
pub open spec fn remaining(len: nat, index: int) -> nat {
    if index < len {
        (len - index) as nat
    } else {
        0
    }
}

/// Whether the stage that `action` names is registered.
pub open spec fn in_range(counts: Counts, action: ActionView) -> bool {
    match action {
        ActionView::RunPre { index, request } => 0 <= index < counts.pre,
        ActionView::TestRoute { index, request } => 0 <= index < counts.routes,
        ActionView::RunRoute { index, request } => 0 <= index < counts.routes,
        ActionView::RunPost { index, response } => 0 <= index < counts.post,
        ActionView::Finish { result } => true,
    }
}

/// Whether `event` reports on the stage that `action` asked for.
pub open spec fn answers(action: ActionView, event: EventView) -> bool {
    match action {
        ActionView::RunPre { index, request } => event matches EventView::PreDone {
            index: done,
            outcome,
        } && done == index,
        ActionView::TestRoute { index, request } => event matches EventView::Tested {
            index: done,
            matched,
            request: tested,
        } && done == index && tested == request,
        ActionView::RunRoute { index, request } => event is RouteDone,
        ActionView::RunPost { index, response } => event matches EventView::PostDone {
            index: done,
            outcome,
        } && done == index,
        ActionView::Finish { result } => false,
    }
}

/// How many stages of the class `stage` there are.
pub open spec fn stage_count(counts: Counts, stage: Stage) -> nat {
    match stage {
        Stage::PreMiddleware => counts.pre,
        Stage::Route => counts.routes,
        Stage::PostMiddleware => counts.post,
    }
}

/// The router never asks for a stage that is not registered, and each
/// answer brings the pipeline nearer to its end. A failure names a class
/// of which a stage was asked for.
pub proof fn decide_makes_progress(counts: Counts, action: ActionView, event: EventView)
    requires
        in_range(counts, action),
        answers(action, event),
    ensures
        in_range(counts, decide(counts, event)),
        rank(counts, decide(counts, event)) < rank(counts, action),
        decide(counts, event) matches ActionView::Finish { result: Err(failure) } ==> stage_count(
            counts,
            failure.stage,
        ) > 0,
{
}

/// The first action of a run names a registered stage, or ends the run
/// with a response.
pub proof fn arrival_is_in_range(counts: Counts, request: RequestView)
    ensures
        in_range(counts, decide(counts, EventView::Arrived { request })),
        !(decide(counts, EventView::Arrived { request }) matches ActionView::Finish {
            result: Err(failure),
        }),
        counts.pre == 0 && counts.routes == 0 && counts.post == 0 ==> decide(
            counts,
            EventView::Arrived { request },
        ) == (ActionView::Finish { result: Ok(not_found_view()) }),
{
}

} // verus!
