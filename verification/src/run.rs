//! A model of whole pipeline runs, and what holds of every run.
//!
//! The stages are modelled as functions; a run is what comes of answering
//! each action of the router with the event that the stages give for it.
use vstd::prelude::*;
use vstd::utf8::encode_utf8;
use crate::message::{not_found_view, RequestView, ResponseView};
use crate::pipeline::{decide, failed, post_from, pre_from, rank, scan_from, ActionView, Counts, EventView, FailureView, Stage};

verus! {

/// A route as a pair of functions: its match predicate over path and
/// method, and its handler over path and request.
pub struct RouteModel {
    pub is_match: spec_fn(Seq<char>, Seq<char>) -> bool,
    pub process: spec_fn(Seq<char>, RequestView) -> Result<ResponseView, Seq<char>>,
}

/// The stages that serve one request, in registration order, and the
/// request's target path.
pub struct Stages {
    pub path: Seq<char>,
    pub pre: Seq<spec_fn(RequestView) -> Result<RequestView, Seq<char>>>,
    pub routes: Seq<RouteModel>,
    pub post: Seq<spec_fn(ResponseView) -> Result<ResponseView, Seq<char>>>,
}

impl Stages {
    /// How many stages of each class there are.
    pub open spec fn counts(self) -> Counts {
        Counts { pre: self.pre.len(), routes: self.routes.len(), post: self.post.len() }
    }

    /// Whether route `index` matches the path and `method`.
    pub open spec fn matches(self, index: int, method: Seq<char>) -> bool {
        (self.routes[index].is_match)(self.path, method)
    }

    /// What the handler of route `index` makes of `request`.
    pub open spec fn handle(self, index: int, request: RequestView) -> Result<
        ResponseView,
        Seq<char>,
    > {
        (self.routes[index].process)(self.path, request)
    }
}

/// The event with which the stages answer an action; none for the end of
/// the pipeline.
pub open spec fn answer(stages: Stages, action: ActionView) -> Option<EventView> {
    match action {
        ActionView::RunPre { index, request } => Some(
            EventView::PreDone { index, outcome: (stages.pre[index])(request) },
        ),
        ActionView::TestRoute { index, request } => Some(
            EventView::Tested { index, matched: stages.matches(index, request.method), request },
        ),
        ActionView::RunRoute { index, request } => Some(
            EventView::RouteDone { outcome: stages.handle(index, request) },
        ),
        ActionView::RunPost { index, response } => Some(
            EventView::PostDone { index, outcome: (stages.post[index])(response) },
        ),
        ActionView::Finish { result } => None,
    }
}

/// The result with which a run ends that has reached `action`.
pub open spec fn result(stages: Stages, action: ActionView) -> Result<ResponseView, FailureView>
    decreases rank(stages.counts(), action),
{
    match answer(stages, action) {
        Some(event) => result(stages, decide(stages.counts(), event)),
        None => match action {
            ActionView::Finish { result } => result,
            _ => arbitrary(),
        },
    }
}

/// The actions of a run from `action` on, in order; the last is the end of
/// the pipeline.
pub open spec fn trace(stages: Stages, action: ActionView) -> Seq<ActionView>
    decreases rank(stages.counts(), action),
{
    match answer(stages, action) {
        Some(event) => seq![action] + trace(stages, decide(stages.counts(), event)),
        None => seq![action],
    }
}

/// The first action of the run that serves `request`.
pub open spec fn start(stages: Stages, request: RequestView) -> ActionView {
    decide(stages.counts(), EventView::Arrived { request })
}

/// The request that leaves the pre-chain when `request` enters it at
/// position `from`, or the cause of the first failure.
pub open spec fn pre_chain(stages: Stages, from: int, request: RequestView) -> Result<
    RequestView,
    Seq<char>,
>
    decreases stages.pre.len() - from,
{
    if 0 <= from < stages.pre.len() {
        match (stages.pre[from])(request) {
            Ok(next) => pre_chain(stages, from + 1, next),
            Err(cause) => Err(cause),
        }
    } else {
        Ok(request)
    }
}

/// The response that leaves the post-chain when `response` enters it at
/// position `from`, or the cause of the first failure.
pub open spec fn post_chain(stages: Stages, from: int, response: ResponseView) -> Result<
    ResponseView,
    Seq<char>,
>
    decreases stages.post.len() - from,
{
    if 0 <= from < stages.post.len() {
        match (stages.post[from])(response) {
            Ok(next) => post_chain(stages, from + 1, next),
            Err(cause) => Err(cause),
        }
    } else {
        Ok(response)
    }
}

/// The lowest position at or behind `from` of a route that matches.
pub open spec fn first_match(stages: Stages, from: int, method: Seq<char>) -> Option<int>
    decreases stages.routes.len() - from,
{
    if 0 <= from < stages.routes.len() {
        if stages.matches(from, method) {
            Some(from)
        } else {
            first_match(stages, from + 1, method)
        }
    } else {
        None
    }
}

/// The end of a run whose response went through the post-chain.
pub open spec fn after_post(stages: Stages, response: ResponseView) -> Result<
    ResponseView,
    FailureView,
> {
    match post_chain(stages, 0, response) {
        Ok(last) => Ok(last),
        Err(cause) => Err(FailureView { stage: Stage::PostMiddleware, cause }),
    }
}

/// The end of a run whose request left the pre-chain as `request`, when
/// the routes from position `from` on are scanned.
pub open spec fn routed(stages: Stages, from: int, request: RequestView) -> Result<
    ResponseView,
    FailureView,
> {
    match first_match(stages, from, request.method) {
        Some(index) => match stages.handle(index, request) {
            Ok(response) => after_post(stages, response),
            Err(cause) => Err(FailureView { stage: Stage::Route, cause }),
        },
        None => after_post(stages, not_found_view()),
    }
}

/// What the pipeline makes of `request`: the pre-chain, the first route
/// that matches or else the "not found" response, then the post-chain; the
/// first failure ends it.
pub open spec fn outcome(stages: Stages, request: RequestView) -> Result<
    ResponseView,
    FailureView,
> {
    match pre_chain(stages, 0, request) {
        Ok(transformed) => routed(stages, 0, transformed),
        Err(cause) => Err(FailureView { stage: Stage::PreMiddleware, cause }),
    }
}

proof fn lemma_post(stages: Stages, from: int, response: ResponseView, start: ResponseView)
    requires
        0 <= from,
        post_chain(stages, 0, start) == post_chain(stages, from, response),
    ensures
        result(stages, post_from(stages.counts(), from, response)) == after_post(stages, start),
    decreases stages.post.len() - from,
{
    if from < stages.post.len() {
        match (stages.post[from])(response) {
            Ok(next) => {
                lemma_post(stages, from + 1, next, start);
            },
            Err(cause) => {
                assert(result(stages, failed(Stage::PostMiddleware, cause)) == Err::<
                    ResponseView,
                    FailureView,
                >(FailureView { stage: Stage::PostMiddleware, cause }));
            },
        }
    }
}

proof fn lemma_scan(stages: Stages, from: int, request: RequestView)
    requires
        0 <= from,
    ensures
        result(stages, scan_from(stages.counts(), from, request)) == routed(stages, from, request),
    decreases stages.routes.len() - from,
{
    let counts = stages.counts();
    if from < stages.routes.len() {
        if stages.matches(from, request.method) {
            let run = ActionView::RunRoute { index: from, request };
            assert(result(stages, scan_from(counts, from, request)) == result(stages, run));
            match stages.handle(from, request) {
                Ok(response) => {
                    lemma_post(stages, 0, response, response);
                },
                Err(cause) => {
                    assert(result(stages, failed(Stage::Route, cause)) == Err::<
                        ResponseView,
                        FailureView,
                    >(FailureView { stage: Stage::Route, cause }));
                },
            }
        } else {
            lemma_scan(stages, from + 1, request);
        }
    } else {
        lemma_post(stages, 0, not_found_view(), not_found_view());
    }
}

proof fn lemma_pre(stages: Stages, from: int, request: RequestView)
    requires
        0 <= from,
    ensures
        result(stages, pre_from(stages.counts(), from, request)) == (match pre_chain(
            stages,
            from,
            request,
        ) {
            Ok(transformed) => routed(stages, 0, transformed),
            Err(cause) => Err(FailureView { stage: Stage::PreMiddleware, cause }),
        }),
    decreases stages.pre.len() - from,
{
    if from < stages.pre.len() {
        match (stages.pre[from])(request) {
            Ok(next) => {
                lemma_pre(stages, from + 1, next);
            },
            Err(cause) => {
                assert(result(stages, failed(Stage::PreMiddleware, cause)) == Err::<
                    ResponseView,
                    FailureView,
                >(FailureView { stage: Stage::PreMiddleware, cause }));
            },
        }
    } else {
        lemma_scan(stages, 0, request);
    }
}

/// A run ends as the pipeline's description says: answering each action
/// of the router with the stages' event, from the request's arrival to
/// the end, gives exactly `outcome`.
pub proof fn run_gives_outcome(stages: Stages, request: RequestView)
    ensures
        result(stages, start(stages, request)) == outcome(stages, request),
{
    lemma_pre(stages, 0, request);
}

/// What `first_match` finds: a route that matches with none before it
/// that does, or nothing where no route matches.
pub proof fn first_match_is_lowest(stages: Stages, from: int, method: Seq<char>)
    requires
        0 <= from,
    ensures
        match first_match(stages, from, method) {
            Some(index) => from <= index < stages.routes.len() && stages.matches(index, method)
                && forall|j: int| from <= j < index ==> !stages.matches(j, method),
            None => forall|j: int| from <= j < stages.routes.len() ==> !stages.matches(j, method),
        },
    decreases stages.routes.len() - from,
{
    if from < stages.routes.len() && !stages.matches(from, method) {
        first_match_is_lowest(stages, from + 1, method);
    }
}

/// Where no pre-middleware fails and no route matches, the response that
/// enters the post-chain is the "not found" response; with no
/// post-middleware registered it is the result as it stands.
pub proof fn no_match_gives_not_found(stages: Stages, request: RequestView, transformed: RequestView)
    requires
        pre_chain(stages, 0, request) == Ok::<RequestView, Seq<char>>(transformed),
        forall|j: int| 0 <= j < stages.routes.len() ==> !stages.matches(j, transformed.method),
    ensures
        result(stages, start(stages, request)) == after_post(stages, not_found_view()),
        stages.post.len() == 0 ==> result(stages, start(stages, request)) == Ok::<
            ResponseView,
            FailureView,
        >(not_found_view()),
        not_found_view().status == 404,
        not_found_view().headers == seq![("content-type"@, "text/plain"@)],
        not_found_view().body == encode_utf8("Not Found"@),
{
    run_gives_outcome(stages, request);
    first_match_is_lowest(stages, 0, transformed.method);
}

/// Where several routes match, the one registered first handles the
/// request: the run ends as that route's handler and the post-chain make
/// it end, and no other route's handler is run.
pub proof fn first_match_wins(
    stages: Stages,
    request: RequestView,
    transformed: RequestView,
    index: int,
)
    requires
        pre_chain(stages, 0, request) == Ok::<RequestView, Seq<char>>(transformed),
        0 <= index < stages.routes.len(),
        stages.matches(index, transformed.method),
        forall|j: int| 0 <= j < index ==> !stages.matches(j, transformed.method),
    ensures
        first_match(stages, 0, transformed.method) == Some(index),
        result(stages, start(stages, request)) == (match stages.handle(index, transformed) {
            Ok(response) => after_post(stages, response),
            Err(cause) => Err(FailureView { stage: Stage::Route, cause }),
        }),
        only_route(trace(stages, start(stages, request)), Some(index)),
{
    run_gives_outcome(stages, request);
    first_match_is_lowest(stages, 0, transformed.method);
    lemma_pre_route(stages, 0, request);
}

/// A router with no middleware and a single route that matches returns
/// what the route's handler returns, unchanged.
pub proof fn single_route_is_transparent(stages: Stages, request: RequestView)
    requires
        stages.pre.len() == 0,
        stages.post.len() == 0,
        stages.routes.len() == 1,
        stages.matches(0, request.method),
    ensures
        result(stages, start(stages, request)) == (match stages.handle(0, request) {
            Ok(response) => Ok(response),
            Err(cause) => Err(FailureView { stage: Stage::Route, cause }),
        }),
{
    run_gives_outcome(stages, request);
}

/// Whether every handler that `actions` runs is that of the route `chosen`.
pub open spec fn only_route(actions: Seq<ActionView>, chosen: Option<int>) -> bool {
    forall|k: int|
        0 <= k < actions.len() ==> match #[trigger] actions[k] {
            ActionView::RunRoute { index, request } => chosen == Some(index),
            _ => true,
        }
}

proof fn lemma_only_route_step(stages: Stages, action: ActionView, chosen: Option<int>)
    requires
        answer(stages, action) matches Some(event) && only_route(
            trace(stages, decide(stages.counts(), event)),
            chosen,
        ),
        action matches ActionView::RunRoute { index, request } ==> chosen == Some(index),
    ensures
        only_route(trace(stages, action), chosen),
{
    let rest = trace(stages, decide(stages.counts(), answer(stages, action).unwrap()));
    let all = trace(stages, action);
    assert(all == seq![action] + rest);
    assert forall|k: int| 0 <= k < all.len() implies match #[trigger] all[k] {
        ActionView::RunRoute { index, request } => chosen == Some(index),
        _ => true,
    } by {
        if k > 0 {
            assert(all[k] == rest[k - 1]);
        }
    }
}

proof fn lemma_post_route(stages: Stages, from: int, response: ResponseView, chosen: Option<int>)
    requires
        0 <= from,
    ensures
        only_route(trace(stages, post_from(stages.counts(), from, response)), chosen),
    decreases stages.post.len() - from,
{
    let action = post_from(stages.counts(), from, response);
    if from < stages.post.len() {
        match (stages.post[from])(response) {
            Ok(next) => {
                lemma_post_route(stages, from + 1, next, chosen);
            },
            Err(cause) => {
                assert(trace(stages, failed(Stage::PostMiddleware, cause)) == seq![
                    failed(Stage::PostMiddleware, cause),
                ]);
            },
        }
        lemma_only_route_step(stages, action, chosen);
    } else {
        assert(trace(stages, action) == seq![action]);
    }
}

proof fn lemma_scan_route(stages: Stages, from: int, request: RequestView)
    requires
        0 <= from,
    ensures
        only_route(
            trace(stages, scan_from(stages.counts(), from, request)),
            first_match(stages, from, request.method),
        ),
    decreases stages.routes.len() - from,
{
    let counts = stages.counts();
    let chosen = first_match(stages, from, request.method);
    if from < stages.routes.len() {
        let test = ActionView::TestRoute { index: from, request };
        if stages.matches(from, request.method) {
            let run = ActionView::RunRoute { index: from, request };
            match stages.handle(from, request) {
                Ok(response) => {
                    lemma_post_route(stages, 0, response, chosen);
                },
                Err(cause) => {
                    assert(trace(stages, failed(Stage::Route, cause)) == seq![
                        failed(Stage::Route, cause),
                    ]);
                },
            }
            lemma_only_route_step(stages, run, chosen);
        } else {
            lemma_scan_route(stages, from + 1, request);
        }
        lemma_only_route_step(stages, test, chosen);
    } else {
        lemma_post_route(stages, 0, not_found_view(), chosen);
    }
}

proof fn lemma_pre_route(stages: Stages, from: int, request: RequestView)
    requires
        0 <= from,
    ensures
        only_route(
            trace(stages, pre_from(stages.counts(), from, request)),
            match pre_chain(stages, from, request) {
                Ok(transformed) => first_match(stages, 0, transformed.method),
                Err(cause) => None,
            },
        ),
    decreases stages.pre.len() - from,
{
    let chosen = match pre_chain(stages, from, request) {
        Ok(transformed) => first_match(stages, 0, transformed.method),
        Err(cause) => None,
    };
    if from < stages.pre.len() {
        let action = ActionView::RunPre { index: from, request };
        match (stages.pre[from])(request) {
            Ok(next) => {
                lemma_pre_route(stages, from + 1, next);
            },
            Err(cause) => {
                assert(trace(stages, failed(Stage::PreMiddleware, cause)) == seq![
                    failed(Stage::PreMiddleware, cause),
                ]);
            },
        }
        lemma_only_route_step(stages, action, chosen);
    } else {
        lemma_scan_route(stages, 0, request);
    }
}

/// What the pre-middlewares at positions `from` to `upto - 1` make of
/// `request`, each taking what the one before it gave.
pub open spec fn pre_between(stages: Stages, from: int, upto: int, request: RequestView) -> Result<
    RequestView,
    Seq<char>,
>
    decreases upto - from,
{
    if from < upto {
        match (stages.pre[from])(request) {
            Ok(next) => pre_between(stages, from + 1, upto, next),
            Err(cause) => Err(cause),
        }
    } else {
        Ok(request)
    }
}

/// What the post-middlewares at positions `from` to `upto - 1` make of
/// `response`, each taking what the one before it gave.
pub open spec fn post_between(
    stages: Stages,
    from: int,
    upto: int,
    response: ResponseView,
) -> Result<ResponseView, Seq<char>>
    decreases upto - from,
{
    if from < upto {
        match (stages.post[from])(response) {
            Ok(next) => post_between(stages, from + 1, upto, next),
            Err(cause) => Err(cause),
        }
    } else {
        Ok(response)
    }
}

/// Whether the first `count` actions run the pre-middlewares at positions
/// `first`, `first + 1` and so on, one after the other.
pub open spec fn runs_pre_in_order(actions: Seq<ActionView>, first: int, count: int) -> bool {
    &&& actions.len() >= count
    &&& forall|i: int|
        0 <= i < count ==> match #[trigger] actions[i] {
            ActionView::RunPre { index, request } => index == first + i,
            _ => false,
        }
}

/// Whether the first `count` actions run the post-middlewares at positions
/// `first`, `first + 1` and so on, one after the other.
pub open spec fn runs_post_in_order(actions: Seq<ActionView>, first: int, count: int) -> bool {
    &&& actions.len() >= count
    &&& forall|i: int|
        0 <= i < count ==> match #[trigger] actions[i] {
            ActionView::RunPost { index, response } => index == first + i,
            _ => false,
        }
}

proof fn lemma_pre_order(stages: Stages, from: int, request: RequestView, k: int)
    requires
        0 <= from <= k < stages.pre.len(),
    ensures
        ({
            let actions = trace(stages, pre_from(stages.counts(), from, request));
            match pre_between(stages, from, k, request) {
                Ok(input) => {
                    &&& runs_pre_in_order(actions, from, k - from + 1)
                    &&& actions[k - from] == (ActionView::RunPre { index: k, request: input })
                    &&& match (stages.pre[k])(input) {
                        Ok(next) => true,
                        Err(cause) => actions.len() == k - from + 2 && actions[k - from + 1]
                            == failed(Stage::PreMiddleware, cause),
                    }
                },
                Err(cause) => true,
            }
        }),
    decreases k - from,
{
    let action = ActionView::RunPre { index: from, request };
    let actions = trace(stages, action);
    match (stages.pre[from])(request) {
        Ok(next) => {
            let rest = trace(stages, pre_from(stages.counts(), from + 1, next));
            assert(actions == seq![action] + rest);
            if from < k {
                lemma_pre_order(stages, from + 1, next, k);
                match pre_between(stages, from, k, request) {
                    Ok(input) => {
                        assert(actions[k - from] == rest[k - from - 1]);
                        assert forall|i: int| 0 <= i < k - from + 1 implies match #[trigger] actions[i] {
                            ActionView::RunPre { index, request } => index == from + i,
                            _ => false,
                        } by {
                            if i > 0 {
                                assert(actions[i] == rest[i - 1]);
                            }
                        }
                        match (stages.pre[k])(input) {
                            Ok(after) => {},
                            Err(cause) => {
                                assert(actions[k - from + 1] == rest[k - from]);
                            },
                        }
                    },
                    Err(cause) => {},
                }
            }
        },
        Err(cause) => {
            let end = failed(Stage::PreMiddleware, cause);
            assert(trace(stages, end) == seq![end]);
            assert(actions == seq![action] + seq![end]);
        },
    }
}

proof fn lemma_post_order(stages: Stages, from: int, response: ResponseView, k: int)
    requires
        0 <= from <= k < stages.post.len(),
    ensures
        ({
            let actions = trace(stages, post_from(stages.counts(), from, response));
            match post_between(stages, from, k, response) {
                Ok(input) => {
                    &&& runs_post_in_order(actions, from, k - from + 1)
                    &&& actions[k - from] == (ActionView::RunPost { index: k, response: input })
                    &&& match (stages.post[k])(input) {
                        Ok(next) => true,
                        Err(cause) => actions.len() == k - from + 2 && actions[k - from + 1]
                            == failed(Stage::PostMiddleware, cause),
                    }
                },
                Err(cause) => true,
            }
        }),
    decreases k - from,
{
    let action = ActionView::RunPost { index: from, response };
    let actions = trace(stages, action);
    match (stages.post[from])(response) {
        Ok(next) => {
            let rest = trace(stages, post_from(stages.counts(), from + 1, next));
            assert(actions == seq![action] + rest);
            if from < k {
                lemma_post_order(stages, from + 1, next, k);
                match post_between(stages, from, k, response) {
                    Ok(input) => {
                        assert(actions[k - from] == rest[k - from - 1]);
                        assert forall|i: int| 0 <= i < k - from + 1 implies match #[trigger] actions[i] {
                            ActionView::RunPost { index, response } => index == from + i,
                            _ => false,
                        } by {
                            if i > 0 {
                                assert(actions[i] == rest[i - 1]);
                            }
                        }
                        match (stages.post[k])(input) {
                            Ok(after) => {},
                            Err(cause) => {
                                assert(actions[k - from + 1] == rest[k - from]);
                            },
                        }
                    },
                    Err(cause) => {},
                }
            }
        },
        Err(cause) => {
            let end = failed(Stage::PostMiddleware, cause);
            assert(trace(stages, end) == seq![end]);
            assert(actions == seq![action] + seq![end]);
        },
    }
}

/// The pre-middlewares run in registration order, each on what the one
/// before it gave: where those before position `k` succeed, the run's
/// first `k + 1` actions run the pre-middlewares 0 to `k`, and the one at
/// `k` gets what those before it made of the request. Where it fails, the
/// run ends there with a pre-stage failure: no further pre-middleware, no
/// route and no post-middleware is run.
pub proof fn pre_middlewares_run_in_order(stages: Stages, request: RequestView, k: int)
    requires
        0 <= k < stages.pre.len(),
    ensures
        ({
            let actions = trace(stages, start(stages, request));
            match pre_between(stages, 0, k, request) {
                Ok(input) => {
                    &&& runs_pre_in_order(actions, 0, k + 1)
                    &&& actions[k] == (ActionView::RunPre { index: k, request: input })
                    &&& match (stages.pre[k])(input) {
                        Ok(next) => true,
                        Err(cause) => actions.len() == k + 2 && actions[k + 1] == failed(
                            Stage::PreMiddleware,
                            cause,
                        ) && result(stages, start(stages, request)) == Err::<
                            ResponseView,
                            FailureView,
                        >(FailureView { stage: Stage::PreMiddleware, cause }),
                    }
                },
                Err(cause) => true,
            }
        }),
{
    lemma_pre_order(stages, 0, request, k);
    run_gives_outcome(stages, request);
    lemma_pre_split(stages, 0, k, request);
}

/// The post-middlewares run in registration order on the response that
/// enters the post-chain, be it a handler's or the "not found" response:
/// where those before position `k` succeed, the first `k + 1` actions of
/// the post-chain run the post-middlewares 0 to `k`, and the one at `k`
/// gets what those before it made of the response. Where it fails, the
/// run ends there with a post-stage failure.
pub proof fn post_middlewares_run_in_order(stages: Stages, response: ResponseView, k: int)
    requires
        0 <= k < stages.post.len(),
    ensures
        decide(stages.counts(), EventView::RouteDone { outcome: Ok(response) }) == post_from(
            stages.counts(),
            0,
            response,
        ),
        forall|request: RequestView|
            #[trigger] scan_from(stages.counts(), stages.routes.len() as int, request) == post_from(
                stages.counts(),
                0,
                not_found_view(),
            ),
        ({
            let actions = trace(stages, post_from(stages.counts(), 0, response));
            match post_between(stages, 0, k, response) {
                Ok(input) => {
                    &&& runs_post_in_order(actions, 0, k + 1)
                    &&& actions[k] == (ActionView::RunPost { index: k, response: input })
                    &&& match (stages.post[k])(input) {
                        Ok(next) => true,
                        Err(cause) => actions.len() == k + 2 && actions[k + 1] == failed(
                            Stage::PostMiddleware,
                            cause,
                        ) && after_post(stages, response) == Err::<ResponseView, FailureView>(
                            FailureView { stage: Stage::PostMiddleware, cause },
                        ),
                    }
                },
                Err(cause) => true,
            }
        }),
{
    lemma_post_order(stages, 0, response, k);
    lemma_post_split(stages, 0, k, response);
}

proof fn lemma_pre_split(stages: Stages, from: int, k: int, request: RequestView)
    requires
        0 <= from <= k < stages.pre.len(),
    ensures
        pre_chain(stages, from, request) == (match pre_between(stages, from, k, request) {
            Ok(input) => pre_chain(stages, k, input),
            Err(cause) => Err(cause),
        }),
    decreases k - from,
{
    if from < k {
        match (stages.pre[from])(request) {
            Ok(next) => {
                lemma_pre_split(stages, from + 1, k, next);
            },
            Err(cause) => {},
        }
    }
}

proof fn lemma_post_split(stages: Stages, from: int, k: int, response: ResponseView)
    requires
        0 <= from <= k < stages.post.len(),
    ensures
        post_chain(stages, from, response) == (match post_between(stages, from, k, response) {
            Ok(input) => post_chain(stages, k, input),
            Err(cause) => Err(cause),
        }),
    decreases k - from,
{
    if from < k {
        match (stages.post[from])(response) {
            Ok(next) => {
                lemma_post_split(stages, from + 1, k, next);
            },
            Err(cause) => {},
        }
    }
}

} // verus!
