//! The router: three ordered sequences of stages, its builder, the
//! function that decides the next action, and the loop that serves a
//! request.
use vstd::prelude::*;
use crate::message::{not_found, not_found_view, Request, Response};
use crate::pipeline::{
    arrival_is_in_range, decide, decide_makes_progress, in_range, post_from, pre_from, rank,
    scan_from, stage_count, Action, ActionView, Counts, Event, Failure, Stage,
};
use crate::stage::{PostMiddleware, PreMiddleware, Route};

verus! {

/// The stages of a router, in registration order.
pub struct RouterView<P, R, Q> {
    pub pre_middlewares: Seq<P>,
    pub routes: Seq<R>,
    pub post_middlewares: Seq<Q>,
}

/// An immutable set of stages: pre-middlewares of type `P`, routes of type
/// `R` and post-middlewares of type `Q`, each in registration order.
pub struct Router<P, R, Q> {
    pre_middlewares: Vec<P>,
    routes: Vec<R>,
    post_middlewares: Vec<Q>,
}

/// Collects stages in call order and makes a [`Router`] of them.
pub struct RouterBuilder<P, R, Q> {
    pre_middlewares: Vec<P>,
    routes: Vec<R>,
    post_middlewares: Vec<Q>,
}

impl<P, R, Q> View for RouterBuilder<P, R, Q> {
    type V = RouterView<P, R, Q>;

    closed spec fn view(&self) -> RouterView<P, R, Q> {
        RouterView {
            pre_middlewares: self.pre_middlewares@,
            routes: self.routes@,
            post_middlewares: self.post_middlewares@,
        }
    }
}

impl<P, R, Q> RouterBuilder<P, R, Q> {
    /// A builder that holds no stage.
    pub fn new() -> (builder: Self)
        ensures
            builder@.pre_middlewares == Seq::<P>::empty(),
            builder@.routes == Seq::<R>::empty(),
            builder@.post_middlewares == Seq::<Q>::empty(),
    {
        RouterBuilder {
            pre_middlewares: Vec::new(),
            routes: Vec::new(),
            post_middlewares: Vec::new(),
        }
    }

    /// Registers a pre-middleware behind those registered so far.
    pub fn pre_middleware(self, stage: P) -> (builder: Self)
        ensures
            builder@.pre_middlewares == self@.pre_middlewares.push(stage),
            builder@.routes == self@.routes,
            builder@.post_middlewares == self@.post_middlewares,
    {
        let mut builder = self;
        builder.pre_middlewares.push(stage);
        builder
    }

    /// Registers a route behind those registered so far.
    pub fn route(self, stage: R) -> (builder: Self)
        ensures
            builder@.pre_middlewares == self@.pre_middlewares,
            builder@.routes == self@.routes.push(stage),
            builder@.post_middlewares == self@.post_middlewares,
    {
        let mut builder = self;
        builder.routes.push(stage);
        builder
    }

    /// Registers a post-middleware behind those registered so far.
    pub fn post_middleware(self, stage: Q) -> (builder: Self)
        ensures
            builder@.pre_middlewares == self@.pre_middlewares,
            builder@.routes == self@.routes,
            builder@.post_middlewares == self@.post_middlewares.push(stage),
    {
        let mut builder = self;
        builder.post_middlewares.push(stage);
        builder
    }

    /// The router that holds exactly the registered stages, in their order.
    pub fn build(self) -> (router: Router<P, R, Q>)
        ensures
            router@ == self@,
    {
        Router {
            pre_middlewares: self.pre_middlewares,
            routes: self.routes,
            post_middlewares: self.post_middlewares,
        }
    }
}

impl<P, R, Q> View for Router<P, R, Q> {
    type V = RouterView<P, R, Q>;

    closed spec fn view(&self) -> RouterView<P, R, Q> {
        RouterView {
            pre_middlewares: self.pre_middlewares@,
            routes: self.routes@,
            post_middlewares: self.post_middlewares@,
        }
    }
}

impl<P, R, Q> RouterView<P, R, Q> {
    /// How many stages of each class there are.
    pub open spec fn counts(self) -> Counts {
        Counts {
            pre: self.pre_middlewares.len(),
            routes: self.routes.len(),
            post: self.post_middlewares.len(),
        }
    }
}

impl<P, R, Q> Router<P, R, Q> {
    /// A builder that holds no stage yet.
    pub fn builder() -> (builder: RouterBuilder<P, R, Q>)
        ensures
            builder@.pre_middlewares == Seq::<P>::empty(),
            builder@.routes == Seq::<R>::empty(),
            builder@.post_middlewares == Seq::<Q>::empty(),
    {
        RouterBuilder::new()
    }

    /// The pre-middleware registered at `index`, if there is one.
    pub fn pre_middleware(&self, index: usize) -> (stage: Option<&P>)
        ensures
            index < self@.pre_middlewares.len() ==> stage == Some(&self@.pre_middlewares[index as int]),
            index >= self@.pre_middlewares.len() ==> stage is None,
    {
        if index < self.pre_middlewares.len() {
            Some(&self.pre_middlewares[index])
        } else {
            None
        }
    }

    /// The route registered at `index`, if there is one.
    pub fn route(&self, index: usize) -> (stage: Option<&R>)
        ensures
            index < self@.routes.len() ==> stage == Some(&self@.routes[index as int]),
            index >= self@.routes.len() ==> stage is None,
    {
        if index < self.routes.len() {
            Some(&self.routes[index])
        } else {
            None
        }
    }

    /// The post-middleware registered at `index`, if there is one.
    pub fn post_middleware(&self, index: usize) -> (stage: Option<&Q>)
        ensures
            index < self@.post_middlewares.len() ==> stage == Some(&self@.post_middlewares[index as int]),
            index >= self@.post_middlewares.len() ==> stage is None,
    {
        if index < self.post_middlewares.len() {
            Some(&self.post_middlewares[index])
        } else {
            None
        }
    }

    /// The action that opens the post-chain at `index`, or ends the pipeline.
    fn enter_post(&self, index: usize, response: Response) -> (action: Action)
        ensures
            action@ == post_from(self@.counts(), index as int, response@),
    {
        if index < self.post_middlewares.len() {
            Action::RunPost { index, response }
        } else {
            Action::Finish { result: Ok(response) }
        }
    }

    /// The action that opens the route scan at `index`, or falls through to
    /// the "not found" response.
    fn enter_scan(&self, index: usize, request: Request) -> (action: Action)
        ensures
            action@ == scan_from(self@.counts(), index as int, request@),
    {
        if index < self.routes.len() {
            Action::TestRoute { index, request }
        } else {
            self.enter_post(0, not_found())
        }
    }

    /// The action that opens the pre-chain at `index`, or goes on to the
    /// route scan.
    fn enter_pre(&self, index: usize, request: Request) -> (action: Action)
        ensures
            action@ == pre_from(self@.counts(), index as int, request@),
    {
        if index < self.pre_middlewares.len() {
            Action::RunPre { index, request }
        } else {
            self.enter_scan(0, request)
        }
    }

    /// Answers an event with the next action of the pipeline.
    ///
    /// A request that arrives enters the pre-chain. A pre-middleware that
    /// succeeded is followed by the next one, the last by the route scan. A
    /// route that matched is run; one that did not is followed by the next
    /// one, the last by the post-chain on the "not found" response. A
    /// handler that succeeded is followed by the post-chain; the last
    /// post-middleware by the end of the pipeline. Any failure ends the
    /// pipeline at once, marked with the class of the stage.
    pub fn advance(&self, event: Event) -> (action: Action)
        ensures
            action@ == decide(self@.counts(), event@),
    {
        match event {
            Event::Arrived { request } => self.enter_pre(0, request),
            Event::PreDone { index, outcome } => match outcome {
                Ok(request) => {
                    if index < self.pre_middlewares.len() {
                        self.enter_pre(index + 1, request)
                    } else {
                        self.enter_scan(0, request)
                    }
                },
                Err(cause) => Action::Finish {
                    result: Err(Failure { stage: Stage::PreMiddleware, cause }),
                },
            },
            Event::Tested { index, matched, request } => {
                if index < self.routes.len() {
                    if matched {
                        Action::RunRoute { index, request }
                    } else {
                        self.enter_scan(index + 1, request)
                    }
                } else {
                    self.enter_post(0, not_found())
                }
            },
            Event::RouteDone { outcome } => match outcome {
                Ok(response) => self.enter_post(0, response),
                Err(cause) => Action::Finish {
                    result: Err(Failure { stage: Stage::Route, cause }),
                },
            },
            Event::PostDone { index, outcome } => match outcome {
                Ok(response) => {
                    if index < self.post_middlewares.len() {
                        self.enter_post(index + 1, response)
                    } else {
                        Action::Finish { result: Ok(response) }
                    }
                },
                Err(cause) => Action::Finish {
                    result: Err(Failure { stage: Stage::PostMiddleware, cause }),
                },
            },
        }
    }
}

impl<P: PreMiddleware, R: Route, Q: PostMiddleware> Router<P, R, Q> {
    /// Serves one request: runs the pre-chain, the first route that
    /// matches `target_path` and the request's method, and the post-chain,
    /// each stage on what the one before it gave, as [`Router::advance`]
    /// directs. The first failure ends the run.
    ///
    /// What the stages return is theirs to decide. Whatever they return,
    /// the run ends; with no stage registered it ends with the "not
    /// found" response; with neither route nor post-middleware registered
    /// a response is the "not found" response; and a failure names a
    /// class of stage of which the router holds at least one.
    pub fn process(&self, target_path: &str, request: Request) -> (result: Result<
        Response,
        Failure,
    >)
        ensures
            self@.pre_middlewares.len() == 0 && self@.routes.len() == 0
                && self@.post_middlewares.len() == 0 ==> (result matches Ok(response) && response@
                == not_found_view()),
            self@.routes.len() == 0 && self@.post_middlewares.len() == 0 ==> (result matches Ok(
                response,
            ) ==> response@ == not_found_view()),
            result matches Err(failure) ==> stage_count(self@.counts(), failure.stage) > 0,
    {
        proof {
            arrival_is_in_range(self@.counts(), request@);
        }
        let mut action = self.advance(Event::Arrived { request });
        loop
            invariant
                in_range(self@.counts(), action@),
                self@.pre_middlewares.len() == 0 && self@.routes.len() == 0
                    && self@.post_middlewares.len() == 0 ==> action@ == (ActionView::Finish {
                    result: Ok(not_found_view()),
                }),
                action@ matches ActionView::Finish { result: Err(failure) } ==> stage_count(
                    self@.counts(),
                    failure.stage,
                ) > 0,
                self@.routes.len() == 0 && self@.post_middlewares.len() == 0 ==> (action@ matches
                ActionView::Finish { result: Ok(response) } ==> response == not_found_view()),
            decreases rank(self@.counts(), action@),
        {
            let ghost asked = action@;
            let event = match action {
                Action::RunPre { index, request } => Event::PreDone {
                    index,
                    outcome: self.pre_middlewares[index].process(request),
                },
                Action::TestRoute { index, request } => {
                    let matched = self.routes[index].is_match(target_path, request.method.as_str());
                    Event::Tested { index, matched, request }
                },
                Action::RunRoute { index, request } => Event::RouteDone {
                    outcome: self.routes[index].process(target_path, request),
                },
                Action::RunPost { index, response } => Event::PostDone {
                    index,
                    outcome: self.post_middlewares[index].process(response),
                },
                Action::Finish { result } => {
                    return result;
                },
            };
            proof {
                decide_makes_progress(self@.counts(), asked, event@);
            }
            action = self.advance(event);
        }
    }
}

} // verus!
