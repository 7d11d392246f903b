use http_router::{
    not_found, Action, Event, Failure, PostMiddleware, PreMiddleware, Request, Response, Route,
    Router, RouterBuilder, Stage,
};
use std::cell::Cell;
use std::rc::Rc;

type Counter = Rc<Cell<usize>>;

fn counter() -> Counter {
    Rc::new(Cell::new(0))
}

struct Pre {
    calls: Counter,
    run: Box<dyn Fn(Request) -> Result<Request, String>>,
}

impl PreMiddleware for Pre {
    fn process(&self, request: Request) -> Result<Request, String> {
        self.calls.set(self.calls.get() + 1);
        (self.run)(request)
    }
}

struct Post {
    calls: Counter,
    run: Box<dyn Fn(Response) -> Result<Response, String>>,
}

impl PostMiddleware for Post {
    fn process(&self, response: Response) -> Result<Response, String> {
        self.calls.set(self.calls.get() + 1);
        (self.run)(response)
    }
}

struct Exact {
    method: &'static str,
    path: &'static str,
    tests: Counter,
    calls: Counter,
    run: Box<dyn Fn(&str, Request) -> Result<Response, String>>,
}

impl Route for Exact {
    fn is_match(&self, path: &str, method: &str) -> bool {
        self.tests.set(self.tests.get() + 1);
        self.path == path && self.method == method
    }

    fn process(&self, path: &str, request: Request) -> Result<Response, String> {
        self.calls.set(self.calls.get() + 1);
        (self.run)(path, request)
    }
}

fn get(uri: &str) -> Request {
    Request { method: "GET".to_string(), uri: uri.to_string(), headers: vec![], body: vec![] }
}

fn text(status: u16, body: &str) -> Response {
    Response { status, headers: vec![], body: body.as_bytes().to_vec() }
}

fn the_not_found() -> Response {
    Response {
        status: 404,
        headers: vec![("content-type".to_string(), "text/plain".to_string())],
        body: b"Not Found".to_vec(),
    }
}

fn tagging_pre(calls: &Counter, tag: &'static str) -> Pre {
    Pre {
        calls: calls.clone(),
        run: Box::new(move |mut request: Request| {
            request.headers.push(("x-seen".to_string(), tag.to_string()));
            Ok(request)
        }),
    }
}

fn failing_pre(calls: &Counter, cause: &'static str) -> Pre {
    Pre { calls: calls.clone(), run: Box::new(move |_| Err(cause.to_string())) }
}

fn tagging_post(calls: &Counter, tag: &'static str) -> Post {
    Post {
        calls: calls.clone(),
        run: Box::new(move |mut response: Response| {
            response.headers.push(("x-post".to_string(), tag.to_string()));
            Ok(response)
        }),
    }
}

fn failing_post(calls: &Counter, cause: &'static str) -> Post {
    Post { calls: calls.clone(), run: Box::new(move |_| Err(cause.to_string())) }
}

fn fixed_route(
    method: &'static str,
    path: &'static str,
    tests: &Counter,
    calls: &Counter,
    status: u16,
    body: &'static str,
) -> Exact {
    Exact {
        method,
        path,
        tests: tests.clone(),
        calls: calls.clone(),
        run: Box::new(move |_, _| Ok(text(status, body))),
    }
}

/// A route that answers with the request's `x-seen` tags, joined by commas.
fn echo_route(tests: &Counter, calls: &Counter) -> Exact {
    Exact {
        method: "GET",
        path: "/echo",
        tests: tests.clone(),
        calls: calls.clone(),
        run: Box::new(|_, request: Request| {
            let tags: Vec<String> = request.headers.iter().map(|h| h.1.clone()).collect();
            Ok(text(200, &tags.join(",")))
        }),
    }
}

fn post_tags(response: &Response) -> Vec<String> {
    response.headers.iter().filter(|h| h.0 == "x-post").map(|h| h.1.clone()).collect()
}

#[test]
fn ping_route_answers_pong() {
    let (tests, calls) = (counter(), counter());
    let router: Router<Pre, Exact, Post> =
        Router::builder().route(fixed_route("GET", "/ping", &tests, &calls, 200, "pong")).build();
    let response = router.process("/ping", get("/ping")).unwrap();
    assert_eq!(response.status, 200);
    assert_eq!(response.body, b"pong".to_vec());
    assert_eq!(calls.get(), 1);
}

#[test]
fn missing_path_gets_not_found() {
    let (tests, calls) = (counter(), counter());
    let router: Router<Pre, Exact, Post> =
        Router::builder().route(fixed_route("GET", "/ping", &tests, &calls, 200, "pong")).build();
    let response = router.process("/missing", get("/missing")).unwrap();
    assert_eq!(response.status, 404);
    assert_eq!(response.body, b"Not Found".to_vec());
    assert_eq!(response, the_not_found());
    assert_eq!(tests.get(), 1);
    assert_eq!(calls.get(), 0);
}

#[test]
fn failing_pre_middleware_stops_the_pipeline() {
    let (pre_calls, tests, calls, post_calls) = (counter(), counter(), counter(), counter());
    let router: Router<Pre, Exact, Post> = Router::builder()
        .pre_middleware(failing_pre(&pre_calls, "auth required"))
        .route(fixed_route("GET", "/ping", &tests, &calls, 200, "pong"))
        .post_middleware(tagging_post(&post_calls, "a"))
        .build();
    let failure = router.process("/ping", get("/ping")).unwrap_err();
    assert_eq!(failure, Failure { stage: Stage::PreMiddleware, cause: "auth required".to_string() });
    assert_eq!(pre_calls.get(), 1);
    assert_eq!(tests.get(), 0);
    assert_eq!(calls.get(), 0);
    assert_eq!(post_calls.get(), 0);
}

#[test]
fn not_found_response_is_exact() {
    let response = not_found();
    assert_eq!(response.status, 404);
    assert_eq!(response.headers, vec![("content-type".to_string(), "text/plain".to_string())]);
    assert_eq!(response.body, b"Not Found".to_vec());
}

#[test]
fn router_without_stages_answers_not_found() {
    let router: Router<Pre, Exact, Post> = RouterBuilder::new().build();
    assert_eq!(router.process("/", get("/")), Ok(the_not_found()));
    assert_eq!(router.process("/any/other", get("/any/other")), Ok(the_not_found()));
}

#[test]
fn no_match_after_pre_chain_is_not_found() {
    let (pre_calls, tests, calls) = (counter(), counter(), counter());
    let router: Router<Pre, Exact, Post> = Router::builder()
        .pre_middleware(tagging_pre(&pre_calls, "a"))
        .route(fixed_route("GET", "/ping", &tests, &calls, 200, "pong"))
        .route(fixed_route("POST", "/pong", &tests, &calls, 200, "ping"))
        .build();
    assert_eq!(router.process("/pong", get("/pong")), Ok(the_not_found()));
    assert_eq!(pre_calls.get(), 1);
    assert_eq!(tests.get(), 2);
    assert_eq!(calls.get(), 0);
}

#[test]
fn pre_middlewares_run_in_registration_order() {
    let (a, b, c, tests, calls) = (counter(), counter(), counter(), counter(), counter());
    let router: Router<Pre, Exact, Post> = Router::builder()
        .pre_middleware(tagging_pre(&a, "one"))
        .pre_middleware(tagging_pre(&b, "two"))
        .pre_middleware(tagging_pre(&c, "three"))
        .route(echo_route(&tests, &calls))
        .build();
    let response = router.process("/echo", get("/echo")).unwrap();
    assert_eq!(response.body, b"one,two,three".to_vec());
    assert_eq!((a.get(), b.get(), c.get()), (1, 1, 1));
}

#[test]
fn pre_failure_in_the_middle_skips_the_rest() {
    let (a, b, c, tests, calls, post_calls) =
        (counter(), counter(), counter(), counter(), counter(), counter());
    let router: Router<Pre, Exact, Post> = Router::builder()
        .pre_middleware(tagging_pre(&a, "one"))
        .pre_middleware(failing_pre(&b, "broken"))
        .pre_middleware(tagging_pre(&c, "three"))
        .route(echo_route(&tests, &calls))
        .post_middleware(tagging_post(&post_calls, "p"))
        .build();
    let failure = router.process("/echo", get("/echo")).unwrap_err();
    assert_eq!(failure.stage, Stage::PreMiddleware);
    assert_eq!(failure.cause, "broken");
    assert_eq!((a.get(), b.get(), c.get()), (1, 1, 0));
    assert_eq!((tests.get(), calls.get(), post_calls.get()), (0, 0, 0));
}

#[test]
fn route_is_tested_against_the_transformed_method() {
    let (pre_calls, tests, calls) = (counter(), counter(), counter());
    let to_post = Pre {
        calls: pre_calls.clone(),
        run: Box::new(|mut request: Request| {
            request.method = "POST".to_string();
            Ok(request)
        }),
    };
    let router: Router<Pre, Exact, Post> = Router::builder()
        .pre_middleware(to_post)
        .route(fixed_route("GET", "/form", &tests, &calls, 200, "read"))
        .route(fixed_route("POST", "/form", &tests, &calls, 201, "written"))
        .build();
    assert_eq!(router.process("/form", get("/form")), Ok(text(201, "written")));
}

#[test]
fn first_registered_route_wins() {
    let (t1, c1, t2, c2, t3, c3) =
        (counter(), counter(), counter(), counter(), counter(), counter());
    let router: Router<Pre, Exact, Post> = Router::builder()
        .route(fixed_route("GET", "/other", &t1, &c1, 200, "other"))
        .route(fixed_route("GET", "/dup", &t2, &c2, 200, "first"))
        .route(fixed_route("GET", "/dup", &t3, &c3, 200, "second"))
        .build();
    assert_eq!(router.process("/dup", get("/dup")), Ok(text(200, "first")));
    assert_eq!((t1.get(), c1.get()), (1, 0));
    assert_eq!((t2.get(), c2.get()), (1, 1));
    assert_eq!((t3.get(), c3.get()), (0, 0));
}

#[test]
fn route_failure_is_a_route_stage_failure() {
    let (tests, calls, post_calls) = (counter(), counter(), counter());
    let broken = Exact {
        method: "GET",
        path: "/boom",
        tests: tests.clone(),
        calls: calls.clone(),
        run: Box::new(|_, _| Err("handler fault".to_string())),
    };
    let router: Router<Pre, Exact, Post> = Router::builder()
        .route(broken)
        .post_middleware(tagging_post(&post_calls, "p"))
        .build();
    let failure = router.process("/boom", get("/boom")).unwrap_err();
    assert_eq!(failure, Failure { stage: Stage::Route, cause: "handler fault".to_string() });
    assert_eq!(calls.get(), 1);
    assert_eq!(post_calls.get(), 0);
}

#[test]
fn post_middlewares_run_in_order_on_a_route_response() {
    let (a, b, tests, calls) = (counter(), counter(), counter(), counter());
    let router: Router<Pre, Exact, Post> = Router::builder()
        .route(fixed_route("GET", "/ping", &tests, &calls, 200, "pong"))
        .post_middleware(tagging_post(&a, "one"))
        .post_middleware(tagging_post(&b, "two"))
        .build();
    let response = router.process("/ping", get("/ping")).unwrap();
    assert_eq!(response.status, 200);
    assert_eq!(response.body, b"pong".to_vec());
    assert_eq!(post_tags(&response), vec!["one".to_string(), "two".to_string()]);
}

#[test]
fn post_middlewares_run_on_the_not_found_response() {
    let (a, b) = (counter(), counter());
    let router: Router<Pre, Exact, Post> = Router::builder()
        .post_middleware(tagging_post(&a, "one"))
        .post_middleware(tagging_post(&b, "two"))
        .build();
    let response = router.process("/nowhere", get("/nowhere")).unwrap();
    assert_eq!(response.status, 404);
    assert_eq!(response.body, b"Not Found".to_vec());
    assert_eq!(
        response.headers,
        vec![
            ("content-type".to_string(), "text/plain".to_string()),
            ("x-post".to_string(), "one".to_string()),
            ("x-post".to_string(), "two".to_string()),
        ]
    );
    assert_eq!((a.get(), b.get()), (1, 1));
}

#[test]
fn post_failure_skips_the_rest_and_fails_the_call() {
    let (a, b, c, tests, calls) = (counter(), counter(), counter(), counter(), counter());
    let router: Router<Pre, Exact, Post> = Router::builder()
        .route(fixed_route("GET", "/ping", &tests, &calls, 200, "pong"))
        .post_middleware(tagging_post(&a, "one"))
        .post_middleware(failing_post(&b, "no compression"))
        .post_middleware(tagging_post(&c, "three"))
        .build();
    let failure = router.process("/ping", get("/ping")).unwrap_err();
    assert_eq!(
        failure,
        Failure { stage: Stage::PostMiddleware, cause: "no compression".to_string() }
    );
    assert_eq!((a.get(), b.get(), c.get()), (1, 1, 0));
    let failure = router.process("/nowhere", get("/nowhere")).unwrap_err();
    assert_eq!(failure.stage, Stage::PostMiddleware);
    assert_eq!((a.get(), b.get(), c.get()), (2, 2, 0));
}

#[test]
fn single_matching_route_returns_its_response_unchanged() {
    let (tests, calls) = (counter(), counter());
    let mirror = Exact {
        method: "PUT",
        path: "/mirror",
        tests: tests.clone(),
        calls: calls.clone(),
        run: Box::new(|_, request: Request| {
            Ok(Response { status: 207, headers: request.headers, body: request.body })
        }),
    };
    let router: Router<Pre, Exact, Post> = Router::builder().route(mirror).build();
    let request = Request {
        method: "PUT".to_string(),
        uri: "/mirror?x=1".to_string(),
        headers: vec![("x-a".to_string(), "1".to_string())],
        body: vec![0, 159, 255],
    };
    let expected = Response {
        status: 207,
        headers: vec![("x-a".to_string(), "1".to_string())],
        body: vec![0, 159, 255],
    };
    assert_eq!(router.process("/mirror", request), Ok(expected));
}

#[test]
fn builder_keeps_registration_order() {
    let router: Router<u8, &str, char> = Router::builder()
        .route("r0")
        .pre_middleware(1)
        .post_middleware('x')
        .pre_middleware(2)
        .route("r1")
        .pre_middleware(3)
        .build();
    assert_eq!(router.pre_middleware(0), Some(&1));
    assert_eq!(router.pre_middleware(1), Some(&2));
    assert_eq!(router.pre_middleware(2), Some(&3));
    assert_eq!(router.pre_middleware(3), None);
    assert_eq!(router.route(0), Some(&"r0"));
    assert_eq!(router.route(1), Some(&"r1"));
    assert_eq!(router.route(2), None);
    assert_eq!(router.post_middleware(0), Some(&'x'));
    assert_eq!(router.post_middleware(1), None);
    assert_eq!(router.post_middleware(usize::MAX), None);
}

fn shape(pre: usize, routes: usize, post: usize) -> Router<(), (), ()> {
    let mut builder = RouterBuilder::new();
    for _ in 0..pre {
        builder = builder.pre_middleware(());
    }
    for _ in 0..routes {
        builder = builder.route(());
    }
    for _ in 0..post {
        builder = builder.post_middleware(());
    }
    builder.build()
}

#[test]
fn arrival_enters_the_first_registered_phase() {
    let request = get("/a");
    assert_eq!(
        shape(2, 1, 1).advance(Event::Arrived { request: request.clone() }),
        Action::RunPre { index: 0, request: request.clone() }
    );
    assert_eq!(
        shape(0, 1, 1).advance(Event::Arrived { request: request.clone() }),
        Action::TestRoute { index: 0, request: request.clone() }
    );
    assert_eq!(
        shape(0, 0, 1).advance(Event::Arrived { request: request.clone() }),
        Action::RunPost { index: 0, response: the_not_found() }
    );
    assert_eq!(
        shape(0, 0, 0).advance(Event::Arrived { request }),
        Action::Finish { result: Ok(the_not_found()) }
    );
}

#[test]
fn pre_outcome_moves_on_or_fails() {
    let router = shape(2, 1, 0);
    let request = get("/a");
    assert_eq!(
        router.advance(Event::PreDone { index: 0, outcome: Ok(request.clone()) }),
        Action::RunPre { index: 1, request: request.clone() }
    );
    assert_eq!(
        router.advance(Event::PreDone { index: 1, outcome: Ok(request.clone()) }),
        Action::TestRoute { index: 0, request: request.clone() }
    );
    assert_eq!(
        router.advance(Event::PreDone { index: usize::MAX, outcome: Ok(request.clone()) }),
        Action::TestRoute { index: 0, request }
    );
    assert_eq!(
        router.advance(Event::PreDone { index: 0, outcome: Err("e".to_string()) }),
        Action::Finish {
            result: Err(Failure { stage: Stage::PreMiddleware, cause: "e".to_string() })
        }
    );
}

#[test]
fn route_test_runs_the_match_or_scans_on() {
    let router = shape(0, 2, 1);
    let request = get("/a");
    assert_eq!(
        router.advance(Event::Tested { index: 0, matched: true, request: request.clone() }),
        Action::RunRoute { index: 0, request: request.clone() }
    );
    assert_eq!(
        router.advance(Event::Tested { index: 0, matched: false, request: request.clone() }),
        Action::TestRoute { index: 1, request: request.clone() }
    );
    assert_eq!(
        router.advance(Event::Tested { index: 1, matched: false, request: request.clone() }),
        Action::RunPost { index: 0, response: the_not_found() }
    );
    assert_eq!(
        router.advance(Event::Tested { index: 2, matched: true, request: request.clone() }),
        Action::RunPost { index: 0, response: the_not_found() }
    );
    assert_eq!(
        router.advance(Event::Tested { index: usize::MAX, matched: false, request }),
        Action::RunPost { index: 0, response: the_not_found() }
    );
}

#[test]
fn route_and_post_outcomes_move_on_or_fail() {
    let router = shape(0, 1, 2);
    let response = text(200, "ok");
    assert_eq!(
        router.advance(Event::RouteDone { outcome: Ok(response.clone()) }),
        Action::RunPost { index: 0, response: response.clone() }
    );
    assert_eq!(
        router.advance(Event::RouteDone { outcome: Err("r".to_string()) }),
        Action::Finish { result: Err(Failure { stage: Stage::Route, cause: "r".to_string() }) }
    );
    assert_eq!(
        router.advance(Event::PostDone { index: 0, outcome: Ok(response.clone()) }),
        Action::RunPost { index: 1, response: response.clone() }
    );
    assert_eq!(
        router.advance(Event::PostDone { index: 1, outcome: Ok(response.clone()) }),
        Action::Finish { result: Ok(response.clone()) }
    );
    assert_eq!(
        router.advance(Event::PostDone { index: usize::MAX, outcome: Ok(response.clone()) }),
        Action::Finish { result: Ok(response.clone()) }
    );
    assert_eq!(
        router.advance(Event::PostDone { index: 0, outcome: Err("p".to_string()) }),
        Action::Finish {
            result: Err(Failure { stage: Stage::PostMiddleware, cause: "p".to_string() })
        }
    );
    assert_eq!(
        shape(0, 1, 0).advance(Event::RouteDone { outcome: Ok(response.clone()) }),
        Action::Finish { result: Ok(response) }
    );
}

#[test]
fn failure_context_names_the_stage_class() {
    let of = |stage: Stage| Failure { stage, cause: String::new() }.context();
    assert_eq!(of(Stage::PreMiddleware), "One of the pre middlewares couldn't process the request");
    assert_eq!(of(Stage::Route), "One of the routes couldn't process the request");
    assert_eq!(
        of(Stage::PostMiddleware),
        "One of the post middlewares couldn't process the response"
    );
}
