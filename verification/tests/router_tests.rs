use rust_http_server::middleware::dispatch_middleware_chain;
use rust_http_server::{Handler, HttpMethod, Middleware, Passthrough, Request, Response, Router};

type Plain = fn(Request) -> Response;

fn pair(k: &str, v: &str) -> (String, String) {
    (k.to_string(), v.to_string())
}

fn hi(_req: Request) -> Response {
    Response::new(200).with_body("<h1>Hi</h1>").with_header("Content-Type", "text/html")
}

fn request(method: HttpMethod, path: &str) -> Request {
    Request { method, path: path.to_string(), version: "HTTP/1.1".to_string(), headers: vec![] }
}

/// Answers with the values of the `X-Seen` headers that the request carries.
struct Echo;

impl Handler for Echo {
    fn handle(&self, req: Request) -> Response {
        let seen: Vec<String> =
            req.headers.iter().filter(|h| h.0 == "X-Seen").map(|h| h.1.clone()).collect();
        Response::new(200).with_body(&seen.join(","))
    }
}

/// Marks the request on the way in and the response on the way out.
struct Tag(&'static str);

impl Middleware for Tag {
    fn handle<N: FnOnce(Request) -> Response>(&self, req: Request, next: N) -> Response {
        let req = req.with_header("X-Seen", self.0);
        next(req).with_header("X-Tag", self.0)
    }
}

/// Hands on requests that carry the token, and answers the others itself.
struct Auth(&'static str);

impl Middleware for Auth {
    fn handle<N: FnOnce(Request) -> Response>(&self, req: Request, next: N) -> Response {
        let granted = req
            .headers
            .iter()
            .any(|h| h.0.eq_ignore_ascii_case("Authorization") && h.1 == format!("Bearer {}", self.0));
        if granted {
            next(req)
        } else {
            Response::new(401).with_body("Unauthorized")
        }
    }
}

enum Step {
    Tag(Tag),
    Auth(Auth),
}

impl Middleware for Step {
    fn handle<N: FnOnce(Request) -> Response>(&self, req: Request, next: N) -> Response {
        match self {
            Step::Tag(m) => m.handle(req, next),
            Step::Auth(m) => m.handle(req, next),
        }
    }
}

#[test]
fn registered_route_yields_the_handlers_response() {
    let mut router: Router<Plain, Passthrough> = Router::new();
    router.get("/", hi);
    let res = router.handle_request(Request::get("/"));
    assert_eq!(res.status_code, 200);
    assert_eq!(res.reason_phrase, "OK");
    assert_eq!(res.body, "<h1>Hi</h1>");
    assert_eq!(res.headers, vec![pair("Content-Type", "text/html")]);
}

#[test]
fn unregistered_method_on_a_known_path_is_405() {
    let mut router: Router<Plain, Passthrough> = Router::new();
    router.get("/", hi);
    for method in [
        HttpMethod::POST,
        HttpMethod::PUT,
        HttpMethod::DELETE,
        HttpMethod::PATCH,
        HttpMethod::OPTIONS,
        HttpMethod::CONNECT,
        HttpMethod::TRACE,
        HttpMethod::OTHER("BREW".to_string()),
        HttpMethod::OTHER("GET".to_string()),
    ] {
        let res = router.handle_request(request(method, "/"));
        assert_eq!(res.status_code, 405);
        assert_eq!(res.reason_phrase, "Method Not Allowed");
        assert_eq!(res.body, "Method Not Allowed");
        assert!(res.headers.is_empty());
    }
}

#[test]
fn unknown_path_is_404() {
    let mut router: Router<Plain, Passthrough> = Router::new();
    router.get("/", hi);
    for method in [HttpMethod::GET, HttpMethod::POST, HttpMethod::HEAD] {
        let res = router.handle_request(request(method, "/missing"));
        assert_eq!(res.status_code, 404);
        assert_eq!(res.reason_phrase, "Not Found");
        assert_eq!(res.body, "Not Found");
        assert!(res.headers.is_empty());
    }
}

#[test]
fn an_empty_router_answers_404() {
    let router: Router<Plain, Passthrough> = Router::new();
    assert_eq!(router.handle_request(Request::get("/")).status_code, 404);
}

#[test]
fn head_falls_back_to_get_without_the_body() {
    let mut router: Router<Plain, Passthrough> = Router::new();
    router.get("/", hi);
    let res = router.handle_request(request(HttpMethod::HEAD, "/"));
    assert_eq!(res.status_code, 200);
    assert_eq!(res.reason_phrase, "OK");
    assert_eq!(res.headers, vec![pair("Content-Type", "text/html")]);
    assert_eq!(res.body, "");
}

#[test]
fn head_without_a_get_route_is_405() {
    let mut router: Router<Plain, Passthrough> = Router::new();
    router.post("/", hi);
    let res = router.handle_request(request(HttpMethod::HEAD, "/"));
    assert_eq!(res.status_code, 405);
    assert_eq!(res.body, "Method Not Allowed");
}

#[test]
fn a_registered_head_route_keeps_its_body() {
    let mut router: Router<Plain, Passthrough> = Router::new();
    router.get("/", hi);
    router.add_route_internal(
        HttpMethod::HEAD,
        "/",
        |_| Response::new(204).with_body("own"),
        vec![],
    );
    let res = router.handle_request(request(HttpMethod::HEAD, "/"));
    assert_eq!(res.status_code, 204);
    assert_eq!(res.body, "own");
}

#[test]
fn each_registration_method_uses_its_verb() {
    let mut router: Router<Plain, Passthrough> = Router::new();
    router
        .get("/r", |_| Response::new(200).with_body("get"))
        .post("/r", |_| Response::new(200).with_body("post"))
        .put("/r", |_| Response::new(200).with_body("put"))
        .delete("/r", |_| Response::new(200).with_body("delete"));
    assert_eq!(router.handle_request(request(HttpMethod::GET, "/r")).body, "get");
    assert_eq!(router.handle_request(request(HttpMethod::POST, "/r")).body, "post");
    assert_eq!(router.handle_request(request(HttpMethod::PUT, "/r")).body, "put");
    assert_eq!(router.handle_request(request(HttpMethod::DELETE, "/r")).body, "delete");
    assert_eq!(router.handle_request(request(HttpMethod::PATCH, "/r")).status_code, 405);
}

#[test]
fn registering_again_overwrites() {
    let mut router: Router<Plain, Passthrough> = Router::new();
    router.get("/", |_| Response::new(200).with_body("old"));
    router.post("/", |_| Response::new(200).with_body("post"));
    router.get("/", |_| Response::new(200).with_body("new"));
    assert_eq!(router.handle_request(Request::get("/")).body, "new");
    assert_eq!(router.handle_request(Request::post("/")).body, "post");
}

#[test]
fn paths_match_character_by_character() {
    let mut router: Router<Plain, Passthrough> = Router::new();
    router.get("/a", hi);
    for path in ["/a/", "/A", "/a?x=1", "a", "/a ", "/", "/a/b", ""] {
        assert_eq!(router.handle_request(Request::get(path)).status_code, 404, "{:?}", path);
    }
    assert_eq!(router.handle_request(Request::get("/a")).status_code, 200);
}

#[test]
fn other_methods_route_by_their_token() {
    let mut router: Router<Plain, Passthrough> = Router::new();
    router.add_route_internal(
        HttpMethod::OTHER("BREW".to_string()),
        "/pot",
        |_| Response::new(200).with_body("coffee"),
        vec![],
    );
    let req = Request::from_buffer(b"brew /pot HTTP/1.1\r\n\r\n").unwrap();
    assert_eq!(router.handle_request(req).body, "coffee");
    let other = request(HttpMethod::OTHER("STEEP".to_string()), "/pot");
    assert_eq!(router.handle_request(other).status_code, 405);
}

#[test]
fn global_then_route_then_handler() {
    let mut router: Router<Echo, Tag> = Router::new();
    router.use_global(Tag("G"));
    router.get_with_middlewares("/", Echo, vec![Tag("R")]);
    let res = router.handle_request(Request::get("/"));
    assert_eq!(res.status_code, 200);
    assert_eq!(res.body, "G,R");
    assert_eq!(res.headers, vec![pair("X-Tag", "R"), pair("X-Tag", "G")]);
}

#[test]
fn middlewares_run_in_registration_order() {
    let mut router: Router<Echo, Tag> = Router::new();
    router.use_global(Tag("G1")).use_global(Tag("G2"));
    router.post_with_middlewares("/", Echo, vec![Tag("R1"), Tag("R2"), Tag("R3")]);
    router.use_global(Tag("G3"));
    let res = router.handle_request(Request::post("/"));
    assert_eq!(res.body, "G1,G2,G3,R1,R2,R3");
    let tags: Vec<&str> = res.headers.iter().map(|h| h.1.as_str()).collect();
    assert_eq!(tags, vec!["R3", "R2", "R1", "G3", "G2", "G1"]);
}

#[test]
fn route_middlewares_belong_to_their_route_only() {
    let mut router: Router<Echo, Tag> = Router::new();
    router.use_global(Tag("G"));
    router.get_with_middlewares("/a", Echo, vec![Tag("A")]);
    router.get("/b", Echo);
    assert_eq!(router.handle_request(Request::get("/a")).body, "G,A");
    assert_eq!(router.handle_request(Request::get("/b")).body, "G");
}

#[test]
fn a_request_rejected_by_the_global_middleware_reaches_nothing_else() {
    let mut router: Router<Echo, Step> = Router::new();
    router.use_global(Step::Auth(Auth("secret")));
    router.get_with_middlewares("/", Echo, vec![Step::Tag(Tag("R"))]);
    let res = router.handle_request(Request::get("/"));
    assert_eq!(res.status_code, 401);
    assert_eq!(res.body, "Unauthorized");
    assert!(res.headers.is_empty());
}

#[test]
fn a_request_that_passes_both_middlewares_reaches_the_handler() {
    let mut router: Router<Echo, Step> = Router::new();
    router.use_global(Step::Auth(Auth("secret")));
    router.get_with_middlewares("/", Echo, vec![Step::Tag(Tag("R"))]);
    let res =
        router.handle_request(Request::get("/").with_header("authorization", "Bearer secret"));
    assert_eq!(res.status_code, 200);
    assert_eq!(res.body, "R");
    assert_eq!(res.headers, vec![pair("X-Tag", "R")]);
}

#[test]
fn a_rejecting_route_middleware_still_lets_the_global_one_finish() {
    let mut router: Router<Echo, Step> = Router::new();
    router.use_global(Step::Tag(Tag("G")));
    router.get_with_middlewares("/", Echo, vec![Step::Auth(Auth("secret"))]);
    let res = router.handle_request(Request::get("/"));
    assert_eq!(res.status_code, 401);
    assert_eq!(res.headers, vec![pair("X-Tag", "G")]);
}

#[test]
fn middlewares_do_not_run_for_404_and_405() {
    let mut router: Router<Echo, Tag> = Router::new();
    router.use_global(Tag("G"));
    router.get("/", Echo);
    assert!(router.handle_request(Request::get("/missing")).headers.is_empty());
    assert!(router.handle_request(Request::post("/")).headers.is_empty());
}

#[test]
fn head_fallback_runs_the_get_pipeline() {
    let mut router: Router<Echo, Tag> = Router::new();
    router.use_global(Tag("G"));
    router.get_with_middlewares("/", Echo, vec![Tag("R")]);
    let res = router.handle_request(request(HttpMethod::HEAD, "/"));
    assert_eq!(res.status_code, 200);
    assert_eq!(res.body, "");
    assert_eq!(res.headers, vec![pair("X-Tag", "R"), pair("X-Tag", "G")]);
}

#[test]
fn passthrough_hands_on_and_back() {
    let mut router: Router<Echo, Passthrough> = Router::new();
    router.use_global(Passthrough);
    router.get_with_middlewares("/", Echo, vec![Passthrough, Passthrough]);
    let res = router.handle_request(Request::get("/").with_header("X-Seen", "client"));
    assert_eq!(res.body, "client");
    assert!(res.headers.is_empty());
}

#[test]
fn boxed_closures_are_handlers() {
    let greeting = String::from("hello");
    let mut router: Router<Box<dyn Fn(Request) -> Response + Send + Sync>, Passthrough> =
        Router::new();
    router.get("/", Box::new(move |req| Response::new(200).with_body(&format!("{} {}", greeting, req.path))));
    assert_eq!(router.handle_request(Request::get("/")).body, "hello /");
}

#[test]
fn dispatch_starts_at_the_given_index() {
    let globals = vec![Tag("G1"), Tag("G2")];
    let locals = vec![Tag("R1"), Tag("R2")];
    let bodies: Vec<String> = (0..6)
        .map(|i| dispatch_middleware_chain(Request::get("/"), &globals, &locals, i, &Echo).body)
        .collect();
    assert_eq!(bodies, vec!["G1,G2,R1,R2", "G2,R1,R2", "R1,R2", "R2", "", ""]);
    let far = dispatch_middleware_chain(Request::get("/"), &globals, &locals, usize::MAX, &Echo);
    assert_eq!(far.body, "");
    assert!(far.headers.is_empty());
}

#[test]
fn dispatch_without_middlewares_calls_the_handler() {
    let none: Vec<Passthrough> = vec![];
    let res = dispatch_middleware_chain(Request::get("/x"), &none, &none, 0, &hi);
    assert_eq!(res.body, "<h1>Hi</h1>");
}

/// A middleware behind a shared reference of unknown kind.
trait AnyMiddleware: Send + Sync {
    fn run(&self, req: Request, next: Box<dyn FnOnce(Request) -> Response + '_>) -> Response;
}

impl AnyMiddleware for Tag {
    fn run(&self, req: Request, next: Box<dyn FnOnce(Request) -> Response + '_>) -> Response {
        self.handle(req, next)
    }
}

impl AnyMiddleware for Auth {
    fn run(&self, req: Request, next: Box<dyn FnOnce(Request) -> Response + '_>) -> Response {
        self.handle(req, next)
    }
}

struct Shared(std::sync::Arc<dyn AnyMiddleware>);

impl Middleware for Shared {
    fn handle<N: FnOnce(Request) -> Response>(&self, req: Request, next: N) -> Response {
        self.0.run(req, Box::new(next))
    }
}

#[test]
fn middlewares_of_mixed_kinds_share_a_router_behind_references() {
    let gate = Shared(std::sync::Arc::new(Auth("k")));
    let mark = Shared(std::sync::Arc::new(Tag("T")));
    let mut router: Router<Box<dyn Fn(Request) -> Response + Send + Sync>, Shared> = Router::new();
    router.use_global(mark);
    router.get_with_middlewares("/", Box::new(|_| Response::new(200).with_body("in")), vec![gate]);
    let denied = router.handle_request(Request::get("/"));
    assert_eq!(denied.status_code, 401);
    assert_eq!(denied.headers, vec![pair("X-Tag", "T")]);
    let granted = router.handle_request(Request::get("/").with_header("Authorization", "Bearer k"));
    assert_eq!(granted.status_code, 200);
    assert_eq!(granted.body, "in");
}

#[test]
fn a_router_needs_no_middleware_type() {
    let mut router: Router<Plain> = Router::new();
    router.get("/", hi).post("/", |_| Response::new(201));
    assert_eq!(router.handle_request(Request::get("/")).status_code, 200);
    assert_eq!(router.handle_request(Request::post("/")).status_code, 201);
}
