//! The router: it maps a path and a method to a handler with its
//! middlewares, and resolves a request to a response.

use crate::handler::Handler;
use crate::http_method::{HttpMethod, HttpMethodView};
use crate::middleware::{
    dispatch_middleware_chain, forwards, lemma_pipeline_order, lemma_pipeline_reaches_handler,
    lemma_pipeline_short_circuit, never, pipeline, short_circuits, steps_from, within, Middleware,
    Outcomes, Passthrough,
};
use crate::request::{Request, RequestView};
use crate::response::{bare_response, Response, ResponseView};
use crate::text::str_eq;
use vstd::prelude::*;
use vstd::string::*;

verus! {

/// A registered route.
struct RouteDefinition<H, M> {
    path: String,
    method: HttpMethod,
    handler: H,
    middlewares: Vec<M>,
}

/// The routing table. Routes are registered before requests are served, and
/// resolving a request changes nothing, so that one router serves any number
/// of connections by reference.
///
/// The handlers of a router have one type, and so have its middlewares: where
/// routes differ in kind, that type is an enum or a boxed function.
pub struct Router<H: Handler, M: Middleware = Passthrough> {
    routes: Vec<RouteDefinition<H, M>>,
    global_middlewares: Vec<M>,
}

/// The mathematical value of a route: its handler and its own middlewares.
pub struct RouteView<H, M> {
    pub handler: H,
    pub middlewares: Seq<M>,
}

/// The mathematical value of a [`Router`]: the route of each registered pair
/// of path and method, and the global middlewares in the order in which they
/// were added.
pub struct RouterView<H, M> {
    pub routes: Map<(Seq<char>, HttpMethodView), RouteView<H, M>>,
    pub global_middlewares: Seq<M>,
}

impl<H, M> RouterView<H, M> {
    /// Whether any method is registered for the path.
    pub open spec fn has_path(self, path: Seq<char>) -> bool {
        exists|method: HttpMethodView| self.routes.contains_key((path, method))
    }

    /// The router with that route for that path and method, in place of the
    /// one that was there, if any.
    pub open spec fn with_route(
        self,
        path: Seq<char>,
        method: HttpMethodView,
        route: RouteView<H, M>,
    ) -> RouterView<H, M> {
        RouterView { routes: self.routes.insert((path, method), route), ..self }
    }

    /// The router with one more global middleware, after those that it has.
    pub open spec fn with_global(self, middleware: M) -> RouterView<H, M> {
        RouterView { global_middlewares: self.global_middlewares.push(middleware), ..self }
    }
}

/// The response to a request for a path that no route has.
pub open spec fn not_found_response() -> ResponseView {
    ResponseView { body: "Not Found"@, ..bare_response(404) }
}

/// The response to a request whose path has routes, but none for its method.
pub open spec fn method_not_allowed_response() -> ResponseView {
    ResponseView { body: "Method Not Allowed"@, ..bare_response(405) }
}

/// The response without its body; status and headers stay.
pub open spec fn without_body(res: ResponseView) -> ResponseView {
    ResponseView { body: Seq::empty(), ..res }
}

/// What running a request through a route can give: the pipeline of the
/// global middlewares, then those of the route, then its handler.
pub open spec fn route_gives<H: Handler, M: Middleware>(
    router: RouterView<H, M>,
    route: RouteView<H, M>,
    req: RequestView,
    res: ResponseView,
) -> bool {
    pipeline(router.global_middlewares + route.middlewares, route.handler)(req, res)
}

/// Whether `res` is a response of the router to `req`.
///
/// A path without routes gives 404. Where the path has a route for the method
/// of the request, the request runs through that route. A `HEAD` request
/// without a route of its own runs through the `GET` route of the path, if
/// there is one, and the body of what comes back is dropped. Any other
/// method without a route gives 405.
pub open spec fn resolves<H: Handler, M: Middleware>(
    router: RouterView<H, M>,
    req: RequestView,
    res: ResponseView,
) -> bool {
    let get = (req.path, HttpMethodView::GET);
    if !router.has_path(req.path) {
        res == not_found_response()
    } else if router.routes.contains_key((req.path, req.method)) {
        route_gives(router, router.routes[(req.path, req.method)], req, res)
    } else if req.method == HttpMethodView::HEAD && router.routes.contains_key(get) {
        exists|full: ResponseView| #[trigger]
            route_gives(router, router.routes[get], req, full) && res == without_body(full)
    } else {
        res == method_not_allowed_response()
    }
}

impl<H, M> RouteDefinition<H, M> {
    spec fn key(self) -> (Seq<char>, HttpMethodView) {
        (self.path@, self.method@)
    }

    spec fn definition(self) -> RouteView<H, M> {
        RouteView { handler: self.handler, middlewares: self.middlewares@ }
    }
}

/// The table that a list of routes stands for. A router holds one route for
/// a key at most; of two routes with one key the earlier would count.
spec fn table_of<H, M>(routes: Seq<RouteDefinition<H, M>>) -> Map<
    (Seq<char>, HttpMethodView),
    RouteView<H, M>,
>
    decreases routes.len(),
{
    if routes.len() == 0 {
        Map::empty()
    } else {
        table_of(routes.drop_first()).insert(routes[0].key(), routes[0].definition())
    }
}

/// Whether `index` is the first place in the list with that key.
spec fn first_at<H, M>(
    routes: Seq<RouteDefinition<H, M>>,
    key: (Seq<char>, HttpMethodView),
    index: int,
) -> bool {
    &&& 0 <= index < routes.len()
    &&& routes[index].key() == key
    &&& forall|j: int| 0 <= j < index ==> (#[trigger] routes[j]).key() != key
}

/// Whether no route of the list has that key.
spec fn absent<H, M>(routes: Seq<RouteDefinition<H, M>>, key: (Seq<char>, HttpMethodView)) -> bool {
    forall|j: int| 0 <= j < routes.len() ==> (#[trigger] routes[j]).key() != key
}

proof fn lemma_table_hit<H, M>(
    routes: Seq<RouteDefinition<H, M>>,
    key: (Seq<char>, HttpMethodView),
    index: int,
)
    requires
        first_at(routes, key, index),
    ensures
        table_of(routes).contains_key(key),
        table_of(routes)[key] == routes[index].definition(),
    decreases routes.len(),
{
    if index > 0 {
        let rest = routes.drop_first();
        lemma_table_hit(rest, key, index - 1);
    }
}

proof fn lemma_table_holds<H, M>(routes: Seq<RouteDefinition<H, M>>, index: int)
    requires
        0 <= index < routes.len(),
    ensures
        table_of(routes).contains_key(routes[index].key()),
    decreases routes.len(),
{
    if index > 0 {
        lemma_table_holds(routes.drop_first(), index - 1);
    }
}

proof fn lemma_table_miss<H, M>(
    routes: Seq<RouteDefinition<H, M>>,
    key: (Seq<char>, HttpMethodView),
)
    requires
        absent(routes, key),
    ensures
        !table_of(routes).contains_key(key),
    decreases routes.len(),
{
    if routes.len() > 0 {
        let rest = routes.drop_first();
        lemma_table_miss(rest, key);
    }
}

proof fn lemma_table_key<H, M>(routes: Seq<RouteDefinition<H, M>>, key: (Seq<char>, HttpMethodView))
    requires
        table_of(routes).contains_key(key),
    ensures
        exists|j: int| 0 <= j < routes.len() && (#[trigger] routes[j]).key() == key,
    decreases routes.len(),
{
    if routes.len() > 0 && routes[0].key() != key {
        let rest = routes.drop_first();
        lemma_table_key(rest, key);
        let j = choose|j: int| 0 <= j < rest.len() && (#[trigger] rest[j]).key() == key;
        assert(routes[j + 1].key() == key);
    }
}

proof fn lemma_table_replace<H, M>(
    routes: Seq<RouteDefinition<H, M>>,
    index: int,
    route: RouteDefinition<H, M>,
)
    requires
        first_at(routes, route.key(), index),
    ensures
        table_of(routes.update(index, route)) == table_of(routes).insert(
            route.key(),
            route.definition(),
        ),
    decreases routes.len(),
{
    let next = routes.update(index, route);
    if index > 0 {
        let rest = routes.drop_first();
        lemma_table_replace(rest, index - 1, route);
        assert(next.drop_first() =~= rest.update(index - 1, route));
    } else {
        assert(next.drop_first() =~= routes.drop_first());
    }
}

proof fn lemma_table_push<H, M>(routes: Seq<RouteDefinition<H, M>>, route: RouteDefinition<H, M>)
    requires
        absent(routes, route.key()),
    ensures
        table_of(routes.push(route)) == table_of(routes).insert(route.key(), route.definition()),
    decreases routes.len(),
{
    let next = routes.push(route);
    if routes.len() > 0 {
        let rest = routes.drop_first();
        lemma_table_push(rest, route);
        assert(next.drop_first() =~= rest.push(route));
    } else {
        assert(next.drop_first() =~= routes);
    }
}

impl<H: Handler, M: Middleware> View for Router<H, M> {
    type V = RouterView<H, M>;

    closed spec fn view(&self) -> RouterView<H, M> {
        RouterView {
            routes: table_of(self.routes@),
            global_middlewares: self.global_middlewares@,
        }
    }
}

impl<H: Handler, M: Middleware> Router<H, M> {
    /// No pair of path and method has two routes, and every registered
    /// handler takes every request.
    #[verifier::type_invariant]
    spec fn well_formed(&self) -> bool {
        &&& forall|i: int, j: int|
            0 <= i < j < self.routes@.len() ==> (#[trigger] self.routes@[i]).key()
                != (#[trigger] self.routes@[j]).key()
        &&& forall|i: int, r: RequestView|
            0 <= i < self.routes@.len() ==> #[trigger] self.routes@[i].handler.accepts(r)
    }

    /// A router without routes or middlewares.
    pub fn new() -> (router: Router<H, M>)
        ensures
            router@ == (RouterView::<H, M> { routes: Map::empty(), global_middlewares: Seq::empty() }),
    {
        Router { routes: Vec::new(), global_middlewares: Vec::new() }
    }

    /// Finds the first route with that path and method.
    fn find_route(&self, path: &str, method: &HttpMethod) -> (found: Option<usize>)
        ensures
            match found {
                Some(i) => first_at(self.routes@, (path@, method@), i as int),
                None => absent(self.routes@, (path@, method@)),
            },
    {
        let mut i: usize = 0;
        while i < self.routes.len()
            invariant
                i <= self.routes@.len(),
                forall|j: int| 0 <= j < i ==> (#[trigger] self.routes@[j]).key() != (path@, method@),
            decreases self.routes@.len() - i,
        {
            if str_eq(self.routes[i].path.as_str(), path) && self.routes[i].method == *method {
                return Some(i);
            }
            i += 1;
        }
        None
    }

    /// Tells whether any route has that path.
    fn knows_path(&self, path: &str) -> (known: bool)
        ensures
            known == self@.has_path(path@),
    {
        let mut i: usize = 0;
        while i < self.routes.len()
            invariant
                i <= self.routes@.len(),
                forall|j: int| 0 <= j < i ==> (#[trigger] self.routes@[j]).path@ != path@,
            decreases self.routes@.len() - i,
        {
            if str_eq(self.routes[i].path.as_str(), path) {
                proof {
                    lemma_table_holds(self.routes@, i as int);
                    assert(self@.routes.contains_key((path@, self.routes@[i as int].method@)));
                }
                return true;
            }
            i += 1;
        }
        proof {
            if self@.has_path(path@) {
                let method = choose|method: HttpMethodView|
                    self@.routes.contains_key((path@, method));
                lemma_table_key(self.routes@, (path@, method));
            }
        }
        false
    }

    /// Adds a global middleware: it runs for every route, after the global
    /// middlewares added before it and ahead of those of the route.
    pub fn use_global(&mut self, middleware: M) -> (ret: &mut Self)
        ensures
            ret@ == old(self)@.with_global(middleware),
            *final(self) == *final(ret),
    {
        proof {
            use_type_invariant(&*self);
        }
        let mut globals: Vec<M> = Vec::new();
        core::mem::swap(&mut self.global_middlewares, &mut globals);
        globals.push(middleware);
        core::mem::swap(&mut self.global_middlewares, &mut globals);
        self
    }

    /// Registers a route, in place of the one that the path and method had.
    /// Paths are told apart character by character.
    pub fn add_route_internal(
        &mut self,
        method: HttpMethod,
        path: &str,
        handler: H,
        route_middlewares: Vec<M>,
    )
        requires
            forall|r: RequestView| handler.accepts(r),
        ensures
            final(self)@ == old(self)@.with_route(
                path@,
                method@,
                RouteView { handler, middlewares: route_middlewares@ },
            ),
    {
        proof {
            use_type_invariant(&*self);
        }
        let found = self.find_route(path, &method);
        let route = RouteDefinition {
            path: path.to_owned(),
            method,
            handler,
            middlewares: route_middlewares,
        };
        let mut routes: Vec<RouteDefinition<H, M>> = Vec::new();
        core::mem::swap(&mut self.routes, &mut routes);
        match found {
            Some(i) => {
                proof {
                    lemma_table_replace(routes@, i as int, route);
                }
                routes[i] = route;
            },
            None => {
                proof {
                    lemma_table_push(routes@, route);
                }
                routes.push(route);
            },
        }
        core::mem::swap(&mut self.routes, &mut routes);
    }

    /// Registers a handler for `GET` requests to a path.
    pub fn get(&mut self, path: &str, handler: H) -> (ret: &mut Self)
        requires
            forall|r: RequestView| handler.accepts(r),
        ensures
            ret@ == old(self)@.with_route(
                path@,
                HttpMethodView::GET,
                RouteView { handler, middlewares: Seq::empty() },
            ),
            *final(self) == *final(ret),
    {
        self.add_route_internal(HttpMethod::GET, path, handler, Vec::new());
        self
    }

    /// Registers a handler for `GET` requests to a path, with middlewares of
    /// its own.
    pub fn get_with_middlewares(&mut self, path: &str, handler: H, middlewares: Vec<M>) -> (ret:
        &mut Self)
        requires
            forall|r: RequestView| handler.accepts(r),
        ensures
            ret@ == old(self)@.with_route(
                path@,
                HttpMethodView::GET,
                RouteView { handler, middlewares: middlewares@ },
            ),
            *final(self) == *final(ret),
    {
        self.add_route_internal(HttpMethod::GET, path, handler, middlewares);
        self
    }

    /// Registers a handler for `POST` requests to a path.
    pub fn post(&mut self, path: &str, handler: H) -> (ret: &mut Self)
        requires
            forall|r: RequestView| handler.accepts(r),
        ensures
            ret@ == old(self)@.with_route(
                path@,
                HttpMethodView::POST,
                RouteView { handler, middlewares: Seq::empty() },
            ),
            *final(self) == *final(ret),
    {
        self.add_route_internal(HttpMethod::POST, path, handler, Vec::new());
        self
    }

    /// Registers a handler for `POST` requests to a path, with middlewares of
    /// its own.
    pub fn post_with_middlewares(&mut self, path: &str, handler: H, middlewares: Vec<M>) -> (ret:
        &mut Self)
        requires
            forall|r: RequestView| handler.accepts(r),
        ensures
            ret@ == old(self)@.with_route(
                path@,
                HttpMethodView::POST,
                RouteView { handler, middlewares: middlewares@ },
            ),
            *final(self) == *final(ret),
    {
        self.add_route_internal(HttpMethod::POST, path, handler, middlewares);
        self
    }

    /// Registers a handler for `PUT` requests to a path.
    pub fn put(&mut self, path: &str, handler: H) -> (ret: &mut Self)
        requires
            forall|r: RequestView| handler.accepts(r),
        ensures
            ret@ == old(self)@.with_route(
                path@,
                HttpMethodView::PUT,
                RouteView { handler, middlewares: Seq::empty() },
            ),
            *final(self) == *final(ret),
    {
        self.add_route_internal(HttpMethod::PUT, path, handler, Vec::new());
        self
    }

    /// Registers a handler for `DELETE` requests to a path.
    pub fn delete(&mut self, path: &str, handler: H) -> (ret: &mut Self)
        requires
            forall|r: RequestView| handler.accepts(r),
        ensures
            ret@ == old(self)@.with_route(
                path@,
                HttpMethodView::DELETE,
                RouteView { handler, middlewares: Seq::empty() },
            ),
            *final(self) == *final(ret),
    {
        self.add_route_internal(HttpMethod::DELETE, path, handler, Vec::new());
        self
    }

    /// Resolves a request to a response.
    pub fn handle_request(&self, req: Request) -> (res: Response)
        ensures
            resolves(self@, req@, res@),
    {
        proof {
            use_type_invariant(self);
        }
        let ghost key = (req@.path, req@.method);
        match self.find_route(req.path.as_str(), &req.method) {
            Some(i) => {
                proof {
                    lemma_table_hit(self.routes@, key, i as int);
                    let all = self.global_middlewares@ + self.routes@[i as int].middlewares@;
                    assert(steps_from(all, 0) =~= all);
                }
                dispatch_middleware_chain(
                    req,
                    &self.global_middlewares,
                    &self.routes[i].middlewares,
                    0,
                    &self.routes[i].handler,
                )
            },
            None => {
                proof {
                    lemma_table_miss(self.routes@, key);
                }
                if !self.knows_path(req.path.as_str()) {
                    Response::new(404).with_body("Not Found")
                } else if req.method == HttpMethod::HEAD {
                    match self.find_route(req.path.as_str(), &HttpMethod::GET) {
                        Some(i) => {
                            proof {
                                lemma_table_hit(
                                    self.routes@,
                                    (req@.path, HttpMethodView::GET),
                                    i as int,
                                );
                                let all = self.global_middlewares@
                                    + self.routes@[i as int].middlewares@;
                                assert(steps_from(all, 0) =~= all);
                            }
                            let ghost asked = req@;
                            let mut res = dispatch_middleware_chain(
                                req,
                                &self.global_middlewares,
                                &self.routes[i].middlewares,
                                0,
                                &self.routes[i].handler,
                            );
                            let ghost full = res@;
                            res.body = String::new();
                            assert(route_gives(
                                self@,
                                self@.routes[(asked.path, HttpMethodView::GET)],
                                asked,
                                full,
                            ));
                            res
                        },
                        None => {
                            proof {
                                lemma_table_miss(self.routes@, (req@.path, HttpMethodView::GET));
                            }
                            Response::new(405).with_body("Method Not Allowed")
                        },
                    }
                } else {
                    Response::new(405).with_body("Method Not Allowed")
                }
            },
        }
    }
}

/// A router with one route, for `GET` requests to a path. A `GET` request to
/// the path gets a response of the handler; a `HEAD` request gets one without
/// its body; a request of any other method gets 405; a request to any other
/// path gets 404.
pub proof fn lemma_routing_precedence<H: Handler, M: Middleware>(
    router: RouterView<H, M>,
    path: Seq<char>,
    handler: H,
    req: RequestView,
    res: ResponseView,
)
    requires
        router == (RouterView::<H, M> {
            routes: Map::empty(),
            global_middlewares: Seq::empty(),
        }).with_route(path, HttpMethodView::GET, RouteView { handler, middlewares: Seq::empty() }),
    ensures
        req.path == path && req.method == HttpMethodView::GET ==> (resolves(router, req, res)
            <==> handler.responds(req, res)),
        req.path == path && req.method == HttpMethodView::HEAD ==> (resolves(router, req, res)
            <==> exists|full: ResponseView| #[trigger]
            handler.responds(req, full) && res == without_body(full)),
        req.path == path && req.method != HttpMethodView::GET && req.method
            != HttpMethodView::HEAD ==> (resolves(router, req, res) <==> res
            == method_not_allowed_response()),
        req.path != path ==> (resolves(router, req, res) <==> res == not_found_response()),
{
    let route = RouteView::<H, M> { handler, middlewares: Seq::empty() };
    let steps = router.global_middlewares + route.middlewares;
    assert(steps =~= Seq::empty());
    assert(forall|q: RequestView, o: ResponseView|
        route_gives(router, route, q, o) <==> handler.responds(q, o));
    if req.path == path {
        assert(router.routes.contains_key((path, HttpMethodView::GET)));
        assert(router.has_path(req.path));
        if req.method == HttpMethodView::HEAD {
            let get = (req.path, HttpMethodView::GET);
            assert(router.routes[get] == route);
            assert(!router.routes.contains_key((req.path, req.method)));
            if resolves(router, req, res) {
                let full = choose|full: ResponseView| #[trigger]
                    route_gives(router, router.routes[get], req, full) && res == without_body(
                        full,
                    );
                assert(handler.responds(req, full) && res == without_body(full));
            }
            if exists|full: ResponseView| #[trigger]
                handler.responds(req, full) && res == without_body(full) {
                let full = choose|full: ResponseView| #[trigger]
                    handler.responds(req, full) && res == without_body(full);
                assert(route_gives(router, router.routes[get], req, full) && res == without_body(
                    full,
                ));
            }
        }
    } else {
        assert(!router.has_path(req.path));
    }
}

/// A router with one global middleware, and a route with one middleware of
/// its own. The global middleware runs first, the middleware of the route
/// next and the handler last: a request that both middlewares hand on gets a
/// response of the handler, and a request that the global middleware answers
/// by itself gets that answer, whatever the route holds.
pub proof fn lemma_middleware_order<H: Handler, M: Middleware>(
    router: RouterView<H, M>,
    global: M,
    route: M,
    handler: H,
    req: RequestView,
    res: ResponseView,
)
    requires
        router.global_middlewares == seq![global],
        router.routes.contains_key((req.path, req.method)),
        router.routes[(req.path, req.method)] == (RouteView {
            handler,
            middlewares: seq![route],
        }),
    ensures
        resolves(router, req, res) <==> exists|next: Outcomes|
            within(next, pipeline(seq![route], handler)) && #[trigger] global.yields(
                req,
                next,
                res,
            ),
        forwards(global, req) && forwards(route, req) ==> (resolves(router, req, res)
            <==> handler.responds(req, res)),
        short_circuits(global, req) ==> (resolves(router, req, res) <==> global.yields(
            req,
            never(),
            res,
        )),
{
    assert(router.has_path(req.path));
    lemma_pipeline_order(global, seq![route], handler, req, res);
    if forwards(global, req) && forwards(route, req) {
        lemma_pipeline_reaches_handler(global, route, handler, req, res);
    }
    if short_circuits(global, req) {
        lemma_pipeline_short_circuit(global, seq![route], handler, req, res);
    }
}

} // verus!
