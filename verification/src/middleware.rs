//! Middlewares and the pipeline that they form around a handler.

use crate::handler::{outcomes, Handler};
use crate::request::{Request, RequestView};
use crate::response::{Response, ResponseView};
use vstd::prelude::*;

verus! {

/// What a step of a pipeline can give: the pairs of a request and a response
/// such that the step, given the one, may return the other.
pub type Outcomes = spec_fn(RequestView, ResponseView) -> bool;

/// A step of a pipeline that receives a request and the rest of the pipeline
/// as a continuation. It may change the request before it hands it on, answer
/// without handing it on, or change the response that comes back.
pub trait Middleware: Send + Sync {
    /// The responses that the middleware may give to a request when the rest
    /// of the pipeline behaves as `next` says: any, unless the middleware
    /// says more.
    open spec fn yields(&self, req: RequestView, next: Outcomes, res: ResponseView) -> bool {
        true
    }

    /// Answers a request, with the rest of the pipeline at hand. The
    /// continuation takes any request and can be called at most once.
    fn handle<N: FnOnce(Request) -> Response>(&self, req: Request, next: N) -> (res: Response)
        requires
            forall|r: Request| call_requires(next, (r,)),
        ensures
            self.yields(req@, outcomes(next), res@),
    ;
}

/// Whether every outcome of `narrow` is an outcome of `wide`.
pub open spec fn within(narrow: Outcomes, wide: Outcomes) -> bool {
    forall|req: RequestView, res: ResponseView| #[trigger] narrow(req, res) ==> wide(req, res)
}

/// What a pipeline gives: its middlewares in order, each with the steps
/// after it as its continuation, and the handler as the innermost step. The
/// first middleware is given a continuation that does nothing but what the
/// rest of the pipeline can do.
pub open spec fn pipeline<H: Handler, M: Middleware>(middlewares: Seq<M>, handler: H) -> Outcomes
    decreases middlewares.len(),
{
    if middlewares.len() > 0 {
        |req: RequestView, res: ResponseView|
            exists|next: Outcomes|
                within(next, pipeline(middlewares.drop_first(), handler))
                    && #[trigger] middlewares[0].yields(req, next, res)
    } else {
        |req: RequestView, res: ResponseView| handler.responds(req, res)
    }
}

/// The continuation that never returns: a middleware that answers with it
/// answers by itself.
pub open spec fn never() -> Outcomes {
    |req: RequestView, res: ResponseView| false
}

/// Whether the middleware hands that request on unchanged and returns what
/// comes back unchanged.
pub open spec fn forwards<M: Middleware>(middleware: M, req: RequestView) -> bool {
    forall|next: Outcomes, res: ResponseView| #[trigger]
        middleware.yields(req, next, res) <==> next(req, res)
}

/// Whether the middleware answers that request by itself, whatever its
/// continuation can do.
pub open spec fn short_circuits<M: Middleware>(middleware: M, req: RequestView) -> bool {
    forall|next: Outcomes, res: ResponseView| #[trigger]
        middleware.yields(req, next, res) ==> middleware.yields(req, never(), res)
}

/// A middleware that hands every request on and returns what comes back. It
/// is the middleware type of a router that needs none.
pub struct Passthrough;

impl Middleware for Passthrough {
    open spec fn yields(&self, req: RequestView, next: Outcomes, res: ResponseView) -> bool {
        next(req, res)
    }

    fn handle<N: FnOnce(Request) -> Response>(&self, req: Request, next: N) -> (res: Response) {
        next(req)
    }
}

/// The steps of a list from `index` on; none where the index is past its end.
pub open spec fn steps_from<M>(middlewares: Seq<M>, index: int) -> Seq<M> {
    if 0 <= index <= middlewares.len() {
        middlewares.skip(index)
    } else {
        Seq::empty()
    }
}

/// Runs a request through the middlewares of `first`, then those of `second`,
/// then the handler.
fn run_pipeline<H: Handler, M: Middleware>(
    req: Request,
    first: &[M],
    second: &[M],
    handler: &H,
) -> (res: Response)
    requires
        forall|r: RequestView| handler.accepts(r),
    ensures
        pipeline(first@ + second@, *handler)(req@, res@),
    decreases first@.len() + second@.len(),
{
    let ghost all = first@ + second@;
    if first.len() > 0 {
        let rest = &first[1..first.len()];
        assert(all.drop_first() =~= rest@ + second@);
        let next = |r: Request| -> (o: Response)
            ensures
                pipeline(rest@ + second@, *handler)(r@, o@),
            { run_pipeline(r, rest, second, handler) };
        first[0].handle(req, next)
    } else if second.len() > 0 {
        let rest = &second[1..second.len()];
        let next = |r: Request| -> (o: Response)
            ensures
                pipeline(first@ + rest@, *handler)(r@, o@),
            { run_pipeline(r, first, rest, handler) };
        second[0].handle(req, next)
    } else {
        handler.handle(req)
    }
}

/// Runs a request through the pipeline from step `index` on. The pipeline is
/// the global middlewares, then those of the route, then the handler; with an
/// index past the last middleware the handler answers directly.
pub fn dispatch_middleware_chain<H: Handler, M: Middleware>(
    req: Request,
    global_middlewares: &Vec<M>,
    route_middlewares: &Vec<M>,
    index: usize,
    final_handler: &H,
) -> (res: Response)
    requires
        forall|r: RequestView| final_handler.accepts(r),
    ensures
        pipeline(
            steps_from(global_middlewares@ + route_middlewares@, index as int),
            *final_handler,
        )(req@, res@),
{
    let ghost all = global_middlewares@ + route_middlewares@;
    let globals = global_middlewares.as_slice();
    let locals = route_middlewares.as_slice();
    if index <= globals.len() {
        let first = &globals[index..globals.len()];
        assert(steps_from(all, index as int) =~= first@ + locals@);
        run_pipeline(req, first, locals, final_handler)
    } else if index - globals.len() <= locals.len() {
        let first = &globals[0..0];
        let second = &locals[index - globals.len()..locals.len()];
        assert(steps_from(all, index as int) =~= first@ + second@);
        run_pipeline(req, first, second, final_handler)
    } else {
        let none = &globals[0..0];
        run_pipeline(req, none, none, final_handler)
    }
}

/// The middlewares of a pipeline run in the order of the list: what the
/// pipeline gives is what its first middleware gives with a continuation that
/// does nothing but what the pipeline of the others can do.
pub proof fn lemma_pipeline_order<H: Handler, M: Middleware>(
    first: M,
    others: Seq<M>,
    handler: H,
    req: RequestView,
    res: ResponseView,
)
    ensures
        pipeline(seq![first] + others, handler)(req, res) <==> exists|next: Outcomes|
            within(next, pipeline(others, handler)) && #[trigger] first.yields(req, next, res),
        pipeline(Seq::<M>::empty(), handler)(req, res) <==> handler.responds(req, res),
{
    let all = seq![first] + others;
    assert(all.drop_first() =~= others);
}

/// A request that the global middleware and the middleware of the route both
/// hand on reaches the handler: the response is one of the handler to that
/// request.
pub proof fn lemma_pipeline_reaches_handler<H: Handler, M: Middleware>(
    global: M,
    route: M,
    handler: H,
    req: RequestView,
    res: ResponseView,
)
    requires
        forwards(global, req),
        forwards(route, req),
    ensures
        pipeline(seq![global] + seq![route], handler)(req, res) <==> handler.responds(req, res),
{
    let inner = pipeline(Seq::<M>::empty(), handler);
    let middle = pipeline(seq![route], handler);
    lemma_pipeline_order(route, Seq::<M>::empty(), handler, req, res);
    lemma_pipeline_order(global, seq![route], handler, req, res);
    if handler.responds(req, res) {
        assert(route.yields(req, inner, res));
        assert(global.yields(req, middle, res));
    }
}

/// A request that the first middleware answers by itself reaches neither the
/// middlewares after it nor the handler: the response is one that the first
/// middleware gives with a continuation that never returns, whatever follows
/// it in the pipeline.
pub proof fn lemma_pipeline_short_circuit<H: Handler, M: Middleware>(
    first: M,
    others: Seq<M>,
    handler: H,
    req: RequestView,
    res: ResponseView,
)
    requires
        short_circuits(first, req),
    ensures
        pipeline(seq![first] + others, handler)(req, res) <==> first.yields(req, never(), res),
{
    lemma_pipeline_order(first, others, handler, req, res);
}

} // verus!
