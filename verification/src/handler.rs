//! The terminal handler of a route.

use crate::request::{Request, RequestView};
use crate::response::{Response, ResponseView};
use vstd::prelude::*;

verus! {

/// What the calls of a function from requests to responses can give: the
/// pairs of a request and a response such that the function, called with the
/// one, may return the other.
pub open spec fn outcomes<F: FnOnce(Request) -> Response>(f: F) -> spec_fn(
    RequestView,
    ResponseView,
) -> bool {
    |req: RequestView, res: ResponseView|
        exists|r: Request, o: Response| r@ == req && o@ == res && call_ensures(f, (r,), o)
}

/// The innermost step of a pipeline: it answers a request.
pub trait Handler: Send + Sync {
    /// The requests that the handler can be called with: all of them, unless
    /// the handler says otherwise.
    open spec fn accepts(&self, req: RequestView) -> bool {
        true
    }

    /// The responses that the handler may give to a request: any, unless the
    /// handler says more.
    open spec fn responds(&self, req: RequestView, res: ResponseView) -> bool {
        true
    }

    /// Answers a request.
    fn handle(&self, req: Request) -> (res: Response)
        requires
            self.accepts(req@),
        ensures
            self.responds(req@, res@),
    ;
}

/// A function from requests to responses is a handler.
impl<F> Handler for F where F: Fn(Request) -> Response + Send + Sync {
    open spec fn accepts(&self, req: RequestView) -> bool {
        forall|r: Request| r@ == req ==> call_requires(*self, (r,))
    }

    open spec fn responds(&self, req: RequestView, res: ResponseView) -> bool {
        outcomes(*self)(req, res)
    }

    fn handle(&self, req: Request) -> (res: Response) {
        (self)(req)
    }
}

/// A function is a handler that can be called with the requests that the
/// function takes, and that gives the responses that the function returns.
pub proof fn lemma_function_handler<F>(f: F) where F: Fn(Request) -> Response + Send + Sync
    ensures
        forall|req: RequestView| #[trigger]
            f.accepts(req) <==> (forall|r: Request| r@ == req ==> call_requires(f, (r,))),
        forall|req: RequestView, res: ResponseView| #[trigger]
            f.responds(req, res) <==> outcomes(f)(req, res),
{
}

} // verus!
