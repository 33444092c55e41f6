use vstd::prelude::*;
use vstd::slice::slice_subrange;
use std::sync::Arc;
use crate::endpoint::{DynEndpoint, Endpoint};
use crate::shared::clone_handles;
use crate::request::Request;
use crate::response::{Response, ResponseView, Result};

verus! {

/// What wraps an endpoint: it sees the request before and the response after, and decides
/// whether the rest of the chain runs at all.
///
/// `handles` says which outcomes a call may have, given the continuation that it was handed;
/// an implementation that promises nothing lets it hold of every outcome.
pub trait Middleware: Send + Sync + 'static {
    /// Whether `outcome` is one that `handle` may hand back for `req` and `next`.
    open spec fn handles(&self, req: Request, next: Next<'_>, outcome: Result) -> bool {
        true
    }

    /// Handles the request. `next` runs the rest of the chain, at most once.
    fn handle(&self, req: Request, next: Next<'_>) -> (outcome: Result)
        ensures
            self.handles(req, next, outcome),
    ;

    /// Whether `name` is the name that the middleware gives itself. A middleware that says
    /// nothing of its name lets this hold of every text.
    open spec fn names(&self, name: Seq<char>) -> bool {
        true
    }

    /// A name for diagnostics: the name that the middleware gives itself. A middleware
    /// that gives none is called `middleware`.
    fn name(&self) -> (n: String)
        ensures
            self.names(n@) || n@ == "middleware"@,
        default_ensures
            n@ == "middleware"@,
    {
        "middleware".to_owned()
    }
}

/// The rest of a chain, as a middleware sees it.
pub(crate) trait Continuation {
    /// Whether `res` is a response that the rest of the chain may give to `req`.
    spec fn resumes(&self, req: Request, res: Response) -> bool;

    /// Runs the rest of the chain.
    fn resume(&self, req: Request) -> (res: Response)
        ensures
            self.resumes(req, res),
    ;
}

/// The continuation that a middleware is handed: the middleware after it and the endpoint.
/// Running it consumes it, so no middleware runs the rest of the chain twice.
pub struct Next<'a> {
    inner: &'a dyn Continuation,
}

impl<'a> Next<'a> {
    /// Whether `res` is a response that the rest of the chain may give to `req`.
    pub closed spec fn yields(&self, req: Request, res: Response) -> bool {
        self.inner.resumes(req, res)
    }

    /// Whether this is the continuation that runs `middleware` in order and then `endpoint`.
    pub open spec fn runs<E: Endpoint>(
        &self,
        middleware: Seq<Arc<DynMiddleware>>,
        endpoint: E,
    ) -> bool {
        forall|req: Request, res: Response| #[trigger]
            self.yields(req, res) <==> chain_yields(middleware, endpoint, req, res)
    }

    /// Runs the rest of the chain. A failure of a middleware or of the endpoint comes back
    /// as the response that stands for it.
    pub fn run(self, req: Request) -> (res: Response)
        ensures
            self.yields(req, res),
    {
        self.inner.resume(req)
    }

    /// The continuation that runs what is left at `cursor`.
    pub(crate) fn over<E: Endpoint>(cursor: &'a Cursor<'a, E>) -> (next: Next<'a>)
        ensures
            next.runs(cursor.rest@, *cursor.endpoint),
    {
        Next { inner: cursor }
    }
}

/// A middleware of any kind behind one type.
pub struct DynMiddleware {
    inner: Box<dyn Middleware>,
}

/// The middleware as it is held behind [`DynMiddleware`].
pub struct Installed<M> {
    pub middleware: M,
}

impl<M: Middleware> Middleware for Installed<M> {
    open spec fn handles(&self, req: Request, next: Next<'_>, outcome: Result) -> bool {
        self.middleware.handles(req, next, outcome)
    }

    fn handle(&self, req: Request, next: Next<'_>) -> (outcome: Result) {
        self.middleware.handle(req, next)
    }

    open spec fn names(&self, name: Seq<char>) -> bool {
        self.middleware.names(name)
    }

    fn name(&self) -> (n: String) {
        self.middleware.name()
    }
}

impl DynMiddleware {
    /// Whether `outcome` is one that the middleware may hand back for `req` and `next`.
    pub closed spec fn handles(&self, req: Request, next: Next<'_>, outcome: Result) -> bool {
        self.inner.handles(req, next, outcome)
    }

    /// Whether `name` is the name that the middleware gives itself.
    pub closed spec fn names(&self, name: Seq<char>) -> bool {
        self.inner.names(name)
    }

    /// Puts a middleware behind the common type; it handles requests as before, and has
    /// the name that it had.
    pub fn new<M: Middleware>(middleware: M) -> (d: DynMiddleware)
        ensures
            forall|req: Request, next: Next<'_>, outcome: Result| #[trigger]
                d.handles(req, next, outcome) <==> middleware.handles(req, next, outcome),
            forall|name: Seq<char>| #[trigger] d.names(name) <==> middleware.names(name),
    {
        DynMiddleware { inner: Box::new(Installed { middleware }) }
    }

    /// Handles the request.
    pub fn handle(&self, req: Request, next: Next<'_>) -> (outcome: Result)
        ensures
            self.handles(req, next, outcome),
    {
        self.inner.handle(req, next)
    }

    /// A name for diagnostics: the name that the middleware gives itself, or `middleware`
    /// where it gives none.
    pub fn name(&self) -> (n: String)
        ensures
            self.names(n@) || n@ == "middleware"@,
    {
        self.inner.name()
    }
}

/// Whether `res` is what `outcome` settles to: the response itself, or the response that
/// stands for the failure.
pub open spec fn settles_to(outcome: Result, res: Response) -> bool {
    match outcome {
        Ok(r) => res == r,
        Err(e) => res@ == ResponseView::of_error(e@),
    }
}

/// Whether `res` is a response that the chain of `middleware` around `endpoint` may give to
/// `req`.
///
/// The first middleware is handed the request and a continuation that runs the others in
/// order and then the endpoint; what it hands back, settled, is the response of the chain.
/// With no middleware, the response is what the endpoint hands back, settled.
pub open spec fn chain_yields<E: Endpoint>(
    middleware: Seq<Arc<DynMiddleware>>,
    endpoint: E,
    req: Request,
    res: Response,
) -> bool
    decreases middleware.len(),
{
    if middleware.len() == 0 {
        exists|outcome: Result| #[trigger] endpoint.responds(req, outcome) && settles_to(outcome, res)
    } else {
        exists|next: Next<'_>, outcome: Result|
            (forall|q: Request, s: Response| #[trigger]
                next.yields(q, s) <==> chain_yields(middleware.skip(1), endpoint, q, s))
                && #[trigger] middleware[0].handles(req, next, outcome) && settles_to(
                outcome,
                res,
            )
    }
}

/// A position in a chain: the middleware that has not run yet, and the endpoint.
pub(crate) struct Cursor<'a, E: Endpoint> {
    pub endpoint: &'a E,
    pub rest: &'a [Arc<DynMiddleware>],
}

impl<'a, E: Endpoint> Continuation for Cursor<'a, E> {
    open spec fn resumes(&self, req: Request, res: Response) -> bool {
        chain_yields(self.rest@, *self.endpoint, req, res)
    }

    fn resume(&self, req: Request) -> (res: Response) {
        if self.rest.len() == 0 {
            let outcome = self.endpoint.call(req);
            let res = settle(outcome);
            res
        } else {
            let current = &self.rest[0];
            let cursor = Cursor {
                endpoint: self.endpoint,
                rest: slice_subrange(self.rest, 1, self.rest.len()),
            };
            let next = Next::over(&cursor);
            assert(cursor.rest@ == self.rest@.skip(1));
            let outcome = current.handle(req, next);
            let res = settle(outcome);
            res
        }
    }
}

/// Turns an outcome into the response that is sent.
fn settle(outcome: Result) -> (res: Response)
    ensures
        settles_to(outcome, res),
{
    match outcome {
        Ok(r) => r,
        Err(e) => Response::from_error(e),
    }
}

/// An endpoint together with the middleware of its route.
pub struct MiddlewareEndpoint<E> {
    pub endpoint: E,
    pub middleware: Vec<Arc<DynMiddleware>>,
}

impl<E: Endpoint> MiddlewareEndpoint<E> {
    /// Whether `outcome` is one that `endpoint` behind `middleware` may hand back for `req`.
    /// Without middleware it is an outcome of the endpoint itself; with middleware it is the
    /// response of the chain.
    pub open spec fn wrapped_responds(
        middleware: Seq<Arc<DynMiddleware>>,
        endpoint: E,
        req: Request,
        outcome: Result,
    ) -> bool {
        if middleware.len() == 0 {
            endpoint.responds(req, outcome)
        } else {
            outcome matches Ok(res) && chain_yields(middleware, endpoint, req, res)
        }
    }

    /// Puts the endpoint behind the middleware of its route: the first of them runs first.
    pub fn wrap_with_middleware(endpoint: E, middleware: &[Arc<DynMiddleware>]) -> (d:
        DynEndpoint)
        ensures
            forall|req: Request, outcome: Result| #[trigger]
                d.yields(req, outcome) <==> Self::wrapped_responds(
                    middleware@,
                    endpoint,
                    req,
                    outcome,
                ),
    {
        if middleware.len() == 0 {
            DynEndpoint::new(endpoint)
        } else {
            DynEndpoint::new(MiddlewareEndpoint { endpoint, middleware: clone_handles(middleware) })
        }
    }
}

impl<E: Endpoint> Endpoint for MiddlewareEndpoint<E> {
    open spec fn responds(&self, req: Request, outcome: Result) -> bool {
        outcome matches Ok(res) && chain_yields(self.middleware@, self.endpoint, req, res)
    }

    fn call(&self, req: Request) -> (outcome: Result) {
        let cursor = Cursor { endpoint: &self.endpoint, rest: self.middleware.as_slice() };
        let next = Next::over(&cursor);
        Ok(next.run(req))
    }
}

/// The order of a chain: the first middleware is handed the request and a continuation
/// that runs exactly the others, in order, and then the endpoint; what it hands back,
/// settled, is the response of the chain.
pub proof fn lemma_first_middleware_is_outermost<E: Endpoint>(
    middleware: Seq<Arc<DynMiddleware>>,
    endpoint: E,
    req: Request,
    res: Response,
)
    requires
        middleware.len() > 0,
        chain_yields(middleware, endpoint, req, res),
    ensures
        exists|next: Next<'_>, outcome: Result|
            next.runs(middleware.skip(1), endpoint) && #[trigger] middleware[0].handles(
                req,
                next,
                outcome,
            ) && settles_to(outcome, res),
{
    let (next, outcome) = choose|next: Next<'_>, outcome: Result|
        (forall|q: Request, s: Response| #[trigger]
            next.yields(q, s) <==> chain_yields(middleware.skip(1), endpoint, q, s))
            && #[trigger] middleware[0].handles(req, next, outcome) && settles_to(outcome, res);
    assert(next.runs(middleware.skip(1), endpoint));
}

/// The end of a chain: where no middleware is left, the response is what the endpoint
/// hands back, settled.
pub proof fn lemma_endpoint_is_innermost<E: Endpoint>(endpoint: E, req: Request, res: Response)
    requires
        chain_yields(Seq::<Arc<DynMiddleware>>::empty(), endpoint, req, res),
    ensures
        exists|outcome: Result| #[trigger] endpoint.responds(req, outcome) && settles_to(outcome, res),
{
}

/// A middleware that does not run its continuation cuts the chain short: where the second
/// of two middleware answers every request by itself, whatever continuation it is handed,
/// the first still handles the request, and what its continuation yields is an answer of
/// the second; the endpoint has no part in it.
pub proof fn lemma_short_circuit<E: Endpoint>(
    first: Arc<DynMiddleware>,
    second: Arc<DynMiddleware>,
    endpoint: E,
    req: Request,
    res: Response,
    answer: spec_fn(Request, Response) -> bool,
)
    requires
        chain_yields(seq![first, second], endpoint, req, res),
        forall|q: Request, n: Next<'_>, o: Result, s: Response|
            #[trigger] second.handles(q, n, o) && #[trigger] settles_to(o, s) ==> answer(q, s),
    ensures
        exists|next: Next<'_>, outcome: Result|
            #[trigger] first.handles(req, next, outcome) && settles_to(outcome, res) && forall|
                q: Request,
                s: Response,
            | #[trigger] next.yields(q, s) ==> answer(q, s),
{
    let chain = seq![first, second];
    lemma_first_middleware_is_outermost(chain, endpoint, req, res);
    let (next, outcome) = choose|next: Next<'_>, outcome: Result|
        next.runs(chain.skip(1), endpoint) && #[trigger] chain[0].handles(req, next, outcome)
            && settles_to(outcome, res);
    assert(chain.skip(1) =~= seq![second]);
    assert forall|q: Request, s: Response| #[trigger] next.yields(q, s) implies answer(q, s) by {
        assert(chain_yields(seq![second], endpoint, q, s));
        lemma_first_middleware_is_outermost(seq![second], endpoint, q, s);
    }
}

} // verus!
