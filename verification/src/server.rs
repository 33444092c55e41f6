use vstd::prelude::*;
use std::sync::Arc;
use crate::captures::CapturesView;
use crate::cookie_middleware::{flushed, with_jar, CookieMiddleware};
use crate::endpoint::Endpoint;
use crate::endpoint::DynEndpoint;
use crate::method::Method;
use crate::middleware::{
    chain_yields, lemma_endpoint_is_innermost, lemma_first_middleware_is_outermost, settles_to,
    Cursor, DynMiddleware, Middleware, Next,
};
use crate::request::{Request, RequestView};
use crate::response::{Response, ResponseView, Result};
use crate::status::StatusCode;
use crate::route::Route;
use crate::router::{Routed, Router};
use crate::shared::{arc_clone, arc_get_mut};

verus! {

/// Why a server refused a registration.
#[derive(Clone, Copy, Debug, PartialEq, Eq, Structural)]
pub enum ServerError {
    /// The server is shared with a task that serves requests; routes and middleware can no
    /// longer be registered.
    Frozen,
}

/// The routes and the middleware of an application.
///
/// Routes and middleware are registered while the server has one owner. A copy of the
/// server shares both with it; from then on they are read only.
pub struct Server {
    router: Arc<Router>,
    middleware: Arc<Vec<Arc<DynMiddleware>>>,
}

impl Server {
    /// The router.
    pub closed spec fn router(&self) -> Router {
        *self.router
    }

    /// The middleware around every route, the outermost first.
    pub closed spec fn middleware(&self) -> Seq<Arc<DynMiddleware>> {
        (*self.middleware)@
    }

    /// The invariant of a server: that of its router.
    pub open spec fn wf(&self) -> bool {
        self.router().wf()
    }

    /// The endpoint that answers a request for `path` with `method`, and what its route
    /// captured from the path.
    pub open spec fn chosen(&self, path: Seq<char>, method: Method) -> (DynEndpoint, CapturesView) {
        match self.router().resolve(path, method) {
            Routed::Found { handler, params } => (self.router().endpoints()[handler as int], params),
            Routed::MethodNotAllowed => (self.router().method_not_allowed(), CapturesView::empty()),
            Routed::NotFound => (self.router().not_found(), CapturesView::empty()),
        }
    }

    /// The request as the chain is handed it: with the captures of the chosen route as its
    /// only set of path parameters.
    pub open spec fn routed_request(&self, req: RequestView) -> RequestView {
        RequestView { route_params: seq![self.chosen(req.path, req.method).1], ..req }
    }

    /// Whether `res` is a response that the server may give to `req`: one of the chain of
    /// its middleware around the chosen endpoint.
    pub open spec fn answers(&self, req: Request, res: Response) -> bool {
        exists|handed: Request|
            handed@ == self.routed_request(req@) && #[trigger] chain_yields(
                self.middleware(),
                self.chosen(req@.path, req@.method).0,
                handed,
                res,
            )
    }

    /// A server without routes, with the cookie middleware as its only middleware.
    pub fn new() -> (s: Server)
        ensures
            s.wf(),
            s.router().endpoints().len() == 0,
            s.router().all_routes().len() == 0,
            forall|m: Method| (#[trigger] s.router().routes_for(m)).len() == 0,
            s.middleware().len() == 1,
            forall|req: Request, next: Next<'_>, outcome: Result| #[trigger]
                s.middleware()[0].handles(req, next, outcome) <==> CookieMiddleware.handles(
                    req,
                    next,
                    outcome,
                ),
    {
        let mut middleware: Vec<Arc<DynMiddleware>> = Vec::new();
        middleware.push(Arc::new(DynMiddleware::new(CookieMiddleware::new())));
        Server { router: Arc::new(Router::new()), middleware: Arc::new(middleware) }
    }

    /// The route for `path`, at which endpoints are registered. A server that is shared is
    /// frozen and gives no route.
    pub fn at<'a>(&'a mut self, path: &str) -> (r: std::result::Result<Route<'a>, ServerError>)
        ensures
            final(self).middleware() == old(self).middleware(),
            r matches Ok(route) ==> *route.router == old(self).router() && final(self).router()
                == *final(route.router) && route.path@ == path@ && route.middleware@.len() == 0,
            r matches Err(e) ==> e == ServerError::Frozen && final(self).router() == old(
                self,
            ).router(),
    {
        match arc_get_mut(&mut self.router) {
            Some(router) => Ok(Route::new(router, path.to_owned())),
            None => Err(ServerError::Frozen),
        }
    }

    /// Adds a middleware around every route, inside the middleware that the server has,
    /// and hands the server back for the next registration. A server that is shared is
    /// frozen and stays as it is.
    pub fn with<M: Middleware>(&mut self, middleware: M) -> (r: std::result::Result<
        &mut Self,
        ServerError,
    >)
        ensures
            r matches Ok(server) ==> installed(*old(self), *server, middleware) && *final(self)
                == *final(server),
            r matches Err(e) ==> e == ServerError::Frozen && same_server(*old(self), *final(self)),
    {
        let item = Arc::new(DynMiddleware::new(middleware));
        let slot = arc_get_mut(&mut self.middleware);
        let r = install(slot, item);
        match r {
            Ok(()) => {
                proof {
                    assert(self.middleware().take(old(self).middleware().len() as int) =~= old(
                        self,
                    ).middleware());
                }
                Ok(self)
            },
            Err(e) => Err(e),
        }
    }

    /// Answers a request: the router chooses the endpoint, the request gets the captures of
    /// the route, and the chain of the middleware around the endpoint gives the response.
    /// The choice of the router is true to its routes.
    pub fn respond(&self, req: Request) -> (res: Response)
        requires
            self.wf(),
        ensures
            self.answers(req, res),
            self.router().faithful(req@.path, req@.method),
    {
        let selection = self.router.route(req.path.as_str(), req.method);
        let mut handed = req;
        let mut params = Vec::new();
        params.push(selection.params);
        handed.route_params = params;
        proof {
            assert(handed@.route_params =~= seq![self.chosen(req@.path, req@.method).1]);
            assert(handed@.extensions =~= req@.extensions);
            assert(handed@ == self.routed_request(req@));
        }
        let cursor = Cursor { endpoint: selection.endpoint, rest: self.middleware.as_slice() };
        let next = Next::over(&cursor);
        let ghost given = handed;
        let res = next.run(handed);
        proof {
            assert(next.yields(given, res));
            assert(*selection.endpoint == self.chosen(req@.path, req@.method).0);
            assert(chain_yields(self.middleware(), *selection.endpoint, given, res));
        }
        res
    }
}

/// Whether `after` is `before` with one more middleware, inside the others: `middleware`.
pub open spec fn installed<M: Middleware>(before: Server, after: Server, middleware: M) -> bool {
    &&& after.router() == before.router()
    &&& after.middleware().len() == before.middleware().len() + 1
    &&& after.middleware().take(before.middleware().len() as int) == before.middleware()
    &&& forall|req: Request, next: Next<'_>, outcome: Result| #[trigger]
        after.middleware().last().handles(req, next, outcome) <==> middleware.handles(
            req,
            next,
            outcome,
        )
}

/// Whether two servers have the same routes and the same middleware.
pub open spec fn same_server(before: Server, after: Server) -> bool {
    after.router() == before.router() && after.middleware() == before.middleware()
}

/// Puts `item` after the middleware in `slot`, where there is a slot.
fn install(slot: Option<&mut Vec<Arc<DynMiddleware>>>, item: Arc<DynMiddleware>) -> (r:
    std::result::Result<(), ServerError>)
    ensures
        r is Ok <==> slot is Some,
        r matches Err(e) ==> e == ServerError::Frozen,
        slot matches Some(list) ==> final(list)@ == list@.push(item),
{
    match slot {
        Some(list) => {
            list.push(item);
            Ok(())
        },
        None => Err(ServerError::Frozen),
    }
}

impl Clone for Server {
    /// A server that shares the routes and the middleware of this one.
    fn clone(&self) -> (copy: Server)
        ensures
            copy.router() == self.router(),
            copy.middleware() == self.middleware(),
    {
        Server { router: arc_clone(&self.router), middleware: arc_clone(&self.middleware) }
    }
}

/// A `HEAD` request for which there is no route of its own gets the endpoint and the
/// captures that the `GET` request for the same path gets.
pub proof fn lemma_head_gets_the_get_endpoint(server: Server, path: Seq<char>)
    requires
        server.router().direct(path, Method::Head) is None,
    ensures
        server.chosen(path, Method::Head) == server.chosen(path, Method::Get),
{
    crate::router::lemma_head_falls_back_to_get(server.router(), path);
}

/// What a server with the cookie middleware as its only middleware answers where the
/// endpoint for the request answers every request with the same bare response: that
/// response.
proof fn lemma_bare_answer(server: Server, req: Request, res: Response, status: StatusCode)
    requires
        server.middleware().len() == 1,
        forall|q: Request, next: Next<'_>, outcome: Result| #[trigger]
            server.middleware()[0].handles(q, next, outcome) <==> CookieMiddleware.handles(
                q,
                next,
                outcome,
            ),
        forall|q: Request, outcome: Result| #[trigger]
            server.chosen(req@.path, req@.method).0.yields(q, outcome) ==> (outcome matches Ok(r)
                && r@ == ResponseView::bare(status)),
        server.answers(req, res),
    ensures
        res@ == ResponseView::bare(status),
{
    let endpoint = server.chosen(req@.path, req@.method).0;
    let chain = server.middleware();
    let handed = choose|handed: Request|
        handed@ == server.routed_request(req@) && #[trigger] chain_yields(
            chain,
            endpoint,
            handed,
            res,
        );
    lemma_first_middleware_is_outermost(chain, endpoint, handed, res);
    let (next, outcome) = choose|next: Next<'_>, outcome: Result|
        next.runs(chain.skip(1), endpoint) && #[trigger] chain[0].handles(handed, next, outcome)
            && settles_to(outcome, res);
    assert(chain.skip(1) =~= Seq::<Arc<DynMiddleware>>::empty());
    assert(CookieMiddleware.handles(handed, next, outcome));
    let (forwarded, inner) = choose|forwarded: Request, inner: Response|
        forwarded@ == with_jar(handed@) && #[trigger] next.yields(forwarded, inner) && (
        outcome matches Ok(r) && flushed(forwarded@.cookies->0, inner, r));
    assert(chain_yields(Seq::<Arc<DynMiddleware>>::empty(), endpoint, forwarded, inner));
    lemma_endpoint_is_innermost(endpoint, forwarded, inner);
    let answer = choose|answer: Result| #[trigger]
        endpoint.responds(forwarded, answer) && settles_to(answer, inner);
    assert(endpoint.yields(forwarded, answer));
    assert(inner@ == ResponseView::bare(status));
}

/// A server with the cookie middleware as its only middleware answers a request for a path
/// that no route matches with the bare status 404.
pub proof fn lemma_unregistered_path_gets_404(server: Server, req: Request, res: Response)
    requires
        server.wf(),
        server.middleware().len() == 1,
        forall|q: Request, next: Next<'_>, outcome: Result| #[trigger]
            server.middleware()[0].handles(q, next, outcome) <==> CookieMiddleware.handles(
                q,
                next,
                outcome,
            ),
        server.router().resolve(req@.path, req@.method) == Routed::NotFound,
        server.answers(req, res),
    ensures
        res@ == ResponseView::bare(StatusCode::NotFound),
{
    server.router().lemma_sentinels();
    lemma_bare_answer(server, req, res, StatusCode::NotFound);
}

/// A server with the cookie middleware as its only middleware answers a request for a path
/// that only a route of another method matches with the bare status 405.
pub proof fn lemma_other_method_gets_405(server: Server, req: Request, res: Response)
    requires
        server.wf(),
        server.middleware().len() == 1,
        forall|q: Request, next: Next<'_>, outcome: Result| #[trigger]
            server.middleware()[0].handles(q, next, outcome) <==> CookieMiddleware.handles(
                q,
                next,
                outcome,
            ),
        server.router().resolve(req@.path, req@.method) == Routed::MethodNotAllowed,
        server.answers(req, res),
    ensures
        res@ == ResponseView::bare(StatusCode::MethodNotAllowed),
{
    server.router().lemma_sentinels();
    lemma_bare_answer(server, req, res, StatusCode::MethodNotAllowed);
}

} // verus!
