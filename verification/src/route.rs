use vstd::prelude::*;
use vstd::string::{StrSliceExecFns, StringExecFns};
use std::sync::Arc;
use crate::endpoint::Endpoint;
use crate::method::Method;
use crate::middleware::{DynMiddleware, Middleware, MiddlewareEndpoint, Next};
use crate::request::Request;
use crate::response::Result;
use crate::router::{
    best_route, conflicts, lemma_sole_match_is_chosen, none_matches, pattern_captures, patterns_of,
    truthful, well_formed, RouteError, Routed, Router,
};
use crate::shared::clone_handles;
use crate::text::str_eq;

verus! {

/// The path of a route under `base`: `path` after `base`, with one `/` between them where
/// neither brings one; the path `/` alone adds nothing more.
pub open spec fn joined(base: Seq<char>, path: Seq<char>) -> Seq<char> {
    let separated = if (base.len() == 0 || base.last() != '/') && (path.len() == 0 || path[0]
        != '/') {
        base.push('/')
    } else {
        base
    };
    if path == seq!['/'] {
        separated
    } else {
        separated + path
    }
}

/// Joins the path of a route and the path of a route under it.
pub fn join(base: &str, path: &str) -> (p: String)
    ensures
        p@ == joined(base@, path@),
{
    let mut p = base.to_owned();
    let n = base.unicode_len();
    let m = path.unicode_len();
    let base_ends = n > 0 && base.get_char(n - 1) == '/';
    let path_starts = m > 0 && path.get_char(0) == '/';
    if !base_ends && !path_starts {
        proof {
            reveal_strlit("/");
        }
        p.append("/");
        assert(p@ =~= base@.push('/'));
    }
    proof {
        reveal_strlit("/");
        assert("/"@ =~= seq!['/']);
    }
    if !str_eq(path, "/") {
        p.append(path);
    }
    p
}

/// A place in the tree of paths at which endpoints and middleware are registered.
pub struct Route<'a> {
    pub router: &'a mut Router,
    pub path: String,
    pub middleware: Vec<Arc<DynMiddleware>>,
}

impl<'a> Route<'a> {
    /// The route for `path`, without middleware.
    pub fn new(router: &'a mut Router, path: String) -> (route: Route<'a>)
        ensures
            *route.router == *old(router),
            *final(router) == *final(route.router),
            route.path == path,
            route.middleware@.len() == 0,
    {
        Route { router, path, middleware: Vec::new() }
    }

    /// The path of this route.
    pub fn path(&self) -> (p: &str)
        ensures
            p@ == self.path@,
    {
        self.path.as_str()
    }

    /// Adds a middleware to this route, and hands the route back for the next registration.
    /// The middleware wraps the endpoints that are registered at the route after this call,
    /// and at the routes made under it after this call, inside the middleware that the
    /// route has already.
    pub fn with<M: Middleware>(&mut self, middleware: M) -> (route: &mut Self)
        ensures
            *final(self) == *final(route),
            route.path == old(self).path,
            *route.router == *old(self).router,
            *final(route.router) == *final(old(self).router),
            route.middleware@.len() == old(self).middleware@.len() + 1,
            route.middleware@.take(old(self).middleware@.len() as int) == old(self).middleware@,
            forall|req: Request, next: Next<'_>, outcome: Result| #[trigger]
                route.middleware@.last().handles(req, next, outcome) <==> middleware.handles(
                    req,
                    next,
                    outcome,
                ),
    {
        self.middleware.push(Arc::new(DynMiddleware::new(middleware)));
        assert(self.middleware@.take(old(self).middleware@.len() as int) =~= old(
            self,
        ).middleware@);
        self
    }

    /// The route for `path` under this one. It starts with the middleware that this route
    /// has now; middleware added to this route later does not reach it.
    pub fn at<'b>(&'b mut self, path: &str) -> (route: Route<'b>)
        ensures
            *route.router == *old(self).router,
            *final(self).router == *final(route.router),
            final(self).path == old(self).path,
            *final(final(self).router) == *final(old(self).router),
            final(self).middleware == old(self).middleware,
            route.path@ == joined(old(self).path@, path@),
            route.middleware@ == old(self).middleware@,
    {
        let p = join(self.path.as_str(), path);
        let middleware = clone_handles(self.middleware.as_slice());
        Route { router: &mut *self.router, path: p, middleware }
    }

    /// Registers `endpoint` at this route for requests of `method`, behind the middleware
    /// of the route, and hands the route back for the next registration. A malformed path
    /// is refused, and so is one that conflicts with a route of the method; both leave the
    /// router as it was.
    pub fn method<E: Endpoint>(&mut self, method: Method, endpoint: E) -> (r: std::result::Result<
        &mut Self,
        RouteError,
    >)
        requires
            old(self).router.wf(),
            old(self).router.endpoints().len() < usize::MAX,
        ensures
            r is Ok <==> well_formed(old(self).path@) && !conflicts(
                old(self).router.routes_for(method),
                old(self).path@,
            ),
            r matches Ok(route) ==> *final(self) == *final(route) && route.path == old(self).path
                && route.middleware == old(self).middleware
                && *final(route.router) == *final(old(self).router)
                && route.router.wf() && registered(
                *old(self).router,
                *route.router,
                old(self).path@,
                method,
                old(self).middleware@,
                endpoint,
            ),
            r matches Err(e) ==> (e == RouteError::MalformedPattern <==> !well_formed(
                old(self).path@,
            )) && (e == RouteError::Conflict <==> well_formed(old(self).path@))
                && final(self).path == old(self).path && final(self).middleware == old(self).middleware
                && *final(final(self).router) == *final(old(self).router)
                && final(self).router.wf() && unchanged(
                *old(self).router,
                *final(self).router,
            ),
    {
        let wrapped = MiddlewareEndpoint::wrap_with_middleware(
            endpoint,
            self.middleware.as_slice(),
        );
        let added = self.router.add(self.path.as_str(), method, wrapped);
        match added {
            Ok(()) => {
                proof {
                    let before = old(self).router.endpoints();
                    let after = self.router.endpoints();
                    assert(after == before.push(wrapped));
                    assert(after.take(before.len() as int) =~= before);
                    assert(after.last() == wrapped);
                }
                Ok(self)
            },
            Err(e) => Err(e),
        }
    }

    /// Registers `endpoint` for `HEAD` requests.
    pub fn head<E: Endpoint>(&mut self, endpoint: E) -> (r: std::result::Result<
        &mut Self,
        RouteError,
    >)
        requires
            old(self).router.wf(),
            old(self).router.endpoints().len() < usize::MAX,
        ensures
            r is Ok <==> well_formed(old(self).path@) && !conflicts(
                old(self).router.routes_for(Method::Head),
                old(self).path@,
            ),
            r matches Ok(route) ==> *final(self) == *final(route) && route.path == old(self).path
                && route.middleware == old(self).middleware
                && *final(route.router) == *final(old(self).router)
                && route.router.wf() && registered(
                *old(self).router,
                *route.router,
                old(self).path@,
                Method::Head,
                old(self).middleware@,
                endpoint,
            ),
            r matches Err(e) ==> (e == RouteError::MalformedPattern <==> !well_formed(
                old(self).path@,
            )) && (e == RouteError::Conflict <==> well_formed(old(self).path@))
                && final(self).path == old(self).path && final(self).middleware == old(self).middleware
                && *final(final(self).router) == *final(old(self).router)
                && final(self).router.wf() && unchanged(
                *old(self).router,
                *final(self).router,
            ),
    {
        self.method(Method::Head, endpoint)
    }

    /// Registers `endpoint` for `OPTIONS` requests.
    pub fn options<E: Endpoint>(&mut self, endpoint: E) -> (r: std::result::Result<
        &mut Self,
        RouteError,
    >)
        requires
            old(self).router.wf(),
            old(self).router.endpoints().len() < usize::MAX,
        ensures
            r is Ok <==> well_formed(old(self).path@) && !conflicts(
                old(self).router.routes_for(Method::Options),
                old(self).path@,
            ),
            r matches Ok(route) ==> *final(self) == *final(route) && route.path == old(self).path
                && route.middleware == old(self).middleware
                && *final(route.router) == *final(old(self).router)
                && route.router.wf() && registered(
                *old(self).router,
                *route.router,
                old(self).path@,
                Method::Options,
                old(self).middleware@,
                endpoint,
            ),
            r matches Err(e) ==> (e == RouteError::MalformedPattern <==> !well_formed(
                old(self).path@,
            )) && (e == RouteError::Conflict <==> well_formed(old(self).path@))
                && final(self).path == old(self).path && final(self).middleware == old(self).middleware
                && *final(final(self).router) == *final(old(self).router)
                && final(self).router.wf() && unchanged(
                *old(self).router,
                *final(self).router,
            ),
    {
        self.method(Method::Options, endpoint)
    }

    /// Registers `endpoint` for `GET` requests.
    pub fn get<E: Endpoint>(&mut self, endpoint: E) -> (r: std::result::Result<
        &mut Self,
        RouteError,
    >)
        requires
            old(self).router.wf(),
            old(self).router.endpoints().len() < usize::MAX,
        ensures
            r is Ok <==> well_formed(old(self).path@) && !conflicts(
                old(self).router.routes_for(Method::Get),
                old(self).path@,
            ),
            r matches Ok(route) ==> *final(self) == *final(route) && route.path == old(self).path
                && route.middleware == old(self).middleware
                && *final(route.router) == *final(old(self).router)
                && route.router.wf() && registered(
                *old(self).router,
                *route.router,
                old(self).path@,
                Method::Get,
                old(self).middleware@,
                endpoint,
            ),
            r matches Err(e) ==> (e == RouteError::MalformedPattern <==> !well_formed(
                old(self).path@,
            )) && (e == RouteError::Conflict <==> well_formed(old(self).path@))
                && final(self).path == old(self).path && final(self).middleware == old(self).middleware
                && *final(final(self).router) == *final(old(self).router)
                && final(self).router.wf() && unchanged(
                *old(self).router,
                *final(self).router,
            ),
    {
        self.method(Method::Get, endpoint)
    }

    /// Registers `endpoint` for `POST` requests.
    pub fn post<E: Endpoint>(&mut self, endpoint: E) -> (r: std::result::Result<
        &mut Self,
        RouteError,
    >)
        requires
            old(self).router.wf(),
            old(self).router.endpoints().len() < usize::MAX,
        ensures
            r is Ok <==> well_formed(old(self).path@) && !conflicts(
                old(self).router.routes_for(Method::Post),
                old(self).path@,
            ),
            r matches Ok(route) ==> *final(self) == *final(route) && route.path == old(self).path
                && route.middleware == old(self).middleware
                && *final(route.router) == *final(old(self).router)
                && route.router.wf() && registered(
                *old(self).router,
                *route.router,
                old(self).path@,
                Method::Post,
                old(self).middleware@,
                endpoint,
            ),
            r matches Err(e) ==> (e == RouteError::MalformedPattern <==> !well_formed(
                old(self).path@,
            )) && (e == RouteError::Conflict <==> well_formed(old(self).path@))
                && final(self).path == old(self).path && final(self).middleware == old(self).middleware
                && *final(final(self).router) == *final(old(self).router)
                && final(self).router.wf() && unchanged(
                *old(self).router,
                *final(self).router,
            ),
    {
        self.method(Method::Post, endpoint)
    }

    /// Registers `endpoint` for `PUT` requests.
    pub fn put<E: Endpoint>(&mut self, endpoint: E) -> (r: std::result::Result<
        &mut Self,
        RouteError,
    >)
        requires
            old(self).router.wf(),
            old(self).router.endpoints().len() < usize::MAX,
        ensures
            r is Ok <==> well_formed(old(self).path@) && !conflicts(
                old(self).router.routes_for(Method::Put),
                old(self).path@,
            ),
            r matches Ok(route) ==> *final(self) == *final(route) && route.path == old(self).path
                && route.middleware == old(self).middleware
                && *final(route.router) == *final(old(self).router)
                && route.router.wf() && registered(
                *old(self).router,
                *route.router,
                old(self).path@,
                Method::Put,
                old(self).middleware@,
                endpoint,
            ),
            r matches Err(e) ==> (e == RouteError::MalformedPattern <==> !well_formed(
                old(self).path@,
            )) && (e == RouteError::Conflict <==> well_formed(old(self).path@))
                && final(self).path == old(self).path && final(self).middleware == old(self).middleware
                && *final(final(self).router) == *final(old(self).router)
                && final(self).router.wf() && unchanged(
                *old(self).router,
                *final(self).router,
            ),
    {
        self.method(Method::Put, endpoint)
    }

    /// Registers `endpoint` for `PATCH` requests.
    pub fn patch<E: Endpoint>(&mut self, endpoint: E) -> (r: std::result::Result<
        &mut Self,
        RouteError,
    >)
        requires
            old(self).router.wf(),
            old(self).router.endpoints().len() < usize::MAX,
        ensures
            r is Ok <==> well_formed(old(self).path@) && !conflicts(
                old(self).router.routes_for(Method::Patch),
                old(self).path@,
            ),
            r matches Ok(route) ==> *final(self) == *final(route) && route.path == old(self).path
                && route.middleware == old(self).middleware
                && *final(route.router) == *final(old(self).router)
                && route.router.wf() && registered(
                *old(self).router,
                *route.router,
                old(self).path@,
                Method::Patch,
                old(self).middleware@,
                endpoint,
            ),
            r matches Err(e) ==> (e == RouteError::MalformedPattern <==> !well_formed(
                old(self).path@,
            )) && (e == RouteError::Conflict <==> well_formed(old(self).path@))
                && final(self).path == old(self).path && final(self).middleware == old(self).middleware
                && *final(final(self).router) == *final(old(self).router)
                && final(self).router.wf() && unchanged(
                *old(self).router,
                *final(self).router,
            ),
    {
        self.method(Method::Patch, endpoint)
    }

    /// Registers `endpoint` for `DELETE` requests.
    pub fn delete<E: Endpoint>(&mut self, endpoint: E) -> (r: std::result::Result<
        &mut Self,
        RouteError,
    >)
        requires
            old(self).router.wf(),
            old(self).router.endpoints().len() < usize::MAX,
        ensures
            r is Ok <==> well_formed(old(self).path@) && !conflicts(
                old(self).router.routes_for(Method::Delete),
                old(self).path@,
            ),
            r matches Ok(route) ==> *final(self) == *final(route) && route.path == old(self).path
                && route.middleware == old(self).middleware
                && *final(route.router) == *final(old(self).router)
                && route.router.wf() && registered(
                *old(self).router,
                *route.router,
                old(self).path@,
                Method::Delete,
                old(self).middleware@,
                endpoint,
            ),
            r matches Err(e) ==> (e == RouteError::MalformedPattern <==> !well_formed(
                old(self).path@,
            )) && (e == RouteError::Conflict <==> well_formed(old(self).path@))
                && final(self).path == old(self).path && final(self).middleware == old(self).middleware
                && *final(final(self).router) == *final(old(self).router)
                && final(self).router.wf() && unchanged(
                *old(self).router,
                *final(self).router,
            ),
    {
        self.method(Method::Delete, endpoint)
    }

    /// Registers `endpoint` at this route for requests of every method, behind the
    /// middleware of the route, and hands the route back for the next registration. A
    /// route of the request's own method is preferred to it. A malformed path is refused,
    /// and so is one that conflicts with a route for every method; both leave the router as
    /// it was.
    pub fn all<E: Endpoint>(&mut self, endpoint: E) -> (r: std::result::Result<
        &mut Self,
        RouteError,
    >)
        requires
            old(self).router.wf(),
            old(self).router.endpoints().len() < usize::MAX,
        ensures
            r is Ok <==> well_formed(old(self).path@) && !conflicts(
                old(self).router.all_routes(),
                old(self).path@,
            ),
            r matches Ok(route) ==> *final(self) == *final(route) && route.path == old(self).path
                && route.middleware == old(self).middleware
                && *final(route.router) == *final(old(self).router)
                && route.router.wf() && registered_for_all(
                *old(self).router,
                *route.router,
                old(self).path@,
                old(self).middleware@,
                endpoint,
            ),
            r matches Err(e) ==> (e == RouteError::MalformedPattern <==> !well_formed(
                old(self).path@,
            )) && (e == RouteError::Conflict <==> well_formed(old(self).path@))
                && final(self).path == old(self).path && final(self).middleware == old(self).middleware
                && *final(final(self).router) == *final(old(self).router)
                && final(self).router.wf() && unchanged(
                *old(self).router,
                *final(self).router,
            ),
    {
        let wrapped = MiddlewareEndpoint::wrap_with_middleware(
            endpoint,
            self.middleware.as_slice(),
        );
        let added = self.router.add_all(self.path.as_str(), wrapped);
        match added {
            Ok(()) => {
                proof {
                    let before = old(self).router.endpoints();
                    let after = self.router.endpoints();
                    assert(after.take(before.len() as int) =~= before);
                    assert(after.last() == wrapped);
                }
                Ok(self)
            },
            Err(e) => Err(e),
        }
    }
}

/// Whether `after` is `before` with one more route for every method: `endpoint` behind
/// `middleware`, under `pattern`, after the routes for every method that there were.
pub open spec fn registered_for_all<E: Endpoint>(
    before: Router,
    after: Router,
    pattern: Seq<char>,
    middleware: Seq<Arc<DynMiddleware>>,
    endpoint: E,
) -> bool {
    &&& after.not_found() == before.not_found()
    &&& after.method_not_allowed() == before.method_not_allowed()
    &&& after.endpoints().len() == before.endpoints().len() + 1
    &&& after.endpoints().take(before.endpoints().len() as int) == before.endpoints()
    &&& forall|req: Request, outcome: Result| #[trigger]
        after.endpoints().last().yields(req, outcome) <==> MiddlewareEndpoint::<
            E,
        >::wrapped_responds(middleware, endpoint, req, outcome)
    &&& after.all_routes() == before.all_routes().push(
        (pattern, before.endpoints().len() as usize),
    )
    &&& forall|m: Method| #[trigger] after.routes_for(m) == before.routes_for(m)
}

/// Whether `after` is `before` with one more route: `endpoint` behind `middleware`, under
/// `method` and `pattern`, after the routes that the method had.
pub open spec fn registered<E: Endpoint>(
    before: Router,
    after: Router,
    pattern: Seq<char>,
    method: Method,
    middleware: Seq<Arc<DynMiddleware>>,
    endpoint: E,
) -> bool {
    &&& after.all_routes() == before.all_routes()
    &&& after.not_found() == before.not_found()
    &&& after.method_not_allowed() == before.method_not_allowed()
    &&& after.endpoints().len() == before.endpoints().len() + 1
    &&& after.endpoints().take(before.endpoints().len() as int) == before.endpoints()
    &&& forall|req: Request, outcome: Result| #[trigger]
        after.endpoints().last().yields(req, outcome) <==> MiddlewareEndpoint::<
            E,
        >::wrapped_responds(middleware, endpoint, req, outcome)
    &&& after.routes_for(method) == before.routes_for(method).push(
        (pattern, before.endpoints().len() as usize),
    )
    &&& forall|m: Method| m != method ==> #[trigger] after.routes_for(m) == before.routes_for(m)
}

/// Whether two routers hold the same routes and endpoints.
pub open spec fn unchanged(before: Router, after: Router) -> bool {
    &&& after.all_routes() == before.all_routes()
    &&& after.not_found() == before.not_found()
    &&& after.method_not_allowed() == before.method_not_allowed()
    &&& after.endpoints() == before.endpoints()
    &&& forall|m: Method| #[trigger] after.routes_for(m) == before.routes_for(m)
}

/// A registered endpoint is found again: where the route that was registered last under a
/// method is the one that the table prefers for a path, a request of that method for the
/// path gets the registered endpoint, behind the middleware of its route, and what the
/// pattern of the route captures from the path.
pub proof fn lemma_registered_endpoint_is_found<E: Endpoint>(
    before: Router,
    after: Router,
    pattern: Seq<char>,
    method: Method,
    middleware: Seq<Arc<DynMiddleware>>,
    endpoint: E,
    path: Seq<char>,
)
    requires
        registered(before, after, pattern, method, middleware, endpoint),
        best_route(patterns_of(after.routes_for(method)), path) == Some(
            before.routes_for(method).len() as int,
        ),
    ensures
        after.resolve(path, method) == (Routed::Found {
            handler: before.endpoints().len() as usize,
            params: pattern_captures(pattern, path)->0,
        }),
        forall|req: Request, outcome: Result| #[trigger]
            after.endpoints()[before.endpoints().len() as int].yields(req, outcome)
                <==> MiddlewareEndpoint::<E>::wrapped_responds(middleware, endpoint, req, outcome),
{
    let routes = after.routes_for(method);
    let last = before.routes_for(method).len() as int;
    assert(routes[last] == (pattern, before.endpoints().len() as usize));
    assert(after.endpoints().last() == after.endpoints()[before.endpoints().len() as int]);
}

/// A registered endpoint is found again: where the pattern of the route that was registered
/// last under a method matches a path, and no route that the method had before matches it,
/// a request of that method for the path gets the registered endpoint, behind the
/// middleware of its route, and what the pattern captures from the path. The premise on the
/// table is what `Router::route` ensures of every lookup.
pub proof fn lemma_registered_sole_match_is_found<E: Endpoint>(
    before: Router,
    after: Router,
    pattern: Seq<char>,
    method: Method,
    middleware: Seq<Arc<DynMiddleware>>,
    endpoint: E,
    path: Seq<char>,
)
    requires
        registered(before, after, pattern, method, middleware, endpoint),
        truthful(after.routes_for(method), path),
        pattern_captures(pattern, path) is Some,
        none_matches(before.routes_for(method), path),
    ensures
        after.resolve(path, method) == (Routed::Found {
            handler: before.endpoints().len() as usize,
            params: pattern_captures(pattern, path)->0,
        }),
        forall|req: Request, outcome: Result| #[trigger]
            after.endpoints()[before.endpoints().len() as int].yields(req, outcome)
                <==> MiddlewareEndpoint::<E>::wrapped_responds(middleware, endpoint, req, outcome),
{
    let routes = after.routes_for(method);
    let last = before.routes_for(method).len() as int;
    assert(routes[last] == (pattern, before.endpoints().len() as usize));
    assert forall|k: int| 0 <= k < routes.len() && k != last implies (#[trigger] pattern_captures(
        routes[k].0,
        path,
    )) is None by {
        assert(routes[k] == before.routes_for(method)[k]);
    }
    lemma_sole_match_is_chosen(after, path, method, last);
    assert(after.endpoints().last() == after.endpoints()[before.endpoints().len() as int]);
}

} // verus!
