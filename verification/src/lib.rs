//! A small HTTP server framework: a router of paths and methods, a chain of middleware
//! around each endpoint, a cookie jar for each request, and the rules of the listener that
//! feeds requests to the server.

use vstd::prelude::*;

pub mod auth_middleware;
pub mod captures;
pub mod cookie_middleware;
pub mod cookies;
pub mod cors_middleware;
pub mod endpoint;
pub mod error;
pub mod fs;
pub mod headers;
pub mod listeners;
pub mod log_middleware;
pub mod method;
pub mod middleware;
pub mod redirect;
pub mod request;
pub mod response;
pub mod route;
pub mod router;
pub mod server;
pub mod shared;
pub mod status;
pub mod text;

pub use auth_middleware::{
    AuthMiddleware, BasicAuthRequest, BasicAuthScheme, BearerAuthRequest, BearerAuthScheme, Scheme,
    WithHttpAuth,
};
pub use captures::Captures;
pub use cookie_middleware::{CookieData, CookieMiddleware};
pub use cors_middleware::{CorsMiddleware, Origin, WithCors};
pub use endpoint::{Endpoint, FnEndpoint};
pub use error::Error;
pub use headers::{Header, Headers};
pub use http_types::Cookie;
pub use listeners::{ParsedListener, TcpListener};
pub use log_middleware::{LogMiddleware, WithLogging};
pub use method::Method;
pub use middleware::{Middleware, Next};
pub use redirect::Redirect;
pub use request::Request;
pub use response::{Body, Response, Result};
pub use route::Route;
pub use server::Server;
pub use status::StatusCode;

verus! {

/// A server without routes, with the cookie middleware as its only middleware.
#[must_use]
pub fn new() -> (s: Server)
    ensures
        s.wf(),
        s.router().endpoints().len() == 0,
        s.router().all_routes().len() == 0,
        forall|m: Method| (#[trigger] s.router().routes_for(m)).len() == 0,
        s.middleware().len() == 1,
        forall|req: Request, next: Next<'_>, outcome: Result| #[trigger]
            s.middleware()[0].handles(req, next, outcome) <==> CookieMiddleware.handles(
                req,
                next,
                outcome,
            ),
{
    Server::new()
}

} // verus!
