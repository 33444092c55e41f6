use std::sync::{Arc, Mutex};

use rustic::{Endpoint, Error, Method, Middleware, Next, Request, Response, Server, StatusCode};

type Trace = Arc<Mutex<Vec<String>>>;

struct Recorder {
    label: &'static str,
    trace: Trace,
    short_circuit: bool,
}

impl Middleware for Recorder {
    fn handle(&self, req: Request, next: Next<'_>) -> rustic::Result {
        self.trace.lock().unwrap().push(format!("{}-pre", self.label));
        if self.short_circuit {
            return Ok(Response::new(StatusCode::Forbidden));
        }
        let res = next.run(req);
        self.trace.lock().unwrap().push(format!("{}-post", self.label));
        Ok(res)
    }
}

struct Terminal {
    trace: Trace,
}

impl Endpoint for Terminal {
    fn call(&self, _req: Request) -> rustic::Result {
        self.trace.lock().unwrap().push("E".to_string());
        Ok(Response::from_text("done"))
    }
}

struct Failing;

impl Endpoint for Failing {
    fn call(&self, _req: Request) -> rustic::Result {
        Err(Error::from_str(StatusCode::ImATeapot, "no coffee"))
    }
}

fn recorder(label: &'static str, trace: &Trace, short_circuit: bool) -> Recorder {
    Recorder { label, trace: trace.clone(), short_circuit }
}

fn names(trace: &Trace) -> Vec<String> {
    trace.lock().unwrap().clone()
}

#[test]
fn middleware_runs_in_order_and_unwinds_in_reverse() {
    let trace: Trace = Arc::new(Mutex::new(Vec::new()));
    let mut server = Server::new();
    server.with(recorder("A", &trace, false)).unwrap();
    server.with(recorder("B", &trace, false)).unwrap();
    server.at("/").unwrap().get(Terminal { trace: trace.clone() }).unwrap();
    let res = server.respond(Request::new(Method::Get, "/"));
    assert_eq!(res.status(), StatusCode::Okay);
    assert_eq!(names(&trace), vec!["A-pre", "B-pre", "E", "B-post", "A-post"]);
}

#[test]
fn short_circuit_skips_what_is_below_and_unwinds_what_is_above() {
    let trace: Trace = Arc::new(Mutex::new(Vec::new()));
    let mut server = Server::new();
    server.with(recorder("A", &trace, false)).unwrap();
    server.with(recorder("B", &trace, true)).unwrap();
    server.at("/").unwrap().get(Terminal { trace: trace.clone() }).unwrap();
    let res = server.respond(Request::new(Method::Get, "/"));
    assert_eq!(res.status(), StatusCode::Forbidden);
    assert_eq!(names(&trace), vec!["A-pre", "B-pre", "A-post"]);
}

#[test]
fn global_middleware_wraps_route_middleware() {
    let trace: Trace = Arc::new(Mutex::new(Vec::new()));
    let mut server = Server::new();
    server.with(recorder("G", &trace, false)).unwrap();
    {
        let mut route = server.at("/scoped").unwrap();
        route.with(recorder("R1", &trace, false));
        route.with(recorder("R2", &trace, false));
        route.get(Terminal { trace: trace.clone() }).unwrap();
    }
    server.at("/plain").unwrap().get(Terminal { trace: trace.clone() }).unwrap();
    server.respond(Request::new(Method::Get, "/scoped"));
    assert_eq!(
        names(&trace),
        vec!["G-pre", "R1-pre", "R2-pre", "E", "R2-post", "R1-post", "G-post"]
    );
    trace.lock().unwrap().clear();
    server.respond(Request::new(Method::Get, "/plain"));
    assert_eq!(names(&trace), vec!["G-pre", "E", "G-post"]);
}

#[test]
fn sub_route_takes_the_middleware_that_its_parent_has_when_it_is_made() {
    let trace: Trace = Arc::new(Mutex::new(Vec::new()));
    let mut server = Server::new();
    {
        let mut parent = server.at("/api").unwrap();
        parent.with(recorder("P", &trace, false));
        {
            let mut child = parent.at("v1");
            assert_eq!(child.path(), "/api/v1");
            child.with(recorder("C", &trace, false));
            child.get(Terminal { trace: trace.clone() }).unwrap();
        }
        parent.with(recorder("Late", &trace, false));
        parent.get(Terminal { trace: trace.clone() }).unwrap();
    }
    server.respond(Request::new(Method::Get, "/api/v1"));
    assert_eq!(names(&trace), vec!["P-pre", "C-pre", "E", "C-post", "P-post"]);
    trace.lock().unwrap().clear();
    server.respond(Request::new(Method::Get, "/api"));
    assert_eq!(names(&trace), vec!["P-pre", "Late-pre", "E", "Late-post", "P-post"]);
}

#[test]
fn failure_of_an_endpoint_becomes_a_response() {
    let trace: Trace = Arc::new(Mutex::new(Vec::new()));
    let mut server = Server::new();
    server.with(recorder("A", &trace, false)).unwrap();
    server.at("/tea").unwrap().get(Failing).unwrap();
    let res = server.respond(Request::new(Method::Get, "/tea"));
    assert_eq!(res.status(), StatusCode::ImATeapot);
    assert_eq!(res.status().code(), 418);
    let error = res.error().expect("the failure travels with the response");
    assert_eq!(error.status(), StatusCode::ImATeapot);
    assert_eq!(error.message(), "no coffee");
    assert!(res.body.is_empty());
    assert_eq!(names(&trace), vec!["A-pre", "A-post"]);
}

#[test]
fn default_middleware_name() {
    let trace: Trace = Arc::new(Mutex::new(Vec::new()));
    assert_eq!(recorder("A", &trace, false).name(), "middleware");
    assert_eq!(rustic::CookieMiddleware::new().name(), "CookieMiddleware");
    let held = rustic::middleware::DynMiddleware::new(rustic::CookieMiddleware::new());
    assert_eq!(held.name(), "CookieMiddleware");
    let held = rustic::middleware::DynMiddleware::new(recorder("B", &trace, false));
    assert_eq!(held.name(), "middleware");
    let installed = rustic::middleware::Installed { middleware: rustic::CorsMiddleware::new() };
    assert_eq!(installed.name(), "CorsMiddleware");
}
