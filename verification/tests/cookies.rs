use rustic::cookies::{CookieEvent, LazyJar};
use rustic::{
    Cookie, CookieData, CookieMiddleware, Endpoint, Method, Middleware, Next, Request, Response,
    Server, StatusCode,
};

fn request_with_cookies(values: &[&str]) -> Request {
    let mut req = Request::new(Method::Get, "/");
    for v in values {
        req.headers.append("Cookie", v);
    }
    req
}

fn set_cookies(res: &Response) -> Vec<String> {
    let mut lines = res.header("set-cookie").unwrap_or_default();
    lines.sort();
    lines
}

struct Plain;

impl Endpoint for Plain {
    fn call(&self, _req: Request) -> rustic::Result {
        Ok(Response::from_text("plain"))
    }
}

struct AddsThenRemoves;

impl Endpoint for AddsThenRemoves {
    fn call(&self, _req: Request) -> rustic::Result {
        let mut res = Response::new(StatusCode::Okay);
        res.insert_cookie(Cookie::new("k", "v"));
        res.remove_cookie(Cookie::named("k"));
        Ok(res)
    }
}

struct Adds;

impl Endpoint for Adds {
    fn call(&self, _req: Request) -> rustic::Result {
        let mut res = Response::new(StatusCode::Okay);
        res.insert_cookie(Cookie::new("session", "a b"));
        res.insert_cookie(Cookie::build("theme", "dark").path("/").finish());
        Ok(res)
    }
}

struct ReadsCookie;

impl Endpoint for ReadsCookie {
    fn call(&self, req: Request) -> rustic::Result {
        let value = match req.cookie("user") {
            Some(c) => c.value().to_string(),
            None => "<none>".to_string(),
        };
        Ok(Response::from_text(&value))
    }
}

struct AddsOnTheWayOut;

impl Middleware for AddsOnTheWayOut {
    fn handle(&self, req: Request, next: Next<'_>) -> rustic::Result {
        let mut res = next.run(req);
        res.insert_cookie(Cookie::new("late", "1"));
        Ok(res)
    }
}

#[test]
fn response_without_cookie_events_gets_no_set_cookie_header() {
    let mut server = Server::new();
    server.at("/").unwrap().get(Plain).unwrap();
    let mut req = request_with_cookies(&["a=1; b=2"]);
    req.path = "/".to_string();
    let res = server.respond(req);
    assert_eq!(res.status(), StatusCode::Okay);
    assert_eq!(res.header("set-cookie"), None);
    assert_eq!(res.headers.entries.len(), 1);
}

#[test]
fn added_cookies_are_written_as_set_cookie_headers() {
    let mut server = Server::new();
    server.at("/").unwrap().get(Adds).unwrap();
    let res = server.respond(Request::new(Method::Get, "/"));
    assert_eq!(set_cookies(&res), vec!["session=a%20b".to_string(), "theme=dark; Path=/".to_string()]);
    assert!(res.cookie_events.is_empty());
}

#[test]
fn cookie_added_then_removed_leaves_only_the_removal() {
    let mut server = Server::new();
    server.at("/").unwrap().get(AddsThenRemoves).unwrap();

    let res = server.respond(Request::new(Method::Get, "/"));
    assert_eq!(res.header("set-cookie"), None);

    let res = server.respond(request_with_cookies(&["k=old"]));
    let lines = set_cookies(&res);
    assert_eq!(lines.len(), 1);
    assert!(lines[0].starts_with("k=; Max-Age=0; Expires="), "{}", lines[0]);
}

#[test]
fn jar_after_add_and_remove_holds_no_cookie_of_the_name() {
    let mut jar = LazyJar::new();
    jar.add_original(Cookie::new("k", "old"));
    jar.add_original(Cookie::new("other", "1"));
    assert_eq!(jar.get("k").unwrap().value(), "old");
    jar.apply(CookieEvent::Added(Cookie::new("k", "v")));
    assert_eq!(jar.get("k").unwrap().value(), "v");
    assert_eq!(jar.delta(), vec![("k".to_string(), "k=v".to_string())]);
    jar.apply(CookieEvent::Removed(Cookie::named("k")));
    assert!(jar.get("k").is_none());
    assert_eq!(jar.get("other").unwrap().value(), "1");
    let delta = jar.delta();
    assert_eq!(delta.len(), 1);
    assert_eq!(delta[0].0, "k");

    let mut fresh = LazyJar::new();
    fresh.add(Cookie::new("k", "v"));
    assert_eq!(fresh.delta().len(), 1);
    fresh.remove(Cookie::named("k"));
    assert!(fresh.get("k").is_none());
    assert!(fresh.delta().is_empty());
    assert!(LazyJar::new().delta().is_empty());
    assert!(LazyJar::new().get("k").is_none());
}

#[test]
fn snapshot_of_a_jar_holds_the_same_and_is_independent() {
    let mut jar = LazyJar::new();
    jar.add_original(Cookie::new("a", "1"));
    let mut copy = jar.snapshot();
    copy.add(Cookie::new("b", "2"));
    assert_eq!(copy.get("a").unwrap().value(), "1");
    assert_eq!(copy.get("b").unwrap().value(), "2");
    assert!(jar.get("b").is_none());
    assert!(jar.delta().is_empty());
}

#[test]
fn cookie_header_is_parsed_pair_by_pair_and_bad_pairs_are_skipped() {
    let req = request_with_cookies(&["user=ada; broken; =empty; theme=dark", "lang=en%20GB"]);
    let data = CookieData::from_request(&req);
    assert_eq!(data.content.get("user").unwrap().value(), "ada");
    assert_eq!(data.content.get("theme").unwrap().value(), "dark");
    assert_eq!(data.content.get("lang").unwrap().value(), "en GB");
    assert!(data.content.get("broken").is_none());
    assert!(data.content.get("").is_none());
    assert!(data.content.delta().is_empty());

    let none = CookieData::from_request(&Request::new(Method::Get, "/"));
    assert!(none.content.0.is_none());
    assert!(none.content.get("user").is_none());
}

#[test]
fn endpoint_reads_the_cookies_of_the_request() {
    let mut server = Server::new();
    server.at("/").unwrap().get(ReadsCookie).unwrap();
    let res = server.respond(request_with_cookies(&["user=ada"]));
    assert_eq!(res.body, b"ada".to_vec());
    let res = server.respond(Request::new(Method::Get, "/"));
    assert_eq!(res.body, b"<none>".to_vec());
}

#[test]
fn request_without_cookie_middleware_has_no_jar() {
    let req = request_with_cookies(&["user=ada"]);
    assert!(req.cookies.is_none());
    assert!(req.cookie("user").is_none());
}

#[test]
fn nested_cookie_middleware_keeps_the_jar_that_is_there() {
    let mut server = Server::new();
    server.with(CookieMiddleware::new()).unwrap();
    server.at("/").unwrap().get(Adds).unwrap();
    let res = server.respond(Request::new(Method::Get, "/"));
    assert_eq!(set_cookies(&res).len(), 2);
}

#[test]
fn events_of_middleware_above_the_endpoint_reach_the_cookie_middleware() {
    let mut server = Server::new();
    server.with(AddsOnTheWayOut).unwrap();
    server.at("/").unwrap().get(Plain).unwrap();
    let res = server.respond(Request::new(Method::Get, "/"));
    assert_eq!(set_cookies(&res), vec!["late=1".to_string()]);
}

#[test]
fn flush_applies_events_in_order() {
    let mut jar = LazyJar::new();
    let mut res = Response::new(StatusCode::Okay);
    res.insert_cookie(Cookie::new("a", "1"));
    res.insert_cookie(Cookie::new("a", "2"));
    res.append_header("x-kept", "yes");
    let out = CookieMiddleware::flush(&mut jar, res);
    assert_eq!(out.header("set-cookie"), Some(vec!["a=2".to_string()]));
    assert_eq!(out.header("x-kept"), Some(vec!["yes".to_string()]));
    assert_eq!(jar.get("a").unwrap().value(), "2");
    assert!(out.cookie_events.is_empty());

    let untouched = CookieMiddleware::flush(&mut jar, Response::new(StatusCode::NoContent));
    assert_eq!(untouched.status(), StatusCode::NoContent);
    assert!(untouched.headers.entries.is_empty());
}
