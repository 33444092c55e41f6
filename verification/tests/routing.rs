use rustic::router::{is_well_formed, shape_of, RouteError};
use rustic::server::ServerError;
use rustic::{Endpoint, FnEndpoint, Method, Request, Response, Server, StatusCode};

struct Fixed(&'static str);

impl Endpoint for Fixed {
    fn call(&self, _req: Request) -> rustic::Result {
        Ok(Response::from_text(self.0))
    }
}

struct Echo(&'static str);

impl Endpoint for Echo {
    fn call(&self, req: Request) -> rustic::Result {
        Ok(Response::from_text(req.param(self.0)?))
    }
}

struct Wildcard;

impl Endpoint for Wildcard {
    fn call(&self, req: Request) -> rustic::Result {
        let rest = req.route_params.last().and_then(|c| c.wildcard()).unwrap_or("<none>");
        Ok(Response::from_text(rest))
    }
}

fn post_id(req: Request) -> rustic::Result {
    let id = req.param("id")?.to_string();
    Ok(Response::from_text(&id))
}

fn text(res: &Response) -> String {
    String::from_utf8(res.body.clone()).unwrap()
}

fn get(server: &Server, path: &str) -> Response {
    server.respond(Request::new(Method::Get, path))
}

#[test]
fn captured_id_is_returned_as_text() {
    let mut server = rustic::new();
    server.at("/posts/:id").unwrap().get(FnEndpoint::new(post_id)).unwrap();
    let res = get(&server, "/posts/42");
    assert_eq!(res.status(), StatusCode::Okay);
    assert_eq!(res.status().code(), 200);
    assert_eq!(res.body, b"42".to_vec());
    assert_eq!(res.header("content-type"), Some(vec!["text/plain;charset=utf-8".to_string()]));
}

#[test]
fn unregistered_path_is_not_found() {
    let mut server = Server::new();
    server.at("/posts/:id").unwrap().get(FnEndpoint::new(post_id)).unwrap();
    let res = get(&server, "/missing");
    assert_eq!(res.status(), StatusCode::NotFound);
    assert_eq!(res.status().code(), 404);
    assert!(res.body.is_empty());
    assert!(res.headers.entries.is_empty());
}

#[test]
fn empty_server_answers_not_found() {
    let server = Server::new();
    assert_eq!(get(&server, "/").status(), StatusCode::NotFound);
    let res = server.respond(Request::new(Method::Head, "/anything"));
    assert_eq!(res.status(), StatusCode::NotFound);
}

#[test]
fn every_registered_pair_returns_its_own_endpoint_and_captures() {
    let mut server = Server::new();
    server.at("/").unwrap().get(Fixed("root")).unwrap();
    server.at("/users").unwrap().get(Fixed("list")).unwrap();
    server.at("/users").unwrap().post(Fixed("create")).unwrap();
    server.at("/users/:name").unwrap().get(Echo("name")).unwrap();
    server.at("/users/:name").unwrap().put(Fixed("replace")).unwrap();
    server.at("/users/:name").unwrap().patch(Fixed("amend")).unwrap();
    server.at("/users/:name").unwrap().delete(Fixed("remove")).unwrap();
    server.at("/users/:name/posts/:id").unwrap().get(Echo("id")).unwrap();
    server.at("/users/:name/posts/:id").unwrap().options(Echo("name")).unwrap();
    server.at("/users/:name/avatar").unwrap().head(Fixed("head")).unwrap();
    server.at("/files/*").unwrap().get(Wildcard).unwrap();

    let cases: Vec<(Method, &str, &str)> = vec![
        (Method::Get, "/", "root"),
        (Method::Get, "/users", "list"),
        (Method::Post, "/users", "create"),
        (Method::Get, "/users/ada", "ada"),
        (Method::Put, "/users/ada", "replace"),
        (Method::Patch, "/users/ada", "amend"),
        (Method::Delete, "/users/ada", "remove"),
        (Method::Get, "/users/ada/posts/7", "7"),
        (Method::Options, "/users/ada/posts/7", "ada"),
        (Method::Head, "/users/ada/avatar", "head"),
        (Method::Get, "/files/a/b/c.txt", "a/b/c.txt"),
    ];
    for (method, path, expected) in cases {
        let res = server.respond(Request::new(method, path));
        assert_eq!(res.status(), StatusCode::Okay, "{:?} {}", method, path);
        assert_eq!(text(&res), expected, "{:?} {}", method, path);
    }
}

#[test]
fn literal_route_is_preferred_to_parameter_and_parameter_to_wildcard() {
    let mut server = Server::new();
    server.at("/*").unwrap().get(Fixed("wildcard")).unwrap();
    server.at("/:thing").unwrap().get(Fixed("parameter")).unwrap();
    server.at("/hello").unwrap().get(Fixed("literal")).unwrap();
    assert_eq!(text(&get(&server, "/hello")), "literal");
    assert_eq!(text(&get(&server, "/hey")), "parameter");
    assert_eq!(text(&get(&server, "/hey/there")), "wildcard");
}

#[test]
fn head_request_falls_back_to_the_get_route() {
    let mut server = Server::new();
    server.at("/page").unwrap().get(Fixed("page")).unwrap();
    let res = server.respond(Request::new(Method::Head, "/page"));
    assert_eq!(res.status(), StatusCode::Okay);
    assert_eq!(text(&res), "page");
}

#[test]
fn head_route_of_its_own_is_preferred_to_the_get_route() {
    let mut server = Server::new();
    server.at("/page").unwrap().get(Fixed("get")).unwrap();
    server.at("/page").unwrap().head(Fixed("head")).unwrap();
    assert_eq!(text(&server.respond(Request::new(Method::Head, "/page"))), "head");
    assert_eq!(text(&get(&server, "/page")), "get");
}

#[test]
fn path_of_another_method_is_not_allowed() {
    let mut server = Server::new();
    server.at("/submit").unwrap().post(Fixed("posted")).unwrap();
    let res = get(&server, "/submit");
    assert_eq!(res.status(), StatusCode::MethodNotAllowed);
    assert_eq!(res.status().code(), 405);
    assert!(res.body.is_empty());
    let res = server.respond(Request::new(Method::Head, "/submit"));
    assert_eq!(res.status(), StatusCode::MethodNotAllowed);
    let res = server.respond(Request::new(Method::Post, "/submit"));
    assert_eq!(text(&res), "posted");
    assert_eq!(get(&server, "/other").status(), StatusCode::NotFound);
}

#[test]
fn route_for_every_method_answers_where_the_method_has_none() {
    let mut server = Server::new();
    server.at("/any").unwrap().all(Fixed("any")).unwrap();
    server.at("/any").unwrap().post(Fixed("post")).unwrap();
    assert_eq!(text(&get(&server, "/any")), "any");
    assert_eq!(text(&server.respond(Request::new(Method::Delete, "/any"))), "any");
    assert_eq!(text(&server.respond(Request::new(Method::Post, "/any"))), "post");
}

#[test]
fn malformed_patterns_are_refused_at_registration() {
    assert!(is_well_formed("/"));
    assert!(is_well_formed(""));
    assert!(is_well_formed("/posts/:id"));
    assert!(is_well_formed("/files/*"));
    assert!(is_well_formed("/files/*/"));
    assert!(is_well_formed("/a*b/c"));
    assert!(is_well_formed("/report.:format"));
    assert!(!is_well_formed("/*/edit"));
    assert!(!is_well_formed("/*name"));
    assert!(!is_well_formed("/files/*.txt"));
    assert!(!is_well_formed("/:"));
    assert!(!is_well_formed("/:/x"));
    assert!(!is_well_formed("/a/:.json"));
    assert!(!is_well_formed("/é/:a/:b"));
    assert!(!is_well_formed("/caf\u{e9}"));
    assert!(!is_well_formed("/\u{80}"));
    assert!(is_well_formed("/~\u{7f}"));

    let mut server = Server::new();
    for pattern in ["/*/edit", "/*name", "/:", "/files/*.txt", "/é/:a/:b"] {
        let mut route = server.at(pattern).unwrap();
        let r = route.get(Fixed("never"));
        assert_eq!(r.err(), Some(RouteError::MalformedPattern), "{}", pattern);
    }
    assert_eq!(get(&server, "/x/edit").status(), StatusCode::NotFound);
    assert_eq!(get(&server, "/name").status(), StatusCode::NotFound);
    assert_eq!(get(&server, "/éx").status(), StatusCode::NotFound);
    assert_eq!(get(&server, "/é/1/2").status(), StatusCode::NotFound);
}

#[test]
fn paths_outside_ascii_are_matched_by_ascii_patterns() {
    let mut server = Server::new();
    server.at("/users/:name").unwrap().get(Echo("name")).unwrap();
    server.at("/files/*").unwrap().get(Wildcard).unwrap();
    assert_eq!(text(&get(&server, "/users/zoé")), "zoé");
    assert_eq!(text(&get(&server, "/files/é/ü.txt")), "é/ü.txt");
    assert_eq!(get(&server, "/é").status(), StatusCode::NotFound);
}

#[test]
fn sub_route_paths_are_joined_with_one_slash() {
    let mut server = Server::new();
    let mut api = server.at("/api").unwrap();
    assert_eq!(api.path(), "/api");
    assert_eq!(api.at("v1").path(), "/api/v1");
    assert_eq!(api.at("/v1").path(), "/api/v1");
    assert_eq!(api.at("/").path(), "/api");
    assert_eq!(api.at("").path(), "/api/");
    let mut slash = api.at("v2/");
    assert_eq!(slash.path(), "/api/v2/");
    assert_eq!(slash.at("x").path(), "/api/v2/x");
    assert_eq!(slash.at("/x").path(), "/api/v2//x");
    assert_eq!(rustic::route::join("", "/"), "");
    assert_eq!(rustic::route::join("", "x"), "/x");
}

#[test]
fn shared_server_is_frozen() {
    let mut server = Server::new();
    server.at("/early").unwrap().get(Fixed("early")).unwrap();
    let handle = server.clone();
    assert!(matches!(server.at("/late"), Err(ServerError::Frozen)));
    assert_eq!(server.with(rustic::CookieMiddleware::new()).err(), Some(ServerError::Frozen));
    assert_eq!(text(&get(&handle, "/early")), "early");
    assert_eq!(text(&get(&server, "/early")), "early");
    assert_eq!(get(&handle, "/late").status(), StatusCode::NotFound);
    drop(handle);
    server.at("/late").unwrap().get(Fixed("late")).unwrap();
    assert_eq!(text(&get(&server, "/late")), "late");
}

#[test]
fn missing_parameter_is_a_failure_not_a_crash() {
    let mut server = Server::new();
    server.at("/posts/:id").unwrap().get(Echo("slug")).unwrap();
    let res = get(&server, "/posts/42");
    assert_eq!(res.status(), StatusCode::InternalServerError);
    assert_eq!(res.error().unwrap().message(), "Param \"slug\" not found");
}

#[test]
fn sole_matching_route_of_the_method_is_the_one_that_answers() {
    let mut server = Server::new();
    server.at("/a/:x").unwrap().post(Fixed("post")).unwrap();
    server.at("/b").unwrap().get(Fixed("b")).unwrap();
    server.at("/a/:id").unwrap().get(Echo("id")).unwrap();
    server.at("/c/*").unwrap().get(Fixed("c")).unwrap();
    let res = get(&server, "/a/17");
    assert_eq!(res.status(), StatusCode::Okay);
    assert_eq!(text(&res), "17");
    assert_eq!(text(&get(&server, "/b")), "b");
    assert_eq!(text(&get(&server, "/c/d/e")), "c");
}

#[test]
fn registrations_are_chained() {
    let mut server = Server::new();
    server
        .with(rustic::CookieMiddleware::new())
        .unwrap()
        .with(rustic::CorsMiddleware::new())
        .unwrap()
        .at("/item")
        .unwrap()
        .get(Fixed("get"))
        .unwrap()
        .post(Fixed("post"))
        .unwrap()
        .delete(Fixed("delete"))
        .unwrap();
    assert_eq!(text(&get(&server, "/item")), "get");
    assert_eq!(text(&server.respond(Request::new(Method::Post, "/item"))), "post");
    assert_eq!(text(&server.respond(Request::new(Method::Delete, "/item"))), "delete");
    assert_eq!(
        server.respond(Request::new(Method::Put, "/item")).status(),
        StatusCode::MethodNotAllowed
    );
}

fn shape(pattern: &str) -> String {
    shape_of(pattern).into_iter().collect()
}

#[test]
fn pattern_registered_twice_for_a_method_is_a_conflict() {
    let mut server = Server::new();
    server.at("/posts/:id").unwrap().get(Fixed("first")).unwrap();
    let mut route = server.at("/posts/:id").unwrap();
    assert_eq!(route.get(Fixed("second")).err(), Some(RouteError::Conflict));
    assert_eq!(route.method(Method::Get, Fixed("third")).err(), Some(RouteError::Conflict));
    assert!(route.post(Fixed("post")).is_ok());
    assert_eq!(route.post(Fixed("again")).err(), Some(RouteError::Conflict));
    assert_eq!(text(&get(&server, "/posts/1")), "first");
    assert_eq!(text(&server.respond(Request::new(Method::Post, "/posts/1"))), "post");
}

#[test]
fn patterns_that_differ_in_parameter_names_or_outer_slashes_conflict() {
    let mut server = Server::new();
    server.at("/users/:name/posts/:id").unwrap().get(Echo("name")).unwrap();
    for pattern in [
        "/users/:user/posts/:post",
        "users/:name/posts/:id",
        "/users/:name/posts/:id/",
        "//users/:a/posts/:b//",
    ] {
        let mut route = server.at(pattern).unwrap();
        assert_eq!(route.get(Fixed("never")).err(), Some(RouteError::Conflict), "{}", pattern);
    }
    for pattern in ["/users/:name/posts", "/users/:name/posts/*", "/users/name/posts/:id", "/users/:name/posts/:id.json"] {
        let mut route = server.at(pattern).unwrap();
        assert!(route.get(Fixed("other")).is_ok(), "{}", pattern);
    }
    assert_eq!(text(&get(&server, "/users/ada/posts/7")), "ada");
}

#[test]
fn malformed_pattern_is_reported_before_a_conflict() {
    let mut server = Server::new();
    server.at("/a").unwrap().get(Fixed("a")).unwrap();
    let mut route = server.at("/a/:").unwrap();
    assert_eq!(route.get(Fixed("x")).err(), Some(RouteError::MalformedPattern));
    assert_eq!(route.get(Fixed("x")).err(), Some(RouteError::MalformedPattern));
}

#[test]
fn routes_for_every_method_conflict_among_themselves_only() {
    let mut server = Server::new();
    server.at("/any/:x").unwrap().all(Fixed("any")).unwrap();
    assert_eq!(
        server.at("/any/:y").unwrap().all(Fixed("again")).err(),
        Some(RouteError::Conflict)
    );
    assert!(server.at("/any/:y").unwrap().get(Fixed("get")).is_ok());
    assert_eq!(text(&get(&server, "/any/1")), "get");
    assert_eq!(text(&server.respond(Request::new(Method::Put, "/any/1"))), "any");
}

#[test]
fn shape_of_a_pattern_drops_outer_slashes_and_parameter_names() {
    assert_eq!(shape("/posts/:id"), "posts/:");
    assert_eq!(shape("posts/:slug/"), "posts/:");
    assert_eq!(shape("/:a/:b.:c"), ":/:.:");
    assert_eq!(shape("/report.:format"), "report.:");
    assert_eq!(shape("/a:b/c"), "a:b/c");
    assert_eq!(shape("/files/*"), "files/*");
    assert_eq!(shape("///"), "");
    assert_eq!(shape(""), "");
    assert_eq!(shape("/a//b"), "a//b");
    assert_eq!(shape("/:"), ":");
}
