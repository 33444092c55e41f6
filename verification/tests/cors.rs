use regex::Regex;
use rustic::cors_middleware::{DEFAULT_MAX_AGE, DEFAULT_METHODS, WILDCARD};
use rustic::{
    CorsMiddleware, Endpoint, Method, Origin, Request, Response, Server, StatusCode, WithCors,
};

struct Page;

impl Endpoint for Page {
    fn call(&self, _req: Request) -> rustic::Result {
        let mut res = Response::from_text("page");
        res.append_header("access-control-allow-origin", "stale");
        Ok(res)
    }
}

fn server(configure: fn(CorsMiddleware) -> CorsMiddleware) -> Server {
    let mut server = Server::new();
    server.with_cors(configure).unwrap();
    server.at("/").unwrap().get(Page).unwrap();
    server
}

fn from_origin(method: Method, origins: &[&str]) -> Request {
    let mut req = Request::new(method, "/");
    for o in origins {
        req.headers.append("Origin", o);
    }
    req
}

fn one(res: &Response, name: &str) -> String {
    let values = res.header(name).unwrap_or_else(|| panic!("no header {}", name));
    assert_eq!(values.len(), 1, "{}", name);
    values[0].clone()
}

#[test]
fn request_without_origin_passes_untouched() {
    let res = server(|c| c).respond(Request::new(Method::Get, "/"));
    assert_eq!(res.status(), StatusCode::Okay);
    assert_eq!(one(&res, "access-control-allow-origin"), "stale");
}

#[test]
fn default_middleware_lets_every_origin_in() {
    let res = server(|c| c).respond(from_origin(Method::Get, &["https://a.example"]));
    assert_eq!(res.status(), StatusCode::Okay);
    assert_eq!(res.body, b"page".to_vec());
    assert_eq!(one(&res, "access-control-allow-origin"), "*");
    assert_eq!(res.header("access-control-allow-credentials"), None);
    assert_eq!(res.header("access-control-expose-headers"), None);
}

#[test]
fn exact_origin_is_echoed_and_others_are_turned_away() {
    let s = server(|c| {
        c.allow_origin(Origin::from_str("https://a.example"))
            .allow_credentials(true)
            .expose_headers("x-total")
    });
    let res = s.respond(from_origin(Method::Get, &["https://a.example"]));
    assert_eq!(one(&res, "access-control-allow-origin"), "https://a.example");
    assert_eq!(one(&res, "access-control-allow-credentials"), "true");
    assert_eq!(one(&res, "access-control-expose-headers"), "x-total");

    let res = s.respond(from_origin(Method::Get, &["https://b.example"]));
    assert_eq!(res.status(), StatusCode::Unauthorized);
    assert!(res.body.is_empty());
    assert!(res.headers.entries.is_empty());

    let res = s.respond(from_origin(Method::Get, &["https://a.example", "https://b.example"]));
    assert_eq!(res.status(), StatusCode::Unauthorized);
    let res = s.respond(from_origin(Method::Get, &["https://b.example", "https://a.example"]));
    assert_eq!(res.status(), StatusCode::Okay);
}

#[test]
fn preflight_request_is_answered_without_the_endpoint() {
    let s = server(|c| {
        c.allow_methods("GET, PUT").allow_headers("x-a, x-b").max_age("60").allow_credentials(false)
    });
    let res = s.respond(from_origin(Method::Options, &["https://a.example", "https://b.example"]));
    assert_eq!(res.status(), StatusCode::Okay);
    assert!(res.body.is_empty());
    assert_eq!(
        res.header("access-control-allow-origin"),
        Some(vec!["https://a.example".to_string(), "https://b.example".to_string()])
    );
    assert_eq!(one(&res, "access-control-allow-methods"), "GET, PUT");
    assert_eq!(one(&res, "access-control-allow-headers"), "x-a, x-b");
    assert_eq!(one(&res, "access-control-max-age"), "60");
    assert_eq!(one(&res, "access-control-allow-credentials"), "false");
    assert_eq!(res.header("access-control-expose-headers"), None);
    assert_eq!(res.headers.entries.len(), 6);
}

#[test]
fn preflight_of_the_default_middleware() {
    let m = CorsMiddleware::new();
    let res = m.build_preflight_response(&vec!["https://a.example".to_string()]);
    assert_eq!(one(&res, "access-control-allow-methods"), "GET, POST, OPTIONS");
    assert_eq!(one(&res, "access-control-allow-headers"), "*");
    assert_eq!(one(&res, "access-control-max-age"), "86400");
    assert_eq!(DEFAULT_METHODS, "GET, POST, OPTIONS");
    assert_eq!(DEFAULT_MAX_AGE, "86400");
    assert_eq!(WILDCARD, "*");
    assert_eq!(res.headers.entries.len(), 4);
}

#[test]
fn origins_are_valid_by_text_list_and_pattern() {
    let any = CorsMiddleware::new();
    assert!(any.is_valid_origin("anything"));
    assert_eq!(any.response_origin("https://a.example"), "*");

    let exact = CorsMiddleware::new().allow_origin(Origin::from_str("https://a.example"));
    assert!(exact.is_valid_origin("https://a.example"));
    assert!(!exact.is_valid_origin("https://a.example/"));
    assert_eq!(exact.response_origin("https://a.example"), "https://a.example");

    let list = CorsMiddleware::new().allow_origin(Origin::from_list(vec![
        "https://a.example".to_string(),
        "https://b.example".to_string(),
    ]));
    assert!(list.is_valid_origin("https://b.example"));
    assert!(!list.is_valid_origin("https://c.example"));

    let pattern = Regex::new(r"^https://[a-z]+\.example$").unwrap();
    let matched = CorsMiddleware::new().allow_origin(Origin::from_regex(pattern));
    assert!(matched.is_valid_origin("https://abc.example"));
    assert!(!matched.is_valid_origin("https://a1.example"));
    assert!(!matched.is_valid_origin("http://abc.example"));
}

#[test]
fn origins_are_made_from_texts_and_lists() {
    assert!(matches!(Origin::from_str("*"), Origin::Any));
    assert!(matches!(Origin::from_string("*".to_string()), Origin::Any));
    assert!(matches!(Origin::from_str("a"), Origin::Exact(s) if s == "a"));
    assert!(matches!(Origin::from_list(vec!["*".to_string()]), Origin::Any));
    assert!(matches!(Origin::from_list(vec!["a".to_string()]), Origin::Exact(s) if s == "a"));
    assert!(matches!(Origin::from_list(vec![]), Origin::List(l) if l.is_empty()));
    assert!(matches!(
        Origin::from_list(vec!["a".to_string(), "*".to_string()]),
        Origin::List(l) if l.len() == 2
    ));
}

#[test]
fn origins_convert_from_texts_lists_and_patterns() {
    assert!(Origin::from("*".to_string()) == Origin::Any);
    assert!(Origin::from("a".to_string()) == Origin::from_str("a"));
    assert!(Origin::from(vec!["a".to_string()]) == Origin::from_str("a"));
    assert!(Origin::from(vec!["a".to_string(), "b".to_string()]) != Origin::from_str("a"));
    assert!(Origin::from(Regex::new("^a$").unwrap()) == Origin::from_regex(Regex::new("^a$").unwrap()));
    let configured: CorsMiddleware = Default::default();
    assert_eq!(configured.allow_methods, "GET, POST, OPTIONS");
    assert_eq!(configured.allow_headers, "*");
    assert_eq!(configured.max_age, "86400");
    assert!(configured.allow_origin == Origin::Any);
    assert!(configured.allow_credentials.is_none());
    assert!(configured.expose_headers.is_none());
}

#[test]
fn origins_are_compared_by_what_they_are_given_as() {
    let a = || Origin::from_str("a");
    let ab = || Origin::from_list(vec!["a".to_string(), "b".to_string()]);
    let re = |p: &str| Origin::from_regex(Regex::new(p).unwrap());
    assert!(Origin::Any.is_same(&Origin::Any));
    assert!(a().is_same(&a()));
    assert!(!a().is_same(&Origin::from_str("b")));
    assert!(!a().is_same(&Origin::Any));
    assert!(ab().is_same(&ab()));
    assert!(!ab().is_same(&Origin::from_list(vec!["b".to_string(), "a".to_string()])));
    assert!(!ab().is_same(&Origin::from_list(vec![])));
    assert!(!ab().is_same(&a()));
    assert!(re("^a+$").is_same(&re("^a+$")));
    assert!(!re("^a+$").is_same(&re("^a*$")));
    assert!(!re("a").is_same(&a()));
}
