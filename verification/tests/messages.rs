use rustic::text::{eq_ignore_case, pieces, str_eq};
use rustic::{
    Body, Captures, Endpoint, Error, Headers, Method, Redirect, Request, Response, StatusCode,
};

#[test]
fn header_names_are_compared_without_case() {
    let mut h = Headers::new();
    assert_eq!(h.get("x"), None);
    h.append("Accept", "a");
    h.append("X-Other", "o");
    h.append("accept", "b");
    h.append("ACCEPT", "c");
    assert_eq!(h.get("accept"), Some(vec!["a".to_string(), "b".to_string(), "c".to_string()]));
    assert_eq!(h.get("Accept-Language"), None);
    h.insert("aCCept", "only");
    assert_eq!(h.get("Accept"), Some(vec!["only".to_string()]));
    assert_eq!(h.get("x-other"), Some(vec!["o".to_string()]));
    assert_eq!(h.entries.len(), 2);
    assert_eq!(h.entries[0].name, "X-Other");
    assert_eq!(h.entries[1].name, "aCCept");
    h.insert("new", "n");
    assert_eq!(h.entries.len(), 3);
}

#[test]
fn texts_are_compared_and_cut() {
    assert!(eq_ignore_case("Content-Type", "content-type"));
    assert!(eq_ignore_case("", ""));
    assert!(!eq_ignore_case("a", "ab"));
    assert!(!eq_ignore_case("a-b", "a_b"));
    assert!(!eq_ignore_case("ä", "Ä"));
    assert!(eq_ignore_case("Zz[", "zZ["));
    assert!(!eq_ignore_case("@", "`"));
    assert!(str_eq("abc", "abc"));
    assert!(!str_eq("abc", "abd"));
    assert!(!str_eq("abc", "ab"));
    assert_eq!(pieces("a;b;c", ';'), vec!["a", "b", "c"]);
    assert_eq!(pieces("", ';'), vec![""]);
    assert_eq!(pieces(";", ';'), vec!["", ""]);
    assert_eq!(pieces("a;", ';'), vec!["a", ""]);
    assert_eq!(pieces(";;a", ';'), vec!["", "", "a"]);
    assert_eq!(pieces("héllo:wörld", ':'), vec!["héllo", "wörld"]);
    assert_eq!(pieces("no separator", ':'), vec!["no separator"]);
}

#[test]
fn status_has_its_number_and_class() {
    assert_eq!(StatusCode::Okay.code(), 200);
    assert_eq!(StatusCode::Found.code(), 302);
    assert_eq!(StatusCode::SeeOther.code(), 303);
    assert_eq!(StatusCode::TemporaryRedirect.code(), 307);
    assert_eq!(StatusCode::PermanentRedirect.code(), 308);
    assert_eq!(StatusCode::Unauthorized.code(), 401);
    assert_eq!(StatusCode::Forbidden.code(), 403);
    assert_eq!(StatusCode::NotFound.code(), 404);
    assert_eq!(StatusCode::MethodNotAllowed.code(), 405);
    assert_eq!(StatusCode::ImATeapot.code(), 418);
    assert_eq!(StatusCode::InternalServerError.code(), 500);
    assert_eq!(StatusCode::NetworkAuthenticationRequired.code(), 511);
    assert_eq!(StatusCode::from_code(404), Some(StatusCode::NotFound));
    assert_eq!(StatusCode::from_code(100), Some(StatusCode::Continue));
    assert_eq!(StatusCode::from_code(99), None);
    assert_eq!(StatusCode::from_code(299), None);
    assert_eq!(StatusCode::from_code(600), None);
    for code in 0..=700u16 {
        if let Some(s) = StatusCode::from_code(code) {
            assert_eq!(s.code(), code);
            assert_eq!(s.is_informational(), (100..200).contains(&code));
            assert_eq!(s.is_success(), (200..300).contains(&code));
            assert_eq!(s.is_redirection(), (300..400).contains(&code));
            assert_eq!(s.is_client_error(), (400..500).contains(&code));
            assert_eq!(s.is_server_error(), (500..600).contains(&code));
        }
    }
}

#[test]
fn response_is_made_of_status_body_and_failure() {
    let res = Response::new(StatusCode::Created);
    assert_eq!(res.status(), StatusCode::Created);
    assert!(res.headers.entries.is_empty());
    assert!(res.body.is_empty());
    assert!(res.error().is_none());
    assert!(res.cookie_events.is_empty());

    let res = Response::from_text("héllo");
    assert_eq!(res.status(), StatusCode::Okay);
    assert_eq!(res.body, "héllo".as_bytes().to_vec());
    assert_eq!(res.header("Content-Type"), Some(vec!["text/plain;charset=utf-8".to_string()]));

    let res = Response::from_body(Body::from_bytes(vec![0, 159, 255]));
    assert_eq!(res.body, vec![0, 159, 255]);
    assert_eq!(res.header("content-type"), Some(vec!["application/octet-stream".to_string()]));

    let res = Response::from_error(Error::from_str(StatusCode::Conflict, "taken"));
    assert_eq!(res.status(), StatusCode::Conflict);
    assert_eq!(res.error().unwrap().message(), "taken");
    assert_eq!(res.error().unwrap().status(), StatusCode::Conflict);
    assert!(res.body.is_empty());
}

#[test]
fn body_keeps_a_content_type_that_is_set() {
    let mut res = Response::new(StatusCode::Okay);
    res.insert_header("Content-Type", "application/json");
    res.set_body(Body::from_string("{}".to_string()));
    assert_eq!(res.header("content-type"), Some(vec!["application/json".to_string()]));
    assert_eq!(res.body, b"{}".to_vec());
    res.set_body(Body::from_bytes(vec![1]));
    assert_eq!(res.header("content-type"), Some(vec!["application/json".to_string()]));
    assert_eq!(res.body, vec![1]);
}

#[test]
fn response_headers_are_inserted_and_appended() {
    let mut res = Response::new(StatusCode::Okay);
    res.append_header("Vary", "a");
    res.append_header("vary", "b");
    assert_eq!(res.header("VARY"), Some(vec!["a".to_string(), "b".to_string()]));
    res.insert_header("Vary", "c");
    assert_eq!(res.header("vary"), Some(vec!["c".to_string()]));
}

#[test]
fn request_parameters_come_from_the_most_specific_route() {
    let mut req = Request::new(Method::Get, "/a/b");
    assert_eq!(req.method(), Method::Get);
    assert_eq!(req.path(), "/a/b");
    assert!(req.param("id").is_err());
    let outer = Captures {
        params: vec![("id".to_string(), "1".to_string()), ("only".to_string(), "o".to_string())],
        wildcard: None,
    };
    let inner = Captures {
        params: vec![
            ("id".to_string(), "2".to_string()),
            ("id".to_string(), "3".to_string()),
        ],
        wildcard: Some("rest".to_string()),
    };
    assert_eq!(inner.get("id"), Some("2"));
    assert_eq!(inner.get("nope"), None);
    assert_eq!(inner.wildcard(), Some("rest"));
    assert_eq!(outer.wildcard(), None);
    assert_eq!(Captures::new().get("id"), None);
    req.route_params = vec![outer, inner];
    assert_eq!(req.param("id").ok(), Some("2"));
    assert_eq!(req.param("only").ok(), Some("o"));
    let e = req.param("missing").err().unwrap();
    assert_eq!(e.status(), StatusCode::InternalServerError);
    assert_eq!(e.message(), "Param \"missing\" not found");
}

#[test]
fn request_carries_headers_and_named_values() {
    let mut req = Request::new(Method::Post, "/");
    req.headers.append("X-Request-Id", "7");
    assert_eq!(req.header("x-request-id"), Some(vec!["7".to_string()]));
    assert_eq!(req.header("x-none"), None);
    assert_eq!(req.ext("counter"), None);
    assert_eq!(req.set_ext("counter", "1"), None);
    assert_eq!(req.ext("counter"), Some("1"));
    assert_eq!(req.set_ext("counter", "2"), Some("1".to_string()));
    assert_eq!(req.set_ext("other", "x"), None);
    assert_eq!(req.ext("counter"), Some("2"));
    assert_eq!(req.ext("Counter"), None);
}

#[test]
fn request_gives_its_url() {
    let mut req = Request::new(Method::Get, "/search");
    assert_eq!(req.url(), "/search");
    assert_eq!(req.query(), None);
    req.query = Some("q=verus&page=2".to_string());
    assert_eq!(req.url(), "/search?q=verus&page=2");
    assert_eq!(req.query(), Some("q=verus&page=2"));
    req.query = Some(String::new());
    assert_eq!(req.url(), "/search?");
    assert_eq!(req.path(), "/search");
}

#[test]
fn failure_may_name_its_kind() {
    let plain = Error::from_str(StatusCode::BadRequest, "bad");
    assert_eq!(plain.kind_name(), None);
    let typed = Error::of_kind(StatusCode::BadGateway, "refused", "std::io::Error");
    assert_eq!(typed.kind_name(), Some("std::io::Error"));
    assert_eq!(typed.message(), "refused");
    assert_eq!(typed.status(), StatusCode::BadGateway);
}

#[test]
fn redirects_have_their_status_and_location() {
    let cases = [
        (Redirect::new("/a"), StatusCode::Found, 302),
        (Redirect::permanent("/a"), StatusCode::PermanentRedirect, 308),
        (Redirect::temporary("/a"), StatusCode::TemporaryRedirect, 307),
        (Redirect::see_other("/a"), StatusCode::SeeOther, 303),
    ];
    for (redirect, status, code) in cases {
        let res = redirect.response();
        assert_eq!(res.status(), status);
        assert_eq!(res.status().code(), code);
        assert_eq!(res.header("Location"), Some(vec!["/a".to_string()]));
        assert!(res.body.is_empty());
        let called = redirect.call(Request::new(Method::Get, "/old")).ok().unwrap();
        assert_eq!(called.status(), status);
        assert_eq!(called.header("location"), Some(vec!["/a".to_string()]));
    }
}

#[test]
fn responses_convert_from_plain_values() {
    let res: Response = Error::from_str(StatusCode::Gone, "gone").into();
    assert_eq!(res.status(), StatusCode::Gone);
    assert_eq!(res.error().unwrap().message(), "gone");
    let res: Response = StatusCode::Accepted.into();
    assert_eq!(res.status().code(), 202);
    assert!(res.headers.entries.is_empty());
    let res: Response = "text".into();
    assert_eq!(res.body, b"text".to_vec());
    let res: Response = String::from("owned").into();
    assert_eq!(res.body, b"owned".to_vec());
    assert_eq!(res.header("content-type"), Some(vec!["text/plain;charset=utf-8".to_string()]));
    let res: Response = Body::from_bytes(vec![7]).into();
    assert_eq!(res.body, vec![7]);
    let res: Response = Redirect::see_other("/there").into();
    assert_eq!(res.status(), StatusCode::SeeOther);
    assert_eq!(res.header("location"), Some(vec!["/there".to_string()]));
}
