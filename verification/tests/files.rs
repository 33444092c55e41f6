use std::cell::Cell;

use rustic::fs::{file_response, FileOutcome, Resolution, ServeDir};
use rustic::StatusCode;

fn dir() -> Vec<String> {
    vec!["srv".to_string(), "www".to_string()]
}

fn file(r: Resolution) -> Vec<String> {
    match r {
        Resolution::File(f) => f,
        Resolution::Forbidden => panic!("forbidden"),
    }
}

#[test]
fn file_under_the_directory_is_served() {
    let serve = ServeDir::new("/static/*".to_string(), dir());
    assert_eq!(file(serve.resolve("/static/css/site.css")), vec!["srv", "www", "css", "site.css"]);
    assert_eq!(file(serve.resolve("/static/")), vec!["srv", "www"]);
    assert_eq!(file(serve.resolve("/static//a///b/")), vec!["srv", "www", "a", "b"]);
    assert_eq!(file(serve.resolve("/static/./a/./b")), vec!["srv", "www", "a", "b"]);
    assert_eq!(file(serve.resolve("/static/a/../b")), vec!["srv", "www", "b"]);
    assert_eq!(file(serve.resolve("/static/a/b/../../c")), vec!["srv", "www", "c"]);
}

#[test]
fn path_that_leaves_the_directory_is_forbidden() {
    let serve = ServeDir::new("/static/*".to_string(), dir());
    assert!(matches!(serve.resolve("/static/../secret"), Resolution::Forbidden));
    assert!(matches!(serve.resolve("/static/.."), Resolution::Forbidden));
    assert!(matches!(serve.resolve("/static/a/../../../etc/passwd"), Resolution::Forbidden));
    assert!(matches!(serve.resolve("/static/../../../../x"), Resolution::Forbidden));
    assert_eq!(file(serve.resolve("/static/../www/x")), vec!["srv", "www", "x"]);
    assert!(matches!(serve.resolve("/static/../wwwx/x"), Resolution::Forbidden));
}

#[test]
fn prefix_without_wildcard_and_root_directory() {
    let serve = ServeDir::new("/assets".to_string(), Vec::new());
    assert_eq!(file(serve.resolve("/assets/a.txt")), vec!["a.txt"]);
    assert_eq!(file(serve.resolve("/assets/../..")), Vec::<String>::new());
    let stars = ServeDir::new("/x/***".to_string(), dir());
    assert_eq!(file(stars.resolve("/x/y")), vec!["srv", "www", "y"]);
}

#[test]
fn outcome_of_reading_a_file_becomes_a_response() {
    let res = file_response(FileOutcome::Content(b"hello".to_vec())).ok().unwrap();
    assert_eq!(res.status(), StatusCode::Okay);
    assert_eq!(res.body, b"hello".to_vec());
    assert_eq!(res.header("content-type"), Some(vec!["application/octet-stream".to_string()]));

    let res = file_response(FileOutcome::NotFound).ok().unwrap();
    assert_eq!(res.status(), StatusCode::NotFound);
    assert!(res.body.is_empty());

    let err = file_response(FileOutcome::Failed("permission denied".to_string())).err().unwrap();
    assert_eq!(err.status(), StatusCode::InternalServerError);
    assert_eq!(err.message(), "permission denied");
}

#[test]
fn path_that_leaves_the_directory_is_answered_with_403_and_nothing_is_read() {
    let serve = ServeDir::new("/static/*".to_string(), dir());
    let reads = Cell::new(0);
    let res = serve
        .serve("/static/../../etc/passwd", |_file| {
            reads.set(reads.get() + 1);
            FileOutcome::Content(b"secret".to_vec())
        })
        .ok()
        .unwrap();
    assert_eq!(res.status(), StatusCode::Forbidden);
    assert_eq!(res.status().code(), 403);
    assert!(res.body.is_empty());
    assert!(res.headers.entries.is_empty());
    assert_eq!(reads.get(), 0);
}

#[test]
fn file_of_the_directory_is_read_once_and_answered() {
    let serve = ServeDir::new("/static/*".to_string(), dir());
    let reads = Cell::new(0);
    let res = serve
        .serve("/static/a/./b/../c.txt", |file| {
            reads.set(reads.get() + 1);
            assert_eq!(file, &vec!["srv".to_string(), "www".to_string(), "a".to_string(), "c.txt".to_string()]);
            FileOutcome::Content(b"content".to_vec())
        })
        .ok()
        .unwrap();
    assert_eq!(res.status(), StatusCode::Okay);
    assert_eq!(res.body, b"content".to_vec());
    assert_eq!(reads.get(), 1);

    let res = serve.serve("/static/none", |_file| FileOutcome::NotFound).ok().unwrap();
    assert_eq!(res.status(), StatusCode::NotFound);
    let err = serve
        .serve("/static/locked", |_file| FileOutcome::Failed("denied".to_string()))
        .err()
        .unwrap();
    assert_eq!(err.status(), StatusCode::InternalServerError);
    assert_eq!(err.message(), "denied");
}
