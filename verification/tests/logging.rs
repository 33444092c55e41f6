use std::sync::{Arc, Mutex};

use rustic::log_middleware::{LogLevel, LogRecord, LogSink};
use rustic::{
    Endpoint, Error, LogMiddleware, Method, Request, Response, Server, StatusCode, WithLogging,
};

#[derive(Clone)]
struct Memory(Arc<Mutex<Vec<LogRecord>>>);

impl LogSink for Memory {
    fn log(&self, record: LogRecord) {
        self.0.lock().unwrap().push(record);
    }
}

struct Status(StatusCode);

impl Endpoint for Status {
    fn call(&self, _req: Request) -> rustic::Result {
        if self.0.is_success() {
            Ok(Response::new(self.0))
        } else {
            Err(Error::from_str(self.0, "went wrong"))
        }
    }
}

type Sinkless = LogMiddleware<Memory>;

#[test]
fn request_and_response_are_logged_in_this_order() {
    let memory = Memory(Arc::new(Mutex::new(Vec::new())));
    let mut server = Server::new();
    server.with_logging(memory.clone()).unwrap();
    server.at("/ok").unwrap().get(Status(StatusCode::Okay)).unwrap();
    let res = server.respond(Request::new(Method::Get, "/ok"));
    assert_eq!(res.status(), StatusCode::Okay);

    let records = memory.0.lock().unwrap();
    assert_eq!(records.len(), 2);
    assert_eq!(records[0].level, LogLevel::Info);
    assert_eq!(records[0].message, "<-- Request received");
    assert_eq!(records[0].method, Method::Get);
    assert_eq!(records[0].path, "/ok");
    assert_eq!(records[0].status, None);
    assert_eq!(records[1].level, LogLevel::Info);
    assert_eq!(records[1].message, "--> Response sent");
    assert_eq!(records[1].status, Some(StatusCode::Okay));
    assert_eq!(records[1].error, None);
}

#[test]
fn client_errors_are_warnings_and_server_errors_are_errors() {
    let res = Response::from_error(Error::from_str(StatusCode::BadGateway, "upstream"));
    let r = Sinkless::response_record(Method::Post, "/x", &res);
    assert_eq!(r.level, LogLevel::Error);
    assert_eq!(r.message, "Internal error --> Response sent");
    assert_eq!(r.error.as_deref(), Some("upstream"));
    assert_eq!(r.error_type, None);
    assert_eq!(r.status, Some(StatusCode::BadGateway));
    let typed = Response::from_error(Error::of_kind(StatusCode::BadGateway, "refused", "io"));
    let r = Sinkless::response_record(Method::Post, "/x", &typed);
    assert_eq!(r.error_type.as_deref(), Some("io"));
    assert_eq!(r.error.as_deref(), Some("refused"));
    assert_eq!(r.method, Method::Post);
    assert_eq!(r.path, "/x");

    let res = Response::from_error(Error::from_str(StatusCode::NotFound, "nothing here"));
    let r = Sinkless::response_record(Method::Get, "/y", &res);
    assert_eq!(r.level, LogLevel::Warn);
    assert_eq!(r.message, "Client error --> Response sent");
    assert_eq!(r.error.as_deref(), Some("nothing here"));

    let r = Sinkless::response_record(Method::Get, "/y", &Response::new(StatusCode::Forbidden));
    assert_eq!(r.level, LogLevel::Warn);
    assert_eq!(r.error, None);

    for status in [StatusCode::Continue, StatusCode::Okay, StatusCode::Found, StatusCode::NotModified] {
        let r = Sinkless::response_record(Method::Get, "/", &Response::new(status));
        assert_eq!(r.level, LogLevel::Info, "{:?}", status);
        assert_eq!(r.message, "--> Response sent");
    }
    let boundary = Sinkless::response_record(
        Method::Get,
        "/",
        &Response::new(StatusCode::InternalServerError),
    );
    assert_eq!(boundary.level, LogLevel::Error);
    let boundary = Sinkless::response_record(Method::Get, "/", &Response::new(StatusCode::BadRequest));
    assert_eq!(boundary.level, LogLevel::Warn);
}

#[test]
fn failure_of_the_endpoint_is_logged_with_its_text() {
    let memory = Memory(Arc::new(Mutex::new(Vec::new())));
    let mut server = Server::new();
    server.with_logging(memory.clone()).unwrap();
    server.at("/down").unwrap().get(Status(StatusCode::ServiceUnavailable)).unwrap();
    let res = server.respond(Request::new(Method::Get, "/down"));
    assert_eq!(res.status(), StatusCode::ServiceUnavailable);
    let records = memory.0.lock().unwrap();
    assert_eq!(records[1].level, LogLevel::Error);
    assert_eq!(records[1].error.as_deref(), Some("went wrong"));
}
