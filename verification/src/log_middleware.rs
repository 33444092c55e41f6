use vstd::prelude::*;
use crate::method::Method;
use crate::middleware::{Middleware, Next};
use crate::request::Request;
use crate::response::{Response, ResponseView, Result};
use crate::server::{installed, same_server, Server, ServerError};
use crate::status::StatusCode;

verus! {

/// How grave a log record is.
#[derive(Clone, Copy, Debug, PartialEq, Eq, Structural)]
pub enum LogLevel {
    Info,
    Warn,
    Error,
}

/// What is logged for a request: when it is received, and when its response is sent.
#[derive(Debug)]
pub struct LogRecord {
    pub level: LogLevel,
    pub message: String,
    pub method: Method,
    pub path: String,
    /// The status of the response; `None` in the record of the request.
    pub status: Option<StatusCode>,
    /// The text of the failure that the response stands for.
    pub error: Option<String>,
    /// The name of the kind of that failure, where it has one.
    pub error_type: Option<String>,
}

/// What a [`LogRecord`] holds, as plain values.
pub struct LogRecordView {
    pub level: LogLevel,
    pub message: Seq<char>,
    pub method: Method,
    pub path: Seq<char>,
    pub status: Option<StatusCode>,
    pub error: Option<Seq<char>>,
    pub error_type: Option<Seq<char>>,
}

impl View for LogRecord {
    type V = LogRecordView;

    open spec fn view(&self) -> LogRecordView {
        LogRecordView {
            level: self.level,
            message: self.message@,
            method: self.method,
            path: self.path@,
            status: self.status,
            error: match self.error {
                Some(e) => Some(e@),
                None => None,
            },
            error_type: match self.error_type {
                Some(e) => Some(e@),
                None => None,
            },
        }
    }
}

/// Where log records go.
pub trait LogSink: Send + Sync + 'static {
    /// Takes one record.
    fn log(&self, record: LogRecord);
}

/// The level at which a response of the given status is logged: a server error as an
/// error, a client error as a warning, every other status as information.
pub open spec fn level_of(status: StatusCode) -> LogLevel {
    if 500 <= status.spec_code() < 600 {
        LogLevel::Error
    } else if 400 <= status.spec_code() < 500 {
        LogLevel::Warn
    } else {
        LogLevel::Info
    }
}

/// The text of the record of a response that is logged at the given level.
pub open spec fn message_of(level: LogLevel) -> Seq<char> {
    match level {
        LogLevel::Error => "Internal error --> Response sent"@,
        LogLevel::Warn => "Client error --> Response sent"@,
        LogLevel::Info => "--> Response sent"@,
    }
}

/// The record of a request that was received.
pub open spec fn received(method: Method, path: Seq<char>) -> LogRecordView {
    LogRecordView {
        level: LogLevel::Info,
        message: "<-- Request received"@,
        method,
        path,
        status: None,
        error: None,
        error_type: None,
    }
}

/// The record of a response that is sent. The failure of the response, with the name of
/// its kind, is part of the record of a client or server error, and of no other.
pub open spec fn sent(method: Method, path: Seq<char>, res: ResponseView) -> LogRecordView {
    let level = level_of(res.status);
    LogRecordView {
        level,
        message: message_of(level),
        method,
        path,
        status: Some(res.status),
        error: if level == LogLevel::Info {
            None
        } else {
            match res.error {
                Some(e) => Some(e.message),
                None => None,
            }
        },
        error_type: if level == LogLevel::Info {
            None
        } else {
            match res.error {
                Some(e) => e.kind_name,
                None => None,
            }
        },
    }
}

/// The middleware that logs each request and its response.
pub struct LogMiddleware<S: LogSink> {
    sink: S,
}

impl<S: LogSink> LogMiddleware<S> {
    /// Where the records go.
    pub closed spec fn sink(self) -> S {
        self.sink
    }

    /// The middleware that hands its records to `sink`.
    pub fn new(sink: S) -> (m: LogMiddleware<S>)
        ensures
            m.sink() == sink,
    {
        LogMiddleware { sink }
    }

    /// The record of a request that was received.
    pub fn request_record(method: Method, path: &str) -> (record: LogRecord)
        ensures
            record@ == received(method, path@),
    {
        LogRecord {
            level: LogLevel::Info,
            message: "<-- Request received".to_owned(),
            method,
            path: path.to_owned(),
            status: None,
            error: None,
            error_type: None,
        }
    }

    /// The record of a response that is sent.
    pub fn response_record(method: Method, path: &str, res: &Response) -> (record: LogRecord)
        ensures
            record@ == sent(method, path@, res@),
    {
        let status = res.status();
        let level = if status.is_server_error() {
            LogLevel::Error
        } else if status.is_client_error() {
            LogLevel::Warn
        } else {
            LogLevel::Info
        };
        let message = match level {
            LogLevel::Error => "Internal error --> Response sent",
            LogLevel::Warn => "Client error --> Response sent",
            LogLevel::Info => "--> Response sent",
        };
        let error = match level {
            LogLevel::Info => None,
            _ => match res.error() {
                Some(e) => Some(e.message().to_owned()),
                None => None,
            },
        };
        let error_type = match level {
            LogLevel::Info => None,
            _ => match res.error() {
                Some(e) => match e.kind_name() {
                    Some(name) => Some(name.to_owned()),
                    None => None,
                },
                None => None,
            },
        };
        LogRecord {
            level,
            message: message.to_owned(),
            method,
            path: path.to_owned(),
            status: Some(status),
            error,
            error_type,
        }
    }
}

impl<S: LogSink> Middleware for LogMiddleware<S> {
    /// The outcome is the response of the rest of the chain, as it is.
    open spec fn handles(&self, req: Request, next: Next<'_>, outcome: Result) -> bool {
        outcome matches Ok(res) && next.yields(req, res)
    }

    fn handle(&self, req: Request, next: Next<'_>) -> (outcome: Result) {
        let method = req.method();
        let path = req.path().to_owned();
        self.sink.log(Self::request_record(method, path.as_str()));
        let res = next.run(req);
        self.sink.log(Self::response_record(method, path.as_str(), &res));
        Ok(res)
    }

    open spec fn names(&self, name: Seq<char>) -> bool {
        name == "LogMiddleware"@
    }

    fn name(&self) -> (n: String)
        ensures
            n@ == "LogMiddleware"@,
    {
        "LogMiddleware".to_owned()
    }
}

/// Logging of requests and responses, as a middleware around every route.
pub trait WithLogging {
    /// Logs each request and its response to `sink`.
    fn with_logging<S: LogSink>(&mut self, sink: S) -> (r: std::result::Result<
        &mut Self,
        ServerError,
    >);
}

impl WithLogging for Server {
    fn with_logging<S: LogSink>(&mut self, sink: S) -> (r: std::result::Result<
        &mut Self,
        ServerError,
    >)
        ensures
            r matches Ok(server) ==> *final(self) == *final(server) && exists|m: LogMiddleware<S>|
                m.sink() == sink && #[trigger] installed(*old(self), *server, m),
            r matches Err(e) ==> e == ServerError::Frozen && same_server(*old(self), *final(self)),
    {
        let m = LogMiddleware::new(sink);
        let ghost added = m;
        match self.with(m) {
            Ok(server) => {
                assert(installed(*old(self), *server, added));
                Ok(server)
            },
            Err(e) => Err(e),
        }
    }
}

} // verus!
