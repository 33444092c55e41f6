use vstd::prelude::*;
use vstd::string::StrSliceExecFns;
use vstd::utf8::encode_utf8;
use http_types::Cookie;
use crate::cookies::CookieEvent;
use crate::error::{Error, ErrorView};
use crate::headers::{values_of, without, Headers, HeadersView};
use crate::status::StatusCode;

verus! {

/// The content of a message with the media type that describes it.
#[derive(Debug)]
pub struct Body {
    pub bytes: Vec<u8>,
    pub mime: String,
}

/// What a [`Body`] holds, as plain values.
pub struct BodyView {
    pub bytes: Seq<u8>,
    pub mime: Seq<char>,
}

impl View for Body {
    type V = BodyView;

    open spec fn view(&self) -> BodyView {
        BodyView { bytes: self.bytes@, mime: self.mime@ }
    }
}

impl Body {
    /// A body of plain text.
    pub fn from_string(text: String) -> (b: Body)
        ensures
            b@.bytes == encode_utf8(text@),
            b@.mime == "text/plain;charset=utf-8"@,
    {
        Body { bytes: text.as_str().as_bytes_vec(), mime: "text/plain;charset=utf-8".to_owned() }
    }

    /// A body of bytes of no stated kind.
    pub fn from_bytes(bytes: Vec<u8>) -> (b: Body)
        ensures
            b@.bytes == bytes@,
            b@.mime == "application/octet-stream"@,
    {
        Body { bytes, mime: "application/octet-stream".to_owned() }
    }
}

/// The answer to a request.
#[derive(Debug)]
pub struct Response {
    pub status: StatusCode,
    pub headers: Headers,
    pub body: Vec<u8>,
    pub error: Option<Error>,
    pub cookie_events: Vec<CookieEvent>,
}

/// What a [`Response`] holds, as plain values.
pub struct ResponseView {
    pub status: StatusCode,
    pub headers: HeadersView,
    pub body: Seq<u8>,
    pub error: Option<ErrorView>,
    pub cookie_events: Seq<CookieEvent>,
}

impl View for Response {
    type V = ResponseView;

    open spec fn view(&self) -> ResponseView {
        ResponseView {
            status: self.status,
            headers: self.headers@,
            body: self.body@,
            error: match self.error {
                Some(e) => Some(e@),
                None => None,
            },
            cookie_events: self.cookie_events@,
        }
    }
}

impl ResponseView {
    /// The response of the given status without headers, body, error or cookie events.
    pub open spec fn bare(status: StatusCode) -> ResponseView {
        ResponseView {
            status,
            headers: Seq::empty(),
            body: Seq::empty(),
            error: None,
            cookie_events: Seq::empty(),
        }
    }

    /// The response that stands for a failure: its status, and the failure attached.
    pub open spec fn of_error(e: ErrorView) -> ResponseView {
        ResponseView { error: Some(e), ..ResponseView::bare(e.status) }
    }

    /// This response with the given body; a response without a `Content-Type` header gets
    /// the media type of the body as one.
    pub open spec fn with_body(self, body: BodyView) -> ResponseView {
        ResponseView {
            body: body.bytes,
            headers: if values_of(self.headers, "content-type"@).len() == 0 {
                self.headers.push(("content-type"@, body.mime))
            } else {
                self.headers
            },
            ..self
        }
    }

    /// The response with status 200 and the given body.
    pub open spec fn of_body(body: BodyView) -> ResponseView {
        ResponseView::bare(StatusCode::Okay).with_body(body)
    }
}

impl Response {
    /// A response of the given status without headers or body.
    pub fn new(status: StatusCode) -> (r: Response)
        ensures
            r@ == ResponseView::bare(status),
    {
        Response {
            status,
            headers: Headers::new(),
            body: Vec::new(),
            error: None,
            cookie_events: Vec::new(),
        }
    }

    /// The status.
    pub fn status(&self) -> (s: StatusCode)
        ensures
            s == self@.status,
    {
        self.status
    }

    /// The failure that this response stands for, if it stands for one.
    pub fn error(&self) -> (e: Option<&Error>)
        ensures
            e is Some <==> self@.error is Some,
            e matches Some(err) ==> self@.error == Some(err@),
    {
        self.error.as_ref()
    }

    /// The values of the header lines named `key`.
    pub fn header(&self, key: &str) -> (r: Option<Vec<String>>)
        ensures
            r is None <==> values_of(self@.headers, key@).len() == 0,
            r matches Some(v) ==> crate::text::texts(v@) == values_of(self@.headers, key@),
    {
        self.headers.get(key)
    }

    /// Sets the header `key` to `value`, in place of the lines of that name.
    pub fn insert_header(&mut self, key: &str, value: &str)
        ensures
            final(self)@ == (ResponseView {
                headers: without(old(self)@.headers, key@).push((key@, value@)),
                ..old(self)@
            }),
    {
        self.headers.insert(key, value);
    }

    /// Adds a header line after the others.
    pub fn append_header(&mut self, key: &str, value: &str)
        ensures
            final(self)@ == (ResponseView {
                headers: old(self)@.headers.push((key@, value@)),
                ..old(self)@
            }),
    {
        self.headers.append(key, value);
    }

    /// Sets the body. A response without a `Content-Type` header gets the media type of the
    /// body as one.
    pub fn set_body(&mut self, body: Body)
        ensures
            final(self)@ == old(self)@.with_body(body@),
    {
        if self.headers.get("content-type").is_none() {
            self.headers.append("content-type", body.mime.as_str());
        }
        self.body = body.bytes;
    }

    /// Asks for the cookie to be set at the client.
    pub fn insert_cookie(&mut self, cookie: Cookie<'static>)
        ensures
            final(self)@ == (ResponseView {
                cookie_events: old(self)@.cookie_events.push(CookieEvent::Added(cookie)),
                ..old(self)@
            }),
    {
        self.cookie_events.push(CookieEvent::Added(cookie));
    }

    /// Asks for the cookie of this name to be removed at the client.
    pub fn remove_cookie(&mut self, cookie: Cookie<'static>)
        ensures
            final(self)@ == (ResponseView {
                cookie_events: old(self)@.cookie_events.push(CookieEvent::Removed(cookie)),
                ..old(self)@
            }),
    {
        self.cookie_events.push(CookieEvent::Removed(cookie));
    }

    /// The response that stands for a failure: it has the status of the failure and holds
    /// the failure itself.
    pub fn from_error(err: Error) -> (r: Response)
        ensures
            r@ == ResponseView::of_error(err@),
    {
        Response {
            status: err.status(),
            headers: Headers::new(),
            body: Vec::new(),
            error: Some(err),
            cookie_events: Vec::new(),
        }
    }

    /// The response with status 200 and the given body.
    pub fn from_body(body: Body) -> (r: Response)
        ensures
            r@ == ResponseView::of_body(body@),
    {
        let mut res = Response::new(StatusCode::Okay);
        res.set_body(body);
        res
    }

    /// The response with status 200 and the text as its body.
    pub fn from_text(text: &str) -> (r: Response)
        ensures
            r@ == ResponseView::of_body(
                BodyView { bytes: encode_utf8(text@), mime: "text/plain;charset=utf-8"@ },
            ),
    {
        Response::from_body(Body::from_string(text.to_owned()))
    }
}

/// What an endpoint or a middleware hands back: a response, or a failure that is turned into
/// one.
pub type Result<T = Response> = std::result::Result<T, Error>;

// The conversions below say in the `ensures` of `from` what they make. A response holds
// vectors, of which no value can be written down in a specification, so `from_spec` names
// none and `obeys_from_spec` is false.

impl From<Error> for Response {
    /// The response that stands for the failure.
    fn from(err: Error) -> (r: Response)
        ensures
            r@ == ResponseView::of_error(err@),
    {
        Response::from_error(err)
    }
}

impl vstd::std_specs::convert::FromSpecImpl<Error> for Response {
    open spec fn obeys_from_spec() -> bool {
        false
    }

    open spec fn from_spec(err: Error) -> Response {
        arbitrary()
    }
}

impl From<Body> for Response {
    /// The response with status 200 and the body.
    fn from(body: Body) -> (r: Response)
        ensures
            r@ == ResponseView::of_body(body@),
    {
        Response::from_body(body)
    }
}

impl vstd::std_specs::convert::FromSpecImpl<Body> for Response {
    open spec fn obeys_from_spec() -> bool {
        false
    }

    open spec fn from_spec(body: Body) -> Response {
        arbitrary()
    }
}

impl From<StatusCode> for Response {
    /// The response of the status, without headers or body.
    fn from(status: StatusCode) -> (r: Response)
        ensures
            r@ == ResponseView::bare(status),
    {
        Response::new(status)
    }
}

impl vstd::std_specs::convert::FromSpecImpl<StatusCode> for Response {
    open spec fn obeys_from_spec() -> bool {
        false
    }

    open spec fn from_spec(status: StatusCode) -> Response {
        arbitrary()
    }
}

impl From<String> for Response {
    /// The response with status 200 and the text as its body.
    fn from(text: String) -> (r: Response)
        ensures
            r@ == ResponseView::of_body(BodyView { bytes: encode_utf8(text@), mime: "text/plain;charset=utf-8"@ }),
    {
        Response::from_text(text.as_str())
    }
}

impl vstd::std_specs::convert::FromSpecImpl<String> for Response {
    open spec fn obeys_from_spec() -> bool {
        false
    }

    open spec fn from_spec(text: String) -> Response {
        arbitrary()
    }
}

impl From<&str> for Response {
    /// The response with status 200 and the text as its body.
    fn from(text: &str) -> (r: Response)
        ensures
            r@ == ResponseView::of_body(BodyView { bytes: encode_utf8(text@), mime: "text/plain;charset=utf-8"@ }),
    {
        Response::from_text(text)
    }
}

impl vstd::std_specs::convert::FromSpecImpl<&str> for Response {
    open spec fn obeys_from_spec() -> bool {
        false
    }

    open spec fn from_spec(text: &str) -> Response {
        arbitrary()
    }
}

} // verus!
