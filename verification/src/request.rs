use vstd::prelude::*;
use vstd::string::StringExecFns;
use http_types::Cookie;
use crate::captures::{Captures, CapturesView};
use crate::cookies::{cookie_name, cookie_wire_form, JarView, LazyJar};
use crate::error::{Error, ErrorView};
use crate::headers::{values_of, Headers, HeadersView};
use crate::method::Method;
use crate::status::StatusCode;
use crate::text::{str_eq, texts};

verus! {

/// A request as the server hands it to middleware and endpoints.
#[derive(Debug)]
pub struct Request {
    pub method: Method,
    pub path: String,
    pub query: Option<String>,
    pub headers: Headers,
    pub body: Vec<u8>,
    /// The captures of the routes that matched, the most specific last.
    pub route_params: Vec<Captures>,
    /// The cookie jar, once the cookie middleware has made it.
    pub cookies: Option<LazyJar>,
    /// Named values that one middleware leaves for those after it.
    pub extensions: Vec<(String, String)>,
    pub local_addr: Option<String>,
    pub peer_addr: Option<String>,
}

/// What a [`Request`] holds, as plain values.
pub struct RequestView {
    pub method: Method,
    pub path: Seq<char>,
    pub query: Option<Seq<char>>,
    pub headers: HeadersView,
    pub body: Seq<u8>,
    pub route_params: Seq<CapturesView>,
    pub cookies: Option<JarView>,
    pub extensions: Seq<(Seq<char>, Seq<char>)>,
    pub local_addr: Option<Seq<char>>,
    pub peer_addr: Option<Seq<char>>,
}

/// The view of a text that may be absent.
pub open spec fn text_of(s: Option<String>) -> Option<Seq<char>> {
    match s {
        Some(t) => Some(t@),
        None => None,
    }
}

impl View for Request {
    type V = RequestView;

    open spec fn view(&self) -> RequestView {
        RequestView {
            method: self.method,
            path: self.path@,
            query: text_of(self.query),
            headers: self.headers@,
            body: self.body@,
            route_params: Seq::new(self.route_params@.len(), |i: int| self.route_params@[i]@),
            cookies: match self.cookies {
                Some(jar) => Some(jar@),
                None => None,
            },
            extensions: Seq::new(
                self.extensions@.len(),
                |i: int| (self.extensions@[i].0@, self.extensions@[i].1@),
            ),
            local_addr: text_of(self.local_addr),
            peer_addr: text_of(self.peer_addr),
        }
    }
}

/// The value that the last of the capture sets that know `key` gives for it.
pub open spec fn param_of(sets: Seq<CapturesView>, key: Seq<char>) -> Option<Seq<char>>
    decreases sets.len(),
{
    if sets.len() == 0 {
        None
    } else if sets.last().get(key) is Some {
        sets.last().get(key)
    } else {
        param_of(sets.drop_last(), key)
    }
}

/// The value of the last pair named `key`.
pub open spec fn last_value(pairs: Seq<(Seq<char>, Seq<char>)>, key: Seq<char>) -> Option<
    Seq<char>,
>
    decreases pairs.len(),
{
    if pairs.len() == 0 {
        None
    } else if pairs.last().0 == key {
        Some(pairs.last().1)
    } else {
        last_value(pairs.drop_last(), key)
    }
}

/// The text of a URL with the given path and query.
pub open spec fn url_of(path: Seq<char>, query: Option<Seq<char>>) -> Seq<char> {
    match query {
        Some(q) => path + "?"@ + q,
        None => path,
    }
}

/// The text of the failure that stands for a path parameter that no route captured.
pub open spec fn missing_param_message(key: Seq<char>) -> Seq<char> {
    "Param \""@ + key + "\" not found"@
}

impl RequestView {
    /// The request for `path` with the given method and nothing else.
    pub open spec fn bare(method: Method, path: Seq<char>) -> RequestView {
        RequestView {
            method,
            path,
            query: None,
            headers: Seq::empty(),
            body: Seq::empty(),
            route_params: Seq::empty(),
            cookies: None,
            extensions: Seq::empty(),
            local_addr: None,
            peer_addr: None,
        }
    }
}

impl Request {
    /// A request for `path` with the given method, without headers or body.
    pub fn new(method: Method, path: &str) -> (r: Request)
        ensures
            r@ == RequestView::bare(method, path@),
    {
        let r = Request {
            method,
            path: path.to_owned(),
            query: None,
            headers: Headers::new(),
            body: Vec::new(),
            route_params: Vec::new(),
            cookies: None,
            extensions: Vec::new(),
            local_addr: None,
            peer_addr: None,
        };
        assert(r@.route_params =~= Seq::empty());
        assert(r@.extensions =~= Seq::empty());
        r
    }

    /// The values of the header lines named `key`.
    pub fn header(&self, key: &str) -> (r: Option<Vec<String>>)
        ensures
            r is None <==> values_of(self@.headers, key@).len() == 0,
            r matches Some(v) ==> texts(v@) == values_of(self@.headers, key@),
    {
        self.headers.get(key)
    }

    /// The method.
    pub fn method(&self) -> (m: Method)
        ensures
            m == self@.method,
    {
        self.method
    }

    /// The path of the URL.
    pub fn path(&self) -> (p: &str)
        ensures
            p@ == self@.path,
    {
        self.path.as_str()
    }

    /// The URL of the request, as far as the server holds it: the path, and after a `?` the
    /// query, where the request has one.
    pub fn url(&self) -> (u: String)
        ensures
            u@ == url_of(self@.path, self@.query),
    {
        let mut u = self.path.clone();
        match &self.query {
            Some(q) => {
                u.append("?");
                u.append(q.as_str());
            },
            None => {},
        }
        u
    }

    /// The query of the URL, where the request has one.
    pub fn query(&self) -> (q: Option<&str>)
        ensures
            q is Some <==> self@.query is Some,
            q matches Some(text) ==> self@.query == Some(text@),
    {
        match &self.query {
            Some(q) => Some(q.as_str()),
            None => None,
        }
    }

    /// The value that the matched route captured under `key`. Where several routes matched,
    /// the most specific one that has the name decides. A name that no route captured is a
    /// failure with status 500.
    pub fn param(&self, key: &str) -> (r: std::result::Result<&str, Error>)
        ensures
            r is Ok <==> param_of(self@.route_params, key@) is Some,
            r matches Ok(v) ==> param_of(self@.route_params, key@) == Some(v@),
            r matches Err(e) ==> e@ == (ErrorView {
                status: StatusCode::InternalServerError,
                message: missing_param_message(key@),
                kind_name: None,
            }),
    {
        let mut i: usize = self.route_params.len();
        assert(self@.route_params.take(i as int) =~= self@.route_params);
        while i > 0
            invariant
                i <= self.route_params.len(),
                param_of(self@.route_params, key@) == param_of(
                    self@.route_params.take(i as int),
                    key@,
                ),
            decreases i,
        {
            proof {
                assert(self@.route_params.take(i as int).drop_last() =~= self@.route_params.take(
                    i - 1,
                ));
                assert(self@.route_params.take(i as int).last() == self.route_params@[i - 1]@);
            }
            i -= 1;
            match self.route_params[i].get(key) {
                Some(v) => {
                    return Ok(v);
                },
                None => {},
            }
        }
        let mut message = "Param \"".to_owned();
        message.append(key);
        message.append("\" not found");
        Err(Error { status: StatusCode::InternalServerError, message, kind_name: None })
    }

    /// The cookie named `name` that the request brought. Without the cookie middleware there
    /// is no jar and no cookie is found.
    pub fn cookie(&self, name: &str) -> (c: Option<Cookie<'static>>)
        ensures
            c is Some <==> (self@.cookies matches Some(jar) && jar.lookup(name@) is Some),
            c matches Some(cookie) ==> cookie_name(cookie) == name@ && self@.cookies->0.lookup(
                name@,
            ) == Some(cookie_wire_form(cookie)),
    {
        match &self.cookies {
            Some(jar) => jar.get(name),
            None => None,
        }
    }

    /// The value that was last left under `key`.
    pub fn ext(&self, key: &str) -> (r: Option<&str>)
        ensures
            r is Some <==> last_value(self@.extensions, key@) is Some,
            r matches Some(v) ==> last_value(self@.extensions, key@) == Some(v@),
    {
        let mut i: usize = self.extensions.len();
        assert(self@.extensions.take(i as int) =~= self@.extensions);
        while i > 0
            invariant
                i <= self.extensions.len(),
                last_value(self@.extensions, key@) == last_value(
                    self@.extensions.take(i as int),
                    key@,
                ),
            decreases i,
        {
            proof {
                assert(self@.extensions.take(i as int).drop_last() =~= self@.extensions.take(
                    i - 1,
                ));
            }
            i -= 1;
            if str_eq(self.extensions[i].0.as_str(), key) {
                return Some(self.extensions[i].1.as_str());
            }
        }
        None
    }

    /// Leaves `value` under `key` for what handles the request next, and gives back the
    /// value that was there.
    pub fn set_ext(&mut self, key: &str, value: &str) -> (previous: Option<String>)
        ensures
            final(self)@ == (RequestView {
                extensions: old(self)@.extensions.push((key@, value@)),
                ..old(self)@
            }),
            text_of(previous) == last_value(old(self)@.extensions, key@),
    {
        let previous = match self.ext(key) {
            Some(v) => Some(v.to_owned()),
            None => None,
        };
        self.extensions.push((key.to_owned(), value.to_owned()));
        assert(final(self)@.extensions =~= old(self)@.extensions.push((key@, value@)));
        assert(final(self)@.route_params =~= old(self)@.route_params);
        previous
    }
}

} // verus!
