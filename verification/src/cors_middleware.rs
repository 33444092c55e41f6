use vstd::prelude::*;
use regex::Regex;
use crate::headers::{values_of, without, HeadersView};
use crate::method::Method;
use crate::middleware::{Middleware, Next};
use crate::request::Request;
use crate::response::{Response, ResponseView, Result};
use crate::server::{installed, same_server, Server, ServerError};
use crate::status::StatusCode;
use crate::text::{str_eq, texts};

verus! {

/// `regex::Regex`, carried through as it is.
#[verifier::external_type_specification]
#[verifier::external_body]
pub struct ExRegex(Regex);

/// Whether the regular expression matches somewhere in the text, as `Regex::is_match`
/// tells.
pub uninterp spec fn regex_accepts(re: Regex, text: Seq<char>) -> bool;

/// The pattern that the regular expression was made from, as `Regex::as_str` gives it.
pub uninterp spec fn regex_pattern(re: Regex) -> Seq<char>;

/// `Regex::is_match`: whether the regular expression matches somewhere in the text.
#[verifier::external_body]
fn matches_regex(re: &Regex, text: &str) -> (b: bool)
    ensures
        b == regex_accepts(*re, text@),
{
    re.is_match(text)
}

/// `Regex::as_str`: the pattern of the regular expression.
#[verifier::external_body]
fn pattern_of(re: &Regex) -> (pattern: &str)
    ensures
        pattern@ == regex_pattern(*re),
{
    re.as_str()
}

/// The value of `Access-Control-Max-Age` of a middleware that was given none.
pub const DEFAULT_MAX_AGE: &'static str = "86400";

/// The value of `Access-Control-Allow-Methods` of a middleware that was given none.
pub const DEFAULT_METHODS: &'static str = "GET, POST, OPTIONS";

/// The value that stands for every origin and every header.
pub const WILDCARD: &'static str = "*";

/// The origins that may read a response.
#[derive(Debug)]
pub enum Origin {
    /// Every origin.
    Any,
    /// The one origin.
    Exact(String),
    /// The origins of the list.
    List(Vec<String>),
    /// The origins that the regular expression matches.
    Match(Regex),
}

/// Whether `text` is one of the texts of the list.
pub open spec fn lists(list: Seq<String>, text: Seq<char>) -> bool {
    exists|i: int| 0 <= i < list.len() && (#[trigger] list[i])@ == text
}

/// Tells whether two lists hold the same texts in the same order.
fn same_texts(a: &Vec<String>, b: &Vec<String>) -> (r: bool)
    ensures
        r == (texts(a@) == texts(b@)),
{
    if a.len() != b.len() {
        assert(texts(a@).len() != texts(b@).len());
        return false;
    }
    let mut i: usize = 0;
    while i < a.len()
        invariant
            a.len() == b.len(),
            i <= a.len(),
            forall|j: int| 0 <= j < i ==> a@[j]@ == b@[j]@,
        decreases a.len() - i,
    {
        if !str_eq(a[i].as_str(), b[i].as_str()) {
            assert(texts(a@)[i as int] != texts(b@)[i as int]);
            return false;
        }
        i += 1;
    }
    assert(texts(a@) =~= texts(b@));
    true
}

/// Tells whether `text` is one of the texts of the list.
fn contains_text(list: &Vec<String>, text: &str) -> (r: bool)
    ensures
        r == lists(list@, text@),
{
    let mut i: usize = 0;
    while i < list.len()
        invariant
            i <= list.len(),
            forall|j: int| 0 <= j < i ==> (#[trigger] list@[j])@ != text@,
        decreases list.len() - i,
    {
        if str_eq(list[i].as_str(), text) {
            assert(list@[i as int]@ == text@);
            return true;
        }
        i += 1;
    }
    false
}

impl Origin {
    /// Whether a request from `origin` is let in.
    pub open spec fn allows(self, origin: Seq<char>) -> bool {
        match self {
            Origin::Any => true,
            Origin::Exact(s) => s@ == origin,
            Origin::List(list) => lists(list@, origin),
            Origin::Match(re) => regex_accepts(re, origin),
        }
    }

    /// The origins of a text: every origin for `*`, else the one that the text names.
    pub open spec fn of_text(self, s: Seq<char>) -> bool {
        if s == "*"@ {
            self is Any
        } else {
            self matches Origin::Exact(e) && e@ == s
        }
    }

    /// The origins that a text names: every origin for `*`, else the one origin.
    pub fn from_string(s: String) -> (o: Origin)
        ensures
            o.of_text(s@),
            o == (if s@ == "*"@ {
                Origin::Any
            } else {
                Origin::Exact(s)
            }),
    {
        if str_eq(s.as_str(), "*") {
            Origin::Any
        } else {
            Origin::Exact(s)
        }
    }

    /// The origins that a text names.
    pub fn from_str(s: &str) -> (o: Origin)
        ensures
            o.of_text(s@),
    {
        Origin::from_string(s.to_owned())
    }

    /// The origins of a list: those that its only text names where it has one text, else
    /// the origins of the list.
    pub fn from_list(list: Vec<String>) -> (o: Origin)
        ensures
            list@.len() == 1 ==> o.of_text(list@[0]@),
            list@.len() == 1 ==> o == (if list@[0]@ == "*"@ {
                Origin::Any
            } else {
                Origin::Exact(list@[0])
            }),
            list@.len() != 1 ==> o == Origin::List(list),
    {
        if list.len() == 1 {
            Origin::from_string(list[0].clone())
        } else {
            Origin::List(list)
        }
    }

    /// The origins that the regular expression matches.
    pub fn from_regex(regex: Regex) -> (o: Origin)
        ensures
            o == Origin::Match(regex),
    {
        Origin::Match(regex)
    }

    /// Whether two sets of origins are given in the same way: both as every origin, as the
    /// same text, as the same list, or as regular expressions of the same pattern.
    pub open spec fn same(self, other: Origin) -> bool {
        match (self, other) {
            (Origin::Any, Origin::Any) => true,
            (Origin::Exact(a), Origin::Exact(b)) => a@ == b@,
            (Origin::List(a), Origin::List(b)) => texts(a@) == texts(b@),
            (Origin::Match(a), Origin::Match(b)) => regex_pattern(a) == regex_pattern(b),
            _ => false,
        }
    }

    /// Tells whether two sets of origins are given in the same way.
    pub fn is_same(&self, other: &Origin) -> (b: bool)
        ensures
            b == self.same(*other),
    {
        match (self, other) {
            (Origin::Any, Origin::Any) => true,
            (Origin::Exact(a), Origin::Exact(b)) => str_eq(a.as_str(), b.as_str()),
            (Origin::List(a), Origin::List(b)) => same_texts(a, b),
            (Origin::Match(a), Origin::Match(b)) => str_eq(pattern_of(a), pattern_of(b)),
            _ => false,
        }
    }

    /// Tells whether a request from `origin` is let in.
    pub fn is_allowed(&self, origin: &str) -> (b: bool)
        ensures
            b == self.allows(origin@),
    {
        match self {
            Origin::Any => true,
            Origin::Exact(s) => str_eq(s.as_str(), origin),
            Origin::List(list) => contains_text(list, origin),
            Origin::Match(re) => matches_regex(re, origin),
        }
    }
}

impl PartialEq for Origin {
    fn eq(&self, other: &Origin) -> (b: bool) {
        self.is_same(other)
    }
}

impl vstd::std_specs::cmp::PartialEqSpecImpl for Origin {
    open spec fn obeys_eq_spec() -> bool {
        true
    }

    open spec fn eq_spec(&self, other: &Origin) -> bool {
        self.same(*other)
    }
}

impl From<String> for Origin {
    fn from(s: String) -> (o: Origin) {
        Origin::from_string(s)
    }
}

impl vstd::std_specs::convert::FromSpecImpl<String> for Origin {
    open spec fn obeys_from_spec() -> bool {
        true
    }

    open spec fn from_spec(s: String) -> Origin {
        if s@ == "*"@ {
            Origin::Any
        } else {
            Origin::Exact(s)
        }
    }
}

impl From<Vec<String>> for Origin {
    fn from(list: Vec<String>) -> (o: Origin) {
        Origin::from_list(list)
    }
}

impl vstd::std_specs::convert::FromSpecImpl<Vec<String>> for Origin {
    open spec fn obeys_from_spec() -> bool {
        true
    }

    open spec fn from_spec(list: Vec<String>) -> Origin {
        if list@.len() == 1 {
            if list@[0]@ == "*"@ {
                Origin::Any
            } else {
                Origin::Exact(list@[0])
            }
        } else {
            Origin::List(list)
        }
    }
}

impl From<Regex> for Origin {
    fn from(regex: Regex) -> (o: Origin) {
        Origin::Match(regex)
    }
}

impl vstd::std_specs::convert::FromSpecImpl<Regex> for Origin {
    open spec fn obeys_from_spec() -> bool {
        true
    }

    open spec fn from_spec(regex: Regex) -> Origin {
        Origin::Match(regex)
    }
}

/// The header lines with the lines named `name` replaced by one line of the given value.
pub open spec fn inserted(h: HeadersView, name: Seq<char>, value: Seq<char>) -> HeadersView {
    without(h, name).push((name, value))
}

/// The header lines with one more line of the given name, where there is a value.
pub open spec fn inserted_if(h: HeadersView, name: Seq<char>, value: Option<Seq<char>>) -> HeadersView {
    match value {
        Some(v) => inserted(h, name, v),
        None => h,
    }
}

/// The lines of one name for a list of values.
pub open spec fn lines(name: Seq<char>, values: Seq<Seq<char>>) -> HeadersView {
    Seq::new(values.len(), |i: int| (name, values[i]))
}

/// The middleware that answers the questions of cross-origin resource sharing.
#[derive(Debug)]
pub struct CorsMiddleware {
    pub allow_credentials: Option<String>,
    pub allow_headers: String,
    pub allow_methods: String,
    pub allow_origin: Origin,
    pub expose_headers: Option<String>,
    pub max_age: String,
}

/// What a [`CorsMiddleware`] holds, as plain values.
pub struct CorsView {
    pub allow_credentials: Option<Seq<char>>,
    pub allow_headers: Seq<char>,
    pub allow_methods: Seq<char>,
    pub allow_origin: Origin,
    pub expose_headers: Option<Seq<char>>,
    pub max_age: Seq<char>,
}

impl View for CorsMiddleware {
    type V = CorsView;

    open spec fn view(&self) -> CorsView {
        CorsView {
            allow_credentials: match self.allow_credentials {
                Some(v) => Some(v@),
                None => None,
            },
            allow_headers: self.allow_headers@,
            allow_methods: self.allow_methods@,
            allow_origin: self.allow_origin,
            expose_headers: match self.expose_headers {
                Some(v) => Some(v@),
                None => None,
            },
            max_age: self.max_age@,
        }
    }
}

impl CorsView {
    /// The configuration that lets every origin in, with every header, the methods `GET`,
    /// `POST` and `OPTIONS`, and a maximal age of one day.
    pub open spec fn initial() -> CorsView {
        CorsView {
            allow_credentials: None,
            allow_headers: WILDCARD@,
            allow_methods: DEFAULT_METHODS@,
            allow_origin: Origin::Any,
            expose_headers: None,
            max_age: DEFAULT_MAX_AGE@,
        }
    }

    /// The value of `Access-Control-Allow-Origin` for a request from `origin`: `*` where
    /// every origin is let in, else the origin itself.
    pub open spec fn response_origin(self, origin: Seq<char>) -> Seq<char> {
        if self.allow_origin is Any {
            "*"@
        } else {
            origin
        }
    }

    /// The answer to a preflight request with the given `Origin` values.
    pub open spec fn preflight(self, origins: Seq<Seq<char>>) -> ResponseView {
        let h0 = lines("access-control-allow-origin"@, origins);
        let h1 = inserted(h0, "access-control-allow-methods"@, self.allow_methods);
        let h2 = inserted(h1, "access-control-allow-headers"@, self.allow_headers);
        let h3 = inserted(h2, "access-control-max-age"@, self.max_age);
        let h4 = inserted_if(h3, "access-control-allow-credentials"@, self.allow_credentials);
        let h5 = inserted_if(h4, "access-control-expose-headers"@, self.expose_headers);
        ResponseView { headers: h5, ..ResponseView::bare(StatusCode::Okay) }
    }

    /// The response of the rest of the chain with the headers that let `origin` read it.
    pub open spec fn decorated(self, inner: ResponseView, origin: Seq<char>) -> ResponseView {
        let h1 = inserted(
            inner.headers,
            "access-control-allow-origin"@,
            self.response_origin(origin),
        );
        let h2 = inserted_if(h1, "access-control-allow-credentials"@, self.allow_credentials);
        let h3 = inserted_if(h2, "access-control-expose-headers"@, self.expose_headers);
        ResponseView { headers: h3, ..inner }
    }
}

impl CorsMiddleware {
    /// The middleware that lets every origin in, with every header, the methods `GET`,
    /// `POST` and `OPTIONS`, and a maximal age of one day.
    pub fn new() -> (m: CorsMiddleware)
        ensures
            m@ == CorsView::initial(),
    {
        CorsMiddleware {
            allow_credentials: None,
            allow_headers: WILDCARD.to_owned(),
            allow_methods: DEFAULT_METHODS.to_owned(),
            allow_origin: Origin::Any,
            expose_headers: None,
            max_age: DEFAULT_MAX_AGE.to_owned(),
        }
    }

    /// Sets whether credentials are allowed: the header says `true` or `false`.
    pub fn allow_credentials(self, allow_credentials: bool) -> (m: CorsMiddleware)
        ensures
            m@ == (CorsView {
                allow_credentials: Some(
                    if allow_credentials {
                        "true"@
                    } else {
                        "false"@
                    },
                ),
                ..self@
            }),
    {
        let mut m = self;
        m.allow_credentials = Some(
            if allow_credentials {
                "true".to_owned()
            } else {
                "false".to_owned()
            },
        );
        m
    }

    /// Sets the headers that a request may carry.
    pub fn allow_headers(self, headers: &str) -> (m: CorsMiddleware)
        ensures
            m@ == (CorsView { allow_headers: headers@, ..self@ }),
    {
        let mut m = self;
        m.allow_headers = headers.to_owned();
        m
    }

    /// Sets the time for which the answer to a preflight request may be kept.
    pub fn max_age(self, max_age: &str) -> (m: CorsMiddleware)
        ensures
            m@ == (CorsView { max_age: max_age@, ..self@ }),
    {
        let mut m = self;
        m.max_age = max_age.to_owned();
        m
    }

    /// Sets the methods that a request may have.
    pub fn allow_methods(self, methods: &str) -> (m: CorsMiddleware)
        ensures
            m@ == (CorsView { allow_methods: methods@, ..self@ }),
    {
        let mut m = self;
        m.allow_methods = methods.to_owned();
        m
    }

    /// Sets the origins that are let in.
    pub fn allow_origin(self, origin: Origin) -> (m: CorsMiddleware)
        ensures
            m@ == (CorsView { allow_origin: origin, ..self@ }),
    {
        let mut m = self;
        m.allow_origin = origin;
        m
    }

    /// Sets the headers of the response that a script may read.
    pub fn expose_headers(self, headers: &str) -> (m: CorsMiddleware)
        ensures
            m@ == (CorsView { expose_headers: Some(headers@), ..self@ }),
    {
        let mut m = self;
        m.expose_headers = Some(headers.to_owned());
        m
    }

    /// Whether a request from `origin` is let in.
    pub fn is_valid_origin(&self, origin: &str) -> (b: bool)
        ensures
            b == self@.allow_origin.allows(origin@),
    {
        self.allow_origin.is_allowed(origin)
    }

    /// The value of `Access-Control-Allow-Origin` for a request from `origin`.
    pub fn response_origin(&self, origin: &str) -> (value: String)
        ensures
            value@ == self@.response_origin(origin@),
    {
        match self.allow_origin {
            Origin::Any => WILDCARD.to_owned(),
            _ => origin.to_owned(),
        }
    }

    /// Sets on `res` the headers that a configuration gives only where it has them.
    fn insert_optional(&self, res: &mut Response)
        ensures
            final(res)@ == (ResponseView {
                headers: inserted_if(
                    inserted_if(
                        old(res)@.headers,
                        "access-control-allow-credentials"@,
                        self@.allow_credentials,
                    ),
                    "access-control-expose-headers"@,
                    self@.expose_headers,
                ),
                ..old(res)@
            }),
    {
        match &self.allow_credentials {
            Some(v) => res.insert_header("access-control-allow-credentials", v.as_str()),
            None => {},
        }
        match &self.expose_headers {
            Some(v) => res.insert_header("access-control-expose-headers", v.as_str()),
            None => {},
        }
    }

    /// The answer to a preflight request with the given `Origin` values.
    pub fn build_preflight_response(&self, origins: &Vec<String>) -> (res: Response)
        ensures
            res@ == self@.preflight(texts(origins@)),
    {
        let mut res = Response::new(StatusCode::Okay);
        let mut i: usize = 0;
        assert(lines("access-control-allow-origin"@, texts(origins@).take(0)) =~= Seq::empty());
        while i < origins.len()
            invariant
                i <= origins.len(),
                res@ == (ResponseView {
                    headers: lines("access-control-allow-origin"@, texts(origins@).take(i as int)),
                    ..ResponseView::bare(StatusCode::Okay)
                }),
            decreases origins.len() - i,
        {
            res.append_header("access-control-allow-origin", origins[i].as_str());
            proof {
                assert(lines("access-control-allow-origin"@, texts(origins@).take(i + 1)) =~= lines(
                    "access-control-allow-origin"@,
                    texts(origins@).take(i as int),
                ).push(("access-control-allow-origin"@, origins@[i as int]@)));
            }
            i += 1;
        }
        assert(texts(origins@).take(i as int) =~= texts(origins@));
        res.insert_header("access-control-allow-methods", self.allow_methods.as_str());
        res.insert_header("access-control-allow-headers", self.allow_headers.as_str());
        res.insert_header("access-control-max-age", self.max_age.as_str());
        self.insert_optional(&mut res);
        res
    }
}

impl Default for CorsMiddleware {
    fn default() -> (m: CorsMiddleware)
        ensures
            m@ == CorsView::initial(),
    {
        CorsMiddleware::new()
    }
}

impl Middleware for CorsMiddleware {
    /// A request without `Origin` goes to the rest of the chain as it is. A request from an
    /// origin that is not let in is answered with 401. A preflight request, one of the
    /// method `OPTIONS`, gets the preflight answer. Every other request goes to the rest of
    /// the chain, and the response gets the headers that let the origin read it. The origin
    /// of a request is the last of its `Origin` values.
    open spec fn handles(&self, req: Request, next: Next<'_>, outcome: Result) -> bool {
        let origins = values_of(req@.headers, "origin"@);
        if origins.len() == 0 {
            outcome matches Ok(res) && next.yields(req, res)
        } else if !self@.allow_origin.allows(origins.last()) {
            outcome matches Ok(res) && res@ == ResponseView::bare(StatusCode::Unauthorized)
        } else if req@.method == Method::Options {
            outcome matches Ok(res) && res@ == self@.preflight(origins)
        } else {
            exists|inner: Response| #[trigger]
                next.yields(req, inner) && (outcome matches Ok(res) && res@ == self@.decorated(
                    inner@,
                    origins.last(),
                ))
        }
    }

    fn handle(&self, req: Request, next: Next<'_>) -> (outcome: Result) {
        let origins = match req.header("origin") {
            Some(origins) => origins,
            None => {
                let res = next.run(req);
                return Ok(res);
            },
        };
        let origin = origins[origins.len() - 1].as_str();
        assert(origin@ == values_of(req@.headers, "origin"@).last());
        if !self.is_valid_origin(origin) {
            return Ok(Response::new(StatusCode::Unauthorized));
        }
        if req.method() == Method::Options {
            return Ok(self.build_preflight_response(&origins));
        }
        let mut res = next.run(req);
        let value = self.response_origin(origin);
        res.insert_header("access-control-allow-origin", value.as_str());
        self.insert_optional(&mut res);
        Ok(res)
    }

    open spec fn names(&self, name: Seq<char>) -> bool {
        name == "CorsMiddleware"@
    }

    fn name(&self) -> (n: String)
        ensures
            n@ == "CorsMiddleware"@,
    {
        "CorsMiddleware".to_owned()
    }
}

/// Cross-origin resource sharing, as a middleware around every route.
pub trait WithCors {
    /// Adds the middleware that `configure` makes of the default one.
    fn with_cors<F: Fn(CorsMiddleware) -> CorsMiddleware>(&mut self, configure: F) -> (r:
        std::result::Result<&mut Self, ServerError>)
        requires
            forall|m: CorsMiddleware| call_requires(configure, (m,)),
    ;
}

impl WithCors for Server {
    fn with_cors<F: Fn(CorsMiddleware) -> CorsMiddleware>(&mut self, configure: F) -> (r:
        std::result::Result<&mut Self, ServerError>)
        ensures
            r matches Ok(server) ==> *final(self) == *final(server) && exists|
                default: CorsMiddleware,
                m: CorsMiddleware,
            |
                default@ == CorsView::initial() && #[trigger] call_ensures(
                    configure,
                    (default,),
                    m,
                ) && installed(*old(self), *server, m),
            r matches Err(e) ==> e == ServerError::Frozen && same_server(*old(self), *final(self)),
    {
        let cors = CorsMiddleware::new();
        let ghost default = cors;
        let m = configure(cors);
        let ghost added = m;
        match self.with(m) {
            Ok(server) => {
                assert(call_ensures(configure, (default,), added));
                assert(installed(*old(self), *server, added));
                Ok(server)
            },
            Err(e) => Err(e),
        }
    }
}

} // verus!
