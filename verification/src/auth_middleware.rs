use vstd::prelude::*;
use vstd::string::StrSliceExecFns;
use vstd::utf8::{decode_utf8, valid_utf8};
use crate::error::{Error, ErrorView};
use crate::headers::{values_of, without};
use crate::middleware::{Middleware, Next};
use crate::request::Request;
use crate::response::{Response, ResponseView, Result};
use crate::server::{installed, same_server, Server, ServerError};
use crate::status::StatusCode;
use crate::text::{chars_of, has_prefix, pieces, split, starts_with, texts};

verus! {

/// The bytes that `base64::decode` reads from a text in the standard alphabet with padding,
/// or `None` where the text is not such an encoding.
pub uninterp spec fn base64_decoded(text: Seq<char>) -> Option<Seq<u8>>;

/// `base64::decode`: the bytes that the text encodes, or `None` where the crate reports a
/// decoding error.
#[verifier::external_body]
fn decode_base64(text: &str) -> (bytes: Option<Vec<u8>>)
    ensures
        bytes is Some <==> base64_decoded(text@) is Some,
        bytes matches Some(b) ==> base64_decoded(text@) == Some(b@),
{
    match base64::decode(text) {
        Ok(b) => Some(b),
        Err(_) => None,
    }
}

/// `String::from_utf8`: the text that the bytes spell in UTF-8, or `None` where they are
/// not valid UTF-8.
#[verifier::external_body]
fn text_of_utf8(bytes: Vec<u8>) -> (text: Option<String>)
    ensures
        text is Some <==> valid_utf8(bytes@),
        text matches Some(t) ==> t@ == decode_utf8(bytes@),
{
    match String::from_utf8(bytes) {
        Ok(t) => Some(t),
        Err(_) => None,
    }
}

/// The failure with status 401 and the given text.
pub open spec fn unauthorized(message: Seq<char>) -> ErrorView {
    ErrorView { status: StatusCode::Unauthorized, message, kind_name: None }
}

/// The credentials that an authorization parameter carries: the pieces, cut at `:`, of the
/// text that its base64 form spells. Where the parameter is not base64, or does not spell
/// a text, the failure says so.
pub open spec fn credentials(param: Seq<char>) -> std::result::Result<Seq<Seq<char>>, ErrorView> {
    match base64_decoded(param) {
        None => Err(unauthorized("Basic auth param must be valid base64."@)),
        Some(bytes) => if !valid_utf8(bytes) {
            Err(unauthorized("Basic auth param base64 must contain valid utf-8."@))
        } else {
            Ok(split(decode_utf8(bytes), ':'))
        },
    }
}

/// Reads the credentials of an authorization parameter.
pub fn read_credentials(param: &str) -> (r: std::result::Result<Vec<String>, Error>)
    ensures
        r is Ok <==> credentials(param@) is Ok,
        r matches Ok(parts) ==> credentials(param@) == Ok::<Seq<Seq<char>>, ErrorView>(
            texts(parts@),
        ),
        r matches Err(e) ==> credentials(param@) == Err::<Seq<Seq<char>>, ErrorView>(e@),
        r matches Ok(parts) ==> parts@.len() >= 1,
{
    let bytes = match decode_base64(param) {
        Some(b) => b,
        None => {
            return Err(
                Error::from_str(StatusCode::Unauthorized, "Basic auth param must be valid base64."),
            );
        },
    };
    let text = match text_of_utf8(bytes) {
        Some(t) => t,
        None => {
            return Err(
                Error::from_str(
                    StatusCode::Unauthorized,
                    "Basic auth param base64 must contain valid utf-8.",
                ),
            );
        },
    };
    Ok(pieces(text.as_str(), ':'))
}

/// A way to check the credentials of a request.
///
/// `authenticates` says which outcomes `authenticate` may have; an implementation that
/// promises nothing lets it hold of every outcome.
pub trait Scheme: Send + Sync + 'static {
    /// Whether `outcome` is one that `authenticate` may hand back for the parameter.
    open spec fn authenticates(&self, auth_param: Seq<char>, outcome: std::result::Result<
        Option<bool>,
        Error,
    >) -> bool {
        true
    }

    /// Checks the parameter of an authorization header: the text after the name of the
    /// scheme. `Ok(Some(_))` lets the request pass, `Ok(None)` forbids it, and a failure is
    /// handed on.
    fn authenticate(&self, auth_param: &str) -> (outcome: std::result::Result<Option<bool>, Error>)
        ensures
            self.authenticates(auth_param@, outcome),
    ;

    /// Whether a request with more than one authorization header is turned away.
    open spec fn refuses_multiple_values(&self) -> bool {
        true
    }

    /// The name of the header that carries the credentials.
    open spec fn header(&self) -> Seq<char> {
        "Authorization"@
    }

    /// The name of the scheme as it starts the header value, with the space after it.
    open spec fn prefix(&self) -> Seq<char> {
        Seq::empty()
    }

    /// Whether a request with more than one authorization header is turned away.
    fn should_401_on_multiple_values(&self) -> (b: bool)
        ensures
            b == self.refuses_multiple_values(),
    ;

    /// Whether credentials that do not hold are answered with 403.
    fn should_403_on_bad_auth(&self) -> bool;

    /// The name of the header that carries the credentials.
    fn header_name(&self) -> (name: &'static str)
        ensures
            name@ == self.header(),
    ;

    /// The name of the scheme as it starts the header value, with the space after it.
    fn scheme_name(&self) -> (name: &'static str)
        ensures
            name@ == self.prefix(),
    ;
}

/// The `Basic` scheme: a user name and a password, checked by a function.
pub struct BasicAuthScheme<F: Fn(&str, &str) -> bool> {
    verify_password: F,
}

/// The credentials of the `Basic` scheme.
#[derive(Debug)]
pub struct BasicAuthRequest {
    pub username: String,
    pub password: String,
}

impl<F: Fn(&str, &str) -> bool> BasicAuthScheme<F> {
    #[verifier::type_invariant]
    spec fn total(self) -> bool {
        forall|username: &str, password: &str| call_requires(self.verify_password, (username, password))
    }

    /// The function that checks a user name and a password.
    pub closed spec fn check(self) -> F {
        self.verify_password
    }

    /// The scheme that lets pass whom `verify_password` accepts. The function has to take
    /// every user name and password.
    pub fn new(verify_password: F) -> (scheme: BasicAuthScheme<F>)
        requires
            forall|username: &str, password: &str| call_requires(verify_password, (username, password)),
        ensures
            scheme.check() == verify_password,
    {
        BasicAuthScheme { verify_password }
    }
}

impl<F: Fn(&str, &str) -> bool + Send + Sync + 'static> Scheme for BasicAuthScheme<F> {
    /// The credentials have to be read, and to hold a user name and a password that the
    /// function accepts; then the outcome is `Ok(Some(true))`. Each other case is a failure
    /// with status 401 that says what is wrong.
    open spec fn authenticates(&self, auth_param: Seq<char>, outcome: std::result::Result<
        Option<bool>,
        Error,
    >) -> bool {
        match credentials(auth_param) {
            Err(e) => outcome matches Err(err) && err@ == e,
            Ok(parts) => if parts.len() < 2 {
                outcome matches Err(err) && err@ == unauthorized(
                    "Basic auth must contain both username and password"@,
                )
            } else {
                exists|username: &str, password: &str, accepted: bool|
                    username@ == parts[0] && password@ == parts[1] && #[trigger] call_ensures(
                        self.check(),
                        (username, password),
                        accepted,
                    ) && if accepted {
                        outcome == Ok::<Option<bool>, Error>(Some(true))
                    } else {
                        outcome matches Err(err) && err@ == unauthorized(
                            "username and password doesn't match"@,
                        )
                    }
            },
        }
    }

    fn authenticate(&self, auth_param: &str) -> (outcome: std::result::Result<Option<bool>, Error>) {
        proof {
            use_type_invariant(self);
        }
        let parts = match read_credentials(auth_param) {
            Ok(parts) => parts,
            Err(e) => {
                return Err(e);
            },
        };
        if parts.len() < 2 {
            return Err(
                Error::from_str(
                    StatusCode::Unauthorized,
                    "Basic auth must contain both username and password",
                ),
            );
        }
        let username = parts[0].as_str();
        let password = parts[1].as_str();
        let accepted = (self.verify_password)(username, password);
        proof {
            let cut = credentials(auth_param@)->Ok_0;
            assert(cut == texts(parts@));
            assert(username@ == cut[0] && password@ == cut[1]);
            assert(call_ensures(self.check(), (username, password), accepted));
        }
        if accepted {
            Ok(Some(true))
        } else {
            Err(Error::from_str(StatusCode::Unauthorized, "username and password doesn't match"))
        }
    }

    open spec fn refuses_multiple_values(&self) -> bool {
        true
    }

    open spec fn header(&self) -> Seq<char> {
        "Authorization"@
    }

    open spec fn prefix(&self) -> Seq<char> {
        "Basic "@
    }

    fn should_401_on_multiple_values(&self) -> (b: bool) {
        true
    }

    fn should_403_on_bad_auth(&self) -> (b: bool)
        ensures
            b,
    {
        true
    }

    fn header_name(&self) -> (name: &'static str) {
        "Authorization"
    }

    fn scheme_name(&self) -> (name: &'static str) {
        "Basic "
    }
}

/// The `Bearer` scheme: a token, checked by a function.
pub struct BearerAuthScheme<F: Fn(&str) -> bool> {
    verify_token: F,
}

/// The credentials of the `Bearer` scheme.
#[derive(Debug)]
pub struct BearerAuthRequest {
    pub token: String,
}

impl<F: Fn(&str) -> bool> BearerAuthScheme<F> {
    #[verifier::type_invariant]
    spec fn total(self) -> bool {
        forall|token: &str| call_requires(self.verify_token, (token,))
    }

    /// The function that checks a token.
    pub closed spec fn check(self) -> F {
        self.verify_token
    }

    /// The scheme that lets pass the tokens that `verify_token` accepts. The function has
    /// to take every token.
    pub fn new(verify_token: F) -> (scheme: BearerAuthScheme<F>)
        requires
            forall|token: &str| call_requires(verify_token, (token,)),
        ensures
            scheme.check() == verify_token,
    {
        BearerAuthScheme { verify_token }
    }
}

impl<F: Fn(&str) -> bool + Send + Sync + 'static> Scheme for BearerAuthScheme<F> {
    /// The credentials have to be read, and their first piece has to be a token that the
    /// function accepts; then the outcome is `Ok(Some(true))`. Each other case is a failure
    /// with status 401 that says what is wrong.
    open spec fn authenticates(&self, auth_param: Seq<char>, outcome: std::result::Result<
        Option<bool>,
        Error,
    >) -> bool {
        match credentials(auth_param) {
            Err(e) => outcome matches Err(err) && err@ == e,
            Ok(parts) => exists|token: &str, accepted: bool|
                token@ == parts[0] && #[trigger] call_ensures(self.check(), (token,), accepted)
                    && if accepted {
                    outcome == Ok::<Option<bool>, Error>(Some(true))
                } else {
                    outcome matches Err(err) && err@ == unauthorized(
                        "token is expired or invalid"@,
                    )
                },
        }
    }

    fn authenticate(&self, auth_param: &str) -> (outcome: std::result::Result<Option<bool>, Error>) {
        proof {
            use_type_invariant(self);
        }
        let parts = match read_credentials(auth_param) {
            Ok(parts) => parts,
            Err(e) => {
                return Err(e);
            },
        };
        let token = parts[0].as_str();
        let accepted = (self.verify_token)(token);
        proof {
            let cut = credentials(auth_param@)->Ok_0;
            assert(cut == texts(parts@));
            assert(token@ == cut[0]);
            assert(call_ensures(self.check(), (token,), accepted));
        }
        if accepted {
            Ok(Some(true))
        } else {
            Err(Error::from_str(StatusCode::Unauthorized, "token is expired or invalid"))
        }
    }

    open spec fn refuses_multiple_values(&self) -> bool {
        true
    }

    open spec fn header(&self) -> Seq<char> {
        "Authorization"@
    }

    open spec fn prefix(&self) -> Seq<char> {
        "Bearer "@
    }

    fn should_401_on_multiple_values(&self) -> (b: bool) {
        true
    }

    fn should_403_on_bad_auth(&self) -> (b: bool)
        ensures
            b,
    {
        true
    }

    fn header_name(&self) -> (name: &'static str) {
        "Authorization"
    }

    fn scheme_name(&self) -> (name: &'static str) {
        "Bearer "
    }
}

/// The response that asks for credentials.
pub open spec fn challenge(status: StatusCode) -> ResponseView {
    ResponseView {
        headers: seq![("WWW-Authenticate"@, "Basic"@)],
        ..ResponseView::bare(status)
    }
}

/// The response with the given status that asks for credentials.
fn challenge_response(status: StatusCode) -> (res: Response)
    ensures
        res@ == challenge(status),
{
    let mut res = Response::new(status);
    res.insert_header("WWW-Authenticate", "Basic");
    assert(without(Seq::<(Seq<char>, Seq<char>)>::empty(), "WWW-Authenticate"@) =~= Seq::empty());
    assert(res@.headers =~= seq![("WWW-Authenticate"@, "Basic"@)]);
    res
}

/// The position of the first text that starts with `prefix`, at or after `from`, or the
/// length of the list where there is none.
pub open spec fn first_with_prefix(values: Seq<Seq<char>>, prefix: Seq<char>, from: int) -> int
    decreases values.len() - from,
{
    if from < 0 || from >= values.len() {
        values.len() as int
    } else if has_prefix(values[from], prefix) {
        from
    } else {
        first_with_prefix(values, prefix, from + 1)
    }
}

/// The middleware that lets a request pass only with credentials that its scheme accepts.
pub struct AuthMiddleware<ImplScheme: Scheme> {
    pub scheme: ImplScheme,
}

impl<ImplScheme: Scheme> AuthMiddleware<ImplScheme> {
    /// The middleware for the scheme.
    pub fn new(scheme: ImplScheme) -> (m: AuthMiddleware<ImplScheme>)
        ensures
            m.scheme == scheme,
    {
        AuthMiddleware { scheme }
    }
}

impl<ImplScheme: Scheme> Middleware for AuthMiddleware<ImplScheme> {
    /// A request without a header of the scheme's name, or with several of them where the
    /// scheme refuses that, or without one that starts with the scheme's name, is answered
    /// with 401 and a challenge. Else the text after the scheme's name in the first such
    /// header goes to the scheme: where it lets the request pass, the outcome is the
    /// response of the rest of the chain; where it forbids it, 403 with a challenge; and
    /// its failure is handed on.
    open spec fn handles(&self, req: Request, next: Next<'_>, outcome: Result) -> bool {
        let values = values_of(req@.headers, self.scheme.header());
        let prefix = self.scheme.prefix();
        let k = first_with_prefix(values, prefix, 0);
        if values.len() == 0 || (values.len() > 1 && self.scheme.refuses_multiple_values()) || k
            >= values.len() {
            outcome matches Ok(res) && res@ == challenge(StatusCode::Unauthorized)
        } else {
            exists|verdict: std::result::Result<Option<bool>, Error>| #[trigger]
                self.scheme.authenticates(values[k].skip(prefix.len() as int), verdict)
                    && match verdict {
                    Err(e) => outcome == Err::<Response, Error>(e),
                    Ok(Some(_)) => outcome matches Ok(res) && next.yields(req, res),
                    Ok(None) => outcome matches Ok(res) && res@ == challenge(StatusCode::Forbidden),
                }
        }
    }

    fn handle(&self, req: Request, next: Next<'_>) -> (outcome: Result) {
        let values = match req.header(self.scheme.header_name()) {
            Some(values) => values,
            None => {
                return Ok(challenge_response(StatusCode::Unauthorized));
            },
        };
        if values.len() > 1 && self.scheme.should_401_on_multiple_values() {
            return Ok(challenge_response(StatusCode::Unauthorized));
        }
        let prefix = chars_of(self.scheme.scheme_name());
        let ghost all = values_of(req@.headers, self.scheme.header());
        let mut i: usize = 0;
        while i < values.len()
            invariant
                i <= values.len(),
                texts(values@) == all,
                all == values_of(req@.headers, self.scheme.header()),
                all.len() > 0,
                !(all.len() > 1 && self.scheme.refuses_multiple_values()),
                prefix@ == self.scheme.prefix(),
                first_with_prefix(all, prefix@, 0) == first_with_prefix(all, prefix@, i as int),
            decreases values.len() - i,
        {
            let value = chars_of(values[i].as_str());
            if starts_with(&value, &prefix) {
                let param = values[i].as_str().substring_char(prefix.len(), value.len());
                let verdict = self.scheme.authenticate(param);
                proof {
                    assert(param@ =~= all[i as int].skip(prefix@.len() as int));
                    assert(first_with_prefix(all, prefix@, 0) == i);
                }
                match verdict {
                    Err(e) => {
                        return Err(e);
                    },
                    Ok(Some(_)) => {
                        let res = next.run(req);
                        return Ok(res);
                    },
                    Ok(None) => {
                        return Ok(challenge_response(StatusCode::Forbidden));
                    },
                }
            }
            i += 1;
        }
        Ok(challenge_response(StatusCode::Unauthorized))
    }

    open spec fn names(&self, name: Seq<char>) -> bool {
        name == "AuthMiddleware"@
    }

    fn name(&self) -> (n: String)
        ensures
            n@ == "AuthMiddleware"@,
    {
        "AuthMiddleware".to_owned()
    }
}

/// Authentication by the `Authorization` header, as a middleware around every route.
pub trait WithHttpAuth {
    /// Lets a request pass only with a user name and a password that `verify_password`
    /// accepts.
    fn with_basic_auth<F: Fn(&str, &str) -> bool + Send + Sync + 'static>(
        &mut self,
        verify_password: F,
    ) -> (r: std::result::Result<&mut Self, ServerError>)
        requires
            forall|username: &str, password: &str| call_requires(verify_password, (username, password)),
    ;

    /// Lets a request pass only with a token that `verify_token` accepts.
    fn with_token_auth<F: Fn(&str) -> bool + Send + Sync + 'static>(&mut self, verify_token: F) -> (r:
        std::result::Result<&mut Self, ServerError>)
        requires
            forall|token: &str| call_requires(verify_token, (token,)),
    ;
}

impl WithHttpAuth for Server {
    fn with_basic_auth<F: Fn(&str, &str) -> bool + Send + Sync + 'static>(
        &mut self,
        verify_password: F,
    ) -> (r: std::result::Result<&mut Self, ServerError>)
        ensures
            r matches Ok(server) ==> *final(self) == *final(server) && exists|
                m: AuthMiddleware<BasicAuthScheme<F>>,
            |
                m.scheme.check() == verify_password && #[trigger] installed(
                    *old(self),
                    *server,
                    m,
                ),
            r matches Err(e) ==> e == ServerError::Frozen && same_server(*old(self), *final(self)),
    {
        let m = AuthMiddleware::new(BasicAuthScheme::new(verify_password));
        let ghost added = m;
        assert(added.scheme.check() == verify_password);
        match self.with(m) {
            Ok(server) => {
                assert(installed(*old(self), *server, added));
                Ok(server)
            },
            Err(e) => Err(e),
        }
    }

    fn with_token_auth<F: Fn(&str) -> bool + Send + Sync + 'static>(&mut self, verify_token: F) -> (r:
        std::result::Result<&mut Self, ServerError>)
        ensures
            r matches Ok(server) ==> *final(self) == *final(server) && exists|
                m: AuthMiddleware<BearerAuthScheme<F>>,
            |
                m.scheme.check() == verify_token && #[trigger] installed(*old(self), *server, m),
            r matches Err(e) ==> e == ServerError::Frozen && same_server(*old(self), *final(self)),
    {
        let m = AuthMiddleware::new(BearerAuthScheme::new(verify_token));
        let ghost added = m;
        assert(added.scheme.check() == verify_token);
        match self.with(m) {
            Ok(server) => {
                assert(installed(*old(self), *server, added));
                Ok(server)
            },
            Err(e) => Err(e),
        }
    }
}

} // verus!
