use vstd::prelude::*;
use crate::endpoint::Endpoint;
use crate::request::Request;
use crate::response::{Response, ResponseView, Result};
use crate::status::StatusCode;

verus! {

/// An endpoint that sends the client to another location.
#[derive(Debug, Clone)]
pub struct Redirect {
    pub status: StatusCode,
    pub location: String,
}

/// The response that sends the client to `location` with the given status.
pub open spec fn redirection(status: StatusCode, location: Seq<char>) -> ResponseView {
    ResponseView { headers: seq![("location"@, location)], ..ResponseView::bare(status) }
}

impl Redirect {
    /// A redirect with status 302, `Found`.
    pub fn new(location: &str) -> (r: Redirect)
        ensures
            r.status == StatusCode::Found,
            r.location@ == location@,
    {
        Redirect { status: StatusCode::Found, location: location.to_owned() }
    }

    /// A redirect with status 308, `Permanent Redirect`.
    pub fn permanent(location: &str) -> (r: Redirect)
        ensures
            r.status == StatusCode::PermanentRedirect,
            r.location@ == location@,
    {
        Redirect { status: StatusCode::PermanentRedirect, location: location.to_owned() }
    }

    /// A redirect with status 307, `Temporary Redirect`.
    pub fn temporary(location: &str) -> (r: Redirect)
        ensures
            r.status == StatusCode::TemporaryRedirect,
            r.location@ == location@,
    {
        Redirect { status: StatusCode::TemporaryRedirect, location: location.to_owned() }
    }

    /// A redirect with status 303, `See Other`.
    pub fn see_other(location: &str) -> (r: Redirect)
        ensures
            r.status == StatusCode::SeeOther,
            r.location@ == location@,
    {
        Redirect { status: StatusCode::SeeOther, location: location.to_owned() }
    }

    /// The response of the redirect: its status, and its location as the `Location` header.
    pub fn response(&self) -> (res: Response)
        ensures
            res@ == redirection(self.status, self.location@),
    {
        let mut res = Response::new(self.status);
        res.append_header("location", self.location.as_str());
        assert(res@.headers =~= seq![("location"@, self.location@)]);
        res
    }
}

impl Endpoint for Redirect {
    /// Every request gets the response of the redirect.
    open spec fn responds(&self, req: Request, outcome: Result) -> bool {
        outcome matches Ok(res) && res@ == redirection(self.status, self.location@)
    }

    fn call(&self, req: Request) -> (outcome: Result) {
        Ok(self.response())
    }
}

impl From<Redirect> for Response {
    /// The response of the redirect.
    fn from(redirect: Redirect) -> (r: Response)
        ensures
            r@ == redirection(redirect.status, redirect.location@),
    {
        redirect.response()
    }
}

impl vstd::std_specs::convert::FromSpecImpl<Redirect> for Response {
    open spec fn obeys_from_spec() -> bool {
        false
    }

    open spec fn from_spec(redirect: Redirect) -> Response {
        arbitrary()
    }
}

} // verus!
