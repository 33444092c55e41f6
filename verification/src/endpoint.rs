use vstd::prelude::*;
use crate::request::Request;
use crate::response::Result;

verus! {

/// What answers a request at the end of the chain.
///
/// `responds` says which outcomes a call may have; an implementation that promises nothing
/// lets it hold of every outcome.
pub trait Endpoint: Send + Sync + 'static {
    /// Whether `outcome` is one that `call` may hand back for `req`.
    open spec fn responds(&self, req: Request, outcome: Result) -> bool {
        true
    }

    /// Answers the request.
    fn call(&self, req: Request) -> (outcome: Result)
        ensures
            self.responds(req, outcome),
    ;
}

/// An endpoint made of a function.
pub struct FnEndpoint<F: Fn(Request) -> Result> {
    f: F,
}

impl<F: Fn(Request) -> Result> FnEndpoint<F> {
    #[verifier::type_invariant]
    spec fn total(self) -> bool {
        forall|req: Request| call_requires(self.f, (req,))
    }

    /// The function that is called.
    pub closed spec fn function(self) -> F {
        self.f
    }

    /// The endpoint that answers with what `f` returns. `f` has to take every request.
    pub fn new(f: F) -> (ep: FnEndpoint<F>)
        requires
            forall|req: Request| call_requires(f, (req,)),
        ensures
            ep.function() == f,
    {
        FnEndpoint { f }
    }
}

impl<F: Fn(Request) -> Result + Send + Sync + 'static> Endpoint for FnEndpoint<F> {
    open spec fn responds(&self, req: Request, outcome: Result) -> bool {
        call_ensures(self.function(), (req,), outcome)
    }

    fn call(&self, req: Request) -> (outcome: Result) {
        proof {
            use_type_invariant(self);
        }
        (self.f)(req)
    }
}

/// An endpoint of any kind behind one type.
pub struct DynEndpoint {
    inner: Box<dyn Endpoint>,
}

/// The endpoint as it is held behind [`DynEndpoint`].
pub struct Held<E> {
    pub endpoint: E,
}

impl<E: Endpoint> Endpoint for Held<E> {
    open spec fn responds(&self, req: Request, outcome: Result) -> bool {
        self.endpoint.responds(req, outcome)
    }

    fn call(&self, req: Request) -> (outcome: Result) {
        self.endpoint.call(req)
    }
}

impl DynEndpoint {
    /// Whether `outcome` is one that the endpoint may hand back for `req`.
    pub closed spec fn yields(&self, req: Request, outcome: Result) -> bool {
        self.inner.responds(req, outcome)
    }

    /// Puts an endpoint behind the common type; it answers as before.
    pub fn new<E: Endpoint>(endpoint: E) -> (d: DynEndpoint)
        ensures
            forall|req: Request, outcome: Result| #[trigger]
                d.yields(req, outcome) <==> endpoint.responds(req, outcome),
    {
        DynEndpoint { inner: Box::new(Held { endpoint }) }
    }
}

impl Endpoint for DynEndpoint {
    open spec fn responds(&self, req: Request, outcome: Result) -> bool {
        self.yields(req, outcome)
    }

    fn call(&self, req: Request) -> (outcome: Result) {
        self.inner.call(req)
    }
}

} // verus!
