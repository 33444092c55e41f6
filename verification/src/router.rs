use vstd::prelude::*;
use routefinder::Router as PathTable;
use crate::captures::{Captures, CapturesView};
use crate::endpoint::{DynEndpoint, Endpoint};
use crate::method::Method;
use crate::request::Request;
use crate::response::{Response, ResponseView, Result};
use crate::status::StatusCode;
use crate::text::{chars_of, same_chars, trim, trimmed};

verus! {

/// `routefinder::Router`: a table of path patterns, each with a handler.
#[verifier::external_type_specification]
#[verifier::external_body]
#[verifier::reject_recursive_types(Handler)]
pub struct ExPathTable<Handler>(PathTable<Handler>);

/// The routes that were added to a table, in the order in which they were added, each as
/// its pattern and the number that stands for its endpoint.
///
/// This is the history of the table, not the order in which it holds its routes: the table
/// keeps them in a map that it walks in its own order of preference. Every route that was
/// added is still one of its entries, because the comparison of two routes never finds them
/// equal, so that adding a route never takes the place of another.
pub uninterp spec fn table_routes(table: PathTable<usize>) -> Seq<(Seq<char>, usize)>;

/// What the route of `pattern` captures from `path`, or `None` where the route does not
/// match the path: `RouteSpec::matches`, with the captures named as `Match::captures` does.
pub uninterp spec fn pattern_captures(pattern: Seq<char>, path: Seq<char>) -> Option<
    CapturesView,
>;

/// The position, in the order of adding, of the route that `Router::best_match` prefers for
/// `path` among the routes of these patterns, or `None` where none of them matches.
pub uninterp spec fn best_route(patterns: Seq<Seq<char>>, path: Seq<char>) -> Option<int>;

/// The patterns of a list of routes.
pub open spec fn patterns_of(routes: Seq<(Seq<char>, usize)>) -> Seq<Seq<char>> {
    Seq::new(routes.len(), |i: int| routes[i].0)
}

/// The match that a table of these routes finds for `path`: the handler of the preferred
/// route and what that route captures.
pub open spec fn best_in(routes: Seq<(Seq<char>, usize)>, path: Seq<char>) -> Option<
    (usize, CapturesView),
> {
    match best_route(patterns_of(routes), path) {
        Some(i) => if 0 <= i < routes.len() {
            Some((routes[i].1, pattern_captures(routes[i].0, path)->0))
        } else {
            None
        },
        None => None,
    }
}

/// Whether the preferred route is one of the routes, and one that matches the path.
pub open spec fn preferred_matches(routes: Seq<(Seq<char>, usize)>, path: Seq<char>) -> bool {
    best_route(patterns_of(routes), path) matches Some(i) ==> 0 <= i < routes.len()
        && pattern_captures(routes[i].0, path) is Some
}

/// Whether none of the routes matches the path.
pub open spec fn none_matches(routes: Seq<(Seq<char>, usize)>, path: Seq<char>) -> bool {
    forall|i: int|
        0 <= i < routes.len() ==> (#[trigger] pattern_captures(routes[i].0, path)) is None
}

/// Whether the match that a table of these routes finds for the path is true to the
/// routes: the route of the match is one that matches the path, and where the table finds
/// no match, none of the routes matches.
pub open spec fn truthful(routes: Seq<(Seq<char>, usize)>, path: Seq<char>) -> bool {
    if best_in(routes, path) is Some {
        pattern_captures(routes[best_route(patterns_of(routes), path)->0].0, path) is Some
    } else {
        none_matches(routes, path)
    }
}

/// Whether each of the routes is well formed.
pub open spec fn all_well_formed(routes: Seq<(Seq<char>, usize)>) -> bool {
    forall|i: int| 0 <= i < routes.len() ==> well_formed((#[trigger] routes[i]).0)
}

/// Whether `c` ends a section of a pattern.
pub open spec fn is_separator(c: char) -> bool {
    c == '.' || c == '/'
}

/// Whether a section of the pattern starts at `i`.
pub open spec fn section_starts(pattern: Seq<char>, i: int) -> bool {
    0 <= i < pattern.len() && (i == 0 || is_separator(pattern[i - 1]))
}

/// Whether only slashes follow position `i`.
pub open spec fn only_slashes_after(pattern: Seq<char>, i: int) -> bool {
    forall|j: int| i < j < pattern.len() ==> pattern[j] == '/'
}

/// Whether every character of the text is an ASCII character.
pub open spec fn all_ascii(text: Seq<char>) -> bool {
    forall|i: int| 0 <= i < text.len() ==> ((#[trigger] text[i]) as u32) < 128
}

/// Whether a pattern can be registered: it is made of ASCII characters; a section that
/// starts with `*` is the whole last section, so the wildcard has no name and nothing
/// follows it; and a section that starts with `:` goes on with the name of the parameter.
///
/// The table finds the sections of a pattern by counting bytes where it means characters,
/// so after a character outside ASCII it would no longer see where a section starts.
pub open spec fn well_formed(pattern: Seq<char>) -> bool {
    &&& all_ascii(pattern)
    &&& forall|i: int| #[trigger]
        section_starts(pattern, i) ==> {
            &&& pattern[i] == '*' ==> only_slashes_after(pattern, i)
            &&& pattern[i] == ':' ==> i + 1 < pattern.len() && !is_separator(pattern[i + 1])
        }
}

/// Whether the character at `i` is part of the name of a parameter: it stands after the `:`
/// that starts a section, before the separator that ends the section.
pub open spec fn in_name(pattern: Seq<char>, i: int) -> bool
    decreases i,
{
    if i <= 0 || i >= pattern.len() || is_separator(pattern[i]) {
        false
    } else {
        (pattern[i - 1] == ':' && section_starts(pattern, i - 1)) || in_name(pattern, i - 1)
    }
}

/// The first `n` characters of a pattern without the names of its parameters.
pub open spec fn nameless(pattern: Seq<char>, n: int) -> Seq<char>
    decreases n,
{
    if n <= 0 {
        Seq::empty()
    } else if in_name(pattern, n - 1) {
        nameless(pattern, n - 1)
    } else {
        nameless(pattern, n - 1).push(pattern[n - 1])
    }
}

/// The shape of a pattern: the pattern without the slashes at its start and at its end and
/// without the names of its parameters. Two patterns of one shape match the same paths.
pub open spec fn shape(pattern: Seq<char>) -> Seq<char> {
    nameless(trimmed(pattern, '/'), trimmed(pattern, '/').len() as int)
}

/// Whether one of the routes has the shape `s`.
pub open spec fn has_shape(routes: Seq<(Seq<char>, usize)>, s: Seq<char>) -> bool {
    exists|i: int| 0 <= i < routes.len() && shape((#[trigger] routes[i]).0) == s
}

/// Whether a pattern conflicts with the routes: one of them has its shape, so it is the
/// same pattern, or differs from it only in the slashes at its ends or in the names of its
/// parameters, and would leave open which of the two answers a request.
pub open spec fn conflicts(routes: Seq<(Seq<char>, usize)>, pattern: Seq<char>) -> bool {
    has_shape(routes, shape(pattern))
}

/// The shape of a pattern.
pub fn shape_of(pattern: &str) -> (s: Vec<char>)
    ensures
        s@ == shape(pattern@),
{
    let chars = chars_of(pattern);
    let t = trim(&chars, '/');
    let mut s: Vec<char> = Vec::new();
    let mut naming = false;
    let mut i: usize = 0;
    while i < t.len()
        invariant
            i <= t.len(),
            s@ == nameless(t@, i as int),
            naming == (i > 0 && ((t@[i - 1] == ':' && section_starts(t@, i - 1)) || in_name(
                t@,
                i - 1,
            ))),
        decreases t.len() - i,
    {
        let c = t[i];
        let separator = c == '.' || c == '/';
        let starts = i == 0 || t[i - 1] == '.' || t[i - 1] == '/';
        let inside = !separator && naming;
        assert(inside == in_name(t@, i as int));
        if !inside {
            s.push(c);
        }
        naming = (c == ':' && starts) || inside;
        i += 1;
    }
    s
}

/// `Router::new`: a table without routes.
#[verifier::external_body]
fn table_new() -> (table: PathTable<usize>)
    ensures
        table_routes(table).len() == 0,
{
    PathTable::new()
}

/// `Router::add`: the route is one more entry of the table. The crate refuses a pattern
/// with a named wildcard or an unnamed parameter, and no other; a refused pattern leaves
/// the table as it was.
#[verifier::external_body]
fn table_add(table: &mut PathTable<usize>, pattern: &str, handler: usize) -> (added:
    bool)
    ensures
        well_formed(pattern@) ==> added,
        added ==> table_routes(*final(table)) == table_routes(*old(table)).push(
            (pattern@, handler),
        ),
        !added ==> table_routes(*final(table)) == table_routes(*old(table)),
{
    table.add(pattern, handler).is_ok()
}

/// `Router::best_match`, with the captures of the match as owned texts: the handler of the
/// route that the crate prefers among those that match, and what that route captures.
///
/// The crate panics on a route in which something follows the wildcard, or in which a
/// parameter is followed by anything but a slash, a dot or the end. The first is ruled out
/// by the rule on `*`; the second arises only from a pattern with a character outside
/// ASCII. So every route of the table has to be well formed.
#[verifier::external_body]
fn table_best_match(table: &PathTable<usize>, path: &str) -> (found: Option<
    (usize, Captures),
>)
    requires
        all_well_formed(table_routes(*table)),
    ensures
        found is Some <==> best_route(patterns_of(table_routes(*table)), path@) is Some,
        found is Some ==> preferred_matches(table_routes(*table), path@),
        found matches Some(m) ==> best_in(table_routes(*table), path@) == Some((m.0, m.1@)),
        found is None ==> forall|i: int|
            0 <= i < table_routes(*table).len() ==> (#[trigger] pattern_captures(
                table_routes(*table)[i].0,
                path@,
            )) is None,
{
    let m = table.best_match(path)?;
    let c = m.captures();
    let params = c.params().iter().map(|p| (p.name().to_string(), p.value().to_string()));
    Some((*m.handler(), Captures { params: params.collect(), wildcard: c.wildcard().map(String::from) }))
}

/// The endpoint that answers a request for which there is no route.
pub struct NotFoundEndpoint;

impl Endpoint for NotFoundEndpoint {
    open spec fn responds(&self, req: Request, outcome: Result) -> bool {
        outcome matches Ok(res) && res@ == ResponseView::bare(StatusCode::NotFound)
    }

    fn call(&self, req: Request) -> (outcome: Result) {
        Ok(Response::new(StatusCode::NotFound))
    }
}

/// The endpoint that answers a request whose path has a route under another method only.
pub struct MethodNotAllowedEndpoint;

impl Endpoint for MethodNotAllowedEndpoint {
    open spec fn responds(&self, req: Request, outcome: Result) -> bool {
        outcome matches Ok(res) && res@ == ResponseView::bare(StatusCode::MethodNotAllowed)
    }

    fn call(&self, req: Request) -> (outcome: Result) {
        Ok(Response::new(StatusCode::MethodNotAllowed))
    }
}

/// Why a route was not registered.
#[derive(Clone, Copy, Debug, PartialEq, Eq, Structural)]
pub enum RouteError {
    /// The pattern has a character outside ASCII, a wildcard that is named or is not its
    /// last section, or a parameter without a name.
    MalformedPattern,
    /// The pattern has the shape of a route that is registered for the same requests.
    Conflict,
}

/// What a router makes of a path and a method.
pub enum Routed {
    /// A route matches: the number of its endpoint and what the route captured.
    Found { handler: usize, params: CapturesView },
    /// No route of the method matches, but one of another method does.
    MethodNotAllowed,
    /// No route matches.
    NotFound,
}

/// The endpoint that a router chose for a request, with what the route captured.
pub struct Selection<'a> {
    pub endpoint: &'a DynEndpoint,
    pub params: Captures,
}

/// The routes of the first table that is held for `method`.
pub open spec fn routes_in(
    map: Seq<(Method, PathTable<usize>)>,
    method: Method,
) -> Seq<(Seq<char>, usize)>
    decreases map.len(),
{
    if map.len() == 0 {
        Seq::empty()
    } else if map[0].0 == method {
        table_routes(map[0].1)
    } else {
        routes_in(map.drop_first(), method)
    }
}

/// Whether each of the routes is well formed and names one of the first `count` endpoints.
pub open spec fn sound(routes: Seq<(Seq<char>, usize)>, count: nat) -> bool {
    forall|i: int|
        0 <= i < routes.len() ==> well_formed((#[trigger] routes[i]).0) && routes[i].1 < count
}

/// Routes that are sound stay so where there are more endpoints.
proof fn lemma_sound_grows(routes: Seq<(Seq<char>, usize)>, fewer: nat, more: nat)
    requires
        sound(routes, fewer),
        fewer <= more,
    ensures
        sound(routes, more),
        all_well_formed(routes),
{
    assert forall|i: int| 0 <= i < routes.len() implies well_formed((#[trigger] routes[i]).0)
        && routes[i].1 < more by {
        assert(well_formed(routes[i].0) && routes[i].1 < fewer);
    }
}

/// Routes that are sound stay so with one more route that is.
proof fn lemma_sound_push(
    routes: Seq<(Seq<char>, usize)>,
    pattern: Seq<char>,
    handler: usize,
    count: nat,
)
    requires
        sound(routes, count),
        well_formed(pattern),
        handler < count,
    ensures
        sound(routes.push((pattern, handler)), count),
{
    let longer = routes.push((pattern, handler));
    assert forall|i: int| 0 <= i < longer.len() implies well_formed((#[trigger] longer[i]).0)
        && longer[i].1 < count by {
        if i < routes.len() {
            assert(longer[i] == routes[i]);
        }
    }
}

/// Routes by method and path pattern: one table of patterns for each method, and one for
/// the endpoints that answer every method. The tables of the methods stand in a list in
/// which no method occurs twice.
pub struct Router {
    method_map: Vec<(Method, PathTable<usize>)>,
    all_method_router: PathTable<usize>,
    /// The shape of each route, with the method of the route, or `None` for a route for
    /// every method.
    taken: Vec<(Option<Method>, Vec<char>)>,
    endpoints: Vec<DynEndpoint>,
    not_found: DynEndpoint,
    method_not_allowed: DynEndpoint,
}

impl Router {
    /// The routes registered under `method`, in the order of registration.
    pub closed spec fn routes_for(&self, method: Method) -> Seq<(Seq<char>, usize)> {
        routes_in(self.method_map@, method)
    }

    /// The routes registered for every method, in the order of registration.
    pub closed spec fn all_routes(&self) -> Seq<(Seq<char>, usize)> {
        table_routes(self.all_method_router)
    }

    /// The registered endpoints; a route names its endpoint by the position in this list.
    pub closed spec fn endpoints(&self) -> Seq<DynEndpoint> {
        self.endpoints@
    }

    /// The endpoint that answers where no route matches.
    pub closed spec fn not_found(&self) -> DynEndpoint {
        self.not_found
    }

    /// The endpoint that answers where only a route of another method matches.
    pub closed spec fn method_not_allowed(&self) -> DynEndpoint {
        self.method_not_allowed
    }

    /// Whether the two endpoints for requests without a route answer 404 and 405.
    pub open spec fn sentinels(&self) -> bool {
        &&& forall|req: Request, outcome: Result| #[trigger]
            self.not_found().yields(req, outcome) <==> NotFoundEndpoint.responds(req, outcome)
        &&& forall|req: Request, outcome: Result| #[trigger]
            self.method_not_allowed().yields(req, outcome) <==> MethodNotAllowedEndpoint.responds(
                req,
                outcome,
            )
    }

    /// The routes that answer the requests of a kind: those of a method, or those for
    /// every method.
    pub open spec fn routes_of(&self, kind: Option<Method>) -> Seq<(Seq<char>, usize)> {
        match kind {
            Some(method) => self.routes_for(method),
            None => self.all_routes(),
        }
    }

    /// Whether the shape `s` is recorded as taken for the requests of a kind.
    pub closed spec fn records(&self, kind: Option<Method>, s: Seq<char>) -> bool {
        exists|t: int|
            0 <= t < self.taken@.len() && (#[trigger] self.taken@[t]).0 == kind
                && self.taken@[t].1@ == s
    }

    /// The invariant of a router: no method has two tables, every route is well formed and
    /// names a registered endpoint, the shapes that are recorded as taken are those of the
    /// routes, and the two endpoints for requests without a route answer 404 and 405.
    pub closed spec fn wf(&self) -> bool {
        &&& forall|kind: Option<Method>, s: Seq<char>|
            #![trigger self.records(kind, s)]
            self.records(kind, s) <==> has_shape(self.routes_of(kind), s)
        &&& forall|i: int, j: int|
            0 <= i < j < self.method_map@.len() ==> self.method_map@[i].0
                != self.method_map@[j].0
        &&& forall|k: int|
            0 <= k < self.method_map@.len() ==> sound(
                #[trigger] table_routes(self.method_map@[k].1),
                self.endpoints@.len(),
            )
        &&& sound(self.all_routes(), self.endpoints@.len())
        &&& forall|req: Request, outcome: Result| #[trigger]
            self.not_found.yields(req, outcome) <==> NotFoundEndpoint.responds(req, outcome)
        &&& forall|req: Request, outcome: Result| #[trigger]
            self.method_not_allowed.yields(req, outcome) <==> MethodNotAllowedEndpoint.responds(
                req,
                outcome,
            )
    }

    /// The match for `path` among the routes of `method`, or else among the routes for every
    /// method.
    pub open spec fn direct(&self, path: Seq<char>, method: Method) -> Option<
        (usize, CapturesView),
    > {
        if best_in(self.routes_for(method), path) is Some {
            best_in(self.routes_for(method), path)
        } else {
            best_in(self.all_routes(), path)
        }
    }

    /// Whether a route of a method other than `method` matches `path`.
    pub open spec fn other_method_matches(&self, path: Seq<char>, method: Method) -> bool {
        exists|other: Method|
            other != method && (#[trigger] best_in(self.routes_for(other), path)) is Some
    }

    /// What becomes of a request for which `direct` finds nothing.
    pub open spec fn unmatched(&self, path: Seq<char>, method: Method) -> Routed {
        if self.other_method_matches(path, method) {
            Routed::MethodNotAllowed
        } else {
            Routed::NotFound
        }
    }

    /// What the router makes of `path` and `method`: the direct match; for `HEAD` without
    /// one, what it makes of the path under `GET`; else 405 where another method has a
    /// matching route, and 404 where none has.
    pub open spec fn resolve(&self, path: Seq<char>, method: Method) -> Routed {
        match self.direct(path, method) {
            Some(m) => Routed::Found { handler: m.0, params: m.1 },
            None => if method == Method::Head {
                match self.direct(path, Method::Get) {
                    Some(m) => Routed::Found { handler: m.0, params: m.1 },
                    None => self.unmatched(path, Method::Get),
                }
            } else {
                self.unmatched(path, method)
            },
        }
    }

    /// Whether no route of the router matches the path.
    pub open spec fn nothing_matches(&self, path: Seq<char>) -> bool {
        &&& none_matches(self.all_routes(), path)
        &&& forall|m: Method| none_matches(#[trigger] self.routes_for(m), path)
    }

    /// Whether what the router makes of `path` and `method` is true to its routes: each
    /// match that it went by is a route that matches the path, a table in which it found
    /// no match has no route that matches, 405 means that a route of another method
    /// matches, and 404 that no route of the router does.
    pub open spec fn faithful(&self, path: Seq<char>, method: Method) -> bool {
        &&& truthful(self.routes_for(method), path)
        &&& best_in(self.routes_for(method), path) is None ==> truthful(self.all_routes(), path)
        &&& method == Method::Head && self.direct(path, method) is None ==> truthful(
            self.routes_for(Method::Get),
            path,
        )
        &&& self.resolve(path, method) is MethodNotAllowed ==> exists|other: Method|
            other != method && (#[trigger] best_in(self.routes_for(other), path)) is Some
                && truthful(self.routes_for(other), path)
        &&& self.resolve(path, method) is NotFound ==> self.nothing_matches(path)
    }

    /// Whether `selection` is what `routed` asks for.
    pub open spec fn selects(&self, routed: Routed, selection: Selection<'_>) -> bool {
        match routed {
            Routed::Found { handler, params } => handler < self.endpoints().len()
                && *selection.endpoint == self.endpoints()[handler as int] && selection.params@
                == params,
            Routed::MethodNotAllowed => *selection.endpoint == self.method_not_allowed()
                && selection.params@ == CapturesView::empty(),
            Routed::NotFound => *selection.endpoint == self.not_found() && selection.params@
                == CapturesView::empty(),
        }
    }

    /// The two endpoints for requests without a route answer 404 and 405.
    pub proof fn lemma_sentinels(self)
        requires
            self.wf(),
        ensures
            self.sentinels(),
    {
    }

    /// A router without routes.
    pub fn new() -> (r: Router)
        ensures
            r.wf(),
            r.endpoints().len() == 0,
            r.all_routes().len() == 0,
            forall|m: Method| (#[trigger] r.routes_for(m)).len() == 0,
    {
        Router {
            method_map: Vec::new(),
            all_method_router: table_new(),
            taken: Vec::new(),
            endpoints: Vec::new(),
            not_found: DynEndpoint::new(NotFoundEndpoint),
            method_not_allowed: DynEndpoint::new(MethodNotAllowedEndpoint),
        }
    }

    /// Tells whether the shape is recorded as taken for the requests of a kind.
    fn is_taken(&self, kind: Option<Method>, s: &Vec<char>) -> (r: bool)
        ensures
            r == self.records(kind, s@),
    {
        let mut t: usize = 0;
        while t < self.taken.len()
            invariant
                t <= self.taken.len(),
                forall|u: int|
                    0 <= u < t ==> !((#[trigger] self.taken@[u]).0 == kind && self.taken@[u].1@
                        == s@),
            decreases self.taken.len() - t,
        {
            let same_kind = match (self.taken[t].0, kind) {
                (Some(a), Some(b)) => a == b,
                (None, None) => true,
                _ => false,
            };
            if same_kind && same_chars(&self.taken[t].1, s) {
                return true;
            }
            t += 1;
        }
        false
    }

    /// Registers `endpoint` for requests of `method` whose path matches `pattern`. The
    /// route comes after the routes that the method has. A malformed pattern is refused,
    /// and so is one that conflicts with a route of the method; both leave the router as
    /// it was.
    pub fn add(&mut self, pattern: &str, method: Method, endpoint: DynEndpoint) -> (r:
        std::result::Result<(), RouteError>)
        requires
            old(self).wf(),
            old(self).endpoints().len() < usize::MAX,
        ensures
            final(self).wf(),
            final(self).all_routes() == old(self).all_routes(),
            final(self).not_found() == old(self).not_found(),
            final(self).method_not_allowed() == old(self).method_not_allowed(),
            r is Ok <==> well_formed(pattern@) && !conflicts(old(self).routes_for(method), pattern@),
            r == Err::<(), RouteError>(RouteError::MalformedPattern) <==> !well_formed(pattern@),
            r == Err::<(), RouteError>(RouteError::Conflict) <==> well_formed(pattern@)
                && conflicts(old(self).routes_for(method), pattern@),
            r is Err ==> final(self).endpoints() == old(self).endpoints() && forall|m: Method|
                #[trigger] final(self).routes_for(m) == old(self).routes_for(m),
            r is Ok ==> final(self).endpoints() == old(self).endpoints().push(endpoint)
                && final(self).routes_for(method) == old(self).routes_for(method).push(
                (pattern@, old(self).endpoints().len() as usize),
            ) && forall|m: Method|
                m != method ==> #[trigger] final(self).routes_for(m) == old(self).routes_for(m),
    {
        if !is_well_formed(pattern) {
            return Err(RouteError::MalformedPattern);
        }
        let s = shape_of(pattern);
        if self.is_taken(Some(method), &s) {
            return Err(RouteError::Conflict);
        }
        let k = self.position(method);
        let handler: usize = self.endpoints.len();
        self.endpoints.push(endpoint);
        if k == self.method_map.len() {
            self.method_map.push((method, table_new()));
        }
        let ghost map0 = self.method_map@;
        let (m, mut table) = self.method_map.remove(k);
        let added = table_add(&mut table, pattern, handler);
        self.method_map.insert(k, (m, table));
        self.taken.push((Some(method), s));
        proof {
            let map1 = self.method_map@;
            assert(added);
            assert(map1.len() == map0.len());
            assert(self.endpoints@ == old(self).endpoints@.push(endpoint));
            let count = self.endpoints@.len();
            assert forall|j: int| 0 <= j < map1.len() implies sound(
                #[trigger] table_routes(map1[j].1),
                count,
            ) by {
                if j != k {
                    assert(map1[j] == map0[j]);
                    assert(map0[j] == old(self).method_map@[j]);
                    lemma_sound_grows(
                        table_routes(old(self).method_map@[j].1),
                        old(self).endpoints@.len(),
                        count,
                    );
                } else {
                    let earlier = table_routes(map0[k as int].1);
                    if k < old(self).method_map@.len() {
                        assert(map0[k as int] == old(self).method_map@[k as int]);
                        lemma_sound_grows(earlier, old(self).endpoints@.len(), count);
                    }
                    lemma_sound_push(earlier, pattern@, handler, count);
                }
            }
            lemma_sound_grows(old(self).all_routes(), old(self).endpoints@.len(), count);
            assert(forall|j: int| 0 <= j < map1.len() && j != k ==> map1[j] == map0[j]);
            assert(map1[k as int].0 == method);
            lemma_routes_in_at(map0, method, k as int);
            lemma_routes_in_at(map1, method, k as int);
            lemma_routes_in_at(old(self).method_map@, method, k as int);
            assert forall|other: Method| other != method implies #[trigger] routes_in(
                map1,
                other,
            ) == routes_in(old(self).method_map@, other) by {
                lemma_routes_in_other(old(self).method_map@, map1, method, other, k as int);
            }
            assert((*self).routes_for(method) == old(self).routes_for(method).push(
                (pattern@, handler),
            ));
            assert forall|other: Option<Method>| other != Some(method) implies #[trigger] (
            *self).routes_of(other) == old(self).routes_of(other) by {
                match other {
                    Some(m) => {
                        assert(routes_in(map1, m) == routes_in(old(self).method_map@, m));
                    },
                    None => {},
                }
            }
            old(self).lemma_recorded(*self, Some(method), pattern@, handler);
        }
        Ok(())
    }

    /// Registers `endpoint` for requests of every method whose path matches `pattern`. A
    /// route of the request's own method is preferred to it. A malformed pattern is
    /// refused, and so is one that conflicts with a route for every method; both leave the
    /// router as it was.
    pub fn add_all(&mut self, pattern: &str, endpoint: DynEndpoint) -> (r: std::result::Result<
        (),
        RouteError,
    >)
        requires
            old(self).wf(),
            old(self).endpoints().len() < usize::MAX,
        ensures
            final(self).wf(),
            final(self).not_found() == old(self).not_found(),
            final(self).method_not_allowed() == old(self).method_not_allowed(),
            forall|m: Method| #[trigger] final(self).routes_for(m) == old(self).routes_for(m),
            r is Ok <==> well_formed(pattern@) && !conflicts(old(self).all_routes(), pattern@),
            r == Err::<(), RouteError>(RouteError::MalformedPattern) <==> !well_formed(pattern@),
            r == Err::<(), RouteError>(RouteError::Conflict) <==> well_formed(pattern@)
                && conflicts(old(self).all_routes(), pattern@),
            r is Err ==> final(self).endpoints() == old(self).endpoints(),
            r is Err ==> final(self).all_routes() == old(self).all_routes(),
            r is Ok ==> final(self).endpoints() == old(self).endpoints().push(endpoint)
                && final(self).all_routes() == old(self).all_routes().push(
                (pattern@, old(self).endpoints().len() as usize),
            ),
    {
        if !is_well_formed(pattern) {
            return Err(RouteError::MalformedPattern);
        }
        let s = shape_of(pattern);
        if self.is_taken(None, &s) {
            return Err(RouteError::Conflict);
        }
        let handler: usize = self.endpoints.len();
        self.endpoints.push(endpoint);
        let added = table_add(&mut self.all_method_router, pattern, handler);
        self.taken.push((None, s));
        proof {
            let count = self.endpoints@.len();
            let earlier = old(self).all_routes();
            lemma_sound_grows(earlier, old(self).endpoints@.len(), count);
            lemma_sound_push(earlier, pattern@, handler, count);
            assert forall|j: int| 0 <= j < self.method_map@.len() implies sound(
                #[trigger] table_routes(self.method_map@[j].1),
                count,
            ) by {
                lemma_sound_grows(
                    table_routes(self.method_map@[j].1),
                    old(self).endpoints@.len(),
                    count,
                );
            }
            old(self).lemma_recorded(*self, None, pattern@, handler);
        }
        Ok(())
    }

    /// Where a router gets one more route for the requests of a kind, and records the shape
    /// of its pattern, the shapes that are recorded are again those of the routes.
    proof fn lemma_recorded(
        self,
        after: Router,
        kind: Option<Method>,
        pattern: Seq<char>,
        handler: usize,
    )
        requires
            forall|other: Option<Method>, s: Seq<char>|
                #![trigger self.records(other, s)]
                self.records(other, s) <==> has_shape(self.routes_of(other), s),
            after.routes_of(kind) == self.routes_of(kind).push((pattern, handler)),
            forall|other: Option<Method>|
                other != kind ==> #[trigger] after.routes_of(other) == self.routes_of(other),
            after.taken@.len() == self.taken@.len() + 1,
            forall|t: int| 0 <= t < self.taken@.len() ==> after.taken@[t] == self.taken@[t],
            after.taken@.last().0 == kind,
            after.taken@.last().1@ == shape(pattern),
        ensures
            forall|other: Option<Method>, s: Seq<char>|
                #![trigger after.records(other, s)]
                after.records(other, s) <==> has_shape(after.routes_of(other), s),
    {
        assert forall|other: Option<Method>, s: Seq<char>|
            #![trigger after.records(other, s)]
            after.records(other, s) <==> has_shape(after.routes_of(other), s) by {
            let before_routes = self.routes_of(other);
            let after_routes = after.routes_of(other);
            if after.records(other, s) {
                let t = choose|t: int|
                    0 <= t < after.taken@.len() && (#[trigger] after.taken@[t]).0 == other
                        && after.taken@[t].1@ == s;
                if t < self.taken@.len() {
                    assert(self.taken@[t] == after.taken@[t]);
                    assert(self.records(other, s));
                    let i = choose|i: int|
                        0 <= i < before_routes.len() && shape((#[trigger] before_routes[i]).0)
                            == s;
                    if other == kind {
                        assert(after_routes[i] == before_routes[i]);
                    }
                    assert(shape(after_routes[i].0) == s);
                } else {
                    assert(other == kind);
                    assert(after_routes[after_routes.len() - 1] == (pattern, handler));
                    assert(shape(after_routes[after_routes.len() - 1].0) == s);
                }
            }
            if has_shape(after_routes, s) {
                let i = choose|i: int|
                    0 <= i < after_routes.len() && shape((#[trigger] after_routes[i]).0) == s;
                if other == kind && i == before_routes.len() {
                    assert(after.taken@[after.taken@.len() - 1].0 == other);
                    assert(after.records(other, s));
                } else {
                    assert(before_routes[i] == after_routes[i]);
                    assert(has_shape(before_routes, s));
                    assert(self.records(other, s));
                    let t = choose|t: int|
                        0 <= t < self.taken@.len() && (#[trigger] self.taken@[t]).0 == other
                            && self.taken@[t].1@ == s;
                    assert(after.taken@[t] == self.taken@[t]);
                    assert(after.records(other, s));
                }
            }
        }
    }

    /// Chooses the endpoint for a request: the best match among the routes of the method;
    /// else among the routes for every method; for `HEAD`, else the choice for `GET`; else
    /// the endpoint that answers 405 where a route of another method matches the path, and
    /// the one that answers 404 where none does.
    pub fn route(&self, path: &str, method: Method) -> (selection: Selection<'_>)
        requires
            self.wf(),
        ensures
            self.selects(self.resolve(path@, method), selection),
            self.faithful(path@, method),
    {
        match self.find(path, method) {
            Some(selection) => selection,
            None => {
                if method == Method::Head {
                    match self.find(path, Method::Get) {
                        Some(selection) => selection,
                        None => {
                            let selection = self.fallback(path, Method::Get);
                            proof {
                                self.lemma_unmatched(path@, Method::Head, Method::Get);
                            }
                            selection
                        },
                    }
                } else {
                    let selection = self.fallback(path, method);
                    proof {
                        self.lemma_unmatched(path@, method, method);
                    }
                    selection
                }
            },
        }
    }

    /// Where the tables of `method`, of `tried` and for every method have no route that
    /// matches, and no other method than `tried` has one, no route of the router matches.
    proof fn lemma_unmatched(self, path: Seq<char>, method: Method, tried: Method)
        requires
            none_matches(self.routes_for(method), path),
            none_matches(self.routes_for(tried), path),
            none_matches(self.all_routes(), path),
            self.unmatched(path, tried) is NotFound ==> forall|other: Method|
                other != tried ==> none_matches(#[trigger] self.routes_for(other), path),
        ensures
            self.unmatched(path, tried) is NotFound ==> self.nothing_matches(path),
    {
        if self.unmatched(path, tried) is NotFound {
            assert forall|m: Method| none_matches(#[trigger] self.routes_for(m), path) by {
                if m != tried {
                    assert(none_matches(self.routes_for(m), path));
                }
            }
        }
    }

    /// The position of the table that is held for `method`.
    fn position(&self, method: Method) -> (k: usize)
        ensures
            k <= self.method_map@.len(),
            forall|j: int| 0 <= j < k ==> self.method_map@[j].0 != method,
            k < self.method_map@.len() ==> self.method_map@[k as int].0 == method,
    {
        let mut k: usize = 0;
        while k < self.method_map.len()
            invariant
                k <= self.method_map.len(),
                forall|j: int| 0 <= j < k ==> self.method_map@[j].0 != method,
            ensures
                k <= self.method_map.len(),
                forall|j: int| 0 <= j < k ==> self.method_map@[j].0 != method,
                k < self.method_map.len() ==> self.method_map@[k as int].0 == method,
            decreases self.method_map.len() - k,
        {
            if self.method_map[k].0 == method {
                break;
            }
            k += 1;
        }
        k
    }

    /// The direct match for the request.
    fn find(&self, path: &str, method: Method) -> (found: Option<Selection<'_>>)
        requires
            self.wf(),
        ensures
            found is Some <==> self.direct(path@, method) is Some,
            found matches Some(selection) ==> self.direct(path@, method) matches Some(m)
                && self.selects(Routed::Found { handler: m.0, params: m.1 }, selection),
            truthful(self.routes_for(method), path@),
            best_in(self.routes_for(method), path@) is None ==> truthful(
                self.all_routes(),
                path@,
            ),
            found is None ==> none_matches(self.routes_for(method), path@) && none_matches(
                self.all_routes(),
                path@,
            ),
    {
        let k = self.position(method);
        proof {
            lemma_routes_in_at(self.method_map@, method, k as int);
        }
        if k < self.method_map.len() {
            proof {
                lemma_sound_grows(
                    table_routes(self.method_map@[k as int].1),
                    self.endpoints@.len(),
                    self.endpoints@.len(),
                );
            }
            match table_best_match(&self.method_map[k].1, path) {
                Some((handler, params)) => {
                    let ghost routes = self.routes_for(method);
                    assert(preferred_matches(routes, path@));
                    let ghost i = best_route(patterns_of(routes), path@)->0;
                    assert(routes[i].1 == handler);
                    return Some(Selection { endpoint: &self.endpoints[handler], params });
                },
                None => {},
            }
        }
        proof {
            lemma_sound_grows(self.all_routes(), self.endpoints@.len(), self.endpoints@.len());
        }
        match table_best_match(&self.all_method_router, path) {
            Some((handler, params)) => {
                let ghost routes = self.all_routes();
                assert(preferred_matches(routes, path@));
                let ghost i = best_route(patterns_of(routes), path@)->0;
                assert(routes[i].1 == handler);
                Some(Selection { endpoint: &self.endpoints[handler], params })
            },
            None => None,
        }
    }

    /// The choice for a request without a direct match.
    fn fallback(&self, path: &str, method: Method) -> (selection: Selection<'_>)
        requires
            self.wf(),
        ensures
            self.selects(self.unmatched(path@, method), selection),
            self.unmatched(path@, method) is MethodNotAllowed ==> exists|other: Method|
                other != method && (#[trigger] best_in(self.routes_for(other), path@)) is Some
                    && truthful(self.routes_for(other), path@),
            self.unmatched(path@, method) is NotFound ==> forall|other: Method|
                other != method ==> none_matches(#[trigger] self.routes_for(other), path@),
    {
        let mut k: usize = 0;
        while k < self.method_map.len()
            invariant
                self.wf(),
                k <= self.method_map.len(),
                forall|j: int|
                    0 <= j < k && self.method_map@[j].0 != method ==> best_in(
                        #[trigger] table_routes(self.method_map@[j].1),
                        path@,
                    ) is None && none_matches(table_routes(self.method_map@[j].1), path@),
            decreases self.method_map.len() - k,
        {
            if self.method_map[k].0 != method {
                proof {
                    lemma_sound_grows(
                        table_routes(self.method_map@[k as int].1),
                        self.endpoints@.len(),
                        self.endpoints@.len(),
                    );
                }
                if table_best_match(&self.method_map[k].1, path).is_some() {
                    proof {
                        let other = self.method_map@[k as int].0;
                        lemma_routes_in_at(self.method_map@, other, k as int);
                        assert(best_in(self.routes_for(other), path@) is Some);
                        assert(truthful(self.routes_for(other), path@));
                    }
                    return Selection { endpoint: &self.method_not_allowed, params: Captures::new() };
                }
            }
            k += 1;
        }
        proof {
            assert forall|other: Method| other != method implies (#[trigger] best_in(
                self.routes_for(other),
                path@,
            )) is None by {
                lemma_routes_in_none(self.method_map@, other, path@);
            }
            assert forall|other: Method| other != method implies none_matches(
                #[trigger] self.routes_for(other),
                path@,
            ) by {
                lemma_routes_in_unmatched(self.method_map@, other, path@);
            }
        }
        Selection { endpoint: &self.not_found, params: Captures::new() }
    }
}

/// Where no table held for `method` has a route that matches, the routes of `method` have
/// none.
proof fn lemma_routes_in_unmatched(
    map: Seq<(Method, PathTable<usize>)>,
    method: Method,
    path: Seq<char>,
)
    requires
        forall|j: int|
            0 <= j < map.len() && map[j].0 == method ==> none_matches(
                #[trigger] table_routes(map[j].1),
                path,
            ),
    ensures
        none_matches(routes_in(map, method), path),
    decreases map.len(),
{
    if map.len() > 0 && map[0].0 != method {
        assert forall|j: int|
            0 <= j < map.drop_first().len() && map.drop_first()[j].0 == method implies none_matches(
            #[trigger] table_routes(map.drop_first()[j].1),
            path,
        ) by {
            assert(map.drop_first()[j] == map[j + 1]);
        }
        lemma_routes_in_unmatched(map.drop_first(), method, path);
    }
}

/// Where no table held for `method` has a match, the routes of `method` have none.
proof fn lemma_routes_in_none(map: Seq<(Method, PathTable<usize>)>, method: Method, path: Seq<char>)
    requires
        forall|j: int|
            0 <= j < map.len() && map[j].0 == method ==> best_in(
                #[trigger] table_routes(map[j].1),
                path,
            ) is None,
    ensures
        best_in(routes_in(map, method), path) is None,
    decreases map.len(),
{
    if map.len() > 0 && map[0].0 != method {
        assert forall|j: int|
            0 <= j < map.drop_first().len() && map.drop_first()[j].0 == method implies best_in(
            #[trigger] table_routes(map.drop_first()[j].1),
            path,
        ) is None by {
            assert(map.drop_first()[j] == map[j + 1]);
        }
        lemma_routes_in_none(map.drop_first(), method, path);
    }
}

/// The routes of `method` are those of the table at `k`, where no earlier table is held
/// for the method; they are none where `k` is the end of the list.
proof fn lemma_routes_in_at(map: Seq<(Method, PathTable<usize>)>, method: Method, k: int)
    requires
        0 <= k <= map.len(),
        forall|j: int| 0 <= j < k ==> map[j].0 != method,
        k < map.len() ==> map[k].0 == method,
    ensures
        routes_in(map, method) == if k < map.len() {
            table_routes(map[k].1)
        } else {
            Seq::empty()
        },
    decreases k,
{
    if k > 0 {
        lemma_routes_in_at(map.drop_first(), method, k - 1);
    }
}

/// A change to the table of `method` at `k`, or a table added for it at the end, leaves
/// the routes of every other method as they were.
proof fn lemma_routes_in_other(
    before: Seq<(Method, PathTable<usize>)>,
    after: Seq<(Method, PathTable<usize>)>,
    method: Method,
    other: Method,
    k: int,
)
    requires
        other != method,
        0 <= k < after.len(),
        after[k].0 == method,
        before.len() == after.len() || before.len() == k,
        before.len() == after.len() ==> before[k].0 == method,
        after.len() <= k + 1 || before.len() == after.len(),
        forall|j: int| 0 <= j < after.len() && j < before.len() && j != k ==> after[j] == before[j],
    ensures
        routes_in(after, other) == routes_in(before, other),
    decreases after.len(),
{
    if k > 0 {
        lemma_routes_in_other(
            before.drop_first(),
            after.drop_first(),
            method,
            other,
            k - 1,
        );
    } else if before.len() == after.len() {
        assert(before.drop_first() =~= after.drop_first());
    } else {
        assert(after.drop_first() =~= Seq::empty());
        assert(before =~= Seq::empty());
    }
}

/// Tells whether a pattern can be registered.
pub fn is_well_formed(pattern: &str) -> (ok: bool)
    ensures
        ok == well_formed(pattern@),
{
    let p = chars_of(pattern);
    let mut a: usize = 0;
    while a < p.len()
        invariant
            p@ == pattern@,
            a <= p.len(),
            forall|k: int| 0 <= k < a ==> ((#[trigger] p@[k]) as u32) < 128,
        decreases p.len() - a,
    {
        if p[a] as u32 >= 128 {
            return false;
        }
        a += 1;
    }
    let mut i: usize = 0;
    while i < p.len()
        invariant
            p@ == pattern@,
            i <= p.len(),
            all_ascii(p@),
            forall|k: int|
                0 <= k < i && #[trigger] section_starts(p@, k) ==> {
                    &&& p@[k] == '*' ==> only_slashes_after(p@, k)
                    &&& p@[k] == ':' ==> k + 1 < p@.len() && !is_separator(p@[k + 1])
                },
        decreases p.len() - i,
    {
        let starts = i == 0 || p[i - 1] == '.' || p[i - 1] == '/';
        if starts && p[i] == '*' {
            let mut j: usize = i + 1;
            while j < p.len()
                invariant
                    i < j <= p.len(),
                    section_starts(p@, i as int),
                    p@[i as int] == '*',
                    p@ == pattern@,
                    forall|t: int| i < t < j ==> p@[t] == '/',
                decreases p.len() - j,
            {
                if p[j] != '/' {
                    assert(section_starts(p@, i as int));
                    assert(!only_slashes_after(p@, i as int));
                    return false;
                }
                j += 1;
            }
        }
        if starts && p[i] == ':' {
            if i + 1 >= p.len() || p[i + 1] == '.' || p[i + 1] == '/' {
                assert(section_starts(p@, i as int));
                return false;
            }
        }
        i += 1;
    }
    true
}

/// A request whose path the routes of its own method match gets the endpoint of the route
/// that the table prefers, with what that route captures from the path.
pub proof fn lemma_match_of_own_method_is_chosen(router: Router, path: Seq<char>, method: Method)
    requires
        best_in(router.routes_for(method), path) is Some,
    ensures
        best_in(router.routes_for(method), path) matches Some(m) && router.resolve(path, method)
            == (Routed::Found { handler: m.0, params: m.1 }),
{
}

/// A request whose path exactly one route of its method matches gets that route: its
/// endpoint, and what its pattern captures from the path. The premise on the table is what
/// `Router::route` ensures of every lookup.
pub proof fn lemma_sole_match_is_chosen(router: Router, path: Seq<char>, method: Method, j: int)
    requires
        truthful(router.routes_for(method), path),
        0 <= j < router.routes_for(method).len(),
        pattern_captures(router.routes_for(method)[j].0, path) is Some,
        forall|k: int|
            0 <= k < router.routes_for(method).len() && k != j ==> (#[trigger] pattern_captures(
                router.routes_for(method)[k].0,
                path,
            )) is None,
    ensures
        router.resolve(path, method) == (Routed::Found {
            handler: router.routes_for(method)[j].1,
            params: pattern_captures(router.routes_for(method)[j].0, path)->0,
        }),
{
    let routes = router.routes_for(method);
    if best_in(routes, path) is None {
        assert(pattern_captures(routes[j].0, path) is None);
    }
    let i = best_route(patterns_of(routes), path)->0;
    if i != j {
        assert(pattern_captures(routes[i].0, path) is None);
    }
}

/// A `HEAD` request for which there is no route of its own is routed as the `GET` request
/// for the same path is.
pub proof fn lemma_head_falls_back_to_get(router: Router, path: Seq<char>)
    requires
        router.direct(path, Method::Head) is None,
    ensures
        router.resolve(path, Method::Head) == router.resolve(path, Method::Get),
{
}

/// A path that only a route of another method matches is answered with 405.
pub proof fn lemma_other_method_only_is_not_allowed(
    router: Router,
    path: Seq<char>,
    method: Method,
    other: Method,
)
    requires
        method != Method::Head,
        other != method,
        router.direct(path, method) is None,
        best_in(router.routes_for(other), path) is Some,
    ensures
        router.resolve(path, method) == Routed::MethodNotAllowed,
{
}

/// A path that no route matches is answered with 404, whatever the method.
pub proof fn lemma_unregistered_is_not_found(router: Router, path: Seq<char>, method: Method)
    requires
        best_in(router.all_routes(), path) is None,
        forall|m: Method| (#[trigger] best_in(router.routes_for(m), path)) is None,
    ensures
        router.resolve(path, method) == Routed::NotFound,
{
}

} // verus!
