use vstd::prelude::*;
use crate::cookies::{is_delta_of, parse_pair, parsed_pair, CookieEvent, JarView, LazyJar};
use crate::headers::{values_of, HeadersView};
use crate::middleware::{Middleware, Next};
use crate::request::{Request, RequestView};
use crate::response::{Response, ResponseView, Result};
use crate::text::{pieces, split, texts};

verus! {

/// The jar after the pairs that parse were put into it as cookies of the request; a pair
/// that does not parse is passed over.
pub open spec fn with_pairs(jar: JarView, pairs: Seq<Seq<char>>) -> JarView
    decreases pairs.len(),
{
    if pairs.len() == 0 {
        jar
    } else {
        let before = with_pairs(jar, pairs.drop_last());
        match parsed_pair(pairs.last()) {
            Some(cookie) => before.with_original(cookie.0, cookie.1),
            None => before,
        }
    }
}

/// The jar after the pairs of each `Cookie` header value, cut at `;`, were put into it.
pub open spec fn with_header_values(jar: JarView, values: Seq<Seq<char>>) -> JarView
    decreases values.len(),
{
    if values.len() == 0 {
        jar
    } else {
        with_pairs(with_header_values(jar, values.drop_last()), split(values.last(), ';'))
    }
}

/// The jar that the `Cookie` headers of a request spell.
pub open spec fn jar_of_headers(headers: HeadersView) -> JarView {
    with_header_values(JarView::empty(), values_of(headers, "cookie"@))
}

/// The request as the rest of the chain sees it: with the jar of its `Cookie` headers,
/// unless it had a jar already.
pub open spec fn with_jar(req: RequestView) -> RequestView {
    if req.cookies is Some {
        req
    } else {
        RequestView { cookies: Some(jar_of_headers(req.headers)), ..req }
    }
}

/// The `Set-Cookie` lines for a list of changes, in the order of the list.
pub open spec fn set_cookie_lines(delta: Seq<(String, String)>) -> HeadersView {
    Seq::new(delta.len(), |i: int| ("set-cookie"@, delta[i].1@))
}

/// Whether `res` is what the cookie middleware makes of the response `inner` of the rest of
/// the chain, for a request with the jar `jar`.
///
/// A response without cookie events is left as it is. Otherwise the events are applied to
/// the jar in order and leave the response, and one `Set-Cookie` line is added for each
/// change that the jar then records, in no stated order.
pub open spec fn flushed(jar: JarView, inner: Response, res: Response) -> bool {
    if inner@.cookie_events.len() == 0 {
        res == inner
    } else {
        exists|delta: Seq<(String, String)>|
            #![trigger set_cookie_lines(delta)]
            is_delta_of(delta, jar.after_all(inner@.cookie_events).changes) && res@ == (
            ResponseView {
                headers: inner@.headers + set_cookie_lines(delta),
                cookie_events: Seq::empty(),
                ..inner@
            })
    }
}

/// The jar of a request, held for the time of the request.
#[derive(Debug)]
pub struct CookieData {
    pub content: LazyJar,
}

impl CookieData {
    /// The jar that the `Cookie` headers of the request spell. A pair that does not parse
    /// as a cookie is passed over.
    pub fn from_request(req: &Request) -> (data: CookieData)
        ensures
            data.content@ == jar_of_headers(req@.headers),
    {
        let mut jar = LazyJar::new();
        match req.header("cookie") {
            Some(values) => {
                let ghost all = values_of(req@.headers, "cookie"@);
                let mut i: usize = 0;
                while i < values.len()
                    invariant
                        i <= values.len(),
                        texts(values@) == all,
                        jar@ == with_header_values(JarView::empty(), all.take(i as int)),
                    decreases values.len() - i,
                {
                    let parts = pieces(values[i].as_str(), ';');
                    let ghost start = jar@;
                    let ghost cut = split(all[i as int], ';');
                    let mut k: usize = 0;
                    while k < parts.len()
                        invariant
                            k <= parts.len(),
                            texts(parts@) == cut,
                            jar@ == with_pairs(start, cut.take(k as int)),
                        decreases parts.len() - k,
                    {
                        proof {
                            assert(cut.take(k + 1).drop_last() =~= cut.take(k as int));
                            assert(cut.take(k + 1).last() == parts@[k as int]@);
                        }
                        match parse_pair(parts[k].clone()) {
                            Some(cookie) => jar.add_original(cookie),
                            None => {},
                        }
                        k += 1;
                    }
                    proof {
                        assert(cut.take(k as int) =~= cut);
                        assert(all.take(i + 1).drop_last() =~= all.take(i as int));
                        assert(all.take(i + 1).last() == all[i as int]);
                    }
                    i += 1;
                }
                assert(all.take(i as int) =~= all);
            },
            None => {},
        }
        CookieData { content: jar }
    }
}

/// The middleware that keeps the cookies of a request in a jar and writes the changes that
/// a response asks for as `Set-Cookie` headers.
#[derive(Default)]
pub struct CookieMiddleware;

impl CookieMiddleware {
    /// The cookie middleware.
    pub fn new() -> CookieMiddleware {
        CookieMiddleware
    }

    /// Applies the cookie events of `res` to `jar` and writes the changes of the jar as
    /// `Set-Cookie` headers.
    pub fn flush(jar: &mut LazyJar, res: Response) -> (out: Response)
        ensures
            flushed(old(jar)@, res, out),
            res@.cookie_events.len() == 0 ==> final(jar)@ == old(jar)@,
            res@.cookie_events.len() > 0 ==> final(jar)@ == old(jar)@.after_all(
                res@.cookie_events,
            ),
    {
        if res.cookie_events.len() == 0 {
            return res;
        }
        let Response { status, headers, body, error, cookie_events } = res;
        let mut out = Response { status, headers, body, error, cookie_events: Vec::new() };
        let ghost events = cookie_events@;
        let mut events_left = cookie_events;
        let mut applied: usize = 0;
        let total = events_left.len();
        while events_left.len() > 0
            invariant
                applied + events_left.len() == total,
                total == events.len(),
                events_left@ == events.skip(applied as int),
                jar@ == old(jar)@.after_all(events.take(applied as int)),
            decreases events_left.len(),
        {
            proof {
                assert(events.take(applied + 1).drop_last() =~= events.take(applied as int));
                assert(events.take(applied + 1).last() == events_left@[0]);
                assert(events_left@.skip(1) =~= events.skip(applied + 1));
            }
            let event = events_left.remove(0);
            jar.apply(event);
            applied += 1;
        }
        assert(events.take(applied as int) =~= events);
        let delta = jar.delta();
        let ghost base = out@.headers;
        let mut i: usize = 0;
        while i < delta.len()
            invariant
                i <= delta.len(),
                out@ == (ResponseView {
                    headers: base + set_cookie_lines(delta@.take(i as int)),
                    ..out@
                }),
                out@.status == res@.status,
                out@.body == res@.body,
                out@.error == res@.error,
                out@.cookie_events.len() == 0,
            decreases delta.len() - i,
        {
            let ghost before = out@;
            out.append_header("set-cookie", delta[i].1.as_str());
            proof {
                assert(set_cookie_lines(delta@.take(i + 1)) =~= set_cookie_lines(
                    delta@.take(i as int),
                ).push(("set-cookie"@, delta@[i as int].1@)));
                assert(out@.headers =~= base + set_cookie_lines(delta@.take(i + 1)));
            }
            i += 1;
        }
        proof {
            assert(delta@.take(i as int) =~= delta@);
            assert(out@.cookie_events =~= Seq::empty());
            assert(out@ == (ResponseView {
                headers: res@.headers + set_cookie_lines(delta@),
                cookie_events: Seq::empty(),
                ..res@
            }));
        }
        out
    }
}

impl Middleware for CookieMiddleware {
    /// The rest of the chain is run with the request that has a jar, and its response is
    /// flushed against that jar.
    open spec fn handles(&self, req: Request, next: Next<'_>, outcome: Result) -> bool {
        exists|forwarded: Request, inner: Response|
            forwarded@ == with_jar(req@) && #[trigger] next.yields(forwarded, inner) && (
            outcome matches Ok(res) && flushed(forwarded@.cookies->0, inner, res))
    }

    fn handle(&self, req: Request, next: Next<'_>) -> (outcome: Result) {
        let mut request = req;
        let mut jar = match &request.cookies {
            Some(jar) => jar.snapshot(),
            None => {
                let data = CookieData::from_request(&request);
                let copy = data.content.snapshot();
                request.cookies = Some(data.content);
                copy
            },
        };
        let ghost forwarded = request;
        proof {
            assert(forwarded@.route_params =~= req@.route_params);
            assert(forwarded@.extensions =~= req@.extensions);
            assert(forwarded@ == with_jar(req@));
        }
        let inner = next.run(request);
        let res = CookieMiddleware::flush(&mut jar, inner);
        Ok(res)
    }

    open spec fn names(&self, name: Seq<char>) -> bool {
        name == "CookieMiddleware"@
    }

    fn name(&self) -> (n: String)
        ensures
            n@ == "CookieMiddleware"@,
    {
        "CookieMiddleware".to_owned()
    }
}

/// A response without cookie events passes the cookie middleware as it is: it gets no
/// `Set-Cookie` header, whatever the jar holds.
pub proof fn lemma_no_events_no_set_cookie(
    req: Request,
    next: Next<'_>,
    outcome: Result,
)
    requires
        CookieMiddleware.handles(req, next, outcome),
        forall|q: Request, inner: Response| #[trigger]
            next.yields(q, inner) ==> inner@.cookie_events.len() == 0,
    ensures
        outcome matches Ok(res) && exists|q: Request| #[trigger] next.yields(q, res),
{
    let (forwarded, inner) = choose|forwarded: Request, inner: Response|
        forwarded@ == with_jar(req@) && #[trigger] next.yields(forwarded, inner) && (
        outcome matches Ok(res) && flushed(forwarded@.cookies->0, inner, res));
    assert(next.yields(forwarded, outcome->Ok_0));
}

/// A cookie that is added and then removed in one response leaves the jar as the removal
/// alone would.
pub proof fn lemma_added_then_removed(jar: JarView, added: CookieEvent, removed: CookieEvent)
    requires
        added is Added,
        removed is Removed,
        crate::cookies::cookie_name(added->Added_0) == crate::cookies::cookie_name(
            removed->Removed_0,
        ),
    ensures
        jar.after_all(seq![added, removed]) == jar.after_all(seq![removed]),
        jar.after_all(seq![added, removed]).lookup(crate::cookies::cookie_name(removed->Removed_0))
            is None,
{
    let both = seq![added, removed];
    let one = seq![removed];
    let first = seq![added];
    let none = Seq::<CookieEvent>::empty();
    let name = crate::cookies::cookie_name(removed->Removed_0);
    assert(both.drop_last() =~= first);
    assert(first.drop_last() =~= none);
    assert(one.drop_last() =~= none);
    assert(jar.after_all(none) == jar);
    assert(jar.after_all(first) == jar.after_all(none).after(first.last()));
    assert(jar.after_all(one) == jar.after_all(none).after(one.last()));
    assert(jar.after_all(both) == jar.after_all(first).after(both.last()));
    assert(jar.after(added).removed(name).changes =~= jar.removed(name).changes);
}

} // verus!
