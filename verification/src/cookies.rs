use vstd::prelude::*;
use http_types::cookies::CookieJar;
use http_types::Cookie;

verus! {

/// `http_types::Cookie`, carried through as it is.
#[verifier::external_type_specification]
#[verifier::external_body]
pub struct ExCookie<'c>(Cookie<'c>);

/// `http_types::cookies::CookieJar`: the cookies of a request and the changes to them.
#[verifier::external_type_specification]
#[verifier::external_body]
pub struct ExCookieJar(CookieJar);

/// The name of a cookie, as `Cookie::name` gives it.
pub uninterp spec fn cookie_name(c: Cookie<'static>) -> Seq<char>;

/// The text of a cookie as a `Set-Cookie` value with percent-encoded name and value, as
/// `Cookie::encoded` displays it.
pub uninterp spec fn cookie_wire_form(c: Cookie<'static>) -> Seq<char>;

/// What `Cookie::parse_encoded` makes of one `name=value` pair of a `Cookie` header: the name
/// and the wire form of the cookie, or `None` where the pair is malformed.
pub uninterp spec fn parsed_pair(pair: Seq<char>) -> Option<(Seq<char>, Seq<char>)>;

/// The cookies that a jar was filled with at the start, by name, each as its wire form.
pub uninterp spec fn jar_originals(jar: CookieJar) -> Map<Seq<char>, Seq<char>>;

/// The changes that a jar has recorded since, by name: `Some` with the wire form of a cookie
/// that was added, `None` for a cookie that is to be removed.
pub uninterp spec fn jar_changes(jar: CookieJar) -> Map<Seq<char>, Option<Seq<char>>>;

/// `Cookie::parse_encoded` on an owned text: the cookie that the pair spells, or `None`
/// where the crate reports a parse error.
#[verifier::external_body]
pub(crate) fn parse_pair(pair: String) -> (cookie: Option<Cookie<'static>>)
    ensures
        cookie is Some <==> parsed_pair(pair@) is Some,
        cookie matches Some(c) ==> parsed_pair(pair@) == Some((cookie_name(c), cookie_wire_form(c))),
{
    match Cookie::parse_encoded(pair) {
        Ok(c) => Some(c),
        Err(_) => None,
    }
}

/// `CookieJar::new`: a jar without cookies and without changes.
#[verifier::external_body]
pub(crate) fn jar_new() -> (jar: CookieJar)
    ensures
        jar_originals(jar) == JarView::empty().originals,
        jar_changes(jar) == JarView::empty().changes,
{
    CookieJar::new()
}

/// `CookieJar::add_original`: the cookie takes the place of an original cookie of its name;
/// no change is recorded.
#[verifier::external_body]
pub(crate) fn jar_add_original(jar: &mut CookieJar, cookie: Cookie<'static>)
    ensures
        jar_view(*final(jar)) == jar_view(*old(jar)).with_original(
            cookie_name(cookie),
            cookie_wire_form(cookie),
        ),
{
    jar.add_original(cookie)
}

/// `CookieJar::add`: the cookie is recorded as added, in place of an earlier change of its
/// name.
#[verifier::external_body]
pub(crate) fn jar_add(jar: &mut CookieJar, cookie: Cookie<'static>)
    ensures
        jar_view(*final(jar)) == jar_view(*old(jar)).added(
            cookie_name(cookie),
            cookie_wire_form(cookie),
        ),
{
    jar.add(cookie)
}

/// `CookieJar::remove`: where an original cookie has the name, a removal is recorded in
/// place of an earlier change of that name; where none has, the change of that name is
/// dropped.
#[verifier::external_body]
pub(crate) fn jar_remove(jar: &mut CookieJar, cookie: Cookie<'static>)
    ensures
        jar_view(*final(jar)) == jar_view(*old(jar)).removed(cookie_name(cookie)),
{
    jar.remove(cookie)
}

/// `CookieJar::get`, cloned: the cookie that the jar now holds under the name. A change
/// hides the original of its name, and a removal hides the cookie.
#[verifier::external_body]
pub(crate) fn jar_get(jar: &CookieJar, name: &str) -> (cookie: Option<Cookie<'static>>)
    ensures
        cookie is Some <==> jar_view(*jar).lookup(name@) is Some,
        cookie matches Some(c) ==> cookie_name(c) == name@ && jar_view(*jar).lookup(name@)
            == Some(cookie_wire_form(c)),
{
    jar.get(name).cloned()
}

/// `CookieJar::delta`, each cookie as its name and wire form: one entry for each recorded
/// change, in no stated order. The wire form of an added cookie is the recorded one.
#[verifier::external_body]
pub(crate) fn jar_delta(jar: &CookieJar) -> (delta: Vec<(String, String)>)
    ensures
        is_delta_of(delta@, jar_view(*jar).changes),
{
    jar.delta().map(|c| (c.name().to_string(), c.encoded().to_string())).collect()
}

/// `Clone::clone` of a jar: a jar that holds the same.
#[verifier::external_body]
pub(crate) fn jar_clone(jar: &CookieJar) -> (copy: CookieJar)
    ensures
        jar_view(copy) == jar_view(*jar),
{
    jar.clone()
}

/// Whether `delta` lists each change of `changes` once, under its name.
pub open spec fn is_delta_of(
    delta: Seq<(String, String)>,
    changes: Map<Seq<char>, Option<Seq<char>>>,
) -> bool {
    &&& forall|i: int|
        0 <= i < delta.len() ==> #[trigger] changes.dom().contains(delta[i].0@) && (
        changes[delta[i].0@] matches Some(w) ==> delta[i].1@ == w)
    &&& forall|name: Seq<char>| #[trigger]
        changes.dom().contains(name) ==> exists|i: int|
            0 <= i < delta.len() && #[trigger] delta[i].0@ == name
    &&& forall|i: int, j: int|
        0 <= i < j < delta.len() ==> #[trigger] delta[i].0@ != #[trigger] delta[j].0@
}

/// What a jar holds.
pub open spec fn jar_view(jar: CookieJar) -> JarView {
    JarView { originals: jar_originals(jar), changes: jar_changes(jar) }
}

/// What a jar holds, as plain values.
pub struct JarView {
    /// The cookies that the request brought, by name, each as its wire form.
    pub originals: Map<Seq<char>, Seq<char>>,
    /// The changes since: `Some` for a cookie that was added, `None` for a removal.
    pub changes: Map<Seq<char>, Option<Seq<char>>>,
}

impl JarView {
    /// A jar without cookies.
    pub open spec fn empty() -> JarView {
        JarView { originals: Map::empty(), changes: Map::empty() }
    }

    /// The wire form of the cookie that the jar holds under `name`.
    pub open spec fn lookup(self, name: Seq<char>) -> Option<Seq<char>> {
        if self.changes.dom().contains(name) {
            self.changes[name]
        } else if self.originals.dom().contains(name) {
            Some(self.originals[name])
        } else {
            None
        }
    }

    /// The jar after a cookie of the given name and wire form was added.
    pub open spec fn added(self, name: Seq<char>, wire: Seq<char>) -> JarView {
        JarView { originals: self.originals, changes: self.changes.insert(name, Some(wire)) }
    }

    /// The jar after the cookie of the given name was removed.
    pub open spec fn removed(self, name: Seq<char>) -> JarView {
        JarView {
            originals: self.originals,
            changes: if self.originals.dom().contains(name) {
                self.changes.insert(name, None)
            } else {
                self.changes.remove(name)
            },
        }
    }

    /// The jar after one more cookie of the request was put into it.
    pub open spec fn with_original(self, name: Seq<char>, wire: Seq<char>) -> JarView {
        JarView { originals: self.originals.insert(name, wire), changes: self.changes }
    }
}

/// A change to the cookies of the client that a response asks for.
#[derive(Debug)]
pub enum CookieEvent {
    Added(Cookie<'static>),
    Removed(Cookie<'static>),
}

impl JarView {
    /// The jar after one event.
    pub open spec fn after(self, event: CookieEvent) -> JarView {
        match event {
            CookieEvent::Added(c) => self.added(cookie_name(c), cookie_wire_form(c)),
            CookieEvent::Removed(c) => self.removed(cookie_name(c)),
        }
    }

    /// The jar after a run of events, the first applied first.
    pub open spec fn after_all(self, events: Seq<CookieEvent>) -> JarView
        decreases events.len(),
    {
        if events.len() == 0 {
            self
        } else {
            self.after_all(events.drop_last()).after(events.last())
        }
    }
}

/// A cookie jar that is made only when a cookie is put into it.
#[derive(Debug)]
pub struct LazyJar(pub Option<CookieJar>);

impl View for LazyJar {
    type V = JarView;

    open spec fn view(&self) -> JarView {
        match self.0 {
            Some(jar) => jar_view(jar),
            None => JarView::empty(),
        }
    }
}

impl LazyJar {
    /// A jar that holds nothing.
    pub fn new() -> (jar: LazyJar)
        ensures
            jar@ == JarView::empty(),
    {
        LazyJar(None)
    }

    /// Puts one of the cookies that the request brought into the jar.
    pub fn add_original(&mut self, cookie: Cookie<'static>)
        ensures
            final(self)@ == old(self)@.with_original(cookie_name(cookie), cookie_wire_form(cookie)),
    {
        let mut jar = match self.0.take() {
            Some(jar) => jar,
            None => jar_new(),
        };
        jar_add_original(&mut jar, cookie);
        self.0 = Some(jar);
    }

    /// Records that the cookie was added.
    pub fn add(&mut self, cookie: Cookie<'static>)
        ensures
            final(self)@ == old(self)@.added(cookie_name(cookie), cookie_wire_form(cookie)),
    {
        let mut jar = match self.0.take() {
            Some(jar) => jar,
            None => jar_new(),
        };
        jar_add(&mut jar, cookie);
        self.0 = Some(jar);
    }

    /// Records that the cookie of this name is to be removed.
    pub fn remove(&mut self, cookie: Cookie<'static>)
        ensures
            final(self)@ == old(self)@.removed(cookie_name(cookie)),
    {
        let mut jar = match self.0.take() {
            Some(jar) => jar,
            None => jar_new(),
        };
        jar_remove(&mut jar, cookie);
        self.0 = Some(jar);
        proof {
            if old(self).0 is None {
                assert(JarView::empty().changes.remove(cookie_name(cookie)) =~= JarView::empty().changes);
            }
        }
    }

    /// Applies one event of a response.
    pub fn apply(&mut self, event: CookieEvent)
        ensures
            final(self)@ == old(self)@.after(event),
    {
        match event {
            CookieEvent::Added(cookie) => self.add(cookie),
            CookieEvent::Removed(cookie) => self.remove(cookie),
        }
    }

    /// The recorded changes, each as the name and the `Set-Cookie` value of its cookie, in no
    /// stated order.
    pub fn delta(&self) -> (delta: Vec<(String, String)>)
        ensures
            is_delta_of(delta@, self@.changes),
    {
        match &self.0 {
            Some(jar) => jar_delta(jar),
            None => Vec::new(),
        }
    }

    /// The cookie that the jar holds under `name`.
    pub fn get(&self, name: &str) -> (cookie: Option<Cookie<'static>>)
        ensures
            cookie is Some <==> self@.lookup(name@) is Some,
            cookie matches Some(c) ==> cookie_name(c) == name@ && self@.lookup(name@) == Some(
                cookie_wire_form(c),
            ),
    {
        match &self.0 {
            Some(jar) => jar_get(jar, name),
            None => None,
        }
    }

    /// A jar that holds the same.
    pub fn snapshot(&self) -> (copy: LazyJar)
        ensures
            copy@ == self@,
    {
        match &self.0 {
            Some(jar) => LazyJar(Some(jar_clone(jar))),
            None => LazyJar(None),
        }
    }
}

} // verus!
