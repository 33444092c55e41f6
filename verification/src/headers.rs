use vstd::prelude::*;
use crate::text::{eq_ignore_case, same_ignoring_case, texts};

verus! {

/// One header line: a name and a value.
#[derive(Debug)]
pub struct Header {
    pub name: String,
    pub value: String,
}

/// The header lines of a request or a response, in the order in which they were added.
///
/// Names are compared without regard to the case of ASCII letters.
#[derive(Debug)]
pub struct Headers {
    pub entries: Vec<Header>,
}

/// The header lines as pairs of name and value.
pub type HeadersView = Seq<(Seq<char>, Seq<char>)>;

impl View for Headers {
    type V = HeadersView;

    open spec fn view(&self) -> HeadersView {
        Seq::new(self.entries@.len(), |i: int| (self.entries@[i].name@, self.entries@[i].value@))
    }
}

/// The values of the lines named `name`, in order.
pub open spec fn values_of(h: HeadersView, name: Seq<char>) -> Seq<Seq<char>>
    decreases h.len(),
{
    if h.len() == 0 {
        Seq::empty()
    } else if same_ignoring_case(h.last().0, name) {
        values_of(h.drop_last(), name).push(h.last().1)
    } else {
        values_of(h.drop_last(), name)
    }
}

/// The lines that are not named `name`, in order.
pub open spec fn without(h: HeadersView, name: Seq<char>) -> HeadersView
    decreases h.len(),
{
    if h.len() == 0 {
        Seq::empty()
    } else if same_ignoring_case(h.last().0, name) {
        without(h.drop_last(), name)
    } else {
        without(h.drop_last(), name).push(h.last())
    }
}

impl Headers {
    /// No header lines.
    pub fn new() -> (h: Headers)
        ensures
            h@ == Seq::<(Seq<char>, Seq<char>)>::empty(),
    {
        let h = Headers { entries: Vec::new() };
        assert(h@ =~= Seq::<(Seq<char>, Seq<char>)>::empty());
        h
    }

    /// The values of the lines named `name`, or `None` if there is no such line.
    pub fn get(&self, name: &str) -> (r: Option<Vec<String>>)
        ensures
            r is None <==> values_of(self@, name@).len() == 0,
            r matches Some(v) ==> texts(v@) == values_of(self@, name@),
    {
        let mut out: Vec<String> = Vec::new();
        let mut i: usize = 0;
        while i < self.entries.len()
            invariant
                i <= self.entries.len(),
                texts(out@) == values_of(self@.take(i as int), name@),
            decreases self.entries.len() - i,
        {
            let e = &self.entries[i];
            proof {
                assert(self@.take(i + 1).drop_last() =~= self@.take(i as int));
                assert(self@.take(i + 1).last() == self@[i as int]);
            }
            if eq_ignore_case(e.name.as_str(), name) {
                let ghost before = out@;
                out.push(e.value.clone());
                assert(texts(out@) =~= texts(before).push(e.value@));
            }
            i += 1;
        }
        assert(self@.take(i as int) =~= self@);
        if out.len() == 0 {
            None
        } else {
            Some(out)
        }
    }

    /// Adds a line after the others.
    pub fn append(&mut self, name: &str, value: &str)
        ensures
            final(self)@ == old(self)@.push((name@, value@)),
    {
        self.entries.push(Header { name: name.to_owned(), value: value.to_owned() });
        assert(final(self)@ =~= old(self)@.push((name@, value@)));
    }

    /// Removes the lines named `name` and adds one line of that name after the others.
    pub fn insert(&mut self, name: &str, value: &str)
        ensures
            final(self)@ == without(old(self)@, name@).push((name@, value@)),
    {
        let mut kept: Vec<Header> = Vec::new();
        let ghost before = self@;
        let mut i: usize = 0;
        while i < self.entries.len()
            invariant
                i <= self.entries.len(),
                self@ == before,
                (Headers { entries: kept })@ == without(before.take(i as int), name@),
            decreases self.entries.len() - i,
        {
            let e = &self.entries[i];
            proof {
                assert(before.take(i + 1).drop_last() =~= before.take(i as int));
                assert(before.take(i + 1).last() == before[i as int]);
            }
            if !eq_ignore_case(e.name.as_str(), name) {
                let ghost k0 = (Headers { entries: kept })@;
                kept.push(Header { name: e.name.clone(), value: e.value.clone() });
                assert((Headers { entries: kept })@ =~= k0.push(before[i as int]));
            }
            i += 1;
        }
        assert(before.take(i as int) =~= before);
        let ghost k1 = (Headers { entries: kept })@;
        kept.push(Header { name: name.to_owned(), value: value.to_owned() });
        assert((Headers { entries: kept })@ =~= k1.push((name@, value@)));
        self.entries = kept;
    }
}

/// A line that was appended is found under its name, after the values that were there.
pub proof fn lemma_append_then_get(h: HeadersView, name: Seq<char>, value: Seq<char>)
    ensures
        values_of(h.push((name, value)), name) == values_of(h, name).push(value),
{
    assert(h.push((name, value)).drop_last() =~= h);
}

/// Nothing is found under a name whose lines were removed.
pub proof fn lemma_without_then_get(h: HeadersView, name: Seq<char>)
    ensures
        values_of(without(h, name), name).len() == 0,
    decreases h.len(),
{
    if h.len() > 0 {
        lemma_without_then_get(h.drop_last(), name);
        if !same_ignoring_case(h.last().0, name) {
            assert(without(h.drop_last(), name).push(h.last()).drop_last() =~= without(
                h.drop_last(),
                name,
            ));
        }
    }
}

/// After `insert`, exactly the inserted value is found under the name.
pub proof fn lemma_insert_then_get(h: HeadersView, name: Seq<char>, value: Seq<char>)
    ensures
        values_of(without(h, name).push((name, value)), name) == seq![value],
{
    lemma_without_then_get(h, name);
    lemma_append_then_get(without(h, name), name, value);
    assert(values_of(without(h, name), name) =~= Seq::<Seq<char>>::empty());
    assert(Seq::<Seq<char>>::empty().push(value) =~= seq![value]);
}

} // verus!
