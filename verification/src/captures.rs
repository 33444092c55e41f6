use vstd::prelude::*;
use crate::text::str_eq;

verus! {

/// What a route pattern captured from a request path: the values of its `:name` segments, in
/// the order of the pattern, and what its trailing `*` matched.
#[derive(Debug)]
pub struct Captures {
    pub params: Vec<(String, String)>,
    pub wildcard: Option<String>,
}

/// What a [`Captures`] holds, as plain values.
pub struct CapturesView {
    pub params: Seq<(Seq<char>, Seq<char>)>,
    pub wildcard: Option<Seq<char>>,
}

/// The value of the first pair named `key`.
pub open spec fn first_value(params: Seq<(Seq<char>, Seq<char>)>, key: Seq<char>) -> Option<
    Seq<char>,
>
    decreases params.len(),
{
    if params.len() == 0 {
        None
    } else if params[0].0 == key {
        Some(params[0].1)
    } else {
        first_value(params.drop_first(), key)
    }
}

impl View for Captures {
    type V = CapturesView;

    open spec fn view(&self) -> CapturesView {
        CapturesView {
            params: Seq::new(
                self.params@.len(),
                |i: int| (self.params@[i].0@, self.params@[i].1@),
            ),
            wildcard: match self.wildcard {
                Some(w) => Some(w@),
                None => None,
            },
        }
    }
}

impl CapturesView {
    /// No captures.
    pub open spec fn empty() -> CapturesView {
        CapturesView { params: Seq::empty(), wildcard: None }
    }

    /// The value captured under `key`.
    pub open spec fn get(self, key: Seq<char>) -> Option<Seq<char>> {
        first_value(self.params, key)
    }
}

impl Captures {
    /// No captures.
    pub fn new() -> (c: Captures)
        ensures
            c@ == CapturesView::empty(),
    {
        let c = Captures { params: Vec::new(), wildcard: None };
        assert(c@.params =~= Seq::empty());
        c
    }

    /// The value captured under `key`: that of the first `:key` segment of the pattern.
    pub fn get(&self, key: &str) -> (r: Option<&str>)
        ensures
            r is Some <==> self@.get(key@) is Some,
            r matches Some(v) ==> self@.get(key@) == Some(v@),
    {
        let mut i: usize = 0;
        assert(self@.params.skip(0) =~= self@.params);
        while i < self.params.len()
            invariant
                i <= self.params.len(),
                self@.get(key@) == first_value(self@.params.skip(i as int), key@),
            decreases self.params.len() - i,
        {
            proof {
                assert(self@.params.skip(i as int).drop_first() =~= self@.params.skip(i + 1));
                assert(self@.params.skip(i as int)[0] == self@.params[i as int]);
            }
            if str_eq(self.params[i].0.as_str(), key) {
                return Some(self.params[i].1.as_str());
            }
            i += 1;
        }
        None
    }

    /// What the trailing `*` of the pattern matched, if the pattern has one.
    pub fn wildcard(&self) -> (r: Option<&str>)
        ensures
            r is Some <==> self@.wildcard is Some,
            r matches Some(w) ==> self@.wildcard == Some(w@),
    {
        match &self.wildcard {
            Some(w) => Some(w.as_str()),
            None => None,
        }
    }
}

} // verus!
