use vstd::prelude::*;
use vstd::string::StrSliceExecFns;
use crate::error::{Error, ErrorView};
use crate::response::{Body, BodyView, Response, ResponseView, Result};
use crate::status::StatusCode;
use crate::text::{
    chars_of, has_prefix, pieces, split, str_eq, texts, without_leading, without_trailing,
};

verus! {

/// The path of components after one more segment of a URL path: an empty segment and `.`
/// change nothing, `..` leaves the last component, and every other segment is one more
/// component.
pub open spec fn stepped(path: Seq<Seq<char>>, segment: Seq<char>) -> Seq<Seq<char>> {
    if segment.len() == 0 || segment == "."@ {
        path
    } else if segment == ".."@ {
        if path.len() == 0 {
            path
        } else {
            path.drop_last()
        }
    } else {
        path.push(segment)
    }
}

/// The path of components after the segments of a URL path, in order.
pub open spec fn walked(path: Seq<Seq<char>>, segments: Seq<Seq<char>>) -> Seq<Seq<char>>
    decreases segments.len(),
{
    if segments.len() == 0 {
        path
    } else {
        stepped(walked(path, segments.drop_last()), segments.last())
    }
}

/// Whether the components of `dir` are the first components of `path`.
pub open spec fn is_under(path: Seq<Seq<char>>, dir: Seq<Seq<char>>) -> bool {
    dir.len() <= path.len() && path.take(dir.len() as int) == dir
}

/// What a directory endpoint serves for a URL path.
#[derive(Debug)]
pub enum Resolution {
    /// The file of these components, counted from the root of the file system.
    File(Vec<String>),
    /// The path leaves the directory.
    Forbidden,
}

/// What reading a file brought.
#[derive(Debug)]
pub enum FileOutcome {
    /// The content of the file.
    Content(Vec<u8>),
    /// There is no such file.
    NotFound,
    /// Another failure, with its text.
    Failed(String),
}

/// The outcome of an endpoint that serves a file, for what reading the file brought: the
/// content with status 200, status 404 for a file that is not there, and a failure with
/// status 500 for every other failure.
pub open spec fn file_outcome(read: FileOutcome, outcome: Result) -> bool {
    match read {
        FileOutcome::Content(bytes) => outcome matches Ok(res) && res@ == ResponseView::of_body(
            BodyView { bytes: bytes@, mime: "application/octet-stream"@ },
        ),
        FileOutcome::NotFound => outcome matches Ok(res) && res@ == ResponseView::bare(
            StatusCode::NotFound,
        ),
        FileOutcome::Failed(message) => outcome matches Err(e) && e@ == (ErrorView {
            status: StatusCode::InternalServerError,
            message: message@,
            kind_name: None,
        }),
    }
}

/// The outcome of an endpoint that serves a file, for what reading the file brought.
pub fn file_response(read: FileOutcome) -> (outcome: Result)
    ensures
        file_outcome(read, outcome),
{
    match read {
        FileOutcome::Content(bytes) => Ok(Response::from_body(Body::from_bytes(bytes))),
        FileOutcome::NotFound => Ok(Response::new(StatusCode::NotFound)),
        FileOutcome::Failed(message) => Err(
            Error { status: StatusCode::InternalServerError, message, kind_name: None },
        ),
    }
}

/// The files of a directory, served under a prefix of the URL path.
pub struct ServeDir {
    prefix: String,
    dir: Vec<String>,
}

impl ServeDir {
    /// The prefix of the URL path under which the directory is served; a `*` at its end
    /// stands for the rest of the path.
    pub closed spec fn prefix(&self) -> Seq<char> {
        self.prefix@
    }

    /// The components of the directory, counted from the root of the file system.
    pub closed spec fn dir(&self) -> Seq<Seq<char>> {
        texts(self.dir@)
    }

    /// The endpoint that serves the directory of the given components under `prefix`.
    pub fn new(prefix: String, dir: Vec<String>) -> (s: ServeDir)
        ensures
            s.prefix() == prefix@,
            s.dir() == texts(dir@),
    {
        ServeDir { prefix, dir }
    }

    /// The part of a URL path after the prefix, without the `/` at its start.
    pub open spec fn rest_of(&self, url_path: Seq<char>) -> Seq<char> {
        without_leading(url_path.skip(without_trailing(self.prefix(), '*').len() as int), '/')
    }

    /// The components of the file for a URL path: those of the directory, walked on by the
    /// segments of the path after the prefix.
    pub open spec fn file_for(&self, url_path: Seq<char>) -> Seq<Seq<char>> {
        walked(self.dir(), split(self.rest_of(url_path), '/'))
    }

    /// The file that is served for a URL path, which has to start with the prefix. A path
    /// that leads out of the directory is forbidden.
    pub fn resolve(&self, url_path: &str) -> (r: Resolution)
        requires
            has_prefix(url_path@, without_trailing(self.prefix(), '*')),
        ensures
            is_under(self.file_for(url_path@), self.dir()) ==> (r matches Resolution::File(f)
                && texts(f@) == self.file_for(url_path@)),
            !is_under(self.file_for(url_path@), self.dir()) ==> r is Forbidden,
    {
        let prefix = chars_of(self.prefix.as_str());
        let mut n: usize = prefix.len();
        assert(prefix@.take(n as int) =~= prefix@);
        while n > 0 && prefix[n - 1] == '*'
            invariant
                n <= prefix.len(),
                without_trailing(prefix@, '*') == without_trailing(prefix@.take(n as int), '*'),
            decreases n,
        {
            assert(prefix@.take(n as int).drop_last() =~= prefix@.take(n - 1));
            n -= 1;
        }
        assert(prefix@.take(prefix@.len() as int) =~= prefix@);
        assert(without_trailing(prefix@.take(n as int), '*') == prefix@.take(n as int));
        let path = chars_of(url_path);
        let mut from: usize = n;
        while from < path.len() && path[from] == '/'
            invariant
                n <= from <= path.len(),
                without_leading(path@.skip(n as int), '/') == without_leading(
                    path@.skip(from as int),
                    '/',
                ),
            decreases path.len() - from,
        {
            assert(path@.skip(from as int).drop_first() =~= path@.skip(from + 1));
            from += 1;
        }
        let rest = url_path.substring_char(from, path.len());
        assert(rest@ =~= path@.skip(from as int));
        assert(rest@ == self.rest_of(url_path@));
        let segments = pieces(rest, '/');
        let mut file: Vec<String> = Vec::new();
        let mut k: usize = 0;
        while k < self.dir.len()
            invariant
                k <= self.dir.len(),
                texts(file@) == texts(self.dir@).take(k as int),
            decreases self.dir.len() - k,
        {
            let ghost before = file@;
            file.push(self.dir[k].clone());
            assert(texts(file@) =~= texts(before).push(self.dir@[k as int]@));
            assert(texts(self.dir@).take(k + 1) =~= texts(self.dir@).take(k as int).push(
                self.dir@[k as int]@,
            ));
            k += 1;
        }
        assert(texts(self.dir@).take(k as int) =~= texts(self.dir@));
        let mut i: usize = 0;
        while i < segments.len()
            invariant
                i <= segments.len(),
                texts(file@) == walked(self.dir(), texts(segments@).take(i as int)),
            decreases segments.len() - i,
        {
            proof {
                assert(texts(segments@).take(i + 1).drop_last() =~= texts(segments@).take(
                    i as int,
                ));
                assert(texts(segments@).take(i + 1).last() == segments@[i as int]@);
            }
            let segment = segments[i].as_str();
            let ghost before = file@;
            if segment.unicode_len() == 0 || str_eq(segment, ".") {
            } else if str_eq(segment, "..") {
                if file.len() > 0 {
                    file.pop();
                    assert(texts(file@) =~= texts(before).drop_last());
                }
            } else {
                file.push(segments[i].clone());
                assert(texts(file@) =~= texts(before).push(segment@));
            }
            i += 1;
        }
        assert(texts(segments@).take(i as int) =~= texts(segments@));
        if file.len() < self.dir.len() {
            return Resolution::Forbidden;
        }
        let mut j: usize = 0;
        while j < self.dir.len()
            invariant
                j <= self.dir.len(),
                self.dir.len() <= file.len(),
                texts(file@) == self.file_for(url_path@),
                forall|t: int| 0 <= t < j ==> file@[t]@ == self.dir@[t]@,
            decreases self.dir.len() - j,
        {
            if !str_eq(file[j].as_str(), self.dir[j].as_str()) {
                assert(texts(file@).take(self.dir@.len() as int)[j as int] != texts(
                    self.dir@,
                )[j as int]);
                return Resolution::Forbidden;
            }
            j += 1;
        }
        assert(texts(file@).take(self.dir@.len() as int) =~= texts(self.dir@));
        Resolution::File(file)
    }

    /// Whether `outcome` is what the endpoint hands back for a URL path, where `read` reads
    /// files: a path that leaves the directory is answered with 403 and nothing is read;
    /// every other path is answered with what `read` brought for the file of the path.
    pub open spec fn serves<F: FnOnce(&Vec<String>) -> FileOutcome>(
        &self,
        url_path: Seq<char>,
        read: F,
        outcome: Result,
    ) -> bool {
        if is_under(self.file_for(url_path), self.dir()) {
            exists|file: &Vec<String>, got: FileOutcome|
                texts(file@) == self.file_for(url_path) && #[trigger] call_ensures(
                    read,
                    (file,),
                    got,
                ) && file_outcome(got, outcome)
        } else {
            outcome matches Ok(res) && res@ == ResponseView::bare(StatusCode::Forbidden)
        }
    }

    /// Answers a request for a URL path, which has to start with the prefix. `read` is
    /// called once with the components of the file, unless the path leaves the directory:
    /// then the answer is 403 and `read` is not called.
    pub fn serve<F: FnOnce(&Vec<String>) -> FileOutcome>(&self, url_path: &str, read: F) -> (outcome:
        Result)
        requires
            has_prefix(url_path@, without_trailing(self.prefix(), '*')),
            forall|file: &Vec<String>| call_requires(read, (file,)),
        ensures
            self.serves(url_path@, read, outcome),
    {
        match self.resolve(url_path) {
            Resolution::Forbidden => Ok(Response::new(StatusCode::Forbidden)),
            Resolution::File(file) => {
                let got = read(&file);
                let ghost given = &file;
                assert(call_ensures(read, (given,), got));
                file_response(got)
            },
        }
    }
}

} // verus!
