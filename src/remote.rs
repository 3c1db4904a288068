//! The remote repository source: the repository a URL names, the addresses
//! of its contents API, how its answers are read, and the depth-first walk
//! over its tree. The requests themselves are the caller's.
use base64::Engine;
use vstd::prelude::*;
use vstd::string::StringSliceAdditionalSpecFns;
use vstd::utf8::encode_utf8;

use crate::detection::NEWLINE;
use crate::error::ConnectorError;
use crate::text::{contains_bytes, contains_in, text_eq};

verus! {

#[verifier::external_type_specification]
#[verifier::external_body]
pub struct ExJsonError(serde_json::Error);

#[verifier::external_type_specification]
#[verifier::external_body]
pub struct ExDecodeError(base64::DecodeError);

#[verifier::external_type_specification]
#[verifier::external_body]
pub struct ExFromUtf8Error(std::string::FromUtf8Error);

/// The path segments of a URL: none when the text does not parse as a URL or
/// the URL has no hierarchical path, else its path cut at each `/`.
pub uninterp spec fn url_path_segments_of(input: Seq<char>) -> Option<Seq<Seq<char>>>;

/// Relies on `url::Url::parse` and `url::Url::path_segments` for the segments
/// of the URL's path.
#[verifier::external_body]
fn url_path_segments(input: &str) -> (r: Option<Vec<String>>)
    ensures
        r.deep_view() == url_path_segments_of(input@),
{
    url::Url::parse(input).ok().and_then(
        |u| u.path_segments().map(|s| s.map(|p| p.to_string()).collect()),
    )
}

/// A directory listing: none when the text is not a JSON array; else, for each
/// element, its `type` and `path` members where they are strings.
pub uninterp spec fn json_listing(body: Seq<char>) -> Option<Seq<ListingItem>>;

/// Relies on `serde_json::from_str` for a JSON array of values, and on
/// `serde_json::Value::get` and `as_str` for two members of each.
#[verifier::external_body]
fn parse_listing(body: &str) -> (r: Result<Vec<(Option<String>, Option<String>)>, serde_json::Error>)
    ensures
        match r {
            Ok(items) => json_listing(body@) == Some(items.deep_view()),
            Err(_) => json_listing(body@) is None,
        },
{
    serde_json::from_str::<Vec<serde_json::Value>>(body).map(
        |items|
            items.iter().map(
                |i|
                    (
                        i.get("type").and_then(|t| t.as_str()).map(|t| t.to_string()),
                        i.get("path").and_then(|p| p.as_str()).map(|p| p.to_string()),
                    ),
            ).collect(),
    )
}

/// A file answer: none when the text is not JSON; else its `content` member
/// where that is a string.
pub uninterp spec fn json_content_field(body: Seq<char>) -> Option<Option<Seq<char>>>;

/// Relies on `serde_json::from_str` for a JSON value, and on
/// `serde_json::Value::get` and `as_str` for its `content` member.
#[verifier::external_body]
fn parse_content_field(body: &str) -> (r: Result<Option<String>, serde_json::Error>)
    ensures
        match r {
            Ok(f) => json_content_field(body@) == Some(f.deep_view()),
            Err(_) => json_content_field(body@) is None,
        },
{
    serde_json::from_str::<serde_json::Value>(body).map(
        |v| v.get("content").and_then(|c| c.as_str()).map(|c| c.to_string()),
    )
}

/// The bytes that standard base64 text decodes to, if it is valid.
pub uninterp spec fn base64_decoded(input: Seq<u8>) -> Option<Seq<u8>>;

/// Relies on `base64::engine::general_purpose::STANDARD.decode`.
#[verifier::external_body]
fn base64_decode(input: &[u8]) -> (r: Result<Vec<u8>, base64::DecodeError>)
    ensures
        match r {
            Ok(v) => base64_decoded(input@) == Some(v@),
            Err(_) => base64_decoded(input@) is None,
        },
{
    base64::engine::general_purpose::STANDARD.decode(input)
}

/// Relies on `String::from_utf8`: the bytes become the string's own when they
/// are valid UTF-8, and are refused otherwise.
#[verifier::external_body]
fn string_from_utf8(bytes: Vec<u8>) -> (r: Result<String, std::string::FromUtf8Error>)
    ensures
        match r {
            Ok(s) => encode_utf8(s@) == bytes@,
            Err(_) => forall|c: Seq<char>| encode_utf8(c) != bytes@,
        },
{
    String::from_utf8(bytes)
}

/// The `type` and `path` members of one element of a directory listing.
pub type ListingItem = (Option<Seq<char>>, Option<Seq<char>>);

/// The address of the contents API for a path of a repository.
pub open spec fn contents_url_of(owner: Seq<char>, repo: Seq<char>, path: Seq<char>) -> Seq<
    char,
> {
    "https://api.github.com/repos/"@ + owner + "/"@ + repo + "/contents/"@ + path
}

/// The remote answered with a 2xx status.
pub open spec fn is_success(status: u16) -> bool {
    200 <= status <= 299
}

/// The `User-Agent` header that the remote API asks of every request.
pub const USER_AGENT: &'static str = "Mozilla/5.0 (Windows NT 10.0; Win64; x64) AppleWebKit/537.36 (KHTML, like Gecko) Chrome/119.0.0.0 Safari/537.36";

/// The `Accept` header of a file request.
pub const ACCEPT: &'static str = "application/vnd.github.v3+json";

/// The marker file whose presence is reported.
pub const MANIFEST_FILE: &'static str = "package.json";

/// Whether a status is a 2xx success.
pub fn status_is_success(status: u16) -> (r: bool)
    ensures
        r == is_success(status),
{
    200 <= status && status <= 299
}

/// Reads the status and body of an answer of the remote API: a success
/// passes, any other answer is the error that it stands for.
pub fn check_response(status: u16, body: &str) -> (r: Result<(), ConnectorError>)
    ensures
        r is Ok <==> is_success(status),
        status == 404 ==> if contains_bytes(body.spec_bytes(), "Not Found".spec_bytes()) {
            r matches Err(ConnectorError::RepositoryNotFound)
        } else {
            r matches Err(ConnectorError::PathNotFound)
        },
        status == 403 ==> if contains_bytes(body.spec_bytes(), "rate limit".spec_bytes()) {
            r matches Err(ConnectorError::RateLimited)
        } else {
            r matches Err(ConnectorError::AccessDenied)
        },
        !is_success(status) && status != 404 && status != 403 ==> match r {
            Err(ConnectorError::Api { status: s, body: b }) => s == status && b@ == body@,
            _ => false,
        },
{
    if status_is_success(status) {
        return Ok(());
    }
    let bytes = body.as_bytes();
    assert(bytes@.subrange(0, bytes@.len() as int) =~= bytes@);
    if status == 404 {
        if contains_in(bytes, 0, bytes.len(), "Not Found".as_bytes()) {
            Err(ConnectorError::RepositoryNotFound)
        } else {
            Err(ConnectorError::PathNotFound)
        }
    } else if status == 403 {
        if contains_in(bytes, 0, bytes.len(), "rate limit".as_bytes()) {
            Err(ConnectorError::RateLimited)
        } else {
            Err(ConnectorError::AccessDenied)
        }
    } else {
        Err(ConnectorError::Api { status, body: body.to_owned() })
    }
}

/// `s` without its newline bytes.
pub open spec fn without_newlines(s: Seq<u8>) -> Seq<u8> {
    s.filter(|b: u8| b != NEWLINE)
}

fn strip_newlines(s: &[u8]) -> (r: Vec<u8>)
    ensures
        r@ == without_newlines(s@),
{
    let mut r: Vec<u8> = Vec::new();
    let mut k: usize = 0;
    while k < s.len()
        invariant
            k <= s@.len(),
            r@ == s@.subrange(0, k as int).filter(|b: u8| b != NEWLINE),
        decreases s@.len() - k,
    {
        proof {
            assert(s@.subrange(0, k + 1) =~= s@.subrange(0, k as int).push(s@[k as int]));
            s@.subrange(0, k as int).lemma_filter_push(s@[k as int], |b: u8| b != NEWLINE);
        }
        if s[k] != NEWLINE {
            r.push(s[k]);
        }
        k = k + 1;
    }
    assert(s@.subrange(0, s@.len() as int) =~= s@);
    r
}

/// The text of decoded file bytes: none decoded is an encoding error, bytes
/// that are not UTF-8 a UTF-8 error.
pub fn text_of_decoded(decoded: Option<Vec<u8>>) -> (r: Result<String, ConnectorError>)
    ensures
        match decoded {
            None => r matches Err(ConnectorError::InvalidEncoding),
            Some(d) => match r {
                Ok(s) => encode_utf8(s@) == d@,
                Err(e) => e is InvalidUtf8 && forall|c: Seq<char>| encode_utf8(c) != d@,
            },
        },
{
    match decoded {
        None => Err(ConnectorError::InvalidEncoding),
        Some(d) => match string_from_utf8(d) {
            Ok(s) => Ok(s),
            Err(_) => Err(ConnectorError::InvalidUtf8),
        },
    }
}

/// The text of a file from the `content` member of a file answer: base64,
/// with newlines inside it that do not count.
pub fn content_from_field(field: Option<String>) -> (r: Result<String, ConnectorError>)
    ensures
        match field {
            None => r matches Err(ConnectorError::NoContent),
            Some(c) => match base64_decoded(without_newlines(encode_utf8(c@))) {
                None => r matches Err(ConnectorError::InvalidEncoding),
                Some(d) => match r {
                    Ok(s) => encode_utf8(s@) == d,
                    Err(e) => e is InvalidUtf8 && forall|t: Seq<char>| encode_utf8(t) != d,
                },
            },
        },
{
    match field {
        None => Err(ConnectorError::NoContent),
        Some(c) => {
            let stripped = strip_newlines(c.as_str().as_bytes());
            let decoded = match base64_decode(stripped.as_slice()) {
                Ok(d) => Some(d),
                Err(_) => None,
            };
            text_of_decoded(decoded)
        },
    }
}

/// The text of a file from the body of a successful file answer.
pub fn decode_file_response(body: &str) -> (r: Result<String, ConnectorError>)
    ensures
        match json_content_field(body@) {
            None => r matches Err(ConnectorError::InvalidResponse),
            Some(None) => r matches Err(ConnectorError::NoContent),
            Some(Some(c)) => match base64_decoded(without_newlines(encode_utf8(c))) {
                None => r matches Err(ConnectorError::InvalidEncoding),
                Some(d) => match r {
                    Ok(s) => encode_utf8(s@) == d,
                    Err(e) => e is InvalidUtf8 && forall|t: Seq<char>| encode_utf8(t) != d,
                },
            },
        },
{
    match parse_content_field(body) {
        Ok(field) => content_from_field(field),
        Err(_) => Err(ConnectorError::InvalidResponse),
    }
}

} // verus!

verus! {

/// One repository of the remote forge, and the token, if any, that goes with
/// every request to raise its rate limit.
pub struct GithubConnector {
    owner: String,
    repo: String,
    token: Option<String>,
}

impl GithubConnector {
    pub closed spec fn spec_owner(&self) -> Seq<char> {
        self.owner@
    }

    pub closed spec fn spec_repo(&self) -> Seq<char> {
        self.repo@
    }

    pub closed spec fn spec_token(&self) -> Option<Seq<char>> {
        self.token.deep_view()
    }

    /// The repository that `url` (`https://<host>/<owner>/<repo>`) names: its
    /// first two path segments. Nothing is sent anywhere.
    pub fn new(url: String, token: Option<String>) -> (r: Result<GithubConnector, ConnectorError>)
        ensures
            r is Ok <==> (url_path_segments_of(url@) is Some && url_path_segments_of(
                url@,
            )->Some_0.len() >= 2),
            r is Err ==> r matches Err(ConnectorError::InvalidUrl),
            r matches Ok(c) ==> {
                &&& c.spec_owner() == url_path_segments_of(url@)->Some_0[0]
                &&& c.spec_repo() == url_path_segments_of(url@)->Some_0[1]
                &&& c.spec_token() == token.deep_view()
            },
    {
        Self::from_path_segments(url_path_segments(url.as_str()), token)
    }

    /// The repository that a URL's path segments name: the first is the
    /// owner, the second the repository; fewer than two, or none at all, is
    /// an invalid URL.
    pub fn from_path_segments(segments: Option<Vec<String>>, token: Option<String>) -> (r: Result<
        GithubConnector,
        ConnectorError,
    >)
        ensures
            r is Ok <==> (segments is Some && segments->Some_0@.len() >= 2),
            r is Err ==> r matches Err(ConnectorError::InvalidUrl),
            r matches Ok(c) ==> {
                &&& c.spec_owner() == segments->Some_0@[0]@
                &&& c.spec_repo() == segments->Some_0@[1]@
                &&& c.spec_token() == token.deep_view()
            },
    {
        match segments {
            Some(segments) => {
                if segments.len() < 2 {
                    return Err(ConnectorError::InvalidUrl);
                }
                let owner = segments[0].clone();
                let repo = segments[1].clone();
                Ok(GithubConnector { owner, repo, token })
            },
            None => Err(ConnectorError::InvalidUrl),
        }
    }

    pub fn owner(&self) -> (r: &str)
        ensures
            r@ == self.spec_owner(),
    {
        self.owner.as_str()
    }

    pub fn repo(&self) -> (r: &str)
        ensures
            r@ == self.spec_repo(),
    {
        self.repo.as_str()
    }

    /// The address of the contents API for a path of this repository: a
    /// directory's listing, or a file with its content.
    pub fn contents_url(&self, path: &str) -> (r: String)
        ensures
            r@ == contents_url_of(self.spec_owner(), self.spec_repo(), path@),
    {
        let mut r = "https://api.github.com/repos/".to_owned();
        r.append(self.owner.as_str());
        r.append("/");
        r.append(self.repo.as_str());
        r.append("/contents/");
        r.append(path);
        r
    }

    /// The address at which the repository's `package.json` is asked for.
    pub fn manifest_url(&self) -> (r: String)
        ensures
            r@ == contents_url_of(self.spec_owner(), self.spec_repo(), MANIFEST_FILE@),
    {
        self.contents_url(MANIFEST_FILE)
    }

    /// The `Authorization` header that goes with every request: `token <t>`
    /// when a token was given, none otherwise.
    pub fn authorization(&self) -> (r: Option<String>)
        ensures
            match self.spec_token() {
                None => r is None,
                Some(t) => r.deep_view() == Some("token "@ + t),
            },
    {
        match &self.token {
            None => None,
            Some(t) => {
                let mut h = "token ".to_owned();
                h.append(t.as_str());
                Some(h)
            },
        }
    }
}

/// The paths of the listed entries of the given type, in listing order.
pub open spec fn listed_paths(items: Seq<ListingItem>, kind: Seq<char>) -> Seq<Seq<char>>
    decreases items.len(),
{
    if items.len() == 0 {
        seq![]
    } else {
        let prev = listed_paths(items.drop_last(), kind);
        let last = items.last();
        if last.0 == Some(kind) && last.1 is Some {
            prev.push(last.1->Some_0)
        } else {
            prev
        }
    }
}

/// The depth-first walk over a remote repository's tree. The caller asks for
/// the next directory, requests its listing, and hands the answer back; the
/// walk keeps the directories still to list on a stack and hands out the
/// files that each listing names.
pub struct RepoWalk {
    stack: Vec<String>,
    found_any: bool,
    files: Ghost<Seq<Seq<char>>>,
}

impl RepoWalk {
    /// The directories still to list; the last one is listed next.
    pub closed spec fn pending(&self) -> Seq<Seq<char>> {
        self.stack.deep_view()
    }

    /// The files found so far, in the order they were handed out.
    pub closed spec fn found(&self) -> Seq<Seq<char>> {
        self.files@
    }

    pub closed spec fn wf(&self) -> bool {
        self.found_any == (self.files@.len() > 0)
    }

    /// A walk that starts at the root of the repository.
    pub fn new() -> (r: RepoWalk)
        ensures
            r.wf(),
            r.pending() == seq![Seq::<char>::empty()],
            r.found() == Seq::<Seq<char>>::empty(),
    {
        let root = String::new();
        let stack = vec![root];
        let r = RepoWalk { stack, found_any: false, files: Ghost(Seq::empty()) };
        assert(r.pending() =~= seq![Seq::<char>::empty()]);
        r
    }

    /// The next directory to list, taken off the stack; none once the walk is
    /// over.
    pub fn next_directory(&mut self) -> (r: Option<String>)
        requires
            old(self).wf(),
        ensures
            final(self).wf(),
            final(self).found() == old(self).found(),
            old(self).pending().len() == 0 ==> (r is None) && final(self).pending() == old(
                self,
            ).pending(),
            old(self).pending().len() > 0 ==> r.deep_view() == Some(old(self).pending().last())
                && final(self).pending() == old(self).pending().drop_last(),
    {
        let r = self.stack.pop();
        proof {
            assert(self.stack.deep_view() =~= old(self).stack.deep_view().drop_last()
                || old(self).stack@.len() == 0);
        }
        r
    }

    /// Takes in the listing of a directory: its subdirectories go onto the
    /// stack in listing order, and its files are returned in listing order.
    /// Entries of another type, or without a type or path, are passed over.
    pub fn record_listing(&mut self, items: Vec<(Option<String>, Option<String>)>) -> (r: Vec<
        String,
    >)
        requires
            old(self).wf(),
        ensures
            final(self).wf(),
            final(self).pending() == old(self).pending() + listed_paths(
                items.deep_view(),
                "dir"@,
            ),
            r.deep_view() == listed_paths(items.deep_view(), "file"@),
            final(self).found() == old(self).found() + r.deep_view(),
    {
        let ghost all = items.deep_view();
        let ghost start = self.stack.deep_view();
        let ghost found_before = self.files@;
        let mut files: Vec<String> = Vec::new();
        let mut k: usize = 0;
        while k < items.len()
            invariant
                all == items.deep_view(),
                k <= items@.len(),
                self.stack.deep_view() == start + listed_paths(all.subrange(0, k as int), "dir"@),
                files.deep_view() == listed_paths(all.subrange(0, k as int), "file"@),
                self.files@ == found_before,
                self.found_any == (found_before.len() > 0),
            decreases items@.len() - k,
        {
            let item = &items[k];
            proof {
                assert(all.subrange(0, k + 1).drop_last() =~= all.subrange(0, k as int));
                assert(all.subrange(0, k + 1).last() == all[k as int]);
            }
            match (&item.0, &item.1) {
                (Some(kind), Some(path)) => {
                    if text_eq(kind.as_str(), "dir") {
                        let ghost before = self.stack.deep_view();
                        proof {
                            reveal_strlit("dir");
                            reveal_strlit("file");
                            assert("dir"@[0] != "file"@[0]);
                        }
                        self.stack.push(path.clone());
                        assert(self.stack.deep_view() =~= before.push(path@));
                    } else if text_eq(kind.as_str(), "file") {
                        let ghost before = files.deep_view();
                        files.push(path.clone());
                        assert(files.deep_view() =~= before.push(path@));
                    }
                },
                _ => {},
            }
            k = k + 1;
        }
        proof {
            assert(all.subrange(0, items@.len() as int) =~= all);
        }
        self.found_any = self.found_any || files.len() > 0;
        self.files = Ghost(found_before + files.deep_view());
        files
    }

    /// Takes in the answer to a listing request. A failed answer is the error
    /// it stands for, and a body that is not a JSON listing an invalid-response
    /// error; either leaves the walk as it was, and the caller ends the walk on
    /// it (a failed listing is never passed over). Otherwise as
    /// [`RepoWalk::record_listing`].
    pub fn on_listing(&mut self, status: u16, body: &str) -> (r: Result<Vec<String>, ConnectorError>)
        requires
            old(self).wf(),
        ensures
            final(self).wf(),
            !is_success(status) ==> (r is Err) && *final(self) == *old(self),
            is_success(status) && json_listing(body@) is None ==> (r matches Err(
                ConnectorError::InvalidResponse,
            )) && *final(self) == *old(self),
            is_success(status) && json_listing(body@) is Some ==> {
                let items = json_listing(body@)->Some_0;
                &&& r matches Ok(files) && files.deep_view() == listed_paths(items, "file"@)
                &&& final(self).pending() == old(self).pending() + listed_paths(items, "dir"@)
                &&& final(self).found() == old(self).found() + listed_paths(items, "file"@)
            },
    {
        match check_response(status, body) {
            Err(e) => return Err(e),
            Ok(()) => {},
        }
        match parse_listing(body) {
            Ok(items) => Ok(self.record_listing(items)),
            Err(_) => Err(ConnectorError::InvalidResponse),
        }
    }

    /// The walk's outcome once the stack is empty: a walk that found no file
    /// fails.
    pub fn finish(&self) -> (r: Result<(), ConnectorError>)
        requires
            self.wf(),
        ensures
            r is Ok <==> self.found().len() > 0,
            r is Err ==> r matches Err(ConnectorError::NoFiles),
    {
        if self.found_any {
            Ok(())
        } else {
            Err(ConnectorError::NoFiles)
        }
    }
}

/// The files of a finished remote walk, handed out one at a time in the
/// order they were found.
pub struct GithubFileIterator {
    files: Vec<String>,
    position: usize,
}

impl GithubFileIterator {
    pub closed spec fn remaining(&self) -> Seq<Seq<char>> {
        self.files.deep_view().subrange(self.position as int, self.files@.len() as int)
    }

    pub closed spec fn wf(&self) -> bool {
        self.position <= self.files@.len()
    }

    pub fn new(files: Vec<String>) -> (r: GithubFileIterator)
        ensures
            r.wf(),
            r.remaining() == files.deep_view(),
    {
        let r = GithubFileIterator { files, position: 0 };
        assert(r.remaining() =~= r.files.deep_view());
        r
    }

    pub fn next(&mut self) -> (r: Option<String>)
        requires
            old(self).wf(),
        ensures
            final(self).wf(),
            old(self).remaining().len() == 0 ==> (r is None) && final(self).remaining().len() == 0,
            old(self).remaining().len() > 0 ==> r.deep_view() == Some(old(self).remaining()[0])
                && final(self).remaining() == old(self).remaining().drop_first(),
    {
        if self.position >= self.files.len() {
            return None;
        }
        let f = self.files[self.position].clone();
        self.position = self.position + 1;
        proof {
            assert(self.remaining() =~= old(self).remaining().drop_first());
        }
        Some(f)
    }
}

} // verus!
