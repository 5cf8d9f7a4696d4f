//! The server from which Nix reads the client's copy of the cache.

use vstd::prelude::*;

use crate::cache;
use crate::cache::{cache_file_path, sanitize_http_cache_path};
use crate::error::Error;
use crate::text;
use crate::text::{chars_of, concat3, decimal_string, lines_of, same_text, starts_with, words_of};

verus! {

/// The most bytes of a request that are read without finding its end.
pub const MAX_HEADER_BYTES: usize = 16_384;

// ---------------------------------------------------------------------------
// Requests
// ---------------------------------------------------------------------------

#[derive(Clone, Copy, Debug, PartialEq, Eq, Structural)]
pub enum HttpMethod {
    Get,
    Head,
    Other,
}

/// The first line of a request.
#[derive(Debug)]
pub struct HttpRequest {
    pub method: HttpMethod,
    pub target: String,
}

/// The view of a request.
pub struct HttpRequestView {
    pub method: HttpMethod,
    pub target: Seq<char>,
}

impl View for HttpRequest {
    type V = HttpRequestView;

    open spec fn view(&self) -> HttpRequestView {
        HttpRequestView { method: self.method, target: self.target@ }
    }
}

pub open spec fn method_of(word: Seq<char>) -> HttpMethod {
    if word == "GET"@ {
        HttpMethod::Get
    } else if word == "HEAD"@ {
        HttpMethod::Head
    } else {
        HttpMethod::Other
    }
}

/// The request that a line of three words makes.
pub open spec fn request_of_words(words: Seq<Seq<char>>) -> Result<
    HttpRequestView,
    Seq<Seq<char>>,
> {
    if words.len() == 0 {
        Err(seq!["HTTP request missing method"@])
    } else if words.len() == 1 {
        Err(seq!["HTTP request missing target"@])
    } else if words.len() == 2 {
        Err(seq!["HTTP request missing version"@])
    } else if !"HTTP/1."@.is_prefix_of(words[2]) || words.len() > 3 {
        Err(seq!["invalid HTTP request line"@])
    } else {
        Ok(HttpRequestView { method: method_of(words[0]), target: words[1] })
    }
}

/// The request that bytes make.
pub open spec fn request_of_bytes(bytes: Seq<u8>) -> Result<HttpRequestView, Seq<Seq<char>>> {
    if !vstd::utf8::valid_utf8(bytes) {
        Err(seq!["HTTP request was not UTF-8"@, text::utf8_error_of(bytes)])
    } else {
        let lines = text::lines(vstd::utf8::decode_utf8(bytes));
        if lines.len() == 0 {
            Err(seq!["HTTP request missing line"@])
        } else {
            request_of_words(text::words(lines[0]))
        }
    }
}

pub open spec fn request_outcome(r: Result<HttpRequest, Error>) -> Result<
    HttpRequestView,
    Seq<Seq<char>>,
> {
    match r {
        Ok(request) => Ok(request@),
        Err(e) => Err(e@),
    }
}

/// Reads the request that bytes make.
pub fn parse_http_request(bytes: &[u8]) -> (r: Result<HttpRequest, Error>)
    ensures
        request_outcome(r) == request_of_bytes(bytes@),
{
    let request: String = match text::text_of_utf8(bytes) {
        Ok(request) => request,
        Err(why) => {
            return Err(Error::caused("HTTP request was not UTF-8".to_string(), why));
        },
    };
    let chars: Vec<char> = chars_of(request.as_str());
    let lines: Vec<String> = lines_of(chars.as_slice());
    assert(text::texts(lines@).len() == lines@.len());
    if lines.len() == 0 {
        return Err(Error::of("HTTP request missing line"));
    }
    assert(text::texts(lines@)[0] == lines@[0]@);
    let line: Vec<char> = chars_of(lines[0].as_str());
    let words: Vec<String> = words_of(line.as_slice());
    assert(text::texts(words@).len() == words@.len());
    if words.len() == 0 {
        return Err(Error::of("HTTP request missing method"));
    }
    if words.len() == 1 {
        return Err(Error::of("HTTP request missing target"));
    }
    if words.len() == 2 {
        return Err(Error::of("HTTP request missing version"));
    }
    assert(text::texts(words@)[0] == words@[0]@);
    assert(text::texts(words@)[1] == words@[1]@);
    assert(text::texts(words@)[2] == words@[2]@);
    let version: Vec<char> = chars_of(words[2].as_str());
    if !starts_with(version.as_slice(), "HTTP/1.") || words.len() > 3 {
        return Err(Error::of("invalid HTTP request line"));
    }
    let method: HttpMethod = if same_text(words[0].as_str(), "GET") {
        HttpMethod::Get
    } else if same_text(words[0].as_str(), "HEAD") {
        HttpMethod::Head
    } else {
        HttpMethod::Other
    };
    Ok(HttpRequest { method, target: words[1].clone() })
}

/// The bytes that end the head of a request.
pub open spec fn head_end() -> Seq<u8> {
    seq![13u8, 10u8, 13u8, 10u8]
}

pub open spec fn has_head_end(bytes: Seq<u8>) -> bool {
    exists|i: int| 0 <= i <= bytes.len() - 4 && #[trigger] bytes.subrange(i, i + 4) == head_end()
}

fn contains_head_end(bytes: &[u8]) -> (r: bool)
    ensures
        r == has_head_end(bytes@),
{
    if bytes.len() < 4 {
        return false;
    }
    let mut i: usize = 0;
    while i <= bytes.len() - 4
        invariant
            4 <= bytes@.len(),
            i <= bytes@.len() - 3,
            forall|j: int| 0 <= j < i ==> #[trigger] bytes@.subrange(j, j + 4) != head_end(),
        decreases bytes@.len() - i,
    {
        let ghost window = bytes@.subrange(i as int, i + 4);
        if bytes[i] == 13 && bytes[i + 1] == 10 && bytes[i + 2] == 13 && bytes[i + 3] == 10 {
            assert(window =~= head_end());
            return true;
        }
        proof {
            assert(window[0] == bytes@[i as int] && window[1] == bytes@[i + 1] && window[2]
                == bytes@[i + 2] && window[3] == bytes@[i + 3]);
            assert(head_end()[0] == 13 && head_end()[1] == 10 && head_end()[2] == 13
                && head_end()[3] == 10);
        }
        i = i + 1;
    }
    false
}

/// Bytes of a request that have come.
pub struct HttpReader {
    pub buffer: Vec<u8>,
}

/// What the bytes that have come are: a request, the beginning of one, or
/// nothing that can become one.
pub open spec fn read_so_far(bytes: Seq<u8>) -> Result<Option<HttpRequestView>, Seq<Seq<char>>> {
    if has_head_end(bytes) {
        match request_of_bytes(bytes) {
            Ok(request) => Ok(Some(request)),
            Err(e) => Err(e),
        }
    } else if bytes.len() > MAX_HEADER_BYTES {
        Err(seq!["HTTP request headers too large"@])
    } else {
        Ok(None)
    }
}

impl HttpReader {
    pub fn new() -> (reader: Self)
        ensures
            reader.buffer@ == Seq::<u8>::empty(),
    {
        HttpReader { buffer: Vec::new() }
    }

    /// Takes more bytes. None are the end of the connection.
    pub fn feed(&mut self, chunk: &[u8]) -> (r: Result<Option<HttpRequest>, Error>)
        ensures
            final(self).buffer@ == old(self).buffer@ + chunk@,
            match r {
                Ok(Some(request)) => chunk@.len() > 0 && read_so_far(final(self).buffer@) == Ok::<
                    Option<HttpRequestView>,
                    Seq<Seq<char>>,
                >(Some(request@)),
                Ok(None) => chunk@.len() > 0 && read_so_far(final(self).buffer@) == Ok::<
                    Option<HttpRequestView>,
                    Seq<Seq<char>>,
                >(None),
                Err(e) => if chunk@.len() == 0 {
                    e@ == seq!["HTTP request closed before headers"@]
                } else {
                    read_so_far(final(self).buffer@) == Err::<
                        Option<HttpRequestView>,
                        Seq<Seq<char>>,
                    >(e@)
                },
            },
    {
        let ghost before = self.buffer@;
        self.buffer.extend_from_slice(chunk);
        assert(self.buffer@ =~= before + chunk@);
        if chunk.len() == 0 {
            return Err(Error::of("HTTP request closed before headers"));
        }
        if contains_head_end(self.buffer.as_slice()) {
            return match parse_http_request(self.buffer.as_slice()) {
                Ok(request) => Ok(Some(request)),
                Err(e) => Err(e),
            };
        }
        if self.buffer.len() > MAX_HEADER_BYTES {
            return Err(Error::of("HTTP request headers too large"));
        }
        Ok(None)
    }
}

// ---------------------------------------------------------------------------
// Answers
// ---------------------------------------------------------------------------

pub open spec fn reason(code: u16) -> Seq<char> {
    if code == 200 {
        "OK"@
    } else if code == 400 {
        "Bad Request"@
    } else if code == 404 {
        "Not Found"@
    } else if code == 405 {
        "Method Not Allowed"@
    } else if code == 502 {
        "Bad Gateway"@
    } else {
        "Error"@
    }
}

/// The head of an answer.
pub open spec fn answer_head(code: u16, content_length: u64) -> Seq<char> {
    "HTTP/1.1 "@ + text::decimal(code as nat) + " "@ + reason(code) + "\r\nContent-Length: "@
        + text::decimal(content_length as nat)
        + "\r\nContent-Type: application/octet-stream\r\nConnection: close\r\n\r\n"@
}

pub fn http_head(code: u16, content_length: u64) -> (r: String)
    ensures
        r@ == answer_head(code, content_length),
{
    let why: &str = if code == 200 {
        "OK"
    } else if code == 400 {
        "Bad Request"
    } else if code == 404 {
        "Not Found"
    } else if code == 405 {
        "Method Not Allowed"
    } else if code == 502 {
        "Bad Gateway"
    } else {
        "Error"
    };
    let mut head: String = concat3("HTTP/1.1 ", decimal_string(code as u64).as_str(), " ");
    head.append(why);
    head.append("\r\nContent-Length: ");
    head.append(decimal_string(content_length).as_str());
    head.append("\r\nContent-Type: application/octet-stream\r\nConnection: close\r\n\r\n");
    head
}

/// What is done about a request.
pub enum LocalAnswer {
    /// An answer that is nothing but a head.
    Head { code: u16 },
    /// A file is looked for, which is sent in whole or by its length.
    File { file_path: String, path: String, body: bool },
}

/// The view of what is done.
pub enum LocalAnswerView {
    Head { code: u16 },
    File { file_path: Seq<char>, path: Seq<char>, body: bool },
}

impl View for LocalAnswer {
    type V = LocalAnswerView;

    open spec fn view(&self) -> LocalAnswerView {
        match *self {
            LocalAnswer::Head { code } => LocalAnswerView::Head { code },
            LocalAnswer::File { file_path, path, body } => LocalAnswerView::File {
                file_path: file_path@,
                path: path@,
                body,
            },
        }
    }
}

/// What is done about a request for a file of a cache.
pub open spec fn local_answer(cache_dir: Seq<char>, request: HttpRequestView) -> LocalAnswerView {
    if request.method == HttpMethod::Other {
        LocalAnswerView::Head { code: 405 }
    } else {
        match cache::checked_http_path(request.target) {
            Err(_) => LocalAnswerView::Head { code: 400 },
            Ok(path) => match cache::checked_cache_file(cache_dir, path) {
                Err(_) => LocalAnswerView::Head { code: 400 },
                Ok(file_path) => LocalAnswerView::File {
                    file_path,
                    path,
                    body: request.method == HttpMethod::Get,
                },
            },
        }
    }
}

pub fn answer_request(cache_dir: &str, request: &HttpRequest) -> (r: LocalAnswer)
    ensures
        r@ == local_answer(cache_dir@, request@),
{
    let body: bool = match request.method {
        HttpMethod::Get => true,
        HttpMethod::Head => false,
        HttpMethod::Other => {
            return LocalAnswer::Head { code: 405 };
        },
    };
    let path: String = match sanitize_http_cache_path(request.target.as_str()) {
        Ok(path) => path,
        Err(_) => {
            return LocalAnswer::Head { code: 400 };
        },
    };
    match cache_file_path(cache_dir, path.as_str()) {
        Ok(file_path) => LocalAnswer::File { file_path, path, body },
        Err(_) => LocalAnswer::Head { code: 400 },
    }
}

/// What comes before the body of a file, and whether a body follows: the head,
/// or where there is no such file all that is said.
pub open spec fn file_answer(path: Seq<char>, found: Option<u64>) -> (Seq<char>, bool) {
    match found {
        Some(len) => (answer_head(200, len), true),
        None => {
            let message = "cache file not found: "@ + path + "\n"@;
            (
                answer_head(404, vstd::utf8::encode_utf8(message).len() as u64) + message,
                false,
            )
        },
    }
}

pub fn answer_file(path: &str, found: Option<u64>) -> (r: (String, bool))
    ensures
        (r.0@, r.1) == file_answer(path@, found),
{
    match found {
        Some(len) => (http_head(200, len), true),
        None => {
            let message: String = concat3("cache file not found: ", path, "\n");
            let bytes: &[u8] = message.as_str().as_bytes();
            let mut answer: String = http_head(404, bytes.len() as u64);
            answer.append(message.as_str());
            (answer, false)
        },
    }
}

// ---------------------------------------------------------------------------
// Laws
// ---------------------------------------------------------------------------

/// Nothing is served but files of the cache: a request gets a file only by a
/// path that the cache has, below its directory.
pub proof fn law_only_cache_files_are_served(cache_dir: Seq<char>, request: HttpRequestView)
    ensures
        local_answer(cache_dir, request) matches LocalAnswerView::File { file_path, path, .. } ==> {
            &&& cache::checked_cache_path(path) == Ok::<Seq<char>, Seq<Seq<char>>>(path)
            &&& file_path == crate::paths::joined(cache_dir, path)
        },
{
    if let LocalAnswerView::File { path, .. } = local_answer(cache_dir, request) {
        let asked = text::strip_prefix(cache::target_path(request.target), "/"@)->0;
        cache::law_accepted_path_is_unchanged(asked);
    }
}

/// A path of the cache that is asked for is served.
pub proof fn law_cache_paths_are_served(cache_dir: Seq<char>, path: Seq<char>, method: HttpMethod)
    requires
        method != HttpMethod::Other,
        cache::checked_cache_path(path) is Ok,
        !path.contains('?'),
    ensures
        local_answer(cache_dir, HttpRequestView { method, target: "/"@ + path }) == (
        LocalAnswerView::File {
            file_path: crate::paths::joined(cache_dir, path),
            path,
            body: method == HttpMethod::Get,
        }),
{
    let target = "/"@ + path;
    reveal_strlit("/");
    cache::law_accepted_path_is_unchanged(path);
    assert forall|i: int| 0 <= i < target.len() implies target[i] != '?' by {
        if i > 0 {
            assert(target[i] == path[i - 1]);
            assert(path.contains(path[i - 1]));
        }
    }
    text::lemma_find(target, '?');
    assert(text::split_once(target, '?') is None);
    assert(cache::target_path(target) == target);
    assert("/"@ =~= target.subrange(0, 1));
    assert(target.skip(1) =~= path);
    assert(text::strip_prefix(target, "/"@) == Some(path));
}

/// A request is read that has come as a line with the method, a target and a version
/// of HTTP/1, each a word, and an empty line after all its lines.
pub proof fn law_requests_are_read(bytes: Seq<u8>, words: Seq<Seq<char>>)
    requires
        vstd::utf8::valid_utf8(bytes),
        text::lines(vstd::utf8::decode_utf8(bytes)).len() > 0,
        words == text::words(text::lines(vstd::utf8::decode_utf8(bytes))[0]),
        words.len() == 3,
        "HTTP/1."@.is_prefix_of(words[2]),
    ensures
        request_of_bytes(bytes) matches Ok(request) && {
            &&& request.target == words[1]
            &&& words[0] == "GET"@ ==> request.method == HttpMethod::Get
            &&& words[0] == "HEAD"@ ==> request.method == HttpMethod::Head
            &&& words[0] != "GET"@ && words[0] != "HEAD"@ ==> request.method == HttpMethod::Other
        },
        has_head_end(bytes) ==> (read_so_far(bytes) matches Ok(Some(request)) && request.target
            == words[1]),
{
    reveal_strlit("GET");
    reveal_strlit("HEAD");
    assert("GET"@.len() != "HEAD"@.len());
}

/// Until the end of the head has come, up to 16 KiB are waited for.
pub proof fn law_heads_are_waited_for(bytes: Seq<u8>)
    requires
        forall|i: int|
            0 <= i && i + 4 <= bytes.len() ==> !(bytes[i] == 13 && bytes[i + 1] == 10 && bytes[i + 2]
                == 13 && #[trigger] bytes[i + 3] == 10),
    ensures
        bytes.len() <= 16_384 ==> read_so_far(bytes) == Ok::<
            Option<HttpRequestView>,
            Seq<Seq<char>>,
        >(None),
        bytes.len() > 16_384 ==> read_so_far(bytes) is Err,
{
    if has_head_end(bytes) {
        let i = choose|i: int|
            0 <= i <= bytes.len() - 4 && #[trigger] bytes.subrange(i, i + 4) == head_end();
        let window = bytes.subrange(i, i + 4);
        assert(window[0] == bytes[i] && window[1] == bytes[i + 1] && window[2] == bytes[i + 2]
            && window[3] == bytes[i + 3]);
        assert(head_end()[0] == 13 && head_end()[1] == 10 && head_end()[2] == 13 && head_end()[3]
            == 10);
    }
}

/// What is no request for a file of the cache is answered with the code that says so.
pub proof fn law_other_requests_are_refused(cache_dir: Seq<char>, target: Seq<char>)
    ensures
        local_answer(cache_dir, HttpRequestView { method: HttpMethod::Other, target }) == (
        LocalAnswerView::Head { code: 405 }),
        cache::checked_http_path(target) is Err ==> local_answer(
            cache_dir,
            HttpRequestView { method: HttpMethod::Get, target },
        ) == (LocalAnswerView::Head { code: 400 }),
        cache::checked_http_path(target) is Err ==> local_answer(
            cache_dir,
            HttpRequestView { method: HttpMethod::Head, target },
        ) == (LocalAnswerView::Head { code: 400 }),
{
}

/// An answer says its code, and how long its body is: that of the file, or of the
/// line which says that there is none.
pub proof fn law_answers_say_how_long_they_are(
    path: Seq<char>,
    len: u64,
    code: u16,
    content_length: u64,
)
    ensures
        ("HTTP/1.1 "@ + text::decimal(code as nat) + " "@).is_prefix_of(
            answer_head(code, content_length),
        ),
        answer_head(code, content_length) == "HTTP/1.1 "@ + text::decimal(code as nat) + " "@
            + reason(code) + "\r\nContent-Length: "@ + text::decimal(content_length as nat)
            + "\r\nContent-Type: application/octet-stream\r\nConnection: close\r\n\r\n"@,
        reason(200) == "OK"@,
        reason(400) == "Bad Request"@,
        reason(404) == "Not Found"@,
        reason(405) == "Method Not Allowed"@,
        reason(502) == "Bad Gateway"@,
        file_answer(path, Some(len)) == (answer_head(200, len), true),
        !file_answer(path, None).1,
        ({
            let message = "cache file not found: "@ + path + "\n"@;
            file_answer(path, None).0 == answer_head(
                404,
                vstd::utf8::encode_utf8(message).len() as u64,
            ) + message
        }),
{
    let start = "HTTP/1.1 "@ + text::decimal(code as nat) + " "@;
    let head = answer_head(code, content_length);
    assert(start =~= head.take(start.len() as int));
}

/// A request line that lacks a word, or has one too many, or is of another
/// protocol is refused, with what is wrong.
pub proof fn law_bad_request_lines_are_refused(words: Seq<Seq<char>>, bytes: Seq<u8>, code: u16)
    ensures
        words.len() == 0 ==> request_of_words(words) == Err::<HttpRequestView, Seq<Seq<char>>>(
            seq!["HTTP request missing method"@],
        ),
        words.len() == 1 ==> request_of_words(words) == Err::<HttpRequestView, Seq<Seq<char>>>(
            seq!["HTTP request missing target"@],
        ),
        words.len() == 2 ==> request_of_words(words) == Err::<HttpRequestView, Seq<Seq<char>>>(
            seq!["HTTP request missing version"@],
        ),
        words.len() > 3 || (words.len() == 3 && !"HTTP/1."@.is_prefix_of(words[2]))
            ==> request_of_words(words) == Err::<HttpRequestView, Seq<Seq<char>>>(
            seq!["invalid HTTP request line"@],
        ),
        !vstd::utf8::valid_utf8(bytes) ==> (request_of_bytes(bytes) matches Err(e) && e.len() == 2
            && e[0] == "HTTP request was not UTF-8"@),
        vstd::utf8::valid_utf8(bytes) && vstd::utf8::decode_utf8(bytes).len() == 0
            ==> request_of_bytes(bytes) == Err::<HttpRequestView, Seq<Seq<char>>>(
            seq!["HTTP request missing line"@],
        ),
        !has_head_end(bytes) && bytes.len() > 16_384 ==> read_so_far(bytes) == Err::<
            Option<HttpRequestView>,
            Seq<Seq<char>>,
        >(seq!["HTTP request headers too large"@]),
        code != 200 && code != 400 && code != 404 && code != 405 && code != 502 ==> reason(code)
            == "Error"@,
{
}

} // verus!
