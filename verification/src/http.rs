//! What to answer to a request: validation of the request line, the page and
//! status line to serve, and the framing of the response.

use vstd::prelude::*;
use vstd::string::*;
use crate::text::{append_decimal, decimal, str_eq};

verus! {

/// Why a request is not answered with the page it asked for.
#[derive(Debug, Clone, Copy, PartialEq, Eq, Structural)]
pub enum HTTPError {
    /// The request line is missing or malformed.
    InvalidRequest,
    /// No route matches the request.
    NotFound,
}

/// The status line sent with a page that was found.
pub open spec fn ok_status_line() -> Seq<char> {
    "HTTP/1.1 200 OK"@
}

/// The status line that reports `error`.
pub open spec fn status_line(error: HTTPError) -> Seq<char> {
    match error {
        HTTPError::InvalidRequest => "HTTP/1.1 400 Bad Request"@,
        HTTPError::NotFound => "HTTP/1.1 404 Not Found"@,
    }
}

/// The page served to report `error`.
pub open spec fn error_page(error: HTTPError) -> Seq<char> {
    match error {
        HTTPError::InvalidRequest => "400.html"@,
        HTTPError::NotFound => "404.html"@,
    }
}

/// The body sent when the page to serve cannot be read.
pub open spec fn unreadable_page_body() -> Seq<char> {
    "<DOCTYPE html><html><head></head><body><h1>500 Internal Server Error</h1></body></html>"@
}

/// The status line sent when the route that matches names no page.
pub open spec fn no_page_status_line() -> Seq<char> {
    "HTTP/1.1 500 Internal Server Error"@
}

/// A target is not empty and holds no space.
pub open spec fn is_target(target: Seq<char>) -> bool {
    &&& target.len() > 0
    &&& forall|i: int| 0 <= i < target.len() ==> target[i] != ' '
}

/// The request line that asks for `target`: the method `GET`, one space, the
/// target, one space, the version `HTTP/1.1`.
pub open spec fn request_line(target: Seq<char>) -> Seq<char> {
    "GET"@ + seq![' '] + target + seq![' '] + "HTTP/1.1"@
}

/// A line is a valid request exactly when it is the request line for some target.
pub open spec fn is_valid_request(line: Seq<char>) -> bool {
    exists|target: Seq<char>| is_target(target) && line == #[trigger] request_line(target)
}

/// What lies between the first four and the last nine characters of `line`:
/// the target, if `line` is a valid request.
pub open spec fn target_of(line: Seq<char>) -> Seq<char> {
    line.subrange(4, line.len() - 9)
}

/// A request line lets its target be read back: for whatever it asks, it starts
/// with `GET` and a space, ends with a space and `HTTP/1.1`, and holds the
/// target, and nothing else, in between.
pub proof fn lemma_request_line_parts(target: Seq<char>)
    ensures
        request_line(target).len() == target.len() + 13,
        request_line(target).subrange(0, 4) == "GET "@,
        request_line(target).subrange(target.len() as int + 4, target.len() as int + 13) == " HTTP/1.1"@,
        target_of(request_line(target)) == target,
{
    reveal_strlit("GET");
    reveal_strlit("HTTP/1.1");
    reveal_strlit("GET ");
    reveal_strlit(" HTTP/1.1");
    let line = request_line(target);
    assert(line.subrange(0, 4) =~= "GET "@);
    assert(line.subrange(target.len() as int + 4, target.len() as int + 13) =~= " HTTP/1.1"@);
    assert(target_of(line) =~= target);
}

/// A line that starts with `GET` and a space and ends with a space and
/// `HTTP/1.1`, the two not overlapping, is the request line for what lies between.
pub proof fn lemma_parts_make_request_line(line: Seq<char>)
    requires
        line.len() >= 13,
        line.subrange(0, 4) == "GET "@,
        line.subrange(line.len() - 9, line.len() as int) == " HTTP/1.1"@,
    ensures
        line == request_line(target_of(line)),
{
    reveal_strlit("GET");
    reveal_strlit("HTTP/1.1");
    reveal_strlit("GET ");
    reveal_strlit(" HTTP/1.1");
    let head = line.subrange(0, 4);
    let tail = line.subrange(line.len() - 9, line.len() as int);
    let made = request_line(target_of(line));
    assert(made.len() == line.len());
    assert forall|i: int| 0 <= i < line.len() implies line[i] == made[i] by {
        if i < 4 {
            assert(line[i] == head[i]);
        } else if i >= line.len() - 9 {
            assert(line[i] == tail[i - (line.len() - 9)]);
        }
    }
    assert(line =~= made);
}

/// The response that carries `contents` under `status_line`: the status line, the
/// length of the contents in bytes, the content type, an empty line, the contents.
pub open spec fn response(status_line: Seq<char>, contents: Seq<char>) -> Seq<char> {
    status_line + "\r\nContent-Length: "@ + decimal(vstd::utf8::encode_utf8(contents).len())
        + "\r\nContent-Type: text/html; charset=UTF-8\r\n\r\n"@ + contents
}

/// The status line and the page for a request that failed with `error`.
pub fn get_status_line_and_file_from_http_status(error: HTTPError) -> (r: (
    &'static str,
    &'static str,
))
    ensures
        r.0@ == status_line(error),
        r.1@ == error_page(error),
{
    match error {
        HTTPError::InvalidRequest => ("HTTP/1.1 400 Bad Request", "400.html"),
        HTTPError::NotFound => ("HTTP/1.1 404 Not Found", "404.html"),
    }
}

/// Validates the first line of a request, `request`, which is `None` when no line
/// could be read. A valid line yields its method, target and version.
pub fn validate_request(request: Option<&str>) -> (r: Result<(String, String, String), HTTPError>)
    ensures
        match r {
            Ok((method, uri, version)) => {
                &&& request matches Some(line)
                &&& is_target(uri@)
                &&& line@ == request_line(uri@)
                &&& method@ == "GET"@
                &&& version@ == "HTTP/1.1"@
            },
            Err(e) => {
                &&& e == HTTPError::InvalidRequest
                &&& !(request matches Some(line) && is_valid_request(line@))
            },
        },
{
    let line = match request {
        Some(line) => line,
        None => return Err(HTTPError::InvalidRequest),
    };
    proof {
        // Whatever target a valid line asks for is found where this function looks.
        assert forall|target: Seq<char>|
            is_target(target) && line@ == #[trigger] request_line(target) implies {
            &&& line@.len() >= 14
            &&& line@.subrange(0, 4) == "GET "@
            &&& line@.subrange(line@.len() - 9, line@.len() as int) == " HTTP/1.1"@
            &&& target_of(line@) == target
        } by {
            lemma_request_line_parts(target);
        }
    }
    let n: usize = line.unicode_len();
    if n < 14 {
        return Err(HTTPError::InvalidRequest);
    }
    if !str_eq(line.substring_char(0, 4), "GET ") {
        return Err(HTTPError::InvalidRequest);
    }
    if !str_eq(line.substring_char(n - 9, n), " HTTP/1.1") {
        return Err(HTTPError::InvalidRequest);
    }
    let uri = line.substring_char(4, n - 9);
    for c in it: uri.chars()
        invariant
            it.seq() == uri@,
            request == Some(line),
            uri@ == target_of(line@),
            forall|target: Seq<char>|
                is_target(target) && line@ == #[trigger] request_line(target) ==> target_of(line@)
                    == target,
            forall|i: int| 0 <= i < it.index() ==> uri@[i] != ' ',
    {
        if c == ' ' {
            assert(uri@[it.index() as int] == ' ');
            return Err(HTTPError::InvalidRequest);
        }
    }
    proof {
        lemma_parts_make_request_line(line@);
    }
    Ok(("GET".to_owned(), uri.to_owned(), "HTTP/1.1".to_owned()))
}

/// The status line and the page to serve for a valid request, given what its
/// route said: `None` where no route matches the request, `Some(None)` where the
/// handler of the matching route names no page, `Some(Some(file))` where it names
/// `file`. Where no page is named there is none to read, and the body to send is
/// what [`get_file_contents`] gives for a page that could not be read.
pub fn select_page(found: Option<Option<String>>) -> (r: (&'static str, Option<String>))
    ensures
        match found {
            Some(Some(file)) => {
                &&& r.0@ == ok_status_line()
                &&& r.1 matches Some(page)
                &&& page@ == file@
            },
            Some(None) => {
                &&& r.0@ == no_page_status_line()
                &&& r.1 is None
            },
            None => {
                &&& r.0@ == status_line(HTTPError::NotFound)
                &&& r.1 matches Some(page)
                &&& page@ == error_page(HTTPError::NotFound)
            },
        },
{
    match found {
        Some(Some(file)) => ("HTTP/1.1 200 OK", Some(file)),
        Some(None) => ("HTTP/1.1 500 Internal Server Error", None),
        None => {
            let (status_line, file) = get_status_line_and_file_from_http_status(
                HTTPError::NotFound,
            );
            (status_line, Some(file.to_owned()))
        },
    }
}

/// The body to send, given what reading the page gave: its contents, or `None`
/// when it could not be read.
pub fn get_file_contents(read: Option<String>) -> (contents: String)
    ensures
        contents@ == match read {
            Some(text) => text@,
            None => unreadable_page_body(),
        },
{
    match read {
        Some(text) => text,
        None => "<DOCTYPE html><html><head></head><body><h1>500 Internal Server Error</h1></body></html>".to_owned(),
    }
}

/// Frames `contents` as a response under `status_line`.
pub fn construct_respoonse(status_line: &str, contents: &str) -> (r: String)
    ensures
        r@ == response(status_line@, contents@),
{
    let mut r = status_line.to_owned();
    r.append("\r\nContent-Length: ");
    let length: usize = contents.as_bytes().len();
    append_decimal(&mut r, length as u64);
    r.append("\r\nContent-Type: text/html; charset=UTF-8\r\n\r\n");
    r.append(contents);
    r
}

} // verus!
